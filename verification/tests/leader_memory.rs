use daphne::codec::get_encoded;
use daphne::error::{DapAbort, DapError};
use daphne::messages::{
    BatchSelector, Collection, HpkeAeadId, HpkeCiphertext, HpkeConfig, HpkeKdfId, HpkeKemId, Id,
    Interval, PartialBatchSelector, Report, ReportMetadata,
};
use daphne::roles::{DapCollectionJob, WorkItem};
use daphne::task::{
    DapQueryConfig, DapTaskConfig, DapTaskConfigMethod, DapVersion, VdafConfig,
};
use daphne::testing::{MockAuditLog, MockLeaderMemory};

fn task(query: DapQueryConfig, time_precision: u64, min_batch_size: u64) -> DapTaskConfig {
    DapTaskConfig {
        version: DapVersion::DraftLatest,
        leader_url: "http://leader.com".to_string(),
        helper_url: "https://helper.org".to_string(),
        time_precision,
        start: 0,
        expiration: u64::MAX,
        min_batch_size,
        query,
        vdaf: VdafConfig::Prio3Count,
        vdaf_verify_key: vec![0; 16],
        collector_hpke_config: HpkeConfig {
            id: 0,
            kem_id: HpkeKemId::X25519HkdfSha256,
            kdf_id: HpkeKdfId::HkdfSha256,
            aead_id: HpkeAeadId::Aes128Gcm,
            public_key: vec![],
        },
        method: DapTaskConfigMethod::Unknown,
    }
}

fn time_interval_task() -> DapTaskConfig {
    task(DapQueryConfig::TimeInterval, 500, 10)
}

fn fixed_size_task() -> DapTaskConfig {
    task(DapQueryConfig::FixedSize { max_batch_size: None }, 500, 10)
}

fn report(task_id: &Id, time: u64, id: u8) -> Report {
    Report {
        task_id: *task_id,
        metadata: ReportMetadata { time, id: Id([id; 32]) },
        ignored_extensions: vec![],
        encrypted_input_shares: vec![
            HpkeCiphertext { config_id: 1, enc: vec![id], payload: vec![1] },
            HpkeCiphertext { config_id: 2, enc: vec![id], payload: vec![2] },
        ],
    }
}

fn is_bad_request(r: &DapError, text: &str) -> bool {
    matches!(r, DapError::Abort(DapAbort::BadRequest(t)) if t == text)
}

fn is_fatal(r: &DapError, text: &str) -> bool {
    matches!(r, DapError::Fatal(t) if t == text)
}

#[test]
fn audit_log_counts_jobs() {
    let mut log = MockAuditLog::new();
    assert_eq!(log.invocations(), 0);
    log.on_aggregation_job();
    log.on_aggregation_job();
    assert_eq!(log.invocations(), 2);
    assert_eq!(MockAuditLog::default().invocations(), 0);
}

#[test]
fn time_interval_reports_wait_in_their_windows() {
    let task_id = Id([1; 32]);
    let task = time_interval_task();
    let mut mem = MockLeaderMemory::default();
    // Ten reports at the times 1000, 1100, ..., 1900: five in the window
    // that starts at 1000 and five in the one that starts at 1500.
    for i in 0..10u8 {
        let time = 1000 + 100 * u64::from(i);
        assert_eq!(mem.put_report(&task_id, &task, report(&task_id, time, i)), Ok(()));
    }
    assert_eq!(mem.dequeue_work(10), Ok(vec![]));

    let coll_job_id = Id([9; 32]);
    let batch_sel =
        BatchSelector::TimeInterval { batch_interval: Interval { start: 1000, duration: 1000 } };
    let uri = mem
        .init_collect_job(&task_id, &task, &Some(coll_job_id), batch_sel, vec![0xa0])
        .unwrap();
    assert_eq!(
        uri,
        format!(
            "http://leader.com/collect/task/{}/req/{}",
            task_id.to_base64url(),
            coll_job_id.to_base64url()
        )
    );
    assert_eq!(
        uri,
        "http://leader.com/collect/task/AQEBAQEBAQEBAQEBAQEBAQEBAQEBAQEBAQEBAQEBAQE/req/CQkJCQkJCQkJCQkJCQkJCQkJCQkJCQkJCQkJCQkJCQk"
    );

    let work = mem.dequeue_work(10).unwrap();
    assert_eq!(work.len(), 3);
    let first: Vec<Report> = (0..5u8).map(|i| report(&task_id, 1000 + 100 * u64::from(i), i)).collect();
    let second: Vec<Report> =
        (5..10u8).map(|i| report(&task_id, 1000 + 100 * u64::from(i), i)).collect();
    assert_eq!(
        work[0],
        WorkItem::AggregationJob {
            task_id,
            part_batch_sel: PartialBatchSelector::TimeInterval,
            agg_param: vec![0xa0],
            reports: first,
        }
    );
    assert_eq!(
        work[1],
        WorkItem::AggregationJob {
            task_id,
            part_batch_sel: PartialBatchSelector::TimeInterval,
            agg_param: vec![0xa0],
            reports: second,
        }
    );
    assert_eq!(
        work[2],
        WorkItem::CollectionJob { task_id, coll_job_id, batch_sel, agg_param: vec![0xa0] }
    );
    assert_eq!(mem.dequeue_work(1), Ok(vec![]));
    assert_eq!(mem.poll_collect_job(&task_id, &coll_job_id), Ok(DapCollectionJob::Pending));
}

#[test]
fn collect_job_takes_only_the_windows_of_its_interval() {
    let task_id = Id([1; 32]);
    let task = time_interval_task();
    let mut mem = MockLeaderMemory::default();
    for (i, time) in [499u64, 500, 999, 1000, 1499, 1500].into_iter().enumerate() {
        mem.put_report(&task_id, &task, report(&task_id, time, i as u8)).unwrap();
    }
    let batch_sel =
        BatchSelector::TimeInterval { batch_interval: Interval { start: 500, duration: 1000 } };
    mem.init_collect_job(&task_id, &task, &Some(Id([9; 32])), batch_sel, vec![]).unwrap();
    let work = mem.dequeue_work(usize::MAX).unwrap();
    assert_eq!(work.len(), 3);
    match &work[0] {
        WorkItem::AggregationJob { reports, .. } => {
            let times: Vec<u64> = reports.iter().map(|r| r.metadata.time).collect();
            assert_eq!(times, vec![500, 999]);
        }
        other => panic!("unexpected work item {:?}", other),
    }
    match &work[1] {
        WorkItem::AggregationJob { reports, .. } => {
            let times: Vec<u64> = reports.iter().map(|r| r.metadata.time).collect();
            assert_eq!(times, vec![1000, 1499]);
        }
        other => panic!("unexpected work item {:?}", other),
    }
    // The reports outside the interval still wait.
    let rest =
        BatchSelector::TimeInterval { batch_interval: Interval { start: 0, duration: 2000 } };
    mem.init_collect_job(&task_id, &task, &Some(Id([10; 32])), rest, vec![]).unwrap();
    let work = mem.dequeue_work(usize::MAX).unwrap();
    assert_eq!(work.len(), 3);
    match (&work[0], &work[1]) {
        (
            WorkItem::AggregationJob { reports: first, .. },
            WorkItem::AggregationJob { reports: second, .. },
        ) => {
            assert_eq!(first[0].metadata.time, 499);
            assert_eq!(second[0].metadata.time, 1500);
        }
        other => panic!("unexpected work items {:?}", other),
    }
}

#[test]
fn fixed_size_batches_fill_one_after_the_other() {
    let task_id = Id([1; 32]);
    let task = fixed_size_task();
    let mut mem = MockLeaderMemory::default();
    let batches = [Id([0xb0; 32]), Id([0xb1; 32]), Id([0xb2; 32])];
    for i in 0..25u8 {
        // A fresh name is offered each time and taken only when a batch
        // is needed.
        let fresh = batches[usize::from(i / 10)];
        assert_eq!(mem.put_report_with(&task_id, &task, report(&task_id, 7, i), fresh), Ok(()));
    }
    assert_eq!(
        mem.batch_queue(&task_id),
        vec![(batches[0], 10), (batches[1], 10), (batches[2], 5)]
    );
    assert_eq!(mem.current_batch(&task_id, &task), Ok(batches[0]));
    assert!(mem.has_batch(&task_id, &batches[1]));
    assert!(!mem.has_batch(&task_id, &Id([0xb3; 32])));
    assert!(!mem.has_batch(&Id([2; 32]), &batches[1]));

    let batch_sel = BatchSelector::FixedSizeByBatchId { batch_id: batches[0] };
    mem.init_collect_job(&task_id, &task, &Some(Id([9; 32])), batch_sel, vec![]).unwrap();
    assert_eq!(mem.batch_queue(&task_id), vec![(batches[1], 10), (batches[2], 5)]);
    assert_eq!(mem.current_batch(&task_id, &task), Ok(batches[1]));
    assert!(!mem.has_batch(&task_id, &batches[0]));

    let work = mem.dequeue_work(5).unwrap();
    assert_eq!(work.len(), 2);
    match &work[0] {
        WorkItem::AggregationJob { part_batch_sel, reports, .. } => {
            assert_eq!(
                *part_batch_sel,
                PartialBatchSelector::FixedSizeByBatchId { batch_id: batches[0] }
            );
            let ids: Vec<Id> = reports.iter().map(|r| r.metadata.id).collect();
            assert_eq!(ids, (0..10u8).map(|i| Id([i; 32])).collect::<Vec<_>>());
        }
        other => panic!("unexpected work item {:?}", other),
    }

    // The next report goes to the batch that has room.
    mem.put_report_with(&task_id, &task, report(&task_id, 7, 99), Id([0xb9; 32])).unwrap();
    assert_eq!(mem.batch_queue(&task_id), vec![(batches[1], 10), (batches[2], 6)]);
}

#[test]
fn fixed_size_batches_get_random_names() {
    let task_id = Id([1; 32]);
    let task = task(DapQueryConfig::FixedSize { max_batch_size: None }, 500, 1);
    let mut mem = MockLeaderMemory::default();
    mem.put_report(&task_id, &task, report(&task_id, 7, 1)).unwrap();
    mem.put_report(&task_id, &task, report(&task_id, 7, 2)).unwrap();
    let queue = mem.batch_queue(&task_id);
    assert_eq!(queue.len(), 2);
    assert_eq!(queue[0].1, 1);
    assert_eq!(queue[1].1, 1);
    assert_ne!(queue[0].0, queue[1].0);
    assert_ne!(queue[0].0, Id([0; 32]));
}

#[test]
fn current_batch_errors() {
    let task_id = Id([1; 32]);
    let mut mem = MockLeaderMemory::default();
    let err = mem.current_batch(&task_id, &time_interval_task()).unwrap_err();
    assert!(is_bad_request(&err, "tried to get current batch from non fixed-size task"));
    // The queue of a task for which no report was put is empty.
    let err = mem.current_batch(&task_id, &fixed_size_task()).unwrap_err();
    assert!(is_bad_request(&err, "empty batch queue"));
    // So is that of a task that has only a collection job.
    let batch_sel = BatchSelector::FixedSizeByBatchId { batch_id: Id([5; 32]) };
    mem.init_collect_job(&task_id, &fixed_size_task(), &None, batch_sel, vec![]).unwrap();
    let err = mem.current_batch(&task_id, &fixed_size_task()).unwrap_err();
    assert!(is_bad_request(&err, "empty batch queue"));
}

#[test]
fn collection_job_goes_from_unknown_to_pending_to_done() {
    let task_id = Id([1; 32]);
    let task = time_interval_task();
    let coll_job_id = Id([9; 32]);
    let mut mem = MockLeaderMemory::default();
    assert_eq!(
        mem.poll_collect_job(&task_id, &coll_job_id),
        Err(DapError::Abort(DapAbort::UnrecognizedTask))
    );
    let collection = Collection {
        part_batch_sel: PartialBatchSelector::TimeInterval,
        report_count: 10,
        interval: Interval { start: 1000, duration: 500 },
        encrypted_agg_shares: vec![HpkeCiphertext { config_id: 1, enc: vec![2], payload: vec![3] }],
    };
    let err = mem.finish_collect_job(&task_id, &coll_job_id, &collection).unwrap_err();
    assert!(is_fatal(&err, "collect job not found for task_id"));

    mem.put_report(&task_id, &task, report(&task_id, 1000, 1)).unwrap();
    assert_eq!(mem.poll_collect_job(&task_id, &coll_job_id), Ok(DapCollectionJob::Unknown));
    let err = mem.finish_collect_job(&task_id, &coll_job_id, &collection).unwrap_err();
    assert!(is_fatal(&err, "collect job not found for collect_id"));

    let batch_sel =
        BatchSelector::TimeInterval { batch_interval: Interval { start: 1000, duration: 500 } };
    mem.init_collect_job(&task_id, &task, &Some(coll_job_id), batch_sel, vec![]).unwrap();
    assert_eq!(mem.poll_collect_job(&task_id, &coll_job_id), Ok(DapCollectionJob::Pending));

    assert_eq!(mem.finish_collect_job(&task_id, &coll_job_id, &collection), Ok(()));
    assert_eq!(
        mem.poll_collect_job(&task_id, &coll_job_id),
        Ok(DapCollectionJob::Done(collection.clone()))
    );
    let err = mem.finish_collect_job(&task_id, &coll_job_id, &collection).unwrap_err();
    assert!(is_fatal(&err, "tried to overwrite completed collection job"));
    assert_eq!(
        mem.poll_collect_job(&task_id, &coll_job_id),
        Ok(DapCollectionJob::Done(collection))
    );
}

#[test]
fn collection_job_cannot_be_started_twice() {
    let task_id = Id([1; 32]);
    let task = time_interval_task();
    let coll_job_id = Id([0; 32]);
    let batch_sel =
        BatchSelector::TimeInterval { batch_interval: Interval { start: 1000, duration: 500 } };
    let mut mem = MockLeaderMemory::default();
    mem.init_collect_job(&task_id, &task, &Some(coll_job_id), batch_sel, vec![]).unwrap();
    let err =
        mem.init_collect_job(&task_id, &task, &Some(coll_job_id), batch_sel, vec![]).unwrap_err();
    assert!(is_bad_request(
        &err,
        "tried to overwrite collection job AAAAAAAAAAAAAAAAAAAAAAAAAAAAAAAAAAAAAAAAAAA"
    ));
    // Only the first request queued work.
    assert_eq!(mem.dequeue_work(10).unwrap().len(), 1);
}

#[test]
fn collection_job_without_a_name_gets_a_random_one() {
    let task_id = Id([1; 32]);
    let task = time_interval_task();
    let batch_sel =
        BatchSelector::TimeInterval { batch_interval: Interval { start: 1000, duration: 500 } };
    let mut mem = MockLeaderMemory::default();
    let first = mem.init_collect_job(&task_id, &task, &None, batch_sel, vec![]).unwrap();
    let second = mem.init_collect_job(&task_id, &task, &None, batch_sel, vec![]).unwrap();
    let prefix = format!("http://leader.com/collect/task/{}/req/", task_id.to_base64url());
    assert!(first.starts_with(&prefix));
    assert!(second.starts_with(&prefix));
    assert_eq!(first.len(), prefix.len() + 43);
    assert_ne!(first, second);
    let work = mem.dequeue_work(10).unwrap();
    match &work[0] {
        WorkItem::CollectionJob { coll_job_id, .. } => {
            assert_eq!(first, format!("{}{}", prefix, coll_job_id.to_base64url()));
            assert_eq!(mem.poll_collect_job(&task_id, coll_job_id), Ok(DapCollectionJob::Pending));
        }
        other => panic!("unexpected work item {:?}", other),
    }
}

#[test]
fn collection_job_needs_an_address() {
    let task_id = Id([1; 32]);
    let mut task = time_interval_task();
    task.leader_url = "not an address".to_string();
    let batch_sel =
        BatchSelector::TimeInterval { batch_interval: Interval { start: 1000, duration: 500 } };
    let mut mem = MockLeaderMemory::default();
    let err = mem.init_collect_job(&task_id, &task, &Some(Id([9; 32])), batch_sel, vec![]).unwrap_err();
    assert!(is_fatal(&err, "collection job address cannot be built"));
    // The task is known afterwards, the job is not.
    assert_eq!(mem.poll_collect_job(&task_id, &Id([9; 32])), Ok(DapCollectionJob::Unknown));
    assert_eq!(mem.dequeue_work(10), Ok(vec![]));

    let err = mem
        .init_collect_job_with(&task_id, &task, Id([9; 32]), "nine", None, batch_sel, vec![])
        .unwrap_err();
    assert!(is_fatal(&err, "collection job address cannot be built"));
    assert_eq!(
        mem.init_collect_job_with(
            &task_id,
            &task,
            Id([9; 32]),
            "nine",
            Some("anything".to_string()),
            batch_sel,
            vec![]
        ),
        Ok("anything".to_string())
    );
    let err = mem
        .init_collect_job_with(
            &task_id,
            &task,
            Id([9; 32]),
            "nine",
            Some("anything".to_string()),
            batch_sel,
            vec![],
        )
        .unwrap_err();
    assert!(is_bad_request(&err, "tried to overwrite collection job nine"));
}

#[test]
fn collection_job_address_keeps_the_path_of_the_leader() {
    let task_id = Id([0; 32]);
    let mut task = time_interval_task();
    task.leader_url = "https://example.com/v09/".to_string();
    let batch_sel =
        BatchSelector::TimeInterval { batch_interval: Interval { start: 1000, duration: 500 } };
    let mut mem = MockLeaderMemory::default();
    let uri = mem.init_collect_job(&task_id, &task, &Some(Id([0xff; 32])), batch_sel, vec![]).unwrap();
    assert_eq!(
        uri,
        format!(
            "https://example.com/v09/collect/task/{}/req/{}8",
            "A".repeat(43),
            "_".repeat(42)
        )
    );
}

#[test]
fn batch_span_faults_stop_a_collection_job() {
    let task_id = Id([1; 32]);
    let mut mem = MockLeaderMemory::default();
    let batch_sel = BatchSelector::TimeInterval {
        batch_interval: Interval { start: u64::MAX - 10, duration: 500 },
    };
    let err = mem
        .init_collect_job(&task_id, &time_interval_task(), &Some(Id([9; 32])), batch_sel, vec![])
        .unwrap_err();
    assert!(is_fatal(&err, "batch interval out of range"));
    assert_eq!(mem.poll_collect_job(&task_id, &Id([9; 32])), Ok(DapCollectionJob::Unknown));

    let no_precision = task(DapQueryConfig::TimeInterval, 0, 10);
    let batch_sel =
        BatchSelector::TimeInterval { batch_interval: Interval { start: 1000, duration: 500 } };
    let err = mem
        .init_collect_job(&task_id, &no_precision, &Some(Id([9; 32])), batch_sel, vec![])
        .unwrap_err();
    assert!(is_fatal(&err, "time precision is zero"));
    let err = mem.put_report(&task_id, &no_precision, report(&task_id, 5, 1)).unwrap_err();
    assert!(is_fatal(&err, "time precision is zero"));

    // A fixed-size batch is one bucket, whatever the time precision.
    let fixed = task(DapQueryConfig::FixedSize { max_batch_size: None }, 0, 10);
    let other_task = Id([2; 32]);
    mem.put_report(&other_task, &fixed, report(&other_task, 6, 1)).unwrap();
    let batch_id = mem.current_batch(&other_task, &fixed).unwrap();
    let batch_sel = BatchSelector::FixedSizeByBatchId { batch_id };
    mem.init_collect_job(&other_task, &fixed, &Some(Id([8; 32])), batch_sel, vec![]).unwrap();
    assert_eq!(mem.poll_collect_job(&other_task, &Id([8; 32])), Ok(DapCollectionJob::Pending));
    assert!(mem.batch_queue(&other_task).is_empty());
}

#[test]
fn work_is_handed_out_in_the_order_it_came() {
    let mut mem = MockLeaderMemory::default();
    let item = |n: u8| WorkItem::CollectionJob {
        task_id: Id([n; 32]),
        coll_job_id: Id([n; 32]),
        batch_sel: BatchSelector::FixedSizeByBatchId { batch_id: Id([n; 32]) },
        agg_param: vec![n],
    };
    assert_eq!(mem.enqueue_work(vec![item(1), item(2)]), Ok(()));
    assert_eq!(mem.enqueue_work(vec![]), Ok(()));
    assert_eq!(mem.enqueue_work(vec![item(3), item(4), item(5)]), Ok(()));
    assert_eq!(mem.dequeue_work(0), Ok(vec![]));
    assert_eq!(mem.dequeue_work(2), Ok(vec![item(1), item(2)]));
    assert_eq!(mem.dequeue_work(1), Ok(vec![item(3)]));
    assert_eq!(mem.dequeue_work(10), Ok(vec![item(4), item(5)]));
    assert_eq!(mem.dequeue_work(10), Ok(vec![]));
}

#[test]
fn delete_all_forgets_everything() {
    let task_id = Id([1; 32]);
    let task = fixed_size_task();
    let mut mem = MockLeaderMemory::default();
    mem.put_report(&task_id, &task, report(&task_id, 1, 1)).unwrap();
    let batch_sel = BatchSelector::FixedSizeByBatchId { batch_id: Id([5; 32]) };
    mem.init_collect_job(&task_id, &task, &Some(Id([9; 32])), batch_sel, vec![]).unwrap();
    mem.delete_all();
    assert_eq!(mem.dequeue_work(10), Ok(vec![]));
    assert_eq!(mem.batch_queue(&task_id), vec![]);
    assert_eq!(
        mem.poll_collect_job(&task_id, &Id([9; 32])),
        Err(DapError::Abort(DapAbort::UnrecognizedTask))
    );
}

#[test]
fn work_items_are_written_as_their_reports_are() {
    // The reports of an aggregation job are those that were put in.
    let task_id = Id([1; 32]);
    let task = time_interval_task();
    let mut mem = MockLeaderMemory::default();
    let r = report(&task_id, 1234, 3);
    let bytes = get_encoded(&r).unwrap();
    mem.put_report(&task_id, &task, r).unwrap();
    let batch_sel =
        BatchSelector::TimeInterval { batch_interval: Interval { start: 1000, duration: 500 } };
    mem.init_collect_job(&task_id, &task, &Some(Id([9; 32])), batch_sel, vec![]).unwrap();
    match &mem.dequeue_work(1).unwrap()[0] {
        WorkItem::AggregationJob { reports, .. } => {
            assert_eq!(get_encoded(&reports[0]), Ok(bytes));
        }
        other => panic!("unexpected work item {:?}", other),
    }
}
