use daphne::aggregation_job_test::AggregationJobTest;
use daphne::error::{DapAbort, DapError};
use daphne::hpke::{
    agg_share_aad, agg_share_info, find_receiver_config, input_share_aad, input_share_info,
    HpkeReceiverConfig,
};
use daphne::messages::{
    AggregateResp, BatchSelector, HpkeAeadId, HpkeConfig, HpkeKdfId, HpkeKemId, Id, Interval,
    PartialBatchSelector, Report, ReportMetadata, Transition, TransitionFailure, TransitionVar,
    HpkeCiphertext,
};
use daphne::protocol::{
    DapHelperAggregationJobTransition, DapLeaderAggregationJobTransition,
    EarlyReportStateConsumed, VdafPrepStep,
};
use daphne::agg_share::VdafAggregateShare;
use daphne::task::{
    DapBatchBucket, DapGlobalConfig, DapQueryConfig, DapTaskConfig, DapTaskConfigMethod,
    DapVersion, VdafConfig,
};

fn hpke_config(id: u8) -> HpkeConfig {
    HpkeConfig {
        id,
        kem_id: HpkeKemId::X25519HkdfSha256,
        kdf_id: HpkeKdfId::HkdfSha256,
        aead_id: HpkeAeadId::Aes128Gcm,
        public_key: vec![id],
    }
}

fn task(time_precision: u64) -> DapTaskConfig {
    DapTaskConfig {
        version: DapVersion::Draft02,
        leader_url: "http://leader.com".to_string(),
        helper_url: "https://helper.org".to_string(),
        time_precision,
        start: 100,
        expiration: 5000,
        min_batch_size: 10,
        query: DapQueryConfig::TimeInterval,
        vdaf: VdafConfig::Prio3Sum { bits: 8 },
        vdaf_verify_key: vec![0; 16],
        collector_hpke_config: hpke_config(9),
        method: DapTaskConfigMethod::Taskprov { info: vec![1, 2] },
    }
}

fn windows(list: &[u64]) -> Vec<DapBatchBucket> {
    list.iter().map(|w| DapBatchBucket::TimeInterval { batch_window: *w }).collect()
}

#[test]
fn time_is_cut_to_the_start_of_its_window() {
    let t = task(500);
    assert_eq!(t.quantized_time_lower_bound(0), 0);
    assert_eq!(t.quantized_time_lower_bound(499), 0);
    assert_eq!(t.quantized_time_lower_bound(500), 500);
    assert_eq!(t.quantized_time_lower_bound(1999), 1500);
    assert_eq!(t.quantized_time_lower_bound(u64::MAX), u64::MAX - u64::MAX % 500);
    assert_eq!(task(1).quantized_time_lower_bound(12345), 12345);
    assert_eq!(t.bucket_for_time(1234), DapBatchBucket::TimeInterval { batch_window: 1000 });
    assert!(t.method_is_taskprov());
}

#[test]
fn a_batch_interval_spans_its_windows() {
    let t = task(500);
    let sel = |start: u64, duration: u64| BatchSelector::TimeInterval {
        batch_interval: Interval { start, duration },
    };
    assert_eq!(t.batch_span_for_sel(&sel(1000, 500)), Ok(windows(&[1000])));
    assert_eq!(t.batch_span_for_sel(&sel(1000, 1500)), Ok(windows(&[1000, 1500, 2000])));
    assert_eq!(t.batch_span_for_sel(&sel(1000, 499)), Ok(windows(&[])));
    assert_eq!(t.batch_span_for_sel(&sel(1000, 999)), Ok(windows(&[1000])));
    assert_eq!(t.batch_span_for_sel(&sel(0, 0)), Ok(windows(&[])));
    assert_eq!(
        t.batch_span_for_sel(&sel(u64::MAX - 1000, 1000)),
        Ok(windows(&[u64::MAX - 1000, u64::MAX - 500]))
    );
    assert_eq!(
        t.batch_span_for_sel(&sel(u64::MAX - 999, 1000)),
        Err(DapError::Fatal("batch interval out of range".to_string()))
    );
    assert_eq!(
        task(0).batch_span_for_sel(&sel(1000, 500)),
        Err(DapError::Fatal("time precision is zero".to_string()))
    );
    let by_id = BatchSelector::FixedSizeByBatchId { batch_id: Id([3; 32]) };
    assert_eq!(
        t.batch_span_for_sel(&by_id),
        Ok(vec![DapBatchBucket::FixedSize { batch_id: Id([3; 32]) }])
    );
    // A batch that is named by its identifier needs no time precision.
    assert_eq!(
        task(0).batch_span_for_sel(&by_id),
        Ok(vec![DapBatchBucket::FixedSize { batch_id: Id([3; 32]) }])
    );
}

#[test]
fn report_times_are_valid_within_epoch_skew_and_lifetime() {
    let t = task(500);
    let global = DapGlobalConfig {
        max_batch_duration: 0,
        min_batch_interval_start: 0,
        max_batch_interval_end: 0,
        report_storage_epoch_duration: 300,
        report_storage_max_future_time_skew: 200,
        supported_hpke_kems: vec![],
        allow_taskprov: false,
    };
    assert!(t.report_time_is_valid(&global, 1000, 700));
    assert!(!t.report_time_is_valid(&global, 1000, 699));
    assert!(t.report_time_is_valid(&global, 1000, 1200));
    assert!(!t.report_time_is_valid(&global, 1000, 1201));
    assert!(t.report_time_is_valid(&global, 0, 100));
    assert!(!t.report_time_is_valid(&global, 0, 99));
    assert!(!t.report_time_is_valid(&global, 0, 201));
    assert!(t.report_time_is_valid(&global, 5100, 5000));
    assert!(!t.report_time_is_valid(&global, 5100, 5001));
    assert!(!t.report_time_is_valid(&global, u64::MAX, 5000));
}

#[test]
fn the_first_key_with_the_identifier_is_found() {
    let list = vec![
        HpkeReceiverConfig { config: hpke_config(1), private_key: vec![1] },
        HpkeReceiverConfig { config: hpke_config(2), private_key: vec![2] },
        HpkeReceiverConfig { config: hpke_config(1), private_key: vec![3] },
    ];
    assert_eq!(find_receiver_config(&list, 1), Some(&list[0]));
    assert_eq!(find_receiver_config(&list, 2), Some(&list[1]));
    assert_eq!(find_receiver_config(&list, 3), None);
    assert_eq!(find_receiver_config(&vec![], 1), None);
}

fn receiver(id: u8) -> HpkeReceiverConfig {
    HpkeReceiverConfig { config: hpke_config(id), private_key: vec![id] }
}

fn fresh(id: u8, time: u64) -> EarlyReportStateConsumed {
    EarlyReportStateConsumed::Ready {
        metadata: ReportMetadata { time, id: Id([id; 32]) },
        input_share: vec![id],
    }
}

fn report(id: u8, time: u64) -> Report {
    Report {
        task_id: Id([0; 32]),
        metadata: ReportMetadata { time, id: Id([id; 32]) },
        ignored_extensions: vec![],
        encrypted_input_shares: vec![
            HpkeCiphertext { config_id: 1, enc: vec![], payload: vec![id] },
            HpkeCiphertext { config_id: 2, enc: vec![], payload: vec![id] },
        ],
    }
}

#[test]
fn a_job_test_has_a_time_interval_task() {
    let test = AggregationJobTest::new(
        &VdafConfig::Prio3Count,
        DapVersion::DraftLatest,
        receiver(1),
        receiver(2),
        receiver(3),
    );
    assert_eq!(test.task_config.time_precision, 500);
    assert_eq!(test.task_config.min_batch_size, 10);
    assert_eq!(test.task_config.expiration, test.now + 500);
    assert_eq!(test.task_config.query, DapQueryConfig::TimeInterval);
    assert_eq!(test.task_config.vdaf, VdafConfig::Prio3Count);
    assert_eq!(test.task_config.version, DapVersion::DraftLatest);
    assert_eq!(test.task_config.leader_url, "http://leader.com");
    assert_eq!(test.task_config.helper_url, "https://helper.org");
    assert_eq!(test.task_config.vdaf_verify_key.len(), 16);
    assert_eq!(test.task_config.collector_hpke_config, hpke_config(3));
    assert_eq!(test.client_hpke_config_list, vec![hpke_config(1), hpke_config(2)]);
    assert!(test.now > 1_600_000_000);
    assert_ne!(test.task_id, test.agg_job_id);
    let other = AggregationJobTest::new(
        &VdafConfig::Prio3Count,
        DapVersion::DraftLatest,
        receiver(1),
        receiver(2),
        receiver(3),
    );
    assert_ne!(test.task_id, other.task_id);
    assert_ne!(test.task_config.vdaf_verify_key, other.task_config.vdaf_verify_key);
}

#[test]
fn a_job_runs_between_leader_and_helper() {
    let mut test = AggregationJobTest::new(
        &VdafConfig::Prio3Count,
        DapVersion::DraftLatest,
        receiver(1),
        receiver(2),
        receiver(3),
    );
    let prepared = |id: u8| Some((vec![0x50, id], vec![0x60, id]));
    // Leader: three reports, of which the third is there twice.
    let transition = test
        .produce_agg_job_init_req(
            vec![],
            vec![report(1, 10), report(2, 20), report(3, 30), report(3, 30)],
            vec![fresh(1, 10), fresh(2, 20), fresh(3, 30), fresh(3, 30)],
            vec![prepared(1), prepared(2), prepared(3), prepared(3)],
        )
        .unwrap();
    let (leader_state, req) = match transition {
        DapLeaderAggregationJobTransition::Continued(state, req) => (state, req),
        other => panic!("unexpected transition {:?}", other),
    };
    assert_eq!(req.task_id, test.task_id);
    assert_eq!(req.agg_job_id, test.agg_job_id);
    let shares = req.get_report_shares_ref().unwrap();
    assert_eq!(shares.len(), 3);
    assert_eq!(shares[2].encrypted_input_share.config_id, 2);

    // Helper: the second report cannot be decrypted.
    let consumed: Vec<EarlyReportStateConsumed> = shares
        .iter()
        .map(|s| {
            let decrypted = if s.metadata.id == Id([2; 32]) { None } else { Some(vec![1]) };
            EarlyReportStateConsumed::consume(s.metadata, true, true, decrypted)
        })
        .collect();
    let transition = test
        .handle_agg_job_init_req(consumed, vec![prepared(1), None, prepared(3)])
        .unwrap();
    let (helper_state, resp) = match transition {
        DapHelperAggregationJobTransition::Continued(state, resp) => (state, resp),
        other => panic!("unexpected transition {:?}", other),
    };
    assert_eq!(
        resp.seq[1],
        Transition {
            report_id: Id([2; 32]),
            var: TransitionVar::Failed(TransitionFailure::HpkeDecryptError)
        }
    );

    // Leader: drops the second report and goes on with the others.
    let step = |value: u64| {
        Some(VdafPrepStep::Output {
            data: VdafAggregateShare::Field64(vec![value]),
            checksum: [value as u8; 32],
            message: vec![value as u8],
        })
    };
    let transition = test
        .handle_agg_job_resp(leader_state, resp, vec![step(1), None, step(3)])
        .unwrap();
    let (uncommitted, cont_req) = match transition {
        DapLeaderAggregationJobTransition::Uncommitted(uncommitted, req) => (uncommitted, req),
        other => panic!("unexpected transition {:?}", other),
    };
    assert_eq!(cont_req.get_transitions_ref().unwrap().len(), 2);

    // Helper: finishes both.
    let out = test
        .handle_agg_job_cont_req(helper_state, cont_req, vec![step(10), step(30)])
        .unwrap();
    assert_eq!(out.state, None);
    assert_eq!(out.span.report_count(), Some(2));
    assert_eq!(
        out.span.span[0].value.data,
        Some(VdafAggregateShare::Field64(vec![40]))
    );

    // Leader: commits.
    let span = test.handle_final_agg_job_resp(uncommitted, out.resp).unwrap();
    assert_eq!(span.report_count(), Some(2));
    assert_eq!(span.span.len(), 1);
    assert_eq!(span.span[0].bucket, DapBatchBucket::TimeInterval { batch_window: 0 });
    assert_eq!(span.span[0].value.data, Some(VdafAggregateShare::Field64(vec![4])));
    assert_eq!(span.span[0].value.report_count, 2);
    assert_eq!(span.span[0].value.checksum, [1 ^ 3; 32]);

    // The Leader and the Helper have each seen the reports.
    let again = test
        .initialize_reports(true, vec![fresh(1, 10), fresh(9, 10)], vec![prepared(1), prepared(9)])
        .unwrap();
    assert!(matches!(
        again[0],
        daphne::protocol::EarlyReportStateInitialized::Rejected {
            failure: TransitionFailure::ReportReplayed,
            ..
        }
    ));
    assert!(matches!(again[1], daphne::protocol::EarlyReportStateInitialized::Ready { .. }));
    let helper_again =
        test.initialize_reports(false, vec![fresh(9, 10), fresh(2, 20)], vec![prepared(9), None]).unwrap();
    assert!(matches!(helper_again[0], daphne::protocol::EarlyReportStateInitialized::Ready { .. }));
    assert!(matches!(
        helper_again[1],
        daphne::protocol::EarlyReportStateInitialized::Rejected {
            failure: TransitionFailure::VdafPrepError,
            ..
        }
    ));
}

#[test]
fn a_job_test_hands_out_errors() {
    let test = AggregationJobTest::new(
        &VdafConfig::Prio3Count,
        DapVersion::Draft02,
        receiver(1),
        receiver(2),
        receiver(3),
    );
    let state = || daphne::protocol::DapAggregationJobState {
        seq: vec![daphne::protocol::AggregationJobReportState {
            report_id: Id([1; 32]),
            time: 10,
            progress: daphne::protocol::PrepProgress::Waiting { state: vec![], share: None },
        }],
        confirmed: vec![],
        part_batch_sel: PartialBatchSelector::TimeInterval,
    };
    assert_eq!(
        test.handle_agg_job_resp_expect_err(state(), AggregateResp { seq: vec![] }, vec![None]),
        Some(DapError::Abort(daphne::error::DapAbort::UnrecognizedMessage))
    );
    let finished = AggregateResp {
        seq: vec![Transition { report_id: Id([1; 32]), var: TransitionVar::Finished }],
    };
    assert_eq!(test.handle_agg_job_resp_expect_err(state(), finished, vec![None]), None);
    let init = daphne::messages::AggregateReq {
        task_id: test.task_id,
        agg_job_id: test.agg_job_id,
        var: daphne::messages::AggregateReqVar::default(),
    };
    assert_eq!(
        test.handle_agg_job_cont_req_expect_err(state(), init, vec![None]),
        Some(DapError::Abort(daphne::error::DapAbort::UnrecognizedMessage))
    );
    let cont = daphne::messages::AggregateReq {
        task_id: test.task_id,
        agg_job_id: test.agg_job_id,
        var: daphne::messages::AggregateReqVar::Continue {
            seq: vec![Transition { report_id: Id([1; 32]), var: TransitionVar::Continued(vec![]) }],
        },
    };
    assert_eq!(test.handle_agg_job_cont_req_expect_err(state(), cont, vec![None]), None);
}

#[test]
fn requests_speak_the_version_of_the_task() {
    let t = task(500);
    assert_eq!(t.check_version(DapVersion::Draft02), Ok(()));
    assert_eq!(
        t.check_version(DapVersion::DraftLatest),
        Err(DapError::Abort(daphne::error::DapAbort::BadRequest(
            "version of the request does not match the task".to_string()
        )))
    );
}

#[test]
fn shares_are_sealed_to_known_algorithms_only() {
    assert!(daphne::hpke::is_supported(&hpke_config(1)));
    assert_eq!(daphne::hpke::check_seal_config(&hpke_config(1)), Ok(()));
    let refused = Err(DapError::Fatal("HpkeEncrypt".to_string()));
    let mut config = hpke_config(1);
    config.kem_id = HpkeKemId::NotImplemented(0x10);
    assert!(!daphne::hpke::is_supported(&config));
    assert_eq!(daphne::hpke::check_seal_config(&config), refused);
    let mut config = hpke_config(1);
    config.kdf_id = HpkeKdfId::NotImplemented(2);
    assert_eq!(daphne::hpke::check_seal_config(&config), refused);
    let mut config = hpke_config(1);
    config.aead_id = HpkeAeadId::NotImplemented(3);
    assert_eq!(daphne::hpke::check_seal_config(&config), refused);
}

#[test]
fn sealing_contexts_are_written_byte_for_byte() {
    let mut info = b"dap-02 input share".to_vec();
    info.extend([1, 2]);
    assert_eq!(input_share_info(true), info);
    let mut info = b"dap-02 input share".to_vec();
    info.extend([1, 3]);
    assert_eq!(input_share_info(false), info);
    let mut info = b"dap-02 aggregate share".to_vec();
    info.extend([2, 0]);
    assert_eq!(agg_share_info(true), info);
    let mut info = b"dap-02 aggregate share".to_vec();
    info.extend([3, 0]);
    assert_eq!(agg_share_info(false), info);

    let task_id = Id([7; 32]);
    let metadata = ReportMetadata { time: 0x0102, id: Id([9; 32]) };
    let mut aad = vec![7u8; 32];
    aad.extend([0, 0, 0, 0, 0, 0, 1, 2]);
    aad.extend([9u8; 32]);
    assert_eq!(input_share_aad(&task_id, &metadata), aad);

    let by_interval =
        BatchSelector::TimeInterval { batch_interval: Interval { start: 1000, duration: 500 } };
    let mut aad = vec![7u8; 32];
    aad.push(1);
    aad.extend([0, 0, 0, 0, 0, 0, 0x03, 0xe8]);
    aad.extend([0, 0, 0, 0, 0, 0, 0x01, 0xf4]);
    assert_eq!(agg_share_aad(&task_id, &by_interval), aad);

    let by_id = BatchSelector::FixedSizeByBatchId { batch_id: Id([3; 32]) };
    let mut aad = vec![7u8; 32];
    aad.push(2);
    aad.extend([3u8; 32]);
    assert_eq!(agg_share_aad(&task_id, &by_id), aad);
}

#[test]
fn the_job_test_takes_in_shares_for_its_keys() {
    let test = AggregationJobTest::new(
        &VdafConfig::Prio3Count,
        DapVersion::Draft02,
        receiver(1),
        receiver(2),
        receiver(3),
    );
    let metadata = ReportMetadata { time: test.now, id: Id([1; 32]) };
    assert_eq!(
        test.consume_report_share(true, metadata, 1, Some(vec![5])),
        EarlyReportStateConsumed::Ready { metadata, input_share: vec![5] }
    );
    assert_eq!(
        test.consume_report_share(false, metadata, 2, Some(vec![6])),
        EarlyReportStateConsumed::Ready { metadata, input_share: vec![6] }
    );
    assert_eq!(
        test.consume_report_share(true, metadata, 2, Some(vec![5])),
        EarlyReportStateConsumed::Rejected {
            metadata,
            failure: TransitionFailure::HpkeUnknownConfigId
        }
    );
    assert_eq!(
        test.consume_report_share(false, metadata, 2, None),
        EarlyReportStateConsumed::Rejected {
            metadata,
            failure: TransitionFailure::HpkeDecryptError
        }
    );
    let late = ReportMetadata { time: test.task_config.expiration + 1, id: Id([2; 32]) };
    assert_eq!(
        test.consume_report_share(false, late, 9, None),
        EarlyReportStateConsumed::Rejected {
            metadata: late,
            failure: TransitionFailure::ReportDropped
        }
    );
}

#[test]
fn aborts_have_their_problem_types() {
    let cases = [
        (DapAbort::BadRequest("detail".to_string()), "badRequest"),
        (DapAbort::BatchMismatch, "batchMismatch"),
        (DapAbort::BatchOverlap, "batchOverlap"),
        (DapAbort::InvalidBatchSize, "invalidBatchSize"),
        (DapAbort::MissingTaskId, "missingTaskID"),
        (DapAbort::ReportRejected, "reportRejected"),
        (DapAbort::RoundMismatch, "roundMismatch"),
        (DapAbort::UnauthorizedRequest, "unauthorizedRequest"),
        (DapAbort::UnrecognizedAggregationJob, "unrecognizedAggregationJob"),
        (DapAbort::UnrecognizedMessage, "unrecognizedMessage"),
        (DapAbort::UnrecognizedTask, "unrecognizedTask"),
    ];
    for (abort, name) in cases {
        assert_eq!(abort.problem_type(), name);
    }
}
