use daphne::agg_share::{
    DapAggregateShare, DapAggregateSpan, DapAggregateSpanEntry, MergeAggShareError,
    VdafAggregateShare,
};
use daphne::error::{DapAbort, DapError};
use daphne::messages::{
    AggregateReq, AggregateReqVar, AggregateResp, HpkeAeadId, HpkeCiphertext, HpkeConfig,
    HpkeKdfId, HpkeKemId, Id, PartialBatchSelector, Report, ReportMetadata, ReportShare,
    Transition, TransitionFailure, TransitionVar,
};
use daphne::protocol::{
    add_out_share, apply_commit_outcomes, bucket_for_report, check_agg_job_cont_req,
    handle_agg_job_cont_req, handle_agg_job_init_req, handle_agg_job_resp,
    handle_final_agg_job_resp, produce_agg_job_init_req, AggregationJobReportState,
    DapAggregationJobState, DapAggregationJobUncommitted, DapHelperAggregationJobTransition,
    DapLeaderAggregationJobTransition, DapOutputShare, EarlyReportStateConsumed,
    EarlyReportStateInitialized, PrepProgress, VdafPrepStep,
};
use daphne::task::{
    DapBatchBucket, DapQueryConfig, DapTaskConfig, DapTaskConfigMethod, DapVersion, VdafConfig,
};

fn task(time_precision: u64) -> DapTaskConfig {
    DapTaskConfig {
        version: DapVersion::DraftLatest,
        leader_url: "http://leader.com".to_string(),
        helper_url: "https://helper.org".to_string(),
        time_precision,
        start: 0,
        expiration: u64::MAX,
        min_batch_size: 10,
        query: DapQueryConfig::TimeInterval,
        vdaf: VdafConfig::Prio3Count,
        vdaf_verify_key: vec![0; 16],
        collector_hpke_config: HpkeConfig {
            id: 0,
            kem_id: HpkeKemId::X25519HkdfSha256,
            kdf_id: HpkeKdfId::HkdfSha256,
            aead_id: HpkeAeadId::Aes128Gcm,
            public_key: vec![],
        },
        method: DapTaskConfigMethod::Unknown,
    }
}

fn meta(id: u8, time: u64) -> ReportMetadata {
    ReportMetadata { time, id: Id([id; 32]) }
}

fn report(id: u8, time: u64, shares: usize) -> Report {
    Report {
        task_id: Id([0x11; 32]),
        metadata: meta(id, time),
        ignored_extensions: vec![id],
        encrypted_input_shares: (0..shares)
            .map(|i| HpkeCiphertext { config_id: i as u8 + 1, enc: vec![id], payload: vec![i as u8] })
            .collect(),
    }
}

fn ready(id: u8, time: u64) -> EarlyReportStateInitialized {
    EarlyReportStateInitialized::Ready {
        metadata: meta(id, time),
        state: vec![0x50, id],
        message: vec![0x60, id],
    }
}

fn rejected(id: u8, time: u64, failure: TransitionFailure) -> EarlyReportStateInitialized {
    EarlyReportStateInitialized::Rejected { metadata: meta(id, time), failure }
}

fn waiting(id: u8, time: u64) -> AggregationJobReportState {
    AggregationJobReportState {
        report_id: Id([id; 32]),
        time,
        progress: PrepProgress::Waiting { state: vec![0x50, id], share: None },
    }
}

fn transition(id: u8, var: TransitionVar) -> Transition {
    Transition { report_id: Id([id; 32]), var }
}

fn output(value: u64, checksum: u8, message: &[u8]) -> Option<VdafPrepStep> {
    Some(VdafPrepStep::Output {
        data: VdafAggregateShare::Field64(vec![value]),
        checksum: [checksum; 32],
        message: message.to_vec(),
    })
}

fn out_share(id: u8, time: u64, value: u64, checksum: u8) -> DapOutputShare {
    DapOutputShare {
        report_id: Id([id; 32]),
        time,
        checksum: [checksum; 32],
        data: VdafAggregateShare::Field64(vec![value]),
    }
}

fn agg_share(count: u64, min: u64, max: u64, checksum: u8, value: u64) -> DapAggregateShare {
    DapAggregateShare {
        report_count: count,
        min_time: min,
        max_time: max,
        checksum: [checksum; 32],
        data: Some(VdafAggregateShare::Field64(vec![value])),
    }
}

#[test]
fn reports_are_rejected_for_the_first_reason_that_holds() {
    let m = meta(1, 1000);
    let share = Some(vec![1, 2, 3]);
    assert_eq!(
        EarlyReportStateConsumed::consume(m, false, false, None),
        EarlyReportStateConsumed::Rejected { metadata: m, failure: TransitionFailure::ReportDropped }
    );
    assert_eq!(
        EarlyReportStateConsumed::consume(m, false, true, share.clone()),
        EarlyReportStateConsumed::Rejected { metadata: m, failure: TransitionFailure::ReportDropped }
    );
    assert_eq!(
        EarlyReportStateConsumed::consume(m, true, false, share.clone()),
        EarlyReportStateConsumed::Rejected {
            metadata: m,
            failure: TransitionFailure::HpkeUnknownConfigId
        }
    );
    assert_eq!(
        EarlyReportStateConsumed::consume(m, true, true, None),
        EarlyReportStateConsumed::Rejected {
            metadata: m,
            failure: TransitionFailure::HpkeDecryptError
        }
    );
    let consumed = EarlyReportStateConsumed::consume(m, true, true, share);
    assert_eq!(consumed, EarlyReportStateConsumed::Ready { metadata: m, input_share: vec![1, 2, 3] });
    assert!(consumed.is_ready());
    assert_eq!(consumed.metadata(), &m);
}

#[test]
fn initializing_keeps_an_earlier_rejection() {
    let m = meta(1, 1000);
    let dropped =
        || EarlyReportStateConsumed::Rejected { metadata: m, failure: TransitionFailure::ReportDropped };
    let fresh = || EarlyReportStateConsumed::Ready { metadata: m, input_share: vec![9] };
    let prepared = || Some((vec![1u8], vec![2u8]));
    assert_eq!(
        EarlyReportStateInitialized::initialize(
            dropped(),
            Some(TransitionFailure::ReportReplayed),
            prepared()
        ),
        rejected(1, 1000, TransitionFailure::ReportDropped)
    );
    assert_eq!(
        EarlyReportStateInitialized::initialize(
            fresh(),
            Some(TransitionFailure::ReportReplayed),
            prepared()
        ),
        rejected(1, 1000, TransitionFailure::ReportReplayed)
    );
    assert_eq!(
        EarlyReportStateInitialized::initialize(
            fresh(),
            Some(TransitionFailure::BatchCollected),
            None
        ),
        rejected(1, 1000, TransitionFailure::BatchCollected)
    );
    assert_eq!(
        EarlyReportStateInitialized::initialize(fresh(), None, None),
        rejected(1, 1000, TransitionFailure::VdafPrepError)
    );
    let initialized = EarlyReportStateInitialized::initialize(fresh(), None, prepared());
    assert_eq!(
        initialized,
        EarlyReportStateInitialized::Ready { metadata: m, state: vec![1], message: vec![2] }
    );
    assert_eq!(initialized.metadata(), &m);
    assert_eq!(
        fresh().into_initialized_rejected_due_to(TransitionFailure::VdafPrepError),
        rejected(1, 1000, TransitionFailure::VdafPrepError)
    );
}

#[test]
fn buckets_follow_the_selector() {
    let t = task(500);
    assert_eq!(
        bucket_for_report(&t, &PartialBatchSelector::TimeInterval, 1999),
        Some(DapBatchBucket::TimeInterval { batch_window: 1500 })
    );
    assert_eq!(
        bucket_for_report(&t, &PartialBatchSelector::TimeInterval, 1500),
        Some(DapBatchBucket::TimeInterval { batch_window: 1500 })
    );
    assert_eq!(
        bucket_for_report(&t, &PartialBatchSelector::TimeInterval, 499),
        Some(DapBatchBucket::TimeInterval { batch_window: 0 })
    );
    assert_eq!(bucket_for_report(&task(0), &PartialBatchSelector::TimeInterval, 499), None);
    let by_id = PartialBatchSelector::FixedSizeByBatchId { batch_id: Id([3; 32]) };
    assert_eq!(
        bucket_for_report(&task(0), &by_id, 499),
        Some(DapBatchBucket::FixedSize { batch_id: Id([3; 32]) })
    );
}

#[test]
fn leader_sends_the_helper_shares_of_the_ready_reports() {
    let reports = vec![report(1, 1000, 2), report(2, 1100, 2), report(3, 1200, 1), report(4, 1300, 2)];
    let initialized = vec![
        ready(1, 1000),
        rejected(2, 1100, TransitionFailure::HpkeDecryptError),
        ready(3, 1200),
        ready(4, 1300),
    ];
    let transition = produce_agg_job_init_req(
        &Id([0x11; 32]),
        &Id([0x22; 32]),
        &PartialBatchSelector::TimeInterval,
        vec![0xa0],
        reports,
        initialized,
    )
    .unwrap();
    let share = |id: u8, time: u64| ReportShare {
        metadata: meta(id, time),
        ignored_extensions: vec![id],
        encrypted_input_share: HpkeCiphertext { config_id: 2, enc: vec![id], payload: vec![1] },
    };
    let kept = |id: u8, time: u64| AggregationJobReportState {
        report_id: Id([id; 32]),
        time,
        progress: PrepProgress::Waiting { state: vec![0x50, id], share: Some(vec![0x60, id]) },
    };
    assert_eq!(
        transition,
        DapLeaderAggregationJobTransition::Continued(
            DapAggregationJobState {
                seq: vec![kept(1, 1000), kept(4, 1300)],
                confirmed: vec![],
                part_batch_sel: PartialBatchSelector::TimeInterval,
            },
            AggregateReq {
                task_id: Id([0x11; 32]),
                agg_job_id: Id([0x22; 32]),
                var: AggregateReqVar::Init {
                    agg_param: vec![0xa0],
                    seq: vec![share(1, 1000), share(4, 1300)]
                },
            },
        )
    );
}

#[test]
fn leader_with_no_ready_report_is_done() {
    let transition = produce_agg_job_init_req(
        &Id([0x11; 32]),
        &Id([0x22; 32]),
        &PartialBatchSelector::TimeInterval,
        vec![],
        vec![report(1, 1000, 2)],
        vec![rejected(1, 1000, TransitionFailure::ReportReplayed)],
    );
    assert_eq!(transition, Ok(DapLeaderAggregationJobTransition::Finished(DapAggregateSpan::new())));
    let err = produce_agg_job_init_req(
        &Id([0x11; 32]),
        &Id([0x22; 32]),
        &PartialBatchSelector::TimeInterval,
        vec![],
        vec![report(1, 1000, 2)],
        vec![],
    )
    .unwrap_err();
    assert_eq!(err, DapError::Fatal("reports and their states differ in number".to_string()));
}

#[test]
fn helper_answers_each_report_in_order() {
    let transition = handle_agg_job_init_req(
        &PartialBatchSelector::TimeInterval,
        vec![
            ready(1, 1000),
            rejected(2, 1100, TransitionFailure::HpkeDecryptError),
            rejected(3, 1200, TransitionFailure::HpkeUnknownConfigId),
            ready(4, 1300),
        ],
    );
    assert_eq!(
        transition,
        DapHelperAggregationJobTransition::Continued(
            DapAggregationJobState {
                seq: vec![waiting(1, 1000), waiting(4, 1300)],
                confirmed: vec![],
                part_batch_sel: PartialBatchSelector::TimeInterval,
            },
            AggregateResp {
                seq: vec![
                    transition_for(1, TransitionVar::Continued(vec![0x60, 1])),
                    transition_for(2, TransitionVar::Failed(TransitionFailure::HpkeDecryptError)),
                    transition_for(3, TransitionVar::Failed(TransitionFailure::HpkeUnknownConfigId)),
                    transition_for(4, TransitionVar::Continued(vec![0x60, 4])),
                ],
            },
        )
    );
    assert_eq!(
        handle_agg_job_init_req(
            &PartialBatchSelector::TimeInterval,
            vec![rejected(2, 1100, TransitionFailure::ReportDropped)],
        ),
        DapHelperAggregationJobTransition::Finished(
            DapAggregateSpan::new(),
            AggregateResp {
                seq: vec![transition_for(2, TransitionVar::Failed(TransitionFailure::ReportDropped))]
            },
        )
    );
}

fn transition_for(id: u8, var: TransitionVar) -> Transition {
    transition(id, var)
}

fn leader_state(ids: &[(u8, u64)]) -> DapAggregationJobState {
    DapAggregationJobState {
        seq: ids
            .iter()
            .map(|(id, time)| AggregationJobReportState {
                report_id: Id([*id; 32]),
                time: *time,
                progress: PrepProgress::Waiting { state: vec![0x50, *id], share: Some(vec![0x60, *id]) },
            })
            .collect(),
        confirmed: vec![],
        part_batch_sel: PartialBatchSelector::TimeInterval,
    }
}

#[test]
fn leader_drops_the_reports_that_the_helper_failed() {
    // The Helper could not decrypt the second report. The Leader goes on
    // with the others.
    let resp = AggregateResp {
        seq: vec![
            transition(1, TransitionVar::Continued(vec![0x70, 1])),
            transition(2, TransitionVar::Failed(TransitionFailure::HpkeDecryptError)),
            transition(3, TransitionVar::Continued(vec![0x70, 3])),
        ],
    };
    let steps = vec![output(5, 1, &[0x80, 1]), None, output(7, 4, &[0x80, 3])];
    let next = handle_agg_job_resp(
        &task(500),
        &Id([0x11; 32]),
        &Id([0x22; 32]),
        leader_state(&[(1, 1000), (2, 1100), (3, 1600)]),
        resp,
        steps,
    )
    .unwrap();
    let (uncommitted, req) = match next {
        DapLeaderAggregationJobTransition::Uncommitted(uncommitted, req) => (uncommitted, req),
        other => panic!("unexpected transition {:?}", other),
    };
    assert_eq!(
        uncommitted,
        DapAggregationJobUncommitted {
            seq: vec![out_share(1, 1000, 5, 1), out_share(3, 1600, 7, 4)],
            confirmed: vec![],
            part_batch_sel: PartialBatchSelector::TimeInterval,
        }
    );
    assert_eq!(
        req,
        AggregateReq {
            task_id: Id([0x11; 32]),
            agg_job_id: Id([0x22; 32]),
            var: AggregateReqVar::Continue {
                seq: vec![
                    transition(1, TransitionVar::Continued(vec![0x80, 1])),
                    transition(3, TransitionVar::Continued(vec![0x80, 3])),
                ]
            },
        }
    );

    // The Helper finishes the first and fails the third.
    let last = AggregateResp {
        seq: vec![
            transition(1, TransitionVar::Finished),
            transition(3, TransitionVar::Failed(TransitionFailure::VdafPrepError)),
        ],
    };
    let span = handle_final_agg_job_resp(&task(500), uncommitted, last).unwrap();
    assert_eq!(
        span,
        DapAggregateSpan {
            span: vec![DapAggregateSpanEntry {
                bucket: DapBatchBucket::TimeInterval { batch_window: 1000 },
                value: agg_share(1, 1000, 1000, 1, 5),
                reports: vec![(Id([1; 32]), 1000)],
            }]
        }
    );
}

#[test]
fn ten_reports_make_two_windows() {
    // The task has the time precision 500; the reports were made at the
    // times 1000, 1100, ..., 1900.
    let ids: Vec<(u8, u64)> = (0..10u8).map(|i| (i, 1000 + 100 * u64::from(i))).collect();
    let resp = AggregateResp {
        seq: ids.iter().map(|(id, _)| transition(*id, TransitionVar::Continued(vec![*id]))).collect(),
    };
    let steps = ids.iter().map(|(id, _)| output(u64::from(*id), 1 << (id % 8), &[*id])).collect();
    let next = handle_agg_job_resp(
        &task(500),
        &Id([0x11; 32]),
        &Id([0x22; 32]),
        leader_state(&ids),
        resp,
        steps,
    )
    .unwrap();
    let uncommitted = match next {
        DapLeaderAggregationJobTransition::Uncommitted(uncommitted, _) => uncommitted,
        other => panic!("unexpected transition {:?}", other),
    };
    let last = AggregateResp {
        seq: ids.iter().map(|(id, _)| transition(*id, TransitionVar::Finished)).collect(),
    };
    let span = handle_final_agg_job_resp(&task(500), uncommitted, last).unwrap();
    assert_eq!(span.report_count(), Some(10));
    assert_eq!(
        span,
        DapAggregateSpan {
            span: vec![
                DapAggregateSpanEntry {
                    bucket: DapBatchBucket::TimeInterval { batch_window: 1000 },
                    value: agg_share(5, 1000, 1400, 0b11111, 0 + 1 + 2 + 3 + 4),
                    reports: (0..5u8).map(|i| (Id([i; 32]), 1000 + 100 * u64::from(i))).collect(),
                },
                DapAggregateSpanEntry {
                    bucket: DapBatchBucket::TimeInterval { batch_window: 1500 },
                    value: agg_share(5, 1500, 1900, 0b11100000 ^ 0b11, 5 + 6 + 7 + 8 + 9),
                    reports: (5..10u8).map(|i| (Id([i; 32]), 1000 + 100 * u64::from(i))).collect(),
                },
            ]
        }
    );
}

#[test]
fn answers_that_do_not_match_abort_the_job() {
    let abort = Err(DapError::Abort(DapAbort::UnrecognizedMessage));
    let run = |resp: Vec<Transition>, steps: Vec<Option<VdafPrepStep>>| {
        handle_agg_job_resp(
            &task(500),
            &Id([0x11; 32]),
            &Id([0x22; 32]),
            leader_state(&[(1, 1000), (2, 1100)]),
            AggregateResp { seq: resp },
            steps,
        )
    };
    // Too few, too many, out of order, another report.
    assert_eq!(run(vec![transition(1, TransitionVar::Finished)], vec![None, None]), abort);
    assert_eq!(
        run(
            vec![
                transition(1, TransitionVar::Finished),
                transition(2, TransitionVar::Finished),
                transition(3, TransitionVar::Finished)
            ],
            vec![None, None]
        ),
        abort
    );
    assert_eq!(
        run(
            vec![transition(2, TransitionVar::Finished), transition(1, TransitionVar::Finished)],
            vec![None, None]
        ),
        abort
    );
    assert_eq!(
        run(
            vec![transition(1, TransitionVar::Finished), transition(3, TransitionVar::Finished)],
            vec![None, None]
        ),
        abort
    );
    assert_eq!(run(vec![], vec![]), abort);
    assert_eq!(
        run(
            vec![transition(1, TransitionVar::Finished), transition(2, TransitionVar::Finished)],
            vec![None]
        ),
        Err(DapError::Fatal("steps and reports differ in number".to_string()))
    );
    let uncommitted = || DapAggregationJobUncommitted {
        seq: vec![out_share(1, 1000, 5, 1)],
        confirmed: vec![],
        part_batch_sel: PartialBatchSelector::TimeInterval,
    };
    assert_eq!(
        handle_final_agg_job_resp(&task(500), uncommitted(), AggregateResp { seq: vec![] }),
        Err(DapError::Abort(DapAbort::UnrecognizedMessage))
    );
    assert_eq!(
        handle_final_agg_job_resp(
            &task(500),
            uncommitted(),
            AggregateResp { seq: vec![transition(2, TransitionVar::Finished)] }
        ),
        Err(DapError::Abort(DapAbort::UnrecognizedMessage))
    );
}

#[test]
fn leader_steps_cover_each_case() {
    // Three reports wait. The Helper continues for the first two, for
    // which the steps give another round and a failure, and has finished
    // the third too early.
    let resp = AggregateResp {
        seq: vec![
            transition(1, TransitionVar::Continued(vec![1])),
            transition(2, TransitionVar::Continued(vec![2])),
            transition(3, TransitionVar::Finished),
        ],
    };
    let steps = vec![
        Some(VdafPrepStep::Continue { state: vec![0x51], message: vec![0x81] }),
        Some(VdafPrepStep::Failed),
        None,
    ];
    let next = handle_agg_job_resp(
        &task(500),
        &Id([0x11; 32]),
        &Id([0x22; 32]),
        leader_state(&[(1, 1000), (2, 1100), (3, 1200)]),
        resp,
        steps,
    )
    .unwrap();
    let (state, req) = match next {
        DapLeaderAggregationJobTransition::Continued(state, req) => (state, req),
        other => panic!("unexpected transition {:?}", other),
    };
    assert_eq!(
        state.seq,
        vec![AggregationJobReportState {
            report_id: Id([1; 32]),
            time: 1000,
            progress: PrepProgress::Waiting { state: vec![0x51], share: None },
        }]
    );
    assert_eq!(
        req.var,
        AggregateReqVar::Continue {
            seq: vec![
                transition(1, TransitionVar::Continued(vec![0x81])),
                transition(2, TransitionVar::Failed(TransitionFailure::VdafPrepError)),
            ]
        }
    );

    // In the next round the report gets its output share, and in the one
    // after that the Helper has finished.
    let next = handle_agg_job_resp(
        &task(500),
        &Id([0x11; 32]),
        &Id([0x22; 32]),
        state,
        AggregateResp { seq: vec![transition(1, TransitionVar::Continued(vec![9]))] },
        vec![output(42, 7, &[0x82])],
    )
    .unwrap();
    let (uncommitted, req) = match next {
        DapLeaderAggregationJobTransition::Uncommitted(uncommitted, req) => (uncommitted, req),
        other => panic!("unexpected transition {:?}", other),
    };
    assert_eq!(
        req.var,
        AggregateReqVar::Continue { seq: vec![transition(1, TransitionVar::Continued(vec![0x82]))] }
    );
    let span = handle_final_agg_job_resp(
        &task(500),
        uncommitted,
        AggregateResp { seq: vec![transition(1, TransitionVar::Finished)] },
    )
    .unwrap();
    assert_eq!(span.span.len(), 1);
    assert_eq!(span.span[0].value, agg_share(1, 1000, 1000, 7, 42));
}

#[test]
fn leader_with_nothing_left_to_send_is_done() {
    let resp = AggregateResp {
        seq: vec![
            transition(1, TransitionVar::Failed(TransitionFailure::ReportReplayed)),
            transition(2, TransitionVar::Finished),
        ],
    };
    let next = handle_agg_job_resp(
        &task(500),
        &Id([0x11; 32]),
        &Id([0x22; 32]),
        leader_state(&[(1, 1000), (2, 1100)]),
        resp,
        vec![None, None],
    );
    assert_eq!(next, Ok(DapLeaderAggregationJobTransition::Finished(DapAggregateSpan::new())));
}

#[test]
fn output_shares_whose_helper_continues_are_given_up() {
    let state = DapAggregationJobState {
        seq: vec![
            AggregationJobReportState {
                report_id: Id([1; 32]),
                time: 1000,
                progress: PrepProgress::Ready {
                    checksum: [1; 32],
                    data: VdafAggregateShare::Field64(vec![5]),
                },
            },
            AggregationJobReportState {
                report_id: Id([2; 32]),
                time: 1100,
                progress: PrepProgress::Ready {
                    checksum: [2; 32],
                    data: VdafAggregateShare::Field64(vec![6]),
                },
            },
        ],
        confirmed: vec![out_share(9, 1200, 1, 8)],
        part_batch_sel: PartialBatchSelector::TimeInterval,
    };
    let resp = AggregateResp {
        seq: vec![
            transition(1, TransitionVar::Continued(vec![])),
            transition(2, TransitionVar::Finished),
        ],
    };
    let next = handle_agg_job_resp(
        &task(500),
        &Id([0x11; 32]),
        &Id([0x22; 32]),
        state,
        resp,
        vec![None, None],
    )
    .unwrap();
    match next {
        DapLeaderAggregationJobTransition::Uncommitted(uncommitted, req) => {
            assert_eq!(uncommitted.seq, vec![]);
            assert_eq!(uncommitted.confirmed, vec![out_share(9, 1200, 1, 8), out_share(2, 1100, 6, 2)]);
            assert_eq!(
                req.var,
                AggregateReqVar::Continue {
                    seq: vec![transition(1, TransitionVar::Failed(TransitionFailure::VdafPrepError))]
                }
            );
            let span =
                handle_final_agg_job_resp(&task(500), uncommitted, AggregateResp { seq: vec![] })
                    .unwrap();
            assert_eq!(span.span.len(), 1);
            assert_eq!(span.span[0].value, agg_share(2, 1100, 1200, 8 ^ 2, 7));
            assert_eq!(span.span[0].reports, vec![(Id([9; 32]), 1200), (Id([2; 32]), 1100)]);
        }
        other => panic!("unexpected transition {:?}", other),
    }
}

fn helper_state(ids: &[(u8, u64)]) -> DapAggregationJobState {
    DapAggregationJobState {
        seq: ids.iter().map(|(id, time)| waiting(*id, *time)).collect(),
        confirmed: vec![],
        part_batch_sel: PartialBatchSelector::TimeInterval,
    }
}

fn cont_req(transitions: Vec<Transition>) -> AggregateReq {
    AggregateReq {
        task_id: Id([0x11; 32]),
        agg_job_id: Id([0x22; 32]),
        var: AggregateReqVar::Continue { seq: transitions },
    }
}

#[test]
fn helper_finishes_continues_and_fails() {
    let req = cont_req(vec![
        transition(1, TransitionVar::Continued(vec![1])),
        transition(2, TransitionVar::Continued(vec![2])),
        transition(3, TransitionVar::Continued(vec![3])),
        transition(4, TransitionVar::Failed(TransitionFailure::VdafPrepError)),
        transition(5, TransitionVar::Continued(vec![5])),
    ]);
    let steps = vec![
        output(10, 1, &[]),
        Some(VdafPrepStep::Continue { state: vec![0x52], message: vec![0x92] }),
        Some(VdafPrepStep::Failed),
        None,
        output(20, 2, &[]),
    ];
    let out = handle_agg_job_cont_req(
        &task(500),
        helper_state(&[(1, 1000), (2, 1100), (3, 1200), (4, 1300), (5, 1499)]),
        req,
        steps,
    )
    .unwrap();
    assert_eq!(
        out.resp,
        AggregateResp {
            seq: vec![
                transition(1, TransitionVar::Finished),
                transition(2, TransitionVar::Continued(vec![0x92])),
                transition(3, TransitionVar::Failed(TransitionFailure::VdafPrepError)),
                transition(5, TransitionVar::Finished),
            ]
        }
    );
    assert_eq!(
        out.state,
        Some(DapAggregationJobState {
            seq: vec![AggregationJobReportState {
                report_id: Id([2; 32]),
                time: 1100,
                progress: PrepProgress::Waiting { state: vec![0x52], share: None },
            }],
            confirmed: vec![],
            part_batch_sel: PartialBatchSelector::TimeInterval,
        })
    );
    assert_eq!(
        out.span,
        DapAggregateSpan {
            span: vec![DapAggregateSpanEntry {
                bucket: DapBatchBucket::TimeInterval { batch_window: 1000 },
                value: agg_share(2, 1000, 1499, 3, 30),
                reports: vec![(Id([1; 32]), 1000), (Id([5; 32]), 1499)],
            }]
        }
    );
}

#[test]
fn requests_that_do_not_match_abort_the_job() {
    let abort = Err(DapError::Abort(DapAbort::UnrecognizedMessage));
    let state = || helper_state(&[(1, 1000), (2, 1100)]);
    let both = || {
        vec![
            transition(1, TransitionVar::Continued(vec![])),
            transition(2, TransitionVar::Continued(vec![])),
        ]
    };
    assert!(check_agg_job_cont_req(&state(), &cont_req(both())));
    assert!(!check_agg_job_cont_req(&state(), &cont_req(vec![])));
    let init = AggregateReq {
        task_id: Id([0x11; 32]),
        agg_job_id: Id([0x22; 32]),
        var: AggregateReqVar::Init { agg_param: vec![], seq: vec![] },
    };
    assert!(!check_agg_job_cont_req(&state(), &init));
    assert_eq!(handle_agg_job_cont_req(&task(500), state(), init, vec![None, None]), abort);
    assert_eq!(
        handle_agg_job_cont_req(
            &task(500),
            state(),
            cont_req(vec![transition(1, TransitionVar::Continued(vec![]))]),
            vec![None, None]
        ),
        abort
    );
    let mut swapped = both();
    swapped.swap(0, 1);
    assert_eq!(
        handle_agg_job_cont_req(&task(500), state(), cont_req(swapped), vec![None, None]),
        abort
    );
    assert_eq!(
        handle_agg_job_cont_req(&task(500), state(), cont_req(both()), vec![None]),
        Err(DapError::Fatal("steps and reports differ in number".to_string()))
    );
    // A time-interval task without a time precision has no buckets.
    assert_eq!(
        handle_agg_job_cont_req(
            &task(0),
            state(),
            cont_req(both()),
            vec![output(1, 1, &[]), output(2, 2, &[])]
        ),
        Err(DapError::Fatal("time precision is zero".to_string()))
    );
    // Output shares of different lengths cannot be merged.
    let long = Some(VdafPrepStep::Output {
        data: VdafAggregateShare::Field64(vec![1, 2]),
        checksum: [0; 32],
        message: vec![],
    });
    assert_eq!(
        handle_agg_job_cont_req(&task(500), state(), cont_req(both()), vec![output(1, 1, &[]), long]),
        Err(DapError::Fatal("invalid aggregate share merge".to_string()))
    );
}

#[test]
fn output_shares_are_added_to_their_buckets() {
    let mut span = DapAggregateSpan::new();
    let first = DapBatchBucket::TimeInterval { batch_window: 0 };
    let second = DapBatchBucket::FixedSize { batch_id: Id([0; 32]) };
    assert_eq!(add_out_share(&mut span, first, out_share(1, 10, 5, 1)), Ok(()));
    assert_eq!(add_out_share(&mut span, second, out_share(2, 20, 6, 2)), Ok(()));
    assert_eq!(add_out_share(&mut span, first, out_share(3, 5, 7, 4)), Ok(()));
    assert_eq!(span.span.len(), 2);
    assert_eq!(span.span[0].bucket, first);
    assert_eq!(span.span[0].value, agg_share(2, 5, 10, 5, 12));
    assert_eq!(span.span[0].reports, vec![(Id([1; 32]), 10), (Id([3; 32]), 5)]);
    assert_eq!(span.span[1].value, agg_share(1, 20, 20, 2, 6));
    assert_eq!(out_share(9, 33, 8, 3).into_delta(), agg_share(1, 33, 33, 3, 8));
    let wide = DapOutputShare {
        report_id: Id([4; 32]),
        time: 1,
        checksum: [0; 32],
        data: VdafAggregateShare::Field128(vec![1]),
    };
    assert_eq!(
        add_out_share(&mut span, first, wide),
        Err(DapError::Fatal("invalid aggregate share merge".to_string()))
    );
    assert_eq!(span.span[0].value, agg_share(2, 5, 10, 5, 12));
    assert_eq!(span.span[0].reports.len(), 2);
}

#[test]
fn the_answer_says_what_committing_came_to() {
    let resp = AggregateResp {
        seq: vec![
            transition(1, TransitionVar::Finished),
            transition(2, TransitionVar::Finished),
            transition(3, TransitionVar::Continued(vec![3])),
            transition(4, TransitionVar::Finished),
            transition(5, TransitionVar::Finished),
            transition(6, TransitionVar::Failed(TransitionFailure::VdafPrepError)),
        ],
    };
    let committed = DapAggregateSpan {
        span: vec![
            DapAggregateSpanEntry {
                bucket: DapBatchBucket::TimeInterval { batch_window: 0 },
                value: Ok(()),
                reports: vec![(Id([1; 32]), 1)],
            },
            DapAggregateSpanEntry {
                bucket: DapBatchBucket::TimeInterval { batch_window: 500 },
                value: Err(MergeAggShareError::AlreadyCollected),
                reports: vec![(Id([2; 32]), 501), (Id([3; 32]), 502)],
            },
            DapAggregateSpanEntry {
                bucket: DapBatchBucket::TimeInterval { batch_window: 1000 },
                value: Err(MergeAggShareError::ReplaysDetected(vec![Id([4; 32])])),
                reports: vec![(Id([4; 32]), 1001), (Id([6; 32]), 1002)],
            },
        ],
    };
    assert_eq!(
        apply_commit_outcomes(resp, &committed),
        AggregateResp {
            seq: vec![
                transition(1, TransitionVar::Finished),
                transition(2, TransitionVar::Failed(TransitionFailure::BatchCollected)),
                transition(3, TransitionVar::Continued(vec![3])),
                transition(4, TransitionVar::Failed(TransitionFailure::ReportReplayed)),
                transition(5, TransitionVar::Finished),
                transition(6, TransitionVar::Failed(TransitionFailure::VdafPrepError)),
            ]
        }
    );
}
