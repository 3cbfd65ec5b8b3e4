//! The aggregation job: how reports are initialized and what the Leader
//! and the Helper decide in each round.
//!
//! Decrypting an input share and running a step of the aggregation
//! function are the work of others. Each decision here takes what that
//! work came to as an argument.

use crate::agg_share::{
    merged, report_ids, DapAggregateShare, DapAggregateShareView, DapAggregateSpan,
    DapAggregateSpanEntry, MergeAggShareError, VdafAggregateShare,
};
use crate::collections::{Fifo, Key};
use crate::error::{fatal_error, DapAbort, DapError};
use crate::messages::{
    AggregateReq, AggregateReqVar, AggregateResp, AggregationJobId, PartialBatchSelector, Report,
    ReportId, ReportMetadata, ReportShare, TaskId, Time, Transition, TransitionFailure,
    TransitionVar,
};
use crate::task::{quantized_time, DapBatchBucket, DapTaskConfig};
use vstd::prelude::*;

verus! {

/// The state of the preparation of a report, as the aggregation function
/// encodes it.
pub type VdafPrepState = Vec<u8>;

/// A message of the preparation of a report, as the aggregation function
/// encodes it.
pub type VdafPrepMessage = Vec<u8>;

/// A report share after its input share was decrypted, or the reason why
/// the report is rejected.
#[derive(Debug, PartialEq, Eq)]
pub enum EarlyReportStateConsumed {
    Ready { metadata: ReportMetadata, input_share: Vec<u8> },
    Rejected { metadata: ReportMetadata, failure: TransitionFailure },
}

/// A report after the aggregation function was initialized for it, or the
/// reason why the report is rejected.
#[derive(Debug, PartialEq, Eq)]
pub enum EarlyReportStateInitialized {
    Ready { metadata: ReportMetadata, state: VdafPrepState, message: VdafPrepMessage },
    Rejected { metadata: ReportMetadata, failure: TransitionFailure },
}

/// The first of the reasons to reject a report that holds, in the order in
/// which they are looked at; none if the report is ready.
pub open spec fn first_rejection(
    time_is_valid: bool,
    config_is_known: bool,
    is_decrypted: bool,
    is_replayed: bool,
    is_collected: bool,
    is_prepared: bool,
) -> Option<TransitionFailure> {
    if !time_is_valid {
        Some(TransitionFailure::ReportDropped)
    } else if !config_is_known {
        Some(TransitionFailure::HpkeUnknownConfigId)
    } else if !is_decrypted {
        Some(TransitionFailure::HpkeDecryptError)
    } else if is_replayed {
        Some(TransitionFailure::ReportReplayed)
    } else if is_collected {
        Some(TransitionFailure::BatchCollected)
    } else if !is_prepared {
        Some(TransitionFailure::VdafPrepError)
    } else {
        None
    }
}

impl EarlyReportStateConsumed {
    /// What identifies the report and says when it was made.
    pub open spec fn spec_metadata(&self) -> ReportMetadata {
        match self {
            EarlyReportStateConsumed::Ready { metadata, .. } => *metadata,
            EarlyReportStateConsumed::Rejected { metadata, .. } => *metadata,
        }
    }

    /// What identifies the report and says when it was made.
    pub fn metadata(&self) -> (metadata: &ReportMetadata)
        ensures
            *metadata == self.spec_metadata(),
    {
        match self {
            EarlyReportStateConsumed::Ready { metadata, .. } => metadata,
            EarlyReportStateConsumed::Rejected { metadata, .. } => metadata,
        }
    }

    /// Whether the report has not been rejected.
    pub fn is_ready(&self) -> (b: bool)
        ensures
            b == (self is Ready),
    {
        match self {
            EarlyReportStateConsumed::Ready { .. } => true,
            EarlyReportStateConsumed::Rejected { .. } => false,
        }
    }

    /// The report, rejected for the reason `failure`.
    pub fn into_initialized_rejected_due_to(self, failure: TransitionFailure) -> (rejected:
        EarlyReportStateInitialized)
        ensures
            rejected == (EarlyReportStateInitialized::Rejected {
                metadata: self.spec_metadata(),
                failure,
            }),
    {
        match self {
            EarlyReportStateConsumed::Ready { metadata, .. } => {
                EarlyReportStateInitialized::Rejected { metadata, failure }
            },
            EarlyReportStateConsumed::Rejected { metadata, .. } => {
                EarlyReportStateInitialized::Rejected { metadata, failure }
            },
        }
    }

    /// Takes in a report share. `time_is_valid` says whether the report's
    /// time is within what the task takes, `config_is_known` whether the
    /// aggregator has the key that the share is encrypted to, and
    /// `decrypted` is the input share if it could be decrypted.
    pub fn consume(
        metadata: ReportMetadata,
        time_is_valid: bool,
        config_is_known: bool,
        decrypted: Option<Vec<u8>>,
    ) -> (consumed: Self)
        ensures
            consumed.spec_metadata() == metadata,
            match first_rejection(
                time_is_valid,
                config_is_known,
                decrypted is Some,
                false,
                false,
                true,
            ) {
                Some(failure) => consumed == (EarlyReportStateConsumed::Rejected {
                    metadata,
                    failure,
                }),
                None => consumed == (EarlyReportStateConsumed::Ready {
                    metadata,
                    input_share: decrypted->0,
                }),
            },
    {
        if !time_is_valid {
            return EarlyReportStateConsumed::Rejected {
                metadata,
                failure: TransitionFailure::ReportDropped,
            };
        }
        if !config_is_known {
            return EarlyReportStateConsumed::Rejected {
                metadata,
                failure: TransitionFailure::HpkeUnknownConfigId,
            };
        }
        match decrypted {
            Some(input_share) => EarlyReportStateConsumed::Ready { metadata, input_share },
            None => EarlyReportStateConsumed::Rejected {
                metadata,
                failure: TransitionFailure::HpkeDecryptError,
            },
        }
    }
}

impl EarlyReportStateInitialized {
    /// What identifies the report and says when it was made.
    pub open spec fn spec_metadata(&self) -> ReportMetadata {
        match self {
            EarlyReportStateInitialized::Ready { metadata, .. } => *metadata,
            EarlyReportStateInitialized::Rejected { metadata, .. } => *metadata,
        }
    }

    /// What identifies the report and says when it was made.
    pub fn metadata(&self) -> (metadata: &ReportMetadata)
        ensures
            *metadata == self.spec_metadata(),
    {
        match self {
            EarlyReportStateInitialized::Ready { metadata, .. } => metadata,
            EarlyReportStateInitialized::Rejected { metadata, .. } => metadata,
        }
    }

    /// What initializing a consumed report comes to, where `early` is a
    /// reason to reject it that was found before and `prepared` is what
    /// the aggregation function made of its input share.
    pub open spec fn spec_initialize(
        consumed: EarlyReportStateConsumed,
        early: Option<TransitionFailure>,
        prepared: Option<(VdafPrepState, VdafPrepMessage)>,
    ) -> EarlyReportStateInitialized {
        match consumed {
            EarlyReportStateConsumed::Rejected {
                metadata,
                failure,
            } => EarlyReportStateInitialized::Rejected { metadata, failure },
            EarlyReportStateConsumed::Ready { metadata, .. } => match early {
                Some(failure) => EarlyReportStateInitialized::Rejected { metadata, failure },
                None => match prepared {
                    Some((state, message)) => EarlyReportStateInitialized::Ready {
                        metadata,
                        state,
                        message,
                    },
                    None => EarlyReportStateInitialized::Rejected {
                        metadata,
                        failure: TransitionFailure::VdafPrepError,
                    },
                },
            },
        }
    }

    /// Initializes a consumed report. A report that was rejected stays so;
    /// one for which the aggregation function gave no state is rejected.
    pub fn initialize(
        consumed: EarlyReportStateConsumed,
        early: Option<TransitionFailure>,
        prepared: Option<(VdafPrepState, VdafPrepMessage)>,
    ) -> (initialized: Self)
        ensures
            initialized == Self::spec_initialize(consumed, early, prepared),
    {
        match consumed {
            EarlyReportStateConsumed::Rejected {
                metadata,
                failure,
            } => EarlyReportStateInitialized::Rejected { metadata, failure },
            EarlyReportStateConsumed::Ready { metadata, .. } => match early {
                Some(failure) => EarlyReportStateInitialized::Rejected { metadata, failure },
                None => match prepared {
                    Some((state, message)) => EarlyReportStateInitialized::Ready {
                        metadata,
                        state,
                        message,
                    },
                    None => EarlyReportStateInitialized::Rejected {
                        metadata,
                        failure: TransitionFailure::VdafPrepError,
                    },
                },
            },
        }
    }
}

/// A report is ready exactly if none of the reasons to reject it holds, and
/// else it is rejected for the first reason that does.
pub proof fn lemma_rejection_order(
    metadata: ReportMetadata,
    time_is_valid: bool,
    config_is_known: bool,
    decrypted: Option<Vec<u8>>,
    is_replayed: bool,
    is_collected: bool,
    prepared: Option<(VdafPrepState, VdafPrepMessage)>,
)
    ensures
        ({
            let consumed = if !time_is_valid {
                EarlyReportStateConsumed::Rejected {
                    metadata,
                    failure: TransitionFailure::ReportDropped,
                }
            } else if !config_is_known {
                EarlyReportStateConsumed::Rejected {
                    metadata,
                    failure: TransitionFailure::HpkeUnknownConfigId,
                }
            } else if decrypted is None {
                EarlyReportStateConsumed::Rejected {
                    metadata,
                    failure: TransitionFailure::HpkeDecryptError,
                }
            } else {
                EarlyReportStateConsumed::Ready { metadata, input_share: decrypted->0 }
            };
            let early = if is_replayed {
                Some(TransitionFailure::ReportReplayed)
            } else if is_collected {
                Some(TransitionFailure::BatchCollected)
            } else {
                None
            };
            match first_rejection(
                time_is_valid,
                config_is_known,
                decrypted is Some,
                is_replayed,
                is_collected,
                prepared is Some,
            ) {
                Some(failure) => EarlyReportStateInitialized::spec_initialize(
                    consumed,
                    early,
                    prepared,
                ) == (EarlyReportStateInitialized::Rejected { metadata, failure }),
                None => EarlyReportStateInitialized::spec_initialize(consumed, early, prepared)
                    is Ready,
            }
        }),
{
}

/// The bucket that a report made at `time` belongs to in an aggregation
/// job: the batch of the job in a fixed-size task, else the window of the
/// report's time.
pub open spec fn bucket_for(
    time_precision: Time,
    part_batch_sel: PartialBatchSelector,
    time: Time,
) -> DapBatchBucket {
    match part_batch_sel {
        PartialBatchSelector::TimeInterval => DapBatchBucket::TimeInterval {
            batch_window: quantized_time(time_precision, time),
        },
        PartialBatchSelector::FixedSizeByBatchId { batch_id } => DapBatchBucket::FixedSize {
            batch_id,
        },
    }
}

/// The bucket that a report made at `time` belongs to in an aggregation
/// job. A time-interval task with the time precision zero has no buckets.
pub fn bucket_for_report(
    task_config: &DapTaskConfig,
    part_batch_sel: &PartialBatchSelector,
    time: Time,
) -> (r: Option<DapBatchBucket>)
    ensures
        match r {
            Some(bucket) => bucket == bucket_for(task_config.time_precision, *part_batch_sel, time),
            None => part_batch_sel is TimeInterval && task_config.time_precision == 0,
        },
{
    match part_batch_sel {
        PartialBatchSelector::TimeInterval => {
            if task_config.time_precision == 0 {
                None
            } else {
                Some(task_config.bucket_for_time(time))
            }
        },
        PartialBatchSelector::FixedSizeByBatchId { batch_id } => Some(
            DapBatchBucket::FixedSize { batch_id: *batch_id },
        ),
    }
}

/// The output share of a report: what the report adds to the aggregate
/// share of its bucket.
#[derive(Debug, PartialEq, Eq)]
pub struct DapOutputShare {
    pub report_id: ReportId,
    pub time: Time,
    pub checksum: [u8; 32],
    pub data: VdafAggregateShare,
}

impl DapOutputShare {
    /// The aggregate share of the one report.
    pub open spec fn spec_delta(&self) -> DapAggregateShareView {
        DapAggregateShareView {
            report_count: 1,
            min_time: self.time,
            max_time: self.time,
            checksum: self.checksum@,
            data: Some(self.data@),
        }
    }

    /// The aggregate share of the one report.
    pub fn into_delta(self) -> (delta: DapAggregateShare)
        ensures
            delta@ == self.spec_delta(),
    {
        DapAggregateShare {
            report_count: 1,
            min_time: self.time,
            max_time: self.time,
            checksum: self.checksum,
            data: Some(self.data),
        }
    }
}

/// The model of an entry of a span of aggregate shares.
pub ghost struct SpanEntryView {
    pub bucket: DapBatchBucket,
    pub value: DapAggregateShareView,
    pub reports: Seq<(ReportId, Time)>,
}

/// The model of a span of aggregate shares.
pub open spec fn span_view(entries: Seq<DapAggregateSpanEntry<DapAggregateShare>>) -> Seq<
    SpanEntryView,
> {
    entries.map_values(
        |e: DapAggregateSpanEntry<DapAggregateShare>|
            SpanEntryView { bucket: e.bucket, value: e.value@, reports: e.reports@ },
    )
}

/// The place, at or after `from`, of the entry for the bucket; the length
/// of the span if there is none.
pub open spec fn span_index(span: Seq<SpanEntryView>, bucket: DapBatchBucket, from: int) -> int
    decreases span.len() - from,
{
    if from < 0 || from >= span.len() {
        span.len() as int
    } else if span[from].bucket@ == bucket@ {
        from
    } else {
        span_index(span, bucket, from + 1)
    }
}

/// The span after the output share of a report was added to the bucket:
/// merged into the aggregate share that the bucket has, or, for a bucket
/// that the span does not have yet, put behind the others. None where the
/// shares cannot be merged.
pub open spec fn span_add(
    span: Seq<SpanEntryView>,
    bucket: DapBatchBucket,
    out: DapOutputShare,
) -> Option<Seq<SpanEntryView>> {
    let i = span_index(span, bucket, 0);
    if i < span.len() {
        match merged(span[i].value, out.spec_delta()) {
            None => None,
            Some(sum) => Some(
                span.update(
                    i,
                    SpanEntryView {
                        bucket: span[i].bucket,
                        value: sum,
                        reports: span[i].reports.push((out.report_id, out.time)),
                    },
                ),
            ),
        }
    } else {
        Some(
            span.push(
                SpanEntryView {
                    bucket,
                    value: out.spec_delta(),
                    reports: seq![(out.report_id, out.time)],
                },
            ),
        )
    }
}

/// The span of the output shares, added one after the other, each to the
/// bucket of its report. None where two shares cannot be merged.
pub open spec fn span_of(
    time_precision: Time,
    part_batch_sel: PartialBatchSelector,
    outputs: Seq<DapOutputShare>,
) -> Option<Seq<SpanEntryView>>
    decreases outputs.len(),
{
    if outputs.len() == 0 {
        Some(Seq::empty())
    } else {
        match span_of(time_precision, part_batch_sel, outputs.drop_last()) {
            None => None,
            Some(span) => span_add(
                span,
                bucket_for(time_precision, part_batch_sel, outputs.last().time),
                outputs.last(),
            ),
        }
    }
}

proof fn lemma_span_index(span: Seq<SpanEntryView>, bucket: DapBatchBucket, from: int, i: int)
    requires
        0 <= from <= i <= span.len(),
        forall|j: int| from <= j < i ==> (#[trigger] span[j]).bucket@ != bucket@,
        i < span.len() ==> span[i].bucket@ == bucket@,
    ensures
        span_index(span, bucket, from) == i,
    decreases i - from,
{
    if from < i {
        assert(span[from].bucket@ != bucket@);
        lemma_span_index(span, bucket, from + 1, i);
    }
}

proof fn lemma_span_of_fails_on(
    time_precision: Time,
    part_batch_sel: PartialBatchSelector,
    outputs: Seq<DapOutputShare>,
    n: int,
)
    requires
        0 <= n <= outputs.len(),
        span_of(time_precision, part_batch_sel, outputs.take(n)) is None,
    ensures
        span_of(time_precision, part_batch_sel, outputs) is None,
    decreases outputs.len(),
{
    if n < outputs.len() {
        assert(outputs.drop_last().take(n) =~= outputs.take(n));
        lemma_span_of_fails_on(time_precision, part_batch_sel, outputs.drop_last(), n);
    } else {
        assert(outputs.take(n) =~= outputs);
    }
}

/// Adds the output share of a report to the entry of the span for the
/// bucket. Where the shares cannot be merged the span stays as it was.
pub fn add_out_share(
    span: &mut DapAggregateSpan<DapAggregateShare>,
    bucket: DapBatchBucket,
    out: DapOutputShare,
) -> (r: Result<(), DapError>)
    ensures
        match r {
            Ok(_) => span_add(span_view(old(span).span@), bucket, out) == Some(
                span_view(final(span).span@),
            ),
            Err(e) => {
                &&& span_add(span_view(old(span).span@), bucket, out) is None
                &&& final(span).span@ == old(span).span@
                &&& e.is_fatal("invalid aggregate share merge"@)
            },
        },
{
    let ghost model = span_view(span.span@);
    let report_id = out.report_id;
    let time = out.time;
    let mut i: usize = 0;
    while i < span.span.len()
        invariant
            i <= span.span@.len(),
            *span == *old(span),
            report_id == out.report_id,
            time == out.time,
            model == span_view(span.span@),
            forall|j: int| 0 <= j < i ==> (#[trigger] model[j]).bucket@ != bucket@,
        decreases span.span@.len() - i,
    {
        if span.span[i].bucket.same(&bucket) {
            proof {
                lemma_span_index(model, bucket, 0, i as int);
            }
            let ghost before = span.span@;
            let mut value = span.span[i].value.clone();
            match value.merge(out.into_delta()) {
                Err(e) => {
                    return Err(e);
                },
                Ok(_) => {},
            }
            let DapAggregateSpanEntry { bucket: held, value: _, reports } = span.span.remove(i);
            let mut reports = reports;
            reports.push((report_id, time));
            let entry = DapAggregateSpanEntry { bucket: held, value, reports };
            span.span.insert(i, entry);
            proof {
                assert(span.span@ =~= before.update(i as int, entry));
                let updated = SpanEntryView {
                    bucket: model[i as int].bucket,
                    value: value@,
                    reports: model[i as int].reports.push((report_id, time)),
                };
                assert(span_view(span.span@) =~= model.update(i as int, updated));
                assert(merged(model[i as int].value, out.spec_delta()) == Some(value@));
                assert(span_add(model, bucket, out) == Some(model.update(i as int, updated)));
            }
            return Ok(());
        }
        i = i + 1;
    }
    proof {
        lemma_span_index(model, bucket, 0, i as int);
    }
    let ghost delta = out.spec_delta();
    let mut reports: Vec<(ReportId, Time)> = Vec::new();
    reports.push((report_id, time));
    let entry = DapAggregateSpanEntry { bucket, value: out.into_delta(), reports };
    span.span.push(entry);
    assert(reports@ =~= seq![(report_id, time)]);
    assert(span_view(span.span@) =~= model.push(
        SpanEntryView { bucket, value: delta, reports: reports@ },
    ));
    Ok(())
}

/// How far the preparation of a report has come: it waits for the next
/// message of the peer, or its output share is there and waits for the
/// peer to finish.
#[derive(Debug, PartialEq, Eq)]
pub enum PrepProgress {
    Waiting { state: VdafPrepState, share: Option<VdafPrepMessage> },
    Ready { checksum: [u8; 32], data: VdafAggregateShare },
}

/// What an aggregator keeps of a report between the rounds of a job.
#[derive(Debug, PartialEq, Eq)]
pub struct AggregationJobReportState {
    pub report_id: ReportId,
    pub time: Time,
    pub progress: PrepProgress,
}

/// What an aggregator keeps of an aggregation job between rounds: the
/// reports that are not done, in the order of the first request, and the
/// output shares of those that both aggregators have finished.
#[derive(Debug, PartialEq, Eq)]
pub struct DapAggregationJobState {
    pub seq: Vec<AggregationJobReportState>,
    pub confirmed: Vec<DapOutputShare>,
    pub part_batch_sel: PartialBatchSelector,
}

/// What the Leader keeps of a job in which no report waits for another
/// round: the output shares that wait for the Helper to finish, and those
/// that both have finished.
#[derive(Debug, PartialEq, Eq)]
pub struct DapAggregationJobUncommitted {
    pub seq: Vec<DapOutputShare>,
    pub confirmed: Vec<DapOutputShare>,
    pub part_batch_sel: PartialBatchSelector,
}

/// What a step of the aggregation function came to for a report.
#[derive(Debug, PartialEq, Eq)]
pub enum VdafPrepStep {
    /// The output share is there. `message` goes to the peer.
    Output { data: VdafAggregateShare, checksum: [u8; 32], message: VdafPrepMessage },
    /// Another round is needed. `message` goes to the peer.
    Continue { state: VdafPrepState, message: VdafPrepMessage },
    /// The preparation failed.
    Failed,
}

/// Where an aggregation job of the Leader goes next.
#[derive(Debug, PartialEq, Eq)]
pub enum DapLeaderAggregationJobTransition<M> {
    /// Some report waits for another round: `M` goes to the Helper.
    Continued(DapAggregationJobState, M),
    /// No report waits for another round: `M` goes to the Helper, whose
    /// answer the output shares wait for.
    Uncommitted(DapAggregationJobUncommitted, M),
    /// The job is done, with these aggregate shares to commit.
    Finished(DapAggregateSpan<DapAggregateShare>),
}

/// Where an aggregation job of the Helper goes next. `M` is the answer to
/// the Leader.
#[derive(Debug, PartialEq, Eq)]
pub enum DapHelperAggregationJobTransition<M> {
    /// Some report waits for another round.
    Continued(DapAggregationJobState, M),
    /// The job is done, with these aggregate shares to commit.
    Finished(DapAggregateSpan<DapAggregateShare>, M),
}

/// The identifiers of the reports of a job, in order.
pub open spec fn state_ids(seq: Seq<AggregationJobReportState>) -> Seq<ReportId> {
    seq.map_values(|e: AggregationJobReportState| e.report_id)
}

/// The identifiers of the transitions, in order.
pub open spec fn transition_ids(seq: Seq<Transition>) -> Seq<ReportId> {
    seq.map_values(|t: Transition| t.report_id)
}

/// The identifiers of the output shares, in order.
pub open spec fn output_ids(seq: Seq<DapOutputShare>) -> Seq<ReportId> {
    seq.map_values(|o: DapOutputShare| o.report_id)
}

/// Whether the two lists hold the same identifiers in the same order.
pub open spec fn same_ids(left: Seq<ReportId>, right: Seq<ReportId>) -> bool {
    &&& left.len() == right.len()
    &&& forall|i: int| 0 <= i < left.len() ==> (#[trigger] left[i])@ == right[i]@
}

/// What the Leader's first step makes of its reports: for each report that
/// is ready and has a share for each of the two aggregators, what the
/// Leader keeps of it and the report share that goes to the Helper. The
/// other reports are dropped.
pub ghost struct LeaderInit {
    pub kept: Seq<AggregationJobReportState>,
    pub shares: Seq<ReportShare>,
}

/// What the Leader's first step makes of its first `n` reports.
pub open spec fn leader_init(
    reports: Seq<Report>,
    initialized: Seq<EarlyReportStateInitialized>,
    n: int,
) -> LeaderInit
    decreases n,
{
    if n <= 0 {
        LeaderInit { kept: Seq::empty(), shares: Seq::empty() }
    } else {
        let before = leader_init(reports, initialized, n - 1);
        let report = reports[n - 1];
        match initialized[n - 1] {
            EarlyReportStateInitialized::Ready { metadata, state, message } => {
                if report.encrypted_input_shares@.len() == 2 {
                    LeaderInit {
                        kept: before.kept.push(
                            AggregationJobReportState {
                                report_id: metadata.id,
                                time: metadata.time,
                                progress: PrepProgress::Waiting { state, share: Some(message) },
                            },
                        ),
                        shares: before.shares.push(
                            ReportShare {
                                metadata,
                                ignored_extensions: report.ignored_extensions,
                                encrypted_input_share: report.encrypted_input_shares@[1],
                            },
                        ),
                    }
                } else {
                    before
                }
            },
            EarlyReportStateInitialized::Rejected { .. } => before,
        }
    }
}

/// Leader: starts an aggregation job. `initialized` holds, for each of
/// the reports and in their order, what initializing the report with the
/// Leader's input share came to. The request holds the Helper's shares of
/// the reports that are ready, in the order of the reports.
pub fn produce_agg_job_init_req(
    task_id: &TaskId,
    agg_job_id: &AggregationJobId,
    part_batch_sel: &PartialBatchSelector,
    agg_param: Vec<u8>,
    reports: Vec<Report>,
    initialized: Vec<EarlyReportStateInitialized>,
) -> (r: Result<DapLeaderAggregationJobTransition<AggregateReq>, DapError>)
    ensures
        match r {
            Err(e) => {
                &&& reports@.len() != initialized@.len()
                &&& e.is_fatal("reports and their states differ in number"@)
            },
            Ok(transition) => {
                let init = leader_init(reports@, initialized@, reports@.len() as int);
                &&& reports@.len() == initialized@.len()
                &&& if init.shares.len() == 0 {
                    transition matches DapLeaderAggregationJobTransition::Finished(span)
                        && span.span@.len() == 0
                } else {
                    transition matches DapLeaderAggregationJobTransition::Continued(state, req) && {
                        &&& state.seq@ == init.kept
                        &&& state.confirmed@.len() == 0
                        &&& state.part_batch_sel == *part_batch_sel
                        &&& req.task_id == *task_id
                        &&& req.agg_job_id == *agg_job_id
                        &&& req.var matches AggregateReqVar::Init { agg_param: param, seq }
                            && param == agg_param && seq@ == init.shares
                    }
                }
            },
        },
{
    if reports.len() != initialized.len() {
        return Err(fatal_error("reports and their states differ in number"));
    }
    let ghost all_reports = reports@;
    let ghost all_states = initialized@;
    let mut reports = Fifo::from_vec(reports);
    let mut initialized = Fifo::from_vec(initialized);
    let mut kept: Vec<AggregationJobReportState> = Vec::new();
    let mut shares: Vec<ReportShare> = Vec::new();
    let mut n: usize = 0;
    while reports.len() > 0
        invariant
            n <= all_reports.len() == all_states.len(),
            all_reports.len() <= usize::MAX,
            reports@ == all_reports.skip(n as int),
            initialized@ == all_states.skip(n as int),
            kept@ == leader_init(all_reports, all_states, n as int).kept,
            shares@ == leader_init(all_reports, all_states, n as int).shares,
        decreases reports@.len(),
    {
        let report = reports.pop_front();
        let state = initialized.pop_front();
        proof {
            assert(report == all_reports[n as int]);
            assert(state == all_states[n as int]);
            assert(reports@ =~= all_reports.skip(n + 1));
            assert(initialized@ =~= all_states.skip(n + 1));
        }
        n = n + 1;
        match state {
            EarlyReportStateInitialized::Ready { metadata, state, message } => {
                let Report { task_id: _, metadata: _, ignored_extensions, encrypted_input_shares } =
                    report;
                let mut encrypted_input_shares = encrypted_input_shares;
                if encrypted_input_shares.len() == 2 {
                    match encrypted_input_shares.pop() {
                        Some(encrypted_input_share) => {
                            kept.push(
                                AggregationJobReportState {
                                    report_id: metadata.id,
                                    time: metadata.time,
                                    progress: PrepProgress::Waiting { state, share: Some(message) },
                                },
                            );
                            shares.push(
                                ReportShare { metadata, ignored_extensions, encrypted_input_share },
                            );
                        },
                        None => {},
                    }
                }
            },
            EarlyReportStateInitialized::Rejected { .. } => {},
        }
    }
    if shares.len() == 0 {
        return Ok(DapLeaderAggregationJobTransition::Finished(DapAggregateSpan::new()));
    }
    Ok(
        DapLeaderAggregationJobTransition::Continued(
            DapAggregationJobState {
                seq: kept,
                confirmed: Vec::new(),
                part_batch_sel: *part_batch_sel,
            },
            AggregateReq {
                task_id: *task_id,
                agg_job_id: *agg_job_id,
                var: AggregateReqVar::Init { agg_param, seq: shares },
            },
        ),
    )
}

/// What the Helper's first step makes of the reports of a request: for
/// each report a transition, and for each report that is ready what the
/// Helper keeps of it.
pub ghost struct HelperInit {
    pub kept: Seq<AggregationJobReportState>,
    pub transitions: Seq<Transition>,
}

/// What the Helper's first step makes of the first `n` reports.
pub open spec fn helper_init(initialized: Seq<EarlyReportStateInitialized>, n: int) -> HelperInit
    decreases n,
{
    if n <= 0 {
        HelperInit { kept: Seq::empty(), transitions: Seq::empty() }
    } else {
        let before = helper_init(initialized, n - 1);
        match initialized[n - 1] {
            EarlyReportStateInitialized::Ready { metadata, state, message } => HelperInit {
                kept: before.kept.push(
                    AggregationJobReportState {
                        report_id: metadata.id,
                        time: metadata.time,
                        progress: PrepProgress::Waiting { state, share: None },
                    },
                ),
                transitions: before.transitions.push(
                    Transition { report_id: metadata.id, var: TransitionVar::Continued(message) },
                ),
            },
            EarlyReportStateInitialized::Rejected { metadata, failure } => HelperInit {
                kept: before.kept,
                transitions: before.transitions.push(
                    Transition { report_id: metadata.id, var: TransitionVar::Failed(failure) },
                ),
            },
        }
    }
}

/// The answer holds one transition for each report, in the order of the
/// reports and with the identifier of its report.
pub proof fn lemma_helper_init_preserves_order(
    initialized: Seq<EarlyReportStateInitialized>,
    n: int,
)
    requires
        0 <= n <= initialized.len(),
    ensures
        helper_init(initialized, n).transitions.len() == n,
        forall|i: int|
            0 <= i < n ==> (#[trigger] helper_init(initialized, n).transitions[i]).report_id
                == initialized[i].spec_metadata().id,
    decreases n,
{
    if n > 0 {
        lemma_helper_init_preserves_order(initialized, n - 1);
    }
}

/// Helper: answers the first request of an aggregation job. `initialized`
/// holds, for each report share of the request and in their order, what
/// initializing the report came to. A report that is ready continues with
/// its message to the Leader; a rejected report fails for its reason.
pub fn handle_agg_job_init_req(
    part_batch_sel: &PartialBatchSelector,
    initialized: Vec<EarlyReportStateInitialized>,
) -> (transition: DapHelperAggregationJobTransition<AggregateResp>)
    ensures
        ({
            let init = helper_init(initialized@, initialized@.len() as int);
            if init.kept.len() == 0 {
                transition matches DapHelperAggregationJobTransition::Finished(span, resp)
                    && span.span@.len() == 0 && resp.seq@ == init.transitions
            } else {
                transition matches DapHelperAggregationJobTransition::Continued(state, resp) && {
                    &&& state.seq@ == init.kept
                    &&& state.confirmed@.len() == 0
                    &&& state.part_batch_sel == *part_batch_sel
                    &&& resp.seq@ == init.transitions
                }
            }
        }),
{
    let ghost all = initialized@;
    let total = initialized.len();
    let mut initialized = Fifo::from_vec(initialized);
    let mut kept: Vec<AggregationJobReportState> = Vec::new();
    let mut transitions: Vec<Transition> = Vec::new();
    let mut n: usize = 0;
    while n < total
        invariant
            n <= total == all.len(),
            initialized@ == all.skip(n as int),
            kept@ == helper_init(all, n as int).kept,
            transitions@ == helper_init(all, n as int).transitions,
        decreases total - n,
    {
        let state = initialized.pop_front();
        proof {
            assert(state == all[n as int]);
            assert(initialized@ =~= all.skip(n + 1));
        }
        n = n + 1;
        match state {
            EarlyReportStateInitialized::Ready { metadata, state, message } => {
                kept.push(
                    AggregationJobReportState {
                        report_id: metadata.id,
                        time: metadata.time,
                        progress: PrepProgress::Waiting { state, share: None },
                    },
                );
                transitions.push(
                    Transition { report_id: metadata.id, var: TransitionVar::Continued(message) },
                );
            },
            EarlyReportStateInitialized::Rejected { metadata, failure } => {
                transitions.push(
                    Transition { report_id: metadata.id, var: TransitionVar::Failed(failure) },
                );
            },
        }
    }
    let resp = AggregateResp { seq: transitions };
    if kept.len() == 0 {
        DapHelperAggregationJobTransition::Finished(DapAggregateSpan::new(), resp)
    } else {
        DapHelperAggregationJobTransition::Continued(
            DapAggregationJobState {
                seq: kept,
                confirmed: Vec::new(),
                part_batch_sel: *part_batch_sel,
            },
            resp,
        )
    }
}

/// `items` with `item` behind, if there is one.
pub open spec fn push_opt<T>(items: Seq<T>, item: Option<T>) -> Seq<T> {
    match item {
        Some(item) => items.push(item),
        None => items,
    }
}

/// Whether the two lists of reports and transitions have the same
/// identifiers in the same order.
fn ids_match(entries: &Vec<AggregationJobReportState>, transitions: &Vec<Transition>) -> (b: bool)
    ensures
        b == same_ids(state_ids(entries@), transition_ids(transitions@)),
{
    if entries.len() != transitions.len() {
        return false;
    }
    let mut i: usize = 0;
    while i < entries.len()
        invariant
            i <= entries@.len() == transitions@.len(),
            forall|j: int|
                0 <= j < i ==> (#[trigger] state_ids(entries@)[j])@ == transition_ids(
                    transitions@,
                )[j]@,
        decreases entries@.len() - i,
    {
        if !entries[i].report_id.same(&transitions[i].report_id) {
            assert(state_ids(entries@)[i as int]@ != transition_ids(transitions@)[i as int]@);
            return false;
        }
        i = i + 1;
    }
    true
}

/// Whether the output shares and the transitions have the same identifiers
/// in the same order.
fn output_ids_match(outputs: &Vec<DapOutputShare>, transitions: &Vec<Transition>) -> (b: bool)
    ensures
        b == same_ids(output_ids(outputs@), transition_ids(transitions@)),
{
    if outputs.len() != transitions.len() {
        return false;
    }
    let mut i: usize = 0;
    while i < outputs.len()
        invariant
            i <= outputs@.len() == transitions@.len(),
            forall|j: int|
                0 <= j < i ==> (#[trigger] output_ids(outputs@)[j])@ == transition_ids(
                    transitions@,
                )[j]@,
        decreases outputs@.len() - i,
    {
        if !outputs[i].report_id.same(&transitions[i].report_id) {
            assert(output_ids(outputs@)[i as int]@ != transition_ids(transitions@)[i as int]@);
            return false;
        }
        i = i + 1;
    }
    true
}

/// What a round makes of one report: what is kept of it for the next
/// round, the transition that goes to the peer, and the output share if
/// both aggregators have finished the report.
pub ghost struct RoundStep {
    pub next: Option<AggregationJobReportState>,
    pub send: Option<Transition>,
    pub done: Option<DapOutputShare>,
}

/// What a round makes of the reports of a job.
pub ghost struct Round {
    pub next: Seq<AggregationJobReportState>,
    pub send: Seq<Transition>,
    pub done: Seq<DapOutputShare>,
}

/// The transition that tells the peer that the preparation failed.
pub open spec fn prep_failed(report_id: ReportId) -> Transition {
    Transition { report_id, var: TransitionVar::Failed(TransitionFailure::VdafPrepError) }
}

/// What the Leader makes of the Helper's transition for a report, where
/// `step` is what the aggregation function made of the Helper's message.
///
/// A report that waits and for which the Helper continues takes the step:
/// its output share is then there, or it waits on, and its message goes to
/// the Helper; a step that failed is told to the Helper. An output share
/// for which the Helper has finished is done. An output share for which
/// the Helper continues is given up and the Helper is told. A report for
/// which the Helper has finished early or has failed is dropped.
pub open spec fn leader_step(
    entry: AggregationJobReportState,
    helper: TransitionVar,
    step: Option<VdafPrepStep>,
) -> RoundStep {
    let report_id = entry.report_id;
    let time = entry.time;
    match (entry.progress, helper) {
        (PrepProgress::Waiting { .. }, TransitionVar::Continued(_)) => match step {
            Some(VdafPrepStep::Output { data, checksum, message }) => RoundStep {
                next: Some(
                    AggregationJobReportState {
                        report_id,
                        time,
                        progress: PrepProgress::Ready { checksum, data },
                    },
                ),
                send: Some(Transition { report_id, var: TransitionVar::Continued(message) }),
                done: None,
            },
            Some(VdafPrepStep::Continue { state, message }) => RoundStep {
                next: Some(
                    AggregationJobReportState {
                        report_id,
                        time,
                        progress: PrepProgress::Waiting { state, share: None },
                    },
                ),
                send: Some(Transition { report_id, var: TransitionVar::Continued(message) }),
                done: None,
            },
            _ => RoundStep { next: None, send: Some(prep_failed(report_id)), done: None },
        },
        (PrepProgress::Ready { checksum, data }, TransitionVar::Finished) => RoundStep {
            next: None,
            send: None,
            done: Some(DapOutputShare { report_id, time, checksum, data }),
        },
        (PrepProgress::Ready { .. }, TransitionVar::Continued(_)) => RoundStep {
            next: None,
            send: Some(prep_failed(report_id)),
            done: None,
        },
        _ => RoundStep { next: None, send: None, done: None },
    }
}

/// What the Helper makes of the Leader's transition for a report, where
/// `step` is what the aggregation function made of the Leader's message.
///
/// A report for which the Leader continues takes the step: it is done and
/// has its output share, or it waits on and its message goes to the
/// Leader; a step that failed is told to the Leader. A report that the
/// Leader has given up is dropped without an answer.
pub open spec fn helper_step(
    entry: AggregationJobReportState,
    leader: TransitionVar,
    step: Option<VdafPrepStep>,
) -> RoundStep {
    let report_id = entry.report_id;
    let time = entry.time;
    match leader {
        TransitionVar::Continued(_) => match step {
            Some(VdafPrepStep::Output { data, checksum, .. }) => RoundStep {
                next: None,
                send: Some(Transition { report_id, var: TransitionVar::Finished }),
                done: Some(DapOutputShare { report_id, time, checksum, data }),
            },
            Some(VdafPrepStep::Continue { state, message }) => RoundStep {
                next: Some(
                    AggregationJobReportState {
                        report_id,
                        time,
                        progress: PrepProgress::Waiting { state, share: None },
                    },
                ),
                send: Some(Transition { report_id, var: TransitionVar::Continued(message) }),
                done: None,
            },
            _ => RoundStep { next: None, send: Some(prep_failed(report_id)), done: None },
        },
        _ => RoundStep { next: None, send: None, done: None },
    }
}

/// What a round of the Leader (`is_leader`) or the Helper makes of the
/// first `n` reports of a job, given for each the transition of the peer
/// and what the aggregation function came to.
pub open spec fn round(
    is_leader: bool,
    entries: Seq<AggregationJobReportState>,
    transitions: Seq<Transition>,
    steps: Seq<Option<VdafPrepStep>>,
    n: int,
) -> Round
    decreases n,
{
    if n <= 0 {
        Round { next: Seq::empty(), send: Seq::empty(), done: Seq::empty() }
    } else {
        let before = round(is_leader, entries, transitions, steps, n - 1);
        let step = if is_leader {
            leader_step(entries[n - 1], transitions[n - 1].var, steps[n - 1])
        } else {
            helper_step(entries[n - 1], transitions[n - 1].var, steps[n - 1])
        };
        Round {
            next: push_opt(before.next, step.next),
            send: push_opt(before.send, step.send),
            done: push_opt(before.done, step.done),
        }
    }
}

/// Takes a step for one report.
fn take_step(
    is_leader: bool,
    entry: AggregationJobReportState,
    peer: TransitionVar,
    step: Option<VdafPrepStep>,
) -> (r: (Option<AggregationJobReportState>, Option<Transition>, Option<DapOutputShare>))
    ensures
        ({
            let expected = if is_leader {
                leader_step(entry, peer, step)
            } else {
                helper_step(entry, peer, step)
            };
            r == (expected.next, expected.send, expected.done)
        }),
{
    let AggregationJobReportState { report_id, time, progress } = entry;
    let failed = Transition {
        report_id,
        var: TransitionVar::Failed(TransitionFailure::VdafPrepError),
    };
    let waits = match &progress {
        PrepProgress::Waiting { .. } => true,
        PrepProgress::Ready { .. } => false,
    };
    match peer {
        TransitionVar::Continued(_) => {
            if !waits && is_leader {
                return (None, Some(failed), None);
            }
            match step {
                Some(VdafPrepStep::Output { data, checksum, message }) => {
                    if is_leader {
                        (
                            Some(
                                AggregationJobReportState {
                                    report_id,
                                    time,
                                    progress: PrepProgress::Ready { checksum, data },
                                },
                            ),
                            Some(Transition { report_id, var: TransitionVar::Continued(message) }),
                            None,
                        )
                    } else {
                        (
                            None,
                            Some(Transition { report_id, var: TransitionVar::Finished }),
                            Some(DapOutputShare { report_id, time, checksum, data }),
                        )
                    }
                },
                Some(VdafPrepStep::Continue { state, message }) => (
                    Some(
                        AggregationJobReportState {
                            report_id,
                            time,
                            progress: PrepProgress::Waiting { state, share: None },
                        },
                    ),
                    Some(Transition { report_id, var: TransitionVar::Continued(message) }),
                    None,
                ),
                _ => (None, Some(failed), None),
            }
        },
        TransitionVar::Finished => {
            if is_leader {
                match progress {
                    PrepProgress::Ready { checksum, data } => (
                        None,
                        None,
                        Some(DapOutputShare { report_id, time, checksum, data }),
                    ),
                    PrepProgress::Waiting { .. } => (None, None, None),
                }
            } else {
                (None, None, None)
            }
        },
        TransitionVar::Failed(_) => (None, None, None),
    }
}

/// Takes the steps of a round.
fn take_round(
    is_leader: bool,
    entries: Vec<AggregationJobReportState>,
    transitions: Vec<Transition>,
    steps: Vec<Option<VdafPrepStep>>,
) -> (r: (Vec<AggregationJobReportState>, Vec<Transition>, Vec<DapOutputShare>))
    requires
        entries@.len() == transitions@.len(),
        entries@.len() == steps@.len(),
    ensures
        ({
            let expected = round(is_leader, entries@, transitions@, steps@, entries@.len() as int);
            r.0@ == expected.next && r.1@ == expected.send && r.2@ == expected.done
        }),
{
    let ghost all_entries = entries@;
    let ghost all_transitions = transitions@;
    let ghost all_steps = steps@;
    let total = entries.len();
    let mut entries = Fifo::from_vec(entries);
    let mut transitions = Fifo::from_vec(transitions);
    let mut steps = Fifo::from_vec(steps);
    let mut next: Vec<AggregationJobReportState> = Vec::new();
    let mut send: Vec<Transition> = Vec::new();
    let mut done: Vec<DapOutputShare> = Vec::new();
    let mut n: usize = 0;
    while n < total
        invariant
            n <= total == all_entries.len(),
            all_transitions.len() == total,
            all_steps.len() == total,
            entries@ == all_entries.skip(n as int),
            transitions@ == all_transitions.skip(n as int),
            steps@ == all_steps.skip(n as int),
            next@ == round(is_leader, all_entries, all_transitions, all_steps, n as int).next,
            send@ == round(is_leader, all_entries, all_transitions, all_steps, n as int).send,
            done@ == round(is_leader, all_entries, all_transitions, all_steps, n as int).done,
        decreases total - n,
    {
        let entry = entries.pop_front();
        let transition = transitions.pop_front();
        let step = steps.pop_front();
        proof {
            assert(entry == all_entries[n as int]);
            assert(transition == all_transitions[n as int]);
            assert(step == all_steps[n as int]);
            assert(entries@ =~= all_entries.skip(n + 1));
            assert(transitions@ =~= all_transitions.skip(n + 1));
            assert(steps@ =~= all_steps.skip(n + 1));
        }
        n = n + 1;
        let (kept, sent, finished) = take_step(is_leader, entry, transition.var, step);
        match kept {
            Some(kept) => {
                next.push(kept);
            },
            None => {},
        }
        match sent {
            Some(sent) => {
                send.push(sent);
            },
            None => {},
        }
        match finished {
            Some(finished) => {
                done.push(finished);
            },
            None => {},
        }
    }
    (next, send, done)
}

/// Whether the preparation of no report waits for another round.
pub open spec fn all_ready(seq: Seq<AggregationJobReportState>) -> bool {
    forall|i: int| 0 <= i < seq.len() ==> (#[trigger] seq[i]).progress is Ready
}

/// The output share of a report whose preparation is ready.
pub open spec fn ready_output(entry: AggregationJobReportState) -> DapOutputShare {
    DapOutputShare {
        report_id: entry.report_id,
        time: entry.time,
        checksum: entry.progress->Ready_checksum,
        data: entry.progress->Ready_data,
    }
}

/// The output shares of reports whose preparation is ready.
pub open spec fn ready_outputs(seq: Seq<AggregationJobReportState>) -> Seq<DapOutputShare> {
    seq.map_values(|e: AggregationJobReportState| ready_output(e))
}

/// The output shares of the reports, if the preparation of each is ready.
fn into_outputs(seq: Vec<AggregationJobReportState>) -> (r: Option<Vec<DapOutputShare>>)
    ensures
        match r {
            Some(outputs) => all_ready(seq@) && outputs@ == ready_outputs(seq@),
            None => !all_ready(seq@),
        },
{
    let ghost all = seq@;
    let total = seq.len();
    let mut rest = Fifo::from_vec(seq);
    let mut outputs: Vec<DapOutputShare> = Vec::new();
    let mut n: usize = 0;
    while n < total
        invariant
            n <= total == all.len(),
            all == seq@,
            rest@ == all.skip(n as int),
            outputs@ == ready_outputs(all.take(n as int)),
            all_ready(all.take(n as int)),
        decreases total - n,
    {
        let entry = rest.pop_front();
        proof {
            assert(entry == all[n as int]);
            assert(rest@ =~= all.skip(n + 1));
            assert(all.take(n + 1) =~= all.take(n as int).push(entry));
        }
        let AggregationJobReportState { report_id, time, progress } = entry;
        match progress {
            PrepProgress::Ready { checksum, data } => {
                outputs.push(DapOutputShare { report_id, time, checksum, data });
                assert(outputs@ =~= ready_outputs(all.take(n + 1)));
            },
            PrepProgress::Waiting { .. } => {
                assert(!(all[n as int].progress is Ready));
                return None;
            },
        }
        n = n + 1;
    }
    assert(all.take(n as int) =~= all);
    Some(outputs)
}

/// The span of the output shares. A time-interval task with the time
/// precision zero has no buckets, and so no span.
fn span_for(
    task_config: &DapTaskConfig,
    part_batch_sel: &PartialBatchSelector,
    outputs: Vec<DapOutputShare>,
) -> (r: Result<DapAggregateSpan<DapAggregateShare>, DapError>)
    ensures
        match r {
            Ok(span) => {
                &&& span_fault(task_config.time_precision, *part_batch_sel, outputs@) is None
                &&& span_of(task_config.time_precision, *part_batch_sel, outputs@) == Some(
                    span_view(span.span@),
                )
            },
            Err(e) => {
                &&& span_fault(task_config.time_precision, *part_batch_sel, outputs@)
                    matches Some(detail)
                &&& e.is_fatal(detail)
            },
        },
{
    match part_batch_sel {
        PartialBatchSelector::TimeInterval => {
            if task_config.time_precision == 0 {
                return Err(fatal_error("time precision is zero"));
            }
        },
        PartialBatchSelector::FixedSizeByBatchId { .. } => {},
    }
    let ghost all = outputs@;
    let total = outputs.len();
    let mut rest = Fifo::from_vec(outputs);
    let mut span: DapAggregateSpan<DapAggregateShare> = DapAggregateSpan::new();
    let mut n: usize = 0;
    assert(all.take(0) =~= Seq::empty());
    assert(span_view(span.span@) =~= Seq::empty());
    while n < total
        invariant
            n <= total == all.len(),
            all == outputs@,
            part_batch_sel is TimeInterval ==> task_config.time_precision > 0,
            rest@ == all.skip(n as int),
            span_of(task_config.time_precision, *part_batch_sel, all.take(n as int)) == Some(
                span_view(span.span@),
            ),
        decreases total - n,
    {
        let out = rest.pop_front();
        proof {
            assert(out == all[n as int]);
            assert(rest@ =~= all.skip(n + 1));
            assert(all.take(n + 1).drop_last() =~= all.take(n as int));
            assert(all.take(n + 1).last() == out);
        }
        let bucket = match bucket_for_report(task_config, part_batch_sel, out.time) {
            Some(bucket) => bucket,
            None => {
                return Err(fatal_error("time precision is zero"));
            },
        };
        match add_out_share(&mut span, bucket, out) {
            Ok(_) => {},
            Err(e) => {
                proof {
                    assert(span_of(
                        task_config.time_precision,
                        *part_batch_sel,
                        all.take(n + 1),
                    ) is None);
                    lemma_span_of_fails_on(
                        task_config.time_precision,
                        *part_batch_sel,
                        all,
                        n as int + 1,
                    );
                }
                return Err(e);
            },
        }
        n = n + 1;
    }
    assert(all.take(n as int) =~= all);
    Ok(span)
}

/// Why the output shares have no span, if they have none: the task has no
/// buckets, or two shares cannot be merged.
pub open spec fn span_fault(
    time_precision: Time,
    part_batch_sel: PartialBatchSelector,
    outputs: Seq<DapOutputShare>,
) -> Option<Seq<char>> {
    if part_batch_sel is TimeInterval && time_precision == 0 {
        Some("time precision is zero"@)
    } else if span_of(time_precision, part_batch_sel, outputs) is None {
        Some("invalid aggregate share merge"@)
    } else {
        None
    }
}

/// What handling the Helper's answer comes to for the Leader.
///
/// The answer must hold one transition for each report that the Leader
/// keeps, with the same identifiers in the same order; else the job is
/// aborted. Then each report takes its step. If nothing is left to send
/// the job is finished with the span of the output shares that are done.
/// Else the transitions go to the Helper, and the Leader keeps the reports
/// that wait on, or, if none does, the output shares that wait for the
/// Helper to finish.
pub open spec fn leader_resp_outcome(
    r: Result<DapLeaderAggregationJobTransition<AggregateReq>, DapError>,
    task_config: DapTaskConfig,
    task_id: TaskId,
    agg_job_id: AggregationJobId,
    state: DapAggregationJobState,
    resp: AggregateResp,
    steps: Seq<Option<VdafPrepStep>>,
) -> bool {
    if !same_ids(state_ids(state.seq@), transition_ids(resp.seq@)) {
        r == Err::<DapLeaderAggregationJobTransition<AggregateReq>, DapError>(
            DapError::Abort(DapAbort::UnrecognizedMessage),
        )
    } else if steps.len() != state.seq@.len() {
        r matches Err(e) && e.is_fatal("steps and reports differ in number"@)
    } else {
        let round = round(true, state.seq@, resp.seq@, steps, state.seq@.len() as int);
        let done = state.confirmed@ + round.done;
        if round.send.len() == 0 {
            match span_fault(task_config.time_precision, state.part_batch_sel, done) {
                Some(detail) => r matches Err(e) && e.is_fatal(detail),
                None => r matches Ok(DapLeaderAggregationJobTransition::Finished(span)) && span_of(
                    task_config.time_precision,
                    state.part_batch_sel,
                    done,
                ) == Some(span_view(span.span@)),
            }
        } else if all_ready(round.next) {
            r matches Ok(DapLeaderAggregationJobTransition::Uncommitted(uncommitted, req)) && {
                &&& uncommitted.seq@ == ready_outputs(round.next)
                &&& uncommitted.confirmed@ == done
                &&& uncommitted.part_batch_sel == state.part_batch_sel
                &&& is_continue_req(req, task_id, agg_job_id, round.send)
            }
        } else {
            r matches Ok(DapLeaderAggregationJobTransition::Continued(next, req)) && {
                &&& next.seq@ == round.next
                &&& next.confirmed@ == done
                &&& next.part_batch_sel == state.part_batch_sel
                &&& is_continue_req(req, task_id, agg_job_id, round.send)
            }
        }
    }
}

/// Whether `req` is the later request of the job with the transitions.
pub open spec fn is_continue_req(
    req: AggregateReq,
    task_id: TaskId,
    agg_job_id: AggregationJobId,
    transitions: Seq<Transition>,
) -> bool {
    &&& req.task_id == task_id
    &&& req.agg_job_id == agg_job_id
    &&& req.var matches AggregateReqVar::Continue { seq } && seq@ == transitions
}

/// `front` and `back`, one behind the other.
fn concat_outputs(front: Vec<DapOutputShare>, back: Vec<DapOutputShare>) -> (all: Vec<
    DapOutputShare,
>)
    ensures
        all@ == front@ + back@,
{
    let mut all = front;
    let mut back = back;
    all.append(&mut back);
    all
}

/// Leader: handles an answer of the Helper. `steps` holds, for each report
/// that the Leader keeps and in their order, what the aggregation function
/// made of the Helper's message for the report, where it was run.
pub fn handle_agg_job_resp(
    task_config: &DapTaskConfig,
    task_id: &TaskId,
    agg_job_id: &AggregationJobId,
    state: DapAggregationJobState,
    agg_job_resp: AggregateResp,
    steps: Vec<Option<VdafPrepStep>>,
) -> (r: Result<DapLeaderAggregationJobTransition<AggregateReq>, DapError>)
    ensures
        leader_resp_outcome(r, *task_config, *task_id, *agg_job_id, state, agg_job_resp, steps@),
{
    if !ids_match(&state.seq, &agg_job_resp.seq) {
        return Err(DapError::Abort(DapAbort::UnrecognizedMessage));
    }
    if steps.len() != state.seq.len() {
        return Err(fatal_error("steps and reports differ in number"));
    }
    let DapAggregationJobState { seq, confirmed, part_batch_sel } = state;
    let (next, send, done) = take_round(true, seq, agg_job_resp.seq, steps);
    let done = concat_outputs(confirmed, done);
    if send.len() == 0 {
        let span = span_for(task_config, &part_batch_sel, done)?;
        return Ok(DapLeaderAggregationJobTransition::Finished(span));
    }
    let req = AggregateReq {
        task_id: *task_id,
        agg_job_id: *agg_job_id,
        var: AggregateReqVar::Continue { seq: send },
    };
    let ghost kept = next@;
    match into_outputs_or_state(next) {
        Ok(outputs) => Ok(
            DapLeaderAggregationJobTransition::Uncommitted(
                DapAggregationJobUncommitted { seq: outputs, confirmed: done, part_batch_sel },
                req,
            ),
        ),
        Err(next) => Ok(
            DapLeaderAggregationJobTransition::Continued(
                DapAggregationJobState { seq: next, confirmed: done, part_batch_sel },
                req,
            ),
        ),
    }
}

/// The output shares of the reports if the preparation of each is ready,
/// else the reports as they are.
fn into_outputs_or_state(seq: Vec<AggregationJobReportState>) -> (r: Result<
    Vec<DapOutputShare>,
    Vec<AggregationJobReportState>,
>)
    ensures
        match r {
            Ok(outputs) => all_ready(seq@) && outputs@ == ready_outputs(seq@),
            Err(same) => !all_ready(seq@) && same@ == seq@,
        },
{
    let mut i: usize = 0;
    while i < seq.len()
        invariant
            i <= seq@.len(),
            forall|j: int| 0 <= j < i ==> (#[trigger] seq@[j]).progress is Ready,
        decreases seq@.len() - i,
    {
        match &seq[i].progress {
            PrepProgress::Ready { .. } => {},
            PrepProgress::Waiting { .. } => {
                return Err(seq);
            },
        }
        i = i + 1;
    }
    match into_outputs(seq) {
        Some(outputs) => Ok(outputs),
        None => Ok(Vec::new()),
    }
}

/// The output shares for which the Helper has finished, among the first
/// `n` of those that wait for it.
pub open spec fn finished_outputs(
    outputs: Seq<DapOutputShare>,
    transitions: Seq<Transition>,
    n: int,
) -> Seq<DapOutputShare>
    decreases n,
{
    if n <= 0 {
        Seq::empty()
    } else {
        let before = finished_outputs(outputs, transitions, n - 1);
        if transitions[n - 1].var is Finished {
            before.push(outputs[n - 1])
        } else {
            before
        }
    }
}

/// What handling the Helper's last answer comes to for the Leader: the
/// span of the output shares for which the Helper has finished, together
/// with those that were done before. The answer must hold one transition
/// for each output share that waits, with the same identifiers in the same
/// order; else the job is aborted.
pub open spec fn leader_final_outcome(
    r: Result<DapAggregateSpan<DapAggregateShare>, DapError>,
    task_config: DapTaskConfig,
    uncommitted: DapAggregationJobUncommitted,
    resp: AggregateResp,
) -> bool {
    if !same_ids(output_ids(uncommitted.seq@), transition_ids(resp.seq@)) {
        r == Err::<DapAggregateSpan<DapAggregateShare>, DapError>(
            DapError::Abort(DapAbort::UnrecognizedMessage),
        )
    } else {
        let done = uncommitted.confirmed@ + finished_outputs(
            uncommitted.seq@,
            resp.seq@,
            uncommitted.seq@.len() as int,
        );
        match span_fault(task_config.time_precision, uncommitted.part_batch_sel, done) {
            Some(detail) => r matches Err(e) && e.is_fatal(detail),
            None => r matches Ok(span) && span_of(
                task_config.time_precision,
                uncommitted.part_batch_sel,
                done,
            ) == Some(span_view(span.span@)),
        }
    }
}

/// Leader: handles the last answer of the Helper and hands out the
/// aggregate shares to commit.
pub fn handle_final_agg_job_resp(
    task_config: &DapTaskConfig,
    uncommitted: DapAggregationJobUncommitted,
    agg_job_resp: AggregateResp,
) -> (r: Result<DapAggregateSpan<DapAggregateShare>, DapError>)
    ensures
        leader_final_outcome(r, *task_config, uncommitted, agg_job_resp),
{
    if !output_ids_match(&uncommitted.seq, &agg_job_resp.seq) {
        return Err(DapError::Abort(DapAbort::UnrecognizedMessage));
    }
    let DapAggregationJobUncommitted { seq, confirmed, part_batch_sel } = uncommitted;
    let ghost all_outputs = seq@;
    let ghost all_transitions = agg_job_resp.seq@;
    let total = seq.len();
    let mut outputs = Fifo::from_vec(seq);
    let mut transitions = Fifo::from_vec(agg_job_resp.seq);
    let mut finished: Vec<DapOutputShare> = Vec::new();
    let mut n: usize = 0;
    while n < total
        invariant
            n <= total == all_outputs.len(),
            all_transitions.len() == total,
            outputs@ == all_outputs.skip(n as int),
            transitions@ == all_transitions.skip(n as int),
            finished@ == finished_outputs(all_outputs, all_transitions, n as int),
        decreases total - n,
    {
        let out = outputs.pop_front();
        let transition = transitions.pop_front();
        proof {
            assert(out == all_outputs[n as int]);
            assert(transition == all_transitions[n as int]);
            assert(outputs@ =~= all_outputs.skip(n + 1));
            assert(transitions@ =~= all_transitions.skip(n + 1));
        }
        n = n + 1;
        match transition.var {
            TransitionVar::Finished => {
                finished.push(out);
            },
            _ => {},
        }
    }
    span_for(task_config, &part_batch_sel, concat_outputs(confirmed, finished))
}

/// What the Helper hands out after a later request: the aggregate shares
/// to commit, the answer to the Leader, and what it keeps of the job if a
/// report waits for another round.
#[derive(Debug, PartialEq, Eq)]
pub struct DapHelperAggregationJobContinuation {
    pub span: DapAggregateSpan<DapAggregateShare>,
    pub resp: AggregateResp,
    pub state: Option<DapAggregationJobState>,
}

/// What handling a later request comes to for the Helper.
///
/// The request must hold one transition for each report that the Helper
/// keeps, with the same identifiers in the same order; else the job is
/// aborted. Then each report takes its step. The output shares of the
/// reports that are done make up the span to commit.
pub open spec fn helper_cont_outcome(
    r: Result<DapHelperAggregationJobContinuation, DapError>,
    task_config: DapTaskConfig,
    state: DapAggregationJobState,
    req: AggregateReq,
    steps: Seq<Option<VdafPrepStep>>,
) -> bool {
    if !(req.var is Continue) || !same_ids(
        state_ids(state.seq@),
        transition_ids(req.var->Continue_seq@),
    ) {
        r == Err::<DapHelperAggregationJobContinuation, DapError>(
            DapError::Abort(DapAbort::UnrecognizedMessage),
        )
    } else if steps.len() != state.seq@.len() {
        r matches Err(e) && e.is_fatal("steps and reports differ in number"@)
    } else {
        let round = round(
            false,
            state.seq@,
            req.var->Continue_seq@,
            steps,
            state.seq@.len() as int,
        );
        match span_fault(task_config.time_precision, state.part_batch_sel, round.done) {
            Some(detail) => r matches Err(e) && e.is_fatal(detail),
            None => r matches Ok(out) && {
                &&& span_of(task_config.time_precision, state.part_batch_sel, round.done) == Some(
                    span_view(out.span.span@),
                )
                &&& out.resp.seq@ == round.send
                &&& if round.next.len() == 0 {
                    out.state is None
                } else {
                    out.state matches Some(next) && next.seq@ == round.next
                        && next.confirmed@.len() == 0 && next.part_batch_sel
                        == state.part_batch_sel
                }
            },
        }
    }
}

/// Helper: handles a later request of the Leader. `steps` holds, for each
/// report that the Helper keeps and in their order, what the aggregation
/// function made of the Leader's message for the report, where it was run.
pub fn handle_agg_job_cont_req(
    task_config: &DapTaskConfig,
    state: DapAggregationJobState,
    agg_job_cont_req: AggregateReq,
    steps: Vec<Option<VdafPrepStep>>,
) -> (r: Result<DapHelperAggregationJobContinuation, DapError>)
    ensures
        helper_cont_outcome(r, *task_config, state, agg_job_cont_req, steps@),
{
    let transitions = match agg_job_cont_req.var {
        AggregateReqVar::Continue { seq } => seq,
        AggregateReqVar::Init { .. } => {
            return Err(DapError::Abort(DapAbort::UnrecognizedMessage));
        },
    };
    if !ids_match(&state.seq, &transitions) {
        return Err(DapError::Abort(DapAbort::UnrecognizedMessage));
    }
    if steps.len() != state.seq.len() {
        return Err(fatal_error("steps and reports differ in number"));
    }
    let DapAggregationJobState { seq, confirmed: _, part_batch_sel } = state;
    let (next, send, done) = take_round(false, seq, transitions, steps);
    let span = span_for(task_config, &part_batch_sel, done)?;
    let resp = AggregateResp { seq: send };
    let state = if next.len() == 0 {
        None
    } else {
        Some(DapAggregationJobState { seq: next, confirmed: Vec::new(), part_batch_sel })
    };
    Ok(DapHelperAggregationJobContinuation { span, resp, state })
}

/// Whether a request is a later request of a job that holds one transition
/// for each report that the Helper keeps, with the same identifiers in the
/// same order.
pub open spec fn cont_req_matches(state: DapAggregationJobState, req: AggregateReq) -> bool {
    req.var is Continue && same_ids(state_ids(state.seq@), transition_ids(req.var->Continue_seq@))
}

/// Whether the request is one that the Helper can handle with the state
/// that it keeps.
pub fn check_agg_job_cont_req(state: &DapAggregationJobState, req: &AggregateReq) -> (b: bool)
    ensures
        b == cont_req_matches(*state, *req),
{
    match &req.var {
        AggregateReqVar::Continue { seq } => ids_match(&state.seq, seq),
        AggregateReqVar::Init { .. } => false,
    }
}

/// The failure that a report has if its aggregate share could not be
/// committed.
pub open spec fn commit_failure_code(r: Result<(), MergeAggShareError>) -> Option<
    TransitionFailure,
> {
    match r {
        Ok(_) => None,
        Err(MergeAggShareError::AlreadyCollected) => Some(TransitionFailure::BatchCollected),
        Err(MergeAggShareError::ReplaysDetected(_)) => Some(TransitionFailure::ReportReplayed),
        Err(MergeAggShareError::Other(_)) => Some(TransitionFailure::VdafPrepError),
    }
}

/// The failure of the report `id` after its span was committed, if it has
/// one: that of the first entry, at or after `from`, that stands for the
/// report.
pub open spec fn commit_failure(
    entries: Seq<DapAggregateSpanEntry<Result<(), MergeAggShareError>>>,
    id: Seq<u8>,
    from: int,
) -> Option<TransitionFailure>
    decreases entries.len() - from,
{
    if from < 0 || from >= entries.len() {
        None
    } else if report_ids(entries[from].reports@).contains(id) {
        commit_failure_code(entries[from].value)
    } else {
        commit_failure(entries, id, from + 1)
    }
}

/// The transition of a report after its span was committed: a report that
/// was finished but whose aggregate share could not be committed has
/// failed.
pub open spec fn committed_transition(
    entries: Seq<DapAggregateSpanEntry<Result<(), MergeAggShareError>>>,
    transition: Transition,
) -> Transition {
    if transition.var is Finished {
        match commit_failure(entries, transition.report_id@, 0) {
            Some(failure) => Transition {
                report_id: transition.report_id,
                var: TransitionVar::Failed(failure),
            },
            None => transition,
        }
    } else {
        transition
    }
}

/// The transitions of an answer after the span was committed.
pub open spec fn committed_transitions(
    entries: Seq<DapAggregateSpanEntry<Result<(), MergeAggShareError>>>,
    transitions: Seq<Transition>,
) -> Seq<Transition> {
    transitions.map_values(|t: Transition| committed_transition(entries, t))
}

/// Whether the entry stands for the report.
fn entry_has_report(reports: &Vec<(ReportId, Time)>, id: &ReportId) -> (b: bool)
    ensures
        b == report_ids(reports@).contains(id@),
{
    let mut i: usize = 0;
    while i < reports.len()
        invariant
            i <= reports@.len(),
            forall|j: int| 0 <= j < i ==> (#[trigger] report_ids(reports@)[j]) != id@,
        decreases reports@.len() - i,
    {
        if reports[i].0.same(id) {
            assert(report_ids(reports@)[i as int] == id@);
            return true;
        }
        i = i + 1;
    }
    false
}

/// The failure of the report after its span was committed, if it has one.
fn find_commit_failure(
    entries: &Vec<DapAggregateSpanEntry<Result<(), MergeAggShareError>>>,
    id: &ReportId,
) -> (r: Option<TransitionFailure>)
    ensures
        r == commit_failure(entries@, id@, 0),
{
    let mut i: usize = 0;
    while i < entries.len()
        invariant
            i <= entries@.len(),
            commit_failure(entries@, id@, 0) == commit_failure(entries@, id@, i as int),
        decreases entries@.len() - i,
    {
        if entry_has_report(&entries[i].reports, id) {
            return match &entries[i].value {
                Ok(_) => None,
                Err(MergeAggShareError::AlreadyCollected) => Some(
                    TransitionFailure::BatchCollected,
                ),
                Err(MergeAggShareError::ReplaysDetected(_)) => Some(
                    TransitionFailure::ReportReplayed,
                ),
                Err(MergeAggShareError::Other(_)) => Some(TransitionFailure::VdafPrepError),
            };
        }
        i = i + 1;
    }
    None
}

/// Helper: makes the answer say what committing the span came to. A report
/// that was finished but whose aggregate share was refused has failed: as
/// a replay, or because its bucket has been collected.
pub fn apply_commit_outcomes(
    resp: AggregateResp,
    committed: &DapAggregateSpan<Result<(), MergeAggShareError>>,
) -> (out: AggregateResp)
    ensures
        out.seq@ == committed_transitions(committed.span@, resp.seq@),
{
    let ghost all = resp.seq@;
    let total = resp.seq.len();
    let mut rest = Fifo::from_vec(resp.seq);
    let mut seq: Vec<Transition> = Vec::new();
    let mut n: usize = 0;
    while n < total
        invariant
            n <= total == all.len(),
            rest@ == all.skip(n as int),
            seq@ == committed_transitions(committed.span@, all.take(n as int)),
        decreases total - n,
    {
        let transition = rest.pop_front();
        proof {
            assert(transition == all[n as int]);
            assert(rest@ =~= all.skip(n + 1));
            assert(all.take(n + 1) =~= all.take(n as int).push(transition));
        }
        let ghost before = seq@;
        let finished = match &transition.var {
            TransitionVar::Finished => true,
            _ => false,
        };
        let failure = if finished {
            find_commit_failure(&committed.span, &transition.report_id)
        } else {
            None
        };
        match failure {
            Some(failure) => {
                seq.push(
                    Transition {
                        report_id: transition.report_id,
                        var: TransitionVar::Failed(failure),
                    },
                );
            },
            None => {
                seq.push(transition);
            },
        }
        assert(seq@ =~= committed_transitions(committed.span@, all.take(n + 1)));
        n = n + 1;
    }
    assert(all.take(n as int) =~= all);
    AggregateResp { seq }
}

/// Committing a span changes no identifier and no place of a transition.
pub proof fn lemma_commit_preserves_order(
    entries: Seq<DapAggregateSpanEntry<Result<(), MergeAggShareError>>>,
    transitions: Seq<Transition>,
)
    ensures
        transition_ids(committed_transitions(entries, transitions)) == transition_ids(transitions),
{
    assert(transition_ids(committed_transitions(entries, transitions)) =~= transition_ids(
        transitions,
    ));
}

/// The identifiers of the transitions that continue, in order.
pub open spec fn continued_ids(transitions: Seq<Transition>) -> Seq<ReportId>
    decreases transitions.len(),
{
    if transitions.len() == 0 {
        Seq::empty()
    } else if transitions.last().var is Continued {
        continued_ids(transitions.drop_last()).push(transitions.last().report_id)
    } else {
        continued_ids(transitions.drop_last())
    }
}

proof fn lemma_continued_ids_push(transitions: Seq<Transition>, last: Option<Transition>)
    ensures
        continued_ids(push_opt(transitions, last)) == if last matches Some(t) && t.var
            is Continued {
            continued_ids(transitions).push(last->0.report_id)
        } else {
            continued_ids(transitions)
        },
{
    if let Some(t) = last {
        assert(transitions.push(t).drop_last() =~= transitions);
    }
}

/// An aggregator keeps exactly the reports for which it tells the peer to
/// continue, in the same order.
pub proof fn lemma_round_keeps_what_continues(
    is_leader: bool,
    entries: Seq<AggregationJobReportState>,
    transitions: Seq<Transition>,
    steps: Seq<Option<VdafPrepStep>>,
    n: int,
)
    ensures
        state_ids(round(is_leader, entries, transitions, steps, n).next) == continued_ids(
            round(is_leader, entries, transitions, steps, n).send,
        ),
    decreases n,
{
    if n > 0 {
        lemma_round_keeps_what_continues(is_leader, entries, transitions, steps, n - 1);
        let before = round(is_leader, entries, transitions, steps, n - 1);
        let step = if is_leader {
            leader_step(entries[n - 1], transitions[n - 1].var, steps[n - 1])
        } else {
            helper_step(entries[n - 1], transitions[n - 1].var, steps[n - 1])
        };
        lemma_continued_ids_push(before.send, step.send);
        assert(state_ids(push_opt(before.next, step.next)) =~= if step.next is Some {
            state_ids(before.next).push(step.next->0.report_id)
        } else {
            state_ids(before.next)
        });
    } else {
        assert(state_ids(Seq::<AggregationJobReportState>::empty()) =~= Seq::<ReportId>::empty());
    }
}

/// An aggregator has a transition for the peer for exactly the reports for
/// which the peer continues, in the same order.
pub proof fn lemma_round_answers_what_continues(
    is_leader: bool,
    entries: Seq<AggregationJobReportState>,
    transitions: Seq<Transition>,
    steps: Seq<Option<VdafPrepStep>>,
    n: int,
)
    requires
        0 <= n <= entries.len(),
        n <= transitions.len(),
        forall|i: int|
            0 <= i < n ==> (#[trigger] entries[i]).report_id@ == transitions[i].report_id@,
    ensures
        same_ids(
            transition_ids(round(is_leader, entries, transitions, steps, n).send),
            continued_ids(transitions.take(n)),
        ),
    decreases n,
{
    if n > 0 {
        lemma_round_answers_what_continues(is_leader, entries, transitions, steps, n - 1);
        let before = round(is_leader, entries, transitions, steps, n - 1);
        let after = round(is_leader, entries, transitions, steps, n);
        let step = if is_leader {
            leader_step(entries[n - 1], transitions[n - 1].var, steps[n - 1])
        } else {
            helper_step(entries[n - 1], transitions[n - 1].var, steps[n - 1])
        };
        assert(transitions.take(n).drop_last() =~= transitions.take(n - 1));
        assert(transitions.take(n).last() == transitions[n - 1]);
        assert(entries[n - 1].report_id@ == transitions[n - 1].report_id@);
        let sent = transition_ids(after.send);
        let wanted = continued_ids(transitions.take(n));
        let sent_before = transition_ids(before.send);
        let wanted_before = continued_ids(transitions.take(n - 1));
        if transitions[n - 1].var is Continued {
            assert(step.send is Some);
            assert(sent =~= sent_before.push(entries[n - 1].report_id));
            assert(wanted == wanted_before.push(transitions[n - 1].report_id));
            assert forall|i: int| 0 <= i < sent.len() implies (#[trigger] sent[i])@
                == wanted[i]@ by {
                if i < sent_before.len() {
                    assert(sent_before[i]@ == wanted_before[i]@);
                }
            }
        } else {
            assert(step.send is None);
            assert(sent =~= sent_before);
        }
    } else {
        assert(transitions.take(0) =~= Seq::<Transition>::empty());
        assert(transition_ids(Seq::<Transition>::empty()) =~= Seq::<ReportId>::empty());
    }
}

/// The rounds of the two aggregators fit together: when the transitions
/// that one aggregator sends after a round reach a peer whose state
/// matches them, what the peer sends back matches what the aggregator
/// kept, report by report and in the same order, so that the aggregator
/// does not abort the job for it.
pub proof fn lemma_rounds_fit(
    is_leader: bool,
    entries: Seq<AggregationJobReportState>,
    transitions: Seq<Transition>,
    steps: Seq<Option<VdafPrepStep>>,
    peer_entries: Seq<AggregationJobReportState>,
    peer_steps: Seq<Option<VdafPrepStep>>,
)
    requires
        same_ids(
            state_ids(peer_entries),
            transition_ids(
                round(is_leader, entries, transitions, steps, entries.len() as int).send,
            ),
        ),
    ensures
        ({
            let mine = round(is_leader, entries, transitions, steps, entries.len() as int);
            let theirs = round(
                !is_leader,
                peer_entries,
                mine.send,
                peer_steps,
                peer_entries.len() as int,
            );
            same_ids(state_ids(mine.next), transition_ids(theirs.send))
        }),
{
    let mine = round(is_leader, entries, transitions, steps, entries.len() as int);
    let n = peer_entries.len() as int;
    let theirs = round(!is_leader, peer_entries, mine.send, peer_steps, n);
    lemma_round_keeps_what_continues(is_leader, entries, transitions, steps, entries.len() as int);
    assert forall|i: int| 0 <= i < n implies (#[trigger] peer_entries[i]).report_id@
        == mine.send[i].report_id@ by {
        assert(state_ids(peer_entries)[i]@ == transition_ids(mine.send)[i]@);
    }
    lemma_round_answers_what_continues(!is_leader, peer_entries, mine.send, peer_steps, n);
    assert(mine.send.take(n) =~= mine.send);
    let kept = state_ids(mine.next);
    let answered = transition_ids(theirs.send);
    assert forall|i: int| 0 <= i < kept.len() implies (#[trigger] kept[i])@ == answered[i]@ by {
        assert(answered[i]@ == continued_ids(mine.send)[i]@);
    }
}

/// What the Leader keeps after its first step and what it sends belong to
/// the same reports, in the same order.
pub proof fn lemma_leader_init_preserves_order(
    reports: Seq<Report>,
    initialized: Seq<EarlyReportStateInitialized>,
    n: int,
)
    ensures
        leader_init(reports, initialized, n).kept.len() == leader_init(
            reports,
            initialized,
            n,
        ).shares.len(),
        forall|i: int|
            0 <= i < leader_init(reports, initialized, n).kept.len() ==> (#[trigger] leader_init(
                reports,
                initialized,
                n,
            ).kept[i]).report_id == leader_init(reports, initialized, n).shares[i].metadata.id,
    decreases n,
{
    if n > 0 {
        lemma_leader_init_preserves_order(reports, initialized, n - 1);
    }
}

/// The Helper's answer to the first request fits what the Leader kept: it
/// holds one transition for each report share of the request, in the order
/// of the request and with the identifier of its report, which is what the
/// Leader asks of it. What the Helper keeps are the reports for which its
/// answer continues.
pub proof fn lemma_init_answer_fits(
    reports: Seq<Report>,
    leader_initialized: Seq<EarlyReportStateInitialized>,
    helper_initialized: Seq<EarlyReportStateInitialized>,
)
    requires
        helper_initialized.len() == leader_init(
            reports,
            leader_initialized,
            reports.len() as int,
        ).shares.len(),
        forall|i: int|
            0 <= i < helper_initialized.len() ==> (#[trigger] helper_initialized[i]).spec_metadata()
                == leader_init(
                reports,
                leader_initialized,
                reports.len() as int,
            ).shares[i].metadata,
    ensures
        ({
            let leader = leader_init(reports, leader_initialized, reports.len() as int);
            let helper = helper_init(helper_initialized, helper_initialized.len() as int);
            &&& same_ids(state_ids(leader.kept), transition_ids(helper.transitions))
            &&& state_ids(helper.kept) == continued_ids(helper.transitions)
        }),
{
    let leader = leader_init(reports, leader_initialized, reports.len() as int);
    let n = helper_initialized.len() as int;
    let helper = helper_init(helper_initialized, n);
    lemma_leader_init_preserves_order(reports, leader_initialized, reports.len() as int);
    lemma_helper_init_preserves_order(helper_initialized, n);
    lemma_helper_init_keeps_what_continues(helper_initialized, n);
    assert forall|i: int| 0 <= i < n implies (#[trigger] state_ids(leader.kept)[i])@
        == transition_ids(helper.transitions)[i]@ by {
        assert(leader.kept[i].report_id == leader.shares[i].metadata.id);
        assert(helper.transitions[i].report_id == helper_initialized[i].spec_metadata().id);
    }
}

proof fn lemma_helper_init_keeps_what_continues(
    initialized: Seq<EarlyReportStateInitialized>,
    n: int,
)
    ensures
        state_ids(helper_init(initialized, n).kept) == continued_ids(
            helper_init(initialized, n).transitions,
        ),
    decreases n,
{
    if n > 0 {
        lemma_helper_init_keeps_what_continues(initialized, n - 1);
        let before = helper_init(initialized, n - 1);
        let after = helper_init(initialized, n);
        assert(after.transitions.drop_last() =~= before.transitions);
        match initialized[n - 1] {
            EarlyReportStateInitialized::Ready { metadata, .. } => {
                assert(state_ids(after.kept) =~= state_ids(before.kept).push(metadata.id));
            },
            EarlyReportStateInitialized::Rejected { .. } => {},
        }
    } else {
        assert(state_ids(Seq::<AggregationJobReportState>::empty()) =~= Seq::<ReportId>::empty());
    }
}

} // verus!
