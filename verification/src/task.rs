//! The configuration of a task and the buckets that its reports fall into.

use crate::collections::Key;
use crate::error::{fatal_error, DapAbort, DapError};
use crate::messages::{
    clone_bytes, BatchId, BatchSelector, HpkeConfig, HpkeKemId, PartialBatchSelector, Time,
};
use vstd::prelude::*;

verus! {

/// The version of the protocol that a task speaks.
#[derive(Clone, Copy, Debug, PartialEq, Eq, Structural)]
pub enum DapVersion {
    Draft02,
    DraftLatest,
}

/// How the reports of a task are put into batches.
#[derive(Clone, Copy, Debug, PartialEq, Eq)]
pub enum DapQueryConfig {
    /// A batch is the reports of a time interval.
    TimeInterval,
    /// The Leader fills batches one after the other.
    FixedSize { max_batch_size: Option<u64> },
}

/// The aggregation function of a task and its parameters.
#[derive(Clone, Copy, Debug, PartialEq, Eq)]
pub enum VdafConfig {
    Prio3Count,
    Prio3Sum { bits: usize },
    Prio3Histogram { length: usize, chunk_length: usize },
    Prio3SumVec { bits: usize, length: usize, chunk_length: usize },
}

/// How a task came to be configured.
#[derive(Debug, PartialEq, Eq)]
pub enum DapTaskConfigMethod {
    /// By means that the aggregator does not know of.
    Unknown,
    /// By the task-provisioning extension, from the given task information.
    Taskprov { info: Vec<u8> },
}

/// The parameters of a task.
#[derive(Debug, PartialEq, Eq)]
pub struct DapTaskConfig {
    pub version: DapVersion,
    pub leader_url: String,
    pub helper_url: String,
    pub time_precision: Time,
    pub start: Time,
    pub expiration: Time,
    pub min_batch_size: u64,
    pub query: DapQueryConfig,
    pub vdaf: VdafConfig,
    pub vdaf_verify_key: Vec<u8>,
    pub collector_hpke_config: HpkeConfig,
    pub method: DapTaskConfigMethod,
}

/// The parameters that hold for all tasks of an aggregator.
#[derive(Clone, Debug, PartialEq, Eq)]
pub struct DapGlobalConfig {
    pub max_batch_duration: Time,
    pub min_batch_interval_start: Time,
    pub max_batch_interval_end: Time,
    pub report_storage_epoch_duration: Time,
    pub report_storage_max_future_time_skew: Time,
    pub supported_hpke_kems: Vec<HpkeKemId>,
    pub allow_taskprov: bool,
}

/// The unit of aggregation: a window of time or a batch of a fixed-size
/// task.
#[derive(Clone, Copy, Debug, PartialEq, Eq, Hash)]
pub enum DapBatchBucket {
    FixedSize { batch_id: BatchId },
    TimeInterval { batch_window: Time },
}

/// The model of [`DapBatchBucket`].
pub ghost enum DapBatchBucketView {
    FixedSize { batch_id: Seq<u8> },
    TimeInterval { batch_window: Time },
}

impl View for DapBatchBucket {
    type V = DapBatchBucketView;

    open spec fn view(&self) -> DapBatchBucketView {
        match self {
            DapBatchBucket::FixedSize { batch_id } => DapBatchBucketView::FixedSize {
                batch_id: batch_id@,
            },
            DapBatchBucket::TimeInterval { batch_window } => DapBatchBucketView::TimeInterval {
                batch_window: *batch_window,
            },
        }
    }
}

impl From<DapBatchBucket> for PartialBatchSelector {
    fn from(bucket: DapBatchBucket) -> (part: PartialBatchSelector) {
        match bucket {
            DapBatchBucket::FixedSize { batch_id } => PartialBatchSelector::FixedSizeByBatchId {
                batch_id,
            },
            DapBatchBucket::TimeInterval { .. } => PartialBatchSelector::TimeInterval,
        }
    }
}

impl vstd::std_specs::convert::FromSpecImpl<DapBatchBucket> for PartialBatchSelector {
    open spec fn obeys_from_spec() -> bool {
        true
    }

    open spec fn from_spec(bucket: DapBatchBucket) -> PartialBatchSelector {
        match bucket {
            DapBatchBucket::FixedSize { batch_id } => PartialBatchSelector::FixedSizeByBatchId {
                batch_id,
            },
            DapBatchBucket::TimeInterval { .. } => PartialBatchSelector::TimeInterval,
        }
    }
}

impl Key for DapBatchBucket {
    fn same(&self, other: &DapBatchBucket) -> (b: bool) {
        match (self, other) {
            (
                DapBatchBucket::FixedSize { batch_id: a },
                DapBatchBucket::FixedSize { batch_id: b },
            ) => a.same(b),
            (
                DapBatchBucket::TimeInterval { batch_window: a },
                DapBatchBucket::TimeInterval { batch_window: b },
            ) => *a == *b,
            _ => false,
        }
    }
}

/// The start of the window of length `time_precision` that `time` lies in.
pub open spec fn quantized_time(time_precision: Time, time: Time) -> Time {
    (time - time % time_precision) as Time
}

/// The buckets that a batch is made of, in ascending order: the windows of
/// a batch interval, or the one bucket of a fixed-size batch.
pub open spec fn batch_span(time_precision: Time, batch_sel: BatchSelector) -> Seq<
    DapBatchBucketView,
> {
    match batch_sel {
        BatchSelector::TimeInterval { batch_interval } => Seq::new(
            (batch_interval.duration / time_precision) as nat,
            |i: int|
                DapBatchBucketView::TimeInterval {
                    batch_window: (batch_interval.start + i * time_precision) as Time,
                },
        ),
        BatchSelector::FixedSizeByBatchId { batch_id } => seq![
            DapBatchBucketView::FixedSize { batch_id: batch_id@ },
        ],
    }
}

/// The models of the buckets.
pub open spec fn bucket_views(buckets: Seq<DapBatchBucket>) -> Seq<DapBatchBucketView> {
    buckets.map_values(|b: DapBatchBucket| b@)
}

impl Clone for DapTaskConfigMethod {
    fn clone(&self) -> (copy: Self)
        ensures
            copy is Taskprov == self is Taskprov,
            self matches DapTaskConfigMethod::Taskprov { info } ==> copy->info@ == info@,
    {
        match self {
            DapTaskConfigMethod::Unknown => DapTaskConfigMethod::Unknown,
            DapTaskConfigMethod::Taskprov { info } => DapTaskConfigMethod::Taskprov {
                info: clone_bytes(info),
            },
        }
    }
}

impl Clone for DapTaskConfig {
    fn clone(&self) -> (copy: Self)
        ensures
            copy.version == self.version,
            copy.leader_url@ == self.leader_url@,
            copy.helper_url@ == self.helper_url@,
            copy.time_precision == self.time_precision,
            copy.start == self.start,
            copy.expiration == self.expiration,
            copy.min_batch_size == self.min_batch_size,
            copy.query == self.query,
            copy.vdaf == self.vdaf,
            copy.vdaf_verify_key@ == self.vdaf_verify_key@,
            copy.collector_hpke_config@ == self.collector_hpke_config@,
            copy.collector_hpke_config.same_as(&self.collector_hpke_config),
            copy.method is Taskprov == self.method is Taskprov,
            self.method matches DapTaskConfigMethod::Taskprov { info } ==> copy.method->info@
                == info@,
    {
        DapTaskConfig {
            version: self.version,
            leader_url: self.leader_url.clone(),
            helper_url: self.helper_url.clone(),
            time_precision: self.time_precision,
            start: self.start,
            expiration: self.expiration,
            min_batch_size: self.min_batch_size,
            query: self.query,
            vdaf: self.vdaf,
            vdaf_verify_key: clone_bytes(&self.vdaf_verify_key),
            collector_hpke_config: self.collector_hpke_config.clone(),
            method: self.method.clone(),
        }
    }
}

impl DapTaskConfig {
    /// Refuses a request that speaks another version of the protocol than
    /// the task.
    pub fn check_version(&self, version: DapVersion) -> (r: Result<(), DapError>)
        ensures
            match r {
                Ok(_) => version == self.version,
                Err(e) => version != self.version && e.is_bad_request(
                    "version of the request does not match the task"@,
                ),
            },
    {
        if version == self.version {
            Ok(())
        } else {
            Err(
                DapError::Abort(
                    DapAbort::BadRequest(
                        "version of the request does not match the task".to_owned(),
                    ),
                ),
            )
        }
    }

    /// Whether the task was configured by the task-provisioning extension.
    pub fn method_is_taskprov(&self) -> (b: bool)
        ensures
            b == (self.method is Taskprov),
    {
        match &self.method {
            DapTaskConfigMethod::Taskprov { .. } => true,
            DapTaskConfigMethod::Unknown => false,
        }
    }

    /// The start of the window that `time` lies in.
    pub fn quantized_time_lower_bound(&self, time: Time) -> (window: Time)
        requires
            self.time_precision > 0,
        ensures
            window == quantized_time(self.time_precision, time),
    {
        assert(time % self.time_precision <= time) by (nonlinear_arith)
            requires
                self.time_precision > 0,
        ;
        time - (time % self.time_precision)
    }

    /// The bucket that a report made at `time` falls into in a
    /// time-interval task.
    pub fn bucket_for_time(&self, time: Time) -> (bucket: DapBatchBucket)
        requires
            self.time_precision > 0,
        ensures
            bucket == (DapBatchBucket::TimeInterval {
                batch_window: quantized_time(self.time_precision, time),
            }),
    {
        DapBatchBucket::TimeInterval { batch_window: self.quantized_time_lower_bound(time) }
    }

    /// Whether a report made at `time` may be taken at the time `now`: it
    /// is not older than the storage epoch, not further in the future than
    /// the allowed skew, and within the lifetime of the task.
    pub open spec fn spec_report_time_is_valid(
        &self,
        global_config: &DapGlobalConfig,
        now: Time,
        time: Time,
    ) -> bool {
        &&& now - global_config.report_storage_epoch_duration <= time
        &&& time <= now + global_config.report_storage_max_future_time_skew
        &&& self.start <= time <= self.expiration
    }

    /// Whether a report made at `time` may be taken at the time `now`.
    pub fn report_time_is_valid(
        &self,
        global_config: &DapGlobalConfig,
        now: Time,
        time: Time,
    ) -> (b: bool)
        ensures
            b == self.spec_report_time_is_valid(global_config, now, time),
    {
        let oldest = now.saturating_sub(global_config.report_storage_epoch_duration);
        let newest = now.saturating_add(global_config.report_storage_max_future_time_skew);
        oldest <= time && time <= newest && self.start <= time && time <= self.expiration
    }

    /// Why the task has no batch span for the selector, if it has none. An
    /// interval cannot be cut into windows where the time precision is
    /// zero, or where it ends after the last time that can be written. A
    /// batch that is named by its identifier is always one bucket.
    pub open spec fn batch_span_fault(&self, batch_sel: BatchSelector) -> Option<Seq<char>> {
        match batch_sel {
            BatchSelector::TimeInterval { batch_interval } => {
                if self.time_precision == 0 {
                    Some("time precision is zero"@)
                } else if batch_interval.spec_end() > u64::MAX {
                    Some("batch interval out of range"@)
                } else {
                    None
                }
            },
            BatchSelector::FixedSizeByBatchId { .. } => None,
        }
    }

    /// The buckets that the batch is made of, in ascending order.
    pub fn batch_span_for_sel(&self, batch_sel: &BatchSelector) -> (r: Result<
        Vec<DapBatchBucket>,
        DapError,
    >)
        ensures
            match r {
                Ok(buckets) => {
                    &&& self.batch_span_fault(*batch_sel) is None
                    &&& bucket_views(buckets@) == batch_span(self.time_precision, *batch_sel)
                },
                Err(e) => {
                    &&& self.batch_span_fault(*batch_sel) matches Some(detail)
                    &&& e.is_fatal(detail)
                },
            },
    {
        match batch_sel {
            BatchSelector::TimeInterval { batch_interval } => {
                if self.time_precision == 0 {
                    return Err(fatal_error("time precision is zero"));
                }
                if batch_interval.start.checked_add(batch_interval.duration).is_none() {
                    return Err(fatal_error("batch interval out of range"));
                }
                let windows = batch_interval.duration / self.time_precision;
                let mut span: Vec<DapBatchBucket> = Vec::new();
                let mut i: u64 = 0;
                let mut batch_window = batch_interval.start;
                while i < windows
                    invariant
                        self.time_precision > 0,
                        windows == batch_interval.duration / self.time_precision,
                        batch_interval.start + batch_interval.duration <= u64::MAX,
                        i <= windows,
                        batch_window == batch_interval.start + i * self.time_precision,
                        span@.len() == i,
                        forall|j: int|
                            0 <= j < i ==> (#[trigger] span@[j]) == (DapBatchBucket::TimeInterval {
                                batch_window: (batch_interval.start + j
                                    * self.time_precision) as Time,
                            }),
                    decreases windows - i,
                {
                    span.push(DapBatchBucket::TimeInterval { batch_window });
                    proof {
                        lemma_window_in_range(
                            batch_interval.duration as int,
                            self.time_precision as int,
                            i as int,
                        );
                        assert((i + 1) * self.time_precision == i * self.time_precision
                            + self.time_precision) by (nonlinear_arith);
                    }
                    i = i + 1;
                    if i < windows {
                        batch_window = batch_window + self.time_precision;
                    } else {
                        batch_window = batch_interval.start + batch_interval.duration
                            - batch_interval.duration % self.time_precision;
                    }
                }
                assert(bucket_views(span@) =~= batch_span(self.time_precision, *batch_sel));
                Ok(span)
            },
            BatchSelector::FixedSizeByBatchId { batch_id } => {
                let mut span: Vec<DapBatchBucket> = Vec::new();
                span.push(DapBatchBucket::FixedSize { batch_id: *batch_id });
                assert(bucket_views(span@) =~= batch_span(self.time_precision, *batch_sel));
                Ok(span)
            },
        }
    }
}

/// The start of the window after the `i`-th lies within the duration.
proof fn lemma_window_in_range(duration: int, precision: int, i: int)
    requires
        0 < precision,
        0 <= duration,
        0 <= i < duration / precision,
    ensures
        (i + 1) * precision <= duration,
        (duration / precision) * precision == duration - duration % precision,
{
    assert((duration / precision) * precision == duration - duration % precision) by {
        vstd::arithmetic::div_mod::lemma_fundamental_div_mod(duration, precision);
        assert(precision * (duration / precision) == (duration / precision) * precision)
            by (nonlinear_arith);
    }
    assert((i + 1) * precision <= (duration / precision) * precision) by (nonlinear_arith)
        requires
            i + 1 <= duration / precision,
            0 < precision,
    ;
}

} // verus!
