//! A Leader and a Helper of one task side by side, to run an aggregation
//! job between them without a store.

use crate::agg_share::{DapAggregateShare, DapAggregateSpan};
use crate::collections::{Fifo, KeySet};
use crate::error::{fatal_error, DapError};
use crate::hpke::HpkeReceiverConfig;
use crate::messages::{
    AggregateReq, AggregateReqVar, AggregateResp, AggregationJobId, HpkeConfig,
    PartialBatchSelector, Report, ReportId, ReportMetadata, TaskId, Time, TransitionFailure,
};
use crate::protocol::{
    handle_agg_job_cont_req, handle_agg_job_init_req, handle_agg_job_resp,
    handle_final_agg_job_resp, helper_cont_outcome, helper_init, leader_final_outcome,
    first_rejection, leader_init, leader_resp_outcome, produce_agg_job_init_req,
    DapAggregationJobState,
    DapAggregationJobUncommitted, DapHelperAggregationJobContinuation,
    DapHelperAggregationJobTransition, DapLeaderAggregationJobTransition,
    EarlyReportStateConsumed, EarlyReportStateInitialized, VdafPrepMessage, VdafPrepState,
    VdafPrepStep,
};
use crate::task::{DapQueryConfig, DapTaskConfig, DapTaskConfigMethod, DapVersion, VdafConfig};
use crate::testing::{current_time, random_id, time_of_reading};
use vstd::prelude::*;

verus! {

/// What initializing the first `n` reports comes to for an aggregator
/// that keeps no store: the reports that it has seen afterwards, and the
/// state of each report. A report that was seen before is a replay.
pub open spec fn initialize_without_store(
    seen: Set<Seq<u8>>,
    consumed: Seq<EarlyReportStateConsumed>,
    prepared: Seq<Option<(VdafPrepState, VdafPrepMessage)>>,
    n: int,
) -> (Set<Seq<u8>>, Seq<EarlyReportStateInitialized>)
    decreases n,
{
    if n <= 0 {
        (seen, Seq::empty())
    } else {
        let (before, initialized) = initialize_without_store(seen, consumed, prepared, n - 1);
        let report = consumed[n - 1];
        match report {
            EarlyReportStateConsumed::Rejected { .. } => (
                before,
                initialized.push(
                    EarlyReportStateInitialized::spec_initialize(report, None, prepared[n - 1]),
                ),
            ),
            EarlyReportStateConsumed::Ready { metadata, .. } => (
                before.insert(metadata.id@),
                initialized.push(
                    EarlyReportStateInitialized::spec_initialize(
                        report,
                        if before.contains(metadata.id@) {
                            Some(TransitionFailure::ReportReplayed)
                        } else {
                            None
                        },
                        prepared[n - 1],
                    ),
                ),
            ),
        }
    }
}

/// The parameters of a task, its keys, and the reports that its Leader
/// and its Helper have seen.
pub struct AggregationJobTest {
    pub task_id: TaskId,
    pub task_config: DapTaskConfig,
    pub leader_hpke_receiver_config: HpkeReceiverConfig,
    pub helper_hpke_receiver_config: HpkeReceiverConfig,
    pub client_hpke_config_list: Vec<HpkeConfig>,
    pub collector_hpke_receiver_config: HpkeReceiverConfig,
    pub agg_job_id: AggregationJobId,
    pub now: Time,
    pub leader_reports_processed: KeySet<ReportId>,
    pub helper_reports_processed: KeySet<ReportId>,
}

/// The first 16 bytes of an identifier.
fn first_half(id: &TaskId) -> (half: Vec<u8>)
    ensures
        half@ == id@.take(16),
{
    let mut half: Vec<u8> = Vec::new();
    let mut i: usize = 0;
    while i < 16
        invariant
            i <= 16,
            half@ == id@.take(i as int),
        decreases 16 - i,
    {
        half.push(id.0[i]);
        i = i + 1;
        assert(half@ =~= id@.take(i as int));
    }
    half
}

impl AggregationJobTest {
    /// A time-interval task for the aggregation function `vdaf` with the
    /// time precision 500 and batches of at least 10 reports, which ends
    /// 500 seconds from now. The task, the job and the verification key
    /// are named by random bytes. The clients encrypt to the Leader's key
    /// and to the Helper's, in this order.
    pub fn new(
        vdaf: &VdafConfig,
        version: DapVersion,
        leader_hpke_receiver_config: HpkeReceiverConfig,
        helper_hpke_receiver_config: HpkeReceiverConfig,
        collector_hpke_receiver_config: HpkeReceiverConfig,
    ) -> (test: Self)
        ensures
            test.task_config.version == version,
            test.task_config.leader_url@ == "http://leader.com"@,
            test.task_config.helper_url@ == "https://helper.org"@,
            test.task_config.time_precision == 500,
            test.task_config.start == 0,
            test.task_config.expiration == if test.now + 500 <= u64::MAX {
                (test.now + 500) as u64
            } else {
                u64::MAX
            },
            test.task_config.min_batch_size == 10,
            test.task_config.query is TimeInterval,
            test.task_config.vdaf == *vdaf,
            test.task_config.vdaf_verify_key@.len() == 16,
            test.task_config.collector_hpke_config.same_as(&collector_hpke_receiver_config.config),
            test.task_config.method is Unknown,
            test.leader_hpke_receiver_config == leader_hpke_receiver_config,
            test.helper_hpke_receiver_config == helper_hpke_receiver_config,
            test.collector_hpke_receiver_config == collector_hpke_receiver_config,
            test.client_hpke_config_list@.len() == 2,
            test.client_hpke_config_list@[0].same_as(&leader_hpke_receiver_config.config),
            test.client_hpke_config_list@[1].same_as(&helper_hpke_receiver_config.config),
            test.leader_reports_processed@ == Set::<Seq<u8>>::empty(),
            test.helper_reports_processed@ == Set::<Seq<u8>>::empty(),
    {
        let now = time_of_reading(current_time());
        let task_id = random_id();
        let agg_job_id = random_id();
        let vdaf_verify_key = first_half(&random_id());
        let mut client_hpke_config_list: Vec<HpkeConfig> = Vec::new();
        client_hpke_config_list.push(leader_hpke_receiver_config.config.clone());
        client_hpke_config_list.push(helper_hpke_receiver_config.config.clone());
        let collector_hpke_config = collector_hpke_receiver_config.config.clone();
        AggregationJobTest {
            now,
            task_id,
            agg_job_id,
            leader_hpke_receiver_config,
            helper_hpke_receiver_config,
            client_hpke_config_list,
            collector_hpke_receiver_config,
            task_config: DapTaskConfig {
                version,
                leader_url: String::from_str("http://leader.com"),
                helper_url: String::from_str("https://helper.org"),
                time_precision: 500,
                start: 0,
                expiration: now.saturating_add(500),
                min_batch_size: 10,
                query: DapQueryConfig::TimeInterval,
                vdaf: *vdaf,
                vdaf_verify_key,
                collector_hpke_config,
                method: DapTaskConfigMethod::Unknown,
            },
            leader_reports_processed: KeySet::new(),
            helper_reports_processed: KeySet::new(),
        }
    }

    /// Whether the two tests have the same task, job, time and keys.
    pub open spec fn same_task(&self, other: &AggregationJobTest) -> bool {
        &&& self.task_id == other.task_id
        &&& self.task_config == other.task_config
        &&& self.leader_hpke_receiver_config == other.leader_hpke_receiver_config
        &&& self.helper_hpke_receiver_config == other.helper_hpke_receiver_config
        &&& self.client_hpke_config_list == other.client_hpke_config_list
        &&& self.collector_hpke_receiver_config == other.collector_hpke_receiver_config
        &&& self.agg_job_id == other.agg_job_id
        &&& self.now == other.now
    }

    /// The reports that the Leader (`is_leader`) or the Helper has seen.
    pub open spec fn seen(&self, is_leader: bool) -> Set<Seq<u8>> {
        if is_leader {
            self.leader_reports_processed@
        } else {
            self.helper_reports_processed@
        }
    }

    /// The key that the Leader (`is_leader`) or the Helper decrypts with.
    pub open spec fn receiver_config(&self, is_leader: bool) -> HpkeReceiverConfig {
        if is_leader {
            self.leader_hpke_receiver_config
        } else {
            self.helper_hpke_receiver_config
        }
    }

    /// Takes in the share of a report for the Leader (`is_leader`) or the
    /// Helper. The report must be made within the lifetime of the task and
    /// its share encrypted to the key of the aggregator; `decrypted` is the
    /// input share if the ciphertext could be opened with that key.
    pub fn consume_report_share(
        &self,
        is_leader: bool,
        metadata: ReportMetadata,
        config_id: u8,
        decrypted: Option<Vec<u8>>,
    ) -> (consumed: EarlyReportStateConsumed)
        ensures
            consumed.spec_metadata() == metadata,
            match first_rejection(
                self.task_config.start <= metadata.time <= self.task_config.expiration,
                config_id == self.receiver_config(is_leader).config.id,
                decrypted is Some,
                false,
                false,
                true,
            ) {
                Some(failure) => consumed == (EarlyReportStateConsumed::Rejected {
                    metadata,
                    failure,
                }),
                None => consumed == (EarlyReportStateConsumed::Ready {
                    metadata,
                    input_share: decrypted->0,
                }),
            },
    {
        let time_is_valid = self.task_config.start <= metadata.time && metadata.time
            <= self.task_config.expiration;
        let config_is_known = if is_leader {
            config_id == self.leader_hpke_receiver_config.config.id
        } else {
            config_id == self.helper_hpke_receiver_config.config.id
        };
        EarlyReportStateConsumed::consume(metadata, time_is_valid, config_is_known, decrypted)
    }

    /// Initializes the reports of a job for the Leader (`is_leader`) or
    /// the Helper, in their order. A report that the aggregator has seen
    /// before is a replay; one for which the aggregation function gave no
    /// state has failed. Each report that is ready so far counts as seen
    /// from then on.
    pub fn initialize_reports(
        &mut self,
        is_leader: bool,
        consumed: Vec<EarlyReportStateConsumed>,
        prepared: Vec<Option<(VdafPrepState, VdafPrepMessage)>>,
    ) -> (r: Result<Vec<EarlyReportStateInitialized>, DapError>)
        ensures
            final(self).seen(!is_leader) == old(self).seen(!is_leader),
            final(self).same_task(old(self)),
            if consumed@.len() != prepared@.len() {
                &&& final(self).seen(is_leader) == old(self).seen(is_leader)
                &&& r matches Err(e) && e.is_fatal("reports and their states differ in number"@)
            } else {
                &&& r matches Ok(initialized) && (final(self).seen(is_leader), initialized@)
                    == initialize_without_store(
                    old(self).seen(is_leader),
                    consumed@,
                    prepared@,
                    consumed@.len() as int,
                )
            },
    {
        if consumed.len() != prepared.len() {
            return Err(fatal_error("reports and their states differ in number"));
        }
        let ghost all_consumed = consumed@;
        let ghost all_prepared = prepared@;
        let ghost seen0 = self.seen(is_leader);
        let total = consumed.len();
        let mut consumed = Fifo::from_vec(consumed);
        let mut prepared = Fifo::from_vec(prepared);
        let mut initialized: Vec<EarlyReportStateInitialized> = Vec::new();
        let mut n: usize = 0;
        while n < total
            invariant
                n <= total == all_consumed.len(),
                all_prepared.len() == total,
                consumed@ == all_consumed.skip(n as int),
                prepared@ == all_prepared.skip(n as int),
                self.seen(!is_leader) == old(self).seen(!is_leader),
                self.same_task(old(self)),
                (self.seen(is_leader), initialized@) == initialize_without_store(
                    seen0,
                    all_consumed,
                    all_prepared,
                    n as int,
                ),
            decreases total - n,
        {
            let report = consumed.pop_front();
            let outcome = prepared.pop_front();
            proof {
                assert(report == all_consumed[n as int]);
                assert(outcome == all_prepared[n as int]);
                assert(consumed@ =~= all_consumed.skip(n + 1));
                assert(prepared@ =~= all_prepared.skip(n + 1));
            }
            n = n + 1;
            let early = match &report {
                EarlyReportStateConsumed::Rejected { .. } => None,
                EarlyReportStateConsumed::Ready { metadata, .. } => {
                    let fresh = if is_leader {
                        self.leader_reports_processed.insert(metadata.id)
                    } else {
                        self.helper_reports_processed.insert(metadata.id)
                    };
                    if fresh {
                        None
                    } else {
                        Some(TransitionFailure::ReportReplayed)
                    }
                },
            };
            initialized.push(EarlyReportStateInitialized::initialize(report, early, outcome));
        }
        Ok(initialized)
    }

    /// Leader: initializes the reports and starts the aggregation job.
    pub fn produce_agg_job_init_req(
        &mut self,
        agg_param: Vec<u8>,
        reports: Vec<Report>,
        consumed: Vec<EarlyReportStateConsumed>,
        prepared: Vec<Option<(VdafPrepState, VdafPrepMessage)>>,
    ) -> (r: Result<DapLeaderAggregationJobTransition<AggregateReq>, DapError>)
        ensures
            final(self).seen(false) == old(self).seen(false),
            final(self).same_task(old(self)),
            if consumed@.len() != prepared@.len() {
                &&& final(self).seen(true) == old(self).seen(true)
                &&& r matches Err(e) && e.is_fatal("reports and their states differ in number"@)
            } else {
                let (seen, initialized) = initialize_without_store(
                    old(self).seen(true),
                    consumed@,
                    prepared@,
                    consumed@.len() as int,
                );
                let init = leader_init(reports@, initialized, reports@.len() as int);
                &&& final(self).seen(true) == seen
                &&& if consumed@.len() != reports@.len() {
                    r matches Err(e) && e.is_fatal("reports and their states differ in number"@)
                } else if init.shares.len() == 0 {
                    r matches Ok(DapLeaderAggregationJobTransition::Finished(span))
                        && span.span@.len() == 0
                } else {
                    r matches Ok(DapLeaderAggregationJobTransition::Continued(state, req)) && {
                        &&& state.seq@ == init.kept
                        &&& state.confirmed@.len() == 0
                        &&& state.part_batch_sel == PartialBatchSelector::TimeInterval
                        &&& req.task_id == old(self).task_id
                        &&& req.agg_job_id == old(self).agg_job_id
                        &&& req.var matches AggregateReqVar::Init { agg_param: param, seq }
                            && param == agg_param && seq@ == init.shares
                    }
                }
            },
    {
        let initialized = self.initialize_reports(true, consumed, prepared)?;
        proof {
            lemma_initialize_len(
                old(self).seen(true),
                consumed@,
                prepared@,
                consumed@.len() as int,
            );
        }
        let task_id = self.task_id;
        let agg_job_id = self.agg_job_id;
        produce_agg_job_init_req(
            &task_id,
            &agg_job_id,
            &PartialBatchSelector::TimeInterval,
            agg_param,
            reports,
            initialized,
        )
    }

    /// Helper: initializes the reports and answers the first request of
    /// the job.
    pub fn handle_agg_job_init_req(
        &mut self,
        consumed: Vec<EarlyReportStateConsumed>,
        prepared: Vec<Option<(VdafPrepState, VdafPrepMessage)>>,
    ) -> (r: Result<DapHelperAggregationJobTransition<AggregateResp>, DapError>)
        ensures
            final(self).seen(true) == old(self).seen(true),
            final(self).same_task(old(self)),
            if consumed@.len() != prepared@.len() {
                &&& final(self).seen(false) == old(self).seen(false)
                &&& r matches Err(e) && e.is_fatal("reports and their states differ in number"@)
            } else {
                let (seen, initialized) = initialize_without_store(
                    old(self).seen(false),
                    consumed@,
                    prepared@,
                    consumed@.len() as int,
                );
                let init = helper_init(initialized, initialized.len() as int);
                &&& final(self).seen(false) == seen
                &&& if init.kept.len() == 0 {
                    r matches Ok(DapHelperAggregationJobTransition::Finished(span, resp))
                        && span.span@.len() == 0 && resp.seq@ == init.transitions
                } else {
                    r matches Ok(DapHelperAggregationJobTransition::Continued(state, resp)) && {
                        &&& state.seq@ == init.kept
                        &&& state.confirmed@.len() == 0
                        &&& state.part_batch_sel == PartialBatchSelector::TimeInterval
                        &&& resp.seq@ == init.transitions
                    }
                }
            },
    {
        let initialized = self.initialize_reports(false, consumed, prepared)?;
        Ok(handle_agg_job_init_req(&PartialBatchSelector::TimeInterval, initialized))
    }

    /// Leader: handles an answer of the Helper.
    pub fn handle_agg_job_resp(
        &self,
        leader_state: DapAggregationJobState,
        agg_job_resp: AggregateResp,
        steps: Vec<Option<VdafPrepStep>>,
    ) -> (r: Result<DapLeaderAggregationJobTransition<AggregateReq>, DapError>)
        ensures
            leader_resp_outcome(
                r,
                self.task_config,
                self.task_id,
                self.agg_job_id,
                leader_state,
                agg_job_resp,
                steps@,
            ),
    {
        handle_agg_job_resp(
            &self.task_config,
            &self.task_id,
            &self.agg_job_id,
            leader_state,
            agg_job_resp,
            steps,
        )
    }

    /// Leader: handles an answer of the Helper and hands out the error, if
    /// there is one.
    pub fn handle_agg_job_resp_expect_err(
        &self,
        leader_state: DapAggregationJobState,
        agg_job_resp: AggregateResp,
        steps: Vec<Option<VdafPrepStep>>,
    ) -> (e: Option<DapError>)
        ensures
            match e {
                Some(e) => leader_resp_outcome(
                    Err(e),
                    self.task_config,
                    self.task_id,
                    self.agg_job_id,
                    leader_state,
                    agg_job_resp,
                    steps@,
                ),
                None => exists|t: DapLeaderAggregationJobTransition<AggregateReq>|
                    #[trigger] leader_resp_outcome(
                        Ok(t),
                        self.task_config,
                        self.task_id,
                        self.agg_job_id,
                        leader_state,
                        agg_job_resp,
                        steps@,
                    ),
            },
    {
        match self.handle_agg_job_resp(leader_state, agg_job_resp, steps) {
            Ok(_) => None,
            Err(e) => Some(e),
        }
    }

    /// Helper: handles a later request of the Leader.
    pub fn handle_agg_job_cont_req(
        &self,
        helper_state: DapAggregationJobState,
        agg_job_cont_req: AggregateReq,
        steps: Vec<Option<VdafPrepStep>>,
    ) -> (r: Result<DapHelperAggregationJobContinuation, DapError>)
        ensures
            helper_cont_outcome(r, self.task_config, helper_state, agg_job_cont_req, steps@),
    {
        handle_agg_job_cont_req(&self.task_config, helper_state, agg_job_cont_req, steps)
    }

    /// Helper: handles a later request of the Leader and hands out the
    /// error, if there is one.
    pub fn handle_agg_job_cont_req_expect_err(
        &self,
        helper_state: DapAggregationJobState,
        agg_job_cont_req: AggregateReq,
        steps: Vec<Option<VdafPrepStep>>,
    ) -> (e: Option<DapError>)
        ensures
            match e {
                Some(e) => helper_cont_outcome(
                    Err(e),
                    self.task_config,
                    helper_state,
                    agg_job_cont_req,
                    steps@,
                ),
                None => exists|c: DapHelperAggregationJobContinuation|
                    #[trigger] helper_cont_outcome(
                        Ok(c),
                        self.task_config,
                        helper_state,
                        agg_job_cont_req,
                        steps@,
                    ),
            },
    {
        match self.handle_agg_job_cont_req(helper_state, agg_job_cont_req, steps) {
            Ok(_) => None,
            Err(e) => Some(e),
        }
    }

    /// Leader: handles the last answer of the Helper.
    pub fn handle_final_agg_job_resp(
        &self,
        leader_uncommitted: DapAggregationJobUncommitted,
        agg_job_resp: AggregateResp,
    ) -> (r: Result<DapAggregateSpan<DapAggregateShare>, DapError>)
        ensures
            leader_final_outcome(r, self.task_config, leader_uncommitted, agg_job_resp),
    {
        handle_final_agg_job_resp(&self.task_config, leader_uncommitted, agg_job_resp)
    }
}

/// Each report gets a state.
proof fn lemma_initialize_len(
    seen: Set<Seq<u8>>,
    consumed: Seq<EarlyReportStateConsumed>,
    prepared: Seq<Option<(VdafPrepState, VdafPrepMessage)>>,
    n: int,
)
    requires
        0 <= n,
    ensures
        initialize_without_store(seen, consumed, prepared, n).1.len() == n,
    decreases n,
{
    if n > 0 {
        lemma_initialize_len(seen, consumed, prepared, n - 1);
    }
}

} // verus!
