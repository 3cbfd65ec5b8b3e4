//! An aggregator that keeps everything in memory: its tasks and keys, the
//! aggregate-share store of each task, the reports that it has seen, what
//! the Helper keeps of its jobs, and the Leader's queues.

use crate::agg_share::{
    AggStoreView, DapAggregateShare, DapAggregateSpan, DapAggregateSpanEntry, MergeAggShareError,
};
use crate::auth::{unauthorized_reason, unauthorized_text, BearerToken, DapMediaType, DapSender};
use crate::codec::{views, Codec};
use crate::collections::{Fifo, Key, KeyMap, KeySet};
use crate::error::{fatal_error, DapAbort, DapError};
use crate::hpke::{find_receiver_config, receiver_config_index, HpkeReceiverConfig};
use crate::messages::{
    base64url_text, constant_time_eq, AggregateReq, AggregateResp, AggregateShareReq,
    AggregationJobId, BatchId, BatchSelector, Collection, CollectionJobId, HpkeConfig,
    PartialBatchSelector, Report, ReportId, ReportMetadata, TaskId, Time, TransitionFailure,
    TransitionView,
};
use crate::protocol::{
    apply_commit_outcomes, bucket_for, bucket_for_report, check_agg_job_cont_req,
    committed_transitions, cont_req_matches, first_rejection, handle_agg_job_cont_req,
    handle_agg_job_init_req, helper_init, round, span_fault, span_of, span_view,
    DapAggregationJobState, DapHelperAggregationJobTransition, EarlyReportStateConsumed,
    EarlyReportStateInitialized, VdafPrepMessage, VdafPrepState, VdafPrepStep,
};
use crate::roles::{DapAggregationParam, DapCollectionJob, WorkItem};
use crate::store::{
    agg_store_of, empty_task_store, lemma_marked_buckets_are_collected, marked_collected,
    overlaps, put_span, span_outcomes, summed, TaskAggStore, TaskStoreView,
};
use crate::task::{
    batch_span, DapBatchBucket, DapBatchBucketView, DapGlobalConfig, DapTaskConfig, DapVersion,
};
use crate::testing::{
    collect_job_path, current_batch_outcome, current_time, dequeued, finish_collect_job_outcome,
    init_collect_job_outcome, per_task_of, poll_collect_job_outcome, put_report_outcome,
    queue_has_batch, time_of_reading, url_join_text, LeaderMemoryView, MockAuditLog,
    MockLeaderMemory, PerTaskView,
};
use vstd::prelude::*;

verus! {

/// Names what the Helper keeps of a job: the task and the job.
#[derive(Clone, Copy, Debug, PartialEq, Eq, Hash)]
pub struct HelperStateInfo {
    pub task_id: TaskId,
    pub agg_job_id: AggregationJobId,
}

impl View for HelperStateInfo {
    type V = (Seq<u8>, Seq<u8>);

    open spec fn view(&self) -> (Seq<u8>, Seq<u8>) {
        (self.task_id@, self.agg_job_id@)
    }
}

impl Key for HelperStateInfo {
    fn same(&self, other: &HelperStateInfo) -> (b: bool) {
        self.task_id.same(&other.task_id) && self.agg_job_id.same(&other.agg_job_id)
    }
}

/// The model of an aggregator.
pub ghost struct AggregatorView {
    /// The configuration of each task.
    pub tasks: Map<Seq<u8>, DapTaskConfig>,
    /// The aggregate-share store of each task.
    pub stores: Map<Seq<u8>, TaskStoreView>,
    /// The reports of each task that were initialized.
    pub seen: Map<Seq<u8>, Set<Seq<u8>>>,
    /// What the Helper keeps of each job.
    pub helper_states: Map<(Seq<u8>, Seq<u8>), DapAggregationJobState>,
    /// The Helper's answer to the first request of each job.
    pub helper_answers: Map<(Seq<u8>, Seq<u8>), Seq<TransitionView>>,
    /// The Leader's queues.
    pub leader: LeaderMemoryView,
}

/// The store of the task, or the store of a task of which nothing is held.
pub open spec fn store_of(stores: Map<Seq<u8>, TaskStoreView>, task_id: Seq<u8>) -> TaskStoreView {
    if stores.contains_key(task_id) {
        stores[task_id]
    } else {
        empty_task_store()
    }
}

/// The reports of the task that were initialized.
pub open spec fn seen_of(seen: Map<Seq<u8>, Set<Seq<u8>>>, task_id: Seq<u8>) -> Set<Seq<u8>> {
    if seen.contains_key(task_id) {
        seen[task_id]
    } else {
        Set::empty()
    }
}

/// The tasks of a list; of two with the same identifier the later counts.
pub open spec fn tasks_of(list: Seq<(TaskId, DapTaskConfig)>) -> Map<Seq<u8>, DapTaskConfig>
    decreases list.len(),
{
    if list.len() == 0 {
        Map::empty()
    } else {
        tasks_of(list.drop_last()).insert(list.last().0@, list.last().1)
    }
}

/// An aggregator that keeps everything in memory. With a peer it is a
/// Leader, without one a Helper.
pub struct MockAggregator {
    pub global_config: DapGlobalConfig,
    pub tasks: KeyMap<TaskId, DapTaskConfig>,
    pub hpke_receiver_config_list: Vec<HpkeReceiverConfig>,
    pub leader_token: BearerToken,
    pub collector_token: Option<BearerToken>,
    pub stores: KeyMap<TaskId, TaskAggStore>,
    pub seen: KeyMap<TaskId, KeySet<ReportId>>,
    pub leader_state_store: MockLeaderMemory,
    pub helper_state_store: KeyMap<HelperStateInfo, DapAggregationJobState>,
    pub helper_answer_store: KeyMap<HelperStateInfo, AggregateResp>,
    pub collector_hpke_config: HpkeConfig,
    pub audit_log: MockAuditLog,
    pub taskprov_vdaf_verify_key_init: [u8; 32],
    pub taskprov_leader_token: BearerToken,
    pub taskprov_collector_token: Option<BearerToken>,
    pub peer: Option<Box<MockAggregator>>,
}

impl View for MockAggregator {
    type V = AggregatorView;

    open spec fn view(&self) -> AggregatorView {
        AggregatorView {
            tasks: self.tasks@,
            stores: self.stores@.map_values(|store: TaskAggStore| store@),
            seen: self.seen@.map_values(|ids: KeySet<ReportId>| ids@),
            helper_states: self.helper_state_store@,
            helper_answers: self.helper_answer_store@.map_values(|resp: AggregateResp| resp@),
            leader: self.leader_state_store@,
        }
    }
}

/// The map of the tasks of a list.
fn collect_tasks(list: Vec<(TaskId, DapTaskConfig)>) -> (tasks: KeyMap<TaskId, DapTaskConfig>)
    ensures
        tasks@ == tasks_of(list@),
{
    let ghost all = list@;
    let total = list.len();
    let mut rest = Fifo::from_vec(list);
    let mut tasks: KeyMap<TaskId, DapTaskConfig> = KeyMap::new();
    let mut n: usize = 0;
    assert(all.take(0) =~= Seq::empty());
    while n < total
        invariant
            n <= total == all.len(),
            rest@ == all.skip(n as int),
            tasks@ == tasks_of(all.take(n as int)),
        decreases total - n,
    {
        let (task_id, task_config) = rest.pop_front();
        proof {
            assert(rest@ =~= all.skip(n + 1));
            assert(all.take(n + 1).drop_last() =~= all.take(n as int));
            assert(all.take(n + 1).last() == (task_id, task_config));
        }
        tasks.insert(task_id, task_config);
        n = n + 1;
    }
    assert(all.take(n as int) =~= all);
    tasks
}

impl MockAggregator {
    /// A Helper with the tasks and keys, which holds nothing else yet.
    pub fn new_helper(
        tasks: Vec<(TaskId, DapTaskConfig)>,
        hpke_receiver_config_list: Vec<HpkeReceiverConfig>,
        global_config: DapGlobalConfig,
        leader_token: BearerToken,
        collector_hpke_config: HpkeConfig,
        taskprov_vdaf_verify_key_init: [u8; 32],
        taskprov_leader_token: BearerToken,
    ) -> (aggregator: Self)
        ensures
            !aggregator.spec_is_leader(),
            aggregator@.tasks == tasks_of(tasks@),
            aggregator.holds_nothing(),
            aggregator.hpke_receiver_config_list == hpke_receiver_config_list,
            aggregator.global_config == global_config,
            aggregator.leader_token == leader_token,
            aggregator.collector_token is None,
            aggregator.collector_hpke_config == collector_hpke_config,
            aggregator.taskprov_vdaf_verify_key_init == taskprov_vdaf_verify_key_init,
            aggregator.taskprov_leader_token == taskprov_leader_token,
            aggregator.taskprov_collector_token is None,
    {
        let aggregator = MockAggregator {
            global_config,
            tasks: collect_tasks(tasks),
            hpke_receiver_config_list,
            leader_token,
            collector_token: None,
            stores: KeyMap::new(),
            seen: KeyMap::new(),
            leader_state_store: MockLeaderMemory::default(),
            helper_state_store: KeyMap::new(),
            helper_answer_store: KeyMap::new(),
            collector_hpke_config,
            audit_log: MockAuditLog::new(),
            taskprov_vdaf_verify_key_init,
            taskprov_leader_token,
            taskprov_collector_token: None,
            peer: None,
        };
        assert(aggregator@.stores =~= Map::empty());
        assert(aggregator@.seen =~= Map::empty());
        assert(aggregator@.helper_answers =~= Map::empty());
        aggregator
    }

    /// A Leader with the tasks, keys and peer, which holds nothing else
    /// yet.
    pub fn new_leader(
        tasks: Vec<(TaskId, DapTaskConfig)>,
        hpke_receiver_config_list: Vec<HpkeReceiverConfig>,
        global_config: DapGlobalConfig,
        leader_token: BearerToken,
        collector_token: Option<BearerToken>,
        collector_hpke_config: HpkeConfig,
        taskprov_vdaf_verify_key_init: [u8; 32],
        taskprov_leader_token: BearerToken,
        taskprov_collector_token: Option<BearerToken>,
        peer: Option<MockAggregator>,
    ) -> (aggregator: Self)
        ensures
            aggregator.spec_is_leader() == peer is Some,
            peer matches Some(p) ==> aggregator.peer matches Some(held) && *held == p,
            aggregator@.tasks == tasks_of(tasks@),
            aggregator.holds_nothing(),
            aggregator.hpke_receiver_config_list == hpke_receiver_config_list,
            aggregator.global_config == global_config,
            aggregator.leader_token == leader_token,
            aggregator.collector_token == collector_token,
            aggregator.collector_hpke_config == collector_hpke_config,
            aggregator.taskprov_vdaf_verify_key_init == taskprov_vdaf_verify_key_init,
            aggregator.taskprov_leader_token == taskprov_leader_token,
            aggregator.taskprov_collector_token == taskprov_collector_token,
    {
        let aggregator = MockAggregator {
            global_config,
            tasks: collect_tasks(tasks),
            hpke_receiver_config_list,
            leader_token,
            collector_token,
            stores: KeyMap::new(),
            seen: KeyMap::new(),
            leader_state_store: MockLeaderMemory::default(),
            helper_state_store: KeyMap::new(),
            helper_answer_store: KeyMap::new(),
            collector_hpke_config,
            audit_log: MockAuditLog::new(),
            taskprov_vdaf_verify_key_init,
            taskprov_leader_token,
            taskprov_collector_token,
            peer: match peer {
                Some(peer) => Some(Box::new(peer)),
                None => None,
            },
        };
        assert(aggregator@.stores =~= Map::empty());
        assert(aggregator@.seen =~= Map::empty());
        assert(aggregator@.helper_answers =~= Map::empty());
        aggregator
    }

    /// Whether the aggregator holds no store, no report, no job and no
    /// work.
    pub open spec fn holds_nothing(&self) -> bool {
        &&& self@.stores == Map::<Seq<u8>, TaskStoreView>::empty()
        &&& self@.seen == Map::<Seq<u8>, Set<Seq<u8>>>::empty()
        &&& self@.helper_states == Map::<(Seq<u8>, Seq<u8>), DapAggregationJobState>::empty()
        &&& self@.helper_answers == Map::<
            (Seq<u8>, Seq<u8>),
            Seq<TransitionView>,
        >::empty()
        &&& self@.leader.work_queue.len() == 0
        &&& self@.leader.per_task == Map::<Seq<u8>, PerTaskView>::empty()
    }

    /// Whether the two aggregators have the same parameters, keys, tokens,
    /// log and peer.
    pub open spec fn same_setup(&self, other: &MockAggregator) -> bool {
        &&& self.global_config == other.global_config
        &&& self.hpke_receiver_config_list == other.hpke_receiver_config_list
        &&& self.leader_token == other.leader_token
        &&& self.collector_token == other.collector_token
        &&& self.collector_hpke_config == other.collector_hpke_config
        &&& self.audit_log == other.audit_log
        &&& self.taskprov_vdaf_verify_key_init == other.taskprov_vdaf_verify_key_init
        &&& self.taskprov_leader_token == other.taskprov_leader_token
        &&& self.taskprov_collector_token == other.taskprov_collector_token
        &&& self.peer == other.peer
    }

    /// Whether the aggregator is a Leader.
    pub open spec fn spec_is_leader(&self) -> bool {
        self.peer is Some
    }

    /// Whether the aggregator is a Leader.
    pub fn is_leader(&self) -> (b: bool)
        ensures
            b == self.spec_is_leader(),
    {
        self.peer.is_some()
    }

    /// Whether the bucket of a report has been collected already. A report
    /// of such a bucket fails.
    pub fn check_report_has_been_collected(&self, task_id: &TaskId, bucket: &DapBatchBucket) -> (r:
        Option<TransitionFailure>)
        ensures
            r == if agg_store_of(store_of(self@.stores, task_id@).shares, bucket@).collected {
                Some(TransitionFailure::BatchCollected)
            } else {
                None
            },
    {
        match self.stores.get(task_id) {
            Some(store) => {
                if store.is_collected(bucket) {
                    Some(TransitionFailure::BatchCollected)
                } else {
                    None
                }
            },
            None => None,
        }
    }

    /// The first of the aggregator's keys with the identifier.
    pub fn get_hpke_receiver_config_for(&self, hpke_config_id: u8) -> (r: Option<
        &HpkeReceiverConfig,
    >)
        ensures
            match r {
                Some(found) => {
                    let i = receiver_config_index(
                        self.hpke_receiver_config_list@,
                        hpke_config_id,
                        0,
                    );
                    i < self.hpke_receiver_config_list@.len() && *found
                        == self.hpke_receiver_config_list@[i]
                },
                None => receiver_config_index(self.hpke_receiver_config_list@, hpke_config_id, 0)
                    == self.hpke_receiver_config_list@.len(),
            },
    {
        find_receiver_config(&self.hpke_receiver_config_list, hpke_config_id)
    }

    /// The configuration of the task, if the aggregator has the task.
    pub fn get_task_config_for(&self, task_id: &TaskId) -> (r: Result<
        Option<&DapTaskConfig>,
        DapError,
    >)
        ensures
            r matches Ok(found) && match found {
                Some(task_config) => self@.tasks.contains_key(task_id@) && *task_config
                    == self@.tasks[task_id@],
                None => !self@.tasks.contains_key(task_id@),
            },
    {
        Ok(self.tasks.get(task_id))
    }

    /// The configuration of a task that the aggregator has.
    pub fn unchecked_get_task_config(&self, task_id: &TaskId) -> (task_config: &DapTaskConfig)
        requires
            self@.tasks.contains_key(task_id@),
        ensures
            *task_config == self@.tasks[task_id@],
    {
        match self.tasks.get(task_id) {
            Some(task_config) => task_config,
            None => vstd::pervasive::unreached(),
        }
    }

    /// Takes in the configuration of a task that was provisioned with a
    /// request, which must name the task.
    pub fn taskprov_put(&mut self, task_id: Option<&TaskId>, task_config: DapTaskConfig) -> (r:
        Result<(), DapError>)
        ensures
            match task_id {
                Some(task_id) => r is Ok && final(self)@ == (AggregatorView {
                    tasks: old(self)@.tasks.insert(task_id@, task_config),
                    ..old(self)@
                }),
                None => r == Err::<(), DapError>(DapError::Abort(DapAbort::MissingTaskId))
                    && final(self)@ == old(self)@,
            },
            final(self).same_setup(old(self)),
    {
        match task_id {
            Some(task_id) => {
                self.tasks.insert(*task_id, task_config);
                Ok(())
            },
            None => Err(DapError::Abort(DapAbort::MissingTaskId)),
        }
    }

    /// The parameters that hold for all tasks.
    pub fn get_global_config(&self) -> (config: &DapGlobalConfig)
        ensures
            *config == self.global_config,
    {
        &self.global_config
    }

    /// The key from which the verification keys of provisioned tasks are
    /// derived.
    pub fn taskprov_vdaf_verify_key_init(&self) -> (key: Option<&[u8; 32]>)
        ensures
            key matches Some(k) && *k == self.taskprov_vdaf_verify_key_init,
    {
        Some(&self.taskprov_vdaf_verify_key_init)
    }

    /// The collector's key for provisioned tasks.
    pub fn taskprov_collector_hpke_config(&self) -> (config: Option<&HpkeConfig>)
        ensures
            config matches Some(c) && *c == self.collector_hpke_config,
    {
        Some(&self.collector_hpke_config)
    }

    /// Why the aggregator opts out of a provisioned task, if it does. This
    /// one never does.
    pub fn taskprov_opt_out_reason(&self, task_config: &DapTaskConfig) -> (r: Result<
        Option<String>,
        DapError,
    >)
        ensures
            r matches Ok(None),
    {
        Ok(None)
    }

    /// The time, in seconds since the Unix epoch, as the clock of the
    /// machine gives it at the call. Nothing holds of every reading.
    pub fn get_current_time(&self) -> Time {
        time_of_reading(current_time())
    }

    /// The name of the host, which this aggregator does not know.
    pub fn host(&self) -> (name: &'static str)
        ensures
            name@ == "unspecified-host"@,
    {
        "unspecified-host"
    }

    /// The log of the aggregation jobs.
    pub fn audit_log(&self) -> (log: &MockAuditLog)
        ensures
            *log == self.audit_log,
    {
        &self.audit_log
    }

    /// The token that the Leader shows for the task: the token for
    /// provisioned tasks if the task was provisioned, else the general one.
    pub fn get_leader_bearer_token_for(&self, task_id: &TaskId, task_config: &DapTaskConfig) -> (r:
        Result<Option<&BearerToken>, DapError>)
        ensures
            r matches Ok(Some(token)) && *token == if task_config.method is Taskprov {
                self.taskprov_leader_token
            } else {
                self.leader_token
            },
    {
        if task_config.method_is_taskprov() {
            Ok(Some(&self.taskprov_leader_token))
        } else {
            Ok(Some(&self.leader_token))
        }
    }

    /// The token that the collector shows for the task, if the aggregator
    /// has one: the token for provisioned tasks if the task was
    /// provisioned, else the general one.
    pub fn get_collector_bearer_token_for(
        &self,
        task_id: &TaskId,
        task_config: &DapTaskConfig,
    ) -> (r: Result<Option<&BearerToken>, DapError>)
        ensures
            r matches Ok(found) && match if task_config.method is Taskprov {
                self.taskprov_collector_token
            } else {
                self.collector_token
            } {
                Some(expected) => found matches Some(token) && *token == expected,
                None => found is None,
            },
    {
        if task_config.method_is_taskprov() {
            Ok(self.taskprov_collector_token.as_ref())
        } else {
            Ok(self.collector_token.as_ref())
        }
    }

    /// The key that the aggregator advertises for the task: its first.
    pub fn get_hpke_config_for(&self, version: DapVersion, task_id: Option<&TaskId>) -> (r: Result<
        &HpkeConfig,
        DapError,
    >)
        ensures
            if self.hpke_receiver_config_list@.len() == 0 {
                r matches Err(e) && e.is_fatal("empty HPKE receiver config list"@)
            } else if task_id is None {
                r == Err::<&HpkeConfig, DapError>(DapError::Abort(DapAbort::MissingTaskId))
            } else {
                r matches Ok(config) && *config == self.hpke_receiver_config_list@[0].config
            },
    {
        if self.hpke_receiver_config_list.len() == 0 {
            return Err(fatal_error("empty HPKE receiver config list"));
        }
        if task_id.is_none() {
            return Err(DapError::Abort(DapAbort::MissingTaskId));
        }
        Ok(&self.hpke_receiver_config_list[0].config)
    }

    /// Whether the aggregator has the key with the identifier.
    pub fn can_hpke_decrypt(&self, task_id: &TaskId, config_id: u8) -> (r: Result<bool, DapError>)
        ensures
            r matches Ok(b) && b == (receiver_config_index(
                self.hpke_receiver_config_list@,
                config_id,
                0,
            ) < self.hpke_receiver_config_list@.len()),
    {
        Ok(self.get_hpke_receiver_config_for(config_id).is_some())
    }

    /// The key to decrypt a ciphertext with that names the key `config_id`.
    /// A ciphertext that names a key that the aggregator does not have
    /// fails its report.
    pub fn hpke_decrypt_config(&self, config_id: u8) -> (r: Result<&HpkeReceiverConfig, DapError>)
        ensures
            match r {
                Ok(found) => {
                    let i = receiver_config_index(self.hpke_receiver_config_list@, config_id, 0);
                    i < self.hpke_receiver_config_list@.len() && *found
                        == self.hpke_receiver_config_list@[i]
                },
                Err(e) => {
                    &&& receiver_config_index(self.hpke_receiver_config_list@, config_id, 0)
                        == self.hpke_receiver_config_list@.len()
                    &&& e == DapError::Transition(TransitionFailure::HpkeUnknownConfigId)
                },
            },
    {
        match self.get_hpke_receiver_config_for(config_id) {
            Some(found) => Ok(found),
            None => Err(DapError::Transition(TransitionFailure::HpkeUnknownConfigId)),
        }
    }
}

/// What asking whether a batch overlaps comes to: a task that the
/// aggregator does not have is not recognized; a task without a store
/// overlaps with nothing; else the batch overlaps if one of its buckets
/// has been collected.
pub open spec fn batch_overlap_outcome(
    aggregator: AggregatorView,
    r: Result<bool, DapError>,
    task_id: Seq<u8>,
    batch_sel: BatchSelector,
) -> bool {
    if !aggregator.tasks.contains_key(task_id) {
        r == Err::<bool, DapError>(DapError::Abort(DapAbort::UnrecognizedTask))
    } else if !aggregator.stores.contains_key(task_id) {
        r == Ok::<bool, DapError>(false)
    } else {
        let task_config = aggregator.tasks[task_id];
        match task_config.batch_span_fault(batch_sel) {
            Some(detail) => r matches Err(e) && e.is_fatal(detail),
            None => r == Ok::<bool, DapError>(
                overlaps(
                    aggregator.stores[task_id].shares,
                    batch_span(task_config.time_precision, batch_sel),
                ),
            ),
        }
    }
}

/// What asking for the aggregate share of a batch comes to.
pub open spec fn agg_share_outcome(
    aggregator: AggregatorView,
    r: Result<DapAggregateShare, DapError>,
    task_id: Seq<u8>,
    batch_sel: BatchSelector,
) -> bool {
    if !aggregator.tasks.contains_key(task_id) {
        r == Err::<DapAggregateShare, DapError>(DapError::Abort(DapAbort::UnrecognizedTask))
    } else {
        let task_config = aggregator.tasks[task_id];
        let shares = store_of(aggregator.stores, task_id).shares;
        let span = batch_span(task_config.time_precision, batch_sel);
        match task_config.batch_span_fault(batch_sel) {
            Some(detail) => r matches Err(e) && e.is_fatal(detail),
            None => if overlaps(shares, span) {
                r == Err::<DapAggregateShare, DapError>(DapError::Abort(DapAbort::BatchOverlap))
            } else {
                match summed(shares, span) {
                    Some(sum) => r matches Ok(share) && share@ == sum,
                    None => r matches Err(e) && e.is_fatal("invalid aggregate share merge"@),
                }
            },
        }
    }
}

/// What marking a batch as collected comes to.
pub open spec fn mark_collected_outcome(
    before: AggregatorView,
    after: AggregatorView,
    r: Result<(), DapError>,
    task_id: Seq<u8>,
    batch_sel: BatchSelector,
) -> bool {
    if !before.tasks.contains_key(task_id) {
        after == before && r == Err::<(), DapError>(DapError::Abort(DapAbort::UnrecognizedTask))
    } else {
        let task_config = before.tasks[task_id];
        match task_config.batch_span_fault(batch_sel) {
            Some(detail) => {
                &&& after == before
                &&& r matches Err(e) && e.is_fatal(detail)
            },
            None => {
                let store = store_of(before.stores, task_id);
                &&& r is Ok
                &&& after == AggregatorView {
                    stores: before.stores.insert(
                        task_id,
                        TaskStoreView {
                            shares: marked_collected(
                                store.shares,
                                batch_span(task_config.time_precision, batch_sel),
                            ),
                            ..store
                        },
                    ),
                    ..before
                }
            },
        }
    }
}

impl MockAggregator {
    /// Takes out the store of the task, or the store of a task of which
    /// nothing is held.
    fn take_store(&mut self, task_id: &TaskId) -> (store: TaskAggStore)
        ensures
            store@ == store_of(old(self)@.stores, task_id@),
            final(self).stores@ == old(self).stores@.remove(task_id@),
            *final(self) == (MockAggregator { stores: final(self).stores, ..*old(self) }),
    {
        match self.stores.remove(task_id) {
            Some(store) => store,
            None => TaskAggStore::new(),
        }
    }

    /// Puts back the store of the task.
    fn put_store(&mut self, task_id: &TaskId, store: TaskAggStore)
        ensures
            final(self)@.stores == old(self)@.stores.insert(task_id@, store@),
            *final(self) == (MockAggregator { stores: final(self).stores, ..*old(self) }),
    {
        self.stores.insert(*task_id, store);
        assert(self@.stores =~= old(self)@.stores.insert(task_id@, store@));
    }

    /// Whether one of the buckets of the batch has been collected.
    pub fn is_batch_overlapping(&self, task_id: &TaskId, batch_sel: &BatchSelector) -> (r: Result<
        bool,
        DapError,
    >)
        ensures
            batch_overlap_outcome(self@, r, task_id@, *batch_sel),
    {
        let task_config = match self.tasks.get(task_id) {
            Some(task_config) => task_config,
            None => {
                return Err(DapError::Abort(DapAbort::UnrecognizedTask));
            },
        };
        let store = match self.stores.get(task_id) {
            Some(store) => store,
            None => {
                return Ok(false);
            },
        };
        let span = task_config.batch_span_for_sel(batch_sel)?;
        Ok(store.is_batch_overlapping(&span))
    }

    /// Whether the batch of a fixed-size task exists: the store holds
    /// something for it, or the aggregator is the Leader and still fills
    /// it.
    pub fn batch_exists(&self, task_id: &TaskId, batch_id: &BatchId) -> (r: Result<bool, DapError>)
        ensures
            r matches Ok(b) && b == ({
                ||| store_of(self@.stores, task_id@).shares.contains_key(
                    DapBatchBucketView::FixedSize { batch_id: batch_id@ },
                )
                ||| self.spec_is_leader() && queue_has_batch(
                    per_task_of(self@.leader, task_id@).batch_queue,
                    batch_id@,
                )
            }),
    {
        let bucket = DapBatchBucket::FixedSize { batch_id: *batch_id };
        let aggregated = match self.stores.get(task_id) {
            Some(store) => store.holds_bucket(&bucket),
            None => false,
        };
        let uploaded = self.is_leader() && self.leader_state_store.has_batch(task_id, batch_id);
        Ok(aggregated || uploaded)
    }

    /// Puts the aggregate shares of a span to the buckets of the task's
    /// store, one after the other, and says for each how that ended.
    pub fn try_put_agg_share_span(
        &mut self,
        task_id: &TaskId,
        task_config: &DapTaskConfig,
        agg_share_span: DapAggregateSpan<DapAggregateShare>,
    ) -> (out: DapAggregateSpan<Result<(), MergeAggShareError>>)
        ensures
            ({
                let (store, outcomes) = put_span(
                    store_of(old(self)@.stores, task_id@),
                    agg_share_span.span@,
                );
                &&& final(self)@ == AggregatorView {
                    stores: old(self)@.stores.insert(task_id@, store),
                    ..old(self)@
                }
                &&& span_outcomes(out.span@) == outcomes
            }),
            out.span@.len() == agg_share_span.span@.len(),
            forall|i: int|
                0 <= i < agg_share_span.span@.len() ==> (#[trigger] out.span@[i]).bucket
                    == agg_share_span.span@[i].bucket && out.span@[i].reports
                    == agg_share_span.span@[i].reports,
            final(self).same_setup(old(self)),
    {
        let mut store = self.take_store(task_id);
        let out = store.try_put_span(agg_share_span);
        self.put_store(task_id, store);
        assert(self@.stores =~= old(self)@.stores.insert(task_id@, store@));
        out
    }

    /// The aggregate share of a batch: the aggregate shares of its buckets,
    /// merged. A batch of which a bucket has been collected has none.
    pub fn get_agg_share(&self, task_id: &TaskId, batch_sel: &BatchSelector) -> (r: Result<
        DapAggregateShare,
        DapError,
    >)
        ensures
            agg_share_outcome(self@, r, task_id@, *batch_sel),
    {
        let task_config = match self.tasks.get(task_id) {
            Some(task_config) => task_config,
            None => {
                return Err(DapError::Abort(DapAbort::UnrecognizedTask));
            },
        };
        let span = task_config.batch_span_for_sel(batch_sel)?;
        match self.stores.get(task_id) {
            Some(store) => store.get_agg_share(&span),
            None => {
                let store = TaskAggStore::new();
                store.get_agg_share(&span)
            },
        }
    }

    /// Marks each bucket of the batch as collected.
    pub fn mark_collected(&mut self, task_id: &TaskId, batch_sel: &BatchSelector) -> (r: Result<
        (),
        DapError,
    >)
        ensures
            mark_collected_outcome(old(self)@, final(self)@, r, task_id@, *batch_sel),
            final(self).same_setup(old(self)),
    {
        let span = match self.tasks.get(task_id) {
            Some(task_config) => task_config.batch_span_for_sel(batch_sel)?,
            None => {
                return Err(DapError::Abort(DapAbort::UnrecognizedTask));
            },
        };
        let mut store = self.take_store(task_id);
        store.mark_collected(&span);
        self.put_store(task_id, store);
        assert(self@.stores =~= old(self)@.stores.insert(task_id@, store@));
        Ok(())
    }

    /// Keeps the state of a job of the Helper, unless one is kept for the
    /// job already. Says whether it was kept.
    pub fn put_helper_state_if_not_exists(
        &mut self,
        task_id: &TaskId,
        agg_job_id: &AggregationJobId,
        helper_state: DapAggregationJobState,
    ) -> (r: Result<bool, DapError>)
        ensures
            r matches Ok(kept) && kept == !old(self)@.helper_states.contains_key(
                (task_id@, agg_job_id@),
            ),
            final(self)@ == if old(self)@.helper_states.contains_key((task_id@, agg_job_id@)) {
                old(self)@
            } else {
                AggregatorView {
                    helper_states: old(self)@.helper_states.insert(
                        (task_id@, agg_job_id@),
                        helper_state,
                    ),
                    ..old(self)@
                }
            },
            final(self).same_setup(old(self)),
    {
        let info = HelperStateInfo { task_id: *task_id, agg_job_id: *agg_job_id };
        Ok(self.helper_state_store.insert_if_absent(info, helper_state))
    }

    /// The state that is kept for a job of the Helper.
    pub fn get_helper_state(&self, task_id: &TaskId, agg_job_id: &AggregationJobId) -> (r: Result<
        Option<&DapAggregationJobState>,
        DapError,
    >)
        ensures
            r matches Ok(found) && match found {
                Some(state) => self@.helper_states.contains_key((task_id@, agg_job_id@))
                    && *state == self@.helper_states[(task_id@, agg_job_id@)],
                None => !self@.helper_states.contains_key((task_id@, agg_job_id@)),
            },
    {
        let info = HelperStateInfo { task_id: *task_id, agg_job_id: *agg_job_id };
        Ok(self.helper_state_store.get(&info))
    }
}

/// A token, if there is one, as its text.
pub open spec fn token_text(token: Option<BearerToken>) -> Option<Seq<char>> {
    match token {
        Some(token) => Some(token@),
        None => None,
    }
}

impl MockAggregator {
    /// The token that the Leader shows for the task.
    pub open spec fn leader_token_for(&self, task_config: &DapTaskConfig) -> BearerToken {
        if task_config.method is Taskprov {
            self.taskprov_leader_token
        } else {
            self.leader_token
        }
    }

    /// The token that the collector shows for the task, if the aggregator
    /// knows one.
    pub open spec fn collector_token_for(&self, task_config: &DapTaskConfig) -> Option<
        BearerToken,
    > {
        if task_config.method is Taskprov {
            self.taskprov_collector_token
        } else {
            self.collector_token
        }
    }

    /// Why a request for the task is not authorized, if it is not.
    /// `sender_auth` is the token that came with the request.
    pub fn unauthorized_reason(
        &self,
        task_config: &DapTaskConfig,
        media_type: DapMediaType,
        sender_auth: Option<&BearerToken>,
    ) -> (r: Result<Option<String>, DapError>)
        ensures
            r matches Ok(reason) && match unauthorized_text(
                media_type,
                match sender_auth {
                    Some(token) => Some(token@),
                    None => None,
                },
                self.leader_token_for(task_config)@,
                token_text(self.collector_token_for(task_config)),
            ) {
                Some(text) => reason matches Some(r) && r@ == text,
                None => reason is None,
            },
    {
        let leader = if task_config.method_is_taskprov() {
            &self.taskprov_leader_token
        } else {
            &self.leader_token
        };
        let collector = if task_config.method_is_taskprov() {
            self.taskprov_collector_token.as_ref()
        } else {
            self.collector_token.as_ref()
        };
        Ok(unauthorized_reason(media_type, sender_auth, leader, collector))
    }

    /// The token to send with a request of the kind for the task. Only the
    /// Leader's requests carry one.
    pub fn authorize(
        &self,
        task_id: &TaskId,
        task_config: &DapTaskConfig,
        media_type: DapMediaType,
    ) -> (r: Result<BearerToken, DapError>)
        ensures
            match r {
                Ok(token) => media_type.spec_sender() == Some(DapSender::Leader) && token@
                    == self.leader_token_for(task_config)@,
                Err(e) => media_type.spec_sender() != Some(DapSender::Leader) && e.is_fatal(
                    "attempted to authorize request of a kind that the Leader does not send"@,
                ),
            },
    {
        match media_type.sender() {
            Some(DapSender::Leader) => {
                if task_config.method_is_taskprov() {
                    Ok(self.taskprov_leader_token.clone())
                } else {
                    Ok(self.leader_token.clone())
                }
            },
            _ => Err(
                fatal_error(
                    "attempted to authorize request of a kind that the Leader does not send",
                ),
            ),
        }
    }
}

impl MockAggregator {
    /// Leader: takes in a report for a task that the aggregator has.
    pub fn put_report(&mut self, report: &Report, task_id: &TaskId) -> (r: Result<(), DapError>)
        ensures
            final(self)@ == (AggregatorView { leader: final(self)@.leader, ..old(self)@ }),
            final(self).same_setup(old(self)),
            if !old(self)@.tasks.contains_key(task_id@) {
                &&& final(self)@ == old(self)@
                &&& r matches Err(e) && e.is_fatal("task not found"@)
            } else {
                exists|fresh: Seq<u8>|
                    fresh.len() == 32 && #[trigger] put_report_outcome(
                        old(self)@.leader,
                        final(self)@.leader,
                        r,
                        task_id@,
                        old(self)@.tasks[task_id@],
                        report@,
                        fresh,
                    )
            },
    {
        let task_config = match self.tasks.get(task_id) {
            Some(task_config) => task_config,
            None => {
                return Err(fatal_error("task not found"));
            },
        };
        let copy = report.clone();
        let r = self.leader_state_store.put_report(task_id, task_config, copy);
        proof {
            let fresh = choose|fresh: Seq<u8>|
                fresh.len() == 32 && #[trigger] put_report_outcome(
                    old(self)@.leader,
                    self@.leader,
                    r,
                    task_id@,
                    *task_config,
                    copy@,
                    fresh,
                );
            assert(put_report_outcome(
                old(self)@.leader,
                self@.leader,
                r,
                task_id@,
                old(self)@.tasks[task_id@],
                report@,
                fresh,
            ));
        }
        r
    }

    /// Leader: the batch of a fixed-size task that is being filled.
    pub fn current_batch(&self, task_id: &TaskId) -> (r: Result<BatchId, DapError>)
        ensures
            if !self@.tasks.contains_key(task_id@) {
                r matches Err(e) && e.is_fatal("task not found"@)
            } else {
                current_batch_outcome(self@.leader, r, task_id@, self@.tasks[task_id@])
            },
    {
        let task_config = match self.tasks.get(task_id) {
            Some(task_config) => task_config,
            None => {
                return Err(fatal_error("task not found"));
            },
        };
        self.leader_state_store.current_batch(task_id, task_config)
    }

    /// Leader: takes up to `num_items` pieces of work from the front of the
    /// queue.
    pub fn dequeue_work(&mut self, num_items: usize) -> (r: Result<Vec<WorkItem>, DapError>)
        ensures
            final(self)@ == (AggregatorView { leader: final(self)@.leader, ..old(self)@ }),
            final(self).same_setup(old(self)),
            r matches Ok(work_items) && {
                let n = dequeued(old(self)@.leader, num_items);
                &&& views(work_items@) == old(self)@.leader.work_queue.take(n)
                &&& final(self)@.leader.work_queue == old(self)@.leader.work_queue.skip(n)
                &&& final(self)@.leader.per_task == old(self)@.leader.per_task
            },
    {
        self.leader_state_store.dequeue_work(num_items)
    }

    /// Leader: queues work behind the work that waits already.
    pub fn enqueue_work(&mut self, work_items: Vec<WorkItem>) -> (r: Result<(), DapError>)
        ensures
            final(self)@ == (AggregatorView { leader: final(self)@.leader, ..old(self)@ }),
            final(self).same_setup(old(self)),
            r is Ok,
            final(self)@.leader.work_queue == old(self)@.leader.work_queue + views(work_items@),
            final(self)@.leader.per_task == old(self)@.leader.per_task,
    {
        self.leader_state_store.enqueue_work(work_items)
    }

    /// Leader: starts a collection job for a task that the aggregator has.
    pub fn init_collect_job(
        &mut self,
        task_id: &TaskId,
        coll_job_id: &Option<CollectionJobId>,
        batch_sel: BatchSelector,
        agg_param: DapAggregationParam,
    ) -> (r: Result<String, DapError>)
        ensures
            final(self)@ == (AggregatorView { leader: final(self)@.leader, ..old(self)@ }),
            final(self).same_setup(old(self)),
            if !old(self)@.tasks.contains_key(task_id@) {
                &&& final(self)@ == old(self)@
                &&& r matches Err(e) && e.is_fatal("task not found"@)
            } else {
                exists|id: Seq<u8>|
                    {
                        &&& id.len() == 32
                        &&& coll_job_id matches Some(given) ==> id == given@
                        &&& #[trigger] init_collect_job_outcome(
                            old(self)@.leader,
                            final(self)@.leader,
                            r,
                            task_id@,
                            old(self)@.tasks[task_id@],
                            id,
                            base64url_text(id),
                            url_join_text(
                                old(self)@.tasks[task_id@].leader_url@,
                                collect_job_path(task_id@, id),
                            ),
                            batch_sel,
                            agg_param@,
                        )
                    }
            },
    {
        let task_config = match self.tasks.get(task_id) {
            Some(task_config) => task_config,
            None => {
                return Err(fatal_error("task not found"));
            },
        };
        let ghost param = agg_param@;
        let r = self.leader_state_store.init_collect_job(
            task_id,
            task_config,
            coll_job_id,
            batch_sel,
            agg_param,
        );
        proof {
            let id = choose|id: Seq<u8>|
                {
                    &&& id.len() == 32
                    &&& coll_job_id matches Some(given) ==> id == given@
                    &&& #[trigger] init_collect_job_outcome(
                        old(self)@.leader,
                        self@.leader,
                        r,
                        task_id@,
                        *task_config,
                        id,
                        base64url_text(id),
                        url_join_text(task_config.leader_url@, collect_job_path(task_id@, id)),
                        batch_sel,
                        param,
                    )
                };
            assert(init_collect_job_outcome(
                old(self)@.leader,
                self@.leader,
                r,
                task_id@,
                old(self)@.tasks[task_id@],
                id,
                base64url_text(id),
                url_join_text(
                    old(self)@.tasks[task_id@].leader_url@,
                    collect_job_path(task_id@, id),
                ),
                batch_sel,
                param,
            ));
        }
        r
    }

    /// Leader: where the collection job stands.
    pub fn poll_collect_job(&self, task_id: &TaskId, coll_job_id: &CollectionJobId) -> (r: Result<
        DapCollectionJob,
        DapError,
    >)
        ensures
            poll_collect_job_outcome(self@.leader, r, task_id@, coll_job_id@),
    {
        self.leader_state_store.poll_collect_job(task_id, coll_job_id)
    }

    /// Leader: marks a pending collection job as done, with its collection.
    pub fn finish_collect_job(
        &mut self,
        task_id: &TaskId,
        coll_job_id: &CollectionJobId,
        collection: &Collection,
    ) -> (r: Result<(), DapError>)
        ensures
            final(self)@ == (AggregatorView { leader: final(self)@.leader, ..old(self)@ }),
            final(self).same_setup(old(self)),
            finish_collect_job_outcome(
                old(self)@.leader,
                final(self)@.leader,
                r,
                task_id@,
                coll_job_id@,
                collection@,
            ),
    {
        self.leader_state_store.finish_collect_job(task_id, coll_job_id, collection)
    }
}

/// What initializing the reports of a job comes to: the reports that the
/// aggregator has seen afterwards, and the state of each report.
pub ghost struct ReportInit {
    pub seen: Set<Seq<u8>>,
    pub initialized: Seq<EarlyReportStateInitialized>,
}

/// The reason to reject a report that is ready so far, if there is one: it
/// was seen before, or its bucket has been collected.
pub open spec fn early_rejection(
    seen: Set<Seq<u8>>,
    shares: Map<DapBatchBucketView, AggStoreView>,
    time_precision: Time,
    part_batch_sel: PartialBatchSelector,
    metadata: ReportMetadata,
) -> Option<TransitionFailure> {
    if seen.contains(metadata.id@) {
        Some(TransitionFailure::ReportReplayed)
    } else if agg_store_of(
        shares,
        bucket_for(time_precision, part_batch_sel, metadata.time)@,
    ).collected {
        Some(TransitionFailure::BatchCollected)
    } else {
        None
    }
}

/// What initializing the first `n` reports comes to. A report that is
/// ready counts as seen from then on. `prepared` holds for each report what
/// the aggregation function made of its input share.
pub open spec fn initialize_all(
    seen: Set<Seq<u8>>,
    shares: Map<DapBatchBucketView, AggStoreView>,
    time_precision: Time,
    part_batch_sel: PartialBatchSelector,
    consumed: Seq<EarlyReportStateConsumed>,
    prepared: Seq<Option<(VdafPrepState, VdafPrepMessage)>>,
    n: int,
) -> ReportInit
    decreases n,
{
    if n <= 0 {
        ReportInit { seen, initialized: Seq::empty() }
    } else {
        let before = initialize_all(
            seen,
            shares,
            time_precision,
            part_batch_sel,
            consumed,
            prepared,
            n - 1,
        );
        let report = consumed[n - 1];
        match report {
            EarlyReportStateConsumed::Rejected { .. } => ReportInit {
                seen: before.seen,
                initialized: before.initialized.push(
                    EarlyReportStateInitialized::spec_initialize(report, None, prepared[n - 1]),
                ),
            },
            EarlyReportStateConsumed::Ready { metadata, .. } => ReportInit {
                seen: before.seen.insert(metadata.id@),
                initialized: before.initialized.push(
                    EarlyReportStateInitialized::spec_initialize(
                        report,
                        early_rejection(
                            before.seen,
                            shares,
                            time_precision,
                            part_batch_sel,
                            metadata,
                        ),
                        prepared[n - 1],
                    ),
                ),
            },
        }
    }
}

/// Why the reports of a job cannot be initialized, if they cannot.
pub open spec fn initialize_fault(
    time_precision: Time,
    part_batch_sel: PartialBatchSelector,
    consumed: Seq<EarlyReportStateConsumed>,
    prepared: Seq<Option<(VdafPrepState, VdafPrepMessage)>>,
) -> Option<Seq<char>> {
    if consumed.len() != prepared.len() {
        Some("reports and their states differ in number"@)
    } else if part_batch_sel is TimeInterval && time_precision == 0 {
        Some("time precision is zero"@)
    } else {
        None
    }
}

impl MockAggregator {
    /// Takes in a report share of a task. `decrypted` is the input share
    /// if it could be decrypted with the key that the share names.
    pub fn consume_report_share(
        &self,
        task_config: &DapTaskConfig,
        now: Time,
        metadata: ReportMetadata,
        config_id: u8,
        decrypted: Option<Vec<u8>>,
    ) -> (consumed: EarlyReportStateConsumed)
        ensures
            consumed.spec_metadata() == metadata,
            match first_rejection(
                task_config.spec_report_time_is_valid(&self.global_config, now, metadata.time),
                receiver_config_index(self.hpke_receiver_config_list@, config_id, 0)
                    < self.hpke_receiver_config_list@.len(),
                decrypted is Some,
                false,
                false,
                true,
            ) {
                Some(failure) => consumed == (EarlyReportStateConsumed::Rejected {
                    metadata,
                    failure,
                }),
                None => consumed == (EarlyReportStateConsumed::Ready {
                    metadata,
                    input_share: decrypted->0,
                }),
            },
    {
        let time_is_valid = task_config.report_time_is_valid(
            &self.global_config,
            now,
            metadata.time,
        );
        let config_is_known = self.get_hpke_receiver_config_for(config_id).is_some();
        EarlyReportStateConsumed::consume(metadata, time_is_valid, config_is_known, decrypted)
    }

    /// Initializes the reports of a job, in their order. A report that was
    /// seen before is a replay; a report whose bucket has been collected
    /// comes too late; a report for which the aggregation function gave no
    /// state has failed. Each report that is ready so far counts as seen
    /// from then on.
    pub fn initialize_reports(
        &mut self,
        task_id: &TaskId,
        task_config: &DapTaskConfig,
        part_batch_sel: &PartialBatchSelector,
        consumed: Vec<EarlyReportStateConsumed>,
        prepared: Vec<Option<(VdafPrepState, VdafPrepMessage)>>,
    ) -> (r: Result<Vec<EarlyReportStateInitialized>, DapError>)
        ensures
            final(self).same_setup(old(self)),
            match initialize_fault(
                task_config.time_precision,
                *part_batch_sel,
                consumed@,
                prepared@,
            ) {
                Some(detail) => {
                    &&& final(self)@ == old(self)@
                    &&& r matches Err(e) && e.is_fatal(detail)
                },
                None => {
                    let init = initialize_all(
                        seen_of(old(self)@.seen, task_id@),
                        store_of(old(self)@.stores, task_id@).shares,
                        task_config.time_precision,
                        *part_batch_sel,
                        consumed@,
                        prepared@,
                        consumed@.len() as int,
                    );
                    &&& r matches Ok(initialized) && initialized@ == init.initialized
                    &&& final(self)@ == AggregatorView {
                        seen: old(self)@.seen.insert(task_id@, init.seen),
                        ..old(self)@
                    }
                },
            },
    {
        if consumed.len() != prepared.len() {
            return Err(fatal_error("reports and their states differ in number"));
        }
        match part_batch_sel {
            PartialBatchSelector::TimeInterval => {
                if task_config.time_precision == 0 {
                    return Err(fatal_error("time precision is zero"));
                }
            },
            PartialBatchSelector::FixedSizeByBatchId { .. } => {},
        }
        let ghost all_consumed = consumed@;
        let ghost all_prepared = prepared@;
        let ghost seen0 = seen_of(self@.seen, task_id@);
        let ghost shares = store_of(self@.stores, task_id@).shares;
        let total = consumed.len();
        let mut consumed = Fifo::from_vec(consumed);
        let mut prepared = Fifo::from_vec(prepared);
        let mut seen = match self.seen.remove(task_id) {
            Some(seen) => seen,
            None => KeySet::new(),
        };
        let mut initialized: Vec<EarlyReportStateInitialized> = Vec::new();
        let mut n: usize = 0;
        while n < total
            invariant
                n <= total == all_consumed.len(),
                all_prepared.len() == total,
                part_batch_sel is TimeInterval ==> task_config.time_precision > 0,
                consumed@ == all_consumed.skip(n as int),
                prepared@ == all_prepared.skip(n as int),
                shares == store_of(self@.stores, task_id@).shares,
                self.stores == old(self).stores,
                ({
                    let init = initialize_all(
                        seen0,
                        shares,
                        task_config.time_precision,
                        *part_batch_sel,
                        all_consumed,
                        all_prepared,
                        n as int,
                    );
                    seen@ == init.seen && initialized@ == init.initialized
                }),
            decreases total - n,
        {
            let report = consumed.pop_front();
            let outcome = prepared.pop_front();
            proof {
                assert(report == all_consumed[n as int]);
                assert(outcome == all_prepared[n as int]);
                assert(consumed@ =~= all_consumed.skip(n + 1));
                assert(prepared@ =~= all_prepared.skip(n + 1));
            }
            n = n + 1;
            let early = match &report {
                EarlyReportStateConsumed::Rejected { .. } => None,
                EarlyReportStateConsumed::Ready { metadata, .. } => {
                    let fresh = seen.insert(metadata.id);
                    if !fresh {
                        Some(TransitionFailure::ReportReplayed)
                    } else {
                        let collected = match bucket_for_report(
                            task_config,
                            part_batch_sel,
                            metadata.time,
                        ) {
                            Some(bucket) => match self.stores.get(task_id) {
                                Some(store) => store.is_collected(&bucket),
                                None => false,
                            },
                            None => false,
                        };
                        if collected {
                            Some(TransitionFailure::BatchCollected)
                        } else {
                            None
                        }
                    }
                },
            };
            initialized.push(EarlyReportStateInitialized::initialize(report, early, outcome));
        }
        self.seen.insert(*task_id, seen);
        assert(self@.seen =~= old(self)@.seen.insert(task_id@, seen@));
        Ok(initialized)
    }
}

/// What handling the first request of a job comes to for the Helper.
///
/// A task that the Helper does not have is refused. A request for a job
/// that was answered before is answered as before and changes nothing.
/// Else the reports are initialized and each gets its transition; the
/// Helper keeps the answer, and the state of the job if a report waits for
/// another round.
pub open spec fn helper_init_req_outcome(
    before: AggregatorView,
    after: AggregatorView,
    r: Result<AggregateResp, DapError>,
    task_id: Seq<u8>,
    agg_job_id: Seq<u8>,
    part_batch_sel: PartialBatchSelector,
    consumed: Seq<EarlyReportStateConsumed>,
    prepared: Seq<Option<(VdafPrepState, VdafPrepMessage)>>,
) -> bool {
    let key = (task_id, agg_job_id);
    if !before.tasks.contains_key(task_id) {
        &&& after == before
        &&& r == Err::<AggregateResp, DapError>(DapError::Abort(DapAbort::UnrecognizedTask))
    } else if before.helper_answers.contains_key(key) {
        &&& after == before
        &&& r matches Ok(resp) && resp@ == before.helper_answers[key]
    } else {
        let time_precision = before.tasks[task_id].time_precision;
        match initialize_fault(time_precision, part_batch_sel, consumed, prepared) {
            Some(detail) => {
                &&& after == before
                &&& r matches Err(e) && e.is_fatal(detail)
            },
            None => {
                let init = initialize_all(
                    seen_of(before.seen, task_id),
                    store_of(before.stores, task_id).shares,
                    time_precision,
                    part_batch_sel,
                    consumed,
                    prepared,
                    consumed.len() as int,
                );
                let answer = helper_init(init.initialized, init.initialized.len() as int);
                &&& r matches Ok(resp) && resp.seq@ == answer.transitions
                &&& after.tasks == before.tasks
                &&& after.stores == before.stores
                &&& after.leader == before.leader
                &&& after.seen == before.seen.insert(task_id, init.seen)
                &&& after.helper_answers == before.helper_answers.insert(
                    key,
                    views(answer.transitions),
                )
                &&& if answer.kept.len() == 0 {
                    after.helper_states == before.helper_states
                } else {
                    &&& after.helper_states.contains_key(key)
                    &&& after.helper_states == before.helper_states.insert(
                        key,
                        after.helper_states[key],
                    )
                    &&& after.helper_states[key].seq@ == answer.kept
                    &&& after.helper_states[key].confirmed@.len() == 0
                    &&& after.helper_states[key].part_batch_sel == part_batch_sel
                }
            },
        }
    }
}

/// The Helper answers the first request of a job once: when the request
/// comes again the answer is the same, byte for byte, whatever it holds by
/// then, and nothing that the Helper holds changes, so that no aggregate
/// share is merged a second time.
pub proof fn lemma_helper_init_is_idempotent(
    before: AggregatorView,
    between: AggregatorView,
    after: AggregatorView,
    first: Result<AggregateResp, DapError>,
    second: Result<AggregateResp, DapError>,
    task_id: Seq<u8>,
    agg_job_id: Seq<u8>,
    part_batch_sel1: PartialBatchSelector,
    consumed1: Seq<EarlyReportStateConsumed>,
    prepared1: Seq<Option<(VdafPrepState, VdafPrepMessage)>>,
    part_batch_sel2: PartialBatchSelector,
    consumed2: Seq<EarlyReportStateConsumed>,
    prepared2: Seq<Option<(VdafPrepState, VdafPrepMessage)>>,
)
    requires
        helper_init_req_outcome(
            before,
            between,
            first,
            task_id,
            agg_job_id,
            part_batch_sel1,
            consumed1,
            prepared1,
        ),
        helper_init_req_outcome(
            between,
            after,
            second,
            task_id,
            agg_job_id,
            part_batch_sel2,
            consumed2,
            prepared2,
        ),
        first is Ok,
    ensures
        after == between,
        second matches Ok(again) && again@ == first->Ok_0@
            && <AggregateResp as Codec>::encoding(again@)
            == <AggregateResp as Codec>::encoding(first->Ok_0@),
{
}

/// What handling a later request of a job comes to for the Helper.
///
/// A task that the Helper does not have and a job of which it keeps no
/// state are refused, and so is a request that does not match the state;
/// none of these changes anything. Else the state is used up, each report
/// takes its step, the output shares of the reports that are done are
/// committed to the store, and the Helper keeps the state of the reports
/// that wait on. The answer says of each report that was finished whether
/// its aggregate share was committed.
pub open spec fn helper_cont_req_outcome(
    before: AggregatorView,
    after: AggregatorView,
    r: Result<AggregateResp, DapError>,
    task_id: Seq<u8>,
    agg_job_id: Seq<u8>,
    req: AggregateReq,
    steps: Seq<Option<VdafPrepStep>>,
) -> bool {
    let key = (task_id, agg_job_id);
    if !before.tasks.contains_key(task_id) {
        &&& after == before
        &&& r == Err::<AggregateResp, DapError>(DapError::Abort(DapAbort::UnrecognizedTask))
    } else if !before.helper_states.contains_key(key) {
        &&& after == before
        &&& r == Err::<AggregateResp, DapError>(
            DapError::Abort(DapAbort::UnrecognizedAggregationJob),
        )
    } else if !cont_req_matches(before.helper_states[key], req) {
        &&& after == before
        &&& r == Err::<AggregateResp, DapError>(DapError::Abort(DapAbort::UnrecognizedMessage))
    } else if steps.len() != before.helper_states[key].seq@.len() {
        &&& after == before
        &&& r matches Err(e) && e.is_fatal("steps and reports differ in number"@)
    } else {
        let state = before.helper_states[key];
        let time_precision = before.tasks[task_id].time_precision;
        let round = round(
            false,
            state.seq@,
            req.var->Continue_seq@,
            steps,
            state.seq@.len() as int,
        );
        match span_fault(time_precision, state.part_batch_sel, round.done) {
            Some(detail) => {
                &&& after == AggregatorView {
                    helper_states: before.helper_states.remove(key),
                    ..before
                }
                &&& r matches Err(e) && e.is_fatal(detail)
            },
            None => exists|
                span: Seq<DapAggregateSpanEntry<DapAggregateShare>>,
                out: Seq<DapAggregateSpanEntry<Result<(), MergeAggShareError>>>,
            | #[trigger]
                helper_cont_committed(before, after, r, task_id, agg_job_id, steps, req, span, out),
        }
    }
}

/// What handling a later request comes to for the Helper where the request
/// fits and the output shares have the span `span`, and committing the
/// span comes to `out`.
pub open spec fn helper_cont_committed(
    before: AggregatorView,
    after: AggregatorView,
    r: Result<AggregateResp, DapError>,
    task_id: Seq<u8>,
    agg_job_id: Seq<u8>,
    steps: Seq<Option<VdafPrepStep>>,
    req: AggregateReq,
    span: Seq<DapAggregateSpanEntry<DapAggregateShare>>,
    out: Seq<DapAggregateSpanEntry<Result<(), MergeAggShareError>>>,
) -> bool {
    let key = (task_id, agg_job_id);
    let state = before.helper_states[key];
    let time_precision = before.tasks[task_id].time_precision;
    let round = round(false, state.seq@, req.var->Continue_seq@, steps, state.seq@.len() as int);
    &&& span_of(time_precision, state.part_batch_sel, round.done) == Some(span_view(span))
    &&& span_outcomes(out) == put_span(store_of(before.stores, task_id), span).1
    &&& out.len() == span.len()
    &&& forall|i: int| 0 <= i < span.len() ==> (#[trigger] out[i]).reports == span[i].reports
    &&& r matches Ok(resp) && resp.seq@ == committed_transitions(out, round.send)
    &&& after.tasks == before.tasks
    &&& after.seen == before.seen
    &&& after.leader == before.leader
    &&& after.helper_answers == before.helper_answers
    &&& after.stores == before.stores.insert(
        task_id,
        put_span(store_of(before.stores, task_id), span).0,
    )
    &&& if round.next.len() == 0 {
        after.helper_states == before.helper_states.remove(key)
    } else {
        &&& after.helper_states.contains_key(key)
        &&& after.helper_states == before.helper_states.insert(key, after.helper_states[key])
        &&& after.helper_states[key].seq@ == round.next
        &&& after.helper_states[key].confirmed@.len() == 0
        &&& after.helper_states[key].part_batch_sel == state.part_batch_sel
    }
}

impl MockAggregator {
    /// Helper: answers the first request of a job. `consumed` holds the
    /// report shares of the request as they were taken in, and `prepared`
    /// for each what the aggregation function made of its input share.
    pub fn helper_handle_agg_job_init_req(
        &mut self,
        task_id: &TaskId,
        agg_job_id: &AggregationJobId,
        part_batch_sel: &PartialBatchSelector,
        consumed: Vec<EarlyReportStateConsumed>,
        prepared: Vec<Option<(VdafPrepState, VdafPrepMessage)>>,
    ) -> (r: Result<AggregateResp, DapError>)
        ensures
            helper_init_req_outcome(
                old(self)@,
                final(self)@,
                r,
                task_id@,
                agg_job_id@,
                *part_batch_sel,
                consumed@,
                prepared@,
            ),
            final(self).same_setup(old(self)),
    {
        let info = HelperStateInfo { task_id: *task_id, agg_job_id: *agg_job_id };
        let task_config = match self.tasks.get(task_id) {
            Some(task_config) => task_config.clone(),
            None => {
                return Err(DapError::Abort(DapAbort::UnrecognizedTask));
            },
        };
        match self.helper_answer_store.get(&info) {
            Some(answer) => {
                return Ok(answer.clone());
            },
            None => {},
        }
        let initialized = self.initialize_reports(
            task_id,
            &task_config,
            part_batch_sel,
            consumed,
            prepared,
        )?;
        let ghost seen = self@.seen;
        let resp = match handle_agg_job_init_req(part_batch_sel, initialized) {
            DapHelperAggregationJobTransition::Continued(state, resp) => {
                self.helper_state_store.insert(info, state);
                resp
            },
            DapHelperAggregationJobTransition::Finished(_, resp) => resp,
        };
        let answer = resp.clone();
        self.helper_answer_store.insert(info, answer);
        assert(self@.helper_answers =~= old(self)@.helper_answers.insert(info@, resp@));
        Ok(resp)
    }

    /// Helper: answers a later request of a job. `steps` holds, for each
    /// report that the Helper keeps of the job and in their order, what the
    /// aggregation function made of the Leader's message for the report,
    /// where it was run.
    pub fn helper_handle_agg_job_cont_req(
        &mut self,
        task_id: &TaskId,
        agg_job_id: &AggregationJobId,
        req: AggregateReq,
        steps: Vec<Option<VdafPrepStep>>,
    ) -> (r: Result<AggregateResp, DapError>)
        ensures
            helper_cont_req_outcome(
                old(self)@,
                final(self)@,
                r,
                task_id@,
                agg_job_id@,
                req,
                steps@,
            ),
            final(self).same_setup(old(self)),
    {
        let info = HelperStateInfo { task_id: *task_id, agg_job_id: *agg_job_id };
        let task_config = match self.tasks.get(task_id) {
            Some(task_config) => task_config.clone(),
            None => {
                return Err(DapError::Abort(DapAbort::UnrecognizedTask));
            },
        };
        match self.helper_state_store.get(&info) {
            Some(state) => {
                if !check_agg_job_cont_req(state, &req) {
                    return Err(DapError::Abort(DapAbort::UnrecognizedMessage));
                }
                if steps.len() != state.seq.len() {
                    return Err(fatal_error("steps and reports differ in number"));
                }
            },
            None => {
                return Err(DapError::Abort(DapAbort::UnrecognizedAggregationJob));
            },
        }
        let state = match self.helper_state_store.remove(&info) {
            Some(state) => state,
            None => vstd::pervasive::unreached(),
        };
        let continuation = handle_agg_job_cont_req(&task_config, state, req, steps)?;
        let ghost span = continuation.span.span@;
        let committed = self.try_put_agg_share_span(task_id, &task_config, continuation.span);
        let resp = apply_commit_outcomes(continuation.resp, &committed);
        match continuation.state {
            Some(next) => {
                self.helper_state_store.insert(info, next);
                assert(self@.helper_states =~= old(self)@.helper_states.insert(info@, next));
            },
            None => {},
        }
        proof {
            assert(helper_cont_committed(
                old(self)@,
                self@,
                Ok::<AggregateResp, DapError>(resp),
                task_id@,
                agg_job_id@,
                steps@,
                req,
                span,
                committed.span@,
            ));
        }
        Ok(resp)
    }
}

/// What a request for the aggregate share of a batch comes to for the
/// Helper.
///
/// The Helper hands out the aggregate share of the batch interval if the
/// Leader has aggregated the same reports: as many, with the same
/// checksum. The batch must not overlap with one that was collected and
/// must hold as many reports as the task asks for. The batch is collected
/// from then on. A request that is refused changes nothing.
pub open spec fn agg_share_req_outcome(
    before: AggregatorView,
    after: AggregatorView,
    r: Result<DapAggregateShare, DapError>,
    req: AggregateShareReq,
) -> bool {
    let task_id = req.task_id@;
    let batch_sel = BatchSelector::TimeInterval { batch_interval: req.batch_interval };
    if !before.tasks.contains_key(task_id) {
        &&& after == before
        &&& r == Err::<DapAggregateShare, DapError>(DapError::Abort(DapAbort::UnrecognizedTask))
    } else {
        let task_config = before.tasks[task_id];
        let shares = store_of(before.stores, task_id).shares;
        let span = batch_span(task_config.time_precision, batch_sel);
        if task_config.batch_span_fault(batch_sel) is Some {
            &&& after == before
            &&& r matches Err(e) && e.is_fatal(task_config.batch_span_fault(batch_sel)->0)
        } else if overlaps(shares, span) {
            &&& after == before
            &&& r == Err::<DapAggregateShare, DapError>(DapError::Abort(DapAbort::BatchOverlap))
        } else {
            match summed(shares, span) {
                None => {
                    &&& after == before
                    &&& r matches Err(e) && e.is_fatal("invalid aggregate share merge"@)
                },
                Some(sum) => if sum.report_count != req.report_count || sum.checksum
                    != req.checksum@ {
                    &&& after == before
                    &&& r == Err::<DapAggregateShare, DapError>(
                        DapError::Abort(DapAbort::BatchMismatch),
                    )
                } else if sum.report_count < task_config.min_batch_size {
                    &&& after == before
                    &&& r == Err::<DapAggregateShare, DapError>(
                        DapError::Abort(DapAbort::InvalidBatchSize),
                    )
                } else {
                    &&& r matches Ok(share) && share@ == sum
                    &&& mark_collected_outcome(before, after, Ok(()), task_id, batch_sel)
                },
            }
        }
    }
}

impl MockAggregator {
    /// Helper: answers a request for the aggregate share of a batch
    /// interval. The share that is handed out is the one to encrypt to the
    /// collector.
    pub fn helper_handle_agg_share_req(&mut self, req: &AggregateShareReq) -> (r: Result<
        DapAggregateShare,
        DapError,
    >)
        ensures
            agg_share_req_outcome(old(self)@, final(self)@, r, *req),
            final(self).same_setup(old(self)),
    {
        let batch_sel = BatchSelector::TimeInterval { batch_interval: req.batch_interval };
        let min_batch_size = match self.tasks.get(&req.task_id) {
            Some(task_config) => task_config.min_batch_size,
            None => {
                return Err(DapError::Abort(DapAbort::UnrecognizedTask));
            },
        };
        let share = self.get_agg_share(&req.task_id, &batch_sel)?;
        if share.report_count != req.report_count || !constant_time_eq(
            share.checksum.as_slice(),
            req.checksum.as_slice(),
        ) {
            return Err(DapError::Abort(DapAbort::BatchMismatch));
        }
        if share.report_count < min_batch_size {
            return Err(DapError::Abort(DapAbort::InvalidBatchSize));
        }
        match self.mark_collected(&req.task_id, &batch_sel) {
            Ok(_) => Ok(share),
            Err(e) => Err(e),
        }
    }
}

/// The aggregate share of a batch is handed out once: when the request
/// comes again, the batch overlaps with the one that was collected for the
/// first, and nothing changes.
pub proof fn lemma_agg_share_is_handed_out_once(
    before: AggregatorView,
    between: AggregatorView,
    after: AggregatorView,
    first: Result<DapAggregateShare, DapError>,
    second: Result<DapAggregateShare, DapError>,
    req: AggregateShareReq,
)
    requires
        agg_share_req_outcome(before, between, first, req),
        agg_share_req_outcome(between, after, second, req),
        first is Ok,
        before.tasks.contains_key(req.task_id@) ==> req.batch_interval.duration
            >= before.tasks[req.task_id@].time_precision,
    ensures
        second == Err::<DapAggregateShare, DapError>(DapError::Abort(DapAbort::BatchOverlap)),
        after == between,
{
    let task_id = req.task_id@;
    let batch_sel = BatchSelector::TimeInterval { batch_interval: req.batch_interval };
    let task_config = before.tasks[task_id];
    let span = batch_span(task_config.time_precision, batch_sel);
    let shares = store_of(before.stores, task_id).shares;
    assert(span.len() > 0) by {
        let d = req.batch_interval.duration as int;
        let p = task_config.time_precision as int;
        assert(d / p >= 1) by (nonlinear_arith)
            requires
                d >= p,
                p > 0,
        ;
    }
    lemma_marked_buckets_are_collected(shares, span, 0);
    assert(between.stores[task_id].shares == marked_collected(shares, span));
}

impl MockAggregator {
    /// Lets a request through if it is authorized, and aborts it if not.
    pub fn check_authorized(
        &self,
        task_config: &DapTaskConfig,
        media_type: DapMediaType,
        sender_auth: Option<&BearerToken>,
    ) -> (r: Result<(), DapError>)
        ensures
            r == if unauthorized_text(
                media_type,
                match sender_auth {
                    Some(token) => Some(token@),
                    None => None,
                },
                self.leader_token_for(task_config)@,
                token_text(self.collector_token_for(task_config)),
            ) is None {
                Ok::<(), DapError>(())
            } else {
                Err::<(), DapError>(DapError::Abort(DapAbort::UnauthorizedRequest))
            },
    {
        match self.unauthorized_reason(task_config, media_type, sender_auth) {
            Ok(None) => Ok(()),
            _ => Err(DapError::Abort(DapAbort::UnauthorizedRequest)),
        }
    }

    /// Leader: takes in a report that a client uploads at the time `now`. A
    /// report for a task that the Leader does not have is refused, and so
    /// is a report whose time is not within what the task takes.
    pub fn leader_handle_upload(&mut self, report: &Report, now: Time) -> (r: Result<(), DapError>)
        ensures
            final(self)@ == (AggregatorView { leader: final(self)@.leader, ..old(self)@ }),
            final(self).same_setup(old(self)),
            if !old(self)@.tasks.contains_key(report.task_id@) {
                &&& final(self)@ == old(self)@
                &&& r == Err::<(), DapError>(DapError::Abort(DapAbort::UnrecognizedTask))
            } else if !old(self)@.tasks[report.task_id@].spec_report_time_is_valid(
                &old(self).global_config,
                now,
                report.metadata.time,
            ) {
                &&& final(self)@ == old(self)@
                &&& r == Err::<(), DapError>(DapError::Abort(DapAbort::ReportRejected))
            } else {
                exists|fresh: Seq<u8>|
                    fresh.len() == 32 && #[trigger] put_report_outcome(
                        old(self)@.leader,
                        final(self)@.leader,
                        r,
                        report.task_id@,
                        old(self)@.tasks[report.task_id@],
                        report@,
                        fresh,
                    )
            },
    {
        match self.tasks.get(&report.task_id) {
            Some(task_config) => {
                if !task_config.report_time_is_valid(
                    &self.global_config,
                    now,
                    report.metadata.time,
                ) {
                    return Err(DapError::Abort(DapAbort::ReportRejected));
                }
            },
            None => {
                return Err(DapError::Abort(DapAbort::UnrecognizedTask));
            },
        }
        let task_id = report.task_id;
        let r = self.put_report(report, &task_id);
        proof {
            let fresh = choose|fresh: Seq<u8>|
                fresh.len() == 32 && #[trigger] put_report_outcome(
                    old(self)@.leader,
                    self@.leader,
                    r,
                    task_id@,
                    old(self)@.tasks[task_id@],
                    report@,
                    fresh,
                );
            assert(put_report_outcome(
                old(self)@.leader,
                self@.leader,
                r,
                report.task_id@,
                old(self)@.tasks[report.task_id@],
                report@,
                fresh,
            ));
        }
        r
    }
}

} // verus!
