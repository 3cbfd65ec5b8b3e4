//! An aggregator that keeps its state in memory: the Leader's queues, the
//! aggregate-share store, the set of processed reports and the Helper's
//! state between rounds.

use crate::codec::views;
use crate::collections::{Fifo, Key, KeyMap};
use crate::error::{bad_request, fatal_error, DapAbort, DapError};
use crate::messages::{
    base64url_text, clone_bytes, BatchId, BatchSelector, Collection, CollectionJobId, Id,
    PartialBatchSelector, Report, ReportView, TaskId, Time,
};
use crate::roles::{
    DapAggregationParam, DapCollectionJob, DapCollectionJobView, WorkItem, WorkItemView,
};
use crate::task::{
    batch_span, bucket_views, quantized_time, DapBatchBucket, DapBatchBucketView, DapQueryConfig,
    DapTaskConfig,
};
use std::collections::VecDeque;
use vstd::prelude::*;

verus! {

/// Counts the aggregation jobs that were logged.
#[derive(Default)]
pub struct MockAuditLog(u32);

impl MockAuditLog {
    /// A log that has counted nothing.
    pub fn new() -> (log: Self)
        ensures
            log.spec_invocations() == 0,
    {
        MockAuditLog(0)
    }

    /// The number of jobs logged so far, modulo `2^32`.
    pub closed spec fn spec_invocations(&self) -> u32 {
        self.0
    }

    /// The number of jobs logged so far, modulo `2^32`.
    pub fn invocations(&self) -> (n: u32)
        ensures
            n == self.spec_invocations(),
    {
        self.0
    }

    /// Logs an aggregation job.
    pub fn on_aggregation_job(&mut self)
        ensures
            final(self).spec_invocations() == (old(self).spec_invocations() + 1) % 0x1_0000_0000,
    {
        self.0 = self.0.wrapping_add(1);
    }
}

/// The model of what the Leader holds for one task.
pub ghost struct PerTaskView {
    /// The reports that wait to be aggregated, by bucket, oldest first.
    pub pending_reports: Map<DapBatchBucketView, Seq<ReportView>>,
    /// The collection jobs, by their identifier.
    pub coll_jobs: Map<Seq<u8>, DapCollectionJobView>,
    /// The batches of a fixed-size task that are not collected yet, each
    /// with the number of reports assigned to it, oldest first.
    pub batch_queue: Seq<(Seq<u8>, u64)>,
}

/// The model of the Leader's memory.
pub ghost struct LeaderMemoryView {
    /// The work that waits to be done, oldest first.
    pub work_queue: Seq<WorkItemView>,
    /// What is held for each task.
    pub per_task: Map<Seq<u8>, PerTaskView>,
}

/// What is held for a task of which nothing is known yet.
pub open spec fn empty_per_task() -> PerTaskView {
    PerTaskView {
        pending_reports: Map::empty(),
        coll_jobs: Map::empty(),
        batch_queue: Seq::empty(),
    }
}

/// What is held for the task, or what would be held for a new one.
pub open spec fn per_task_of(mem: LeaderMemoryView, task_id: Seq<u8>) -> PerTaskView {
    if mem.per_task.contains_key(task_id) {
        mem.per_task[task_id]
    } else {
        empty_per_task()
    }
}

/// The reports that wait in the bucket.
pub open spec fn pending_in(pt: PerTaskView, bucket: DapBatchBucketView) -> Seq<ReportView> {
    if pt.pending_reports.contains_key(bucket) {
        pt.pending_reports[bucket]
    } else {
        Seq::empty()
    }
}

/// The place, at or after `from`, of the first batch with fewer than
/// `min_batch_size` reports; the length of the queue if there is none.
pub open spec fn first_unsaturated(
    queue: Seq<(Seq<u8>, u64)>,
    min_batch_size: u64,
    from: int,
) -> int
    decreases queue.len() - from,
{
    if from < 0 || from >= queue.len() {
        queue.len() as int
    } else if queue[from].1 < min_batch_size {
        from
    } else {
        first_unsaturated(queue, min_batch_size, from + 1)
    }
}

/// The bucket that a report made at `time` is assigned to, and what is held
/// for the task afterwards. In a fixed-size task the report goes to the
/// first batch that is not full, or to a new batch `fresh` behind all
/// others. In a time-interval task it goes to the window of its time.
pub open spec fn assign_bucket(
    pt: PerTaskView,
    task_config: DapTaskConfig,
    time: Time,
    fresh: Seq<u8>,
) -> (PerTaskView, DapBatchBucketView) {
    match task_config.query {
        DapQueryConfig::FixedSize { .. } => {
            let i = first_unsaturated(pt.batch_queue, task_config.min_batch_size, 0);
            if i < pt.batch_queue.len() {
                let (batch_id, count) = pt.batch_queue[i];
                (
                    PerTaskView {
                        batch_queue: pt.batch_queue.update(i, (batch_id, (count + 1) as u64)),
                        ..pt
                    },
                    DapBatchBucketView::FixedSize { batch_id },
                )
            } else {
                (
                    PerTaskView { batch_queue: pt.batch_queue.push((fresh, 1u64)), ..pt },
                    DapBatchBucketView::FixedSize { batch_id: fresh },
                )
            }
        },
        DapQueryConfig::TimeInterval => (
            pt,
            DapBatchBucketView::TimeInterval {
                batch_window: quantized_time(task_config.time_precision, time),
            },
        ),
    }
}

/// The memory after a report was put in: the report waits behind the others
/// of its bucket.
pub open spec fn put_report_result(
    mem: LeaderMemoryView,
    task_id: Seq<u8>,
    task_config: DapTaskConfig,
    report: ReportView,
    fresh: Seq<u8>,
) -> LeaderMemoryView {
    let (pt, bucket) = assign_bucket(
        per_task_of(mem, task_id),
        task_config,
        report.metadata.time,
        fresh,
    );
    let waiting = pending_in(pt, bucket).push(report);
    LeaderMemoryView {
        per_task: mem.per_task.insert(
            task_id,
            PerTaskView { pending_reports: pt.pending_reports.insert(bucket, waiting), ..pt },
        ),
        ..mem
    }
}

/// What putting a report in comes to.
pub open spec fn put_report_outcome(
    before: LeaderMemoryView,
    after: LeaderMemoryView,
    r: Result<(), DapError>,
    task_id: Seq<u8>,
    task_config: DapTaskConfig,
    report: ReportView,
    fresh: Seq<u8>,
) -> bool {
    if task_config.query is TimeInterval && task_config.time_precision == 0 {
        &&& after == with_task(before, task_id)
        &&& r matches Err(e) && e.is_fatal("time precision is zero"@)
    } else {
        &&& after == put_report_result(before, task_id, task_config, report, fresh)
        &&& r is Ok
    }
}

/// The work queue and the task's state after one bucket of a batch was
/// looked at for a collection job: the reports that waited in the bucket
/// are queued as an aggregation job, and a fixed-size batch leaves the
/// batch queue.
pub open spec fn collect_bucket(
    state: (Seq<WorkItemView>, PerTaskView),
    task_id: Seq<u8>,
    part_batch_sel: PartialBatchSelector,
    agg_param: Seq<u8>,
    bucket: DapBatchBucketView,
) -> (Seq<WorkItemView>, PerTaskView) {
    let (queue, pt) = state;
    (
        if pt.pending_reports.contains_key(bucket) {
            queue.push(
                WorkItemView::AggregationJob {
                    task_id,
                    part_batch_sel,
                    agg_param,
                    reports: pt.pending_reports[bucket],
                },
            )
        } else {
            queue
        },
        PerTaskView {
            pending_reports: pt.pending_reports.remove(bucket),
            batch_queue: match bucket {
                DapBatchBucketView::FixedSize { batch_id } => without_batch(
                    pt.batch_queue,
                    batch_id,
                ),
                DapBatchBucketView::TimeInterval { .. } => pt.batch_queue,
            },
            ..pt
        },
    )
}

/// The batch queue without the batch `batch_id`.
pub open spec fn without_batch(queue: Seq<(Seq<u8>, u64)>, batch_id: Seq<u8>) -> Seq<
    (Seq<u8>, u64),
>
    decreases queue.len(),
{
    if queue.len() == 0 {
        Seq::empty()
    } else if queue.last().0 == batch_id {
        without_batch(queue.drop_last(), batch_id)
    } else {
        without_batch(queue.drop_last(), batch_id).push(queue.last())
    }
}

/// The work queue and the task's state after the buckets of `span` were
/// looked at, one after the other.
pub open spec fn collect_buckets(
    state: (Seq<WorkItemView>, PerTaskView),
    task_id: Seq<u8>,
    part_batch_sel: PartialBatchSelector,
    agg_param: Seq<u8>,
    span: Seq<DapBatchBucketView>,
) -> (Seq<WorkItemView>, PerTaskView)
    decreases span.len(),
{
    if span.len() == 0 {
        state
    } else {
        collect_bucket(
            collect_buckets(state, task_id, part_batch_sel, agg_param, span.drop_last()),
            task_id,
            part_batch_sel,
            agg_param,
            span.last(),
        )
    }
}

/// The memory after a collection job was started: the job is pending, an
/// aggregation job is queued for each bucket of the batch in which reports
/// waited, and behind them the collection job itself.
pub open spec fn init_collect_job_result(
    mem: LeaderMemoryView,
    task_id: Seq<u8>,
    time_precision: Time,
    coll_job_id: Seq<u8>,
    batch_sel: BatchSelector,
    agg_param: Seq<u8>,
) -> LeaderMemoryView {
    let pt = per_task_of(mem, task_id);
    let (queue, pt) = collect_buckets(
        (
            mem.work_queue,
            PerTaskView {
                coll_jobs: pt.coll_jobs.insert(coll_job_id, DapCollectionJobView::Pending),
                ..pt
            },
        ),
        task_id,
        partial_of(batch_sel),
        agg_param,
        batch_span(time_precision, batch_sel),
    );
    LeaderMemoryView {
        work_queue: queue.push(
            WorkItemView::CollectionJob { task_id, coll_job_id, batch_sel, agg_param },
        ),
        per_task: mem.per_task.insert(task_id, pt),
    }
}

/// The selector without its bounds.
pub open spec fn partial_of(batch_sel: BatchSelector) -> PartialBatchSelector {
    match batch_sel {
        BatchSelector::TimeInterval { .. } => PartialBatchSelector::TimeInterval,
        BatchSelector::FixedSizeByBatchId { batch_id } => PartialBatchSelector::FixedSizeByBatchId {
            batch_id,
        },
    }
}

/// The memory in which the task is known, with nothing else changed.
pub open spec fn with_task(mem: LeaderMemoryView, task_id: Seq<u8>) -> LeaderMemoryView {
    LeaderMemoryView { per_task: mem.per_task.insert(task_id, per_task_of(mem, task_id)), ..mem }
}

/// The path of a collection job below the Leader's address.
pub open spec fn collect_job_path(task_id: Seq<u8>, coll_job_id: Seq<u8>) -> Seq<char> {
    "collect/task/"@ + base64url_text(task_id) + "/req/"@ + base64url_text(coll_job_id)
}

/// What the Leader holds for one task.
pub struct MockLeaderMemoryPerTask {
    pending_reports: KeyMap<DapBatchBucket, VecDeque<Report>>,
    coll_jobs: KeyMap<CollectionJobId, DapCollectionJob>,
    batch_queue: VecDeque<(BatchId, u64)>,
}

/// The model of a batch queue.
pub open spec fn batch_queue_view(queue: Seq<(BatchId, u64)>) -> Seq<(Seq<u8>, u64)> {
    queue.map_values(|entry: (BatchId, u64)| (entry.0@, entry.1))
}

impl View for MockLeaderMemoryPerTask {
    type V = PerTaskView;

    closed spec fn view(&self) -> PerTaskView {
        PerTaskView {
            pending_reports: self.pending_reports@.map_values(
                |queue: VecDeque<Report>| views(queue@),
            ),
            coll_jobs: self.coll_jobs@.map_values(|job: DapCollectionJob| job@),
            batch_queue: batch_queue_view(self.batch_queue@),
        }
    }
}

/// If no batch before `i` has room and the one at `i` has, or `i` is the
/// end of the queue, then `i` is the place of the first batch with room.
proof fn lemma_first_unsaturated(queue: Seq<(Seq<u8>, u64)>, min_batch_size: u64, from: int, i: int)
    requires
        0 <= from <= i <= queue.len(),
        forall|j: int| from <= j < i ==> (#[trigger] queue[j]).1 >= min_batch_size,
        i < queue.len() ==> queue[i].1 < min_batch_size,
    ensures
        first_unsaturated(queue, min_batch_size, from) == i,
    decreases i - from,
{
    if from < i {
        assert(queue[from].1 >= min_batch_size);
        lemma_first_unsaturated(queue, min_batch_size, from + 1, i);
    }
}

impl MockLeaderMemoryPerTask {
    /// The state of a task of which nothing is known yet.
    pub fn new() -> (pt: Self)
        ensures
            pt@ == empty_per_task(),
    {
        let pt = MockLeaderMemoryPerTask {
            pending_reports: KeyMap::new(),
            coll_jobs: KeyMap::new(),
            batch_queue: VecDeque::new(),
        };
        assert(pt@.pending_reports =~= Map::empty());
        assert(pt@.coll_jobs =~= Map::empty());
        assert(pt@.batch_queue =~= Seq::empty());
        pt
    }

    /// Assigns a report made at `time` to its bucket. `fresh_batch_id`
    /// names the new batch of a fixed-size task, should one be needed.
    fn assign_report_to_bucket_with(
        &mut self,
        task_config: &DapTaskConfig,
        time: Time,
        fresh_batch_id: BatchId,
    ) -> (bucket: DapBatchBucket)
        requires
            task_config.query is TimeInterval ==> task_config.time_precision > 0,
        ensures
            (final(self)@, bucket@) == assign_bucket(
                old(self)@,
                *task_config,
                time,
                fresh_batch_id@,
            ),
    {
        match task_config.query {
            DapQueryConfig::FixedSize { .. } => {
                let ghost queue = self.batch_queue@;
                let mut i: usize = 0;
                while i < self.batch_queue.len()
                    invariant
                        i <= queue.len(),
                        task_config.query is FixedSize,
                        self.batch_queue@ == queue,
                        *self == *old(self),
                        forall|j: int|
                            0 <= j < i ==> (#[trigger] queue[j]).1 >= task_config.min_batch_size,
                    decreases queue.len() - i,
                {
                    let (batch_id, report_count) = self.batch_queue[i];
                    if report_count < task_config.min_batch_size {
                        proof {
                            let model = batch_queue_view(queue);
                            assert forall|j: int| 0 <= j < i implies (#[trigger] model[j]).1
                                >= task_config.min_batch_size by {
                                assert(queue[j].1 >= task_config.min_batch_size);
                            }
                            lemma_first_unsaturated(
                                model,
                                task_config.min_batch_size,
                                0,
                                i as int,
                            );
                        }
                        self.batch_queue.remove(i);
                        self.batch_queue.insert(i, (batch_id, report_count + 1));
                        assert(self.batch_queue@ =~= queue.update(
                            i as int,
                            (batch_id, (report_count + 1) as u64),
                        ));
                        assert(self@.batch_queue =~= old(self)@.batch_queue.update(
                            i as int,
                            (batch_id@, (report_count + 1) as u64),
                        ));
                        assert(old(self)@.batch_queue[i as int] == (batch_id@, report_count));
                        assert(self@ == PerTaskView {
                            batch_queue: self@.batch_queue,
                            ..old(self)@
                        });
                        return DapBatchBucket::FixedSize { batch_id };
                    }
                    i = i + 1;
                }
                proof {
                    let model = batch_queue_view(queue);
                    assert forall|j: int| 0 <= j < i implies (#[trigger] model[j]).1
                        >= task_config.min_batch_size by {
                        assert(queue[j].1 >= task_config.min_batch_size);
                    }
                    lemma_first_unsaturated(model, task_config.min_batch_size, 0, i as int);
                }
                self.batch_queue.push_back((fresh_batch_id, 1));
                assert(self@.batch_queue =~= old(self)@.batch_queue.push((fresh_batch_id@, 1u64)));
                DapBatchBucket::FixedSize { batch_id: fresh_batch_id }
            },
            DapQueryConfig::TimeInterval => task_config.bucket_for_time(time),
        }
    }
}

/// Calls `rand::Rng::gen` on `rand::thread_rng()` for 32 bytes. Nothing is
/// promised of them.
#[verifier::external_body]
pub(crate) fn random_id() -> (id: Id) {
    Id(rand::Rng::gen(&mut rand::thread_rng()))
}

/// A reading of the clock of the machine.
#[verifier::external_type_specification]
#[verifier::external_body]
pub struct ExSystemTime(std::time::SystemTime);

/// Calls `std::time::SystemTime::now`. Nothing is promised of the reading.
#[verifier::external_body]
fn clock_reading() -> (reading: std::time::SystemTime) {
    std::time::SystemTime::now()
}

/// Calls `std::time::SystemTime::duration_since` on the reading, with
/// `std::time::UNIX_EPOCH` as the earlier time: the time that has passed
/// since then, and nothing for a reading before it. Nothing is promised of
/// either.
#[verifier::external_body]
fn since_epoch(reading: &std::time::SystemTime) -> (elapsed: Option<core::time::Duration>) {
    reading.duration_since(std::time::UNIX_EPOCH).ok()
}

/// Calls `core::time::Duration::as_secs`. Nothing is promised of the
/// number.
#[verifier::external_body]
fn whole_seconds(elapsed: &core::time::Duration) -> (seconds: u64) {
    elapsed.as_secs()
}

/// The seconds since the Unix epoch as the clock of the machine gives them
/// at the call; nothing for a clock that is set to a time before it.
pub(crate) fn current_time() -> (now: Option<Time>) {
    let reading = clock_reading();
    match since_epoch(&reading) {
        Some(elapsed) => Some(whole_seconds(&elapsed)),
        None => None,
    }
}

/// The time that a reading of the clock stands for: the seconds that were
/// read, and the epoch itself where the clock is set to a time before it.
pub open spec fn seconds_of(reading: Option<Time>) -> Time {
    match reading {
        Some(seconds) => seconds,
        None => 0,
    }
}

/// The time that a reading of the clock stands for.
pub fn time_of_reading(reading: Option<Time>) -> (now: Time)
    ensures
        now == seconds_of(reading),
{
    match reading {
        Some(seconds) => seconds,
        None => 0,
    }
}

/// The address that `url::Url::join` gives for `path` on the address that
/// `url::Url::parse` reads from `base`, as text; nothing where either
/// fails.
pub uninterp spec fn url_join_text(base: Seq<char>, path: Seq<char>) -> Option<Seq<char>>;

/// Calls `url::Url::parse` on `base` and `url::Url::join` on what it gives,
/// and hands back the text of the joined address. The outcome depends on
/// the two texts alone; `url_join_text` is the name for it.
#[verifier::external_body]
fn url_join(base: &str, path: &str) -> (joined: Option<String>)
    ensures
        match joined {
            Some(text) => url_join_text(base@, path@) == Some(text@),
            None => url_join_text(base@, path@) is None,
        },
{
    url::Url::parse(base).ok()?.join(path).ok().map(String::from)
}

/// The reports of the queue, oldest first.
fn drain_queue(queue: VecDeque<Report>) -> (reports: Vec<Report>)
    ensures
        reports@ == queue@,
{
    let mut queue = queue;
    let mut reports: Vec<Report> = Vec::new();
    let ghost all = queue@;
    loop
        invariant
            reports@ + queue@ == all,
        ensures
            reports@ == all,
        decreases queue@.len(),
    {
        let ghost before = queue@;
        match queue.pop_front() {
            Some(report) => {
                let ghost done = reports@;
                reports.push(report);
                assert(reports@ + queue@ =~= done + before);
            },
            None => {
                assert(reports@ + queue@ =~= reports@);
                break ;
            },
        }
    }
    reports
}

/// Takes the batch `batch_id` out of the queue.
fn remove_batch(queue: &mut VecDeque<(BatchId, u64)>, batch_id: &BatchId)
    ensures
        batch_queue_view(final(queue)@) == without_batch(
            batch_queue_view(old(queue)@),
            batch_id@,
        ),
{
    let ghost all = queue@;
    let mut kept: VecDeque<(BatchId, u64)> = VecDeque::new();
    let mut i: usize = 0;
    assert(all.take(0) =~= Seq::empty());
    assert(batch_queue_view(kept@) =~= without_batch(batch_queue_view(all.take(0)), batch_id@));
    while i < queue.len()
        invariant
            i <= all.len(),
            queue@ == all,
            batch_queue_view(kept@) == without_batch(
                batch_queue_view(all.take(i as int)),
                batch_id@,
            ),
        decreases all.len() - i,
    {
        let entry = queue[i];
        let ghost before = kept@;
        proof {
            let next = batch_queue_view(all.take(i + 1));
            assert(next.drop_last() =~= batch_queue_view(all.take(i as int)));
            assert(next.last() == (entry.0@, entry.1));
        }
        if !entry.0.same(batch_id) {
            kept.push_back(entry);
            assert(batch_queue_view(kept@) =~= batch_queue_view(before).push(
                (entry.0@, entry.1),
            ));
        }
        i = i + 1;
    }
    assert(all.take(i as int) =~= all);
    *queue = kept;
}

/// The text "collect/task/", the task's identifier in base64, "/req/" and
/// the name of the collection job.
fn collect_job_path_text(task_id: &TaskId, coll_job_name: &str) -> (path: String)
    ensures
        path@ == "collect/task/"@ + base64url_text(task_id@) + "/req/"@ + coll_job_name@,
{
    let mut path = String::from_str("collect/task/");
    path.append(task_id.to_base64url().as_str());
    path.append("/req/");
    path.append(coll_job_name);
    path
}

/// What starting a collection job comes to, given the name of the job in
/// texts and the address `uri` that was built for it. The task is known
/// afterwards in any case.
pub open spec fn init_collect_job_outcome(
    before: LeaderMemoryView,
    after: LeaderMemoryView,
    r: Result<String, DapError>,
    task_id: Seq<u8>,
    task_config: DapTaskConfig,
    coll_job_id: Seq<u8>,
    coll_job_name: Seq<char>,
    uri: Option<Seq<char>>,
    batch_sel: BatchSelector,
    agg_param: Seq<u8>,
) -> bool {
    if uri is None {
        &&& after == with_task(before, task_id)
        &&& r matches Err(e) && e.is_fatal("collection job address cannot be built"@)
    } else if per_task_of(before, task_id).coll_jobs.contains_key(coll_job_id) {
        &&& after == with_task(before, task_id)
        &&& r matches Err(e) && e.is_bad_request(
            "tried to overwrite collection job "@ + coll_job_name,
        )
    } else if task_config.batch_span_fault(batch_sel) is Some {
        &&& after == with_task(before, task_id)
        &&& r matches Err(e) && e.is_fatal(task_config.batch_span_fault(batch_sel)->0)
    } else {
        &&& after == init_collect_job_result(
            before,
            task_id,
            task_config.time_precision,
            coll_job_id,
            batch_sel,
            agg_param,
        )
        &&& r matches Ok(text) && text@ == uri->0
    }
}

/// What the Leader keeps in memory: the queue of work and, for each task,
/// the reports that wait, the collection jobs and the batch queue.
pub struct MockLeaderMemory {
    work_queue: VecDeque<WorkItem>,
    per_task: KeyMap<TaskId, MockLeaderMemoryPerTask>,
}

impl View for MockLeaderMemory {
    type V = LeaderMemoryView;

    closed spec fn view(&self) -> LeaderMemoryView {
        LeaderMemoryView {
            work_queue: views(self.work_queue@),
            per_task: self.per_task@.map_values(|pt: MockLeaderMemoryPerTask| pt@),
        }
    }
}

impl Default for MockLeaderMemory {
    fn default() -> (mem: Self)
        ensures
            mem@.work_queue == Seq::<WorkItemView>::empty(),
            mem@.per_task == Map::<Seq<u8>, PerTaskView>::empty(),
    {
        let mem = MockLeaderMemory { work_queue: VecDeque::new(), per_task: KeyMap::new() };
        assert(mem@.work_queue =~= Seq::empty());
        assert(mem@.per_task =~= Map::empty());
        mem
    }
}

impl MockLeaderMemory {
    /// Forgets everything.
    pub fn delete_all(&mut self)
        ensures
            final(self)@.work_queue == Seq::<WorkItemView>::empty(),
            final(self)@.per_task == Map::<Seq<u8>, PerTaskView>::empty(),
    {
        self.work_queue.clear();
        self.per_task.clear();
        assert(self@.work_queue =~= Seq::empty());
        assert(self@.per_task =~= Map::empty());
    }

    /// Takes out what is held for the task, or what would be held for a new
    /// one.
    fn take_per_task(&mut self, task_id: &TaskId) -> (pt: MockLeaderMemoryPerTask)
        ensures
            pt@ == per_task_of(old(self)@, task_id@),
            final(self).work_queue == old(self).work_queue,
            final(self).per_task@ == old(self).per_task@.remove(task_id@),
    {
        match self.per_task.remove(task_id) {
            Some(pt) => pt,
            None => MockLeaderMemoryPerTask::new(),
        }
    }

    /// Puts back what is held for the task.
    fn put_per_task(&mut self, task_id: &TaskId, pt: MockLeaderMemoryPerTask)
        ensures
            final(self)@.work_queue == old(self)@.work_queue,
            final(self)@.per_task == old(self)@.per_task.insert(task_id@, pt@),
    {
        self.per_task.insert(*task_id, pt);
        assert(self@.per_task =~= old(self)@.per_task.insert(task_id@, pt@));
    }

    /// Takes in a report: assigns it to its bucket and lets it wait there
    /// until a collection job asks for the bucket. `fresh_batch_id` names
    /// the new batch of a fixed-size task, should one be needed. A
    /// time-interval task with the time precision zero has no buckets: the
    /// task becomes known and the report is not taken.
    pub fn put_report_with(
        &mut self,
        task_id: &TaskId,
        task_config: &DapTaskConfig,
        report: Report,
        fresh_batch_id: BatchId,
    ) -> (r: Result<(), DapError>)
        ensures
            put_report_outcome(
                old(self)@,
                final(self)@,
                r,
                task_id@,
                *task_config,
                report@,
                fresh_batch_id@,
            ),
    {
        match task_config.query {
            DapQueryConfig::TimeInterval => {
                if task_config.time_precision == 0 {
                    self.touch_task(task_id);
                    return Err(fatal_error("time precision is zero"));
                }
            },
            DapQueryConfig::FixedSize { .. } => {},
        }
        let mut per_task = self.take_per_task(task_id);
        let bucket = per_task.assign_report_to_bucket_with(
            task_config,
            report.metadata.time,
            fresh_batch_id,
        );
        let ghost assigned = per_task@;
        let ghost stored = per_task.pending_reports@;
        let mut queue = match per_task.pending_reports.remove(&bucket) {
            Some(queue) => queue,
            None => VecDeque::new(),
        };
        assert(views(queue@) =~= pending_in(assigned, bucket@));
        let ghost waiting = queue@;
        queue.push_back(report);
        assert(views(queue@) =~= views(waiting).push(report@));
        per_task.pending_reports.insert(bucket, queue);
        assert(per_task.pending_reports@ =~= stored.insert(bucket@, queue));
        assert(per_task@.pending_reports =~= assigned.pending_reports.insert(
            bucket@,
            views(queue@),
        ));
        let ghost emptied = self@;
        self.put_per_task(task_id, per_task);
        assert(self@.per_task =~= old(self)@.per_task.insert(task_id@, per_task@)) by {
            assert(emptied.per_task =~= old(self)@.per_task.remove(task_id@));
        }
        Ok(())
    }

    /// Takes in a report. A fixed-size task may get a new batch for it,
    /// named by 32 random bytes.
    pub fn put_report(
        &mut self,
        task_id: &TaskId,
        task_config: &DapTaskConfig,
        report: Report,
    ) -> (r: Result<(), DapError>)
        ensures
            exists|fresh: Seq<u8>|
                fresh.len() == 32 && #[trigger] put_report_outcome(
                    old(self)@,
                    final(self)@,
                    r,
                    task_id@,
                    *task_config,
                    report@,
                    fresh,
                ),
    {
        let fresh_batch_id = random_id();
        let ghost model = report@;
        let r = self.put_report_with(task_id, task_config, report, fresh_batch_id);
        proof {
            let fresh = fresh_batch_id@;
            assert(fresh.len() == 32);
            assert(put_report_outcome(old(self)@, self@, r, task_id@, *task_config, model, fresh));
        }
        r
    }

    /// The batch that the Leader is filling: the oldest one that is not
    /// collected yet.
    pub fn current_batch(&self, task_id: &TaskId, task_config: &DapTaskConfig) -> (r: Result<
        BatchId,
        DapError,
    >)
        ensures
            current_batch_outcome(self@, r, task_id@, *task_config),
    {
        match task_config.query {
            DapQueryConfig::FixedSize { .. } => {},
            DapQueryConfig::TimeInterval => {
                return Err(bad_request("tried to get current batch from non fixed-size task"));
            },
        }
        match self.per_task.get(task_id) {
            Some(per_task) => {
                if per_task.batch_queue.len() == 0 {
                    Err(bad_request("empty batch queue"))
                } else {
                    Ok(per_task.batch_queue[0].0)
                }
            },
            None => Err(bad_request("empty batch queue")),
        }
    }

    /// The batches of the task that are not collected yet, each with the
    /// number of reports assigned to it, oldest first.
    pub fn batch_queue(&self, task_id: &TaskId) -> (queue: Vec<(BatchId, u64)>)
        ensures
            batch_queue_view(queue@) == per_task_of(self@, task_id@).batch_queue,
    {
        let mut queue: Vec<(BatchId, u64)> = Vec::new();
        match self.per_task.get(task_id) {
            Some(per_task) => {
                let mut i: usize = 0;
                while i < per_task.batch_queue.len()
                    invariant
                        i <= per_task.batch_queue@.len(),
                        queue@ == per_task.batch_queue@.take(i as int),
                    decreases per_task.batch_queue@.len() - i,
                {
                    queue.push(per_task.batch_queue[i]);
                    i = i + 1;
                    assert(queue@ =~= per_task.batch_queue@.take(i as int));
                }
                assert(per_task.batch_queue@.take(i as int) =~= per_task.batch_queue@);
            },
            None => {
                assert(batch_queue_view(queue@) =~= Seq::empty());
            },
        }
        queue
    }

    /// Queues work behind the work that waits already.
    pub fn enqueue_work(&mut self, work_items: Vec<WorkItem>) -> (r: Result<(), DapError>)
        ensures
            r is Ok,
            final(self)@.work_queue == old(self)@.work_queue + views(work_items@),
            final(self)@.per_task == old(self)@.per_task,
    {
        let ghost all = work_items@;
        let mut work_items = Fifo::from_vec(work_items);
        let ghost queued = self.work_queue@;
        loop
            invariant
                self.per_task == old(self).per_task,
                self.work_queue@ + work_items@ == queued + all,
            ensures
                self.per_task == old(self).per_task,
                self.work_queue@ == queued + all,
            decreases work_items@.len(),
        {
            if work_items.len() == 0 {
                assert(self.work_queue@ + work_items@ =~= self.work_queue@);
                break ;
            }
            let ghost q0 = self.work_queue@;
            let ghost w0 = work_items@;
            let item = work_items.pop_front();
            self.work_queue.push_back(item);
            assert(self.work_queue@ + work_items@ =~= q0 + w0);
        }
        assert(views(queued + all) =~= views(queued) + views(all));
        Ok(())
    }

    /// Takes up to `num_items` pieces of work from the front of the queue.
    pub fn dequeue_work(&mut self, num_items: usize) -> (r: Result<Vec<WorkItem>, DapError>)
        ensures
            r matches Ok(work_items) && ({
                let n = if num_items <= old(self)@.work_queue.len() {
                    num_items as int
                } else {
                    old(self)@.work_queue.len() as int
                };
                &&& views(work_items@) == old(self)@.work_queue.take(n)
                &&& final(self)@.work_queue == old(self)@.work_queue.skip(n)
                &&& final(self)@.per_task == old(self)@.per_task
            }),
    {
        let ghost queued = self.work_queue@;
        let n = if num_items <= self.work_queue.len() {
            num_items
        } else {
            self.work_queue.len()
        };
        let mut work_items: Vec<WorkItem> = Vec::new();
        let mut i: usize = 0;
        assert(self.work_queue@ =~= queued.skip(0));
        while i < n
            invariant
                i <= n <= queued.len(),
                self.per_task == old(self).per_task,
                work_items@ == queued.take(i as int),
                self.work_queue@ == queued.skip(i as int),
            decreases n - i,
        {
            match self.work_queue.pop_front() {
                Some(item) => {
                    work_items.push(item);
                },
                None => {},
            }
            i = i + 1;
            assert(work_items@ =~= queued.take(i as int));
            assert(self.work_queue@ =~= queued.skip(i as int));
        }
        assert(views(queued.take(n as int)) =~= views(queued).take(n as int));
        assert(views(queued.skip(n as int)) =~= views(queued).skip(n as int));
        Ok(work_items)
    }

    /// Where the collection job stands.
    pub fn poll_collect_job(&self, task_id: &TaskId, coll_job_id: &CollectionJobId) -> (r: Result<
        DapCollectionJob,
        DapError,
    >)
        ensures
            poll_collect_job_outcome(self@, r, task_id@, coll_job_id@),
    {
        match self.per_task.get(task_id) {
            Some(per_task) => match per_task.coll_jobs.get(coll_job_id) {
                Some(job) => Ok(job.clone()),
                None => Ok(DapCollectionJob::Unknown),
            },
            None => Err(DapError::Abort(DapAbort::UnrecognizedTask)),
        }
    }
}

/// The number of pieces of work that are handed out when `num_items` are
/// asked for.
pub open spec fn dequeued(mem: LeaderMemoryView, num_items: usize) -> int {
    if num_items <= mem.work_queue.len() {
        num_items as int
    } else {
        mem.work_queue.len() as int
    }
}

/// What asking for the current batch comes to. Only a fixed-size task has
/// one, and only while a batch is in its queue: the queue of a task of which
/// nothing is held yet is empty.
pub open spec fn current_batch_outcome(
    mem: LeaderMemoryView,
    r: Result<BatchId, DapError>,
    task_id: Seq<u8>,
    task_config: DapTaskConfig,
) -> bool {
    if !(task_config.query is FixedSize) {
        r matches Err(e) && e.is_bad_request(
            "tried to get current batch from non fixed-size task"@,
        )
    } else if per_task_of(mem, task_id).batch_queue.len() == 0 {
        r matches Err(e) && e.is_bad_request("empty batch queue"@)
    } else {
        r matches Ok(batch_id) && batch_id@ == per_task_of(mem, task_id).batch_queue[0].0
    }
}

/// What asking for a collection job comes to. A job that was never started
/// is unknown; a task of which nothing is held is not recognized.
pub open spec fn poll_collect_job_outcome(
    mem: LeaderMemoryView,
    r: Result<DapCollectionJob, DapError>,
    task_id: Seq<u8>,
    coll_job_id: Seq<u8>,
) -> bool {
    if !mem.per_task.contains_key(task_id) {
        r == Err::<DapCollectionJob, DapError>(DapError::Abort(DapAbort::UnrecognizedTask))
    } else if mem.per_task[task_id].coll_jobs.contains_key(coll_job_id) {
        r matches Ok(job) && job@ == mem.per_task[task_id].coll_jobs[coll_job_id]
    } else {
        r matches Ok(job) && job@ == DapCollectionJobView::Unknown
    }
}

/// What finishing a collection job comes to. Only a pending job can be
/// finished; anything else is a fault and changes nothing.
pub open spec fn finish_collect_job_outcome(
    before: LeaderMemoryView,
    after: LeaderMemoryView,
    r: Result<(), DapError>,
    task_id: Seq<u8>,
    coll_job_id: Seq<u8>,
    collection: crate::messages::CollectionView,
) -> bool {
    if !before.per_task.contains_key(task_id) {
        &&& after == before
        &&& r matches Err(e) && e.is_fatal("collect job not found for task_id"@)
    } else if !before.per_task[task_id].coll_jobs.contains_key(coll_job_id) {
        &&& after == before
        &&& r matches Err(e) && e.is_fatal("collect job not found for collect_id"@)
    } else {
        match before.per_task[task_id].coll_jobs[coll_job_id] {
            DapCollectionJobView::Pending => {
                &&& r is Ok
                &&& after == LeaderMemoryView {
                    per_task: before.per_task.insert(
                        task_id,
                        PerTaskView {
                            coll_jobs: before.per_task[task_id].coll_jobs.insert(
                                coll_job_id,
                                DapCollectionJobView::Done(collection),
                            ),
                            ..before.per_task[task_id]
                        },
                    ),
                    ..before
                }
            },
            DapCollectionJobView::Done(_) => {
                &&& after == before
                &&& r matches Err(e) && e.is_fatal(
                    "tried to overwrite completed collection job"@,
                )
            },
            DapCollectionJobView::Unknown => {
                &&& after == before
                &&& r matches Err(e) && e.is_fatal(
                    "tried to overwrite collection job in unknown state"@,
                )
            },
        }
    }
}

impl MockLeaderMemory {
    /// Marks a pending collection job as done, with its collection.
    pub fn finish_collect_job(
        &mut self,
        task_id: &TaskId,
        coll_job_id: &CollectionJobId,
        collection: &Collection,
    ) -> (r: Result<(), DapError>)
        ensures
            finish_collect_job_outcome(
                old(self)@,
                final(self)@,
                r,
                task_id@,
                coll_job_id@,
                collection@,
            ),
    {
        match self.per_task.get(task_id) {
            None => {
                return Err(fatal_error("collect job not found for task_id"));
            },
            Some(per_task) => match per_task.coll_jobs.get(coll_job_id) {
                None => {
                    return Err(fatal_error("collect job not found for collect_id"));
                },
                Some(DapCollectionJob::Done(_)) => {
                    return Err(fatal_error("tried to overwrite completed collection job"));
                },
                Some(DapCollectionJob::Unknown) => {
                    return Err(fatal_error("tried to overwrite collection job in unknown state"));
                },
                Some(DapCollectionJob::Pending) => {},
            },
        }
        let mut per_task = self.take_per_task(task_id);
        let ghost held = per_task@;
        let ghost jobs = per_task.coll_jobs@;
        let done = DapCollectionJob::Done(collection.clone());
        per_task.coll_jobs.insert(*coll_job_id, done);
        assert(per_task.coll_jobs@ =~= jobs.insert(coll_job_id@, done));
        assert(per_task@.coll_jobs =~= held.coll_jobs.insert(
            coll_job_id@,
            DapCollectionJobView::Done(collection@),
        ));
        let ghost emptied = self@;
        self.put_per_task(task_id, per_task);
        assert(self@.per_task =~= old(self)@.per_task.insert(task_id@, per_task@)) by {
            assert(emptied.per_task =~= old(self)@.per_task.remove(task_id@));
        }
        Ok(())
    }

    /// Makes the task known and changes nothing else.
    fn touch_task(&mut self, task_id: &TaskId)
        ensures
            final(self)@ == with_task(old(self)@, task_id@),
    {
        let per_task = self.take_per_task(task_id);
        let ghost emptied = self@;
        self.put_per_task(task_id, per_task);
        assert(self@.per_task =~= old(self)@.per_task.insert(task_id@, per_task@)) by {
            assert(emptied.per_task =~= old(self)@.per_task.remove(task_id@));
        }
    }

    /// Starts the collection job `coll_job_id`, which texts call
    /// `coll_job_name` and the address of which is `coll_job_uri` where one
    /// could be built: the job becomes pending, the reports that wait in
    /// the buckets of the batch are queued as aggregation jobs, and behind
    /// them the collection job itself.
    pub fn init_collect_job_with(
        &mut self,
        task_id: &TaskId,
        task_config: &DapTaskConfig,
        coll_job_id: CollectionJobId,
        coll_job_name: &str,
        coll_job_uri: Option<String>,
        batch_sel: BatchSelector,
        agg_param: DapAggregationParam,
    ) -> (r: Result<String, DapError>)
        ensures
            init_collect_job_outcome(
                old(self)@,
                final(self)@,
                r,
                task_id@,
                *task_config,
                coll_job_id@,
                coll_job_name@,
                match coll_job_uri {
                    Some(text) => Some(text@),
                    None => None,
                },
                batch_sel,
                agg_param@,
            ),
    {
        let coll_job_uri = match coll_job_uri {
            Some(text) => text,
            None => {
                self.touch_task(task_id);
                return Err(fatal_error("collection job address cannot be built"));
            },
        };
        let mut per_task = self.take_per_task(task_id);
        let ghost emptied = self@;
        let ghost held = per_task@;
        if per_task.coll_jobs.contains_key(&coll_job_id) {
            self.put_per_task(task_id, per_task);
            assert(self@.per_task =~= old(self)@.per_task.insert(task_id@, held)) by {
                assert(emptied.per_task =~= old(self)@.per_task.remove(task_id@));
            }
            let mut detail = String::from_str("tried to overwrite collection job ");
            detail.append(coll_job_name);
            return Err(DapError::Abort(DapAbort::BadRequest(detail)));
        }
        let span = match task_config.batch_span_for_sel(&batch_sel) {
            Ok(span) => span,
            Err(e) => {
                self.put_per_task(task_id, per_task);
                assert(self@.per_task =~= old(self)@.per_task.insert(task_id@, held)) by {
                    assert(emptied.per_task =~= old(self)@.per_task.remove(task_id@));
                }
                return Err(e);
            },
        };
        let ghost jobs = per_task.coll_jobs@;
        per_task.coll_jobs.insert(coll_job_id, DapCollectionJob::Pending);
        assert(per_task.coll_jobs@ =~= jobs.insert(coll_job_id@, DapCollectionJob::Pending));
        assert(per_task@.coll_jobs =~= held.coll_jobs.insert(
            coll_job_id@,
            DapCollectionJobView::Pending,
        ));
        let part_batch_sel = batch_sel.to_partial();
        let ghost start = (old(self)@.work_queue, per_task@);
        let ghost buckets = bucket_views(span@);
        let mut i: usize = 0;
        assert(buckets.take(0) =~= Seq::empty());
        while i < span.len()
            invariant
                i <= span@.len(),
                buckets == bucket_views(span@),
                part_batch_sel == partial_of(batch_sel),
                emptied.per_task == self@.per_task,
                (views(self.work_queue@), per_task@) == collect_buckets(
                    start,
                    task_id@,
                    part_batch_sel,
                    agg_param@,
                    buckets.take(i as int),
                ),
            decreases span@.len() - i,
        {
            let bucket = span[i];
            let ghost state = (views(self.work_queue@), per_task@);
            let ghost stored = per_task.pending_reports@;
            proof {
                assert(buckets.take(i + 1).drop_last() =~= buckets.take(i as int));
                assert(buckets.take(i + 1).last() == bucket@);
            }
            match per_task.pending_reports.remove(&bucket) {
                Some(queue) => {
                    let ghost queued = self.work_queue@;
                    let reports = drain_queue(queue);
                    let item = WorkItem::AggregationJob {
                        task_id: *task_id,
                        part_batch_sel,
                        agg_param: clone_bytes(&agg_param),
                        reports,
                    };
                    self.work_queue.push_back(item);
                    assert(views(self.work_queue@) =~= views(queued).push(item@));
                },
                None => {},
            }
            assert(per_task@.pending_reports =~= state.1.pending_reports.remove(bucket@));
            match bucket {
                DapBatchBucket::FixedSize { batch_id } => {
                    remove_batch(&mut per_task.batch_queue, &batch_id);
                },
                DapBatchBucket::TimeInterval { .. } => {},
            }
            i = i + 1;
        }
        assert(buckets.take(i as int) =~= buckets);
        let ghost queued = self.work_queue@;
        let item = WorkItem::CollectionJob {
            task_id: *task_id,
            coll_job_id,
            batch_sel,
            agg_param,
        };
        self.work_queue.push_back(item);
        assert(views(self.work_queue@) =~= views(queued).push(item@));
        self.put_per_task(task_id, per_task);
        assert(self@.per_task =~= old(self)@.per_task.insert(task_id@, per_task@)) by {
            assert(emptied.per_task =~= old(self)@.per_task.remove(task_id@));
        }
        Ok(coll_job_uri)
    }

    /// Starts a collection job. Where no identifier is given, 32 random
    /// bytes name the job. The address of the job is the Leader's address
    /// joined with the path of the job.
    pub fn init_collect_job(
        &mut self,
        task_id: &TaskId,
        task_config: &DapTaskConfig,
        coll_job_id: &Option<CollectionJobId>,
        batch_sel: BatchSelector,
        agg_param: DapAggregationParam,
    ) -> (r: Result<String, DapError>)
        ensures
            exists|id: Seq<u8>|
                {
                    &&& id.len() == 32
                    &&& coll_job_id matches Some(given) ==> id == given@
                    &&& #[trigger] init_collect_job_outcome(
                        old(self)@,
                        final(self)@,
                        r,
                        task_id@,
                        *task_config,
                        id,
                        base64url_text(id),
                        url_join_text(task_config.leader_url@, collect_job_path(task_id@, id)),
                        batch_sel,
                        agg_param@,
                    )
                },
    {
        let id = match coll_job_id {
            Some(id) => *id,
            None => random_id(),
        };
        let name = id.to_base64url();
        let path = collect_job_path_text(task_id, name.as_str());
        let uri = url_join(task_config.leader_url.as_str(), path.as_str());
        let ghost param = agg_param@;
        let r = self.init_collect_job_with(
            task_id,
            task_config,
            id,
            name.as_str(),
            uri,
            batch_sel,
            agg_param,
        );
        proof {
            assert(id@.len() == 32);
            assert(init_collect_job_outcome(
                old(self)@,
                self@,
                r,
                task_id@,
                *task_config,
                id@,
                base64url_text(id@),
                url_join_text(task_config.leader_url@, collect_job_path(task_id@, id@)),
                batch_sel,
                param,
            ));
        }
        r
    }
}

/// Whether the batch is in the queue.
pub open spec fn queue_has_batch(queue: Seq<(Seq<u8>, u64)>, batch_id: Seq<u8>) -> bool {
    exists|i: int| 0 <= i < queue.len() && (#[trigger] queue[i]).0 == batch_id
}

impl MockLeaderMemory {
    /// Whether the batch is one of those of the task that are not collected
    /// yet.
    pub fn has_batch(&self, task_id: &TaskId, batch_id: &BatchId) -> (b: bool)
        ensures
            b == queue_has_batch(per_task_of(self@, task_id@).batch_queue, batch_id@),
    {
        match self.per_task.get(task_id) {
            Some(per_task) => {
                let ghost model = batch_queue_view(per_task.batch_queue@);
                let mut i: usize = 0;
                while i < per_task.batch_queue.len()
                    invariant
                        i <= per_task.batch_queue@.len(),
                        model == batch_queue_view(per_task.batch_queue@),
                        model == per_task_of(self@, task_id@).batch_queue,
                        forall|j: int| 0 <= j < i ==> (#[trigger] model[j]).0 != batch_id@,
                    decreases per_task.batch_queue@.len() - i,
                {
                    if per_task.batch_queue[i].0.same(batch_id) {
                        assert(model[i as int].0 == batch_id@);
                        return true;
                    }
                    i = i + 1;
                }
                false
            },
            None => false,
        }
    }
}

/// Where the collection job of the task stands.
pub open spec fn job_of(
    mem: LeaderMemoryView,
    task_id: Seq<u8>,
    coll_job_id: Seq<u8>,
) -> DapCollectionJobView {
    let jobs = per_task_of(mem, task_id).coll_jobs;
    if jobs.contains_key(coll_job_id) {
        jobs[coll_job_id]
    } else {
        DapCollectionJobView::Unknown
    }
}

/// How far a collection job has come: an unknown job not at all, a pending
/// job one step, a job that is done two.
pub open spec fn job_rank(job: DapCollectionJobView) -> int {
    match job {
        DapCollectionJobView::Unknown => 0,
        DapCollectionJobView::Pending => 1,
        DapCollectionJobView::Done(_) => 2,
    }
}

/// Whether the job `after` is where the job `before` was or further on: a
/// job never goes back, and a job that is done stays as it is.
pub open spec fn job_moved_on(before: DapCollectionJobView, after: DapCollectionJobView) -> bool {
    &&& job_rank(before) <= job_rank(after)
    &&& before is Done ==> after == before
}

proof fn lemma_collect_buckets_keeps_jobs(
    state: (Seq<WorkItemView>, PerTaskView),
    task_id: Seq<u8>,
    part_batch_sel: PartialBatchSelector,
    agg_param: Seq<u8>,
    span: Seq<DapBatchBucketView>,
)
    ensures
        collect_buckets(state, task_id, part_batch_sel, agg_param, span).1.coll_jobs
            == state.1.coll_jobs,
    decreases span.len(),
{
    if span.len() > 0 {
        lemma_collect_buckets_keeps_jobs(
            state,
            task_id,
            part_batch_sel,
            agg_param,
            span.drop_last(),
        );
    }
}

/// Finishing a collection job moves a pending job on to done and no other
/// job anywhere: whatever the outcome, each job of each task is where it
/// was or further on.
pub proof fn lemma_finish_moves_jobs_on(
    before: LeaderMemoryView,
    after: LeaderMemoryView,
    r: Result<(), DapError>,
    task_id: Seq<u8>,
    coll_job_id: Seq<u8>,
    collection: crate::messages::CollectionView,
    any_task: Seq<u8>,
    any_job: Seq<u8>,
)
    requires
        finish_collect_job_outcome(before, after, r, task_id, coll_job_id, collection),
    ensures
        job_moved_on(job_of(before, any_task, any_job), job_of(after, any_task, any_job)),
        r is Ok ==> job_of(before, task_id, coll_job_id) is Pending && job_of(
            after,
            task_id,
            coll_job_id,
        ) == DapCollectionJobView::Done(collection),
{
}

/// Starting a collection job moves an unknown job on to pending and no
/// other job anywhere: whatever the outcome, each job of each task is
/// where it was or further on.
pub proof fn lemma_init_moves_jobs_on(
    before: LeaderMemoryView,
    after: LeaderMemoryView,
    r: Result<String, DapError>,
    task_id: Seq<u8>,
    task_config: DapTaskConfig,
    coll_job_id: Seq<u8>,
    coll_job_name: Seq<char>,
    uri: Option<Seq<char>>,
    batch_sel: BatchSelector,
    agg_param: Seq<u8>,
    any_task: Seq<u8>,
    any_job: Seq<u8>,
)
    requires
        init_collect_job_outcome(
            before,
            after,
            r,
            task_id,
            task_config,
            coll_job_id,
            coll_job_name,
            uri,
            batch_sel,
            agg_param,
        ),
    ensures
        job_moved_on(job_of(before, any_task, any_job), job_of(after, any_task, any_job)),
        r is Ok ==> !per_task_of(before, task_id).coll_jobs.contains_key(coll_job_id) && job_of(
            after,
            task_id,
            coll_job_id,
        ) is Pending,
{
    let pt = per_task_of(before, task_id);
    lemma_collect_buckets_keeps_jobs(
        (
            before.work_queue,
            PerTaskView {
                coll_jobs: pt.coll_jobs.insert(coll_job_id, DapCollectionJobView::Pending),
                ..pt
            },
        ),
        task_id,
        partial_of(batch_sel),
        agg_param,
        batch_span(task_config.time_precision, batch_sel),
    );
}

} // verus!
