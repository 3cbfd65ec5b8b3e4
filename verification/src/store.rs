//! The aggregate-share store of one task: the aggregate share of each
//! bucket, whether the bucket has been collected, and the reports that
//! have been aggregated.

use crate::agg_share::{
    empty_agg_store, empty_share, merged, report_ids, AggStore, AggStoreView, DapAggregateShare,
    DapAggregateShareView, DapAggregateSpan, DapAggregateSpanEntry, MergeAggShareError,
};
use crate::codec::views;
use crate::collections::{Fifo, Key, KeyMap, KeySet};
use crate::error::{DapAbort, DapError};
use crate::messages::{ReportId, Time};
use crate::task::{bucket_views, DapBatchBucket, DapBatchBucketView};
use vstd::prelude::*;

verus! {

/// The model of the store of a task.
pub ghost struct TaskStoreView {
    /// The reports that have been aggregated.
    pub processed: Set<Seq<u8>>,
    /// What each bucket holds.
    pub shares: Map<DapBatchBucketView, AggStoreView>,
}

/// The store of a task in which nothing has happened yet.
pub open spec fn empty_task_store() -> TaskStoreView {
    TaskStoreView { processed: Set::empty(), shares: Map::empty() }
}

/// What the bucket holds, or what a new bucket would hold.
pub open spec fn agg_store_of(
    shares: Map<DapBatchBucketView, AggStoreView>,
    bucket: DapBatchBucketView,
) -> AggStoreView {
    if shares.contains_key(bucket) {
        shares[bucket]
    } else {
        empty_agg_store()
    }
}

/// Those of `ids` that have been processed, each once, in the order of
/// `ids`.
pub open spec fn replayed(ids: Seq<Seq<u8>>, processed: Set<Seq<u8>>) -> Seq<Seq<u8>>
    decreases ids.len(),
{
    if ids.len() == 0 {
        Seq::empty()
    } else {
        let before = replayed(ids.drop_last(), processed);
        if processed.contains(ids.last()) && !before.contains(ids.last()) {
            before.push(ids.last())
        } else {
            before
        }
    }
}

/// How merging an aggregate share into a bucket ended.
pub ghost enum MergeOutcome {
    Merged,
    AlreadyCollected,
    ReplaysDetected(Seq<Seq<u8>>),
    Invalid,
}

/// The outcome that the result stands for.
pub open spec fn merge_outcome(r: Result<(), MergeAggShareError>) -> MergeOutcome {
    match r {
        Ok(_) => MergeOutcome::Merged,
        Err(MergeAggShareError::AlreadyCollected) => MergeOutcome::AlreadyCollected,
        Err(MergeAggShareError::ReplaysDetected(ids)) => MergeOutcome::ReplaysDetected(views(ids@)),
        Err(MergeAggShareError::Other(_)) => MergeOutcome::Invalid,
    }
}

/// The store after the aggregate share `delta` of the reports `ids` was put
/// to `bucket`, and how that ended. Either the share is merged and all the
/// reports count as processed, or nothing changes: a report that was
/// processed before is a replay, a collected bucket takes no more shares,
/// and shares that cannot be added are not added.
pub open spec fn put_entry(
    store: TaskStoreView,
    bucket: DapBatchBucketView,
    delta: DapAggregateShareView,
    ids: Seq<Seq<u8>>,
) -> (TaskStoreView, MergeOutcome) {
    let replays = replayed(ids, store.processed);
    let held = agg_store_of(store.shares, bucket);
    if replays.len() > 0 {
        (store, MergeOutcome::ReplaysDetected(replays))
    } else if held.collected {
        (store, MergeOutcome::AlreadyCollected)
    } else {
        match merged(held.agg_share, delta) {
            None => (store, MergeOutcome::Invalid),
            Some(sum) => (
                TaskStoreView {
                    processed: store.processed.union(ids.to_set()),
                    shares: store.shares.insert(
                        bucket,
                        AggStoreView { agg_share: sum, collected: false },
                    ),
                },
                MergeOutcome::Merged,
            ),
        }
    }
}

/// The store after the entries of a span were put one after the other, and
/// how each ended.
pub open spec fn put_span(
    store: TaskStoreView,
    entries: Seq<DapAggregateSpanEntry<DapAggregateShare>>,
) -> (TaskStoreView, Seq<MergeOutcome>)
    decreases entries.len(),
{
    if entries.len() == 0 {
        (store, Seq::empty())
    } else {
        let (before, outcomes) = put_span(store, entries.drop_last());
        let last = entries.last();
        let (after, outcome) = put_entry(
            before,
            last.bucket@,
            last.value@,
            report_ids(last.reports@),
        );
        (after, outcomes.push(outcome))
    }
}

/// Whether one of the buckets has been collected.
pub open spec fn overlaps(
    shares: Map<DapBatchBucketView, AggStoreView>,
    buckets: Seq<DapBatchBucketView>,
) -> bool {
    exists|i: int|
        0 <= i < buckets.len() && shares.contains_key(#[trigger] buckets[i])
            && shares[buckets[i]].collected
}

/// The store in which each of the buckets is collected. What a bucket holds
/// stays; a bucket that held nothing holds the aggregate share of no
/// reports.
pub open spec fn marked_collected(
    shares: Map<DapBatchBucketView, AggStoreView>,
    buckets: Seq<DapBatchBucketView>,
) -> Map<DapBatchBucketView, AggStoreView> {
    Map::new(
        |b: DapBatchBucketView| shares.contains_key(b) || buckets.contains(b),
        |b: DapBatchBucketView|
            if buckets.contains(b) {
                AggStoreView { agg_share: agg_store_of(shares, b).agg_share, collected: true }
            } else {
                shares[b]
            },
    )
}

/// The aggregate shares of the buckets merged one after the other, starting
/// from the aggregate share of no reports; none where two cannot be merged.
pub open spec fn summed(
    shares: Map<DapBatchBucketView, AggStoreView>,
    buckets: Seq<DapBatchBucketView>,
) -> Option<DapAggregateShareView>
    decreases buckets.len(),
{
    if buckets.len() == 0 {
        Some(empty_share())
    } else {
        match summed(shares, buckets.drop_last()) {
            None => None,
            Some(sum) => if shares.contains_key(buckets.last()) {
                merged(sum, shares[buckets.last()].agg_share)
            } else {
                Some(sum)
            },
        }
    }
}

/// A report that was processed before is found among the replays of any
/// list of reports that holds it.
pub proof fn lemma_replayed_contains(ids: Seq<Seq<u8>>, processed: Set<Seq<u8>>, id: Seq<u8>)
    requires
        ids.contains(id),
        processed.contains(id),
    ensures
        replayed(ids, processed).contains(id),
    decreases ids.len(),
{
    let before = replayed(ids.drop_last(), processed);
    if ids.last() == id {
        if before.contains(id) {
        } else {
            assert(before.push(id).last() == id);
        }
    } else {
        let i = choose|i: int| 0 <= i < ids.len() && ids[i] == id;
        assert(ids.drop_last()[i] == id);
        lemma_replayed_contains(ids.drop_last(), processed, id);
        let j = choose|j: int| 0 <= j < before.len() && before[j] == id;
        if processed.contains(ids.last()) && !before.contains(ids.last()) {
            assert(before.push(ids.last())[j] == id);
        }
    }
}

/// The replays are reports of the list that were processed before, each
/// once.
pub proof fn lemma_replayed_sound(ids: Seq<Seq<u8>>, processed: Set<Seq<u8>>)
    ensures
        forall|j: int|
            0 <= j < replayed(ids, processed).len() ==> processed.contains(
                #[trigger] replayed(ids, processed)[j],
            ) && ids.contains(replayed(ids, processed)[j]),
        replayed(ids, processed).no_duplicates(),
    decreases ids.len(),
{
    if ids.len() > 0 {
        let before = replayed(ids.drop_last(), processed);
        lemma_replayed_sound(ids.drop_last(), processed);
        assert forall|j: int| 0 <= j < replayed(ids, processed).len() implies processed.contains(
            #[trigger] replayed(ids, processed)[j],
        ) && ids.contains(replayed(ids, processed)[j]) by {
            if j < before.len() {
                let id = before[j];
                let i = choose|i: int| 0 <= i < ids.drop_last().len() && ids.drop_last()[i] == id;
                assert(ids[i] == id);
            } else {
                assert(ids[ids.len() - 1] == ids.last());
            }
        }
    }
}

/// A report contributes to at most one aggregate share: once a report is
/// processed, an aggregate share that stands for it is refused as a replay
/// that names the report, and the store stays as it is.
pub proof fn lemma_replay_is_refused(
    store: TaskStoreView,
    bucket: DapBatchBucketView,
    delta: DapAggregateShareView,
    ids: Seq<Seq<u8>>,
    id: Seq<u8>,
)
    requires
        store.processed.contains(id),
        ids.contains(id),
    ensures
        put_entry(store, bucket, delta, ids).0 == store,
        put_entry(store, bucket, delta, ids).1 matches MergeOutcome::ReplaysDetected(replays)
            && replays.contains(id),
{
    lemma_replayed_contains(ids, store.processed, id);
}

/// When an aggregate share is merged, each of its reports is processed
/// from then on, and what was processed before stays so.
pub proof fn lemma_merged_reports_are_processed(
    store: TaskStoreView,
    bucket: DapBatchBucketView,
    delta: DapAggregateShareView,
    ids: Seq<Seq<u8>>,
)
    ensures
        put_entry(store, bucket, delta, ids).1 is Merged ==> forall|id: Seq<u8>|
            ids.contains(id) ==> #[trigger] put_entry(
                store,
                bucket,
                delta,
                ids,
            ).0.processed.contains(id),
        forall|id: Seq<u8>|
            store.processed.contains(id) ==> #[trigger] put_entry(
                store,
                bucket,
                delta,
                ids,
            ).0.processed.contains(id),
        put_entry(store, bucket, delta, ids).1 is Merged ==> forall|id: Seq<u8>|
            ids.contains(id) ==> !store.processed.contains(id),
{
    if put_entry(store, bucket, delta, ids).1 is Merged {
        assert forall|id: Seq<u8>| ids.contains(id) implies !store.processed.contains(id) by {
            if store.processed.contains(id) {
                lemma_replayed_contains(ids, store.processed, id);
            }
        }
    }
}

/// Of two aggregate shares that stand for the same report, put one after
/// the other, at most the first is merged.
pub proof fn lemma_one_of_two_succeeds(
    store: TaskStoreView,
    bucket1: DapBatchBucketView,
    delta1: DapAggregateShareView,
    ids1: Seq<Seq<u8>>,
    bucket2: DapBatchBucketView,
    delta2: DapAggregateShareView,
    ids2: Seq<Seq<u8>>,
    id: Seq<u8>,
)
    requires
        ids1.contains(id),
        ids2.contains(id),
    ensures
        ({
            let (after, first) = put_entry(store, bucket1, delta1, ids1);
            let (last, second) = put_entry(after, bucket2, delta2, ids2);
            first is Merged ==> second is ReplaysDetected && last == after
        }),
{
    let (after, first) = put_entry(store, bucket1, delta1, ids1);
    if first is Merged {
        lemma_merged_reports_are_processed(store, bucket1, delta1, ids1);
        lemma_replay_is_refused(after, bucket2, delta2, ids2, id);
    }
}

/// A collected bucket is frozen: no aggregate share is merged into it, and
/// putting one changes nothing.
pub proof fn lemma_collected_bucket_is_frozen(
    store: TaskStoreView,
    bucket: DapBatchBucketView,
    delta: DapAggregateShareView,
    ids: Seq<Seq<u8>>,
)
    requires
        store.shares.contains_key(bucket),
        store.shares[bucket].collected,
    ensures
        put_entry(store, bucket, delta, ids).0 == store,
        replayed(ids, store.processed).len() == 0 ==> put_entry(store, bucket, delta, ids).1
            is AlreadyCollected,
        replayed(ids, store.processed).len() > 0 ==> put_entry(store, bucket, delta, ids).1
            is ReplaysDetected,
{
}

/// After the buckets were marked as collected, each of them is collected
/// and frozen, and what it held is still there.
pub proof fn lemma_marked_buckets_are_collected(
    shares: Map<DapBatchBucketView, AggStoreView>,
    buckets: Seq<DapBatchBucketView>,
    i: int,
)
    requires
        0 <= i < buckets.len(),
    ensures
        marked_collected(shares, buckets).contains_key(buckets[i]),
        marked_collected(shares, buckets)[buckets[i]].collected,
        marked_collected(shares, buckets)[buckets[i]].agg_share == agg_store_of(
            shares,
            buckets[i],
        ).agg_share,
        overlaps(marked_collected(shares, buckets), buckets),
{
    assert(buckets.contains(buckets[i]));
}

/// Putting an aggregate share to a bucket changes nothing that another
/// bucket holds.
pub proof fn lemma_put_entry_keeps_others(
    store: TaskStoreView,
    bucket: DapBatchBucketView,
    delta: DapAggregateShareView,
    ids: Seq<Seq<u8>>,
    other: DapBatchBucketView,
)
    requires
        other != bucket,
    ensures
        agg_store_of(put_entry(store, bucket, delta, ids).0.shares, other) == agg_store_of(
            store.shares,
            other,
        ),
{
}

/// The store of one task.
pub struct TaskAggStore {
    processed: KeySet<ReportId>,
    shares: KeyMap<DapBatchBucket, AggStore>,
}

impl View for TaskAggStore {
    type V = TaskStoreView;

    closed spec fn view(&self) -> TaskStoreView {
        TaskStoreView {
            processed: self.processed@,
            shares: self.shares@.map_values(|held: AggStore| held@),
        }
    }
}

/// Whether `id` is among `ids`.
fn contains_id(ids: &Vec<ReportId>, id: &ReportId) -> (b: bool)
    ensures
        b == views(ids@).contains(id@),
{
    let mut i: usize = 0;
    while i < ids.len()
        invariant
            i <= ids@.len(),
            forall|j: int| 0 <= j < i ==> (#[trigger] views(ids@)[j]) != id@,
        decreases ids@.len() - i,
    {
        if ids[i].same(id) {
            assert(views(ids@)[i as int] == id@);
            return true;
        }
        i = i + 1;
    }
    false
}

impl TaskAggStore {
    /// The store in which nothing has happened yet.
    pub fn new() -> (store: Self)
        ensures
            store@ == empty_task_store(),
    {
        let store = TaskAggStore { processed: KeySet::new(), shares: KeyMap::new() };
        assert(store@.shares =~= Map::empty());
        store
    }

    /// Those of the reports that have been processed, each once.
    fn replayed_reports(&self, reports: &Vec<(ReportId, Time)>) -> (replays: Vec<ReportId>)
        ensures
            views(replays@) == replayed(report_ids(reports@), self@.processed),
    {
        let ghost ids = report_ids(reports@);
        let mut replays: Vec<ReportId> = Vec::new();
        let mut i: usize = 0;
        assert(ids.take(0) =~= Seq::empty());
        assert(views(replays@) =~= Seq::empty());
        while i < reports.len()
            invariant
                i <= reports@.len(),
                ids == report_ids(reports@),
                views(replays@) == replayed(ids.take(i as int), self@.processed),
            decreases reports@.len() - i,
        {
            let id = reports[i].0;
            let ghost before = replays@;
            proof {
                assert(ids.take(i + 1).drop_last() =~= ids.take(i as int));
                assert(ids.take(i + 1).last() == id@);
            }
            if self.processed.contains(&id) && !contains_id(&replays, &id) {
                replays.push(id);
                assert(views(replays@) =~= views(before).push(id@));
            }
            i = i + 1;
        }
        assert(ids.take(i as int) =~= ids);
        replays
    }

    /// Counts the reports as processed.
    fn mark_processed(&mut self, reports: &Vec<(ReportId, Time)>)
        ensures
            final(self)@.processed == old(self)@.processed.union(report_ids(reports@).to_set()),
            final(self).shares == old(self).shares,
    {
        let ghost ids = report_ids(reports@);
        let mut i: usize = 0;
        assert(self@.processed =~= old(self)@.processed.union(ids.take(0).to_set()));
        while i < reports.len()
            invariant
                i <= reports@.len(),
                ids == report_ids(reports@),
                self.shares == old(self).shares,
                self@.processed == old(self)@.processed.union(ids.take(i as int).to_set()),
            decreases reports@.len() - i,
        {
            let id = reports[i].0;
            self.processed.insert(id);
            proof {
                let grown = ids.take(i + 1);
                let known = ids.take(i as int);
                assert(grown =~= known.push(id@));
                assert forall|x: Seq<u8>| grown.to_set().contains(x) <==> (known.to_set().contains(
                    x,
                ) || x == id@) by {
                    if grown.contains(x) {
                        let j = choose|j: int| 0 <= j < grown.len() && grown[j] == x;
                        if j < known.len() {
                            assert(known[j] == x);
                        }
                    }
                    if known.contains(x) {
                        let j = choose|j: int| 0 <= j < known.len() && known[j] == x;
                        assert(grown[j] == x);
                    }
                    if x == id@ {
                        assert(grown[i as int] == x);
                    }
                }
                assert(self@.processed =~= old(self)@.processed.union(grown.to_set()));
            }
            i = i + 1;
        }
        assert(ids.take(i as int) =~= ids);
    }

    /// Puts the aggregate share of an entry to its bucket, if it can be:
    /// none of its reports was processed before, the bucket is not
    /// collected and the shares can be added. Else nothing changes.
    pub fn try_put_entry(&mut self, entry: DapAggregateSpanEntry<DapAggregateShare>) -> (out:
        DapAggregateSpanEntry<Result<(), MergeAggShareError>>)
        ensures
            (final(self)@, merge_outcome(out.value)) == put_entry(
                old(self)@,
                entry.bucket@,
                entry.value@,
                report_ids(entry.reports@),
            ),
            out.bucket == entry.bucket,
            out.reports == entry.reports,
            out.value matches Err(MergeAggShareError::Other(e)) ==> e.is_fatal(
                "invalid aggregate share merge"@,
            ),
    {
        let DapAggregateSpanEntry { bucket, value, reports } = entry;
        let replays = self.replayed_reports(&reports);
        if replays.len() > 0 {
            return DapAggregateSpanEntry {
                bucket,
                value: Err(MergeAggShareError::ReplaysDetected(replays)),
                reports,
            };
        }
        let mut share = match self.shares.get(&bucket) {
            Some(held) => {
                if held.collected {
                    return DapAggregateSpanEntry {
                        bucket,
                        value: Err(MergeAggShareError::AlreadyCollected),
                        reports,
                    };
                }
                held.agg_share.clone()
            },
            None => DapAggregateShare::default(),
        };
        match share.merge(value) {
            Err(e) => DapAggregateSpanEntry {
                bucket,
                value: Err(MergeAggShareError::Other(e)),
                reports,
            },
            Ok(_) => {
                self.mark_processed(&reports);
                let held = AggStore { agg_share: share, collected: false };
                self.shares.insert(bucket, held);
                assert(self@.shares =~= old(self)@.shares.insert(bucket@, held@));
                DapAggregateSpanEntry { bucket, value: Ok(()), reports }
            },
        }
    }

    /// Puts the aggregate shares of a span to their buckets, one after the
    /// other, and says for each bucket how that ended.
    pub fn try_put_span(&mut self, span: DapAggregateSpan<DapAggregateShare>) -> (out:
        DapAggregateSpan<Result<(), MergeAggShareError>>)
        ensures
            (final(self)@, span_outcomes(out.span@)) == put_span(old(self)@, span.span@),
            out.span@.len() == span.span@.len(),
            forall|i: int|
                0 <= i < span.span@.len() ==> (#[trigger] out.span@[i]).bucket
                    == span.span@[i].bucket && out.span@[i].reports == span.span@[i].reports,
    {
        let ghost all = span.span@;
        let mut entries = Fifo::from_vec(span.span);
        let mut out: Vec<DapAggregateSpanEntry<Result<(), MergeAggShareError>>> = Vec::new();
        assert(all.take(0) =~= Seq::empty());
        assert(span_outcomes(out@) =~= Seq::empty());
        while entries.len() > 0
            invariant
                out@.len() + entries@.len() == all.len(),
                entries@ == all.skip(out@.len() as int),
                (self@, span_outcomes(out@)) == put_span(old(self)@, all.take(out@.len() as int)),
                forall|i: int|
                    0 <= i < out@.len() ==> (#[trigger] out@[i]).bucket == all[i].bucket
                        && out@[i].reports == all[i].reports,
            decreases entries@.len(),
        {
            let ghost n = out@.len() as int;
            let ghost done = out@;
            let entry = entries.pop_front();
            proof {
                assert(entry == all[n]);
                assert(entries@ =~= all.skip(n + 1));
                assert(all.take(n + 1).drop_last() =~= all.take(n));
                assert(all.take(n + 1).last() == entry);
            }
            let result = self.try_put_entry(entry);
            out.push(result);
            assert(span_outcomes(out@) =~= span_outcomes(done).push(merge_outcome(result.value)));
        }
        assert(all.take(out@.len() as int) =~= all);
        DapAggregateSpan { span: out }
    }

    /// Whether the bucket has been collected.
    pub fn is_collected(&self, bucket: &DapBatchBucket) -> (b: bool)
        ensures
            b == agg_store_of(self@.shares, bucket@).collected,
    {
        match self.shares.get(bucket) {
            Some(held) => held.collected,
            None => false,
        }
    }

    /// Whether the store holds anything for the bucket.
    pub fn holds_bucket(&self, bucket: &DapBatchBucket) -> (b: bool)
        ensures
            b == self@.shares.contains_key(bucket@),
    {
        self.shares.contains_key(bucket)
    }

    /// Whether one of the buckets has been collected.
    pub fn is_batch_overlapping(&self, buckets: &Vec<DapBatchBucket>) -> (b: bool)
        ensures
            b == overlaps(self@.shares, bucket_views(buckets@)),
    {
        let mut i: usize = 0;
        while i < buckets.len()
            invariant
                i <= buckets@.len(),
                forall|j: int|
                    0 <= j < i ==> !agg_store_of(
                        self@.shares,
                        #[trigger] bucket_views(buckets@)[j],
                    ).collected,
            decreases buckets@.len() - i,
        {
            if self.is_collected(&buckets[i]) {
                assert(bucket_views(buckets@)[i as int] == buckets@[i as int]@);
                return true;
            }
            i = i + 1;
        }
        false
    }

    /// The aggregate shares of the buckets, merged. A batch of which a
    /// bucket has been collected overlaps with an earlier one and has no
    /// aggregate share.
    pub fn get_agg_share(&self, buckets: &Vec<DapBatchBucket>) -> (r: Result<
        DapAggregateShare,
        DapError,
    >)
        ensures
            match r {
                Ok(share) => {
                    &&& !overlaps(self@.shares, bucket_views(buckets@))
                    &&& summed(self@.shares, bucket_views(buckets@)) == Some(share@)
                },
                Err(e) => if overlaps(self@.shares, bucket_views(buckets@)) {
                    e == DapError::Abort(DapAbort::BatchOverlap)
                } else {
                    &&& summed(self@.shares, bucket_views(buckets@)) is None
                    &&& e.is_fatal("invalid aggregate share merge"@)
                },
            },
    {
        if self.is_batch_overlapping(buckets) {
            return Err(DapError::Abort(DapAbort::BatchOverlap));
        }
        let ghost all = bucket_views(buckets@);
        let mut agg_share = DapAggregateShare::default();
        let mut i: usize = 0;
        assert(all.take(0) =~= Seq::empty());
        while i < buckets.len()
            invariant
                i <= buckets@.len(),
                all == bucket_views(buckets@),
                !overlaps(self@.shares, all),
                summed(self@.shares, all.take(i as int)) == Some(agg_share@),
            decreases buckets@.len() - i,
        {
            proof {
                assert(all.take(i + 1).drop_last() =~= all.take(i as int));
                assert(all.take(i + 1).last() == buckets@[i as int]@);
            }
            match self.shares.get(&buckets[i]) {
                Some(held) => {
                    match agg_share.merge(held.agg_share.clone()) {
                        Ok(_) => {},
                        Err(e) => {
                            proof {
                                lemma_summed_fails_on(self@.shares, all, i as int + 1);
                            }
                            return Err(e);
                        },
                    }
                },
                None => {},
            }
            i = i + 1;
        }
        assert(all.take(i as int) =~= all);
        Ok(agg_share)
    }

    /// Marks each of the buckets as collected.
    pub fn mark_collected(&mut self, buckets: &Vec<DapBatchBucket>)
        ensures
            final(self)@.shares == marked_collected(old(self)@.shares, bucket_views(buckets@)),
            final(self)@.processed == old(self)@.processed,
    {
        let ghost all = bucket_views(buckets@);
        let ghost start = self@.shares;
        let mut i: usize = 0;
        assert(all.take(0) =~= Seq::empty());
        assert(self@.shares =~= marked_collected(start, all.take(0)));
        while i < buckets.len()
            invariant
                i <= buckets@.len(),
                all == bucket_views(buckets@),
                self.processed == old(self).processed,
                self@.shares == marked_collected(start, all.take(i as int)),
            decreases buckets@.len() - i,
        {
            let bucket = buckets[i];
            let ghost before = self@.shares;
            let agg_share = match self.shares.remove(&bucket) {
                Some(held) => held.agg_share,
                None => DapAggregateShare::default(),
            };
            let held = AggStore { agg_share, collected: true };
            self.shares.insert(bucket, held);
            proof {
                let known = all.take(i as int);
                let grown = all.take(i + 1);
                assert(grown =~= known.push(bucket@));
                assert forall|b: DapBatchBucketView| grown.contains(b) <==> (known.contains(b) || b
                    == bucket@) by {
                    if grown.contains(b) {
                        let j = choose|j: int| 0 <= j < grown.len() && grown[j] == b;
                        if j < known.len() {
                            assert(known[j] == b);
                        }
                    }
                    if known.contains(b) {
                        let j = choose|j: int| 0 <= j < known.len() && known[j] == b;
                        assert(grown[j] == b);
                    }
                    if b == bucket@ {
                        assert(grown[i as int] == b);
                    }
                }
                assert(self@.shares =~= before.insert(bucket@, held@));
                assert(held@.agg_share == agg_store_of(before, bucket@).agg_share);
                assert(agg_store_of(before, bucket@).agg_share == agg_store_of(
                    start,
                    bucket@,
                ).agg_share);
                let target = marked_collected(start, grown);
                assert forall|b: DapBatchBucketView| self@.shares.contains_key(b)
                    <==> target.contains_key(b) by {}
                assert forall|b: DapBatchBucketView| self@.shares.contains_key(b)
                    implies #[trigger] self@.shares[b] == target[b] by {
                    if b != bucket@ {
                        assert(before.contains_key(b));
                        assert(self@.shares[b] == before[b]);
                    }
                }
                assert(self@.shares =~= target);
            }
            i = i + 1;
        }
        assert(all.take(i as int) =~= all);
    }
}

/// How putting each entry of a span ended.
pub open spec fn span_outcomes(
    entries: Seq<DapAggregateSpanEntry<Result<(), MergeAggShareError>>>,
) -> Seq<MergeOutcome> {
    entries.map_values(
        |e: DapAggregateSpanEntry<Result<(), MergeAggShareError>>| merge_outcome(e.value),
    )
}

/// Where the aggregate shares of some of the buckets cannot be merged,
/// those of all of them cannot.
proof fn lemma_summed_fails_on(
    shares: Map<DapBatchBucketView, AggStoreView>,
    buckets: Seq<DapBatchBucketView>,
    n: int,
)
    requires
        0 <= n <= buckets.len(),
        summed(shares, buckets.take(n)) is None,
    ensures
        summed(shares, buckets) is None,
    decreases buckets.len(),
{
    if n < buckets.len() {
        assert(buckets.drop_last().take(n) =~= buckets.take(n));
        lemma_summed_fails_on(shares, buckets.drop_last(), n);
    } else {
        assert(buckets.take(n) =~= buckets);
    }
}

} // verus!
