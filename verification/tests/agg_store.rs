use daphne::agg_share::{
    AggStore, DapAggregateShare, DapAggregateSpan, DapAggregateSpanEntry, MergeAggShareError,
    VdafAggregateShare, FIELD128_MODULUS, FIELD64_MODULUS,
};
use daphne::error::{DapAbort, DapError};
use daphne::messages::Id;
use daphne::store::TaskAggStore;
use daphne::task::DapBatchBucket;

fn share(count: u64, min: u64, max: u64, checksum: u8, data: &[u64]) -> DapAggregateShare {
    DapAggregateShare {
        report_count: count,
        min_time: min,
        max_time: max,
        checksum: [checksum; 32],
        data: Some(VdafAggregateShare::Field64(data.to_vec())),
    }
}

fn window(batch_window: u64) -> DapBatchBucket {
    DapBatchBucket::TimeInterval { batch_window }
}

fn entry(
    bucket: DapBatchBucket,
    value: DapAggregateShare,
    reports: &[(u8, u64)],
) -> DapAggregateSpanEntry<DapAggregateShare> {
    DapAggregateSpanEntry {
        bucket,
        value,
        reports: reports.iter().map(|(id, time)| (Id([*id; 32]), *time)).collect(),
    }
}

#[test]
fn field64_sums_wrap_at_the_order_of_the_field() {
    assert_eq!(FIELD64_MODULUS, 18446744069414584321);
    let left = VdafAggregateShare::Field64(vec![1, FIELD64_MODULUS - 1, 5, 0]);
    let right = VdafAggregateShare::Field64(vec![2, 2, FIELD64_MODULUS - 5, 0]);
    assert_eq!(left.sum(&right), Some(VdafAggregateShare::Field64(vec![3, 1, 0, 0])));
    // Numbers at or above the order stand for their remainders.
    let big = VdafAggregateShare::Field64(vec![u64::MAX, FIELD64_MODULUS]);
    let one = VdafAggregateShare::Field64(vec![1, 1]);
    assert_eq!(
        big.sum(&one),
        Some(VdafAggregateShare::Field64(vec![u64::MAX - FIELD64_MODULUS + 1, 1]))
    );
}

#[test]
fn field128_sums_wrap_at_the_order_of_the_field() {
    assert_eq!(FIELD128_MODULUS, 340282366920938462946865773367900766209);
    let left = VdafAggregateShare::Field128(vec![1, FIELD128_MODULUS - 1, 7]);
    let right = VdafAggregateShare::Field128(vec![2, 3, FIELD128_MODULUS - 7]);
    assert_eq!(left.sum(&right), Some(VdafAggregateShare::Field128(vec![3, 2, 0])));
    let big = VdafAggregateShare::Field128(vec![u128::MAX]);
    let zero = VdafAggregateShare::Field128(vec![0]);
    assert_eq!(
        big.sum(&zero),
        Some(VdafAggregateShare::Field128(vec![u128::MAX - FIELD128_MODULUS]))
    );
}

#[test]
fn vectors_that_do_not_match_have_no_sum() {
    let two = VdafAggregateShare::Field64(vec![1, 2]);
    let three = VdafAggregateShare::Field64(vec![1, 2, 3]);
    let wide = VdafAggregateShare::Field128(vec![1, 2]);
    assert_eq!(two.sum(&three), None);
    assert_eq!(three.sum(&two), None);
    assert_eq!(two.sum(&wide), None);
    assert_eq!(wide.sum(&two), None);
    assert_eq!(
        VdafAggregateShare::Field64(vec![]).sum(&VdafAggregateShare::Field64(vec![])),
        Some(VdafAggregateShare::Field64(vec![]))
    );
}

#[test]
fn merge_counts_and_sums() {
    let mut left = share(3, 100, 200, 0b0011, &[1, 2]);
    assert_eq!(left.merge(share(2, 50, 150, 0b0101, &[10, 20])), Ok(()));
    assert_eq!(left, share(5, 50, 200, 0b0110, &[11, 22]));
    assert_eq!(left.merge(share(1, 300, 300, 0b0110, &[0, FIELD64_MODULUS - 22])), Ok(()));
    assert_eq!(left, share(6, 50, 300, 0, &[11, 0]));
    assert!(!left.is_empty());
}

#[test]
fn merge_with_nothing_changes_nothing() {
    let mut empty = DapAggregateShare::default();
    assert!(empty.is_empty());
    assert_eq!(empty.report_count, 0);
    assert_eq!(empty.data, None);
    assert_eq!(empty.merge(DapAggregateShare::default()), Ok(()));
    assert_eq!(empty, DapAggregateShare::default());
    assert_eq!(empty.merge(share(2, 50, 150, 7, &[10, 20])), Ok(()));
    assert_eq!(empty, share(2, 50, 150, 7, &[10, 20]));
    assert_eq!(empty.merge(DapAggregateShare::default()), Ok(()));
    assert_eq!(empty, share(2, 50, 150, 7, &[10, 20]));
}

#[test]
fn merge_is_commutative_and_associative_on_examples() {
    let a = || share(3, 100, 200, 0x0f, &[1, FIELD64_MODULUS - 1]);
    let b = || share(2, 50, 150, 0xf0, &[10, 20]);
    let c = || share(4, 120, 900, 0x3c, &[FIELD64_MODULUS - 5, 7]);
    let mut ab = a();
    ab.merge(b()).unwrap();
    let mut ba = b();
    ba.merge(a()).unwrap();
    assert_eq!(ab, ba);
    let mut ab_c = ab;
    ab_c.merge(c()).unwrap();
    let mut bc = b();
    bc.merge(c()).unwrap();
    let mut a_bc = a();
    a_bc.merge(bc).unwrap();
    assert_eq!(ab_c, a_bc);
    assert_eq!(ab_c, share(9, 50, 900, 0x0f ^ 0xf0 ^ 0x3c, &[6, 26]));
}

#[test]
fn merge_that_cannot_be_done_changes_nothing() {
    let mut left = share(3, 100, 200, 1, &[1, 2]);
    let err = left.merge(share(2, 50, 150, 2, &[10])).unwrap_err();
    assert_eq!(err, DapError::Fatal("invalid aggregate share merge".to_string()));
    assert_eq!(left, share(3, 100, 200, 1, &[1, 2]));

    let mut full = share(u64::MAX, 100, 200, 1, &[1, 2]);
    let err = full.merge(share(1, 50, 150, 2, &[10, 20])).unwrap_err();
    assert_eq!(err, DapError::Fatal("invalid aggregate share merge".to_string()));
    assert_eq!(full, share(u64::MAX, 100, 200, 1, &[1, 2]));
    assert_eq!(full.merge(share(0, 0, 0, 0, &[0, 0])), Ok(()));
}

#[test]
fn span_counts_its_reports() {
    let span = DapAggregateSpan {
        span: vec![
            entry(window(0), share(2, 1, 2, 0, &[1]), &[(1, 1), (2, 2)]),
            entry(window(500), share(1, 501, 501, 0, &[1]), &[(3, 501)]),
        ],
    };
    assert_eq!(span.report_count(), Some(3));
    assert_eq!(DapAggregateSpan::<DapAggregateShare>::new().report_count(), Some(0));
}

#[test]
fn shares_put_to_a_bucket_are_merged() {
    let mut store = TaskAggStore::new();
    let out = store.try_put_entry(entry(window(1000), share(2, 1000, 1100, 1, &[5]), &[(1, 1000), (2, 1100)]));
    assert_eq!(out.value, Ok(()));
    assert_eq!(out.bucket, window(1000));
    assert_eq!(out.reports, vec![(Id([1; 32]), 1000), (Id([2; 32]), 1100)]);
    let out = store.try_put_entry(entry(window(1000), share(1, 1200, 1200, 2, &[7]), &[(3, 1200)]));
    assert_eq!(out.value, Ok(()));
    assert_eq!(store.get_agg_share(&vec![window(1000)]), Ok(share(3, 1000, 1200, 3, &[12])));
    assert!(store.holds_bucket(&window(1000)));
    assert!(!store.holds_bucket(&window(1500)));
    assert!(!store.is_collected(&window(1000)));
}

#[test]
fn a_report_is_aggregated_once() {
    let mut store = TaskAggStore::new();
    let first = store.try_put_entry(entry(window(1000), share(1, 1000, 1000, 1, &[5]), &[(7, 1000)]));
    assert_eq!(first.value, Ok(()));
    // The same report again, alone and among others, to the same bucket
    // and to another.
    let again = store.try_put_entry(entry(window(1000), share(1, 1000, 1000, 1, &[5]), &[(7, 1000)]));
    assert_eq!(again.value, Err(MergeAggShareError::ReplaysDetected(vec![Id([7; 32])])));
    let among = store.try_put_entry(entry(
        window(1500),
        share(3, 1500, 1600, 1, &[9]),
        &[(8, 1500), (7, 1000), (9, 1600), (7, 1000)],
    ));
    assert_eq!(among.value, Err(MergeAggShareError::ReplaysDetected(vec![Id([7; 32])])));
    assert_eq!(store.get_agg_share(&vec![window(1000)]), Ok(share(1, 1000, 1000, 1, &[5])));
    assert!(!store.holds_bucket(&window(1500)));
    // The reports that were refused along with the replay are not marked.
    let later = store.try_put_entry(entry(window(1500), share(2, 1500, 1600, 1, &[9]), &[(8, 1500), (9, 1600)]));
    assert_eq!(later.value, Ok(()));
}

#[test]
fn a_collected_bucket_takes_no_more_shares() {
    let mut store = TaskAggStore::new();
    store.try_put_entry(entry(window(1000), share(1, 1000, 1000, 1, &[5]), &[(1, 1000)]));
    store.mark_collected(&vec![window(1000), window(1500)]);
    assert!(store.is_collected(&window(1000)));
    assert!(store.is_collected(&window(1500)));
    assert!(!store.is_collected(&window(2000)));

    let out = store.try_put_entry(entry(window(1000), share(1, 1100, 1100, 2, &[7]), &[(2, 1100)]));
    assert_eq!(out.value, Err(MergeAggShareError::AlreadyCollected));
    let out = store.try_put_entry(entry(window(1500), share(1, 1500, 1500, 2, &[7]), &[(3, 1500)]));
    assert_eq!(out.value, Err(MergeAggShareError::AlreadyCollected));
    // The reports were not marked, so they can go to another bucket.
    let out = store.try_put_entry(entry(window(2000), share(1, 1100, 1100, 2, &[7]), &[(2, 1100)]));
    assert_eq!(out.value, Ok(()));
    // A replay is told before the collection is.
    let out = store.try_put_entry(entry(window(1000), share(1, 1000, 1000, 1, &[5]), &[(1, 1000)]));
    assert_eq!(out.value, Err(MergeAggShareError::ReplaysDetected(vec![Id([1; 32])])));

    assert_eq!(
        store.get_agg_share(&vec![window(1000)]),
        Err(DapError::Abort(DapAbort::BatchOverlap))
    );
    assert_eq!(
        store.get_agg_share(&vec![window(2000), window(1500)]),
        Err(DapError::Abort(DapAbort::BatchOverlap))
    );
    assert_eq!(store.get_agg_share(&vec![window(2000)]), Ok(share(1, 1100, 1100, 2, &[7])));
}

#[test]
fn shares_that_cannot_be_added_are_not_stored() {
    let mut store = TaskAggStore::new();
    store.try_put_entry(entry(window(1000), share(1, 1000, 1000, 1, &[5]), &[(1, 1000)]));
    let out = store.try_put_entry(entry(window(1000), share(1, 1100, 1100, 2, &[7, 8]), &[(2, 1100)]));
    assert_eq!(
        out.value,
        Err(MergeAggShareError::Other(DapError::Fatal(
            "invalid aggregate share merge".to_string()
        )))
    );
    assert_eq!(store.get_agg_share(&vec![window(1000)]), Ok(share(1, 1000, 1000, 1, &[5])));
    let out = store.try_put_entry(entry(window(1000), share(1, 1100, 1100, 2, &[7]), &[(2, 1100)]));
    assert_eq!(out.value, Ok(()));
}

#[test]
fn a_span_is_put_bucket_by_bucket() {
    let mut store = TaskAggStore::new();
    store.mark_collected(&vec![window(500)]);
    let span = DapAggregateSpan {
        span: vec![
            entry(window(0), share(1, 1, 1, 1, &[1]), &[(1, 1)]),
            entry(window(500), share(1, 501, 501, 2, &[2]), &[(2, 501)]),
            entry(window(1000), share(1, 1001, 1001, 4, &[4]), &[(1, 1)]),
            entry(window(0), share(1, 2, 2, 8, &[8]), &[(3, 2)]),
        ],
    };
    let out = store.try_put_span(span);
    let results: Vec<_> = out.span.iter().map(|e| (e.bucket, e.value.clone_result())).collect();
    assert_eq!(
        results,
        vec![
            (window(0), Ok(())),
            (window(500), Err("collected".to_string())),
            (window(1000), Err("replay 01".to_string())),
            (window(0), Ok(())),
        ]
    );
    assert_eq!(out.span[2].reports, vec![(Id([1; 32]), 1)]);
    assert_eq!(store.get_agg_share(&vec![window(0), window(1000)]), Ok(share(2, 1, 2, 9, &[9])));
    assert!(store.is_batch_overlapping(&vec![window(0), window(500)]));
    assert!(!store.is_batch_overlapping(&vec![window(0), window(1000)]));
    assert!(!store.is_batch_overlapping(&vec![]));
}

trait CloneResult {
    fn clone_result(&self) -> Result<(), String>;
}

impl CloneResult for Result<(), MergeAggShareError> {
    fn clone_result(&self) -> Result<(), String> {
        match self {
            Ok(()) => Ok(()),
            Err(MergeAggShareError::AlreadyCollected) => Err("collected".to_string()),
            Err(MergeAggShareError::ReplaysDetected(ids)) => Err(format!(
                "replay {}",
                ids.iter().map(|id| format!("{:02x}", id.0[0])).collect::<Vec<_>>().join(",")
            )),
            Err(MergeAggShareError::Other(_)) => Err("other".to_string()),
        }
    }
}

#[test]
fn the_aggregate_share_of_no_buckets_is_empty() {
    let store = TaskAggStore::new();
    assert_eq!(store.get_agg_share(&vec![]), Ok(DapAggregateShare::default()));
    assert_eq!(store.get_agg_share(&vec![window(0)]), Ok(DapAggregateShare::default()));
}

#[test]
fn agg_store_starts_empty() {
    let held = AggStore::default();
    assert!(!held.collected);
    assert_eq!(held.agg_share, DapAggregateShare::default());
}

#[test]
fn vectors_are_written_least_significant_byte_first() {
    let short = VdafAggregateShare::Field64(vec![1, 0x0102030405060708, FIELD64_MODULUS, u64::MAX]);
    assert_eq!(
        short.get_encoded(),
        Some(vec![
            1, 0, 0, 0, 0, 0, 0, 0, //
            8, 7, 6, 5, 4, 3, 2, 1, //
            0, 0, 0, 0, 0, 0, 0, 0, //
            0xfe, 0xff, 0xff, 0xff, 0, 0, 0, 0,
        ])
    );
    let long = VdafAggregateShare::Field128(vec![0x0102030405060708090a0b0c0d0e0f10]);
    assert_eq!(
        long.get_encoded(),
        Some(vec![0x10, 0x0f, 0x0e, 0x0d, 0x0c, 0x0b, 0x0a, 9, 8, 7, 6, 5, 4, 3, 2, 1])
    );
    assert_eq!(VdafAggregateShare::Field64(vec![]).get_encoded(), Some(vec![]));
}

#[test]
fn every_vector_has_its_bytes() {
    let wide = VdafAggregateShare::Field128(vec![1, u128::MAX]);
    let bytes = wide.get_encoded().expect("a field vector is always written");
    assert_eq!(bytes.len(), 32);
    assert_eq!(bytes[0], 1);
    assert_eq!(&bytes[1..16], &[0u8; 15]);
    let reduced = VdafAggregateShare::Field64(vec![u64::MAX]).get_encoded();
    assert_eq!(reduced, Some(vec![0xfe, 0xff, 0xff, 0xff, 0, 0, 0, 0]));
}

#[test]
fn a_span_collapses_into_one_share() {
    let span = DapAggregateSpan {
        span: vec![
            entry(window(0), share(2, 1, 2, 1, &[1]), &[(1, 1), (2, 2)]),
            entry(window(500), share(1, 501, 501, 2, &[4]), &[(3, 501)]),
        ],
    };
    assert_eq!(span.collapsed(), Ok(share(3, 1, 501, 3, &[5])));
    assert_eq!(
        DapAggregateSpan::<DapAggregateShare>::new().collapsed(),
        Ok(DapAggregateShare::default())
    );
    let unlike = DapAggregateSpan {
        span: vec![
            entry(window(0), share(1, 1, 1, 0, &[1]), &[(1, 1)]),
            entry(window(500), share(1, 501, 501, 0, &[1, 2]), &[(2, 501)]),
        ],
    };
    assert_eq!(
        unlike.collapsed(),
        Err(DapError::Fatal("invalid aggregate share merge".to_string()))
    );
}
