//! Aggregate shares: what an aggregator has summed up for a bucket, and how
//! two of them are merged.

use crate::error::{fatal_error, DapError};
use crate::messages::{ReportId, Time};
use crate::task::DapBatchBucket;
use vstd::prelude::*;

verus! {

/// The order of the 64-bit field: `2^64 - 2^32 + 1`.
pub const FIELD64_MODULUS: u64 = 0xffff_ffff_0000_0001;

/// The order of the 128-bit field: `2^128 - 7 * 2^66 + 1`.
pub const FIELD128_MODULUS: u128 = 0xffff_ffff_ffff_ffe4_0000_0000_0000_0001;

/// The sum of two vectors over the 64-bit field, element by element; none
/// if their lengths differ.
pub open spec fn field64_sum(left: Seq<u64>, right: Seq<u64>) -> Option<Seq<u64>> {
    if left.len() != right.len() {
        None
    } else {
        Some(
            Seq::new(
                left.len(),
                |i: int| ((left[i] + right[i]) % (FIELD64_MODULUS as int)) as u64,
            ),
        )
    }
}

/// The sum of two vectors over the 128-bit field, element by element; none
/// if their lengths differ.
pub open spec fn field128_sum(left: Seq<u128>, right: Seq<u128>) -> Option<Seq<u128>> {
    if left.len() != right.len() {
        None
    } else {
        Some(
            Seq::new(
                left.len(),
                |i: int| ((left[i] + right[i]) % (FIELD128_MODULUS as int)) as u128,
            ),
        )
    }
}

/// Calls `prio::vdaf::Aggregatable::merge` on two values of
/// `prio::vdaf::AggregateShare<prio::field::Field64>`, made from the
/// integers by `Field64::from` and turned back by `u64::from`. The merge
/// fails if the lengths differ and else adds the elements in the field, so
/// that each integer of the result is the sum modulo the field's order.
#[verifier::external_body]
fn field64_merge(left: &Vec<u64>, right: &Vec<u64>) -> (sum: Option<Vec<u64>>)
    ensures
        match sum {
            Some(v) => field64_sum(left@, right@) == Some(v@),
            None => field64_sum(left@, right@) is None,
        },
{
    let elem = |x: &u64| prio::field::Field64::from(*x);
    let mut acc = prio::vdaf::AggregateShare::from(left.iter().map(elem).collect::<Vec<_>>());
    let other = prio::vdaf::AggregateShare::from(right.iter().map(elem).collect::<Vec<_>>());
    prio::vdaf::Aggregatable::merge(&mut acc, &other).ok()?;
    Some(acc.as_ref().iter().map(|x| u64::from(*x)).collect())
}

/// Calls `prio::vdaf::Aggregatable::merge` on two values of
/// `prio::vdaf::AggregateShare<prio::field::Field128>`, made from the
/// integers by `Field128::from` and turned back by `u128::from`. The merge
/// fails if the lengths differ and else adds the elements in the field, so
/// that each integer of the result is the sum modulo the field's order.
#[verifier::external_body]
fn field128_merge(left: &Vec<u128>, right: &Vec<u128>) -> (sum: Option<Vec<u128>>)
    ensures
        match sum {
            Some(v) => field128_sum(left@, right@) == Some(v@),
            None => field128_sum(left@, right@) is None,
        },
{
    let elem = |x: &u128| prio::field::Field128::from(*x);
    let mut acc = prio::vdaf::AggregateShare::from(left.iter().map(elem).collect::<Vec<_>>());
    let other = prio::vdaf::AggregateShare::from(right.iter().map(elem).collect::<Vec<_>>());
    prio::vdaf::Aggregatable::merge(&mut acc, &other).ok()?;
    Some(acc.as_ref().iter().map(|x| u128::from(*x)).collect())
}

/// The `width` low-order base-256 digits of `v`, least significant first.
pub open spec fn le_bytes(v: nat, width: nat) -> Seq<u8>
    decreases width,
{
    if width == 0 {
        Seq::empty()
    } else {
        seq![(v % 256) as u8] + le_bytes(v / 256, (width - 1) as nat)
    }
}

/// A vector over the 64-bit field as bytes: each element in eight bytes,
/// least significant first.
pub open spec fn field64_bytes(elems: Seq<u64>) -> Seq<u8>
    decreases elems.len(),
{
    if elems.len() == 0 {
        Seq::empty()
    } else {
        field64_bytes(elems.drop_last()) + le_bytes(
            (elems.last() % FIELD64_MODULUS) as nat,
            8,
        )
    }
}

/// A vector over the 128-bit field as bytes: each element in sixteen
/// bytes, least significant first.
pub open spec fn field128_bytes(elems: Seq<u128>) -> Seq<u8>
    decreases elems.len(),
{
    if elems.len() == 0 {
        Seq::empty()
    } else {
        field128_bytes(elems.drop_last()) + le_bytes(
            (elems.last() % FIELD128_MODULUS) as nat,
            16,
        )
    }
}

/// Calls `prio::codec::Encode::get_encoded` on a value of
/// `prio::vdaf::AggregateShare<prio::field::Field64>`, made from the
/// integers by `Field64::from`. The encoding writes each element as the
/// eight bytes of its residue, least significant first. The encoder of a
/// field vector has no failing path: it appends the bytes of one element
/// after the other, so the bytes are always there.
#[verifier::external_body]
fn field64_encode(elems: &Vec<u64>) -> (bytes: Option<Vec<u8>>)
    ensures
        bytes is Some,
        bytes matches Some(b) ==> b@ == field64_bytes(elems@),
{
    let elem = |x: &u64| prio::field::Field64::from(*x);
    let share = prio::vdaf::AggregateShare::from(elems.iter().map(elem).collect::<Vec<_>>());
    prio::codec::Encode::get_encoded(&share).ok()
}

/// Calls `prio::codec::Encode::get_encoded` on a value of
/// `prio::vdaf::AggregateShare<prio::field::Field128>`, made from the
/// integers by `Field128::from`. The encoding writes each element as the
/// sixteen bytes of its residue, least significant first. The encoder of a
/// field vector has no failing path: it appends the bytes of one element
/// after the other, so the bytes are always there.
#[verifier::external_body]
fn field128_encode(elems: &Vec<u128>) -> (bytes: Option<Vec<u8>>)
    ensures
        bytes is Some,
        bytes matches Some(b) ==> b@ == field128_bytes(elems@),
{
    let elem = |x: &u128| prio::field::Field128::from(*x);
    let share = prio::vdaf::AggregateShare::from(elems.iter().map(elem).collect::<Vec<_>>());
    prio::codec::Encode::get_encoded(&share).ok()
}

/// The sum of output shares, as a vector over the field of the task's
/// aggregation function.
#[derive(Debug, PartialEq, Eq)]
pub enum VdafAggregateShare {
    Field64(Vec<u64>),
    Field128(Vec<u128>),
}

/// The model of [`VdafAggregateShare`].
pub ghost enum VdafAggregateShareView {
    Field64(Seq<u64>),
    Field128(Seq<u128>),
}

impl View for VdafAggregateShare {
    type V = VdafAggregateShareView;

    open spec fn view(&self) -> VdafAggregateShareView {
        match self {
            VdafAggregateShare::Field64(v) => VdafAggregateShareView::Field64(v@),
            VdafAggregateShare::Field128(v) => VdafAggregateShareView::Field128(v@),
        }
    }
}

/// The sum of two vectors; none if they are over different fields or of
/// different lengths.
pub open spec fn vdaf_share_sum(
    left: VdafAggregateShareView,
    right: VdafAggregateShareView,
) -> Option<VdafAggregateShareView> {
    match (left, right) {
        (
            VdafAggregateShareView::Field64(l),
            VdafAggregateShareView::Field64(r),
        ) => match field64_sum(l, r) {
            Some(sum) => Some(VdafAggregateShareView::Field64(sum)),
            None => None,
        },
        (
            VdafAggregateShareView::Field128(l),
            VdafAggregateShareView::Field128(r),
        ) => match field128_sum(l, r) {
            Some(sum) => Some(VdafAggregateShareView::Field128(sum)),
            None => None,
        },
        _ => None,
    }
}

impl Clone for VdafAggregateShare {
    fn clone(&self) -> (copy: Self)
        ensures
            copy@ == self@,
    {
        match self {
            VdafAggregateShare::Field64(v) => VdafAggregateShare::Field64(
                vstd::slice::slice_to_vec(v.as_slice()),
            ),
            VdafAggregateShare::Field128(v) => VdafAggregateShare::Field128(
                vstd::slice::slice_to_vec(v.as_slice()),
            ),
        }
    }
}

impl VdafAggregateShare {
    /// The vector as the bytes that go to the collector.
    pub open spec fn spec_bytes(self) -> Seq<u8> {
        match self {
            VdafAggregateShare::Field64(v) => field64_bytes(v@),
            VdafAggregateShare::Field128(v) => field128_bytes(v@),
        }
    }

    /// The vector as the bytes that go to the collector: each element of
    /// the vector in turn. The bytes are always there.
    pub fn get_encoded(&self) -> (bytes: Option<Vec<u8>>)
        ensures
            bytes matches Some(b) && b@ == self.spec_bytes(),
    {
        match self {
            VdafAggregateShare::Field64(v) => field64_encode(v),
            VdafAggregateShare::Field128(v) => field128_encode(v),
        }
    }

    /// The sum of the two vectors.
    pub fn sum(&self, other: &VdafAggregateShare) -> (r: Option<VdafAggregateShare>)
        ensures
            match r {
                Some(sum) => vdaf_share_sum(self@, other@) == Some(sum@),
                None => vdaf_share_sum(self@, other@) is None,
            },
    {
        match (self, other) {
            (VdafAggregateShare::Field64(l), VdafAggregateShare::Field64(r)) => match field64_merge(
                l,
                r,
            ) {
                Some(sum) => Some(VdafAggregateShare::Field64(sum)),
                None => None,
            },
            (
                VdafAggregateShare::Field128(l),
                VdafAggregateShare::Field128(r),
            ) => match field128_merge(l, r) {
                Some(sum) => Some(VdafAggregateShare::Field128(sum)),
                None => None,
            },
            _ => None,
        }
    }
}

/// What an aggregator has summed up: the number of reports, the range of
/// their times, the checksum of their identifiers and the sum of their
/// output shares.
#[derive(Debug, PartialEq, Eq)]
pub struct DapAggregateShare {
    pub report_count: u64,
    pub min_time: Time,
    pub max_time: Time,
    pub checksum: [u8; 32],
    pub data: Option<VdafAggregateShare>,
}

/// The model of [`DapAggregateShare`].
pub ghost struct DapAggregateShareView {
    pub report_count: u64,
    pub min_time: Time,
    pub max_time: Time,
    pub checksum: Seq<u8>,
    pub data: Option<VdafAggregateShareView>,
}

impl View for DapAggregateShare {
    type V = DapAggregateShareView;

    open spec fn view(&self) -> DapAggregateShareView {
        DapAggregateShareView {
            report_count: self.report_count,
            min_time: self.min_time,
            max_time: self.max_time,
            checksum: self.checksum@,
            data: match self.data {
                Some(data) => Some(data@),
                None => None,
            },
        }
    }
}

/// The aggregate share of no reports.
pub open spec fn empty_share() -> DapAggregateShareView {
    DapAggregateShareView {
        report_count: 0,
        min_time: 0,
        max_time: 0,
        checksum: Seq::new(32, |i: int| 0u8),
        data: None,
    }
}

/// The checksums combined: byte by byte, the exclusive or.
pub open spec fn checksum_xor(left: Seq<u8>, right: Seq<u8>) -> Seq<u8> {
    Seq::new(32, |i: int| left[i] ^ right[i])
}

/// The sum of the output shares of two aggregate shares, either of which
/// may have none yet; the outer option is none if the two cannot be added.
pub open spec fn merged_data(
    left: Option<VdafAggregateShareView>,
    right: Option<VdafAggregateShareView>,
) -> Option<Option<VdafAggregateShareView>> {
    match (left, right) {
        (_, None) => Some(left),
        (None, Some(_)) => Some(right),
        (Some(l), Some(r)) => match vdaf_share_sum(l, r) {
            Some(sum) => Some(Some(sum)),
            None => None,
        },
    }
}

/// The two aggregate shares merged: the reports counted together, the range
/// of times widened, the checksums combined and the output shares added.
/// None if the output shares cannot be added or the count would pass
/// `u64::MAX`.
pub open spec fn merged(left: DapAggregateShareView, right: DapAggregateShareView) -> Option<
    DapAggregateShareView,
> {
    match merged_data(left.data, right.data) {
        None => None,
        Some(data) => if left.report_count + right.report_count > u64::MAX {
            None
        } else {
            Some(
                DapAggregateShareView {
                    report_count: (left.report_count + right.report_count) as u64,
                    min_time: if left.report_count == 0 {
                        right.min_time
                    } else if right.report_count == 0 {
                        left.min_time
                    } else if left.min_time <= right.min_time {
                        left.min_time
                    } else {
                        right.min_time
                    },
                    max_time: if left.report_count == 0 {
                        right.max_time
                    } else if right.report_count == 0 {
                        left.max_time
                    } else if left.max_time >= right.max_time {
                        left.max_time
                    } else {
                        right.max_time
                    },
                    checksum: checksum_xor(left.checksum, right.checksum),
                    data,
                },
            )
        },
    }
}

/// Whether an aggregate share is one that merging yields: the checksum has
/// 32 bytes, and while no report is counted the range of times is empty.
pub open spec fn share_wf(share: DapAggregateShareView) -> bool {
    &&& share.checksum.len() == 32
    &&& share.report_count == 0 ==> share.min_time == 0 && share.max_time == 0
}

impl Default for DapAggregateShare {
    fn default() -> (share: Self)
        ensures
            share@ == empty_share(),
    {
        let share = DapAggregateShare {
            report_count: 0,
            min_time: 0,
            max_time: 0,
            checksum: [0u8; 32],
            data: None,
        };
        assert(share@.checksum =~= empty_share().checksum);
        share
    }
}

impl Clone for DapAggregateShare {
    fn clone(&self) -> (copy: Self)
        ensures
            copy@ == self@,
    {
        DapAggregateShare {
            report_count: self.report_count,
            min_time: self.min_time,
            max_time: self.max_time,
            checksum: self.checksum,
            data: match &self.data {
                Some(data) => Some(data.clone()),
                None => None,
            },
        }
    }
}

impl DapAggregateShare {
    /// Whether no report is counted in the share.
    pub fn is_empty(&self) -> (b: bool)
        ensures
            b == (self@.report_count == 0),
    {
        self.report_count == 0
    }

    /// Merges `other` into the share. Where that cannot be done the share
    /// stays as it was.
    pub fn merge(&mut self, other: DapAggregateShare) -> (r: Result<(), DapError>)
        ensures
            match r {
                Ok(_) => merged(old(self)@, other@) == Some(final(self)@),
                Err(e) => {
                    &&& merged(old(self)@, other@) is None
                    &&& final(self)@ == old(self)@
                    &&& e.is_fatal("invalid aggregate share merge"@)
                },
            },
    {
        let ghost left = self@;
        let ghost right = other@;
        let data = match (&self.data, other.data) {
            (None, right_data) => right_data,
            (Some(l), None) => Some(l.clone()),
            (Some(l), Some(r)) => match l.sum(&r) {
                Some(sum) => Some(sum),
                None => {
                    return Err(fatal_error("invalid aggregate share merge"));
                },
            },
        };
        let report_count = match self.report_count.checked_add(other.report_count) {
            Some(n) => n,
            None => {
                return Err(fatal_error("invalid aggregate share merge"));
            },
        };
        let mut checksum: [u8; 32] = [0u8; 32];
        let mut i: usize = 0;
        while i < 32
            invariant
                i <= 32,
                forall|j: int|
                    0 <= j < i ==> checksum@[j] == self.checksum@[j] ^ other.checksum@[j],
            decreases 32 - i,
        {
            checksum[i] = self.checksum[i] ^ other.checksum[i];
            i = i + 1;
        }
        assert(checksum@ =~= checksum_xor(left.checksum, right.checksum));
        if self.report_count == 0 {
            self.min_time = other.min_time;
            self.max_time = other.max_time;
        } else if other.report_count > 0 {
            if other.min_time < self.min_time {
                self.min_time = other.min_time;
            }
            if other.max_time > self.max_time {
                self.max_time = other.max_time;
            }
        }
        self.report_count = report_count;
        self.checksum = checksum;
        self.data = data;
        Ok(())
    }
}

/// Two aggregate shares merged, where both are there.
pub open spec fn merged_opt(
    left: Option<DapAggregateShareView>,
    right: Option<DapAggregateShareView>,
) -> Option<DapAggregateShareView> {
    match (left, right) {
        (Some(l), Some(r)) => merged(l, r),
        _ => None,
    }
}

proof fn lemma_mod_sum_assoc(l: int, r: int, t: int, p: int)
    requires
        p > 0,
    ensures
        0 <= (l + r) % p < p,
        ((l + r) % p + t) % p == (l + (r + t) % p) % p,
        (l + r) % p == (r + l) % p,
{
    vstd::arithmetic::div_mod::lemma_mod_bound(l + r, p);
    vstd::arithmetic::div_mod::lemma_add_mod_noop_right(t, l + r, p);
    vstd::arithmetic::div_mod::lemma_add_mod_noop_right(l, r + t, p);
    assert(t + (l + r) % p == (l + r) % p + t);
    assert(t + (l + r) == l + (r + t));
}

proof fn lemma_field64_sum_laws(a: Seq<u64>, b: Seq<u64>, c: Seq<u64>)
    ensures
        field64_sum(a, b) == field64_sum(b, a),
        field64_sum(a, b) matches Some(ab) ==> ab.len() == a.len(),
        a.len() == b.len() && b.len() == c.len() ==> field64_sum(field64_sum(a, b)->0, c)
            == field64_sum(a, field64_sum(b, c)->0),
{
    let p = FIELD64_MODULUS as int;
    if a.len() == b.len() {
        assert forall|i: int| 0 <= i < a.len() implies (#[trigger] field64_sum(a, b)->0[i])
            == field64_sum(b, a)->0[i] by {
            lemma_mod_sum_assoc(a[i] as int, b[i] as int, 0, p);
        }
        assert(field64_sum(a, b)->0 =~= field64_sum(b, a)->0);
        if b.len() == c.len() {
            let ab = field64_sum(a, b)->0;
            let bc = field64_sum(b, c)->0;
            assert forall|i: int| 0 <= i < a.len() implies (#[trigger] field64_sum(ab, c)->0[i])
                == field64_sum(a, bc)->0[i] by {
                lemma_mod_sum_assoc(a[i] as int, b[i] as int, c[i] as int, p);
                lemma_mod_sum_assoc(b[i] as int, c[i] as int, 0, p);
            }
            assert(field64_sum(ab, c)->0 =~= field64_sum(a, bc)->0);
        }
    }
}

proof fn lemma_field128_sum_laws(a: Seq<u128>, b: Seq<u128>, c: Seq<u128>)
    ensures
        field128_sum(a, b) == field128_sum(b, a),
        field128_sum(a, b) matches Some(ab) ==> ab.len() == a.len(),
        a.len() == b.len() && b.len() == c.len() ==> field128_sum(field128_sum(a, b)->0, c)
            == field128_sum(a, field128_sum(b, c)->0),
{
    let p = FIELD128_MODULUS as int;
    if a.len() == b.len() {
        assert forall|i: int| 0 <= i < a.len() implies (#[trigger] field128_sum(a, b)->0[i])
            == field128_sum(b, a)->0[i] by {
            lemma_mod_sum_assoc(a[i] as int, b[i] as int, 0, p);
        }
        assert(field128_sum(a, b)->0 =~= field128_sum(b, a)->0);
        if b.len() == c.len() {
            let ab = field128_sum(a, b)->0;
            let bc = field128_sum(b, c)->0;
            assert forall|i: int| 0 <= i < a.len() implies (#[trigger] field128_sum(ab, c)->0[i])
                == field128_sum(a, bc)->0[i] by {
                lemma_mod_sum_assoc(a[i] as int, b[i] as int, c[i] as int, p);
                lemma_mod_sum_assoc(b[i] as int, c[i] as int, 0, p);
            }
            assert(field128_sum(ab, c)->0 =~= field128_sum(a, bc)->0);
        }
    }
}

proof fn lemma_vdaf_share_sum_laws(
    a: VdafAggregateShareView,
    b: VdafAggregateShareView,
    c: VdafAggregateShareView,
)
    ensures
        vdaf_share_sum(a, b) == vdaf_share_sum(b, a),
        match (vdaf_share_sum(a, b), vdaf_share_sum(b, c)) {
            (Some(ab), Some(bc)) => vdaf_share_sum(ab, c) == vdaf_share_sum(a, bc),
            (Some(ab), None) => vdaf_share_sum(ab, c) is None,
            (None, Some(bc)) => vdaf_share_sum(a, bc) is None,
            (None, None) => true,
        },
{
    match (a, b, c) {
        (
            VdafAggregateShareView::Field64(x),
            VdafAggregateShareView::Field64(y),
            VdafAggregateShareView::Field64(z),
        ) => {
            lemma_field64_sum_laws(x, y, z);
            lemma_field64_sum_laws(y, z, x);
        },
        (
            VdafAggregateShareView::Field128(x),
            VdafAggregateShareView::Field128(y),
            VdafAggregateShareView::Field128(z),
        ) => {
            lemma_field128_sum_laws(x, y, z);
            lemma_field128_sum_laws(y, z, x);
        },
        (VdafAggregateShareView::Field64(x), VdafAggregateShareView::Field64(y), _) => {
            lemma_field64_sum_laws(x, y, x);
        },
        (VdafAggregateShareView::Field128(x), VdafAggregateShareView::Field128(y), _) => {
            lemma_field128_sum_laws(x, y, x);
        },
        (_, VdafAggregateShareView::Field64(y), VdafAggregateShareView::Field64(z)) => {
            lemma_field64_sum_laws(y, z, y);
        },
        (_, VdafAggregateShareView::Field128(y), VdafAggregateShareView::Field128(z)) => {
            lemma_field128_sum_laws(y, z, y);
        },
        _ => {},
    }
}

proof fn lemma_checksum_xor_laws(a: Seq<u8>, b: Seq<u8>, c: Seq<u8>)
    requires
        a.len() == 32,
        b.len() == 32,
        c.len() == 32,
    ensures
        checksum_xor(a, b) == checksum_xor(b, a),
        checksum_xor(checksum_xor(a, b), c) == checksum_xor(a, checksum_xor(b, c)),
        checksum_xor(a, empty_share().checksum) == a,
        checksum_xor(empty_share().checksum, a) == a,
{
    let zero = empty_share().checksum;
    assert forall|i: int| 0 <= i < 32 implies (#[trigger] checksum_xor(a, b)[i])
        == checksum_xor(b, a)[i] by {
        let x = a[i];
        let y = b[i];
        assert((x ^ y) == (y ^ x)) by (bit_vector);
    }
    assert forall|i: int| 0 <= i < 32 implies (#[trigger] checksum_xor(checksum_xor(a, b), c)[i])
        == checksum_xor(a, checksum_xor(b, c))[i] by {
        let x = a[i];
        let y = b[i];
        let z = c[i];
        assert(((x ^ y) ^ z) == (x ^ (y ^ z))) by (bit_vector);
    }
    assert forall|i: int| 0 <= i < 32 implies (#[trigger] checksum_xor(a, zero)[i]) == a[i]
        && checksum_xor(zero, a)[i] == a[i] by {
        let x = a[i];
        assert(zero[i] == 0u8);
        assert((x ^ 0u8) == x && (0u8 ^ x) == x) by (bit_vector);
    }
    assert(checksum_xor(a, b) =~= checksum_xor(b, a));
    assert(checksum_xor(checksum_xor(a, b), c) =~= checksum_xor(a, checksum_xor(b, c)));
    assert(checksum_xor(a, zero) =~= a);
    assert(checksum_xor(zero, a) =~= a);
}

/// What merging yields is well-formed again.
pub proof fn lemma_merge_wf(a: DapAggregateShareView, b: DapAggregateShareView)
    requires
        share_wf(a),
        share_wf(b),
    ensures
        merged(a, b) matches Some(sum) ==> share_wf(sum),
        share_wf(empty_share()),
{
}

/// Merging the aggregate share of no reports changes nothing.
pub proof fn lemma_merge_empty(a: DapAggregateShareView)
    requires
        share_wf(a),
    ensures
        merged(a, empty_share()) == Some(a),
        merged(empty_share(), a) == Some(a),
{
    lemma_checksum_xor_laws(a.checksum, a.checksum, a.checksum);
}

/// Merging is commutative.
pub proof fn lemma_merge_commutes(a: DapAggregateShareView, b: DapAggregateShareView)
    requires
        share_wf(a),
        share_wf(b),
    ensures
        merged(a, b) == merged(b, a),
{
    lemma_checksum_xor_laws(a.checksum, b.checksum, a.checksum);
    if let (Some(x), Some(y)) = (a.data, b.data) {
        lemma_vdaf_share_sum_laws(x, y, x);
    }
}

/// Merging is associative: three aggregate shares come to the same,
/// whichever two are merged first, and fail to merge in the same cases.
pub proof fn lemma_merge_associates(
    a: DapAggregateShareView,
    b: DapAggregateShareView,
    c: DapAggregateShareView,
)
    requires
        share_wf(a),
        share_wf(b),
        share_wf(c),
    ensures
        merged_opt(merged(a, b), Some(c)) == merged_opt(Some(a), merged(b, c)),
{
    lemma_checksum_xor_laws(a.checksum, b.checksum, c.checksum);
    if let (Some(x), Some(y), Some(z)) = (a.data, b.data, c.data) {
        lemma_vdaf_share_sum_laws(x, y, z);
    }
}

/// Why an aggregate share could not be merged into the store.
#[derive(Debug, PartialEq, Eq)]
pub enum MergeAggShareError {
    /// The bucket has been collected.
    AlreadyCollected,
    /// Some of the reports have been aggregated before: these, each once,
    /// in the order in which they stand in the span.
    ReplaysDetected(Vec<ReportId>),
    /// The shares cannot be added.
    Other(DapError),
}

/// What a bucket of the store holds.
#[derive(Debug, Default, PartialEq, Eq)]
pub struct AggStore {
    pub agg_share: DapAggregateShare,
    pub collected: bool,
}

/// The model of [`AggStore`].
pub ghost struct AggStoreView {
    pub agg_share: DapAggregateShareView,
    pub collected: bool,
}

impl View for AggStore {
    type V = AggStoreView;

    open spec fn view(&self) -> AggStoreView {
        AggStoreView { agg_share: self.agg_share@, collected: self.collected }
    }
}

/// What a bucket holds of which nothing is known yet.
pub open spec fn empty_agg_store() -> AggStoreView {
    AggStoreView { agg_share: empty_share(), collected: false }
}

/// One bucket of a span: a value for the bucket and the reports that it
/// stands for, each with its time.
#[derive(Debug, PartialEq, Eq)]
pub struct DapAggregateSpanEntry<T> {
    pub bucket: DapBatchBucket,
    pub value: T,
    pub reports: Vec<(ReportId, Time)>,
}

/// A value for each of a number of buckets, with the reports it stands for.
#[derive(Debug, PartialEq, Eq)]
pub struct DapAggregateSpan<T> {
    pub span: Vec<DapAggregateSpanEntry<T>>,
}

/// The identifiers of the reports.
pub open spec fn report_ids(reports: Seq<(ReportId, Time)>) -> Seq<Seq<u8>> {
    reports.map_values(|r: (ReportId, Time)| r.0@)
}

impl<T> DapAggregateSpan<T> {
    /// The span of no buckets.
    pub fn new() -> (span: Self)
        ensures
            span.span@.len() == 0,
    {
        DapAggregateSpan { span: Vec::new() }
    }

    /// The number of reports of all buckets together.
    pub open spec fn spec_report_count(&self) -> nat {
        count_reports(self.span@)
    }

    /// The number of reports of all buckets together, if it can be written.
    pub fn report_count(&self) -> (n: Option<usize>)
        ensures
            match n {
                Some(n) => n == self.spec_report_count(),
                None => self.spec_report_count() > usize::MAX,
            },
    {
        let mut total: usize = 0;
        let mut i: usize = 0;
        assert(self.span@.take(0) =~= Seq::empty());
        while i < self.span.len()
            invariant
                i <= self.span@.len(),
                total == count_reports(self.span@.take(i as int)),
            decreases self.span@.len() - i,
        {
            proof {
                assert(self.span@.take(i + 1).drop_last() =~= self.span@.take(i as int));
                lemma_count_reports_grows(self.span@, i as int + 1);
            }
            total = match total.checked_add(self.span[i].reports.len()) {
                Some(total) => total,
                None => {
                    return None;
                },
            };
            i = i + 1;
        }
        assert(self.span@.take(i as int) =~= self.span@);
        Some(total)
    }
}

/// The values of the entries merged into one share, from the first entry
/// on; nothing where two of them cannot be merged.
pub open spec fn span_total(entries: Seq<DapAggregateSpanEntry<DapAggregateShare>>) -> Option<
    DapAggregateShareView,
>
    decreases entries.len(),
{
    if entries.len() == 0 {
        Some(empty_share())
    } else {
        merged_opt(span_total(entries.drop_last()), Some(entries.last().value@))
    }
}

proof fn lemma_span_total_fails_on(
    entries: Seq<DapAggregateSpanEntry<DapAggregateShare>>,
    n: int,
)
    requires
        0 <= n <= entries.len(),
        span_total(entries.take(n)) is None,
    ensures
        span_total(entries) is None,
    decreases entries.len() - n,
{
    if n < entries.len() {
        assert(entries.take(n + 1).drop_last() =~= entries.take(n));
        lemma_span_total_fails_on(entries, n + 1);
    } else {
        assert(entries.take(n) =~= entries);
    }
}

impl DapAggregateSpan<DapAggregateShare> {
    /// Merges the shares of all buckets into one.
    pub fn collapsed(&self) -> (r: Result<DapAggregateShare, DapError>)
        ensures
            match r {
                Ok(total) => span_total(self.span@) == Some(total@),
                Err(e) => {
                    &&& span_total(self.span@) is None
                    &&& e.is_fatal("invalid aggregate share merge"@)
                },
            },
    {
        let mut total = DapAggregateShare::default();
        let mut i: usize = 0;
        assert(self.span@.take(0) =~= Seq::empty());
        while i < self.span.len()
            invariant
                i <= self.span@.len(),
                span_total(self.span@.take(i as int)) == Some(total@),
            decreases self.span@.len() - i,
        {
            proof {
                assert(self.span@.take(i + 1).drop_last() =~= self.span@.take(i as int));
            }
            match total.merge(self.span[i].value.clone()) {
                Ok(_) => {},
                Err(e) => {
                    proof {
                        lemma_span_total_fails_on(self.span@, i + 1);
                    }
                    return Err(e);
                },
            }
            i = i + 1;
        }
        assert(self.span@.take(i as int) =~= self.span@);
        Ok(total)
    }
}

/// The number of reports of the entries together.
pub open spec fn count_reports<T>(entries: Seq<DapAggregateSpanEntry<T>>) -> nat
    decreases entries.len(),
{
    if entries.len() == 0 {
        0
    } else {
        count_reports(entries.drop_last()) + entries.last().reports@.len()
    }
}

proof fn lemma_count_reports_grows<T>(entries: Seq<DapAggregateSpanEntry<T>>, n: int)
    requires
        0 <= n <= entries.len(),
    ensures
        count_reports(entries.take(n)) <= count_reports(entries),
    decreases entries.len(),
{
    if n < entries.len() {
        lemma_count_reports_grows(entries.drop_last(), n);
        assert(entries.drop_last().take(n) =~= entries.take(n));
    } else {
        assert(entries.take(n) =~= entries);
    }
}

proof fn lemma_le_bytes_len(v: nat, width: nat)
    ensures
        le_bytes(v, width).len() == width,
    decreases width,
{
    if width > 0 {
        lemma_le_bytes_len(v / 256, (width - 1) as nat);
    }
}

/// Each element of a vector takes eight bytes, or sixteen.
pub proof fn lemma_field_bytes_len(short: Seq<u64>, long: Seq<u128>)
    ensures
        field64_bytes(short).len() == 8 * short.len(),
        field128_bytes(long).len() == 16 * long.len(),
    decreases short.len() + long.len(),
{
    if short.len() > 0 {
        lemma_field_bytes_len(short.drop_last(), long);
        lemma_le_bytes_len((short.last() % FIELD64_MODULUS) as nat, 8);
    } else if long.len() > 0 {
        lemma_field_bytes_len(short, long.drop_last());
        lemma_le_bytes_len((long.last() % FIELD128_MODULUS) as nat, 16);
    }
}

} // verus!
