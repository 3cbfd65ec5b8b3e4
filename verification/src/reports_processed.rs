//! The record of the reports that have been processed, as a store of keys
//! `processed/<report>` where `<report>` is the report's identifier in
//! hexadecimal digits.

use crate::collections::{Fifo, KeySet};
use crate::error::{fatal_error, DapError};
use vstd::prelude::*;

verus! {

/// The path of the request that marks reports as aggregated.
pub const DURABLE_REPORTS_PROCESSED_MARK_AGGREGATED: &'static str =
    "/internal/do/report_store/mark_aggregated";

/// The method of a request.
#[derive(Clone, Copy, Debug, PartialEq, Eq, Structural)]
pub enum Method {
    Get,
    Post,
    Put,
    Delete,
}

/// The key under which a report is recorded.
pub open spec fn processed_key(nonce_hex: Seq<char>) -> Seq<char> {
    "processed/"@ + nonce_hex
}

/// What marking the first `n` of the reports comes to: the keys that are
/// recorded afterwards, and those of the reports that were recorded
/// before, in their order. Of a report that is named twice the second
/// naming finds the first.
pub open spec fn marked(keys: Set<Seq<char>>, reports: Seq<Seq<char>>, n: int) -> (
    Set<Seq<char>>,
    Seq<Seq<char>>,
)
    decreases n,
{
    if n <= 0 {
        (keys, Seq::empty())
    } else {
        let (before, found) = marked(keys, reports, n - 1);
        let report = reports[n - 1];
        (
            before.insert(processed_key(report)),
            if before.contains(processed_key(report)) {
                found.push(report)
            } else {
                found
            },
        )
    }
}

/// The texts of the strings.
pub open spec fn texts(strings: Seq<String>) -> Seq<Seq<char>> {
    strings.map_values(|s: String| s@)
}

/// Tracks which reports have been processed.
pub struct ReportsProcessed {
    keys: KeySet<String>,
}

impl View for ReportsProcessed {
    type V = Set<Seq<char>>;

    closed spec fn view(&self) -> Set<Seq<char>> {
        self.keys@
    }
}

impl ReportsProcessed {
    /// A record of no reports.
    pub fn new() -> (record: Self)
        ensures
            record@ == Set::<Seq<char>>::empty(),
    {
        ReportsProcessed { keys: KeySet::new() }
    }

    /// Records the report, and hands it back if it was recorded before.
    pub fn to_checked(&mut self, nonce_hex: String) -> (r: Option<String>)
        ensures
            final(self)@ == old(self)@.insert(processed_key(nonce_hex@)),
            match r {
                Some(found) => old(self)@.contains(processed_key(nonce_hex@)) && found
                    == nonce_hex,
                None => !old(self)@.contains(processed_key(nonce_hex@)),
            },
    {
        let mut key = String::from_str("processed/");
        key.append(nonce_hex.as_str());
        if self.keys.insert(key) {
            None
        } else {
            Some(nonce_hex)
        }
    }

    /// Handles a request. The one request that is known marks a set of
    /// reports as aggregated and answers with those of them that were
    /// marked before.
    pub fn fetch(&mut self, path: &str, method: Method, nonce_hex_set: Vec<String>) -> (r: Result<
        Vec<String>,
        DapError,
    >)
        ensures
            if path@ == DURABLE_REPORTS_PROCESSED_MARK_AGGREGATED@ && method == Method::Post {
                let (keys, found) = marked(
                    old(self)@,
                    texts(nonce_hex_set@),
                    nonce_hex_set@.len() as int,
                );
                &&& final(self)@ == keys
                &&& r matches Ok(res) && texts(res@) == found
            } else {
                &&& final(self)@ == old(self)@
                &&& r matches Err(e) && e.is_fatal("ReportsProcessed: unexpected request"@)
            },
    {
        let known = String::from_str(path) == String::from_str(
            DURABLE_REPORTS_PROCESSED_MARK_AGGREGATED,
        );
        match method {
            Method::Post => {},
            _ => {
                return Err(fatal_error("ReportsProcessed: unexpected request"));
            },
        }
        if !known {
            return Err(fatal_error("ReportsProcessed: unexpected request"));
        }
        let ghost all = texts(nonce_hex_set@);
        let total = nonce_hex_set.len();
        let mut rest = Fifo::from_vec(nonce_hex_set);
        let mut res: Vec<String> = Vec::new();
        let mut n: usize = 0;
        assert(texts(res@) =~= Seq::empty());
        while n < total
            invariant
                n <= total == all.len(),
                rest@.len() == total - n,
                texts(rest@) == all.skip(n as int),
                (self@, texts(res@)) == marked(old(self)@, all, n as int),
            decreases total - n,
        {
            let ghost before = res@;
            let ghost left = rest@;
            let nonce_hex = rest.pop_front();
            proof {
                assert(nonce_hex@ == texts(left)[0]);
                assert(nonce_hex@ == all[n as int]);
                assert(rest@ =~= left.skip(1));
                assert(texts(rest@) =~= texts(left).skip(1));
                assert(texts(rest@) =~= all.skip(n + 1));
            }
            match self.to_checked(nonce_hex) {
                Some(found) => {
                    res.push(found);
                    assert(texts(res@) =~= texts(before).push(found@));
                },
                None => {},
            }
            n = n + 1;
        }
        Ok(res)
    }
}

/// A report that was marked is found by whoever marks it again.
pub proof fn lemma_marked_twice_is_found(keys: Set<Seq<char>>, report: Seq<char>)
    ensures
        ({
            let (once, first) = marked(keys, seq![report], 1);
            let (twice, second) = marked(once, seq![report], 1);
            twice == once && second == seq![report]
        }),
{
    reveal_with_fuel(marked, 2);
    let (once, first) = marked(keys, seq![report], 1);
    let (twice, second) = marked(once, seq![report], 1);
    assert(twice =~= once);
}

} // verus!
