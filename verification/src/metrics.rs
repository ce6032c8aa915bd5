//! Counters of the proxy's traffic.

use crate::json::{Json, JsonView};
use crate::text::{decimal, decimal_text, str_eq};
use vstd::prelude::*;
use vstd::string::StringExecFns;

verus! {

/// The mathematical value of [`Metrics`].
pub struct MetricsView {
    pub requests_total: u64,
    pub cache_hits: u64,
    pub cache_misses: u64,
    pub unique_hashes: Set<Seq<char>>,
}

/// Counters of requests, cache hits and cache misses, and the set of
/// request hashes seen. The counters wrap around at the top of their range.
pub struct Metrics {
    requests_total: u64,
    cache_hits: u64,
    cache_misses: u64,
    unique_hashes: Vec<String>,
}

/// A counter after one more count.
pub open spec fn bumped(counter: u64) -> u64 {
    if counter == u64::MAX {
        0
    } else {
        (counter + 1) as u64
    }
}

spec fn hash_views(hashes: Seq<String>) -> Seq<Seq<char>> {
    Seq::new(hashes.len(), |i: int| hashes[i]@)
}

/// The counters as a JSON object, in the order in which they are reported.
pub open spec fn spec_snapshot(metrics: MetricsView) -> JsonView {
    JsonView::Object(
        seq![
            ("requests_total"@, JsonView::Number(decimal(metrics.requests_total as nat))),
            ("cache_hits"@, JsonView::Number(decimal(metrics.cache_hits as nat))),
            ("cache_misses"@, JsonView::Number(decimal(metrics.cache_misses as nat))),
            ("unique_request_hashes"@, JsonView::Number(decimal(metrics.unique_hashes.len()))),
        ],
    )
}

fn bump(counter: u64) -> (next: u64)
    ensures
        next == bumped(counter),
{
    if counter == u64::MAX {
        0
    } else {
        counter + 1
    }
}

impl View for Metrics {
    type V = MetricsView;

    closed spec fn view(&self) -> MetricsView {
        MetricsView {
            requests_total: self.requests_total,
            cache_hits: self.cache_hits,
            cache_misses: self.cache_misses,
            unique_hashes: hash_views(self.unique_hashes@).to_set(),
        }
    }
}

impl Metrics {
    #[verifier::type_invariant]
    spec fn distinct(self) -> bool {
        hash_views(self.unique_hashes@).no_duplicates()
    }

    /// Counters at zero and no hash seen.
    pub fn new() -> (metrics: Metrics)
        ensures
            metrics@ == (MetricsView {
                requests_total: 0,
                cache_hits: 0,
                cache_misses: 0,
                unique_hashes: Set::empty(),
            }),
    {
        let metrics = Metrics {
            requests_total: 0,
            cache_hits: 0,
            cache_misses: 0,
            unique_hashes: Vec::new(),
        };
        assert(metrics@.unique_hashes =~= Set::<Seq<char>>::empty());
        metrics
    }

    fn knows(&self, hash: &str) -> (known: bool)
        ensures
            known == hash_views(self.unique_hashes@).contains(hash@),
    {
        let ghost seen = hash_views(self.unique_hashes@);
        let mut i: usize = 0;
        while i < self.unique_hashes.len()
            invariant
                i <= self.unique_hashes@.len(),
                seen == hash_views(self.unique_hashes@),
                forall|k: int| 0 <= k < i ==> #[trigger] seen[k] != hash@,
            decreases self.unique_hashes@.len() - i,
        {
            if str_eq(self.unique_hashes[i].as_str(), hash) {
                assert(seen[i as int] == hash@);
                return true;
            }
            i += 1;
        }
        false
    }

    /// Counts a request and remembers its hash.
    pub fn record_request(&mut self, hash: String)
        ensures
            final(self)@ == (MetricsView {
                requests_total: bumped(old(self)@.requests_total),
                unique_hashes: old(self)@.unique_hashes.insert(hash@),
                ..old(self)@
            }),
    {
        proof {
            use_type_invariant(&*self);
        }
        self.requests_total = bump(self.requests_total);
        let ghost before = hash_views(self.unique_hashes@);
        let known = self.knows(hash.as_str());
        if known {
            assert(before.to_set() =~= before.to_set().insert(hash@));
        } else {
            let mut hashes: Vec<String> = Vec::new();
            core::mem::swap(&mut self.unique_hashes, &mut hashes);
            hashes.push(hash);
            proof {
                let after = hash_views(hashes@);
                assert(after =~= before.push(hash@));
                assert(after.to_set() =~= before.to_set().insert(hash@)) by {
                    assert forall|h: Seq<char>| after.contains(h) <==> (h == hash@
                        || before.contains(h)) by {
                        if after.contains(h) {
                            let k = choose|k: int| 0 <= k < after.len() && after[k] == h;
                            if k < before.len() {
                                assert(before[k] == h);
                            }
                        }
                        if before.contains(h) {
                            let k = choose|k: int| 0 <= k < before.len() && before[k] == h;
                            assert(after[k] == h);
                        }
                        if h == hash@ {
                            assert(after[before.len() as int] == h);
                        }
                    }
                }
                assert forall|a: int, b: int|
                    0 <= a < after.len() && 0 <= b < after.len() && a != b implies after[a]
                    != after[b] by {
                    if a < before.len() && b < before.len() {
                        assert(before[a] != before[b]);
                    } else if a < before.len() {
                        assert(before.contains(before[a]));
                    } else {
                        assert(before.contains(before[b]));
                    }
                }
            }
            self.unique_hashes = hashes;
        }
    }

    /// Counts a response served from the cache.
    pub fn record_cache_hit(&mut self)
        ensures
            final(self)@ == (MetricsView {
                cache_hits: bumped(old(self)@.cache_hits),
                ..old(self)@
            }),
    {
        proof {
            use_type_invariant(&*self);
        }
        self.cache_hits = bump(self.cache_hits);
    }

    /// Counts a cacheable request that was not in the cache.
    pub fn record_cache_miss(&mut self)
        ensures
            final(self)@ == (MetricsView {
                cache_misses: bumped(old(self)@.cache_misses),
                ..old(self)@
            }),
    {
        proof {
            use_type_invariant(&*self);
        }
        self.cache_misses = bump(self.cache_misses);
    }

    /// The counters and the number of distinct hashes, as a JSON object.
    pub fn snapshot(&self) -> (report: Json)
        ensures
            report@ == spec_snapshot(self@),
    {
        proof {
            use_type_invariant(self);
            hash_views(self.unique_hashes@).unique_seq_to_set();
        }
        let mut members: Vec<(String, Json)> = Vec::new();
        members.push(
            (String::from_str("requests_total"), Json::Number(decimal_text(self.requests_total))),
        );
        members.push((String::from_str("cache_hits"), Json::Number(decimal_text(self.cache_hits))));
        members.push(
            (String::from_str("cache_misses"), Json::Number(decimal_text(self.cache_misses))),
        );
        members.push(
            (
                String::from_str("unique_request_hashes"),
                Json::Number(decimal_text(self.unique_hashes.len() as u64)),
            ),
        );
        proof {
            let got = crate::json::entries_view(members@);
            let want = spec_snapshot(self@)->Object_0;
            assert(got.len() == 4);
            assert(got[0] == want[0]);
            assert(got[1] == want[1]);
            assert(got[2] == want[2]);
            assert(got[3] == want[3]);
            assert(got =~= want);
        }
        let report = Json::Object(members);
        report
    }
}

} // verus!
