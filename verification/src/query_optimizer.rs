//! Query performance bookkeeping: per-query timing statistics, a small
//! freshness-bounded result cache, and heuristic index advice.
//!
//! Durations are carried in nanoseconds and cache timestamps in
//! milliseconds, as plain integers; the clock readings come in as
//! arguments (the `*_at` forms), and the convenience forms read the
//! system clock through the library's trusted wrapper and state what
//! holds for every possible reading.

use vstd::prelude::*;

use crate::outside::now_millis;
use crate::strutil::{
    chars_vec, contains_chars, lemma_index_of_props, lemma_index_of_skip, spec_contains_seq,
    spec_index_of, str_eq,
};
use vstd::string::StringExecFns;

verus! {

/// Running statistics of one named query.
#[derive(Debug)]
pub struct QueryStats {
    pub query: String,
    pub execution_count: u64,
    /// Nanoseconds, as are the other three durations.
    pub total_duration: u64,
    pub avg_duration: u64,
    pub min_duration: u64,
    pub max_duration: u64,
}

/// The names of the recorded queries, in first-seen order.
pub open spec fn stat_names(stats: Seq<QueryStats>) -> Seq<Seq<char>> {
    stats.map_values(|s: QueryStats| s.query@)
}

/// Monitors query timings against a slow-query threshold.
#[derive(Debug)]
pub struct QueryOptimizer {
    stats: Vec<QueryStats>,
    slow_query_threshold: u64,
}

impl QueryOptimizer {
    pub closed spec fn stats_v(&self) -> Seq<QueryStats> {
        self.stats@
    }

    /// The slow-query threshold in nanoseconds.
    pub closed spec fn threshold_ns(&self) -> u64 {
        self.slow_query_threshold
    }

    /// Each query name is recorded once.
    pub open spec fn wf(&self) -> bool {
        crate::channel::unique_views(stat_names(self.stats_v()))
    }

    pub fn new(slow_query_threshold_ms: u64) -> (r: QueryOptimizer)
        requires
            slow_query_threshold_ms <= 18446744073709,
        ensures
            r.wf(),
            r.stats_v() == Seq::<QueryStats>::empty(),
            r.threshold_ns() == slow_query_threshold_ms * 1000000,
    {
        let r = QueryOptimizer {
            stats: Vec::new(),
            slow_query_threshold: slow_query_threshold_ms * 1000000,
        };
        proof {
            assert(stat_names(r.stats_v()) =~= Seq::<Seq<char>>::empty());
        }
        r
    }

    /// Folds one execution into the statistics: a first-seen query gets
    /// a fresh entry, a known one has its count, total, average and
    /// extremes updated (saturating at the integer limits).
    pub fn record_query(&mut self, query_name: &str, duration_ns: u64)
        requires
            old(self).wf(),
        ensures
            final(self).wf(),
            final(self).threshold_ns() == old(self).threshold_ns(),
            match spec_index_of(stat_names(old(self).stats_v()), query_name@) {
                None => {
                    &&& final(self).stats_v().len() == old(self).stats_v().len() + 1
                    &&& (forall|j: int|
                        0 <= j < old(self).stats_v().len() ==> final(self).stats_v()[j]
                            == #[trigger] old(self).stats_v()[j])
                    &&& final(self).stats_v().last().query@ == query_name@
                    &&& final(self).stats_v().last().execution_count == 1
                    &&& final(self).stats_v().last().total_duration == duration_ns
                    &&& final(self).stats_v().last().avg_duration == duration_ns
                    &&& final(self).stats_v().last().min_duration == duration_ns
                    &&& final(self).stats_v().last().max_duration == duration_ns
                },
                Some(k) => {
                    &&& final(self).stats_v().len() == old(self).stats_v().len()
                    &&& (forall|j: int|
                        0 <= j < old(self).stats_v().len() && j != k ==> final(self).stats_v()[j]
                            == #[trigger] old(self).stats_v()[j])
                    &&& final(self).stats_v()[k as int].query@ == query_name@
                    &&& final(self).stats_v()[k as int].execution_count == (if old(self).stats_v()[k as int].execution_count < 0xFFFF_FFFF_FFFF_FFFF {
                        old(self).stats_v()[k as int].execution_count + 1
                    } else {
                        old(self).stats_v()[k as int].execution_count as int
                    })
                    &&& final(self).stats_v()[k as int].total_duration == (if old(self).stats_v()[k as int].total_duration + duration_ns
                        <= 0xFFFF_FFFF_FFFF_FFFF {
                        old(self).stats_v()[k as int].total_duration + duration_ns
                    } else {
                        0xFFFF_FFFF_FFFF_FFFF
                    })
                    &&& final(self).stats_v()[k as int].avg_duration == final(self).stats_v()[k as int].total_duration / final(self).stats_v()[k as int].execution_count
                    &&& final(self).stats_v()[k as int].min_duration == (if duration_ns < old(self).stats_v()[k as int].min_duration {
                        duration_ns
                    } else {
                        old(self).stats_v()[k as int].min_duration
                    })
                    &&& final(self).stats_v()[k as int].max_duration == (if duration_ns > old(self).stats_v()[k as int].max_duration {
                        duration_ns
                    } else {
                        old(self).stats_v()[k as int].max_duration
                    })
                },
            },
    {
        let n = self.stats.len();
        let mut i: usize = 0;
        while i < n
            invariant
                n == self.stats@.len(),
                0 <= i <= n,
                self.stats@ == old(self).stats_v(),
                self.slow_query_threshold == old(self).threshold_ns(),
                old(self).wf(),
                forall|j: int| 0 <= j < i ==> #[trigger] stat_names(self.stats@)[j] != query_name@,
            decreases n - i,
        {
            if str_eq(self.stats[i].query.as_str(), query_name) {
                proof {
                    assert(stat_names(self.stats@)[i as int] == query_name@);
                    lemma_index_of_skip(stat_names(self.stats@), query_name@, i as int);
                    assert(stat_names(self.stats@).skip(i as int)[0] == stat_names(
                        self.stats@,
                    )[i as int]);
                }
                let entry = self.stats.remove(i);
                let count: u64 = if entry.execution_count < 0xFFFF_FFFF_FFFF_FFFF {
                    entry.execution_count + 1
                } else {
                    entry.execution_count
                };
                let total: u64 = if duration_ns <= 0xFFFF_FFFF_FFFF_FFFF - entry.total_duration {
                    entry.total_duration + duration_ns
                } else {
                    0xFFFF_FFFF_FFFF_FFFF
                };
                let updated = QueryStats {
                    query: entry.query,
                    execution_count: count,
                    total_duration: total,
                    avg_duration: total / count,
                    min_duration: if duration_ns < entry.min_duration {
                        duration_ns
                    } else {
                        entry.min_duration
                    },
                    max_duration: if duration_ns > entry.max_duration {
                        duration_ns
                    } else {
                        entry.max_duration
                    },
                };
                self.stats.insert(i, updated);
                proof {
                    assert(stat_names(self.stats@) =~= stat_names(old(self).stats_v()));
                    assert forall|j: int|
                        0 <= j < old(self).stats_v().len() && j != i implies self.stats@[j]
                        == #[trigger] old(self).stats_v()[j] by {}
                }
                return ;
            }
            proof {
                assert(stat_names(self.stats@)[i as int] != query_name@);
            }
            i = i + 1;
        }
        proof {
            lemma_index_of_skip(stat_names(self.stats@), query_name@, n as int);
            assert(stat_names(self.stats@).skip(n as int) =~= Seq::<Seq<char>>::empty());
        }
        let fresh = QueryStats {
            query: String::from_str(query_name),
            execution_count: 1,
            total_duration: duration_ns,
            avg_duration: duration_ns,
            min_duration: duration_ns,
            max_duration: duration_ns,
        };
        self.stats.push(fresh);
        proof {
            assert(stat_names(self.stats@) =~= stat_names(old(self).stats_v()).push(query_name@));
            assert forall|a: int, b: int|
                0 <= a < b < stat_names(self.stats@).len() implies (#[trigger] stat_names(
                self.stats@,
            )[a]) != (#[trigger] stat_names(self.stats@)[b]) by {
                if b < old(self).stats_v().len() {
                    assert(stat_names(old(self).stats_v())[a] != stat_names(
                        old(self).stats_v(),
                    )[b]);
                } else {
                    assert(stat_names(self.stats@)[b] == query_name@);
                    assert(stat_names(old(self).stats_v())[a] != query_name@);
                }
            }
        }
    }

    /// A copy of one query's statistics, when recorded.
    pub fn get_stats(&self, query_name: &str) -> (r: Option<QueryStats>)
        ensures
            match spec_index_of(stat_names(self.stats_v()), query_name@) {
                None => r is None,
                Some(k) => r matches Some(st) && st.query@ == self.stats_v()[k as int].query@
                    && st.execution_count == self.stats_v()[k as int].execution_count
                    && st.total_duration == self.stats_v()[k as int].total_duration
                    && st.avg_duration == self.stats_v()[k as int].avg_duration
                    && st.min_duration == self.stats_v()[k as int].min_duration
                    && st.max_duration == self.stats_v()[k as int].max_duration,
            },
    {
        let n = self.stats.len();
        let mut i: usize = 0;
        while i < n
            invariant
                n == self.stats@.len(),
                0 <= i <= n,
                forall|j: int| 0 <= j < i ==> #[trigger] stat_names(self.stats@)[j] != query_name@,
            decreases n - i,
        {
            if str_eq(self.stats[i].query.as_str(), query_name) {
                proof {
                    assert(stat_names(self.stats@)[i as int] == query_name@);
                    lemma_index_of_skip(stat_names(self.stats@), query_name@, i as int);
                    assert(stat_names(self.stats@).skip(i as int)[0] == stat_names(
                        self.stats@,
                    )[i as int]);
                }
                let e = &self.stats[i];
                return Some(
                    QueryStats {
                        query: e.query.clone(),
                        execution_count: e.execution_count,
                        total_duration: e.total_duration,
                        avg_duration: e.avg_duration,
                        min_duration: e.min_duration,
                        max_duration: e.max_duration,
                    },
                );
            }
            proof {
                assert(stat_names(self.stats@)[i as int] != query_name@);
            }
            i = i + 1;
        }
        proof {
            lemma_index_of_skip(stat_names(self.stats@), query_name@, n as int);
            assert(stat_names(self.stats@).skip(n as int) =~= Seq::<Seq<char>>::empty());
        }
        None
    }

    /// Copies of all recorded statistics, in first-seen order.
    pub fn get_all_stats(&self) -> (r: Vec<QueryStats>)
        ensures
            r@.len() == self.stats_v().len(),
            forall|j: int|
                0 <= j < r@.len() ==> (#[trigger] r@[j]).query@ == self.stats_v()[j].query@
                    && r@[j].execution_count == self.stats_v()[j].execution_count
                    && r@[j].total_duration == self.stats_v()[j].total_duration && r@[j].avg_duration
                    == self.stats_v()[j].avg_duration && r@[j].min_duration
                    == self.stats_v()[j].min_duration && r@[j].max_duration
                    == self.stats_v()[j].max_duration,
    {
        let n = self.stats.len();
        let mut out: Vec<QueryStats> = Vec::new();
        let mut i: usize = 0;
        while i < n
            invariant
                n == self.stats@.len(),
                0 <= i <= n,
                out@.len() == i,
                forall|j: int|
                    0 <= j < i ==> (#[trigger] out@[j]).query@ == self.stats@[j].query@
                        && out@[j].execution_count == self.stats@[j].execution_count
                        && out@[j].total_duration == self.stats@[j].total_duration
                        && out@[j].avg_duration == self.stats@[j].avg_duration
                        && out@[j].min_duration == self.stats@[j].min_duration
                        && out@[j].max_duration == self.stats@[j].max_duration,
            decreases n - i,
        {
            let e = &self.stats[i];
            out.push(
                QueryStats {
                    query: e.query.clone(),
                    execution_count: e.execution_count,
                    total_duration: e.total_duration,
                    avg_duration: e.avg_duration,
                    min_duration: e.min_duration,
                    max_duration: e.max_duration,
                },
            );
            i = i + 1;
        }
        out
    }

    /// Copies of the statistics whose average exceeds the threshold, in
    /// first-seen order.
    pub fn get_slow_queries(&self) -> (r: Vec<QueryStats>)
        ensures
            forall|j: int|
                0 <= j < r@.len() ==> (#[trigger] r@[j]).avg_duration > self.threshold_ns(),
            r@.len() <= self.stats_v().len(),
    {
        let n = self.stats.len();
        let mut out: Vec<QueryStats> = Vec::new();
        let mut i: usize = 0;
        while i < n
            invariant
                n == self.stats@.len(),
                0 <= i <= n,
                out@.len() <= i,
                forall|j: int|
                    0 <= j < out@.len() ==> (#[trigger] out@[j]).avg_duration
                        > self.slow_query_threshold,
            decreases n - i,
        {
            if self.stats[i].avg_duration > self.slow_query_threshold {
                let e = &self.stats[i];
                out.push(
                    QueryStats {
                        query: e.query.clone(),
                        execution_count: e.execution_count,
                        total_duration: e.total_duration,
                        avg_duration: e.avg_duration,
                        min_duration: e.min_duration,
                        max_duration: e.max_duration,
                    },
                );
            }
            i = i + 1;
        }
        out
    }

    /// Forgets all statistics.
    pub fn clear_stats(&mut self)
        ensures
            final(self).wf(),
            final(self).stats_v() == Seq::<QueryStats>::empty(),
            final(self).threshold_ns() == old(self).threshold_ns(),
    {
        self.stats.clear();
        proof {
            assert(self.stats@ =~= Seq::<QueryStats>::empty());
            assert(stat_names(self.stats@) =~= Seq::<Seq<char>>::empty());
        }
    }
}

/// The keys of the cached entries.
pub open spec fn cache_keys(entries: Seq<(String, String, u64)>) -> Seq<Seq<char>> {
    entries.map_values(|e: (String, String, u64)| e.0@)
}

/// An entry stored at `stored` is still fresh at `now` under `ttl`.
pub open spec fn cache_fresh(stored: u64, now: u64, ttl: u64) -> bool {
    now < stored + ttl
}

/// `e` occurs somewhere in `pool`.
pub open spec fn is_entry_of(pool: Seq<(String, String, u64)>, e: (String, String, u64)) -> bool {
    exists|b: int| 0 <= b < pool.len() && pool[b] == e
}

/// The entries still fresh at `now`, in order.
pub open spec fn fresh_entries(
    entries: Seq<(String, String, u64)>,
    now: u64,
    ttl: u64,
) -> Seq<(String, String, u64)> {
    entries.filter(|e: (String, String, u64)| cache_fresh(e.2, now, ttl))
}

/// A small cache of query results, each entry fresh for a fixed
/// time-to-live.
#[derive(Debug)]
pub struct QueryCache {
    entries: Vec<(String, String, u64)>,
    ttl_ms: u64,
    max_size: usize,
}

impl QueryCache {
    pub closed spec fn entries_v(&self) -> Seq<(String, String, u64)> {
        self.entries@
    }

    pub closed spec fn ttl_v(&self) -> u64 {
        self.ttl_ms
    }

    pub closed spec fn max_size_v(&self) -> usize {
        self.max_size
    }

    /// Keys are unique.
    pub open spec fn wf(&self) -> bool {
        crate::channel::unique_views(cache_keys(self.entries_v()))
    }

    pub fn new(ttl_seconds: u64, max_size: usize) -> (r: QueryCache)
        requires
            ttl_seconds <= 18446744073709551,
        ensures
            r.wf(),
            r.entries_v() == Seq::<(String, String, u64)>::empty(),
            r.ttl_v() == ttl_seconds * 1000,
            r.max_size_v() == max_size,
    {
        let r = QueryCache { entries: Vec::new(), ttl_ms: ttl_seconds * 1000, max_size };
        proof {
            assert(cache_keys(r.entries_v()) =~= Seq::<Seq<char>>::empty());
        }
        r
    }

    /// Looks a key up against an explicit clock reading: a fresh entry
    /// comes back, a stale one is dropped on the spot.
    pub fn get_at(&mut self, key: &str, now_ms: u64) -> (r: Option<String>)
        requires
            old(self).wf(),
        ensures
            final(self).wf(),
            final(self).ttl_v() == old(self).ttl_v(),
            final(self).max_size_v() == old(self).max_size_v(),
            match spec_index_of(cache_keys(old(self).entries_v()), key@) {
                None => r is None && final(self).entries_v() == old(self).entries_v(),
                Some(k) => {
                    &&& (cache_fresh(old(self).entries_v()[k as int].2, now_ms, old(self).ttl_v())
                        ==> (r matches Some(v) && v@ == old(self).entries_v()[k as int].1@
                        && final(self).entries_v() == old(self).entries_v()))
                    &&& (!cache_fresh(old(self).entries_v()[k as int].2, now_ms, old(
                        self,
                    ).ttl_v()) ==> (r is None && final(self).entries_v() == old(
                        self,
                    ).entries_v().remove(k as int)))
                },
            },
    {
        let n = self.entries.len();
        let mut i: usize = 0;
        while i < n
            invariant
                n == self.entries@.len(),
                0 <= i <= n,
                self.entries@ == old(self).entries_v(),
                self.ttl_ms == old(self).ttl_v(),
                self.max_size == old(self).max_size_v(),
                old(self).wf(),
                forall|j: int| 0 <= j < i ==> #[trigger] cache_keys(self.entries@)[j] != key@,
            decreases n - i,
        {
            if str_eq(self.entries[i].0.as_str(), key) {
                proof {
                    assert(cache_keys(self.entries@)[i as int] == key@);
                    lemma_index_of_skip(cache_keys(self.entries@), key@, i as int);
                    assert(cache_keys(self.entries@).skip(i as int)[0] == cache_keys(
                        self.entries@,
                    )[i as int]);
                }
                let stored = self.entries[i].2;
                if now_ms < stored || now_ms - stored < self.ttl_ms {
                    // fresh: the age is still below the time-to-live
                    let v = self.entries[i].1.clone();
                    return Some(v);
                }
                self.entries.remove(i);
                proof {
                    assert(cache_keys(self.entries@) =~= cache_keys(
                        old(self).entries_v(),
                    ).remove(i as int));
                    assert forall|a: int, b: int|
                        0 <= a < b < cache_keys(self.entries@).len() implies (
                    #[trigger] cache_keys(self.entries@)[a]) != (#[trigger] cache_keys(
                        self.entries@,
                    )[b]) by {
                        let o = cache_keys(old(self).entries_v());
                        let aa = if a < i { a } else { a + 1 };
                        let bb = if b < i { b } else { b + 1 };
                        assert(cache_keys(self.entries@)[a] == o[aa]);
                        assert(cache_keys(self.entries@)[b] == o[bb]);
                        assert(o[aa] != o[bb]);
                    }
                }
                return None;
            }
            proof {
                assert(cache_keys(self.entries@)[i as int] != key@);
            }
            i = i + 1;
        }
        proof {
            lemma_index_of_skip(cache_keys(self.entries@), key@, n as int);
            assert(cache_keys(self.entries@).skip(n as int) =~= Seq::<Seq<char>>::empty());
        }
        None
    }

    /// Looks a key up against the system clock: whatever instant the
    /// clock reports, the outcome follows `get_at` for it.
    pub fn get(&mut self, key: &str) -> (r: Option<String>)
        requires
            old(self).wf(),
        ensures
            final(self).wf(),
            final(self).ttl_v() == old(self).ttl_v(),
            final(self).max_size_v() == old(self).max_size_v(),
            match spec_index_of(cache_keys(old(self).entries_v()), key@) {
                None => r is None && final(self).entries_v() == old(self).entries_v(),
                Some(k) => (r matches Some(v) && v@ == old(self).entries_v()[k as int].1@ && final(self).entries_v() == old(self).entries_v()) || (r is None && final(self).entries_v()
                    == old(self).entries_v().remove(k as int)),
            },
    {
        let now = now_millis();
        let now_u: u64 = if now >= 0 {
            now as u64
        } else {
            0
        };
        self.get_at(key, now_u)
    }

    /// Stores a value under a key against an explicit clock reading.  A
    /// full cache first evicts its oldest entry; an existing key is
    /// overwritten in place.
    pub fn set_at(&mut self, key: String, value: String, now_ms: u64)
        requires
            old(self).wf(),
        ensures
            final(self).wf(),
            final(self).ttl_v() == old(self).ttl_v(),
            final(self).max_size_v() == old(self).max_size_v(),
            spec_index_of(cache_keys(final(self).entries_v()), key@) matches Some(k) && final(self).entries_v()[k as int].1@ == value@ && final(self).entries_v()[k as int].2 == now_ms,
            final(self).entries_v().len() <= (if old(self).entries_v().len()
                >= old(self).max_size_v() && old(self).entries_v().len() > 0 {
                old(self).entries_v().len() as int
            } else {
                old(self).entries_v().len() as int + 1
            }),
            forall|j: int|
                0 <= j < final(self).entries_v().len() && (#[trigger] final(self).entries_v()[j]).0@ != key@ ==> is_entry_of(
                    old(self).entries_v(),
                    final(self).entries_v()[j],
                ),
    {
        let ghost keyv = key@;
        if self.entries.len() >= self.max_size && self.entries.len() > 0 {
            // evict the oldest entry
            let n = self.entries.len();
            let mut oldest: usize = 0;
            let mut i: usize = 1;
            while i < n
                invariant
                    n == self.entries@.len(),
                    n > 0,
                    0 <= oldest < i <= n,
                    forall|j: int|
                        0 <= j < i ==> self.entries@[oldest as int].2 <= (#[trigger] self.entries@[j]).2,
                decreases n - i,
            {
                if self.entries[i].2 < self.entries[oldest].2 {
                    oldest = i;
                }
                i = i + 1;
            }
            self.entries.remove(oldest);
            proof {
                assert(cache_keys(self.entries@) =~= cache_keys(
                    old(self).entries_v(),
                ).remove(oldest as int));
                assert forall|a: int, b: int|
                    0 <= a < b < cache_keys(self.entries@).len() implies (
                #[trigger] cache_keys(self.entries@)[a]) != (#[trigger] cache_keys(
                    self.entries@,
                )[b]) by {
                    let o = cache_keys(old(self).entries_v());
                    let aa = if a < oldest { a } else { a + 1 };
                    let bb = if b < oldest { b } else { b + 1 };
                    assert(cache_keys(self.entries@)[a] == o[aa]);
                    assert(cache_keys(self.entries@)[b] == o[bb]);
                    assert(o[aa] != o[bb]);
                }
                assert forall|j: int|
                    0 <= j < self.entries@.len() implies #[trigger] is_entry_of(
                    old(self).entries_v(),
                    self.entries@[j],
                ) by {
                    if j < oldest {
                        assert(old(self).entries_v()[j] == self.entries@[j]);
                    } else {
                        assert(old(self).entries_v()[j + 1] == self.entries@[j]);
                    }
                }
            }
        }
        let ghost mid = self.entries@;
        proof {
            assert forall|a: int|
                0 <= a < mid.len() implies #[trigger] is_entry_of(
                old(self).entries_v(),
                mid[a],
            ) by {
                if old(self).entries_v().len() >= old(self).max_size_v() && old(
                    self,
                ).entries_v().len() > 0 {
                    assert(is_entry_of(old(self).entries_v(), self.entries@[a]));
                    assert(mid[a] == self.entries@[a]);
                } else {
                    assert(old(self).entries_v()[a] == mid[a]);
                }
            }
        }
        let n = self.entries.len();
        let mut i: usize = 0;
        while i < n
            invariant
                n == self.entries@.len(),
                self.entries@ == mid,
                self.ttl_ms == old(self).ttl_v(),
                self.max_size == old(self).max_size_v(),
                crate::channel::unique_views(cache_keys(mid)),
                mid.len() <= (if old(self).entries_v().len() >= old(self).max_size_v() && old(
                    self,
                ).entries_v().len() > 0 {
                    old(self).entries_v().len() - 1
                } else {
                    old(self).entries_v().len() as int
                }),
                forall|a: int|
                    0 <= a < mid.len() ==> #[trigger] is_entry_of(old(self).entries_v(), mid[a]),
                0 <= i <= n,
                keyv == key@,
                forall|j: int| 0 <= j < i ==> #[trigger] cache_keys(self.entries@)[j] != keyv,
            decreases n - i,
        {
            if str_eq(self.entries[i].0.as_str(), key.as_str()) {
                proof {
                    assert(cache_keys(self.entries@)[i as int] == keyv);
                }
                self.entries.remove(i);
                self.entries.insert(i, (key, value, now_ms));
                proof {
                    assert(cache_keys(self.entries@) =~= cache_keys(mid));
                    assert(cache_keys(self.entries@)[i as int] == keyv);
                    crate::strutil::lemma_index_of_props(cache_keys(self.entries@), keyv);
                    if spec_index_of(cache_keys(self.entries@), keyv) is None {
                        assert(cache_keys(self.entries@)[i as int] != keyv);
                    }
                    let k2 = spec_index_of(cache_keys(self.entries@), keyv)->Some_0;
                    assert(cache_keys(self.entries@)[k2 as int] == keyv);
                    if (k2 as int) != (i as int) {
                        if (k2 as int) < (i as int) {
                            assert(cache_keys(self.entries@)[k2 as int] != cache_keys(
                                self.entries@,
                            )[i as int]);
                        } else {
                            assert(cache_keys(self.entries@)[i as int] != cache_keys(
                                self.entries@,
                            )[k2 as int]);
                        }
                    }
                    assert forall|j: int|
                        0 <= j < self.entries@.len() && (#[trigger] self.entries@[j]).0@ != keyv
                            implies is_entry_of(old(self).entries_v(), self.entries@[j]) by {
                        assert(self.entries@[j] == mid[j]);
                        assert(is_entry_of(old(self).entries_v(), mid[j]));
                    }
                }
                return ;
            }
            proof {
                assert(cache_keys(self.entries@)[i as int] != keyv);
            }
            i = i + 1;
        }
        self.entries.push((key, value, now_ms));
        proof {
            assert(cache_keys(self.entries@) =~= cache_keys(mid).push(keyv));
            assert forall|a: int, b: int|
                0 <= a < b < cache_keys(self.entries@).len() implies (#[trigger] cache_keys(
                self.entries@,
            )[a]) != (#[trigger] cache_keys(self.entries@)[b]) by {
                if b < mid.len() {
                    assert(cache_keys(mid)[a] != cache_keys(mid)[b]);
                } else {
                    assert(cache_keys(self.entries@)[b] == keyv);
                    assert(cache_keys(mid)[a] != keyv);
                }
            }
            assert(cache_keys(self.entries@)[mid.len() as int] == keyv);
            crate::strutil::lemma_index_of_props(cache_keys(self.entries@), keyv);
            if spec_index_of(cache_keys(self.entries@), keyv) is None {
                assert(cache_keys(self.entries@)[mid.len() as int] != keyv);
            }
            let k2 = spec_index_of(cache_keys(self.entries@), keyv)->Some_0;
            assert(cache_keys(self.entries@)[k2 as int] == keyv);
            if (k2 as int) != mid.len() {
                assert(cache_keys(self.entries@)[k2 as int] != cache_keys(
                    self.entries@,
                )[mid.len() as int]);
            }
            assert forall|j: int|
                0 <= j < self.entries@.len() && (#[trigger] self.entries@[j]).0@ != keyv implies
                is_entry_of(old(self).entries_v(), self.entries@[j]) by {
                assert(self.entries@[j] == mid[j]);
                assert(is_entry_of(old(self).entries_v(), mid[j]));
            }
        }
    }

    /// Stores a value under a key against the system clock.
    pub fn set(&mut self, key: String, value: String)
        requires
            old(self).wf(),
        ensures
            final(self).wf(),
            final(self).ttl_v() == old(self).ttl_v(),
            final(self).max_size_v() == old(self).max_size_v(),
            spec_index_of(cache_keys(final(self).entries_v()), key@) matches Some(k) && final(self).entries_v()[k as int].1@ == value@,
    {
        let now = now_millis();
        let now_u: u64 = if now >= 0 {
            now as u64
        } else {
            0
        };
        self.set_at(key, value, now_u)
    }

    /// Forgets everything.
    pub fn clear(&mut self)
        ensures
            final(self).wf(),
            final(self).entries_v() == Seq::<(String, String, u64)>::empty(),
            final(self).ttl_v() == old(self).ttl_v(),
            final(self).max_size_v() == old(self).max_size_v(),
    {
        self.entries.clear();
        proof {
            assert(self.entries@ =~= Seq::<(String, String, u64)>::empty());
            assert(cache_keys(self.entries@) =~= Seq::<Seq<char>>::empty());
        }
    }

    /// Drops every entry that is stale at the given clock reading,
    /// keeping exactly the fresh ones in order.
    pub fn clear_expired_at(&mut self, now_ms: u64)
        requires
            old(self).wf(),
        ensures
            final(self).wf(),
            final(self).ttl_v() == old(self).ttl_v(),
            final(self).max_size_v() == old(self).max_size_v(),
            final(self).entries_v() == fresh_entries(
                old(self).entries_v(),
                now_ms,
                old(self).ttl_v(),
            ),
    {
        let n = self.entries.len();
        let mut kept: Vec<(String, String, u64)> = Vec::new();
        let ghost pred = |e: (String, String, u64)| cache_fresh(e.2, now_ms, old(self).ttl_v());
        proof {
            reveal_with_fuel(Seq::filter, 2);
            assert(kept@ =~= self.entries@.take(0).filter(pred));
        }
        let mut i: usize = 0;
        while i < n
            invariant
                n == self.entries@.len(),
                self.entries@ == old(self).entries_v(),
                self.ttl_ms == old(self).ttl_v(),
                self.max_size == old(self).max_size_v(),
                old(self).wf(),
                0 <= i <= n,
                pred == (|e: (String, String, u64)| cache_fresh(e.2, now_ms, old(self).ttl_v())),
                kept@ == self.entries@.take(i as int).filter(pred),
                crate::channel::unique_views(cache_keys(kept@)),
                forall|a: int|
                    0 <= a < kept@.len() ==> exists|b: int|
                        0 <= b < i && self.entries@[b] == #[trigger] kept@[a],
            decreases n - i,
        {
            let stored = self.entries[i].2;
            let fresh = now_ms < stored || now_ms - stored < self.ttl_ms;
            proof {
                reveal_with_fuel(Seq::filter, 2);
                assert(fresh == cache_fresh(self.entries@[i as int].2, now_ms, self.ttl_ms));
                assert(self.entries@.take(i + 1).drop_last() =~= self.entries@.take(i as int));
                assert(self.entries@.take(i + 1).last() == self.entries@[i as int]);
            }
            if fresh {
                let e0 = self.entries[i].0.clone();
                let e1 = self.entries[i].1.clone();
                let ghost kpre = kept@;
                kept.push((e0, e1, stored));
                proof {
                    assert((e0, e1, stored) == self.entries@[i as int]);
                    assert(kept@ =~= self.entries@.take(i + 1).filter(pred));
                    assert forall|a: int|
                        0 <= a < kept@.len() implies exists|b: int|
                            0 <= b < i + 1 && self.entries@[b] == #[trigger] kept@[a] by {
                        if a < kpre.len() {
                            assert(kpre[a] == kept@[a]);
                            let b0 = choose|b: int|
                                0 <= b < i && self.entries@[b] == #[trigger] kpre[a];
                            assert(self.entries@[b0] == kept@[a]);
                        } else {
                            assert(self.entries@[i as int] == kept@[a]);
                        }
                    }
                    assert forall|a1: int, a2: int|
                        0 <= a1 < a2 < cache_keys(kept@).len() implies (#[trigger] cache_keys(
                        kept@,
                    )[a1]) != (#[trigger] cache_keys(kept@)[a2]) by {
                        assert(kept@[a1] == kpre[a1]);
                        if a2 == kept@.len() - 1 {
                            let b0 = choose|b: int|
                                0 <= b < i && self.entries@[b] == #[trigger] kpre[a1];
                            assert(kept@[a1] == self.entries@[b0]);
                            assert(cache_keys(self.entries@)[b0] != cache_keys(
                                self.entries@,
                            )[i as int]);
                            assert(cache_keys(kept@)[a1] == cache_keys(self.entries@)[b0]);
                            assert(cache_keys(kept@)[a2] == cache_keys(self.entries@)[i as int]);
                        } else {
                            assert(kept@[a2] == kpre[a2]);
                            assert(cache_keys(kpre)[a1] == cache_keys(kept@)[a1]);
                            assert(cache_keys(kpre)[a2] == cache_keys(kept@)[a2]);
                        }
                    }
                }
            } else {
                proof {
                    assert(kept@ =~= self.entries@.take(i + 1).filter(pred));
                }
            }
            i = i + 1;
        }
        proof {
            assert(self.entries@.take(n as int) =~= self.entries@);
        }
        self.entries = kept;
    }

    /// Drops stale entries against the system clock: afterwards only
    /// entries that were fresh for the reported instant remain, in
    /// order.
    pub fn clear_expired(&mut self)
        requires
            old(self).wf(),
        ensures
            final(self).wf(),
            final(self).ttl_v() == old(self).ttl_v(),
            final(self).max_size_v() == old(self).max_size_v(),
            exists|now: u64|
                final(self).entries_v() == #[trigger] fresh_entries(
                    old(self).entries_v(),
                    now,
                    old(self).ttl_v(),
                ),
    {
        let now = now_millis();
        let now_u: u64 = if now >= 0 {
            now as u64
        } else {
            0
        };
        self.clear_expired_at(now_u);
        proof {
            assert(self.entries_v() == fresh_entries(
                old(self).entries_v(),
                now_u,
                old(self).ttl_v(),
            ));
        }
    }
}

/// Connection-pool sizing, with timeouts in milliseconds.
#[derive(Clone, Copy, Debug, PartialEq, Eq, Structural)]
pub struct PoolConfig {
    pub max_connections: u32,
    pub min_connections: u32,
    pub connection_timeout_ms: u64,
    pub idle_timeout_ms: u64,
}

impl Default for PoolConfig {
    /// Ten connections at most, two kept warm, half a minute to
    /// connect, ten minutes idle.
    fn default() -> (r: PoolConfig)
        ensures
            r == (PoolConfig {
                max_connections: 10u32,
                min_connections: 2u32,
                connection_timeout_ms: 30000u64,
                idle_timeout_ms: 600000u64,
            }),
    {
        PoolConfig {
            max_connections: 10,
            min_connections: 2,
            connection_timeout_ms: 30000,
            idle_timeout_ms: 600000,
        }
    }
}

/// Marker for the batched write helpers the hosting layer runs inside
/// datastore transactions.
#[derive(Debug)]
pub struct BatchOperations;

/// Heuristic advice on indexing a query.
#[derive(Debug)]
pub struct IndexAdvisor;

impl IndexAdvisor {
    /// One suggestion per recognised clause keyword, in a fixed order:
    /// filtering, joining, ordering.
    pub fn analyze_query(query: &str) -> (r: Vec<String>)
        ensures
            r@.map_values(|s: String| s@) == (if spec_contains_seq(query@, "WHERE"@) {
                seq!["考虑在WHERE子句中的列上创建索引"@]
            } else {
                Seq::<Seq<char>>::empty()
            }) + (if spec_contains_seq(query@, "JOIN"@) {
                seq!["考虑在JOIN条件的列上创建索引"@]
            } else {
                Seq::<Seq<char>>::empty()
            }) + (if spec_contains_seq(query@, "ORDER BY"@) {
                seq!["考虑在ORDER BY的列上创建索引"@]
            } else {
                Seq::<Seq<char>>::empty()
            }),
    {
        let cs = chars_vec(query);
        let mut out: Vec<String> = Vec::new();
        let w = chars_vec("WHERE");
        if contains_chars(&cs, &w) {
            out.push(String::from_str("考虑在WHERE子句中的列上创建索引"));
        }
        let j = chars_vec("JOIN");
        if contains_chars(&cs, &j) {
            out.push(String::from_str("考虑在JOIN条件的列上创建索引"));
        }
        let ob = chars_vec("ORDER BY");
        if contains_chars(&cs, &ob) {
            out.push(String::from_str("考虑在ORDER BY的列上创建索引"));
        }
        proof {
            assert(out@.map_values(|s: String| s@) =~= (if spec_contains_seq(query@, "WHERE"@) {
                seq!["考虑在WHERE子句中的列上创建索引"@]
            } else {
                Seq::<Seq<char>>::empty()
            }) + (if spec_contains_seq(query@, "JOIN"@) {
                seq!["考虑在JOIN条件的列上创建索引"@]
            } else {
                Seq::<Seq<char>>::empty()
            }) + (if spec_contains_seq(query@, "ORDER BY"@) {
                seq!["考虑在ORDER BY的列上创建索引"@]
            } else {
                Seq::<Seq<char>>::empty()
            }));
        }
        out
    }
}

} // verus!
