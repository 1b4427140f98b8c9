//! Query result cache.
//!
//! An LRU cache for query results, to avoid re-executing identical queries on
//! unchanged data. The cache is keyed by a hash of the query parameters and
//! the index revision, so that cached results are not served once the index
//! changes.

use vstd::prelude::*;
use std::collections::VecDeque;
use ahash::AHashMap;
use vstd::arithmetic::div_mod::{lemma_add_mod_noop, lemma_small_mod, lemma_sub_mod_noop};

verus! {

broadcast use vstd::std_specs::vecdeque::group_vec_dequeue_axioms;

/// A cache key combining query hash and index revision.
#[derive(Debug, Clone, Copy, PartialEq, Eq, Structural, Hash)]
pub struct CacheKey {
    /// Hash of (index_name, query_string, limit, offset, sort_params)
    pub query_hash: u64,
    /// Index revision number (bumped on writes)
    pub index_revision: u64,
}

/// Cached query result data.
#[derive(Debug, Clone)]
pub struct CachedResult {
    /// Serialized result data.
    pub data: Vec<u8>,
    /// Size in bytes for memory tracking
    pub size_bytes: usize,
}

/// Statistics for cache performance monitoring.
#[derive(Debug, Clone, Copy)]
pub struct CacheStats {
    /// Total number of cache lookups
    pub lookups: u64,
    /// Number of cache hits
    pub hits: u64,
    /// Number of cache misses
    pub misses: u64,
    /// Number of entries evicted due to size limit
    pub evictions: u64,
    /// Current number of entries in cache
    pub entries: usize,
    /// Total memory used by cached data (bytes)
    pub memory_bytes: usize,
}

impl Default for CacheStats {
    fn default() -> (s: CacheStats)
        ensures
            s.lookups == 0 && s.hits == 0 && s.misses == 0 && s.evictions == 0 && s.entries == 0
                && s.memory_bytes == 0,
    {
        CacheStats { lookups: 0, hits: 0, misses: 0, evictions: 0, entries: 0, memory_bytes: 0 }
    }
}

#[verifier::external_type_specification]
#[verifier::external_body]
#[verifier::reject_recursive_types(K)]
#[verifier::reject_recursive_types(V)]
#[verifier::reject_recursive_types(S)]
pub struct ExAHashMap<K, V, S>(AHashMap<K, V, S>);

#[verifier::external_type_specification]
#[verifier::external_body]
pub struct ExAHashRandomState(ahash::RandomState);

/// What an `ahash::AHashMap` of results holds: the result stored under each key.
pub uninterp spec fn stored_results(m: AHashMap<(u64, u64), CachedResult>) -> Map<(u64, u64), CachedResult>;

/// No result under any key.
pub open spec fn no_results() -> Map<(u64, u64), CachedResult> {
    Map::empty()
}

/// `AHashMap::with_capacity`: an empty map. Capacities this large would
/// overflow the size of the allocation.
#[verifier::external_body]
fn results_with_capacity(capacity: usize) -> (m: AHashMap<(u64, u64), CachedResult>)
    requires
        capacity as int * 256 <= isize::MAX as int,
    ensures
        stored_results(m) == no_results(),
{
    AHashMap::with_capacity(capacity)
}

/// `AHashMap::get`: the result stored under the key, if any.
#[verifier::external_body]
fn results_get<'a>(m: &'a AHashMap<(u64, u64), CachedResult>, key: &(u64, u64)) -> (r: Option<
    &'a CachedResult,
>)
    ensures
        match r {
            Some(v) => stored_results(*m).contains_key(*key) && stored_results(*m)[*key] == *v,
            None => !stored_results(*m).contains_key(*key),
        },
{
    m.get(key)
}

/// `AHashMap::insert`: stores the result under the key, replacing and
/// returning an earlier one.
#[verifier::external_body]
fn results_insert(m: &mut AHashMap<(u64, u64), CachedResult>, key: (u64, u64), value: CachedResult) -> (r: Option<
    CachedResult,
>)
    ensures
        stored_results(*final(m)) == stored_results(*old(m)).insert(key, value),
        match r {
            Some(v) => stored_results(*old(m)).contains_key(key) && stored_results(*old(m))[key] == v,
            None => !stored_results(*old(m)).contains_key(key),
        },
{
    m.insert(key, value)
}

/// `AHashMap::remove`: removes and returns the result stored under the key.
#[verifier::external_body]
fn results_remove(m: &mut AHashMap<(u64, u64), CachedResult>, key: &(u64, u64)) -> (r: Option<
    CachedResult,
>)
    ensures
        stored_results(*final(m)) == stored_results(*old(m)).remove(*key),
        match r {
            Some(v) => stored_results(*old(m)).contains_key(*key) && stored_results(*old(m))[*key] == v,
            None => !stored_results(*old(m)).contains_key(*key),
        },
{
    m.remove(key)
}

/// `AHashMap::len` (through `HashMap`): the number of stored results.
#[verifier::external_body]
fn results_len(m: &AHashMap<(u64, u64), CachedResult>) -> (n: usize)
    ensures
        n == stored_results(*m).dom().len(),
{
    m.len()
}

/// `AHashMap::clear` (through `HashMap`): removes every result.
#[verifier::external_body]
fn results_clear(m: &mut AHashMap<(u64, u64), CachedResult>)
    ensures
        stored_results(*final(m)) == no_results(),
{
    m.clear()
}

/// The model of a query cache.
pub struct SpecQueryCache {
    pub entries: Map<(u64, u64), CachedResult>,
    /// Keys from least to most recently used.
    pub order: Seq<(u64, u64)>,
    pub max_entries: usize,
    pub lookups: u64,
    pub hits: u64,
    pub misses: u64,
    pub evictions: u64,
    pub memory_bytes: usize,
}

/// LRU cache for query results.
pub struct QueryCache {
    /// Maximum number of entries
    max_entries: usize,
    /// Cache storage
    cache: AHashMap<(u64, u64), CachedResult>,
    /// LRU queue (most recently used at back)
    lru_queue: VecDeque<(u64, u64)>,
    lookups: u64,
    hits: u64,
    misses: u64,
    evictions: u64,
    memory_bytes: usize,
}

impl View for QueryCache {
    type V = SpecQueryCache;

    closed spec fn view(&self) -> SpecQueryCache {
        SpecQueryCache {
            entries: stored_results(self.cache),
            order: self.lru_queue@,
            max_entries: self.max_entries,
            lookups: self.lookups,
            hits: self.hits,
            misses: self.misses,
            evictions: self.evictions,
            memory_bytes: self.memory_bytes,
        }
    }
}

pub open spec fn key_of(k: CacheKey) -> (u64, u64) {
    (k.query_hash, k.index_revision)
}

/// Total size of the results stored under the keys.
pub open spec fn total_size(order: Seq<(u64, u64)>, entries: Map<(u64, u64), CachedResult>) -> int
    decreases order.len(),
{
    if order.len() == 0 {
        0
    } else {
        total_size(order.drop_last(), entries) + entries[order.last()].size_bytes
    }
}

/// `usize` arithmetic wraps around at this modulus.
pub open spec fn usize_modulus() -> int {
    usize::MAX as int + 1
}

/// Each key is in the LRU order once; there are no more entries than the
/// configured maximum; the memory counter is the total size of the stored results
/// (modulo the range of `usize`); every lookup counted a hit or a miss.
pub open spec fn query_cache_wf(c: SpecQueryCache) -> bool {
    &&& entries_wf(c)
    &&& c.order.len() <= c.max_entries
}

/// The invariant but for the capacity bound.
pub open spec fn entries_wf(c: SpecQueryCache) -> bool {
    &&& c.order.no_duplicates()
    &&& c.entries.dom() == c.order.to_set()
    &&& c.memory_bytes as int == total_size(c.order, c.entries) % usize_modulus()
    &&& c.lookups == c.hits.wrapping_add(c.misses)
}

pub open spec fn position_of(s: Seq<(u64, u64)>, k: (u64, u64), i: int) -> int
    decreases s.len() - i,
{
    if i < 0 || i >= s.len() {
        s.len() as int
    } else if s[i] == k {
        i
    } else {
        position_of(s, k, i + 1)
    }
}

/// `s` without its first occurrence of `k`.
pub open spec fn without_key(s: Seq<(u64, u64)>, k: (u64, u64)) -> Seq<(u64, u64)> {
    if s.contains(k) {
        s.remove(position_of(s, k, 0))
    } else {
        s
    }
}

/// The cache after a lookup: a hit moves the key to the most recently used end.
pub open spec fn after_get(c: SpecQueryCache, k: (u64, u64)) -> SpecQueryCache {
    if c.entries.contains_key(k) {
        SpecQueryCache {
            order: without_key(c.order, k).push(k),
            lookups: c.lookups.wrapping_add(1),
            hits: c.hits.wrapping_add(1),
            ..c
        }
    } else {
        SpecQueryCache { lookups: c.lookups.wrapping_add(1), misses: c.misses.wrapping_add(1), ..c }
    }
}

/// Eviction of the least recently used entry.
pub open spec fn evict_one(c: SpecQueryCache) -> SpecQueryCache {
    let k = c.order[0];
    SpecQueryCache {
        entries: c.entries.remove(k),
        order: c.order.drop_first(),
        memory_bytes: c.memory_bytes.wrapping_sub(c.entries[k].size_bytes),
        evictions: c.evictions.wrapping_add(1),
        ..c
    }
}

/// The cache without its result under `k`, if any.
pub open spec fn dropped(c: SpecQueryCache, k: (u64, u64)) -> SpecQueryCache {
    if c.entries.contains_key(k) {
        SpecQueryCache {
            entries: c.entries.remove(k),
            order: without_key(c.order, k),
            memory_bytes: c.memory_bytes.wrapping_sub(c.entries[k].size_bytes),
            ..c
        }
    } else {
        c
    }
}

/// The cache after storing `v` under `k`: an older result under `k` is
/// dropped, the least recently used entry is evicted if the cache is full,
/// and `k` becomes the most recently used key. A cache of capacity zero
/// stores nothing.
pub open spec fn after_insert(c: SpecQueryCache, k: (u64, u64), v: CachedResult) -> SpecQueryCache {
    if c.max_entries == 0 {
        c
    } else {
        let c1 = dropped(c, k);
        let c2 = if c1.entries.dom().len() >= c1.max_entries && c1.order.len() > 0 {
            evict_one(c1)
        } else {
            c1
        };
        SpecQueryCache {
            entries: c2.entries.insert(k, v),
            order: c2.order.push(k),
            memory_bytes: c2.memory_bytes.wrapping_add(v.size_bytes),
            ..c2
        }
    }
}

/// Eviction of least recently used entries while there are more than `n`.
pub open spec fn shrink(c: SpecQueryCache, n: usize) -> SpecQueryCache
    decreases c.order.len(),
{
    if c.entries.dom().len() > n && c.order.len() > 0 {
        shrink(evict_one(c), n)
    } else {
        c
    }
}

proof fn lemma_position(s: Seq<(u64, u64)>, k: (u64, u64), i: int)
    requires
        0 <= i <= s.len(),
    ensures
        i <= position_of(s, k, i) <= s.len(),
        position_of(s, k, i) < s.len() ==> s[position_of(s, k, i)] == k,
        forall|j: int| i <= j < position_of(s, k, i) ==> s[j] != k,
    decreases s.len() - i,
{
    if i < s.len() && s[i] != k {
        lemma_position(s, k, i + 1);
    }
}

proof fn lemma_remove_distinct(s: Seq<(u64, u64)>, p: int)
    requires
        s.no_duplicates(),
        0 <= p < s.len(),
    ensures
        s.remove(p).no_duplicates(),
        s.remove(p).to_set() == s.to_set().remove(s[p]),
        s.remove(p).len() == s.len() - 1,
{
    let r = s.remove(p);
    assert forall|x: (u64, u64)| #[trigger] r.to_set().contains(x) == s.to_set().remove(s[p]).contains(x) by {
        if r.contains(x) {
            let j = choose|j: int| 0 <= j < r.len() && r[j] == x;
            if j < p {
                assert(s[j] == x);
            } else {
                assert(s[j + 1] == x);
            }
        }
        if s.to_set().remove(s[p]).contains(x) {
            let j = choose|j: int| 0 <= j < s.len() && s[j] == x;
            if j < p {
                assert(r[j] == x);
            } else {
                assert(r[j - 1] == x);
            }
        }
    }
    assert(r.to_set() =~= s.to_set().remove(s[p]));
}

proof fn lemma_push_distinct(s: Seq<(u64, u64)>, k: (u64, u64))
    requires
        s.no_duplicates(),
        !s.contains(k),
    ensures
        s.push(k).no_duplicates(),
        s.push(k).to_set() == s.to_set().insert(k),
{
    let r = s.push(k);
    assert forall|i: int, j: int| 0 <= i < r.len() && 0 <= j < r.len() && i != j implies r[i] != r[j] by {
        if i < s.len() && j < s.len() {
            assert(r[i] == s[i] && r[j] == s[j]);
        } else if i < s.len() {
            assert(r[i] == s[i]);
        } else if j < s.len() {
            assert(r[j] == s[j]);
        }
    }
    assert forall|x: (u64, u64)| #[trigger] r.to_set().contains(x) == s.to_set().insert(k).contains(x) by {
        if r.contains(x) {
            let j = choose|j: int| 0 <= j < r.len() && r[j] == x;
            if j < s.len() {
                assert(s[j] == x);
            }
        }
        if s.contains(x) {
            let j = choose|j: int| 0 <= j < s.len() && s[j] == x;
            assert(r[j] == x);
        }
        if x == k {
            assert(r[s.len() as int] == k);
        }
    }
    assert(r.to_set() =~= s.to_set().insert(k));
}

proof fn lemma_without_key(s: Seq<(u64, u64)>, k: (u64, u64))
    requires
        s.no_duplicates(),
        s.contains(k),
    ensures
        0 <= position_of(s, k, 0) < s.len(),
        s[position_of(s, k, 0)] == k,
        without_key(s, k) == s.remove(position_of(s, k, 0)),
        without_key(s, k).no_duplicates(),
        without_key(s, k).to_set() == s.to_set().remove(k),
        without_key(s, k).len() == s.len() - 1,
{
    lemma_position(s, k, 0);
    let p = position_of(s, k, 0);
    if p >= s.len() {
        let j = choose|j: int| 0 <= j < s.len() && s[j] == k;
        assert(false);
    }
    lemma_remove_distinct(s, p);
}

/// The total is a sum: removing a key removes its size.
proof fn lemma_total_remove(order: Seq<(u64, u64)>, entries: Map<(u64, u64), CachedResult>, p: int)
    requires
        0 <= p < order.len(),
    ensures
        total_size(order, entries) == total_size(order.remove(p), entries)
            + entries[order[p]].size_bytes,
    decreases order.len(),
{
    if p < order.len() - 1 {
        lemma_total_remove(order.drop_last(), entries, p);
        assert(order.remove(p).drop_last() == order.drop_last().remove(p));
        assert(order.remove(p).last() == order.last());
        assert(order.drop_last()[p] == order[p]);
    } else {
        assert(order.remove(p) == order.drop_last());
    }
}

/// The total only reads the results of the keys in the order.
proof fn lemma_total_agree(
    order: Seq<(u64, u64)>,
    e1: Map<(u64, u64), CachedResult>,
    e2: Map<(u64, u64), CachedResult>,
)
    requires
        forall|i: int| 0 <= i < order.len() ==> e1[order[i]].size_bytes == e2[order[i]].size_bytes,
    ensures
        total_size(order, e1) == total_size(order, e2),
    decreases order.len(),
{
    if order.len() > 0 {
        assert forall|i: int| 0 <= i < order.drop_last().len() implies e1[order.drop_last()[i]].size_bytes
            == e2[order.drop_last()[i]].size_bytes by {
            assert(order.drop_last()[i] == order[i]);
        }
        lemma_total_agree(order.drop_last(), e1, e2);
    }
}

proof fn lemma_total_nonneg(order: Seq<(u64, u64)>, entries: Map<(u64, u64), CachedResult>)
    ensures
        total_size(order, entries) >= 0,
    decreases order.len(),
{
    if order.len() > 0 {
        lemma_total_nonneg(order.drop_last(), entries);
    }
}

proof fn lemma_wrapping_sub(m: usize, x: usize, t: int)
    requires
        m as int == t % usize_modulus(),
    ensures
        m.wrapping_sub(x) as int == (t - x) % usize_modulus(),
{
    let r = usize_modulus();
    lemma_sub_mod_noop(t, x as int, r);
    lemma_small_mod(x as nat, r as nat);
    let d = m as int - x as int;
    if d < 0 {
        assert((d + r) % r == d % r) by {
            vstd::arithmetic::div_mod::lemma_mod_add_multiples_vanish(d, r);
        }
        lemma_small_mod((d + r) as nat, r as nat);
    } else {
        lemma_small_mod(d as nat, r as nat);
    }
}

proof fn lemma_wrapping_add(m: usize, x: usize, t: int)
    requires
        m as int == t % usize_modulus(),
    ensures
        m.wrapping_add(x) as int == (t + x) % usize_modulus(),
{
    let r = usize_modulus();
    lemma_add_mod_noop(t, x as int, r);
    lemma_small_mod(x as nat, r as nat);
    let d = m as int + x as int;
    if d > usize::MAX {
        assert((d - r) % r == d % r) by {
            vstd::arithmetic::div_mod::lemma_mod_sub_multiples_vanish(d, r);
        }
        lemma_small_mod((d - r) as nat, r as nat);
    } else {
        lemma_small_mod(d as nat, r as nat);
    }
}

/// Evicting the least recently used entry keeps the cache well formed.
proof fn lemma_evict_one(c: SpecQueryCache)
    requires
        entries_wf(c),
        c.order.len() > 0,
    ensures
        entries_wf(evict_one(c)),
        evict_one(c).order.len() == c.order.len() - 1,
{
    let k = c.order[0];
    lemma_remove_distinct(c.order, 0);
    assert(c.order.remove(0) == c.order.drop_first());
    lemma_total_remove(c.order, c.entries, 0);
    let c1 = evict_one(c);
    assert(c1.entries.dom() =~= c1.order.to_set());
    assert forall|i: int| 0 <= i < c1.order.len() implies c1.entries[c1.order[i]].size_bytes
        == c.entries[c1.order[i]].size_bytes by {
        assert(c1.order[i] == c.order[i + 1]);
        assert(c.order[i + 1] != k);
    }
    lemma_total_agree(c1.order, c1.entries, c.entries);
    lemma_wrapping_sub(c.memory_bytes, c.entries[k].size_bytes, total_size(c.order, c.entries));
}

/// Dropping the result under a key keeps the invariant but for the capacity,
/// and leaves no entry under that key.
proof fn lemma_dropped(c: SpecQueryCache, k: (u64, u64))
    requires
        query_cache_wf(c),
    ensures
        entries_wf(dropped(c, k)),
        !dropped(c, k).order.contains(k),
        dropped(c, k).order.len() <= c.order.len(),
        c.entries.contains_key(k) ==> dropped(c, k).order.len() == c.order.len() - 1,
{
    let c1 = dropped(c, k);
    if c.entries.contains_key(k) {
        assert(c.order.contains(k)) by {
            assert(c.order.to_set().contains(k));
        }
        lemma_without_key(c.order, k);
        let p = position_of(c.order, k, 0);
        lemma_total_remove(c.order, c.entries, p);
        assert(c1.entries.dom() =~= c1.order.to_set());
        assert forall|i: int| 0 <= i < c1.order.len() implies c1.entries[c1.order[i]].size_bytes
            == c.entries[c1.order[i]].size_bytes by {
            assert(c1.order.contains(c1.order[i]));
            assert(c1.order[i] != k);
        }
        lemma_total_agree(c1.order, c1.entries, c.entries);
        lemma_wrapping_sub(c.memory_bytes, c.entries[k].size_bytes, total_size(c.order, c.entries));
    }
    assert(entries_wf(c1));
    assert(!c1.order.contains(k)) by {
        if c1.order.contains(k) {
            assert(c1.order.to_set().contains(k));
        }
    }
}

/// Storing a result keeps the cache well formed, and the result is then stored
/// under its key.
pub proof fn lemma_insert_keeps_wf(c: SpecQueryCache, k: (u64, u64), v: CachedResult)
    requires
        query_cache_wf(c),
    ensures
        query_cache_wf(after_insert(c, k, v)),
        c.max_entries > 0 ==> after_insert(c, k, v).entries.contains_key(k),
        c.max_entries > 0 ==> after_insert(c, k, v).entries[k] == v,
{
    if c.max_entries == 0 {
        return;
    }
    let c1 = dropped(c, k);
    lemma_dropped(c, k);
    let c2 = if c1.entries.dom().len() >= c1.max_entries && c1.order.len() > 0 {
        evict_one(c1)
    } else {
        c1
    };
    if c1.entries.dom().len() >= c1.max_entries && c1.order.len() > 0 {
        lemma_evict_one(c1);
        assert(!c2.order.contains(k)) by {
            if c2.order.contains(k) {
                let j = choose|j: int| 0 <= j < c2.order.len() && c2.order[j] == k;
                assert(c1.order[j + 1] == k);
            }
        }
    }
    c1.order.unique_seq_to_set();
    c2.order.unique_seq_to_set();
    let c3 = after_insert(c, k, v);
    lemma_push_distinct(c2.order, k);
    assert(c3.entries.dom() =~= c3.order.to_set());
    assert forall|i: int| 0 <= i < c2.order.len() implies c3.entries[c2.order[i]].size_bytes
        == c2.entries[c2.order[i]].size_bytes by {
        assert(c2.order.contains(c2.order[i]));
    }
    lemma_total_agree(c2.order, c3.entries, c2.entries);
    assert(c3.order.drop_last() == c2.order);
    lemma_wrapping_add(c2.memory_bytes, v.size_bytes, total_size(c2.order, c2.entries));
}

/// A lookup keeps the cache well formed, and hits and misses still add up to the lookups.
pub proof fn lemma_get_keeps_wf(c: SpecQueryCache, k: (u64, u64))
    requires
        query_cache_wf(c),
    ensures
        query_cache_wf(after_get(c, k)),
{
    let c1 = after_get(c, k);
    if c.entries.contains_key(k) {
        assert(c.order.contains(k)) by {
            assert(c.order.to_set().contains(k));
        }
        lemma_without_key(c.order, k);
        let p = position_of(c.order, k, 0);
        let w = without_key(c.order, k);
        lemma_push_distinct(w, k);
        assert(c1.order.to_set() =~= c.order.to_set());
        lemma_total_remove(c.order, c.entries, p);
        assert(c1.order.drop_last() == w);
        assert(total_size(c1.order, c.entries) == total_size(c.order, c.entries));
        assert(c.hits.wrapping_add(1).wrapping_add(c.misses) == c.lookups.wrapping_add(1)) by {
            assert(c.lookups == c.hits.wrapping_add(c.misses));
        }
    } else {
        assert(c.hits.wrapping_add(c.misses.wrapping_add(1)) == c.lookups.wrapping_add(1)) by {
            assert(c.lookups == c.hits.wrapping_add(c.misses));
        }
    }
}

/// Shrinking keeps the cache well formed and leaves no more entries than asked.
pub proof fn lemma_shrink(c: SpecQueryCache, n: usize)
    requires
        entries_wf(c),
    ensures
        entries_wf(shrink(c, n)),
        shrink(c, n).order.len() <= n,
    decreases c.order.len(),
{
    c.order.unique_seq_to_set();
    if c.entries.dom().len() > n && c.order.len() > 0 {
        lemma_evict_one(c);
        lemma_shrink(evict_one(c), n);
    }
}

/// Shrinking keeps exactly the most recently used entries: after it, the keys
/// left are the last `min(n, len)` keys of the LRU order, in the same order,
/// each with its result; every evicted key was used less recently than every
/// kept one.
pub proof fn lemma_shrink_keeps_newest(c: SpecQueryCache, n: usize)
    requires
        entries_wf(c),
    ensures
        ({
            let keep = if c.order.len() < n { c.order.len() as int } else { n as int };
            let c1 = shrink(c, n);
            &&& c1.order == c.order.skip(c.order.len() - keep)
            &&& forall|k: (u64, u64)| #[trigger] c1.entries.contains_key(k) ==> c.entries.contains_key(k)
                && c1.entries[k] == c.entries[k]
        }),
    decreases c.order.len(),
{
    c.order.unique_seq_to_set();
    if c.entries.dom().len() > n && c.order.len() > 0 {
        lemma_evict_one(c);
        let c1 = evict_one(c);
        lemma_shrink_keeps_newest(c1, n);
        let keep = if c1.order.len() < n { c1.order.len() as int } else { n as int };
        assert(c1.order.skip(c1.order.len() - keep) =~= c.order.skip(c.order.len() - keep));
    } else {
        assert(c.order.skip(0) =~= c.order);
    }
}

/// After a result is stored under a key, a lookup of that key finds it: a
/// read gives back what the last write wrote (in a cache that can hold an
/// entry).
pub proof fn lemma_get_after_insert(c: SpecQueryCache, k: (u64, u64), v: CachedResult)
    requires
        query_cache_wf(c),
        c.max_entries > 0,
    ensures
        after_insert(c, k, v).entries.contains_key(k),
        after_insert(c, k, v).entries[k] == v,
        after_get(after_insert(c, k, v), k).hits == after_insert(c, k, v).hits.wrapping_add(1),
{
    lemma_insert_keeps_wf(c, k, v);
}

/// Storing a result writes only its own key: every other key keeps the
/// result it had, or is gone (evicted); no other key gains a result. A
/// result stored under one index revision is never found under another.
pub proof fn lemma_insert_writes_only_its_key(c: SpecQueryCache, k: (u64, u64), v: CachedResult, other: (u64, u64))
    requires
        other != k,
    ensures
        after_insert(c, k, v).entries.contains_key(other) ==> c.entries.contains_key(other)
            && after_insert(c, k, v).entries[other] == c.entries[other],
{
}

impl QueryCache {
    /// The cache is well formed.
    pub open spec fn wf(&self) -> bool {
        query_cache_wf(self@)
    }

    /// Create a new query cache with the specified maximum number of entries.
    pub fn new(max_entries: usize) -> (c: QueryCache)
        requires
            max_entries as int * 256 <= isize::MAX as int,
        ensures
            c.wf(),
            c@.entries == Map::<(u64, u64), CachedResult>::empty(),
            c@.order.len() == 0,
            c@.max_entries == max_entries,
            c@.lookups == 0 && c@.hits == 0 && c@.misses == 0 && c@.evictions == 0
                && c@.memory_bytes == 0,
    {
        let c = QueryCache {
            max_entries,
            cache: results_with_capacity(max_entries),
            lru_queue: VecDeque::with_capacity(max_entries),
            lookups: 0,
            hits: 0,
            misses: 0,
            evictions: 0,
            memory_bytes: 0,
        };
        assert(c@.order.to_set() =~= Set::<(u64, u64)>::empty());
        assert(c@.entries.dom() =~= Set::<(u64, u64)>::empty());
        proof {
            lemma_small_mod(0, usize_modulus() as nat);
        }
        c
    }

    /// Get the maximum number of entries this cache can hold.
    pub fn max_entries(&self) -> (n: usize)
        ensures
            n == self@.max_entries,
    {
        self.max_entries
    }

    fn unlink(&mut self, key: (u64, u64))
        ensures
            final(self)@ == (SpecQueryCache { order: without_key(old(self)@.order, key), ..old(self)@ }),
    {
        let mut i: usize = 0;
        while i < self.lru_queue.len()
            invariant
                self@ == old(self)@,
                i <= self@.order.len(),
                position_of(self@.order, key, 0) == position_of(self@.order, key, i as int),
            decreases self@.order.len() - i,
        {
            let k = self.lru_queue[i];
            if k.0 == key.0 && k.1 == key.1 {
                self.lru_queue.remove(i);
                proof {
                    assert(old(self)@.order.contains(key)) by {
                        assert(old(self)@.order[i as int] == key);
                    }
                }
                return;
            }
            i = i + 1;
        }
        proof {
            lemma_position(self@.order, key, 0);
            assert(!self@.order.contains(key)) by {
                if self@.order.contains(key) {
                    let j = choose|j: int| 0 <= j < self@.order.len() && self@.order[j] == key;
                }
            }
        }
    }

    /// Get a cached result if it exists; updates LRU order and statistics.
    pub fn get(&mut self, key: &CacheKey) -> (r: Option<&CachedResult>)
        requires
            old(self).wf(),
        ensures
            final(self).wf(),
            final(self)@ == after_get(old(self)@, key_of(*key)),
            match r {
                Some(v) => old(self)@.entries.contains_key(key_of(*key)) && *v == old(self)@.entries[key_of(*key)],
                None => !old(self)@.entries.contains_key(key_of(*key)),
            },
    {
        proof {
            lemma_get_keeps_wf(self@, key_of(*key));
        }
        let k = (key.query_hash, key.index_revision);
        self.lookups = self.lookups.wrapping_add(1);
        if results_get(&self.cache, &k).is_some() {
            self.unlink(k);
            self.lru_queue.push_back(k);
            self.hits = self.hits.wrapping_add(1);
            results_get(&self.cache, &k)
        } else {
            self.misses = self.misses.wrapping_add(1);
            None
        }
    }

    /// Insert a result into the cache; evicts the least recently used entry if
    /// the cache is full.
    pub fn insert(&mut self, key: CacheKey, result: CachedResult)
        requires
            old(self).wf(),
        ensures
            final(self).wf(),
            final(self)@ == after_insert(old(self)@, key_of(key), result),
    {
        proof {
            lemma_insert_keeps_wf(self@, key_of(key), result);
        }
        let ghost c0 = self@;
        if self.max_entries == 0 {
            return;
        }
        let k = (key.query_hash, key.index_revision);
        assert(k == key_of(key));
        let ghost c1 = dropped(c0, k);
        proof {
            lemma_dropped(c0, k);
        }
        match results_remove(&mut self.cache, &k) {
            Some(old_result) => {
                self.memory_bytes = self.memory_bytes.wrapping_sub(old_result.size_bytes);
                self.unlink(k);
            },
            None => {
                assert(stored_results(self.cache) =~= c0.entries);
            },
        }
        assert(self@ == c1);
        let ghost c2 = if c1.entries.dom().len() >= c1.max_entries && c1.order.len() > 0 {
            evict_one(c1)
        } else {
            c1
        };
        if results_len(&self.cache) >= self.max_entries {
            match self.lru_queue.pop_front() {
                Some(lru_key) => {
                    assert(c1.order.to_set().contains(lru_key)) by {
                        assert(c1.order[0] == lru_key);
                    }
                    match results_remove(&mut self.cache, &lru_key) {
                        Some(evicted) => {
                            self.memory_bytes = self.memory_bytes.wrapping_sub(evicted.size_bytes);
                            self.evictions = self.evictions.wrapping_add(1);
                            assert(self@ == c2);
                        },
                        None => {
                            assert(false);
                        },
                    }
                },
                None => {
                    assert(self@ == c2);
                },
            }
        } else {
            assert(self@ == c2);
        }
        self.memory_bytes = self.memory_bytes.wrapping_add(result.size_bytes);
        results_insert(&mut self.cache, k, result);
        self.lru_queue.push_back(k);
    }

    /// Clear all entries from the cache; the statistics are kept.
    pub fn clear(&mut self)
        requires
            old(self).wf(),
        ensures
            final(self).wf(),
            final(self)@ == (SpecQueryCache {
                entries: Map::empty(),
                order: Seq::empty(),
                memory_bytes: 0,
                ..old(self)@
            }),
    {
        results_clear(&mut self.cache);
        self.lru_queue.clear();
        self.memory_bytes = 0;
        assert(self@.order.to_set() =~= Set::<(u64, u64)>::empty());
        assert(self@.entries.dom() =~= Set::<(u64, u64)>::empty());
    }

    /// Get current cache statistics.
    pub fn stats(&self) -> (s: CacheStats)
        requires
            self.wf(),
        ensures
            s.lookups == self@.lookups,
            s.hits == self@.hits,
            s.misses == self@.misses,
            s.evictions == self@.evictions,
            s.entries == self@.order.len(),
            s.memory_bytes == self@.memory_bytes,
    {
        proof {
            self@.order.unique_seq_to_set();
        }
        CacheStats {
            lookups: self.lookups,
            hits: self.hits,
            misses: self.misses,
            evictions: self.evictions,
            entries: results_len(&self.cache),
            memory_bytes: self.memory_bytes,
        }
    }

    /// Reset statistics counters (but keep cached entries).
    pub fn reset_stats(&mut self)
        requires
            old(self).wf(),
        ensures
            final(self).wf(),
            final(self)@ == (SpecQueryCache { lookups: 0, hits: 0, misses: 0, evictions: 0, ..old(self)@ }),
    {
        self.lookups = 0;
        self.hits = 0;
        self.misses = 0;
        self.evictions = 0;
    }

    /// Resize the cache to a new maximum number of entries, evicting the least
    /// recently used entries above it.
    pub fn resize(&mut self, new_max_entries: usize)
        requires
            old(self).wf(),
        ensures
            final(self).wf(),
            final(self)@ == shrink(SpecQueryCache { max_entries: new_max_entries, ..old(self)@ }, new_max_entries),
            final(self)@.order.len() <= new_max_entries,
    {
        let ghost start = SpecQueryCache { max_entries: new_max_entries, ..self@ };
        self.max_entries = new_max_entries;
        assert(self@ == start);
        while results_len(&self.cache) > new_max_entries
            invariant
                entries_wf(self@),
                self@.max_entries == new_max_entries,
                shrink(self@, new_max_entries) == shrink(start, new_max_entries),
            ensures
                entries_wf(self@),
                shrink(self@, new_max_entries) == shrink(start, new_max_entries),
                self@.entries.dom().len() <= new_max_entries || self@.order.len() == 0,
            decreases self@.order.len(),
        {
            let ghost before = self@;
            match self.lru_queue.pop_front() {
                Some(lru_key) => {
                    match results_remove(&mut self.cache, &lru_key) {
                        Some(evicted) => {
                            self.memory_bytes = self.memory_bytes.wrapping_sub(evicted.size_bytes);
                            self.evictions = self.evictions.wrapping_add(1);
                            proof {
                                lemma_evict_one(before);
                                assert(self@ == evict_one(before));
                            }
                        },
                        None => {
                            proof {
                                assert(before.order.to_set().contains(lru_key)) by {
                                    assert(before.order[0] == lru_key);
                                }
                            }
                            break;
                        },
                    }
                },
                None => {
                    break;
                },
            }
        }
        proof {
            self@.order.unique_seq_to_set();
            lemma_shrink(self@, new_max_entries);
        }
    }
}

} // verus!
