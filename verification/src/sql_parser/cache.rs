//! SQL translation cache for avoiding redundant parsing and translation.
//!
//! An LRU cache of translations keyed by a hash of the SQL text and the
//! schema version. The cache and its hit and miss counters are one value,
//! which its owner passes to the functions of this module.

use vstd::prelude::*;
use std::collections::HashMap;
use std::collections::VecDeque;
use std::collections::hash_map::DefaultHasher;
use std::hash::Hasher;
use vstd::string::StringSliceAdditionalSpecFns;
use vstd::std_specs::hash::DefaultHasherAdditionalSpecFns;
use vstd::bytes::{spec_u64_to_le_bytes, u64_to_le_bytes};
use crate::sql_parser::error::{SpecSqlError, SqlError};
use crate::sql_parser::{
    QuerySchema, SpecQuerySchema, SpecTranslation, Translation, empty_schema, translatable_text,
    translate_with_schema, translation_of,
};

verus! {

broadcast use {vstd::std_specs::hash::group_hash_axioms, vstd::std_specs::vecdeque::group_vec_dequeue_axioms};

/// Configuration for the SQL translation cache.
#[derive(Debug, Clone, Copy)]
pub struct CacheConfig {
    /// Maximum number of entries in the cache. Default: 1000.
    pub max_entries: usize,
}

impl Default for CacheConfig {
    fn default() -> (c: CacheConfig)
        ensures
            c.max_entries == 1000,
    {
        CacheConfig { max_entries: 1000 }
    }
}

/// Statistics for cache performance monitoring.
#[derive(Debug, Clone, Copy)]
pub struct CacheStats {
    /// Number of entries currently in the cache.
    pub entries: usize,
    /// Total number of cache hits.
    pub hits: u64,
    /// Total number of cache misses.
    pub misses: u64,
}

impl Default for CacheStats {
    fn default() -> (s: CacheStats)
        ensures
            s.entries == 0,
            s.hits == 0,
            s.misses == 0,
    {
        CacheStats { entries: 0, hits: 0, misses: 0 }
    }
}

/// The model of a cache: the translation of each key, the keys from least
/// to most recently used, the capacity, and the counters.
pub struct SpecCache {
    pub entries: Map<u64, SpecTranslation>,
    pub order: Seq<u64>,
    pub max_entries: usize,
    pub hits: u64,
    pub misses: u64,
}

/// Where a cached translation came from: the SQL text, its UTF-8 bytes, and
/// the schema it was translated with.
pub struct CacheSource {
    pub sql: Seq<char>,
    pub bytes: Seq<u8>,
    pub schema: SpecQuerySchema,
}

/// The translation `t` stored under key `k` is what the source translates to,
/// and `k` is the source's cache key.
pub open spec fn source_matches(src: CacheSource, k: u64, t: SpecTranslation) -> bool {
    &&& cache_key(src.bytes, src.schema.version) == k
    &&& translation_of(src.sql, src.bytes.len(), src.schema) == Ok::<SpecTranslation, SpecSqlError>(t)
}

/// Every entry has a recorded source that it is the translation of.
pub open spec fn entries_sourced(entries: Map<u64, SpecTranslation>, sources: Map<u64, CacheSource>) -> bool {
    forall|k: u64| #[trigger]
        entries.contains_key(k) ==> sources.contains_key(k) && source_matches(sources[k], k, entries[k])
}

/// The LRU cache of translations with its hit and miss counters.
pub struct TranslationCache {
    cache: HashMap<u64, Translation>,
    lru_queue: VecDeque<u64>,
    config: CacheConfig,
    hits: u64,
    misses: u64,
    /// The text and schema each stored translation was made from.
    sources: Ghost<Map<u64, CacheSource>>,
}

impl View for TranslationCache {
    type V = SpecCache;

    closed spec fn view(&self) -> SpecCache {
        SpecCache {
            entries: self.cache@.map_values(|t: Translation| t@),
            order: self.lru_queue@,
            max_entries: self.config.max_entries,
            hits: self.hits,
            misses: self.misses,
        }
    }
}

/// Every key is in the LRU order exactly once, and there are no more entries
/// than the configured maximum.
pub open spec fn cache_wf(c: SpecCache) -> bool {
    &&& c.order.no_duplicates()
    &&& c.entries.dom() == c.order.to_set()
    &&& c.order.len() <= c.max_entries
}

/// Position of the first occurrence of `k` in `s`, from `i` on.
pub open spec fn position_from(s: Seq<u64>, k: u64, i: int) -> int
    decreases s.len() - i,
{
    if i < 0 || i >= s.len() {
        s.len() as int
    } else if s[i] == k {
        i
    } else {
        position_from(s, k, i + 1)
    }
}

/// `s` without its first occurrence of `k`.
pub open spec fn without(s: Seq<u64>, k: u64) -> Seq<u64> {
    if s.contains(k) {
        s.remove(position_from(s, k, 0))
    } else {
        s
    }
}

/// The LRU order after a use of `k`: `k` moves to the back.
pub open spec fn touched(s: Seq<u64>, k: u64) -> Seq<u64> {
    if s.contains(k) {
        without(s, k).push(k)
    } else {
        s
    }
}

/// Eviction of least recently used keys while there are at least `limit`
/// entries and keys left in the order.
pub open spec fn evict_front(order: Seq<u64>, entries: Map<u64, SpecTranslation>, limit: nat) -> (
    Seq<u64>,
    Map<u64, SpecTranslation>,
)
    decreases order.len(),
{
    if entries.dom().len() >= limit && order.len() > 0 {
        evict_front(order.drop_first(), entries.remove(order[0]), limit)
    } else {
        (order, entries)
    }
}

/// The cache after storing `t` under `k`: an older entry of `k` is dropped,
/// least recently used entries are evicted until there is room, and `k`
/// becomes the most recently used key. A cache of capacity zero stores
/// nothing.
pub open spec fn after_insert(c: SpecCache, k: u64, t: SpecTranslation) -> SpecCache {
    if c.max_entries == 0 {
        c
    } else {
        let ev = evict_front(without(c.order, k), c.entries, c.max_entries as nat);
        SpecCache { entries: ev.1.insert(k, t), order: ev.0.push(k), ..c }
    }
}

/// The cache after its capacity is set: least recently used entries are
/// evicted while there are more than it allows.
pub open spec fn after_config(c: SpecCache, max_entries: usize) -> SpecCache {
    let ev = evict_front(c.order, c.entries, max_entries as nat + 1);
    SpecCache { entries: ev.1, order: ev.0, max_entries, ..c }
}

/// An empty cache of the given capacity and counters.
pub open spec fn empty_cache(max_entries: usize, hits: u64, misses: u64) -> SpecCache {
    SpecCache { entries: Map::empty(), order: Seq::empty(), max_entries, hits, misses }
}

/// One cached translation under key `h`, `translated` being what the
/// translation of the text gives: a hit returns the stored translation and
/// counts a hit; a miss stores a successful translation and counts a miss; a
/// failed translation leaves the cache as it is.
pub open spec fn cached_call(c: SpecCache, h: u64, translated: Result<SpecTranslation, SpecSqlError>) -> (
    Result<SpecTranslation, SpecSqlError>,
    SpecCache,
) {
    if c.entries.contains_key(h) {
        (Ok(c.entries[h]), SpecCache { order: touched(c.order, h), hits: c.hits.wrapping_add(1), ..c })
    } else {
        match translated {
            Err(e) => (Err(e), c),
            Ok(t) => (Ok(t), SpecCache { misses: c.misses.wrapping_add(1), ..after_insert(c, h, t) }),
        }
    }
}

proof fn lemma_position(s: Seq<u64>, k: u64, i: int)
    requires
        0 <= i <= s.len(),
    ensures
        i <= position_from(s, k, i) <= s.len(),
        position_from(s, k, i) < s.len() ==> s[position_from(s, k, i)] == k,
        forall|j: int| i <= j < position_from(s, k, i) ==> s[j] != k,
    decreases s.len() - i,
{
    if i < s.len() && s[i] != k {
        lemma_position(s, k, i + 1);
    }
}

proof fn lemma_remove_distinct(s: Seq<u64>, p: int)
    requires
        s.no_duplicates(),
        0 <= p < s.len(),
    ensures
        s.remove(p).no_duplicates(),
        s.remove(p).to_set() == s.to_set().remove(s[p]),
{
    let r = s.remove(p);
    assert forall|x: u64| #[trigger] r.to_set().contains(x) == s.to_set().remove(s[p]).contains(x) by {
        if r.contains(x) {
            let j = choose|j: int| 0 <= j < r.len() && r[j] == x;
            if j < p {
                assert(s[j] == x);
            } else {
                assert(s[j + 1] == x);
            }
        }
        if s.to_set().remove(s[p]).contains(x) {
            let j = choose|j: int| 0 <= j < s.len() && s[j] == x;
            if j < p {
                assert(r[j] == x);
            } else {
                assert(r[j - 1] == x);
            }
        }
    }
    assert(r.to_set() =~= s.to_set().remove(s[p]));
}

proof fn lemma_without(s: Seq<u64>, k: u64)
    requires
        s.no_duplicates(),
    ensures
        without(s, k).no_duplicates(),
        without(s, k).to_set() == s.to_set().remove(k),
        !without(s, k).contains(k),
        s.contains(k) ==> without(s, k).len() == s.len() - 1,
{
    if s.contains(k) {
        lemma_position(s, k, 0);
        let p = position_from(s, k, 0);
        if p >= s.len() {
            let j = choose|j: int| 0 <= j < s.len() && s[j] == k;
            assert(false);
        }
        lemma_remove_distinct(s, p);
        assert(!s.remove(p).to_set().contains(k));
    } else {
        assert(s.to_set().remove(k) =~= s.to_set());
    }
}

proof fn lemma_push_distinct(s: Seq<u64>, k: u64)
    requires
        s.no_duplicates(),
        !s.contains(k),
    ensures
        s.push(k).no_duplicates(),
        s.push(k).to_set() == s.to_set().insert(k),
{
    let r = s.push(k);
    assert forall|i: int, j: int| 0 <= i < r.len() && 0 <= j < r.len() && i != j implies r[i] != r[j] by {
        if i < s.len() && j < s.len() {
            assert(r[i] == s[i] && r[j] == s[j]);
        } else if i < s.len() {
            assert(r[i] == s[i]);
        } else if j < s.len() {
            assert(r[j] == s[j]);
        }
    }
    assert forall|x: u64| #[trigger] r.to_set().contains(x) == s.to_set().insert(k).contains(x) by {
        if r.contains(x) {
            let j = choose|j: int| 0 <= j < r.len() && r[j] == x;
            if j < s.len() {
                assert(s[j] == x);
            }
        }
        if s.contains(x) {
            let j = choose|j: int| 0 <= j < s.len() && s[j] == x;
            assert(r[j] == x);
        }
        if x == k {
            assert(r[s.len() as int] == k);
        }
    }
    assert(r.to_set() =~= s.to_set().insert(k));
}

proof fn lemma_evict(order: Seq<u64>, entries: Map<u64, SpecTranslation>, limit: nat, skip: Set<u64>)
    requires
        order.no_duplicates(),
        entries.dom() == order.to_set().union(skip),
        skip.finite(),
        skip.len() <= 1,
        forall|x: u64| skip.contains(x) ==> !order.contains(x),
    ensures
        ({
            let ev = evict_front(order, entries, limit);
            &&& ev.0.no_duplicates()
            &&& ev.1.dom() == ev.0.to_set().union(skip)
            &&& ev.1.dom().len() < limit || ev.0.len() == 0
            &&& forall|x: u64| skip.contains(x) ==> !ev.0.contains(x)
            &&& forall|x: u64| #[trigger] ev.1.contains_key(x) ==> entries.contains_key(x) && ev.1[x]
                == entries[x]
        }),
    decreases order.len(),
{
    order.unique_seq_to_set();
    if entries.dom().len() >= limit && order.len() > 0 {
        let rest = order.drop_first();
        assert(rest =~= order.remove(0));
        lemma_remove_distinct(order, 0);
        let e2 = entries.remove(order[0]);
        assert(e2.dom() =~= rest.to_set().union(skip)) by {
            assert(!skip.contains(order[0]));
        }
        assert forall|x: u64| skip.contains(x) implies !rest.contains(x) by {
            if rest.contains(x) {
                let j = choose|j: int| 0 <= j < rest.len() && rest[j] == x;
                assert(order[j + 1] == x);
            }
        }
        lemma_evict(rest, e2, limit, skip);
    }
}

proof fn lemma_cardinality(order: Seq<u64>, skip: Set<u64>)
    requires
        order.no_duplicates(),
        skip.finite(),
        forall|x: u64| skip.contains(x) ==> !order.contains(x),
    ensures
        order.to_set().union(skip).len() == order.len() + skip.len(),
        order.to_set().finite(),
{
    order.unique_seq_to_set();
    vstd::seq_lib::seq_to_set_is_finite(order);
    assert(order.to_set().disjoint(skip));
    vstd::set_lib::lemma_set_disjoint_lens(order.to_set(), skip);
}

/// Storing a translation keeps the cache well formed.
pub proof fn lemma_insert_keeps_wf(c: SpecCache, k: u64, t: SpecTranslation)
    requires
        cache_wf(c),
    ensures
        cache_wf(after_insert(c, k, t)),
        c.max_entries > 0 ==> after_insert(c, k, t).entries.contains_key(k),
        c.max_entries > 0 ==> after_insert(c, k, t).entries[k] == t,
{
    if c.max_entries == 0 {
        return;
    }
    lemma_without(c.order, k);
    let w = without(c.order, k);
    let skip = if c.entries.contains_key(k) { set![k] } else { Set::<u64>::empty() };
    assert(c.entries.dom() =~= w.to_set().union(skip));
    lemma_evict(w, c.entries, c.max_entries as nat, skip);
    let ev = evict_front(w, c.entries, c.max_entries as nat);
    assert(!ev.0.contains(k)) by {
        if ev.0.contains(k) {
            assert(ev.0.to_set().contains(k));
            assert(ev.1.dom().contains(k));
        }
    }
    lemma_push_distinct(ev.0, k);
    lemma_cardinality(ev.0, skip);
    assert(ev.1.dom().insert(k) =~= ev.0.push(k).to_set());
    ev.0.push(k).unique_seq_to_set();
    if ev.0.len() == 0 {
        assert(ev.0.push(k).len() == 1);
    }
}

/// Setting the capacity keeps the cache well formed; no more entries are
/// left than the new capacity.
pub proof fn lemma_config_keeps_wf(c: SpecCache, max_entries: usize)
    requires
        cache_wf(c),
    ensures
        cache_wf(after_config(c, max_entries)),
        after_config(c, max_entries).order.len() <= max_entries,
{
    assert(c.entries.dom() =~= c.order.to_set().union(Set::<u64>::empty()));
    lemma_evict(c.order, c.entries, max_entries as nat + 1, Set::empty());
    let ev = evict_front(c.order, c.entries, max_entries as nat + 1);
    lemma_cardinality(ev.0, Set::empty());
    assert(ev.1.dom() =~= ev.0.to_set());
}

proof fn lemma_evict_keeps_newest(order: Seq<u64>, entries: Map<u64, SpecTranslation>, limit: nat)
    requires
        order.no_duplicates(),
        entries.dom() == order.to_set(),
        limit >= 1,
    ensures
        ({
            let keep = if order.len() < limit { order.len() as int } else { limit - 1 };
            evict_front(order, entries, limit).0 == order.skip(order.len() - keep)
        }),
    decreases order.len(),
{
    order.unique_seq_to_set();
    if entries.dom().len() >= limit && order.len() > 0 {
        lemma_remove_distinct(order, 0);
        let rest = order.drop_first();
        assert(rest =~= order.remove(0));
        assert(entries.remove(order[0]).dom() =~= rest.to_set());
        lemma_evict_keeps_newest(rest, entries.remove(order[0]), limit);
        let keep = if rest.len() < limit { rest.len() as int } else { limit - 1 };
        assert(rest.skip(rest.len() - keep) =~= order.skip(order.len() - keep));
    } else {
        assert(order.skip(0) =~= order);
    }
}

/// Setting the capacity to `m` keeps the `min(entries, m)` most recently used
/// entries, each with its translation, and leaves the counters as they were.
pub proof fn lemma_config_keeps_newest(c: SpecCache, m: usize)
    requires
        cache_wf(c),
    ensures
        ({
            let keep = if c.order.len() < m { c.order.len() as int } else { m as int };
            let c1 = after_config(c, m);
            &&& c1.order == c.order.skip(c.order.len() - keep)
            &&& c1.order.len() == keep
            &&& forall|k: u64| #[trigger] c1.entries.contains_key(k) ==> c.entries.contains_key(k) && c1.entries[k] == c.entries[k]
            &&& c1.hits == c.hits
            &&& c1.misses == c.misses
            &&& c1.max_entries == m
        }),
{
    lemma_evict_keeps_newest(c.order, c.entries, m as nat + 1);
    assert(c.entries.dom() =~= c.order.to_set().union(Set::<u64>::empty()));
    lemma_evict(c.order, c.entries, m as nat + 1, Set::empty());
}

/// Every cached translation keeps the cache well formed: each key is in the
/// LRU order once, and there are no more entries than the capacity.
pub proof fn lemma_call_keeps_wf(c: SpecCache, h: u64, translated: Result<SpecTranslation, SpecSqlError>)
    requires
        cache_wf(c),
    ensures
        cache_wf(cached_call(c, h, translated).1),
{
    if c.entries.contains_key(h) {
        assert(c.order.contains(h)) by {
            assert(c.order.to_set().contains(h));
        }
        lemma_without(c.order, h);
        lemma_push_distinct(without(c.order, h), h);
        let c1 = cached_call(c, h, translated).1;
        assert(c1.order.to_set() =~= c.order.to_set());
    } else if translated is Ok {
        lemma_insert_keeps_wf(c, h, translated->Ok_0);
    }
}

/// A cached call under one key writes only that key: every other key keeps
/// its translation, or is gone (evicted); no other key gains one.
pub proof fn lemma_call_writes_only_its_key(
    c: SpecCache,
    h: u64,
    translated: Result<SpecTranslation, SpecSqlError>,
    other: u64,
)
    requires
        cache_wf(c),
        other != h,
    ensures
        ({
            let c1 = cached_call(c, h, translated).1;
            c1.entries.contains_key(other) ==> c.entries.contains_key(other) && c1.entries[other]
                == c.entries[other]
        }),
{
    if !c.entries.contains_key(h) && translated is Ok && c.max_entries > 0 {
        lemma_without(c.order, h);
        let w = without(c.order, h);
        assert(c.entries.dom() =~= w.to_set().union(Set::<u64>::empty()));
        lemma_evict(w, c.entries, c.max_entries as nat, Set::empty());
    }
}

/// In a cache whose entries all have their sources recorded, what is stored
/// under a key (what a hit returns) is the translation of a text and schema
/// whose cache key is that key.
pub proof fn lemma_hit_translates_a_text_with_its_key(
    entries: Map<u64, SpecTranslation>,
    sources: Map<u64, CacheSource>,
    k: u64,
)
    requires
        entries_sourced(entries, sources),
        entries.contains_key(k),
    ensures
        exists|src: CacheSource|
            cache_key(src.bytes, src.schema.version) == k && translation_of(
                src.sql,
                src.bytes.len(),
                src.schema,
            ) == Ok::<SpecTranslation, SpecSqlError>(entries[k]),
{
    let src = sources[k];
    assert(source_matches(src, k, entries[k]));
}

/// A cached translation agrees with the translation itself, hit or miss, as
/// long as the entry under the text's key (if any) came from the same text
/// and schema: no other text shares the key.
pub proof fn lemma_cached_translation_agrees(
    c: SpecCache,
    sources: Map<u64, CacheSource>,
    sql: Seq<char>,
    bytes: Seq<u8>,
    schema: SpecQuerySchema,
)
    requires
        entries_sourced(c.entries, sources),
        c.entries.contains_key(cache_key(bytes, schema.version)) ==> sources[cache_key(
            bytes,
            schema.version,
        )] == (CacheSource { sql, bytes, schema }),
    ensures
        cached_call(c, cache_key(bytes, schema.version), translation_of(sql, bytes.len(), schema)).0
            == translation_of(sql, bytes.len(), schema),
{
    let k = cache_key(bytes, schema.version);
    if c.entries.contains_key(k) {
        assert(source_matches(sources[k], k, c.entries[k]));
    }
}

/// Once a call under a key has returned a translation, the next call under
/// that key is a hit that returns the same translation, whatever the text
/// would now translate to; it counts one hit and no miss. (A cache of
/// capacity zero stores nothing, so there every call is a miss.)
pub proof fn lemma_repeat_is_hit(
    c: SpecCache,
    h: u64,
    first: Result<SpecTranslation, SpecSqlError>,
    second: Result<SpecTranslation, SpecSqlError>,
)
    requires
        cache_wf(c),
        c.max_entries > 0,
        cached_call(c, h, first).0 is Ok,
    ensures
        ({
            let (r1, c1) = cached_call(c, h, first);
            let (r2, c2) = cached_call(c1, h, second);
            &&& c1.entries.contains_key(h)
            &&& r2 == r1
            &&& c2.hits == c1.hits.wrapping_add(1)
            &&& c2.misses == c1.misses
            &&& c2.entries == c1.entries
        }),
{
    if !c.entries.contains_key(h) {
        lemma_insert_keeps_wf(c, h, first->Ok_0);
    }
}

/// A translation that fails on a miss leaves the cache, its order and its
/// counters as they were: failures are never cached.
pub proof fn lemma_failure_not_cached(c: SpecCache, h: u64, e: SpecSqlError)
    requires
        !c.entries.contains_key(h),
    ensures
        cached_call(c, h, Err(e)) == (Err::<SpecTranslation, SpecSqlError>(e), c),
{
}

/// A successful call counts exactly one hit or one miss; a failed call counts neither.
pub proof fn lemma_counters(c: SpecCache, h: u64, translated: Result<SpecTranslation, SpecSqlError>)
    ensures
        ({
            let (r, c1) = cached_call(c, h, translated);
            &&& r is Ok ==> (c1.hits == c.hits.wrapping_add(1) && c1.misses == c.misses) || (
            c1.hits == c.hits && c1.misses == c.misses.wrapping_add(1))
            &&& r is Err ==> c1.hits == c.hits && c1.misses == c.misses
        }),
{
}

/// The cache key of SQL text (by its UTF-8 bytes) under a schema version: what
/// the default hasher finishes with after the text's bytes, the byte `0xff`
/// that ends a hashed `str`, and the version's little-endian bytes.
pub open spec fn cache_key(sql_bytes: Seq<u8>, version: u64) -> u64 {
    DefaultHasher::spec_finish(seq![sql_bytes, seq![0xffu8], spec_u64_to_le_bytes(version)])
}

/// The cache key of the SQL text and schema version.
fn hash_sql(sql: &str, schema: &QuerySchema) -> (h: u64)
    ensures
        h == cache_key(sql.spec_bytes(), schema.version),
{
    let mut hasher = DefaultHasher::new();
    hasher.write(sql.as_bytes());
    let mut end: Vec<u8> = Vec::new();
    end.push(0xffu8);
    hasher.write(end.as_slice());
    let version = u64_to_le_bytes(schema.version);
    hasher.write(version.as_slice());
    assert(end@ =~= seq![0xffu8]);
    assert(hasher@ =~= seq![sql.spec_bytes(), seq![0xffu8], spec_u64_to_le_bytes(schema.version)]);
    hasher.finish()
}

fn find_position(q: &VecDeque<u64>, k: u64) -> (p: usize)
    ensures
        p == position_from(q@, k, 0),
{
    let mut i: usize = 0;
    while i < q.len()
        invariant
            i <= q@.len(),
            position_from(q@, k, 0) == position_from(q@, k, i as int),
        decreases q@.len() - i,
    {
        if q[i] == k {
            return i;
        }
        i = i + 1;
    }
    i
}

impl TranslationCache {
    proof fn lemma_dom(&self)
        ensures
            self@.entries.dom() == self.cache@.dom(),
            self.cache@.dom().finite(),
    {
        assert(self@.entries.dom() =~= self.cache@.dom());
    }

    /// The cache is well formed.
    pub open spec fn wf(&self) -> bool {
        cache_wf(self@)
    }

    /// The recorded source of each key.
    pub closed spec fn sources(&self) -> Map<u64, CacheSource> {
        self.sources@
    }

    /// Every stored translation is the translation of a text and schema whose
    /// cache key is the entry's key.
    pub open spec fn sourced(&self) -> bool {
        entries_sourced(self@.entries, self.sources())
    }

    /// An empty cache with the default capacity (1000) and zero counters.
    pub fn new() -> (c: TranslationCache)
        ensures
            c.wf(),
            c@ == empty_cache(1000, 0, 0),
            c.sourced(),
    {
        let c = TranslationCache {
            cache: HashMap::new(),
            lru_queue: VecDeque::new(),
            config: CacheConfig::default(),
            hits: 0,
            misses: 0,
            sources: Ghost(Map::empty()),
        };
        assert(c@.entries =~= Map::<u64, SpecTranslation>::empty());
        assert(c@.order.to_set() =~= Set::<u64>::empty());
        c
    }

    /// Number of entries in the cache.
    pub fn len(&self) -> (n: usize)
        requires
            self.wf(),
        ensures
            n == self@.order.len(),
            n == self@.entries.dom().len(),
    {
        proof {
            self@.order.unique_seq_to_set();
            self.lemma_dom();
        }
        self.cache.len()
    }

    /// Removes the first occurrence of `k` from the LRU order.
    fn unlink(&mut self, k: u64)
        ensures
            final(self)@ == (SpecCache { order: without(old(self)@.order, k), ..old(self)@ }),
            final(self).sources() == old(self).sources(),
    {
        let p = find_position(&self.lru_queue, k);
        proof {
            lemma_position(self@.order, k, 0);
        }
        if p < self.lru_queue.len() {
            self.lru_queue.remove(p);
            assert(self@.order.len() >= 0);
        } else {
            assert(!old(self)@.order.contains(k)) by {
                if old(self)@.order.contains(k) {
                    let j = choose|j: int| 0 <= j < old(self)@.order.len() && old(self)@.order[j] == k;
                }
            }
        }
    }

    /// Looks up a translation and marks it most recently used.
    pub fn get(&mut self, hash: u64) -> (r: Option<Translation>)
        requires
            old(self).wf(),
        ensures
            final(self).sources() == old(self).sources(),
            final(self).wf(),
            match r {
                Some(t) => old(self)@.entries.contains_key(hash) && t@ == old(self)@.entries[hash]
                    && final(self)@ == (SpecCache { order: touched(old(self)@.order, hash), ..old(self)@ }),
                None => !old(self)@.entries.contains_key(hash) && final(self)@ == old(self)@,
            },
    {
        match self.cache.get(&hash) {
            Some(t) => {
                let found = t.duplicate();
                assert(old(self)@.order.contains(hash)) by {
                    assert(old(self)@.order.to_set().contains(hash));
                }
                self.unlink(hash);
                self.lru_queue.push_back(hash);
                proof {
                    old(self).lemma_dom();
                    self.lemma_dom();
                    lemma_without(old(self)@.order, hash);
                    lemma_push_distinct(without(old(self)@.order, hash), hash);
                    assert(self@.order.to_set() =~= old(self)@.order.to_set());
                }
                Some(found)
            },
            None => None,
        }
    }

    /// Stores a translation, evicting least recently used entries to make room.
    pub fn insert(&mut self, hash: u64, translation: Translation)
        requires
            old(self).wf(),
        ensures
            final(self).sources() == old(self).sources(),
            final(self).wf(),
            final(self)@ == after_insert(old(self)@, hash, translation@),
    {
        let ghost c0 = self@;
        if self.config.max_entries == 0 {
            return;
        }
        if self.cache.contains_key(&hash) {
            self.unlink(hash);
        } else {
            assert(without(c0.order, hash) == c0.order) by {
                assert(!c0.order.contains(hash)) by {
                    if c0.order.contains(hash) {
                        assert(c0.order.to_set().contains(hash));
                    }
                }
            }
        }
        let ghost target = evict_front(without(c0.order, hash), c0.entries, c0.max_entries as nat);
        while self.cache.len() >= self.config.max_entries
            invariant
                self.config == old(self).config,
                self.sources() == old(self).sources(),
                self.hits == c0.hits,
                self.misses == c0.misses,
                c0 == old(self)@,
                evict_front(self@.order, self@.entries, c0.max_entries as nat) == target,
            ensures
                self.sources() == old(self).sources(),
                evict_front(self@.order, self@.entries, c0.max_entries as nat) == target,
                self.cache.len() < self.config.max_entries || self@.order.len() == 0,
            decreases self@.order.len(),
        {
            let ghost before = self@;
            proof {
                self.lemma_dom();
            }
            match self.lru_queue.pop_front() {
                Some(lru_hash) => {
                    self.cache.remove(&lru_hash);
                    assert(self@.order =~= before.order.drop_first());
                    assert(self@.entries =~= before.entries.remove(lru_hash));
                },
                None => {
                    break;
                },
            }
        }
        proof {
            self.lemma_dom();
            assert(evict_front(self@.order, self@.entries, c0.max_entries as nat) == (
            self@.order,
            self@.entries,
            ));
            assert(self@.order == target.0);
            assert(self@.entries == target.1);
        }
        let ghost pre = self@;
        self.cache.insert(hash, translation);
        self.lru_queue.push_back(hash);
        proof {
            assert(self@.entries =~= pre.entries.insert(hash, translation@));
            lemma_insert_keeps_wf(c0, hash, translation@);
        }
    }

    /// Removes every entry; the capacity and counters are kept.
    pub fn clear(&mut self)
        requires
            old(self).wf(),
        ensures
            final(self).sources() == old(self).sources(),
            final(self).wf(),
            final(self)@ == empty_cache(old(self)@.max_entries, old(self)@.hits, old(self)@.misses),
    {
        self.cache.clear();
        self.lru_queue.clear();
        assert(self@.entries =~= Map::<u64, SpecTranslation>::empty());
        assert(self@.order.to_set() =~= Set::<u64>::empty());
    }

    /// Sets the configuration, evicting least recently used entries above the
    /// new capacity.
    pub fn set_config(&mut self, config: CacheConfig)
        requires
            old(self).wf(),
        ensures
            final(self).sources() == old(self).sources(),
            final(self).wf(),
            final(self)@ == after_config(old(self)@, config.max_entries),
    {
        let ghost c0 = self@;
        let ghost target = evict_front(c0.order, c0.entries, config.max_entries as nat + 1);
        self.config = config;
        while self.cache.len() > config.max_entries
            invariant
                self.config == config,
                self.sources() == old(self).sources(),
                self.hits == c0.hits,
                self.misses == c0.misses,
                evict_front(self@.order, self@.entries, config.max_entries as nat + 1) == target,
            ensures
                self.config == config,
                self.sources() == old(self).sources(),
                self.hits == c0.hits,
                self.misses == c0.misses,
                evict_front(self@.order, self@.entries, config.max_entries as nat + 1) == target,
                self.cache.len() <= config.max_entries || self@.order.len() == 0,
            decreases self@.order.len(),
        {
            let ghost before = self@;
            proof {
                self.lemma_dom();
            }
            match self.lru_queue.pop_front() {
                Some(lru_hash) => {
                    self.cache.remove(&lru_hash);
                    assert(self@.order =~= before.order.drop_first());
                    assert(self@.entries =~= before.entries.remove(lru_hash));
                },
                None => {
                    break;
                },
            }
        }
        proof {
            self.lemma_dom();
            assert(evict_front(self@.order, self@.entries, config.max_entries as nat + 1) == (
            self@.order,
            self@.entries,
            ));
            assert(self@.order == target.0);
            assert(self@.entries == target.1);
            lemma_config_keeps_wf(c0, config.max_entries);
        }
    }
}

/// Translates SQL through the cache under a given cache key.
pub fn translate_cached_with_hash(
    cache: &mut TranslationCache,
    sql: &str,
    schema: &QuerySchema,
    hash: u64,
) -> (r: Result<Translation, SqlError>)
    requires
        old(cache).wf(),
        !old(cache)@.entries.contains_key(hash) ==> translatable_text(sql),
    ensures
        final(cache).wf(),
        old(cache).sourced() && hash == cache_key(sql.spec_bytes(), schema@.version)
            ==> final(cache).sourced(),
        ({
            let expected = cached_call(
                old(cache)@,
                hash,
                translation_of(sql@, sql.spec_bytes().len(), schema@),
            );
            &&& final(cache)@ == expected.1
            &&& match r {
                Ok(t) => expected.0 == Ok::<SpecTranslation, SpecSqlError>(t@),
                Err(e) => expected.0 == Err::<SpecTranslation, SpecSqlError>(e@),
            }
        }),
{
    match cache.get(hash) {
        Some(t) => {
            cache.hits = cache.hits.wrapping_add(1);
            return Ok(t);
        },
        None => {},
    }
    let translation = translate_with_schema(sql, schema)?;
    let stored = translation.duplicate();
    let ghost before = cache@;
    let ghost sources0 = cache.sources();
    cache.insert(hash, stored);
    cache.misses = cache.misses.wrapping_add(1);
    let ghost src = CacheSource { sql: sql@, bytes: sql.spec_bytes(), schema: schema@ };
    cache.sources = Ghost(
        if hash == cache_key(sql.spec_bytes(), schema@.version) {
            cache.sources@.insert(hash, src)
        } else {
            cache.sources@
        },
    );
    proof {
        if entries_sourced(before.entries, sources0) && hash == cache_key(sql.spec_bytes(), schema@.version) {
            assert forall|k: u64| #[trigger] cache@.entries.contains_key(k) implies cache.sources().contains_key(k)
                && source_matches(cache.sources()[k], k, cache@.entries[k]) by {
                if k != hash {
                    lemma_call_writes_only_its_key(
                        before,
                        hash,
                        translation_of(sql@, sql.spec_bytes().len(), schema@),
                        k,
                    );
                }
            }
        }
    }
    Ok(translation)
}

/// Translates SQL with caching and schema metadata: the cache key is that of
/// the text and the schema version.
pub fn translate_cached_with_schema(cache: &mut TranslationCache, sql: &str, schema: &QuerySchema) -> (r:
    Result<Translation, SqlError>)
    requires
        old(cache).wf(),
        translatable_text(sql),
    ensures
        final(cache).wf(),
        old(cache).sourced() ==> final(cache).sourced(),
        ({
            let expected = cached_call(
                old(cache)@,
                cache_key(sql.spec_bytes(), schema@.version),
                translation_of(sql@, sql.spec_bytes().len(), schema@),
            );
            &&& final(cache)@ == expected.1
            &&& match r {
                Ok(t) => expected.0 == Ok::<SpecTranslation, SpecSqlError>(t@),
                Err(e) => expected.0 == Err::<SpecTranslation, SpecSqlError>(e@),
            }
        }),
{
    let hash = hash_sql(sql, schema);
    translate_cached_with_hash(cache, sql, schema, hash)
}

/// Translates SQL with caching, without schema metadata (schema version 0).
pub fn translate_cached(cache: &mut TranslationCache, sql: &str) -> (r: Result<Translation, SqlError>)
    requires
        old(cache).wf(),
        translatable_text(sql),
    ensures
        final(cache).wf(),
        old(cache).sourced() ==> final(cache).sourced(),
        ({
            let expected = cached_call(
                old(cache)@,
                cache_key(sql.spec_bytes(), 0),
                translation_of(sql@, sql.spec_bytes().len(), empty_schema()),
            );
            &&& final(cache)@ == expected.1
            &&& match r {
                Ok(t) => expected.0 == Ok::<SpecTranslation, SpecSqlError>(t@),
                Err(e) => expected.0 == Err::<SpecTranslation, SpecSqlError>(e@),
            }
        }),
{
    let schema = QuerySchema::empty();
    assert(schema@.fields =~= empty_schema().fields);
    translate_cached_with_schema(cache, sql, &schema)
}

/// Sets the cache configuration, evicting least recently used entries above
/// the new capacity.
pub fn set_cache_config(cache: &mut TranslationCache, config: CacheConfig)
    requires
        old(cache).wf(),
    ensures
        final(cache).wf(),
        final(cache)@ == after_config(old(cache)@, config.max_entries),
        old(cache).sourced() ==> final(cache).sourced(),
{
    let ghost c0 = cache@;
    cache.set_config(config);
    proof {
        assert(c0.entries.dom() =~= c0.order.to_set().union(Set::<u64>::empty()));
        lemma_evict(c0.order, c0.entries, config.max_entries as nat + 1, Set::empty());
    }
}

/// Clears all entries and resets the hit and miss counters; the
/// configuration is kept.
pub fn clear_cache(cache: &mut TranslationCache)
    requires
        old(cache).wf(),
    ensures
        final(cache).wf(),
        final(cache)@ == empty_cache(old(cache)@.max_entries, 0, 0),
        final(cache).sourced(),
{
    cache.clear();
    cache.hits = 0;
    cache.misses = 0;
}

/// The current number of entries, hits and misses.
pub fn get_cache_stats(cache: &TranslationCache) -> (s: CacheStats)
    requires
        cache.wf(),
    ensures
        s.entries == cache@.order.len(),
        s.hits == cache@.hits,
        s.misses == cache@.misses,
{
    CacheStats { entries: cache.len(), hits: cache.hits, misses: cache.misses }
}

} // verus!
