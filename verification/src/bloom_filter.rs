//! Bloom filter for fast term rejection.
//!
//! A Bloom filter tests whether an item may be in a set: false positives are
//! possible, false negatives are not. Each item sets `num_hashes` bits, chosen
//! by seeded XXH3 hashes of its bytes.

use vstd::prelude::*;
use xxhash_rust::xxh3::Xxh3;

verus! {

/// The 64-bit XXH3 hash of the bytes with the seed.
pub uninterp spec fn xxh3_seeded(item: Seq<u8>, seed: u64) -> u64;

/// Hashes the bytes with `xxhash_rust::xxh3::Xxh3` (`with_seed`, `update`,
/// `digest`). The contract names the digest `xxh3_seeded` of the bytes and
/// the seed: the same bytes and seed give the same digest.
#[verifier::external_body]
fn xxh3_hash(item: &[u8], seed: u64) -> (h: u64)
    ensures
        h == xxh3_seeded(item@, seed),
{
    let mut hasher = Xxh3::with_seed(seed);
    hasher.update(item);
    hasher.digest()
}

/// The bit that hash number `seed` picks for the item.
pub open spec fn bit_index(item: Seq<u8>, seed: u32, num_bits: usize) -> int {
    ((xxh3_seeded(item, seed as u64) as usize) % num_bits) as int
}

/// Whether bit `i` is set in the words.
pub open spec fn bit_set(words: Seq<u64>, i: int) -> bool {
    (words[i / 64] >> ((i % 64) as u64)) & 1u64 == 1u64
}

/// The bits an item sets: one per hash function.
pub open spec fn item_bits(item: Seq<u8>, num_hashes: u32, num_bits: usize) -> Set<int> {
    Set::new(|b: int| exists|s: u32| s < num_hashes && b == #[trigger] bit_index(item, s, num_bits))
}

/// Whether every bit of the item is set.
pub open spec fn may_contain(bits: Set<int>, item: Seq<u8>, num_hashes: u32, num_bits: usize) -> bool {
    forall|s: u32| s < num_hashes ==> bits.contains(#[trigger] bit_index(item, s, num_bits))
}

/// The bits set after inserting the items in turn.
pub open spec fn bits_after(bits: Set<int>, items: Seq<Seq<u8>>, num_hashes: u32, num_bits: usize) -> Set<int>
    decreases items.len(),
{
    if items.len() == 0 {
        bits
    } else {
        bits_after(bits, items.drop_last(), num_hashes, num_bits).union(
            item_bits(items.last(), num_hashes, num_bits),
        )
    }
}

/// The model of a filter.
pub struct SpecBloomFilter {
    /// The positions of the set bits.
    pub bits: Set<int>,
    pub num_hashes: u32,
    pub num_bits: usize,
    pub count: usize,
    /// Number of 64-bit words of the bit array.
    pub words: nat,
}

/// A Bloom filter for fast membership testing.
pub struct BloomFilter {
    /// Bit array for the filter
    bits: Vec<u64>,
    /// Number of hash functions to use
    num_hashes: u32,
    /// Number of bits in the filter
    num_bits: usize,
    /// Number of items inserted
    count: usize,
}

impl View for BloomFilter {
    type V = SpecBloomFilter;

    closed spec fn view(&self) -> SpecBloomFilter {
        SpecBloomFilter {
            bits: Set::new(|i: int| 0 <= i < self.num_bits && bit_set(self.bits@, i)),
            num_hashes: self.num_hashes,
            num_bits: self.num_bits,
            count: self.count,
            words: self.bits@.len(),
        }
    }
}

proof fn lemma_or_bit(w: u64, o: u64, o2: u64)
    requires
        o < 64,
        o2 < 64,
    ensures
        ((w | (1u64 << o)) >> o2) & 1u64 == if o2 == o {
            1u64
        } else {
            (w >> o2) & 1u64
        },
{
    assert(((w | (1u64 << o)) >> o2) & 1u64 == if o2 == o {
        1u64
    } else {
        (w >> o2) & 1u64
    }) by (bit_vector)
        requires
            o < 64,
            o2 < 64,
    ;
}

proof fn lemma_mask_bit(w: u64, o: u64)
    requires
        o < 64,
    ensures
        ((w & (1u64 << o)) == 0u64) == ((w >> o) & 1u64 != 1u64),
{
    assert(((w & (1u64 << o)) == 0u64) == ((w >> o) & 1u64 != 1u64)) by (bit_vector)
        requires
            o < 64,
    ;
}

proof fn lemma_zero_bit(o: u64)
    requires
        o < 64,
    ensures
        (0u64 >> o) & 1u64 == 0u64,
{
    assert((0u64 >> o) & 1u64 == 0u64) by (bit_vector);
}

/// Right after an item is inserted it is reported present, and bits are never
/// cleared, so a later insertion (which only adds bits) keeps it reported:
/// along any sequence of `insert` and `contains` calls, an inserted item is
/// never reported absent.
pub proof fn lemma_inserted_stays_present(
    bits: Set<int>,
    later: Set<int>,
    item: Seq<u8>,
    num_hashes: u32,
    num_bits: usize,
)
    requires
        bits.union(item_bits(item, num_hashes, num_bits)).subset_of(later),
    ensures
        may_contain(bits.union(item_bits(item, num_hashes, num_bits)), item, num_hashes, num_bits),
        may_contain(later, item, num_hashes, num_bits),
{
    assert forall|s: u32| s < num_hashes implies later.contains(#[trigger] bit_index(item, s, num_bits)) by {
        assert(item_bits(item, num_hashes, num_bits).contains(bit_index(item, s, num_bits)));
    }
}

/// Items inserted stay present: a filter never gives a false negative.
pub proof fn lemma_no_false_negatives(
    bits: Set<int>,
    items: Seq<Seq<u8>>,
    k: int,
    num_hashes: u32,
    num_bits: usize,
)
    requires
        0 <= k < items.len(),
    ensures
        may_contain(bits_after(bits, items, num_hashes, num_bits), items[k], num_hashes, num_bits),
    decreases items.len(),
{
    let after = bits_after(bits, items, num_hashes, num_bits);
    if k == items.len() - 1 {
        assert forall|s: u32| s < num_hashes implies after.contains(
            #[trigger] bit_index(items[k], s, num_bits),
        ) by {
            assert(item_bits(items.last(), num_hashes, num_bits).contains(
                bit_index(items[k], s, num_bits),
            ));
        }
    } else {
        lemma_no_false_negatives(bits, items.drop_last(), k, num_hashes, num_bits);
        assert(items.drop_last()[k] == items[k]);
    }
}

impl BloomFilter {
    /// Each word of the bit array holds 64 bits.
    pub closed spec fn wf(&self) -> bool {
        self.bits@.len() * 64 >= self.num_bits
    }

    /// A filter of `num_bits` bits, all clear, setting `num_hashes` bits per item.
    pub fn with_parameters(num_bits: usize, num_hashes: u32) -> (f: BloomFilter)
        ensures
            f.wf(),
            f@.bits == Set::<int>::empty(),
            f@.num_bits == num_bits,
            f@.num_hashes == num_hashes,
            f@.count == 0,
            f@.words * 64 >= num_bits,
            f@.words * 64 < num_bits + 64,
    {
        let num_words = num_bits / 64 + if num_bits % 64 == 0 {
            0
        } else {
            1
        };
        let mut bits: Vec<u64> = Vec::new();
        let mut i: usize = 0;
        while i < num_words
            invariant
                i <= num_words,
                bits@.len() == i,
                forall|j: int| 0 <= j < i ==> bits@[j] == 0u64,
            decreases num_words - i,
        {
            bits.push(0u64);
            i = i + 1;
        }
        let f = BloomFilter { bits, num_hashes, num_bits, count: 0 };
        assert(f@.bits =~= Set::<int>::empty()) by {
            assert forall|b: int| 0 <= b < num_bits implies !bit_set(f.bits@, b) by {
                lemma_zero_bit((b % 64) as u64);
            }
        }
        f
    }

    /// The bit that hash number `seed` picks for the item.
    fn hash(&self, item: &[u8], seed: u32) -> (b: usize)
        requires
            self.num_bits > 0,
        ensures
            b == bit_index(item@, seed, self.num_bits),
            b < self.num_bits,
    {
        (xxh3_hash(item, seed as u64) as usize) % self.num_bits
    }

    /// Insert an item into the Bloom filter.
    pub fn insert(&mut self, item: &[u8])
        requires
            old(self).wf(),
            old(self)@.num_bits > 0,
            old(self)@.count < usize::MAX,
        ensures
            final(self).wf(),
            final(self)@.bits == old(self)@.bits.union(
                item_bits(item@, old(self)@.num_hashes, old(self)@.num_bits),
            ),
            final(self)@.num_bits == old(self)@.num_bits,
            final(self)@.num_hashes == old(self)@.num_hashes,
            final(self)@.count == old(self)@.count + 1,
            final(self)@.words == old(self)@.words,
    {
        let ghost b0 = self@.bits;
        let n = self.num_hashes;
        let mut i: u32 = 0;
        while i < n
            invariant
                self.wf(),
                self.num_bits == old(self).num_bits,
                self.num_bits > 0,
                self.num_hashes == n,
                self.count == old(self).count,
                self.bits@.len() == old(self).bits@.len(),
                b0 == old(self)@.bits,
                i <= n,
                self@.bits == b0.union(
                    Set::new(
                        |b: int| exists|s: u32| s < i && b == #[trigger] bit_index(item@, s, self.num_bits),
                    ),
                ),
            decreases n - i,
        {
            let ghost before = self@.bits;
            let ghost words = self.bits@;
            let idx = self.hash(item, i);
            let word_index = idx / 64;
            let bit_offset = idx % 64;
            assert(word_index < self.bits@.len());
            let w = self.bits[word_index] | (1u64 << (bit_offset as u64));
            self.bits.set(word_index, w);
            proof {
                assert forall|b: int| 0 <= b < self.num_bits implies #[trigger] bit_set(self.bits@, b)
                    == (bit_set(words, b) || b == idx as int) by {
                    if b / 64 == word_index as int {
                        lemma_or_bit(words[word_index as int], bit_offset as u64, (b % 64) as u64);
                    } else {
                        assert(self.bits@[b / 64] == words[b / 64]);
                    }
                }
                let ghost si = Set::new(
                    |b: int| exists|s: u32| s < i && b == #[trigger] bit_index(item@, s, self.num_bits),
                );
                let ghost si1 = Set::new(
                    |b: int| exists|s: u32| s < i + 1 && b == #[trigger] bit_index(item@, s, self.num_bits),
                );
                let ghost next = b0.union(si1);
                assert(before == b0.union(si));
                assert forall|b: int| #[trigger] self@.bits.contains(b) == next.contains(b) by {
                    if 0 <= b < self.num_bits {
                        assert(bit_set(self.bits@, b) == (bit_set(words, b) || b == idx as int));
                    }
                    assert(self@.bits.contains(b) == (before.contains(b) || b == idx as int));
                    if si1.contains(b) {
                        let s = choose|s: u32| s < i + 1 && b == #[trigger] bit_index(item@, s, self.num_bits);
                        if s < i {
                            assert(si.contains(b));
                        } else {
                            assert(b == idx as int);
                        }
                    }
                    if si.contains(b) {
                        let s = choose|s: u32| s < i && b == #[trigger] bit_index(item@, s, self.num_bits);
                        assert(si1.contains(b));
                    }
                    if b == idx as int {
                        assert(bit_index(item@, i, self.num_bits) == b);
                        assert(si1.contains(b));
                    }
                }
                assert(self@.bits =~= next);
            }
            i = i + 1;
        }
        assert(self@.bits =~= b0.union(item_bits(item@, n, self.num_bits)));
        self.count = self.count + 1;
    }

    /// Check if an item might be in the Bloom filter: `false` means it is
    /// definitely not in the set.
    pub fn contains(&self, item: &[u8]) -> (r: bool)
        requires
            self.wf(),
            self@.num_bits > 0,
        ensures
            r == may_contain(self@.bits, item@, self@.num_hashes, self@.num_bits),
    {
        let n = self.num_hashes;
        let mut i: u32 = 0;
        while i < n
            invariant
                self.wf(),
                self.num_bits > 0,
                n == self.num_hashes,
                i <= n,
                forall|s: u32| s < i ==> self@.bits.contains(#[trigger] bit_index(item@, s, self.num_bits)),
            decreases n - i,
        {
            let idx = self.hash(item, i);
            let word_index = idx / 64;
            let bit_offset = idx % 64;
            if (self.bits[word_index] & (1u64 << (bit_offset as u64))) == 0 {
                proof {
                    assert(!self@.bits.contains(idx as int)) by {
                        lemma_mask_bit(self.bits@[word_index as int], bit_offset as u64);
                    }
                }
                return false;
            }
            proof {
                lemma_mask_bit(self.bits@[word_index as int], bit_offset as u64);
            }
            i = i + 1;
        }
        true
    }

    /// Get the number of items inserted into the filter.
    pub fn count(&self) -> (c: usize)
        ensures
            c == self@.count,
    {
        self.count
    }

    /// Get the memory usage of the filter in bytes: the bit array and the
    /// filter itself.
    pub fn mem_usage(&self) -> (m: usize)
        requires
            self@.words * 8 + vstd::layout::size_of::<BloomFilter>() <= usize::MAX,
        ensures
            m == self@.words * 8 + vstd::layout::size_of::<BloomFilter>(),
    {
        self.bits.len() * 8 + std::mem::size_of::<BloomFilter>()
    }
}

} // verus!
