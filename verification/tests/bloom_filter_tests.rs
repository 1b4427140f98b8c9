use redisearch_sql::bloom_filter::BloomFilter;

/// The sizing of a filter for `expected_items` items at the given false
/// positive rate: `m = -n ln(p) / ln(2)^2` bits and `k = (m / n) ln(2)` hashes.
fn sized(expected_items: usize, false_positive_rate: f64) -> BloomFilter {
    let ln2 = std::f64::consts::LN_2;
    let num_bits =
        (-(expected_items as f64) * false_positive_rate.ln() / ln2.powi(2)).ceil() as usize;
    let num_hashes = ((num_bits as f64 / expected_items as f64) * ln2).ceil().max(1.0) as u32;
    BloomFilter::with_parameters(num_bits, num_hashes)
}

#[test]
fn test_basic_operations() {
    let mut filter = sized(100, 0.01);

    filter.insert(b"hello");
    filter.insert(b"world");

    assert!(filter.contains(b"hello"));
    assert!(filter.contains(b"world"));
    assert_eq!(filter.count(), 2);
}

#[test]
fn inserted_items_are_always_found() {
    let mut filter = sized(1000, 0.01);
    let items: Vec<String> = (0..500).map(|i| format!("term-{i}")).collect();
    for item in &items {
        filter.insert(item.as_bytes());
    }
    for item in &items {
        assert!(filter.contains(item.as_bytes()));
    }
    assert_eq!(filter.count(), 500);
}

#[test]
fn empty_filter_contains_nothing() {
    let filter = BloomFilter::with_parameters(1024, 7);
    assert!(!filter.contains(b"hello"));
    assert!(!filter.contains(b""));
    assert_eq!(filter.count(), 0);
}

#[test]
fn items_hash_to_different_bits() {
    // With a million bits and one item inserted, another item is not
    // reported: the bits picked depend on the item.
    let mut filter = BloomFilter::with_parameters(1_000_000, 7);
    filter.insert(b"hello");
    assert!(filter.contains(b"hello"));
    assert!(!filter.contains(b"nonexistent"));
    assert!(!filter.contains(b"world"));
}

#[test]
fn memory_usage_counts_words_and_the_filter() {
    let filter = BloomFilter::with_parameters(100, 3);
    // 100 bits take two 64-bit words.
    assert_eq!(filter.mem_usage(), 2 * 8 + std::mem::size_of::<BloomFilter>());
    let filter = BloomFilter::with_parameters(128, 3);
    assert_eq!(filter.mem_usage(), 2 * 8 + std::mem::size_of::<BloomFilter>());
    let filter = BloomFilter::with_parameters(129, 3);
    assert_eq!(filter.mem_usage(), 3 * 8 + std::mem::size_of::<BloomFilter>());
}

#[test]
fn sizing_for_one_percent() {
    // 100 items at 1% take 959 bits and 7 hashes: 15 words.
    let filter = sized(100, 0.01);
    assert_eq!(filter.mem_usage(), 15 * 8 + std::mem::size_of::<BloomFilter>());
}
