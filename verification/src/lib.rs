//! Verified building blocks of the RediSearch query layer: a Bloom filter for
//! term rejection, ISO-8601 datetime parsing, an LRU query-result cache and a
//! SQL to RQL translator with its translation cache.

pub mod bloom_filter;
pub mod datetime;
pub mod query_cache;
pub mod sql_parser;
