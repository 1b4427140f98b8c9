# redisearch_sql

Verified building blocks of a search engine's query layer, written in Verus:

- `sql_parser`: translation of SQL `SELECT` queries into the arguments of
  `FT.SEARCH`, `FT.AGGREGATE` or `FT.HYBRID` (RediSearch Query Language), with
  validation limits, an OPTION clause for hybrid weights, schema-aware checks
  and an LRU cache of translations. Parsing of the SQL grammar itself is done by
  `sqlparser`; the syntax tree it returns is carried into plain types
  (`parser::syntax`) that the verified code reads.
- `bloom_filter`: a Bloom filter over xxHash3; no false negatives is proved.
- `query_cache`: an LRU cache of query results with hit, miss, eviction and
  memory counters.
- `datetime`: ISO-8601 dates and datetimes to Unix timestamps, through `chrono`.

Layout:

- `src/` is the verified library. Every function has a contract over
  mathematical models (`Seq`, `Map`, `Set`, spec functions); the laws that
  relate several calls are public proof functions next to the code they speak
  of (for example `cache::lemma_repeat_is_hit`,
  `query_cache::lemma_get_after_insert`,
  `bloom_filter::lemma_no_false_negatives`).
- `tests/` runs the library on concrete inputs.
- `app/` holds the C entry points, the process-wide translation cache, and the
  computations on floating point (hit rates, Bloom filter sizing).
