//! SQL to RQL (RediSearch Query Language) translation.
//!
//! SQL SELECT queries are parsed and translated into the arguments of an
//! `FT.SEARCH`, `FT.AGGREGATE` or `FT.HYBRID` command.

pub mod error;
pub mod text;
pub mod number;
pub mod ast;
pub mod translator;
pub mod validation;
pub mod parser;
pub mod cache;

pub use crate::sql_parser::cache::{
    CacheConfig, CacheStats, TranslationCache, clear_cache, get_cache_stats, set_cache_config,
    translate_cached, translate_cached_with_schema,
};
pub use crate::sql_parser::error::SqlError;

use vstd::prelude::*;
use vstd::string::StringSliceAdditionalSpecFns;
use crate::sql_parser::error::{IntoMessage, SpecSqlError};
use crate::sql_parser::parser::{parse, parse_spec};
use crate::sql_parser::parser::parse_ready;
use crate::sql_parser::parser::parse_would_panic;
use crate::sql_parser::translator::translate_spec;
use crate::sql_parser::validation::{query_check, query_string_check, validate_query, validate_query_string};
use crate::sql_parser::text::{lower_seq, to_ascii_lowercase};
use crate::sql_parser::ast::strings_view;

verus! {

/// Capabilities of a field for query translation and validation.
#[derive(Debug, Clone, Copy, PartialEq, Eq, Structural)]
pub struct FieldCapabilities {
    /// Whether the field supports TAG-style exact matching.
    pub supports_tag_queries: bool,
    /// Whether the field is indexed as TEXT.
    pub supports_text_queries: bool,
    /// Whether the field indexes missing values for `IS NULL` / `IS NOT NULL`.
    pub supports_index_missing: bool,
}

impl FieldCapabilities {
    /// Capabilities for a TAG field.
    pub fn tag() -> (c: FieldCapabilities)
        ensures
            c == (FieldCapabilities {
                supports_tag_queries: true,
                supports_text_queries: false,
                supports_index_missing: false,
            }),
    {
        FieldCapabilities {
            supports_tag_queries: true,
            supports_text_queries: false,
            supports_index_missing: false,
        }
    }

    /// Capabilities for a TEXT field.
    pub fn text() -> (c: FieldCapabilities)
        ensures
            c == (FieldCapabilities {
                supports_tag_queries: false,
                supports_text_queries: true,
                supports_index_missing: false,
            }),
    {
        FieldCapabilities {
            supports_tag_queries: false,
            supports_text_queries: true,
            supports_index_missing: false,
        }
    }
}

/// A field of a schema: its lower-case name and its capabilities.
#[derive(Debug, Clone)]
pub struct SchemaField {
    pub name: String,
    pub capabilities: FieldCapabilities,
}

/// Schema metadata used to validate and cache SQL translations.
#[derive(Debug, Clone)]
pub struct QuerySchema {
    /// Monotonically increasing schema or index revision.
    pub version: u64,
    /// Field capabilities, keyed by lower-case field name.
    pub fields: Vec<SchemaField>,
}

/// The model of a schema: its version and its fields in order.
pub struct SpecQuerySchema {
    pub version: u64,
    pub fields: Seq<(Seq<char>, FieldCapabilities)>,
}

impl View for QuerySchema {
    type V = SpecQuerySchema;

    open spec fn view(&self) -> SpecQuerySchema {
        SpecQuerySchema {
            version: self.version,
            fields: self.fields@.map_values(|f: SchemaField| (f.name@, f.capabilities)),
        }
    }
}

/// Capabilities recorded for the key: those of the first field with that name.
pub open spec fn lookup(fields: Seq<(Seq<char>, FieldCapabilities)>, key: Seq<char>) -> Option<
    FieldCapabilities,
>
    decreases fields.len(),
{
    if fields.len() == 0 {
        None
    } else if fields[0].0 == key {
        Some(fields[0].1)
    } else {
        lookup(fields.drop_first(), key)
    }
}

/// Capabilities of a field, looked up by its name in ASCII lower case.
pub open spec fn field_caps(schema: SpecQuerySchema, field: Seq<char>) -> Option<FieldCapabilities> {
    lookup(schema.fields, lower_seq(field))
}

proof fn lemma_lookup_suffix(fields: Seq<(Seq<char>, FieldCapabilities)>, key: Seq<char>, i: int)
    requires
        0 <= i <= fields.len(),
        forall|j: int| 0 <= j < i ==> (#[trigger] fields[j]).0 != key,
    ensures
        lookup(fields, key) == lookup(fields.subrange(i, fields.len() as int), key),
    decreases i,
{
    if i > 0 {
        let rest = fields.drop_first();
        assert forall|j: int| 0 <= j < i - 1 implies (#[trigger] rest[j]).0 != key by {
            assert(rest[j] == fields[j + 1]);
        }
        lemma_lookup_suffix(rest, key, i - 1);
        assert(rest.subrange(i - 1, rest.len() as int) == fields.subrange(i, fields.len() as int));
    } else {
        assert(fields.subrange(0, fields.len() as int) == fields);
    }
}

proof fn lemma_lookup_update(
    fields: Seq<(Seq<char>, FieldCapabilities)>,
    i: int,
    entry: (Seq<char>, FieldCapabilities),
    key: Seq<char>,
)
    requires
        0 <= i < fields.len(),
        fields[i].0 == entry.0,
        forall|j: int| 0 <= j < i ==> (#[trigger] fields[j]).0 != entry.0,
    ensures
        lookup(fields.update(i, entry), key) == if key == entry.0 {
            Some(entry.1)
        } else {
            lookup(fields, key)
        },
    decreases i,
{
    let updated = fields.update(i, entry);
    if i > 0 {
        let rest = fields.drop_first();
        assert(updated.drop_first() == rest.update(i - 1, entry));
        assert forall|j: int| 0 <= j < i - 1 implies (#[trigger] rest[j]).0 != entry.0 by {
            assert(rest[j] == fields[j + 1]);
        }
        lemma_lookup_update(rest, i - 1, entry, key);
        assert(updated[0] == fields[0]);
        assert(fields[0].0 != entry.0);
    } else {
        assert(updated[0] == entry);
        assert(updated.drop_first() == fields.drop_first());
    }
}

proof fn lemma_lookup_push(
    fields: Seq<(Seq<char>, FieldCapabilities)>,
    entry: (Seq<char>, FieldCapabilities),
    key: Seq<char>,
)
    requires
        forall|j: int| 0 <= j < fields.len() ==> (#[trigger] fields[j]).0 != entry.0,
    ensures
        lookup(fields.push(entry), key) == if key == entry.0 {
            Some(entry.1)
        } else {
            lookup(fields, key)
        },
    decreases fields.len(),
{
    let pushed = fields.push(entry);
    if fields.len() > 0 {
        let rest = fields.drop_first();
        assert(pushed.drop_first() == rest.push(entry));
        assert forall|j: int| 0 <= j < rest.len() implies (#[trigger] rest[j]).0 != entry.0 by {
            assert(rest[j] == fields[j + 1]);
        }
        lemma_lookup_push(rest, entry, key);
        assert(pushed[0] == fields[0]);
        assert(fields[0].0 != entry.0);
        if fields[0].0 == key {
            assert(lookup(pushed, key) == Some(fields[0].1));
            assert(lookup(fields, key) == Some(fields[0].1));
        } else {
            assert(lookup(pushed, key) == lookup(rest.push(entry), key));
            assert(lookup(fields, key) == lookup(rest, key));
        }
    } else {
        assert(pushed[0] == entry);
        assert(pushed.drop_first() =~= Seq::<(Seq<char>, FieldCapabilities)>::empty());
        assert(lookup(pushed.drop_first(), key) is None);
    }
}

proof fn lemma_lookup_none(fields: Seq<(Seq<char>, FieldCapabilities)>, key: Seq<char>)
    requires
        forall|j: int| 0 <= j < fields.len() ==> (#[trigger] fields[j]).0 != key,
    ensures
        lookup(fields, key) is None,
    decreases fields.len(),
{
    if fields.len() > 0 {
        let rest = fields.drop_first();
        assert forall|j: int| 0 <= j < rest.len() implies (#[trigger] rest[j]).0 != key by {
            assert(rest[j] == fields[j + 1]);
        }
        lemma_lookup_none(rest, key);
    }
}

/// No two fields share a name, as in a map keyed by name.
pub open spec fn distinct_names(fields: Seq<(Seq<char>, FieldCapabilities)>) -> bool {
    forall|i: int, j: int| 0 <= i < j < fields.len() ==> #[trigger] fields[i].0 != #[trigger] fields[j].0
}

impl QuerySchema {
    /// The schema's fields have distinct names; `new` and `with_field` keep it so.
    pub open spec fn wf(&self) -> bool {
        distinct_names(self@.fields)
    }

    /// Create an empty schema with the given version.
    pub fn new(version: u64) -> (s: QuerySchema)
        ensures
            s@.version == version,
            s@.fields.len() == 0,
            s.wf(),
    {
        QuerySchema { version, fields: Vec::new() }
    }

    /// An empty schema of version 0.
    pub fn empty() -> (s: QuerySchema)
        ensures
            s@.version == 0,
            s@.fields.len() == 0,
            s.wf(),
    {
        QuerySchema::new(0)
    }

    /// Add or update capabilities for a field.
    pub fn with_field<M: IntoMessage>(self, field: M, capabilities: FieldCapabilities) -> (s:
        QuerySchema)
        ensures
            s@.version == self@.version,
            self.wf() ==> s.wf(),
            forall|k: Seq<char>|
                #![trigger lookup(s@.fields, k)]
                lookup(s@.fields, k) == if k == lower_seq(field.message_view()) {
                    Some(capabilities)
                } else {
                    lookup(self@.fields, k)
                },
    {
        let name_owned = field.into_message();
        let name = to_ascii_lowercase(name_owned.as_str());
        let ghost key = name@;
        assert(key == lower_seq(field.message_view()));
        let ghost old_fields = self@.fields;
        let mut s = self;
        let mut i: usize = 0;
        while i < s.fields.len()
            invariant
                s@.fields == old_fields,
                s@.version == self@.version,
                name@ == key,
                key == lower_seq(field.message_view()),
                old_fields == self@.fields,
                i <= old_fields.len(),
                forall|j: int| 0 <= j < i ==> (#[trigger] old_fields[j]).0 != key,
            decreases old_fields.len() - i,
        {
            if s.fields[i].name.eq(&name) {
                let ghost entry = (key, capabilities);
                assert(old_fields[i as int].0 == s.fields@[i as int].name@);
                assert(old_fields[i as int].0 == key);
                s.fields.set(i, SchemaField { name, capabilities });
                proof {
                    assert(s@.fields =~= old_fields.update(i as int, entry));
                    assert(self.wf() ==> distinct_names(s@.fields)) by {
                        if self.wf() {
                            assert forall|a: int, b: int| 0 <= a < b < s@.fields.len() implies #[trigger] s@.fields[a].0
                                != #[trigger] s@.fields[b].0 by {
                                assert(old_fields[a].0 != old_fields[b].0);
                            }
                        }
                    }
                    assert(s@.version == self@.version);
                    assert(old_fields == self@.fields);
                    assert forall|k: Seq<char>| #[trigger]
                        lookup(s@.fields, k) == if k == key {
                            Some(capabilities)
                        } else {
                            lookup(old_fields, k)
                        } by {
                        lemma_lookup_update(old_fields, i as int, entry, k);
                    }
                }
                return s;
            }
            assert(old_fields[i as int].0 == s.fields@[i as int].name@);
            i = i + 1;
        }
        let ghost entry = (key, capabilities);
        s.fields.push(SchemaField { name, capabilities });
        proof {
            assert(s@.fields =~= old_fields.push(entry));
            assert(self.wf() ==> distinct_names(s@.fields)) by {
                if self.wf() {
                    assert forall|a: int, b: int| 0 <= a < b < s@.fields.len() implies #[trigger] s@.fields[a].0
                        != #[trigger] s@.fields[b].0 by {
                        if b < old_fields.len() {
                            assert(old_fields[a].0 != old_fields[b].0);
                        } else {
                            assert(old_fields[a].0 != key);
                        }
                    }
                }
            }
            lemma_lookup_none(old_fields, key);
            assert forall|k: Seq<char>| #[trigger]
                lookup(s@.fields, k) == if k == key {
                    Some(capabilities)
                } else {
                    lookup(old_fields, k)
                } by {
                lemma_lookup_push(old_fields, entry, k);
            }
        }
        s
    }

    /// Return capabilities for a field, if schema metadata is available.
    pub fn field_capabilities(&self, field: &str) -> (c: Option<FieldCapabilities>)
        ensures
            c == field_caps(self@, field@),
    {
        let key = to_ascii_lowercase(field);
        let ghost fields = self@.fields;
        let mut i: usize = 0;
        while i < self.fields.len()
            invariant
                fields == self@.fields,
                key@ == lower_seq(field@),
                i <= fields.len(),
                forall|j: int| 0 <= j < i ==> (#[trigger] fields[j]).0 != key@,
            decreases fields.len() - i,
        {
            if self.fields[i].name.eq(&key) {
                assert(fields[i as int].0 == self.fields@[i as int].name@);
                assert(fields[i as int].1 == self.fields@[i as int].capabilities);
                proof {
                    lemma_lookup_suffix(fields, key@, i as int);
                    let rest = fields.subrange(i as int, fields.len() as int);
                    assert(rest[0] == fields[i as int]);
                    assert(rest.len() > 0);
                    assert(lookup(rest, key@) == Some(rest[0].1));
                    assert(key@ == lower_seq(field@));
                }
                return Some(self.fields[i].capabilities);
            }
            assert(fields[i as int].0 == self.fields@[i as int].name@);
            i = i + 1;
        }
        proof {
            lemma_lookup_none(fields, key@);
        }
        None
    }
}

/// The type of Redis command to use for the query.
#[derive(Debug, Clone, Copy, PartialEq, Eq, Structural)]
pub enum Command {
    /// Use FT.SEARCH for this query.
    Search,
    /// Use FT.AGGREGATE for this query (for GROUP BY).
    Aggregate,
    /// Use FT.HYBRID for weighted vector + text search.
    Hybrid,
}

/// Result of translating a SQL query to RQL.
#[derive(Debug, Clone)]
pub struct Translation {
    /// The Redis command to use.
    pub command: Command,
    /// The index name from the FROM clause.
    pub index_name: String,
    /// The RQL query string (e.g., "@field:value").
    pub query_string: String,
    /// Additional arguments (RETURN, SORTBY, LIMIT, etc.).
    pub arguments: Vec<String>,
}

pub struct SpecTranslation {
    pub command: Command,
    pub index_name: Seq<char>,
    pub query_string: Seq<char>,
    pub arguments: Seq<Seq<char>>,
}

impl View for Translation {
    type V = SpecTranslation;

    open spec fn view(&self) -> SpecTranslation {
        SpecTranslation {
            command: self.command,
            index_name: self.index_name@,
            query_string: self.query_string@,
            arguments: strings_view(self.arguments@),
        }
    }
}

impl Translation {
    /// A copy of the translation.
    pub fn duplicate(&self) -> (t: Translation)
        ensures
            t@ == self@,
    {
        let mut arguments: Vec<String> = Vec::new();
        let mut i: usize = 0;
        while i < self.arguments.len()
            invariant
                i <= self.arguments@.len(),
                arguments@.len() == i,
                strings_view(arguments@) == strings_view(self.arguments@.take(i as int)),
            decreases self.arguments@.len() - i,
        {
            let ghost before = arguments@;
            let c = self.arguments[i].clone();
            assert(c@ == self.arguments@[i as int]@);
            arguments.push(c);
            assert(self.arguments@.take(i + 1) == self.arguments@.take(i as int).push(
                self.arguments@[i as int],
            ));
            assert(arguments@ == before.push(c));
            assert forall|j: int| 0 <= j < i + 1 implies #[trigger] strings_view(arguments@)[j]
                == strings_view(self.arguments@.take(i + 1))[j] by {
                if j < i {
                    assert(strings_view(before)[j] == strings_view(self.arguments@.take(i as int))[j]);
                }
            }
            assert(strings_view(arguments@) =~= strings_view(self.arguments@.take(i + 1)));
            i = i + 1;
        }
        assert(self.arguments@.take(self.arguments@.len() as int) == self.arguments@);
        Translation {
            command: self.command,
            index_name: self.index_name.clone(),
            query_string: self.query_string.clone(),
            arguments,
        }
    }
}

/// What translating SQL text of the given UTF-8 length under a schema gives:
/// the text is checked, parsed, the query checked, then translated.
pub open spec fn translation_of(sql: Seq<char>, byte_len: nat, schema: SpecQuerySchema) -> Result<
    SpecTranslation,
    SpecSqlError,
> {
    match query_string_check(sql, byte_len) {
        Err(err) => Err(err),
        Ok(_) => match parse_spec(sql) {
            Err(err) => Err(err),
            Ok(q) => match query_check(q) {
                Err(err) => Err(err),
                Ok(_) => translate_spec(q, schema),
            },
        },
    }
}

/// The schema with no field, of version 0.
pub open spec fn empty_schema() -> SpecQuerySchema {
    SpecQuerySchema { version: 0, fields: Seq::empty() }
}

/// Whether translating the text runs without a panic: a text that passes its
/// size checks can be parsed (see `parse_ready`).
pub open spec fn translatable_text(sql: &str) -> bool {
    query_string_check(sql@, sql.spec_bytes().len()) is Ok ==> parse_ready(sql@)
}

/// Whether translating the text would panic (see `translatable_text`).
pub fn translation_would_panic(sql: &str) -> (r: bool)
    ensures
        r == !translatable_text(sql),
{
    match validate_query_string(sql) {
        Ok(_) => parse_would_panic(sql),
        Err(_) => false,
    }
}

/// Translates a SQL query string to RQL format using schema metadata.
pub fn translate_with_schema(sql: &str, schema: &QuerySchema) -> (r: Result<Translation, SqlError>)
    requires
        translatable_text(sql),
    ensures
        match r {
            Ok(t) => translation_of(sql@, sql.spec_bytes().len(), schema@) == Ok::<
                SpecTranslation,
                SpecSqlError,
            >(t@),
            Err(e) => translation_of(sql@, sql.spec_bytes().len(), schema@) == Err::<
                SpecTranslation,
                SpecSqlError,
            >(e@),
        },
{
    validate_query_string(sql)?;
    let query = parse(sql)?;
    validate_query(&query)?;
    crate::sql_parser::translator::translate_with_schema(query, schema)
}

/// Translates a SQL query string to RQL format without schema metadata.
pub fn translate(sql: &str) -> (r: Result<Translation, SqlError>)
    requires
        translatable_text(sql),
    ensures
        match r {
            Ok(t) => translation_of(sql@, sql.spec_bytes().len(), empty_schema()) == Ok::<
                SpecTranslation,
                SpecSqlError,
            >(t@),
            Err(e) => translation_of(sql@, sql.spec_bytes().len(), empty_schema()) == Err::<
                SpecTranslation,
                SpecSqlError,
            >(e@),
        },
{
    let schema = QuerySchema::empty();
    assert(schema@.fields =~= empty_schema().fields);
    assert(schema@ == empty_schema());
    translate_with_schema(sql, &schema)
}

} // verus!
