//! Properties that hold across the library: names that read back, escaping
//! that leaves no markup, filters and merges that keep the metadata
//! consistent.

use vstd::prelude::*;
use crate::config::config_problem;
use crate::filters::{
    glob, ignore_patterns_spec, kept_tables, matches_any_spec, pattern_matches_spec, trimmed_nonblank,
};
use crate::labels::{
    escape_html_attr_seq, escape_html_seq, html_attr_char, html_char, markdown_cell_seq, md_cell_char,
};
use crate::model::{AppConfig, DatabaseSchema, ExternalRelation, RelationSource, RelationTemplateItem, RelationType, Table, TableRelation};
use crate::naming::{is_unsafe_file_char, safe_name_seq};
use crate::pipeline::{entry_error, filtered_tables, prepared_from};
use crate::relations::{
    add_missing_spec, find_key_from, lemma_find_key_from, merge_spec, priority_of, push_all_spec,
    push_spec, entry_relation_ok, entry_source_name, key_of, links_present_tables, present_relations,
    source_key_seq, source_of_name, source_prefix_seq, type_key_seq, type_label_seq, type_of_name,
};
use crate::template::{
    entry_before, insert_position, lemma_insert_position_bounds, lemma_sorted_positions_in_range,
    seq_lt, sorted_positions, template_item_of,
};
use crate::inference::{
    business_candidates, column_targets_spec, extension_candidates, inferred_relations_spec,
    inferred_relations_upto, named_candidates, relation_from_target, table_relations_spec,
    TargetView,
};
use crate::matching::column_prefix_seq;
use crate::relations::has_table;
use crate::model::{Column, RelationView};
use crate::text::without_suffix;
use crate::text::{is_ws, lower_seq, spec_lower_char, trim_end_seq, trim_seq, trim_start_seq};
use crate::naming::{find_table, find_table_from, has_unique_single, source_relation_type};
use crate::model::views;
use crate::catalog::{foreign_key_relation_of, ForeignKeyRecord};
use crate::inference::{
    business_target_spec, extension_targets_spec, first_column_from,
    lemma_first_column_from, named_target_spec,
};
use crate::naming::normalized_type_seq;
use crate::catalog::{lemma_last_table_named, last_table_named, assembled_tables, column_from_record, columns_for, ColumnRecord, IndexRecord, TableRecord};

verus! {

// ---------------------------------------------------------------------------
// Names that read back
// ---------------------------------------------------------------------------

/// A name without surrounding blanks, upper-case letters, `_` or `-` is its
/// own comparison spelling, for types and for sources alike.
proof fn lemma_plain_name(s: Seq<char>)
    requires
        s.len() > 0,
        forall|i: int|
            0 <= i < s.len() ==> !is_ws(#[trigger] s[i]) && !('A' <= s[i] && s[i] <= 'Z') && s[i]
                != '_' && s[i] != '-',
    ensures
        type_key_seq(s) == s,
        source_key_seq(s) == s,
{
    assert(!is_ws(s[0]));
    assert(!is_ws(s[s.len() - 1]));
    assert(trim_start_seq(s) == s);
    assert(trim_end_seq(s) == s);
    assert(lower_seq(s) =~= s) by {
        assert forall|i: int| 0 <= i < s.len() implies #[trigger] spec_lower_char(s[i]) == s[i] by {}
    }
}

/// A name with `-` between plain words is its own type comparison spelling.
proof fn lemma_dashed_type_name(s: Seq<char>)
    requires
        s.len() > 0,
        s[0] != '-',
        s[s.len() - 1] != '-',
        forall|i: int|
            0 <= i < s.len() ==> !is_ws(#[trigger] s[i]) && !('A' <= s[i] && s[i] <= 'Z') && s[i]
                != '_',
    ensures
        type_key_seq(s) == s,
{
    assert(!is_ws(s[0]));
    assert(!is_ws(s[s.len() - 1]));
    assert(trim_start_seq(s) == s);
    assert(trim_end_seq(s) == s);
    assert(lower_seq(s) =~= s) by {
        assert forall|i: int| 0 <= i < s.len() implies #[trigger] spec_lower_char(s[i]) == s[i] by {}
    }
    assert(type_key_seq(s) =~= s);
}

/// Every relation type reads back from its name.
pub proof fn relation_type_name_reads_back(t: RelationType)
    ensures
        type_of_name(type_label_seq(t)) == Some(t),
{
    reveal_strlit("one-to-one");
    reveal_strlit("one-to-many");
    reveal_strlit("many-to-one");
    reveal_strlit("many-to-many");
    lemma_dashed_type_name(type_label_seq(t));
    assert("one-to-one"@.len() == 10 && "one-to-many"@.len() == 11);
    assert("many-to-one"@.len() == 11 && "many-to-many"@.len() == 12);
    assert("one-to-many"@[0] != "many-to-one"@[0]);
}

/// Every relation source reads back from the name it is written with.
pub proof fn relation_source_name_reads_back(s: RelationSource)
    ensures
        source_of_name(source_prefix_seq(s)) == Some(s),
{
    reveal_strlit("fk");
    reveal_strlit("database_fk");
    reveal_strlit("uploaded");
    reveal_strlit("manual");
    reveal_strlit("inferred");
    lemma_plain_name(source_prefix_seq(s));
    assert("fk"@.len() == 2 && "database_fk"@.len() == 11 && "manual"@.len() == 6);
    assert("uploaded"@.len() == 8 && "inferred"@.len() == 8);
    assert("uploaded"@[0] != "inferred"@[0]);
}

/// `entry` is what a relation file holds for the template entry `item`: its
/// columns, type name and source name, its confidence when it has one, and
/// its description (left out when empty).
pub open spec fn entry_holds_item(entry: ExternalRelation, item: RelationTemplateItem) -> bool {
    &&& entry.source_table@ == item.source_table@
    &&& entry.source_column@ == item.source_column@
    &&& entry.target_table@ == item.target_table@
    &&& entry.target_column@ == item.target_column@
    &&& entry.relation_type@ == item.relation_type@
    &&& entry.source matches Some(s) && s@ == item.source@
    &&& entry.confidence == item.confidence
    &&& match entry.description {
        Some(d) => d@ == item.description@,
        None => item.description@.len() == 0,
    }
}

/// An exported relation template entry, put back in a relation file
/// unchanged, reads back without error as an uploaded relation between the
/// same columns, with the same type and description; an inferred relation
/// keeps its confidence, the others get the uploaded default.
pub proof fn template_entry_reads_back(
    r: TableRelation,
    item: RelationTemplateItem,
    entry: ExternalRelation,
    schema: Seq<char>,
    back: TableRelation,
)
    requires
        template_item_of(item, r),
        entry_holds_item(entry, item),
        entry_relation_ok(entry, schema, back),
    ensures
        entry_error(entry) is None,
        key_of(back) == key_of(r),
        back.relation_type == r.relation_type,
        back.source == RelationSource::Uploaded,
        back.description@ == r.description@,
        back.confidence == if r.source == RelationSource::Inferred {
            r.confidence
        } else {
            95
        },
{
    relation_type_name_reads_back(r.relation_type);
    relation_source_name_reads_back(RelationSource::Uploaded);
    assert(entry_source_name(entry) == "uploaded"@);
}

/// The same, seen from the reading side: a template entry put back in a
/// relation file is never refused.
pub proof fn template_entry_is_accepted(
    r: TableRelation,
    item: RelationTemplateItem,
    entry: ExternalRelation,
)
    requires
        template_item_of(item, r),
        entry_holds_item(entry, item),
    ensures
        entry_error(entry) is None,
        source_of_name(entry_source_name(entry)) == Some(RelationSource::Uploaded),
        type_of_name(entry.relation_type@) == Some(r.relation_type),
{
    relation_type_name_reads_back(r.relation_type);
    relation_source_name_reads_back(RelationSource::Uploaded);
}

// ---------------------------------------------------------------------------
// Escaping
// ---------------------------------------------------------------------------

proof fn lemma_flat_map_first(v: Seq<char>, f: spec_fn(char) -> Seq<char>)
    requires
        v.len() > 0,
    ensures
        v.flat_map(f) == f(v[0]) + v.drop_first().flat_map(f),
{
    assert(v.map_values(f).drop_first() =~= v.drop_first().map_values(f));
}

/// When no piece that `f` gives holds a character that `bad` rejects, the
/// whole mapped text holds none either.
proof fn lemma_flat_map_avoids(v: Seq<char>, f: spec_fn(char) -> Seq<char>, bad: spec_fn(char) -> bool)
    requires
        forall|c: char, j: int| 0 <= j < f(c).len() ==> !bad(#[trigger] f(c)[j]),
    ensures
        forall|i: int| 0 <= i < v.flat_map(f).len() ==> !bad(#[trigger] v.flat_map(f)[i]),
    decreases v.len(),
{
    if v.len() == 0 {
        assert(v.map_values(f).len() == 0);
    } else {
        lemma_flat_map_first(v, f);
        lemma_flat_map_avoids(v.drop_first(), f, bad);
        let head = f(v[0]);
        let rest = v.drop_first().flat_map(f);
        assert forall|i: int| 0 <= i < v.flat_map(f).len() implies !bad(
            #[trigger] v.flat_map(f)[i],
        ) by {
            if i < head.len() {
                assert(v.flat_map(f)[i] == head[i]);
            } else {
                assert(v.flat_map(f)[i] == rest[i - head.len()]);
            }
        }
    }
}

/// Text escaped for HTML holds no `<`, `>` or `"`.
pub proof fn escaped_html_has_no_markup(value: Seq<char>)
    ensures
        forall|i: int|
            0 <= i < escape_html_seq(value).len() ==> {
                let c = #[trigger] escape_html_seq(value)[i];
                c != '<' && c != '>' && c != '"'
            },
{
    reveal_strlit("&amp;");
    reveal_strlit("&lt;");
    reveal_strlit("&gt;");
    reveal_strlit("&quot;");
    let bad = |c: char| c == '<' || c == '>' || c == '"';
    let f = |c: char| html_char(c);
    assert forall|c: char, j: int| 0 <= j < f(c).len() implies !bad(#[trigger] f(c)[j]) by {}
    lemma_flat_map_avoids(value, f, bad);
    assert(escape_html_seq(value) == value.flat_map(f));
    assert forall|i: int| 0 <= i < escape_html_seq(value).len() implies {
        let c = #[trigger] escape_html_seq(value)[i];
        c != '<' && c != '>' && c != '"'
    } by {
        assert(!bad(value.flat_map(f)[i]));
    }
}

/// Text escaped for an HTML attribute holds no `<`, `>`, `"` or `'`.
pub proof fn escaped_html_attribute_has_no_quotes(value: Seq<char>)
    ensures
        forall|i: int|
            0 <= i < escape_html_attr_seq(value).len() ==> {
                let c = #[trigger] escape_html_attr_seq(value)[i];
                c != '<' && c != '>' && c != '"' && c != '\''
            },
{
    reveal_strlit("&amp;");
    reveal_strlit("&lt;");
    reveal_strlit("&gt;");
    reveal_strlit("&quot;");
    reveal_strlit("&#39;");
    let bad = |c: char| c == '<' || c == '>' || c == '"' || c == '\'';
    let f = |c: char| html_attr_char(c);
    assert forall|c: char, j: int| 0 <= j < f(c).len() implies !bad(#[trigger] f(c)[j]) by {}
    lemma_flat_map_avoids(value, f, bad);
    assert(escape_html_attr_seq(value) == value.flat_map(f));
    assert forall|i: int| 0 <= i < escape_html_attr_seq(value).len() implies {
        let c = #[trigger] escape_html_attr_seq(value)[i];
        c != '<' && c != '>' && c != '"' && c != '\''
    } by {
        assert(!bad(value.flat_map(f)[i]));
    }
}

/// A Markdown table cell never breaks its row: it holds no line break.
pub proof fn markdown_cell_stays_on_one_line(value: Seq<char>)
    ensures
        forall|i: int|
            0 <= i < markdown_cell_seq(value).len() ==> #[trigger] markdown_cell_seq(value)[i]
                != '\n',
{
    let bad = |c: char| c == '\n';
    let f = |c: char| md_cell_char(c);
    assert forall|c: char, j: int| 0 <= j < f(c).len() implies !bad(#[trigger] f(c)[j]) by {}
    lemma_flat_map_avoids(value, f, bad);
    assert(markdown_cell_seq(value) == value.flat_map(f));
    assert forall|i: int| 0 <= i < markdown_cell_seq(value).len() implies #[trigger] markdown_cell_seq(
        value,
    )[i] != '\n' by {
        assert(!bad(value.flat_map(f)[i]));
    }
}

/// A name made safe for a file system has the same length and none of the
/// characters a file name cannot hold.
pub proof fn safe_file_names_have_no_reserved_characters(value: Seq<char>)
    ensures
        safe_name_seq(value).len() == value.len(),
        forall|i: int|
            0 <= i < safe_name_seq(value).len() ==> !is_unsafe_file_char(
                #[trigger] safe_name_seq(value)[i],
            ),
{
}

// ---------------------------------------------------------------------------
// Table patterns and filters
// ---------------------------------------------------------------------------

proof fn lemma_glob_literal(name: Seq<char>, pattern: Seq<char>)
    requires
        forall|i: int| 0 <= i < pattern.len() ==> #[trigger] pattern[i] != '*',
    ensures
        glob(name, pattern) <==> name == pattern,
    decreases pattern.len(),
{
    if pattern.len() > 0 {
        assert forall|i: int| 0 <= i < pattern.drop_first().len() implies #[trigger] pattern.drop_first()[i]
            != '*' by {
            assert(pattern.drop_first()[i] == pattern[i + 1]);
        }
        if name.len() > 0 {
            lemma_glob_literal(name.drop_first(), pattern.drop_first());
            if name[0] == pattern[0] && name.drop_first() == pattern.drop_first() {
                assert(name =~= pattern) by {
                    assert forall|i: int| 0 <= i < name.len() implies name[i] == pattern[i] by {
                        if i > 0 {
                            assert(name[i] == name.drop_first()[i - 1]);
                            assert(pattern[i] == pattern.drop_first()[i - 1]);
                        }
                    }
                }
            }
            if name == pattern {
                assert(name.drop_first() =~= pattern.drop_first());
            }
        }
    } else {
        if name.len() == 0 {
            assert(name =~= pattern);
        }
    }
}

/// A pattern without `*` matches exactly the table names equal to it up to
/// ASCII case.
pub proof fn pattern_without_wildcard_is_equality(table_name: Seq<char>, pattern: Seq<char>)
    requires
        forall|i: int| 0 <= i < pattern.len() ==> #[trigger] pattern[i] != '*',
    ensures
        pattern_matches_spec(table_name, pattern) <==> lower_seq(table_name) == lower_seq(pattern),
{
    assert forall|i: int| 0 <= i < lower_seq(pattern).len() implies #[trigger] lower_seq(pattern)[i]
        != '*' by {
        assert(pattern[i] != '*');
    }
    lemma_glob_literal(lower_seq(table_name), lower_seq(pattern));
}

/// The pattern `*` matches every table name.
pub proof fn star_matches_every_table(table_name: Seq<char>)
    ensures
        pattern_matches_spec(table_name, seq!['*']),
    decreases table_name.len(),
{
    let n = lower_seq(table_name);
    let p = lower_seq(seq!['*']);
    assert(p =~= seq!['*']);
    lemma_star_glob(n);
}

proof fn lemma_star_glob(n: Seq<char>)
    ensures
        glob(n, seq!['*']),
    decreases n.len(),
{
    let p = seq!['*'];
    assert(p.drop_first() =~= Seq::<char>::empty());
    assert(p[0] == '*');
    assert(glob(n, p.drop_first()) == (n.len() == 0));
    if n.len() > 0 {
        lemma_star_glob(n.drop_first());
        assert(glob(n.drop_first(), p));
    }
}

/// The tables left by ignore patterns are exactly those of `tables`, in
/// order, whose names match none of the patterns.
pub proof fn kept_tables_match_no_pattern(tables: Seq<Table>, patterns: Seq<Seq<char>>)
    ensures
        forall|i: int|
            0 <= i < kept_tables(tables, patterns).len() ==> !matches_any_spec(
                (#[trigger] kept_tables(tables, patterns)[i]).name@,
                patterns,
            ),
        forall|i: int|
            0 <= i < tables.len() && !matches_any_spec(tables[i].name@, patterns) ==> #[trigger] kept_tables(
                tables,
                patterns,
            ).contains(tables[i]),
        kept_tables(tables, patterns).len() <= tables.len(),
{
    broadcast use vstd::seq_lib::group_filter_ensures;
}

/// Every relation kept for a set of tables links two of those tables.
pub proof fn present_relations_link_present_tables(tables: Seq<Table>, rels: Seq<TableRelation>)
    ensures
        forall|i: int|
            0 <= i < present_relations(tables, rels).len() ==> links_present_tables(
                tables,
                #[trigger] present_relations(tables, rels)[i],
            ),
        forall|i: int|
            0 <= i < rels.len() && links_present_tables(tables, rels[i]) ==> #[trigger] present_relations(
                tables,
                rels,
            ).contains(rels[i]),
{
    broadcast use vstd::seq_lib::group_filter_ensures;
}

/// A schema made ready for its documents holds no ignored table, and each of
/// its relations links two of its tables.
pub proof fn prepared_schema_is_consistent(
    r: DatabaseSchema,
    database: DatabaseSchema,
    config: AppConfig,
    schema: Seq<char>,
    external: Seq<TableRelation>,
)
    requires
        prepared_from(r, database, config, schema, external),
    ensures
        forall|i: int|
            0 <= i < r.tables@.len() ==> !matches_any_spec(
                (#[trigger] r.tables@[i]).name@,
                ignore_patterns_spec(config),
            ),
        forall|i: int|
            0 <= i < r.relations@.len() ==> links_present_tables(
                r.tables@,
                #[trigger] r.relations@[i],
            ),
{
    let pats = ignore_patterns_spec(config);
    kept_tables_match_no_pattern(database.tables@, pats);
    assert forall|i: int| 0 <= i < r.tables@.len() implies !matches_any_spec(
        (#[trigger] r.tables@[i]).name@,
        pats,
    ) by {
        if pats.len() == 0 {
            assert(!matches_any_spec(r.tables@[i].name@, pats));
        } else {
            assert(r.tables@ == kept_tables(database.tables@, pats));
        }
    }
    let (aliases, inferred) = choose|
        aliases: crate::naming::RelationAliases,
        inferred: Seq<TableRelation>,
    |
        {
            &&& crate::filters::pair_views(aliases.pairs@) == crate::filters::aliases_spec(config)
            &&& crate::model::relation_views(inferred) == crate::inference::inferred_relations_spec(
                schema,
                filtered_tables(database, config),
                aliases.pairs@,
            )
            &&& r.relations@ == present_relations(
                filtered_tables(database, config),
                crate::relations::merge_spec(
                    crate::pipeline::filtered_relations(database, config),
                    external,
                    inferred,
                ),
            )
        };
    present_relations_link_present_tables(
        r.tables@,
        crate::relations::merge_spec(
            crate::pipeline::filtered_relations(database, config),
            external,
            inferred,
        ),
    );
}

// ---------------------------------------------------------------------------
// Configuration
// ---------------------------------------------------------------------------

proof fn lemma_nonblank_kept(patterns: Seq<String>, i: int)
    requires
        0 <= i < patterns.len(),
        trim_seq(patterns[i]@).len() > 0,
    ensures
        trimmed_nonblank(patterns).len() > 0,
    decreases patterns.len(),
{
    if i < patterns.len() - 1 {
        assert(patterns.drop_last()[i] == patterns[i]);
        lemma_nonblank_kept(patterns.drop_last(), i);
    }
}

/// A configuration without problems selects at least one schema.
pub proof fn valid_config_selects_a_schema(config: AppConfig)
    requires
        config_problem(config) is None,
    ensures
        trimmed_nonblank(config.schemas@).len() > 0,
{
    let i = choose|i: int| 0 <= i < config.schemas@.len() && trim_seq(#[trigger] config.schemas@[i]@).len() > 0;
    lemma_nonblank_kept(config.schemas@, i);
}

// ---------------------------------------------------------------------------
// Merging relations
// ---------------------------------------------------------------------------

/// No two relations of `rels` link the same columns.
pub open spec fn distinct_keys(rels: Seq<TableRelation>) -> bool {
    forall|i: int, j: int| 0 <= i < j < rels.len() ==> key_of(rels[i]) != key_of(rels[j])
}

/// `rels` links the columns of `x` with a relation of at least its priority.
pub open spec fn covers(rels: Seq<TableRelation>, x: TableRelation) -> bool {
    exists|i: int|
        0 <= i < rels.len() && key_of(#[trigger] rels[i]) == key_of(x) && priority_of(rels[i].source)
            >= priority_of(x.source)
}

/// `rels` links the columns of `x`.
pub open spec fn links_key(rels: Seq<TableRelation>, x: TableRelation) -> bool {
    exists|i: int| 0 <= i < rels.len() && key_of(#[trigger] rels[i]) == key_of(x)
}

proof fn lemma_push_keeps(rels: Seq<TableRelation>, r: TableRelation)
    requires
        distinct_keys(rels),
    ensures
        distinct_keys(push_spec(rels, r)),
        covers(push_spec(rels, r), r),
        forall|x: TableRelation| covers(rels, x) ==> #[trigger] covers(push_spec(rels, r), x),
        forall|x: TableRelation| links_key(rels, x) ==> #[trigger] links_key(push_spec(rels, r), x),
{
    lemma_find_key_from(rels, key_of(r), 0);
    let out = push_spec(rels, r);
    match find_key_from(rels, key_of(r), 0) {
        Some(i) => {
            assert(key_of(rels[i]) == key_of(r));
            if priority_of(r.source) > priority_of(rels[i].source) {
                assert(out == rels.update(i, r));
                assert(distinct_keys(out)) by {
                    assert forall|a: int, b: int| 0 <= a < b < out.len() implies key_of(out[a])
                        != key_of(out[b]) by {
                        assert(key_of(out[a]) == key_of(rels[a]));
                        assert(key_of(out[b]) == key_of(rels[b]));
                    }
                }
                assert(out[i] == r);
                assert forall|x: TableRelation| covers(rels, x) implies #[trigger] covers(out, x) by {
                    let k = choose|k: int|
                        0 <= k < rels.len() && key_of(#[trigger] rels[k]) == key_of(x) && priority_of(
                            rels[k].source,
                        ) >= priority_of(x.source);
                    assert(key_of(out[k]) == key_of(x) && priority_of(out[k].source) >= priority_of(
                        x.source,
                    ));
                }
                assert forall|x: TableRelation| links_key(rels, x) implies #[trigger] links_key(
                    out,
                    x,
                ) by {
                    let k = choose|k: int| 0 <= k < rels.len() && key_of(#[trigger] rels[k]) == key_of(x);
                    assert(key_of(out[k]) == key_of(x));
                }
            } else {
                assert(out == rels);
                assert(key_of(out[i]) == key_of(r));
            }
        },
        None => {
            assert(out == rels.push(r));
            assert(out[rels.len() as int] == r);
            assert forall|x: TableRelation| covers(rels, x) implies #[trigger] covers(out, x) by {
                let k = choose|k: int|
                    0 <= k < rels.len() && key_of(#[trigger] rels[k]) == key_of(x) && priority_of(
                        rels[k].source,
                    ) >= priority_of(x.source);
                assert(out[k] == rels[k]);
            }
            assert forall|x: TableRelation| links_key(rels, x) implies #[trigger] links_key(out, x) by {
                let k = choose|k: int| 0 <= k < rels.len() && key_of(#[trigger] rels[k]) == key_of(x);
                assert(out[k] == rels[k]);
            }
        },
    }
}

proof fn lemma_push_all(rels: Seq<TableRelation>, items: Seq<TableRelation>)
    requires
        distinct_keys(rels),
    ensures
        distinct_keys(push_all_spec(rels, items)),
        forall|x: TableRelation| covers(rels, x) ==> #[trigger] covers(push_all_spec(rels, items), x),
        forall|x: TableRelation|
            links_key(rels, x) ==> #[trigger] links_key(push_all_spec(rels, items), x),
        forall|j: int| 0 <= j < items.len() ==> covers(push_all_spec(rels, items), #[trigger] items[j]),
    decreases items.len(),
{
    if items.len() > 0 {
        let prev = push_all_spec(rels, items.drop_last());
        lemma_push_all(rels, items.drop_last());
        lemma_push_keeps(prev, items.last());
        assert forall|j: int| 0 <= j < items.len() implies covers(
            push_all_spec(rels, items),
            #[trigger] items[j],
        ) by {
            if j < items.len() - 1 {
                assert(items.drop_last()[j] == items[j]);
                assert(covers(prev, items[j]));
            }
        }
    }
}

proof fn lemma_add_missing(rels: Seq<TableRelation>, items: Seq<TableRelation>)
    requires
        distinct_keys(rels),
    ensures
        distinct_keys(add_missing_spec(rels, items)),
        forall|x: TableRelation| covers(rels, x) ==> #[trigger] covers(add_missing_spec(rels, items), x),
        forall|j: int|
            0 <= j < items.len() ==> links_key(add_missing_spec(rels, items), #[trigger] items[j]),
    decreases items.len(),
{
    if items.len() > 0 {
        let prev = add_missing_spec(rels, items.drop_last());
        lemma_add_missing(rels, items.drop_last());
        let x = items.last();
        lemma_find_key_from(prev, key_of(x), 0);
        let out = add_missing_spec(rels, items);
        if find_key_from(prev, key_of(x), 0) is Some {
            let i = find_key_from(prev, key_of(x), 0)->0;
            assert(key_of(prev[i]) == key_of(x));
        } else {
            assert(out == prev.push(x));
            assert(out[prev.len() as int] == x);
            assert forall|y: TableRelation| covers(rels, y) implies #[trigger] covers(out, y) by {
                assert(covers(prev, y));
                let k = choose|k: int|
                    0 <= k < prev.len() && key_of(#[trigger] prev[k]) == key_of(y) && priority_of(
                        prev[k].source,
                    ) >= priority_of(y.source);
                assert(out[k] == prev[k]);
            }
        }
        assert forall|j: int| 0 <= j < items.len() implies links_key(out, #[trigger] items[j]) by {
            if j < items.len() - 1 {
                assert(items.drop_last()[j] == items[j]);
                assert(links_key(prev, items[j]));
                let k = choose|k: int| 0 <= k < prev.len() && key_of(#[trigger] prev[k]) == key_of(items[j]);
                assert(out[k] == prev[k]);
            }
        }
    }
}

/// Merging relations links every column pair once: no two merged relations
/// link the same columns; every database foreign key and relation-file
/// relation has its columns linked by a relation of at least its priority,
/// so that an inferred relation never displaces one of them; and every
/// inferred relation has its columns linked.
pub proof fn merged_relations_are_keyed_and_complete(
    database_foreign_keys: Seq<TableRelation>,
    external_relations: Seq<TableRelation>,
    inferred_relations: Seq<TableRelation>,
)
    ensures
        distinct_keys(merge_spec(database_foreign_keys, external_relations, inferred_relations)),
        forall|j: int|
            0 <= j < database_foreign_keys.len() ==> covers(
                merge_spec(database_foreign_keys, external_relations, inferred_relations),
                #[trigger] database_foreign_keys[j],
            ),
        forall|j: int|
            0 <= j < external_relations.len() ==> covers(
                merge_spec(database_foreign_keys, external_relations, inferred_relations),
                #[trigger] external_relations[j],
            ),
        forall|j: int|
            0 <= j < inferred_relations.len() ==> links_key(
                merge_spec(database_foreign_keys, external_relations, inferred_relations),
                #[trigger] inferred_relations[j],
            ),
{
    let empty = Seq::<TableRelation>::empty();
    let a = push_all_spec(empty, database_foreign_keys);
    let b = push_all_spec(a, external_relations);
    lemma_push_all(empty, database_foreign_keys);
    lemma_push_all(a, external_relations);
    lemma_add_missing(b, inferred_relations);
    assert forall|j: int| 0 <= j < database_foreign_keys.len() implies covers(
        merge_spec(database_foreign_keys, external_relations, inferred_relations),
        #[trigger] database_foreign_keys[j],
    ) by {
        assert(covers(a, database_foreign_keys[j]));
        assert(covers(b, database_foreign_keys[j]));
    }
    assert forall|j: int| 0 <= j < external_relations.len() implies covers(
        merge_spec(database_foreign_keys, external_relations, inferred_relations),
        #[trigger] external_relations[j],
    ) by {
        assert(covers(b, external_relations[j]));
    }
}

// ---------------------------------------------------------------------------
// Inferred relations
// ---------------------------------------------------------------------------

/// A target found for a column of `src`: at most 94 hundredths sure, in
/// another table of `tables`.
pub open spec fn target_ok(tables: Seq<Table>, src: Table, tv: TargetView) -> bool {
    &&& tv.confidence <= 94
    &&& tv.table_name != src.name@
    &&& has_table(tables, tv.table_name)
}

/// An inferred relation of schema `schema` over `tables`.
pub open spec fn inferred_ok(tables: Seq<Table>, schema: Seq<char>, v: RelationView) -> bool {
    &&& v.source == RelationSource::Inferred
    &&& v.source_schema == Some(schema)
    &&& v.target_schema == Some(schema)
    &&& has_table(tables, v.source_table)
    &&& has_table(tables, v.target_table)
    &&& v.source_table != v.target_table
    &&& v.confidence <= 94
}

proof fn lemma_named_candidates_ok(
    src: Table,
    col: Column,
    tables: Seq<Table>,
    pairs: Seq<(String, String)>,
    prefix: Seq<char>,
    target_column: Seq<char>,
    base: u32,
    n: int,
)
    ensures
        forall|i: int|
            0 <= i < named_candidates(src, col, tables, pairs, prefix, target_column, base, n).len()
                ==> target_ok(
                tables,
                src,
                #[trigger] named_candidates(src, col, tables, pairs, prefix, target_column, base, n)[i],
            ),
    decreases n,
{
    if 0 < n <= tables.len() {
        lemma_named_candidates_ok(src, col, tables, pairs, prefix, target_column, base, n - 1);
        let prev = named_candidates(src, col, tables, pairs, prefix, target_column, base, n - 1);
        let out = named_candidates(src, col, tables, pairs, prefix, target_column, base, n);
        let t = tables[n - 1];
        assert(has_table(tables, t.name@)) by {
            assert(tables[n - 1].name@ == t.name@);
        }
        assert forall|i: int| 0 <= i < out.len() implies target_ok(tables, src, #[trigger] out[i]) by {
            if i < prev.len() {
                assert(out[i] == prev[i]);
            }
        }
    }
}

proof fn lemma_business_candidates_ok(
    src: Table,
    col: Column,
    tables: Seq<Table>,
    pairs: Seq<(String, String)>,
    prefix: Seq<char>,
    n: int,
)
    ensures
        forall|i: int|
            0 <= i < business_candidates(src, col, tables, pairs, prefix, n).len() ==> target_ok(
                tables,
                src,
                #[trigger] business_candidates(src, col, tables, pairs, prefix, n)[i],
            ),
    decreases n,
{
    if 0 < n <= tables.len() {
        lemma_business_candidates_ok(src, col, tables, pairs, prefix, n - 1);
        let prev = business_candidates(src, col, tables, pairs, prefix, n - 1);
        let out = business_candidates(src, col, tables, pairs, prefix, n);
        let t = tables[n - 1];
        assert(has_table(tables, t.name@)) by {
            assert(tables[n - 1].name@ == t.name@);
        }
        assert forall|i: int| 0 <= i < out.len() implies target_ok(tables, src, #[trigger] out[i]) by {
            if i < prev.len() {
                assert(out[i] == prev[i]);
            }
        }
    }
}

proof fn lemma_extension_candidates_ok(
    src: Table,
    col: Column,
    tables: Seq<Table>,
    pairs: Seq<(String, String)>,
    n: int,
)
    ensures
        forall|i: int|
            0 <= i < extension_candidates(src, col, tables, pairs, n).len() ==> target_ok(
                tables,
                src,
                #[trigger] extension_candidates(src, col, tables, pairs, n)[i],
            ),
    decreases n,
{
    if 0 < n <= tables.len() {
        lemma_extension_candidates_ok(src, col, tables, pairs, n - 1);
        let prev = extension_candidates(src, col, tables, pairs, n - 1);
        let out = extension_candidates(src, col, tables, pairs, n);
        let t = tables[n - 1];
        assert(has_table(tables, t.name@)) by {
            assert(tables[n - 1].name@ == t.name@);
        }
        assert forall|i: int| 0 <= i < out.len() implies target_ok(tables, src, #[trigger] out[i]) by {
            if i < prev.len() {
                assert(out[i] == prev[i]);
            }
        }
    }
}

proof fn lemma_column_targets_ok(src: Table, col: Column, tables: Seq<Table>, pairs: Seq<(String, String)>)
    ensures
        forall|i: int|
            0 <= i < column_targets_spec(src, col, tables, pairs).len() ==> target_ok(
                tables,
                src,
                #[trigger] column_targets_spec(src, col, tables, pairs)[i],
            ),
{
    lemma_extension_candidates_ok(src, col, tables, pairs, tables.len() as int);
    if let Some(prefix) = column_prefix_seq(col.name@) {
        lemma_business_candidates_ok(src, col, tables, pairs, prefix, tables.len() as int);
    }
    lemma_named_candidates_ok(
        src,
        col,
        tables,
        pairs,
        without_suffix(col.name@, "_id"@),
        "id"@,
        86,
        tables.len() as int,
    );
    lemma_named_candidates_ok(
        src,
        col,
        tables,
        pairs,
        without_suffix(col.name@, "_code"@),
        "code"@,
        82,
        tables.len() as int,
    );
}

proof fn lemma_table_relations_ok(
    schema: Seq<char>,
    t: Table,
    ti: int,
    tables: Seq<Table>,
    pairs: Seq<(String, String)>,
    n: int,
)
    requires
        0 <= ti < tables.len(),
        tables[ti] == t,
    ensures
        forall|i: int|
            0 <= i < table_relations_spec(schema, t, tables, pairs, n).len() ==> inferred_ok(
                tables,
                schema,
                #[trigger] table_relations_spec(schema, t, tables, pairs, n)[i],
            ),
    decreases n,
{
    if 0 < n <= t.columns@.len() {
        lemma_table_relations_ok(schema, t, ti, tables, pairs, n - 1);
        let c = t.columns@[n - 1];
        let prev = table_relations_spec(schema, t, tables, pairs, n - 1);
        let ts = column_targets_spec(t, c, tables, pairs);
        lemma_column_targets_ok(t, c, tables, pairs);
        let mapped = ts.map_values(|tg: TargetView| relation_from_target(schema, t, c, tg));
        assert(has_table(tables, t.name@)) by {
            assert(tables[ti].name@ == t.name@);
        }
        assert forall|i: int| 0 <= i < (prev + mapped).len() implies inferred_ok(
            tables,
            schema,
            #[trigger] (prev + mapped)[i],
        ) by {
            if i >= prev.len() {
                assert(target_ok(tables, t, ts[i - prev.len()]));
            }
        }
    }
}

proof fn lemma_inferred_upto_ok(
    schema: Seq<char>,
    tables: Seq<Table>,
    pairs: Seq<(String, String)>,
    m: int,
)
    ensures
        forall|i: int|
            0 <= i < inferred_relations_upto(schema, tables, pairs, m).len() ==> inferred_ok(
                tables,
                schema,
                #[trigger] inferred_relations_upto(schema, tables, pairs, m)[i],
            ),
    decreases m,
{
    if 0 < m <= tables.len() {
        lemma_inferred_upto_ok(schema, tables, pairs, m - 1);
        let t = tables[m - 1];
        lemma_table_relations_ok(schema, t, m - 1, tables, pairs, t.columns@.len() as int);
        let prev = inferred_relations_upto(schema, tables, pairs, m - 1);
        let more = table_relations_spec(schema, t, tables, pairs, t.columns@.len() as int);
        assert forall|i: int| 0 <= i < (prev + more).len() implies inferred_ok(
            tables,
            schema,
            #[trigger] (prev + more)[i],
        ) by {
            if i >= prev.len() {
                assert(inferred_ok(tables, schema, more[i - prev.len()]));
            }
        }
    }
}

/// Every inferred relation is marked inferred, belongs to the schema it was
/// inferred in, links a column of one of its tables to another of its tables,
/// and is at most 94 hundredths sure.
pub proof fn inferred_relations_are_plausible(
    schema: Seq<char>,
    tables: Seq<Table>,
    pairs: Seq<(String, String)>,
)
    ensures
        forall|i: int|
            0 <= i < inferred_relations_spec(schema, tables, pairs).len() ==> inferred_ok(
                tables,
                schema,
                #[trigger] inferred_relations_spec(schema, tables, pairs)[i],
            ),
{
    lemma_inferred_upto_ok(schema, tables, pairs, tables.len() as int);
}

// ---------------------------------------------------------------------------
// Template order
// ---------------------------------------------------------------------------

proof fn lemma_seq_lt_irreflexive(a: Seq<char>)
    ensures
        !seq_lt(a, a),
    decreases a.len(),
{
    if a.len() > 0 {
        lemma_seq_lt_irreflexive(a.drop_first());
    }
}

proof fn lemma_seq_lt_transitive(a: Seq<char>, b: Seq<char>, c: Seq<char>)
    requires
        seq_lt(a, b),
        seq_lt(b, c),
    ensures
        seq_lt(a, c),
    decreases a.len(),
{
    if a.len() > 0 && b.len() > 0 && c.len() > 0 && a[0] == b[0] && b[0] == c[0] {
        lemma_seq_lt_transitive(a.drop_first(), b.drop_first(), c.drop_first());
    }
}

proof fn lemma_entry_before_irreflexive(a: TableRelation)
    ensures
        !entry_before(a, a),
{
    lemma_seq_lt_irreflexive(a.target_column@);
}

proof fn lemma_seq_step(x: Seq<char>, y: Seq<char>, z: Seq<char>)
    ensures
        seq_lt(x, y) && seq_lt(y, z) ==> seq_lt(x, z) && x != z,
{
    if seq_lt(x, y) && seq_lt(y, z) {
        lemma_seq_lt_transitive(x, y, z);
        lemma_seq_lt_irreflexive(x);
    }
}

proof fn lemma_entry_before_transitive(a: TableRelation, b: TableRelation, c: TableRelation)
    requires
        entry_before(a, b),
        entry_before(b, c),
    ensures
        entry_before(a, c),
{
    lemma_seq_step(a.source_table@, b.source_table@, c.source_table@);
    lemma_seq_step(a.source_column@, b.source_column@, c.source_column@);
    lemma_seq_step(a.target_table@, b.target_table@, c.target_table@);
    lemma_seq_step(a.target_column@, b.target_column@, c.target_column@);
    lemma_seq_lt_irreflexive(a.source_table@);
    lemma_seq_lt_irreflexive(a.source_column@);
    lemma_seq_lt_irreflexive(a.target_table@);
    lemma_seq_lt_irreflexive(a.target_column@);
    lemma_seq_lt_irreflexive(b.source_table@);
    lemma_seq_lt_irreflexive(b.source_column@);
    lemma_seq_lt_irreflexive(b.target_table@);
    lemma_seq_lt_irreflexive(b.target_column@);
}

proof fn lemma_insert_position_facts(rels: Seq<TableRelation>, sorted: Seq<usize>, x: usize, j: int)
    requires
        0 <= j <= sorted.len(),
    ensures
        forall|k: int|
            j <= k < insert_position(rels, sorted, x, j) ==> !entry_before(
                rels[x as int],
                rels[#[trigger] sorted[k] as int],
            ),
        insert_position(rels, sorted, x, j) < sorted.len() ==> entry_before(
            rels[x as int],
            rels[sorted[insert_position(rels, sorted, x, j)] as int],
        ),
    decreases sorted.len() - j,
{
    if j < sorted.len() && !entry_before(rels[x as int], rels[sorted[j] as int]) {
        lemma_insert_position_facts(rels, sorted, x, j + 1);
    }
}

/// `s` lists positions of `rels` so that no relation comes before one listed
/// earlier.
pub open spec fn in_template_order(rels: Seq<TableRelation>, s: Seq<usize>) -> bool {
    forall|i: int, j: int|
        0 <= i < j < s.len() ==> !entry_before(rels[#[trigger] s[j] as int], rels[#[trigger] s[i] as int])
}

proof fn lemma_sorted_positions_ordered(rels: Seq<TableRelation>, n: int)
    requires
        0 <= n <= rels.len(),
        rels.len() <= usize::MAX,
    ensures
        in_template_order(rels, sorted_positions(rels, n)),
        sorted_positions(rels, n).no_duplicates(),
    decreases n,
{
    lemma_sorted_positions_in_range(rels, n);
    if n > 0 {
        lemma_sorted_positions_ordered(rels, n - 1);
        lemma_sorted_positions_in_range(rels, n - 1);
        let prev = sorted_positions(rels, n - 1);
        let x = (n - 1) as usize;
        lemma_insert_position_bounds(rels, prev, x, 0);
        lemma_insert_position_facts(rels, prev, x, 0);
        let p = insert_position(rels, prev, x, 0);
        let out = sorted_positions(rels, n);
        assert(out == prev.insert(p, x));
        assert forall|i: int, j: int| 0 <= i < j < out.len() implies !entry_before(
            rels[#[trigger] out[j] as int],
            rels[#[trigger] out[i] as int],
        ) by {
            if i == p {
                let pj = prev[j - 1];
                assert(out[j] == pj);
                if entry_before(rels[pj as int], rels[x as int]) {
                    assert(entry_before(rels[x as int], rels[prev[p] as int]));
                    lemma_entry_before_transitive(rels[pj as int], rels[x as int], rels[prev[p] as int]);
                    if j - 1 == p {
                        lemma_entry_before_irreflexive(rels[pj as int]);
                    } else {
                        assert(!entry_before(rels[prev[j - 1] as int], rels[prev[p] as int]));
                    }
                }
            } else if j == p {
                assert(out[i] == prev[i]);
                assert(out[j] == x);
            } else {
                let pi = if i < p {
                    i
                } else {
                    i - 1
                };
                let pj = if j < p {
                    j
                } else {
                    j - 1
                };
                assert(out[i] == prev[pi]);
                assert(out[j] == prev[pj]);
            }
        }
        assert forall|i: int, j: int| 0 <= i < out.len() && 0 <= j < out.len() && i != j implies out[i]
            != out[j] by {
            if i == p || j == p {
                let k = if i == p {
                    j
                } else {
                    i
                };
                let pk = if k < p {
                    k
                } else {
                    k - 1
                };
                assert(out[k] == prev[pk]);
                assert(prev[pk] < n - 1);
                assert(out[p] == x);
            } else {
                let pi = if i < p {
                    i
                } else {
                    i - 1
                };
                let pj = if j < p {
                    j
                } else {
                    j - 1
                };
                assert(out[i] == prev[pi]);
                assert(out[j] == prev[pj]);
                assert(pi != pj);
                assert(0 <= pi < prev.len() && 0 <= pj < prev.len());
                assert(prev[pi] != prev[pj]);
            }
        }
    }
}

/// The template order lists every relation exactly once, and no relation
/// comes after one it goes before: by source group, then source table,
/// source column, target table and target column.
pub proof fn template_order_lists_each_relation_once_in_order(rels: Seq<TableRelation>)
    requires
        rels.len() <= usize::MAX,
    ensures
        sorted_positions(rels, rels.len() as int).len() == rels.len(),
        sorted_positions(rels, rels.len() as int).no_duplicates(),
        forall|k: int|
            0 <= k < rels.len() ==> #[trigger] sorted_positions(rels, rels.len() as int)[k] < rels.len(),
        in_template_order(rels, sorted_positions(rels, rels.len() as int)),
{
    lemma_sorted_positions_in_range(rels, rels.len() as int);
    lemma_sorted_positions_ordered(rels, rels.len() as int);
}

// ---------------------------------------------------------------------------
// Ignore patterns with a trailing wildcard
// ---------------------------------------------------------------------------

proof fn lemma_prefix_glob(n: Seq<char>, q: Seq<char>)
    requires
        forall|i: int| 0 <= i < q.len() ==> #[trigger] q[i] != '*',
    ensures
        glob(n, q.push('*')) <==> (q.len() <= n.len() && n.take(q.len() as int) == q),
    decreases q.len(),
{
    if q.len() == 0 {
        assert(q.push('*') =~= seq!['*']);
        lemma_star_glob(n);
        assert(n.take(0) =~= q);
    } else {
        let p = q.push('*');
        assert(p[0] == q[0]);
        assert(p.drop_first() =~= q.drop_first().push('*'));
        assert forall|i: int| 0 <= i < q.drop_first().len() implies #[trigger] q.drop_first()[i] != '*' by {
            assert(q.drop_first()[i] == q[i + 1]);
        }
        if n.len() > 0 {
            lemma_prefix_glob(n.drop_first(), q.drop_first());
            if q.len() <= n.len() && n.take(q.len() as int) == q {
                assert(n[0] == n.take(q.len() as int)[0]);
                assert(n.drop_first().take(q.drop_first().len() as int) =~= q.drop_first()) by {
                    assert forall|i: int| 0 <= i < q.drop_first().len() implies n.drop_first().take(
                        q.drop_first().len() as int,
                    )[i] == q.drop_first()[i] by {
                        assert(n.take(q.len() as int)[i + 1] == q[i + 1]);
                    }
                }
            }
            if n[0] == q[0] && q.drop_first().len() <= n.drop_first().len() && n.drop_first().take(
                q.drop_first().len() as int,
            ) == q.drop_first() {
                assert(n.take(q.len() as int) =~= q) by {
                    assert forall|i: int| 0 <= i < q.len() implies n.take(q.len() as int)[i] == q[i] by {
                        if i > 0 {
                            assert(n.drop_first().take(q.drop_first().len() as int)[i - 1] == q.drop_first()[i - 1]);
                        }
                    }
                }
            }
        }
    }
}

/// An ignore pattern made of a prefix without `*` followed by `*` matches
/// exactly the table names that start with that prefix, ignoring ASCII case.
pub proof fn prefix_pattern_matches_names_with_that_prefix(table_name: Seq<char>, prefix: Seq<char>)
    requires
        forall|i: int| 0 <= i < prefix.len() ==> #[trigger] prefix[i] != '*',
    ensures
        pattern_matches_spec(table_name, prefix.push('*')) <==> (prefix.len() <= table_name.len()
            && forall|i: int|
            0 <= i < prefix.len() ==> spec_lower_char(#[trigger] table_name[i]) == spec_lower_char(
                prefix[i],
            )),
{
    let n = lower_seq(table_name);
    let q = lower_seq(prefix);
    assert(lower_seq(prefix.push('*')) =~= q.push('*'));
    assert forall|i: int| 0 <= i < q.len() implies #[trigger] q[i] != '*' by {
        assert(prefix[i] != '*');
    }
    lemma_prefix_glob(n, q);
    if prefix.len() <= table_name.len() {
        if n.take(q.len() as int) == q {
            assert forall|i: int| 0 <= i < prefix.len() implies spec_lower_char(#[trigger] table_name[i])
                == spec_lower_char(prefix[i]) by {
                assert(n.take(q.len() as int)[i] == q[i]);
            }
        }
        if forall|i: int|
            0 <= i < prefix.len() ==> spec_lower_char(#[trigger] table_name[i]) == spec_lower_char(
                prefix[i],
            ) {
            assert(n.take(q.len() as int) =~= q);
        }
    }
}

// ---------------------------------------------------------------------------
// Columns read from the catalogue
// ---------------------------------------------------------------------------

/// `s` spells `YES` in some mix of upper and lower case.
pub open spec fn spells_yes(s: Seq<char>) -> bool {
    &&& s.len() == 3
    &&& (s[0] == 'y' || s[0] == 'Y')
    &&& (s[1] == 'e' || s[1] == 'E')
    &&& (s[2] == 's' || s[2] == 'S')
}

proof fn lemma_last_named_has_name(tables: Seq<TableRecord>, name: Seq<char>)
    ensures
        last_table_named(tables, name) matches Some(p) ==> 0 <= p < tables.len() && tables[p].name@ == name,
    decreases tables.len(),
{
    if tables.len() > 0 && tables.last().name@ != name {
        lemma_last_named_has_name(tables.drop_last(), name);
    }
}

proof fn lemma_columns_for_name_the_table(tables: Seq<TableRecord>, rows: Seq<ColumnRecord>, p: int, n: int)
    ensures
        forall|k: int|
            0 <= k < columns_for(tables, rows, p, n).len() ==> last_table_named(
                tables,
                (#[trigger] columns_for(tables, rows, p, n)[k]).table_name@,
            ) == Some(p),
    decreases n,
{
    if 0 < n <= rows.len() {
        lemma_columns_for_name_the_table(tables, rows, p, n - 1);
    }
}

/// Every column of an assembled table comes from a column row naming that
/// table, keeps the row's name, type, default, comment, key and extra, and is
/// nullable exactly when the row's `is_nullable` is `YES` in any ASCII case.
pub proof fn assembled_columns_are_nullable_exactly_when_marked_yes(
    result: Seq<Table>,
    tables: Seq<TableRecord>,
    columns: Seq<ColumnRecord>,
    indexes: Seq<IndexRecord>,
    p: int,
    k: int,
)
    requires
        assembled_tables(result, tables, columns, indexes),
        0 <= p < result.len(),
        0 <= k < result[p].columns@.len(),
    ensures
        columns_for(tables, columns, p, columns.len() as int).len() == result[p].columns@.len(),
        result[p].columns@[k].name@ == columns_for(tables, columns, p, columns.len() as int)[k].name@,
        result[p].columns@[k].data_type@ == columns_for(tables, columns, p, columns.len() as int)[k].data_type@,
        result[p].columns@[k].default_value@ == columns_for(tables, columns, p, columns.len() as int)[k].default_value@,
        result[p].columns@[k].comment@ == columns_for(tables, columns, p, columns.len() as int)[k].comment@,
        result[p].columns@[k].key@ == columns_for(tables, columns, p, columns.len() as int)[k].key@,
        result[p].columns@[k].extra@ == columns_for(tables, columns, p, columns.len() as int)[k].extra@,
        columns_for(tables, columns, p, columns.len() as int)[k].table_name@ == tables[p].name@,
        result[p].columns@[k].nullable <==> spells_yes(
            columns_for(tables, columns, p, columns.len() as int)[k].is_nullable@,
        ),
{
    let r = columns_for(tables, columns, p, columns.len() as int)[k];
    lemma_columns_for_name_the_table(tables, columns, p, columns.len() as int);
    lemma_last_named_has_name(tables, r.table_name@);
    assert(column_from_record(result[p].columns@[k], r));
    let s = r.is_nullable@;
    let l = lower_seq(s);
    reveal_strlit("yes");
    assert(l.len() == s.len());
    if l == "yes"@ {
        assert(s.len() == 3);
        assert(l[0] == 'y' && l[1] == 'e' && l[2] == 's');
        assert(spec_lower_char(s[0]) == 'y');
        assert(spec_lower_char(s[1]) == 'e');
        assert(spec_lower_char(s[2]) == 's');
    }
    if spells_yes(s) {
        assert(l =~= "yes"@);
    }
}

// ---------------------------------------------------------------------------
// Relation types from unique single-column indexes
// ---------------------------------------------------------------------------

/// `t` has an index that is unique and made of the column `column` alone.
pub open spec fn unique_alone(t: Table, column: Seq<char>) -> bool {
    exists|k: int|
        0 <= k < t.indexes@.len() && #[trigger] t.indexes@[k].unique && views(t.indexes@[k].columns@)
            == seq![column]
}

/// Table `i` is the first of `tables` named `name`.
pub open spec fn first_named(tables: Seq<Table>, name: Seq<char>, i: int) -> bool {
    &&& 0 <= i < tables.len()
    &&& tables[i].name@ == name
    &&& forall|j: int| 0 <= j < i ==> #[trigger] tables[j].name@ != name
}

proof fn lemma_find_table_first(tables: Seq<Table>, name: Seq<char>, k: int)
    requires
        0 <= k,
        forall|j: int| 0 <= j < k ==> #[trigger] tables[j].name@ != name,
    ensures
        match find_table_from(tables, name, k) {
            Some(i) => first_named(tables, name, i),
            None => forall|j: int| 0 <= j < tables.len() ==> #[trigger] tables[j].name@ != name,
        },
    decreases tables.len() - k,
{
    if k < tables.len() && tables[k].name@ != name {
        lemma_find_table_first(tables, name, k + 1);
    }
}

/// The relation type given to a relation from `source_table.source_column`
/// (by the naming and business-key rules, and to foreign keys) is one-to-one
/// exactly when the first table of that name has a unique index made of that
/// column alone, and many-to-one otherwise.
pub proof fn source_relation_type_is_one_to_one_exactly_for_unique_columns(
    tables: Seq<Table>,
    source_table: Seq<char>,
    source_column: Seq<char>,
)
    ensures
        source_relation_type(tables, source_table, source_column) == RelationType::OneToOne
            || source_relation_type(tables, source_table, source_column) == RelationType::ManyToOne,
        source_relation_type(tables, source_table, source_column) == RelationType::OneToOne <==> exists|
            i: int,
        | first_named(tables, source_table, i) && #[trigger] unique_alone(tables[i], source_column),
{
    lemma_find_table_first(tables, source_table, 0);
    match find_table(tables, source_table) {
        Some(i) => {
            assert(has_unique_single(tables[i], source_column) <==> unique_alone(tables[i], source_column)) by {
                if has_unique_single(tables[i], source_column) {
                    let k = choose|k: int|
                        0 <= k < tables[i].indexes@.len() && #[trigger] tables[i].indexes@[k].unique
                            && tables[i].indexes@[k].columns@.len() == 1
                            && tables[i].indexes@[k].columns@[0]@ == source_column;
                    assert(views(tables[i].indexes@[k].columns@) =~= seq![source_column]);
                }
                if unique_alone(tables[i], source_column) {
                    let k = choose|k: int|
                        0 <= k < tables[i].indexes@.len() && #[trigger] tables[i].indexes@[k].unique
                            && views(tables[i].indexes@[k].columns@) == seq![source_column];
                    let cols = tables[i].indexes@[k].columns@;
                    assert(views(cols).len() == cols.len());
                    assert(views(cols)[0] == seq![source_column][0]);
                    assert(views(cols)[0] == cols[0]@);
                }
            }
            assert forall|i2: int| first_named(tables, source_table, i2) implies i2 == i by {
                if i2 < i {
                    assert(tables[i2].name@ != source_table);
                }
                if i < i2 {
                    assert(tables[i].name@ != source_table);
                }
            }
        },
        None => {},
    }
}

/// One-to-one when the first table named `source_table` has a unique index
/// made of `source_column` alone, many-to-one otherwise.
pub open spec fn cardinality_from_source(
    tables: Seq<Table>,
    source_table: Seq<char>,
    source_column: Seq<char>,
) -> RelationType {
    if exists|i: int| first_named(tables, source_table, i) && #[trigger] unique_alone(tables[i], source_column) {
        RelationType::OneToOne
    } else {
        RelationType::ManyToOne
    }
}

proof fn lemma_named_candidates_type(
    src: Table,
    col: Column,
    tables: Seq<Table>,
    pairs: Seq<(String, String)>,
    prefix: Seq<char>,
    target_column: Seq<char>,
    base: u32,
    n: int,
)
    ensures
        forall|k: int|
            0 <= k < named_candidates(src, col, tables, pairs, prefix, target_column, base, n).len()
                ==> (#[trigger] named_candidates(src, col, tables, pairs, prefix, target_column, base, n)[k]).relation_type
                == source_relation_type(tables, src.name@, col.name@),
    decreases n,
{
    if 0 < n <= tables.len() {
        lemma_named_candidates_type(src, col, tables, pairs, prefix, target_column, base, n - 1);
    }
}

proof fn lemma_business_candidates_type(
    src: Table,
    col: Column,
    tables: Seq<Table>,
    pairs: Seq<(String, String)>,
    prefix: Seq<char>,
    n: int,
)
    ensures
        forall|k: int|
            0 <= k < business_candidates(src, col, tables, pairs, prefix, n).len()
                ==> (#[trigger] business_candidates(src, col, tables, pairs, prefix, n)[k]).relation_type
                == source_relation_type(tables, src.name@, col.name@),
    decreases n,
{
    if 0 < n <= tables.len() {
        lemma_business_candidates_type(src, col, tables, pairs, prefix, n - 1);
    }
}

/// A target found for `src.col` by the naming rule or by the business-key
/// rule is one-to-one exactly when the first table named like `src` has a
/// unique index made of that column alone, and many-to-one otherwise.
pub proof fn rule_targets_are_one_to_one_exactly_for_unique_columns(
    src: Table,
    col: Column,
    tables: Seq<Table>,
    pairs: Seq<(String, String)>,
    prefix: Seq<char>,
    target_column: Seq<char>,
    base: u32,
)
    ensures
        named_target_spec(src, col, tables, pairs, prefix, target_column, base) matches Some(tv)
            ==> tv.relation_type == cardinality_from_source(tables, src.name@, col.name@),
        business_target_spec(src, col, tables, pairs) matches Some(tv) ==> tv.relation_type
            == cardinality_from_source(tables, src.name@, col.name@),
{
    source_relation_type_is_one_to_one_exactly_for_unique_columns(tables, src.name@, col.name@);
    lemma_named_candidates_type(src, col, tables, pairs, prefix, target_column, base, tables.len() as int);
    match column_prefix_seq(col.name@) {
        Some(p) => lemma_business_candidates_type(src, col, tables, pairs, p, tables.len() as int),
        None => {},
    }
}

/// A relation read from a foreign key row is one-to-one exactly when the
/// first table named like the row's table has a unique index made of the
/// row's column alone, and many-to-one otherwise.
pub proof fn foreign_keys_are_one_to_one_exactly_for_unique_columns(
    r: TableRelation,
    row: ForeignKeyRecord,
    tables: Seq<Table>,
)
    requires
        foreign_key_relation_of(r, row, tables),
    ensures
        r.relation_type == cardinality_from_source(tables, row.table_name@, row.column_name@),
{
    source_relation_type_is_one_to_one_exactly_for_unique_columns(tables, row.table_name@, row.column_name@);
}

proof fn lemma_unique_alone_is_unique_single(t: Table, column: Seq<char>)
    ensures
        has_unique_single(t, column) <==> unique_alone(t, column),
{
    if has_unique_single(t, column) {
        let k = choose|k: int|
            0 <= k < t.indexes@.len() && #[trigger] t.indexes@[k].unique && t.indexes@[k].columns@.len() == 1
                && t.indexes@[k].columns@[0]@ == column;
        assert(views(t.indexes@[k].columns@) =~= seq![column]);
    }
    if unique_alone(t, column) {
        let k = choose|k: int|
            0 <= k < t.indexes@.len() && #[trigger] t.indexes@[k].unique && views(t.indexes@[k].columns@)
                == seq![column];
        let cols = t.indexes@[k].columns@;
        assert(views(cols).len() == cols.len());
        assert(views(cols)[0] == seq![column][0]);
        assert(views(cols)[0] == cols[0]@);
    }
}

proof fn lemma_extension_candidates_type(
    src: Table,
    col: Column,
    tables: Seq<Table>,
    pairs: Seq<(String, String)>,
    n: int,
)
    ensures
        forall|k: int|
            0 <= k < extension_candidates(src, col, tables, pairs, n).len() ==> {
                let tv = #[trigger] extension_candidates(src, col, tables, pairs, n)[k];
                exists|j: int|
                    0 <= j < tables.len() && tables[j].name@ == tv.table_name && tv.relation_type == (
                    if unique_alone(tables[j], tv.column_name) {
                        RelationType::OneToOne
                    } else {
                        RelationType::OneToMany
                    })
            },
    decreases n,
{
    if 0 < n <= tables.len() {
        lemma_extension_candidates_type(src, col, tables, pairs, n - 1);
        let t = tables[n - 1];
        match first_column_from(t, col.name@, normalized_type_seq(col.data_type@), false, 0) {
            Some(j) => {
                lemma_first_column_from(t, col.name@, normalized_type_seq(col.data_type@), false, 0);
                lemma_unique_alone_is_unique_single(t, t.columns@[j].name@);
                let prev = extension_candidates(src, col, tables, pairs, n - 1);
                let all = extension_candidates(src, col, tables, pairs, n);
                assert forall|k: int| 0 <= k < all.len() implies {
                    let tv = #[trigger] all[k];
                    exists|j2: int|
                        0 <= j2 < tables.len() && tables[j2].name@ == tv.table_name && tv.relation_type == (
                        if unique_alone(tables[j2], tv.column_name) {
                            RelationType::OneToOne
                        } else {
                            RelationType::OneToMany
                        })
                } by {
                    if k < prev.len() {
                        assert(all[k] == prev[k]);
                    } else {
                        assert(tables[n - 1] == t);
                    }
                }
            },
            None => {},
        }
    }
}

/// A target found by the child-table rule, which links a key to the same
/// column of a child table, is one-to-one when that child table has a unique
/// index made of the target column alone, and one-to-many otherwise.
pub proof fn child_table_targets_are_one_to_one_exactly_for_unique_columns(
    src: Table,
    col: Column,
    tables: Seq<Table>,
    pairs: Seq<(String, String)>,
)
    ensures
        forall|k: int|
            0 <= k < extension_targets_spec(src, col, tables, pairs).len() ==> {
                let tv = #[trigger] extension_targets_spec(src, col, tables, pairs)[k];
                exists|j: int|
                    0 <= j < tables.len() && tables[j].name@ == tv.table_name && tv.relation_type == (
                    if unique_alone(tables[j], tv.column_name) {
                        RelationType::OneToOne
                    } else {
                        RelationType::OneToMany
                    })
            },
{
    lemma_extension_candidates_type(src, col, tables, pairs, tables.len() as int);
}

// ---------------------------------------------------------------------------
// Ignore patterns with a leading wildcard
// ---------------------------------------------------------------------------

proof fn lemma_suffix_glob(n: Seq<char>, q: Seq<char>)
    requires
        forall|i: int| 0 <= i < q.len() ==> #[trigger] q[i] != '*',
    ensures
        glob(n, seq!['*'] + q) <==> (q.len() <= n.len() && n.skip(n.len() - q.len()) == q),
    decreases n.len(),
{
    let p = seq!['*'] + q;
    assert(p[0] == '*');
    assert(p.drop_first() =~= q);
    lemma_glob_literal(n, q);
    if n.len() > 0 {
        lemma_suffix_glob(n.drop_first(), q);
        if q.len() <= n.drop_first().len() {
            assert(n.drop_first().skip(n.drop_first().len() - q.len()) =~= n.skip(n.len() - q.len()));
        }
        if q.len() == n.len() {
            assert(n.skip(0) =~= n);
        }
    } else {
        if q.len() <= n.len() {
            assert(q.len() == 0);
            assert(n.skip(0) =~= n);
            assert(n =~= q);
        }
    }
}

/// An ignore pattern made of `*` followed by a suffix without `*` matches
/// exactly the table names that end with that suffix, ignoring ASCII case.
pub proof fn suffix_pattern_matches_names_with_that_suffix(table_name: Seq<char>, suffix: Seq<char>)
    requires
        forall|i: int| 0 <= i < suffix.len() ==> #[trigger] suffix[i] != '*',
    ensures
        pattern_matches_spec(table_name, seq!['*'] + suffix) <==> (suffix.len() <= table_name.len()
            && forall|i: int|
            0 <= i < suffix.len() ==> spec_lower_char(
                #[trigger] table_name[table_name.len() - suffix.len() + i],
            ) == spec_lower_char(suffix[i])),
{
    let n = lower_seq(table_name);
    let q = lower_seq(suffix);
    assert(lower_seq(seq!['*'] + suffix) =~= seq!['*'] + q);
    assert forall|i: int| 0 <= i < q.len() implies #[trigger] q[i] != '*' by {
        assert(suffix[i] != '*');
    }
    lemma_suffix_glob(n, q);
    if suffix.len() <= table_name.len() {
        let d = table_name.len() - suffix.len();
        if n.skip(d) == q {
            assert forall|i: int| 0 <= i < suffix.len() implies spec_lower_char(
                #[trigger] table_name[table_name.len() - suffix.len() + i],
            ) == spec_lower_char(suffix[i]) by {
                assert(n.skip(d)[i] == q[i]);
            }
        }
        if forall|i: int|
            0 <= i < suffix.len() ==> spec_lower_char(
                #[trigger] table_name[table_name.len() - suffix.len() + i],
            ) == spec_lower_char(suffix[i]) {
            assert forall|i: int| 0 <= i < q.len() implies n.skip(d)[i] == q[i] by {
                assert(spec_lower_char(table_name[table_name.len() - suffix.len() + i]) == spec_lower_char(suffix[i]));
            }
            assert(n.skip(d) =~= q);
        }
    }
}

proof fn lemma_one_star_glob(n: Seq<char>, a: Seq<char>, b: Seq<char>)
    requires
        forall|i: int| 0 <= i < a.len() ==> #[trigger] a[i] != '*',
        forall|i: int| 0 <= i < b.len() ==> #[trigger] b[i] != '*',
    ensures
        glob(n, a + seq!['*'] + b) <==> (a.len() + b.len() <= n.len() && n.take(a.len() as int) == a
            && n.skip(n.len() - b.len()) == b),
    decreases a.len(),
{
    if a.len() == 0 {
        assert(a + seq!['*'] + b =~= seq!['*'] + b);
        lemma_suffix_glob(n, b);
        assert(n.take(0) =~= a);
    } else {
        let p = a + seq!['*'] + b;
        assert(p[0] == a[0]);
        assert(p.drop_first() =~= a.drop_first() + seq!['*'] + b);
        assert forall|i: int| 0 <= i < a.drop_first().len() implies #[trigger] a.drop_first()[i] != '*' by {
            assert(a.drop_first()[i] == a[i + 1]);
        }
        if n.len() > 0 {
            let m = n.drop_first();
            let a1 = a.drop_first();
            lemma_one_star_glob(m, a1, b);
            if a.len() + b.len() <= n.len() {
                assert(m.skip(m.len() - b.len()) =~= n.skip(n.len() - b.len()));
            }
            if n[0] == a[0] && a1.len() + b.len() <= m.len() && m.take(a1.len() as int) == a1 {
                assert(n.take(a.len() as int) =~= a) by {
                    assert forall|i: int| 0 <= i < a.len() implies n.take(a.len() as int)[i] == a[i] by {
                        if i > 0 {
                            assert(m.take(a1.len() as int)[i - 1] == a1[i - 1]);
                        }
                    }
                }
            }
            if a.len() + b.len() <= n.len() && n.take(a.len() as int) == a {
                assert(n[0] == n.take(a.len() as int)[0]);
                assert(m.take(a1.len() as int) =~= a1) by {
                    assert forall|i: int| 0 <= i < a1.len() implies m.take(a1.len() as int)[i] == a1[i] by {
                        assert(n.take(a.len() as int)[i + 1] == a[i + 1]);
                    }
                }
            }
        }
    }
}

/// An ignore pattern with a single `*` between a prefix and a suffix matches
/// exactly the table names, long enough for both, that start with the prefix
/// and end with the suffix, ignoring ASCII case.
pub proof fn one_wildcard_pattern_matches_prefix_and_suffix(
    table_name: Seq<char>,
    prefix: Seq<char>,
    suffix: Seq<char>,
)
    requires
        forall|i: int| 0 <= i < prefix.len() ==> #[trigger] prefix[i] != '*',
        forall|i: int| 0 <= i < suffix.len() ==> #[trigger] suffix[i] != '*',
    ensures
        pattern_matches_spec(table_name, prefix + seq!['*'] + suffix) <==> (prefix.len() + suffix.len()
            <= table_name.len() && lower_seq(table_name).take(prefix.len() as int) == lower_seq(prefix)
            && lower_seq(table_name).skip(table_name.len() - suffix.len()) == lower_seq(suffix)),
{
    let n = lower_seq(table_name);
    let a = lower_seq(prefix);
    let b = lower_seq(suffix);
    assert(lower_seq(prefix + seq!['*'] + suffix) =~= a + seq!['*'] + b);
    assert forall|i: int| 0 <= i < a.len() implies #[trigger] a[i] != '*' by {
        assert(prefix[i] != '*');
    }
    assert forall|i: int| 0 <= i < b.len() implies #[trigger] b[i] != '*' by {
        assert(suffix[i] != '*');
    }
    lemma_one_star_glob(n, a, b);
}

proof fn lemma_columns_for_holds_row(tables: Seq<TableRecord>, rows: Seq<ColumnRecord>, p: int, n: int, m: int)
    requires
        0 <= m < n <= rows.len(),
        last_table_named(tables, rows[m].table_name@) == Some(p),
    ensures
        exists|k: int|
            0 <= k < columns_for(tables, rows, p, n).len() && #[trigger] columns_for(tables, rows, p, n)[k]
                == rows[m],
    decreases n,
{
    let prev = columns_for(tables, rows, p, n - 1);
    if m == n - 1 {
        assert(columns_for(tables, rows, p, n)[prev.len() as int] == rows[m]);
    } else {
        lemma_columns_for_holds_row(tables, rows, p, n - 1, m);
        let k = choose|k: int| 0 <= k < prev.len() && #[trigger] prev[k] == rows[m];
        assert(columns_for(tables, rows, p, n)[k] == rows[m]);
    }
}

/// Every column row that names a table (the last table row of that name)
/// gives that table a column with the row's name, type, default, comment,
/// key and extra, nullable exactly when the row's `is_nullable` is `YES` in
/// any ASCII case.
pub proof fn every_column_row_gives_its_table_a_column(
    result: Seq<Table>,
    tables: Seq<TableRecord>,
    columns: Seq<ColumnRecord>,
    indexes: Seq<IndexRecord>,
    m: int,
    p: int,
)
    requires
        assembled_tables(result, tables, columns, indexes),
        0 <= m < columns.len(),
        last_table_named(tables, columns[m].table_name@) == Some(p),
    ensures
        0 <= p < result.len(),
        exists|k: int|
            0 <= k < result[p].columns@.len() && {
                let c = #[trigger] result[p].columns@[k];
                &&& c.name@ == columns[m].name@
                &&& c.data_type@ == columns[m].data_type@
                &&& c.default_value@ == columns[m].default_value@
                &&& c.comment@ == columns[m].comment@
                &&& c.key@ == columns[m].key@
                &&& c.extra@ == columns[m].extra@
                &&& (c.nullable <==> spells_yes(columns[m].is_nullable@))
            },
{
    lemma_last_table_named(tables, columns[m].table_name@);
    lemma_columns_for_holds_row(tables, columns, p, columns.len() as int, m);
    let cf = columns_for(tables, columns, p, columns.len() as int);
    let k = choose|k: int| 0 <= k < cf.len() && #[trigger] cf[k] == columns[m];
    assert(result[p].columns@.len() == cf.len());
    assembled_columns_are_nullable_exactly_when_marked_yes(result, tables, columns, indexes, p, k);
    let c = result[p].columns@[k];
    assert(c.name@ == columns[m].name@);
}

} // verus!
