//! Discovery of weak relations from table and column names, key metadata,
//! indexes and column types.

use vstd::prelude::*;
use crate::matching::{
    business_prefix_seq, child_table_chars, column_prefix_chars, column_prefix_seq,
    extension_table_seq, is_extension_table_of, matches_prefix_seq, table_name_matches_business_key_prefix,
    table_name_matches_prefix, child_table_seq,
};
use crate::model::{
    relation_view, relation_views, Column, RelationSource, RelationType, RelationView, Table,
    TableRelation,
};
use crate::naming::{
    child_relation_type, has_index_on, has_unique_single, has_unique_single_column_index,
    is_pk, is_primary_key, normalized_type, normalized_type_seq, relation_id, relation_id_seq,
    relation_type_for_source_column, relation_type_for_target_child_column, source_has_index,
    source_relation_type, RelationAliases,
};
use crate::text::{
    chars_eq, chars_of, ends_with, has_suffix, is_blank, owned, push_str, str_eq, string_of,
    sub_chars, trim_seq, without_suffix,
};

verus! {

/// A target column found for a source column.
///
/// `confidence` is in hundredths.
#[derive(Clone, Debug)]
pub struct InferredTarget {
    pub table_name: String,
    pub column_name: String,
    pub relation_type: RelationType,
    pub confidence: u32,
    pub description: String,
}

/// The content of an [`InferredTarget`].
pub struct TargetView {
    pub table_name: Seq<char>,
    pub column_name: Seq<char>,
    pub relation_type: RelationType,
    pub confidence: u32,
    pub description: Seq<char>,
}

pub open spec fn target_view(t: InferredTarget) -> TargetView {
    TargetView {
        table_name: t.table_name@,
        column_name: t.column_name@,
        relation_type: t.relation_type,
        confidence: t.confidence,
        description: t.description@,
    }
}

pub open spec fn target_views(ts: Seq<InferredTarget>) -> Seq<TargetView> {
    ts.map_values(|t: InferredTarget| target_view(t))
}

pub open spec fn min94(c: int) -> u32 {
    if c < 94 {
        c as u32
    } else {
        94
    }
}

/// The first column of `t`, from index `k` on, named `name` whose normalized
/// type is `ty`; with `need_key`, it must also be a primary key or `t` must
/// have a unique index on exactly that column.
pub open spec fn first_column_from(
    t: Table,
    name: Seq<char>,
    ty: Seq<char>,
    need_key: bool,
    k: int,
) -> Option<int>
    decreases t.columns@.len() - k,
{
    if k < 0 || k >= t.columns@.len() {
        None
    } else if t.columns@[k].name@ == name && normalized_type_seq(t.columns@[k].data_type@) == ty
        && (!need_key || is_pk(t.columns@[k].key@) || has_unique_single(t, name)) {
        Some(k)
    } else {
        first_column_from(t, name, ty, need_key, k + 1)
    }
}

pub proof fn lemma_first_column_from(t: Table, name: Seq<char>, ty: Seq<char>, need_key: bool, k: int)
    requires
        0 <= k,
    ensures
        first_column_from(t, name, ty, need_key, k) matches Some(j) ==> k <= j < t.columns@.len()
            && t.columns@[j].name@ == name,
    decreases t.columns@.len() - k,
{
    if k < t.columns@.len() {
        lemma_first_column_from(t, name, ty, need_key, k + 1);
    }
}

fn first_column_exec(t: &Table, name: &str, ty: &[char], need_key: bool) -> (r: Option<usize>)
    ensures
        match r {
            Some(j) => first_column_from(*t, name@, ty@, need_key, 0) == Some(j as int),
            None => first_column_from(*t, name@, ty@, need_key, 0) is None,
        },
{
    let unique = has_unique_single_column_index(t, name);
    let mut j: usize = 0;
    while j < t.columns.len()
        invariant
            j <= t.columns@.len(),
            unique == has_unique_single(*t, name@),
            first_column_from(*t, name@, ty@, need_key, 0) == first_column_from(
                *t,
                name@,
                ty@,
                need_key,
                j as int,
            ),
        decreases t.columns@.len() - j,
    {
        let column = &t.columns[j];
        if str_eq(column.name.as_str(), name) {
            let ct = normalized_type(column.data_type.as_str());
            let cv = chars_of(ct.as_str());
            if chars_eq(cv.as_slice(), ty) && (!need_key || is_primary_key(column.key.as_str())
                || unique) {
                return Some(j);
            }
        }
        j = j + 1;
    }
    None
}

// ---------------------------------------------------------------------------
// `<entity>_id` and `<entity>_code` columns
// ---------------------------------------------------------------------------

/// The target in table `t`, column `c` for `src.col` by the naming rule.
pub open spec fn named_target_view(
    src: Table,
    col: Column,
    tables: Seq<Table>,
    t: Table,
    c: Column,
    base: u32,
) -> TargetView {
    TargetView {
        table_name: t.name@,
        column_name: c.name@,
        relation_type: source_relation_type(tables, src.name@, col.name@),
        confidence: min94(
            base + (if has_index_on(src, col.name@) { 4int } else { 0int }) + (if is_pk(c.key@) {
                4int
            } else {
                0int
            }),
        ),
        description: "按 "@ + col.name@ + " -> "@ + t.name@ + "."@ + c.name@ + " 规则推断"@,
    }
}

/// The candidate targets among the first `n` tables for `src.col` by the
/// naming rule: tables other than `src` named like `prefix` that have a key
/// column `target_column` of the same type.
pub open spec fn named_candidates(
    src: Table,
    col: Column,
    tables: Seq<Table>,
    pairs: Seq<(String, String)>,
    prefix: Seq<char>,
    target_column: Seq<char>,
    base: u32,
    n: int,
) -> Seq<TargetView>
    decreases n,
{
    if n <= 0 || n > tables.len() {
        Seq::empty()
    } else {
        let prev = named_candidates(src, col, tables, pairs, prefix, target_column, base, n - 1);
        let t = tables[n - 1];
        if t.name@ != src.name@ && matches_prefix_seq(t.name@, prefix, pairs) {
            match first_column_from(
                t,
                target_column,
                normalized_type_seq(col.data_type@),
                true,
                0,
            ) {
                Some(j) => prev.push(named_target_view(src, col, tables, t, t.columns@[j], base)),
                None => prev,
            }
        } else {
            prev
        }
    }
}

/// The target by the naming rule: the candidate when there is exactly one.
pub open spec fn named_target_spec(
    src: Table,
    col: Column,
    tables: Seq<Table>,
    pairs: Seq<(String, String)>,
    prefix: Seq<char>,
    target_column: Seq<char>,
    base: u32,
) -> Option<TargetView> {
    let c = named_candidates(src, col, tables, pairs, prefix, target_column, base, tables.len() as int);
    if c.len() == 1 {
        Some(c[0])
    } else {
        None
    }
}

fn confidence_with(base: u32, a: bool, a_bonus: u32, b: bool, b_bonus: u32) -> (r: u32)
    requires
        base <= u32::MAX - 8,
        a_bonus <= 4,
        b_bonus <= 4,
    ensures
        r == min94(
            base + (if a { a_bonus as int } else { 0int }) + (if b { b_bonus as int } else { 0int }),
        ),
{
    let mut c = base;
    if a {
        c = c + a_bonus;
    }
    if b {
        c = c + b_bonus;
    }
    if c < 94 {
        c
    } else {
        94
    }
}

pub fn infer_named_target(
    source_table: &Table,
    source_column: &Column,
    tables: &[Table],
    aliases: &RelationAliases,
    prefix: &str,
    target_column: &str,
    base_confidence: u32,
) -> (r: Option<InferredTarget>)
    requires
        base_confidence <= u32::MAX - 8,
    ensures
        match r {
            Some(t) => named_target_spec(
                *source_table,
                *source_column,
                tables@,
                aliases.pairs@,
                prefix@,
                target_column@,
                base_confidence,
            ) == Some(target_view(t)),
            None => named_target_spec(
                *source_table,
                *source_column,
                tables@,
                aliases.pairs@,
                prefix@,
                target_column@,
                base_confidence,
            ) is None,
        },
{
    let st = normalized_type(source_column.data_type.as_str());
    let source_type = chars_of(st.as_str());
    let indexed = source_has_index(source_table, source_column.name.as_str());
    let relation_type = relation_type_for_source_column(
        tables,
        source_table.name.as_str(),
        source_column.name.as_str(),
    );
    let mut candidates: Vec<InferredTarget> = Vec::new();
    let mut i: usize = 0;
    while i < tables.len()
        invariant
            i <= tables@.len(),
            base_confidence <= u32::MAX - 8,
            source_type@ == normalized_type_seq(source_column.data_type@),
            indexed == has_index_on(*source_table, source_column.name@),
            relation_type == source_relation_type(
                tables@,
                source_table.name@,
                source_column.name@,
            ),
            target_views(candidates@) == named_candidates(
                *source_table,
                *source_column,
                tables@,
                aliases.pairs@,
                prefix@,
                target_column@,
                base_confidence,
                i as int,
            ),
        decreases tables@.len() - i,
    {
        let table = &tables[i];
        let ghost prev = candidates@;
        if !str_eq(table.name.as_str(), source_table.name.as_str()) && table_name_matches_prefix(
            table.name.as_str(),
            prefix,
            aliases,
        ) {
            match first_column_exec(table, target_column, source_type.as_slice(), true) {
                Some(j) => {
                    proof {
                        lemma_first_column_from(
                            *table,
                            target_column@,
                            source_type@,
                            true,
                            0,
                        );
                    }
                    let column = &table.columns[j];
                    let pk = is_primary_key(column.key.as_str());
                    let confidence = confidence_with(base_confidence, indexed, 4, pk, 4);
                    let mut description = owned("按 ");
                    push_str(&mut description, source_column.name.as_str());
                    push_str(&mut description, " -> ");
                    push_str(&mut description, table.name.as_str());
                    push_str(&mut description, ".");
                    push_str(&mut description, column.name.as_str());
                    push_str(&mut description, " 规则推断");
                    let target = InferredTarget {
                        table_name: owned(table.name.as_str()),
                        column_name: owned(column.name.as_str()),
                        relation_type,
                        confidence,
                        description,
                    };
                    candidates.push(target);
                    assert(target_views(candidates@) =~= target_views(prev).push(
                        target_view(target),
                    ));
                },
                None => {},
            }
        }
        i = i + 1;
    }
    if candidates.len() == 1 {
        let t = candidates.pop().unwrap();
        Some(t)
    } else {
        None
    }
}


// ---------------------------------------------------------------------------
// Business keys shared by name
// ---------------------------------------------------------------------------

/// The target in table `t`, column `c` for `src.col` by the business-key rule.
pub open spec fn business_target_view(
    src: Table,
    col: Column,
    tables: Seq<Table>,
    t: Table,
    c: Column,
) -> TargetView {
    TargetView {
        table_name: t.name@,
        column_name: c.name@,
        relation_type: source_relation_type(tables, src.name@, col.name@),
        confidence: min94(
            84 + (if has_index_on(src, col.name@) { 4int } else { 0int }) + (if is_pk(c.key@) {
                4int
            } else {
                0int
            }),
        ),
        description: "按同名业务键和表名语义推断："@ + src.name@ + "."@ + col.name@ + " -> "@
            + t.name@ + "."@ + c.name@,
    }
}

/// The candidate targets among the first `n` tables for `src.col` by the
/// business-key rule: tables other than `src`, of which `src` is not a child
/// table, that match the entity `prefix` and have a key column of the same
/// name and type.
pub open spec fn business_candidates(
    src: Table,
    col: Column,
    tables: Seq<Table>,
    pairs: Seq<(String, String)>,
    prefix: Seq<char>,
    n: int,
) -> Seq<TargetView>
    decreases n,
{
    if n <= 0 || n > tables.len() {
        Seq::empty()
    } else {
        let prev = business_candidates(src, col, tables, pairs, prefix, n - 1);
        let t = tables[n - 1];
        if t.name@ != src.name@ && !extension_table_seq(src.name@, t.name@, pairs)
            && business_prefix_seq(t.name@, prefix, pairs) {
            match first_column_from(t, col.name@, normalized_type_seq(col.data_type@), true, 0) {
                Some(j) => prev.push(business_target_view(src, col, tables, t, t.columns@[j])),
                None => prev,
            }
        } else {
            prev
        }
    }
}

/// The target by the business-key rule: none for a column without an `_id`
/// or `_code` ending, else the candidate when there is exactly one.
pub open spec fn business_target_spec(
    src: Table,
    col: Column,
    tables: Seq<Table>,
    pairs: Seq<(String, String)>,
) -> Option<TargetView> {
    match column_prefix_seq(col.name@) {
        None => None,
        Some(prefix) => {
            let c = business_candidates(src, col, tables, pairs, prefix, tables.len() as int);
            if c.len() == 1 {
                Some(c[0])
            } else {
                None
            }
        },
    }
}

pub fn infer_business_key_target(
    source_table: &Table,
    source_column: &Column,
    tables: &[Table],
    aliases: &RelationAliases,
) -> (r: Option<InferredTarget>)
    ensures
        match r {
            Some(t) => business_target_spec(*source_table, *source_column, tables@, aliases.pairs@)
                == Some(target_view(t)),
            None => business_target_spec(
                *source_table,
                *source_column,
                tables@,
                aliases.pairs@,
            ) is None,
        },
{
    let name_chars = chars_of(source_column.name.as_str());
    let prefix_chars = match column_prefix_chars(name_chars.as_slice()) {
        Some(p) => p,
        None => {
            return None;
        },
    };
    let prefix = string_of(prefix_chars.as_slice());
    let st = normalized_type(source_column.data_type.as_str());
    let source_type = chars_of(st.as_str());
    let indexed = source_has_index(source_table, source_column.name.as_str());
    let relation_type = relation_type_for_source_column(
        tables,
        source_table.name.as_str(),
        source_column.name.as_str(),
    );
    let mut candidates: Vec<InferredTarget> = Vec::new();
    let mut i: usize = 0;
    while i < tables.len()
        invariant
            i <= tables@.len(),
            column_prefix_seq(source_column.name@) == Some(prefix@),
            source_type@ == normalized_type_seq(source_column.data_type@),
            indexed == has_index_on(*source_table, source_column.name@),
            relation_type == source_relation_type(
                tables@,
                source_table.name@,
                source_column.name@,
            ),
            target_views(candidates@) == business_candidates(
                *source_table,
                *source_column,
                tables@,
                aliases.pairs@,
                prefix@,
                i as int,
            ),
        decreases tables@.len() - i,
    {
        let table = &tables[i];
        let ghost prev = candidates@;
        if !str_eq(table.name.as_str(), source_table.name.as_str()) && !is_extension_table_of(
            source_table.name.as_str(),
            table.name.as_str(),
            aliases,
        ) && table_name_matches_business_key_prefix(table.name.as_str(), prefix.as_str(), aliases) {
            match first_column_exec(
                table,
                source_column.name.as_str(),
                source_type.as_slice(),
                true,
            ) {
                Some(j) => {
                    proof {
                        lemma_first_column_from(
                            *table,
                            source_column.name@,
                            source_type@,
                            true,
                            0,
                        );
                    }
                    let column = &table.columns[j];
                    let pk = is_primary_key(column.key.as_str());
                    let confidence = confidence_with(84, indexed, 4, pk, 4);
                    let mut description = owned("按同名业务键和表名语义推断：");
                    push_str(&mut description, source_table.name.as_str());
                    push_str(&mut description, ".");
                    push_str(&mut description, source_column.name.as_str());
                    push_str(&mut description, " -> ");
                    push_str(&mut description, table.name.as_str());
                    push_str(&mut description, ".");
                    push_str(&mut description, column.name.as_str());
                    let target = InferredTarget {
                        table_name: owned(table.name.as_str()),
                        column_name: owned(column.name.as_str()),
                        relation_type,
                        confidence,
                        description,
                    };
                    candidates.push(target);
                    assert(target_views(candidates@) =~= target_views(prev).push(
                        target_view(target),
                    ));
                },
                None => {},
            }
        }
        i = i + 1;
    }
    if candidates.len() == 1 {
        let t = candidates.pop().unwrap();
        Some(t)
    } else {
        None
    }
}

// ---------------------------------------------------------------------------
// Child tables sharing the parent's key
// ---------------------------------------------------------------------------

/// The target in child table `t`, column `c` for the key `src.col`.
pub open spec fn extension_target_view(src: Table, col: Column, t: Table, c: Column) -> TargetView {
    TargetView {
        table_name: t.name@,
        column_name: c.name@,
        relation_type: child_relation_type(t, c.name@),
        confidence: min94(
            88 + (if has_index_on(t, c.name@) { 4int } else { 0int }) + (if trim_seq(c.key@).len()
                > 0 {
                2int
            } else {
                0int
            }),
        ),
        description: "按主表扩展表同名键规则推断："@ + src.name@ + "."@ + col.name@ + " -> "@
            + t.name@ + "."@ + c.name@,
    }
}

/// The targets among the first `n` tables for the key `src.col` in child
/// tables: tables other than `src` that are child tables of `src` and have a
/// column of the same name and type.
pub open spec fn extension_candidates(
    src: Table,
    col: Column,
    tables: Seq<Table>,
    pairs: Seq<(String, String)>,
    n: int,
) -> Seq<TargetView>
    decreases n,
{
    if n <= 0 || n > tables.len() {
        Seq::empty()
    } else {
        let prev = extension_candidates(src, col, tables, pairs, n - 1);
        let t = tables[n - 1];
        if t.name@ != src.name@ && child_table_seq(
            t.name@,
            src.name@,
            column_prefix_seq(col.name@),
            pairs,
        ) {
            match first_column_from(t, col.name@, normalized_type_seq(col.data_type@), false, 0) {
                Some(j) => prev.push(extension_target_view(src, col, t, t.columns@[j])),
                None => prev,
            }
        } else {
            prev
        }
    }
}

/// The child-table targets of `src.col`: none unless the column is a primary
/// key or alone unique in `src`.
pub open spec fn extension_targets_spec(
    src: Table,
    col: Column,
    tables: Seq<Table>,
    pairs: Seq<(String, String)>,
) -> Seq<TargetView> {
    if !(is_pk(col.key@) || has_unique_single(src, col.name@)) {
        Seq::empty()
    } else {
        extension_candidates(src, col, tables, pairs, tables.len() as int)
    }
}

pub fn infer_extension_table_targets(
    source_table: &Table,
    source_column: &Column,
    tables: &[Table],
    aliases: &RelationAliases,
) -> (r: Vec<InferredTarget>)
    ensures
        target_views(r@) == extension_targets_spec(
            *source_table,
            *source_column,
            tables@,
            aliases.pairs@,
        ),
{
    if !(is_primary_key(source_column.key.as_str()) || has_unique_single_column_index(
        source_table,
        source_column.name.as_str(),
    )) {
        let empty: Vec<InferredTarget> = Vec::new();
        assert(target_views(empty@) =~= Seq::empty());
        return empty;
    }
    let st = normalized_type(source_column.data_type.as_str());
    let source_type = chars_of(st.as_str());
    let name_chars = chars_of(source_column.name.as_str());
    let prefix = column_prefix_chars(name_chars.as_slice());
    let base = chars_of(source_table.name.as_str());
    let mut targets: Vec<InferredTarget> = Vec::new();
    let mut i: usize = 0;
    while i < tables.len()
        invariant
            i <= tables@.len(),
            source_type@ == normalized_type_seq(source_column.data_type@),
            base@ == source_table.name@,
            match prefix {
                Some(p) => column_prefix_seq(source_column.name@) == Some(p@),
                None => column_prefix_seq(source_column.name@) is None,
            },
            target_views(targets@) == extension_candidates(
                *source_table,
                *source_column,
                tables@,
                aliases.pairs@,
                i as int,
            ),
        decreases tables@.len() - i,
    {
        let table = &tables[i];
        let ghost prev = targets@;
        let tn = chars_of(table.name.as_str());
        let child = match &prefix {
            Some(p) => child_table_chars(tn.as_slice(), base.as_slice(), Some(p.as_slice()), aliases),
            None => child_table_chars(tn.as_slice(), base.as_slice(), None, aliases),
        };
        if !str_eq(table.name.as_str(), source_table.name.as_str()) && child {
            match first_column_exec(
                table,
                source_column.name.as_str(),
                source_type.as_slice(),
                false,
            ) {
                Some(j) => {
                    proof {
                        lemma_first_column_from(
                            *table,
                            source_column.name@,
                            source_type@,
                            false,
                            0,
                        );
                    }
                    let column = &table.columns[j];
                    let indexed = source_has_index(table, column.name.as_str());
                    let keyed = !is_blank(column.key.as_str());
                    let confidence = confidence_with(88, indexed, 4, keyed, 2);
                    let mut description = owned("按主表扩展表同名键规则推断：");
                    push_str(&mut description, source_table.name.as_str());
                    push_str(&mut description, ".");
                    push_str(&mut description, source_column.name.as_str());
                    push_str(&mut description, " -> ");
                    push_str(&mut description, table.name.as_str());
                    push_str(&mut description, ".");
                    push_str(&mut description, column.name.as_str());
                    let target = InferredTarget {
                        table_name: owned(table.name.as_str()),
                        column_name: owned(column.name.as_str()),
                        relation_type: relation_type_for_target_child_column(
                            table,
                            column.name.as_str(),
                        ),
                        confidence,
                        description,
                    };
                    targets.push(target);
                    assert(target_views(targets@) =~= target_views(prev).push(
                        target_view(target),
                    ));
                },
                None => {},
            }
        }
        i = i + 1;
    }
    targets
}


// ---------------------------------------------------------------------------
// All rules together
// ---------------------------------------------------------------------------

pub open spec fn opt_seq(o: Option<TargetView>) -> Seq<TargetView> {
    match o {
        Some(t) => seq![t],
        None => Seq::empty(),
    }
}

/// The targets of `src.col`: its child-table targets when there are any;
/// none for another primary key; else the business-key target; else, for an
/// `_id` column, the table named by the rest of the name with key `id`
/// (confidence from 86), or for a `_code` column the table with key `code`
/// (confidence from 82).
pub open spec fn column_targets_spec(
    src: Table,
    col: Column,
    tables: Seq<Table>,
    pairs: Seq<(String, String)>,
) -> Seq<TargetView> {
    let ext = extension_targets_spec(src, col, tables, pairs);
    if ext.len() > 0 {
        ext
    } else if is_pk(col.key@) {
        Seq::empty()
    } else {
        match business_target_spec(src, col, tables, pairs) {
            Some(t) => seq![t],
            None => if has_suffix(col.name@, "_id"@) {
                opt_seq(
                    named_target_spec(
                        src,
                        col,
                        tables,
                        pairs,
                        without_suffix(col.name@, "_id"@),
                        "id"@,
                        86,
                    ),
                )
            } else if has_suffix(col.name@, "_code"@) {
                opt_seq(
                    named_target_spec(
                        src,
                        col,
                        tables,
                        pairs,
                        without_suffix(col.name@, "_code"@),
                        "code"@,
                        82,
                    ),
                )
            } else {
                Seq::empty()
            },
        }
    }
}

fn opt_vec(o: Option<InferredTarget>) -> (r: Vec<InferredTarget>)
    ensures
        target_views(r@) == opt_seq(
            match o {
                Some(t) => Some(target_view(t)),
                None => None,
            },
        ),
{
    let mut r: Vec<InferredTarget> = Vec::new();
    match o {
        Some(t) => {
            r.push(t);
            assert(target_views(r@) =~= seq![target_view(t)]);
        },
        None => {
            assert(target_views(r@) =~= Seq::empty());
        },
    }
    r
}

pub fn infer_targets_for_column(
    source_table: &Table,
    source_column: &Column,
    tables: &[Table],
    aliases: &RelationAliases,
) -> (r: Vec<InferredTarget>)
    ensures
        target_views(r@) == column_targets_spec(
            *source_table,
            *source_column,
            tables@,
            aliases.pairs@,
        ),
{
    let extension_targets = infer_extension_table_targets(
        source_table,
        source_column,
        tables,
        aliases,
    );
    if extension_targets.len() > 0 {
        return extension_targets;
    }
    if is_primary_key(source_column.key.as_str()) {
        let empty: Vec<InferredTarget> = Vec::new();
        assert(target_views(empty@) =~= Seq::empty());
        return empty;
    }
    if let Some(target) = infer_business_key_target(source_table, source_column, tables, aliases) {
        let mut r: Vec<InferredTarget> = Vec::new();
        r.push(target);
        assert(target_views(r@) =~= seq![target_view(target)]);
        return r;
    }
    let name = chars_of(source_column.name.as_str());
    let id_suffix = chars_of("_id");
    let code_suffix = chars_of("_code");
    if ends_with(name.as_slice(), id_suffix.as_slice()) {
        let prefix = string_of(sub_chars(name.as_slice(), 0, name.len() - id_suffix.len()).as_slice());
        return opt_vec(
            infer_named_target(
                source_table,
                source_column,
                tables,
                aliases,
                prefix.as_str(),
                "id",
                86,
            ),
        );
    }
    if ends_with(name.as_slice(), code_suffix.as_slice()) {
        let prefix = string_of(sub_chars(name.as_slice(), 0, name.len() - code_suffix.len()).as_slice());
        return opt_vec(
            infer_named_target(
                source_table,
                source_column,
                tables,
                aliases,
                prefix.as_str(),
                "code",
                82,
            ),
        );
    }
    let empty: Vec<InferredTarget> = Vec::new();
    assert(target_views(empty@) =~= Seq::empty());
    empty
}

/// The relation for a target of `t.c`, inferred in schema `schema`.
pub open spec fn relation_from_target(
    schema: Seq<char>,
    t: Table,
    c: Column,
    tg: TargetView,
) -> RelationView {
    RelationView {
        id: relation_id_seq("inferred"@, t.name@, c.name@, tg.table_name, tg.column_name),
        name: None,
        source_schema: Some(schema),
        source_table: t.name@,
        source_column: c.name@,
        target_schema: Some(schema),
        target_table: tg.table_name,
        target_column: tg.column_name,
        relation_type: tg.relation_type,
        source: RelationSource::Inferred,
        confidence: tg.confidence,
        description: tg.description,
    }
}

/// The relations inferred for the first `n` columns of `t`, column by column.
pub open spec fn table_relations_spec(
    schema: Seq<char>,
    t: Table,
    tables: Seq<Table>,
    pairs: Seq<(String, String)>,
    n: int,
) -> Seq<RelationView>
    decreases n,
{
    if n <= 0 || n > t.columns@.len() {
        Seq::empty()
    } else {
        let c = t.columns@[n - 1];
        table_relations_spec(schema, t, tables, pairs, n - 1) + column_targets_spec(
            t,
            c,
            tables,
            pairs,
        ).map_values(|tg: TargetView| relation_from_target(schema, t, c, tg))
    }
}

/// The relations inferred for the first `m` tables, table by table.
pub open spec fn inferred_relations_upto(
    schema: Seq<char>,
    tables: Seq<Table>,
    pairs: Seq<(String, String)>,
    m: int,
) -> Seq<RelationView>
    decreases m,
{
    if m <= 0 || m > tables.len() {
        Seq::empty()
    } else {
        inferred_relations_upto(schema, tables, pairs, m - 1) + table_relations_spec(
            schema,
            tables[m - 1],
            tables,
            pairs,
            tables[m - 1].columns@.len() as int,
        )
    }
}

/// The relations inferred for all tables of a schema.
pub open spec fn inferred_relations_spec(
    schema: Seq<char>,
    tables: Seq<Table>,
    pairs: Seq<(String, String)>,
) -> Seq<RelationView> {
    inferred_relations_upto(schema, tables, pairs, tables.len() as int)
}

pub fn infer_relations_from_tables(
    schema: &str,
    tables: &[Table],
    aliases: &RelationAliases,
) -> (r: Vec<TableRelation>)
    ensures
        relation_views(r@) == inferred_relations_spec(schema@, tables@, aliases.pairs@),
{
    let mut relations: Vec<TableRelation> = Vec::new();
    let mut ti: usize = 0;
    while ti < tables.len()
        invariant
            ti <= tables@.len(),
            relation_views(relations@) == inferred_relations_upto(
                schema@,
                tables@,
                aliases.pairs@,
                ti as int,
            ),
        decreases tables@.len() - ti,
    {
        let table = &tables[ti];
        let ghost before_table = relation_views(relations@);
        let mut ci: usize = 0;
        while ci < table.columns.len()
            invariant
                ti < tables@.len(),
                *table == tables@[ti as int],
                ci <= table.columns@.len(),
                relation_views(relations@) == before_table + table_relations_spec(
                    schema@,
                    *table,
                    tables@,
                    aliases.pairs@,
                    ci as int,
                ),
            decreases table.columns@.len() - ci,
        {
            let column = &table.columns[ci];
            let targets = infer_targets_for_column(table, column, tables, aliases);
            let ghost tgs = target_views(targets@);
            let ghost before_column = relation_views(relations@);
            let ghost f = |tg: TargetView| relation_from_target(schema@, *table, *column, tg);
            let ghost all = targets@;
            for target in it: targets
                invariant
                    it.seq() == all,
                    tgs == target_views(all),
                    f == (|tg: TargetView| relation_from_target(schema@, *table, *column, tg)),
                    relation_views(relations@) == before_column + target_views(
                        all.take(it.index() as int),
                    ).map_values(f),
            {
                let ghost k = it.index();
                assert(target == all[k as int]);
                let relation = TableRelation {
                    id: relation_id(
                        "inferred",
                        table.name.as_str(),
                        column.name.as_str(),
                        target.table_name.as_str(),
                        target.column_name.as_str(),
                    ),
                    name: None,
                    source_schema: Some(owned(schema)),
                    source_table: owned(table.name.as_str()),
                    source_column: owned(column.name.as_str()),
                    target_schema: Some(owned(schema)),
                    target_table: target.table_name,
                    target_column: target.column_name,
                    relation_type: target.relation_type,
                    source: RelationSource::Inferred,
                    confidence: target.confidence,
                    description: target.description,
                };
                let ghost prev = relations@;
                relations.push(relation);
                assert(relation_view(relation) == f(target_view(all[k as int])));
                assert(relation_views(relations@) =~= relation_views(prev).push(
                    relation_view(relation),
                ));
                assert(target_views(all.take(k + 1)).map_values(f) =~= target_views(
                    all.take(k as int),
                ).map_values(f).push(f(target_view(all[k as int]))));
            }
            assert(all.take(all.len() as int) =~= all);
            assert(before_table + table_relations_spec(
                schema@,
                *table,
                tables@,
                aliases.pairs@,
                ci + 1,
            ) =~= before_column + tgs.map_values(f));
            ci = ci + 1;
        }
        ti = ti + 1;
    }
    relations
}

} // verus!
