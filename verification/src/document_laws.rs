//! Properties of the rendered documents: what the rows of the dictionary and
//! the ends of the ER diagram's relation lines show.

use vstd::prelude::*;
use crate::er::er_lookup;
use crate::er_html::{endpoint_svg_seq, er_marker_many, er_marker_one, er_relation_svg};
use crate::labels::Labels;
use crate::model::{views, Column, DatabaseSchema, Index, RelationType, Table, TableRelation};
use crate::render::{
    md_column_row, md_column_rows, md_columns_head, md_dir_rows, md_header, md_index_row,
    md_index_rows, md_indexes_head, md_section, md_section_comment, md_section_head, md_sections,
    render_markdown_seq,
};
use crate::text::{dec, join_seq, lower_seq, spec_lower_char};
use crate::labels::{escape_html_seq, markdown_cell_seq};
use crate::naming::is_pk;
use crate::docx::{
    column_rows, directory_rows, directory_widths, docx_plan_spec, index_rows, meta_rows, meta_widths,
    table_blocks, tables_blocks, BlockView,
};
use crate::render::{
    html_column_row, html_column_rows, html_columns_head, html_dir_rows, html_header, html_index_row,
    html_index_rows, html_indexes_head, html_section, html_section_comment, html_section_head,
    html_sections, render_html_seq,
};
use crate::relations::{source_kind_of, target_kind_of, ErEndpointKind, ErEndpointSide};

verus! {

/// `piece` occurs somewhere in `s`.
pub open spec fn occurs_in(piece: Seq<char>, s: Seq<char>) -> bool {
    exists|i: int| 0 <= i && i + piece.len() <= s.len() && #[trigger] s.subrange(i, i + piece.len()) == piece
}

proof fn lemma_occurs_at(piece: Seq<char>, s: Seq<char>, i: int)
    requires
        0 <= i,
        i + piece.len() <= s.len(),
        s.subrange(i, i + piece.len()) =~= piece,
    ensures
        occurs_in(piece, s),
{
}

proof fn lemma_occurs_in_extension(piece: Seq<char>, s: Seq<char>, rest: Seq<char>)
    requires
        occurs_in(piece, s),
    ensures
        occurs_in(piece, s + rest),
{
    let i = choose|i: int| 0 <= i && i + piece.len() <= s.len() && #[trigger] s.subrange(i, i + piece.len()) == piece;
    assert((s + rest).subrange(i, i + piece.len()) =~= s.subrange(i, i + piece.len()));
    lemma_occurs_at(piece, s + rest, i);
}

// ---------------------------------------------------------------------------
// Relation ends in the ER diagram
// ---------------------------------------------------------------------------

/// The multiplicity of a relation's source end: many rows exactly for
/// many-to-one and many-to-many relations.
pub open spec fn many_at_source(t: RelationType) -> bool {
    t == RelationType::ManyToOne || t == RelationType::ManyToMany
}

/// The multiplicity of a relation's target end: many rows exactly for
/// one-to-many and many-to-many relations.
pub open spec fn many_at_target(t: RelationType) -> bool {
    t == RelationType::OneToMany || t == RelationType::ManyToMany
}

/// The text of a marker that names its end and its multiplicity.
pub open spec fn endpoint_text(endpoint: Seq<char>, many: bool) -> Seq<char> {
    endpoint + if many {
        "\" data-endpoint-kind=\"many\" data-source=\""@
    } else {
        "\" data-endpoint-kind=\"one\" data-source=\""@
    }
}

/// The end markers of a relation show many rows at the source exactly for
/// many-to-one and many-to-many relations, and many rows at the target
/// exactly for one-to-many and many-to-many relations.
pub proof fn endpoint_kinds_follow_the_relation_type(t: RelationType)
    ensures
        source_kind_of(t) == (if many_at_source(t) {
            ErEndpointKind::Many
        } else {
            ErEndpointKind::One
        }),
        target_kind_of(t) == (if many_at_target(t) {
            ErEndpointKind::Many
        } else {
            ErEndpointKind::One
        }),
        source_kind_of(t) == target_kind_of(reversed(t)),
{
}

/// The same relation read from its target: one-to-many and many-to-one
/// swap, one-to-one and many-to-many stay.
pub open spec fn reversed(t: RelationType) -> RelationType {
    match t {
        RelationType::OneToMany => RelationType::ManyToOne,
        RelationType::ManyToOne => RelationType::OneToMany,
        _ => t,
    }
}

proof fn lemma_marker_text(
    acc: Seq<char>,
    kind: ErEndpointKind,
    side: ErEndpointSide,
    x: nat,
    y: nat,
    r: TableRelation,
    key: nat,
    points_right: bool,
)
    ensures
        occurs_in(
            endpoint_text(
                match side {
                    ErEndpointSide::Source => "source"@,
                    ErEndpointSide::Target => "target"@,
                },
                kind == ErEndpointKind::Many,
            ),
            endpoint_svg_seq(acc, x, y, side, kind, r, key, points_right),
        ),
        exists|rest: Seq<char>| endpoint_svg_seq(acc, x, y, side, kind, r, key, points_right) == acc + rest,
{
    let endpoint = match side {
        ErEndpointSide::Source => "source"@,
        ErEndpointSide::Target => "target"@,
    };
    let direction = if points_right {
        "1"@
    } else {
        "-1"@
    };
    let head = acc + "        <g class=\"relation-marker "@ + crate::relations::css_class_seq(r.source)
        + "\" data-relation-key=\""@ + crate::text::dec(key) + "\" data-endpoint=\""@;
    let text = endpoint_text(endpoint, kind == ErEndpointKind::Many);
    let out = endpoint_svg_seq(acc, x, y, side, kind, r, key, points_right);
    let tail = out.subrange((head.len() + text.len()) as int, out.len() as int);
    assert(out =~= head + text + tail);
    assert(out.subrange(head.len() as int, (head.len() + text.len()) as int) =~= text);
    lemma_occurs_at(text, out, head.len() as int);
    assert(out =~= acc + out.subrange(acc.len() as int, out.len() as int));
}

/// In the ER page, a relation whose two tables have nodes is drawn with a
/// marker at its source end that shows many rows when the relation is
/// many-to-one or many-to-many and one row otherwise, and a marker at its
/// target end that shows many rows when the relation is one-to-many or
/// many-to-many and one row otherwise.
pub proof fn relation_markers_show_their_multiplicity(
    acc: Seq<char>,
    tables: Seq<Table>,
    rels: Seq<TableRelation>,
    key: nat,
    r: TableRelation,
)
    requires
        er_lookup(tables, rels, r.source_table@) is Some,
        er_lookup(tables, rels, r.target_table@) is Some,
    ensures
        occurs_in(
            endpoint_text("source"@, many_at_source(r.relation_type)),
            er_relation_svg(acc, tables, rels, key, r),
        ),
        occurs_in(
            endpoint_text("target"@, many_at_target(r.relation_type)),
            er_relation_svg(acc, tables, rels, key, r),
        ),
{
    let out = er_relation_svg(acc, tables, rels, key, r);
    let sp = er_lookup(tables, rels, r.source_table@).unwrap();
    let tp = er_lookup(tables, rels, r.target_table@).unwrap();
    let left = sp.x <= tp.x;
    let sx: int = if left {
        sp.x + crate::er::ER_NODE_WIDTH
    } else {
        sp.x as int
    };
    let sy = crate::er::anchor_y(tables, r, true, sp);
    let ex: int = if left {
        tp.x as int
    } else {
        tp.x + crate::er::ER_NODE_WIDTH
    };
    let ey = crate::er::anchor_y(tables, r, false, tp);
    let mx = (sx + ex) / 2;
    let a = crate::er_html::er_path(acc, r, key, sx as nat, sy as nat, mx as nat, ex as nat, ey as nat);
    let sk = source_kind_of(r.relation_type);
    let tk = target_kind_of(r.relation_type);
    let b = endpoint_svg_seq(a, sx as nat, sy as nat, ErEndpointSide::Source, sk, r, key, left);
    assert(out == endpoint_svg_seq(b, ex as nat, ey as nat, ErEndpointSide::Target, tk, r, key, !left));
    endpoint_kinds_follow_the_relation_type(r.relation_type);
    lemma_marker_text(a, sk, ErEndpointSide::Source, sx as nat, sy as nat, r, key, left);
    lemma_marker_text(b, tk, ErEndpointSide::Target, ex as nat, ey as nat, r, key, !left);
    let rest = choose|rest: Seq<char>| endpoint_svg_seq(b, ex as nat, ey as nat, ErEndpointSide::Target, tk, r, key, !left) == b + rest;
    lemma_occurs_in_extension(endpoint_text("source"@, many_at_source(r.relation_type)), b, rest);
}

// ---------------------------------------------------------------------------
// Index rows of the Markdown dictionary
// ---------------------------------------------------------------------------

/// `big` starts with `small`.
pub open spec fn begins_with(big: Seq<char>, small: Seq<char>) -> bool {
    small.len() <= big.len() && big.subrange(0, small.len() as int) == small
}

proof fn lemma_begins_with_trans(a: Seq<char>, b: Seq<char>, c: Seq<char>)
    requires
        begins_with(a, b),
        begins_with(b, c),
    ensures
        begins_with(a, c),
{
    assert(a.subrange(0, c.len() as int) =~= b.subrange(0, c.len() as int));
}

proof fn lemma_occurs_in_longer(piece: Seq<char>, small: Seq<char>, big: Seq<char>)
    requires
        occurs_in(piece, small),
        begins_with(big, small),
    ensures
        occurs_in(piece, big),
{
    let i = choose|i: int|
        0 <= i && i + piece.len() <= small.len() && #[trigger] small.subrange(i, i + piece.len()) == piece;
    assert(big.subrange(i, i + piece.len()) =~= small.subrange(i, i + piece.len()));
    lemma_occurs_at(piece, big, i);
}

/// The row of an index in the Markdown dictionary: its name, the yes label
/// in the unique column when the index is unique and the no label otherwise,
/// and its columns.
pub open spec fn markdown_index_line(x: Index, l: Labels) -> Seq<char> {
    "| `"@ + x.name@ + "` | "@ + (if x.unique {
        l.yes@
    } else {
        l.no@
    }) + " | "@ + join_seq(views(x.columns@), ", "@) + " |\n"@
}

proof fn lemma_md_index_rows_begin(acc: Seq<char>, idxs: Seq<Index>, i: int, l: Labels)
    ensures
        begins_with(md_index_rows(acc, idxs, i, l), acc),
    decreases idxs.len() - i,
{
    if 0 <= i < idxs.len() {
        let next = md_index_row(acc, idxs[i], l);
        assert(next.subrange(0, acc.len() as int) =~= acc);
        lemma_md_index_rows_begin(next, idxs, i + 1, l);
        lemma_begins_with_trans(md_index_rows(acc, idxs, i, l), next, acc);
    } else {
        assert(acc.subrange(0, acc.len() as int) =~= acc);
    }
}

proof fn lemma_md_index_rows_hold_row(acc: Seq<char>, idxs: Seq<Index>, i: int, k: int, l: Labels)
    requires
        0 <= i <= k < idxs.len(),
    ensures
        occurs_in(markdown_index_line(idxs[k], l), md_index_rows(acc, idxs, i, l)),
    decreases k - i,
{
    let next = md_index_row(acc, idxs[i], l);
    lemma_md_index_rows_begin(next, idxs, i + 1, l);
    if i == k {
        let line = markdown_index_line(idxs[k], l);
        assert(next =~= acc + line);
        assert(next.subrange(acc.len() as int, (acc.len() + line.len()) as int) =~= line);
        lemma_occurs_at(line, next, acc.len() as int);
        lemma_occurs_in_longer(line, next, md_index_rows(acc, idxs, i, l));
    } else {
        lemma_md_index_rows_hold_row(next, idxs, i + 1, k, l);
    }
}

proof fn lemma_md_column_rows_begin(acc: Seq<char>, cols: Seq<Column>, i: int, l: Labels)
    ensures
        begins_with(md_column_rows(acc, cols, i, l), acc),
    decreases cols.len() - i,
{
    if 0 <= i < cols.len() {
        let next = md_column_row(acc, cols[i], i as nat, l);
        assert(next.subrange(0, acc.len() as int) =~= acc);
        lemma_md_column_rows_begin(next, cols, i + 1, l);
        lemma_begins_with_trans(md_column_rows(acc, cols, i, l), next, acc);
    } else {
        assert(acc.subrange(0, acc.len() as int) =~= acc);
    }
}

proof fn lemma_md_section_begins(acc: Seq<char>, t: Table, l: Labels)
    ensures
        begins_with(md_section(acc, t, l), acc),
{
    let a1 = md_section_head(acc, t, l);
    assert(a1.subrange(0, acc.len() as int) =~= acc);
    let a2 = if t.comment@.len() > 0 {
        md_section_comment(a1, t, l)
    } else {
        a1
    };
    assert(a2.subrange(0, a1.len() as int) =~= a1);
    lemma_begins_with_trans(a2, a1, acc);
    let h = md_columns_head(a2, l);
    assert(h.subrange(0, a2.len() as int) =~= a2);
    lemma_begins_with_trans(h, a2, acc);
    let a3 = md_column_rows(h, t.columns@, 0, l);
    lemma_md_column_rows_begin(h, t.columns@, 0, l);
    lemma_begins_with_trans(a3, h, acc);
    let a4 = if t.indexes@.len() > 0 {
        md_index_rows(md_indexes_head(a3, l), t.indexes@, 0, l)
    } else {
        a3
    };
    if t.indexes@.len() > 0 {
        let ih = md_indexes_head(a3, l);
        assert(ih.subrange(0, a3.len() as int) =~= a3);
        lemma_md_index_rows_begin(ih, t.indexes@, 0, l);
        lemma_begins_with_trans(a4, ih, a3);
    } else {
        assert(a4.subrange(0, a3.len() as int) =~= a3);
    }
    lemma_begins_with_trans(a4, a3, acc);
    let s = a4 + "\n"@;
    assert(s.subrange(0, a4.len() as int) =~= a4);
    lemma_begins_with_trans(s, a4, acc);
}

proof fn lemma_md_sections_begin(acc: Seq<char>, tables: Seq<Table>, i: int, l: Labels)
    ensures
        begins_with(md_sections(acc, tables, i, l), acc),
    decreases tables.len() - i,
{
    if 0 <= i < tables.len() {
        let next = md_section(acc, tables[i], l);
        lemma_md_section_begins(acc, tables[i], l);
        lemma_md_sections_begin(next, tables, i + 1, l);
        lemma_begins_with_trans(md_sections(acc, tables, i, l), next, acc);
    } else {
        assert(acc.subrange(0, acc.len() as int) =~= acc);
    }
}

proof fn lemma_md_section_holds_row(acc: Seq<char>, t: Table, k: int, l: Labels)
    requires
        0 <= k < t.indexes@.len(),
    ensures
        occurs_in(markdown_index_line(t.indexes@[k], l), md_section(acc, t, l)),
{
    let a1 = md_section_head(acc, t, l);
    let a2 = if t.comment@.len() > 0 {
        md_section_comment(a1, t, l)
    } else {
        a1
    };
    let a3 = md_column_rows(md_columns_head(a2, l), t.columns@, 0, l);
    let a4 = md_index_rows(md_indexes_head(a3, l), t.indexes@, 0, l);
    lemma_md_index_rows_hold_row(md_indexes_head(a3, l), t.indexes@, 0, k, l);
    lemma_occurs_in_extension(markdown_index_line(t.indexes@[k], l), a4, "\n"@);
}

proof fn lemma_md_sections_hold_row(acc: Seq<char>, tables: Seq<Table>, i: int, t: int, k: int, l: Labels)
    requires
        0 <= i <= t < tables.len(),
        0 <= k < tables[t].indexes@.len(),
    ensures
        occurs_in(markdown_index_line(tables[t].indexes@[k], l), md_sections(acc, tables, i, l)),
    decreases t - i,
{
    let next = md_section(acc, tables[i], l);
    if i == t {
        lemma_md_section_holds_row(acc, tables[t], k, l);
        lemma_md_sections_begin(next, tables, i + 1, l);
        lemma_occurs_in_longer(markdown_index_line(tables[t].indexes@[k], l), next, md_sections(acc, tables, i, l));
    } else {
        lemma_md_sections_hold_row(next, tables, i + 1, t, k, l);
    }
}

/// Every index of every table has its row in the Markdown dictionary, and
/// that row shows the yes label in its unique column when the index is
/// unique and the no label otherwise.
pub proof fn markdown_index_rows_show_uniqueness(database: DatabaseSchema, l: Labels, t: int, k: int)
    requires
        0 <= t < database.tables@.len(),
        0 <= k < database.tables@[t].indexes@.len(),
    ensures
        occurs_in(
            markdown_index_line(database.tables@[t].indexes@[k], l),
            render_markdown_seq(database, l),
        ),
{
    let start = md_dir_rows(md_header(Seq::empty(), database.name@, l), database.tables@, 0) + "\n"@;
    lemma_md_sections_hold_row(start, database.tables@, 0, t, k, l);
}

// ---------------------------------------------------------------------------
// Column rows of the Markdown dictionary
// ---------------------------------------------------------------------------

/// `key` spells `PRI` in some mix of upper and lower case.
pub open spec fn spells_pri(key: Seq<char>) -> bool {
    &&& key.len() == 3
    &&& (key[0] == 'p' || key[0] == 'P')
    &&& (key[1] == 'r' || key[1] == 'R')
    &&& (key[2] == 'i' || key[2] == 'I')
}

proof fn lemma_is_pk_spells_pri(key: Seq<char>)
    ensures
        is_pk(key) <==> spells_pri(key),
{
    let l = lower_seq(key);
    assert(l.len() == key.len());
    if l == seq!['p', 'r', 'i'] {
        assert(spec_lower_char(key[0]) == 'p');
        assert(spec_lower_char(key[1]) == 'r');
        assert(spec_lower_char(key[2]) == 'i');
    }
    if spells_pri(key) {
        assert(l =~= seq!['p', 'r', 'i']);
    }
}

/// The yes label for `value`, the no label otherwise.
pub open spec fn flag_label(l: Labels, value: bool) -> Seq<char> {
    if value {
        l.yes@
    } else {
        l.no@
    }
}

/// The row of column number `i` (from 0) in the Markdown dictionary: its
/// number from 1, name, type, the yes label under nullable exactly when the
/// column is nullable and under primary key exactly when its key is `PRI` in
/// any case, then its default, extra and comment.
pub open spec fn markdown_column_line(c: Column, i: nat, l: Labels) -> Seq<char> {
    "| "@ + dec(i + 1) + " | `"@ + c.name@ + "` | `"@ + c.data_type@ + "` | "@ + flag_label(l, c.nullable)
        + " | "@ + flag_label(l, spells_pri(c.key@)) + " | "@ + markdown_cell_seq(c.default_value@)
        + " | "@ + markdown_cell_seq(c.extra@) + " | "@ + markdown_cell_seq(c.comment@) + " |\n"@
}

proof fn lemma_md_column_rows_hold_row(acc: Seq<char>, cols: Seq<Column>, i: int, k: int, l: Labels)
    requires
        0 <= i <= k < cols.len(),
    ensures
        occurs_in(markdown_column_line(cols[k], k as nat, l), md_column_rows(acc, cols, i, l)),
    decreases k - i,
{
    let next = md_column_row(acc, cols[i], i as nat, l);
    lemma_md_column_rows_begin(next, cols, i + 1, l);
    if i == k {
        let line = markdown_column_line(cols[k], k as nat, l);
        lemma_is_pk_spells_pri(cols[k].key@);
        assert(next =~= acc + line);
        assert(next.subrange(acc.len() as int, (acc.len() + line.len()) as int) =~= line);
        lemma_occurs_at(line, next, acc.len() as int);
        lemma_occurs_in_longer(line, next, md_column_rows(acc, cols, i, l));
    } else {
        lemma_md_column_rows_hold_row(next, cols, i + 1, k, l);
    }
}

proof fn lemma_md_section_holds_column(acc: Seq<char>, t: Table, k: int, l: Labels)
    requires
        0 <= k < t.columns@.len(),
    ensures
        occurs_in(markdown_column_line(t.columns@[k], k as nat, l), md_section(acc, t, l)),
{
    let line = markdown_column_line(t.columns@[k], k as nat, l);
    let a1 = md_section_head(acc, t, l);
    let a2 = if t.comment@.len() > 0 {
        md_section_comment(a1, t, l)
    } else {
        a1
    };
    let a3 = md_column_rows(md_columns_head(a2, l), t.columns@, 0, l);
    lemma_md_column_rows_hold_row(md_columns_head(a2, l), t.columns@, 0, k, l);
    let a4 = if t.indexes@.len() > 0 {
        md_index_rows(md_indexes_head(a3, l), t.indexes@, 0, l)
    } else {
        a3
    };
    if t.indexes@.len() > 0 {
        let ih = md_indexes_head(a3, l);
        assert(ih.subrange(0, a3.len() as int) =~= a3);
        lemma_md_index_rows_begin(ih, t.indexes@, 0, l);
        lemma_begins_with_trans(a4, ih, a3);
        lemma_occurs_in_longer(line, a3, a4);
    }
    lemma_occurs_in_extension(line, a4, "\n"@);
}

proof fn lemma_md_sections_hold_column(acc: Seq<char>, tables: Seq<Table>, i: int, t: int, k: int, l: Labels)
    requires
        0 <= i <= t < tables.len(),
        0 <= k < tables[t].columns@.len(),
    ensures
        occurs_in(markdown_column_line(tables[t].columns@[k], k as nat, l), md_sections(acc, tables, i, l)),
    decreases t - i,
{
    let next = md_section(acc, tables[i], l);
    if i == t {
        lemma_md_section_holds_column(acc, tables[t], k, l);
        lemma_md_sections_begin(next, tables, i + 1, l);
        lemma_occurs_in_longer(markdown_column_line(tables[t].columns@[k], k as nat, l), next, md_sections(acc, tables, i, l));
    } else {
        lemma_md_sections_hold_column(next, tables, i + 1, t, k, l);
    }
}

/// Every column of every table has its numbered row in the Markdown
/// dictionary, showing the yes label under nullable exactly when the column
/// is nullable and under primary key exactly when its key is `PRI` in any
/// case.
pub proof fn markdown_column_rows_show_flags(database: DatabaseSchema, l: Labels, t: int, k: int)
    requires
        0 <= t < database.tables@.len(),
        0 <= k < database.tables@[t].columns@.len(),
    ensures
        occurs_in(
            markdown_column_line(database.tables@[t].columns@[k], k as nat, l),
            render_markdown_seq(database, l),
        ),
{
    let start = md_dir_rows(md_header(Seq::empty(), database.name@, l), database.tables@, 0) + "\n"@;
    lemma_md_sections_hold_column(start, database.tables@, 0, t, k, l);
}

// ---------------------------------------------------------------------------
// Rows of the HTML dictionary
// ---------------------------------------------------------------------------

/// The row of an index in the HTML dictionary: its name, the yes label when
/// the index is unique and the no label otherwise, and its columns.
pub open spec fn html_index_line(x: Index, l: Labels) -> Seq<char> {
    "<tr><td><code>"@ + escape_html_seq(x.name@) + "</code></td><td>"@ + flag_label(l, x.unique)
        + "</td><td>"@ + escape_html_seq(join_seq(views(x.columns@), ", "@)) + "</td></tr>\n"@
}

/// The row of column number `i` (from 0) in the HTML dictionary.
pub open spec fn html_column_line(c: Column, i: nat, l: Labels) -> Seq<char> {
    "<tr><td>"@ + dec(i + 1) + "</td><td><code>"@ + escape_html_seq(c.name@) + "</code></td><td><code>"@
        + escape_html_seq(c.data_type@) + "</code></td><td>"@ + flag_label(l, c.nullable) + "</td><td>"@
        + flag_label(l, spells_pri(c.key@)) + "</td><td>"@ + escape_html_seq(c.default_value@)
        + "</td><td>"@ + escape_html_seq(c.extra@) + "</td><td>"@ + escape_html_seq(c.comment@)
        + "</td></tr>\n"@
}

proof fn lemma_html_index_rows_begin(acc: Seq<char>, idxs: Seq<Index>, i: int, l: Labels)
    ensures
        begins_with(html_index_rows(acc, idxs, i, l), acc),
    decreases idxs.len() - i,
{
    if 0 <= i < idxs.len() {
        let next = html_index_row(acc, idxs[i], l);
        assert(next.subrange(0, acc.len() as int) =~= acc);
        lemma_html_index_rows_begin(next, idxs, i + 1, l);
        lemma_begins_with_trans(html_index_rows(acc, idxs, i, l), next, acc);
    } else {
        assert(acc.subrange(0, acc.len() as int) =~= acc);
    }
}

proof fn lemma_html_column_rows_begin(acc: Seq<char>, cols: Seq<Column>, i: int, l: Labels)
    ensures
        begins_with(html_column_rows(acc, cols, i, l), acc),
    decreases cols.len() - i,
{
    if 0 <= i < cols.len() {
        let next = html_column_row(acc, cols[i], i as nat, l);
        assert(next.subrange(0, acc.len() as int) =~= acc);
        lemma_html_column_rows_begin(next, cols, i + 1, l);
        lemma_begins_with_trans(html_column_rows(acc, cols, i, l), next, acc);
    } else {
        assert(acc.subrange(0, acc.len() as int) =~= acc);
    }
}

proof fn lemma_html_index_rows_hold_row(acc: Seq<char>, idxs: Seq<Index>, i: int, k: int, l: Labels)
    requires
        0 <= i <= k < idxs.len(),
    ensures
        occurs_in(html_index_line(idxs[k], l), html_index_rows(acc, idxs, i, l)),
    decreases k - i,
{
    let next = html_index_row(acc, idxs[i], l);
    lemma_html_index_rows_begin(next, idxs, i + 1, l);
    if i == k {
        let line = html_index_line(idxs[k], l);
        assert(next =~= acc + line);
        assert(next.subrange(acc.len() as int, (acc.len() + line.len()) as int) =~= line);
        lemma_occurs_at(line, next, acc.len() as int);
        lemma_occurs_in_longer(line, next, html_index_rows(acc, idxs, i, l));
    } else {
        lemma_html_index_rows_hold_row(next, idxs, i + 1, k, l);
    }
}

#[verifier::spinoff_prover]
#[verifier::rlimit(60)]
proof fn lemma_html_column_rows_hold_row(acc: Seq<char>, cols: Seq<Column>, i: int, k: int, l: Labels)
    requires
        0 <= i <= k < cols.len(),
    ensures
        occurs_in(html_column_line(cols[k], k as nat, l), html_column_rows(acc, cols, i, l)),
    decreases k - i,
{
    let next = html_column_row(acc, cols[i], i as nat, l);
    lemma_html_column_rows_begin(next, cols, i + 1, l);
    if i == k {
        let line = html_column_line(cols[k], k as nat, l);
        lemma_is_pk_spells_pri(cols[k].key@);
        assert(next =~= acc + line);
        assert(next.subrange(acc.len() as int, (acc.len() + line.len()) as int) =~= line);
        lemma_occurs_at(line, next, acc.len() as int);
        lemma_occurs_in_longer(line, next, html_column_rows(acc, cols, i, l));
    } else {
        lemma_html_column_rows_hold_row(next, cols, i + 1, k, l);
    }
}

#[verifier::spinoff_prover]
#[verifier::rlimit(60)]
proof fn lemma_html_section_begins(acc: Seq<char>, t: Table, l: Labels)
    ensures
        begins_with(html_section(acc, t, l), acc),
{
    let a1 = html_section_head(acc, t, l);
    assert(a1.subrange(0, acc.len() as int) =~= acc);
    let a2 = if t.comment@.len() > 0 {
        html_section_comment(a1, t, l)
    } else {
        a1
    };
    assert(a2.subrange(0, a1.len() as int) =~= a1);
    lemma_begins_with_trans(a2, a1, acc);
    let h = html_columns_head(a2, l);
    assert(h.subrange(0, a2.len() as int) =~= a2);
    lemma_begins_with_trans(h, a2, acc);
    let r3 = html_column_rows(h, t.columns@, 0, l);
    lemma_html_column_rows_begin(h, t.columns@, 0, l);
    lemma_begins_with_trans(r3, h, acc);
    let a3 = r3 + "</tbody></table>\n"@;
    assert(a3.subrange(0, r3.len() as int) =~= r3);
    lemma_begins_with_trans(a3, r3, acc);
    let a4 = if t.indexes@.len() > 0 {
        html_index_rows(html_indexes_head(a3, l), t.indexes@, 0, l) + "</tbody></table>\n"@
    } else {
        a3
    };
    if t.indexes@.len() > 0 {
        let ih = html_indexes_head(a3, l);
        assert(ih.subrange(0, a3.len() as int) =~= a3);
        let r4 = html_index_rows(ih, t.indexes@, 0, l);
        lemma_html_index_rows_begin(ih, t.indexes@, 0, l);
        lemma_begins_with_trans(r4, ih, a3);
        assert(a4.subrange(0, r4.len() as int) =~= r4);
        lemma_begins_with_trans(a4, r4, a3);
    } else {
        assert(a4.subrange(0, a3.len() as int) =~= a3);
    }
    lemma_begins_with_trans(a4, a3, acc);
    let s = a4 + "</section>\n"@;
    assert(s.subrange(0, a4.len() as int) =~= a4);
    lemma_begins_with_trans(s, a4, acc);
}

proof fn lemma_html_sections_begin(acc: Seq<char>, tables: Seq<Table>, i: int, l: Labels)
    ensures
        begins_with(html_sections(acc, tables, i, l), acc),
    decreases tables.len() - i,
{
    if 0 <= i < tables.len() {
        let next = html_section(acc, tables[i], l);
        lemma_html_section_begins(acc, tables[i], l);
        lemma_html_sections_begin(next, tables, i + 1, l);
        lemma_begins_with_trans(html_sections(acc, tables, i, l), next, acc);
    } else {
        assert(acc.subrange(0, acc.len() as int) =~= acc);
    }
}

/// `line` occurs in the section of `t` when it occurs among its column rows
/// (`in_columns`) or among its index rows.
proof fn lemma_html_section_holds(acc: Seq<char>, t: Table, l: Labels, line: Seq<char>, in_columns: bool)
    requires
        in_columns ==> (forall|h: Seq<char>| occurs_in(line, #[trigger] html_column_rows(h, t.columns@, 0, l))),
        !in_columns ==> t.indexes@.len() > 0 && (forall|h: Seq<char>| occurs_in(line, #[trigger] html_index_rows(h, t.indexes@, 0, l))),
    ensures
        occurs_in(line, html_section(acc, t, l)),
{
    let a1 = html_section_head(acc, t, l);
    let a2 = if t.comment@.len() > 0 {
        html_section_comment(a1, t, l)
    } else {
        a1
    };
    let h = html_columns_head(a2, l);
    let r3 = html_column_rows(h, t.columns@, 0, l);
    let a3 = r3 + "</tbody></table>\n"@;
    let a4 = if t.indexes@.len() > 0 {
        html_index_rows(html_indexes_head(a3, l), t.indexes@, 0, l) + "</tbody></table>\n"@
    } else {
        a3
    };
    if in_columns {
        assert(occurs_in(line, r3));
        lemma_occurs_in_extension(line, r3, "</tbody></table>\n"@);
        if t.indexes@.len() > 0 {
            let ih = html_indexes_head(a3, l);
            assert(ih.subrange(0, a3.len() as int) =~= a3);
            let r4 = html_index_rows(ih, t.indexes@, 0, l);
            lemma_html_index_rows_begin(ih, t.indexes@, 0, l);
            lemma_begins_with_trans(r4, ih, a3);
            lemma_occurs_in_longer(line, a3, r4);
            lemma_occurs_in_extension(line, r4, "</tbody></table>\n"@);
        }
    } else {
        let r4 = html_index_rows(html_indexes_head(a3, l), t.indexes@, 0, l);
        assert(occurs_in(line, r4));
        lemma_occurs_in_extension(line, r4, "</tbody></table>\n"@);
    }
    lemma_occurs_in_extension(line, a4, "</section>\n"@);
}

proof fn lemma_html_sections_hold(
    acc: Seq<char>,
    tables: Seq<Table>,
    i: int,
    t: int,
    l: Labels,
    line: Seq<char>,
)
    requires
        0 <= i <= t < tables.len(),
        forall|a: Seq<char>| occurs_in(line, #[trigger] html_section(a, tables[t], l)),
    ensures
        occurs_in(line, html_sections(acc, tables, i, l)),
    decreases t - i,
{
    let next = html_section(acc, tables[i], l);
    if i == t {
        assert(occurs_in(line, next));
        lemma_html_sections_begin(next, tables, i + 1, l);
        lemma_occurs_in_longer(line, next, html_sections(acc, tables, i, l));
    } else {
        lemma_html_sections_hold(next, tables, i + 1, t, l, line);
    }
}

proof fn lemma_html_document_holds(database: DatabaseSchema, l: Labels, t: int, line: Seq<char>)
    requires
        0 <= t < database.tables@.len(),
        forall|a: Seq<char>| occurs_in(line, #[trigger] html_section(a, database.tables@[t], l)),
    ensures
        occurs_in(line, render_html_seq(database, l)),
{
    let start = html_dir_rows(html_header(Seq::empty(), database.name@, l), database.tables@, 0)
        + "        </tbody>\n      </table>\n    </section>\n"@;
    lemma_html_sections_hold(start, database.tables@, 0, t, l, line);
    lemma_occurs_in_extension(line, html_sections(start, database.tables@, 0, l), "  </main>\n</body>\n</html>\n"@);
}

/// Every index of every table has its row in the HTML dictionary, and that
/// row shows the yes label when the index is unique and the no label
/// otherwise.
pub proof fn html_index_rows_show_uniqueness(database: DatabaseSchema, l: Labels, t: int, k: int)
    requires
        0 <= t < database.tables@.len(),
        0 <= k < database.tables@[t].indexes@.len(),
    ensures
        occurs_in(html_index_line(database.tables@[t].indexes@[k], l), render_html_seq(database, l)),
{
    let tb = database.tables@[t];
    let line = html_index_line(tb.indexes@[k], l);
    assert forall|h: Seq<char>| occurs_in(line, #[trigger] html_index_rows(h, tb.indexes@, 0, l)) by {
        lemma_html_index_rows_hold_row(h, tb.indexes@, 0, k, l);
    }
    assert forall|a: Seq<char>| occurs_in(line, #[trigger] html_section(a, tb, l)) by {
        lemma_html_section_holds(a, tb, l, line, false);
    }
    lemma_html_document_holds(database, l, t, line);
}

/// Every column of every table has its numbered row in the HTML dictionary,
/// showing the yes label under nullable exactly when the column is nullable
/// and under primary key exactly when its key is `PRI` in any case.
pub proof fn html_column_rows_show_flags(database: DatabaseSchema, l: Labels, t: int, k: int)
    requires
        0 <= t < database.tables@.len(),
        0 <= k < database.tables@[t].columns@.len(),
    ensures
        occurs_in(
            html_column_line(database.tables@[t].columns@[k], k as nat, l),
            render_html_seq(database, l),
        ),
{
    let tb = database.tables@[t];
    let line = html_column_line(tb.columns@[k], k as nat, l);
    assert forall|h: Seq<char>| occurs_in(line, #[trigger] html_column_rows(h, tb.columns@, 0, l)) by {
        lemma_html_column_rows_hold_row(h, tb.columns@, 0, k, l);
    }
    assert forall|a: Seq<char>| occurs_in(line, #[trigger] html_section(a, tb, l)) by {
        lemma_html_section_holds(a, tb, l, line, true);
    }
    lemma_html_document_holds(database, l, t, line);
}

// ---------------------------------------------------------------------------
// Rows of the Word dictionary
// ---------------------------------------------------------------------------

/// The Word table row of index `x`: its name, the yes label when it is
/// unique and the no label otherwise, and its columns.
pub open spec fn word_index_row(x: Index, l: Labels) -> (bool, Seq<Seq<char>>) {
    (false, seq![x.name@, flag_label(l, x.unique), join_seq(views(x.columns@), ", "@)])
}

/// The Word table row of column number `i` (from 0).
pub open spec fn word_column_row(c: Column, i: nat, l: Labels) -> (bool, Seq<Seq<char>>) {
    (
        false,
        seq![
            dec(i + 1),
            c.name@,
            c.data_type@,
            flag_label(l, c.nullable),
            flag_label(l, spells_pri(c.key@)),
            c.default_value@,
            c.extra@,
            c.comment@,
        ],
    )
}

/// Block `b` is a table whose row `k` is `row`.
pub open spec fn grid_has_row(b: BlockView, k: int, row: (bool, Seq<Seq<char>>)) -> bool {
    b matches BlockView::Grid(_, rows) && 0 <= k < rows.len() && rows[k] == row
}

proof fn lemma_tables_blocks_begin(acc: Seq<BlockView>, tables: Seq<Table>, i: int, l: Labels)
    ensures
        acc.len() <= tables_blocks(acc, tables, i, l).len(),
        forall|q: int| 0 <= q < acc.len() ==> #[trigger] tables_blocks(acc, tables, i, l)[q] == acc[q],
    decreases tables.len() - i,
{
    if 0 <= i < tables.len() {
        let next = acc + table_blocks(tables[i], l);
        lemma_tables_blocks_begin(next, tables, i + 1, l);
        assert forall|q: int| 0 <= q < acc.len() implies #[trigger] tables_blocks(acc, tables, i, l)[q] == acc[q] by {
            assert(next[q] == acc[q]);
        }
    }
}

proof fn lemma_tables_blocks_hold(acc: Seq<BlockView>, tables: Seq<Table>, i: int, t: int, l: Labels) -> (off: int)
    requires
        0 <= i <= t < tables.len(),
    ensures
        0 <= off,
        off + table_blocks(tables[t], l).len() <= tables_blocks(acc, tables, i, l).len(),
        forall|q: int|
            0 <= q < table_blocks(tables[t], l).len() ==> tables_blocks(acc, tables, i, l)[off + q]
                == #[trigger] table_blocks(tables[t], l)[q],
    decreases t - i,
{
    let next = acc + table_blocks(tables[i], l);
    if i == t {
        lemma_tables_blocks_begin(next, tables, i + 1, l);
        let tb = table_blocks(tables[t], l);
        assert forall|q: int| 0 <= q < tb.len() implies tables_blocks(acc, tables, i, l)[acc.len() + q]
            == #[trigger] tb[q] by {
            assert(next[acc.len() + q] == tb[q]);
        }
        acc.len() as int
    } else {
        lemma_tables_blocks_hold(next, tables, i + 1, t, l)
    }
}

/// Every index of every table has its row in an index table of the Word
/// dictionary, showing the yes label when the index is unique and the no
/// label otherwise; and every column has its numbered row in a column table,
/// showing the yes label under nullable exactly when the column is nullable
/// and under primary key exactly when its key is `PRI` in any case.
pub proof fn word_rows_show_flags(database: DatabaseSchema, l: Labels, t: int)
    requires
        0 <= t < database.tables@.len(),
    ensures
        forall|k: int|
            #![trigger database.tables@[t].indexes@[k]]
            0 <= k < database.tables@[t].indexes@.len() ==> exists|b: int|
                0 <= b < docx_plan_spec(database, l).len() && grid_has_row(
                    #[trigger] docx_plan_spec(database, l)[b],
                    k + 1,
                    word_index_row(database.tables@[t].indexes@[k], l),
                ),
        forall|k: int|
            #![trigger database.tables@[t].columns@[k]]
            0 <= k < database.tables@[t].columns@.len() ==> exists|b: int|
                0 <= b < docx_plan_spec(database, l).len() && grid_has_row(
                    #[trigger] docx_plan_spec(database, l)[b],
                    k + 1,
                    word_column_row(database.tables@[t].columns@[k], k as nat, l),
                ),
{
    let tb = database.tables@[t];
    let plan = docx_plan_spec(database, l);
    let head = seq![
        BlockView::Title(l.doc_title@),
        BlockView::Grid(meta_widths(), meta_rows(database.name@, l)),
        BlockView::Spacer(180),
        BlockView::Section(l.table_directory@),
        BlockView::Grid(directory_widths(), directory_rows(database.tables@, l)),
        BlockView::Spacer(260),
    ];
    let off = lemma_tables_blocks_hold(head, database.tables@, 0, t, l);
    let blocks = table_blocks(tb, l);
    let hc = if tb.comment@.len() > 0 { 2int } else { 1int };
    assert forall|k: int| #![trigger tb.columns@[k]] 0 <= k < tb.columns@.len() implies exists|b: int|
        0 <= b < plan.len() && grid_has_row(#[trigger] plan[b], k + 1, word_column_row(tb.columns@[k], k as nat, l)) by {
        let b = off + hc + 1;
        assert(plan[b] == blocks[hc + 1]);
        lemma_is_pk_spells_pri(tb.columns@[k].key@);
        let rows = column_rows(tb, l);
        assert(rows[k + 1] == word_column_row(tb.columns@[k], k as nat, l));
        assert(grid_has_row(plan[b], k + 1, word_column_row(tb.columns@[k], k as nat, l)));
    }
    assert forall|k: int| #![trigger tb.indexes@[k]] 0 <= k < tb.indexes@.len() implies exists|b: int|
        0 <= b < plan.len() && grid_has_row(#[trigger] plan[b], k + 1, word_index_row(tb.indexes@[k], l)) by {
        let b = off + hc + 4;
        assert(plan[b] == blocks[hc + 4]);
        let rows = index_rows(tb, l);
        assert(rows[k + 1] == word_index_row(tb.indexes@[k], l));
        assert(grid_has_row(plan[b], k + 1, word_index_row(tb.indexes@[k], l)));
    }
}

} // verus!
