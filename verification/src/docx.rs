//! The Word version of the database dictionary: the blocks of the document,
//! in order, as plain values.

use vstd::prelude::*;
use crate::labels::{yes_no, Labels};
use crate::model::{views, DatabaseSchema, Table};
use crate::naming::{is_pk, is_primary_key};
use crate::render::joined;
use crate::text::{dec, dec_string, join_seq, owned, push_str};

verus! {

/// Column widths of the schema facts table, in twentieths of a point.
pub open spec fn meta_widths() -> Seq<usize> {
    seq![2200, 13160]
}

/// Column widths of the table directory.
pub open spec fn directory_widths() -> Seq<usize> {
    seq![700, 5200, 9460]
}

/// Column widths of a column table.
pub open spec fn column_widths() -> Seq<usize> {
    seq![520, 2200, 1900, 900, 760, 1500, 1600, 5980]
}

/// Column widths of an index table.
pub open spec fn index_widths() -> Seq<usize> {
    seq![4200, 1200, 9960]
}

/// One row of a document table.
#[derive(Clone, Debug)]
pub struct DocxRow {
    pub header: bool,
    pub cells: Vec<String>,
}

/// A document table: its column widths and rows.
#[derive(Clone, Debug)]
pub struct DocxGrid {
    pub widths: Vec<usize>,
    pub rows: Vec<DocxRow>,
}

/// One block of the document.
#[derive(Clone, Debug)]
pub enum DocxBlock {
    /// The document title.
    Title(String),
    /// A section heading.
    Section(String),
    /// A subsection heading.
    Subsection(String),
    /// A plain paragraph.
    Text(String),
    /// An empty paragraph leaving the given space after it.
    Spacer(u32),
    /// A table.
    Grid(DocxGrid),
}

/// The blocks of a Word database dictionary.
#[derive(Clone, Debug)]
pub struct DocxPlan {
    pub blocks: Vec<DocxBlock>,
}

/// The content of a [`DocxBlock`].
pub enum BlockView {
    Title(Seq<char>),
    Section(Seq<char>),
    Subsection(Seq<char>),
    Text(Seq<char>),
    Spacer(u32),
    Grid(Seq<usize>, Seq<(bool, Seq<Seq<char>>)>),
}

pub open spec fn row_view(r: DocxRow) -> (bool, Seq<Seq<char>>) {
    (r.header, views(r.cells@))
}

pub open spec fn block_view(b: DocxBlock) -> BlockView {
    match b {
        DocxBlock::Title(s) => BlockView::Title(s@),
        DocxBlock::Section(s) => BlockView::Section(s@),
        DocxBlock::Subsection(s) => BlockView::Subsection(s@),
        DocxBlock::Text(s) => BlockView::Text(s@),
        DocxBlock::Spacer(n) => BlockView::Spacer(n),
        DocxBlock::Grid(g) => BlockView::Grid(g.widths@, g.rows@.map_values(|r: DocxRow| row_view(r))),
    }
}

pub open spec fn plan_view(p: DocxPlan) -> Seq<BlockView> {
    p.blocks@.map_values(|b: DocxBlock| block_view(b))
}

// ---------------------------------------------------------------------------
// The document, block by block
// ---------------------------------------------------------------------------

/// The schema facts: name, document version and description.
pub open spec fn meta_rows(database_name: Seq<char>, l: Labels) -> Seq<(bool, Seq<Seq<char>>)> {
    seq![
        (false, seq![l.database_name@, database_name]),
        (false, seq![l.document_version@, "1.0.0"@]),
        (false, seq![l.document_description@, "Database design document"@]),
    ]
}

/// The table directory: a header row, then number, name and comment of each
/// table.
pub open spec fn directory_rows(tables: Seq<Table>, l: Labels) -> Seq<(bool, Seq<Seq<char>>)> {
    seq![(true, seq![l.sequence@, l.table_name@, l.description@])] + tables.map(
        |i: int, t: Table| (false, seq![dec((i + 1) as nat), t.name@, t.comment@]),
    )
}

/// The column table of a table: a header row, then one row per column.
pub open spec fn column_rows(t: Table, l: Labels) -> Seq<(bool, Seq<Seq<char>>)> {
    seq![
        (
            true,
            seq![
                l.sequence@,
                l.column_name@,
                l.data_type@,
                l.nullable@,
                l.primary_key@,
                l.default_value@,
                l.extra@,
                l.description@,
            ],
        ),
    ] + t.columns@.map(
        |i: int, c: crate::model::Column|
            (
                false,
                seq![
                    dec((i + 1) as nat),
                    c.name@,
                    c.data_type@,
                    yes_no(l, c.nullable),
                    yes_no(l, is_pk(c.key@)),
                    c.default_value@,
                    c.extra@,
                    c.comment@,
                ],
            ),
    )
}

/// The index table of a table: a header row, then one row per index.
pub open spec fn index_rows(t: Table, l: Labels) -> Seq<(bool, Seq<Seq<char>>)> {
    seq![(true, seq![l.index_name@, l.unique@, l.columns@])] + t.indexes@.map(
        |i: int, x: crate::model::Index|
            (false, seq![x.name@, yes_no(l, x.unique), join_seq(views(x.columns@), ", "@)]),
    )
}

/// The blocks of one table: its heading, its comment when it has one, its
/// column table and, when it has indexes, its index table.
pub open spec fn table_blocks(t: Table, l: Labels) -> Seq<BlockView> {
    let head = seq![BlockView::Section(l.table_name@ + ": "@ + t.name@)];
    let comment = if t.comment@.len() > 0 {
        seq![BlockView::Text(l.description@ + ": "@ + t.comment@)]
    } else {
        Seq::empty()
    };
    let columns = seq![
        BlockView::Subsection(l.data_columns@),
        BlockView::Grid(column_widths(), column_rows(t, l)),
        BlockView::Spacer(160),
    ];
    let indexes = if t.indexes@.len() > 0 {
        seq![
            BlockView::Subsection(l.indexes@),
            BlockView::Grid(index_widths(), index_rows(t, l)),
            BlockView::Spacer(260),
        ]
    } else {
        seq![BlockView::Spacer(160)]
    };
    head + comment + columns + indexes
}

/// The blocks of `tables` from index `i` on, after `acc`.
pub open spec fn tables_blocks(acc: Seq<BlockView>, tables: Seq<Table>, i: int, l: Labels) -> Seq<
    BlockView,
>
    decreases tables.len() - i,
{
    if i < 0 || i >= tables.len() {
        acc
    } else {
        tables_blocks(acc + table_blocks(tables[i], l), tables, i + 1, l)
    }
}

/// The Word database dictionary of a schema: title, schema facts, table
/// directory, then the blocks of each table.
pub open spec fn docx_plan_spec(database: DatabaseSchema, l: Labels) -> Seq<BlockView> {
    let head = seq![
        BlockView::Title(l.doc_title@),
        BlockView::Grid(meta_widths(), meta_rows(database.name@, l)),
        BlockView::Spacer(180),
        BlockView::Section(l.table_directory@),
        BlockView::Grid(directory_widths(), directory_rows(database.tables@, l)),
        BlockView::Spacer(260),
    ];
    tables_blocks(head, database.tables@, 0, l)
}

// ---------------------------------------------------------------------------
// Building the plan
// ---------------------------------------------------------------------------

fn widths_of(w: Vec<usize>) -> (r: Vec<usize>)
    ensures
        r@ == w@,
{
    w
}

fn row_of(header: bool, cells: Vec<String>) -> (r: DocxRow)
    ensures
        row_view(r) == (header, views(cells@)),
{
    DocxRow { header, cells }
}

fn grid_of(widths: Vec<usize>, rows: Vec<DocxRow>) -> (r: DocxBlock)
    ensures
        block_view(r) == BlockView::Grid(widths@, rows@.map_values(|x: DocxRow| row_view(x))),
{
    DocxBlock::Grid(DocxGrid { widths: widths_of(widths), rows })
}

fn labelled(label: &String, value: &String) -> (r: String)
    ensures
        r@ == label@ + ": "@ + value@,
{
    let mut s = owned(label.as_str());
    push_str(&mut s, ": ");
    push_str(&mut s, value.as_str());
    s
}

fn meta_docx_table(database: &DatabaseSchema, l: &Labels) -> (r: DocxBlock)
    ensures
        block_view(r) == BlockView::Grid(meta_widths(), meta_rows(database.name@, *l)),
{
    let ghost mr = meta_rows(database.name@, *l);
    let c0 = vec![owned(l.database_name.as_str()), owned(database.name.as_str())];
    assert(views(c0@) =~= mr[0].1);
    let c1 = vec![owned(l.document_version.as_str()), owned("1.0.0")];
    assert(views(c1@) =~= mr[1].1);
    let c2 = vec![owned(l.document_description.as_str()), owned("Database design document")];
    assert(views(c2@) =~= mr[2].1);
    let mut meta: Vec<DocxRow> = Vec::new();
    meta.push(row_of(false, c0));
    meta.push(row_of(false, c1));
    meta.push(row_of(false, c2));
    assert(meta@.map_values(|x: DocxRow| row_view(x)) =~= mr);
    let w = vec![2200, 13160];
    assert(w@ =~= meta_widths());
    grid_of(w, meta)
}

fn directory_docx_table(database: &DatabaseSchema, l: &Labels) -> (r: DocxBlock)
    ensures
        block_view(r) == BlockView::Grid(
            directory_widths(),
            directory_rows(database.tables@, *l),
        ),
{
    let tables = &database.tables;
    let mut rows: Vec<DocxRow> = Vec::new();
    let head = vec![owned(l.sequence.as_str()), owned(l.table_name.as_str()), owned(l.description.as_str())];
    let ghost first = seq![(true, seq![l.sequence@, l.table_name@, l.description@])];
    assert(views(head@) =~= first[0].1);
    rows.push(row_of(true, head));
    let ghost all = tables@.map(
        |i: int, t: Table| (false, seq![dec((i + 1) as nat), t.name@, t.comment@]),
    );
    assert(rows@.map_values(|x: DocxRow| row_view(x)) =~= first);
    let mut i: usize = 0;
    while i < tables.len()
        invariant
            i <= tables@.len(),
            all == tables@.map(
                |i: int, t: Table| (false, seq![dec((i + 1) as nat), t.name@, t.comment@]),
            ),
            rows@.map_values(|x: DocxRow| row_view(x)) == first + all.take(i as int),
        decreases tables@.len() - i,
    {
        let t = &tables[i];
        let ghost before = rows@;
        let cells = vec![dec_string(i + 1), owned(t.name.as_str()), owned(t.comment.as_str())];
        assert(views(cells@) =~= seq![dec((i + 1) as nat), t.name@, t.comment@]);
        rows.push(row_of(false, cells));
        assert(rows@.map_values(|x: DocxRow| row_view(x)) =~= before.map_values(
            |x: DocxRow| row_view(x),
        ).push(all[i as int]));
        assert(all.take(i + 1) =~= all.take(i as int).push(all[i as int]));
        i = i + 1;
    }
    assert(all.take(tables@.len() as int) =~= all);
    let w = vec![700, 5200, 9460];
    assert(w@ =~= directory_widths());
    grid_of(w, rows)
}

fn column_docx_table(t: &Table, l: &Labels) -> (r: DocxBlock)
    ensures
        block_view(r) == BlockView::Grid(column_widths(), column_rows(*t, *l)),
{
    let mut rows: Vec<DocxRow> = Vec::new();
    let head = vec![
        owned(l.sequence.as_str()),
        owned(l.column_name.as_str()),
        owned(l.data_type.as_str()),
        owned(l.nullable.as_str()),
        owned(l.primary_key.as_str()),
        owned(l.default_value.as_str()),
        owned(l.extra.as_str()),
        owned(l.description.as_str()),
    ];
    let ghost first = seq![
        (
            true,
            seq![
                l.sequence@,
                l.column_name@,
                l.data_type@,
                l.nullable@,
                l.primary_key@,
                l.default_value@,
                l.extra@,
                l.description@,
            ],
        ),
    ];
    assert(views(head@) =~= first[0].1);
    rows.push(row_of(true, head));
    let ghost all = t.columns@.map(
        |i: int, c: crate::model::Column|
            (
                false,
                seq![
                    dec((i + 1) as nat),
                    c.name@,
                    c.data_type@,
                    yes_no(*l, c.nullable),
                    yes_no(*l, is_pk(c.key@)),
                    c.default_value@,
                    c.extra@,
                    c.comment@,
                ],
            ),
    );
    assert(rows@.map_values(|x: DocxRow| row_view(x)) =~= first);
    let mut i: usize = 0;
    while i < t.columns.len()
        invariant
            i <= t.columns@.len(),
            all == t.columns@.map(
                |i: int, c: crate::model::Column|
                    (
                        false,
                        seq![
                            dec((i + 1) as nat),
                            c.name@,
                            c.data_type@,
                            yes_no(*l, c.nullable),
                            yes_no(*l, is_pk(c.key@)),
                            c.default_value@,
                            c.extra@,
                            c.comment@,
                        ],
                    ),
            ),
            rows@.map_values(|x: DocxRow| row_view(x)) == first + all.take(i as int),
        decreases t.columns@.len() - i,
    {
        let c = &t.columns[i];
        let ghost before = rows@;
        let cells = vec![
            dec_string(i + 1),
            owned(c.name.as_str()),
            owned(c.data_type.as_str()),
            owned(l.bool(c.nullable)),
            owned(l.bool(is_primary_key(c.key.as_str()))),
            owned(c.default_value.as_str()),
            owned(c.extra.as_str()),
            owned(c.comment.as_str()),
        ];
        assert(views(cells@) =~= all[i as int].1);
        rows.push(row_of(false, cells));
        assert(rows@.map_values(|x: DocxRow| row_view(x)) =~= before.map_values(
            |x: DocxRow| row_view(x),
        ).push(all[i as int]));
        assert(all.take(i + 1) =~= all.take(i as int).push(all[i as int]));
        i = i + 1;
    }
    assert(all.take(t.columns@.len() as int) =~= all);
    let w = vec![520, 2200, 1900, 900, 760, 1500, 1600, 5980];
    assert(w@ =~= column_widths());
    grid_of(w, rows)
}

fn index_docx_table(t: &Table, l: &Labels) -> (r: DocxBlock)
    ensures
        block_view(r) == BlockView::Grid(index_widths(), index_rows(*t, *l)),
{
    let mut rows: Vec<DocxRow> = Vec::new();
    let head = vec![owned(l.index_name.as_str()), owned(l.unique.as_str()), owned(l.columns.as_str())];
    let ghost first = seq![(true, seq![l.index_name@, l.unique@, l.columns@])];
    assert(views(head@) =~= first[0].1);
    rows.push(row_of(true, head));
    let ghost all = t.indexes@.map(
        |i: int, x: crate::model::Index|
            (false, seq![x.name@, yes_no(*l, x.unique), join_seq(views(x.columns@), ", "@)]),
    );
    assert(rows@.map_values(|x: DocxRow| row_view(x)) =~= first);
    let mut i: usize = 0;
    while i < t.indexes.len()
        invariant
            i <= t.indexes@.len(),
            all == t.indexes@.map(
                |i: int, x: crate::model::Index|
                    (false, seq![x.name@, yes_no(*l, x.unique), join_seq(views(x.columns@), ", "@)]),
            ),
            rows@.map_values(|x: DocxRow| row_view(x)) == first + all.take(i as int),
        decreases t.indexes@.len() - i,
    {
        let x = &t.indexes[i];
        let ghost before = rows@;
        let cells = vec![owned(x.name.as_str()), owned(l.bool(x.unique)), joined(&x.columns, ", ")];
        assert(views(cells@) =~= all[i as int].1);
        rows.push(row_of(false, cells));
        assert(rows@.map_values(|x: DocxRow| row_view(x)) =~= before.map_values(
            |x: DocxRow| row_view(x),
        ).push(all[i as int]));
        assert(all.take(i + 1) =~= all.take(i as int).push(all[i as int]));
        i = i + 1;
    }
    assert(all.take(t.indexes@.len() as int) =~= all);
    let w = vec![4200, 1200, 9960];
    assert(w@ =~= index_widths());
    grid_of(w, rows)
}

fn push_block(blocks: &mut Vec<DocxBlock>, b: DocxBlock)
    ensures
        final(blocks)@.map_values(|x: DocxBlock| block_view(x)) == old(blocks)@.map_values(
            |x: DocxBlock| block_view(x),
        ).push(block_view(b)),
{
    blocks.push(b);
    assert(final(blocks)@.map_values(|x: DocxBlock| block_view(x)) =~= old(blocks)@.map_values(
        |x: DocxBlock| block_view(x),
    ).push(block_view(b)));
}

fn push_table_blocks(blocks: &mut Vec<DocxBlock>, t: &Table, l: &Labels)
    ensures
        final(blocks)@.map_values(|x: DocxBlock| block_view(x)) == old(blocks)@.map_values(
            |x: DocxBlock| block_view(x),
        ) + table_blocks(*t, *l),
{
    let ghost start = blocks@.map_values(|x: DocxBlock| block_view(x));
    push_block(blocks, DocxBlock::Section(labelled(&l.table_name, &t.name)));
    if !t.comment.as_str().is_empty() {
        push_block(blocks, DocxBlock::Text(labelled(&l.description, &t.comment)));
    }
    push_block(blocks, DocxBlock::Subsection(owned(l.data_columns.as_str())));
    push_block(blocks, column_docx_table(t, l));
    push_block(blocks, DocxBlock::Spacer(160));
    if t.indexes.len() > 0 {
        push_block(blocks, DocxBlock::Subsection(owned(l.indexes.as_str())));
        push_block(blocks, index_docx_table(t, l));
        push_block(blocks, DocxBlock::Spacer(260));
    } else {
        push_block(blocks, DocxBlock::Spacer(160));
    }
    assert(blocks@.map_values(|x: DocxBlock| block_view(x)) =~= start + table_blocks(*t, *l));
}

/// The blocks of the Word database dictionary of a schema.
pub fn docx_plan(database: &DatabaseSchema, labels: &Labels) -> (r: DocxPlan)
    ensures
        plan_view(r) == docx_plan_spec(*database, *labels),
{
    let l = labels;
    let mut blocks: Vec<DocxBlock> = Vec::new();
    push_block(&mut blocks, DocxBlock::Title(owned(l.doc_title.as_str())));
    push_block(&mut blocks, meta_docx_table(database, l));
    push_block(&mut blocks, DocxBlock::Spacer(180));
    push_block(&mut blocks, DocxBlock::Section(owned(l.table_directory.as_str())));
    push_block(&mut blocks, directory_docx_table(database, l));
    push_block(&mut blocks, DocxBlock::Spacer(260));
    let ghost head = blocks@.map_values(|x: DocxBlock| block_view(x));
    assert(head =~= seq![
        BlockView::Title(l.doc_title@),
        BlockView::Grid(meta_widths(), meta_rows(database.name@, *l)),
        BlockView::Spacer(180),
        BlockView::Section(l.table_directory@),
        BlockView::Grid(directory_widths(), directory_rows(database.tables@, *l)),
        BlockView::Spacer(260),
    ]);
    let mut i: usize = 0;
    while i < database.tables.len()
        invariant
            i <= database.tables@.len(),
            tables_blocks(blocks@.map_values(|x: DocxBlock| block_view(x)), database.tables@, i as int, *l)
                == tables_blocks(head, database.tables@, 0, *l),
        decreases database.tables@.len() - i,
    {
        push_table_blocks(&mut blocks, &database.tables[i], l);
        i = i + 1;
    }
    let r = DocxPlan { blocks };
    assert(plan_view(r) =~= tables_blocks(head, database.tables@, 0, *l));
    r
}

} // verus!
