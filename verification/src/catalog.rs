//! Schema metadata assembled from catalogue rows: tables, their columns and
//! indexes, and foreign keys.

use vstd::prelude::*;
use crate::model::{views, Column, Index, RelationSource, Table, TableRelation};
use crate::naming::{relation_id, relation_id_seq, relation_type_for_source_column, source_relation_type};
use crate::text::{chars_eq, chars_of, lower_chars, lower_seq, str_eq};

verus! {

/// A table row of the catalogue.
#[derive(Clone, Debug)]
pub struct TableRecord {
    pub name: String,
    pub comment: String,
}

/// A column row of the catalogue, before its nullability is read.
#[derive(Clone, Debug)]
pub struct ColumnRecord {
    pub table_name: String,
    pub name: String,
    pub data_type: String,
    pub is_nullable: String,
    pub default_value: String,
    pub comment: String,
    pub key: String,
    pub extra: String,
}

/// An index column row of the catalogue.
#[derive(Clone, Debug)]
pub struct IndexRecord {
    pub table_name: String,
    pub index_name: String,
    pub column_name: String,
    pub non_unique: u8,
}

/// A foreign key column row of the catalogue.
#[derive(Clone, Debug)]
pub struct ForeignKeyRecord {
    pub constraint_name: String,
    pub table_schema: String,
    pub table_name: String,
    pub column_name: String,
    pub referenced_table_schema: Option<String>,
    pub referenced_table_name: Option<String>,
    pub referenced_column_name: Option<String>,
}

// ---------------------------------------------------------------------------
// Indexes
// ---------------------------------------------------------------------------

/// The content of an [`Index`].
pub struct IndexView {
    pub name: Seq<char>,
    pub columns: Seq<Seq<char>>,
    pub unique: bool,
}

pub open spec fn index_view(x: Index) -> IndexView {
    IndexView { name: x.name@, columns: views(x.columns@), unique: x.unique }
}

pub open spec fn index_views(xs: Seq<Index>) -> Seq<IndexView> {
    xs.map_values(|x: Index| index_view(x))
}

/// The position of the first index named `name`, from index `k` on.
pub open spec fn find_index_from(xs: Seq<IndexView>, name: Seq<char>, k: int) -> Option<int>
    decreases xs.len() - k,
{
    if k < 0 || k >= xs.len() {
        None
    } else if xs[k].name == name {
        Some(k)
    } else {
        find_index_from(xs, name, k + 1)
    }
}

pub proof fn lemma_find_index_from(xs: Seq<IndexView>, name: Seq<char>, k: int)
    requires
        0 <= k,
    ensures
        find_index_from(xs, name, k) matches Some(i) ==> k <= i < xs.len() && xs[i].name == name,
    decreases xs.len() - k,
{
    if k < xs.len() && xs[k].name != name {
        lemma_find_index_from(xs, name, k + 1);
    }
}

/// The indexes after adding the index column `column` of index `name`: the
/// column joins the first index of that name, or a new index is appended.
pub open spec fn push_index_view(
    xs: Seq<IndexView>,
    name: Seq<char>,
    column: Seq<char>,
    unique: bool,
) -> Seq<IndexView> {
    match find_index_from(xs, name, 0) {
        Some(i) => xs.update(
            i,
            IndexView { name: xs[i].name, columns: xs[i].columns.push(column), unique: xs[i].unique },
        ),
        None => xs.push(IndexView { name, columns: seq![column], unique }),
    }
}

fn find_index_exec(xs: &Vec<Index>, name: &str) -> (r: Option<usize>)
    ensures
        match r {
            Some(i) => find_index_from(index_views(xs@), name@, 0) == Some(i as int),
            None => find_index_from(index_views(xs@), name@, 0) is None,
        },
{
    let mut i: usize = 0;
    while i < xs.len()
        invariant
            i <= xs@.len(),
            find_index_from(index_views(xs@), name@, 0) == find_index_from(
                index_views(xs@),
                name@,
                i as int,
            ),
        decreases xs@.len() - i,
    {
        if str_eq(xs[i].name.as_str(), name) {
            return Some(i);
        }
        i = i + 1;
    }
    None
}

pub fn push_index(table: &mut Table, name: String, column: String, unique: bool)
    ensures
        final(table).name == old(table).name,
        final(table).comment == old(table).comment,
        final(table).columns == old(table).columns,
        index_views(final(table).indexes@) == push_index_view(
            index_views(old(table).indexes@),
            name@,
            column@,
            unique,
        ),
{
    let ghost before = index_views(table.indexes@);
    match find_index_exec(&table.indexes, name.as_str()) {
        Some(i) => {
            proof {
                lemma_find_index_from(before, name@, 0);
            }
            let mut tmp = Index { name: String::new(), columns: Vec::new(), unique: false };
            table.indexes.set_and_swap(i, &mut tmp);
            let ghost old_cols = tmp.columns@;
            tmp.columns.push(column);
            assert(views(tmp.columns@) =~= views(old_cols).push(column@));
            table.indexes.set(i, tmp);
            assert(index_views(table.indexes@) =~= push_index_view(before, name@, column@, unique));
        },
        None => {
            let mut columns: Vec<String> = Vec::new();
            columns.push(column);
            assert(views(columns@) =~= seq![column@]);
            table.indexes.push(Index { name, columns, unique });
            assert(index_views(table.indexes@) =~= push_index_view(before, name@, column@, unique));
        },
    }
}

// ---------------------------------------------------------------------------
// Tables from catalogue rows
// ---------------------------------------------------------------------------

/// The position of the last table named `name`: rows for a name that several
/// tables share go to the last of them.
pub open spec fn last_table_named(tables: Seq<TableRecord>, name: Seq<char>) -> Option<int>
    decreases tables.len(),
{
    if tables.len() == 0 {
        None
    } else if tables.last().name@ == name {
        Some(tables.len() - 1)
    } else {
        last_table_named(tables.drop_last(), name)
    }
}

pub proof fn lemma_last_table_named(tables: Seq<TableRecord>, name: Seq<char>)
    ensures
        last_table_named(tables, name) matches Some(p) ==> 0 <= p < tables.len(),
    decreases tables.len(),
{
    if tables.len() > 0 && tables.last().name@ != name {
        lemma_last_table_named(tables.drop_last(), name);
    }
}

fn last_table_exec(tables: &Vec<TableRecord>, name: &str) -> (r: Option<usize>)
    ensures
        match r {
            Some(p) => last_table_named(tables@, name@) == Some(p as int),
            None => last_table_named(tables@, name@) is None,
        },
{
    let mut i: usize = tables.len();
    assert(tables@.take(i as int) =~= tables@);
    while i > 0
        invariant
            i <= tables@.len(),
            last_table_named(tables@, name@) == last_table_named(tables@.take(i as int), name@),
        decreases i,
    {
        assert(tables@.take(i as int).drop_last() =~= tables@.take(i - 1));
        if str_eq(tables[i - 1].name.as_str(), name) {
            return Some(i - 1);
        }
        i = i - 1;
    }
    None
}

/// A column made from a column row: `YES` in any ASCII case reads as
/// nullable.
pub open spec fn column_from_record(c: Column, r: ColumnRecord) -> bool {
    &&& c.name@ == r.name@
    &&& c.data_type@ == r.data_type@
    &&& c.nullable == (lower_seq(r.is_nullable@) == "yes"@)
    &&& c.default_value@ == r.default_value@
    &&& c.comment@ == r.comment@
    &&& c.key@ == r.key@
    &&& c.extra@ == r.extra@
}

/// The column rows among the first `n` that belong to the table at position `p`.
pub open spec fn columns_for(
    tables: Seq<TableRecord>,
    rows: Seq<ColumnRecord>,
    p: int,
    n: int,
) -> Seq<ColumnRecord>
    decreases n,
{
    if n <= 0 || n > rows.len() {
        Seq::empty()
    } else if last_table_named(tables, rows[n - 1].table_name@) == Some(p) {
        columns_for(tables, rows, p, n - 1).push(rows[n - 1])
    } else {
        columns_for(tables, rows, p, n - 1)
    }
}

/// The indexes of the table at position `p` built from the first `n` index rows.
pub open spec fn indexes_for(
    tables: Seq<TableRecord>,
    rows: Seq<IndexRecord>,
    p: int,
    n: int,
) -> Seq<IndexView>
    decreases n,
{
    if n <= 0 || n > rows.len() {
        Seq::empty()
    } else if last_table_named(tables, rows[n - 1].table_name@) == Some(p) {
        push_index_view(
            indexes_for(tables, rows, p, n - 1),
            rows[n - 1].index_name@,
            rows[n - 1].column_name@,
            rows[n - 1].non_unique == 0,
        )
    } else {
        indexes_for(tables, rows, p, n - 1)
    }
}

/// The columns of a table are made from its column rows, in order.
pub open spec fn columns_match(cols: Seq<Column>, rows: Seq<ColumnRecord>) -> bool {
    cols.len() == rows.len() && forall|k: int|
        0 <= k < cols.len() ==> column_from_record(#[trigger] cols[k], rows[k])
}

/// The tables assembled from catalogue rows: one per table row, in order,
/// with the columns and indexes of the rows that name it.
pub open spec fn assembled_tables(
    result: Seq<Table>,
    tables: Seq<TableRecord>,
    columns: Seq<ColumnRecord>,
    indexes: Seq<IndexRecord>,
) -> bool {
    &&& result.len() == tables.len()
    &&& forall|p: int|
        0 <= p < result.len() ==> {
            &&& (#[trigger] result[p]).name@ == tables[p].name@
            &&& result[p].comment@ == tables[p].comment@
            &&& columns_match(result[p].columns@, columns_for(tables, columns, p, columns.len() as int))
            &&& index_views(result[p].indexes@) == indexes_for(tables, indexes, p, indexes.len() as int)
        }
}

fn column_of(r: ColumnRecord) -> (c: Column)
    ensures
        column_from_record(c, r),
{
    let v = chars_of(r.is_nullable.as_str());
    let l = lower_chars(v.as_slice());
    let nullable = chars_eq(l.as_slice(), chars_of("yes").as_slice());
    Column {
        name: r.name,
        data_type: r.data_type,
        nullable,
        default_value: r.default_value,
        comment: r.comment,
        key: r.key,
        extra: r.extra,
    }
}

pub fn assemble_tables(
    table_rows: Vec<TableRecord>,
    column_rows: Vec<ColumnRecord>,
    index_rows: Vec<IndexRecord>,
) -> (r: Vec<Table>)
    ensures
        assembled_tables(r@, table_rows@, column_rows@, index_rows@),
{
    let mut tables: Vec<Table> = Vec::new();
    let mut i: usize = 0;
    while i < table_rows.len()
        invariant
            i <= table_rows@.len(),
            tables@.len() == i,
            forall|p: int|
                0 <= p < i ==> {
                    &&& (#[trigger] tables@[p]).name@ == table_rows@[p].name@
                    &&& tables@[p].comment@ == table_rows@[p].comment@
                    &&& tables@[p].columns@.len() == 0
                    &&& tables@[p].indexes@.len() == 0
                },
        decreases table_rows@.len() - i,
    {
        let row = &table_rows[i];
        tables.push(
            Table {
                name: row.name.clone(),
                comment: row.comment.clone(),
                columns: Vec::new(),
                indexes: Vec::new(),
            },
        );
        i = i + 1;
    }
    let ghost crows = column_rows@;
    let mut n: usize = 0;
    while n < column_rows.len()
        invariant
            n <= column_rows@.len(),
            crows == column_rows@,
            tables@.len() == table_rows@.len(),
            forall|p: int|
                0 <= p < tables@.len() ==> {
                    &&& (#[trigger] tables@[p]).name@ == table_rows@[p].name@
                    &&& tables@[p].comment@ == table_rows@[p].comment@
                    &&& columns_match(tables@[p].columns@, columns_for(table_rows@, crows, p, n as int))
                    &&& tables@[p].indexes@.len() == 0
                },
        decreases column_rows@.len() - n,
    {
        let row = &column_rows[n];
        match last_table_exec(&table_rows, row.table_name.as_str()) {
            Some(p) => {
                proof {
                    lemma_last_table_named(table_rows@, row.table_name@);
                }
                let column = column_of(row.clone_record());
                let mut t = Table {
                    name: String::new(),
                    comment: String::new(),
                    columns: Vec::new(),
                    indexes: Vec::new(),
                };
                tables.set_and_swap(p, &mut t);
                let ghost old_cols = t.columns@;
                t.columns.push(column);
                tables.set(p, t);
                assert forall|q: int| 0 <= q < tables@.len() implies {
                    &&& (#[trigger] tables@[q]).name@ == table_rows@[q].name@
                    &&& tables@[q].comment@ == table_rows@[q].comment@
                    &&& columns_match(
                        tables@[q].columns@,
                        columns_for(table_rows@, crows, q, n + 1),
                    )
                    &&& tables@[q].indexes@.len() == 0
                } by {
                    if q == p {
                        assert(tables@[q].columns@ == old_cols.push(column));
                    }
                }
            },
            None => {},
        }
        n = n + 1;
    }
    let ghost irows = index_rows@;
    let mut n: usize = 0;
    while n < index_rows.len()
        invariant
            n <= index_rows@.len(),
            irows == index_rows@,
            tables@.len() == table_rows@.len(),
            forall|p: int|
                0 <= p < tables@.len() ==> {
                    &&& (#[trigger] tables@[p]).name@ == table_rows@[p].name@
                    &&& tables@[p].comment@ == table_rows@[p].comment@
                    &&& columns_match(
                        tables@[p].columns@,
                        columns_for(table_rows@, column_rows@, p, column_rows@.len() as int),
                    )
                    &&& index_views(tables@[p].indexes@) == indexes_for(
                        table_rows@,
                        irows,
                        p,
                        n as int,
                    )
                },
        decreases index_rows@.len() - n,
    {
        let row = &index_rows[n];
        match last_table_exec(&table_rows, row.table_name.as_str()) {
            Some(p) => {
                proof {
                    lemma_last_table_named(table_rows@, row.table_name@);
                }
                let mut t = Table {
                    name: String::new(),
                    comment: String::new(),
                    columns: Vec::new(),
                    indexes: Vec::new(),
                };
                tables.set_and_swap(p, &mut t);
                push_index(&mut t, row.index_name.clone(), row.column_name.clone(), row.non_unique == 0);
                tables.set(p, t);
            },
            None => {},
        }
        n = n + 1;
    }
    tables
}

impl ColumnRecord {
    /// A copy of the row.
    pub fn clone_record(&self) -> (r: ColumnRecord)
        ensures
            r.table_name@ == self.table_name@,
            r.name@ == self.name@,
            r.data_type@ == self.data_type@,
            r.is_nullable@ == self.is_nullable@,
            r.default_value@ == self.default_value@,
            r.comment@ == self.comment@,
            r.key@ == self.key@,
            r.extra@ == self.extra@,
    {
        ColumnRecord {
            table_name: self.table_name.clone(),
            name: self.name.clone(),
            data_type: self.data_type.clone(),
            is_nullable: self.is_nullable.clone(),
            default_value: self.default_value.clone(),
            comment: self.comment.clone(),
            key: self.key.clone(),
            extra: self.extra.clone(),
        }
    }
}

// ---------------------------------------------------------------------------
// Foreign keys
// ---------------------------------------------------------------------------

/// The characters of an optional catalogue value, empty when absent.
pub open spec fn or_empty(o: Option<String>) -> Seq<char> {
    match o {
        Some(s) => s@,
        None => Seq::empty(),
    }
}

/// The relation a foreign key row describes.
pub open spec fn foreign_key_relation_of(r: TableRelation, row: ForeignKeyRecord, tables: Seq<Table>) -> bool {
    &&& r.id@ == relation_id_seq(
        "fk"@,
        row.table_name@,
        row.column_name@,
        or_empty(row.referenced_table_name),
        or_empty(row.referenced_column_name),
    )
    &&& r.name matches Some(n) && n@ == row.constraint_name@
    &&& r.source_schema matches Some(s) && s@ == row.table_schema@
    &&& r.source_table@ == row.table_name@
    &&& r.source_column@ == row.column_name@
    &&& r.target_schema matches Some(s) && s@ == or_empty(row.referenced_table_schema)
    &&& r.target_table@ == or_empty(row.referenced_table_name)
    &&& r.target_column@ == or_empty(row.referenced_column_name)
    &&& r.relation_type == source_relation_type(tables, row.table_name@, row.column_name@)
    &&& r.source == RelationSource::DatabaseFk
    &&& r.confidence == 100
    &&& r.description@.len() == 0
}

fn unwrap_or_empty(o: &Option<String>) -> (r: String)
    ensures
        r@ == or_empty(*o),
{
    match o {
        Some(s) => s.clone(),
        None => String::new(),
    }
}

pub fn foreign_key_relations(rows: &Vec<ForeignKeyRecord>, tables: &[Table]) -> (r: Vec<
    TableRelation,
>)
    ensures
        r@.len() == rows@.len(),
        forall|k: int| 0 <= k < r@.len() ==> foreign_key_relation_of(#[trigger] r@[k], rows@[k], tables@),
{
    let mut out: Vec<TableRelation> = Vec::new();
    let mut k: usize = 0;
    while k < rows.len()
        invariant
            k <= rows@.len(),
            out@.len() == k,
            forall|j: int| 0 <= j < k ==> foreign_key_relation_of(#[trigger] out@[j], rows@[j], tables@),
        decreases rows@.len() - k,
    {
        let row = &rows[k];
        let target_schema = unwrap_or_empty(&row.referenced_table_schema);
        let target_table = unwrap_or_empty(&row.referenced_table_name);
        let target_column = unwrap_or_empty(&row.referenced_column_name);
        let relation = TableRelation {
            id: relation_id(
                "fk",
                row.table_name.as_str(),
                row.column_name.as_str(),
                target_table.as_str(),
                target_column.as_str(),
            ),
            name: Some(row.constraint_name.clone()),
            source_schema: Some(row.table_schema.clone()),
            source_table: row.table_name.clone(),
            source_column: row.column_name.clone(),
            target_schema: Some(target_schema),
            target_table,
            target_column,
            relation_type: relation_type_for_source_column(
                tables,
                row.table_name.as_str(),
                row.column_name.as_str(),
            ),
            source: RelationSource::DatabaseFk,
            confidence: 100,
            description: String::new(),
        };
        out.push(relation);
        k = k + 1;
    }
    out
}

} // verus!
