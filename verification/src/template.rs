//! Editable relation templates exported from a schema's relations.

use vstd::prelude::*;
use crate::model::{DatabaseSchema, RelationSource, RelationTemplateItem, TableRelation};
use crate::relations::{relation_source_sort_key, relation_type_label, sort_key_of, type_label_seq};
use crate::text::{chars_of, dec, digit_char, owned, push_char, push_dec, push_str};

verus! {

// ---------------------------------------------------------------------------
// Order of template entries
// ---------------------------------------------------------------------------

/// `a` comes before `b` in code point order.
pub open spec fn seq_lt(a: Seq<char>, b: Seq<char>) -> bool
    decreases a.len(),
{
    if a.len() == 0 {
        b.len() > 0
    } else if b.len() == 0 {
        false
    } else if a[0] < b[0] {
        true
    } else if a[0] > b[0] {
        false
    } else {
        seq_lt(a.drop_first(), b.drop_first())
    }
}

/// Code point order of two strings: -1, 0 or 1.
pub fn compare_chars(a: &[char], b: &[char]) -> (r: i8)
    ensures
        r == -1 <==> seq_lt(a@, b@),
        r == 0 <==> a@ == b@,
        r == 1 <==> seq_lt(b@, a@),
        r == -1 || r == 0 || r == 1,
{
    let mut i: usize = 0;
    assert(a@.skip(0) =~= a@);
    assert(b@.skip(0) =~= b@);
    while i < a.len() && i < b.len() && a[i] == b[i]
        invariant
            i <= a@.len(),
            i <= b@.len(),
            a@.take(i as int) == b@.take(i as int),
            seq_lt(a@, b@) == seq_lt(a@.skip(i as int), b@.skip(i as int)),
            seq_lt(b@, a@) == seq_lt(b@.skip(i as int), a@.skip(i as int)),
        decreases a@.len() - i,
    {
        assert(a@.skip(i as int).drop_first() =~= a@.skip(i + 1));
        assert(b@.skip(i as int).drop_first() =~= b@.skip(i + 1));
        assert(a@.take(i + 1) =~= a@.take(i as int).push(a@[i as int]));
        assert(b@.take(i + 1) =~= b@.take(i as int).push(b@[i as int]));
        i = i + 1;
    }
    if i == a.len() && i == b.len() {
        assert(a@ =~= a@.take(i as int));
        assert(b@ =~= b@.take(i as int));
        return 0;
    }
    if i == a.len() {
        assert(a@.skip(i as int).len() == 0);
        assert(a@ != b@);
        return -1;
    }
    if i == b.len() {
        assert(b@.skip(i as int).len() == 0);
        assert(a@ != b@);
        return 1;
    }
    assert(a@.skip(i as int)[0] == a@[i as int]);
    assert(b@.skip(i as int)[0] == b@[i as int]);
    assert(a@[i as int] != b@[i as int]);
    if a[i] < b[i] {
        -1
    } else {
        1
    }
}

/// The order of template entries: by source group (foreign keys, relation
/// file and manual, inferred), then source table, source column, target table
/// and target column.
pub open spec fn entry_before(a: TableRelation, b: TableRelation) -> bool {
    if sort_key_of(a.source) != sort_key_of(b.source) {
        sort_key_of(a.source) < sort_key_of(b.source)
    } else if a.source_table@ != b.source_table@ {
        seq_lt(a.source_table@, b.source_table@)
    } else if a.source_column@ != b.source_column@ {
        seq_lt(a.source_column@, b.source_column@)
    } else if a.target_table@ != b.target_table@ {
        seq_lt(a.target_table@, b.target_table@)
    } else {
        seq_lt(a.target_column@, b.target_column@)
    }
}

fn str_order(a: &str, b: &str) -> (r: i8)
    ensures
        r == -1 <==> seq_lt(a@, b@),
        r == 0 <==> a@ == b@,
        r == 1 <==> seq_lt(b@, a@),
        r == -1 || r == 0 || r == 1,
{
    let va = chars_of(a);
    let vb = chars_of(b);
    compare_chars(va.as_slice(), vb.as_slice())
}

fn entry_before_exec(a: &TableRelation, b: &TableRelation) -> (r: bool)
    ensures
        r == entry_before(*a, *b),
{
    let ka = relation_source_sort_key(&a.source);
    let kb = relation_source_sort_key(&b.source);
    if ka != kb {
        return ka < kb;
    }
    let c = str_order(a.source_table.as_str(), b.source_table.as_str());
    if c != 0 {
        return c == -1;
    }
    let c = str_order(a.source_column.as_str(), b.source_column.as_str());
    if c != 0 {
        return c == -1;
    }
    let c = str_order(a.target_table.as_str(), b.target_table.as_str());
    if c != 0 {
        return c == -1;
    }
    str_order(a.target_column.as_str(), b.target_column.as_str()) == -1
}

/// The position at which relation `x` joins the ordered positions `sorted`:
/// before the first entry that `x` comes before, searching from index `j`.
pub open spec fn insert_position(
    rels: Seq<TableRelation>,
    sorted: Seq<usize>,
    x: usize,
    j: int,
) -> int
    decreases sorted.len() - j,
{
    if j < 0 || j >= sorted.len() {
        sorted.len() as int
    } else if entry_before(rels[x as int], rels[sorted[j] as int]) {
        j
    } else {
        insert_position(rels, sorted, x, j + 1)
    }
}

/// The positions of the first `n` relations in template order; relations
/// that neither comes before the other keep their order.
pub open spec fn sorted_positions(rels: Seq<TableRelation>, n: int) -> Seq<usize>
    decreases n,
{
    if n <= 0 {
        Seq::empty()
    } else {
        let prev = sorted_positions(rels, n - 1);
        prev.insert(insert_position(rels, prev, (n - 1) as usize, 0), (n - 1) as usize)
    }
}

pub proof fn lemma_insert_position_bounds(rels: Seq<TableRelation>, sorted: Seq<usize>, x: usize, j: int)
    requires
        0 <= j <= sorted.len(),
    ensures
        j <= insert_position(rels, sorted, x, j) <= sorted.len(),
    decreases sorted.len() - j,
{
    if j < sorted.len() && !entry_before(rels[x as int], rels[sorted[j] as int]) {
        lemma_insert_position_bounds(rels, sorted, x, j + 1);
    }
}

pub proof fn lemma_sorted_positions_in_range(rels: Seq<TableRelation>, n: int)
    requires
        0 <= n <= rels.len(),
    ensures
        sorted_positions(rels, n).len() == n,
        forall|k: int| 0 <= k < n ==> #[trigger] sorted_positions(rels, n)[k] < n,
    decreases n,
{
    if n > 0 {
        lemma_sorted_positions_in_range(rels, n - 1);
        let prev = sorted_positions(rels, n - 1);
        lemma_insert_position_bounds(rels, prev, (n - 1) as usize, 0);
        let p = insert_position(rels, prev, (n - 1) as usize, 0);
        assert forall|k: int| 0 <= k < n implies #[trigger] sorted_positions(rels, n)[k] < n by {
            if k < p {
                assert(sorted_positions(rels, n)[k] == prev[k]);
            } else if k > p {
                assert(sorted_positions(rels, n)[k] == prev[k - 1]);
            }
        }
    }
}

fn sort_positions(rels: &Vec<TableRelation>) -> (r: Vec<usize>)
    ensures
        r@ == sorted_positions(rels@, rels@.len() as int),
        forall|k: int| 0 <= k < r@.len() ==> #[trigger] r@[k] < rels@.len(),
{
    let mut sorted: Vec<usize> = Vec::new();
    let mut n: usize = 0;
    while n < rels.len()
        invariant
            n <= rels@.len(),
            sorted@ == sorted_positions(rels@, n as int),
        decreases rels@.len() - n,
    {
        proof {
            lemma_sorted_positions_in_range(rels@, n as int);
        }
        let mut j: usize = 0;
        while j < sorted.len() && !entry_before_exec(&rels[n], &rels[sorted[j]])
            invariant
                n < rels@.len(),
                j <= sorted@.len(),
                sorted@ == sorted_positions(rels@, n as int),
                forall|k: int| 0 <= k < sorted@.len() ==> #[trigger] sorted@[k] < n,
                insert_position(rels@, sorted@, n, 0) == insert_position(
                    rels@,
                    sorted@,
                    n,
                    j as int,
                ),
            decreases sorted@.len() - j,
        {
            j = j + 1;
        }
        sorted.insert(j, n);
        n = n + 1;
    }
    proof {
        lemma_sorted_positions_in_range(rels@, rels@.len() as int);
    }
    sorted
}

// ---------------------------------------------------------------------------
// Template entries
// ---------------------------------------------------------------------------

/// A confidence in hundredths written with two decimals.
pub open spec fn fixed2(c: u32) -> Seq<char> {
    dec((c / 100) as nat) + seq!['.', digit_char(((c % 100) / 10) as nat), digit_char((c % 10) as nat)]
}

/// The note written into a template entry for where its relation came from.
pub open spec fn template_comment_seq(r: TableRelation) -> Seq<char> {
    match r.source {
        RelationSource::DatabaseFk => "数据库真实外键，已导出为可编辑关系。"@,
        RelationSource::Uploaded => "来自已有关系文件，可继续编辑。"@,
        RelationSource::Manual => "手工关系，可继续编辑。"@,
        RelationSource::Inferred => "弱关系推断，置信度 "@ + fixed2(r.confidence)
            + "；请确认后保留，误判可删除。"@,
    }
}

pub fn relation_template_comment(relation: &TableRelation) -> (r: String)
    ensures
        r@ == template_comment_seq(*relation),
{
    match relation.source {
        RelationSource::DatabaseFk => owned("数据库真实外键，已导出为可编辑关系。"),
        RelationSource::Uploaded => owned("来自已有关系文件，可继续编辑。"),
        RelationSource::Manual => owned("手工关系，可继续编辑。"),
        RelationSource::Inferred => {
            let c = relation.confidence;
            let mut r = owned("弱关系推断，置信度 ");
            push_dec(&mut r, (c / 100) as usize);
            push_char(&mut r, '.');
            push_char(&mut r, (48u8 + ((c % 100) / 10) as u8) as char);
            push_char(&mut r, (48u8 + (c % 10) as u8) as char);
            push_str(&mut r, "；请确认后保留，误判可删除。");
            proof {
                assert(((48u8 + ((c % 100) / 10) as u8) as char) == digit_char(
                    ((c % 100) / 10) as nat,
                ));
                assert(((48u8 + (c % 10) as u8) as char) == digit_char((c % 10) as nat));
            }
            assert(r@ =~= template_comment_seq(*relation));
            r
        },
    }
}

/// A template entry is made from a relation: its note, its columns, its type
/// name, source `uploaded`, the confidence only for an inferred relation, and
/// its description.
pub open spec fn template_item_of(item: RelationTemplateItem, r: TableRelation) -> bool {
    &&& item._comment@ == template_comment_seq(r)
    &&& item.source_table@ == r.source_table@
    &&& item.source_column@ == r.source_column@
    &&& item.target_table@ == r.target_table@
    &&& item.target_column@ == r.target_column@
    &&& item.relation_type@ == type_label_seq(r.relation_type)
    &&& item.source@ == "uploaded"@
    &&& item.confidence == if r.source == RelationSource::Inferred {
        Some(r.confidence)
    } else {
        None
    }
    &&& item.description@ == r.description@
}

pub fn relation_template_item(relation: &TableRelation) -> (r: RelationTemplateItem)
    ensures
        template_item_of(r, *relation),
{
    RelationTemplateItem {
        _comment: relation_template_comment(relation),
        source_table: relation.source_table.clone(),
        source_column: relation.source_column.clone(),
        target_table: relation.target_table.clone(),
        target_column: relation.target_column.clone(),
        relation_type: owned(relation_type_label(&relation.relation_type)),
        source: owned("uploaded"),
        confidence: if relation.source == RelationSource::Inferred {
            Some(relation.confidence)
        } else {
            None
        },
        description: relation.description.clone(),
    }
}

/// The template entries of a schema: one per relation, in template order.
pub open spec fn template_items_spec(
    database: DatabaseSchema,
    items: Seq<RelationTemplateItem>,
) -> bool {
    let order = sorted_positions(database.relations@, database.relations@.len() as int);
    &&& items.len() == order.len()
    &&& forall|k: int|
        0 <= k < items.len() ==> template_item_of(
            #[trigger] items[k],
            database.relations@[order[k] as int],
        )
}

pub fn relation_template_items(database: &DatabaseSchema) -> (r: Vec<RelationTemplateItem>)
    ensures
        template_items_spec(*database, r@),
{
    let order = sort_positions(&database.relations);
    let mut items: Vec<RelationTemplateItem> = Vec::new();
    let mut k: usize = 0;
    while k < order.len()
        invariant
            k <= order@.len(),
            order@ == sorted_positions(database.relations@, database.relations@.len() as int),
            forall|j: int| 0 <= j < order@.len() ==> #[trigger] order@[j] < database.relations@.len(),
            items@.len() == k,
            forall|j: int|
                0 <= j < k ==> template_item_of(
                    #[trigger] items@[j],
                    database.relations@[order@[j] as int],
                ),
        decreases order@.len() - k,
    {
        let item = relation_template_item(&database.relations[order[k]]);
        items.push(item);
        k = k + 1;
    }
    items
}

} // verus!
