//! Layout of entity-relationship diagrams: the order in which tables are
//! placed, the grid they are placed on and where each relation endpoint meets
//! its table.

use vstd::prelude::*;
use crate::model::{Column, Table, TableRelation};
use crate::naming::{find_table, find_table_exec, lemma_find_table_from_bounds, seqs};
use crate::template::{compare_chars, seq_lt};
use crate::text::{chars_eq, chars_of, owned, take_chars};

verus! {

/// Width of a table node.
pub const ER_NODE_WIDTH: usize = 280;

/// Least height of a table node.
pub const ER_NODE_MIN_HEIGHT: usize = 168;

/// Height of one column row.
pub const ER_COLUMN_HEIGHT: usize = 30;

/// Height of a node's title bar.
pub const ER_NODE_TITLE_HEIGHT: usize = 48;

/// Height of one line of a table comment.
pub const ER_NODE_COMMENT_LINE_HEIGHT: usize = 24;

/// Vertical padding of the column list.
pub const ER_NODE_VERTICAL_PADDING: usize = 34;

/// Horizontal gap between grid columns.
pub const ER_NODE_GAP_X: usize = 80;

/// Vertical gap between stacked nodes.
pub const ER_NODE_GAP_Y: usize = 64;

/// Fewest grid columns.
pub const ER_GRID_MIN_COLUMNS: usize = 3;

/// Most grid columns.
pub const ER_GRID_MAX_COLUMNS: usize = 8;

/// Left edge of the first grid column.
pub const ER_START_X: usize = 32;

/// Top edge of every grid column.
pub const ER_START_Y: usize = 96;

// ---------------------------------------------------------------------------
// Grid and node sizes
// ---------------------------------------------------------------------------

/// Grid columns for `n` tables: one per started group of 15 tables, but no
/// fewer than three and no more than eight.
pub open spec fn grid_columns_of(n: int) -> int {
    let c = n / 15 + if n % 15 == 0 {
        0int
    } else {
        1int
    };
    if c < ER_GRID_MIN_COLUMNS {
        ER_GRID_MIN_COLUMNS as int
    } else if c > ER_GRID_MAX_COLUMNS {
        ER_GRID_MAX_COLUMNS as int
    } else {
        c
    }
}

/// The number of grid columns for `table_count` tables.
pub fn er_grid_columns(table_count: usize) -> (r: usize)
    ensures
        r == grid_columns_of(table_count as int),
        ER_GRID_MIN_COLUMNS <= r <= ER_GRID_MAX_COLUMNS,
{
    if table_count <= ER_GRID_MIN_COLUMNS {
        return ER_GRID_MIN_COLUMNS;
    }
    let extra: usize = if table_count % 15 == 0 {
        0
    } else {
        1
    };
    let c = table_count / 15 + extra;
    if c < ER_GRID_MIN_COLUMNS {
        ER_GRID_MIN_COLUMNS
    } else if c > ER_GRID_MAX_COLUMNS {
        ER_GRID_MAX_COLUMNS
    } else {
        c
    }
}

/// Lines taken by a table comment: none without a comment, else one per 24
/// characters, rounded up past a full line.
pub open spec fn comment_lines(t: Table) -> int {
    if t.comment@.len() == 0 {
        0
    } else {
        (t.comment@.len() / 24 + 1) as int
    }
}

/// Height of a node's title, padding, comment and columns.
pub open spec fn content_height(t: Table) -> int {
    ER_NODE_TITLE_HEIGHT + ER_NODE_VERTICAL_PADDING + comment_lines(t) * ER_NODE_COMMENT_LINE_HEIGHT
        + t.columns@.len() * ER_COLUMN_HEIGHT
}

/// Height of a table node: its content, but at least the least node height.
pub open spec fn node_height(t: Table) -> int {
    if content_height(t) < ER_NODE_MIN_HEIGHT {
        ER_NODE_MIN_HEIGHT as int
    } else {
        content_height(t)
    }
}

/// The height of the node drawn for `table`.
pub fn er_node_height(table: &Table) -> (r: usize)
    requires
        content_height(*table) <= usize::MAX,
    ensures
        r == node_height(*table),
{
    let n = chars_of(table.comment.as_str()).len();
    let lines: usize = if n == 0 {
        0
    } else {
        n / 24 + 1
    };
    let h = ER_NODE_TITLE_HEIGHT + ER_NODE_VERTICAL_PADDING + lines * ER_NODE_COMMENT_LINE_HEIGHT
        + table.columns.len() * ER_COLUMN_HEIGHT;
    if h < ER_NODE_MIN_HEIGHT {
        ER_NODE_MIN_HEIGHT
    } else {
        h
    }
}

/// The tallest node height among `tables` (0 for none).
pub open spec fn er_max_height(tables: Seq<Table>) -> int
    decreases tables.len(),
{
    if tables.len() == 0 {
        0
    } else {
        let m = er_max_height(tables.drop_last());
        let h = node_height(tables.last());
        if h > m {
            h
        } else {
            m
        }
    }
}

/// Every coordinate of a diagram of `tables` fits in a `usize`: all nodes
/// stacked in one column, with the canvas margin below, stay in range.
pub open spec fn er_fits(tables: Seq<Table>) -> bool {
    ER_START_Y + 80 + tables.len() * (er_max_height(tables) + ER_NODE_GAP_Y) <= usize::MAX
}

pub proof fn lemma_max_height(tables: Seq<Table>, i: int)
    requires
        0 <= i < tables.len(),
    ensures
        content_height(tables[i]) <= node_height(tables[i]) <= er_max_height(tables),
        er_max_height(tables) >= 0,
    decreases tables.len(),
{
    if i < tables.len() - 1 {
        lemma_max_height(tables.drop_last(), i);
    }
}

proof fn lemma_mul_mono(a: int, b: int, m: int)
    requires
        0 <= a <= b,
        0 <= m,
    ensures
        a * m <= b * m,
{
    assert(a * m <= b * m) by (nonlinear_arith)
        requires
            0 <= a <= b,
            0 <= m,
    ;
}

// ---------------------------------------------------------------------------
// Links between present tables
// ---------------------------------------------------------------------------

/// The names of `tables`, in order.
pub open spec fn table_names(tables: Seq<Table>) -> Seq<Seq<char>> {
    tables.map_values(|t: Table| t.name@)
}

/// The endpoints of the relations whose both tables are present, in order.
pub open spec fn er_links(tables: Seq<Table>, rels: Seq<TableRelation>) -> Seq<
    (Seq<char>, Seq<char>),
>
    decreases rels.len(),
{
    if rels.len() == 0 {
        Seq::empty()
    } else {
        let r = rels.last();
        let prev = er_links(tables, rels.drop_last());
        if find_table(tables, r.source_table@) is Some && find_table(tables, r.target_table@) is Some {
            prev.push((r.source_table@, r.target_table@))
        } else {
            prev
        }
    }
}

/// The characters of pairs of character vectors.
pub open spec fn link_views(v: Seq<(Vec<char>, Vec<char>)>) -> Seq<(Seq<char>, Seq<char>)> {
    v.map_values(|p: (Vec<char>, Vec<char>)| (p.0@, p.1@))
}

/// How many link endpoints are `x`: a link from `x` to itself counts twice.
pub open spec fn link_degree(links: Seq<(Seq<char>, Seq<char>)>, x: Seq<char>) -> int
    decreases links.len(),
{
    if links.len() == 0 {
        0
    } else {
        link_degree(links.drop_last(), x) + (if links.last().0 == x {
            1int
        } else {
            0int
        }) + (if links.last().1 == x {
            1int
        } else {
            0int
        })
    }
}

/// The other endpoints of the links at `x`, in link order.
pub open spec fn link_adjacent(links: Seq<(Seq<char>, Seq<char>)>, x: Seq<char>) -> Seq<Seq<char>>
    decreases links.len(),
{
    if links.len() == 0 {
        Seq::empty()
    } else {
        let p = link_adjacent(links.drop_last(), x);
        let (s, t) = links.last();
        let p1 = if s == x {
            p.push(t)
        } else {
            p
        };
        if t == x {
            p1.push(s)
        } else {
            p1
        }
    }
}

/// `s` with every later repetition of a name dropped.
pub open spec fn dedup_seq(s: Seq<Seq<char>>) -> Seq<Seq<char>>
    decreases s.len(),
{
    if s.len() == 0 {
        s
    } else {
        let d = dedup_seq(s.drop_last());
        if d.contains(s.last()) {
            d
        } else {
            d.push(s.last())
        }
    }
}

// ---------------------------------------------------------------------------
// Ordering by degree
// ---------------------------------------------------------------------------

/// `a` goes before `b`: it has more links, or, where `by_name` holds, as many
/// links and a smaller name.
pub open spec fn er_before(links: Seq<(Seq<char>, Seq<char>)>, by_name: bool) -> spec_fn(
    Seq<char>,
    Seq<char>,
) -> bool {
    |a: Seq<char>, b: Seq<char>|
        link_degree(links, a) > link_degree(links, b) || (by_name && link_degree(links, a)
            == link_degree(links, b) && seq_lt(a, b))
}

/// The first position from `j` on whose element `x` goes before.
pub open spec fn first_after<A>(sorted: Seq<A>, x: A, before: spec_fn(A, A) -> bool, j: int) -> int
    decreases sorted.len() - j,
{
    if j < 0 || j >= sorted.len() {
        sorted.len() as int
    } else if before(x, sorted[j]) {
        j
    } else {
        first_after(sorted, x, before, j + 1)
    }
}

/// `x` put in front of the first element of `sorted` that it goes before.
pub open spec fn insert_by<A>(sorted: Seq<A>, x: A, before: spec_fn(A, A) -> bool) -> Seq<A> {
    sorted.insert(first_after(sorted, x, before, 0), x)
}

/// `s` sorted by `before`, elements that neither goes before keeping their
/// order.
pub open spec fn sort_by<A>(s: Seq<A>, before: spec_fn(A, A) -> bool) -> Seq<A>
    decreases s.len(),
{
    if s.len() == 0 {
        s
    } else {
        insert_by(sort_by(s.drop_last(), before), s.last(), before)
    }
}

pub proof fn lemma_first_after_bounds<A>(sorted: Seq<A>, x: A, before: spec_fn(A, A) -> bool, j: int)
    requires
        0 <= j <= sorted.len(),
    ensures
        j <= first_after(sorted, x, before, j) <= sorted.len(),
    decreases sorted.len() - j,
{
    if j < sorted.len() && !before(x, sorted[j]) {
        lemma_first_after_bounds(sorted, x, before, j + 1);
    }
}

/// Sorting keeps exactly the elements of `s`.
pub proof fn lemma_sort_by_contains<A>(s: Seq<A>, before: spec_fn(A, A) -> bool)
    ensures
        sort_by(s, before).len() == s.len(),
        forall|y: A| sort_by(s, before).contains(y) <==> s.contains(y),
    decreases s.len(),
{
    if s.len() > 0 {
        let prev = sort_by(s.drop_last(), before);
        lemma_sort_by_contains(s.drop_last(), before);
        lemma_first_after_bounds(prev, s.last(), before, 0);
        let p = first_after(prev, s.last(), before, 0);
        let r = prev.insert(p, s.last());
        assert forall|y: A| r.contains(y) <==> s.contains(y) by {
            if r.contains(y) {
                let k = choose|k: int| 0 <= k < r.len() && r[k] == y;
                if k < p {
                    assert(prev[k] == y);
                    assert(s.drop_last().contains(y));
                    let m = choose|m: int| 0 <= m < s.drop_last().len() && s.drop_last()[m] == y;
                    assert(s[m] == y);
                } else if k == p {
                    assert(s[s.len() - 1] == y);
                } else {
                    assert(prev[k - 1] == y);
                    assert(s.drop_last().contains(y));
                    let m = choose|m: int| 0 <= m < s.drop_last().len() && s.drop_last()[m] == y;
                    assert(s[m] == y);
                }
            }
            if s.contains(y) {
                let m = choose|m: int| 0 <= m < s.len() && s[m] == y;
                if m == s.len() - 1 {
                    assert(r[p] == y);
                } else {
                    assert(s.drop_last()[m] == y);
                    assert(s.drop_last().contains(y));
                    assert(prev.contains(y));
                    let k = choose|k: int| 0 <= k < prev.len() && prev[k] == y;
                    if k < p {
                        assert(r[k] == y);
                    } else {
                        assert(r[k + 1] == y);
                    }
                }
            }
        }
    }
}

/// Dropping repetitions keeps only elements of `s`.
pub proof fn lemma_dedup_contains(s: Seq<Seq<char>>)
    ensures
        forall|y: Seq<char>| dedup_seq(s).contains(y) ==> s.contains(y),
    decreases s.len(),
{
    if s.len() > 0 {
        lemma_dedup_contains(s.drop_last());
        let d = dedup_seq(s.drop_last());
        assert forall|y: Seq<char>| dedup_seq(s).contains(y) implies s.contains(y) by {
            if d.contains(y) {
                assert(s.drop_last().contains(y));
                let m = choose|m: int| 0 <= m < s.drop_last().len() && s.drop_last()[m] == y;
                assert(s[m] == y);
            } else {
                assert(y == s.last());
                assert(s[s.len() - 1] == y);
            }
        }
    }
}

/// The neighbours of `x`: each table linked to it once, those with more links
/// first and those with as many links by name.
pub open spec fn er_neighbors(links: Seq<(Seq<char>, Seq<char>)>, x: Seq<char>) -> Seq<Seq<char>> {
    sort_by(dedup_seq(link_adjacent(links, x)), er_before(links, true))
}

/// The names walked from: all table names, those with more links first, in
/// table order among equals.
pub open spec fn er_seeds(tables: Seq<Table>, links: Seq<(Seq<char>, Seq<char>)>) -> Seq<
    Seq<char>,
> {
    sort_by(table_names(tables), er_before(links, false))
}

// ---------------------------------------------------------------------------
// Depth-first walk
// ---------------------------------------------------------------------------

/// The state of the walk: the next seed to take, the names still to visit
/// (the last one first) and the names visited, in visiting order.
pub struct ErWalk {
    pub next: int,
    pub stack: Seq<Seq<char>>,
    pub visited: Seq<Seq<char>>,
}

/// `stack` with the names of `nbrs` that are not in `visited` pushed, the last
/// one first, so that the first is taken first.
pub open spec fn push_unvisited(
    stack: Seq<Seq<char>>,
    nbrs: Seq<Seq<char>>,
    visited: Seq<Seq<char>>,
) -> Seq<Seq<char>>
    decreases nbrs.len(),
{
    if nbrs.len() == 0 {
        stack
    } else {
        let rest = push_unvisited(stack, nbrs.drop_first(), visited);
        if visited.contains(nbrs[0]) {
            rest
        } else {
            rest.push(nbrs[0])
        }
    }
}

/// One step of the walk: take the name on top of the stack, and visit it
/// unless it was visited, pushing its unvisited neighbours; with an empty
/// stack, start from the next seed unless it was visited.
pub open spec fn er_walk_step(
    links: Seq<(Seq<char>, Seq<char>)>,
    seeds: Seq<Seq<char>>,
    w: ErWalk,
) -> ErWalk {
    if w.stack.len() > 0 {
        let x = w.stack.last();
        let rest = w.stack.drop_last();
        if w.visited.contains(x) {
            ErWalk { next: w.next, stack: rest, visited: w.visited }
        } else {
            let v = w.visited.push(x);
            ErWalk { next: w.next, stack: push_unvisited(rest, er_neighbors(links, x), v), visited: v }
        }
    } else if 0 <= w.next < seeds.len() {
        let s = seeds[w.next];
        if w.visited.contains(s) {
            ErWalk { next: w.next + 1, stack: w.stack, visited: w.visited }
        } else {
            ErWalk { next: w.next + 1, stack: seq![s], visited: w.visited }
        }
    } else {
        w
    }
}

/// The walk after `k` steps.
pub open spec fn er_walk(links: Seq<(Seq<char>, Seq<char>)>, seeds: Seq<Seq<char>>, k: nat) -> ErWalk
    decreases k,
{
    if k == 0 {
        ErWalk { next: 0, stack: Seq::empty(), visited: Seq::empty() }
    } else {
        er_walk_step(links, seeds, er_walk(links, seeds, (k - 1) as nat))
    }
}

/// The walk has taken every seed and emptied its stack.
pub open spec fn walk_done(seeds: Seq<Seq<char>>, w: ErWalk) -> bool {
    w.stack.len() == 0 && w.next >= seeds.len()
}

/// The names of the tables in diagram order: a depth-first walk over the
/// links, from the seeds in order.
pub open spec fn er_order(tables: Seq<Table>, rels: Seq<TableRelation>) -> Seq<Seq<char>> {
    let links = er_links(tables, rels);
    let seeds = er_seeds(tables, links);
    er_walk(links, seeds, choose|k: nat| walk_done(seeds, #[trigger] er_walk(links, seeds, k))).visited
}

/// A finished walk stays as it is.
pub proof fn lemma_walk_done_stays(
    links: Seq<(Seq<char>, Seq<char>)>,
    seeds: Seq<Seq<char>>,
    k1: nat,
    k2: nat,
)
    requires
        k1 <= k2,
        walk_done(seeds, er_walk(links, seeds, k1)),
    ensures
        er_walk(links, seeds, k2) == er_walk(links, seeds, k1),
    decreases k2 - k1,
{
    if k1 < k2 {
        lemma_walk_done_stays(links, seeds, k1, (k2 - 1) as nat);
    }
}

/// The last table named `x`.
pub open spec fn last_table(tables: Seq<Table>, x: Seq<char>) -> Option<int>
    decreases tables.len(),
{
    if tables.len() == 0 {
        None
    } else if tables.last().name@ == x {
        Some(tables.len() - 1)
    } else {
        last_table(tables.drop_last(), x)
    }
}

pub proof fn lemma_last_table(tables: Seq<Table>, x: Seq<char>)
    ensures
        last_table(tables, x) matches Some(p) ==> 0 <= p < tables.len() && tables[p].name@ == x,
        table_names(tables).contains(x) ==> last_table(tables, x) is Some,
    decreases tables.len(),
{
    if tables.len() > 0 {
        lemma_last_table(tables.drop_last(), x);
        if table_names(tables).contains(x) && tables.last().name@ != x {
            let m = choose|m: int| 0 <= m < tables.len() && table_names(tables)[m] == x;
            assert(table_names(tables.drop_last())[m] == x);
        }
    }
}

/// The position in `tables` of the table drawn for each name of the order:
/// the last table of that name.
pub open spec fn er_order_positions(tables: Seq<Table>, rels: Seq<TableRelation>) -> Seq<int> {
    er_order(tables, rels).map_values(|x: Seq<char>| last_table(tables, x)->0)
}

// ---------------------------------------------------------------------------
// Executable walk
// ---------------------------------------------------------------------------

fn copy_chars(v: &[char]) -> (r: Vec<char>)
    ensures
        r@ == v@,
{
    let r = take_chars(v, v.len());
    assert(v@.take(v@.len() as int) =~= v@);
    r
}

fn contains_name(v: &Vec<Vec<char>>, x: &[char]) -> (r: bool)
    ensures
        r == seqs(v@).contains(x@),
{
    let mut i: usize = 0;
    while i < v.len()
        invariant
            i <= v@.len(),
            forall|j: int| 0 <= j < i ==> seqs(v@)[j] != x@,
        decreases v@.len() - i,
    {
        if chars_eq(v[i].as_slice(), x) {
            assert(seqs(v@)[i as int] == x@);
            return true;
        }
        i = i + 1;
    }
    false
}

fn er_links_exec(tables: &[Table], relations: &[TableRelation]) -> (r: Vec<(Vec<char>, Vec<char>)>)
    ensures
        link_views(r@) == er_links(tables@, relations@),
{
    let mut r: Vec<(Vec<char>, Vec<char>)> = Vec::new();
    let mut i: usize = 0;
    assert(relations@.take(0) =~= Seq::<TableRelation>::empty());
    assert(link_views(r@) =~= Seq::<(Seq<char>, Seq<char>)>::empty());
    while i < relations.len()
        invariant
            i <= relations@.len(),
            link_views(r@) == er_links(tables@, relations@.take(i as int)),
        decreases relations@.len() - i,
    {
        let rel = &relations[i];
        assert(relations@.take(i + 1).drop_last() =~= relations@.take(i as int));
        assert(relations@.take(i + 1).last() == relations@[i as int]);
        let s = find_table_exec(tables, rel.source_table.as_str());
        let t = find_table_exec(tables, rel.target_table.as_str());
        if s.is_some() && t.is_some() {
            let ghost before = r@;
            r.push((chars_of(rel.source_table.as_str()), chars_of(rel.target_table.as_str())));
            assert(link_views(r@) =~= link_views(before).push(
                (rel.source_table@, rel.target_table@),
            ));
        }
        i = i + 1;
    }
    assert(relations@.take(relations@.len() as int) =~= relations@);
    r
}

fn link_degree_exec(links: &Vec<(Vec<char>, Vec<char>)>, x: &[char]) -> (r: u128)
    ensures
        r == link_degree(link_views(links@), x@),
{
    let ghost lv = link_views(links@);
    let mut d: u128 = 0;
    let mut i: usize = 0;
    assert(lv.take(0) =~= Seq::<(Seq<char>, Seq<char>)>::empty());
    while i < links.len()
        invariant
            lv == link_views(links@),
            i <= links@.len(),
            d == link_degree(lv.take(i as int), x@),
            d <= 2 * i,
        decreases links@.len() - i,
    {
        assert(lv.take(i + 1).drop_last() =~= lv.take(i as int));
        assert(lv.take(i + 1).last() == (links@[i as int].0@, links@[i as int].1@));
        if chars_eq(links[i].0.as_slice(), x) {
            d = d + 1;
        }
        if chars_eq(links[i].1.as_slice(), x) {
            d = d + 1;
        }
        i = i + 1;
    }
    assert(lv.take(links@.len() as int) =~= lv);
    d
}

fn link_adjacent_exec(links: &Vec<(Vec<char>, Vec<char>)>, x: &[char]) -> (r: Vec<Vec<char>>)
    ensures
        seqs(r@) == link_adjacent(link_views(links@), x@),
{
    let ghost lv = link_views(links@);
    let mut r: Vec<Vec<char>> = Vec::new();
    let mut i: usize = 0;
    assert(lv.take(0) =~= Seq::<(Seq<char>, Seq<char>)>::empty());
    assert(seqs(r@) =~= Seq::<Seq<char>>::empty());
    while i < links.len()
        invariant
            lv == link_views(links@),
            i <= links@.len(),
            seqs(r@) == link_adjacent(lv.take(i as int), x@),
        decreases links@.len() - i,
    {
        assert(lv.take(i + 1).drop_last() =~= lv.take(i as int));
        assert(lv.take(i + 1).last() == (links@[i as int].0@, links@[i as int].1@));
        let ghost r0 = r@;
        if chars_eq(links[i].0.as_slice(), x) {
            r.push(copy_chars(links[i].1.as_slice()));
            assert(seqs(r@) =~= seqs(r0).push(links@[i as int].1@));
        }
        let ghost r1 = r@;
        if chars_eq(links[i].1.as_slice(), x) {
            r.push(copy_chars(links[i].0.as_slice()));
            assert(seqs(r@) =~= seqs(r1).push(links@[i as int].0@));
        }
        i = i + 1;
    }
    assert(lv.take(links@.len() as int) =~= lv);
    r
}

fn dedup_exec(v: &Vec<Vec<char>>) -> (r: Vec<Vec<char>>)
    ensures
        seqs(r@) == dedup_seq(seqs(v@)),
{
    let ghost sv = seqs(v@);
    let mut r: Vec<Vec<char>> = Vec::new();
    let mut i: usize = 0;
    assert(sv.take(0) =~= Seq::<Seq<char>>::empty());
    assert(seqs(r@) =~= Seq::<Seq<char>>::empty());
    while i < v.len()
        invariant
            sv == seqs(v@),
            i <= v@.len(),
            seqs(r@) == dedup_seq(sv.take(i as int)),
        decreases v@.len() - i,
    {
        assert(sv.take(i + 1).drop_last() =~= sv.take(i as int));
        assert(sv.take(i + 1).last() == v@[i as int]@);
        if !contains_name(&r, v[i].as_slice()) {
            let ghost r0 = r@;
            r.push(copy_chars(v[i].as_slice()));
            assert(seqs(r@) =~= seqs(r0).push(v@[i as int]@));
        }
        i = i + 1;
    }
    assert(sv.take(v@.len() as int) =~= sv);
    r
}

fn er_before_exec(links: &Vec<(Vec<char>, Vec<char>)>, a: &[char], b: &[char], by_name: bool) -> (r:
    bool)
    ensures
        r == (er_before(link_views(links@), by_name))(a@, b@),
{
    let da = link_degree_exec(links, a);
    let db = link_degree_exec(links, b);
    if da > db {
        true
    } else if by_name && da == db {
        compare_chars(a, b) == -1
    } else {
        false
    }
}

fn sort_names_exec(links: &Vec<(Vec<char>, Vec<char>)>, v: &Vec<Vec<char>>, by_name: bool) -> (r:
    Vec<Vec<char>>)
    ensures
        seqs(r@) == sort_by(seqs(v@), er_before(link_views(links@), by_name)),
{
    let ghost sv = seqs(v@);
    let ghost before = er_before(link_views(links@), by_name);
    let mut r: Vec<Vec<char>> = Vec::new();
    let mut i: usize = 0;
    assert(sv.take(0) =~= Seq::<Seq<char>>::empty());
    assert(seqs(r@) =~= Seq::<Seq<char>>::empty());
    while i < v.len()
        invariant
            sv == seqs(v@),
            before == er_before(link_views(links@), by_name),
            i <= v@.len(),
            seqs(r@) == sort_by(sv.take(i as int), before),
        decreases v@.len() - i,
    {
        assert(sv.take(i + 1).drop_last() =~= sv.take(i as int));
        assert(sv.take(i + 1).last() == v@[i as int]@);
        let x = copy_chars(v[i].as_slice());
        let mut j: usize = 0;
        while j < r.len() && !er_before_exec(links, x.as_slice(), r[j].as_slice(), by_name)
            invariant
                before == er_before(link_views(links@), by_name),
                j <= r@.len(),
                first_after(seqs(r@), x@, before, 0) == first_after(seqs(r@), x@, before, j as int),
            decreases r@.len() - j,
        {
            j = j + 1;
        }
        let ghost r0 = r@;
        r.insert(j, x);
        assert(seqs(r@) =~= seqs(r0).insert(j as int, x@));
        i = i + 1;
    }
    assert(sv.take(v@.len() as int) =~= sv);
    r
}

fn er_neighbors_exec(links: &Vec<(Vec<char>, Vec<char>)>, x: &[char]) -> (r: Vec<Vec<char>>)
    ensures
        seqs(r@) == er_neighbors(link_views(links@), x@),
{
    let adjacent = link_adjacent_exec(links, x);
    let distinct = dedup_exec(&adjacent);
    sort_names_exec(links, &distinct, true)
}

fn last_table_exec(tables: &[Table], x: &[char]) -> (r: Option<usize>)
    ensures
        match r {
            Some(p) => last_table(tables@, x@) == Some(p as int),
            None => last_table(tables@, x@) is None,
        },
{
    let mut i: usize = tables.len();
    assert(tables@.take(i as int) =~= tables@);
    while i > 0
        invariant
            i <= tables@.len(),
            last_table(tables@, x@) == last_table(tables@.take(i as int), x@),
        decreases i,
    {
        assert(tables@.take(i as int).drop_last() =~= tables@.take(i - 1));
        let name = chars_of(tables[i - 1].name.as_str());
        if chars_eq(name.as_slice(), x) {
            return Some(i - 1);
        }
        i = i - 1;
    }
    None
}

/// Every name of the walk belongs to a table.
pub open spec fn all_named(tables: Seq<Table>, s: Seq<Seq<char>>) -> bool {
    forall|j: int| 0 <= j < s.len() ==> table_names(tables).contains(#[trigger] s[j])
}

pub proof fn lemma_links_named(tables: Seq<Table>, rels: Seq<TableRelation>)
    ensures
        forall|j: int|
            0 <= j < er_links(tables, rels).len() ==> table_names(tables).contains(
                (#[trigger] er_links(tables, rels)[j]).0,
            ) && table_names(tables).contains(er_links(tables, rels)[j].1),
    decreases rels.len(),
{
    if rels.len() > 0 {
        lemma_links_named(tables, rels.drop_last());
        let r = rels.last();
        let prev = er_links(tables, rels.drop_last());
        if find_table(tables, r.source_table@) is Some && find_table(tables, r.target_table@) is Some {
            lemma_find_table_from_bounds(tables, r.source_table@, 0);
            lemma_find_table_from_bounds(tables, r.target_table@, 0);
            let a = find_table(tables, r.source_table@)->0;
            let b = find_table(tables, r.target_table@)->0;
            assert(table_names(tables)[a] == r.source_table@);
            assert(table_names(tables)[b] == r.target_table@);
            assert forall|j: int| 0 <= j < er_links(tables, rels).len() implies table_names(
                tables,
            ).contains((#[trigger] er_links(tables, rels)[j]).0) && table_names(tables).contains(
                er_links(tables, rels)[j].1,
            ) by {
                if j < prev.len() {
                    assert(er_links(tables, rels)[j] == prev[j]);
                }
            }
        }
    }
}

pub proof fn lemma_adjacent_named(
    tables: Seq<Table>,
    links: Seq<(Seq<char>, Seq<char>)>,
    x: Seq<char>,
)
    requires
        forall|j: int|
            0 <= j < links.len() ==> table_names(tables).contains((#[trigger] links[j]).0)
                && table_names(tables).contains(links[j].1),
    ensures
        all_named(tables, link_adjacent(links, x)),
    decreases links.len(),
{
    if links.len() > 0 {
        assert forall|j: int| 0 <= j < links.drop_last().len() implies table_names(tables).contains(
            (#[trigger] links.drop_last()[j]).0,
        ) && table_names(tables).contains(links.drop_last()[j].1) by {
            assert(links.drop_last()[j] == links[j]);
        }
        lemma_adjacent_named(tables, links.drop_last(), x);
        assert(links[links.len() - 1] == links.last());
    }
}

pub proof fn lemma_neighbors_named(
    tables: Seq<Table>,
    links: Seq<(Seq<char>, Seq<char>)>,
    x: Seq<char>,
)
    requires
        forall|j: int|
            0 <= j < links.len() ==> table_names(tables).contains((#[trigger] links[j]).0)
                && table_names(tables).contains(links[j].1),
    ensures
        all_named(tables, er_neighbors(links, x)),
{
    let adj = link_adjacent(links, x);
    lemma_adjacent_named(tables, links, x);
    lemma_dedup_contains(adj);
    lemma_sort_by_contains(dedup_seq(adj), er_before(links, true));
    assert forall|j: int| 0 <= j < er_neighbors(links, x).len() implies table_names(
        tables,
    ).contains(#[trigger] er_neighbors(links, x)[j]) by {
        let y = er_neighbors(links, x)[j];
        assert(er_neighbors(links, x).contains(y));
        assert(dedup_seq(adj).contains(y));
        assert(adj.contains(y));
        let m = choose|m: int| 0 <= m < adj.len() && adj[m] == y;
        assert(table_names(tables).contains(adj[m]));
    }
}

/// A name list without repetitions, all of table names, is no longer than
/// the table list.
pub proof fn lemma_distinct_names_bound(tables: Seq<Table>, v: Seq<Seq<char>>)
    requires
        v.no_duplicates(),
        all_named(tables, v),
    ensures
        v.len() <= tables.len(),
{
    let names = table_names(tables);
    v.unique_seq_to_set();
    names.lemma_cardinality_of_set();
    vstd::seq_lib::seq_to_set_is_finite(names);
    assert forall|y: Seq<char>| v.to_set().contains(y) implies names.to_set().contains(y) by {
        let j = choose|j: int| 0 <= j < v.len() && v[j] == y;
        assert(all_named(tables, v));
        assert(names.contains(v[j]));
    }
    vstd::set_lib::lemma_len_subset(v.to_set(), names.to_set());
}

proof fn lemma_push_unvisited_step(
    stack: Seq<Seq<char>>,
    nbrs: Seq<Seq<char>>,
    visited: Seq<Seq<char>>,
    j: int,
)
    requires
        0 < j <= nbrs.len(),
    ensures
        push_unvisited(stack, nbrs.subrange(j - 1, nbrs.len() as int), visited) == if visited.contains(
            nbrs[j - 1],
        ) {
            push_unvisited(stack, nbrs.subrange(j, nbrs.len() as int), visited)
        } else {
            push_unvisited(stack, nbrs.subrange(j, nbrs.len() as int), visited).push(nbrs[j - 1])
        },
{
    assert(nbrs.subrange(j - 1, nbrs.len() as int).drop_first() =~= nbrs.subrange(
        j,
        nbrs.len() as int,
    ));
}

proof fn lemma_push_unvisited_named(
    tables: Seq<Table>,
    stack: Seq<Seq<char>>,
    nbrs: Seq<Seq<char>>,
    visited: Seq<Seq<char>>,
)
    requires
        all_named(tables, stack),
        all_named(tables, nbrs),
    ensures
        all_named(tables, push_unvisited(stack, nbrs, visited)),
    decreases nbrs.len(),
{
    if nbrs.len() > 0 {
        assert forall|j: int| 0 <= j < nbrs.drop_first().len() implies table_names(tables).contains(
            #[trigger] nbrs.drop_first()[j],
        ) by {
            assert(nbrs.drop_first()[j] == nbrs[j + 1]);
        }
        lemma_push_unvisited_named(tables, stack, nbrs.drop_first(), visited);
        assert(table_names(tables).contains(nbrs[0]));
    }
}

/// Every seed taken so far was visited or waits on the stack.
pub open spec fn walk_covers(seeds: Seq<Seq<char>>, w: ErWalk) -> bool {
    forall|j: int|
        0 <= j < w.next && j < seeds.len() ==> w.visited.contains(#[trigger] seeds[j])
            || w.stack.contains(seeds[j])
}

proof fn lemma_push_unvisited_keeps(
    stack: Seq<Seq<char>>,
    nbrs: Seq<Seq<char>>,
    visited: Seq<Seq<char>>,
    y: Seq<char>,
)
    requires
        stack.contains(y),
    ensures
        push_unvisited(stack, nbrs, visited).contains(y),
    decreases nbrs.len(),
{
    if nbrs.len() > 0 {
        lemma_push_unvisited_keeps(stack, nbrs.drop_first(), visited, y);
        let rest = push_unvisited(stack, nbrs.drop_first(), visited);
        if !visited.contains(nbrs[0]) {
            let m = choose|m: int| 0 <= m < rest.len() && rest[m] == y;
            assert(rest.push(nbrs[0])[m] == y);
        }
    }
}

proof fn lemma_step_covers(links: Seq<(Seq<char>, Seq<char>)>, seeds: Seq<Seq<char>>, w: ErWalk)
    requires
        walk_covers(seeds, w),
    ensures
        walk_covers(seeds, er_walk_step(links, seeds, w)),
{
    let w2 = er_walk_step(links, seeds, w);
    if w.stack.len() > 0 {
        let x = w.stack.last();
        let rest = w.stack.drop_last();
        assert forall|j: int| 0 <= j < w2.next && j < seeds.len() implies w2.visited.contains(
            #[trigger] seeds[j],
        ) || w2.stack.contains(seeds[j]) by {
            let y = seeds[j];
            if w.visited.contains(y) {
                if !w.visited.contains(x) {
                    let m = choose|m: int| 0 <= m < w.visited.len() && w.visited[m] == y;
                    assert(w.visited.push(x)[m] == y);
                }
            } else {
                assert(w.stack.contains(y));
                let m = choose|m: int| 0 <= m < w.stack.len() && w.stack[m] == y;
                if m == w.stack.len() - 1 {
                    if !w.visited.contains(x) {
                        assert(w.visited.push(x)[w.visited.len() as int] == y);
                    }
                } else {
                    assert(rest[m] == y);
                    if !w.visited.contains(x) {
                        lemma_push_unvisited_keeps(
                            rest,
                            er_neighbors(links, x),
                            w.visited.push(x),
                            y,
                        );
                    }
                }
            }
        }
    } else if 0 <= w.next < seeds.len() {
        assert(seq![seeds[w.next]][0] == seeds[w.next]);
    }
}

/// The tables in diagram order, as positions in `tables`: a depth-first walk
/// over the relations between present tables, taking the tables with more
/// relations first, and from each table its neighbours with more relations
/// first, by name among equals.
pub fn er_ordered_tables(tables: &[Table], relations: &[TableRelation]) -> (r: Vec<usize>)
    ensures
        r@.len() == er_order_positions(tables@, relations@).len(),
        forall|k: int|
            0 <= k < r@.len() ==> r@[k] as int == #[trigger] er_order_positions(tables@, relations@)[k]
                && r@[k] < tables@.len() && tables@[r@[k] as int].name@ == er_order(
                tables@,
                relations@,
            )[k],
        er_order(tables@, relations@).no_duplicates(),
        all_named(tables@, er_order(tables@, relations@)),
        er_order(tables@, relations@).len() <= tables@.len(),
        forall|x: Seq<char>|
            table_names(tables@).contains(x) ==> #[trigger] er_order(tables@, relations@).contains(x),
{
    let links = er_links_exec(tables, relations);
    let ghost lv = link_views(links@);
    proof {
        lemma_links_named(tables@, relations@);
    }
    let mut names: Vec<Vec<char>> = Vec::new();
    let mut n: usize = 0;
    while n < tables.len()
        invariant
            n <= tables@.len(),
            seqs(names@) == table_names(tables@).take(n as int),
        decreases tables@.len() - n,
    {
        let ghost before = names@;
        names.push(chars_of(tables[n].name.as_str()));
        assert(seqs(names@) =~= seqs(before).push(tables@[n as int].name@));
        assert(table_names(tables@).take(n + 1) =~= table_names(tables@).take(n as int).push(
            tables@[n as int].name@,
        ));
        n = n + 1;
    }
    assert(table_names(tables@).take(tables@.len() as int) =~= table_names(tables@));
    let seeds = sort_names_exec(&links, &names, false);
    let ghost sd = seqs(seeds@);
    proof {
        lemma_sort_by_contains(table_names(tables@), er_before(lv, false));
        assert forall|j: int| 0 <= j < sd.len() implies table_names(tables@).contains(
            #[trigger] sd[j],
        ) by {
            assert(sd.contains(sd[j]));
        }
    }
    let mut visited: Vec<Vec<char>> = Vec::new();
    let mut stack: Vec<Vec<char>> = Vec::new();
    let ghost mut k: nat = 0;
    let mut i: usize = 0;
    assert(seqs(stack@) =~= Seq::<Seq<char>>::empty());
    assert(seqs(visited@) =~= Seq::<Seq<char>>::empty());
    while i < seeds.len()
        invariant
            lv == link_views(links@),
            sd == seqs(seeds@),
            sd == er_seeds(tables@, lv),
            lv == er_links(tables@, relations@),
            all_named(tables@, sd),
            forall|j: int|
                0 <= j < lv.len() ==> table_names(tables@).contains((#[trigger] lv[j]).0)
                    && table_names(tables@).contains(lv[j].1),
            i <= seeds@.len(),
            stack@.len() == 0,
            er_walk(lv, sd, k) == (ErWalk {
                next: i as int,
                stack: seqs(stack@),
                visited: seqs(visited@),
            }),
            seqs(visited@).no_duplicates(),
            all_named(tables@, seqs(visited@)),
            walk_covers(sd, er_walk(lv, sd, k)),
        decreases seeds@.len() - i,
    {
        if !contains_name(&visited, seeds[i].as_slice()) {
            let ghost s0 = seqs(stack@);
            stack.push(copy_chars(seeds[i].as_slice()));
            proof {
                assert(seqs(stack@) =~= seq![sd[i as int]]);
                lemma_step_covers(lv, sd, er_walk(lv, sd, k));
                k = k + 1;
                assert(all_named(tables@, seqs(stack@))) by {
                    assert(seqs(stack@)[0] == sd[i as int]);
                }
                lemma_distinct_names_bound(tables@, seqs(visited@));
            }
            while stack.len() > 0
                invariant
                    lv == link_views(links@),
                    sd == seqs(seeds@),
                    forall|j: int|
                        0 <= j < lv.len() ==> table_names(tables@).contains((#[trigger] lv[j]).0)
                            && table_names(tables@).contains(lv[j].1),
                    i < seeds@.len(),
                    er_walk(lv, sd, k) == (ErWalk {
                        next: i + 1,
                        stack: seqs(stack@),
                        visited: seqs(visited@),
                    }),
                    seqs(visited@).no_duplicates(),
                    all_named(tables@, seqs(visited@)),
                    all_named(tables@, seqs(stack@)),
                    visited@.len() <= tables@.len(),
                    walk_covers(sd, er_walk(lv, sd, k)),
                decreases tables@.len() - visited@.len(), stack@.len(),
            {
                let ghost w = er_walk(lv, sd, k);
                let x = stack.pop().unwrap();
                let ghost rest = seqs(stack@);
                proof {
                    assert(rest =~= w.stack.drop_last());
                    assert(x@ == w.stack.last());
                    assert forall|j: int| 0 <= j < rest.len() implies table_names(tables@).contains(
                        #[trigger] rest[j],
                    ) by {
                        assert(rest[j] == w.stack[j]);
                    }
                }
                if contains_name(&visited, x.as_slice()) {
                    proof {
                        lemma_step_covers(lv, sd, er_walk(lv, sd, k));
                        k = k + 1;
                    }
                } else {
                    let nb = er_neighbors_exec(&links, x.as_slice());
                    proof {
                        lemma_neighbors_named(tables@, lv, x@);
                    }
                    let ghost v0 = seqs(visited@);
                    visited.push(x);
                    let ghost v1 = seqs(visited@);
                    proof {
                        assert(v1 =~= v0.push(w.stack.last()));
                        assert(w.stack.last() == w.stack[w.stack.len() - 1]);
                        assert(table_names(tables@).contains(v1[v1.len() - 1]));
                        assert(all_named(tables@, v1)) by {
                            assert forall|j: int| 0 <= j < v1.len() implies table_names(
                                tables@,
                            ).contains(#[trigger] v1[j]) by {
                                if j < v0.len() {
                                    assert(v1[j] == v0[j]);
                                }
                            }
                        }
                        assert(v1.no_duplicates()) by {
                            assert forall|a: int, b: int|
                                0 <= a < v1.len() && 0 <= b < v1.len() && a != b implies v1[a]
                                != v1[b] by {
                                if a < v0.len() && b < v0.len() {
                                    assert(v1[a] == v0[a] && v1[b] == v0[b]);
                                } else if a < v0.len() {
                                    assert(v0.contains(v0[a]));
                                } else {
                                    assert(v0.contains(v0[b]));
                                }
                            }
                        }
                        lemma_distinct_names_bound(tables@, v1);
                    }
                    let ghost nbs = seqs(nb@);
                    let mut j: usize = nb.len();
                    assert(nbs.subrange(nbs.len() as int, nbs.len() as int) =~= Seq::<
                        Seq<char>,
                    >::empty());
                    while j > 0
                        invariant
                            nbs == seqs(nb@),
                            j <= nb@.len(),
                            v1 == seqs(visited@),
                            seqs(stack@) == push_unvisited(
                                rest,
                                nbs.subrange(j as int, nbs.len() as int),
                                v1,
                            ),
                        decreases j,
                    {
                        proof {
                            lemma_push_unvisited_step(rest, nbs, v1, j as int);
                        }
                        let ghost s1 = seqs(stack@);
                        if !contains_name(&visited, nb[j - 1].as_slice()) {
                            stack.push(copy_chars(nb[j - 1].as_slice()));
                            assert(seqs(stack@) =~= s1.push(nbs[j - 1]));
                        }
                        j = j - 1;
                    }
                    proof {
                        assert(nbs.subrange(0, nbs.len() as int) =~= nbs);
                        lemma_push_unvisited_named(tables@, rest, nbs, v1);
                        lemma_step_covers(lv, sd, er_walk(lv, sd, k));
                        k = k + 1;
                    }
                }
            }
        } else {
            proof {
                lemma_step_covers(lv, sd, er_walk(lv, sd, k));
                k = k + 1;
            }
        }
        i = i + 1;
    }
    let ghost wk = er_walk(lv, sd, k);
    proof {
        assert(walk_done(sd, wk));
        let kc = choose|kk: nat| walk_done(sd, #[trigger] er_walk(lv, sd, kk));
        assert(walk_done(sd, er_walk(lv, sd, kc)));
        if kc <= k {
            lemma_walk_done_stays(lv, sd, kc, k);
        } else {
            lemma_walk_done_stays(lv, sd, k, kc);
        }
        assert(er_order(tables@, relations@) == seqs(visited@));
        lemma_sort_by_contains(table_names(tables@), er_before(lv, false));
        assert forall|x: Seq<char>| table_names(tables@).contains(x) implies #[trigger] er_order(
            tables@,
            relations@,
        ).contains(x) by {
            assert(sd.contains(x));
            let j = choose|j: int| 0 <= j < sd.len() && sd[j] == x;
            assert(wk.visited.contains(sd[j]) || wk.stack.contains(sd[j]));
        }
    }
    let mut r: Vec<usize> = Vec::new();
    let mut m: usize = 0;
    while m < visited.len()
        invariant
            m <= visited@.len(),
            er_order(tables@, relations@) == seqs(visited@),
            all_named(tables@, seqs(visited@)),
            r@.len() == m,
            forall|q: int|
                0 <= q < m ==> r@[q] as int == #[trigger] er_order_positions(tables@, relations@)[q]
                    && r@[q] < tables@.len() && tables@[r@[q] as int].name@ == er_order(
                    tables@,
                    relations@,
                )[q],
        decreases visited@.len() - m,
    {
        proof {
            lemma_last_table(tables@, visited@[m as int]@);
            assert(table_names(tables@).contains(seqs(visited@)[m as int]));
        }
        let p = last_table_exec(tables, visited[m].as_slice());
        r.push(p.unwrap());
        m = m + 1;
    }
    proof {
        lemma_distinct_names_bound(tables@, seqs(visited@));
    }
    r
}

// ---------------------------------------------------------------------------
// Node positions
// ---------------------------------------------------------------------------

/// Where a table node stands on the canvas.
#[derive(Clone, Copy, Debug)]
pub struct ErNodePosition {
    pub x: usize,
    pub y: usize,
    pub height: usize,
}

/// The node of one table name.
#[derive(Clone, Debug)]
pub struct ErNode {
    pub name: String,
    pub position: ErNodePosition,
}

/// The nodes of a diagram, in diagram order.
#[derive(Clone, Debug)]
pub struct ErNodePositions {
    pub nodes: Vec<ErNode>,
}

/// The position of the first node named `name`, from index `i` on.
pub open spec fn node_named_from(nodes: Seq<ErNode>, name: Seq<char>, i: int) -> Option<
    ErNodePosition,
>
    decreases nodes.len() - i,
{
    if i < 0 || i >= nodes.len() {
        None
    } else if nodes[i].name@ == name {
        Some(nodes[i].position)
    } else {
        node_named_from(nodes, name, i + 1)
    }
}

impl ErNodePositions {
    /// The position of the node of table `name`.
    pub fn get(&self, name: &str) -> (r: Option<ErNodePosition>)
        ensures
            r == node_named_from(self.nodes@, name@, 0),
    {
        let mut i: usize = 0;
        while i < self.nodes.len()
            invariant
                i <= self.nodes@.len(),
                node_named_from(self.nodes@, name@, 0) == node_named_from(
                    self.nodes@,
                    name@,
                    i as int,
                ),
            decreases self.nodes@.len() - i,
        {
            if crate::text::str_eq(self.nodes[i].name.as_str(), name) {
                return Some(self.nodes[i].position);
            }
            i = i + 1;
        }
        None
    }
}

/// The node heights of the tables in diagram order.
pub open spec fn er_heights(tables: Seq<Table>, rels: Seq<TableRelation>) -> Seq<int> {
    er_order_positions(tables, rels).map_values(|p: int| node_height(tables[p]))
}

/// The top of grid column `c` once the first `k` nodes are placed: the start
/// height plus, for each of them placed in that column, its height and the
/// gap below it.
pub open spec fn column_top(hs: Seq<int>, g: int, c: int, k: int) -> int
    decreases k,
{
    if k <= 0 {
        ER_START_Y as int
    } else {
        column_top(hs, g, c, k - 1) + if (k - 1) % g == c {
            hs[k - 1] + ER_NODE_GAP_Y
        } else {
            0int
        }
    }
}

/// The left edge of the `k`-th node: nodes go round the `g` grid columns.
pub open spec fn node_x(g: int, k: int) -> int {
    ER_START_X + (k % g) * (ER_NODE_WIDTH + ER_NODE_GAP_X)
}

/// The node placed `k`-th: in grid column `k % g`, below the nodes placed
/// there before it.
pub open spec fn placed_at(tables: Seq<Table>, rels: Seq<TableRelation>, k: int, node: ErNode) -> bool {
    let g = grid_columns_of(tables.len() as int);
    let hs = er_heights(tables, rels);
    &&& node.name@ == er_order(tables, rels)[k]
    &&& node.position.x == node_x(g, k)
    &&& node.position.y == column_top(hs, g, k % g, k)
    &&& node.position.height == hs[k]
}

proof fn lemma_column_top_bound(hs: Seq<int>, g: int, c: int, k: int, m: int)
    requires
        g > 0,
        0 <= k <= hs.len(),
        m >= 0,
        forall|j: int| 0 <= j < hs.len() ==> 0 <= #[trigger] hs[j] <= m,
    ensures
        ER_START_Y <= column_top(hs, g, c, k) <= ER_START_Y + k * (m + ER_NODE_GAP_Y),
    decreases k,
{
    if k > 0 {
        lemma_column_top_bound(hs, g, c, k - 1, m);
        assert((k - 1) * (m + 64) + (m + 64) == k * (m + 64)) by (nonlinear_arith);
    }
}

/// The node positions of a diagram: the tables in diagram order, placed
/// round the grid columns, each below the nodes placed in its column before.
pub fn er_node_positions(tables: &[Table], relations: &[TableRelation]) -> (r: ErNodePositions)
    requires
        er_fits(tables@),
    ensures
        r.nodes@.len() == er_order(tables@, relations@).len(),
        forall|k: int|
            0 <= k < r.nodes@.len() ==> placed_at(tables@, relations@, k, #[trigger] r.nodes@[k])
                && er_bounded(tables@, r.nodes@[k].position),
{
    let order = er_ordered_tables(tables, relations);
    let g = er_grid_columns(tables.len());
    let ghost hs = er_heights(tables@, relations@);
    let ghost mx = er_max_height(tables@);
    let ghost n = tables@.len() as int;
    proof {
        if n > 0 {
            lemma_max_height(tables@, 0);
        }
        assert forall|j: int| 0 <= j < hs.len() implies 0 <= #[trigger] hs[j] <= mx by {
            let pj = er_order_positions(tables@, relations@)[j];
            assert(order@[j] as int == pj && order@[j] < tables@.len());
            lemma_max_height(tables@, pj);
        }
    }
    let mut bottoms: Vec<usize> = Vec::new();
    while bottoms.len() < g
        invariant
            bottoms@.len() <= g,
            forall|c: int| 0 <= c < bottoms@.len() ==> bottoms@[c] == ER_START_Y,
        decreases g - bottoms@.len(),
    {
        bottoms.push(ER_START_Y);
    }
    let mut nodes: Vec<ErNode> = Vec::new();
    let mut k: usize = 0;
    while k < order.len()
        invariant
            g == grid_columns_of(n),
            3 <= g <= 8,
            n == tables@.len(),
            er_fits(tables@),
            mx == er_max_height(tables@),
            mx >= 0,
            hs == er_heights(tables@, relations@),
            hs.len() == order@.len(),
            order@.len() <= n,
            forall|j: int| 0 <= j < hs.len() ==> 0 <= #[trigger] hs[j] <= mx,
            forall|j: int|
                0 <= j < order@.len() ==> order@[j] as int == #[trigger] er_order_positions(
                    tables@,
                    relations@,
                )[j] && order@[j] < tables@.len() && tables@[order@[j] as int].name@ == er_order(
                    tables@,
                    relations@,
                )[j],
            k <= order@.len(),
            bottoms@.len() == g,
            forall|c: int| 0 <= c < g ==> #[trigger] bottoms@[c] == column_top(hs, g as int, c, k as int),
            nodes@.len() == k,
            forall|q: int|
                0 <= q < k ==> placed_at(tables@, relations@, q, #[trigger] nodes@[q]) && er_bounded(
                    tables@,
                    nodes@[q].position,
                ),
        decreases order@.len() - k,
    {
        let p = order[k];
        proof {
            let pk = er_order_positions(tables@, relations@)[k as int];
            assert(p as int == pk && p < tables@.len());
        }
        let t = &tables[p];
        let col = k % g;
        assert(col < g);
        proof {
            lemma_max_height(tables@, p as int);
            lemma_column_top_bound(hs, g as int, col as int, k as int, mx);
            lemma_mul_mono(k + 1, n, mx + 64);
            lemma_mul_mono(1, n, mx + 64);
            assert(hs[k as int] == node_height(tables@[p as int]));
            assert((k + 1) * (mx + 64) == k * (mx + 64) + mx + 64) by (nonlinear_arith);
            assert(col * (ER_NODE_WIDTH + ER_NODE_GAP_X) <= 7 * 360) by (nonlinear_arith)
                requires
                    col < 8,
                    ER_NODE_WIDTH + ER_NODE_GAP_X == 360,
            ;
        }
        let x = ER_START_X + col * (ER_NODE_WIDTH + ER_NODE_GAP_X);
        let y = bottoms[col];
        let h = er_node_height(t);
        let next = y + h + ER_NODE_GAP_Y;
        let ghost b0 = bottoms@;
        bottoms.set(col, next);
        proof {
            assert forall|c: int| 0 <= c < g implies #[trigger] bottoms@[c] == column_top(
                hs,
                g as int,
                c,
                k + 1,
            ) by {
                if c == col {
                    assert(bottoms@[c] == next);
                } else {
                    assert(bottoms@[c] == b0[c]);
                }
            }
        }
        let node = ErNode { name: owned(t.name.as_str()), position: ErNodePosition { x, y, height: h } };
        nodes.push(node);
        k = k + 1;
    }
    ErNodePositions { nodes }
}

// ---------------------------------------------------------------------------
// Relation anchors
// ---------------------------------------------------------------------------

/// The index of the first column named `name`, from index `k` on.
pub open spec fn find_column_from(cols: Seq<Column>, name: Seq<char>, k: int) -> Option<int>
    decreases cols.len() - k,
{
    if k < 0 || k >= cols.len() {
        None
    } else if cols[k].name@ == name {
        Some(k)
    } else {
        find_column_from(cols, name, k + 1)
    }
}

/// Where a relation endpoint meets its node: the middle of the row of its
/// column in the first table of that name, or the middle of the node when
/// there is no such table or column.
pub open spec fn anchor_y(tables: Seq<Table>, rel: TableRelation, source: bool, p: ErNodePosition) -> int {
    let table_name = if source {
        rel.source_table@
    } else {
        rel.target_table@
    };
    let column_name = if source {
        rel.source_column@
    } else {
        rel.target_column@
    };
    let middle = p.y + p.height / 2;
    match find_table(tables, table_name) {
        Some(ti) => match find_column_from(tables[ti].columns@, column_name, 0) {
            Some(ci) => p.y + ER_NODE_TITLE_HEIGHT + ER_NODE_VERTICAL_PADDING / 2 + comment_lines(
                tables[ti],
            ) * ER_NODE_COMMENT_LINE_HEIGHT + ci * ER_COLUMN_HEIGHT + ER_COLUMN_HEIGHT / 2,
            None => middle,
        },
        None => middle,
    }
}

pub proof fn lemma_find_column_bounds(cols: Seq<Column>, name: Seq<char>, k: int)
    ensures
        find_column_from(cols, name, k) matches Some(i) ==> k <= i < cols.len() && cols[i].name@
            == name,
    decreases cols.len() - k,
{
    if 0 <= k < cols.len() && cols[k].name@ != name {
        lemma_find_column_bounds(cols, name, k + 1);
    }
}

/// The height at which a relation endpoint meets the node at `position`.
pub fn er_column_anchor_y(
    tables: &[Table],
    relation: &TableRelation,
    source: bool,
    position: &ErNodePosition,
) -> (r: usize)
    requires
        anchor_y(tables@, *relation, source, *position) <= usize::MAX,
    ensures
        r == anchor_y(tables@, *relation, source, *position),
{
    let (table_name, column_name) = if source {
        (relation.source_table.as_str(), relation.source_column.as_str())
    } else {
        (relation.target_table.as_str(), relation.target_column.as_str())
    };
    let ti = match find_table_exec(tables, table_name) {
        Some(ti) => ti,
        None => {
            return position.y + position.height / 2;
        },
    };
    proof {
        lemma_find_table_from_bounds(tables@, table_name@, 0);
    }
    let table = &tables[ti];
    let mut ci: usize = 0;
    while ci < table.columns.len() && !crate::text::str_eq(
        table.columns[ci].name.as_str(),
        column_name,
    )
        invariant
            ci <= table.columns@.len(),
            find_column_from(table.columns@, column_name@, 0) == find_column_from(
                table.columns@,
                column_name@,
                ci as int,
            ),
        decreases table.columns@.len() - ci,
    {
        ci = ci + 1;
    }
    if ci == table.columns.len() {
        return position.y + position.height / 2;
    }
    let n = chars_of(table.comment.as_str()).len();
    let lines: usize = if n == 0 {
        0
    } else {
        n / 24 + 1
    };
    position.y + ER_NODE_TITLE_HEIGHT + ER_NODE_VERTICAL_PADDING / 2 + lines
        * ER_NODE_COMMENT_LINE_HEIGHT + ci * ER_COLUMN_HEIGHT + ER_COLUMN_HEIGHT / 2
}

/// The position of the `k`-th node of the diagram order.
pub open spec fn er_place(tables: Seq<Table>, rels: Seq<TableRelation>, k: int) -> ErNodePosition {
    let g = grid_columns_of(tables.len() as int);
    let hs = er_heights(tables, rels);
    ErNodePosition {
        x: node_x(g, k) as usize,
        y: column_top(hs, g, k % g, k) as usize,
        height: hs[k] as usize,
    }
}

/// The first position of `name` in `order`, from index `k` on.
pub open spec fn index_of_from(order: Seq<Seq<char>>, name: Seq<char>, k: int) -> Option<int>
    decreases order.len() - k,
{
    if k < 0 || k >= order.len() {
        None
    } else if order[k] == name {
        Some(k)
    } else {
        index_of_from(order, name, k + 1)
    }
}

/// The position of the node of table `name`, if it has one.
pub open spec fn er_lookup(tables: Seq<Table>, rels: Seq<TableRelation>, name: Seq<char>) -> Option<
    ErNodePosition,
> {
    match index_of_from(er_order(tables, rels), name, 0) {
        Some(k) => Some(er_place(tables, rels, k)),
        None => None,
    }
}

/// A node position inside the bounds that `er_fits` keeps in range.
pub open spec fn er_bounded(tables: Seq<Table>, p: ErNodePosition) -> bool {
    let m = er_max_height(tables);
    &&& p.x + ER_NODE_WIDTH <= ER_START_X + 8 * (ER_NODE_WIDTH + ER_NODE_GAP_X)
    &&& p.height <= m
    &&& p.y + m + ER_NODE_GAP_Y <= ER_START_Y + tables.len() * (m + ER_NODE_GAP_Y)
}

/// Looking a name up among the placed nodes gives its spec position.
pub proof fn lemma_lookup_nodes(
    tables: Seq<Table>,
    rels: Seq<TableRelation>,
    nodes: Seq<ErNode>,
    name: Seq<char>,
    i: int,
)
    requires
        nodes.len() == er_order(tables, rels).len(),
        forall|k: int|
            0 <= k < nodes.len() ==> placed_at(tables, rels, k, #[trigger] nodes[k]) && er_bounded(
                tables,
                nodes[k].position,
            ),
        0 <= i <= nodes.len(),
    ensures
        node_named_from(nodes, name, i) == match index_of_from(er_order(tables, rels), name, i) {
            Some(k) => Some(er_place(tables, rels, k)),
            None => None,
        },
        node_named_from(nodes, name, i) matches Some(p) ==> er_bounded(tables, p),
    decreases nodes.len() - i,
{
    if i < nodes.len() {
        assert(placed_at(tables, rels, i, nodes[i]));
        if nodes[i].name@ != name {
            lemma_lookup_nodes(tables, rels, nodes, name, i + 1);
        } else {
            assert(nodes[i].position == er_place(tables, rels, i));
        }
    }
}

/// A relation end meets its node no lower than the node's bound.
pub proof fn lemma_anchor_bounded(tables: Seq<Table>, r: TableRelation, source: bool, p: ErNodePosition)
    requires
        er_bounded(tables, p),
        er_fits(tables),
    ensures
        anchor_y(tables, r, source, p) + ER_NODE_GAP_Y <= ER_START_Y + tables.len() * (
        er_max_height(tables) + ER_NODE_GAP_Y),
{
    let table_name = if source {
        r.source_table@
    } else {
        r.target_table@
    };
    let column_name = if source {
        r.source_column@
    } else {
        r.target_column@
    };
    lemma_find_table_from_bounds(tables, table_name, 0);
    if let Some(ti) = find_table(tables, table_name) {
        lemma_max_height(tables, ti);
        lemma_find_column_bounds(tables[ti].columns@, column_name, 0);
    }
}

/// Nodes placed in the same grid column never overlap: a later one starts at
/// least one vertical gap below the bottom of an earlier one.
pub proof fn lemma_stacked_nodes_apart(tables: Seq<Table>, rels: Seq<TableRelation>, k1: int, k2: int)
    requires
        0 <= k1 < k2 < er_order(tables, rels).len(),
        k1 % grid_columns_of(tables.len() as int) == k2 % grid_columns_of(tables.len() as int),
    ensures
        column_top(
            er_heights(tables, rels),
            grid_columns_of(tables.len() as int),
            k2 % grid_columns_of(tables.len() as int),
            k2,
        ) >= column_top(
            er_heights(tables, rels),
            grid_columns_of(tables.len() as int),
            k1 % grid_columns_of(tables.len() as int),
            k1,
        ) + er_heights(tables, rels)[k1] + ER_NODE_GAP_Y,
    decreases k2 - k1,
{
    let g = grid_columns_of(tables.len() as int);
    let hs = er_heights(tables, rels);
    let c = k1 % g;
    assert(hs[k2 - 1] >= ER_NODE_MIN_HEIGHT);
    if k2 - 1 > k1 {
        lemma_column_top_mono(hs, g, c, k1 + 1, k2);
    }
}

/// No two nodes of a diagram overlap: nodes in different grid columns stand
/// at least a node width and a horizontal gap apart, and a node placed after
/// another in the same column starts at least a vertical gap below it.
pub proof fn lemma_nodes_never_overlap(tables: Seq<Table>, rels: Seq<TableRelation>, k1: int, k2: int)
    requires
        0 <= k1 < k2 < er_order(tables, rels).len(),
    ensures
        ({
            let g = grid_columns_of(tables.len() as int);
            let hs = er_heights(tables, rels);
            ||| node_x(g, k1) + ER_NODE_WIDTH + ER_NODE_GAP_X <= node_x(g, k2)
            ||| node_x(g, k2) + ER_NODE_WIDTH + ER_NODE_GAP_X <= node_x(g, k1)
            ||| column_top(hs, g, k2 % g, k2) >= column_top(hs, g, k1 % g, k1) + hs[k1]
                + ER_NODE_GAP_Y
        }),
{
    let g = grid_columns_of(tables.len() as int);
    if k1 % g == k2 % g {
        lemma_stacked_nodes_apart(tables, rels, k1, k2);
    }
}

proof fn lemma_column_top_mono(hs: Seq<int>, g: int, c: int, k1: int, k2: int)
    requires
        0 <= k1 <= k2 <= hs.len(),
        forall|j: int| 0 <= j < hs.len() ==> #[trigger] hs[j] >= 0,
    ensures
        column_top(hs, g, c, k1) <= column_top(hs, g, c, k2),
    decreases k2 - k1,
{
    if k1 < k2 {
        lemma_column_top_mono(hs, g, c, k1, k2 - 1);
    }
}

// ---------------------------------------------------------------------------
// Range check
// ---------------------------------------------------------------------------

fn node_height_wide(table: &Table) -> (r: u128)
    ensures
        r == node_height(*table),
        r <= 0x1_0000_0000_0000_0000_0000,
{
    let n = chars_of(table.comment.as_str()).len();
    let lines: u128 = if n == 0 {
        0
    } else {
        (n / 24 + 1) as u128
    };
    let h: u128 = 48 + 34 + lines * 24 + (table.columns.len() as u128) * 30;
    if h < 168 {
        168
    } else {
        h
    }
}

/// Whether every coordinate of a diagram of `tables` fits in a `usize`.
pub fn er_layout_fits(tables: &[Table]) -> (r: bool)
    ensures
        r == er_fits(tables@),
{
    let mut m: u128 = 0;
    let mut i: usize = 0;
    assert(tables@.take(0) =~= Seq::<Table>::empty());
    while i < tables.len()
        invariant
            i <= tables@.len(),
            m == er_max_height(tables@.take(i as int)),
            m <= 0x10_0000_0000_0000_0000_0000,
        decreases tables@.len() - i,
    {
        let h = node_height_wide(&tables[i]);
        assert(tables@.take(i + 1).drop_last() =~= tables@.take(i as int));
        if h > m {
            m = h;
        }
        i = i + 1;
    }
    assert(tables@.take(tables@.len() as int) =~= tables@);
    let n = tables.len() as u128;
    let limit: u128 = (usize::MAX as u128) - 176;
    if n == 0 {
        assert(tables@.len() * (er_max_height(tables@) + ER_NODE_GAP_Y) == 0) by (nonlinear_arith)
            requires
                tables@.len() == 0,
        ;
        return true;
    }
    let per_table = m + 64;
    let fits = per_table <= limit / n;
    proof {
        if fits {
            assert(n * per_table <= limit) by (nonlinear_arith)
                requires
                    per_table <= limit / n,
                    n > 0,
            ;
        } else {
            assert(n * per_table > limit) by (nonlinear_arith)
                requires
                    per_table > limit / n,
                    n > 0,
            ;
        }
    }
    fits
}

} // verus!
