//! Names: file-name and anchor sanitising, key and type tests, name tokens,
//! token aliases and the table-name rules that relation discovery relies on.

use vstd::prelude::*;
use crate::model::{views, RelationType, Table};
use crate::text::{
    chars_eq, chars_of, join_seq, lower_chars, lower_seq, owned, push_char, push_chars,
    push_str, str_eq, string_of, sub_chars, take_until, take_until_char, tokens, trim_chars, trim_seq,
    };

verus! {

// ---------------------------------------------------------------------------
// File names, anchors, identifiers
// ---------------------------------------------------------------------------

/// Characters that cannot stand in a file name.
pub open spec fn is_unsafe_file_char(c: char) -> bool {
    c == '/' || c == '\\' || c == ':' || c == '*' || c == '?' || c == '"' || c == '<' || c
        == '>' || c == '|'
}

pub open spec fn safe_char(c: char) -> char {
    if is_unsafe_file_char(c) {
        '_'
    } else {
        c
    }
}

/// `s` with every character that cannot stand in a file name replaced by `_`.
pub open spec fn safe_name_seq(s: Seq<char>) -> Seq<char> {
    s.map_values(|c: char| safe_char(c))
}

fn safe_char_exec(c: char) -> (r: char)
    ensures
        r == safe_char(c),
{
    if c == '/' || c == '\\' || c == ':' || c == '*' || c == '?' || c == '"' || c == '<' || c
        == '>' || c == '|' {
        '_'
    } else {
        c
    }
}

/// Maps every character of `v` through `safe_char`.
fn safe_chars(v: &[char]) -> (r: Vec<char>)
    ensures
        r@ == safe_name_seq(v@),
{
    let mut r: Vec<char> = Vec::new();
    let mut i: usize = 0;
    while i < v.len()
        invariant
            i <= v@.len(),
            r@ == safe_name_seq(v@.take(i as int)),
        decreases v@.len() - i,
    {
        r.push(safe_char_exec(v[i]));
        assert(safe_name_seq(v@.take(i + 1)) =~= safe_name_seq(v@.take(i as int)).push(
            safe_char(v@[i as int]),
        ));
        i = i + 1;
    }
    assert(v@.take(v@.len() as int) == v@);
    r
}

/// A file name made from `value`: path separators and the characters
/// `\ : * ? " < > |` become `_`.
pub fn safe_file_name(value: &str) -> (r: String)
    ensures
        r@ == safe_name_seq(value@),
{
    let v = chars_of(value);
    let s = safe_chars(v.as_slice());
    string_of(s.as_slice())
}

pub open spec fn dash_char(c: char) -> char {
    if c == ' ' || c == '.' {
        '-'
    } else {
        c
    }
}

/// The anchor of a table section: `table-` and the sanitised, trimmed,
/// lower-cased name with blanks and dots turned into dashes.
pub open spec fn anchor_seq(value: Seq<char>) -> Seq<char> {
    "table-"@ + lower_seq(trim_seq(safe_name_seq(value)).map_values(|c: char| dash_char(c)))
}

pub fn anchor_name(value: &str) -> (r: String)
    ensures
        r@ == anchor_seq(value@),
{
    let v = chars_of(value);
    let s = safe_chars(v.as_slice());
    let t = trim_chars(s.as_slice());
    let mut d: Vec<char> = Vec::new();
    let mut i: usize = 0;
    while i < t.len()
        invariant
            i <= t@.len(),
            d@ == t@.take(i as int).map_values(|c: char| dash_char(c)),
        decreases t@.len() - i,
    {
        let c = t[i];
        let m = if c == ' ' || c == '.' {
            '-'
        } else {
            c
        };
        d.push(m);
        assert(t@.take(i + 1).map_values(|c: char| dash_char(c)) =~= t@.take(
            i as int,
        ).map_values(|c: char| dash_char(c)).push(dash_char(t@[i as int])));
        i = i + 1;
    }
    assert(t@.take(t@.len() as int) == t@);
    let l = lower_chars(d.as_slice());
    let mut r = owned("table-");
    push_chars(&mut r, l.as_slice());
    r
}

/// A key column marker that reads `PRI` in any ASCII case.
pub open spec fn is_pk(key: Seq<char>) -> bool {
    lower_seq(key) == seq!['p', 'r', 'i']
}

pub fn is_primary_key(value: &str) -> (r: bool)
    ensures
        r == is_pk(value@),
{
    let v = chars_of(value);
    let l = lower_chars(v.as_slice());
    let pri: Vec<char> = vec!['p', 'r', 'i'];
    let r = chars_eq(l.as_slice(), pri.as_slice());
    assert(pri@ =~= seq!['p', 'r', 'i']);
    r
}

/// The identifier of a relation: the five parts joined by `_`, sanitised as a
/// file name.
pub open spec fn relation_id_seq(
    prefix: Seq<char>,
    source_table: Seq<char>,
    source_column: Seq<char>,
    target_table: Seq<char>,
    target_column: Seq<char>,
) -> Seq<char> {
    safe_name_seq(
        prefix + seq!['_'] + source_table + seq!['_'] + source_column + seq!['_'] + target_table
            + seq!['_'] + target_column,
    )
}

pub fn relation_id(
    prefix: &str,
    source_table: &str,
    source_column: &str,
    target_table: &str,
    target_column: &str,
) -> (r: String)
    ensures
        r@ == relation_id_seq(prefix@, source_table@, source_column@, target_table@, target_column@),
{
    let mut joined = owned(prefix);
    push_char(&mut joined, '_');
    push_str(&mut joined, source_table);
    push_char(&mut joined, '_');
    push_str(&mut joined, source_column);
    push_char(&mut joined, '_');
    push_str(&mut joined, target_table);
    push_char(&mut joined, '_');
    push_str(&mut joined, target_column);
    assert(joined@ =~= prefix@ + seq!['_'] + source_table@ + seq!['_'] + source_column@ + seq![
        '_',
    ] + target_table@ + seq!['_'] + target_column@);
    safe_file_name(joined.as_str())
}

/// The type name of a column type without its size: the trimmed text before
/// `(`, lower-cased.
pub open spec fn normalized_type_seq(value: Seq<char>) -> Seq<char> {
    lower_seq(take_until(trim_seq(value), '('))
}

pub fn normalized_type(value: &str) -> (r: String)
    ensures
        r@ == normalized_type_seq(value@),
{
    let v = chars_of(value);
    let t = trim_chars(v.as_slice());
    let p = take_until_char(t.as_slice(), '(');
    let l = lower_chars(p.as_slice());
    string_of(l.as_slice())
}

// ---------------------------------------------------------------------------
// Keys and indexes
// ---------------------------------------------------------------------------

/// `table` has a unique index made of exactly the column `column`.
pub open spec fn has_unique_single(table: Table, column: Seq<char>) -> bool {
    exists|i: int|
        0 <= i < table.indexes@.len() && #[trigger] table.indexes@[i].unique
            && table.indexes@[i].columns@.len() == 1 && table.indexes@[i].columns@[0]@ == column
}

/// Some index of `table` covers the column `column`.
pub open spec fn has_index_on(table: Table, column: Seq<char>) -> bool {
    exists|i: int, j: int|
        0 <= i < table.indexes@.len() && 0 <= j < table.indexes@[i].columns@.len()
            && #[trigger] table.indexes@[i].columns@[j]@ == column
}

pub fn has_unique_single_column_index(table: &Table, column: &str) -> (r: bool)
    ensures
        r == has_unique_single(*table, column@),
{
    let mut i: usize = 0;
    while i < table.indexes.len()
        invariant
            i <= table.indexes@.len(),
            forall|k: int|
                0 <= k < i ==> !(#[trigger] table.indexes@[k].unique
                    && table.indexes@[k].columns@.len() == 1
                    && table.indexes@[k].columns@[0]@ == column@),
        decreases table.indexes@.len() - i,
    {
        let index = &table.indexes[i];
        if index.unique && index.columns.len() == 1 && str_eq(index.columns[0].as_str(), column) {
            return true;
        }
        i = i + 1;
    }
    false
}

pub fn source_has_index(table: &Table, column: &str) -> (r: bool)
    ensures
        r == has_index_on(*table, column@),
{
    let mut i: usize = 0;
    while i < table.indexes.len()
        invariant
            i <= table.indexes@.len(),
            forall|k: int, j: int|
                0 <= k < i && 0 <= j < table.indexes@[k].columns@.len()
                    ==> #[trigger] table.indexes@[k].columns@[j]@ != column@,
        decreases table.indexes@.len() - i,
    {
        let index = &table.indexes[i];
        let mut j: usize = 0;
        while j < index.columns.len()
            invariant
                i < table.indexes@.len(),
                *index == table.indexes@[i as int],
                j <= index.columns@.len(),
                forall|k: int, j2: int|
                    0 <= k < i && 0 <= j2 < table.indexes@[k].columns@.len()
                        ==> #[trigger] table.indexes@[k].columns@[j2]@ != column@,
                forall|j2: int| 0 <= j2 < j ==> #[trigger] index.columns@[j2]@ != column@,
            decreases index.columns@.len() - j,
        {
            if str_eq(index.columns[j].as_str(), column) {
                return true;
            }
            j = j + 1;
        }
        i = i + 1;
    }
    false
}

/// The index of the first table named `name`, searching from index `k`.
pub open spec fn find_table_from(tables: Seq<Table>, name: Seq<char>, k: int) -> Option<int>
    decreases tables.len() - k,
{
    if k < 0 || k >= tables.len() {
        None
    } else if tables[k].name@ == name {
        Some(k)
    } else {
        find_table_from(tables, name, k + 1)
    }
}

/// The index of the first table named `name`.
pub open spec fn find_table(tables: Seq<Table>, name: Seq<char>) -> Option<int> {
    find_table_from(tables, name, 0)
}

pub proof fn lemma_find_table_from_bounds(tables: Seq<Table>, name: Seq<char>, k: int)
    ensures
        find_table_from(tables, name, k) matches Some(i) ==> k <= i < tables.len()
            && tables[i].name@ == name,
    decreases tables.len() - k,
{
    if 0 <= k < tables.len() && tables[k].name@ != name {
        lemma_find_table_from_bounds(tables, name, k + 1);
    }
}

/// Finds the first table named `name`.
pub fn find_table_exec(tables: &[Table], name: &str) -> (r: Option<usize>)
    ensures
        match r {
            Some(i) => find_table(tables@, name@) == Some(i as int),
            None => find_table(tables@, name@) is None,
        },
{
    let mut i: usize = 0;
    while i < tables.len()
        invariant
            i <= tables@.len(),
            find_table(tables@, name@) == find_table_from(tables@, name@, i as int),
        decreases tables@.len() - i,
    {
        if str_eq(tables[i].name.as_str(), name) {
            return Some(i);
        }
        i = i + 1;
    }
    None
}

/// The cardinality of a relation from `source_table.source_column`: one-to-one
/// when the first table of that name has a unique index on exactly that
/// column, many-to-one otherwise.
pub open spec fn source_relation_type(
    tables: Seq<Table>,
    source_table: Seq<char>,
    source_column: Seq<char>,
) -> RelationType {
    match find_table(tables, source_table) {
        Some(i) => if has_unique_single(tables[i], source_column) {
            RelationType::OneToOne
        } else {
            RelationType::ManyToOne
        },
        None => RelationType::ManyToOne,
    }
}

pub fn relation_type_for_source_column(
    tables: &[Table],
    source_table: &str,
    source_column: &str,
) -> (r: RelationType)
    ensures
        r == source_relation_type(tables@, source_table@, source_column@),
{
    match find_table_exec(tables, source_table) {
        Some(i) => {
            proof {
                lemma_find_table_from_bounds(tables@, source_table@, 0);
            }
            if has_unique_single_column_index(&tables[i], source_column) {
                RelationType::OneToOne
            } else {
                RelationType::ManyToOne
            }
        },
        None => RelationType::ManyToOne,
    }
}

/// The cardinality of a relation into a child table: one-to-one when the
/// child column alone is unique, one-to-many otherwise.
pub open spec fn child_relation_type(target_table: Table, target_column: Seq<char>) -> RelationType {
    if has_unique_single(target_table, target_column) {
        RelationType::OneToOne
    } else {
        RelationType::OneToMany
    }
}

pub fn relation_type_for_target_child_column(target_table: &Table, target_column: &str) -> (r:
    RelationType)
    ensures
        r == child_relation_type(*target_table, target_column@),
{
    if has_unique_single_column_index(target_table, target_column) {
        RelationType::OneToOne
    } else {
        RelationType::OneToMany
    }
}

// ---------------------------------------------------------------------------
// Token aliases
// ---------------------------------------------------------------------------

/// Abbreviation → canonical token pairs; a later pair for the same
/// abbreviation replaces an earlier one.
#[derive(Clone, Debug)]
pub struct RelationAliases {
    pub pairs: Vec<(String, String)>,
}

/// The canonical token for `alias`: the last pair whose abbreviation is `alias`.
pub open spec fn alias_lookup(pairs: Seq<(String, String)>, alias: Seq<char>) -> Option<Seq<char>>
    decreases pairs.len(),
{
    if pairs.len() == 0 {
        None
    } else if pairs.last().0@ == alias {
        Some(pairs.last().1@)
    } else {
        alias_lookup(pairs.drop_last(), alias)
    }
}

impl RelationAliases {
    /// No aliases.
    pub fn new() -> (r: Self)
        ensures
            r.pairs@.len() == 0,
    {
        RelationAliases { pairs: Vec::new() }
    }

    /// Aliases from abbreviation → canonical pairs.
    pub fn from_pairs(pairs: Vec<(String, String)>) -> (r: Self)
        ensures
            r.pairs@ == pairs@,
    {
        RelationAliases { pairs }
    }

    /// The canonical token for `alias`, if any.
    pub fn get(&self, alias: &str) -> (r: Option<&String>)
        ensures
            match r {
                Some(s) => alias_lookup(self.pairs@, alias@) == Some(s@),
                None => alias_lookup(self.pairs@, alias@) is None,
            },
    {
        let key = chars_of(alias);
        self.get_chars(key.as_slice())
    }

    pub(crate) fn get_chars(&self, alias: &[char]) -> (r: Option<&String>)
        ensures
            match r {
                Some(s) => alias_lookup(self.pairs@, alias@) == Some(s@),
                None => alias_lookup(self.pairs@, alias@) is None,
            },
    {
        let mut i: usize = self.pairs.len();
        assert(self.pairs@.take(i as int) =~= self.pairs@);
        while i > 0
            invariant
                i <= self.pairs@.len(),
                alias_lookup(self.pairs@, alias@) == alias_lookup(self.pairs@.take(i as int), alias@),
            decreases i,
        {
            let pair = &self.pairs[i - 1];
            let k = chars_of(pair.0.as_str());
            assert(self.pairs@.take(i as int).drop_last() =~= self.pairs@.take(i - 1));
            if chars_eq(k.as_slice(), alias) {
                return Some(&pair.1);
            }
            i = i - 1;
        }
        None
    }
}

/// The token a lower-cased name token stands for when no alias is configured.
pub open spec fn default_alias_seq(token: Seq<char>) -> Seq<char> {
    if token == "dtl"@ {
        "detail"@
    } else if token == "param"@ || token == "params"@ {
        "parameter"@
    } else {
        token
    }
}

fn default_alias_chars(token: &[char]) -> (r: Vec<char>)
    ensures
        r@ == default_alias_seq(token@),
{
    let dtl = chars_of("dtl");
    let param = chars_of("param");
    let params = chars_of("params");
    if chars_eq(token, dtl.as_slice()) {
        chars_of("detail")
    } else if chars_eq(token, param.as_slice()) || chars_eq(token, params.as_slice()) {
        chars_of("parameter")
    } else {
        let r = sub_chars(token, 0, token.len());
        assert(token@.subrange(0, token@.len() as int) =~= token@);
        r
    }
}

pub fn default_relation_token_alias(token: &str) -> (r: String)
    ensures
        r@ == default_alias_seq(token@),
{
    let v = chars_of(token);
    let d = default_alias_chars(v.as_slice());
    string_of(d.as_slice())
}

/// A name token expanded: lower-cased, then replaced by its canonical token
/// when an alias is configured, else by its default expansion.
pub open spec fn expand_token_seq(token: Seq<char>, pairs: Seq<(String, String)>) -> Seq<char> {
    match alias_lookup(pairs, lower_seq(token)) {
        Some(canonical) => canonical,
        None => default_alias_seq(lower_seq(token)),
    }
}

pub(crate) fn expand_token_chars(token: &[char], aliases: &RelationAliases) -> (r: Vec<char>)
    ensures
        r@ == expand_token_seq(token@, aliases.pairs@),
{
    let l = lower_chars(token);
    match aliases.get_chars(l.as_slice()) {
        Some(canonical) => chars_of(canonical.as_str()),
        None => default_alias_chars(l.as_slice()),
    }
}

pub fn expand_relation_token(token: &str, aliases: &RelationAliases) -> (r: String)
    ensures
        r@ == expand_token_seq(token@, aliases.pairs@),
{
    let v = chars_of(token);
    let e = expand_token_chars(v.as_slice(), aliases);
    string_of(e.as_slice())
}

/// The views of a sequence of character vectors.
pub open spec fn seqs(v: Seq<Vec<char>>) -> Seq<Seq<char>> {
    v.map_values(|x: Vec<char>| x@)
}

/// The `_`-separated tokens of a name, each expanded.
pub open spec fn expanded_tokens_seq(value: Seq<char>, pairs: Seq<(String, String)>) -> Seq<
    Seq<char>,
> {
    tokens(value, '_').map_values(|t: Seq<char>| expand_token_seq(t, pairs))
}

/// A name with its tokens expanded and written together.
pub open spec fn normalize_seq(value: Seq<char>, pairs: Seq<(String, String)>) -> Seq<char> {
    join_seq(expanded_tokens_seq(value, pairs), Seq::empty())
}

/// The maximal runs of characters other than `sep`.
pub fn split_tokens(v: &[char], sep: char) -> (r: Vec<Vec<char>>)
    ensures
        seqs(r@) == tokens(v@, sep),
{
    let mut r: Vec<Vec<char>> = Vec::new();
    let mut i: usize = 0;
    while i < v.len()
        invariant
            i <= v@.len(),
            seqs(r@) == tokens(v@.take(i as int), sep),
        decreases v@.len() - i,
    {
        let c = v[i];
        let ghost prev = r@;
        assert(v@.take(i + 1).drop_last() =~= v@.take(i as int));
        assert(v@.take(i + 1).last() == c);
        if c == sep {
        } else if i >= 1 && v[i - 1] != sep {
            assert(v@.take(i + 1)[i - 1] == v@[i - 1]);
            assert(seqs(r@).len() > 0) by {
                assert(v@.take(i as int).drop_last() =~= v@.take(i - 1));
                assert(v@.take(i as int).last() == v@[i - 1]);
                lemma_tokens_nonempty(v@.take(i as int), sep);
            }
            let mut last = r.pop().unwrap();
            last.push(c);
            r.push(last);
            assert(seqs(r@) =~= seqs(prev).update(seqs(prev).len() - 1, seqs(prev).last().push(c)));
        } else {
            let single: Vec<char> = vec![c];
            assert(single@ =~= seq![c]);
            r.push(single);
            assert(seqs(r@) =~= seqs(prev).push(seq![c]));
        }
        i = i + 1;
    }
    assert(v@.take(v@.len() as int) == v@);
    r
}

/// A sequence whose last character is not the separator has a token.
proof fn lemma_tokens_nonempty(s: Seq<char>, sep: char)
    requires
        s.len() > 0,
        s.last() != sep,
    ensures
        tokens(s, sep).len() > 0,
    decreases s.len(),
{
    let prev = tokens(s.drop_last(), sep);
    if s.len() >= 2 && s[s.len() - 2] != sep {
        assert(s.drop_last().last() == s[s.len() - 2]);
        lemma_tokens_nonempty(s.drop_last(), sep);
    }
}

pub(crate) fn expanded_token_chars(value: &[char], aliases: &RelationAliases) -> (r: Vec<Vec<char>>)
    ensures
        seqs(r@) == expanded_tokens_seq(value@, aliases.pairs@),
{
    let toks = split_tokens(value, '_');
    let mut r: Vec<Vec<char>> = Vec::new();
    let mut i: usize = 0;
    while i < toks.len()
        invariant
            i <= toks@.len(),
            seqs(toks@) == tokens(value@, '_'),
            seqs(r@) == seqs(toks@).take(i as int).map_values(
                |t: Seq<char>| expand_token_seq(t, aliases.pairs@),
            ),
        decreases toks@.len() - i,
    {
        let e = expand_token_chars(toks[i].as_slice(), aliases);
        let ghost prev = r@;
        r.push(e);
        assert(seqs(toks@)[i as int] == toks@[i as int]@);
        assert(seqs(toks@).take(i + 1) =~= seqs(toks@).take(i as int).push(seqs(toks@)[i as int]));
        assert(seqs(r@) =~= seqs(prev).push(e@));
        assert(seqs(toks@).take(i + 1).map_values(
            |t: Seq<char>| expand_token_seq(t, aliases.pairs@),
        ) =~= seqs(toks@).take(i as int).map_values(
            |t: Seq<char>| expand_token_seq(t, aliases.pairs@),
        ).push(expand_token_seq(seqs(toks@)[i as int], aliases.pairs@)));
        i = i + 1;
    }
    assert(seqs(toks@).take(toks@.len() as int) =~= seqs(toks@));
    r
}

pub fn expanded_name_tokens(value: &str, aliases: &RelationAliases) -> (r: Vec<String>)
    ensures
        views(r@) == expanded_tokens_seq(value@, aliases.pairs@),
{
    let v = chars_of(value);
    let toks = expanded_token_chars(v.as_slice(), aliases);
    let mut r: Vec<String> = Vec::new();
    let mut i: usize = 0;
    while i < toks.len()
        invariant
            i <= toks@.len(),
            views(r@) == seqs(toks@).take(i as int),
        decreases toks@.len() - i,
    {
        let s = string_of(toks[i].as_slice());
        let ghost prev = r@;
        r.push(s);
        assert(views(r@) =~= views(prev).push(s@));
        assert(seqs(toks@).take(i + 1) =~= seqs(toks@).take(i as int).push(toks@[i as int]@));
        i = i + 1;
    }
    assert(seqs(toks@).take(toks@.len() as int) =~= seqs(toks@));
    r
}

/// Joining one more piece without separator appends it.
pub proof fn lemma_join_empty_take(parts: Seq<Seq<char>>, i: int)
    requires
        0 <= i < parts.len(),
    ensures
        join_seq(parts.take(i + 1), Seq::empty()) == join_seq(parts.take(i), Seq::empty())
            + parts[i],
{
    let e: Seq<char> = Seq::empty();
    if i == 0 {
        assert(parts.take(1).len() == 1);
        assert(join_seq(parts.take(0), e) =~= e);
        assert(e + parts[0] =~= parts[0]);
    } else {
        assert(parts.take(i + 1).drop_last() =~= parts.take(i));
        assert(join_seq(parts.take(i), e) + e =~= join_seq(parts.take(i), e));
    }
}

pub(crate) fn normalize_chars(value: &[char], aliases: &RelationAliases) -> (r: Vec<char>)
    ensures
        r@ == normalize_seq(value@, aliases.pairs@),
{
    let toks = expanded_token_chars(value, aliases);
    let mut r: Vec<char> = Vec::new();
    let mut i: usize = 0;
    while i < toks.len()
        invariant
            i <= toks@.len(),
            r@ == join_seq(seqs(toks@).take(i as int), Seq::empty()),
        decreases toks@.len() - i,
    {
        let t = &toks[i];
        let mut j: usize = 0;
        let ghost before = r@;
        while j < t.len()
            invariant
                j <= t@.len(),
                r@ == before + t@.take(j as int),
            decreases t@.len() - j,
        {
            r.push(t[j]);
            assert(t@.take(j + 1) =~= t@.take(j as int).push(t@[j as int]));
            j = j + 1;
        }
        assert(t@.take(t@.len() as int) =~= t@);
        proof {
            lemma_join_empty_take(seqs(toks@), i as int);
        }
        i = i + 1;
    }
    assert(seqs(toks@).take(toks@.len() as int) =~= seqs(toks@));
    r
}

pub fn normalize_relation_name(value: &str, aliases: &RelationAliases) -> (r: String)
    ensures
        r@ == normalize_seq(value@, aliases.pairs@),
{
    let v = chars_of(value);
    let n = normalize_chars(v.as_slice(), aliases);
    string_of(n.as_slice())
}

} // verus!
