//! Table-name rules of relation discovery: prefix matches, business-key
//! prefixes and the recognition of child tables (details, parameters,
//! attachments, multilingual texts) of a parent table.

use vstd::prelude::*;
use crate::naming::{
    expanded_token_chars, expanded_tokens_seq, normalize_chars, normalize_seq, seqs,
    RelationAliases,
};
use crate::text::{
    chars_eq, chars_of, ends_with, has_suffix, lower_chars, lower_seq, string_of, sub_chars,
    without_suffix,
};

verus! {

/// The optional string argument as characters.
pub open spec fn opt_str_view(o: Option<&str>) -> Option<Seq<char>> {
    match o {
        Some(s) => Some(s@),
        None => None,
    }
}

/// `table` names the entity `prefix` (after token expansion), or its plural
/// with `s` or `es`.
pub open spec fn matches_prefix_seq(
    table: Seq<char>,
    prefix: Seq<char>,
    pairs: Seq<(String, String)>,
) -> bool {
    let nt = normalize_seq(table, pairs);
    let np = normalize_seq(prefix, pairs);
    nt == np || nt == np + seq!['s'] || nt == np + seq!['e', 's']
}

pub fn table_name_matches_prefix(table_name: &str, prefix: &str, aliases: &RelationAliases) -> (r:
    bool)
    ensures
        r == matches_prefix_seq(table_name@, prefix@, aliases.pairs@),
{
    let t = chars_of(table_name);
    let p = chars_of(prefix);
    let nt = normalize_chars(t.as_slice(), aliases);
    let mut np = normalize_chars(p.as_slice(), aliases);
    let ghost np0 = np@;
    if chars_eq(nt.as_slice(), np.as_slice()) {
        return true;
    }
    np.push('s');
    assert(np@ =~= np0 + seq!['s']);
    if chars_eq(nt.as_slice(), np.as_slice()) {
        return true;
    }
    np.pop();
    np.push('e');
    np.push('s');
    assert(np@ =~= np0 + seq!['e', 's']);
    chars_eq(nt.as_slice(), np.as_slice())
}

/// The entity part of a reference column name: the name without `_id`, or
/// else without `_code`.
pub open spec fn column_prefix_seq(column: Seq<char>) -> Option<Seq<char>> {
    if has_suffix(column, "_id"@) {
        Some(without_suffix(column, "_id"@))
    } else if has_suffix(column, "_code"@) {
        Some(without_suffix(column, "_code"@))
    } else {
        None
    }
}

pub fn relation_column_prefix(column_name: &str) -> (r: Option<String>)
    ensures
        match r {
            Some(p) => column_prefix_seq(column_name@) == Some(p@),
            None => column_prefix_seq(column_name@) is None,
        },
{
    let v = chars_of(column_name);
    match column_prefix_chars(v.as_slice()) {
        Some(p) => Some(string_of(p.as_slice())),
        None => None,
    }
}

pub(crate) fn column_prefix_chars(v: &[char]) -> (r: Option<Vec<char>>)
    ensures
        match r {
            Some(p) => column_prefix_seq(v@) == Some(p@),
            None => column_prefix_seq(v@) is None,
        },
{
    let id = chars_of("_id");
    let code = chars_of("_code");
    if ends_with(v, id.as_slice()) {
        Some(sub_chars(v, 0, v.len() - id.len()))
    } else if ends_with(v, code.as_slice()) {
        Some(sub_chars(v, 0, v.len() - code.len()))
    } else {
        None
    }
}

/// `table` matches the business-key entity `prefix`: by name, or its expanded
/// name ends with the expanded prefix.
pub open spec fn business_prefix_seq(
    table: Seq<char>,
    prefix: Seq<char>,
    pairs: Seq<(String, String)>,
) -> bool {
    matches_prefix_seq(table, prefix, pairs) || has_suffix(
        normalize_seq(table, pairs),
        normalize_seq(prefix, pairs),
    )
}

pub fn table_name_matches_business_key_prefix(
    table_name: &str,
    prefix: &str,
    aliases: &RelationAliases,
) -> (r: bool)
    ensures
        r == business_prefix_seq(table_name@, prefix@, aliases.pairs@),
{
    if table_name_matches_prefix(table_name, prefix, aliases) {
        return true;
    }
    let t = chars_of(table_name);
    let p = chars_of(prefix);
    let nt = normalize_chars(t.as_slice(), aliases);
    let np = normalize_chars(p.as_slice(), aliases);
    ends_with(nt.as_slice(), np.as_slice())
}

/// The name endings that mark a child table, in the order they are tried.
pub open spec fn child_suffixes() -> Seq<Seq<char>> {
    seq![
        "_parameters"@,
        "_parameter"@,
        "_attachments"@,
        "_attachment"@,
        "_params"@,
        "_param"@,
        "_detail"@,
        "_files"@,
        "_attach"@,
        "_dtl"@,
        "_file"@,
        "_lang"@,
        "_i18n"@,
        "_tl"@,
    ]
}

fn child_suffix(k: usize) -> (r: &'static str)
    requires
        k < 14,
    ensures
        r@ == child_suffixes()[k as int],
{
    match k {
        0 => "_parameters",
        1 => "_parameter",
        2 => "_attachments",
        3 => "_attachment",
        4 => "_params",
        5 => "_param",
        6 => "_detail",
        7 => "_files",
        8 => "_attach",
        9 => "_dtl",
        10 => "_file",
        11 => "_lang",
        12 => "_i18n",
        _ => "_tl",
    }
}

/// The stem and child ending of `name`, trying the endings from index `k` on.
pub open spec fn child_stem_from(name: Seq<char>, k: int) -> Option<(Seq<char>, Seq<char>)>
    decreases 14 - k,
{
    if k < 0 || k >= 14 {
        None
    } else if has_suffix(name, child_suffixes()[k]) {
        Some((without_suffix(name, child_suffixes()[k]), child_suffixes()[k]))
    } else {
        child_stem_from(name, k + 1)
    }
}

/// The stem and child ending of `name`: the first child ending that `name`
/// ends with, and what comes before it.
pub open spec fn child_stem_seq(name: Seq<char>) -> Option<(Seq<char>, Seq<char>)> {
    child_stem_from(name, 0)
}

fn child_stem_chars(name: &[char]) -> (r: Option<(Vec<char>, Vec<char>)>)
    ensures
        match r {
            Some((stem, suffix)) => child_stem_seq(name@) == Some((stem@, suffix@)),
            None => child_stem_seq(name@) is None,
        },
{
    let mut k: usize = 0;
    while k < 14
        invariant
            k <= 14,
            child_stem_seq(name@) == child_stem_from(name@, k as int),
        decreases 14 - k,
    {
        let suffix = chars_of(child_suffix(k));
        if ends_with(name, suffix.as_slice()) {
            let stem = sub_chars(name, 0, name.len() - suffix.len());
            return Some((stem, suffix));
        }
        k = k + 1;
    }
    None
}

pub fn child_table_stem(table_name: &str) -> (r: Option<(String, String)>)
    ensures
        match r {
            Some((stem, suffix)) => child_stem_seq(table_name@) == Some((stem@, suffix@)),
            None => child_stem_seq(table_name@) is None,
        },
{
    let v = chars_of(table_name);
    match child_stem_chars(v.as_slice()) {
        Some((stem, suffix)) => Some((string_of(stem.as_slice()), string_of(suffix.as_slice()))),
        None => None,
    }
}

/// How many tokens of `parent` (counted with repetition) occur in `child`.
pub open spec fn count_shared(parent: Seq<Seq<char>>, child: Seq<Seq<char>>) -> nat
    decreases parent.len(),
{
    if parent.len() == 0 {
        0
    } else {
        count_shared(parent.drop_last(), child) + if child.contains(parent.last()) {
            1nat
        } else {
            0nat
        }
    }
}

/// The parent's tokens without a trailing `type` token.
pub open spec fn without_type_token(tokens: Seq<Seq<char>>) -> Seq<Seq<char>> {
    if tokens.len() > 0 && tokens.last() == "type"@ {
        tokens.drop_last()
    } else {
        tokens
    }
}

/// A child stem names its parent table: the expanded tokens are equal (the
/// parent's trailing `type` token aside), or at least three parent tokens
/// occur in the child and at most one does not, and every token of the
/// relation prefix (when given) occurs in the parent or in the child.
pub open spec fn semantic_match_seq(
    child_stem: Seq<char>,
    parent: Seq<char>,
    relation_prefix: Option<Seq<char>>,
    pairs: Seq<(String, String)>,
) -> bool {
    let p0 = expanded_tokens_seq(parent, pairs);
    let c = expanded_tokens_seq(child_stem, pairs);
    let p = without_type_token(p0);
    if p0 == c || p == c {
        true
    } else {
        let common = count_shared(p, c);
        &&& common >= 3
        &&& common + 1 >= p.len()
        &&& match relation_prefix {
            None => true,
            Some(prefix) => prefix_covered(expanded_tokens_seq(prefix, pairs), p, c),
        }
    }
}

/// Every token of `prefix` occurs in `parent` or in `child`.
pub open spec fn prefix_covered(
    prefix: Seq<Seq<char>>,
    parent: Seq<Seq<char>>,
    child: Seq<Seq<char>>,
) -> bool {
    forall|i: int|
        0 <= i < prefix.len() ==> parent.contains(#[trigger] prefix[i]) || child.contains(prefix[i])
}

fn contains_token(list: &Vec<Vec<char>>, t: &[char]) -> (r: bool)
    ensures
        r == seqs(list@).contains(t@),
{
    let mut i: usize = 0;
    while i < list.len()
        invariant
            i <= list@.len(),
            forall|k: int| 0 <= k < i ==> seqs(list@)[k] != t@,
        decreases list@.len() - i,
    {
        if chars_eq(list[i].as_slice(), t) {
            assert(seqs(list@)[i as int] == t@);
            return true;
        }
        i = i + 1;
    }
    false
}

fn tokens_eq(a: &Vec<Vec<char>>, b: &Vec<Vec<char>>) -> (r: bool)
    ensures
        r == (seqs(a@) == seqs(b@)),
{
    if a.len() != b.len() {
        assert(seqs(a@).len() != seqs(b@).len());
        return false;
    }
    let mut i: usize = 0;
    while i < a.len()
        invariant
            a@.len() == b@.len(),
            i <= a@.len(),
            forall|k: int| 0 <= k < i ==> seqs(a@)[k] == seqs(b@)[k],
        decreases a@.len() - i,
    {
        if !chars_eq(a[i].as_slice(), b[i].as_slice()) {
            assert(seqs(a@)[i as int] != seqs(b@)[i as int]);
            return false;
        }
        i = i + 1;
    }
    assert(seqs(a@) =~= seqs(b@));
    true
}

fn count_shared_exec(parent: &Vec<Vec<char>>, child: &Vec<Vec<char>>) -> (r: usize)
    ensures
        r == count_shared(seqs(parent@), seqs(child@)),
        r <= parent@.len(),
{
    let mut count: usize = 0;
    let mut i: usize = 0;
    while i < parent.len()
        invariant
            i <= parent@.len(),
            count == count_shared(seqs(parent@).take(i as int), seqs(child@)),
            count <= i,
        decreases parent@.len() - i,
    {
        assert(seqs(parent@).take(i + 1).drop_last() =~= seqs(parent@).take(i as int));
        assert(seqs(parent@).take(i + 1).last() == parent@[i as int]@);
        if contains_token(child, parent[i].as_slice()) {
            count = count + 1;
        }
        i = i + 1;
    }
    assert(seqs(parent@).take(parent@.len() as int) =~= seqs(parent@));
    count
}

fn expanded_tokens_exec(value: &[char], aliases: &RelationAliases) -> (r: Vec<Vec<char>>)
    ensures
        seqs(r@) == expanded_tokens_seq(value@, aliases.pairs@),
{
    expanded_token_chars(value, aliases)
}

#[verifier::loop_isolation(false)]
fn semantic_match_chars(
    child_stem: &[char],
    parent: &[char],
    relation_prefix: Option<&[char]>,
    aliases: &RelationAliases,
) -> (r: bool)
    ensures
        r == semantic_match_seq(
            child_stem@,
            parent@,
            match relation_prefix {
                Some(p) => Some(p@),
                None => None,
            },
            aliases.pairs@,
        ),
{
    let mut parent_tokens = expanded_tokens_exec(parent, aliases);
    let child_tokens = expanded_tokens_exec(child_stem, aliases);
    let ghost p0 = seqs(parent_tokens@);
    if tokens_eq(&parent_tokens, &child_tokens) {
        return true;
    }
    let type_token = chars_of("type");
    let n = parent_tokens.len();
    if n > 0 && chars_eq(parent_tokens[n - 1].as_slice(), type_token.as_slice()) {
        parent_tokens.pop();
        assert(seqs(parent_tokens@) =~= p0.drop_last());
        if tokens_eq(&parent_tokens, &child_tokens) {
            return true;
        }
    }
    assert(seqs(parent_tokens@) == without_type_token(p0));
    let common = count_shared_exec(&parent_tokens, &child_tokens);
    let enough = common >= 3 && parent_tokens.len() - common <= 1;
    if !enough {
        return false;
    }
    match relation_prefix {
        None => true,
        Some(prefix) => {
            let prefix_tokens = expanded_tokens_exec(prefix, aliases);
            let mut i: usize = 0;
            while i < prefix_tokens.len()
                invariant
                    i <= prefix_tokens@.len(),
                    seqs(prefix_tokens@) == expanded_tokens_seq(prefix@, aliases.pairs@),
                    seqs(child_tokens@) == expanded_tokens_seq(child_stem@, aliases.pairs@),
                    seqs(parent_tokens@) == without_type_token(
                        expanded_tokens_seq(parent@, aliases.pairs@),
                    ),
                    forall|k: int|
                        0 <= k < i ==> seqs(parent_tokens@).contains(
                            #[trigger] seqs(prefix_tokens@)[k],
                        ) || seqs(child_tokens@).contains(seqs(prefix_tokens@)[k]),
                decreases prefix_tokens@.len() - i,
            {
                let t = prefix_tokens[i].as_slice();
                assert(seqs(prefix_tokens@)[i as int] == t@);
                if !contains_token(&parent_tokens, t) && !contains_token(&child_tokens, t) {
                    assert(!(seqs(parent_tokens@).contains(
                        expanded_tokens_seq(prefix@, aliases.pairs@)[i as int],
                    ) || seqs(child_tokens@).contains(
                        expanded_tokens_seq(prefix@, aliases.pairs@)[i as int],
                    )));
                    assert(seqs(child_tokens@) == expanded_tokens_seq(child_stem@, aliases.pairs@));
                    assert(seqs(parent_tokens@) == without_type_token(
                        expanded_tokens_seq(parent@, aliases.pairs@),
                    ));
                    let ghost pt = expanded_tokens_seq(prefix@, aliases.pairs@);
                    assert(!prefix_covered(pt, seqs(parent_tokens@), seqs(child_tokens@)));
                    return false;
                }
                i = i + 1;
            }
            true
        },
    }
}

pub fn child_stem_semantically_matches_parent(
    child_stem: &str,
    parent_table: &str,
    relation_prefix: Option<&str>,
    aliases: &RelationAliases,
) -> (r: bool)
    ensures
        r == semantic_match_seq(
            child_stem@,
            parent_table@,
            opt_str_view(relation_prefix),
            aliases.pairs@,
        ),
{
    let c = chars_of(child_stem);
    let p = chars_of(parent_table);
    match relation_prefix {
        Some(prefix) => {
            let q = chars_of(prefix);
            semantic_match_chars(c.as_slice(), p.as_slice(), Some(q.as_slice()), aliases)
        },
        None => semantic_match_chars(c.as_slice(), p.as_slice(), None, aliases),
    }
}

/// `table` is a child table of `base`: its lower-cased name is a child stem
/// plus a child ending, and the stem is the lower-cased base name, or the base
/// name without `_type` for a detail table, or names the base table by its
/// tokens.
pub open spec fn child_table_seq(
    table: Seq<char>,
    base: Seq<char>,
    relation_prefix: Option<Seq<char>>,
    pairs: Seq<(String, String)>,
) -> bool {
    let t = lower_seq(table);
    let b = lower_seq(base);
    match child_stem_seq(t) {
        None => false,
        Some((stem, suffix)) => {
            ||| stem == b
            ||| (suffix == "_dtl"@ || suffix == "_detail"@) && has_suffix(b, "_type"@)
                && stem == without_suffix(b, "_type"@)
            ||| semantic_match_seq(stem, b, relation_prefix, pairs)
        },
    }
}

pub(crate) fn child_table_chars(
    table: &[char],
    base: &[char],
    relation_prefix: Option<&[char]>,
    aliases: &RelationAliases,
) -> (r: bool)
    ensures
        r == child_table_seq(
            table@,
            base@,
            match relation_prefix {
                Some(p) => Some(p@),
                None => None,
            },
            aliases.pairs@,
        ),
{
    let t = lower_chars(table);
    let b = lower_chars(base);
    let (stem, suffix) = match child_stem_chars(t.as_slice()) {
        Some(found) => found,
        None => {
            return false;
        },
    };
    if chars_eq(stem.as_slice(), b.as_slice()) {
        return true;
    }
    let dtl = chars_of("_dtl");
    let detail = chars_of("_detail");
    let type_suffix = chars_of("_type");
    if (chars_eq(suffix.as_slice(), dtl.as_slice()) || chars_eq(
        suffix.as_slice(),
        detail.as_slice(),
    )) && ends_with(b.as_slice(), type_suffix.as_slice()) {
        let base_stem = sub_chars(b.as_slice(), 0, b.len() - type_suffix.len());
        if chars_eq(stem.as_slice(), base_stem.as_slice()) {
            return true;
        }
    }
    semantic_match_chars(stem.as_slice(), b.as_slice(), relation_prefix, aliases)
}

pub fn is_child_table_of(
    table_name: &str,
    base_table_name: &str,
    relation_prefix: Option<&str>,
    aliases: &RelationAliases,
) -> (r: bool)
    ensures
        r == child_table_seq(
            table_name@,
            base_table_name@,
            opt_str_view(relation_prefix),
            aliases.pairs@,
        ),
{
    let t = chars_of(table_name);
    let b = chars_of(base_table_name);
    match relation_prefix {
        Some(prefix) => {
            let q = chars_of(prefix);
            child_table_chars(t.as_slice(), b.as_slice(), Some(q.as_slice()), aliases)
        },
        None => child_table_chars(t.as_slice(), b.as_slice(), None, aliases),
    }
}

/// `table` is a child table of `base` with no relation prefix to check.
pub open spec fn extension_table_seq(
    table: Seq<char>,
    base: Seq<char>,
    pairs: Seq<(String, String)>,
) -> bool {
    child_table_seq(table, base, None, pairs)
}

pub fn is_extension_table_of(
    table_name: &str,
    base_table_name: &str,
    aliases: &RelationAliases,
) -> (r: bool)
    ensures
        r == extension_table_seq(table_name@, base_table_name@, aliases.pairs@),
{
    is_child_table_of(table_name, base_table_name, None, aliases)
}

} // verus!
