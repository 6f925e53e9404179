//! Configured table filters and token aliases.

use vstd::prelude::*;
use crate::model::{views, AppConfig, DatabaseSchema, Table, TableRelation};
use crate::naming::RelationAliases;
use crate::relations::{present_relations, retain_present};
use crate::text::{chars_of, lower_chars, lower_seq, string_of, trim, trim_chars, trim_seq};

verus! {

// ---------------------------------------------------------------------------
// Table name patterns
// ---------------------------------------------------------------------------

/// `name` matches the wildcard pattern `pattern`, where `*` stands for any
/// run of characters (possibly empty) and every other character for itself.
pub open spec fn glob(name: Seq<char>, pattern: Seq<char>) -> bool
    decreases pattern.len(), name.len(),
{
    if pattern.len() == 0 {
        name.len() == 0
    } else if pattern[0] == '*' {
        glob(name, pattern.drop_first()) || (name.len() > 0 && glob(name.drop_first(), pattern))
    } else {
        name.len() > 0 && name[0] == pattern[0] && glob(name.drop_first(), pattern.drop_first())
    }
}

/// A table name matches an ignore pattern, ignoring ASCII case.
pub open spec fn pattern_matches_spec(table_name: Seq<char>, pattern: Seq<char>) -> bool {
    glob(lower_seq(table_name), lower_seq(pattern))
}

proof fn lemma_glob_step(n: Seq<char>, p: Seq<char>, i: int, j: int)
    requires
        0 <= i <= n.len(),
        0 <= j < p.len(),
    ensures
        glob(n.skip(i), p.skip(j)) == if p[j] == '*' {
            glob(n.skip(i), p.skip(j + 1)) || (i < n.len() && glob(n.skip(i + 1), p.skip(j)))
        } else {
            i < n.len() && n[i] == p[j] && glob(n.skip(i + 1), p.skip(j + 1))
        },
{
    assert(p.skip(j).drop_first() =~= p.skip(j + 1));
    if i < n.len() {
        assert(n.skip(i).drop_first() =~= n.skip(i + 1));
    }
}

/// Whether `name` matches `pattern` as wildcard patterns do, computed over
/// all suffix pairs from the end.
fn glob_exec(name: &[char], pattern: &[char]) -> (r: bool)
    ensures
        r == glob(name@, pattern@),
{
    let n = name.len();
    let m = pattern.len();
    // `next[i]` and `next_end` hold whether `name[i..]` and the empty rest of
    // the name match `pattern[j..]`.
    let mut next: Vec<bool> = vec![false; n];
    let mut next_end: bool = true;
    assert(name@.skip(n as int).len() == 0);
    assert forall|i: int| 0 <= i < n implies #[trigger] next@[i] == glob(
        name@.skip(i),
        pattern@.skip(m as int),
    ) by {
        assert(name@.skip(i).len() > 0);
    }
    let mut j: usize = m;
    while j > 0
        invariant
            n == name@.len(),
            m == pattern@.len(),
            j <= m,
            next@.len() == n,
            next_end == glob(name@.skip(n as int), pattern@.skip(j as int)),
            forall|i: int| 0 <= i < n ==> #[trigger] next@[i] == glob(name@.skip(i), pattern@.skip(j as int)),
        decreases j,
    {
        let jj = j - 1;
        let pc = pattern[jj];
        proof {
            lemma_glob_step(name@, pattern@, n as int, jj as int);
        }
        let cur_end = if pc == '*' {
            next_end
        } else {
            false
        };
        let mut cur: Vec<bool> = vec![false; n];
        let mut i: usize = n;
        while i > 0
            invariant
                n == name@.len(),
                m == pattern@.len(),
                jj < m,
                pc == pattern@[jj as int],
                i <= n,
                next@.len() == n,
                cur@.len() == n,
                next_end == glob(name@.skip(n as int), pattern@.skip(jj + 1)),
                cur_end == glob(name@.skip(n as int), pattern@.skip(jj as int)),
                forall|k: int| 0 <= k < n ==> #[trigger] next@[k] == glob(name@.skip(k), pattern@.skip(jj + 1)),
                forall|k: int| i <= k < n ==> #[trigger] cur@[k] == glob(name@.skip(k), pattern@.skip(jj as int)),
            decreases i,
        {
            let ii = i - 1;
            proof {
                lemma_glob_step(name@, pattern@, ii as int, jj as int);
            }
            let later = if ii + 1 < n {
                cur[ii + 1]
            } else {
                cur_end
            };
            let next_later = if ii + 1 < n {
                next[ii + 1]
            } else {
                next_end
            };
            let value = if pc == '*' {
                next[ii] || later
            } else {
                name[ii] == pc && next_later
            };
            cur.set(ii, value);
            i = ii;
        }
        next = cur;
        next_end = cur_end;
        j = jj;
    }
    assert(pattern@.skip(0) =~= pattern@);
    assert(name@.skip(0) =~= name@);
    if n == 0 {
        next_end
    } else {
        next[0]
    }
}

pub fn table_pattern_matches(table_name: &str, pattern: &str) -> (r: bool)
    ensures
        r == pattern_matches_spec(table_name@, pattern@),
{
    let n = chars_of(table_name);
    let p = chars_of(pattern);
    let ln = lower_chars(n.as_slice());
    let lp = lower_chars(p.as_slice());
    glob_exec(ln.as_slice(), lp.as_slice())
}

/// `table_name` matches one of `patterns`.
pub open spec fn matches_any_spec(table_name: Seq<char>, patterns: Seq<Seq<char>>) -> bool {
    exists|i: int| 0 <= i < patterns.len() && pattern_matches_spec(table_name, #[trigger] patterns[i])
}

pub fn matches_any_table_pattern(table_name: &str, patterns: &[String]) -> (r: bool)
    ensures
        r == matches_any_spec(table_name@, views(patterns@)),
{
    let mut i: usize = 0;
    while i < patterns.len()
        invariant
            i <= patterns@.len(),
            forall|k: int| 0 <= k < i ==> !pattern_matches_spec(table_name@, #[trigger] views(patterns@)[k]),
        decreases patterns@.len() - i,
    {
        if table_pattern_matches(table_name, patterns[i].as_str()) {
            assert(views(patterns@)[i as int] == patterns@[i as int]@);
            return true;
        }
        i = i + 1;
    }
    false
}

/// The configured ignore patterns, trimmed, without blank ones, in order.
pub open spec fn trimmed_nonblank(patterns: Seq<String>) -> Seq<Seq<char>>
    decreases patterns.len(),
{
    if patterns.len() == 0 {
        Seq::empty()
    } else {
        let prev = trimmed_nonblank(patterns.drop_last());
        let t = trim_seq(patterns.last()@);
        if t.len() > 0 {
            prev.push(t)
        } else {
            prev
        }
    }
}

/// The ignore patterns of a configuration.
pub open spec fn ignore_patterns_spec(config: AppConfig) -> Seq<Seq<char>> {
    match config.tables {
        Some(t) => match t.ignore {
            Some(ps) => trimmed_nonblank(ps@),
            None => Seq::empty(),
        },
        None => Seq::empty(),
    }
}

pub(crate) fn trimmed_nonblank_exec(patterns: &Vec<String>) -> (r: Vec<String>)
    ensures
        views(r@) == trimmed_nonblank(patterns@),
{
    let mut r: Vec<String> = Vec::new();
    let mut i: usize = 0;
    while i < patterns.len()
        invariant
            i <= patterns@.len(),
            views(r@) == trimmed_nonblank(patterns@.take(i as int)),
        decreases patterns@.len() - i,
    {
        let t = trim(patterns[i].as_str());
        let ghost prev = r@;
        assert(patterns@.take(i + 1).drop_last() =~= patterns@.take(i as int));
        if !t.as_str().is_empty() {
            r.push(t);
            assert(views(r@) =~= views(prev).push(t@));
        }
        i = i + 1;
    }
    assert(patterns@.take(patterns@.len() as int) =~= patterns@);
    r
}

pub fn ignored_table_patterns(config: &AppConfig) -> (r: Vec<String>)
    ensures
        views(r@) == ignore_patterns_spec(*config),
{
    match &config.tables {
        Some(t) => match &t.ignore {
            Some(ps) => trimmed_nonblank_exec(ps),
            None => {
                let r: Vec<String> = Vec::new();
                assert(views(r@) =~= Seq::empty());
                r
            },
        },
        None => {
            let r: Vec<String> = Vec::new();
            assert(views(r@) =~= Seq::empty());
            r
        },
    }
}

/// The tables of `tables` whose names match none of `patterns`, in order.
pub open spec fn kept_tables(tables: Seq<Table>, patterns: Seq<Seq<char>>) -> Seq<Table> {
    tables.filter(|t: Table| !matches_any_spec(t.name@, patterns))
}

pub fn apply_table_filters(database: &mut DatabaseSchema, config: &AppConfig)
    ensures
        final(database).name == old(database).name,
        ignore_patterns_spec(*config).len() == 0 ==> *final(database) == *old(database),
        ignore_patterns_spec(*config).len() > 0 ==> {
            &&& final(database).tables@ == kept_tables(
                old(database).tables@,
                ignore_patterns_spec(*config),
            )
            &&& final(database).relations@ == present_relations(
                final(database).tables@,
                old(database).relations@,
            )
        },
{
    let ignore_patterns = ignored_table_patterns(config);
    if ignore_patterns.len() == 0 {
        return;
    }
    let ghost pats = views(ignore_patterns@);
    let mut tables: Vec<Table> = Vec::new();
    std::mem::swap(&mut tables, &mut database.tables);
    let ghost all = tables@;
    let mut kept: Vec<Table> = Vec::new();
    for table in it: tables
        invariant
            it.seq() == all,
            pats == views(ignore_patterns@),
            kept@ == all.take(it.index() as int).filter(
                |t: Table| !matches_any_spec(t.name@, pats),
            ),
    {
        let ghost k = it.index();
        assert(all.take(k + 1) =~= all.take(k as int).push(all[k as int]));
        proof {
            all.take(k as int).lemma_filter_push(
                all[k as int],
                |t: Table| !matches_any_spec(t.name@, pats),
            );
        }
        if !matches_any_table_pattern(table.name.as_str(), ignore_patterns.as_slice()) {
            kept.push(table);
        }
    }
    assert(all.take(all.len() as int) =~= all);
    database.tables = kept;
    let mut relations: Vec<TableRelation> = Vec::new();
    std::mem::swap(&mut relations, &mut database.relations);
    database.relations = retain_present(&database.tables, relations);
}

// ---------------------------------------------------------------------------
// Token aliases and the relation file
// ---------------------------------------------------------------------------

/// The (abbreviation, canonical token) pairs of one alias entry: both trimmed
/// and lower-cased, leaving out blank ones.
pub open spec fn entry_alias_pairs(canonical: Seq<char>, aliases: Seq<String>) -> Seq<
    (Seq<char>, Seq<char>),
>
    decreases aliases.len(),
{
    if aliases.len() == 0 {
        Seq::empty()
    } else {
        let prev = entry_alias_pairs(canonical, aliases.drop_last());
        let c = lower_seq(trim_seq(canonical));
        let a = lower_seq(trim_seq(aliases.last()@));
        if c.len() == 0 || a.len() == 0 {
            prev
        } else {
            prev.push((a, c))
        }
    }
}

/// The alias pairs of all entries, entry by entry.
pub open spec fn config_alias_pairs(entries: Seq<(String, Vec<String>)>) -> Seq<
    (Seq<char>, Seq<char>),
>
    decreases entries.len(),
{
    if entries.len() == 0 {
        Seq::empty()
    } else {
        config_alias_pairs(entries.drop_last()) + entry_alias_pairs(
            entries.last().0@,
            entries.last().1@,
        )
    }
}

/// The views of alias pairs.
pub open spec fn pair_views(pairs: Seq<(String, String)>) -> Seq<(Seq<char>, Seq<char>)> {
    pairs.map_values(|p: (String, String)| (p.0@, p.1@))
}

/// The alias pairs a configuration defines.
pub open spec fn aliases_spec(config: AppConfig) -> Seq<(Seq<char>, Seq<char>)> {
    match config.relations {
        Some(r) => match r.aliases {
            Some(entries) => config_alias_pairs(entries@),
            None => Seq::empty(),
        },
        None => Seq::empty(),
    }
}

fn trim_lower(s: &str) -> (r: Vec<char>)
    ensures
        r@ == lower_seq(trim_seq(s@)),
{
    let v = chars_of(s);
    let t = trim_chars(v.as_slice());
    lower_chars(t.as_slice())
}

pub fn relation_aliases(config: &AppConfig) -> (r: RelationAliases)
    ensures
        pair_views(r.pairs@) == aliases_spec(*config),
{
    let mut pairs: Vec<(String, String)> = Vec::new();
    let entries = match &config.relations {
        Some(r) => match &r.aliases {
            Some(entries) => entries,
            None => {
                assert(pair_views(pairs@) =~= Seq::empty());
                return RelationAliases::from_pairs(pairs);
            },
        },
        None => {
            assert(pair_views(pairs@) =~= Seq::empty());
            return RelationAliases::from_pairs(pairs);
        },
    };
    let mut e: usize = 0;
    assert(pair_views(pairs@) =~= config_alias_pairs(entries@.take(0)));
    while e < entries.len()
        invariant
            e <= entries@.len(),
            pair_views(pairs@) == config_alias_pairs(entries@.take(e as int)),
        decreases entries@.len() - e,
    {
        let entry = &entries[e];
        let canonical = trim_lower(entry.0.as_str());
        let values = &entry.1;
        let ghost before = pair_views(pairs@);
        let mut k: usize = 0;
        while k < values.len()
            invariant
                k <= values@.len(),
                canonical@ == lower_seq(trim_seq(entry.0@)),
                pair_views(pairs@) == before + entry_alias_pairs(entry.0@, values@.take(k as int)),
            decreases values@.len() - k,
        {
            let alias = trim_lower(values[k].as_str());
            let ghost prev = pairs@;
            assert(values@.take(k + 1).drop_last() =~= values@.take(k as int));
            if canonical.len() > 0 && alias.len() > 0 {
                let pair = (string_of(alias.as_slice()), string_of(canonical.as_slice()));
                pairs.push(pair);
                assert(pair_views(pairs@) =~= pair_views(prev).push((alias@, canonical@)));
            }
            k = k + 1;
        }
        assert(values@.take(values@.len() as int) =~= values@);
        assert(entries@.take(e + 1).drop_last() =~= entries@.take(e as int));
        e = e + 1;
    }
    assert(entries@.take(entries@.len() as int) =~= entries@);
    RelationAliases::from_pairs(pairs)
}

/// The configured relation file, as written.
pub open spec fn relation_file_spec(config: AppConfig) -> Option<Seq<char>> {
    match config.relations {
        Some(r) => match r.file {
            Some(f) => Some(f@),
            None => None,
        },
        None => None,
    }
}

pub fn relation_file_path(config: &AppConfig) -> (r: Option<&str>)
    ensures
        match r {
            Some(f) => relation_file_spec(*config) == Some(f@),
            None => relation_file_spec(*config) is None,
        },
{
    match &config.relations {
        Some(r) => match &r.file {
            Some(f) => Some(f.as_str()),
            None => None,
        },
        None => None,
    }
}

} // verus!
