//! Relations: sources and types by name, priorities, merging relations from
//! several origins, applying relation-file defaults and dropping relations
//! whose tables are gone.

use vstd::prelude::*;
use crate::model::{
    opt_view, DatabaseSchema, ExternalRelation, RelationSource, RelationType, Table, TableRelation,
};
use crate::naming::{relation_id, relation_id_seq};
use crate::text::{chars_eq, chars_of, lower_chars, lower_seq, owned, push_str, str_eq, trim_chars, trim_seq};

verus! {

// ---------------------------------------------------------------------------
// Relation sources
// ---------------------------------------------------------------------------

/// The name of a relation source, as used in identifiers and relation files.
pub open spec fn source_prefix_seq(source: RelationSource) -> Seq<char> {
    match source {
        RelationSource::DatabaseFk => "fk"@,
        RelationSource::Uploaded => "uploaded"@,
        RelationSource::Manual => "manual"@,
        RelationSource::Inferred => "inferred"@,
    }
}

impl RelationSource {
    pub fn prefix(&self) -> (r: &'static str)
        ensures
            r@ == source_prefix_seq(*self),
    {
        match self {
            RelationSource::DatabaseFk => "fk",
            RelationSource::Uploaded => "uploaded",
            RelationSource::Manual => "manual",
            RelationSource::Inferred => "inferred",
        }
    }
}

pub open spec fn dash_to_underscore(c: char) -> char {
    if c == '-' {
        '_'
    } else {
        c
    }
}

pub open spec fn underscore_to_dash(c: char) -> char {
    if c == '_' {
        '-'
    } else {
        c
    }
}

/// The spelling a relation source name is compared in: trimmed, lower-cased,
/// with `-` read as `_`.
pub open spec fn source_key_seq(value: Seq<char>) -> Seq<char> {
    lower_seq(trim_seq(value)).map_values(|c: char| dash_to_underscore(c))
}

/// The relation source a name stands for.
pub open spec fn source_of_name(value: Seq<char>) -> Option<RelationSource> {
    let k = source_key_seq(value);
    if k == "database_fk"@ || k == "fk"@ {
        Some(RelationSource::DatabaseFk)
    } else if k == "uploaded"@ {
        Some(RelationSource::Uploaded)
    } else if k == "manual"@ {
        Some(RelationSource::Manual)
    } else if k == "inferred"@ {
        Some(RelationSource::Inferred)
    } else {
        None
    }
}

/// Maps every character of `v` through `f`-like replacement of `from` by `to`.
fn replace_char(v: &[char], from: char, to: char) -> (r: Vec<char>)
    ensures
        r@ == v@.map_values(|c: char| if c == from { to } else { c }),
{
    let mut r: Vec<char> = Vec::new();
    let mut i: usize = 0;
    while i < v.len()
        invariant
            i <= v@.len(),
            r@ == v@.take(i as int).map_values(|c: char| if c == from { to } else { c }),
        decreases v@.len() - i,
    {
        let c = v[i];
        r.push(if c == from { to } else { c });
        assert(v@.take(i + 1).map_values(|c: char| if c == from { to } else { c }) =~= v@.take(
            i as int,
        ).map_values(|c: char| if c == from { to } else { c }).push(
            if v@[i as int] == from { to } else { v@[i as int] },
        ));
        i = i + 1;
    }
    assert(v@.take(v@.len() as int) =~= v@);
    r
}

pub fn parse_relation_source(value: &str) -> (r: Result<RelationSource, String>)
    ensures
        match r {
            Ok(source) => source_of_name(value@) == Some(source),
            Err(message) => source_of_name(value@) is None && message@
                == "Unsupported relation source: "@ + value@,
        },
{
    let v = chars_of(value);
    let t = trim_chars(v.as_slice());
    let l = lower_chars(t.as_slice());
    let k = replace_char(l.as_slice(), '-', '_');
    assert(k@ =~= source_key_seq(value@));
    if chars_eq(k.as_slice(), chars_of("database_fk").as_slice()) || chars_eq(
        k.as_slice(),
        chars_of("fk").as_slice(),
    ) {
        Ok(RelationSource::DatabaseFk)
    } else if chars_eq(k.as_slice(), chars_of("uploaded").as_slice()) {
        Ok(RelationSource::Uploaded)
    } else if chars_eq(k.as_slice(), chars_of("manual").as_slice()) {
        Ok(RelationSource::Manual)
    } else if chars_eq(k.as_slice(), chars_of("inferred").as_slice()) {
        Ok(RelationSource::Inferred)
    } else {
        let mut message = owned("Unsupported relation source: ");
        push_str(&mut message, value);
        Err(message)
    }
}

/// How strongly a relation source is trusted when two relations link the same
/// columns: database foreign keys, then manual, then uploaded, then inferred.
pub open spec fn priority_of(source: RelationSource) -> u8 {
    match source {
        RelationSource::DatabaseFk => 4,
        RelationSource::Manual => 3,
        RelationSource::Uploaded => 2,
        RelationSource::Inferred => 1,
    }
}

pub fn relation_priority(source: &RelationSource) -> (r: u8)
    ensures
        r == priority_of(*source),
{
    match source {
        RelationSource::DatabaseFk => 4,
        RelationSource::Manual => 3,
        RelationSource::Uploaded => 2,
        RelationSource::Inferred => 1,
    }
}

/// The order of relation sources in an exported template: foreign keys, then
/// relation-file and manual relations, then inferred relations.
pub open spec fn sort_key_of(source: RelationSource) -> u8 {
    match source {
        RelationSource::DatabaseFk => 0,
        RelationSource::Uploaded | RelationSource::Manual => 1,
        RelationSource::Inferred => 2,
    }
}

pub fn relation_source_sort_key(source: &RelationSource) -> (r: u8)
    ensures
        r == sort_key_of(*source),
{
    match source {
        RelationSource::DatabaseFk => 0,
        RelationSource::Uploaded | RelationSource::Manual => 1,
        RelationSource::Inferred => 2,
    }
}

/// The CSS class of a relation line in the ER diagram.
pub open spec fn css_class_seq(source: RelationSource) -> Seq<char> {
    match source {
        RelationSource::DatabaseFk => "relation-database-fk"@,
        RelationSource::Uploaded => "relation-uploaded"@,
        RelationSource::Manual => "relation-manual"@,
        RelationSource::Inferred => "relation-inferred"@,
    }
}

pub fn relation_css_class(source: &RelationSource) -> (r: &'static str)
    ensures
        r@ == css_class_seq(*source),
{
    match source {
        RelationSource::DatabaseFk => "relation-database-fk",
        RelationSource::Uploaded => "relation-uploaded",
        RelationSource::Manual => "relation-manual",
        RelationSource::Inferred => "relation-inferred",
    }
}

// ---------------------------------------------------------------------------
// Relation types
// ---------------------------------------------------------------------------

/// The name of a relation type.
pub open spec fn type_label_seq(relation_type: RelationType) -> Seq<char> {
    match relation_type {
        RelationType::OneToOne => "one-to-one"@,
        RelationType::OneToMany => "one-to-many"@,
        RelationType::ManyToOne => "many-to-one"@,
        RelationType::ManyToMany => "many-to-many"@,
    }
}

pub fn relation_type_label(relation_type: &RelationType) -> (r: &'static str)
    ensures
        r@ == type_label_seq(*relation_type),
{
    match relation_type {
        RelationType::OneToOne => "one-to-one",
        RelationType::OneToMany => "one-to-many",
        RelationType::ManyToOne => "many-to-one",
        RelationType::ManyToMany => "many-to-many",
    }
}

/// The spelling a relation type name is compared in: trimmed, lower-cased,
/// with `_` read as `-`.
pub open spec fn type_key_seq(value: Seq<char>) -> Seq<char> {
    lower_seq(trim_seq(value)).map_values(|c: char| underscore_to_dash(c))
}

/// The relation type a name stands for.
pub open spec fn type_of_name(value: Seq<char>) -> Option<RelationType> {
    let k = type_key_seq(value);
    if k == "one-to-one"@ {
        Some(RelationType::OneToOne)
    } else if k == "one-to-many"@ {
        Some(RelationType::OneToMany)
    } else if k == "many-to-one"@ {
        Some(RelationType::ManyToOne)
    } else if k == "many-to-many"@ {
        Some(RelationType::ManyToMany)
    } else {
        None
    }
}

pub fn parse_relation_type(value: &str) -> (r: Result<RelationType, String>)
    ensures
        match r {
            Ok(t) => type_of_name(value@) == Some(t),
            Err(message) => type_of_name(value@) is None && message@
                == "Unsupported relation type: "@ + value@,
        },
{
    let v = chars_of(value);
    let t = trim_chars(v.as_slice());
    let l = lower_chars(t.as_slice());
    let k = replace_char(l.as_slice(), '_', '-');
    assert(k@ =~= type_key_seq(value@));
    if chars_eq(k.as_slice(), chars_of("one-to-one").as_slice()) {
        Ok(RelationType::OneToOne)
    } else if chars_eq(k.as_slice(), chars_of("one-to-many").as_slice()) {
        Ok(RelationType::OneToMany)
    } else if chars_eq(k.as_slice(), chars_of("many-to-one").as_slice()) {
        Ok(RelationType::ManyToOne)
    } else if chars_eq(k.as_slice(), chars_of("many-to-many").as_slice()) {
        Ok(RelationType::ManyToMany)
    } else {
        let mut message = owned("Unsupported relation type: ");
        push_str(&mut message, value);
        Err(message)
    }
}

/// Multiplicity of a relation end in the ER diagram.
#[derive(Clone, Copy, Debug, PartialEq, Eq, Structural)]
pub enum ErEndpointKind {
    One,
    Many,
}

/// Which end of a relation a marker is drawn at.
#[derive(Clone, Copy, Debug, PartialEq, Eq, Structural)]
pub enum ErEndpointSide {
    Source,
    Target,
}

pub open spec fn source_kind_of(relation_type: RelationType) -> ErEndpointKind {
    match relation_type {
        RelationType::OneToOne | RelationType::OneToMany => ErEndpointKind::One,
        RelationType::ManyToOne | RelationType::ManyToMany => ErEndpointKind::Many,
    }
}

pub open spec fn target_kind_of(relation_type: RelationType) -> ErEndpointKind {
    match relation_type {
        RelationType::OneToOne | RelationType::ManyToOne => ErEndpointKind::One,
        RelationType::OneToMany | RelationType::ManyToMany => ErEndpointKind::Many,
    }
}

pub fn relation_source_endpoint_kind(relation_type: &RelationType) -> (r: ErEndpointKind)
    ensures
        r == source_kind_of(*relation_type),
{
    match relation_type {
        RelationType::OneToOne | RelationType::OneToMany => ErEndpointKind::One,
        RelationType::ManyToOne | RelationType::ManyToMany => ErEndpointKind::Many,
    }
}

pub fn relation_target_endpoint_kind(relation_type: &RelationType) -> (r: ErEndpointKind)
    ensures
        r == target_kind_of(*relation_type),
{
    match relation_type {
        RelationType::OneToOne | RelationType::ManyToOne => ErEndpointKind::One,
        RelationType::OneToMany | RelationType::ManyToMany => ErEndpointKind::Many,
    }
}

// ---------------------------------------------------------------------------
// Relation keys and merging
// ---------------------------------------------------------------------------

/// The columns a relation links: source table, source column, target table,
/// target column.
pub open spec fn key_of(r: TableRelation) -> (Seq<char>, Seq<char>, Seq<char>, Seq<char>) {
    (r.source_table@, r.source_column@, r.target_table@, r.target_column@)
}

pub fn relation_key(relation: &TableRelation) -> (r: (&str, &str, &str, &str))
    ensures
        (r.0@, r.1@, r.2@, r.3@) == key_of(*relation),
{
    (
        relation.source_table.as_str(),
        relation.source_column.as_str(),
        relation.target_table.as_str(),
        relation.target_column.as_str(),
    )
}

fn same_key(a: &TableRelation, b: &TableRelation) -> (r: bool)
    ensures
        r == (key_of(*a) == key_of(*b)),
{
    let ka = relation_key(a);
    let kb = relation_key(b);
    str_eq(ka.0, kb.0) && str_eq(ka.1, kb.1) && str_eq(ka.2, kb.2) && str_eq(ka.3, kb.3)
}

/// The index of the first relation in `rels` linking the same columns as `r`,
/// searching from index `k`.
pub open spec fn find_key_from(rels: Seq<TableRelation>, key: (Seq<char>, Seq<char>, Seq<char>, Seq<char>), k: int) -> Option<int>
    decreases rels.len() - k,
{
    if k < 0 || k >= rels.len() {
        None
    } else if key_of(rels[k]) == key {
        Some(k)
    } else {
        find_key_from(rels, key, k + 1)
    }
}

pub proof fn lemma_find_key_from(rels: Seq<TableRelation>, key: (Seq<char>, Seq<char>, Seq<char>, Seq<char>), k: int)
    requires
        0 <= k,
    ensures
        find_key_from(rels, key, k) matches Some(i) ==> k <= i < rels.len() && key_of(rels[i])
            == key && forall|j: int| k <= j < i ==> key_of(#[trigger] rels[j]) != key,
        find_key_from(rels, key, k) is None ==> forall|j: int|
            k <= j < rels.len() ==> key_of(#[trigger] rels[j]) != key,
    decreases rels.len() - k,
{
    if k < rels.len() && key_of(rels[k]) != key {
        lemma_find_key_from(rels, key, k + 1);
    }
}

/// `rels` after adding `r`: a relation linking other columns is appended; one
/// linking the same columns as an earlier relation replaces it only when its
/// source has a higher priority.
pub open spec fn push_spec(rels: Seq<TableRelation>, r: TableRelation) -> Seq<TableRelation> {
    match find_key_from(rels, key_of(r), 0) {
        Some(i) => if priority_of(r.source) > priority_of(rels[i].source) {
            rels.update(i, r)
        } else {
            rels
        },
        None => rels.push(r),
    }
}

fn find_key_exec(rels: &Vec<TableRelation>, r: &TableRelation) -> (res: Option<usize>)
    ensures
        match res {
            Some(i) => find_key_from(rels@, key_of(*r), 0) == Some(i as int),
            None => find_key_from(rels@, key_of(*r), 0) is None,
        },
{
    let mut i: usize = 0;
    while i < rels.len()
        invariant
            i <= rels@.len(),
            find_key_from(rels@, key_of(*r), 0) == find_key_from(rels@, key_of(*r), i as int),
        decreases rels@.len() - i,
    {
        if same_key(&rels[i], r) {
            return Some(i);
        }
        i = i + 1;
    }
    None
}

pub fn push_relation(relations: &mut Vec<TableRelation>, relation: TableRelation)
    ensures
        final(relations)@ == push_spec(old(relations)@, relation),
{
    match find_key_exec(relations, &relation) {
        Some(position) => {
            proof {
                lemma_find_key_from(relations@, key_of(relation), 0);
            }
            if relation_priority(&relation.source) > relation_priority(
                &relations[position].source,
            ) {
                relations.set(position, relation);
            }
        },
        None => {
            relations.push(relation);
        },
    }
}

/// `rels` after adding each of `items` in turn with [`push_spec`].
pub open spec fn push_all_spec(rels: Seq<TableRelation>, items: Seq<TableRelation>) -> Seq<
    TableRelation,
>
    decreases items.len(),
{
    if items.len() == 0 {
        rels
    } else {
        push_spec(push_all_spec(rels, items.drop_last()), items.last())
    }
}

/// `rels` after appending each of `items` whose columns no relation links yet.
pub open spec fn add_missing_spec(rels: Seq<TableRelation>, items: Seq<TableRelation>) -> Seq<
    TableRelation,
>
    decreases items.len(),
{
    if items.len() == 0 {
        rels
    } else {
        let prev = add_missing_spec(rels, items.drop_last());
        if find_key_from(prev, key_of(items.last()), 0) is Some {
            prev
        } else {
            prev.push(items.last())
        }
    }
}

/// The merged relations: database foreign keys, then relation-file relations,
/// each added with [`push_spec`], then the inferred relations whose columns
/// are not linked yet.
pub open spec fn merge_spec(
    database_foreign_keys: Seq<TableRelation>,
    external_relations: Seq<TableRelation>,
    inferred_relations: Seq<TableRelation>,
) -> Seq<TableRelation> {
    add_missing_spec(
        push_all_spec(push_all_spec(Seq::empty(), database_foreign_keys), external_relations),
        inferred_relations,
    )
}

fn push_each(merged: &mut Vec<TableRelation>, items: Vec<TableRelation>)
    ensures
        final(merged)@ == push_all_spec(old(merged)@, items@),
{
    let ghost start = merged@;
    let ghost all = items@;
    for relation in it: items
        invariant
            it.seq() == all,
            merged@ == push_all_spec(start, all.take(it.index() as int)),
    {
        let ghost i = it.index();
        assert(all.take(i + 1).drop_last() =~= all.take(i as int));
        push_relation(merged, relation);
    }
    assert(all.take(all.len() as int) =~= all);
}

pub fn merge_relations(
    database_foreign_keys: Vec<TableRelation>,
    external_relations: Vec<TableRelation>,
    inferred_relations: Vec<TableRelation>,
) -> (r: Vec<TableRelation>)
    ensures
        r@ == merge_spec(database_foreign_keys@, external_relations@, inferred_relations@),
{
    let mut merged: Vec<TableRelation> = Vec::new();
    push_each(&mut merged, database_foreign_keys);
    push_each(&mut merged, external_relations);
    let ghost base = merged@;
    let ghost all = inferred_relations@;
    for relation in it: inferred_relations
        invariant
            it.seq() == all,
            merged@ == add_missing_spec(base, all.take(it.index() as int)),
    {
        let ghost i = it.index();
        assert(all.take(i + 1).drop_last() =~= all.take(i as int));
        match find_key_exec(&merged, &relation) {
            Some(_) => {},
            None => {
                merged.push(relation);
            },
        }
    }
    assert(all.take(all.len() as int) =~= all);
    merged
}

// ---------------------------------------------------------------------------
// Dropping relations of missing tables
// ---------------------------------------------------------------------------

/// Some table is named `name`.
pub open spec fn has_table(tables: Seq<Table>, name: Seq<char>) -> bool {
    exists|i: int| 0 <= i < tables.len() && #[trigger] tables[i].name@ == name
}

/// Both ends of `r` name tables of `tables`.
pub open spec fn links_present_tables(tables: Seq<Table>, r: TableRelation) -> bool {
    has_table(tables, r.source_table@) && has_table(tables, r.target_table@)
}

pub(crate) fn has_table_exec(tables: &Vec<Table>, name: &str) -> (r: bool)
    ensures
        r == has_table(tables@, name@),
{
    let mut i: usize = 0;
    while i < tables.len()
        invariant
            i <= tables@.len(),
            forall|k: int| 0 <= k < i ==> #[trigger] tables@[k].name@ != name@,
        decreases tables@.len() - i,
    {
        if str_eq(tables[i].name.as_str(), name) {
            return true;
        }
        i = i + 1;
    }
    false
}

/// The relations of `rels` whose both ends name tables of `tables`, in order.
pub open spec fn present_relations(tables: Seq<Table>, rels: Seq<TableRelation>) -> Seq<
    TableRelation,
> {
    rels.filter(|r: TableRelation| links_present_tables(tables, r))
}

pub(crate) fn retain_present(tables: &Vec<Table>, relations: Vec<TableRelation>) -> (r: Vec<
    TableRelation,
>)
    ensures
        r@ == present_relations(tables@, relations@),
{
    let ghost all = relations@;
    let mut kept: Vec<TableRelation> = Vec::new();
    for relation in it: relations
        invariant
            it.seq() == all,
            kept@ == present_relations(tables@, all.take(it.index() as int)),
    {
        let ghost i = it.index();
        assert(all.take(i + 1) =~= all.take(i as int).push(all[i as int]));
        proof {
            all.take(i as int).lemma_filter_push(
                all[i as int],
                |r: TableRelation| links_present_tables(tables@, r),
            );
        }
        if has_table_exec(tables, relation.source_table.as_str()) && has_table_exec(
            tables,
            relation.target_table.as_str(),
        ) {
            kept.push(relation);
        }
    }
    assert(all.take(all.len() as int) =~= all);
    kept
}

pub fn remove_relations_for_missing_tables(database: &mut DatabaseSchema)
    ensures
        final(database).name == old(database).name,
        final(database).tables == old(database).tables,
        final(database).relations@ == present_relations(
            old(database).tables@,
            old(database).relations@,
        ),
{
    let mut relations: Vec<TableRelation> = Vec::new();
    std::mem::swap(&mut relations, &mut database.relations);
    database.relations = retain_present(&database.tables, relations);
}

// ---------------------------------------------------------------------------
// Relation-file entries
// ---------------------------------------------------------------------------

/// The confidence, in hundredths, given to a relation-file entry without one.
pub open spec fn default_confidence(source: RelationSource) -> u32 {
    match source {
        RelationSource::DatabaseFk | RelationSource::Manual => 100,
        RelationSource::Uploaded => 95,
        RelationSource::Inferred => 70,
    }
}

/// The source name a relation-file entry is read with: its own, or `uploaded`.
pub open spec fn entry_source_name(e: ExternalRelation) -> Seq<char> {
    match e.source {
        Some(s) => s@,
        None => "uploaded"@,
    }
}

/// A relation-file entry with its defaults applied, when its source and type
/// names are known.
pub open spec fn entry_relation_ok(
    e: ExternalRelation,
    default_schema: Seq<char>,
    r: TableRelation,
) -> bool {
    &&& source_of_name(entry_source_name(e)) == Some(r.source)
    &&& type_of_name(e.relation_type@) == Some(r.relation_type)
    &&& r.id@ == match e.id {
        Some(id) => id@,
        None => relation_id_seq(
            source_prefix_seq(r.source),
            e.source_table@,
            e.source_column@,
            e.target_table@,
            e.target_column@,
        ),
    }
    &&& opt_view(r.name) == opt_view(e.name)
    &&& opt_view(r.source_schema) == Some(
        match e.source_schema {
            Some(s) => s@,
            None => default_schema,
        },
    )
    &&& opt_view(r.target_schema) == Some(
        match e.target_schema {
            Some(s) => s@,
            None => default_schema,
        },
    )
    &&& r.source_table@ == e.source_table@
    &&& r.source_column@ == e.source_column@
    &&& r.target_table@ == e.target_table@
    &&& r.target_column@ == e.target_column@
    &&& r.confidence == match e.confidence {
        Some(c) => c,
        None => default_confidence(r.source),
    }
    &&& r.description@ == match e.description {
        Some(d) => d@,
        None => Seq::empty(),
    }
}

fn own_opt(o: Option<String>) -> (r: Option<String>)
    ensures
        opt_view(r) == opt_view(o),
{
    o
}

impl ExternalRelation {
    /// The relation an entry of a relation file describes, with defaults for
    /// what the entry leaves out; an unknown source or type name is an error.
    pub fn into_table_relation(self, default_schema: &str) -> (r: Result<TableRelation, String>)
        ensures
            match r {
                Ok(rel) => entry_relation_ok(self, default_schema@, rel),
                Err(message) => match source_of_name(entry_source_name(self)) {
                    None => message@ == "Unsupported relation source: "@ + entry_source_name(
                        self,
                    ),
                    Some(_) => type_of_name(self.relation_type@) is None && message@
                        == "Unsupported relation type: "@ + self.relation_type@,
                },
            },
    {
        let ghost e = self;
        let source = match &self.source {
            Some(s) => parse_relation_source(s.as_str()),
            None => parse_relation_source("uploaded"),
        };
        let source = match source {
            Ok(s) => s,
            Err(message) => {
                return Err(message);
            },
        };
        let relation_type = match parse_relation_type(self.relation_type.as_str()) {
            Ok(t) => t,
            Err(message) => {
                return Err(message);
            },
        };
        let id = match self.id {
            Some(id) => id,
            None => relation_id(
                source.prefix(),
                self.source_table.as_str(),
                self.source_column.as_str(),
                self.target_table.as_str(),
                self.target_column.as_str(),
            ),
        };
        let confidence = match self.confidence {
            Some(c) => c,
            None => match source {
                RelationSource::DatabaseFk | RelationSource::Manual => 100,
                RelationSource::Uploaded => 95,
                RelationSource::Inferred => 70,
            },
        };
        let source_schema = match self.source_schema {
            Some(s) => s,
            None => owned(default_schema),
        };
        let target_schema = match self.target_schema {
            Some(s) => s,
            None => owned(default_schema),
        };
        let description = match self.description {
            Some(d) => d,
            None => String::new(),
        };
        Ok(TableRelation {
            id,
            name: own_opt(self.name),
            source_schema: Some(source_schema),
            source_table: self.source_table,
            source_column: self.source_column,
            target_schema: Some(target_schema),
            target_table: self.target_table,
            target_column: self.target_column,
            relation_type,
            source,
            confidence,
            description,
        })
    }
}

} // verus!
