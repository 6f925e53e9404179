//! One generation run: a schema made ready for its documents, the names and
//! contents of the documents, and the summaries of a run.

use vstd::prelude::*;
use crate::docx::{docx_plan, docx_plan_spec, plan_view, DocxPlan};
use crate::er::er_fits;
use crate::er_html::{er_html_seq, render_er_html};
use crate::filters::{
    aliases_spec, apply_table_filters, ignore_patterns_spec, kept_tables, pair_views,
    relation_aliases, relation_file_path, relation_file_spec,
};
use crate::inference::{infer_relations_from_tables, inferred_relations_spec};
use crate::labels::{is_en_us_labels, is_zh_cn_labels, wants_english, Labels};
use crate::model::{
    relation_views, views, AppConfig, DatabaseSchema, ExternalRelation, OutputConfig, Table,
    TableRelation,
};
use crate::naming::{safe_file_name, safe_name_seq, RelationAliases};
use crate::relations::{
    entry_relation_ok, entry_source_name, merge_relations, merge_spec, present_relations,
    remove_relations_for_missing_tables, source_of_name, type_of_name,
};
use crate::render::{push_joined, render_html, render_html_seq, render_markdown, render_markdown_seq};
use crate::text::{
    chars_eq, chars_of, dec, join_seq, owned, push_dec, push_str, trim,
    trim_chars, trim_seq,
};

verus! {

// ---------------------------------------------------------------------------
// Preparing a schema
// ---------------------------------------------------------------------------

/// The tables left by the ignore patterns of a configuration.
pub open spec fn filtered_tables(database: DatabaseSchema, config: AppConfig) -> Seq<Table> {
    if ignore_patterns_spec(config).len() == 0 {
        database.tables@
    } else {
        kept_tables(database.tables@, ignore_patterns_spec(config))
    }
}

/// The relations left by the ignore patterns of a configuration.
pub open spec fn filtered_relations(database: DatabaseSchema, config: AppConfig) -> Seq<
    TableRelation,
> {
    if ignore_patterns_spec(config).len() == 0 {
        database.relations@
    } else {
        present_relations(filtered_tables(database, config), database.relations@)
    }
}

/// `r` is `database` made ready for its documents: the ignored tables and
/// their relations dropped, then the remaining foreign keys merged with the
/// relation-file relations and the relations inferred with the configured
/// aliases, and the relations of missing tables dropped.
pub open spec fn prepared_from(
    r: DatabaseSchema,
    database: DatabaseSchema,
    config: AppConfig,
    schema: Seq<char>,
    external: Seq<TableRelation>,
) -> bool {
    let tables = filtered_tables(database, config);
    &&& r.name == database.name
    &&& r.tables@ == tables
    &&& exists|aliases: RelationAliases, inferred: Seq<TableRelation>|
        {
            &&& pair_views(aliases.pairs@) == aliases_spec(config)
            &&& relation_views(inferred) == inferred_relations_spec(schema, tables, aliases.pairs@)
            &&& r.relations@ == present_relations(
                tables,
                merge_spec(filtered_relations(database, config), external, inferred),
            )
        }
}

/// A schema as read from the database made ready for its documents, with the
/// relations of the relation file already read.
pub fn prepare_schema(
    database: DatabaseSchema,
    config: &AppConfig,
    schema: &str,
    external_relations: Vec<TableRelation>,
) -> (r: DatabaseSchema)
    ensures
        prepared_from(r, database, *config, schema@, external_relations@),
{
    let ghost given = database;
    let mut database = database;
    apply_table_filters(&mut database, config);
    let ghost filtered = database;
    let aliases = relation_aliases(config);
    let inferred = infer_relations_from_tables(schema, database.tables.as_slice(), &aliases);
    let ghost inferred_seq = inferred@;
    let mut foreign_keys: Vec<TableRelation> = Vec::new();
    std::mem::swap(&mut foreign_keys, &mut database.relations);
    database.relations = merge_relations(foreign_keys, external_relations, inferred);
    remove_relations_for_missing_tables(&mut database);
    proof {
        assert(filtered.tables@ == filtered_tables(given, *config));
        assert(filtered.relations@ == filtered_relations(given, *config));
    }
    database
}

// ---------------------------------------------------------------------------
// The relation file
// ---------------------------------------------------------------------------

/// The relation file to read: the configured path, trimmed, unless it is
/// blank.
pub open spec fn relation_file_to_read_spec(config: AppConfig) -> Option<Seq<char>> {
    match relation_file_spec(config) {
        Some(f) => if trim_seq(f).len() > 0 {
            Some(trim_seq(f))
        } else {
            None
        },
        None => None,
    }
}

pub fn relation_file_to_read(config: &AppConfig) -> (r: Option<String>)
    ensures
        match r {
            Some(f) => relation_file_to_read_spec(*config) == Some(f@),
            None => relation_file_to_read_spec(*config) is None,
        },
{
    match relation_file_path(config) {
        Some(f) => {
            let t = trim(f);
            if t.as_str().is_empty() {
                None
            } else {
                Some(t)
            }
        },
        None => None,
    }
}

/// Why a relation-file entry cannot be read: an unknown source name, or else
/// an unknown relation type name.
pub open spec fn entry_error(e: ExternalRelation) -> Option<Seq<char>> {
    if source_of_name(entry_source_name(e)) is None {
        Some("Unsupported relation source: "@ + entry_source_name(e))
    } else if type_of_name(e.relation_type@) is None {
        Some("Unsupported relation type: "@ + e.relation_type@)
    } else {
        None
    }
}

/// The first entry from index `k` on that cannot be read.
pub open spec fn first_bad_entry(entries: Seq<ExternalRelation>, k: int) -> Option<int>
    decreases entries.len() - k,
{
    if k < 0 || k >= entries.len() {
        None
    } else if entry_error(entries[k]) is Some {
        Some(k)
    } else {
        first_bad_entry(entries, k + 1)
    }
}

pub proof fn lemma_first_bad_entry(entries: Seq<ExternalRelation>, k: int)
    requires
        0 <= k,
    ensures
        first_bad_entry(entries, k) matches Some(i) ==> k <= i < entries.len() && entry_error(
            entries[i],
        ) is Some && forall|j: int| k <= j < i ==> entry_error(#[trigger] entries[j]) is None,
        first_bad_entry(entries, k) is None ==> forall|j: int|
            k <= j < entries.len() ==> entry_error(#[trigger] entries[j]) is None,
    decreases entries.len() - k,
{
    if k < entries.len() && entry_error(entries[k]) is None {
        lemma_first_bad_entry(entries, k + 1);
    }
}

/// The relations of the entries of a relation file, in order; the first entry
/// that cannot be read makes the whole file fail with its error.
pub fn convert_external_relations(entries: Vec<ExternalRelation>, default_schema: &str) -> (r: Result<
    Vec<TableRelation>,
    String,
>)
    ensures
        match r {
            Ok(rels) => first_bad_entry(entries@, 0) is None && rels@.len() == entries@.len()
                && forall|i: int|
                0 <= i < entries@.len() ==> entry_relation_ok(
                    #[trigger] entries@[i],
                    default_schema@,
                    rels@[i],
                ),
            Err(message) => match first_bad_entry(entries@, 0) {
                Some(i) => entry_error(entries@[i]) == Some(message@),
                None => false,
            },
        },
{
    let ghost all = entries@;
    proof {
        lemma_first_bad_entry(all, 0);
    }
    let mut rels: Vec<TableRelation> = Vec::new();
    for entry in it: entries
        invariant
            it.seq() == all,
            rels@.len() == it.index(),
            forall|i: int| 0 <= i < it.index() ==> entry_error(#[trigger] all[i]) is None,
            forall|i: int|
                0 <= i < it.index() ==> entry_relation_ok(
                    #[trigger] all[i],
                    default_schema@,
                    rels@[i],
                ),
            first_bad_entry(all, 0) == first_bad_entry(all, it.index() as int),
    {
        let ghost k = it.index();
        let ghost e = entry;
        assert(e == all[k as int]);
        match entry.into_table_relation(default_schema) {
            Ok(rel) => {
                proof {
                    assert(entry_error(e) is None);
                }
                rels.push(rel);
            },
            Err(message) => {
                proof {
                    assert(entry_error(e) == Some(message@));
                    assert(first_bad_entry(all, k as int) == Some(k as int));
                }
                return Err(message);
            },
        }
    }
    Ok(rels)
}

// ---------------------------------------------------------------------------
// Documents
// ---------------------------------------------------------------------------

/// ASCII upper-casing of one character.
pub open spec fn upper_ascii(c: char) -> char {
    if 'a' <= c && c <= 'z' {
        ((c as u32) - 32) as char
    } else {
        c
    }
}

/// The spelling a file type is compared in: trimmed and upper-cased.
pub open spec fn file_type_key(file_type: Seq<char>) -> Seq<char> {
    trim_seq(file_type).map_values(|c: char| upper_ascii(c))
}

fn upper_char(c: char) -> (r: char)
    ensures
        r == upper_ascii(c),
{
    if 'a' <= c && c <= 'z' {
        ((c as u8) - 32) as char
    } else {
        c
    }
}

fn file_type_key_exec(file_type: &str) -> (r: Vec<char>)
    ensures
        r@ == file_type_key(file_type@),
{
    let v = chars_of(file_type);
    let t = trim_chars(v.as_slice());
    let mut r: Vec<char> = Vec::new();
    let mut i: usize = 0;
    while i < t.len()
        invariant
            i <= t@.len(),
            r@ == t@.take(i as int).map_values(|c: char| upper_ascii(c)),
        decreases t@.len() - i,
    {
        r.push(upper_char(t[i]));
        assert(t@.take(i + 1).map_values(|c: char| upper_ascii(c)) =~= t@.take(i as int).map_values(
            |c: char| upper_ascii(c),
        ).push(upper_ascii(t@[i as int])));
        i = i + 1;
    }
    assert(t@.take(t@.len() as int) =~= t@);
    r
}

/// The content of a generated document.
pub enum DocumentContent {
    /// A text document: HTML or Markdown.
    Text(String),
    /// A Word document, block by block.
    Word(DocxPlan),
}

/// A generated document: its file name and its content.
pub struct RenderedDocument {
    pub file_name: String,
    pub content: DocumentContent,
}

/// The labels for the language an output configuration asks for.
pub open spec fn labels_for(engine: OutputConfig, l: Labels) -> bool {
    if wants_english(engine.language) {
        is_en_us_labels(l)
    } else {
        is_zh_cn_labels(l)
    }
}

/// The base name of a document: the configured file name, trimmed, unless it
/// is blank; else the schema name.
pub open spec fn base_name_spec(engine: OutputConfig, database_name: Seq<char>) -> Seq<char> {
    match engine.file_name {
        Some(n) => if trim_seq(n@).len() > 0 {
            trim_seq(n@)
        } else {
            database_name
        },
        None => database_name,
    }
}

/// The file type names that are understood.
pub open spec fn known_file_type(key: Seq<char>) -> bool {
    key == "HTML"@ || key == "MD"@ || key == "WORD"@
}

/// `d` is the document of `database` for the output configuration: an HTML
/// or Markdown page or a Word plan, named after the base name made safe for
/// a file system.
pub open spec fn rendered_as(d: RenderedDocument, database: DatabaseSchema, engine: OutputConfig) -> bool {
    let key = file_type_key(engine.file_type@);
    let base = safe_name_seq(base_name_spec(engine, database.name@));
    exists|l: Labels|
        {
            &&& labels_for(engine, l)
            &&& if key == "HTML"@ {
                &&& d.file_name@ == base + ".html"@
                &&& d.content matches DocumentContent::Text(t) && t@ == render_html_seq(database, l)
            } else if key == "MD"@ {
                &&& d.file_name@ == base + ".md"@
                &&& d.content matches DocumentContent::Text(t) && t@ == render_markdown_seq(
                    database,
                    l,
                )
            } else {
                &&& d.file_name@ == base + ".docx"@
                &&& d.content matches DocumentContent::Word(p) && plan_view(p) == docx_plan_spec(
                    database,
                    l,
                )
            }
        }
}

fn base_name(engine: &OutputConfig, database: &DatabaseSchema) -> (r: String)
    ensures
        r@ == base_name_spec(*engine, database.name@),
{
    match &engine.file_name {
        Some(n) => {
            let t = trim(n.as_str());
            if t.as_str().is_empty() {
                owned(database.name.as_str())
            } else {
                t
            }
        },
        None => owned(database.name.as_str()),
    }
}

fn file_name_with(base: &str, extension: &str) -> (r: String)
    ensures
        r@ == safe_name_seq(base@) + "."@ + extension@,
{
    let mut r = safe_file_name(base);
    push_str(&mut r, ".");
    push_str(&mut r, extension);
    r
}

fn html_document(database: &DatabaseSchema, engine: &OutputConfig, labels: Labels, base: &String) -> (d:
    RenderedDocument)
    requires
        labels_for(*engine, labels),
        base@ == base_name_spec(*engine, database.name@),
        file_type_key(engine.file_type@) == "HTML"@,
    ensures
        rendered_as(d, *database, *engine),
{
    let d = RenderedDocument {
        file_name: file_name_with(base.as_str(), "html"),
        content: DocumentContent::Text(render_html(database, labels)),
    };
    proof {
        reveal_strlit(".");
        reveal_strlit("html");
        reveal_strlit(".html");
        assert(d.file_name@ =~= safe_name_seq(base@) + ".html"@);
    }
    d
}

fn markdown_document(
    database: &DatabaseSchema,
    engine: &OutputConfig,
    labels: Labels,
    base: &String,
) -> (d: RenderedDocument)
    requires
        labels_for(*engine, labels),
        base@ == base_name_spec(*engine, database.name@),
        file_type_key(engine.file_type@) == "MD"@,
    ensures
        rendered_as(d, *database, *engine),
{
    let d = RenderedDocument {
        file_name: file_name_with(base.as_str(), "md"),
        content: DocumentContent::Text(render_markdown(database, labels)),
    };
    proof {
        reveal_strlit(".");
        reveal_strlit("md");
        reveal_strlit(".md");
        reveal_strlit("MD");
        reveal_strlit("HTML");
        assert(d.file_name@ =~= safe_name_seq(base@) + ".md"@);
        assert("MD"@.len() != "HTML"@.len());
        assert(file_type_key(engine.file_type@) != "HTML"@);
        assert(d.content matches DocumentContent::Text(t) && t@ == render_markdown_seq(*database, labels));
    }
    d
}

fn word_document(database: &DatabaseSchema, engine: &OutputConfig, labels: Labels, base: &String) -> (d:
    RenderedDocument)
    requires
        labels_for(*engine, labels),
        base@ == base_name_spec(*engine, database.name@),
        file_type_key(engine.file_type@) == "WORD"@,
    ensures
        rendered_as(d, *database, *engine),
{
    let d = RenderedDocument {
        file_name: file_name_with(base.as_str(), "docx"),
        content: DocumentContent::Word(docx_plan(database, &labels)),
    };
    proof {
        reveal_strlit(".");
        reveal_strlit("docx");
        reveal_strlit(".docx");
        reveal_strlit("MD");
        reveal_strlit("HTML");
        reveal_strlit("WORD");
        assert(d.file_name@ =~= safe_name_seq(base@) + ".docx"@);
        assert("WORD"@[0] != "HTML"@[0]);
        assert("WORD"@.len() != "MD"@.len());
        assert(file_type_key(engine.file_type@) != "HTML"@);
        assert(file_type_key(engine.file_type@) != "MD"@);
        assert(d.content matches DocumentContent::Word(p) && plan_view(p) == docx_plan_spec(*database, labels));
    }
    d
}

/// The document of a schema in the configured file type (HTML, MD or WORD,
/// in any case, around blanks), in the configured language; any other file
/// type is an error.
pub fn render_schema(database: &DatabaseSchema, engine: &OutputConfig) -> (r: Result<
    RenderedDocument,
    String,
>)
    ensures
        match r {
            Ok(d) => known_file_type(file_type_key(engine.file_type@)) && rendered_as(
                d,
                *database,
                *engine,
            ),
            Err(message) => !known_file_type(file_type_key(engine.file_type@)) && message@
                == "Unsupported file type: "@ + engine.file_type@,
        },
{
    let key = file_type_key_exec(engine.file_type.as_str());
    let labels = match Labels::from_engine(engine) {
        Ok(l) => l,
        Err(e) => {
            return Err(e);
        },
    };
    let base = base_name(engine, database);
    if chars_eq(key.as_slice(), chars_of("HTML").as_slice()) {
        Ok(html_document(database, engine, labels, &base))
    } else if chars_eq(key.as_slice(), chars_of("MD").as_slice()) {
        Ok(markdown_document(database, engine, labels, &base))
    } else if chars_eq(key.as_slice(), chars_of("WORD").as_slice()) {
        Ok(word_document(database, engine, labels, &base))
    } else {
        let mut message = owned("Unsupported file type: ");
        push_str(&mut message, engine.file_type.as_str());
        Err(message)
    }
}

/// The file name of a schema's ER diagram.
pub open spec fn er_file_name_spec(database_name: Seq<char>) -> Seq<char> {
    safe_name_seq(database_name + "-er"@) + ".html"@
}

/// The ER diagram page of a schema with its file name.
pub fn render_er_diagram(database: &DatabaseSchema) -> (r: RenderedDocument)
    requires
        er_fits(database.tables@),
    ensures
        r.file_name@ == er_file_name_spec(database.name@),
        r.content matches DocumentContent::Text(t) && t@ == er_html_seq(*database),
{
    let mut base = owned(database.name.as_str());
    push_str(&mut base, "-er");
    let d = RenderedDocument {
        file_name: file_name_with(base.as_str(), "html"),
        content: DocumentContent::Text(render_er_html(database)),
    };
    proof {
        reveal_strlit(".");
        reveal_strlit("html");
        reveal_strlit(".html");
        assert(d.file_name@ =~= er_file_name_spec(database.name@));
    }
    d
}

// ---------------------------------------------------------------------------
// Run summaries
// ---------------------------------------------------------------------------

/// The summary of a run: how many files of what kind, and which.
pub open spec fn summary_seq(kind: Seq<char>, files: Seq<Seq<char>>) -> Seq<char> {
    "ForgeCore generated "@ + dec(files.len()) + " "@ + kind + "file(s): "@ + join_seq(files, ", "@)
}

fn summary(kind: &str, files: &Vec<String>) -> (r: String)
    ensures
        r@ == summary_seq(kind@, views(files@)),
{
    let mut r = owned("ForgeCore generated ");
    push_dec(&mut r, files.len());
    push_str(&mut r, " ");
    push_str(&mut r, kind);
    push_str(&mut r, "file(s): ");
    push_joined(&mut r, files, ", ");
    r
}

/// The summary of a document run.
pub fn generation_summary(files: &Vec<String>) -> (r: String)
    ensures
        r@ == summary_seq(""@, views(files@)),
{
    summary("", files)
}

/// The summary of an ER diagram run.
pub fn er_generation_summary(files: &Vec<String>) -> (r: String)
    ensures
        r@ == summary_seq("ER diagram "@, views(files@)),
{
    summary("ER diagram ", files)
}

/// The file name of a relation template: after the schema when there is one,
/// else a common name.
pub open spec fn template_file_name_spec(schemas: Seq<Seq<char>>) -> Seq<char> {
    if schemas.len() == 1 {
        safe_name_seq(schemas[0]) + "-relations.json"@
    } else {
        "schema-forge-relations.json"@
    }
}

pub fn relation_template_file_name(schemas: &Vec<String>) -> (r: String)
    ensures
        r@ == template_file_name_spec(views(schemas@)),
{
    if schemas.len() == 1 {
        let mut r = safe_file_name(schemas[0].as_str());
        push_str(&mut r, "-relations.json");
        r
    } else {
        owned("schema-forge-relations.json")
    }
}

} // verus!
