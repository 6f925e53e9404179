//! Schema metadata, relations and configuration values.

use vstd::prelude::*;

verus! {

/// One column of a table as read from the database catalogue.
#[derive(Clone, Debug)]
pub struct Column {
    pub name: String,
    pub data_type: String,
    pub nullable: bool,
    pub default_value: String,
    pub comment: String,
    pub key: String,
    pub extra: String,
}

/// One index of a table; `columns` lists the indexed columns in index order.
#[derive(Clone, Debug)]
pub struct Index {
    pub name: String,
    pub columns: Vec<String>,
    pub unique: bool,
}

/// One table with its columns and indexes.
#[derive(Clone, Debug)]
pub struct Table {
    pub name: String,
    pub comment: String,
    pub columns: Vec<Column>,
    pub indexes: Vec<Index>,
}

/// Cardinality of a relation, seen from its source column.
#[derive(Clone, Copy, Debug, PartialEq, Eq, Structural)]
pub enum RelationType {
    OneToOne,
    OneToMany,
    ManyToOne,
    ManyToMany,
}

/// Where a relation comes from.
#[derive(Clone, Copy, Debug, PartialEq, Eq, Structural)]
pub enum RelationSource {
    DatabaseFk,
    Uploaded,
    Manual,
    Inferred,
}

/// A relation between a source column and a target column.
///
/// `confidence` is in hundredths: 100 stands for full confidence.
#[derive(Clone, Debug)]
pub struct TableRelation {
    pub id: String,
    pub name: Option<String>,
    pub source_schema: Option<String>,
    pub source_table: String,
    pub source_column: String,
    pub target_schema: Option<String>,
    pub target_table: String,
    pub target_column: String,
    pub relation_type: RelationType,
    pub source: RelationSource,
    pub confidence: u32,
    pub description: String,
}

/// The metadata of one schema.
#[derive(Clone, Debug)]
pub struct DatabaseSchema {
    pub name: String,
    pub tables: Vec<Table>,
    pub relations: Vec<TableRelation>,
}

/// A relation as written in a relation file, before defaults are applied.
///
/// `confidence` is in hundredths, as in [`TableRelation`].
#[derive(Clone, Debug)]
pub struct ExternalRelation {
    pub id: Option<String>,
    pub name: Option<String>,
    pub source_schema: Option<String>,
    pub source_table: String,
    pub source_column: String,
    pub target_schema: Option<String>,
    pub target_table: String,
    pub target_column: String,
    pub relation_type: String,
    pub source: Option<String>,
    pub confidence: Option<u32>,
    pub description: Option<String>,
}

/// One entry of an exported relation template.
///
/// `confidence` is in hundredths, as in [`TableRelation`].
#[derive(Clone, Debug)]
pub struct RelationTemplateItem {
    pub _comment: String,
    pub source_table: String,
    pub source_column: String,
    pub target_table: String,
    pub target_column: String,
    pub relation_type: String,
    pub source: String,
    pub confidence: Option<u32>,
    pub description: String,
}

/// Database connection settings.
#[derive(Clone, Debug)]
pub struct DataSourceConfig {
    pub driver: String,
    pub url: String,
    pub username: String,
    pub password: String,
}

/// Output settings.
#[derive(Clone, Debug)]
pub struct OutputConfig {
    pub dir: String,
    pub open_dir: bool,
    pub file_type: String,
    pub language: Option<String>,
    pub file_name: Option<String>,
}

/// Table selection settings: `ignore` holds table name patterns.
#[derive(Clone, Debug)]
pub struct TablesConfig {
    pub ignore: Option<Vec<String>>,
}

/// Relation settings: a relation file and token aliases, each canonical token
/// with the abbreviations that stand for it.
#[derive(Clone, Debug)]
pub struct RelationsConfig {
    pub file: Option<String>,
    pub aliases: Option<Vec<(String, Vec<String>)>>,
}

/// The whole application configuration.
#[derive(Clone, Debug)]
pub struct AppConfig {
    pub database: DataSourceConfig,
    pub schemas: Vec<String>,
    pub tables: Option<TablesConfig>,
    pub output: OutputConfig,
    pub relations: Option<RelationsConfig>,
}

/// The document generator.
pub struct ForgeCore;

/// What a generation run produced.
#[derive(Clone, Debug)]
pub struct GenerateOutput {
    pub schemas: Vec<String>,
    pub output_dir: String,
    pub stdout: String,
}

/// An exported relation template.
#[derive(Clone, Debug)]
pub struct RelationTemplateOutput {
    pub file_name: String,
    pub content: String,
    pub relation_count: usize,
}

/// The content of a [`TableRelation`].
pub struct RelationView {
    pub id: Seq<char>,
    pub name: Option<Seq<char>>,
    pub source_schema: Option<Seq<char>>,
    pub source_table: Seq<char>,
    pub source_column: Seq<char>,
    pub target_schema: Option<Seq<char>>,
    pub target_table: Seq<char>,
    pub target_column: Seq<char>,
    pub relation_type: RelationType,
    pub source: RelationSource,
    pub confidence: u32,
    pub description: Seq<char>,
}

pub open spec fn relation_view(r: TableRelation) -> RelationView {
    RelationView {
        id: r.id@,
        name: opt_view(r.name),
        source_schema: opt_view(r.source_schema),
        source_table: r.source_table@,
        source_column: r.source_column@,
        target_schema: opt_view(r.target_schema),
        target_table: r.target_table@,
        target_column: r.target_column@,
        relation_type: r.relation_type,
        source: r.source,
        confidence: r.confidence,
        description: r.description@,
    }
}

pub open spec fn relation_views(rs: Seq<TableRelation>) -> Seq<RelationView> {
    rs.map_values(|r: TableRelation| relation_view(r))
}

/// The characters of an optional string.
pub open spec fn opt_view(o: Option<String>) -> Option<Seq<char>> {
    match o {
        Some(s) => Some(s@),
        None => None,
    }
}

/// The views of a sequence of strings.
pub open spec fn views(s: Seq<String>) -> Seq<Seq<char>> {
    s.map_values(|x: String| x@)
}

} // verus!
