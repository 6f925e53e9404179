use docx_rs::{
    BorderType, LineSpacing, PageOrientationType, PageSize, Shading, ShdType, TableBorder,
    TableBorderPosition, TableBorders, TableCellMargins, TableCellProperty, TableChild,
    TableLayoutType, TableProperty, TableRowChild, WidthType,
};
use schema_forge::config::{database_inspector, parse_mysql_jdbc_url, DatabaseInspector};
use schema_forge::config::MySqlInspector;
use schema_forge::docx::{DocxBlock, DocxGrid, DocxPlan, DocxRow};
use schema_forge::docx_build::{build_docx, render_docx};
use schema_forge::labels::Labels;
use schema_forge::er::{
    er_column_anchor_y, er_grid_columns, er_layout_fits, er_node_height, er_node_positions,
    er_ordered_tables,
    ErNodePosition, ER_NODE_GAP_Y, ER_NODE_MIN_HEIGHT,
};
use schema_forge::er_html::er_endpoint_svg;
use schema_forge::inference::infer_relations_from_tables;
use schema_forge::labels::{escape_html, escape_html_attr, markdown_cell};
use schema_forge::model::{
    Column, DataSourceConfig, DatabaseSchema, ExternalRelation, Index, OutputConfig, RelationSource,
    RelationType, Table, TableRelation,
};
use schema_forge::naming::{safe_file_name, RelationAliases};
use schema_forge::pipeline::{
    convert_external_relations, er_generation_summary, generation_summary, relation_template_file_name,
    render_er_diagram, render_schema, DocumentContent,
};
use schema_forge::relations::{
    merge_relations, parse_relation_source, parse_relation_type, relation_type_label, ErEndpointKind,
    ErEndpointSide,
};
use schema_forge::template::relation_template_items;

fn engine(file_type: &str) -> OutputConfig {
    engine_with_language(file_type, "zh-CN")
}

fn engine_with_language(file_type: &str, language: &str) -> OutputConfig {
    OutputConfig {
        dir: String::new(),
        open_dir: false,
        file_type: file_type.to_string(),
        language: Some(language.to_string()),
        file_name: Some("fixture-dictionary".to_string()),
    }
}

fn data_source(url: &str) -> DataSourceConfig {
    DataSourceConfig {
        driver: "mysql".to_string(),
        url: url.to_string(),
        username: "user".to_string(),
        password: "password".to_string(),
    }
}

fn empty_aliases() -> RelationAliases {
    RelationAliases::new()
}

fn column(name: &str, data_type: &str, nullable: bool, key: &str) -> Column {
    Column {
        name: name.to_string(),
        data_type: data_type.to_string(),
        nullable,
        default_value: String::new(),
        comment: String::new(),
        key: key.to_string(),
        extra: String::new(),
    }
}

fn index(name: &str, columns: &[&str], unique: bool) -> Index {
    Index {
        name: name.to_string(),
        columns: columns.iter().map(|c| c.to_string()).collect(),
        unique,
    }
}

fn text_of(content: &DocumentContent) -> &str {
    match content {
        DocumentContent::Text(text) => text.as_str(),
        DocumentContent::Word(_) => panic!("expected a text document"),
    }
}

fn fixture_schema() -> DatabaseSchema {
    DatabaseSchema {
        name: "fixture_schema".to_string(),
        tables: vec![Table {
            name: "users".to_string(),
            comment: "Application users".to_string(),
            columns: vec![
                Column {
                    name: "id".to_string(),
                    data_type: "bigint".to_string(),
                    nullable: false,
                    default_value: String::new(),
                    comment: "Primary key".to_string(),
                    key: "PRI".to_string(),
                    extra: "auto_increment".to_string(),
                },
                Column {
                    name: "display_name".to_string(),
                    data_type: "varchar(120)".to_string(),
                    nullable: true,
                    default_value: String::new(),
                    comment: "User display name".to_string(),
                    key: String::new(),
                    extra: String::new(),
                },
                Column {
                    name: "email".to_string(),
                    data_type: "varchar(255)".to_string(),
                    nullable: false,
                    default_value: String::new(),
                    comment: "Login email".to_string(),
                    key: "UNI".to_string(),
                    extra: String::new(),
                },
            ],
            indexes: vec![index("PRIMARY", &["id"], true), index("idx_users_email", &["email"], true)],
        }],
        relations: Vec::new(),
    }
}

fn relation_fixture_schema() -> DatabaseSchema {
    DatabaseSchema {
        name: "fixture_schema".to_string(),
        tables: vec![
            Table {
                name: "users".to_string(),
                comment: "Application users".to_string(),
                columns: vec![column("id", "bigint", false, "PRI"), column("email", "varchar(255)", false, "UNI")],
                indexes: vec![index("PRIMARY", &["id"], true)],
            },
            Table {
                name: "departments".to_string(),
                comment: "Departments".to_string(),
                columns: vec![column("id", "bigint", false, "PRI"), column("code", "varchar(32)", false, "UNI")],
                indexes: vec![index("PRIMARY", &["id"], true), index("uk_departments_code", &["code"], true)],
            },
            Table {
                name: "orders".to_string(),
                comment: "Orders".to_string(),
                columns: vec![
                    column("id", "bigint", false, "PRI"),
                    column("user_id", "bigint", false, "MUL"),
                    column("dept_code", "varchar(32)", true, "MUL"),
                    column("note", "varchar(255)", true, ""),
                ],
                indexes: vec![
                    index("PRIMARY", &["id"], true),
                    index("idx_orders_user_id", &["user_id"], false),
                    index("idx_orders_dept_code", &["dept_code"], false),
                ],
            },
        ],
        relations: Vec::new(),
    }
}

fn dense_er_fixture_schema() -> DatabaseSchema {
    DatabaseSchema {
        name: "dense_schema".to_string(),
        tables: vec![
            Table {
                name: "first_wide_table".to_string(),
                comment: String::new(),
                columns: (0..18)
                    .map(|index| column(&format!("column_{index}"), "varchar(50)", true, ""))
                    .collect(),
                indexes: Vec::new(),
            },
            Table {
                name: "second_table".to_string(),
                comment: String::new(),
                columns: vec![column("id", "bigint", false, "PRI")],
                indexes: Vec::new(),
            },
            Table {
                name: "third_table".to_string(),
                comment: String::new(),
                columns: vec![column("id", "bigint", false, "PRI")],
                indexes: Vec::new(),
            },
            Table {
                name: "fourth_table".to_string(),
                comment: String::new(),
                columns: vec![column("id", "bigint", false, "PRI")],
                indexes: Vec::new(),
            },
        ],
        relations: Vec::new(),
    }
}

fn relation(
    source_table: &str,
    source_column: &str,
    target_table: &str,
    target_column: &str,
    source: RelationSource,
) -> TableRelation {
    TableRelation {
        id: format!("{source_table}_{source_column}"),
        name: None,
        source_schema: Some("fixture_schema".to_string()),
        source_table: source_table.to_string(),
        source_column: source_column.to_string(),
        target_schema: Some("fixture_schema".to_string()),
        target_table: target_table.to_string(),
        target_column: target_column.to_string(),
        relation_type: RelationType::ManyToOne,
        source,
        confidence: 90,
        description: String::new(),
    }
}

fn external(source: Option<&str>, relation_type: &str) -> ExternalRelation {
    ExternalRelation {
        id: None,
        name: None,
        source_schema: None,
        source_table: "orders".to_string(),
        source_column: "created_by".to_string(),
        target_schema: None,
        target_table: "users".to_string(),
        target_column: "id".to_string(),
        relation_type: relation_type.to_string(),
        source: source.map(|s| s.to_string()),
        confidence: None,
        description: Some("创建人".to_string()),
    }
}

#[test]
fn renders_fixture_documents_for_all_supported_file_types() {
    let schema = fixture_schema();

    let html_doc = render_schema(&schema, &engine("HTML")).expect("render html fixture");
    assert_eq!(html_doc.file_name, "fixture-dictionary.html");
    let html = text_of(&html_doc.content);
    assert!(html.contains("数据库设计文档"));
    assert!(html.contains("表清单"));
    assert!(html.contains("<code>users</code>"));
    assert!(html.contains("User display name"));

    let md_doc = render_schema(&schema, &engine("MD")).expect("render markdown fixture");
    assert_eq!(md_doc.file_name, "fixture-dictionary.md");
    let markdown = text_of(&md_doc.content);
    assert!(markdown.contains("# 数据库设计文档"));
    assert!(markdown.contains("| 序号 | 表名 | 说明 |"));
    assert!(markdown.contains("| 2 | `display_name` | `varchar(120)` | Y | N |"));
    assert!(markdown.contains("idx_users_email"));

    let word_doc = render_schema(&schema, &engine("WORD")).expect("render docx fixture");
    assert_eq!(word_doc.file_name, "fixture-dictionary.docx");
    match &word_doc.content {
        DocumentContent::Word(plan) => {
            assert!(matches!(&plan.blocks[0], DocxBlock::Title(title) if title == "数据库设计文档"));
            assert!(plan.blocks.iter().any(|block| matches!(block, DocxBlock::Section(s) if s == "表名: users")));
            let mut bytes = std::io::Cursor::new(Vec::new());
            build_docx(plan).build().pack(&mut bytes).expect("render docx fixture");
            let docx = bytes.into_inner();
            assert!(docx.len() > 100);
            assert_eq!(&docx[0..2], b"PK");
        }
        DocumentContent::Text(_) => panic!("expected a Word document"),
    }
}

#[test]
fn renders_english_labels_when_requested() {
    let schema = fixture_schema();

    let doc = render_schema(&schema, &engine_with_language("MD", "en-US"))
        .expect("render english markdown fixture");
    let markdown = text_of(&doc.content);
    assert!(markdown.contains("# Database Dictionary"));
    assert!(markdown.contains("| No. | Table | Description |"));
    assert!(markdown.contains("| 1 | `id` | `bigint` | NO | YES |"));
}

#[test]
fn renders_er_diagram_html_with_table_nodes_and_relation_styles() {
    let mut schema = relation_fixture_schema();
    let uploaded = TableRelation {
        id: "uploaded_orders_created_by_users_id".to_string(),
        name: None,
        source_schema: Some("fixture_schema".to_string()),
        source_table: "orders".to_string(),
        source_column: "created_by".to_string(),
        target_schema: Some("fixture_schema".to_string()),
        target_table: "users".to_string(),
        target_column: "id".to_string(),
        relation_type: RelationType::ManyToOne,
        source: RelationSource::Uploaded,
        confidence: 95,
        description: "创建人".to_string(),
    };
    let inferred = infer_relations_from_tables(&schema.name, &schema.tables, &empty_aliases());
    schema.relations = merge_relations(Vec::new(), vec![uploaded], inferred);

    let doc = render_er_diagram(&schema);
    let html = text_of(&doc.content);

    assert_eq!(doc.file_name, "fixture_schema-er.html");
    assert!(html.contains("ER Diagram - fixture_schema"));
    assert!(html.contains("class=\"table-node\""));
    assert!(html.contains("data-zoom=\"in\""));
    assert!(html.contains("data-zoom=\"out\""));
    assert!(html.contains("data-diagram-content"));
    assert!(html.contains("orders"));
    assert!(html.contains("users"));
    assert!(html.contains("class=\"relation-line relation-inferred\""));
    assert!(html.contains("class=\"relation-marker relation-inferred\""));
    assert!(html.contains("class=\"relation-line relation-uploaded\""));
    assert!(html.contains("class=\"relation-marker relation-uploaded\""));
    assert!(html.contains("data-source-column=\"created_by\""));
    assert!(html.contains("data-target-column=\"id\""));
    assert!(html.contains("data-source-column=\"user_id\""));
    assert!(html.contains("class=\"column-row\" data-column=\"user_id\""));
    assert!(html.contains("function layoutRelations()"));
    assert!(html.contains("class=\"diagram-header\""));
    assert!(html.contains("flex: 1 1 auto"));
    assert!(!html.contains("关系清单"));
    assert!(!html.contains("弱关系推断示例"));
}

#[test]
fn er_diagram_layout_keeps_stacked_nodes_from_overlapping() {
    let schema = dense_er_fixture_schema();

    let positions = er_node_positions(&schema.tables, &[]);
    let first = positions.get("first_wide_table").expect("first table position");
    let fourth = positions.get("fourth_table").expect("fourth table position");

    assert!(fourth.y >= first.y + first.height + ER_NODE_GAP_Y);
}

#[test]
fn er_diagram_layout_expands_columns_for_large_schemas() {
    assert_eq!(er_grid_columns(3), 3);
    assert_eq!(er_grid_columns(45), 3);
    assert_eq!(er_grid_columns(110), 8);
}

#[test]
fn er_diagram_layout_keeps_related_tables_near_each_other() {
    let tables = vec![
        Table {
            name: "unrelated_a".to_string(),
            comment: String::new(),
            columns: vec![column("id", "bigint", false, "PRI")],
            indexes: Vec::new(),
        },
        Table {
            name: "archive_element_attachment".to_string(),
            comment: String::new(),
            columns: vec![column("element_id", "bigint", false, "MUL")],
            indexes: Vec::new(),
        },
        Table {
            name: "unrelated_b".to_string(),
            comment: String::new(),
            columns: vec![column("id", "bigint", false, "PRI")],
            indexes: Vec::new(),
        },
        Table {
            name: "archive_element".to_string(),
            comment: String::new(),
            columns: vec![column("element_id", "bigint", false, "PRI")],
            indexes: Vec::new(),
        },
    ];
    let relations = vec![TableRelation {
        id: "inferred_archive_element_attachment".to_string(),
        name: None,
        source_schema: Some("fixture_schema".to_string()),
        source_table: "archive_element".to_string(),
        source_column: "element_id".to_string(),
        target_schema: Some("fixture_schema".to_string()),
        target_table: "archive_element_attachment".to_string(),
        target_column: "element_id".to_string(),
        relation_type: RelationType::OneToMany,
        source: RelationSource::Inferred,
        confidence: 90,
        description: String::new(),
    }];

    let positions = er_node_positions(&tables, &relations);
    let parent = positions.get("archive_element").expect("parent table position");
    let child = positions.get("archive_element_attachment").expect("child table position");

    assert!(parent.y.abs_diff(child.y) <= ER_NODE_MIN_HEIGHT + ER_NODE_GAP_Y);
}

#[test]
fn resolves_supported_database_inspectors_by_jdbc_url() {
    assert!(database_inspector(&data_source("jdbc:mysql://127.0.0.1:3306/app")).is_ok());
    assert!(database_inspector(&data_source("jdbc:postgresql://127.0.0.1:5432/app")).is_ok());
    assert!(database_inspector(&data_source("jdbc:oracle:thin:@//127.0.0.1:1521/XEPDB1")).is_ok());
}

#[test]
fn rejects_unknown_database_urls() {
    let error = match database_inspector(&data_source("jdbc:sqlserver://127.0.0.1:1433")) {
        Ok(_) => panic!("unknown database should be rejected"),
        Err(error) => error,
    };
    assert!(error.contains("Unsupported database URL"));
}

#[test]
fn reads_external_relation_json_files_for_future_upload_workflow() {
    let relations = convert_external_relations(
        vec![external(Some("uploaded"), "many-to-one")],
        "fixture_schema",
    )
    .expect("read external relations");

    assert_eq!(relations.len(), 1);
    assert_eq!(relations[0].source, RelationSource::Uploaded);
    assert_eq!(relations[0].source_schema.as_deref(), Some("fixture_schema"));
    assert_eq!(f64::from(relations[0].confidence) / 100.0, 0.95);
    assert_eq!(relations[0].description, "创建人");
}

#[test]
fn exports_inferred_relations_as_editable_relation_template_items() {
    let mut schema = relation_fixture_schema();
    let aliases = RelationAliases::from_pairs(vec![("dept".to_string(), "department".to_string())]);
    schema.relations = infer_relations_from_tables(&schema.name, &schema.tables, &aliases);

    let items = relation_template_items(&schema);

    assert!(items.iter().any(|item| {
        item.source_table == "orders"
            && item.source_column == "user_id"
            && item.target_table == "users"
            && item.target_column == "id"
            && item.relation_type == "many-to-one"
            && item.source == "uploaded"
            && item.confidence.is_some()
            && item._comment.contains("弱关系推断")
    }));
}

#[test]
fn rejects_unsupported_file_types_with_the_configured_name() {
    let error = match render_schema(&fixture_schema(), &engine(" pdf ")) {
        Ok(_) => panic!("pdf should be rejected"),
        Err(error) => error,
    };
    assert_eq!(error, "Unsupported file type:  pdf ");
}

#[test]
fn file_types_are_read_in_any_case_around_blanks() {
    let doc = render_schema(&fixture_schema(), &engine("  html ")).expect("html in lower case");
    assert_eq!(doc.file_name, "fixture-dictionary.html");
    let mut named = engine("md");
    named.file_name = Some("   ".to_string());
    let doc = render_schema(&fixture_schema(), &named).expect("blank file name");
    assert_eq!(doc.file_name, "fixture_schema.md");
    named.file_name = Some("a/b:c".to_string());
    let doc = render_schema(&fixture_schema(), &named).expect("unsafe file name");
    assert_eq!(doc.file_name, "a_b_c.md");
}

#[test]
fn relation_file_entries_fail_on_the_first_unknown_name() {
    let error = match convert_external_relations(
        vec![
            external(Some("uploaded"), "many-to-one"),
            external(Some("guessed"), "many-to-one"),
            external(Some("uploaded"), "several"),
        ],
        "fixture_schema",
    ) {
        Ok(_) => panic!("unknown source should be rejected"),
        Err(error) => error,
    };
    assert_eq!(error, "Unsupported relation source: guessed");

    let error = match convert_external_relations(vec![external(None, "several")], "fixture_schema") {
        Ok(_) => panic!("unknown type should be rejected"),
        Err(error) => error,
    };
    assert_eq!(error, "Unsupported relation type: several");
}

#[test]
fn relation_file_entries_get_defaults() {
    let relations = convert_external_relations(
        vec![external(None, " Many_To_One "), external(Some("database-fk"), "one-to-one")],
        "fixture_schema",
    )
    .expect("entries with defaults");
    assert_eq!(relations[0].source, RelationSource::Uploaded);
    assert_eq!(relations[0].relation_type, RelationType::ManyToOne);
    assert_eq!(relations[0].id, "uploaded_orders_created_by_users_id");
    assert_eq!(relations[0].target_schema.as_deref(), Some("fixture_schema"));
    assert_eq!(relations[1].source, RelationSource::DatabaseFk);
    assert_eq!(relations[1].confidence, 100);
    assert_eq!(relations[1].id, "fk_orders_created_by_users_id");
}

#[test]
fn run_summaries_list_the_generated_files() {
    let files = vec!["/out/a.html".to_string(), "/out/b.html".to_string()];
    assert_eq!(generation_summary(&files), "ForgeCore generated 2 file(s): /out/a.html, /out/b.html");
    assert_eq!(
        er_generation_summary(&files),
        "ForgeCore generated 2 ER diagram file(s): /out/a.html, /out/b.html"
    );
    assert_eq!(generation_summary(&Vec::new()), "ForgeCore generated 0 file(s): ");
}

#[test]
fn relation_template_file_names_follow_the_schemas() {
    assert_eq!(relation_template_file_name(&vec!["shop/main".to_string()]), "shop_main-relations.json");
    assert_eq!(
        relation_template_file_name(&vec!["a".to_string(), "b".to_string()]),
        "schema-forge-relations.json"
    );
    assert_eq!(relation_template_file_name(&Vec::new()), "schema-forge-relations.json");
}

#[test]
fn grid_columns_grow_with_every_fifteen_tables() {
    assert_eq!(er_grid_columns(0), 3);
    assert_eq!(er_grid_columns(46), 4);
    assert_eq!(er_grid_columns(60), 4);
    assert_eq!(er_grid_columns(61), 5);
    assert_eq!(er_grid_columns(10_000), 8);
}

#[test]
fn node_heights_count_title_comment_and_columns() {
    let mut table = Table {
        name: "t".to_string(),
        comment: String::new(),
        columns: vec![column("a", "int", true, ""); 3],
        indexes: Vec::new(),
    };
    assert_eq!(er_node_height(&table), 172);
    table.columns.truncate(1);
    assert_eq!(er_node_height(&table), 168);
    table.comment = "x".repeat(30);
    table.columns = vec![column("a", "int", true, ""); 4];
    assert_eq!(er_node_height(&table), 48 + 34 + 2 * 24 + 4 * 30);
}

#[test]
fn relation_ends_meet_the_row_of_their_column() {
    let schema = relation_fixture_schema();
    let rel = relation("orders", "user_id", "users", "id", RelationSource::Inferred);
    let position = ErNodePosition { x: 32, y: 96, height: 200 };
    assert_eq!(er_column_anchor_y(&schema.tables, &rel, true, &position), 96 + 48 + 17 + 24 + 30 + 15);
    assert_eq!(er_column_anchor_y(&schema.tables, &rel, false, &position), 96 + 48 + 17 + 24 + 15);
    let missing = relation("orders", "nowhere", "ghost", "id", RelationSource::Inferred);
    assert_eq!(er_column_anchor_y(&schema.tables, &missing, true, &position), 196);
    assert_eq!(er_column_anchor_y(&schema.tables, &missing, false, &position), 196);
}

#[test]
fn endpoint_markers_draw_one_and_many() {
    let rel = relation("orders", "user_id", "users", "id", RelationSource::Manual);
    let one = er_endpoint_svg(10, 20, ErEndpointSide::Target, ErEndpointKind::One, &rel, 3, false);
    assert_eq!(
        one,
        "        <g class=\"relation-marker relation-manual\" data-relation-key=\"3\" data-endpoint=\"target\" data-endpoint-kind=\"one\" data-source=\"orders\" data-target=\"users\" transform=\"translate(10 20) scale(-1 1)\"><line x1=\"10\" y1=\"-10\" x2=\"10\" y2=\"10\" /></g>\n"
    );
    let many = er_endpoint_svg(0, 7, ErEndpointSide::Source, ErEndpointKind::Many, &rel, 0, true);
    assert!(many.contains("data-endpoint=\"source\" data-endpoint-kind=\"many\""));
    assert!(many.contains("transform=\"translate(0 7) scale(1 1)\""));
}

#[test]
fn diagram_order_walks_related_tables_together() {
    let tables = vec![
        Table { name: "a".to_string(), comment: String::new(), columns: Vec::new(), indexes: Vec::new() },
        Table { name: "b".to_string(), comment: String::new(), columns: Vec::new(), indexes: Vec::new() },
        Table { name: "c".to_string(), comment: String::new(), columns: Vec::new(), indexes: Vec::new() },
        Table { name: "d".to_string(), comment: String::new(), columns: Vec::new(), indexes: Vec::new() },
    ];
    let relations = vec![
        relation("d", "x", "b", "id", RelationSource::Inferred),
        relation("d", "y", "c", "id", RelationSource::Inferred),
        relation("c", "z", "b", "id", RelationSource::Inferred),
        relation("a", "q", "ghost", "id", RelationSource::Inferred),
    ];
    // Degrees: b, c and d have two links each, a has none; ties go by name.
    assert_eq!(er_ordered_tables(&tables, &relations), vec![1, 2, 3, 0]);
}

#[test]
fn every_table_gets_one_node() {
    let schema = relation_fixture_schema();
    let inferred = infer_relations_from_tables(&schema.name, &schema.tables, &empty_aliases());
    let positions = er_node_positions(&schema.tables, &inferred);
    assert_eq!(positions.nodes.len(), 3);
    for table in &schema.tables {
        assert!(positions.get(&table.name).is_some());
    }
}

#[test]
fn names_read_back() {
    for t in [RelationType::OneToOne, RelationType::OneToMany, RelationType::ManyToOne, RelationType::ManyToMany] {
        assert_eq!(parse_relation_type(relation_type_label(&t)).unwrap(), t);
    }
    for s in [RelationSource::DatabaseFk, RelationSource::Uploaded, RelationSource::Manual, RelationSource::Inferred] {
        assert_eq!(parse_relation_source(s.prefix()).unwrap(), s);
    }
}

#[test]
fn escaping_leaves_no_markup() {
    assert_eq!(escape_html("<a href=\"x\">&'"), "&lt;a href=&quot;x&quot;&gt;&amp;'");
    assert_eq!(escape_html_attr("it's <b>"), "it&#39;s &lt;b&gt;");
    assert_eq!(markdown_cell("a|b\nc"), "a\\|b c");
    assert_eq!(safe_file_name("a/b\\c:d*e?f\"g<h>i|j"), "a_b_c_d_e_f_g_h_i_j");
}

#[test]
fn merged_relations_link_each_column_pair_once() {
    let fk = relation("orders", "user_id", "users", "id", RelationSource::DatabaseFk);
    let uploaded = relation("orders", "user_id", "users", "id", RelationSource::Uploaded);
    let manual = relation("orders", "dept_code", "departments", "code", RelationSource::Manual);
    let inferred_dup = relation("orders", "dept_code", "departments", "code", RelationSource::Inferred);
    let inferred_new = relation("orders", "note", "users", "id", RelationSource::Inferred);
    let merged = merge_relations(vec![fk], vec![uploaded, manual], vec![inferred_dup, inferred_new]);
    assert_eq!(merged.len(), 3);
    assert_eq!(merged[0].source, RelationSource::DatabaseFk);
    assert_eq!(merged[1].source, RelationSource::Manual);
    assert_eq!(merged[2].source_column, "note");
}

#[test]
fn template_entries_come_in_template_order() {
    let mut schema = relation_fixture_schema();
    schema.relations = vec![
        relation("orders", "user_id", "users", "id", RelationSource::Inferred),
        relation("orders", "dept_code", "departments", "code", RelationSource::Uploaded),
        relation("orders", "creator", "users", "id", RelationSource::DatabaseFk),
        relation("orders", "approver", "users", "id", RelationSource::Manual),
    ];
    let items = relation_template_items(&schema);
    let columns: Vec<&str> = items.iter().map(|item| item.source_column.as_str()).collect();
    assert_eq!(columns, vec!["creator", "approver", "dept_code", "user_id"]);
    assert!(items[0].confidence.is_none());
    assert_eq!(items[3].confidence, Some(90));
}

#[test]
fn mysql_urls_give_host_and_port() {
    let endpoint = parse_mysql_jdbc_url(" jdbc:mysql://db.local:3307/app?ssl=true ").unwrap();
    assert_eq!(endpoint.host, "db.local");
    assert_eq!(endpoint.port, 3307);
    let endpoint = parse_mysql_jdbc_url("jdbc:mysql://db.local/app").unwrap();
    assert_eq!(endpoint.port, 3306);
    assert!(parse_mysql_jdbc_url("jdbc:postgresql://db.local/app").is_err());
    assert!(matches!(
        database_inspector(&data_source(" jdbc:oracle:thin:@//h:1521/x")),
        Ok(DatabaseInspector::Oracle(_))
    ));
}

#[test]
fn word_documents_pack_as_zip_archives() {
    let mut bytes = std::io::Cursor::new(Vec::new());
    render_docx(&fixture_schema(), Labels::en_us())
        .build()
        .pack(&mut bytes)
        .expect("pack english docx");
    assert_eq!(&bytes.into_inner()[0..2], b"PK");
}

#[test]
fn ordinary_schemas_fit_the_diagram_range() {
    assert!(er_layout_fits(&relation_fixture_schema().tables));
    assert!(er_layout_fits(&[]));
}

#[test]
fn connection_options_need_a_mysql_url() {
    let inspector = MySqlInspector::new(&data_source("jdbc:mysql://127.0.0.1:3307/app"));
    let connection = inspector.connection_options("reporting").expect("a MySQL URL");
    assert_eq!(connection.host, "127.0.0.1");
    assert_eq!(connection.port, 3307);
    assert_eq!(connection.user, "user");
    assert_eq!(connection.password, "password");
    assert_eq!(connection.db_name, "reporting");
    let inspector = MySqlInspector::new(&data_source("jdbc:mysql:///app"));
    match inspector.connection_options("app") {
        Ok(_) => panic!("a URL without host should be rejected"),
        Err(error) => assert_eq!(error, "Missing host in MySQL JDBC URL."),
    }
}

#[test]
fn nodes_in_different_columns_keep_apart() {
    let schema = dense_er_fixture_schema();
    let positions = er_node_positions(&schema.tables, &[]);
    let first = positions.get("first_wide_table").expect("first table position");
    let second = positions.get("second_table").expect("second table position");
    let third = positions.get("third_table").expect("third table position");
    assert_eq!((first.x, second.x, third.x), (32, 392, 752));
    assert_eq!((first.y, second.y, third.y), (96, 96, 96));
    assert_eq!(first.height, 48 + 34 + 18 * 30);
}

#[test]
fn inferred_relations_stay_within_the_schema() {
    let schema = relation_fixture_schema();
    let aliases = RelationAliases::from_pairs(vec![("dept".to_string(), "department".to_string())]);
    let inferred = infer_relations_from_tables(&schema.name, &schema.tables, &aliases);
    assert!(!inferred.is_empty());
    for r in &inferred {
        assert_eq!(r.source, RelationSource::Inferred);
        assert!(r.confidence <= 94);
        assert_ne!(r.source_table, r.target_table);
        assert!(schema.tables.iter().any(|t| t.name == r.target_table));
        assert_eq!(r.source_schema.as_deref(), Some("fixture_schema"));
    }
}

#[test]
fn word_documents_hold_the_blocks_of_their_plan() {
    let doc = render_docx(&fixture_schema(), Labels::en_us());
    let children = &doc.document.children;
    match &children[0] {
        docx_rs::DocumentChild::Paragraph(p) => assert_eq!(p.raw_text(), "Database Dictionary"),
        _ => panic!("the title comes first"),
    }
    assert!(matches!(&children[1], docx_rs::DocumentChild::Table(_)));
    assert!(children.iter().any(|child| matches!(
        child,
        docx_rs::DocumentChild::Paragraph(p) if p.raw_text() == "Table: users"
    )));
}

#[test]
fn word_text_is_stored_escaped_without_line_breaks() {
    let plan = DocxPlan {
        blocks: vec![DocxBlock::Title("a&b<c>\r\n\"d'".to_string())],
    };
    let doc = build_docx(&plan);
    match &doc.document.children[0] {
        docx_rs::DocumentChild::Paragraph(p) => {
            assert_eq!(p.raw_text(), "a&amp;b&lt;c&gt;&quot;d&apos;")
        }
        _ => panic!("the title comes first"),
    }
}

#[test]
fn word_pages_paragraphs_and_tables_carry_their_layout() {
    let plan = DocxPlan {
        blocks: vec![
            DocxBlock::Title("Title".to_string()),
            DocxBlock::Spacer(90),
            DocxBlock::Grid(DocxGrid {
                widths: vec![100, 200],
                rows: vec![
                    DocxRow { header: true, cells: vec!["a".to_string(), "b".to_string(), "c".to_string()] },
                    DocxRow { header: false, cells: vec!["d".to_string()] },
                ],
            }),
        ],
    };
    let doc = build_docx(&plan);
    let section = &doc.document.section_property;
    assert_eq!(
        section.page_size,
        PageSize::new().size(16838, 11906).orient(PageOrientationType::Landscape)
    );
    let margin = &section.page_margin;
    assert_eq!(
        (margin.top, margin.right, margin.bottom, margin.left, margin.header, margin.footer, margin.gutter),
        (720, 720, 720, 720, 360, 360, 0)
    );
    let children = &doc.document.children;
    match &children[0] {
        docx_rs::DocumentChild::Paragraph(p) => {
            assert_eq!(p.property.line_spacing, Some(LineSpacing::new().before(0).after(220)))
        }
        _ => panic!("the title comes first"),
    }
    match &children[1] {
        docx_rs::DocumentChild::Paragraph(p) => {
            assert_eq!(p.property.line_spacing, Some(LineSpacing::new().after(90)))
        }
        _ => panic!("the spacer comes second"),
    }
    let table = match &children[2] {
        docx_rs::DocumentChild::Table(t) => t,
        _ => panic!("the grid comes third"),
    };
    assert_eq!(table.grid, vec![100, 200]);
    let borders = [
        TableBorderPosition::Top,
        TableBorderPosition::Left,
        TableBorderPosition::Bottom,
        TableBorderPosition::Right,
        TableBorderPosition::InsideH,
        TableBorderPosition::InsideV,
    ]
    .into_iter()
    .fold(TableBorders::with_empty(), |b, side| {
        b.set(TableBorder::new(side).border_type(BorderType::Single).size(2).color("CCD8D1"))
    });
    assert_eq!(
        table.property,
        TableProperty::new()
            .width(15360, WidthType::Dxa)
            .layout(TableLayoutType::Fixed)
            .set_margins(TableCellMargins::new().margin(70, 80, 70, 80))
            .set_borders(borders)
    );
    let cells = |row: usize| match &table.rows[row] {
        TableChild::TableRow(r) => r
            .cells
            .iter()
            .map(|c| match c {
                TableRowChild::TableCell(cell) => cell.property.clone(),
            })
            .collect::<Vec<_>>(),
    };
    let shading = Shading::new().shd_type(ShdType::Clear).fill("E7F0EB");
    assert_eq!(
        cells(0),
        vec![
            TableCellProperty::new().width(100, WidthType::Dxa).shading(shading.clone()),
            TableCellProperty::new().width(200, WidthType::Dxa).shading(shading.clone()),
            TableCellProperty::new().shading(shading),
        ]
    );
    assert_eq!(cells(1), vec![TableCellProperty::new().width(100, WidthType::Dxa)]);
}
