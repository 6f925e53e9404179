use schema_forge::filters::{apply_table_filters, relation_aliases, table_pattern_matches};
use schema_forge::inference::infer_relations_from_tables;
use schema_forge::model::{
    AppConfig, Column, DataSourceConfig, DatabaseSchema, Index, OutputConfig, RelationSource,
    RelationType, RelationsConfig, Table, TableRelation, TablesConfig,
};
use schema_forge::naming::RelationAliases;
use schema_forge::config::{selected_schemas, validate_config};
use schema_forge::pipeline::{prepare_schema, relation_file_to_read};
use schema_forge::relations::merge_relations;

fn confidence(relation: &TableRelation) -> f64 {
    f64::from(relation.confidence) / 100.0
}

fn engine(file_type: &str) -> OutputConfig {
    engine_with_language(file_type, "zh-CN")
}

fn engine_with_language(file_type: &str, language: &str) -> OutputConfig {
    OutputConfig {
        dir: String::new(),
        open_dir: false,
        file_type: file_type.to_string(),
        language: Some(language.to_string()),
        file_name: Some("fixture-dictionary".to_string()),
    }
}

fn data_source(url: &str) -> DataSourceConfig {
    DataSourceConfig {
        driver: "mysql".to_string(),
        url: url.to_string(),
        username: "user".to_string(),
        password: "password".to_string(),
    }
}

fn empty_aliases() -> RelationAliases {
    RelationAliases::new()
}

fn ecm_relation_aliases() -> RelationAliases {
    RelationAliases::from_pairs(
        [
            ("arc", "archive"),
            ("arch", "archive"),
            ("elem", "element"),
            ("itf", "interface"),
            ("asyn", "async"),
        ]
        .into_iter()
        .map(|(alias, canonical)| (alias.to_string(), canonical.to_string()))
        .collect(),
    )
}

fn column(name: &str, data_type: &str, nullable: bool, key: &str) -> Column {
    Column {
        name: name.to_string(),
        data_type: data_type.to_string(),
        nullable,
        default_value: String::new(),
        comment: String::new(),
        key: key.to_string(),
        extra: String::new(),
    }
}

fn index(name: &str, columns: &[&str], unique: bool) -> Index {
    Index {
        name: name.to_string(),
        columns: columns.iter().map(|c| c.to_string()).collect(),
        unique,
    }
}

fn interface_table(name: &str) -> Table {
    Table {
        name: name.to_string(),
        comment: "接口".to_string(),
        columns: vec![
            column("interface_id", "bigint", false, "PRI"),
            column("interface_code", "varchar(60)", false, ""),
        ],
        indexes: vec![index("PRIMARY", &["interface_id"], true)],
    }
}

fn interface_param_table(name: &str) -> Table {
    Table {
        name: name.to_string(),
        comment: "接口参数".to_string(),
        columns: vec![
            column("param_id", "bigint", false, "PRI"),
            column("interface_id", "bigint", false, "UNI"),
            column("param_value", "varchar(120)", true, ""),
        ],
        indexes: vec![
            index("PRIMARY", &["param_id"], true),
            Index {
                name: format!("uk_{name}_interface_id"),
                columns: vec!["interface_id".to_string()],
                unique: true,
            },
        ],
    }
}

fn relation_fixture_schema() -> DatabaseSchema {
    DatabaseSchema {
        name: "fixture_schema".to_string(),
        tables: vec![
            Table {
                name: "users".to_string(),
                comment: "Application users".to_string(),
                columns: vec![
                    column("id", "bigint", false, "PRI"),
                    column("email", "varchar(255)", false, "UNI"),
                ],
                indexes: vec![index("PRIMARY", &["id"], true)],
            },
            Table {
                name: "departments".to_string(),
                comment: "Departments".to_string(),
                columns: vec![
                    column("id", "bigint", false, "PRI"),
                    column("code", "varchar(32)", false, "UNI"),
                ],
                indexes: vec![
                    index("PRIMARY", &["id"], true),
                    index("uk_departments_code", &["code"], true),
                ],
            },
            Table {
                name: "orders".to_string(),
                comment: "Orders".to_string(),
                columns: vec![
                    column("id", "bigint", false, "PRI"),
                    column("user_id", "bigint", false, "MUL"),
                    column("dept_code", "varchar(32)", true, "MUL"),
                    column("note", "varchar(255)", true, ""),
                ],
                indexes: vec![
                    index("PRIMARY", &["id"], true),
                    index("idx_orders_user_id", &["user_id"], false),
                    index("idx_orders_dept_code", &["dept_code"], false),
                ],
            },
        ],
        relations: Vec::new(),
    }
}

#[test]
fn infers_high_confidence_id_relations_from_table_and_primary_key_names() {
    let schema = relation_fixture_schema();

    let aliases =
        RelationAliases::from_pairs(vec![("dept".to_string(), "department".to_string())]);
    let relations = infer_relations_from_tables(&schema.name, &schema.tables, &aliases);

    assert_eq!(relations.len(), 2);
    assert!(relations.iter().any(|relation| {
        relation.source_table == "orders"
            && relation.source_column == "user_id"
            && relation.target_table == "users"
            && relation.target_column == "id"
            && relation.source == RelationSource::Inferred
            && confidence(relation) >= 0.8
    }));
    assert!(relations.iter().any(|relation| {
        relation.source_table == "orders"
            && relation.source_column == "dept_code"
            && relation.target_table == "departments"
            && relation.target_column == "code"
            && relation.source == RelationSource::Inferred
            && confidence(relation) >= 0.8
    }));
}

#[test]
fn infers_extension_table_relations_from_same_primary_business_key() {
    let schema = DatabaseSchema {
        name: "fixture_schema".to_string(),
        tables: vec![
            Table {
                name: "ecm_archive_element_type".to_string(),
                comment: "档案元素类型".to_string(),
                columns: vec![
                    column("element_type_id", "bigint", false, "PRI"),
                    column("element_code", "varchar(30)", false, ""),
                ],
                indexes: vec![index("PRIMARY", &["element_type_id"], true)],
            },
            Table {
                name: "ecm_archive_element_type_tl".to_string(),
                comment: "档案元素类型多语言".to_string(),
                columns: vec![
                    column("element_type_id", "bigint", false, "PRI"),
                    column("lang", "varchar(10)", false, "PRI"),
                    column("name", "varchar(120)", true, ""),
                ],
                indexes: vec![index("PRIMARY", &["element_type_id", "lang"], true)],
            },
            Table {
                name: "ecm_archive_element_dtl".to_string(),
                comment: "档案元素明细".to_string(),
                columns: vec![
                    column("element_id", "bigint", false, "PRI"),
                    column("element_type_id", "bigint", false, "MUL"),
                    column("element_code", "varchar(30)", false, ""),
                ],
                indexes: vec![
                    index("PRIMARY", &["element_id"], true),
                    index("idx_element_dtl_type_id", &["element_type_id"], false),
                ],
            },
        ],
        relations: Vec::new(),
    };

    let relations = infer_relations_from_tables(&schema.name, &schema.tables, &empty_aliases());

    assert_eq!(relations.len(), 2);
    assert!(relations.iter().any(|relation| {
        relation.source_table == "ecm_archive_element_type"
            && relation.source_column == "element_type_id"
            && relation.target_table == "ecm_archive_element_type_tl"
            && relation.target_column == "element_type_id"
            && relation.relation_type == RelationType::OneToMany
            && relation.source == RelationSource::Inferred
            && confidence(relation) >= 0.88
    }));
    assert!(relations.iter().any(|relation| {
        relation.source_table == "ecm_archive_element_type"
            && relation.source_column == "element_type_id"
            && relation.target_table == "ecm_archive_element_dtl"
            && relation.target_column == "element_type_id"
            && relation.relation_type == RelationType::OneToMany
            && relation.source == RelationSource::Inferred
            && confidence(relation) >= 0.88
    }));
}

#[test]
fn discovers_interface_archive_element_and_attachment_relation_chains() {
    let schema = DatabaseSchema {
        name: "fixture_schema".to_string(),
        tables: vec![
            Table {
                name: "ecm_interface".to_string(),
                comment: "接口".to_string(),
                columns: vec![
                    column("interface_id", "bigint", false, "PRI"),
                    column("interface_code", "varchar(60)", false, ""),
                ],
                indexes: vec![index("PRIMARY", &["interface_id"], true)],
            },
            Table {
                name: "ecm_interface_param".to_string(),
                comment: "接口参数".to_string(),
                columns: vec![
                    column("param_id", "bigint", false, "PRI"),
                    column("interface_id", "bigint", false, "MUL"),
                    column("param_name", "varchar(120)", false, ""),
                ],
                indexes: vec![
                    index("PRIMARY", &["param_id"], true),
                    index("idx_interface_param_interface_id", &["interface_id"], false),
                ],
            },
            Table {
                name: "ecm_archive".to_string(),
                comment: "档案".to_string(),
                columns: vec![
                    column("archive_id", "bigint", false, "PRI"),
                    column("archive_no", "varchar(60)", false, ""),
                ],
                indexes: vec![index("PRIMARY", &["archive_id"], true)],
            },
            Table {
                name: "ecm_archive_dtl".to_string(),
                comment: "档案明细".to_string(),
                columns: vec![
                    column("archive_dtl_id", "bigint", false, "PRI"),
                    column("archive_id", "bigint", false, "MUL"),
                    column("element_id", "bigint", false, "MUL"),
                ],
                indexes: vec![
                    index("PRIMARY", &["archive_dtl_id"], true),
                    index("idx_archive_dtl_archive_id", &["archive_id"], false),
                    index("idx_archive_dtl_element_id", &["element_id"], false),
                ],
            },
            Table {
                name: "ecm_archive_element".to_string(),
                comment: "档案元素".to_string(),
                columns: vec![
                    column("element_id", "bigint", false, "PRI"),
                    column("element_code", "varchar(60)", false, ""),
                ],
                indexes: vec![index("PRIMARY", &["element_id"], true)],
            },
            Table {
                name: "ecm_archive_element_attachment".to_string(),
                comment: "元素附件".to_string(),
                columns: vec![
                    column("attachment_id", "bigint", false, "PRI"),
                    column("element_id", "bigint", false, "MUL"),
                ],
                indexes: vec![
                    index("PRIMARY", &["attachment_id"], true),
                    index("idx_element_attachment_element_id", &["element_id"], false),
                ],
            },
        ],
        relations: Vec::new(),
    };

    let relations = infer_relations_from_tables(&schema.name, &schema.tables, &empty_aliases());

    assert!(relations.iter().any(|relation| {
        relation.source_table == "ecm_interface"
            && relation.source_column == "interface_id"
            && relation.target_table == "ecm_interface_param"
            && relation.target_column == "interface_id"
            && relation.relation_type == RelationType::OneToMany
    }));
    assert!(relations.iter().any(|relation| {
        relation.source_table == "ecm_archive"
            && relation.source_column == "archive_id"
            && relation.target_table == "ecm_archive_dtl"
            && relation.target_column == "archive_id"
            && relation.relation_type == RelationType::OneToMany
    }));
    assert!(relations.iter().any(|relation| {
        relation.source_table == "ecm_archive_dtl"
            && relation.source_column == "element_id"
            && relation.target_table == "ecm_archive_element"
            && relation.target_column == "element_id"
            && relation.relation_type == RelationType::ManyToOne
    }));
    assert!(relations.iter().any(|relation| {
        relation.source_table == "ecm_archive_element"
            && relation.source_column == "element_id"
            && relation.target_table == "ecm_archive_element_attachment"
            && relation.target_column == "element_id"
            && relation.relation_type == RelationType::OneToMany
    }));
}

#[test]
fn discovers_abbreviated_interface_parameter_one_to_one_relations() {
    let schema = DatabaseSchema {
        name: "fixture_schema".to_string(),
        tables: vec![
            interface_table("ecm_arch_elem_sync_itf"),
            interface_param_table("ecm_arc_elem_sync_itf_param"),
            interface_table("ecm_archive_element_itf"),
            interface_param_table("ecm_arc_elem_asyn_itf_param"),
        ],
        relations: Vec::new(),
    };

    let relations =
        infer_relations_from_tables(&schema.name, &schema.tables, &ecm_relation_aliases());

    assert!(relations.iter().any(|relation| {
        relation.source_table == "ecm_arch_elem_sync_itf"
            && relation.source_column == "interface_id"
            && relation.target_table == "ecm_arc_elem_sync_itf_param"
            && relation.target_column == "interface_id"
            && relation.relation_type == RelationType::OneToOne
            && relation.source == RelationSource::Inferred
    }));
    assert!(relations.iter().any(|relation| {
        relation.source_table == "ecm_archive_element_itf"
            && relation.source_column == "interface_id"
            && relation.target_table == "ecm_arc_elem_asyn_itf_param"
            && relation.target_column == "interface_id"
            && relation.relation_type == RelationType::OneToOne
            && relation.source == RelationSource::Inferred
    }));
}

#[test]
fn applies_ignored_table_patterns_to_tables_and_relations() {
    let mut schema = relation_fixture_schema();
    schema.tables.push(Table {
        name: "audit_log".to_string(),
        comment: "Audit log".to_string(),
        columns: vec![column("id", "bigint", false, "PRI")],
        indexes: Vec::new(),
    });
    schema.relations = infer_relations_from_tables(&schema.name, &schema.tables, &empty_aliases());
    let config = AppConfig {
        database: data_source("jdbc:mysql://127.0.0.1:3306/fixture_schema"),
        schemas: vec!["fixture_schema".to_string()],
        tables: Some(TablesConfig {
            ignore: Some(vec!["users".to_string(), "*_log".to_string()]),
        }),
        output: engine("HTML"),
        relations: None,
    };

    apply_table_filters(&mut schema, &config);

    assert!(schema.tables.iter().any(|table| table.name == "orders"));
    assert!(!schema.tables.iter().any(|table| table.name == "users"));
    assert!(!schema.tables.iter().any(|table| table.name == "audit_log"));
    assert!(schema.relations.iter().all(|relation| {
        relation.source_table != "users"
            && relation.target_table != "users"
            && relation.source_table != "audit_log"
            && relation.target_table != "audit_log"
    }));
}

#[test]
fn reads_relation_aliases_from_config_for_discovery() {
    let aliases = vec![
        (
            "archive".to_string(),
            vec!["arc".to_string(), "arch".to_string()],
        ),
        ("element".to_string(), vec!["elem".to_string()]),
    ];
    let config = AppConfig {
        database: data_source("jdbc:mysql://127.0.0.1:3306/fixture_schema"),
        schemas: vec!["fixture_schema".to_string()],
        tables: None,
        output: engine("HTML"),
        relations: Some(RelationsConfig {
            file: None,
            aliases: Some(aliases),
        }),
    };

    let aliases = relation_aliases(&config);

    assert_eq!(aliases.get("arc").map(String::as_str), Some("archive"));
    assert_eq!(aliases.get("arch").map(String::as_str), Some("archive"));
    assert_eq!(aliases.get("elem").map(String::as_str), Some("element"));
}

#[test]
fn merge_relations_prefers_database_foreign_keys_over_inferred_duplicates() {
    let database_fk = TableRelation {
        id: "fk_orders_user_id_users_id".to_string(),
        name: Some("fk_orders_user".to_string()),
        source_schema: Some("fixture_schema".to_string()),
        source_table: "orders".to_string(),
        source_column: "user_id".to_string(),
        target_schema: Some("fixture_schema".to_string()),
        target_table: "users".to_string(),
        target_column: "id".to_string(),
        relation_type: RelationType::ManyToOne,
        source: RelationSource::DatabaseFk,
        confidence: 100,
        description: String::new(),
    };
    let inferred = TableRelation {
        id: "inferred_orders_user_id_users_id".to_string(),
        source: RelationSource::Inferred,
        confidence: 84,
        ..database_fk.clone()
    };

    let merged = merge_relations(vec![database_fk], Vec::new(), vec![inferred]);

    assert_eq!(merged.len(), 1);
    assert_eq!(merged[0].source, RelationSource::DatabaseFk);
    assert_eq!(confidence(&merged[0]), 1.0);
}

#[test]
fn merge_relations_keeps_external_relations_as_first_class_metadata() {
    let external = TableRelation {
        id: "uploaded_orders_created_by_users_id".to_string(),
        name: None,
        source_schema: None,
        source_table: "orders".to_string(),
        source_column: "created_by".to_string(),
        target_schema: None,
        target_table: "users".to_string(),
        target_column: "id".to_string(),
        relation_type: RelationType::ManyToOne,
        source: RelationSource::Uploaded,
        confidence: 95,
        description: "创建人".to_string(),
    };

    let merged = merge_relations(Vec::new(), vec![external], Vec::new());

    assert_eq!(merged.len(), 1);
    assert_eq!(merged[0].source, RelationSource::Uploaded);
    assert_eq!(merged[0].source_column, "created_by");
}

#[test]
fn table_patterns_match_case_insensitively_with_wildcards() {
    assert!(table_pattern_matches("users", "USERS"));
    assert!(!table_pattern_matches("users", "user"));
    assert!(table_pattern_matches("audit_log", "*_log"));
    assert!(!table_pattern_matches("audit_logs", "*_log"));
    assert!(table_pattern_matches("ab", "a*b"));
    assert!(!table_pattern_matches("ab", "ab*b"));
    assert!(table_pattern_matches("abab", "ab*ab"));
    assert!(table_pattern_matches("anything", "**"));
    assert!(table_pattern_matches("x_bak_y", "*bak*"));
}

#[test]
fn prepared_schemas_drop_ignored_tables_and_dangling_relations() {
    let mut schema = relation_fixture_schema();
    schema.tables.push(Table {
        name: "audit_log".to_string(),
        comment: "Audit log".to_string(),
        columns: vec![column("id", "bigint", false, "PRI"), column("user_id", "bigint", true, "MUL")],
        indexes: Vec::new(),
    });
    let config = AppConfig {
        database: data_source("jdbc:mysql://127.0.0.1:3306/fixture_schema"),
        schemas: vec!["  ".to_string(), " fixture_schema ".to_string()],
        tables: Some(TablesConfig { ignore: Some(vec![" *_LOG ".to_string(), "   ".to_string()]) }),
        output: OutputConfig { dir: " out ".to_string(), ..engine("HTML") },
        relations: Some(RelationsConfig { file: Some("  ".to_string()), aliases: None }),
    };
    assert!(validate_config(&config).is_ok());
    assert_eq!(selected_schemas(&config), vec!["fixture_schema".to_string()]);
    assert_eq!(relation_file_to_read(&config), None);

    let external = vec![TableRelation {
        id: "uploaded_audit".to_string(),
        name: None,
        source_schema: Some("fixture_schema".to_string()),
        source_table: "audit_log".to_string(),
        source_column: "user_id".to_string(),
        target_schema: Some("fixture_schema".to_string()),
        target_table: "users".to_string(),
        target_column: "id".to_string(),
        relation_type: RelationType::ManyToOne,
        source: RelationSource::Uploaded,
        confidence: 95,
        description: String::new(),
    }];
    let prepared = prepare_schema(schema, &config, "fixture_schema", external);

    assert_eq!(prepared.tables.len(), 3);
    assert!(prepared.relations.iter().all(|r| r.source_table != "audit_log"));
    assert!(prepared.relations.iter().any(|r| {
        r.source_table == "orders" && r.source_column == "user_id" && r.source == RelationSource::Inferred
    }));
}
