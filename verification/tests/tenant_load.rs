use riwaq_host::gql::gql_loader::LoaderError;
use riwaq_host::gql::gql_loader::SchemaError;
use riwaq_host::json::Json;
use riwaq_host::sql::driver::databend::select_row;
use riwaq_host::sql::driver::databend::Databend;
use riwaq_host::sql::driver::model::DB;
use riwaq_host::sql::driver::databend::DatabendConnParams;
use riwaq_host::sql::driver::databend::DatabendPool;
use riwaq_host::sql::driver::migration::Statement;
use riwaq_host::sql::driver::model::ColumnDDL;
use riwaq_host::sql::driver::model::DDLOp;
use riwaq_host::sql::driver::model::TableDDL;
use riwaq_host::sql::driver::model::TableDDLOp;
use riwaq_host::sql::sql_loader::DbConnError;
use riwaq_host::sql::sql_loader::MigrationError;
use riwaq_host::sql::sql_loader::Sql;
use riwaq_host::sql::sql_loader::SqlModule;
use riwaq_host::state::Orgs;
use riwaq_host::state::StorageConfig;
use riwaq_host::state::StorageOrgBy;
use riwaq_host::state::TenantNotFound;
use riwaq_host::wasm::wasm_loader::is_module_entry;
use riwaq_host::wasm::wasm_loader::Export;
use riwaq_host::wasm::wasm_loader::ExternKind;
use riwaq_host::wasm::wasm_loader::Exports;
use riwaq_host::wasm::wasm_loader::LoadError;
use riwaq_host::wasm::wasm_loader::Module;

fn function(name: &str) -> Export {
    Export { name: name.to_string(), kind: ExternKind::Function, returned: None }
}

fn described(name: &str, text: &str) -> Export {
    Export { name: name.to_string(), kind: ExternKind::Function, returned: Some(text.to_string()) }
}

fn memory_export() -> Export {
    Export { name: "memory".to_string(), kind: ExternKind::Memory, returned: None }
}

fn table(name: &str) -> TableDDL {
    TableDDL {
        name: name.to_string(),
        op: TableDDLOp::CreateOrAlter,
        cols: vec![ColumnDDL {
            name: "a".to_string(),
            ty: "INT".to_string(),
            opt: false,
            default: None,
            op: DDLOp::Keep,
        }],
    }
}

fn handler_module(handler: &str, output: &str) -> Exports {
    let metadata = format!(
        "{{\"input\": \"i32\", \"output\": {{\"_name_\": \"{}\", \"y\": \"String\"}}}}",
        output
    );
    Exports {
        items: vec![
            memory_export(),
            function("str_malloc"),
            described(&format!("handler_metadata_{}", handler), &metadata),
            function(&format!("handler_{}", handler)),
        ],
    }
}

fn storage(org_by: StorageOrgBy) -> StorageConfig {
    StorageConfig {
        kind: "fs".to_string(),
        opt: vec![
            ("root".to_string(), "/srv/dist".to_string()),
            ("bucket".to_string(), "shared".to_string()),
            ("region".to_string(), "eu".to_string()),
        ],
        org_by,
    }
}

fn pool(url: &str, db: &str) -> DatabendPool {
    DatabendPool { conn_str: url.to_string(), db_name: db.to_string() }
}

#[test]
fn layout_defaults_to_directories() {
    assert_eq!(StorageOrgBy::default(), StorageOrgBy::Dir);
}

#[test]
fn tenant_storage_by_directory() {
    let s = storage(StorageOrgBy::Dir).for_org("acme");
    assert_eq!(s.kind, "fs");
    assert_eq!(s.org_by, StorageOrgBy::Dir);
    assert_eq!(
        s.opt,
        vec![
            ("root".to_string(), "/srv/dist/acme".to_string()),
            ("bucket".to_string(), "shared".to_string()),
            ("region".to_string(), "eu".to_string()),
        ]
    );
}

#[test]
fn tenant_storage_by_bucket() {
    let s = storage(StorageOrgBy::Bucket).for_org("acme");
    assert_eq!(
        s.opt,
        vec![
            ("root".to_string(), "/srv/dist".to_string()),
            ("bucket".to_string(), "acme".to_string()),
            ("region".to_string(), "eu".to_string()),
        ]
    );
}

#[test]
fn module_entries_end_in_wasm_and_do_not_begin_with_a_comma() {
    assert!(is_module_entry("app.wasm"));
    assert!(is_module_entry(".wasm"));
    assert!(!is_module_entry(",app.wasm"));
    assert!(!is_module_entry("app.wasm.bak"));
    assert!(!is_module_entry("app.wat"));
    assert!(!is_module_entry(""));
}

#[test]
fn descriptive_exports_are_those_the_host_calls() {
    assert!(Exports::is_descriptive_export("table_ddl_t"));
    assert!(Exports::is_descriptive_export("settings_db_conn"));
    assert!(Exports::is_descriptive_export("handler_metadata_q"));
    assert!(!Exports::is_descriptive_export("handler_q"));
    assert!(!Exports::is_descriptive_export("settings_db_conn2"));
    assert!(!Exports::is_descriptive_export("str_malloc"));
}

#[test]
fn exports_are_found_by_name_and_kind() {
    let instance = handler_module("q", "Out");
    assert!(instance.has_export("memory", ExternKind::Memory));
    assert!(!instance.has_export("memory", ExternKind::Function));
    assert_eq!(instance.find("handler_q", ExternKind::Function), Some(3));
    assert_eq!(instance.find("handler_q", ExternKind::Table), None);
    assert_eq!(instance.find("nothing", ExternKind::Function), None);
    assert_eq!(instance.check_exports(), None);
}

#[test]
fn connection_parameters_make_the_pool() {
    let params = DatabendConnParams::new("databend://h".to_string(), "acme".to_string());
    assert_eq!(Databend::init(params), Ok(pool("databend://h", "acme")));
    assert_eq!(pool("u", "d").copy(), pool("u", "d"));
}

#[test]
fn database_from_the_settings_of_the_module() {
    let instance = Exports {
        items: vec![described("settings_db_conn", r#"{"url": "databend://h", "db_name": "main"}"#)],
    };
    assert_eq!(Sql::load_db_conn(&instance, "acme", Some("x")), Ok(pool("databend://h", "main")));
    for text in [r#"{"url": "databend://h"}"#, r#"{"url": "databend://h", "db_name": null}"#] {
        let instance = Exports { items: vec![described("settings_db_conn", text)] };
        assert_eq!(Sql::load_db_conn(&instance, "acme", None), Ok(pool("databend://h", "acme")));
    }
}

#[test]
fn database_from_the_template_of_the_host() {
    let instance = Exports { items: vec![memory_export()] };
    assert_eq!(
        Sql::load_db_conn(&instance, "acme", Some("databend://root@h/{{org}}?x={{org}}")),
        Ok(pool("databend://root@h/acme?x=acme", "acme"))
    );
    assert_eq!(Sql::load_db_conn(&instance, "acme", None), Err(DbConnError::NoUrl));
}

#[test]
fn settings_that_cannot_be_used() {
    let instance = Exports { items: vec![function("settings_db_conn")] };
    assert_eq!(Sql::load_db_conn(&instance, "acme", Some("x")), Err(DbConnError::Invocation));
    for text in ["{", "[]", "{}", r#"{"url": 7}"#, r#"{"url": "u", "db_name": 7}"#] {
        let instance = Exports { items: vec![described("settings_db_conn", text)] };
        assert_eq!(
            Sql::load_db_conn(&instance, "acme", Some("x")),
            Err(DbConnError::InvalidSettings)
        );
    }
}

#[test]
fn table_exports_hand_out_their_texts_in_order() {
    let instance = Exports {
        items: vec![
            described("table_ddl_a", "A"),
            described("handler_metadata_q", "Q"),
            function("table_ddl_b"),
            Export { name: "table_ddl_c".to_string(), kind: ExternKind::Global, returned: None },
            described("table_ddl_d", "D"),
        ],
    };
    assert_eq!(
        Sql::ddl_texts(&instance),
        vec![Some("A".to_string()), None, Some("D".to_string())]
    );
}

#[test]
fn tables_that_could_not_be_read_are_left_out() {
    let instance = Exports { items: vec![] };
    let module =
        Sql::load_ddl(&instance, vec![Some(table("a")), None, Some(table("b")), None], "acme", None);
    assert_eq!(module, SqlModule { tables: vec![table("a"), table("b")], pool: None });
    let module = Sql::load_ddl(&instance, vec![], "acme", Some("db/{{org}}"));
    assert_eq!(module, SqlModule { tables: vec![], pool: Some(pool("db/acme", "acme")) });
}

#[test]
fn module_migration_creates_the_database_first() {
    let module = SqlModule { tables: vec![table("a"), table("b")], pool: Some(pool("u", "acme")) };
    let plan = module.migrate("acme").unwrap();
    assert_eq!(plan.pool, pool("u", "acme"));
    assert_eq!(
        plan.create_database,
        Statement { sql: "CREATE DATABASE IF NOT EXISTS acme;".to_string(), fatal: true }
    );
    assert_eq!(plan.tables.len(), 2);
    assert_eq!(plan.tables[0].describe, Some("DESC acme.a".to_string()));
    assert_eq!(plan.tables[1].describe, Some("DESC acme.b".to_string()));
}

#[test]
fn migration_without_a_pool_fails() {
    let module = SqlModule { tables: vec![table("a")], pool: None };
    assert_eq!(module.migrate("acme").err(), Some(MigrationError::NoPool));
    let sql = Sql {
        modules: vec![
            SqlModule { tables: vec![], pool: Some(pool("u", "acme")) },
            SqlModule { tables: vec![], pool: None },
            SqlModule { tables: vec![], pool: Some(pool("u", "acme")) },
        ],
    };
    let (plans, end) = sql.migrate("acme");
    assert_eq!(plans.len(), 1);
    assert_eq!(end, Err(MigrationError::NoPool));
    let (plans, end) = Sql::new().migrate("acme");
    assert_eq!(plans.len(), 0);
    assert_eq!(end, Ok(()));
}

#[test]
fn rows_of_a_selection_become_objects() {
    let cols = vec!["a".to_string(), "b".to_string()];
    let one = Json::Number("1".to_string());
    assert_eq!(
        select_row(&cols, vec![one.copy(), Json::Null]),
        Json::Object(vec![("a".to_string(), one.copy()), ("b".to_string(), Json::Null)])
    );
    assert_eq!(
        select_row(&cols, vec![one.copy(), Json::Null, Json::Bool(true)]),
        Json::Object(vec![("a".to_string(), one.copy()), ("b".to_string(), Json::Null)])
    );
    assert_eq!(select_row(&cols, vec![one.copy()]), Json::Object(vec![("a".to_string(), one)]));
    assert_eq!(select_row(&vec![], vec![Json::Null]), Json::Object(vec![]));
}

#[test]
fn empty_tenant_has_no_fields_and_is_not_installed() {
    let mut orgs = Orgs::new(storage(StorageOrgBy::Dir));
    let first = Orgs::load_wasm(
        "acme",
        vec![Module { exports: handler_module("q", "Out"), tables: vec![] }],
        None,
    )
    .unwrap();
    assert_eq!(orgs.finish_reload(first, Ok(())), Ok(()));
    let installed = orgs.get("acme").unwrap().gql.handlers().len();
    assert_eq!(installed, 1);
    assert_eq!(
        Orgs::load_wasm("acme", vec![], None).err(),
        Some(LoadError::Schema(SchemaError::NoFields))
    );
    assert_eq!(orgs.get("acme").unwrap().gql.handlers().len(), 1);
    assert_eq!(orgs.get("other").err(), Some(TenantNotFound {}));
}

#[test]
fn module_without_memory_or_allocator_is_not_instantiated() {
    let no_memory = Exports { items: vec![function("str_malloc")] };
    assert_eq!(no_memory.check_exports(), Some("memory".to_string()));
    assert_eq!(
        Orgs::load_wasm("acme", vec![Module { exports: no_memory, tables: vec![] }], None).err(),
        Some(LoadError::Instantiation("memory".to_string()))
    );
    let no_allocator = Exports { items: vec![memory_export()] };
    assert_eq!(
        Orgs::load_wasm(
            "acme",
            vec![
                Module { exports: handler_module("q", "Out"), tables: vec![] },
                Module { exports: no_allocator, tables: vec![] },
            ],
            None
        )
        .err(),
        Some(LoadError::Instantiation("str_malloc".to_string()))
    );
    let wrong_kind = Exports {
        items: vec![
            Export { name: "memory".to_string(), kind: ExternKind::Function, returned: None },
            function("str_malloc"),
        ],
    };
    assert_eq!(wrong_kind.check_exports(), Some("memory".to_string()));
}

#[test]
fn handler_that_does_not_link_fails_the_load() {
    let mut broken = handler_module("q", "Out");
    broken.items.pop();
    assert_eq!(
        Orgs::load_wasm("acme", vec![Module { exports: broken, tables: vec![] }], None).err(),
        Some(LoadError::Loader(LoaderError::MissingExport("handler_q".to_string())))
    );
}

#[test]
fn modules_bring_their_tables_and_pools() {
    let loaded = Orgs::load_wasm(
        "acme",
        vec![
            Module { exports: handler_module("q", "Out"), tables: vec![None, Some(table("a"))] },
            Module { exports: handler_module("r", "Other"), tables: vec![] },
        ],
        Some("db/{{org}}"),
    )
    .unwrap();
    assert_eq!(loaded.org, "acme");
    assert_eq!(loaded.gql.handlers().len(), 2);
    assert_eq!(loaded.gql.handlers()[0].module, 0);
    assert_eq!(loaded.gql.handlers()[0].symbol, "handler_q");
    assert_eq!(loaded.gql.handlers()[1].module, 1);
    assert_eq!(loaded.gql.handlers()[1].symbol, "handler_r");
    assert_eq!(
        loaded.sql,
        Sql {
            modules: vec![
                SqlModule { tables: vec![table("a")], pool: Some(pool("db/acme", "acme")) },
                SqlModule { tables: vec![], pool: Some(pool("db/acme", "acme")) },
            ]
        }
    );
}

#[test]
fn failed_migration_leaves_the_registry() {
    let mut orgs = Orgs::new(storage(StorageOrgBy::Dir));
    let loaded = Orgs::load_wasm(
        "acme",
        vec![Module { exports: handler_module("q", "Out"), tables: vec![] }],
        None,
    )
    .unwrap();
    assert_eq!(orgs.finish_reload(loaded, Err(MigrationError::NoPool)), Err(MigrationError::NoPool));
    assert_eq!(orgs.get("acme").err(), Some(TenantNotFound {}));
    let loaded = Orgs::load_wasm(
        "acme",
        vec![Module { exports: handler_module("q", "Out"), tables: vec![] }],
        None,
    )
    .unwrap();
    assert_eq!(
        orgs.finish_reload(loaded, Err(MigrationError::NoConnection)),
        Err(MigrationError::NoConnection)
    );
    assert_eq!(orgs.get("acme").err(), Some(TenantNotFound {}));
}

#[test]
fn last_reload_wins_and_tenants_are_apart() {
    let mut orgs = Orgs::new(storage(StorageOrgBy::Dir));
    for (org, output) in [("a", "First"), ("b", "Other"), ("a", "Second"), ("a", "Third")] {
        let loaded = Orgs::load_wasm(
            org,
            vec![Module { exports: handler_module("q", output), tables: vec![] }],
            None,
        )
        .unwrap();
        orgs.install(loaded.org, loaded.gql);
    }
    let a = &orgs.get("a").unwrap().gql;
    let b = &orgs.get("b").unwrap().gql;
    assert_eq!(a.handlers()[0].name, "q");
    assert_eq!(a.handlers()[0].output_type, "Third");
    assert_eq!(a.output_objects().len(), 1);
    assert_eq!(a.output_objects()[0].name, "Third");
    assert_eq!(b.handlers()[0].name, "q");
    assert_eq!(b.handlers()[0].output_type, "Other");
    assert_eq!(b.output_objects().len(), 1);
    assert_eq!(b.output_objects()[0].name, "Other");
    assert_eq!(orgs.storage(), &storage(StorageOrgBy::Dir));
}
