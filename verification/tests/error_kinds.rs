use riwaq_host::error::ErrorKind;
use riwaq_host::gql::gql_helper::value_to_gql_input_type;
use riwaq_host::gql::gql_helper::MetadataError;
use riwaq_host::gql::gql_loader::Gql;
use riwaq_host::gql::gql_loader::LoaderError;
use riwaq_host::gql::gql_loader::SchemaError;
use riwaq_host::json::Json;
use riwaq_host::sql::sql_loader::MigrationError;
use riwaq_host::state::Orgs;
use riwaq_host::state::TenantNotFound;
use riwaq_host::wasm::wasm_helper::AbiError;
use riwaq_host::wasm::wasm_loader::Export;
use riwaq_host::wasm::wasm_loader::Exports;
use riwaq_host::wasm::wasm_loader::ExternKind;
use riwaq_host::wasm::wasm_loader::LoadError;
use riwaq_host::wasm::wasm_loader::Module;

fn function(name: &str) -> Export {
    Export { name: name.to_string(), kind: ExternKind::Function, returned: None }
}

#[test]
fn unknown_scalar_is_a_failure_of_the_metadata() {
    let e = value_to_gql_input_type("x".to_string(), Json::String("complex128".to_string()))
        .unwrap_err();
    assert_eq!(e.kind(), ErrorKind::LoaderInvalidMetadata);
    assert_eq!(e.message(), "invalid metadata type: \"complex128\"");
}

#[test]
fn shapeless_object_is_a_failure_of_the_metadata() {
    let e = value_to_gql_input_type("x".to_string(), Json::Object(vec![])).unwrap_err();
    assert_eq!(e.kind(), ErrorKind::LoaderInvalidMetadata);
    assert_eq!(e.message(), "invalid metadata content");
    let wrapped = LoaderError::InvalidMetadata(e);
    assert_eq!(wrapped.kind(), ErrorKind::LoaderInvalidMetadata);
    assert_eq!(wrapped.message(), "invalid metadata content");
}

#[test]
fn missing_memory_or_allocator_is_a_failure_of_the_instantiation() {
    let no_memory = Exports { items: vec![function("str_malloc")] };
    let e = Orgs::load_wasm("acme", vec![Module { exports: no_memory, tables: vec![] }], None)
        .unwrap_err();
    assert_eq!(e.kind(), ErrorKind::LoaderInstantiation);
    assert_eq!(e.message(), "missing export: memory");
    let no_allocator = Exports {
        items: vec![Export { name: "memory".to_string(), kind: ExternKind::Memory, returned: None }],
    };
    let e = Orgs::load_wasm("acme", vec![Module { exports: no_allocator, tables: vec![] }], None)
        .unwrap_err();
    assert_eq!(e.kind(), ErrorKind::LoaderInstantiation);
    assert_eq!(e.message(), "missing export: str_malloc");
}

#[test]
fn empty_tenant_fails_the_build_with_no_fields() {
    let e = Orgs::load_wasm("acme", vec![], None).unwrap_err();
    assert_eq!(e, LoadError::Schema(SchemaError::NoFields));
    assert_eq!(e.kind(), ErrorKind::SchemaBuild);
    assert_eq!(e.message(), "no fields");
    let e = Gql::new().build_schema().unwrap_err();
    assert_eq!(e.kind(), ErrorKind::SchemaBuild);
    assert_eq!(e.message(), "no fields");
}

#[test]
fn failures_of_the_schema_name_the_type() {
    assert_eq!(SchemaError::DuplicateType("Row".to_string()).message(), "duplicate type: Row");
    assert_eq!(SchemaError::UnknownType("Row".to_string()).message(), "unknown type: Row");
    assert_eq!(SchemaError::UnknownType("Row".to_string()).kind(), ErrorKind::SchemaBuild);
}

#[test]
fn failures_of_the_loader_have_their_kinds() {
    let missing = LoaderError::MissingExport("handler_q".to_string());
    assert_eq!(missing.kind(), ErrorKind::LoaderInstantiation);
    assert_eq!(missing.message(), "missing export: handler_q");
    let invocation = LoaderError::Invocation("handler_metadata_q".to_string());
    assert_eq!(invocation.kind(), ErrorKind::AbiInvocation);
    assert_eq!(invocation.message(), "invocation failed: handler_metadata_q");
    assert_eq!(LoadError::Loader(missing).kind(), ErrorKind::LoaderInstantiation);
    assert_eq!(LoadError::Loader(invocation).kind(), ErrorKind::AbiInvocation);
    assert_eq!(
        LoadError::Loader(LoaderError::InvalidMetadata(MetadataError::InvalidContent)).message(),
        "invalid metadata content"
    );
}

#[test]
fn failures_of_calls_migrations_and_lookups_have_their_kinds() {
    for e in [
        AbiError::MissingExport,
        AbiError::Allocation,
        AbiError::Trap,
        AbiError::Parse,
        AbiError::Decode,
    ] {
        assert_eq!(e.kind(), ErrorKind::AbiInvocation);
    }
    assert_eq!(MigrationError::NoPool.kind(), ErrorKind::MigrationFailure);
    assert_eq!(MigrationError::NoConnection.kind(), ErrorKind::MigrationFailure);
    assert_eq!(MigrationError::Failed("x".to_string()).kind(), ErrorKind::MigrationFailure);
    assert_eq!(TenantNotFound {}.kind(), ErrorKind::TenantNotFound);
}
