use riwaq_host::gql::gql_helper::Field;
use riwaq_host::gql::gql_helper::InputObject;
use riwaq_host::gql::gql_helper::InputValue;
use riwaq_host::gql::gql_helper::MetadataError;
use riwaq_host::gql::gql_helper::Object;
use riwaq_host::gql::gql_helper::TypeRef;
use riwaq_host::gql::gql_helper::TypeRefKind;
use riwaq_host::gql::gql_loader::Gql;
use riwaq_host::gql::gql_loader::Handler;
use riwaq_host::gql::gql_loader::LoaderError;
use riwaq_host::gql::gql_loader::SchemaError;
use riwaq_host::json::Json;
use riwaq_host::wasm::wasm_loader::Export;
use riwaq_host::wasm::wasm_loader::ExternKind;
use riwaq_host::wasm::wasm_loader::Exports;

fn function(name: &str) -> Export {
    Export { name: name.to_string(), kind: ExternKind::Function, returned: None }
}

fn described(name: &str, text: &str) -> Export {
    Export { name: name.to_string(), kind: ExternKind::Function, returned: Some(text.to_string()) }
}

fn memory() -> Export {
    Export { name: "memory".to_string(), kind: ExternKind::Memory, returned: None }
}

fn non_null(name: &str) -> TypeRef {
    TypeRef { kind: TypeRefKind::NamedNN, name: name.to_string() }
}

const ECHO: &str =
    r#"{"input": {"_name_": "In", "x": "i32"}, "output": {"_name_": "Out", "y": "String"}}"#;

fn echo_module() -> Exports {
    Exports {
        items: vec![
            memory(),
            function("str_malloc"),
            described("handler_metadata_echo", ECHO),
            function("handler_echo"),
        ],
    }
}

fn echo_handler() -> Handler {
    Handler {
        module: 0,
        name: "echo".to_string(),
        args: vec![InputValue { name: "x".to_string(), ty: non_null("Int") }],
        input_type: "In".to_string(),
        output_type: "Out".to_string(),
        symbol: "handler_echo".to_string(),
    }
}

fn out_object() -> Object {
    Object {
        name: "Out".to_string(),
        fields: vec![Field { name: "y".to_string(), ty: non_null("String") }],
    }
}

#[test]
fn scalar_round_trip_handler_is_linked() {
    let gql = Gql::new().load_handlers(0, &echo_module()).unwrap();
    let schema = gql.build_schema().unwrap();
    assert_eq!(schema.handlers(), &vec![echo_handler()]);
    assert_eq!(schema.input_objects(), &Vec::<InputObject>::new());
    assert_eq!(schema.output_objects(), &vec![out_object()]);
}

#[test]
fn schema_without_handlers_has_no_fields() {
    assert_eq!(Gql::new().build_schema().err(), Some(SchemaError::NoFields));
    let module = Exports { items: vec![memory(), function("str_malloc")] };
    let gql = Gql::new().load_handlers(0, &module).unwrap();
    assert_eq!(gql.build_schema().err(), Some(SchemaError::NoFields));
}

#[test]
fn exports_that_are_no_handler_metadata_are_passed_over() {
    let module = Exports {
        items: vec![
            Export {
                name: "handler_metadata_table".to_string(),
                kind: ExternKind::Table,
                returned: None,
            },
            described("table_ddl_t", "{}"),
            described("xhandler_metadata_q", "{}"),
            function("handler_q"),
        ],
    };
    let gql = Gql::new().load_handlers(0, &module).unwrap();
    assert_eq!(gql, Gql::new());
}

#[test]
fn handler_without_dispatch_function_is_a_missing_export() {
    let module = Exports { items: vec![described("handler_metadata_echo", ECHO)] };
    assert_eq!(
        Gql::new().load_handlers(0, &module).err(),
        Some(LoaderError::MissingExport("handler_echo".to_string()))
    );
    let module = Exports {
        items: vec![
            described("handler_metadata_echo", ECHO),
            Export { name: "handler_echo".to_string(), kind: ExternKind::Global, returned: None },
        ],
    };
    assert_eq!(
        Gql::new().load_handlers(0, &module).err(),
        Some(LoaderError::MissingExport("handler_echo".to_string()))
    );
}

#[test]
fn metadata_that_was_not_returned_is_an_invocation_failure() {
    let module =
        Exports { items: vec![function("handler_metadata_echo"), function("handler_echo")] };
    assert_eq!(
        Gql::new().load_handlers(0, &module).err(),
        Some(LoaderError::Invocation("handler_metadata_echo".to_string()))
    );
}

#[test]
fn metadata_that_is_no_json_is_an_invocation_failure() {
    let module = Exports {
        items: vec![described("handler_metadata_echo", "{input"), function("handler_echo")],
    };
    assert_eq!(
        Gql::new().load_handlers(0, &module).err(),
        Some(LoaderError::Invocation("handler_metadata_echo".to_string()))
    );
}

#[test]
fn metadata_without_input_or_output_is_invalid() {
    for text in [r#"{"input": "i32"}"#, r#"{"output": {"_name_": "O"}}"#, "[]", "7"] {
        let module = Exports {
            items: vec![described("handler_metadata_echo", text), function("handler_echo")],
        };
        assert_eq!(
            Gql::new().load_handlers(0, &module).err(),
            Some(LoaderError::InvalidMetadata(MetadataError::InvalidContent))
        );
    }
}

#[test]
fn invalid_descriptor_is_invalid_metadata() {
    let text = r#"{"input": "complex128", "output": {"_name_": "Out", "y": "String"}}"#;
    let module = Exports {
        items: vec![described("handler_metadata_echo", text), function("handler_echo")],
    };
    assert_eq!(
        Gql::new().load_handlers(0, &module).err(),
        Some(LoaderError::InvalidMetadata(MetadataError::InvalidType(Json::String(
            "complex128".to_string()
        ))))
    );
}

#[test]
fn output_without_a_name_is_invalid_metadata() {
    let text = r#"{"input": "i32", "output": {"y": "String"}}"#;
    let module = Exports {
        items: vec![described("handler_metadata_echo", text), function("handler_echo")],
    };
    assert_eq!(
        Gql::new().load_handlers(0, &module).err(),
        Some(LoaderError::InvalidMetadata(MetadataError::InvalidContent))
    );
}

#[test]
fn first_failing_handler_decides_the_error() {
    let module = Exports {
        items: vec![
            described("handler_metadata_a", ECHO),
            function("handler_a"),
            function("handler_metadata_b"),
            described("handler_metadata_c", "nonsense"),
        ],
    };
    assert_eq!(
        Gql::new().load_handlers(0, &module).err(),
        Some(LoaderError::Invocation("handler_metadata_b".to_string()))
    );
}

#[test]
fn handlers_of_several_modules_add_up() {
    let other = r#"{"input": {"container": "Obj", "content": {"_name_": "Filter", "q": "String"}}, "output": {"_name_": "Hits", "n": "u32"}}"#;
    let second = Exports {
        items: vec![described("handler_metadata_search", other), function("handler_search")],
    };
    let gql = Gql::new().load_handlers(0, &echo_module()).unwrap().load_handlers(1, &second).unwrap();
    let schema = gql.build_schema().unwrap();
    let search = Handler {
        module: 1,
        name: "search".to_string(),
        args: vec![InputValue { name: "input".to_string(), ty: non_null("Filter") }],
        input_type: "Filter".to_string(),
        output_type: "Hits".to_string(),
        symbol: "handler_search".to_string(),
    };
    assert_eq!(schema.handlers(), &vec![echo_handler(), search]);
    assert_eq!(
        schema.input_objects(),
        &vec![InputObject {
            name: "Filter".to_string(),
            fields: vec![InputValue { name: "q".to_string(), ty: non_null("String") }],
        }]
    );
    assert_eq!(
        schema.output_objects(),
        &vec![
            out_object(),
            Object {
                name: "Hits".to_string(),
                fields: vec![Field { name: "n".to_string(), ty: non_null("Int") }],
            },
        ]
    );
}

#[test]
fn type_name_used_twice_fails_the_build() {
    let second = Exports {
        items: vec![described("handler_metadata_again", ECHO), function("handler_again")],
    };
    let gql = Gql::new().load_handlers(0, &echo_module()).unwrap().load_handlers(0, &second).unwrap();
    assert_eq!(gql.build_schema().err(), Some(SchemaError::DuplicateType("Out".to_string())));
}

#[test]
fn object_named_as_the_query_type_fails_the_build() {
    let text = r#"{"input": "i32", "output": {"_name_": "Query", "y": "String"}}"#;
    let module =
        Exports { items: vec![described("handler_metadata_q", text), function("handler_q")] };
    let gql = Gql::new().load_handlers(0, &module).unwrap();
    assert_eq!(gql.build_schema().err(), Some(SchemaError::DuplicateType("Query".to_string())));
}

#[test]
fn input_and_output_object_of_one_name_fail_the_build() {
    let text = r#"{"input": {"container": "Obj", "content": {"_name_": "T", "a": "i8"}}, "output": {"_name_": "T", "y": "String"}}"#;
    let module =
        Exports { items: vec![described("handler_metadata_q", text), function("handler_q")] };
    let gql = Gql::new().load_handlers(0, &module).unwrap();
    assert_eq!(gql.build_schema().err(), Some(SchemaError::DuplicateType("T".to_string())));
}

#[test]
fn type_that_is_used_and_not_declared_fails_the_build() {
    let text = r#"{"input": {"container": "Vec", "content": {"_name_": "Row", "v": "i64"}}, "output": {"_name_": "Out", "y": "String"}}"#;
    let module =
        Exports { items: vec![described("handler_metadata_q", text), function("handler_q")] };
    let gql = Gql::new().load_handlers(0, &module).unwrap();
    assert_eq!(gql.build_schema().err(), Some(SchemaError::UnknownType("Row".to_string())));
}

#[test]
fn output_field_of_an_input_object_type_fails_the_build() {
    let text = r#"{"input": {"container": "Obj", "content": {"_name_": "In", "a": "i8"}}, "output": {"_name_": "Out", "again": {"container": "Option", "content": {"_name_": "In", "a": "i8"}}}}"#;
    let module =
        Exports { items: vec![described("handler_metadata_q", text), function("handler_q")] };
    let gql = Gql::new().load_handlers(0, &module).unwrap();
    assert_eq!(gql.build_schema().err(), Some(SchemaError::UnknownType("In".to_string())));
}

#[test]
fn type_declared_by_another_handler_is_known() {
    let first = r#"{"input": "i32", "output": {"_name_": "Out", "row": {"container": "Obj", "content": {"_name_": "Row", "v": "i64"}}}}"#;
    let second = r#"{"input": "i32", "output": {"_name_": "List", "rows": {"container": "Vec", "content": {"_name_": "Row", "v": "i64"}}}}"#;
    let module = Exports {
        items: vec![
            described("handler_metadata_a", first),
            function("handler_a"),
            described("handler_metadata_b", second),
            function("handler_b"),
        ],
    };
    let schema = Gql::new().load_handlers(0, &module).unwrap().build_schema().unwrap();
    assert_eq!(schema.handlers().len(), 2);
    assert_eq!(schema.output_objects().len(), 3);
}

#[test]
fn duplicate_is_reported_before_an_unknown_type() {
    let text = r#"{"input": {"container": "Vec", "content": {"_name_": "Row", "v": "i64"}}, "output": {"_name_": "Query", "y": "String"}}"#;
    let module =
        Exports { items: vec![described("handler_metadata_q", text), function("handler_q")] };
    let gql = Gql::new().load_handlers(0, &module).unwrap();
    assert_eq!(gql.build_schema().err(), Some(SchemaError::DuplicateType("Query".to_string())));
}

fn output_module(output: &str) -> Exports {
    let text = format!("{{\"input\": {{\"_name_\": \"In\", \"x\": \"i32\"}}, \"output\": {}}}", output);
    Exports { items: vec![described("handler_metadata_q", &text), function("handler_q")] }
}

#[test]
fn scalar_output_is_invalid_metadata() {
    for output in ["\"i32\"", "\"String\"", "\"complex128\""] {
        let r = Gql::new().load_handlers(0, &output_module(output));
        assert_eq!(r, Err(LoaderError::InvalidMetadata(MetadataError::InvalidContent)));
    }
}

#[test]
fn container_output_is_invalid_metadata() {
    for output in [
        r#"{"container": "Vec", "content": {"_name_": "Row", "v": "i64"}}"#,
        r#"{"container": "Option", "content": {"_name_": "Row", "v": "i64"}}"#,
        r#"{"container": "Obj", "content": {"_name_": "Row", "v": "i64"}}"#,
        r#"{"container": "Vec", "content": "i32"}"#,
    ] {
        let r = Gql::new().load_handlers(0, &output_module(output));
        assert_eq!(r, Err(LoaderError::InvalidMetadata(MetadataError::InvalidContent)));
    }
}

#[test]
fn output_whose_name_is_no_text_is_invalid_metadata() {
    for output in [r#"{"_name_": 7, "y": "String"}"#, r#"{"_name_": null}"#, "null", "[]", "7"] {
        let r = Gql::new().load_handlers(0, &output_module(output));
        assert_eq!(r, Err(LoaderError::InvalidMetadata(MetadataError::InvalidContent)));
    }
}

#[test]
fn output_is_looked_at_before_the_input_is_compiled() {
    let text = r#"{"input": "complex128", "output": "i32"}"#;
    let module =
        Exports { items: vec![described("handler_metadata_q", text), function("handler_q")] };
    assert_eq!(
        Gql::new().load_handlers(0, &module),
        Err(LoaderError::InvalidMetadata(MetadataError::InvalidContent))
    );
}

#[test]
fn handler_that_does_not_link_adds_nothing() {
    let module = Exports {
        items: vec![
            described("handler_metadata_echo", ECHO),
            function("handler_echo"),
            described("handler_metadata_q", r#"{"input": "i32", "output": "i32"}"#),
            function("handler_q"),
        ],
    };
    assert_eq!(
        Gql::new().load_handlers(0, &module),
        Err(LoaderError::InvalidMetadata(MetadataError::InvalidContent))
    );
    let named = output_module(r#"{"_name_": "Out", "y": "String"}"#);
    let schema = Gql::new().load_handlers(0, &named).unwrap().build_schema().unwrap();
    assert_eq!(schema.handlers().len(), 1);
    assert_eq!(schema.handlers()[0].output_type, "Out");
}
