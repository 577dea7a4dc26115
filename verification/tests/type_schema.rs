use riwaq_host::gql::gql_helper::resolve_field;
use riwaq_host::gql::gql_helper::value_to_gql_input_type;
use riwaq_host::gql::gql_helper::value_to_gql_output_type;
use riwaq_host::gql::gql_helper::Field;
use riwaq_host::gql::gql_helper::InputObject;
use riwaq_host::gql::gql_helper::InputValue;
use riwaq_host::gql::gql_helper::MetadataError;
use riwaq_host::gql::gql_helper::Object;
use riwaq_host::gql::gql_helper::TypeRef;
use riwaq_host::gql::gql_helper::TypeRefKind;
use riwaq_host::json::Json;

fn parse(text: &str) -> Json {
    Json::parse(text).unwrap()
}

fn scalar(name: &str) -> Json {
    Json::String(name.to_string())
}

fn container(kind: &str, content: Json) -> Json {
    Json::Object(vec![
        ("container".to_string(), Json::String(kind.to_string())),
        ("content".to_string(), content),
    ])
}

fn ty(kind: TypeRefKind, name: &str) -> TypeRef {
    TypeRef { kind, name: name.to_string() }
}

fn arg(name: &str, kind: TypeRefKind, of_type: &str) -> InputValue {
    InputValue { name: name.to_string(), ty: ty(kind, of_type) }
}

fn field(name: &str, kind: TypeRefKind, of_type: &str) -> Field {
    Field { name: name.to_string(), ty: ty(kind, of_type) }
}

const KINDS: [TypeRefKind; 6] = [
    TypeRefKind::Named,
    TypeRefKind::NamedNN,
    TypeRefKind::NamedList,
    TypeRefKind::NamedNNList,
    TypeRefKind::NamedListNN,
    TypeRefKind::NamedNNListNN,
];

#[test]
fn list_wrapping_follows_the_table() {
    let expected = [
        TypeRefKind::NamedListNN,
        TypeRefKind::NamedNNListNN,
        TypeRefKind::NamedListNN,
        TypeRefKind::NamedNNListNN,
        TypeRefKind::NamedNNListNN,
        TypeRefKind::NamedNNListNN,
    ];
    for i in 0..6 {
        assert_eq!(KINDS[i].in_list(), expected[i]);
    }
}

#[test]
fn optional_wrapping_follows_the_table() {
    let expected = [
        TypeRefKind::Named,
        TypeRefKind::Named,
        TypeRefKind::NamedList,
        TypeRefKind::NamedNNList,
        TypeRefKind::NamedList,
        TypeRefKind::NamedNNList,
    ];
    for i in 0..6 {
        assert_eq!(KINDS[i].optional(), expected[i]);
        assert_eq!(KINDS[i].optional().optional(), expected[i]);
    }
}

#[test]
fn every_supported_scalar_is_a_single_non_null_field_of_its_primitive() {
    let table = [
        ("bool", "Boolean"),
        ("i8", "Int"),
        ("i16", "Int"),
        ("i32", "Int"),
        ("i64", "Int"),
        ("i128", "Int"),
        ("isize", "Int"),
        ("u8", "Int"),
        ("u16", "Int"),
        ("u32", "Int"),
        ("u64", "Int"),
        ("u128", "Int"),
        ("usize", "Int"),
        ("f32", "Float"),
        ("f64", "Float"),
        ("char", "String"),
        ("String", "String"),
    ];
    for (name, primitive) in table {
        let input = value_to_gql_input_type("x".to_string(), scalar(name)).unwrap();
        assert_eq!(input.0, primitive);
        assert_eq!(input.1, vec![arg("x", TypeRefKind::NamedNN, primitive)]);
        assert_eq!(input.2, Vec::<InputObject>::new());
        assert_eq!(input.3, TypeRefKind::NamedNN);
        let output = value_to_gql_output_type("y".to_string(), scalar(name)).unwrap();
        assert_eq!(output.0, primitive);
        assert_eq!(output.1, vec![field("y", TypeRefKind::NamedNN, primitive)]);
        assert_eq!(output.2, Vec::<Object>::new());
        assert_eq!(output.3, TypeRefKind::NamedNN);
    }
}

#[test]
fn unknown_scalar_complex128_is_invalid_metadata() {
    let r = value_to_gql_input_type("x".to_string(), scalar("complex128"));
    assert_eq!(r, Err(MetadataError::InvalidType(scalar("complex128"))));
    let r = value_to_gql_output_type("x".to_string(), scalar("complex128"));
    assert_eq!(r, Err(MetadataError::InvalidType(scalar("complex128"))));
}

#[test]
fn scalar_names_are_case_sensitive() {
    let r = value_to_gql_input_type("x".to_string(), scalar("string"));
    assert_eq!(r, Err(MetadataError::InvalidType(scalar("string"))));
}

#[test]
fn object_without_name_and_container_is_invalid_metadata() {
    let r = value_to_gql_output_type("x".to_string(), parse(r#"{"a": "i32"}"#));
    assert_eq!(r, Err(MetadataError::InvalidContent));
    let r = value_to_gql_input_type("x".to_string(), parse(r#"{}"#));
    assert_eq!(r, Err(MetadataError::InvalidContent));
}

#[test]
fn descriptor_that_is_neither_string_nor_object_is_invalid() {
    for text in ["null", "true", "7", "[\"i32\"]"] {
        let r = value_to_gql_input_type("x".to_string(), parse(text));
        assert_eq!(r, Err(MetadataError::InvalidType(parse(text))));
    }
}

#[test]
fn unknown_container_is_invalid_metadata() {
    let d = container("Box", scalar("i32"));
    let r = value_to_gql_input_type("x".to_string(), d);
    assert_eq!(r, Err(MetadataError::InvalidType(container("Box", scalar("i32")))));
}

#[test]
fn container_without_content_is_invalid_metadata() {
    let r = value_to_gql_input_type("x".to_string(), parse(r#"{"container": "Vec"}"#));
    assert_eq!(r, Err(MetadataError::InvalidContent));
}

#[test]
fn error_inside_a_container_is_handed_up() {
    let d = container("Vec", container("Option", scalar("complex128")));
    let r = value_to_gql_output_type("x".to_string(), d);
    assert_eq!(r, Err(MetadataError::InvalidType(scalar("complex128"))));
}

#[test]
fn first_invalid_member_decides_the_error() {
    let d = Json::Object(vec![
        ("_name_".to_string(), scalar("In")),
        ("a".to_string(), scalar("i32")),
        ("b".to_string(), Json::Null),
        ("c".to_string(), scalar("complex128")),
    ]);
    let r = value_to_gql_input_type("x".to_string(), d);
    assert_eq!(r, Err(MetadataError::InvalidType(Json::Null)));
}

#[test]
fn object_type_puts_its_members_together_and_does_not_declare_itself() {
    let d = parse(r#"{"_name_": "In", "x": "i32", "y": "String", "z": "bool"}"#);
    let r = value_to_gql_input_type("input".to_string(), d).unwrap();
    assert_eq!(r.0, "In");
    assert_eq!(
        r.1,
        vec![
            arg("x", TypeRefKind::NamedNN, "Int"),
            arg("y", TypeRefKind::NamedNN, "String"),
            arg("z", TypeRefKind::NamedNN, "Boolean"),
        ]
    );
    assert_eq!(r.2, Vec::<InputObject>::new());
    assert_eq!(r.3, TypeRefKind::NamedNN);
}

#[test]
fn named_object_declares_its_content() {
    let d = container("Obj", parse(r#"{"_name_": "Out", "y": "String"}"#));
    let r = value_to_gql_output_type("output".to_string(), d).unwrap();
    assert_eq!(r.0, "Out");
    assert_eq!(r.1, vec![field("output", TypeRefKind::NamedNN, "Out")]);
    assert_eq!(
        r.2,
        vec![Object {
            name: "Out".to_string(),
            fields: vec![field("y", TypeRefKind::NamedNN, "String")],
        }]
    );
    assert_eq!(r.3, TypeRefKind::NamedNN);
}

#[test]
fn nested_named_objects_are_declared_outermost_first() {
    let inner = container("Obj", parse(r#"{"_name_": "Inner", "v": "i64"}"#));
    let outer = container(
        "Obj",
        Json::Object(vec![("_name_".to_string(), scalar("Outer")), ("inner".to_string(), inner)]),
    );
    let r = value_to_gql_input_type("input".to_string(), outer).unwrap();
    assert_eq!(r.0, "Outer");
    assert_eq!(r.1, vec![arg("input", TypeRefKind::NamedNN, "Outer")]);
    assert_eq!(
        r.2,
        vec![
            InputObject {
                name: "Outer".to_string(),
                fields: vec![arg("inner", TypeRefKind::NamedNN, "Inner")],
            },
            InputObject {
                name: "Inner".to_string(),
                fields: vec![arg("v", TypeRefKind::NamedNN, "Int")],
            },
        ]
    );
}

#[test]
fn option_strips_the_outer_non_null() {
    let plain = value_to_gql_input_type("x".to_string(), scalar("i32")).unwrap();
    let optional =
        value_to_gql_input_type("x".to_string(), container("Option", scalar("i32"))).unwrap();
    assert_eq!(optional.0, plain.0);
    assert_eq!(optional.1, vec![arg("x", TypeRefKind::Named, "Int")]);
    assert_eq!(optional.2, plain.2);
    assert_eq!(optional.3, TypeRefKind::Named);
}

#[test]
fn vec_wraps_in_a_non_null_list() {
    let plain = value_to_gql_output_type("x".to_string(), scalar("String")).unwrap();
    let list =
        value_to_gql_output_type("x".to_string(), container("Vec", scalar("String"))).unwrap();
    assert_eq!(list.0, plain.0);
    assert_eq!(list.1, vec![field("x", TypeRefKind::NamedNNListNN, "String")]);
    assert_eq!(list.2, plain.2);
    assert_eq!(list.3, TypeRefKind::NamedNNListNN);
}

#[test]
fn vec_of_option_has_nullable_items() {
    let d = container("Vec", container("Option", scalar("i32")));
    let r = value_to_gql_output_type("x".to_string(), d).unwrap();
    assert_eq!(r.1, vec![field("x", TypeRefKind::NamedListNN, "Int")]);
    assert_eq!(r.3, TypeRefKind::NamedListNN);
}

#[test]
fn option_of_vec_is_a_nullable_list() {
    let d = container("Option", container("Vec", container("Option", scalar("i32"))));
    let r = value_to_gql_output_type("x".to_string(), d).unwrap();
    assert_eq!(r.1, vec![field("x", TypeRefKind::NamedList, "Int")]);
    assert_eq!(r.3, TypeRefKind::NamedList);
}

#[test]
fn nullable_list_of_objects() {
    let d = parse(
        r#"{"_name_": "Out", "items": {"container": "Option", "content": {"container": "Vec", "content": {"container": "Obj", "content": {"_name_": "Row", "v": "i64"}}}}}"#,
    );
    let r = value_to_gql_output_type("output".to_string(), d).unwrap();
    assert_eq!(r.0, "Out");
    assert_eq!(r.1, vec![field("items", TypeRefKind::NamedNNList, "Row")]);
    assert_eq!(
        r.2,
        vec![Object {
            name: "Row".to_string(),
            fields: vec![field("v", TypeRefKind::NamedNN, "Int")],
        }]
    );
    assert_eq!(r.3, TypeRefKind::NamedNN);
}

#[test]
fn name_is_looked_up_before_container() {
    let d = Json::Object(vec![
        ("container".to_string(), scalar("Vec")),
        ("content".to_string(), scalar("i32")),
        ("_name_".to_string(), scalar("T")),
    ]);
    let r = value_to_gql_input_type("x".to_string(), d);
    assert_eq!(r, Err(MetadataError::InvalidType(scalar("Vec"))));
}

#[test]
fn name_that_is_no_string_does_not_make_an_object_type() {
    let d = Json::Object(vec![
        ("_name_".to_string(), Json::Null),
        ("container".to_string(), scalar("Option")),
        ("content".to_string(), scalar("bool")),
    ]);
    let r = value_to_gql_input_type("x".to_string(), d).unwrap();
    assert_eq!(r.1, vec![arg("x", TypeRefKind::Named, "Boolean")]);
}

#[test]
fn output_field_resolves_to_the_parent_member() {
    let parent = parse(r#"{"items": [{"v": 1}, {"v": 2}], "none": null, "y": "got:7"}"#);
    assert_eq!(resolve_field(&parent, "y"), Some(&Json::String("got:7".to_string())));
    assert_eq!(resolve_field(&parent, "items"), Some(&parse(r#"[{"v": 1}, {"v": 2}]"#)));
    assert_eq!(resolve_field(&parent, "none"), None);
    assert_eq!(resolve_field(&parent, "missing"), None);
}

#[test]
fn output_field_of_a_parent_that_is_no_object_is_absent() {
    assert_eq!(resolve_field(&Json::Null, "y"), None);
    assert_eq!(resolve_field(&parse("[1]"), "y"), None);
    assert_eq!(resolve_field(&Json::String("y".to_string()), "y"), None);
}
