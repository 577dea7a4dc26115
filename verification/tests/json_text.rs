use riwaq_host::json::Json;

fn text(s: &str) -> Json {
    Json::String(s.to_string())
}

fn number(s: &str) -> Json {
    Json::Number(s.to_string())
}

#[test]
fn parse_reads_every_kind_of_value() {
    assert_eq!(Json::parse("null"), Some(Json::Null));
    assert_eq!(Json::parse("true"), Some(Json::Bool(true)));
    assert_eq!(Json::parse("false"), Some(Json::Bool(false)));
    assert_eq!(Json::parse("7"), Some(number("7")));
    assert_eq!(Json::parse("-12"), Some(number("-12")));
    assert_eq!(Json::parse("1.5"), Some(number("1.5")));
    assert_eq!(Json::parse("\"a\\nb\""), Some(text("a\nb")));
    assert_eq!(Json::parse("[1, \"x\", null]"), Some(Json::Array(vec![number("1"), text("x"), Json::Null])));
    assert_eq!(
        Json::parse("{\"a\": {\"b\": []}}"),
        Some(Json::Object(vec![(
            "a".to_string(),
            Json::Object(vec![("b".to_string(), Json::Array(vec![]))])
        )]))
    );
}

#[test]
fn parse_orders_the_entries_of_an_object_by_key() {
    assert_eq!(
        Json::parse("{\"b\": 1, \"a\": 2}"),
        Some(Json::Object(vec![("a".to_string(), number("2")), ("b".to_string(), number("1"))]))
    );
}

#[test]
fn parse_rejects_what_is_not_json() {
    assert_eq!(Json::parse(""), None);
    assert_eq!(Json::parse("{"), None);
    assert_eq!(Json::parse("{\"a\": }"), None);
    assert_eq!(Json::parse("nul"), None);
    assert_eq!(Json::parse("1 2"), None);
}

#[test]
fn render_writes_compact_text() {
    assert_eq!(Json::Null.render(), "null");
    assert_eq!(Json::Bool(true).render(), "true");
    assert_eq!(number("-12").render(), "-12");
    assert_eq!(number("1.5").render(), "1.5");
    assert_eq!(text("a\"b\nc").render(), "\"a\\\"b\\nc\"");
    assert_eq!(Json::Array(vec![number("1"), Json::Null]).render(), "[1,null]");
    assert_eq!(
        Json::Object(vec![("a".to_string(), Json::Array(vec![])), ("b".to_string(), text("x"))])
            .render(),
        "{\"a\":[],\"b\":\"x\"}"
    );
}

#[test]
fn render_writes_null_for_a_number_that_is_none() {
    assert_eq!(number("seven").render(), "null");
}

#[test]
fn rendered_text_parses_to_the_value() {
    let value = Json::Object(vec![
        ("items".to_string(), Json::Array(vec![number("1"), number("2.25"), text("é\u{0}")])),
        ("ok".to_string(), Json::Bool(false)),
    ]);
    assert_eq!(Json::parse(&value.render()), Some(value));
}

#[test]
fn get_finds_the_first_entry_with_the_key() {
    let value = Json::Object(vec![
        ("a".to_string(), number("1")),
        ("b".to_string(), number("2")),
        ("a".to_string(), number("3")),
    ]);
    assert_eq!(value.get("a"), Some(&number("1")));
    assert_eq!(value.get("b"), Some(&number("2")));
    assert_eq!(value.get("c"), None);
    assert_eq!(Json::Array(vec![]).get("a"), None);
}

#[test]
fn as_str_is_the_text_of_a_string() {
    assert_eq!(text("x").as_str(), Some("x"));
    assert_eq!(number("1").as_str(), None);
    assert_eq!(Json::Null.as_str(), None);
}

#[test]
fn copy_is_equal_to_the_value() {
    let value = Json::parse("{\"a\": [1, {\"b\": \"c\"}, null, true]}").unwrap();
    assert_eq!(value.copy(), value);
}

#[test]
fn constructors_build_the_values() {
    assert_eq!(Json::integer(-7), number("-7"));
    assert_eq!(Json::integer(i64::MIN), number("-9223372036854775808"));
    assert_eq!(Json::string("x".to_string()), text("x"));
    assert_eq!(Json::array(vec![Json::Null]), Json::Array(vec![Json::Null]));
    assert_eq!(
        Json::object(vec![("k".to_string(), Json::Null)]),
        Json::Object(vec![("k".to_string(), Json::Null)])
    );
}

#[test]
fn number_is_written_as_it_is_read_from_its_text() {
    for text in ["7", "-12", "1.5", "51.248178375505404", "1e300", "0.1"] {
        let written = number(text).render();
        assert!(matches!(Json::parse(&written), Some(Json::Number(_))));
    }
    assert_eq!(number("7").render(), "7");
    assert_eq!(number("1.50").render(), "1.5");
    assert_eq!(number("1e2").render(), "100.0");
}
