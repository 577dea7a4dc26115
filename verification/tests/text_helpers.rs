use riwaq_host::text::chars_of;
use riwaq_host::text::copy_str;
use riwaq_host::text::decimal_of;
use riwaq_host::text::ends_with;
use riwaq_host::text::matches_at;
use riwaq_host::text::push_decimal;
use riwaq_host::text::replace;
use riwaq_host::text::starts_with;
use riwaq_host::text::str_eq;
use riwaq_host::text::string_of;
use riwaq_host::text::strip_prefix;

#[test]
fn chars_and_back() {
    let chars = chars_of("héllo");
    assert_eq!(chars, vec!['h', 'é', 'l', 'l', 'o']);
    assert_eq!(string_of(&chars, 0, 5), "héllo");
    assert_eq!(string_of(&chars, 1, 3), "él");
    assert_eq!(string_of(&chars, 2, 2), "");
}

#[test]
fn equality_and_copy() {
    assert!(str_eq("abc", "abc"));
    assert!(!str_eq("abc", "abd"));
    assert!(!str_eq("abc", "ab"));
    assert!(str_eq("", ""));
    assert_eq!(copy_str("abc"), "abc");
}

#[test]
fn prefix_and_suffix() {
    assert!(starts_with("handler_metadata_q", "handler_metadata_"));
    assert!(starts_with("abc", ""));
    assert!(starts_with("abc", "abc"));
    assert!(!starts_with("ab", "abc"));
    assert!(!starts_with("xhandler_", "handler_"));
    assert!(ends_with("a.wasm", ".wasm"));
    assert!(ends_with(".wasm", ".wasm"));
    assert!(!ends_with("wasm", ".wasm"));
    assert!(!ends_with("a.wasm.bak", ".wasm"));
    assert!(ends_with("abc", ""));
}

#[test]
fn occurrence_at_a_position() {
    let s = chars_of("abcabc");
    let p = chars_of("bc");
    assert!(!matches_at(&s, &p, 0));
    assert!(matches_at(&s, &p, 1));
    assert!(matches_at(&s, &p, 4));
    assert!(!matches_at(&s, &p, 5));
    assert!(!matches_at(&s, &p, 6));
    assert!(!matches_at(&s, &p, 100));
}

#[test]
fn stripping_a_prefix() {
    assert_eq!(strip_prefix("handler_metadata_q", "handler_metadata_"), Some("q".to_string()));
    assert_eq!(strip_prefix("handler_metadata_", "handler_metadata_"), Some("".to_string()));
    assert_eq!(strip_prefix("handler_q", "handler_metadata_"), None);
}

#[test]
fn replacing_every_occurrence() {
    assert_eq!(replace("db://{{org}}/x", "{{org}}", "acme"), "db://acme/x");
    assert_eq!(replace("{{org}}{{org}}", "{{org}}", "a"), "aa");
    assert_eq!(replace("no pattern", "{{org}}", "a"), "no pattern");
    assert_eq!(replace("", "{{org}}", "a"), "");
    assert_eq!(replace("aaa", "aa", "b"), "ba");
    assert_eq!(replace("{{org}", "{{org}}", "a"), "{{org}");
    assert_eq!(replace("x{{org}}", "{{org}}", ""), "x");
    assert_eq!(replace("ab", "", "-"), "-a-b-");
    assert_eq!(replace("", "", "-"), "-");
    assert_eq!(replace("ab", "", ""), "ab");
}

#[test]
fn replacing_agrees_with_the_standard_library() {
    for (s, from, to) in [
        ("db://{{org}}/x", "{{org}}", "acme"),
        ("aaaa", "aa", "b"),
        ("abcabc", "bc", ""),
        ("héllo", "l", "ll"),
        ("héllo", "", "·"),
        ("", "x", "y"),
    ] {
        assert_eq!(replace(s, from, to), s.replace(from, to));
    }
}

#[test]
fn decimal_forms() {
    assert_eq!(decimal_of(0), "0");
    assert_eq!(decimal_of(7), "7");
    assert_eq!(decimal_of(10), "10");
    assert_eq!(decimal_of(-1), "-1");
    assert_eq!(decimal_of(1234567890), "1234567890");
    assert_eq!(decimal_of(i64::MAX), "9223372036854775807");
    assert_eq!(decimal_of(i64::MIN), "-9223372036854775808");
    let mut s = "n=".to_string();
    push_decimal(&mut s, u64::MAX);
    assert_eq!(s, "n=18446744073709551615");
}
