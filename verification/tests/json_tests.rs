//! Tests for the JSON value representation, parser and serializer.

use qrng_client::json::{get_field, parse_json, str_eq, to_json_text, JsonValue};

fn text_of(v: &JsonValue) -> String {
    to_json_text(v)
}

#[test]
fn serialize_scalars() {
    assert_eq!(text_of(&JsonValue::Null), "null");
    assert_eq!(text_of(&JsonValue::Bool(true)), "true");
    assert_eq!(text_of(&JsonValue::Bool(false)), "false");
    assert_eq!(text_of(&JsonValue::Num(String::from("-12.5e3"))), "-12.5e3");
    assert_eq!(text_of(&JsonValue::Str(String::from("hello"))), "\"hello\"");
}

#[test]
fn serialize_escapes() {
    let v = JsonValue::Str(String::from("a\"b\\c\nd\re\tf"));
    assert_eq!(text_of(&v), "\"a\\\"b\\\\c\\nd\\re\\tf\"");
}

#[test]
fn serialize_array_and_object() {
    let arr = JsonValue::Arr(vec![
        JsonValue::Num(String::from("1")),
        JsonValue::Bool(false),
        JsonValue::Null,
    ]);
    assert_eq!(text_of(&arr), "[1,false,null]");
    let obj = JsonValue::Obj(vec![
        (String::from("a"), JsonValue::Num(String::from("1"))),
        (String::from("b"), JsonValue::Str(String::from("x"))),
    ]);
    assert_eq!(text_of(&obj), "{\"a\":1,\"b\":\"x\"}");
    assert_eq!(text_of(&JsonValue::Arr(vec![])), "[]");
    assert_eq!(text_of(&JsonValue::Obj(vec![])), "{}");
}

#[test]
fn parse_scalars() {
    assert_eq!(text_of(&parse_json("null").unwrap()), "null");
    assert_eq!(text_of(&parse_json("true").unwrap()), "true");
    assert_eq!(text_of(&parse_json("false").unwrap()), "false");
    assert_eq!(text_of(&parse_json("42").unwrap()), "42");
    assert_eq!(text_of(&parse_json("-0.5").unwrap()), "-0.5");
    assert_eq!(text_of(&parse_json("1e10").unwrap()), "1e10");
    assert_eq!(text_of(&parse_json("\"hi\"").unwrap()), "\"hi\"");
}

#[test]
fn parse_whitespace_and_nesting() {
    let v = parse_json(" { \"a\" : [ 1 , 2 , { \"b\" : null } ] } ").unwrap();
    assert_eq!(text_of(&v), "{\"a\":[1,2,{\"b\":null}]}");
}

#[test]
fn parse_unicode_escape() {
    let v = parse_json("\"\\u0041\\u00e9\"").unwrap();
    assert_eq!(
        match &v {
            JsonValue::Str(s) => s.clone(),
            _ => String::new(),
        },
        "A\u{e9}"
    );
}

#[test]
fn parse_rare_escapes() {
    let v = parse_json("\"\\b\\f\\/\"").unwrap();
    match &v {
        JsonValue::Str(s) => assert_eq!(s, "\u{8}\u{c}/"),
        _ => panic!("expected a string"),
    }
    let text = to_json_text(&v);
    let again = parse_json(&text).unwrap();
    assert_eq!(to_json_text(&again), text);
}

#[test]
fn parse_surrogate_pair() {
    let v = parse_json("\"\\ud83d\\ude00\"").unwrap();
    match &v {
        JsonValue::Str(s) => assert_eq!(s, "\u{1F600}"),
        _ => panic!("expected a string"),
    }
    assert!(parse_json("\"\\ud800x\"").is_none());
    assert!(parse_json("\"\\udc00\"").is_none());
}

#[test]
fn serialize_control_characters() {
    let v = JsonValue::Str(String::from("\u{1}\u{8}"));
    assert_eq!(to_json_text(&v), "\"\\u0001\\u0008\"");
    let back = parse_json("\"\\u0001\\u0008\"").unwrap();
    assert_eq!(to_json_text(&back), "\"\\u0001\\u0008\"");
}

#[test]
fn parse_rejects_malformed() {
    assert!(parse_json("").is_none());
    assert!(parse_json("   ").is_none());
    assert!(parse_json("{").is_none());
    assert!(parse_json("[1,]").is_none());
    assert!(parse_json("{\"a\":}").is_none());
    assert!(parse_json("nul").is_none());
    assert!(parse_json("1 2").is_none());
    assert!(parse_json("\"unterminated").is_none());
    assert!(parse_json("\"bad\\escape\"").is_none());
    assert!(parse_json("\"\\ud800\"").is_none());
    assert!(parse_json("01x").is_none());
}

#[test]
fn text_round_trip() {
    let original = "{\"s\":\"a\\\"b\\\\c\\nd\",\"n\":-3.25e2,\"l\":[true,null,{\"k\":\"v\"}]}";
    let v = parse_json(original).unwrap();
    let text = text_of(&v);
    assert_eq!(text, original);
    let again = parse_json(&text).unwrap();
    assert_eq!(text_of(&again), original);
}

#[test]
fn get_field_finds_first_binding() {
    let fields = vec![
        (String::from("a"), JsonValue::Num(String::from("1"))),
        (String::from("b"), JsonValue::Num(String::from("2"))),
        (String::from("a"), JsonValue::Num(String::from("3"))),
    ];
    let found = get_field(&fields, "a").unwrap();
    assert_eq!(text_of(found), "1");
    assert!(get_field(&fields, "c").is_none());
}

#[test]
fn str_eq_compares_characters() {
    assert!(str_eq("abc", "abc"));
    assert!(!str_eq("abc", "abd"));
    assert!(!str_eq("abc", "ab"));
    assert!(str_eq("", ""));
}

#[test]
fn clone_is_deep() {
    let v = JsonValue::Obj(vec![(
        String::from("a"),
        JsonValue::Arr(vec![JsonValue::Num(String::from("7"))]),
    )]);
    let copy = v.clone();
    assert_eq!(text_of(&copy), text_of(&v));
}
