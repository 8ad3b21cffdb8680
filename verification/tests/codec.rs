//! The JSON codec and the state record text, on concrete values.

use rust_runtime::json::{emit_json, parse_json, JsonValue};
use rust_runtime::numfmt::format_i64;
use rust_runtime::state_record::{decode_state, encode_state, State};
use rust_runtime::status::ContainerStatus;

fn cv(s: &str) -> Vec<char> {
    s.chars().collect()
}

fn cs(v: &[char]) -> String {
    v.iter().collect()
}

#[test]
fn decimal_rendering_exact() {
    assert_eq!(cs(&format_i64(0)), "0");
    assert_eq!(cs(&format_i64(7)), "7");
    assert_eq!(cs(&format_i64(-42)), "-42");
    assert_eq!(cs(&format_i64(1048576)), "1048576");
    assert_eq!(cs(&format_i64(i64::MAX)), "9223372036854775807");
    assert_eq!(cs(&format_i64(i64::MIN)), "-9223372036854775808");
}

#[test]
fn emit_scalars_exact() {
    assert_eq!(cs(&emit_json(&JsonValue::Null)), "null");
    assert_eq!(cs(&emit_json(&JsonValue::Bool(true))), "true");
    assert_eq!(cs(&emit_json(&JsonValue::Bool(false))), "false");
    assert_eq!(cs(&emit_json(&JsonValue::Int(-17))), "-17");
    assert_eq!(cs(&emit_json(&JsonValue::Str(cv("hi")))), "\"hi\"");
}

#[test]
fn emit_escapes_exact() {
    let v = JsonValue::Str(cv("a\"b\\c\nd\te\u{1}"));
    assert_eq!(cs(&emit_json(&v)), "\"a\\\"b\\\\c\\nd\\te\\u0001\"");
}

#[test]
fn emit_nested_exact() {
    let arr = JsonValue::Arr(vec![JsonValue::Int(1), JsonValue::Int(2), JsonValue::Null]);
    let obj = JsonValue::Obj(vec![(cv("k"), arr), (cv("m"), JsonValue::Bool(false))]);
    assert_eq!(cs(&emit_json(&obj)), "{\"k\":[1,2,null],\"m\":false}");
}

#[test]
fn parse_skips_whitespace() {
    let doc = cv("  { \"a\" : [ 1 , -2 ] ,\n \"b\" : \"x\" }  ");
    let v = parse_json(&doc).expect("document should parse");
    match v {
        JsonValue::Obj(ms) => {
            assert_eq!(ms.len(), 2);
            assert_eq!(ms[0].0, cv("a"));
            match &ms[0].1 {
                JsonValue::Arr(items) => {
                    assert!(matches!(items[0], JsonValue::Int(1)));
                    assert!(matches!(items[1], JsonValue::Int(-2)));
                },
                other => panic!("not an array: {:?}", cs(&emit_json(other))),
            }
            assert_eq!(ms[1].0, cv("b"));
            assert!(matches!(&ms[1].1, JsonValue::Str(s) if *s == cv("x")));
        },
        _ => panic!("not an object"),
    }
}

#[test]
fn parse_decodes_escapes() {
    let doc = cv("\"a\\\"b\\\\c\\nd\\te\\u0001\\/f\"");
    match parse_json(&doc) {
        Some(JsonValue::Str(s)) => assert_eq!(s, cv("a\"b\\c\nd\te\u{1}/f")),
        other => panic!("unexpected: {:?}", other.is_some()),
    }
}

#[test]
fn parse_rejects_malformed() {
    assert!(parse_json(&cv("")).is_none());
    assert!(parse_json(&cv("{")).is_none());
    assert!(parse_json(&cv("[1,]")).is_none());
    assert!(parse_json(&cv("nul")).is_none());
    assert!(parse_json(&cv("\"unterminated")).is_none());
    assert!(parse_json(&cv("1 2")).is_none());
    assert!(parse_json(&cv("{\"a\" 1}")).is_none());
}

#[test]
fn parse_number_bounds() {
    match parse_json(&cv("9223372036854775807")) {
        Some(JsonValue::Int(n)) => assert_eq!(n, i64::MAX),
        _ => panic!("largest number should parse"),
    }
    match parse_json(&cv("-9223372036854775808")) {
        Some(JsonValue::Int(n)) => assert_eq!(n, i64::MIN),
        _ => panic!("smallest number should parse"),
    }
    assert!(parse_json(&cv("9223372036854775808")).is_none());
    match parse_json(&cv("0007")) {
        Some(JsonValue::Int(n)) => assert_eq!(n, 7),
        _ => panic!("leading zeros should read as the value"),
    }
}

#[test]
fn parse_emit_round_trips() {
    let docs = [
        "null",
        "{\"a\":[1,2,{\"b\":\"c\\nd\"}],\"e\":null,\"f\":true}",
        "[[],{},[[-5]]]",
        "\"\"",
    ];
    for d in docs {
        let v = parse_json(&cv(d)).expect("should parse");
        assert_eq!(cs(&emit_json(&v)), *d);
    }
}

#[test]
fn state_text_exact() {
    let s = State::new("box-1", ContainerStatus::Created, Some(4242), "/tmp/bundle");
    let text = cs(&encode_state(&s));
    assert_eq!(
        text,
        "{\"ociVersion\":\"v1.0.0\",\"id\":\"box-1\",\"status\":\"created\",\"pid\":4242,\
         \"bundle\":\"/tmp/bundle\",\"annotations\":{}}"
    );
}

#[test]
fn state_round_trip_no_pid() {
    let s = State::new("c", ContainerStatus::Creating, None, "/b");
    let text = encode_state(&s);
    let back = decode_state(&text).expect("should decode");
    assert_eq!(back.id, "c");
    assert!(matches!(back.status, ContainerStatus::Creating));
    assert_eq!(back.pid, None);
    assert_eq!(back.bundle, "/b");
    assert_eq!(back.oci_version, "v1.0.0");
    assert!(back.annotations.is_empty());
}

#[test]
fn state_round_trip_with_annotations() {
    let mut s = State::new("c2", ContainerStatus::Stopped, Some(7), "/b2");
    s.annotations.push(("key one".to_string(), "value \"quoted\"".to_string()));
    s.annotations.push(("key2".to_string(), "v2".to_string()));
    let text = encode_state(&s);
    let back = decode_state(&text).expect("should decode");
    assert_eq!(back.pid, Some(7));
    assert!(matches!(back.status, ContainerStatus::Stopped));
    assert_eq!(back.annotations.len(), 2);
    assert_eq!(back.annotations[0].0, "key one");
    assert_eq!(back.annotations[0].1, "value \"quoted\"");
    assert_eq!(back.annotations[1].1, "v2");
}

#[test]
fn state_decode_accepts_whitespace() {
    let text = cv(
        "{ \"ociVersion\" : \"v1.0.0\" , \"id\" : \"x\" , \"status\" : \"running\" ,\n \
         \"pid\" : 12 , \"bundle\" : \"/b\" , \"annotations\" : { \"a\" : \"b\" } }",
    );
    let back = decode_state(&text).expect("should decode");
    assert!(matches!(back.status, ContainerStatus::Running));
    assert_eq!(back.pid, Some(12));
    assert_eq!(back.annotations[0].0, "a");
}

#[test]
fn state_decode_rejects_bad_records() {
    assert!(decode_state(&cv("{}")).is_none());
    assert!(decode_state(&cv("[]")).is_none());
    // A status outside the four lifecycle words.
    let bad = "{\"ociVersion\":\"v1.0.0\",\"id\":\"x\",\"status\":\"paused\",\"pid\":1,\
               \"bundle\":\"/b\",\"annotations\":{}}";
    assert!(decode_state(&cv(bad)).is_none());
    // A pid that does not fit a 32-bit integer.
    let big = "{\"ociVersion\":\"v1.0.0\",\"id\":\"x\",\"status\":\"running\",\"pid\":3000000000,\
               \"bundle\":\"/b\",\"annotations\":{}}";
    assert!(decode_state(&cv(big)).is_none());
    // A repeated annotation key, which no mapping could have produced.
    let dup = "{\"ociVersion\":\"v1.0.0\",\"id\":\"x\",\"status\":\"running\",\"pid\":1,\
               \"bundle\":\"/b\",\"annotations\":{\"k\":\"a\",\"k\":\"b\"}}";
    assert!(decode_state(&cv(dup)).is_none());
}
