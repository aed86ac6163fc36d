use agent_browser_core::interop::{json_text, parse_json, quote};
use agent_browser_core::json::Json;
use agent_browser_core::text::u64_text;

#[test]
fn decimal_digits() {
    assert_eq!(u64_text(0), "0");
    assert_eq!(u64_text(1020), "1020");
    assert_eq!(u64_text(u64::MAX), "18446744073709551615");
}

#[test]
fn texts_are_read_and_written() {
    let value = parse_json(r#" { "b" : [1, -2, 1.5, true, null], "a": "x\n" } "#).unwrap();
    assert_eq!(
        json_text(&value),
        r#"{"a":"x\n","b":[1,-2,1.5,true,null]}"#
    );
    assert!(parse_json("{").is_none());
    assert!(parse_json("").is_none());
}

#[test]
fn numbers_keep_their_kind() {
    let value = parse_json(r#"{ "n": 3, "m": -3, "f": 3.0 }"#).unwrap();
    assert_eq!(value.get_u64("n"), Some(3));
    assert_eq!(value.get_u64("m"), None);
    assert_eq!(value.get_u64("f"), None);
    assert!(!value.get("n").unwrap().same(value.get("f").unwrap()));
}

#[test]
fn strings_are_quoted() {
    assert_eq!(quote("a\"b\\c"), r#""a\"b\\c""#);
    assert_eq!(quote("\u{1}\t\u{7f}é"), "\"\\u0001\\t\u{7f}é\"");
}

#[test]
fn objects_compare_by_members() {
    let a = parse_json(r#"{ "x": 1, "y": [2] }"#).unwrap();
    let b = Json::object()
        .with("y", Json::array(vec![Json::Uint(2)]))
        .with("x", Json::Uint(0))
        .with("x", Json::Uint(1));
    assert!(a.same(&b));
    assert!(!a.same(&Json::object().with("x", Json::Uint(1))));
}

#[test]
fn zeros_are_equal_whatever_their_sign() {
    let a = parse_json(r#"{ "x": [0.0, { "y": -0.0 }], "z": 1 }"#).unwrap();
    let b = parse_json(r#"{ "z": 1, "x": [-0.0, { "y": 0.0 }] }"#).unwrap();
    assert!(a.same(&b));
    assert_ne!(json_text(&a), json_text(&b));
    let c = parse_json(r#"{ "z": 1, "x": [-0.5, { "y": 0.0 }] }"#).unwrap();
    assert!(!a.same(&c));
    let integer = parse_json("0").unwrap();
    assert!(!integer.same(&parse_json("0.0").unwrap()));
    assert!(!integer.same(&parse_json("-0.0").unwrap()));
}

#[test]
fn other_numbers_are_equal_by_their_text() {
    for (a, b, equal) in [
        ("1.5", "15e-1", true),
        ("1e300", "1e+300", true),
        ("1.5", "-1.5", false),
        ("-3", "-3", true),
        ("-3", "-3.0", false),
    ] {
        assert_eq!(parse_json(a).unwrap().same(&parse_json(b).unwrap()), equal);
    }
}
