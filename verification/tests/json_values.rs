use manasight_parser::json::{Json, JsonNumber, JsonObject};
use manasight_parser::json_text::parse_json;

fn parsed(text: &str) -> Json {
    parse_json(text).unwrap_or_else(|| unreachable!("{text}"))
}

#[test]
fn scalars_are_read() {
    assert!(matches!(parsed("null"), Json::Null));
    assert!(matches!(parsed("true"), Json::Bool(true)));
    assert!(matches!(parsed(" false "), Json::Bool(false)));
    assert_eq!(parsed("\"a\\n\\u00e9\\\"\"").as_str(), Some("a\n\u{e9}\""));
}

#[test]
fn numbers_keep_their_form() {
    assert!(matches!(parsed("0"), Json::Number(JsonNumber::PosInt(0))));
    assert!(matches!(
        parsed("18446744073709551615"),
        Json::Number(JsonNumber::PosInt(18_446_744_073_709_551_615))
    ));
    assert!(matches!(parsed("-7"), Json::Number(JsonNumber::NegInt(-7))));
    match parsed("2.5") {
        Json::Number(JsonNumber::Float(bits)) => assert_eq!(f64::from_bits(bits), 2.5),
        other => unreachable!("{other:?}"),
    }
}

#[test]
fn integers_read_back() {
    for n in [i64::MIN, -1, 0, 1, i64::MAX] {
        assert_eq!(Json::integer(n).as_i64(), Some(n));
        assert_eq!(parsed(&n.to_string()).as_i64(), Some(n));
    }
    assert_eq!(parsed("9223372036854775808").as_i64(), None);
    assert_eq!(parsed("1.0").as_i64(), None);
    assert_eq!(parsed("\"1\"").as_i64(), None);
}

#[test]
fn arrays_keep_their_order() {
    let json = parsed("[3, 1, 2]");
    let items = json.as_array().unwrap_or_else(|| unreachable!());
    let numbers: Vec<Option<i64>> = items.iter().map(Json::as_i64).collect();
    assert_eq!(numbers, vec![Some(3), Some(1), Some(2)]);
}

#[test]
fn objects_hold_their_members() {
    let json = parsed("{\"b\": 1, \"a\": {\"c\": null}}");
    assert!(json.is_object());
    assert_eq!(json.get("b").and_then(Json::as_i64), Some(1));
    assert!(json.get("a").and_then(|a| a.get("c")).is_some());
    assert!(json.get("c").is_none());
    let members = json.as_object().unwrap_or_else(|| unreachable!());
    let names: Vec<&str> = members.iter().map(|m| m.name.as_str()).collect();
    assert_eq!(names, vec!["a", "b"]);
}

#[test]
fn a_later_member_replaces_an_earlier_one() {
    let json = parsed("{\"a\": 1, \"a\": 2}");
    assert_eq!(json.get("a").and_then(Json::as_i64), Some(2));
    assert_eq!(json.as_object().map(Vec::len), Some(1));
}

#[test]
fn malformed_texts_are_refused() {
    for text in ["", "{", "{a: 1}", "[1,]", "nul", "1 2", "\"open", "{\"a\"}", "01"] {
        assert!(parse_json(text).is_none(), "{text:?}");
    }
}

#[test]
fn deep_nesting_is_refused() {
    let shallow = format!("{}{}", "[".repeat(100), "]".repeat(100));
    assert!(parse_json(&shallow).is_some());
    let deep = format!("{}{}", "[".repeat(1000), "]".repeat(1000));
    assert!(parse_json(&deep).is_none());
}

#[test]
fn copies_are_equal() {
    let json = parsed("{\"a\": [1, -2, 0.5, \"x\", null, true], \"b\": {}}");
    let copy = json.clone();
    assert_eq!(format!("{json:?}"), format!("{copy:?}"));
}

#[test]
fn readers_look_at_their_own_kind_only() {
    assert_eq!(parsed("1").as_str(), None);
    assert_eq!(parsed("1").as_bool(), None);
    assert!(parsed("1").as_array().is_none());
    assert!(parsed("[]").as_object().is_none());
    assert!(parsed("[]").get("a").is_none());
    assert!(!parsed("[]").is_object());
}

#[test]
fn objects_are_built_in_order() {
    let mut object = JsonObject::new();
    object.push("x", Json::string("s"));
    object.push_int("present", Some(4));
    object.push_int("absent", None);
    object.push_str("word", Some("w"));
    object.push_str("no_word", None);
    object.push_bool("flag", Some(false));
    object.push_bool("no_flag", None);
    assert_eq!(object.get("present").and_then(Json::as_i64), Some(4));
    assert!(object.get("absent").is_none());
    let json = object.finish();
    let members = json.as_object().unwrap_or_else(|| unreachable!());
    let names: Vec<&str> = members.iter().map(|m| m.name.as_str()).collect();
    assert_eq!(names, vec!["x", "present", "word", "flag"]);
    assert_eq!(json.get("flag").and_then(Json::as_bool), Some(false));
}

#[test]
fn lists_are_built_in_order() {
    let ints = Json::ints(vec![2, -1]);
    let items = ints.as_array().unwrap_or_else(|| unreachable!());
    assert_eq!(items.iter().map(Json::as_i64).collect::<Vec<_>>(), vec![Some(2), Some(-1)]);
    let strings = Json::strings(vec!["b".to_owned(), "a".to_owned()]);
    let items = strings.as_array().unwrap_or_else(|| unreachable!());
    assert_eq!(items.iter().map(Json::as_str).collect::<Vec<_>>(), vec![Some("b"), Some("a")]);
}
