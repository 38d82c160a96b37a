use manasight_parser::parsers::{game_result, session};
use manasight_parser::scan::{find_object, find_value};

#[test]
fn the_first_object_is_found_behind_a_header() {
    assert_eq!(find_object("[X] text {\"a\": {\"b\": 1}} tail {}"), Some("{\"a\": {\"b\": 1}}"));
    assert_eq!(find_object("none"), None);
    assert_eq!(find_object(""), None);
    assert_eq!(find_object("[1, 2]"), None);
}

#[test]
fn an_object_that_is_never_closed_is_not_found() {
    assert_eq!(find_object("{"), None);
    assert_eq!(find_object("{\"a\": {}"), None);
    assert_eq!(find_object("{\"open }"), None);
}

#[test]
fn delimiters_in_string_literals_do_not_count() {
    let text = "x {\"a\": \"}\\\"}\", \"b\": \"\\\\\"} y";
    assert_eq!(find_object(text), Some("{\"a\": \"}\\\"}\", \"b\": \"\\\\\"}"));
}

#[test]
fn a_found_object_is_found_again() {
    for text in ["a {\"b\": \"}\"} c", "{}", "x{{}}{}"] {
        let found = find_object(text).unwrap_or_else(|| unreachable!());
        assert!(found.starts_with('{') && found.ends_with('}'));
        assert_eq!(find_object(found), Some(found));
        assert_eq!(find_object(&format!("[header] words {text}")), Some(found));
    }
}

#[test]
fn text_behind_the_json_does_not_change_it() {
    for text in ["a {\"b\": \"}\"}", "[X] [1, [2]]", "[X]{}", "x [{}]"] {
        for tail in ["", " words", "}", "]", "{\"c\": 1}", "[2]"] {
            let longer = format!("{text}{tail}");
            if let Some(found) = find_object(text) {
                assert_eq!(find_object(&longer), Some(found), "{longer}");
            }
            assert_eq!(find_value(&longer), find_value(text), "{longer}");
        }
    }
}

#[test]
fn multibyte_text_is_cut_between_characters() {
    assert_eq!(find_object("\u{e9}\u{1f600}{\"n\": \"\u{e9}\"}\u{e9}"), Some("{\"n\": \"\u{e9}\"}"));
    assert_eq!(find_value("\u{e9}[\"\u{1f600}\"]\u{e9}"), Some("[\"\u{1f600}\"]"));
}

#[test]
fn an_array_is_found_behind_a_bracketed_header() {
    assert_eq!(find_value("[X] [1, [2]] tail"), Some("[1, [2]]"));
    assert_eq!(find_value("[X] {\"a\": [1]}"), Some("{\"a\": [1]}"));
    assert_eq!(find_value("[X]"), None);
    assert_eq!(find_value("[never closed"), None);
    assert_eq!(find_value("plain"), None);
}

#[test]
fn both_extractors_agree_on_objects() {
    let body = "[UnityCrossThreadLogger]label\n{\"a\": 1}";
    assert_eq!(session::extract_json_from_body(body), Some("{\"a\": 1}"));
    assert_eq!(game_result::extract_json_from_body(body), Some("{\"a\": 1}"));
}
