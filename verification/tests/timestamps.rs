use chrono::DateTime;
use manasight_parser::log::timestamp::{parse_log_timestamp, Timestamp, TimestampError};
use manasight_parser::router::{candidate_texts, extract_timestamp};

fn shown(at: Timestamp) -> String {
    DateTime::from_timestamp(at.secs, at.nanos)
        .map(|t| t.format("%Y-%m-%d %H:%M:%S").to_string())
        .unwrap_or_default()
}

fn read(text: &str) -> String {
    parse_log_timestamp(text).map(shown).unwrap_or_default()
}

#[test]
fn month_first_with_a_twelve_hour_clock() {
    assert_eq!(read("2/25/2026 12:00:00 PM"), "2026-02-25 12:00:00");
    assert_eq!(read("2/25/2026 12:00:00 AM"), "2026-02-25 00:00:00");
    assert_eq!(read("12/1/2026 1:02:03 PM"), "2026-12-01 13:02:03");
}

#[test]
fn year_first_with_a_twelve_hour_clock() {
    assert_eq!(read("2026-02-25 02:30:00 PM"), "2026-02-25 14:30:00");
}

#[test]
fn month_first_with_a_full_day_clock() {
    assert_eq!(read("2/25/2026 14:30:00"), "2026-02-25 14:30:00");
}

#[test]
fn year_first_with_a_full_day_clock() {
    assert_eq!(read("2026-02-25 14:30:00"), "2026-02-25 14:30:00");
}

#[test]
fn seconds_are_counted_from_the_epoch() {
    assert_eq!(
        parse_log_timestamp("1970-01-02 00:00:01"),
        Ok(Timestamp { secs: 86_401, nanos: 0 })
    );
    assert_eq!(
        parse_log_timestamp("1969-12-31 23:59:59"),
        Ok(Timestamp { secs: -1, nanos: 0 })
    );
}

#[test]
fn other_texts_are_refused() {
    for text in ["", "2/25/2026", "12:00:00", "2/30/2026 12:00:00 PM", "25/2/2026 14:30:00",
        "2/25/2026 13:00:00 PM", "2/25/2026 12:00:00 PM event"]
    {
        assert_eq!(parse_log_timestamp(text), Err(TimestampError::UnknownFormat), "{text:?}");
    }
}

#[test]
fn candidates_shrink_from_four_words_to_two() {
    assert_eq!(
        candidate_texts("[X]3/13/2026 11:34:51 PM: Match to A\nrest"),
        vec!["3/13/2026 11:34:51 PM: Match", "3/13/2026 11:34:51 PM", "3/13/2026 11:34:51"]
    );
    assert_eq!(candidate_texts("[X] a  b\tc "), vec!["a b c", "a b"]);
    assert_eq!(candidate_texts("[X]a b"), vec!["a b"]);
    assert!(candidate_texts("[X]a").is_empty());
    assert!(candidate_texts("no bracket at all").is_empty());
    assert!(candidate_texts("").is_empty());
}

#[test]
fn the_longest_candidate_wins() {
    let at = extract_timestamp("[X]2/25/2026 11:00:00 PM: joined").unwrap_or_else(|| unreachable!());
    assert_eq!(shown(at), "2026-02-25 23:00:00");
}

#[test]
fn header_text_does_not_change_the_timestamp() {
    for rest in ["2/25/2026 12:00:00 PM event", "2/25/2026 12:00:00 PM\r\nmore", "x] y", "", "\n"] {
        let first = extract_timestamp(&format!("[UnityCrossThreadLogger]{rest}"));
        for header in ["", "[Client GRE", "1/1/2020 1:00:00 AM "] {
            assert_eq!(extract_timestamp(&format!("{header}]{rest}")), first, "{header:?} {rest:?}");
        }
    }
}

#[test]
fn later_lines_do_not_change_the_timestamp() {
    for line in ["[X]2/25/2026 12:00:00 PM event", "[X]2/25/2026 12:00:00 PM\r", "[X]none", "x"] {
        let alone = extract_timestamp(line);
        let followed = extract_timestamp(&format!("{line}\n[Y]1/1/2020 1:00:00 AM"));
        assert_eq!(alone, followed, "{line:?}");
    }
}
