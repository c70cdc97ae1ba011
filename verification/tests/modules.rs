//! The shared pieces: records, percentages, histories, and the file parsers.

use waybar::meminfo::{parse_meminfo, Error as MemError, MemInfo};
use waybar::output::Output;
use waybar::snapshot::{cpu_summary_line, Snapshot};
use waybar::swaync::output as swaync_output;
use waybar::text::{parse_u64, split_whitespace_tokens, u64_to_string, ParseError};
use waybar::{History, Percentage};

#[test]
fn decimal_rendering() {
    assert_eq!(u64_to_string(0).as_str(), "0");
    assert_eq!(u64_to_string(7).as_str(), "7");
    assert_eq!(u64_to_string(105).as_str(), "105");
    assert_eq!(u64_to_string(u64::MAX).as_str(), "18446744073709551615");
}

#[test]
fn integer_parsing() {
    assert_eq!(parse_u64("0"), Ok(0));
    assert_eq!(parse_u64("40000"), Ok(40000));
    assert_eq!(parse_u64("+12"), Ok(12));
    assert_eq!(parse_u64("18446744073709551615"), Ok(u64::MAX));
    assert_eq!(parse_u64("18446744073709551616"), Err(ParseError::Overflow));
    assert_eq!(parse_u64(""), Err(ParseError::Empty));
    assert_eq!(parse_u64("+"), Err(ParseError::Empty));
    assert_eq!(parse_u64("12a"), Err(ParseError::InvalidDigit));
    assert_eq!(parse_u64("-3"), Err(ParseError::InvalidDigit));
}

#[test]
fn whitespace_tokens() {
    let toks = split_whitespace_tokens("  cpu  10\t20\n30  ");
    let views: Vec<&str> = toks.iter().map(|t| t.as_str()).collect();
    assert_eq!(views, vec!["cpu", "10", "20", "30"]);
    assert!(split_whitespace_tokens("   ").is_empty());
}

#[test]
fn percentage_basics() {
    let p = Percentage::from_u8(42);
    assert_eq!(p.as_u8(), 42);
    assert_eq!(p.to_string().as_str(), "42%");
    assert_eq!(Percentage::default().as_u8(), 0);
}

#[test]
fn single_history_keeps_latest() {
    let mut h = History::new(0);
    assert_eq!(h.to_string().as_str(), "0%");
    let evicted = h.push(Percentage::from_u8(40));
    assert_eq!(evicted.unwrap().as_u8(), 0);
    assert_eq!(h.to_string().as_str(), "40%");
    let mut h = History::new(1);
    h.push(Percentage::from_u8(9));
    assert_eq!(h.to_string().as_str(), "9%");
}

#[test]
fn bounded_history_evicts_oldest() {
    let mut h = History::new(3);
    assert_eq!(h.to_string().as_str(), "{}");
    assert!(h.push(Percentage::from_u8(1)).is_none());
    assert!(h.push(Percentage::from_u8(2)).is_none());
    assert!(h.push(Percentage::from_u8(3)).is_none());
    assert_eq!(h.to_string().as_str(), "{1,2,3}");
    let evicted = h.push(Percentage::from_u8(4));
    assert_eq!(evicted.unwrap().as_u8(), 1);
    assert_eq!(h.to_string().as_str(), "{2,3,4}");
}

#[test]
fn sparkline_caps_at_one_hundred() {
    let mut h = History::new(2);
    h.push(Percentage::from_u8(250));
    h.push(Percentage::from_u8(99));
    assert_eq!(h.to_string().as_str(), "{100,99}");
}

#[test]
fn snapshot_counters() {
    let snap = Snapshot::parse("cpu  10 20 30 40 50").unwrap();
    assert_eq!(snap.total(), 150);
    assert_eq!(snap.idle(), 40);
    assert_eq!(snap.used(), 110);
}

#[test]
fn snapshot_rejects_bad_counters() {
    assert_eq!(Snapshot::parse("cpu 12x 5"), Err(ParseError::InvalidDigit));
    assert_eq!(
        Snapshot::parse("cpu 99999999999999999999 1"),
        Err(ParseError::Overflow)
    );
}

#[test]
fn summary_line_is_found_by_prefix() {
    let raw = "intr 5\ncpu0 1 2\ncpu  7 8 9\nctxt 12";
    assert_eq!(cpu_summary_line(raw).unwrap().as_str(), "cpu  7 8 9");
    assert!(cpu_summary_line("cpu0 1 2\nctxt 3").is_none());
}

#[test]
fn meminfo_is_read_from_its_lines() {
    let raw = "MemTotal:       16000 kB\nMemFree:         4000 kB\nMemAvailable:   12000 kB\n";
    let info = parse_meminfo(raw).unwrap();
    assert_eq!(info, MemInfo { available: 12000, total: 16000 });
}

#[test]
fn meminfo_errors() {
    assert_eq!(parse_meminfo("MemTotal: 16000 kB\n"), Err(MemError::MissingField));
    assert_eq!(parse_meminfo("MemTotal:\nMemAvailable: 1 kB"), Err(MemError::MissingValue));
    assert_eq!(
        parse_meminfo("MemTotal: lots kB\nMemAvailable: 1 kB"),
        Err(MemError::InvalidValue(ParseError::InvalidDigit))
    );
}

#[test]
fn notification_records() {
    let o = swaync_output("swaync", "1,234", 1234, false);
    assert_eq!(o.text.as_str(), "1234");
    assert_eq!(o.tooltip.as_str(), "1,234 notifications");
    assert_eq!(o.class, vec![String::from("swaync disturb has")]);
    assert_eq!(o.percentage, 100);

    let one = swaync_output("swaync", "1", 1, false);
    assert_eq!(one.tooltip.as_str(), "1 notification");

    let quiet = swaync_output("swaync", "0", 0, true);
    assert_eq!(quiet.text.as_str(), "");
    assert_eq!(quiet.tooltip.as_str(), "No notifications");
    assert_eq!(quiet.class, vec![String::from("swaync dnd empty")]);
    assert_eq!(quiet.percentage, 0);
}

#[test]
fn json_escapes_strings() {
    let o = Output {
        text: String::from("a\"b\\c\nd\te\u{1}f"),
        tooltip: String::new(),
        class: Vec::new(),
        percentage: -5,
    };
    assert_eq!(
        o.to_json(),
        "{\"text\":\"a\\\"b\\\\c\\nd\\te\\u0001f\",\"tooltip\":\"\",\"class\":[],\"percentage\":-5}"
    );
}

#[test]
fn json_lists_every_class() {
    let o = Output {
        text: String::from("t"),
        tooltip: String::from("tip"),
        class: vec![String::from("a"), String::from("b")],
        percentage: 55,
    };
    assert_eq!(
        o.to_json(),
        "{\"text\":\"t\",\"tooltip\":\"tip\",\"class\":[\"a\",\"b\"],\"percentage\":55}"
    );
}
