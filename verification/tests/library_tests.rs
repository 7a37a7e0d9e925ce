use sshost::form_field::{choice_display, field_dimmed, field_display, field_title, masked};
use sshost::history::{
    format_relative_time, get_last_connection, log_connection, log_connection_at,
    record_connection,
    ConnectionRecord, Timestamp, HISTORY_LIMIT,
};
use sshost::key_files::{private_keys, public_keys, sort_texts};
use sshost::text::{chars_of, decimal_chars, parse_u16, signed_decimal_chars};

fn ts(secs: i64) -> Timestamp {
    Timestamp { secs, nanos: 0 }
}

#[test]
fn history_keeps_last_records() {
    let mut records: Vec<ConnectionRecord> = Vec::new();
    for i in 0..(HISTORY_LIMIT + 3) {
        records = record_connection(records, &format!("h{i}"), ts(i as i64));
    }
    assert_eq!(records.len(), HISTORY_LIMIT);
    assert_eq!(records[0].host, "h3");
    assert_eq!(records.last().unwrap().host, format!("h{}", HISTORY_LIMIT + 2));
}

#[test]
fn last_connection_is_latest_time() {
    let mut records = Vec::new();
    records = record_connection(records, "a", ts(50));
    records = record_connection(records, "b", ts(70));
    records = record_connection(records, "a", ts(10));
    assert_eq!(get_last_connection(&records, "a"), Some(ts(50)));
    assert_eq!(get_last_connection(&records, "b"), Some(ts(70)));
    assert_eq!(get_last_connection(&records, "c"), None);
}

#[test]
fn log_connection_uses_current_time() {
    let before = std::time::SystemTime::now()
        .duration_since(std::time::UNIX_EPOCH)
        .unwrap()
        .as_secs() as i64;
    let records = log_connection(Vec::new(), "x");
    assert_eq!(records.len(), 1);
    assert_eq!(records[0].host, "x");
    assert!(records[0].timestamp.secs >= before);
    assert!(records[0].timestamp.secs <= before + 60);
    assert!(records[0].timestamp.nanos < 1_000_000_000);
}

#[test]
fn relative_time_labels() {
    assert_eq!(format_relative_time(-5), "just now");
    assert_eq!(format_relative_time(59), "just now");
    assert_eq!(format_relative_time(60), "1m ago");
    assert_eq!(format_relative_time(3599), "59m ago");
    assert_eq!(format_relative_time(3600), "1h ago");
    assert_eq!(format_relative_time(86399), "23h ago");
    assert_eq!(format_relative_time(86400 * 3 + 5), "3d ago");
}

#[test]
fn private_keys_need_public_companion() {
    let files = vec![
        ("id_rsa".to_string(), true),
        ("id_rsa.pub".to_string(), false),
        ("config".to_string(), true),
        ("known_hosts".to_string(), true),
        ("known_hosts.old".to_string(), true),
        ("authorized_keys".to_string(), true),
        ("id_ed25519".to_string(), true),
        ("notes".to_string(), false),
        ("Work".to_string(), true),
    ];
    assert_eq!(private_keys(files), vec!["~/.ssh/Work", "~/.ssh/id_ed25519", "~/.ssh/id_rsa"]);
}

#[test]
fn public_keys_end_in_pub() {
    let names = vec![
        "id_rsa".to_string(),
        "z.pub".to_string(),
        "id_rsa.pub".to_string(),
        ".pub".to_string(),
        "pub".to_string(),
    ];
    assert_eq!(public_keys(names), vec!["~/.ssh/.pub", "~/.ssh/id_rsa.pub", "~/.ssh/z.pub"]);
}

#[test]
fn sort_texts_orders_by_code_point() {
    let items = vec!["b".to_string(), "a".to_string(), "ab".to_string(), "B".to_string(), "a".to_string(), "é".to_string()];
    let mut expected = items.clone();
    expected.sort();
    assert_eq!(sort_texts(items), expected);
    assert!(sort_texts(Vec::new()).is_empty());
}

#[test]
fn form_field_texts() {
    assert_eq!(field_display("", true, "hint"), "\u{2588}");
    assert_eq!(field_display("", false, "hint"), "hint");
    assert_eq!(field_display("ab", true, "hint"), "ab\u{2588}");
    assert_eq!(field_display("ab", false, "hint"), "ab");
    assert!(field_dimmed("", false));
    assert!(!field_dimmed("", true));
    assert_eq!(field_title("Host", true), " Host * ");
    assert_eq!(field_title("Port", false), " Port ");
    assert_eq!(choice_display("k", true, true), "\u{25c0} k \u{25b6}");
    assert_eq!(choice_display("k", true, false), "k");
}

#[test]
fn decimal_text_parses_back() {
    for n in [0u16, 7, 22, 2222, 65535] {
        let text = decimal_chars(n as u64);
        assert_eq!(text.iter().collect::<String>(), n.to_string());
        assert_eq!(parse_u16(&text), Some(n));
    }
    assert_eq!(parse_u16(&chars_of("65536")), None);
    assert_eq!(parse_u16(&chars_of("+80")), Some(80));
    assert_eq!(parse_u16(&chars_of("")), None);
    assert_eq!(parse_u16(&chars_of(" 80")), None);
    assert_eq!(signed_decimal_chars(-42).iter().collect::<String>(), "-42");
}

#[test]
fn masked_text_is_stars() {
    assert_eq!(masked(0), "");
    assert_eq!(masked(4), "****");
}

#[test]
fn log_connection_at_uses_the_reading() {
    let records = log_connection_at(Vec::new(), "a", Some((1_700_000_000, 5)));
    assert_eq!(records.len(), 1);
    assert_eq!(records[0].host, "a");
    assert_eq!(records[0].timestamp, Timestamp { secs: 1_700_000_000, nanos: 5 });
    let same = log_connection_at(records, "b", None);
    assert_eq!(same.len(), 1);
    let still = log_connection_at(same, "c", Some((u64::MAX, 0)));
    assert_eq!(still.len(), 1);
    assert_eq!(still[0].host, "a");
}
