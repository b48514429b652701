use hyperlight_agents::framing::{mcp_request_message, new_request_id, parse_mcp_request_message};
use hyperlight_agents::requests::RequestRegistry;
use hyperlight_agents::string_map::StringMap;
use hyperlight_agents::text::{
    concat3, contains, ends_with, i32_to_decimal, i64_to_decimal, is_blank, is_whitespace, join_strings, starts_with,
    string_from_utf8, string_from_utf8_lossy, u64_to_decimal,
};

#[test]
fn decimal_rendering() {
    assert_eq!(u64_to_decimal(0), "0");
    assert_eq!(u64_to_decimal(1234567890), "1234567890");
    assert_eq!(u64_to_decimal(u64::MAX), "18446744073709551615");
    assert_eq!(i64_to_decimal(-42), "-42");
    assert_eq!(i64_to_decimal(i64::MIN), "-9223372036854775808");
    assert_eq!(i32_to_decimal(-1), "-1");
    assert_eq!(i32_to_decimal(7), "7");
}

#[test]
fn prefixes_suffixes_and_pieces() {
    assert!(starts_with("hyperlight_agents::host", "hyperlight_agents"));
    assert!(!starts_with("hyper", "hyperlight"));
    assert!(ends_with("rootfs.ext4", ".ext4"));
    assert!(!ends_with("a", "ab"));
    assert!(contains("x86_64-unknown-none\nx86_64-unknown-linux-musl", "linux-musl"));
    assert!(!contains("abc", "abd"));
    assert!(contains("abc", ""));
    assert_eq!(concat3("a", "b", "c"), "abc");
}

#[test]
fn joining_strings() {
    let parts = vec!["a".to_string(), "b".to_string(), "c".to_string()];
    assert_eq!(join_strings(&parts, ", "), "a, b, c");
    assert_eq!(join_strings(&Vec::new(), ","), "");
    assert_eq!(join_strings(&vec!["only".to_string()], ","), "only");
}

#[test]
fn blank_text() {
    assert!(is_blank(""));
    assert!(is_blank(" \t\r\n"));
    assert!(!is_blank("  x "));
}

#[test]
fn utf8_decoding() {
    assert_eq!(string_from_utf8(b"hello".to_vec()), Some("hello".to_string()));
    assert_eq!(string_from_utf8(vec![0xff, 0x61]), None);
    assert_eq!(string_from_utf8_lossy(&[0x68, 0x69]), "hi");
    assert_eq!(string_from_utf8_lossy(&[0x61, 0xff, 0x62]), "a\u{FFFD}b");
}

#[test]
fn framing_round_trip() {
    let framed = mcp_request_message("req-1", "{\"a\":\"b:c\"}");
    assert_eq!(framed, "mcp_request:req-1:{\"a\":\"b:c\"}");
    assert_eq!(
        parse_mcp_request_message(&framed),
        Some(("req-1".to_string(), "{\"a\":\"b:c\"}".to_string()))
    );
}

#[test]
fn framing_rejects_other_content() {
    assert_eq!(parse_mcp_request_message("hello"), None);
    assert_eq!(parse_mcp_request_message("mcp_request:no-separator"), None);
    assert_eq!(
        parse_mcp_request_message("mcp_request::empty id"),
        Some((String::new(), "empty id".to_string()))
    );
}

#[test]
fn request_ids_are_fresh_and_well_formed() {
    let a = new_request_id();
    let b = new_request_id();
    assert!(a.starts_with("req-"));
    assert_eq!(a.len(), 40);
    assert!(!a.contains(':'));
    assert_ne!(a, b);
}

#[test]
fn string_map_insert_get_remove() {
    let mut m: StringMap<u32> = StringMap::new();
    assert_eq!(m.insert("a".to_string(), 1), None);
    assert_eq!(m.insert("b".to_string(), 2), None);
    assert_eq!(m.insert("a".to_string(), 3), Some(1));
    assert_eq!(m.len(), 2);
    assert_eq!(m.get("a"), Some(&3));
    assert!(m.contains_key("b"));
    assert_eq!(m.keys(), vec!["a".to_string(), "b".to_string()]);
    assert_eq!(m.remove("a"), Some(3));
    assert_eq!(m.remove("a"), None);
    assert_eq!(m.len(), 1);
}

#[test]
fn string_map_remove_by_value() {
    let mut m: StringMap<String> = StringMap::new();
    m.insert("agent1".to_string(), "req-1".to_string());
    m.insert("agent2".to_string(), "req-2".to_string());
    m.insert("agent3".to_string(), "req-1".to_string());
    let removed = m.remove_entries_with_value("req-1");
    assert_eq!(removed, vec!["agent1".to_string(), "agent3".to_string()]);
    assert_eq!(m.keys(), vec!["agent2".to_string()]);
}

#[test]
fn registry_answer_reaches_caller_once() {
    let mut reg: RequestRegistry<u32> = RequestRegistry::new();
    reg.open_request("req-1".to_string(), 7);
    reg.record_agent_request("agent".to_string(), "req-1".to_string());
    assert_eq!(reg.agent_request("agent"), Some("req-1".to_string()));
    assert_eq!(reg.take_answer_channel("agent"), Some(7));
    assert_eq!(reg.take_answer_channel("agent"), None);
    assert!(!reg.is_open("req-1"));
}

#[test]
fn registry_answers_do_not_cross() {
    let mut reg: RequestRegistry<u32> = RequestRegistry::new();
    reg.open_request("req-1".to_string(), 1);
    reg.open_request("req-2".to_string(), 2);
    reg.record_agent_request("a".to_string(), "req-1".to_string());
    reg.record_agent_request("b".to_string(), "req-2".to_string());
    assert_eq!(reg.take_answer_channel("b"), Some(2));
    assert!(reg.is_open("req-1"));
    assert_eq!(reg.take_answer_channel("a"), Some(1));
}

#[test]
fn registry_close_removes_everything() {
    let mut reg: RequestRegistry<u32> = RequestRegistry::new();
    reg.open_request("req-1".to_string(), 1);
    reg.record_agent_request("a".to_string(), "req-1".to_string());
    reg.record_agent_request("b".to_string(), "req-1".to_string());
    let cleared = reg.close_request("req-1");
    assert_eq!(cleared, vec!["a".to_string(), "b".to_string()]);
    assert!(!reg.is_open("req-1"));
    assert_eq!(reg.agent_request("a"), None);
    assert_eq!(reg.response_channel("req-1"), None);
}

#[test]
fn registry_failure_and_forgetting() {
    let mut reg: RequestRegistry<u32> = RequestRegistry::new();
    reg.open_request("req-9".to_string(), 9);
    reg.record_agent_request("a".to_string(), "req-9".to_string());
    assert_eq!(reg.response_channel("req-9"), Some(&9));
    assert_eq!(reg.fail_agent_request("a", "req-9"), Some(9));
    assert_eq!(reg.agent_request("a"), None);
    reg.record_agent_request("a".to_string(), "req-x".to_string());
    reg.forget_agent("a");
    assert_eq!(reg.agent_request("a"), None);
}


#[test]
fn whitespace_agrees_with_std_on_every_char() {
    for v in 0u32..=0x10FFFF {
        if let Some(c) = char::from_u32(v) {
            assert_eq!(is_whitespace(c), c.is_whitespace(), "U+{:04X}", v);
        }
    }
}
