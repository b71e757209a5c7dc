use trafficmon::config::{get_interfaces, get_interval, get_output_path, resolve_configuration};
use trafficmon::parse::{parse_u64, parse_u64_or_zero, tokenize};
use trafficmon::reader::{counter_name, parse_counter_text, read_outcome, CounterError};

#[test]
fn tokenize_splits_on_whitespace() {
    let toks = tokenize("  alpha\tbb\ncc  ");
    assert_eq!(toks, vec!["alpha".to_string(), "bb".to_string(), "cc".to_string()]);
}

#[test]
fn tokenize_empty_input() {
    let toks = tokenize("");
    assert!(toks.is_empty());
    let toks = tokenize(" \t\r\n");
    assert!(toks.is_empty());
}

#[test]
fn parse_u64_accepts_digits() {
    assert_eq!(parse_u64("0"), Some(0));
    assert_eq!(parse_u64("45000"), Some(45000));
    assert_eq!(parse_u64("18446744073709551615"), Some(u64::MAX));
}

#[test]
fn parse_u64_rejects_non_digits() {
    assert_eq!(parse_u64(""), None);
    assert_eq!(parse_u64("12a"), None);
    assert_eq!(parse_u64("-3"), None);
    assert_eq!(parse_u64("+3"), None);
    assert_eq!(parse_u64("1 2"), None);
}

#[test]
fn parse_u64_rejects_overflow() {
    assert_eq!(parse_u64("18446744073709551616"), None);
    assert_eq!(parse_u64("99999999999999999999999"), None);
    assert_eq!(parse_u64_or_zero("18446744073709551616"), 0);
}

#[test]
fn counter_text_basic() {
    let s = parse_counter_text("counter packets 120 bytes 45000");
    assert_eq!(s.packets, 120);
    assert_eq!(s.bytes, 45000);
}

#[test]
fn counter_text_last_occurrence_wins() {
    let s = parse_counter_text("packets 1 bytes 2\npackets 120 bytes 45000");
    assert_eq!(s.packets, 120);
    assert_eq!(s.bytes, 45000);
}

#[test]
fn counter_text_non_numeric_field_degrades_to_zero() {
    let s = parse_counter_text("packets abc bytes 7");
    assert_eq!(s.packets, 0);
    assert_eq!(s.bytes, 7);
}

#[test]
fn counter_text_absent_keyword_defaults_to_zero() {
    let s = parse_counter_text("bytes 9");
    assert_eq!(s.packets, 0);
    assert_eq!(s.bytes, 9);
    let s = parse_counter_text("");
    assert_eq!(s.packets, 0);
    assert_eq!(s.bytes, 0);
}

#[test]
fn counter_text_trailing_keyword_resolves_to_zero() {
    let s = parse_counter_text("packets 5 bytes 9 packets");
    assert_eq!(s.packets, 0);
    assert_eq!(s.bytes, 9);
}

#[test]
fn counter_text_value_does_not_cross_lines() {
    let s = parse_counter_text("packets\n7");
    assert_eq!(s.packets, 0);
    assert_eq!(s.bytes, 0);
}

#[test]
fn counter_text_line_final_keyword_mid_text_resolves_to_zero() {
    let s = parse_counter_text("packets 5\npackets\n7");
    assert_eq!(s.packets, 0);
    assert_eq!(s.bytes, 0);
}

#[test]
fn counter_text_last_occurrence_within_one_line_wins() {
    let s = parse_counter_text("packets 1 packets 2\nbytes 3");
    assert_eq!(s.packets, 2);
    assert_eq!(s.bytes, 3);
}

#[test]
fn counter_text_carriage_return_ends_a_token() {
    let s = parse_counter_text("counter packets 120 bytes 45000\r\nmore text");
    assert_eq!(s.packets, 120);
    assert_eq!(s.bytes, 45000);
}

#[test]
fn read_outcome_success_parses_stdout() {
    let r = read_outcome(true, "packets 3 bytes 4", "ignored");
    let s = r.expect("successful command must yield a sample");
    assert_eq!(s.packets, 3);
    assert_eq!(s.bytes, 4);
}

#[test]
fn read_outcome_failure_carries_diagnostics() {
    let r = read_outcome(false, "packets 3 bytes 4", "permission denied");
    assert_eq!(
        r,
        Err(CounterError::CommandError("permission denied".to_string()))
    );
}

#[test]
fn execution_error_is_distinct_from_command_error() {
    let e = CounterError::ExecutionError("spawn failed".to_string());
    assert_ne!(e, CounterError::CommandError("spawn failed".to_string()));
}

#[test]
fn counter_name_prefixes_interface() {
    assert_eq!(counter_name("eth1"), "cnt_eth1".to_string());
    assert_eq!(counter_name("pppoe-wan"), "cnt_pppoe-wan".to_string());
}

#[test]
fn interfaces_default_when_unset() {
    let ifaces = get_interfaces(None);
    assert_eq!(ifaces, vec!["eth1".to_string(), "pppoe-wan".to_string()]);
}

#[test]
fn interfaces_from_setting() {
    let ifaces = get_interfaces(Some("wan0  lan0\tlan1"));
    assert_eq!(
        ifaces,
        vec!["wan0".to_string(), "lan0".to_string(), "lan1".to_string()]
    );
}

#[test]
fn interval_default_and_parsing() {
    assert_eq!(get_interval(None), 5);
    assert_eq!(get_interval(Some("7")), 7);
    assert_eq!(get_interval(Some("abc")), 5);
    assert_eq!(get_interval(Some("0")), 5);
}

#[test]
fn output_path_default_and_setting() {
    assert_eq!(get_output_path(None), "/var/run/trafficmon.json".to_string());
    assert_eq!(get_output_path(Some("/tmp/t.json")), "/tmp/t.json".to_string());
}

#[test]
fn configuration_resolves_defaults() {
    let c = resolve_configuration(None, None, None);
    assert_eq!(c.interfaces, vec!["eth1".to_string(), "pppoe-wan".to_string()]);
    assert_eq!(c.poll_interval_seconds, 5);
    assert_eq!(c.output_path, "/var/run/trafficmon.json".to_string());
}

#[test]
fn configuration_resolves_settings() {
    let c = resolve_configuration(Some("wan0 lan0"), Some("30"), Some("/tmp/out.json"));
    assert_eq!(c.interfaces, vec!["wan0".to_string(), "lan0".to_string()]);
    assert_eq!(c.poll_interval_seconds, 30);
    assert_eq!(c.output_path, "/tmp/out.json".to_string());
}
