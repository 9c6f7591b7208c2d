use sysmon::stats::{network_totals, NetworkInterface};
use sysmon::text::{parse_u32_trimmed, parse_u64_trimmed, str_eq};

#[test]
fn trimmed_number_parsing() {
    assert_eq!(parse_u64_trimmed("  123 \n"), Some(123));
    assert_eq!(parse_u64_trimmed("123"), Some(123));
    assert_eq!(parse_u64_trimmed("+5"), Some(5));
    assert_eq!(parse_u64_trimmed(""), None);
    assert_eq!(parse_u64_trimmed("   "), None);
    assert_eq!(parse_u64_trimmed("12a"), None);
    assert_eq!(parse_u64_trimmed("-5"), None);
    assert_eq!(parse_u64_trimmed("18446744073709551615"), Some(u64::MAX));
    assert_eq!(parse_u64_trimmed("18446744073709551616"), None);
    assert_eq!(parse_u64_trimmed("99999999999999999999999"), None);
}

#[test]
fn u32_parsing_rejects_wide_values() {
    assert_eq!(parse_u32_trimmed("4294967295"), Some(u32::MAX));
    assert_eq!(parse_u32_trimmed("4294967296"), None);
    assert_eq!(parse_u32_trimmed("37\n"), Some(37));
}

#[test]
fn string_equality_by_characters() {
    assert!(str_eq("GPU", "GPU"));
    assert!(!str_eq("GPU", "GPU "));
    assert!(!str_eq("GPU", "CPU"));
    assert!(str_eq("", ""));
}

fn iface(name: &str, rx: u64, tx: u64) -> NetworkInterface {
    NetworkInterface {
        name: name.to_string(),
        received: rx,
        transmitted: tx,
        packets_in: 0,
        packets_out: 0,
        errors_in: 0,
        errors_out: 0,
        mac_address: String::new(),
    }
}

#[test]
fn interface_totals_sum_per_direction() {
    let ifaces = vec![iface("eth0", 100, 10), iface("wlan0", 50, 5)];
    assert_eq!(network_totals(&ifaces), (150, 15));
    assert_eq!(network_totals(&Vec::new()), (0, 0));
}

#[test]
fn interface_totals_saturate() {
    let ifaces = vec![iface("a", u64::MAX, 1), iface("b", 5, 2)];
    assert_eq!(network_totals(&ifaces), (u64::MAX, 3));
}
