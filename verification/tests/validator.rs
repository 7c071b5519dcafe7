use nearby_rs::validator::{is_valid_ipv4, matches_wifi_direct_ssid, within_range};

#[test]
fn ipv4_matcher_mirrors_pattern() {
    assert!(is_valid_ipv4("0.0.0.0"));
    assert!(is_valid_ipv4("192.168.1.1"));
    assert!(is_valid_ipv4("255.255.255.255"));
    assert!(!is_valid_ipv4("256.0.0.1"));
    assert!(!is_valid_ipv4("1.2.3"));
    assert!(!is_valid_ipv4("1.2.3.4.5"));
    assert!(!is_valid_ipv4("1.2.3."));
    assert!(!is_valid_ipv4(""));
    assert!(!is_valid_ipv4("a.b.c.d"));
}

#[test]
fn wifi_direct_ssid_matcher_mirrors_pattern() {
    assert!(matches_wifi_direct_ssid("DIRECT-A0-0123456789AB"));
    assert!(matches_wifi_direct_ssid("DIRECT-Zz"));
    assert!(!matches_wifi_direct_ssid("DIRECT-A*-0123456789AB"));
    assert!(!matches_wifi_direct_ssid("NOTDIRECT-AB"));
    assert!(!matches_wifi_direct_ssid("DIRECT-A"));
    assert!(!matches_wifi_direct_ssid("DIRECT-"));
}

#[test]
fn within_range_is_half_open() {
    assert!(within_range(8, 8, 64));
    assert!(!within_range(64, 8, 64));
    assert!(!within_range(7, 8, 64));
}
