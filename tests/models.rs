use network_guardian::models::{IpAddress, ThreatAlert, ThreatSeverity, ThreatType};
use network_guardian::text::decimal_string;
use network_guardian::utils::{get_gateway, get_mac_address};

fn alert_of(severity: ThreatSeverity) -> ThreatAlert {
    ThreatAlert {
        threat_type: ThreatType::TrafficAnomaly,
        severity,
        ip: None,
        description: String::new(),
        timestamp: 0,
    }
}

#[test]
fn should_notify_only_high_and_critical() {
    assert!(!alert_of(ThreatSeverity::Low).should_notify());
    assert!(!alert_of(ThreatSeverity::Medium).should_notify());
    assert!(alert_of(ThreatSeverity::High).should_notify());
    assert!(alert_of(ThreatSeverity::Critical).should_notify());
}

#[test]
fn is_critical_only_for_critical() {
    assert!(!alert_of(ThreatSeverity::High).is_critical());
    assert!(alert_of(ThreatSeverity::Critical).is_critical());
}

#[test]
fn severity_order_and_levels() {
    assert!(ThreatSeverity::Low < ThreatSeverity::Medium);
    assert!(ThreatSeverity::Medium < ThreatSeverity::High);
    assert!(ThreatSeverity::High < ThreatSeverity::Critical);
    assert_eq!(ThreatSeverity::Low.level(), 0);
    assert_eq!(ThreatSeverity::Critical.level(), 3);
}

#[test]
fn ipv4_text_is_dotted_decimal() {
    assert_eq!(IpAddress::v4(192, 168, 1, 100).to_text(), "192.168.1.100");
    assert_eq!(IpAddress::v4(0, 0, 0, 0).to_text(), "0.0.0.0");
    assert_eq!(IpAddress::v4(192, 168, 1, 100), IpAddress::V4(0xC0A8_0164));
}

#[test]
fn ipv6_text_compresses_first_longest_zero_run() {
    let a = IpAddress::V6(0xfe80_0000_0000_0000_0202_b3ff_fe1e_8329);
    assert_eq!(a.to_text(), "fe80::202:b3ff:fe1e:8329");
    assert_eq!(IpAddress::V6(1).to_text(), "::1");
    assert_eq!(IpAddress::V6(0).to_text(), "::");
    assert_eq!(IpAddress::V6(0x0001_0000_0000_0002_0000_0000_0000_0003).to_text(), "1:0:0:2::3");
    assert_eq!(IpAddress::V6(0x0001_0000_0000_0002_0000_0000_0003_0004).to_text(), "1::2:0:0:3:4");
    assert_eq!(IpAddress::V6(0x0001_0000_0002_0003_0004_0005_0006_0007).to_text(), "1:0:2:3:4:5:6:7");
    assert_eq!(IpAddress::V6(0x2001_0db8_0000_0000_0000_0000_0000_0000).to_text(), "2001:db8::");
}

#[test]
fn ipv6_text_of_mapped_and_full_addresses() {
    assert_eq!(IpAddress::V6(0xffff_c0a8_0101).to_text(), "::ffff:192.168.1.1");
    assert_eq!(
        IpAddress::V6(0x2001_0db8_0000_0001_0000_0000_0000_0001).to_text(),
        "2001:db8:0:1::1"
    );
    assert_eq!(IpAddress::V6(u128::MAX).to_text(), "ffff:ffff:ffff:ffff:ffff:ffff:ffff:ffff");
}

#[test]
fn decimal_numerals() {
    assert_eq!(decimal_string(0), "0");
    assert_eq!(decimal_string(7), "7");
    assert_eq!(decimal_string(1234567890), "1234567890");
    assert_eq!(decimal_string(u64::MAX), "18446744073709551615");
}

#[test]
fn placeholder_host_facts() {
    assert_eq!(get_gateway(), Some("192.168.1.1".to_string()));
    assert_eq!(get_mac_address(), Some("00:11:22:33:44:55".to_string()));
}
