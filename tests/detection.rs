use network_guardian::models::{IpAddress, ThreatSeverity, ThreatType};
use network_guardian::threat_detection::{ThreatDetector, TrafficMeter};

#[test]
fn arp_rebinding_raises_high_alert_naming_both_macs() {
    let mut det = ThreatDetector::new();
    let ip1 = IpAddress::v4(192, 168, 1, 1);
    let mac_a = "aa:aa:aa:aa:aa:aa".to_string();
    let mac_b = "bb:bb:bb:bb:bb:bb".to_string();
    assert!(det.detect_arp_spoofing(ip1, mac_a.clone()).is_none());
    assert!(det.detect_arp_spoofing(ip1, mac_a.clone()).is_none());
    let alert = det.detect_arp_spoofing(ip1, mac_b.clone()).expect("alert");
    assert_eq!(alert.threat_type, ThreatType::ArpSpoofing);
    assert_eq!(alert.severity, ThreatSeverity::High);
    assert_eq!(alert.ip, Some(ip1));
    assert!(alert.description.contains(&mac_a));
    assert!(alert.description.contains(&mac_b));
    assert_eq!(
        alert.description,
        "ARP spoofing detected! IP 192.168.1.1 changed from MAC aa:aa:aa:aa:aa:aa to bb:bb:bb:bb:bb:bb"
    );
}

#[test]
fn arp_first_binding_stays_ground_truth() {
    let mut det = ThreatDetector::new();
    let ip1 = IpAddress::v4(10, 0, 0, 1);
    assert!(det.detect_arp_spoofing(ip1, "A".to_string()).is_none());
    assert!(det.detect_arp_spoofing(ip1, "B".to_string()).is_some());
    assert!(det.detect_arp_spoofing(ip1, "B".to_string()).is_some());
    assert!(det.detect_arp_spoofing(ip1, "A".to_string()).is_none());
    assert!(det.detect_arp_spoofing(IpAddress::v4(10, 0, 0, 2), "B".to_string()).is_none());
}

#[test]
fn dns_new_address_alerts_once() {
    let mut det = ThreatDetector::new();
    let ip1 = IpAddress::v4(93, 184, 216, 34);
    let ip2 = IpAddress::v4(6, 6, 6, 6);
    assert!(det.detect_dns_spoofing("example.com", ip1).is_none());
    let alert = det.detect_dns_spoofing("example.com", ip2).expect("alert");
    assert_eq!(alert.threat_type, ThreatType::DnsSpoofing);
    assert_eq!(alert.severity, ThreatSeverity::High);
    assert_eq!(alert.ip, Some(ip2));
    assert_eq!(
        alert.description,
        "DNS anomaly detected for example.com. Expected [93.184.216.34], got 6.6.6.6"
    );
    assert!(det.detect_dns_spoofing("example.com", ip2).is_none());
}

#[test]
fn dns_alert_lists_all_known_addresses() {
    let mut det = ThreatDetector::new();
    let a = IpAddress::v4(1, 1, 1, 1);
    let b = IpAddress::v4(2, 2, 2, 2);
    let c = IpAddress::v4(3, 3, 3, 3);
    assert!(det.detect_dns_spoofing("d.org", a).is_none());
    assert!(det.detect_dns_spoofing("d.org", b).is_some());
    let alert = det.detect_dns_spoofing("d.org", c).expect("alert");
    assert_eq!(
        alert.description,
        "DNS anomaly detected for d.org. Expected [1.1.1.1, 2.2.2.2], got 3.3.3.3"
    );
    assert!(det.detect_dns_spoofing("other.org", c).is_none());
    assert!(det.detect_dns_spoofing("d.org", a).is_none());
}

#[test]
fn traffic_spike_after_warm_up_is_medium() {
    let mut det = ThreatDetector::new();
    for _ in 0..11 {
        assert!(det.detect_traffic_anomaly(100, 10_000).is_none());
    }
    let alert = det.detect_traffic_anomaly(1000, 100_000).expect("alert");
    assert_eq!(alert.threat_type, ThreatType::TrafficAnomaly);
    assert_eq!(alert.severity, ThreatSeverity::Medium);
    assert_eq!(alert.ip, None);
    assert_eq!(
        alert.description,
        "Traffic anomaly detected! Current: 1000 pps, 100000 bps. Baseline: 175 pps, 17500 bps"
    );
    assert_eq!(det.traffic_sample_count(), 12);
}

#[test]
fn traffic_warm_up_never_alerts() {
    let mut det = ThreatDetector::new();
    assert!(det.detect_traffic_anomaly(1, 1).is_none());
    for _ in 0..10 {
        assert!(det.detect_traffic_anomaly(1_000_000, 1_000_000).is_none());
    }
}

#[test]
fn traffic_eleventh_sample_never_alerts() {
    let mut det = ThreatDetector::new();
    for _ in 0..10 {
        assert!(det.detect_traffic_anomaly(0, 0).is_none());
    }
    assert!(det.detect_traffic_anomaly(1, 0).is_none());
    let alert = det.detect_traffic_anomaly(100, 0).expect("alert");
    assert_eq!(alert.severity, ThreatSeverity::Medium);
    assert_eq!(
        alert.description,
        "Traffic anomaly detected! Current: 100 pps, 0 bps. Baseline: 8 pps, 0 bps"
    );
}

#[test]
fn traffic_steady_rate_never_alerts() {
    let mut det = ThreatDetector::new();
    for _ in 0..30 {
        assert!(det.detect_traffic_anomaly(500, 64_000).is_none());
    }
}

#[test]
fn connection_quality_thresholds() {
    let det = ThreatDetector::new();
    assert!(det.detect_connection_issues(100, 10).is_none());
    let medium = det.detect_connection_issues(600, 10).expect("alert");
    assert_eq!(medium.severity, ThreatSeverity::Medium);
    assert_eq!(medium.threat_type, ThreatType::ConnectionIssue);
    assert_eq!(
        medium.description,
        "Connection quality degraded. Latency: 600ms, Packet Loss: 1.0%"
    );
    let high = det.detect_connection_issues(100, 600).expect("alert");
    assert_eq!(high.severity, ThreatSeverity::High);
    assert_eq!(
        high.description,
        "Connection quality degraded. Latency: 100ms, Packet Loss: 60.0%"
    );
    assert!(det.detect_connection_issues(500, 100).is_none());
    assert_eq!(det.detect_connection_issues(0, 101).unwrap().severity, ThreatSeverity::Medium);
}

#[test]
fn mitm_markers_are_case_sensitive() {
    let det = ThreatDetector::new();
    let alert = det.detect_mitm("bank.com", "FAKE CA").expect("alert");
    assert_eq!(alert.threat_type, ThreatType::MitmAttack);
    assert_eq!(alert.severity, ThreatSeverity::Critical);
    assert_eq!(alert.ip, None);
    assert_eq!(
        alert.description,
        "Potential MITM attack detected on bank.com. Suspicious certificate: FAKE CA"
    );
    assert!(det.detect_mitm("bank.com", "Issuer UNKNOWN").is_some());
    assert!(det.detect_mitm("bank.com", "fake ca").is_none());
    assert!(det.detect_mitm("bank.com", "Let's Encrypt").is_none());
}

#[test]
fn rogue_ap_needs_name_and_strong_signal() {
    let det = ThreatDetector::new();
    let alert = det.detect_rogue_ap("FREE_WIFI_CAFE", "de:ad:be:ef:00:01", -20).expect("alert");
    assert_eq!(alert.threat_type, ThreatType::RogueAccessPoint);
    assert_eq!(alert.severity, ThreatSeverity::High);
    assert_eq!(
        alert.description,
        "Suspicious access point detected: SSID='FREE_WIFI_CAFE', MAC=de:ad:be:ef:00:01, Signal=-20dBm"
    );
    assert!(det.detect_rogue_ap("GUEST_NETWORK", "m", -29).is_some());
    assert!(det.detect_rogue_ap("", "m", 5).is_some());
    assert!(det.detect_rogue_ap("FREE_WIFI", "m", -30).is_none());
    assert!(det.detect_rogue_ap("HomeNet", "m", -10).is_none());
}

#[test]
fn traffic_meter_reports_closed_windows() {
    let mut meter = TrafficMeter::new();
    assert_eq!(meter.observe(10_000, 100), None);
    assert_eq!(meter.observe(10_500, 200), None);
    assert_eq!(meter.observe(10_999, 50), None);
    assert_eq!(meter.observe(11_000, 70), Some((3, 350)));
    assert_eq!(meter.packets, 1);
    assert_eq!(meter.bytes, 70);
    assert_eq!(meter.window_start, 11_000);
    assert_eq!(meter.observe(15_000, 1), Some((1, 70)));
}
