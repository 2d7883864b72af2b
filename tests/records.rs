use network_guardian::models::{IpAddress, ThreatAlert, ThreatSeverity, ThreatType};
use network_guardian::threat_database::{ThreaStatistics, ThreatRecord};

#[test]
fn record_tags_decode_to_kind_and_severity() {
    let kinds = [
        ThreatType::ArpSpoofing,
        ThreatType::DnsSpoofing,
        ThreatType::MitmAttack,
        ThreatType::RogueAccessPoint,
        ThreatType::TrafficAnomaly,
        ThreatType::ConnectionIssue,
    ];
    let severities = [
        ThreatSeverity::Low,
        ThreatSeverity::Medium,
        ThreatSeverity::High,
        ThreatSeverity::Critical,
    ];
    for kind in kinds {
        for severity in severities {
            let alert = ThreatAlert {
                threat_type: kind,
                severity,
                ip: Some(IpAddress::v4(172, 16, 0, 9)),
                description: "seen twice".to_string(),
                timestamp: 1_700_000_000_000,
            };
            let record = ThreatRecord::from_alert(&alert);
            assert_eq!(ThreatType::from_tag(&record.threat_type), Some(kind));
            assert_eq!(ThreatSeverity::from_tag(&record.severity), Some(severity));
            assert_eq!(record.ip_address, Some("172.16.0.9".to_string()));
            assert_eq!(record.description, "seen twice");
            assert_eq!(record.timestamp, 1_700_000_000_000);
        }
    }
}

#[test]
fn record_tags_are_stable_names() {
    let alert = ThreatAlert {
        threat_type: ThreatType::RogueAccessPoint,
        severity: ThreatSeverity::Medium,
        ip: None,
        description: String::new(),
        timestamp: 0,
    };
    let record = ThreatRecord::from_alert(&alert);
    assert_eq!(record.threat_type, "RogueAccessPoint");
    assert_eq!(record.severity, "Medium");
    assert_eq!(record.ip_address, None);
    assert_eq!(ThreatType::from_tag("Bogus"), None);
    assert_eq!(ThreatSeverity::from_tag("high"), None);
}

#[test]
fn empty_statistics() {
    let stats = ThreaStatistics { total: 0, critical: 0, high: 0, medium: 0, low: 0 };
    assert_eq!(stats.total, 0);
}
