//! Notification payloads: what a desktop notification for an alert says.

use vstd::prelude::*;
use crate::models::{ThreatAlert, ThreatSeverity, ThreatType};

verus! {

/// Upper-case name of a severity, as notifications show it.
pub open spec fn severity_label(severity: ThreatSeverity) -> Seq<char> {
    match severity {
        ThreatSeverity::Critical => "CRITICAL"@,
        ThreatSeverity::High => "HIGH"@,
        ThreatSeverity::Medium => "MEDIUM"@,
        ThreatSeverity::Low => "LOW"@,
    }
}

/// Readable name of a threat kind, as notifications show it.
pub open spec fn threat_type_label(threat_type: ThreatType) -> Seq<char> {
    match threat_type {
        ThreatType::ArpSpoofing => "ARP Spoofing"@,
        ThreatType::DnsSpoofing => "DNS Spoofing"@,
        ThreatType::MitmAttack => "MITM Attack"@,
        ThreatType::RogueAccessPoint => "Rogue Access Point"@,
        ThreatType::TrafficAnomaly => "Traffic Anomaly"@,
        ThreatType::ConnectionIssue => "Connection Issue"@,
    }
}

/// Title of the notification for an alert: severity, then kind.
pub open spec fn title_text(threat: ThreatAlert) -> Seq<char> {
    "🚨 "@ + severity_label(threat.severity) + " - "@ + threat_type_label(threat.threat_type)
}

/// Body of the notification for an alert: an address line when the alert
/// has an address, then the description.
pub open spec fn body_text(threat: ThreatAlert) -> Seq<char> {
    match threat.ip {
        Some(ip) => "IP: "@ + ip.text() + "\n"@ + threat.description@,
        None => threat.description@,
    }
}

/// Icon name for a severity.
pub open spec fn icon_text(severity: ThreatSeverity) -> Seq<char> {
    match severity {
        ThreatSeverity::Critical => "dialog-warning"@,
        ThreatSeverity::High => "dialog-error"@,
        ThreatSeverity::Medium => "dialog-question"@,
        ThreatSeverity::Low => "dialog-information"@,
    }
}

/// Upper-case name of a severity.
pub fn threat_severity_string(severity: &ThreatSeverity) -> (r: String)
    ensures
        r@ == severity_label(*severity),
{
    match severity {
        ThreatSeverity::Critical => String::from_str("CRITICAL"),
        ThreatSeverity::High => String::from_str("HIGH"),
        ThreatSeverity::Medium => String::from_str("MEDIUM"),
        ThreatSeverity::Low => String::from_str("LOW"),
    }
}

/// Readable name of a threat kind.
pub fn threat_type_string(threat_type: &ThreatType) -> (r: String)
    ensures
        r@ == threat_type_label(*threat_type),
{
    match threat_type {
        ThreatType::ArpSpoofing => String::from_str("ARP Spoofing"),
        ThreatType::DnsSpoofing => String::from_str("DNS Spoofing"),
        ThreatType::MitmAttack => String::from_str("MITM Attack"),
        ThreatType::RogueAccessPoint => String::from_str("Rogue Access Point"),
        ThreatType::TrafficAnomaly => String::from_str("Traffic Anomaly"),
        ThreatType::ConnectionIssue => String::from_str("Connection Issue"),
    }
}

/// Builds the payloads of desktop notifications; delivering them is left
/// to the caller.
pub struct NotificationManager;

impl NotificationManager {
    /// Title of the notification for `threat`.
    pub fn threat_title(threat: &ThreatAlert) -> (r: String)
        ensures
            r@ == title_text(*threat),
    {
        let mut t = String::from_str("🚨 ");
        let sev = threat_severity_string(&threat.severity);
        t.append(sev.as_str());
        t.append(" - ");
        let kind = threat_type_string(&threat.threat_type);
        t.append(kind.as_str());
        assert(t@ =~= title_text(*threat));
        t
    }

    /// Body of the notification for `threat`.
    pub fn threat_body(threat: &ThreatAlert) -> (r: String)
        ensures
            r@ == body_text(*threat),
    {
        match threat.ip {
            Some(ip) => {
                let mut b = String::from_str("IP: ");
                ip.push_text(&mut b);
                b.append("\n");
                b.append(threat.description.as_str());
                assert(b@ =~= body_text(*threat));
                b
            },
            None => threat.description.clone(),
        }
    }

    /// Icon of the notification for an alert of `severity`.
    pub fn threat_icon(severity: ThreatSeverity) -> (r: &'static str)
        ensures
            r@ == icon_text(severity),
    {
        match severity {
            ThreatSeverity::Critical => "dialog-warning",
            ThreatSeverity::High => "dialog-error",
            ThreatSeverity::Medium => "dialog-question",
            ThreatSeverity::Low => "dialog-information",
        }
    }
}

} // verus!
