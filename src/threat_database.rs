//! The record shape that the alert store accepts, and the stable tags in
//! which kinds and severities are stored.

use vstd::prelude::*;
use crate::models::{IpAddress, ThreatAlert, ThreatSeverity, ThreatType};

verus! {

/// Stable tag under which a threat kind is stored.
pub open spec fn type_tag(t: ThreatType) -> Seq<char> {
    match t {
        ThreatType::ArpSpoofing => "ArpSpoofing"@,
        ThreatType::DnsSpoofing => "DnsSpoofing"@,
        ThreatType::MitmAttack => "MitmAttack"@,
        ThreatType::RogueAccessPoint => "RogueAccessPoint"@,
        ThreatType::TrafficAnomaly => "TrafficAnomaly"@,
        ThreatType::ConnectionIssue => "ConnectionIssue"@,
    }
}

/// Stable tag under which a severity is stored.
pub open spec fn severity_tag(s: ThreatSeverity) -> Seq<char> {
    match s {
        ThreatSeverity::Low => "Low"@,
        ThreatSeverity::Medium => "Medium"@,
        ThreatSeverity::High => "High"@,
        ThreatSeverity::Critical => "Critical"@,
    }
}

/// The threat kind stored under `tag`, if any.
pub open spec fn type_from_tag(tag: Seq<char>) -> Option<ThreatType> {
    if tag == "ArpSpoofing"@ {
        Some(ThreatType::ArpSpoofing)
    } else if tag == "DnsSpoofing"@ {
        Some(ThreatType::DnsSpoofing)
    } else if tag == "MitmAttack"@ {
        Some(ThreatType::MitmAttack)
    } else if tag == "RogueAccessPoint"@ {
        Some(ThreatType::RogueAccessPoint)
    } else if tag == "TrafficAnomaly"@ {
        Some(ThreatType::TrafficAnomaly)
    } else if tag == "ConnectionIssue"@ {
        Some(ThreatType::ConnectionIssue)
    } else {
        None
    }
}

/// The severity stored under `tag`, if any.
pub open spec fn severity_from_tag(tag: Seq<char>) -> Option<ThreatSeverity> {
    if tag == "Low"@ {
        Some(ThreatSeverity::Low)
    } else if tag == "Medium"@ {
        Some(ThreatSeverity::Medium)
    } else if tag == "High"@ {
        Some(ThreatSeverity::High)
    } else if tag == "Critical"@ {
        Some(ThreatSeverity::Critical)
    } else {
        None
    }
}

/// Textual form of an optional address.
pub open spec fn address_text(ip: Option<IpAddress>) -> Option<Seq<char>> {
    match ip {
        Some(a) => Some(a.text()),
        None => None,
    }
}

fn same_text(a: &str, b: &str) -> (r: bool)
    ensures
        r == (a@ == b@),
{
    String::from_str(a) == String::from_str(b)
}

impl ThreatType {
    /// Stable tag of the kind.
    pub fn tag(&self) -> (r: &'static str)
        ensures
            r@ == type_tag(*self),
    {
        match self {
            ThreatType::ArpSpoofing => "ArpSpoofing",
            ThreatType::DnsSpoofing => "DnsSpoofing",
            ThreatType::MitmAttack => "MitmAttack",
            ThreatType::RogueAccessPoint => "RogueAccessPoint",
            ThreatType::TrafficAnomaly => "TrafficAnomaly",
            ThreatType::ConnectionIssue => "ConnectionIssue",
        }
    }

    /// The kind stored under `tag`; `None` for an unknown tag.
    pub fn from_tag(tag: &str) -> (r: Option<ThreatType>)
        ensures
            r == type_from_tag(tag@),
    {
        if same_text(tag, "ArpSpoofing") {
            Some(ThreatType::ArpSpoofing)
        } else if same_text(tag, "DnsSpoofing") {
            Some(ThreatType::DnsSpoofing)
        } else if same_text(tag, "MitmAttack") {
            Some(ThreatType::MitmAttack)
        } else if same_text(tag, "RogueAccessPoint") {
            Some(ThreatType::RogueAccessPoint)
        } else if same_text(tag, "TrafficAnomaly") {
            Some(ThreatType::TrafficAnomaly)
        } else if same_text(tag, "ConnectionIssue") {
            Some(ThreatType::ConnectionIssue)
        } else {
            None
        }
    }
}

impl ThreatSeverity {
    /// Stable tag of the severity.
    pub fn tag(&self) -> (r: &'static str)
        ensures
            r@ == severity_tag(*self),
    {
        match self {
            ThreatSeverity::Low => "Low",
            ThreatSeverity::Medium => "Medium",
            ThreatSeverity::High => "High",
            ThreatSeverity::Critical => "Critical",
        }
    }

    /// The severity stored under `tag`; `None` for an unknown tag.
    pub fn from_tag(tag: &str) -> (r: Option<ThreatSeverity>)
        ensures
            r == severity_from_tag(tag@),
    {
        if same_text(tag, "Low") {
            Some(ThreatSeverity::Low)
        } else if same_text(tag, "Medium") {
            Some(ThreatSeverity::Medium)
        } else if same_text(tag, "High") {
            Some(ThreatSeverity::High)
        } else if same_text(tag, "Critical") {
            Some(ThreatSeverity::Critical)
        } else {
            None
        }
    }
}

/// One alert as the store keeps it, before the store assigns its id and
/// creation time.
#[derive(Clone, Debug)]
pub struct ThreatRecord {
    pub threat_type: String,
    pub severity: String,
    pub ip_address: Option<String>,
    pub description: String,
    /// Observation time, milliseconds since the Unix epoch.
    pub timestamp: i64,
}

impl ThreatRecord {
    /// Whether this record stores `threat`: its kind and severity as tags,
    /// its address as text, its description and timestamp as they are.
    pub open spec fn is_record_of(self, threat: ThreatAlert) -> bool {
        &&& self.threat_type@ == type_tag(threat.threat_type)
        &&& self.severity@ == severity_tag(threat.severity)
        &&& self.ip_address is Some == threat.ip is Some
        &&& self.ip_address is Some ==> Some(self.ip_address->Some_0@) == address_text(threat.ip)
        &&& self.description@ == threat.description@
        &&& self.timestamp == threat.timestamp
    }

    /// The record of `threat`.
    pub fn from_alert(threat: &ThreatAlert) -> (r: ThreatRecord)
        ensures
            r.is_record_of(*threat),
    {
        let ip_address = match threat.ip {
            Some(ip) => Some(ip.to_text()),
            None => None,
        };
        ThreatRecord {
            threat_type: String::from_str(threat.threat_type.tag()),
            severity: String::from_str(threat.severity.tag()),
            ip_address,
            description: threat.description.clone(),
            timestamp: threat.timestamp,
        }
    }
}

/// Tags of different kinds begin with different letters, so the tag of a
/// kind decodes to that kind.
pub proof fn lemma_type_tag_decodes(t: ThreatType)
    ensures
        type_from_tag(type_tag(t)) == Some(t),
{
    reveal_strlit("ArpSpoofing");
    reveal_strlit("DnsSpoofing");
    reveal_strlit("MitmAttack");
    reveal_strlit("RogueAccessPoint");
    reveal_strlit("TrafficAnomaly");
    reveal_strlit("ConnectionIssue");
    let tag = type_tag(t);
    assert(tag[0] != 'A' ==> tag != "ArpSpoofing"@);
    assert(tag[0] != 'D' ==> tag != "DnsSpoofing"@);
    assert(tag[0] != 'M' ==> tag != "MitmAttack"@);
    assert(tag[0] != 'R' ==> tag != "RogueAccessPoint"@);
    assert(tag[0] != 'T' ==> tag != "TrafficAnomaly"@);
}

/// Tags of different severities begin with different letters, so the tag
/// of a severity decodes to that severity.
pub proof fn lemma_severity_tag_decodes(s: ThreatSeverity)
    ensures
        severity_from_tag(severity_tag(s)) == Some(s),
{
    reveal_strlit("Low");
    reveal_strlit("Medium");
    reveal_strlit("High");
    reveal_strlit("Critical");
    let tag = severity_tag(s);
    assert(tag[0] != 'L' ==> tag != "Low"@);
    assert(tag[0] != 'M' ==> tag != "Medium"@);
    assert(tag[0] != 'H' ==> tag != "High"@);
}

/// Storing an alert and reading its record back keeps what it reports:
/// the stored tags decode to the alert's kind and severity, and the record
/// holds the alert's address text and description unchanged.
pub proof fn lemma_record_round_trip(threat: ThreatAlert, record: ThreatRecord)
    requires
        record.is_record_of(threat),
    ensures
        type_from_tag(record.threat_type@) == Some(threat.threat_type),
        severity_from_tag(record.severity@) == Some(threat.severity),
        match record.ip_address {
            Some(t) => threat.ip matches Some(a) && t@ == a.text(),
            None => threat.ip is None,
        },
        record.description@ == threat.description@,
{
    lemma_type_tag_decodes(threat.threat_type);
    lemma_severity_tag_decodes(threat.severity);
}

/// Number of stored alerts, in all and per severity.
#[derive(Clone, Copy, Debug, PartialEq, Eq, Structural)]
pub struct ThreaStatistics {
    pub total: i32,
    pub critical: i32,
    pub high: i32,
    pub medium: i32,
    pub low: i32,
}

} // verus!
