//! Shared value types: threat kinds, severities, addresses and alerts.

use vstd::prelude::*;
use crate::text::{decimal, hex, push_char, push_decimal, push_hex};

verus! {

/// The class of threat that an alert reports.
#[derive(Clone, Copy, Debug, PartialEq, Eq, Structural)]
pub enum ThreatType {
    ArpSpoofing,
    DnsSpoofing,
    MitmAttack,
    RogueAccessPoint,
    TrafficAnomaly,
    ConnectionIssue,
}

/// How serious an alert is, ordered `Low < Medium < High < Critical`.
#[derive(Clone, Copy, Debug, PartialEq, Eq, Structural, PartialOrd, Ord)]
pub enum ThreatSeverity {
    Low,
    Medium,
    High,
    Critical,
}

impl ThreatSeverity {
    /// Position of the severity in the order `Low < Medium < High < Critical`.
    pub open spec fn rank(self) -> nat {
        match self {
            ThreatSeverity::Low => 0,
            ThreatSeverity::Medium => 1,
            ThreatSeverity::High => 2,
            ThreatSeverity::Critical => 3,
        }
    }

    /// Executable form of `rank`.
    pub fn level(&self) -> (r: u8)
        ensures
            r as nat == self.rank(),
    {
        match self {
            ThreatSeverity::Low => 0,
            ThreatSeverity::Medium => 1,
            ThreatSeverity::High => 2,
            ThreatSeverity::Critical => 3,
        }
    }

    /// Whether an alert of this severity warrants a desktop notification.
    pub open spec fn notify_worthy(self) -> bool {
        self == ThreatSeverity::High || self == ThreatSeverity::Critical
    }
}

/// One raised alert. Kind and severity are set together by the detector
/// that raises it.
#[derive(Clone, Debug)]
pub struct ThreatAlert {
    pub threat_type: ThreatType,
    pub severity: ThreatSeverity,
    pub ip: Option<IpAddress>,
    pub description: String,
    /// Time of the observation, milliseconds since the Unix epoch.
    pub timestamp: i64,
}

impl ThreatAlert {
    /// Whether the alert is of the highest severity.
    pub fn is_critical(&self) -> (r: bool)
        ensures
            r == (self.severity == ThreatSeverity::Critical),
    {
        self.severity == ThreatSeverity::Critical
    }

    /// Whether the alert warrants a desktop notification: High or Critical.
    pub fn should_notify(&self) -> (r: bool)
        ensures
            r == self.severity.notify_worthy(),
            r == (self.severity.rank() >= 2),
    {
        matches!(self.severity, ThreatSeverity::Critical | ThreatSeverity::High)
    }

    /// Whether the alert has the given kind, severity, address and
    /// description; the timestamp is left open.
    pub open spec fn reports(
        self,
        threat_type: ThreatType,
        severity: ThreatSeverity,
        ip: Option<IpAddress>,
        description: Seq<char>,
    ) -> bool {
        &&& self.threat_type == threat_type
        &&& self.severity == severity
        &&& self.ip == ip
        &&& self.description@ == description
    }
}

/// Relies on `chrono::Local::now` and `DateTime::timestamp_millis`: the
/// current wall-clock time in milliseconds since the Unix epoch. Nothing is
/// promised of the value.
#[verifier::external_body]
pub(crate) fn now_millis() -> (r: i64) {
    chrono::Local::now().timestamp_millis()
}

/// A network-layer address: IPv4 as a 32-bit number, IPv6 as a 128-bit
/// number, both most significant byte first.
#[derive(Clone, Copy, Debug, PartialEq, Eq, Structural, Hash)]
pub enum IpAddress {
    V4(u32),
    V6(u128),
}

/// `256` raised to `n`: one more than the largest value of `n` bytes.
pub open spec fn byte_range(n: nat) -> nat
    decreases n,
{
    if n == 0 {
        1
    } else {
        256 * byte_range((n - 1) as nat)
    }
}

/// The number that bytes `s` spell, most significant first.
pub open spec fn be_value(s: Seq<u8>) -> nat
    decreases s.len(),
{
    if s.len() == 0 {
        0
    } else {
        be_value(s.drop_last()) * 256 + s.last() as nat
    }
}

/// Dotted-decimal text of an IPv4 address.
pub open spec fn ipv4_text(a: nat) -> Seq<char> {
    decimal(a / 0x1000000) + seq!['.'] + decimal(a / 0x10000 % 256) + seq!['.'] + decimal(
        a / 0x100 % 256,
    ) + seq!['.'] + decimal(a % 256)
}

/// The lowest `n` 16-bit groups of `a`, most significant first.
pub open spec fn groups(a: nat, n: nat) -> Seq<u16>
    decreases n,
{
    if n == 0 {
        Seq::empty()
    } else {
        groups(a / 0x10000, (n - 1) as nat).push((a % 0x10000) as u16)
    }
}

proof fn lemma_groups_len(a: nat, n: nat)
    ensures
        groups(a, n).len() == n,
    decreases n,
{
    if n > 0 {
        lemma_groups_len(a / 0x10000, (n - 1) as nat);
    }
}

/// The eight 16-bit groups of an IPv6 address.
pub open spec fn v6_groups(a: nat) -> Seq<u16> {
    groups(a, 8)
}

/// Groups in hexadecimal, separated by colons.
pub open spec fn hex_join(g: Seq<u16>) -> Seq<char>
    decreases g.len(),
{
    if g.len() == 0 {
        Seq::empty()
    } else if g.len() == 1 {
        hex(g[0] as nat)
    } else {
        hex_join(g.drop_last()) + seq![':'] + hex(g.last() as nat)
    }
}

/// Scan of the first `n` groups for runs of zero groups: the start and
/// length of the first longest run, then those of the run that ends at `n`.
pub open spec fn zero_scan(g: Seq<u16>, n: nat) -> (int, int, int, int)
    decreases n,
{
    if n == 0 {
        (0, 0, 0, 0)
    } else {
        let (best_start, best_len, cur_start, cur_len) = zero_scan(g, (n - 1) as nat);
        if g[n - 1] == 0 {
            let start = if cur_len == 0 {
                n - 1
            } else {
                cur_start
            };
            if cur_len + 1 > best_len {
                (start, cur_len + 1, start, cur_len + 1)
            } else {
                (best_start, best_len, start, cur_len + 1)
            }
        } else {
            (best_start, best_len, 0, 0)
        }
    }
}

/// Text of an IPv6 address: an IPv4-mapped address as `::ffff:` and the
/// dotted IPv4 form; otherwise the hexadecimal groups, with the first
/// longest run of two or more zero groups written as `::`.
pub open spec fn ipv6_text(a: nat) -> Seq<char> {
    if a / 0x1_0000_0000 == 0xffff {
        "::ffff:"@ + ipv4_text(a % 0x1_0000_0000)
    } else {
        let g = v6_groups(a);
        let (start, len, _, _) = zero_scan(g, 8);
        if len > 1 {
            hex_join(g.subrange(0, start)) + "::"@ + hex_join(g.subrange(start + len, 8))
        } else {
            hex_join(g)
        }
    }
}

fn push_groups(v: &mut Vec<u16>, a: u128, n: u8)
    ensures
        final(v)@ == old(v)@ + groups(a as nat, n as nat),
    decreases n,
{
    if n > 0 {
        push_groups(v, a / 0x10000, n - 1);
        v.push((a % 0x10000) as u16);
    }
    assert(final(v)@ =~= old(v)@ + groups(a as nat, n as nat));
}

fn push_hex_join(s: &mut String, g: &Vec<u16>, from: usize, to: usize)
    requires
        from <= to <= g@.len(),
    ensures
        final(s)@ == old(s)@ + hex_join(g@.subrange(from as int, to as int)),
{
    let mut k: usize = from;
    assert(g@.subrange(from as int, from as int) =~= Seq::<u16>::empty());
    while k < to
        invariant
            from <= k <= to <= g@.len(),
            s@ == old(s)@ + hex_join(g@.subrange(from as int, k as int)),
        decreases to - k,
    {
        let ghost part = g@.subrange(from as int, k + 1);
        assert(part.drop_last() =~= g@.subrange(from as int, k as int));
        if k > from {
            push_char(s, ':');
        } else {
            assert(part.len() == 1);
        }
        push_hex(s, g[k] as u128);
        assert(s@ =~= old(s)@ + hex_join(part));
        k = k + 1;
    }
}

fn push_ipv4_text(s: &mut String, a: u32)
    ensures
        final(s)@ == old(s)@ + ipv4_text(a as nat),
{
    push_decimal(s, (a / 0x1000000) as u128);
    push_char(s, '.');
    push_decimal(s, (a / 0x10000 % 256) as u128);
    push_char(s, '.');
    push_decimal(s, (a / 0x100 % 256) as u128);
    push_char(s, '.');
    push_decimal(s, (a % 256) as u128);
    assert(final(s)@ =~= old(s)@ + ipv4_text(a as nat));
}

fn push_ipv6_text(s: &mut String, a: u128)
    ensures
        final(s)@ == old(s)@ + ipv6_text(a as nat),
{
    if a / 0x1_0000_0000 == 0xffff {
        s.append("::ffff:");
        push_ipv4_text(s, (a % 0x1_0000_0000) as u32);
        assert(final(s)@ =~= old(s)@ + ipv6_text(a as nat));
        return;
    }
    let mut g: Vec<u16> = Vec::new();
    push_groups(&mut g, a, 8);
    proof {
        lemma_groups_len(a as nat, 8);
    }
    assert(g@ =~= v6_groups(a as nat));
    let mut best_start: usize = 0;
    let mut best_len: usize = 0;
    let mut cur_start: usize = 0;
    let mut cur_len: usize = 0;
    let mut i: usize = 0;
    while i < 8
        invariant
            0 <= i <= 8,
            g@.len() == 8,
            g@ == v6_groups(a as nat),
            zero_scan(g@, i as nat) == (
                best_start as int,
                best_len as int,
                cur_start as int,
                cur_len as int,
            ),
            best_start + best_len <= i,
            cur_start + cur_len <= i,
        decreases 8 - i,
    {
        if g[i] == 0 {
            if cur_len == 0 {
                cur_start = i;
            }
            cur_len = cur_len + 1;
            if cur_len > best_len {
                best_start = cur_start;
                best_len = cur_len;
            }
        } else {
            cur_start = 0;
            cur_len = 0;
        }
        i = i + 1;
    }
    if best_len > 1 {
        push_hex_join(s, &g, 0, best_start);
        s.append("::");
        push_hex_join(s, &g, best_start + best_len, 8);
    } else {
        push_hex_join(s, &g, 0, 8);
        assert(g@.subrange(0, 8) =~= g@);
    }
    assert(final(s)@ =~= old(s)@ + ipv6_text(a as nat));
}

impl IpAddress {
    /// Textual form of the address.
    pub open spec fn text(self) -> Seq<char> {
        match self {
            IpAddress::V4(a) => ipv4_text(a as nat),
            IpAddress::V6(a) => ipv6_text(a as nat),
        }
    }

    /// The IPv4 address `a.b.c.d`.
    pub fn v4(a: u8, b: u8, c: u8, d: u8) -> (r: IpAddress)
        ensures
            r == IpAddress::V4(be_value(seq![a, b, c, d]) as u32),
    {
        proof {
            reveal_with_fuel(be_value, 5);
            assert(seq![a, b, c, d].drop_last() =~= seq![a, b, c]);
            assert(seq![a, b, c].drop_last() =~= seq![a, b]);
            assert(seq![a, b].drop_last() =~= seq![a]);
            assert(seq![a].drop_last() =~= Seq::<u8>::empty());
        }
        IpAddress::V4((a as u32) * 0x1000000 + (b as u32) * 0x10000 + (c as u32) * 0x100 + d as u32)
    }

    /// Appends the textual form of the address.
    pub fn push_text(&self, s: &mut String)
        ensures
            final(s)@ == old(s)@ + self.text(),
    {
        match self {
            IpAddress::V4(a) => push_ipv4_text(s, *a),
            IpAddress::V6(a) => push_ipv6_text(s, *a),
        }
    }

    /// Textual form of the address as a new string.
    pub fn to_text(&self) -> (r: String)
        ensures
            r@ == self.text(),
    {
        let mut s = String::new();
        self.push_text(&mut s);
        assert(s@ =~= self.text());
        s
    }
}

} // verus!
