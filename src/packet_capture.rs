//! Packet capture logic: parsing raw IP packets into records, choosing the
//! capture device, and the decisions of the capture loop.

use vstd::prelude::*;
use crate::models::{IpAddress, be_value, byte_range, now_millis};
use crate::text::{contains_seq, decimal, push_decimal, str_contains};

verus! {

/// The transport protocol that a packet carries.
#[derive(Clone, Copy, Debug, PartialEq, Eq, Structural)]
pub enum Protocol {
    Tcp,
    Udp,
    Icmp,
    Icmpv6,
    Other(u8),
}

/// Why a buffer was not accepted as a packet.
#[derive(Clone, Copy, Debug, PartialEq, Eq, Structural)]
pub enum ParseError {
    /// Fewer bytes than the fixed header of the packet's IP version.
    TooShort,
    /// The version nibble is neither 4 nor 6.
    UnsupportedVersion,
}

/// What one accepted packet holds.
#[derive(Clone, Copy, Debug, PartialEq, Eq, Structural)]
pub struct PacketInfo {
    pub src_ip: Option<IpAddress>,
    pub dst_ip: Option<IpAddress>,
    pub src_port: Option<u16>,
    pub dst_port: Option<u16>,
    pub protocol: Protocol,
    /// Length of the whole buffer in bytes.
    pub length: u32,
    /// Capture time, milliseconds since the Unix epoch.
    pub timestamp: i64,
}

impl Protocol {
    /// Name of the protocol; unknown numbers read `OTHER(n)`.
    pub open spec fn label_text(self) -> Seq<char> {
        match self {
            Protocol::Tcp => "TCP"@,
            Protocol::Udp => "UDP"@,
            Protocol::Icmp => "ICMP"@,
            Protocol::Icmpv6 => "ICMPv6"@,
            Protocol::Other(n) => "OTHER("@ + decimal(n as nat) + ")"@,
        }
    }

    /// Name of the protocol as a new string.
    pub fn label(&self) -> (r: String)
        ensures
            r@ == self.label_text(),
    {
        match self {
            Protocol::Tcp => String::from_str("TCP"),
            Protocol::Udp => String::from_str("UDP"),
            Protocol::Icmp => String::from_str("ICMP"),
            Protocol::Icmpv6 => String::from_str("ICMPv6"),
            Protocol::Other(n) => {
                let mut s = String::from_str("OTHER(");
                push_decimal(&mut s, *n as u128);
                s.append(")");
                s
            },
        }
    }
}

/// Text of an optional endpoint address; `N/A` when absent.
pub open spec fn endpoint_text(ip: Option<IpAddress>) -> Seq<char> {
    match ip {
        Some(a) => a.text(),
        None => "N/A"@,
    }
}

/// One-line summary of a packet: `src:port -> dst:port` when both ports are
/// known, else `src -> dst (protocol)`.
pub open spec fn summary_text(p: PacketInfo) -> Seq<char> {
    if p.src_port is Some && p.dst_port is Some {
        endpoint_text(p.src_ip) + ":"@ + decimal(p.src_port->Some_0 as nat) + " -> "@
            + endpoint_text(p.dst_ip) + ":"@ + decimal(p.dst_port->Some_0 as nat)
    } else {
        endpoint_text(p.src_ip) + " -> "@ + endpoint_text(p.dst_ip) + " ("@
            + p.protocol.label_text() + ")"@
    }
}

fn push_endpoint(s: &mut String, ip: Option<IpAddress>)
    ensures
        final(s)@ == old(s)@ + endpoint_text(ip),
{
    match ip {
        Some(a) => a.push_text(s),
        None => s.append("N/A"),
    }
}

impl PacketInfo {
    /// One-line summary of the packet.
    pub fn summary(&self) -> (r: String)
        ensures
            r@ == summary_text(*self),
    {
        let mut s = String::new();
        push_endpoint(&mut s, self.src_ip);
        match (self.src_port, self.dst_port) {
            (Some(sp), Some(dp)) => {
                s.append(":");
                push_decimal(&mut s, sp as u128);
                s.append(" -> ");
                push_endpoint(&mut s, self.dst_ip);
                s.append(":");
                push_decimal(&mut s, dp as u128);
            },
            _ => {
                s.append(" -> ");
                push_endpoint(&mut s, self.dst_ip);
                s.append(" (");
                let label = self.protocol.label();
                s.append(label.as_str());
                s.append(")");
            },
        }
        assert(s@ =~= summary_text(*self));
        s
    }
}

/// Protocol named by an IPv4 protocol number.
pub open spec fn ipv4_protocol(n: u8) -> Protocol {
    if n == 6 {
        Protocol::Tcp
    } else if n == 17 {
        Protocol::Udp
    } else if n == 1 {
        Protocol::Icmp
    } else {
        Protocol::Other(n)
    }
}

/// Protocol named by an IPv6 next-header value.
pub open spec fn ipv6_protocol(n: u8) -> Protocol {
    if n == 6 {
        Protocol::Tcp
    } else if n == 17 {
        Protocol::Udp
    } else if n == 58 {
        Protocol::Icmpv6
    } else {
        Protocol::Other(n)
    }
}

/// The 16-bit number at `start` and `start + 1`, most significant byte first.
pub open spec fn be_u16_at(data: Seq<u8>, start: int) -> u16 {
    (data[start] as nat * 256 + data[start + 1] as nat) as u16
}

proof fn lemma_two_bytes(data: Seq<u8>, start: int)
    requires
        0 <= start,
        start + 2 <= data.len(),
    ensures
        be_value(data.subrange(start, start + 2)) == data[start] as nat * 256 + data[start + 1] as nat,
{
    reveal_with_fuel(be_value, 3);
    let t = data.subrange(start, start + 2);
    assert(t.drop_last().drop_last() =~= Seq::<u8>::empty());
    assert(t.drop_last().last() == data[start]);
}

/// Source and destination ports at `transport` and `transport + 2`: present
/// when the protocol number is TCP or UDP and the buffer holds at least
/// `min_len` bytes.
pub open spec fn ports_at(data: Seq<u8>, n: u8, transport: int, min_len: int) -> (
    Option<u16>,
    Option<u16>,
) {
    if data.len() >= min_len && (n == 6 || n == 17) {
        (Some(be_u16_at(data, transport)), Some(be_u16_at(data, transport + 2)))
    } else {
        (None, None)
    }
}

/// The IP version nibble of a buffer with at least one byte.
pub open spec fn version_of(data: Seq<u8>) -> u8 {
    (data[0] / 16) as u8
}

/// The record that `data`, captured at `timestamp`, parses to.
pub open spec fn parsed(data: Seq<u8>, timestamp: i64) -> Result<PacketInfo, ParseError> {
    if data.len() < 20 {
        Err(ParseError::TooShort)
    } else if version_of(data) == 4 {
        let n = data[9];
        let ports = ports_at(data, n, 20, 24);
        Ok(
            PacketInfo {
                src_ip: Some(IpAddress::V4(be_value(data.subrange(12, 16)) as u32)),
                dst_ip: Some(IpAddress::V4(be_value(data.subrange(16, 20)) as u32)),
                src_port: ports.0,
                dst_port: ports.1,
                protocol: ipv4_protocol(n),
                length: data.len() as u32,
                timestamp,
            },
        )
    } else if version_of(data) == 6 {
        if data.len() < 40 {
            Err(ParseError::TooShort)
        } else {
            let n = data[6];
            let ports = ports_at(data, n, 40, 48);
            Ok(
                PacketInfo {
                    src_ip: Some(IpAddress::V6(be_value(data.subrange(8, 24)) as u128)),
                    dst_ip: Some(IpAddress::V6(be_value(data.subrange(24, 40)) as u128)),
                    src_port: ports.0,
                    dst_port: ports.1,
                    protocol: ipv6_protocol(n),
                    length: data.len() as u32,
                    timestamp,
                },
            )
        }
    } else {
        Err(ParseError::UnsupportedVersion)
    }
}

/// The four bytes of an IPv4 address, most significant first.
pub open spec fn v4_octets(a: nat) -> Seq<u8> {
    seq![(a / 0x1000000) as u8, (a / 0x10000 % 256) as u8, (a / 0x100 % 256) as u8, (a % 256) as u8]
}

/// Four bytes read as an IPv4 address give back the same four bytes.
pub proof fn lemma_v4_octets_round_trip(s: Seq<u8>)
    requires
        s.len() == 4,
    ensures
        v4_octets(be_value(s)) == s,
{
    reveal_with_fuel(be_value, 5);
    assert(s.drop_last().drop_last().drop_last().drop_last() =~= Seq::<u8>::empty());
    let (b0, b1, b2, b3) = (s[0] as int, s[1] as int, s[2] as int, s[3] as int);
    assert(s.drop_last().drop_last().drop_last().last() == s[0]);
    assert(s.drop_last().drop_last().last() == s[1]);
    assert(s.drop_last().last() == s[2]);
    let v = be_value(s) as int;
    assert(v == b0 * 0x1000000 + b1 * 0x10000 + b2 * 0x100 + b3) by (nonlinear_arith)
        requires
            v == ((b0 * 256 + b1) * 256 + b2) * 256 + b3,
    ;
    assert(v / 0x1000000 == b0 && v / 0x10000 % 256 == b1 && v / 0x100 % 256 == b2 && v % 256
        == b3) by (nonlinear_arith)
        requires
            v == b0 * 0x1000000 + b1 * 0x10000 + b2 * 0x100 + b3,
            0 <= b0 < 256,
            0 <= b1 < 256,
            0 <= b2 < 256,
            0 <= b3 < 256,
    ;
    assert(v4_octets(be_value(s)) =~= s);
}

/// A buffer of at least 20 bytes with version nibble 4 parses, and its
/// addresses are exactly the bytes at 12 to 15 (source) and 16 to 19
/// (destination).
pub proof fn lemma_ipv4_addresses(data: Seq<u8>, timestamp: i64)
    requires
        data.len() >= 20,
        version_of(data) == 4,
    ensures
        parsed(data, timestamp) is Ok,
        parsed(data, timestamp)->Ok_0.src_ip matches Some(IpAddress::V4(a)) && v4_octets(a as nat)
            == data.subrange(12, 16),
        parsed(data, timestamp)->Ok_0.dst_ip matches Some(IpAddress::V4(a)) && v4_octets(a as nat)
            == data.subrange(16, 20),
{
    lemma_be_value_bound(data.subrange(12, 16));
    lemma_be_value_bound(data.subrange(16, 20));
    reveal_with_fuel(byte_range, 5);
    lemma_v4_octets_round_trip(data.subrange(12, 16));
    lemma_v4_octets_round_trip(data.subrange(16, 20));
}

/// The number spelled by `n` bytes is below `256` to the `n`.
pub proof fn lemma_be_value_bound(s: Seq<u8>)
    ensures
        be_value(s) < byte_range(s.len()),
    decreases s.len(),
{
    if s.len() > 0 {
        lemma_be_value_bound(s.drop_last());
        let p = byte_range(s.drop_last().len());
        let v = be_value(s.drop_last());
        let b = s.last() as nat;
        assert(v * 256 + b < 256 * p) by (nonlinear_arith)
            requires
                v < p,
                b < 256,
        ;
    }
}

proof fn lemma_byte_range_grows(m: nat, n: nat)
    requires
        m <= n,
    ensures
        byte_range(m) <= byte_range(n),
    decreases n,
{
    if m < n {
        lemma_byte_range_grows(m, (n - 1) as nat);
    }
}

/// The number spelled by `len` bytes from `start`, most significant first.
fn read_be(data: &[u8], start: usize, len: usize) -> (r: u128)
    requires
        len <= 16,
        start + len <= data@.len(),
    ensures
        r as nat == be_value(data@.subrange(start as int, start + len)),
        (r as nat) < byte_range(len as nat),
{
    proof {
        reveal_with_fuel(byte_range, 17);
        lemma_byte_range_grows(len as nat, 16);
    }
    let mut acc: u128 = 0;
    let mut i: usize = start;
    let total = data.len();
    assert(start + len <= total);
    let end = start + len;
    assert(data@.subrange(start as int, start as int) =~= Seq::<u8>::empty());
    while i < end
        invariant
            end == start + len,
            start <= i <= start + len,
            start + len <= data@.len(),
            len <= 16,
            byte_range(len as nat) <= byte_range(16),
            byte_range(16) == 0x1_0000_0000_0000_0000_0000_0000_0000_0000,
            acc as nat == be_value(data@.subrange(start as int, i as int)),
            (acc as nat) < byte_range((i - start) as nat),
        decreases start + len - i,
    {
        let ghost prev = data@.subrange(start as int, i as int);
        assert(data@.subrange(start as int, i + 1).drop_last() =~= prev);
        let b = data[i];
        proof {
            lemma_byte_range_grows((i + 1 - start) as nat, len as nat);
            let p = byte_range((i - start) as nat);
            assert(byte_range((i + 1 - start) as nat) == 256 * p);
            assert((acc as nat) * 256 + (b as nat) < 256 * p) by (nonlinear_arith)
                requires
                    (acc as nat) < p,
                    (b as nat) < 256,
            ;
        }
        acc = acc * 256 + b as u128;
        i = i + 1;
    }
    acc
}

/// Protocol tag and ports of an IPv4 packet whose protocol number is `n`.
pub fn parse_ports_ipv4(n: u8, data: &[u8]) -> (r: (Protocol, Option<u16>, Option<u16>))
    ensures
        r.0 == ipv4_protocol(n),
        (r.1, r.2) == ports_at(data@, n, 20, 24),
{
    let protocol = if n == 6 {
        Protocol::Tcp
    } else if n == 17 {
        Protocol::Udp
    } else if n == 1 {
        Protocol::Icmp
    } else {
        Protocol::Other(n)
    };
    if data.len() >= 24 && (n == 6 || n == 17) {
        proof {
            lemma_two_bytes(data@, 20);
        }
        let src = read_be(data, 20, 2) as u16;
        proof {
            lemma_two_bytes(data@, 22);
        }
        let dst = read_be(data, 22, 2) as u16;
        (protocol, Some(src), Some(dst))
    } else {
        (protocol, None, None)
    }
}

/// Protocol tag and ports of an IPv6 packet whose next-header value is `n`.
/// Ports are read right after the fixed header: extension headers are not
/// walked.
pub fn parse_ports_ipv6(n: u8, data: &[u8]) -> (r: (Protocol, Option<u16>, Option<u16>))
    ensures
        r.0 == ipv6_protocol(n),
        (r.1, r.2) == ports_at(data@, n, 40, 48),
{
    let protocol = if n == 6 {
        Protocol::Tcp
    } else if n == 17 {
        Protocol::Udp
    } else if n == 58 {
        Protocol::Icmpv6
    } else {
        Protocol::Other(n)
    };
    if data.len() >= 48 && (n == 6 || n == 17) {
        proof {
            lemma_two_bytes(data@, 40);
        }
        let src = read_be(data, 40, 2) as u16;
        proof {
            lemma_two_bytes(data@, 42);
        }
        let dst = read_be(data, 42, 2) as u16;
        (protocol, Some(src), Some(dst))
    } else {
        (protocol, None, None)
    }
}

/// Parses `data`, captured at `timestamp`, into a packet record.
pub fn parse_packet_at(data: &[u8], timestamp: i64) -> (r: Result<PacketInfo, ParseError>)
    ensures
        r == parsed(data@, timestamp),
        data@.len() < 20 ==> r == Err::<PacketInfo, ParseError>(ParseError::TooShort),
        data@.len() >= 20 && version_of(data@) == 4 ==> r is Ok && r->Ok_0.src_ip == Some(
            IpAddress::V4(be_value(data@.subrange(12, 16)) as u32),
        ) && r->Ok_0.dst_ip == Some(IpAddress::V4(be_value(data@.subrange(16, 20)) as u32))
            && (r->Ok_0.src_port, r->Ok_0.dst_port) == ports_at(data@, data@[9], 20, 24),
        data@.len() >= 40 && version_of(data@) == 6 ==> r is Ok && (
        r->Ok_0.src_port,
        r->Ok_0.dst_port,
        ) == ports_at(data@, data@[6], 40, 48),
        data@.len() >= 20 && version_of(data@) != 4 && version_of(data@) != 6 ==> r
            == Err::<PacketInfo, ParseError>(ParseError::UnsupportedVersion),
{
    if data.len() < 20 {
        return Err(ParseError::TooShort);
    }
    let version = data[0] / 16;
    if version == 4 {
        let src = read_be(data, 12, 4) as u32;
        let dst = read_be(data, 16, 4) as u32;
        let n = data[9];
        let (protocol, src_port, dst_port) = parse_ports_ipv4(n, data);
        Ok(
            PacketInfo {
                src_ip: Some(IpAddress::V4(src)),
                dst_ip: Some(IpAddress::V4(dst)),
                src_port,
                dst_port,
                protocol,
                length: data.len() as u32,
                timestamp,
            },
        )
    } else if version == 6 {
        if data.len() < 40 {
            return Err(ParseError::TooShort);
        }
        let src = read_be(data, 8, 16);
        let dst = read_be(data, 24, 16);
        let n = data[6];
        let (protocol, src_port, dst_port) = parse_ports_ipv6(n, data);
        Ok(
            PacketInfo {
                src_ip: Some(IpAddress::V6(src)),
                dst_ip: Some(IpAddress::V6(dst)),
                src_port,
                dst_port,
                protocol,
                length: data.len() as u32,
                timestamp,
            },
        )
    } else {
        Err(ParseError::UnsupportedVersion)
    }
}

/// Parses `data` into a packet record stamped with the current time.
pub fn parse_packet(data: &[u8]) -> (r: Result<PacketInfo, ParseError>)
    ensures
        match r {
            Ok(p) => r == parsed(data@, p.timestamp),
            Err(_) => r == parsed(data@, 0),
        },
        data@.len() < 20 ==> r == Err::<PacketInfo, ParseError>(ParseError::TooShort),
{
    if data.len() < 20 {
        return Err(ParseError::TooShort);
    }
    let version = data[0] / 16;
    if version != 4 && version != 6 {
        return Err(ParseError::UnsupportedVersion);
    }
    let timestamp = now_millis();
    parse_packet_at(data, timestamp)
}

/// Why reading the next frame from the capture device failed.
#[derive(Clone, Copy, Debug, PartialEq, Eq, Structural)]
pub enum CaptureError {
    /// No frame arrived within the read timeout; not an error.
    Timeout,
    DeviceUnavailable,
    PermissionDenied,
    Io,
}

impl CaptureError {
    /// Whether the error ends the capture stage.
    pub fn is_fatal(&self) -> (r: bool)
        ensures
            r == (*self != CaptureError::Timeout),
    {
        !matches!(self, CaptureError::Timeout)
    }
}

/// Counters of the capture loop: frames read and timeouts in a row.
#[derive(Clone, Copy, Debug, PartialEq, Eq, Structural)]
pub struct CaptureLoop {
    pub packet_count: u64,
    pub timeouts: u64,
}

/// What the capture loop does with one frame.
#[derive(Clone, Copy, Debug, PartialEq, Eq, Structural)]
pub struct FrameOutcome {
    /// The parsed record to hand to detection; `None` drops the frame.
    pub packet: Option<PacketInfo>,
    /// Whether to yield to other tasks before the next read.
    pub pause: bool,
}

/// How often the capture loop yields, in frames.
pub const PAUSE_EVERY: u64 = 100;

/// How often a run of timeouts is reported, in timeouts.
pub const REPORT_EVERY: u64 = 10;

/// One more, short of the largest `u64`.
pub open spec fn bump(n: u64) -> u64 {
    if n < u64::MAX {
        (n + 1) as u64
    } else {
        n
    }
}

impl CaptureLoop {
    /// A loop that has read nothing yet.
    pub fn new() -> (r: CaptureLoop)
        ensures
            r.packet_count == 0,
            r.timeouts == 0,
    {
        CaptureLoop { packet_count: 0, timeouts: 0 }
    }

    /// Takes a frame read at `timestamp`: counts it, ends the run of timeouts
    /// and parses it; a frame that does not parse is dropped.
    pub fn on_frame(&mut self, data: &[u8], timestamp: i64) -> (r: FrameOutcome)
        ensures
            final(self).packet_count == bump(old(self).packet_count),
            final(self).timeouts == 0,
            r.packet == (match parsed(data@, timestamp) {
                Ok(p) => Some(p),
                Err(_) => None,
            }),
            r.pause == (final(self).packet_count % PAUSE_EVERY == 0),
    {
        if self.packet_count < u64::MAX {
            self.packet_count = self.packet_count + 1;
        }
        self.timeouts = 0;
        let packet = match parse_packet_at(data, timestamp) {
            Ok(p) => Some(p),
            Err(_) => None,
        };
        FrameOutcome { packet, pause: self.packet_count % PAUSE_EVERY == 0 }
    }

    /// Takes a read that timed out; true when the wait should be reported.
    pub fn on_timeout(&mut self) -> (report: bool)
        ensures
            final(self).packet_count == old(self).packet_count,
            final(self).timeouts == bump(old(self).timeouts),
            report == (final(self).timeouts % REPORT_EVERY == 0),
    {
        if self.timeouts < u64::MAX {
            self.timeouts = self.timeouts + 1;
        }
        self.timeouts % REPORT_EVERY == 0
    }
}

/// `Some` description that holds `word`.
pub open spec fn desc_mentions(d: Option<String>, word: Seq<char>) -> bool {
    d is Some && contains_seq(d->Some_0@, word)
}

/// A device described as Intel wireless hardware.
pub open spec fn is_preferred_device(d: Option<String>) -> bool {
    desc_mentions(d, "Intel"@) && desc_mentions(d, "Wireless"@)
}

/// A device that is not described as a monitor interface.
pub open spec fn is_plain_device(d: Option<String>) -> bool {
    !desc_mentions(d, "Monitor"@)
}

fn mentions(d: &Option<String>, word: &str) -> (r: bool)
    ensures
        r == desc_mentions(*d, word@),
{
    match d {
        Some(s) => str_contains(s.as_str(), word),
        None => false,
    }
}

/// Picks the capture device from the devices' descriptions: the first Intel
/// wireless device, else the first that is not a monitor interface, else the
/// first of all; `None` when there is none.
pub fn pick_device(descs: &Vec<Option<String>>) -> (r: Option<usize>)
    ensures
        r is None <==> descs@.len() == 0,
        (exists|i: int| 0 <= i < descs@.len() && #[trigger] is_preferred_device(descs@[i]))
            ==> r is Some && is_preferred_device(descs@[r->Some_0 as int])
            && forall|j: int| 0 <= j < r->Some_0 ==> !#[trigger] is_preferred_device(descs@[j]),
        !(exists|i: int| 0 <= i < descs@.len() && #[trigger] is_preferred_device(descs@[i]))
            && (exists|i: int| 0 <= i < descs@.len() && #[trigger] is_plain_device(descs@[i]))
            ==> r is Some && is_plain_device(descs@[r->Some_0 as int])
            && forall|j: int| 0 <= j < r->Some_0 ==> !#[trigger] is_plain_device(descs@[j]),
        !(exists|i: int| 0 <= i < descs@.len() && #[trigger] is_preferred_device(descs@[i]))
            && !(exists|i: int| 0 <= i < descs@.len() && #[trigger] is_plain_device(descs@[i]))
            && descs@.len() > 0 ==> r == Some(0usize),
        r is Some ==> r->Some_0 < descs@.len(),
{
    let mut i: usize = 0;
    while i < descs.len()
        invariant
            0 <= i <= descs@.len(),
            forall|j: int| 0 <= j < i ==> !#[trigger] is_preferred_device(descs@[j]),
        decreases descs@.len() - i,
    {
        let d = &descs[i];
        if mentions(d, "Intel") && mentions(d, "Wireless") {
            return Some(i);
        }
        i = i + 1;
    }
    let mut k: usize = 0;
    while k < descs.len()
        invariant
            0 <= k <= descs@.len(),
            forall|j: int| 0 <= j < descs@.len() ==> !#[trigger] is_preferred_device(descs@[j]),
            forall|j: int| 0 <= j < k ==> !#[trigger] is_plain_device(descs@[j]),
        decreases descs@.len() - k,
    {
        if !mentions(&descs[k], "Monitor") {
            return Some(k);
        }
        k = k + 1;
    }
    if descs.len() > 0 {
        Some(0)
    } else {
        None
    }
}

} // verus!
