//! The detector bank: one analyzer per threat class, each a function of its
//! own history and the new observation.

use vstd::prelude::*;
use crate::models::{IpAddress, ThreatAlert, ThreatSeverity, ThreatType, now_millis};
use crate::text::{
    contains_seq, decimal, digit, digit_char, push_char, push_decimal, push_signed_decimal,
    signed_decimal, str_contains,
};

verus! {

/// Bindings from network address to link-layer address, first binding
/// kept.
pub struct AddressBindingTable {
    entries: Vec<(IpAddress, String)>,
    bindings: Ghost<Map<IpAddress, Seq<char>>>,
}

impl View for AddressBindingTable {
    type V = Map<IpAddress, Seq<char>>;

    closed spec fn view(&self) -> Map<IpAddress, Seq<char>> {
        self.bindings@
    }
}

impl AddressBindingTable {
    /// Addresses unique in the table, and the ghost map in step with it.
    pub closed spec fn wf(&self) -> bool {
        &&& forall|i: int, j: int|
            0 <= i < j < self.entries@.len() ==> #[trigger] self.entries@[i].0
                != #[trigger] self.entries@[j].0
        &&& forall|i: int|
            0 <= i < self.entries@.len() ==> self.bindings@.contains_key(
                #[trigger] self.entries@[i].0,
            ) && self.bindings@[self.entries@[i].0] == self.entries@[i].1@
        &&& forall|k: IpAddress| #[trigger]
            self.bindings@.contains_key(k) ==> exists|i: int|
                0 <= i < self.entries@.len() && #[trigger] self.entries@[i].0 == k
    }

    /// A table with no bindings.
    pub fn new() -> (r: AddressBindingTable)
        ensures
            r.wf(),
            r@ == Map::<IpAddress, Seq<char>>::empty(),
    {
        AddressBindingTable { entries: Vec::new(), bindings: Ghost(Map::empty()) }
    }

    /// The link-layer address bound to `ip`, if any.
    pub fn get(&self, ip: IpAddress) -> (r: Option<String>)
        requires
            self.wf(),
        ensures
            r is Some <==> self@.contains_key(ip),
            r is Some ==> r->Some_0@ == self@[ip],
    {
        let mut i: usize = 0;
        while i < self.entries.len()
            invariant
                self.wf(),
                0 <= i <= self.entries@.len(),
                forall|j: int| 0 <= j < i ==> #[trigger] self.entries@[j].0 != ip,
            decreases self.entries@.len() - i,
        {
            if self.entries[i].0 == ip {
                return Some(self.entries[i].1.clone());
            }
            i = i + 1;
        }
        None
    }

    /// Binds an address that has no binding yet.
    pub fn bind(&mut self, ip: IpAddress, mac: String)
        requires
            old(self).wf(),
            !old(self)@.contains_key(ip),
        ensures
            final(self).wf(),
            final(self)@ == old(self)@.insert(ip, mac@),
    {
        let ghost m = mac@;
        assert forall|i: int| 0 <= i < self.entries@.len() implies #[trigger] self.entries@[i].0
            != ip by {
            if self.entries@[i].0 == ip {
                assert(self.bindings@.contains_key(self.entries@[i].0));
            }
        }
        self.entries.push((ip, mac));
        self.bindings = Ghost(self.bindings@.insert(ip, m));
        proof {
            assert forall|k: IpAddress| #[trigger] self.bindings@.contains_key(k) implies exists|
                i: int,
            | 0 <= i < self.entries@.len() && #[trigger] self.entries@[i].0 == k by {
                if k == ip {
                    assert(self.entries@[self.entries@.len() - 1].0 == k);
                } else {
                    assert(old(self).bindings@.contains_key(k));
                    let i = choose|i: int|
                        0 <= i < old(self).entries@.len() && #[trigger] old(self).entries@[i].0
                            == k;
                    assert(self.entries@[i].0 == k);
                }
            }
        }
    }
}

/// For each domain name, the addresses ever seen in its resolutions, in
/// the order they were first seen.
pub struct NameResolutionCache {
    entries: Vec<(String, Vec<IpAddress>)>,
    resolutions: Ghost<Map<Seq<char>, Seq<IpAddress>>>,
}

impl View for NameResolutionCache {
    type V = Map<Seq<char>, Seq<IpAddress>>;

    closed spec fn view(&self) -> Map<Seq<char>, Seq<IpAddress>> {
        self.resolutions@
    }
}

impl NameResolutionCache {
    /// Names unique in the cache, and the ghost map in step with it.
    pub closed spec fn wf(&self) -> bool {
        &&& forall|i: int, j: int|
            0 <= i < j < self.entries@.len() ==> #[trigger] self.entries@[i].0@
                != #[trigger] self.entries@[j].0@
        &&& forall|i: int|
            0 <= i < self.entries@.len() ==> self.resolutions@.contains_key(
                #[trigger] self.entries@[i].0@,
            ) && self.resolutions@[self.entries@[i].0@] == self.entries@[i].1@
        &&& forall|k: Seq<char>| #[trigger]
            self.resolutions@.contains_key(k) ==> exists|i: int|
                0 <= i < self.entries@.len() && #[trigger] self.entries@[i].0@ == k
    }

    /// The addresses known for `domain`; empty when it was never resolved.
    pub open spec fn known(&self, domain: Seq<char>) -> Seq<IpAddress> {
        if self@.contains_key(domain) {
            self@[domain]
        } else {
            Seq::empty()
        }
    }

    /// A cache with no names.
    pub fn new() -> (r: NameResolutionCache)
        ensures
            r.wf(),
            r@ == Map::<Seq<char>, Seq<IpAddress>>::empty(),
    {
        NameResolutionCache { entries: Vec::new(), resolutions: Ghost(Map::empty()) }
    }

    fn find(&self, domain: &String) -> (r: Option<usize>)
        requires
            self.wf(),
        ensures
            r is Some <==> self@.contains_key(domain@),
            r is Some ==> r->Some_0 < self.entries@.len() && self.entries@[r->Some_0 as int].0@
                == domain@,
    {
        let mut i: usize = 0;
        while i < self.entries.len()
            invariant
                self.wf(),
                0 <= i <= self.entries@.len(),
                forall|j: int| 0 <= j < i ==> #[trigger] self.entries@[j].0@ != domain@,
            decreases self.entries@.len() - i,
        {
            if self.entries[i].0 == *domain {
                return Some(i);
            }
            i = i + 1;
        }
        None
    }

    /// The addresses known for `domain`.
    pub fn addresses(&self, domain: &str) -> (r: Vec<IpAddress>)
        requires
            self.wf(),
        ensures
            r@ == self.known(domain@),
    {
        let key = String::from_str(domain);
        let mut out: Vec<IpAddress> = Vec::new();
        match self.find(&key) {
            Some(i) => {
                let list = &self.entries[i].1;
                let mut k: usize = 0;
                while k < list.len()
                    invariant
                        0 <= k <= list@.len(),
                        out@ == list@.subrange(0, k as int),
                    decreases list@.len() - k,
                {
                    out.push(list[k]);
                    k = k + 1;
                    assert(out@ =~= list@.subrange(0, k as int));
                }
                assert(out@ =~= list@);
            },
            None => {},
        }
        out
    }

    /// Adds `ip` to the addresses known for `domain`.
    pub fn record(&mut self, domain: &str, ip: IpAddress)
        requires
            old(self).wf(),
        ensures
            final(self).wf(),
            final(self)@ == old(self)@.insert(domain@, old(self).known(domain@).push(ip)),
    {
        let key = String::from_str(domain);
        let ghost updated = self.known(domain@).push(ip);
        match self.find(&key) {
            Some(i) => {
                self.entries[i].1.push(ip);
                self.resolutions = Ghost(self.resolutions@.insert(domain@, updated));
                proof {
                    assert forall|k: Seq<char>| #[trigger]
                        self.resolutions@.contains_key(k) implies exists|j: int|
                        0 <= j < self.entries@.len() && #[trigger] self.entries@[j].0@ == k by {
                        if k != domain@ {
                            assert(old(self).resolutions@.contains_key(k));
                            let j = choose|j: int|
                                0 <= j < old(self).entries@.len() && #[trigger] old(
                                    self,
                                ).entries@[j].0@ == k;
                            assert(self.entries@[j].0@ == k);
                        } else {
                            assert(self.entries@[i as int].0@ == k);
                        }
                    }
                    assert forall|j: int| 0 <= j < self.entries@.len() implies self.resolutions@.contains_key(
                        #[trigger] self.entries@[j].0@,
                    ) && self.resolutions@[self.entries@[j].0@] == self.entries@[j].1@ by {
                        if j != i {
                            assert(old(self).entries@[j] == self.entries@[j]);
                        }
                    }
                }
            },
            None => {
                assert forall|j: int| 0 <= j < self.entries@.len() implies #[trigger] self.entries@[j].0@
                    != domain@ by {
                    if self.entries@[j].0@ == domain@ {
                        assert(self.resolutions@.contains_key(self.entries@[j].0@));
                    }
                }
                let mut list: Vec<IpAddress> = Vec::new();
                list.push(ip);
                assert(list@ =~= updated);
                self.entries.push((key, list));
                self.resolutions = Ghost(self.resolutions@.insert(domain@, updated));
                proof {
                    assert forall|k: Seq<char>| #[trigger]
                        self.resolutions@.contains_key(k) implies exists|j: int|
                        0 <= j < self.entries@.len() && #[trigger] self.entries@[j].0@ == k by {
                        if k == domain@ {
                            assert(self.entries@[self.entries@.len() - 1].0@ == k);
                        } else {
                            assert(old(self).resolutions@.contains_key(k));
                            let j = choose|j: int|
                                0 <= j < old(self).entries@.len() && #[trigger] old(
                                    self,
                                ).entries@[j].0@ == k;
                            assert(self.entries@[j].0@ == k);
                        }
                    }
                }
            },
        }
    }
}

/// Running traffic baseline: the number of rate samples and the sums of the
/// packet and byte rates, whose quotients are the mean rates.
pub struct TrafficBaseline {
    samples: u64,
    pps_total: u128,
    bps_total: u128,
}

impl TrafficBaseline {
    /// Each sum is at most the number of samples times the largest rate.
    pub closed spec fn wf(&self) -> bool {
        &&& self.pps_total <= self.samples as int * u64::MAX as int
        &&& self.bps_total <= self.samples as int * u64::MAX as int
    }

    /// Number of samples absorbed.
    pub closed spec fn samples(&self) -> nat {
        self.samples as nat
    }

    /// Sum of the packet rates absorbed; the mean is this over `samples`.
    pub closed spec fn pps_total(&self) -> nat {
        self.pps_total as nat
    }

    /// Sum of the byte rates absorbed; the mean is this over `samples`.
    pub closed spec fn bps_total(&self) -> nat {
        self.bps_total as nat
    }

    /// A baseline with no samples.
    pub fn new() -> (r: TrafficBaseline)
        ensures
            r.wf(),
            r.samples() == 0,
            r.pps_total() == 0,
            r.bps_total() == 0,
    {
        TrafficBaseline { samples: 0, pps_total: 0, bps_total: 0 }
    }

    /// Number of samples absorbed.
    pub fn sample_count(&self) -> (r: u64)
        ensures
            r as nat == self.samples(),
    {
        self.samples
    }

    /// Folds one sample into the running means.
    pub fn absorb(&mut self, pps: u64, bps: u64)
        requires
            old(self).wf(),
            old(self).samples() < u64::MAX,
        ensures
            final(self).wf(),
            final(self).samples() == old(self).samples() + 1,
            final(self).pps_total() == old(self).pps_total() + pps,
            final(self).bps_total() == old(self).bps_total() + bps,
    {
        proof {
            assert((self.samples as int + 1) * u64::MAX as int == self.samples as int
                * u64::MAX as int + u64::MAX as int) by (nonlinear_arith);
            assert(self.samples as int * u64::MAX as int <= (u64::MAX - 1) as int
                * u64::MAX as int) by (nonlinear_arith)
                requires
                    self.samples < u64::MAX,
            ;
        }
        self.samples = self.samples + 1;
        self.pps_total = self.pps_total + pps as u128;
        self.bps_total = self.bps_total + bps as u128;
    }

    /// Whether `rate` exceeds five times the mean `total / samples`.
    pub open spec fn above_five_means(rate: nat, total: nat, samples: nat) -> bool {
        rate * samples > 5 * total
    }

    /// Whether the baseline is past warm-up (more than eleven samples, the
    /// latest included) and either rate exceeds five times its mean.
    pub fn exceeded_by(&self, pps: u64, bps: u64) -> (r: bool)
        requires
            self.wf(),
        ensures
            r == (self.samples() > 11 && (TrafficBaseline::above_five_means(
                pps as nat,
                self.pps_total(),
                self.samples(),
            ) || TrafficBaseline::above_five_means(bps as nat, self.bps_total(), self.samples()))),
    {
        if self.samples <= 11 {
            return false;
        }
        let n = self.samples as u128;
        proof {
            assert((pps as int) * (n as int) <= u64::MAX as int * u64::MAX as int)
                by (nonlinear_arith)
                requires
                    pps <= u64::MAX,
                    n <= u64::MAX,
            ;
            assert((bps as int) * (n as int) <= u64::MAX as int * u64::MAX as int)
                by (nonlinear_arith)
                requires
                    bps <= u64::MAX,
                    n <= u64::MAX,
            ;
        }
        let pps_scaled = pps as u128 * n;
        let bps_scaled = bps as u128 * n;
        let pps_high = self.pps_total <= u128::MAX / 5 && pps_scaled > 5 * self.pps_total;
        let bps_high = self.bps_total <= u128::MAX / 5 && bps_scaled > 5 * self.bps_total;
        pps_high || bps_high
    }

    /// The mean packet rate, rounded down.
    pub fn mean_pps(&self) -> (r: u128)
        requires
            self.samples() > 0,
        ensures
            r as nat == self.pps_total() / self.samples(),
    {
        self.pps_total / self.samples as u128
    }

    /// The mean byte rate, rounded down.
    pub fn mean_bps(&self) -> (r: u128)
        requires
            self.samples() > 0,
        ensures
            r as nat == self.bps_total() / self.samples(),
    {
        self.bps_total / self.samples as u128
    }
}

/// Length of a traffic-rate window, in milliseconds.
pub const WINDOW_MS: i64 = 1000;

/// Packet and byte counts of the open one-second window of capture time,
/// from which traffic-rate samples are taken.
#[derive(Clone, Copy, Debug, PartialEq, Eq, Structural)]
pub struct TrafficMeter {
    /// Whether a window is open (a packet has been seen).
    pub started: bool,
    /// Capture time at which the open window began.
    pub window_start: i64,
    pub packets: u64,
    pub bytes: u64,
}

/// `a + b`, or the largest `u64` when that does not fit.
pub open spec fn saturating_sum(a: u64, b: u64) -> u64 {
    if a as int + b as int > u64::MAX as int {
        u64::MAX
    } else {
        (a + b) as u64
    }
}

impl TrafficMeter {
    /// A meter with no window open.
    pub fn new() -> (r: TrafficMeter)
        ensures
            !r.started,
            r.packets == 0,
            r.bytes == 0,
    {
        TrafficMeter { started: false, window_start: 0, packets: 0, bytes: 0 }
    }

    /// Counts a packet of `length` bytes captured at `timestamp`. A packet
    /// at or past the end of the open window closes it: the window's counts
    /// come back as a sample (packets per second, bytes per second) and a
    /// new window opens at the packet. Windows without packets give no
    /// sample.
    pub fn observe(&mut self, timestamp: i64, length: u32) -> (r: Option<(u64, u64)>)
        ensures
            !old(self).started || timestamp as int >= old(self).window_start as int + WINDOW_MS
                ==> *final(self) == (TrafficMeter {
                started: true,
                window_start: timestamp,
                packets: 1,
                bytes: length as u64,
            }),
            old(self).started && timestamp as int >= old(self).window_start as int + WINDOW_MS
                ==> r == Some((old(self).packets, old(self).bytes)),
            !old(self).started ==> r is None,
            old(self).started && (timestamp as int) < old(self).window_start as int + WINDOW_MS
                ==> r is None && *final(self) == (TrafficMeter {
                started: true,
                window_start: old(self).window_start,
                packets: saturating_sum(old(self).packets, 1),
                bytes: saturating_sum(old(self).bytes, length as u64),
            }),
    {
        let closes = self.started && timestamp as i128 >= self.window_start as i128
            + WINDOW_MS as i128;
        if !self.started || closes {
            let sample = if closes {
                Some((self.packets, self.bytes))
            } else {
                None
            };
            *self = TrafficMeter {
                started: true,
                window_start: timestamp,
                packets: 1,
                bytes: length as u64,
            };
            sample
        } else {
            self.packets = if self.packets < u64::MAX {
                self.packets + 1
            } else {
                u64::MAX
            };
            self.bytes = if self.bytes <= u64::MAX - length as u64 {
                self.bytes + length as u64
            } else {
                u64::MAX
            };
            None
        }
    }
}

/// The addresses of `s`, each in its textual form, separated by `, `.
pub open spec fn joined_addresses(s: Seq<IpAddress>) -> Seq<char>
    decreases s.len(),
{
    if s.len() == 0 {
        Seq::empty()
    } else if s.len() == 1 {
        s[0].text()
    } else {
        joined_addresses(s.drop_last()) + ", "@ + s.last().text()
    }
}

/// A list of addresses in brackets.
pub open spec fn address_list_text(s: Seq<IpAddress>) -> Seq<char> {
    "["@ + joined_addresses(s) + "]"@
}

/// Description of a changed link-layer binding.
pub open spec fn arp_description(ip: IpAddress, known: Seq<char>, mac: Seq<char>) -> Seq<char> {
    "ARP spoofing detected! IP "@ + ip.text() + " changed from MAC "@ + known + " to "@ + mac
}

/// Description of a resolution to an address not seen before.
pub open spec fn dns_description(domain: Seq<char>, known: Seq<IpAddress>, ip: IpAddress) -> Seq<
    char,
> {
    "DNS anomaly detected for "@ + domain + ". Expected "@ + address_list_text(known) + ", got "@
        + ip.text()
}

/// Description of a suspicious certificate.
pub open spec fn mitm_description(host: Seq<char>, issuer: Seq<char>) -> Seq<char> {
    "Potential MITM attack detected on "@ + host + ". Suspicious certificate: "@ + issuer
}

/// Description of a suspicious access point.
pub open spec fn rogue_ap_description(ssid: Seq<char>, mac: Seq<char>, signal: int) -> Seq<char> {
    "Suspicious access point detected: SSID='"@ + ssid + "', MAC="@ + mac + ", Signal="@
        + signed_decimal(signal) + "dBm"@
}

/// Description of a traffic spike, with the current rates and the mean
/// rates rounded down.
pub open spec fn traffic_description(pps: nat, bps: nat, mean_pps: nat, mean_bps: nat) -> Seq<
    char,
> {
    "Traffic anomaly detected! Current: "@ + decimal(pps) + " pps, "@ + decimal(bps)
        + " bps. Baseline: "@ + decimal(mean_pps) + " pps, "@ + decimal(mean_bps) + " bps"@
}

/// A loss in tenths of a percent, written with one decimal.
pub open spec fn permille_text(loss: nat) -> Seq<char> {
    decimal(loss / 10) + seq!['.'] + decimal(loss % 10)
}

/// Description of degraded connection quality.
pub open spec fn connection_description(latency_ms: nat, loss_permille: nat) -> Seq<char> {
    "Connection quality degraded. Latency: "@ + decimal(latency_ms) + "ms, Packet Loss: "@
        + permille_text(loss_permille) + "%"@
}

/// An access-point name of the kinds that rogue access points use.
pub open spec fn suspicious_ssid(ssid: Seq<char>) -> bool {
    contains_seq(ssid, "FREE_WIFI"@) || contains_seq(ssid, "GUEST_NETWORK"@) || ssid.len() == 0
}

/// A certificate issuer that carries a forgery marker.
pub open spec fn suspicious_issuer(issuer: Seq<char>) -> bool {
    contains_seq(issuer, "FAKE"@) || contains_seq(issuer, "UNKNOWN"@)
}

/// Whether the connection is degraded: latency over 500 ms or loss over
/// 10%.
pub open spec fn degraded(latency_ms: nat, loss_permille: nat) -> bool {
    latency_ms > 500 || loss_permille > 100
}

/// Severity of a degraded connection: High when loss is over 50%.
pub open spec fn connection_severity(loss_permille: nat) -> ThreatSeverity {
    if loss_permille > 500 {
        ThreatSeverity::High
    } else {
        ThreatSeverity::Medium
    }
}

fn push_address_list(s: &mut String, list: &Vec<IpAddress>)
    ensures
        final(s)@ == old(s)@ + address_list_text(list@),
{
    s.append("[");
    let mut i: usize = 0;
    while i < list.len()
        invariant
            0 <= i <= list@.len(),
            s@ == old(s)@ + "["@ + joined_addresses(list@.subrange(0, i as int)),
        decreases list@.len() - i,
    {
        let ghost before = s@;
        if i > 0 {
            s.append(", ");
        }
        list[i].push_text(s);
        proof {
            let p = list@.subrange(0, i + 1);
            assert(p.drop_last() =~= list@.subrange(0, i as int));
            if i == 0 {
                assert(joined_addresses(list@.subrange(0, 0)) =~= Seq::<char>::empty());
                assert(s@ =~= old(s)@ + "["@ + joined_addresses(p));
            } else {
                assert(s@ =~= old(s)@ + "["@ + joined_addresses(p));
            }
        }
        i = i + 1;
    }
    assert(list@.subrange(0, list@.len() as int) =~= list@);
    s.append("]");
    assert(s@ =~= old(s)@ + address_list_text(list@));
}

/// The detector bank: the private history of each threat class.
pub struct ThreatDetector {
    arp_table: AddressBindingTable,
    baseline_traffic: TrafficBaseline,
    dns_cache: NameResolutionCache,
}

impl ThreatDetector {
    /// All three histories well formed.
    pub closed spec fn wf(&self) -> bool {
        self.arp_table.wf() && self.baseline_traffic.wf() && self.dns_cache.wf()
    }

    /// Link-layer address bound to each network address.
    pub closed spec fn arp_bindings(&self) -> Map<IpAddress, Seq<char>> {
        self.arp_table@
    }

    /// Addresses seen for each domain name.
    pub closed spec fn dns_resolutions(&self) -> Map<Seq<char>, Seq<IpAddress>> {
        self.dns_cache@
    }

    /// Addresses seen for `domain`; empty when it was never resolved.
    pub open spec fn dns_known(&self, domain: Seq<char>) -> Seq<IpAddress> {
        if self.dns_resolutions().contains_key(domain) {
            self.dns_resolutions()[domain]
        } else {
            Seq::empty()
        }
    }

    /// Number of traffic samples absorbed.
    pub closed spec fn traffic_samples(&self) -> nat {
        self.baseline_traffic.samples()
    }

    /// Sum of the packet rates absorbed.
    pub closed spec fn traffic_pps_total(&self) -> nat {
        self.baseline_traffic.pps_total()
    }

    /// Sum of the byte rates absorbed.
    pub closed spec fn traffic_bps_total(&self) -> nat {
        self.baseline_traffic.bps_total()
    }

    /// A detector with empty histories.
    pub fn new() -> (r: ThreatDetector)
        ensures
            r.wf(),
            r.arp_bindings() == Map::<IpAddress, Seq<char>>::empty(),
            r.dns_resolutions() == Map::<Seq<char>, Seq<IpAddress>>::empty(),
            r.traffic_samples() == 0,
            r.traffic_pps_total() == 0,
            r.traffic_bps_total() == 0,
    {
        ThreatDetector {
            arp_table: AddressBindingTable::new(),
            baseline_traffic: TrafficBaseline::new(),
            dns_cache: NameResolutionCache::new(),
        }
    }

    /// Number of traffic samples absorbed.
    pub fn traffic_sample_count(&self) -> (r: u64)
        ensures
            r as nat == self.traffic_samples(),
    {
        self.baseline_traffic.sample_count()
    }

    /// Takes an address announcement `(ip, mac)`. An unseen address is bound
    /// to `mac` without alert. A seen address announced with another
    /// link-layer address raises a High alert naming both; the first
    /// binding is kept.
    pub fn detect_arp_spoofing(&mut self, ip: IpAddress, mac: String) -> (r: Option<ThreatAlert>)
        requires
            old(self).wf(),
        ensures
            final(self).wf(),
            !old(self).arp_bindings().contains_key(ip) ==> r is None && final(self).arp_bindings()
                == old(self).arp_bindings().insert(ip, mac@),
            old(self).arp_bindings().contains_key(ip) ==> final(self).arp_bindings() == old(
                self,
            ).arp_bindings(),
            old(self).arp_bindings().contains_key(ip) && old(self).arp_bindings()[ip] == mac@
                ==> r is None,
            old(self).arp_bindings().contains_key(ip) && old(self).arp_bindings()[ip] != mac@
                ==> r is Some && r->Some_0.reports(
                ThreatType::ArpSpoofing,
                ThreatSeverity::High,
                Some(ip),
                arp_description(ip, old(self).arp_bindings()[ip], mac@),
            ),
            final(self).dns_resolutions() == old(self).dns_resolutions(),
            final(self).traffic_samples() == old(self).traffic_samples(),
            final(self).traffic_pps_total() == old(self).traffic_pps_total(),
            final(self).traffic_bps_total() == old(self).traffic_bps_total(),
    {
        match self.arp_table.get(ip) {
            Some(known_mac) => {
                if known_mac != mac {
                    let mut d = String::from_str("ARP spoofing detected! IP ");
                    ip.push_text(&mut d);
                    d.append(" changed from MAC ");
                    d.append(known_mac.as_str());
                    d.append(" to ");
                    d.append(mac.as_str());
                    assert(d@ =~= arp_description(ip, known_mac@, mac@));
                    return Some(
                        ThreatAlert {
                            threat_type: ThreatType::ArpSpoofing,
                            severity: ThreatSeverity::High,
                            ip: Some(ip),
                            description: d,
                            timestamp: now_millis(),
                        },
                    );
                }
            },
            None => {
                self.arp_table.bind(ip, mac);
            },
        }
        None
    }

    /// Takes a resolution `(domain, ip)`. The first address of a domain is
    /// cached without alert. An address not among the domain's known ones
    /// raises a High alert listing them and is added to them, so that its
    /// repeats pass. A known address passes and changes nothing.
    pub fn detect_dns_spoofing(&mut self, domain: &str, ip: IpAddress) -> (r: Option<ThreatAlert>)
        requires
            old(self).wf(),
        ensures
            final(self).wf(),
            old(self).dns_known(domain@).contains(ip) ==> r is None && final(self).dns_resolutions()
                == old(self).dns_resolutions(),
            !old(self).dns_known(domain@).contains(ip) ==> final(self).dns_resolutions() == old(
                self,
            ).dns_resolutions().insert(domain@, old(self).dns_known(domain@).push(ip)),
            old(self).dns_known(domain@).len() == 0 ==> r is None,
            old(self).dns_known(domain@).len() > 0 && !old(self).dns_known(domain@).contains(ip)
                ==> r is Some && r->Some_0.reports(
                ThreatType::DnsSpoofing,
                ThreatSeverity::High,
                Some(ip),
                dns_description(domain@, old(self).dns_known(domain@), ip),
            ),
            final(self).arp_bindings() == old(self).arp_bindings(),
            final(self).traffic_samples() == old(self).traffic_samples(),
            final(self).traffic_pps_total() == old(self).traffic_pps_total(),
            final(self).traffic_bps_total() == old(self).traffic_bps_total(),
    {
        let known = self.dns_cache.addresses(domain);
        let mut seen = false;
        let mut i: usize = 0;
        while i < known.len()
            invariant
                0 <= i <= known@.len(),
                seen == known@.subrange(0, i as int).contains(ip),
            decreases known@.len() - i,
        {
            proof {
                assert(known@.subrange(0, i + 1) =~= known@.subrange(0, i as int).push(known@[i as int]));
            }
            if known[i] == ip {
                seen = true;
                assert(known@.subrange(0, i + 1)[i as int] == ip);
            }
            i = i + 1;
        }
        assert(known@.subrange(0, known@.len() as int) =~= known@);
        if seen {
            return None;
        }
        self.dns_cache.record(domain, ip);
        if known.len() == 0 {
            return None;
        }
        let mut d = String::from_str("DNS anomaly detected for ");
        d.append(domain);
        d.append(". Expected ");
        push_address_list(&mut d, &known);
        d.append(", got ");
        ip.push_text(&mut d);
        assert(d@ =~= dns_description(domain@, known@, ip));
        Some(
            ThreatAlert {
                threat_type: ThreatType::DnsSpoofing,
                severity: ThreatSeverity::High,
                ip: Some(ip),
                description: d,
                timestamp: now_millis(),
            },
        )
    }

    /// Takes a certificate seen for `host`: an issuer that holds `FAKE` or
    /// `UNKNOWN` raises a Critical alert with no address.
    pub fn detect_mitm(&self, host: &str, cert_issuer: &str) -> (r: Option<ThreatAlert>)
        ensures
            r is Some <==> suspicious_issuer(cert_issuer@),
            r is Some ==> r->Some_0.reports(
                ThreatType::MitmAttack,
                ThreatSeverity::Critical,
                None,
                mitm_description(host@, cert_issuer@),
            ),
    {
        if str_contains(cert_issuer, "FAKE") || str_contains(cert_issuer, "UNKNOWN") {
            let mut d = String::from_str("Potential MITM attack detected on ");
            d.append(host);
            d.append(". Suspicious certificate: ");
            d.append(cert_issuer);
            assert(d@ =~= mitm_description(host@, cert_issuer@));
            return Some(
                ThreatAlert {
                    threat_type: ThreatType::MitmAttack,
                    severity: ThreatSeverity::Critical,
                    ip: None,
                    description: d,
                    timestamp: now_millis(),
                },
            );
        }
        None
    }

    /// Takes a beacon `(ssid, mac, signal)`: a suspicious name (holding
    /// `FREE_WIFI` or `GUEST_NETWORK`, or empty) with a signal stronger than
    /// -30 dBm raises a High alert with no address.
    pub fn detect_rogue_ap(&self, ssid: &str, mac: &str, signal_strength: i32) -> (r: Option<
        ThreatAlert,
    >)
        ensures
            r is Some <==> suspicious_ssid(ssid@) && signal_strength > -30,
            r is Some ==> r->Some_0.reports(
                ThreatType::RogueAccessPoint,
                ThreatSeverity::High,
                None,
                rogue_ap_description(ssid@, mac@, signal_strength as int),
            ),
    {
        if str_contains(ssid, "FREE_WIFI") || str_contains(ssid, "GUEST_NETWORK") || ssid.is_empty() {
            if signal_strength > -30 {
                let mut d = String::from_str("Suspicious access point detected: SSID='");
                d.append(ssid);
                d.append("', MAC=");
                d.append(mac);
                d.append(", Signal=");
                push_signed_decimal(&mut d, signal_strength as i64);
                d.append("dBm");
                assert(d@ =~= rogue_ap_description(ssid@, mac@, signal_strength as int));
                return Some(
                    ThreatAlert {
                        threat_type: ThreatType::RogueAccessPoint,
                        severity: ThreatSeverity::High,
                        ip: None,
                        description: d,
                        timestamp: now_millis(),
                    },
                );
            }
        }
        None
    }

    /// Takes a traffic sample (packets and bytes per second). The sample is
    /// first folded into the running means. The first eleven samples never
    /// alert; from the twelfth on, either rate above five times its mean
    /// raises a Medium alert.
    pub fn detect_traffic_anomaly(&mut self, current_pps: u64, current_bps: u64) -> (r: Option<
        ThreatAlert,
    >)
        requires
            old(self).wf(),
            old(self).traffic_samples() < u64::MAX,
        ensures
            final(self).wf(),
            final(self).traffic_samples() == old(self).traffic_samples() + 1,
            final(self).traffic_pps_total() == old(self).traffic_pps_total() + current_pps,
            final(self).traffic_bps_total() == old(self).traffic_bps_total() + current_bps,
            r is Some <==> old(self).traffic_samples() > 10 && (TrafficBaseline::above_five_means(
                current_pps as nat,
                final(self).traffic_pps_total(),
                final(self).traffic_samples(),
            ) || TrafficBaseline::above_five_means(
                current_bps as nat,
                final(self).traffic_bps_total(),
                final(self).traffic_samples(),
            )),
            r is Some ==> r->Some_0.reports(
                ThreatType::TrafficAnomaly,
                ThreatSeverity::Medium,
                None,
                traffic_description(
                    current_pps as nat,
                    current_bps as nat,
                    final(self).traffic_pps_total() / final(self).traffic_samples(),
                    final(self).traffic_bps_total() / final(self).traffic_samples(),
                ),
            ),
            final(self).arp_bindings() == old(self).arp_bindings(),
            final(self).dns_resolutions() == old(self).dns_resolutions(),
    {
        self.baseline_traffic.absorb(current_pps, current_bps);
        if self.baseline_traffic.exceeded_by(current_pps, current_bps) {
            let mut d = String::from_str("Traffic anomaly detected! Current: ");
            push_decimal(&mut d, current_pps as u128);
            d.append(" pps, ");
            push_decimal(&mut d, current_bps as u128);
            d.append(" bps. Baseline: ");
            push_decimal(&mut d, self.baseline_traffic.mean_pps());
            d.append(" pps, ");
            push_decimal(&mut d, self.baseline_traffic.mean_bps());
            d.append(" bps");
            assert(d@ =~= traffic_description(
                current_pps as nat,
                current_bps as nat,
                self.traffic_pps_total() / self.traffic_samples(),
                self.traffic_bps_total() / self.traffic_samples(),
            ));
            return Some(
                ThreatAlert {
                    threat_type: ThreatType::TrafficAnomaly,
                    severity: ThreatSeverity::Medium,
                    ip: None,
                    description: d,
                    timestamp: now_millis(),
                },
            );
        }
        None
    }

    /// Takes a probe result: latency over 500 ms or loss over 10% (100 per
    /// mille) raises an alert with no address, High when loss is over 50%,
    /// else Medium.
    pub fn detect_connection_issues(&self, latency_ms: u64, packet_loss_permille: u32) -> (r:
        Option<ThreatAlert>)
        ensures
            r is Some <==> degraded(latency_ms as nat, packet_loss_permille as nat),
            r is Some ==> r->Some_0.reports(
                ThreatType::ConnectionIssue,
                connection_severity(packet_loss_permille as nat),
                None,
                connection_description(latency_ms as nat, packet_loss_permille as nat),
            ),
    {
        if latency_ms > 500 || packet_loss_permille > 100 {
            let severity = if packet_loss_permille > 500 {
                ThreatSeverity::High
            } else {
                ThreatSeverity::Medium
            };
            let mut d = String::from_str("Connection quality degraded. Latency: ");
            push_decimal(&mut d, latency_ms as u128);
            d.append("ms, Packet Loss: ");
            push_decimal(&mut d, (packet_loss_permille / 10) as u128);
            push_char(&mut d, '.');
            push_char(&mut d, digit((packet_loss_permille % 10) as u8));
            d.append("%");
            proof {
                let last = (packet_loss_permille % 10) as nat;
                assert(decimal(last) == seq![digit_char(last)]);
            }
            assert(d@ =~= connection_description(latency_ms as nat, packet_loss_permille as nat));
            return Some(
                ThreatAlert {
                    threat_type: ThreatType::ConnectionIssue,
                    severity,
                    ip: None,
                    description: d,
                    timestamp: now_millis(),
                },
            );
        }
        None
    }
}

} // verus!
