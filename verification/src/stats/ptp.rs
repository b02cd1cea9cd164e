//! Counters of one PTP domain.

use vstd::prelude::*;

use crate::net::Ipv4Addr;
use crate::protocols::{PtpInfo, PtpInfoView, PTP_VERSION_V1, SECOND};
use crate::scan::opt_text;
use crate::stats::stream::since;
use crate::table::{put, Table};
use crate::text::same;

verus! {

/// What is known of one PTP domain and version.
#[derive(Debug)]
pub struct PtpStats {
    pub domain: u8,
    pub version: u8,
    pub packets: u64,
    /// What carries the domain: "AVB", "PTPv1" or "PTPv2".
    pub protocol_kind: Option<String>,
    pub last_seen: u64,
    pub last_grandmaster: Option<String>,
    pub grandmaster_changes: u64,
    pub clock_valid: bool,
    pub timeout_secs: u64,
    pub last_quality: Option<String>,
    pub last_offset_ns: Option<i64>,
    pub last_path_delay_ns: Option<i64>,
    /// The path delays seen since this grandmaster took over: a wide spread tells
    /// of an unstable link, a high value of many hops.
    pub min_path_delay_ns: Option<i64>,
    pub max_path_delay_ns: Option<i64>,
    pub protocol_grandmaster_detected: bool,
    pub protocol_clock_lost: bool,
    pub protocol_changes_count: u64,
    pub last_src_ip: Option<Ipv4Addr>,
    /// Where the last message that named a grandmaster came from.
    pub grandmaster_src_ip: Option<Ipv4Addr>,
    pub last_clock_id: Option<String>,
    /// Whether a Sync was seen, which tells a clock from a mere endpoint.
    pub seen_sync: bool,
    /// Who sent a version 1 Sync in this window, and at what stratum.
    pub sync_senders_this_window: Table<Ipv4Addr, u8>,
}

/// What is known of one PTP domain, in specifications.
pub struct PtpStatsView {
    pub domain: u8,
    pub version: u8,
    pub packets: u64,
    pub protocol_kind: Option<Seq<char>>,
    pub last_seen: u64,
    pub last_grandmaster: Option<Seq<char>>,
    pub grandmaster_changes: u64,
    pub clock_valid: bool,
    pub timeout_secs: u64,
    pub last_quality: Option<Seq<char>>,
    pub last_offset_ns: Option<i64>,
    pub last_path_delay_ns: Option<i64>,
    pub min_path_delay_ns: Option<i64>,
    pub max_path_delay_ns: Option<i64>,
    pub protocol_grandmaster_detected: bool,
    pub protocol_clock_lost: bool,
    pub protocol_changes_count: u64,
    pub last_src_ip: Option<Ipv4Addr>,
    pub grandmaster_src_ip: Option<Ipv4Addr>,
    pub last_clock_id: Option<Seq<char>>,
    pub seen_sync: bool,
    pub sync_senders_this_window: Seq<(Ipv4Addr, u8)>,
}

impl View for PtpStats {
    type V = PtpStatsView;

    open spec fn view(&self) -> PtpStatsView {
        PtpStatsView {
            domain: self.domain,
            version: self.version,
            packets: self.packets,
            protocol_kind: opt_text(self.protocol_kind),
            last_seen: self.last_seen,
            last_grandmaster: opt_text(self.last_grandmaster),
            grandmaster_changes: self.grandmaster_changes,
            clock_valid: self.clock_valid,
            timeout_secs: self.timeout_secs,
            last_quality: opt_text(self.last_quality),
            last_offset_ns: self.last_offset_ns,
            last_path_delay_ns: self.last_path_delay_ns,
            min_path_delay_ns: self.min_path_delay_ns,
            max_path_delay_ns: self.max_path_delay_ns,
            protocol_grandmaster_detected: self.protocol_grandmaster_detected,
            protocol_clock_lost: self.protocol_clock_lost,
            protocol_changes_count: self.protocol_changes_count,
            last_src_ip: self.last_src_ip,
            grandmaster_src_ip: self.grandmaster_src_ip,
            last_clock_id: opt_text(self.last_clock_id),
            seen_sync: self.seen_sync,
            sync_senders_this_window: self.sync_senders_this_window@,
        }
    }
}

/// A change of clock that the caller tells of.
#[derive(Debug, Clone, PartialEq, Eq)]
pub enum PtpEvent {
    GrandmasterDetected,
    GrandmasterChanged { from: String },
    ClockLost,
}

/// A change of clock, in specifications.
pub enum PtpEventView {
    GrandmasterDetected,
    GrandmasterChanged { from: Seq<char> },
    ClockLost,
}

impl View for PtpEvent {
    type V = PtpEventView;

    open spec fn view(&self) -> PtpEventView {
        match self {
            PtpEvent::GrandmasterDetected => PtpEventView::GrandmasterDetected,
            PtpEvent::GrandmasterChanged { from } => PtpEventView::GrandmasterChanged {
                from: from@,
            },
            PtpEvent::ClockLost => PtpEventView::ClockLost,
        }
    }
}

pub open spec fn opt_event(e: Option<PtpEvent>) -> Option<PtpEventView> {
    match e {
        Some(x) => Some(x@),
        None => None,
    }
}

/// A domain of which nothing is known yet.
pub open spec fn fresh_domain(domain: u8, version: u8, now: u64) -> PtpStatsView {
    PtpStatsView {
        domain,
        version,
        packets: 0,
        protocol_kind: None,
        last_seen: now,
        last_grandmaster: None,
        grandmaster_changes: 0,
        clock_valid: false,
        timeout_secs: 5,
        last_quality: None,
        last_offset_ns: None,
        last_path_delay_ns: None,
        min_path_delay_ns: None,
        max_path_delay_ns: None,
        protocol_grandmaster_detected: false,
        protocol_clock_lost: false,
        protocol_changes_count: 0,
        last_src_ip: None,
        grandmaster_src_ip: None,
        last_clock_id: None,
        seen_sync: false,
        sync_senders_this_window: Seq::empty(),
    }
}

pub open spec fn or_else<A>(a: Option<A>, b: Option<A>) -> Option<A> {
    if a is Some {
        a
    } else {
        b
    }
}

/// The domain after a message was counted.
pub open spec fn with_message(
    v: PtpStatsView,
    info: PtpInfoView,
    kind: Option<Seq<char>>,
    now: u64,
) -> PtpStatsView {
    PtpStatsView {
        packets: v.packets.wrapping_add(1),
        last_seen: now,
        protocol_kind: kind,
        last_src_ip: or_else(info.src_ip, v.last_src_ip),
        last_clock_id: or_else(info.clock_id, v.last_clock_id),
        ..v
    }
}

/// The change of clock that a message tells of.
pub open spec fn clock_event(v: PtpStatsView, info: PtpInfoView) -> Option<PtpEventView> {
    match (info.grandmaster_id, v.last_grandmaster) {
        (Some(gm), Some(current)) => if current == gm {
            None
        } else {
            Some(PtpEventView::GrandmasterChanged { from: current })
        },
        (Some(gm), None) => Some(PtpEventView::GrandmasterDetected),
        (None, _) => None,
    }
}

/// The domain after the grandmaster that a message names was noted. The clock is
/// there again; with another grandmaster the path delays start anew.
pub open spec fn with_grandmaster(v: PtpStatsView, info: PtpInfoView) -> PtpStatsView {
    match info.grandmaster_id {
        Some(gm) => {
            let e = clock_event(v, info);
            let changed = e matches Some(x) && x is GrandmasterChanged;
            PtpStatsView {
                grandmaster_changes: if changed {
                    v.grandmaster_changes.wrapping_add(1)
                } else {
                    v.grandmaster_changes
                },
                protocol_changes_count: if changed {
                    v.protocol_changes_count.wrapping_add(1)
                } else {
                    v.protocol_changes_count
                },
                last_grandmaster: Some(gm),
                protocol_grandmaster_detected: v.protocol_grandmaster_detected || e is Some,
                min_path_delay_ns: if changed {
                    None
                } else {
                    v.min_path_delay_ns
                },
                max_path_delay_ns: if changed {
                    None
                } else {
                    v.max_path_delay_ns
                },
                clock_valid: true,
                protocol_clock_lost: false,
                grandmaster_src_ip: or_else(info.src_ip, v.grandmaster_src_ip),
                last_quality: or_else(info.clock_quality, v.last_quality),
                ..v
            }
        },
        None => v,
    }
}

/// The domain after the Sync or Follow_Up that a message may be was noted. A
/// sender of a version 1 Sync without a stratum counts as the worst.
pub open spec fn with_sync(v: PtpStatsView, info: PtpInfoView) -> PtpStatsView {
    PtpStatsView {
        last_offset_ns: if info.message_type == 0 || info.message_type == 8 {
            info.correction_ns
        } else {
            v.last_offset_ns
        },
        seen_sync: v.seen_sync || info.message_type == 0,
        sync_senders_this_window: match info.src_ip {
            Some(ip) => if info.message_type == 0 && info.version == PTP_VERSION_V1 {
                put(
                    v.sync_senders_this_window,
                    ip,
                    match info.stratum {
                        Some(s) => s,
                        None => 255,
                    },
                )
            } else {
                v.sync_senders_this_window
            },
            None => v.sync_senders_this_window,
        },
        ..v
    }
}

/// Whether the path delay of a Delay_Resp or Pdelay_Resp has a positive counterpart.
/// Other messages carry none that is measured.
pub open spec fn has_magnitude(info: PtpInfoView) -> bool {
    (info.message_type == 3 || info.message_type == 9) ==> info.path_delay_ns != Some(i64::MIN)
}

pub open spec fn absolute(n: i64) -> i64 {
    if n < 0 {
        (-n) as i64
    } else {
        n
    }
}

/// The domain after the path delay that a Delay_Resp or Pdelay_Resp carries was
/// noted. Its sign is only the direction of the measurement.
pub open spec fn with_path_delay(v: PtpStatsView, info: PtpInfoView) -> PtpStatsView {
    if info.message_type == 9 || info.message_type == 3 {
        match info.path_delay_ns {
            Some(d) => PtpStatsView {
                last_path_delay_ns: Some(d),
                min_path_delay_ns: match v.min_path_delay_ns {
                    Some(m) => if m <= absolute(d) {
                        Some(m)
                    } else {
                        Some(absolute(d))
                    },
                    None => Some(absolute(d)),
                },
                max_path_delay_ns: match v.max_path_delay_ns {
                    Some(m) => if m >= absolute(d) {
                        Some(m)
                    } else {
                        Some(absolute(d))
                    },
                    None => Some(absolute(d)),
                },
                ..v
            },
            None => PtpStatsView { last_path_delay_ns: None, ..v },
        }
    } else {
        v
    }
}

/// The domain after a message.
pub open spec fn domain_updated(
    v: PtpStatsView,
    info: PtpInfoView,
    kind: Option<Seq<char>>,
    now: u64,
) -> PtpStatsView {
    with_path_delay(with_sync(with_grandmaster(with_message(v, info, kind, now), info), info), info)
}

/// Whether the clock was there and has been silent for too long.
pub open spec fn timed_out(v: PtpStatsView, now: u64) -> bool {
    v.clock_valid && since(now, v.last_seen) > v.timeout_secs * SECOND
}

/// The domain after its silence was judged. A clock that comes back is detected
/// anew.
pub open spec fn domain_checked(v: PtpStatsView, now: u64) -> PtpStatsView {
    if timed_out(v, now) {
        PtpStatsView {
            clock_valid: false,
            protocol_clock_lost: true,
            last_grandmaster: None,
            ..v
        }
    } else {
        v
    }
}

/// Whether a domain is AVB's own, directly over Ethernet.
pub open spec fn gptp(v: PtpStatsView) -> bool {
    v.protocol_kind == Some("AVB"@)
}

fn text_copy(t: &Option<String>) -> (r: Option<String>)
    ensures
        opt_text(r) == opt_text(*t),
{
    match t {
        Some(s) => Some(s.clone()),
        None => None,
    }
}

impl PtpStats {
    /// A domain of which nothing is known yet.
    pub fn new(domain: u8, version: u8, now: u64) -> (r: Self)
        ensures
            r@ == fresh_domain(domain, version, now),
    {
        PtpStats {
            domain,
            version,
            packets: 0,
            protocol_kind: None,
            last_seen: now,
            last_grandmaster: None,
            grandmaster_changes: 0,
            clock_valid: false,
            timeout_secs: 5,
            last_quality: None,
            last_offset_ns: None,
            last_path_delay_ns: None,
            min_path_delay_ns: None,
            max_path_delay_ns: None,
            protocol_grandmaster_detected: false,
            protocol_clock_lost: false,
            protocol_changes_count: 0,
            last_src_ip: None,
            grandmaster_src_ip: None,
            last_clock_id: None,
            seen_sync: false,
            sync_senders_this_window: Table::new(),
        }
    }

    fn note_message(&mut self, info: &PtpInfo, protocol_kind: &Option<String>, now: u64)
        ensures
            final(self)@ == with_message(old(self)@, info@, opt_text(*protocol_kind), now),
    {
        self.packets = self.packets.wrapping_add(1);
        self.last_seen = now;
        self.protocol_kind = text_copy(protocol_kind);
        if info.src_ip.is_some() {
            self.last_src_ip = info.src_ip;
        }
        if info.clock_id.is_some() {
            self.last_clock_id = text_copy(&info.clock_id);
        }
    }

    fn note_grandmaster(&mut self, info: &PtpInfo) -> (e: Option<PtpEvent>)
        ensures
            final(self)@ == with_grandmaster(old(self)@, info@),
            opt_event(e) == clock_event(old(self)@, info@),
    {
        match &info.grandmaster_id {
            None => None,
            Some(gm) => {
                let mut event: Option<PtpEvent> = None;
                let ghost before = self@;
                match &self.last_grandmaster {
                    Some(current) => {
                        if !same(current.as_str(), gm.as_str()) {
                            event = Some(PtpEvent::GrandmasterChanged { from: current.clone() });
                            self.grandmaster_changes = self.grandmaster_changes.wrapping_add(1);
                            self.protocol_changes_count = self.protocol_changes_count.wrapping_add(
                                1,
                            );
                            self.min_path_delay_ns = None;
                            self.max_path_delay_ns = None;
                            self.protocol_grandmaster_detected = true;
                        }
                    },
                    None => {
                        event = Some(PtpEvent::GrandmasterDetected);
                        self.protocol_grandmaster_detected = true;
                    },
                }
                self.last_grandmaster = Some(gm.clone());
                self.clock_valid = true;
                if info.src_ip.is_some() {
                    self.grandmaster_src_ip = info.src_ip;
                }
                self.protocol_clock_lost = false;
                if info.clock_quality.is_some() {
                    self.last_quality = text_copy(&info.clock_quality);
                }
                assert(opt_event(event) == clock_event(before, info@));
                event
            },
        }
    }

    fn note_sync(&mut self, info: &PtpInfo)
        ensures
            final(self)@ == with_sync(old(self)@, info@),
    {
        if info.message_type == 0 || info.message_type == 8 {
            self.last_offset_ns = info.correction_ns;
        }
        if info.message_type == 0 {
            self.seen_sync = true;
            if info.version == PTP_VERSION_V1 {
                if let Some(ip) = info.src_ip {
                    let stratum: u8 = match info.stratum {
                        Some(s) => s,
                        None => 255,
                    };
                    self.sync_senders_this_window.insert(ip, stratum);
                }
            }
        }
    }

    fn note_path_delay(&mut self, info: &PtpInfo)
        requires
            has_magnitude(info@),
        ensures
            final(self)@ == with_path_delay(old(self)@, info@),
    {
        if info.message_type == 9 || info.message_type == 3 {
            self.last_path_delay_ns = info.path_delay_ns;
            if let Some(d) = info.path_delay_ns {
                let d: i64 = if d < 0 {
                    -d
                } else {
                    d
                };
                self.min_path_delay_ns = match self.min_path_delay_ns {
                    Some(m) => if m <= d {
                        Some(m)
                    } else {
                        Some(d)
                    },
                    None => Some(d),
                };
                self.max_path_delay_ns = match self.max_path_delay_ns {
                    Some(m) => if m >= d {
                        Some(m)
                    } else {
                        Some(d)
                    },
                    None => Some(d),
                };
            }
        }
    }

    /// Counts a message and tells of the change of clock that it brings.
    pub fn update(&mut self, info: &PtpInfo, protocol_kind: &Option<String>, now: u64) -> (e: Option<
        PtpEvent,
    >)
        requires
            has_magnitude(info@),
        ensures
            final(self)@ == domain_updated(old(self)@, info@, opt_text(*protocol_kind), now),
            opt_event(e) == clock_event(old(self)@, info@),
    {
        self.note_message(info, protocol_kind, now);
        let e: Option<PtpEvent> = self.note_grandmaster(info);
        self.note_sync(info);
        self.note_path_delay(info);
        e
    }

    /// Judges the silence of the clock, and tells when it was just lost.
    pub fn check_timeout(&mut self, now: u64) -> (e: Option<PtpEvent>)
        ensures
            final(self)@ == domain_checked(old(self)@, now),
            opt_event(e) == (if timed_out(old(self)@, now) {
                Some(PtpEventView::ClockLost)
            } else {
                None
            }),
    {
        let silent: u64 = now.saturating_sub(self.last_seen);
        if self.clock_valid && silent as u128 > self.timeout_secs as u128 * 1_000_000_000 {
            self.clock_valid = false;
            self.protocol_clock_lost = true;
            self.last_grandmaster = None;
            Some(PtpEvent::ClockLost)
        } else {
            None
        }
    }

    /// Whether this is a domain over IP: any that is not AVB's own, also while
    /// nothing is known of what carries it.
    pub fn is_ip_ptp_domain(&self) -> (r: bool)
        ensures
            r == !gptp(self@),
    {
        !self.is_gptp_domain()
    }

    /// Whether this is an AVB domain.
    pub fn is_gptp_domain(&self) -> (r: bool)
        ensures
            r == gptp(self@),
    {
        match &self.protocol_kind {
            Some(k) => same(k.as_str(), "AVB"),
            None => false,
        }
    }
}

/// Whether path delays spread so far that the link is unstable.
pub fn path_delay_spread_unstable(min_ns: i64, max_ns: i64) -> (r: bool)
    ensures
        r == (max_ns - min_ns > 10_000),
{
    max_ns as i128 - min_ns as i128 > 10_000
}

/// Whether a path delay tells of too many hops.
pub fn path_delay_too_many_hops(max_ns: i64) -> (r: bool)
    ensures
        r == (max_ns > 1_000_000),
{
    max_ns > 1_000_000
}

/// The hops that a path delay stands for, at five microseconds each: none below
/// that, and never a negative number.
pub open spec fn hops(min_ns: i64) -> u32 {
    if min_ns < 0 {
        0
    } else {
        ((min_ns / 5_000) % 0x1_0000_0000) as u32
    }
}

/// Estimates the hops of a path delay.
pub fn path_delay_hop_estimate(min_ns: i64) -> (r: u32)
    ensures
        r == hops(min_ns),
{
    if min_ns < 0 {
        0
    } else {
        ((min_ns as u64 / 5_000) % 0x1_0000_0000) as u32
    }
}

// ── Laws ─────────────────────────────────────────────────────────────────────

/// An Announce that names a grandmaster makes it the domain's: the first one is
/// detected, the same one brings nothing new, and another one is a change from the
/// one before, which starts the path delays anew. Either way the clock is there.
pub proof fn law_announce_names_the_grandmaster(
    v: PtpStatsView,
    info: PtpInfoView,
    kind: Option<Seq<char>>,
    now: u64,
    gm: Seq<char>,
)
    requires
        info.message_type == 0x0B,
        info.grandmaster_id == Some(gm),
    ensures
        has_magnitude(info),
        clock_event(v, info) == (match v.last_grandmaster {
            None => Some(PtpEventView::GrandmasterDetected),
            Some(h) => if h == gm {
                None
            } else {
                Some(PtpEventView::GrandmasterChanged { from: h })
            },
        }),
        ({
            let w = domain_updated(v, info, kind, now);
            &&& w.last_grandmaster == Some(gm)
            &&& w.clock_valid
            &&& !w.protocol_clock_lost
            &&& w.packets == v.packets.wrapping_add(1)
            &&& w.last_seen == now
            &&& (v.last_grandmaster matches Some(h) && h != gm) ==> w.grandmaster_changes
                == v.grandmaster_changes.wrapping_add(1) && w.min_path_delay_ns is None
                && w.max_path_delay_ns is None
            &&& !(v.last_grandmaster matches Some(h) && h != gm) ==> w.grandmaster_changes
                == v.grandmaster_changes && w.min_path_delay_ns == v.min_path_delay_ns
                && w.max_path_delay_ns == v.max_path_delay_ns
        }),
{
}

/// A clock that was lost and comes back is detected anew, and no longer counts as
/// lost.
pub proof fn law_lost_clock_is_detected_anew(
    v: PtpStatsView,
    info: PtpInfoView,
    kind: Option<Seq<char>>,
    lost: u64,
    now: u64,
)
    requires
        timed_out(v, lost),
        info.grandmaster_id is Some,
    ensures
        domain_checked(v, lost).protocol_clock_lost,
        clock_event(domain_checked(v, lost), info) == Some(PtpEventView::GrandmasterDetected),
        domain_updated(domain_checked(v, lost), info, kind, now).clock_valid,
        !domain_updated(domain_checked(v, lost), info, kind, now).protocol_clock_lost,
{
}

/// A clock is lost once: judged again, the silence tells of nothing new.
pub proof fn law_lost_once(v: PtpStatsView, now: u64, later: u64)
    requires
        timed_out(v, now),
    ensures
        !timed_out(domain_checked(v, now), later),
{
}

/// The grandmaster that is already known brings no change.
pub proof fn law_same_grandmaster_is_no_change(
    v: PtpStatsView,
    info: PtpInfoView,
    kind: Option<Seq<char>>,
    now: u64,
)
    requires
        info.grandmaster_id is Some,
        info.grandmaster_id == v.last_grandmaster,
    ensures
        clock_event(v, info) is None,
        domain_updated(v, info, kind, now).grandmaster_changes == v.grandmaster_changes,
{
}

/// A message that names no grandmaster never changes where the grandmaster is.
pub proof fn law_followers_are_not_the_grandmaster(
    v: PtpStatsView,
    info: PtpInfoView,
    kind: Option<Seq<char>>,
    now: u64,
)
    requires
        info.grandmaster_id is None,
    ensures
        domain_updated(v, info, kind, now).grandmaster_src_ip == v.grandmaster_src_ip,
        domain_updated(v, info, kind, now).last_grandmaster == v.last_grandmaster,
{
}

} // verus!
