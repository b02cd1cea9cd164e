//! What each kind of packet does to the state.

use vstd::prelude::*;

use crate::capture::alert::{good, info, only, quiet, warn, Alert, AlertView};
use crate::capture::avb::AvbView;
use crate::capture::ptp::PtpStateView;
use crate::capture::state::{CaptureState, StateView};
use crate::net::{dotted, push_ip, Ipv4Addr};
use crate::order::views;
use crate::parser::avdecc::{has_aem, media_summary, media_type_summary, push_eui64, sr_class, sr_class_str};
use crate::parser::frame::{ip_payload, ipv4, udp, udp_payload};
use crate::parser::sdp::connection_address;
use crate::protocols::{AvdeccAdp, PtpInfo, PtpInfoView, SdpMedia, SdpMediaView, SdpSession, SdpSessionView, PTP_VERSION_V1};
use crate::stats::avtp::AvdeccEntity;
use crate::stats::health::{with_ecn, NetworkHealth};
use crate::stats::ptp::{clock_event, domain_updated, fresh_domain, has_magnitude, PtpEvent, PtpEventView, PtpStats, PtpStatsView};
use crate::stats::stream::{with_sdp, StreamStats, StreamView};
use crate::table::{holds, lookup, put, without, Table};
use crate::text::{dec, hex_colons, push_dec};

verus! {

/// How many announcements are remembered. Their identifiers can be forged, so
/// they must not pile up.
pub const MAX_SDP_SESSIONS: usize = 1024;

/// The value under a key, or what a new entry starts with.
pub open spec fn found_or<I, M>(t: Seq<(I, M)>, id: I, new: M) -> M {
    match lookup(t, id) {
        Some(m) => m,
        None => new,
    }
}

// ── Datagrams ────────────────────────────────────────────────────────────────

/// What a handler reads of a UDP datagram over IPv4.
#[derive(Debug)]
pub struct Datagram {
    pub dscp: u8,
    pub ecn: u8,
    pub ttl: u8,
    pub payload: Vec<u8>,
}

/// What a handler reads of a UDP datagram, in specifications.
pub struct DatagramView {
    pub dscp: u8,
    pub ecn: u8,
    pub ttl: u8,
    pub payload: Seq<u8>,
}

/// The datagram in an IPv4 packet.
pub open spec fn datagram(p: Seq<u8>) -> Option<DatagramView> {
    if p.len() >= 20 && ip_payload(p).len() >= 8 {
        Some(
            DatagramView {
                dscp: p[1] / 4,
                ecn: p[1] % 4,
                ttl: p[8],
                payload: udp_payload(ip_payload(p)),
            },
        )
    } else {
        None
    }
}

impl View for Datagram {
    type V = DatagramView;

    open spec fn view(&self) -> DatagramView {
        DatagramView { dscp: self.dscp, ecn: self.ecn, ttl: self.ttl, payload: self.payload@ }
    }
}

/// Reads the datagram in an IPv4 packet.
pub fn read_datagram(p: &[u8]) -> (r: Option<Datagram>)
    ensures
        match r {
            Some(d) => datagram(p@) == Some(d@),
            None => datagram(p@) is None,
        },
{
    match ipv4(p) {
        Some(ip) => match udp(ip.payload.as_slice()) {
            Some(u) => Some(
                Datagram { dscp: ip.dscp, ecn: ip.ecn, ttl: ip.ttl, payload: u.payload },
            ),
            None => None,
        },
        None => None,
    }
}

/// The network after the congestion bits of a datagram were seen.
pub open spec fn ecn_seen(h: NetworkHealth, d: Option<DatagramView>) -> NetworkHealth {
    match d {
        Some(x) => with_ecn(h, x.ecn),
        None => h,
    }
}

// ── Announcements ────────────────────────────────────────────────────────────

/// Whether an announced media is for a destination: by its port, and by its
/// address where it has one.
pub open spec fn announces(m: SdpMediaView, dst: Option<Ipv4Addr>, port: u16) -> bool {
    m.port == port && match connection_address(m.connection) {
        Some(ip) => dst == Some(ip),
        None => true,
    }
}

fn is_announced(m: &SdpMedia, dst: Option<Ipv4Addr>, port: u16) -> (r: bool)
    ensures
        r == announces(m@, dst, port),
{
    if m.port != port {
        return false;
    }
    match m.connection_ip() {
        Some(ip) => dst == Some(ip),
        None => true,
    }
}

/// The first announced media from `i` on that is for a destination.
pub open spec fn media_for(
    media: Seq<SdpMediaView>,
    dst: Ipv4Addr,
    port: u16,
    i: int,
) -> Option<SdpMediaView>
    decreases media.len() - i,
{
    if i < 0 || i >= media.len() {
        None
    } else if announces(media[i], Some(dst), port) {
        Some(media[i])
    } else {
        media_for(media, dst, port, i + 1)
    }
}

/// The first remembered announcement from `i` on that is for a destination: its
/// name and its media.
pub open spec fn announcement<I>(
    cache: Seq<(I, SdpSessionView)>,
    dst: Ipv4Addr,
    port: u16,
    i: int,
) -> Option<(Seq<char>, SdpMediaView)>
    decreases cache.len() - i,
{
    if i < 0 || i >= cache.len() {
        None
    } else {
        match media_for(cache[i].1.media, dst, port, 0) {
            Some(m) => Some((cache[i].1.session_name, m)),
            None => announcement(cache, dst, port, i + 1),
        }
    }
}

fn find_media<'a>(s: &'a SdpSession, dst: Ipv4Addr, port: u16) -> (r: Option<&'a SdpMedia>)
    ensures
        match r {
            Some(m) => media_for(s@.media, dst, port, 0) == Some(m@),
            None => media_for(s@.media, dst, port, 0) is None,
        },
{
    let mut i: usize = 0;
    while i < s.media.len()
        invariant
            i <= s.media@.len(),
            s.media@.len() == s@.media.len(),
            media_for(s@.media, dst, port, i as int) == media_for(s@.media, dst, port, 0),
        decreases s.media@.len() - i,
    {
        assert(s@.media[i as int] == s.media@[i as int]@);
        if is_announced(&s.media[i], Some(dst), port) {
            return Some(&s.media[i]);
        }
        i += 1;
    }
    None
}

/// Finds the remembered announcement for a destination.
pub fn find_sdp_media<'a>(cache: &'a Table<String, SdpSession>, dst: Ipv4Addr, port: u16) -> (r: Option<
    (&'a String, &'a SdpMedia),
>)
    ensures
        match r {
            Some((name, m)) => announcement(cache@, dst, port, 0) == Some((name@, m@)),
            None => announcement(cache@, dst, port, 0) is None,
        },
{
    let mut i: usize = 0;
    while i < cache.len()
        invariant
            i <= cache@.len(),
            announcement(cache@, dst, port, i as int) == announcement(cache@, dst, port, 0),
        decreases cache@.len() - i,
    {
        let s: &SdpSession = cache.value_at(i);
        if let Some(m) = find_media(s, dst, port) {
            return Some((&s.session_name, m));
        }
        i += 1;
    }
    None
}

/// The streams with one announced media applied to all that it is for.
pub open spec fn enriched_by(
    t: Seq<(Seq<char>, StreamView)>,
    m: SdpMediaView,
    name: Seq<char>,
) -> Seq<(Seq<char>, StreamView)> {
    t.map_values(
        |e: (Seq<char>, StreamView)|
            (
                e.0,
                if announces(m, e.1.dst_ip, e.1.dst_port) {
                    with_sdp(e.1, m, name)
                } else {
                    e.1
                },
            ),
    )
}

/// The streams with every announced media applied.
pub open spec fn enriched(
    t: Seq<(Seq<char>, StreamView)>,
    media: Seq<SdpMediaView>,
    name: Seq<char>,
) -> Seq<(Seq<char>, StreamView)>
    decreases media.len(),
{
    if media.len() == 0 {
        t
    } else {
        enriched_by(enriched(t, media.drop_last(), name), media.last(), name)
    }
}

fn enrich(t: &mut Table<String, StreamStats>, m: &SdpMedia, name: &str)
    ensures
        final(t)@ == enriched_by(old(t)@, m@, name@),
{
    let ghost all = t@;
    let ghost want = enriched_by(all, m@, name@);
    let mut i: usize = 0;
    while i < t.len()
        invariant
            i <= all.len(),
            t@.len() == all.len(),
            want == enriched_by(all, m@, name@),
            forall|j: int| 0 <= j < i ==> #[trigger] t@[j] == want[j],
            forall|j: int| i <= j < all.len() ==> #[trigger] t@[j] == all[j],
        decreases all.len() - i,
    {
        let s: &mut StreamStats = t.value_mut(i);
        if is_announced(m, s.dst_ip, s.dst_port) {
            s.apply_sdp(m, name);
        }
        i += 1;
    }
    assert(t@ =~= want);
}

/// Whether a group should be joined: a stream's group that is not joined yet.
pub open spec fn joinable(v: StateView, group: Ipv4Addr) -> bool {
    group.a == 239 && !v.joined_multicast.contains(group)
}

/// The state after a group was queued for joining.
pub open spec fn with_join(v: StateView, group: Ipv4Addr) -> StateView {
    if joinable(v, group) {
        StateView { pending_join_groups: v.pending_join_groups.push(group), ..v }
    } else {
        v
    }
}

/// The state after the groups of announced media were queued.
pub open spec fn with_joins(v: StateView, media: Seq<SdpMediaView>) -> StateView
    decreases media.len(),
{
    if media.len() == 0 {
        v
    } else {
        let w = with_joins(v, media.drop_last());
        match connection_address(media.last().connection) {
            Some(ip) => with_join(w, ip),
            None => w,
        }
    }
}

/// Whether any stream that carries packets has one of the announced ports.
pub open spec fn in_use<I>(streams: Seq<(I, StreamView)>, s: SdpSessionView) -> bool {
    exists|i: int, j: int|
        0 <= i < streams.len() && 0 <= j < s.media.len() && (#[trigger] streams[i]).1.dst_port == (
        #[trigger] s.media[j]).port && streams[i].1.packets > 0
}

/// The first announcement from `i` on that no stream uses.
pub open spec fn unused<I, J>(
    cache: Seq<(I, SdpSessionView)>,
    streams: Seq<(J, StreamView)>,
    i: int,
) -> Option<int>
    decreases cache.len() - i,
{
    if i < 0 || i >= cache.len() {
        None
    } else if !in_use(streams, cache[i].1) {
        Some(i)
    } else {
        unused(cache, streams, i + 1)
    }
}

/// Which announcement leaves when one more comes: one that no stream uses, else
/// the first.
pub open spec fn sdp_victim<I, J>(
    cache: Seq<(I, SdpSessionView)>,
    streams: Seq<(J, StreamView)>,
) -> int {
    match unused(cache, streams, 0) {
        Some(i) => i,
        None => 0,
    }
}

/// The announcements with one more. They stay bounded.
pub open spec fn cached(
    cache: Seq<(Seq<char>, SdpSessionView)>,
    streams: Seq<(Seq<char>, StreamView)>,
    s: SdpSessionView,
) -> Seq<(Seq<char>, SdpSessionView)> {
    if !holds(cache, s.session_id) && cache.len() >= MAX_SDP_SESSIONS {
        put(cache.remove(sdp_victim(cache, streams)), s.session_id, s)
    } else {
        put(cache, s.session_id, s)
    }
}

fn port_in_use(streams: &Table<String, StreamStats>, port: u16) -> (r: bool)
    ensures
        r == exists|i: int|
            0 <= i < streams@.len() && (#[trigger] streams@[i]).1.dst_port == port
                && streams@[i].1.packets > 0,
{
    let mut i: usize = 0;
    while i < streams.len()
        invariant
            i <= streams@.len(),
            forall|j: int|
                0 <= j < i ==> !((#[trigger] streams@[j]).1.dst_port == port
                    && streams@[j].1.packets > 0),
        decreases streams@.len() - i,
    {
        let s: &StreamStats = streams.value_at(i);
        if s.dst_port == port && s.packets > 0 {
            assert(streams@[i as int].1.dst_port == port);
            return true;
        }
        i += 1;
    }
    false
}

/// Whether any stream that carries packets has one of the announced ports.
pub fn session_in_use(streams: &Table<String, StreamStats>, s: &SdpSession) -> (r: bool)
    ensures
        r == in_use(streams@, s@),
{
    let mut k: usize = 0;
    while k < s.media.len()
        invariant
            k <= s.media@.len(),
            s@.media.len() == s.media@.len(),
            forall|i: int, j: int|
                0 <= i < streams@.len() && 0 <= j < k ==> !((#[trigger] streams@[i]).1.dst_port == (
                #[trigger] s@.media[j]).port && streams@[i].1.packets > 0),
        decreases s.media@.len() - k,
    {
        assert(s@.media[k as int].port == s.media@[k as int].port);
        if port_in_use(streams, s.media[k].port) {
            proof {
                let i = choose|i: int|
                    0 <= i < streams@.len() && (#[trigger] streams@[i]).1.dst_port
                        == s.media@[k as int].port && streams@[i].1.packets > 0;
                assert(streams@[i].1.dst_port == s@.media[k as int].port);
            }
            return true;
        }
        k += 1;
    }
    false
}

fn find_unused(cache: &Table<String, SdpSession>, streams: &Table<String, StreamStats>) -> (r: usize)
    requires
        cache@.len() > 0,
    ensures
        r == sdp_victim(cache@, streams@),
        r < cache@.len(),
{
    let mut i: usize = 0;
    while i < cache.len()
        invariant
            i <= cache@.len(),
            unused(cache@, streams@, i as int) == unused(cache@, streams@, 0),
        decreases cache@.len() - i,
    {
        if !session_in_use(streams, cache.value_at(i)) {
            return i;
        }
        i += 1;
    }
    0
}

/// The state after an announcement.
pub open spec fn sap_state(v: StateView, s: SdpSessionView) -> StateView {
    let streams = enriched(v.streams, s.media, s.session_name);
    let w = with_joins(StateView { streams, ..v }, s.media);
    StateView { sdp_cache: cached(w.sdp_cache, w.streams, s), ..w }
}

impl CaptureState {
    /// Queues a group for joining.
    pub fn queue_multicast_join(&mut self, group: Ipv4Addr)
        ensures
            final(self)@ == with_join(old(self)@, group),
    {
        if group.a == 239 && !self.joined_multicast.contains(&group) {
            self.pending_join_groups.push(group);
        }
    }

    /// Remembers an announcement.
    fn cache_sdp(&mut self, sdp: SdpSession)
        ensures
            final(self)@ == (StateView {
                sdp_cache: cached(old(self)@.sdp_cache, old(self)@.streams, sdp@),
                ..old(self)@
            }),
    {
        if !self.sdp_cache.contains_key(&sdp.session_id) && self.sdp_cache.len()
            >= MAX_SDP_SESSIONS {
            let victim: usize = find_unused(&self.sdp_cache, &self.streams);
            self.sdp_cache.remove_at(victim);
        }
        self.sdp_cache.insert(sdp.session_id.clone(), sdp);
    }

    /// An announcement: it names and describes the streams it is for, those that
    /// are there and those to come.
    pub fn handle_sap(&mut self, sdp: SdpSession)
        ensures
            final(self)@ == sap_state(old(self)@, sdp@),
    {
        let ghost v = self@;
        let ghost media = sdp@.media;
        let n: usize = sdp.media.len();
        let mut i: usize = 0;
        assert(media.take(0) =~= Seq::empty());
        while i < n
            invariant
                n == sdp.media@.len(),
                media == sdp@.media,
                i <= n,
                self@ == (StateView {
                    streams: enriched(v.streams, media.take(i as int), sdp@.session_name),
                    ..v
                }),
            decreases n - i,
        {
            assert(media.take(i + 1).drop_last() =~= media.take(i as int));
            assert(media[i as int] == sdp.media@[i as int]@);
            enrich(&mut self.streams, &sdp.media[i], sdp.session_name.as_str());
            i += 1;
        }
        assert(media.take(n as int) =~= media);
        let ghost w = self@;
        let mut k: usize = 0;
        while k < n
            invariant
                n == sdp.media@.len(),
                media == sdp@.media,
                k <= n,
                self@ == with_joins(w, media.take(k as int)),
            decreases n - k,
        {
            assert(media.take(k + 1).drop_last() =~= media.take(k as int));
            assert(media[k as int] == sdp.media@[k as int]@);
            if let Some(ip) = sdp.media[k].connection_ip() {
                self.queue_multicast_join(ip);
            }
            k += 1;
        }
        self.cache_sdp(sdp);
    }
}

// ── AVDECC ───────────────────────────────────────────────────────────────────

/// An entity by its announcement.
pub open spec fn entity(a: AvdeccAdp, now: u64) -> AvdeccEntity {
    AvdeccEntity {
        entity_id: a.entity_id,
        entity_model_id: a.entity_model_id,
        entity_capabilities: a.entity_capabilities,
        talker_stream_sources: a.talker_stream_sources,
        talker_capabilities: a.talker_capabilities,
        listener_stream_sinks: a.listener_stream_sinks,
        listener_capabilities: a.listener_capabilities,
        gptp_grandmaster_id: a.gptp_grandmaster_id,
        gptp_domain_number: a.gptp_domain_number,
        valid_time_secs: a.valid_time_secs,
        available_index: a.available_index,
        last_seen: now,
    }
}

/// The state after an announcement: one leaves, a query says nothing, and any
/// other announces.
pub open spec fn adp_state(v: StateView, a: AvdeccAdp, now: u64) -> StateView {
    if a.message_type == 1 {
        StateView {
            avb: AvbView {
                avdecc_entities: without(v.avb.avdecc_entities, a.entity_id@),
                ..v.avb
            },
            ..v
        }
    } else if a.message_type == 2 {
        v
    } else {
        StateView {
            avb: AvbView {
                avdecc_entities: put(v.avb.avdecc_entities, a.entity_id@, entity(a, now)),
                ..v.avb
            },
            ..v
        }
    }
}

/// How many streams an entity has, and of what media.
pub open spec fn streams_text(mark: Seq<char>, n: u16, caps: u16) -> Seq<char> {
    mark + dec(n as nat) + " ("@ + media_summary(caps) + ")"@
}

/// What an entity does.
pub open spec fn role_text(a: AvdeccAdp) -> Seq<char> {
    let talker = streams_text("T:"@, a.talker_stream_sources, a.talker_capabilities);
    let listener = streams_text("L:"@, a.listener_stream_sinks, a.listener_capabilities);
    if a.talker_stream_sources > 0 && a.listener_stream_sinks > 0 {
        talker + "  "@ + listener
    } else if a.talker_stream_sources > 0 {
        talker
    } else if a.listener_stream_sinks > 0 {
        listener
    } else {
        ""@
    }
}

/// The alerts of an announcement.
pub open spec fn adp_alerts(v: StateView, a: AvdeccAdp) -> Seq<AlertView> {
    let known = lookup(v.avb.avdecc_entities, a.entity_id@);
    if a.message_type == 1 {
        if known is Some {
            seq![info("➖ AVDECC entity departed: "@ + hex_colons(a.entity_id@))]
        } else {
            Seq::empty()
        }
    } else if a.message_type == 2 {
        Seq::empty()
    } else {
        match known {
            None => seq![
                info(
                    "📡 AVDECC entity discovered: "@ + hex_colons(a.entity_id@) + "  "@ + role_text(
                        a,
                    ) + "  "@ + sr_class(a.entity_capabilities) + (if has_aem(
                        a.entity_capabilities,
                    ) {
                        "  AEM"@
                    } else {
                        ""@
                    }),
                ),
            ],
            Some(e) => if e.available_index != a.available_index {
                seq![
                    info(
                        "ℹ AVDECC entity state changed: "@ + hex_colons(a.entity_id@) + " (index "@
                            + dec(a.available_index as nat) + ")"@,
                    ),
                ]
            } else {
                Seq::empty()
            },
        }
    }
}

/// How many streams an entity has, and of what media.
pub fn streams_of(mark: &str, n: u16, caps: u16) -> (s: String)
    ensures
        s@ == streams_text(mark@, n, caps),
{
    let mut s: String = String::from_str(mark);
    push_dec(&mut s, n as u64);
    s.append(" (");
    s.append(media_type_summary(caps));
    s.append(")");
    s
}

fn role_of(a: &AvdeccAdp) -> (s: String)
    ensures
        s@ == role_text(*a),
{
    let talker: String = streams_of("T:", a.talker_stream_sources, a.talker_capabilities);
    let listener: String = streams_of("L:", a.listener_stream_sinks, a.listener_capabilities);
    if a.talker_stream_sources > 0 && a.listener_stream_sinks > 0 {
        let mut s: String = talker;
        s.append("  ");
        s.append(listener.as_str());
        s
    } else if a.talker_stream_sources > 0 {
        talker
    } else if a.listener_stream_sinks > 0 {
        listener
    } else {
        String::from_str("")
    }
}

impl CaptureState {
    /// An AVDECC entity announces itself, changes or leaves.
    pub fn handle_avdecc_adp(&mut self, adp: AvdeccAdp, now: u64) -> (r: Vec<Alert>)
        ensures
            final(self)@ == adp_state(old(self)@, adp, now),
            views(r@) == adp_alerts(old(self)@, adp),
    {
        if adp.message_type == 1 {
            if self.avb.avdecc_entities.remove(&adp.entity_id) {
                let mut s: String = String::from_str("➖ AVDECC entity departed: ");
                push_eui64(&mut s, &adp.entity_id);
                return only(Alert::info(s));
            }
            return quiet();
        }
        if adp.message_type == 2 {
            return quiet();
        }
        let known: Option<u32> = match self.avb.avdecc_entities.get(&adp.entity_id) {
            Some(e) => Some(e.available_index),
            None => None,
        };
        self.avb.avdecc_entities.insert(
            adp.entity_id,
            AvdeccEntity {
                entity_id: adp.entity_id,
                entity_model_id: adp.entity_model_id,
                entity_capabilities: adp.entity_capabilities,
                talker_stream_sources: adp.talker_stream_sources,
                talker_capabilities: adp.talker_capabilities,
                listener_stream_sinks: adp.listener_stream_sinks,
                listener_capabilities: adp.listener_capabilities,
                gptp_grandmaster_id: adp.gptp_grandmaster_id,
                gptp_domain_number: adp.gptp_domain_number,
                valid_time_secs: adp.valid_time_secs,
                available_index: adp.available_index,
                last_seen: now,
            },
        );
        match known {
            None => {
                let mut s: String = String::from_str("📡 AVDECC entity discovered: ");
                push_eui64(&mut s, &adp.entity_id);
                s.append("  ");
                s.append(role_of(&adp).as_str());
                s.append("  ");
                s.append(sr_class_str(adp.entity_capabilities));
                s.append(
                    if adp.entity_capabilities / 8 % 2 == 1 {
                        "  AEM"
                    } else {
                        ""
                    },
                );
                only(Alert::info(s))
            },
            Some(index) => {
                if index != adp.available_index {
                    let mut s: String = String::from_str("ℹ AVDECC entity state changed: ");
                    push_eui64(&mut s, &adp.entity_id);
                    s.append(" (index ");
                    push_dec(&mut s, adp.available_index as u64);
                    s.append(")");
                    only(Alert::info(s))
                } else {
                    quiet()
                }
            },
        }
    }
}

// ── PTP ──────────────────────────────────────────────────────────────────────

/// The domain that a message is of, as it stands before the message.
pub open spec fn domain_of(v: StateView, m: PtpInfoView, now: u64) -> PtpStatsView {
    found_or(v.ptp.domains, (m.domain, m.version), fresh_domain(m.domain, m.version, now))
}

/// The state after a PTP message. Who asks a version 1 clock for its delay
/// follows it.
pub open spec fn ptp_state(v: StateView, m: PtpInfoView, now: u64) -> StateView {
    StateView {
        ptp: PtpStateView {
            v1_followers: match m.src_ip {
                Some(ip) => if m.version == PTP_VERSION_V1 && m.message_type == 1 {
                    put(v.ptp.v1_followers, ip, now)
                } else {
                    v.ptp.v1_followers
                },
                None => v.ptp.v1_followers,
            },
            domains: put(
                v.ptp.domains,
                (m.domain, m.version),
                domain_updated(domain_of(v, m, now), m, m.protocol_kind, now),
            ),
        },
        ..v
    }
}

/// An address in brackets behind two spaces.
pub open spec fn ip_note(ip: Option<Ipv4Addr>) -> Seq<char> {
    match ip {
        Some(ip) => "  ("@ + dotted(ip) + ")"@,
        None => Seq::empty(),
    }
}

/// The number and version of a domain, in an alert.
pub open spec fn domain_note(d: PtpStatsView) -> Seq<char> {
    dec(d.domain as nat) + " v"@ + dec(d.version as nat) + "): "@
}

/// The alerts of a PTP message.
pub open spec fn ptp_alerts(v: StateView, m: PtpInfoView, now: u64) -> Seq<AlertView> {
    let d = domain_of(v, m, now);
    match (clock_event(d, m), m.grandmaster_id) {
        (Some(PtpEventView::GrandmasterDetected), Some(gm)) => seq![
            good("✓  GRANDMASTER DETECTED (Domain "@ + domain_note(d) + gm + ip_note(m.src_ip)),
        ],
        (Some(PtpEventView::GrandmasterChanged { from }), Some(gm)) => seq![
            warn(
                "⚠️  GRANDMASTER CHANGED (Domain "@ + domain_note(d) + from + " → "@ + gm + ip_note(
                    m.src_ip,
                ),
            ),
        ],
        _ => Seq::empty(),
    }
}

fn push_domain_note(s: &mut String, domain: u8, version: u8)
    ensures
        final(s)@ == old(s)@ + (dec(domain as nat) + " v"@ + dec(version as nat) + "): "@),
{
    push_dec(s, domain as u64);
    s.append(" v");
    push_dec(s, version as u64);
    s.append("): ");
    assert(s@ =~= old(s)@ + (dec(domain as nat) + " v"@ + dec(version as nat) + "): "@));
}

/// Appends an address in brackets.
pub fn push_ip_note(s: &mut String, ip: Option<Ipv4Addr>)
    ensures
        final(s)@ == old(s)@ + ip_note(ip),
{
    if let Some(a) = ip {
        s.append("  (");
        push_ip(s, a);
        s.append(")");
    }
    assert(s@ =~= old(s)@ + ip_note(ip));
}

impl CaptureState {
    /// A PTP message: its domain is updated, and a new or another grandmaster is
    /// told of.
    pub fn handle_ptp(&mut self, info: PtpInfo, now: u64) -> (r: Vec<Alert>)
        requires
            has_magnitude(info@),
        ensures
            final(self)@ == ptp_state(old(self)@, info@, now),
            views(r@) == ptp_alerts(old(self)@, info@, now),
    {
        let ghost v = self@;
        let key: (u8, u8) = (info.domain, info.version);
        let i: usize = match self.ptp.domains.position(&key) {
            Some(i) => i,
            None => self.ptp.domains.push_new(
                key,
                PtpStats::new(info.domain, info.version, now),
            ),
        };
        let ghost base = domain_of(v, info@, now);
        assert(self.ptp.domains@[i as int] == (key, base));
        let d: &mut PtpStats = self.ptp.domains.value_mut(i);
        let domain: u8 = d.domain;
        let version: u8 = d.version;
        let e: Option<PtpEvent> = d.update(&info, &info.protocol_kind, now);
        assert(self.ptp.domains@ =~= put(
            v.ptp.domains,
            key,
            domain_updated(base, info@, info@.protocol_kind, now),
        ));
        if info.version == PTP_VERSION_V1 && info.message_type == 1 {
            if let Some(ip) = info.src_ip {
                self.ptp.v1_followers.insert(ip, now);
            }
        }
        match (e, &info.grandmaster_id) {
            (Some(PtpEvent::GrandmasterDetected), Some(gm)) => {
                let mut s: String = String::from_str("✓  GRANDMASTER DETECTED (Domain ");
                push_domain_note(&mut s, domain, version);
                s.append(gm.as_str());
                push_ip_note(&mut s, info.src_ip);
                only(Alert::good(s))
            },
            (Some(PtpEvent::GrandmasterChanged { from }), Some(gm)) => {
                let mut s: String = String::from_str("⚠️  GRANDMASTER CHANGED (Domain ");
                push_domain_note(&mut s, domain, version);
                s.append(from.as_str());
                s.append(" → ");
                s.append(gm.as_str());
                push_ip_note(&mut s, info.src_ip);
                only(Alert::warn(s))
            },
            _ => quiet(),
        }
    }
}

} // verus!
