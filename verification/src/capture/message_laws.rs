//! What each message changes in what is known, what it leaves, and what is told of it.

use vstd::prelude::*;

use crate::capture::alert::{good, info, warn};
use crate::capture::avb::AvbView;
use crate::capture::dispatch::{dispatched, frame_alerts, frame_state, opened, raised, wanted};
use crate::capture::flows::{avtp_after, flow_after, ndi_key, new_ndi, tcp_key};
use crate::capture::handlers::{cached, enriched, found_or, in_use, sdp_victim, unused, with_joins};
use crate::capture::igmp::IgmpStateView;
use crate::capture::link::{declared, registered, with_groups};
use crate::capture::ndi::{ndi_with, NdiView};
use crate::capture::state::StateView;
use crate::net::{dotted, Ipv4Addr};
use crate::parser::avdecc::{has_aem, media_summary, sr_class};
use crate::parser::sdp::connection_address;
use crate::parser::{protocol, untagged};
use crate::protocols::{failure_reason, selected, AvProtocolView, AvdeccAdp, FlowControlKind, IgmpTypeView, MsrpDeclaration, ProtocolChoice, PtpInfoView, SdpMediaView, SdpSessionView, TcpSegment};
use crate::stats::avtp::{fresh_avtp, stream_id_text, with_frame_seq, AvtpStreamStats};
use crate::stats::health::NetworkHealth;
use crate::stats::ptp::{domain_updated, fresh_domain};
use crate::stats::stream::{with_sdp, StreamView};
use crate::stats::tcp::{fresh_flow, TcpStreamStats};
use crate::table::{distinct, holds, lemma_put_lookup, lemma_slot, lemma_without_distinct, lookup, without};
use crate::text::{dec, hex2, hex_colons};

verus! {

// ── Frames ───────────────────────────────────────────────────────────────────

proof fn lemma_joins_only(v: StateView, media: Seq<SdpMediaView>)
    ensures
        with_joins(v, media) == (StateView {
            pending_join_groups: with_joins(v, media).pending_join_groups,
            ..v
        }),
    decreases media.len(),
{
    if media.len() > 0 {
        lemma_joins_only(v, media.drop_last());
    }
}

proof fn lemma_groups_only(v: StateView, groups: Seq<Ipv4Addr>)
    ensures
        with_groups(v, groups) == (StateView {
            pending_join_groups: with_groups(v, groups).pending_join_groups,
            ..v
        }),
    decreases groups.len(),
{
    if groups.len() > 0 {
        lemma_groups_only(v, groups.drop_last());
    }
}

proof fn lemma_messages_count_no_frames(
    v: StateView,
    q: AvProtocolView,
    p: Seq<u8>,
    pcp: Option<u8>,
    frame: u64,
    now: u64,
)
    ensures
        ({
            let w = dispatched(v, q, p, pcp, frame, now);
            &&& w.bytes_this_window == v.bytes_this_window
            &&& w.multicast_bytes_this_window == v.multicast_bytes_this_window
            &&& w.packets_dispatched == v.packets_dispatched
            &&& w.network_health.total_packets == v.network_health.total_packets
            &&& w.network_health.multicast_packets == v.network_health.multicast_packets
            &&& w.network_health.unicast_packets == v.network_health.unicast_packets
        }),
{
    match q {
        AvProtocolView::Sap { src, sdp } => {
            let streams = enriched(v.streams, sdp.media, sdp.session_name);
            lemma_joins_only(StateView { streams, ..v }, sdp.media);
        },
        AvProtocolView::Igmp { src, src_mac, group, igmp_type } => {
            if let IgmpTypeView::MembershipReportV3 { groups } = igmp_type {
                lemma_groups_only(v, groups);
            }
        },
        _ => {},
    }
}

/// Every frame counts with all of its bytes. An IP packet to a group, whose first number
/// is from 224 to 239, counts as multicast, and any other IP packet as unicast.
pub proof fn law_every_frame_counts(v: StateView, frame: Seq<u8>, expanded: Seq<ProtocolChoice>, now: u64)
    requires
        v.bytes_this_window + frame.len() <= u64::MAX,
        v.multicast_bytes_this_window + frame.len() <= u64::MAX,
        v.network_health.total_packets < u64::MAX,
        v.network_health.multicast_packets < u64::MAX,
        v.network_health.unicast_packets < u64::MAX,
        v.packets_dispatched < u64::MAX,
    ensures
        ({
            let w = frame_state(v, frame, expanded, now);
            let (et, pcp, p) = opened(frame);
            let ip = et == 0x0800 && p.len() >= 20;
            let group = ip && 224 <= p[16] <= 239;
            &&& w.bytes_this_window == v.bytes_this_window + frame.len()
            &&& w.packets_dispatched == v.packets_dispatched + 1
            &&& w.network_health.total_packets == v.network_health.total_packets + 1
            &&& w.multicast_bytes_this_window == v.multicast_bytes_this_window + (if group {
                frame.len()
            } else {
                0
            })
            &&& w.network_health.multicast_packets == v.network_health.multicast_packets + (if group {
                1int
            } else {
                0
            })
            &&& w.network_health.unicast_packets == v.network_health.unicast_packets + (if ip && !group {
                1int
            } else {
                0
            })
        }),
{
    let (et, pcp, p) = opened(frame);
    let a = StateView { packets_dispatched: v.packets_dispatched.wrapping_add(1), ..v };
    if let Some(q) = wanted(frame, expanded) {
        lemma_messages_count_no_frames(a, q, p, pcp, frame.len() as u64, now);
    }
}

// ── Announcements ────────────────────────────────────────────────────────────

/// A session that is announced can be looked up by its identifier.
pub proof fn law_sessions_are_kept(
    v: StateView,
    src: Ipv4Addr,
    s: SdpSessionView,
    p: Seq<u8>,
    pcp: Option<u8>,
    frame: u64,
    now: u64,
    other: Seq<char>,
)
    ensures
        ({
            let w = dispatched(v, AvProtocolView::Sap { src, sdp: s }, p, pcp, frame, now);
            &&& lookup(w.sdp_cache, s.session_id) == Some(s)
            &&& other != s.session_id && v.sdp_cache.len() < 1024 ==> lookup(w.sdp_cache, other) == lookup(
                v.sdp_cache,
                other,
            )
            &&& raised(v, AvProtocolView::Sap { src, sdp: s }, now).len() == 0
        }),
{
    let streams = enriched(v.streams, s.media, s.session_name);
    let u = with_joins(StateView { streams, ..v }, s.media);
    lemma_joins_only(StateView { streams, ..v }, s.media);
    lemma_put_lookup(u.sdp_cache, s.session_id, s, other);
    lemma_put_lookup(u.sdp_cache.remove(sdp_victim(u.sdp_cache, u.streams)), s.session_id, s, other);
}

/// With 1024 sessions known, a new one takes the place of the first that no stream with
/// packets uses, or of the first of all. A known one takes its own place.
pub proof fn law_unused_sessions_give_way(
    cache: Seq<(Seq<char>, SdpSessionView)>,
    streams: Seq<(Seq<char>, StreamView)>,
    s: SdpSessionView,
    i: int,
)
    requires
        cache.len() == 1024,
        0 <= i < 1024,
        lookup(cache, s.session_id) is None,
        !in_use(streams, cache[i].1) && (forall|j: int| 0 <= j < i ==> in_use(streams, (#[trigger] cache[j]).1))
            || i == 0 && (forall|j: int| 0 <= j < 1024 ==> in_use(streams, (#[trigger] cache[j]).1)),
    ensures
        cached(cache, streams, s).len() == 1024,
        cached(cache, streams, s) == cache.remove(i).push((s.session_id, s)),
{
    lemma_slot(cache, s.session_id, 0);
    if !in_use(streams, cache[i].1) {
        lemma_first_unused(cache, streams, 0, i);
    } else {
        lemma_none_unused(cache, streams, 0);
    }
    let rest = cache.remove(i);
    lemma_slot(rest, s.session_id, 0);
    if crate::table::slot(rest, s.session_id) is Some {
        let k = crate::table::slot(rest, s.session_id).unwrap();
        assert(rest[k].0 == s.session_id);
        if k < i {
            assert(cache[k] == rest[k]);
        } else {
            assert(cache[k + 1] == rest[k]);
        }
    }
}

proof fn lemma_first_unused(
    cache: Seq<(Seq<char>, SdpSessionView)>,
    streams: Seq<(Seq<char>, StreamView)>,
    from: int,
    i: int,
)
    requires
        0 <= from <= i < cache.len(),
        !in_use(streams, cache[i].1),
        forall|j: int| 0 <= j < i ==> in_use(streams, (#[trigger] cache[j]).1),
    ensures
        unused(cache, streams, from) == Some(i),
    decreases i - from,
{
    if from < i {
        assert(in_use(streams, cache[from].1));
        lemma_first_unused(cache, streams, from + 1, i);
    }
}

proof fn lemma_none_unused(
    cache: Seq<(Seq<char>, SdpSessionView)>,
    streams: Seq<(Seq<char>, StreamView)>,
    from: int,
)
    requires
        0 <= from <= cache.len(),
        forall|j: int| 0 <= j < cache.len() ==> in_use(streams, (#[trigger] cache[j]).1),
    ensures
        unused(cache, streams, from) is None,
    decreases cache.len() - from,
{
    if from < cache.len() {
        assert(in_use(streams, cache[from].1));
        lemma_none_unused(cache, streams, from + 1);
    }
}

/// A session is in use while a stream with packets goes to the port of one of its sections.
pub proof fn law_sessions_are_in_use(
    streams: Seq<(Seq<char>, StreamView)>,
    s: SdpSessionView,
    i: int,
    j: int,
)
    requires
        0 <= i < streams.len(),
        0 <= j < s.media.len(),
    ensures
        streams[i].1.dst_port == s.media[j].port && streams[i].1.packets > 0 ==> in_use(streams, s),
        (forall|k: int| 0 <= k < streams.len() ==> (#[trigger] streams[k]).1.packets == 0) ==> !in_use(
            streams,
            s,
        ),
{
}

/// A section of an announcement tells of every stream that goes to its port, and to its
/// group unless it names none, and of no other.
pub proof fn law_announced_streams(
    v: StateView,
    src: Ipv4Addr,
    s: SdpSessionView,
    m: SdpMediaView,
    p: Seq<u8>,
    pcp: Option<u8>,
    frame: u64,
    now: u64,
    i: int,
)
    requires
        s.media == seq![m],
        0 <= i < v.streams.len(),
    ensures
        ({
            let w = dispatched(v, AvProtocolView::Sap { src, sdp: s }, p, pcp, frame, now);
            let t = v.streams[i].1;
            let ip = connection_address(m.connection);
            let meant = t.dst_port == m.port && (ip is None || t.dst_ip == ip);
            &&& w.streams.len() == v.streams.len()
            &&& w.streams[i].0 == v.streams[i].0
            &&& meant ==> w.streams[i].1 == with_sdp(t, m, s.session_name)
            &&& !meant ==> w.streams[i].1 == t
        }),
{
    let streams = enriched(v.streams, s.media, s.session_name);
    lemma_joins_only(StateView { streams, ..v }, s.media);
    reveal_with_fuel(enriched, 2);
    assert(s.media.drop_last() =~= Seq::empty());
    assert(s.media.last() == m);
}

/// Sections tell of streams one after the other.
pub proof fn law_sections_tell_in_turn(
    t: Seq<(Seq<char>, StreamView)>,
    media: Seq<SdpMediaView>,
    m: SdpMediaView,
    name: Seq<char>,
)
    ensures
        enriched(t, media.push(m), name) == enriched(enriched(t, media, name), seq![m], name),
        enriched(t, Seq::empty(), name) == t,
{
    assert(media.push(m).drop_last() =~= media);
    reveal_with_fuel(enriched, 2);
    assert(seq![m].drop_last() =~= Seq::empty());
}

/// The group of each section is to be joined where it is in 239.0.0.0/8 and not joined
/// yet. Nothing that waited to be joined is forgotten.
pub proof fn law_announced_groups_are_joined(v: StateView, media: Seq<SdpMediaView>, i: int, g: Ipv4Addr)
    requires
        0 <= i < media.len(),
        connection_address(media[i].connection) == Some(g),
    ensures
        g.a == 239 && !v.joined_multicast.contains(g) ==> with_joins(v, media).pending_join_groups.contains(
            g,
        ),
        g.a != 239 || v.joined_multicast.contains(g) ==> (v.pending_join_groups.contains(g)
            == with_joins(v, media).pending_join_groups.contains(g)),
    decreases media.len(),
{
    lemma_joins_grow(v, media, g);
    lemma_joins_only(v, media.drop_last());
    let before = with_joins(v, media.drop_last());
    let after = with_joins(v, media);
    if i < media.len() - 1 {
        law_announced_groups_are_joined(v, media.drop_last(), i, g);
        if before.pending_join_groups.contains(g) {
            let k = choose|k: int|
                0 <= k < before.pending_join_groups.len() && before.pending_join_groups[k] == g;
            assert(after.pending_join_groups[k] == g);
        }
    } else if g.a == 239 && !v.joined_multicast.contains(g) {
        assert(after.pending_join_groups == before.pending_join_groups.push(g));
        assert(after.pending_join_groups.last() == g);
    }
}

proof fn lemma_joins_grow(v: StateView, media: Seq<SdpMediaView>, g: Ipv4Addr)
    ensures
        g.a != 239 || v.joined_multicast.contains(g) ==> (v.pending_join_groups.contains(g)
            == with_joins(v, media).pending_join_groups.contains(g)),
        v.pending_join_groups.len() <= with_joins(v, media).pending_join_groups.len(),
        with_joins(v, media).pending_join_groups.take(v.pending_join_groups.len() as int)
            == v.pending_join_groups,
    decreases media.len(),
{
    let n = v.pending_join_groups.len() as int;
    if media.len() > 0 {
        lemma_joins_grow(v, media.drop_last(), g);
        lemma_joins_only(v, media.drop_last());
        let a = with_joins(v, media.drop_last()).pending_join_groups;
        let b = with_joins(v, media).pending_join_groups;
        if let Some(ip) = connection_address(media.last().connection) {
            if ip.a == 239 && !v.joined_multicast.contains(ip) {
                assert(b == a.push(ip));
                assert(b.take(n) =~= a.take(n));
                if a.contains(g) {
                    let k = choose|k: int| 0 <= k < a.len() && a[k] == g;
                    assert(b[k] == g);
                }
                if b.contains(g) && g != ip {
                    let k = choose|k: int| 0 <= k < b.len() && b[k] == g;
                    assert(a[k] == g);
                }
            }
        }
    } else {
        assert(v.pending_join_groups.take(n) =~= v.pending_join_groups);
    }
}

/// Announced groups that wait to be joined are the announced ones, behind those that
/// waited before.
pub proof fn law_waiting_groups_are_kept(v: StateView, media: Seq<SdpMediaView>)
    ensures
        with_joins(v, media).pending_join_groups.len() >= v.pending_join_groups.len(),
        with_joins(v, media).pending_join_groups.take(v.pending_join_groups.len() as int)
            == v.pending_join_groups,
        media.len() == 0 ==> with_joins(v, media) == v,
{
    lemma_joins_grow(v, media, Ipv4Addr { a: 0, b: 0, c: 0, d: 0 });
}

// ── AVDECC ───────────────────────────────────────────────────────────────────

/// An entity that is available becomes known, one that departs is forgotten, and a
/// question changes nothing. Other entities stay.
pub proof fn law_entities_come_and_go(
    v: StateView,
    a: AvdeccAdp,
    p: Seq<u8>,
    pcp: Option<u8>,
    frame: u64,
    now: u64,
    other: Seq<u8>,
)
    requires
        distinct(v.avb.avdecc_entities),
    ensures
        ({
            let w = dispatched(v, AvProtocolView::AvdeccAdp(a), p, pcp, frame, now);
            &&& a.message_type == 1 ==> lookup(w.avb.avdecc_entities, a.entity_id@) is None
            &&& a.message_type == 2 ==> w == v
            &&& a.message_type != 1 && a.message_type != 2 ==> (lookup(
                w.avb.avdecc_entities,
                a.entity_id@,
            ) matches Some(e) && {
                &&& e.entity_id == a.entity_id && e.entity_model_id == a.entity_model_id
                &&& e.entity_capabilities == a.entity_capabilities
                &&& e.talker_stream_sources == a.talker_stream_sources && e.talker_capabilities
                    == a.talker_capabilities
                &&& e.listener_stream_sinks == a.listener_stream_sinks && e.listener_capabilities
                    == a.listener_capabilities
                &&& e.gptp_grandmaster_id == a.gptp_grandmaster_id && e.gptp_domain_number
                    == a.gptp_domain_number
                &&& e.valid_time_secs == a.valid_time_secs && e.available_index == a.available_index
                &&& e.last_seen == now
            })
            &&& a.message_type != 1 && other != a.entity_id@ ==> lookup(w.avb.avdecc_entities, other)
                == lookup(v.avb.avdecc_entities, other)
            &&& w == (StateView {
                avb: AvbView { avdecc_entities: w.avb.avdecc_entities, ..v.avb },
                ..v
            })
        }),
{
    lemma_put_lookup(
        v.avb.avdecc_entities,
        a.entity_id@,
        crate::capture::handlers::entity(a, now),
        other,
    );
    lemma_without_distinct(v.avb.avdecc_entities, a.entity_id@);
    lemma_slot(without(v.avb.avdecc_entities, a.entity_id@), a.entity_id@, 0);
}

/// An entity that departs takes no other with it.
pub proof fn law_departure_takes_one<M>(t: Seq<(Seq<u8>, M)>, id: Seq<u8>, other: Seq<u8>)
    requires
        distinct(t),
        other != id,
    ensures
        lookup(without(t, id), other) == lookup(t, other),
{
    lemma_without_others(t, id, other);
}

proof fn lemma_without_others<I, M>(t: Seq<(I, M)>, id: I, other: I)
    requires
        distinct(t),
        other != id,
    ensures
        lookup(without(t, id), other) == lookup(t, other),
{
    let u = without(t, id);
    lemma_slot(t, id, 0);
    lemma_slot(t, other, 0);
    lemma_slot(u, other, 0);
    lemma_without_distinct(t, id);
    if let Some(k) = crate::table::slot(t, id) {
        if let Some(j) = crate::table::slot(t, other) {
            let at = if j < k {
                j
            } else {
                j - 1
            };
            assert(u[at] == t[j]);
            crate::table::lemma_slot_from(u, other, 0, at);
        } else if let Some(j) = crate::table::slot(u, other) {
            let at = if j < k {
                j
            } else {
                j + 1
            };
            assert(u[j] == t[at]);
        }
    }
}

/// A new entity is told of with what it sends and receives; a known one only where its
/// state changed, and where it departs. A question is not told of.
pub proof fn law_entities_are_told_of(v: StateView, a: AvdeccAdp, now: u64)
    ensures
        ({
            let r = raised(v, AvProtocolView::AvdeccAdp(a), now);
            let known = lookup(v.avb.avdecc_entities, a.entity_id@);
            let id = hex_colons(a.entity_id@);
            let t = "T:"@ + dec(a.talker_stream_sources as nat) + " ("@ + media_summary(
                a.talker_capabilities,
            ) + ")"@;
            let l = "L:"@ + dec(a.listener_stream_sinks as nat) + " ("@ + media_summary(
                a.listener_capabilities,
            ) + ")"@;
            let role = if a.talker_stream_sources > 0 && a.listener_stream_sinks > 0 {
                t + "  "@ + l
            } else if a.talker_stream_sources > 0 {
                t
            } else if a.listener_stream_sinks > 0 {
                l
            } else {
                ""@
            };
            let aem = if has_aem(a.entity_capabilities) {
                "  AEM"@
            } else {
                ""@
            };
            &&& a.message_type == 1 && known is None ==> r.len() == 0
            &&& a.message_type == 1 && known is Some ==> r == seq![
                info("➖ AVDECC entity departed: "@ + id),
            ]
            &&& a.message_type == 2 ==> r.len() == 0
            &&& a.message_type != 1 && a.message_type != 2 && known is None ==> r == seq![
                info(
                    "📡 AVDECC entity discovered: "@ + id + "  "@ + role + "  "@ + sr_class(
                        a.entity_capabilities,
                    ) + aem,
                ),
            ]
            &&& a.message_type != 1 && a.message_type != 2 && known is Some ==> (if a.available_index
                == known.unwrap().available_index {
                r.len() == 0
            } else {
                r == seq![
                    info(
                        "ℹ AVDECC entity state changed: "@ + id + " (index "@ + dec(
                            a.available_index as nat,
                        ) + ")"@,
                    ),
                ]
            })
        }),
{
}

// ── PTP ──────────────────────────────────────────────────────────────────────

/// A clock message concerns the domain of its number and version, which it makes known,
/// and no other. A version 1 Delay_Req makes its sender a follower.
pub proof fn law_clock_messages(
    v: StateView,
    m: PtpInfoView,
    p: Seq<u8>,
    pcp: Option<u8>,
    frame: u64,
    now: u64,
    other: (u8, u8),
    ip: Ipv4Addr,
)
    ensures
        ({
            let w = dispatched(v, AvProtocolView::Ptp { info: m }, p, pcp, frame, now);
            let k = (m.domain, m.version);
            &&& lookup(v.ptp.domains, k) matches Some(d) ==> lookup(w.ptp.domains, k) == Some(
                domain_updated(d, m, m.protocol_kind, now),
            )
            &&& lookup(v.ptp.domains, k) is None ==> lookup(w.ptp.domains, k) == Some(
                domain_updated(
                    fresh_domain(m.domain, m.version, now),
                    m,
                    m.protocol_kind,
                    now,
                ),
            )
            &&& other != k ==> lookup(w.ptp.domains, other) == lookup(v.ptp.domains, other)
            &&& m.version == 1 && m.message_type == 1 && m.src_ip == Some(ip) ==> lookup(
                w.ptp.v1_followers,
                ip,
            ) == Some(now)
            &&& m.version != 1 || m.message_type != 1 || m.src_ip != Some(ip) ==> lookup(
                w.ptp.v1_followers,
                ip,
            ) == lookup(v.ptp.v1_followers, ip)
            &&& w == (StateView { ptp: w.ptp, ..v })
        }),
{
    let d = crate::capture::handlers::domain_of(v, m, now);
    lemma_put_lookup(
        v.ptp.domains,
        (m.domain, m.version),
        domain_updated(d, m, m.protocol_kind, now),
        other,
    );
    if let Some(src) = m.src_ip {
        lemma_put_lookup(v.ptp.v1_followers, src, now, ip);
    }
}

/// A grandmaster is told of when a domain has its first, and when it has another than
/// before.
pub proof fn law_grandmasters_are_told_of(v: StateView, m: PtpInfoView, now: u64)
    ensures
        ({
            let r = raised(v, AvProtocolView::Ptp { info: m }, now);
            let d = lookup(v.ptp.domains, (m.domain, m.version));
            let before = if d is Some {
                d.unwrap().last_grandmaster
            } else {
                None
            };
            let sender = match m.src_ip {
                Some(ip) => "  ("@ + dotted(ip) + ")"@,
                None => Seq::empty(),
            };
            m.grandmaster_id is Some && (d is Some ==> d.unwrap().domain == m.domain && d.unwrap().version
                == m.version) ==> {
                let gm = m.grandmaster_id.unwrap();
                let at = dec(m.domain as nat) + " v"@ + dec(m.version as nat) + "): "@;
                &&& before is None ==> r == seq![
                    good("✓  GRANDMASTER DETECTED (Domain "@ + at + gm + sender),
                ]
                &&& before is Some && before.unwrap() == gm ==> r.len() == 0
                &&& before is Some && before.unwrap() != gm ==> r == seq![
                    warn(
                        "⚠️  GRANDMASTER CHANGED (Domain "@ + at + before.unwrap() + " → "@ + gm + sender,
                    ),
                ]
            }
        }),
        m.grandmaster_id is None ==> raised(v, AvProtocolView::Ptp { info: m }, now).len() == 0,
{
}

// ── NDI and TCP ──────────────────────────────────────────────────────────────

/// An NDI source becomes known with its name and is told of every time. Our own
/// addresses are no sources.
pub proof fn law_sources_are_found(
    v: StateView,
    name: Option<Seq<char>>,
    src: Ipv4Addr,
    p: Seq<u8>,
    pcp: Option<u8>,
    frame: u64,
    now: u64,
)
    requires
        v.ndi.sources.len() < 4096,
    ensures
        ({
            let q = AvProtocolView::Ndi { source_name: name, src };
            let w = dispatched(v, q, p, pcp, frame, now);
            &&& v.local_ips.contains(src) ==> w == v && raised(v, q, now).len() == 0
            &&& !v.local_ips.contains(src) ==> {
                &&& w.ndi.sources.contains(src)
                &&& name is Some ==> lookup(w.ndi.names, src) == name
                &&& name is None ==> w.ndi.names == v.ndi.names
                &&& w == (StateView { ndi: w.ndi, ..v })
                &&& raised(v, q, now) == seq![
                    info(
                        "🔍 NDI source: "@ + dotted(src) + "  \""@ + (if name is Some {
                            name.unwrap()
                        } else {
                            "unknown source"@
                        }) + "\""@,
                    ),
                ]
            }
        }),
{
    crate::capture::ndi::law_sources_stay_bounded(v.ndi.sources, src);
    if let Some(n) = name {
        lemma_put_lookup(v.ndi.names, src, n, src);
    }
}

/// A segment is NDI's where a port of it is from 5960 to 5980, or an end of it is a known
/// source. Others change nothing.
pub proof fn law_segments_of_ndi(v: StateView, t: TcpSegment, p: Seq<u8>, pcp: Option<u8>, frame: u64, now: u64)
    ensures
        ({
            let w = dispatched(v, AvProtocolView::Tcp(t), p, pcp, frame, now);
            let mine = 5960 <= t.src_port <= 5980 || 5960 <= t.dst_port <= 5980
                || v.ndi.sources.contains(t.src) || v.ndi.sources.contains(t.dst);
            let key = "TCP "@ + (dotted(t.src) + ":"@ + dec(t.src_port as nat)) + " → "@ + (dotted(t.dst)
                + ":"@ + dec(t.dst_port as nat));
            &&& !mine ==> w == v
            &&& mine ==> lookup(w.tcp_streams, key) is Some
            &&& raised(v, AvProtocolView::Tcp(t), now).len() == 0
        }),
{
    let f = found_or(v.tcp_streams, tcp_key(t), fresh_flow(t.src, t.dst, now));
    lemma_put_lookup(v.tcp_streams, tcp_key(t), flow_after(f, t, frame, now), tcp_key(t));
}

/// A segment of a known flow counts with its bytes but for the headers of forty, and by
/// its flags. It repeats what was sent where its number is behind the highest, unless it
/// begins the connection or is one of the first two.
pub proof fn law_segments_are_counted(
    v: StateView,
    t: TcpSegment,
    p: Seq<u8>,
    pcp: Option<u8>,
    frame: u64,
    now: u64,
    f: TcpStreamStats,
    other: Seq<char>,
)
    requires
        5960 <= t.dst_port <= 5980,
        lookup(
            v.tcp_streams,
            "TCP "@ + (dotted(t.src) + ":"@ + dec(t.src_port as nat)) + " → "@ + (dotted(t.dst) + ":"@
                + dec(t.dst_port as nat)),
        ) == Some(f),
        f.packets < u64::MAX,
        f.bytes + frame <= u64::MAX,
        f.retransmissions < u64::MAX,
        f.fin_packets < u64::MAX,
        f.rst_packets < u64::MAX,
        v.network_health.tcp_retransmissions < u64::MAX - 1,
    ensures
        ({
            let key = "TCP "@ + (dotted(t.src) + ":"@ + dec(t.src_port as nat)) + " → "@ + (dotted(t.dst)
                + ":"@ + dec(t.dst_port as nat));
            let w = dispatched(v, AvProtocolView::Tcp(t), p, pcp, frame, now);
            let ahead = match f.last_seq {
                Some(last) => if t.seq >= last {
                    t.seq - last
                } else {
                    t.seq - last + 0x1_0000_0000
                },
                None => 0,
            };
            let repeated = f.last_seq is Some && !t.has_syn && ahead >= 0x8000_0000 && f.packets >= 2;
            let one = |c: bool|
                if c {
                    1int
                } else {
                    0
                };
            &&& lookup(w.tcp_streams, key) matches Some(g) && {
                &&& g.packets == f.packets + 1
                &&& g.bytes == f.bytes + (if frame >= 40 {
                    frame - 40
                } else {
                    0
                })
                &&& g.fin_packets == f.fin_packets + one(t.has_fin)
                &&& g.rst_packets == f.rst_packets + one(t.has_rst)
                &&& g.retransmissions == f.retransmissions + one(repeated)
                &&& g.last_seen == now && g.last_ack == Some(t.ack)
                &&& f.last_seq is None ==> g.last_seq == Some(t.seq)
                &&& f.last_seq is Some && 0 < ahead < 0x8000_0000 ==> g.last_seq == Some(t.seq)
                &&& f.last_seq is Some && (ahead == 0 || ahead >= 0x8000_0000) ==> g.last_seq
                    == f.last_seq
                &&& g.src_ip == f.src_ip && g.dst_ip == f.dst_ip
            }
            &&& w.network_health == (NetworkHealth {
                tcp_retransmissions: (v.network_health.tcp_retransmissions + one(t.has_rst) + one(
                    repeated,
                )) as u64,
                ..v.network_health
            })
            &&& other != key ==> lookup(w.tcp_streams, other) == lookup(v.tcp_streams, other)
        }),
{
    let key = tcp_key(t);
    lemma_put_lookup(v.tcp_streams, key, flow_after(f, t, frame, now), other);
}

/// A segment of a known source, its sender before its receiver, counts as a packet of that
/// source; one of ports alone counts for none.
pub proof fn law_segments_count_for_their_source(
    v: StateView,
    t: TcpSegment,
    p: Seq<u8>,
    pcp: Option<u8>,
    frame: u64,
    now: u64,
    ip: Ipv4Addr,
)
    requires
        v.ndi.sources.contains(ip),
        ip == t.src || ip == t.dst && !v.ndi.sources.contains(t.src),
    ensures
        ({
            let w = dispatched(v, AvProtocolView::Tcp(t), p, pcp, frame, now);
            let key = "NDI "@ + dotted(ip);
            &&& lookup(w.streams, key) matches Some(s) && s.last_packet_time == Some(now)
            &&& lookup(v.streams, key) matches Some(s) ==> lookup(w.streams, key) == Some(
                StreamView {
                    packets: s.packets.wrapping_add(1),
                    last_packet_time: Some(now),
                    ..s
                },
            )
            &&& lookup(v.streams, key) is None ==> {
                let s = lookup(w.streams, key).unwrap();
                s.packets == 1 && s.protocol == "NDI"@ && s.dst_ip == Some(ip) && s.sdp_name == lookup(
                    v.ndi.names,
                    ip,
                )
            }
        }),
{
    let s = found_or(v.streams, ndi_key(ip), new_ndi(v, ip, now));
    lemma_put_lookup(
        v.streams,
        ndi_key(ip),
        StreamView { packets: s.packets.wrapping_add(1), last_packet_time: Some(now), ..s },
        ndi_key(ip),
    );
}

/// A segment of no known source is no packet of a stream.
pub proof fn law_segments_of_nobody(
    v: StateView,
    t: TcpSegment,
    p: Seq<u8>,
    pcp: Option<u8>,
    frame: u64,
    now: u64,
)
    ensures
        !v.ndi.sources.contains(t.src) && !v.ndi.sources.contains(t.dst) ==> dispatched(
            v,
            AvProtocolView::Tcp(t),
            p,
            pcp,
            frame,
            now,
        ).streams == v.streams,
{
}

// ── AVB ──────────────────────────────────────────────────────────────────────

/// A frame of a known AVB stream counts, and counts against it where its priority is
/// known to be another than reserved. A frame without an identifier changes nothing.
pub proof fn law_avb_frames(
    v: StateView,
    subtype: u8,
    id: [u8; 8],
    seq: Option<u8>,
    p: Seq<u8>,
    pcp: Option<u8>,
    frame: u64,
    now: u64,
    s: AvtpStreamStats,
)
    requires
        lookup(v.avb.avtp_streams, id@) == Some(s),
        s.packets < u64::MAX,
        s.pcp_violations < u64::MAX,
        s.bytes_total + frame <= u64::MAX,
    ensures
        ({
            let q = AvProtocolView::Avb { subtype, stream_id: Some(id), seq };
            let w = dispatched(v, q, p, pcp, frame, now);
            let reserved = match lookup(v.avb.msrp_state, id@) {
                Some(d) => d.priority,
                None => None,
            };
            let wrong = pcp is Some && reserved is Some && pcp != reserved;
            &&& lookup(w.avb.avtp_streams, id@) matches Some(t) && {
                &&& t.packets == s.packets + 1 && t.last_seen == now
                &&& t.bytes_total == s.bytes_total + frame
                &&& t.pcp_violations == s.pcp_violations + (if wrong {
                    1int
                } else {
                    0
                })
                &&& wrong ==> t.msrp_declared_pcp == reserved
                &&& wrong && s.observed_pcp is None ==> t.observed_pcp == pcp
                &&& !wrong || s.observed_pcp is Some ==> t.observed_pcp == s.observed_pcp
                &&& seq is Some ==> t.last_seq == seq
                &&& seq is None ==> t.last_seq == s.last_seq && t.lost_frames == s.lost_frames
                &&& seq is Some ==> t.lost_frames == with_frame_seq(s, seq.unwrap()).lost_frames
                &&& t.subtype == s.subtype && t.stream_id == s.stream_id
            }
            &&& w == (StateView { avb: AvbView { avtp_streams: w.avb.avtp_streams, ..v.avb }, ..v })
            &&& raised(v, q, now).len() == 0
        }),
        dispatched(
            v,
            AvProtocolView::Avb { subtype, stream_id: None, seq },
            p,
            pcp,
            frame,
            now,
        ) == v,
{
    let reserved = crate::capture::flows::reserved_priority(v.avb.msrp_state, id@);
    lemma_put_lookup(
        v.avb.avtp_streams,
        id@,
        avtp_after(s, frame, seq, pcp, reserved, now),
        id@,
    );
}

/// The first frame of a stream makes it known, with its subtype.
pub proof fn law_avb_streams_are_entered(
    v: StateView,
    subtype: u8,
    id: [u8; 8],
    seq: Option<u8>,
    p: Seq<u8>,
    pcp: Option<u8>,
    frame: u64,
    now: u64,
)
    requires
        lookup(v.avb.avtp_streams, id@) is None,
    ensures
        lookup(
            dispatched(
                v,
                AvProtocolView::Avb { subtype, stream_id: Some(id), seq },
                p,
                pcp,
                frame,
                now,
            ).avb.avtp_streams,
            id@,
        ) matches Some(t) && t.packets == 1 && t.subtype == subtype && t.stream_id == id && t.lost_frames
            == 0 && t.bytes_total == frame,
{
    let reserved = crate::capture::flows::reserved_priority(v.avb.msrp_state, id@);
    lemma_put_lookup(
        v.avb.avtp_streams,
        id@,
        avtp_after(fresh_avtp(id, subtype, now), frame, seq, pcp, reserved, now),
        id@,
    );
}

/// The last declaration of a stream is the one that holds, and streams without any stay as
/// they were declared.
pub proof fn law_declarations_hold(
    v: StateView,
    d: Seq<MsrpDeclaration>,
    last: MsrpDeclaration,
    p: Seq<u8>,
    pcp: Option<u8>,
    frame: u64,
    now: u64,
    other: Seq<u8>,
)
    ensures
        ({
            let w = dispatched(
                v,
                AvProtocolView::Msrp { declarations: d.push(last) },
                p,
                pcp,
                frame,
                now,
            );
            let u = dispatched(v, AvProtocolView::Msrp { declarations: d }, p, pcp, frame, now);
            &&& lookup(w.avb.msrp_state, last.stream_id@) == Some(last)
            &&& other != last.stream_id@ ==> lookup(w.avb.msrp_state, other) == lookup(
                u.avb.msrp_state,
                other,
            )
            &&& dispatched(
                v,
                AvProtocolView::Msrp { declarations: Seq::empty() },
                p,
                pcp,
                frame,
                now,
            ) == v
            &&& w == (StateView { avb: AvbView { msrp_state: w.avb.msrp_state, ..v.avb }, ..v })
        }),
{
    assert(d.push(last).drop_last() =~= d);
    lemma_put_lookup(declared(v.avb.msrp_state, d), last.stream_id@, last, other);
}

/// Each failed talker is told of, with why, and no other declaration.
pub proof fn law_failed_talkers_are_told_of(v: StateView, d: Seq<MsrpDeclaration>, last: MsrpDeclaration, now: u64)
    ensures
        ({
            let r = raised(v, AvProtocolView::Msrp { declarations: d.push(last) }, now);
            let before = raised(v, AvProtocolView::Msrp { declarations: d }, now);
            let why = match last.failure_code {
                Some(c) => " (code "@ + dec(c as nat) + ": "@ + failure_reason(c) + ")"@,
                None => Seq::empty(),
            };
            &&& last.decl_type is TalkerFailed ==> r == before.push(
                warn("⚠  MSRP Talker Failed: "@ + stream_id_text(last.stream_id@) + why),
            )
            &&& !(last.decl_type is TalkerFailed) ==> r == before
            &&& raised(v, AvProtocolView::Msrp { declarations: Seq::empty() }, now).len() == 0
        }),
{
    assert(d.push(last).drop_last() =~= d);
}

/// Each VLAN that is registered is known from then on, and told of once.
pub proof fn law_registered_vlans(
    v: StateView,
    ids: Seq<u16>,
    last: u16,
    p: Seq<u8>,
    pcp: Option<u8>,
    frame: u64,
    now: u64,
)
    ensures
        ({
            let w = dispatched(v, AvProtocolView::Mvrp { vlan_ids: ids.push(last) }, p, pcp, frame, now);
            let u = dispatched(v, AvProtocolView::Mvrp { vlan_ids: ids }, p, pcp, frame, now);
            let r = raised(v, AvProtocolView::Mvrp { vlan_ids: ids.push(last) }, now);
            let before = raised(v, AvProtocolView::Mvrp { vlan_ids: ids }, now);
            &&& u.avb.mvrp_vlans.contains(last) ==> w == u && r == before
            &&& !u.avb.mvrp_vlans.contains(last) ==> w.avb.mvrp_vlans == u.avb.mvrp_vlans.push(last) && r
                == before.push(info("🔖 MVRP: VLAN "@ + dec(last as nat) + " registered"@))
            &&& dispatched(v, AvProtocolView::Mvrp { vlan_ids: Seq::empty() }, p, pcp, frame, now) == v
            &&& raised(v, AvProtocolView::Mvrp { vlan_ids: Seq::empty() }, now).len() == 0
        }),
{
    assert(ids.push(last).drop_last() =~= ids);
}

// ── Links ────────────────────────────────────────────────────────────────────

/// A port that saves energy is kept with its wake times, and told of the first time.
pub proof fn law_saving_ports(
    v: StateView,
    chassis: Seq<char>,
    port: Seq<char>,
    tx: u16,
    rx: u16,
    p: Seq<u8>,
    pcp: Option<u8>,
    frame: u64,
    now: u64,
    other: (Seq<char>, Seq<char>),
)
    ensures
        ({
            let q = AvProtocolView::LldpEee {
                chassis_id: chassis,
                port_id: port,
                tx_wake_us: tx,
                rx_wake_us: rx,
            };
            let w = dispatched(v, q, p, pcp, frame, now);
            &&& lookup(w.eee_ports, (chassis, port)) == Some((tx, rx))
            &&& other != (chassis, port) ==> lookup(w.eee_ports, other) == lookup(v.eee_ports, other)
            &&& lookup(v.eee_ports, (chassis, port)) is Some ==> raised(v, q, now).len() == 0
            &&& lookup(v.eee_ports, (chassis, port)) is None ==> raised(v, q, now) == seq![
                warn(
                    "⚠  EEE active on switch port \""@ + port + "\" (chassis "@ + chassis
                        + ")  —  Tx wake: "@ + dec(tx as nat) + "µs  Rx wake: "@ + dec(rx as nat)
                        + "µs  —  disable EEE for AV reliability"@,
                ),
            ]
            &&& w == (StateView { eee_ports: w.eee_ports, ..v })
        }),
{
    lemma_put_lookup(v.eee_ports, (chassis, port), (tx, rx), other);
    lemma_slot(v.eee_ports, (chassis, port), 0);
}

/// Pauses of a link and pauses of a priority are counted apart.
pub proof fn law_pauses_are_counted(v: StateView, p: Seq<u8>, pcp: Option<u8>, frame: u64, now: u64)
    requires
        v.pause_frames_this_window < u64::MAX,
        v.pfc_frames_this_window < u64::MAX,
    ensures
        dispatched(
            v,
            AvProtocolView::FlowControl { kind: FlowControlKind::Pause },
            p,
            pcp,
            frame,
            now,
        ) == (StateView {
            pause_frames_this_window: (v.pause_frames_this_window + 1) as u64,
            ..v
        }),
        dispatched(
            v,
            AvProtocolView::FlowControl { kind: FlowControlKind::PriorityFlowControl },
            p,
            pcp,
            frame,
            now,
        ) == (StateView { pfc_frames_this_window: (v.pfc_frames_this_window + 1) as u64, ..v }),
{
}

/// A join is remembered, by host and group, with when it was seen.
pub proof fn law_joins_are_remembered(
    v: StateView,
    src: Ipv4Addr,
    mac: [u8; 6],
    group: Ipv4Addr,
    p: Seq<u8>,
    pcp: Option<u8>,
    frame: u64,
    now: u64,
    other: (Ipv4Addr, Ipv4Addr),
)
    ensures
        ({
            let join = AvProtocolView::Igmp { src, src_mac: mac, group, igmp_type: IgmpTypeView::Join };
            let w = dispatched(v, join, p, pcp, frame, now);
            &&& lookup(w.igmp.joins_seen, (src, group)) == Some(now)
            &&& other != (src, group) ==> lookup(w.igmp.joins_seen, other) == lookup(
                v.igmp.joins_seen,
                other,
            )
            &&& w == (StateView {
                igmp: IgmpStateView { joins_seen: w.igmp.joins_seen, ..v.igmp },
                ..v
            })
        }),
{
    lemma_put_lookup(v.igmp.joins_seen, (src, group), now, other);
}

/// A leave makes the join forgotten, and no other join.
pub proof fn law_leaves_are_heeded(
    v: StateView,
    src: Ipv4Addr,
    mac: [u8; 6],
    group: Ipv4Addr,
    p: Seq<u8>,
    pcp: Option<u8>,
    frame: u64,
    now: u64,
    other: (Ipv4Addr, Ipv4Addr),
)
    requires
        distinct(v.igmp.joins_seen),
    ensures
        ({
            let leave = AvProtocolView::Igmp { src, src_mac: mac, group, igmp_type: IgmpTypeView::Leave };
            let w = dispatched(v, leave, p, pcp, frame, now);
            &&& lookup(w.igmp.joins_seen, (src, group)) is None
            &&& other != (src, group) ==> lookup(w.igmp.joins_seen, other) == lookup(
                v.igmp.joins_seen,
                other,
            )
            &&& w == (StateView {
                igmp: IgmpStateView { joins_seen: w.igmp.joins_seen, ..v.igmp },
                ..v
            })
        }),
{
    lemma_without_distinct(v.igmp.joins_seen, (src, group));
    lemma_slot(without(v.igmp.joins_seen, (src, group)), (src, group), 0);
    if other != (src, group) {
        lemma_without_others(v.igmp.joins_seen, (src, group), other);
    }
}

/// A host that joins is told of once, and one that leaves always; a stream that goes to
/// the group is warned of.
pub proof fn law_joins_and_leaves_are_told_of(
    v: StateView,
    src: Ipv4Addr,
    mac: [u8; 6],
    group: Ipv4Addr,
    now: u64,
)
    ensures
        ({
            let join = AvProtocolView::Igmp { src, src_mac: mac, group, igmp_type: IgmpTypeView::Join };
            let leave = AvProtocolView::Igmp { src, src_mac: mac, group, igmp_type: IgmpTypeView::Leave };
            let who = dotted(src) + " → group "@ + dotted(group);
            let watched = exists|i: int|
                0 <= i < v.streams.len() && (#[trigger] v.streams[i]).1.dst_ip == Some(group);
            &&& holds(v.igmp.joins_seen, (src, group)) ==> raised(v, join, now).len() == 0
            &&& !holds(v.igmp.joins_seen, (src, group)) ==> raised(v, join, now) == seq![
                info("➕ IGMP Join: "@ + who),
            ]
            &&& !watched ==> raised(v, leave, now) == seq![info("➖ IGMP Leave: "@ + who)]
            &&& watched ==> raised(v, leave, now) == seq![
                info("➖ IGMP Leave: "@ + who),
                warn("    ⚠  IGMP Leave on monitored group "@ + dotted(group)),
            ]
        }),
{
}

/// A query to 224.0.0.1 makes its sender the querier, with its version, and the time since
/// the query before is the time between queries. A query to a group makes none.
pub proof fn law_queries(
    v: StateView,
    src: Ipv4Addr,
    mac: [u8; 6],
    group: Ipv4Addr,
    version: u8,
    p: Seq<u8>,
    pcp: Option<u8>,
    frame: u64,
    now: u64,
)
    ensures
        ({
            let q = AvProtocolView::Igmp {
                src,
                src_mac: mac,
                group,
                igmp_type: IgmpTypeView::Query { version },
            };
            let w = dispatched(v, q, p, pcp, frame, now);
            let h = w.network_health;
            let everyone = group == (Ipv4Addr { a: 224, b: 0, c: 0, d: 1 });
            let told = "❓ IGMP General Query (v"@ + dec(version as nat) + "): "@ + dotted(src);
            let group_told = "❓ IGMP Group-Specific Query (v"@ + dec(version as nat) + "): "@ + (dotted(src)
                + " → group "@ + dotted(group));
            &&& !everyone ==> w == v && raised(v, q, now) == seq![info(group_told)]
            &&& everyone ==> {
                &&& raised(v, q, now) == seq![info(told)]
                &&& h.last_igmp_query == Some(now) && h.igmp_querier_ip == Some(src) && h.igmp_querier_mac
                    == Some(mac)
                &&& v.network_health.last_igmp_query is None ==> h.igmp_query_interval_secs
                    == v.network_health.igmp_query_interval_secs
                &&& v.network_health.last_igmp_query matches Some(last) ==> (last <= now
                    ==> (h.igmp_query_interval_secs matches Some(n) && n * 1_000_000_000 <= now - last < (n
                    + 1) * 1_000_000_000))
                &&& w.igmp.querier_ips_this_window.contains(src)
                &&& w.igmp.querier_version == Some(version)
                &&& w.igmp.joins_seen == v.igmp.joins_seen && w.igmp.v3_report_seen_this_window
                    == v.igmp.v3_report_seen_this_window
                &&& h.ecn_congestion_marks == v.network_health.ecn_congestion_marks
                    && h.tcp_retransmissions == v.network_health.tcp_retransmissions
                    && h.multiple_queriers_this_window == v.network_health.multiple_queriers_this_window
            }
        }),
{
    let s = v.igmp.querier_ips_this_window;
    if !s.contains(src) {
        assert(s.push(src)[s.len() as int] == src);
    }
}

/// A report of version 3 is noted; each of its groups in 239.0.0.0/8 that is not joined
/// yet is to be joined. It is not told of.
pub proof fn law_reports(
    v: StateView,
    src: Ipv4Addr,
    mac: [u8; 6],
    group: Ipv4Addr,
    groups: Seq<Ipv4Addr>,
    p: Seq<u8>,
    pcp: Option<u8>,
    frame: u64,
    now: u64,
    i: int,
)
    requires
        0 <= i < groups.len(),
    ensures
        ({
            let q = AvProtocolView::Igmp {
                src,
                src_mac: mac,
                group,
                igmp_type: IgmpTypeView::MembershipReportV3 { groups },
            };
            let w = dispatched(v, q, p, pcp, frame, now);
            let g = groups[i];
            &&& w.igmp.v3_report_seen_this_window
            &&& g.a == 239 && !v.joined_multicast.contains(g) ==> w.pending_join_groups.contains(g)
            &&& g.a != 239 || v.joined_multicast.contains(g) ==> w.pending_join_groups.contains(g)
                == v.pending_join_groups.contains(g)
            &&& w.joined_multicast == v.joined_multicast && w.igmp.joins_seen == v.igmp.joins_seen
            &&& raised(v, q, now).len() == 0
        }),
{
    lemma_groups_only(v, groups);
    lemma_groups_join(v, groups, i, groups[i]);
}

proof fn lemma_groups_join(v: StateView, groups: Seq<Ipv4Addr>, i: int, g: Ipv4Addr)
    requires
        i < groups.len(),
    ensures
        0 <= i && groups[i] == g && g.a == 239 && !v.joined_multicast.contains(g) ==> with_groups(
            v,
            groups,
        ).pending_join_groups.contains(g),
        g.a != 239 || v.joined_multicast.contains(g) ==> with_groups(
            v,
            groups,
        ).pending_join_groups.contains(g) == v.pending_join_groups.contains(g),
    decreases groups.len(),
{
    if groups.len() > 0 {
        let rest = groups.drop_last();
        lemma_groups_only(v, rest);
        lemma_groups_join(
            v,
            rest,
            if i < rest.len() {
                i
            } else {
                -1
            },
            g,
        );
        let a = with_groups(v, rest).pending_join_groups;
        let b = with_groups(v, groups).pending_join_groups;
        let x = groups.last();
        if x.a == 239 && !v.joined_multicast.contains(x) {
            assert(b == a.push(x));
            assert(b[a.len() as int] == x);
            if a.contains(g) {
                let k = choose|k: int| 0 <= k < a.len() && a[k] == g;
                assert(b[k] == g);
            }
            if b.contains(g) && g != x {
                let k = choose|k: int| 0 <= k < b.len() && b[k] == g;
                assert(a[k] == g);
            }
        }
    }
}

/// Another message of IGMP is told of by its number, and changes nothing.
pub proof fn law_unknown_group_messages(
    v: StateView,
    src: Ipv4Addr,
    mac: [u8; 6],
    group: Ipv4Addr,
    n: u8,
    p: Seq<u8>,
    pcp: Option<u8>,
    frame: u64,
    now: u64,
)
    ensures
        ({
            let q = AvProtocolView::Igmp {
                src,
                src_mac: mac,
                group,
                igmp_type: IgmpTypeView::Unknown(n),
            };
            &&& dispatched(v, q, p, pcp, frame, now) == v
            &&& raised(v, q, now) == seq![
                info(
                    "❔ IGMP Unknown(0x"@ + hex2(n) + "): "@ + (dotted(src) + " → group "@ + dotted(
                        group,
                    )),
                ),
            ]
        }),
{
}

/// A frame that is detected and chosen is handed on with all that is known of it: its
/// payload, its priority and its length. What it tells of is told.
pub proof fn law_chosen_frames_are_handed_on(
    v: StateView,
    frame: Seq<u8>,
    e: Seq<ProtocolChoice>,
    now: u64,
    et: u16,
    pcp: Option<u8>,
    p: Seq<u8>,
    q: AvProtocolView,
)
    requires
        untagged(frame) == Some((et, pcp, p)),
        protocol(frame, et, p) == Some(q),
    ensures
        ({
            let counted = StateView { packets_dispatched: v.packets_dispatched.wrapping_add(1), ..v };
            let w = frame_state(v, frame, e, now);
            let d = if selected(q, e) {
                dispatched(counted, q, p, pcp, frame.len() as u64, now)
            } else {
                counted
            };
            &&& selected(q, e) ==> frame_alerts(v, frame, e, now) == raised(v, q, now)
            &&& !selected(q, e) ==> frame_alerts(v, frame, e, now).len() == 0
            &&& w == (StateView {
                bytes_this_window: w.bytes_this_window,
                multicast_bytes_this_window: w.multicast_bytes_this_window,
                network_health: w.network_health,
                ..d
            })
        }),
{
}

/// A frame that cannot be opened, or that nothing is detected in, is only counted.
pub proof fn law_other_frames_are_only_counted(v: StateView, frame: Seq<u8>, e: Seq<ProtocolChoice>, now: u64)
    requires
        match untagged(frame) {
            Some((et, pcp, p)) => protocol(frame, et, p) is None,
            None => true,
        },
    ensures
        frame_alerts(v, frame, e, now).len() == 0,
        ({
            let w = frame_state(v, frame, e, now);
            w == (StateView {
                bytes_this_window: w.bytes_this_window,
                multicast_bytes_this_window: w.multicast_bytes_this_window,
                network_health: w.network_health,
                packets_dispatched: w.packets_dispatched,
                ..v
            })
        }),
{
}

/// Where there are 4096 NDI sources, the one known longest gives way to a new one, with its
/// name.
pub proof fn law_the_oldest_source_gives_way(v: NdiView, name: Option<Seq<char>>, src: Ipv4Addr)
    requires
        v.sources.len() == 4096,
        v.sources.no_duplicates(),
        !v.sources.contains(src),
        distinct(v.names),
    ensures
        ({
            let w = ndi_with(v, src, name);
            &&& w.sources == v.sources.skip(1).push(src)
            &&& lookup(w.names, v.sources[0]) is None
            &&& name is Some ==> lookup(w.names, src) == name
        }),
{
    let s = v.sources;
    let oldest = s[0];
    assert(s.remove(0) =~= s.skip(1));
    assert(!s.skip(1).contains(src)) by {
        if s.skip(1).contains(src) {
            let i = choose|i: int| 0 <= i < s.skip(1).len() && s.skip(1)[i] == src;
            assert(s[i + 1] == src);
        }
    }
    assert(s.contains(oldest));
    lemma_without_distinct(v.names, oldest);
    lemma_slot(without(v.names, oldest), oldest, 0);
    if let Some(n) = name {
        lemma_put_lookup(without(v.names, oldest), src, n, oldest);
    }
}

} // verus!
