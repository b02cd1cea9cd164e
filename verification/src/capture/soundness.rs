//! What holds of a state whatever packets came in: nothing is kept twice, what
//! could grow without end is bounded, and every name belongs to a known device.

use vstd::prelude::*;

use crate::capture::avb::{avb_reset, live_avtp, within, AvbView, STREAM_PRUNE_SECS};
use crate::capture::checks::{all_rated, ended, judged};
use crate::capture::dante::{aged, dante_with, live_conmon, windows_of, DanteView, CONMON_PRUNE_SECS};
use crate::capture::dispatch::{dispatched, frame_state, opened, wanted};
use crate::capture::flows::{ndi_key, ndi_sender, tcp_key};
use crate::capture::handlers::{cached, enriched, enriched_by, entity, sap_state, sdp_victim, unused, with_joins, MAX_SDP_SESSIONS};
use crate::capture::igmp::{IgmpStateView, IGMP_JOIN_DEDUP_TTL_SECS};
use crate::capture::link::{declared, igmp_state, registered, with_groups};
use crate::capture::media::{aes67_key, dante_key, flows_named, monitored, st2110_key};
use crate::capture::ndi::{evicted, sources_with, spared, NdiView, MAX_SOURCES};
use crate::capture::ptp::{domains_checked, domains_reset, PtpStateView, FOLLOWER_SECS};
use crate::capture::state::{all_reset, flow_kept, fresh_state, live_streams, state_reset, stream_kept, StateView};
use crate::net::Ipv4Addr;
use crate::protocols::{AvProtocolView, DanteKindView, IgmpTypeView, MsrpDeclaration, ProtocolChoice, SdpMediaView, SdpSessionView, TransmitterClass, SECOND};
use crate::stats::avtp::{AvdeccEntity, AvtpStreamStats, ConmonDevice};
use crate::stats::ptp::PtpStatsView;
use crate::stats::stream::{since, StreamView};
use crate::stats::tcp::TcpStreamStats;
use crate::table::{distinct, holds, lemma_filter_distinct, lemma_put_distinct, lemma_slot, lemma_without_distinct, put, slot, with, without};

verus! {

/// Whether every entry is under a known address.
pub open spec fn all_known<M>(t: Seq<(Ipv4Addr, M)>, known: Seq<Ipv4Addr>) -> bool {
    forall|i: int| 0 <= i < t.len() ==> known.contains((#[trigger] t[i]).0)
}

/// Dante devices: none twice, boundedly many, and names and kinds only of them.
pub open spec fn sound_dante(v: DanteView) -> bool {
    &&& v.sources.no_duplicates()
    &&& v.sources.len() <= MAX_SOURCES
    &&& distinct(v.names)
    &&& all_known(v.names, v.sources)
    &&& distinct(v.conmon)
    &&& distinct(v.unverified_windows)
    &&& distinct(v.transmitter_class)
    &&& all_known(v.transmitter_class, v.sources)
}

/// NDI senders: none twice, boundedly many, and names only of them.
pub open spec fn sound_ndi(v: NdiView) -> bool {
    &&& v.sources.no_duplicates()
    &&& v.sources.len() <= MAX_SOURCES
    &&& distinct(v.names)
    &&& all_known(v.names, v.sources)
}

/// IGMP: no join and no querier twice.
pub open spec fn sound_igmp(v: IgmpStateView) -> bool {
    distinct(v.joins_seen) && v.querier_ips_this_window.no_duplicates()
}

/// AVB: no stream, reservation, VLAN or entity twice.
pub open spec fn sound_avb(v: AvbView) -> bool {
    &&& distinct(v.avtp_streams)
    &&& distinct(v.msrp_state)
    &&& v.mvrp_vlans.no_duplicates()
    &&& distinct(v.avdecc_entities)
}

/// PTP: no domain and no follower twice.
pub open spec fn sound_ptp(v: PtpStateView) -> bool {
    distinct(v.domains) && distinct(v.v1_followers)
}

/// A state that holds nothing twice and nothing without bound that has one.
pub open spec fn sound(v: StateView) -> bool {
    &&& distinct(v.streams)
    &&& distinct(v.tcp_streams)
    &&& distinct(v.sdp_cache)
    &&& v.sdp_cache.len() <= MAX_SDP_SESSIONS
    &&& sound_dante(v.dante)
    &&& sound_ndi(v.ndi)
    &&& sound_igmp(v.igmp)
    &&& sound_avb(v.avb)
    &&& sound_ptp(v.ptp)
    &&& distinct(v.eee_ports)
    &&& v.joined_multicast.no_duplicates()
    &&& v.stream_count_history.len() <= 3
}

// ── Tables and sets ──────────────────────────────────────────────────────────

proof fn lemma_same_keys<I, M, N>(s: Seq<(I, M)>, t: Seq<(I, N)>)
    requires
        distinct(s),
        s.len() == t.len(),
        forall|i: int| 0 <= i < s.len() ==> (#[trigger] t[i]).0 == s[i].0,
    ensures
        distinct(t),
{
    assert forall|i: int, j: int| 0 <= i < j < t.len() implies (#[trigger] t[i]).0 != (
    #[trigger] t[j]).0 by {
        assert(s[i].0 != s[j].0);
    }
}

proof fn lemma_with_once<I>(s: Seq<I>, x: I)
    requires
        s.no_duplicates(),
    ensures
        with(s, x).no_duplicates(),
        with(s, x).contains(x),
        forall|y: I| s.contains(y) ==> with(s, x).contains(y),
{
    if !s.contains(x) {
        let t = s.push(x);
        assert(t[s.len() as int] == x);
        assert forall|y: I| s.contains(y) implies t.contains(y) by {
            let k = choose|k: int| 0 <= k < s.len() && s[k] == y;
            assert(t[k] == y);
        }
    }
}

proof fn lemma_remove_distinct<I, M>(s: Seq<(I, M)>, k: int)
    requires
        distinct(s),
        0 <= k < s.len(),
    ensures
        distinct(s.remove(k)),
{
    let t = s.remove(k);
    assert forall|i: int, j: int| 0 <= i < j < t.len() implies (#[trigger] t[i]).0 != (
    #[trigger] t[j]).0 by {
        let a = if i < k {
            i
        } else {
            i + 1
        };
        let b = if j < k {
            j
        } else {
            j + 1
        };
        assert(t[i] == s[a] && t[j] == s[b]);
    }
}

proof fn lemma_sources(s: Seq<Ipv4Addr>, ip: Ipv4Addr)
    requires
        s.no_duplicates(),
        s.len() <= MAX_SOURCES,
    ensures
        sources_with(s, ip).no_duplicates(),
        sources_with(s, ip).len() <= MAX_SOURCES,
        sources_with(s, ip).contains(ip),
        forall|y: Ipv4Addr|
            s.contains(y) && Some(y) != evicted(s, ip) ==> sources_with(s, ip).contains(y),
{
    if evicted(s, ip) is Some {
        let r = s.remove(0);
        assert forall|i: int, j: int| 0 <= i < r.len() && 0 <= j < r.len() && i != j implies r[i]
            != r[j] by {
            assert(r[i] == s[i + 1] && r[j] == s[j + 1]);
        }
        assert forall|y: Ipv4Addr| s.contains(y) && y != s[0] implies r.contains(y) by {
            let k = choose|k: int| 0 <= k < s.len() && s[k] == y;
            assert(r[k - 1] == y);
        }
        lemma_with_once(r, ip);
    } else {
        lemma_with_once(s, ip);
    }
}

proof fn lemma_spared<M>(t: Seq<(Ipv4Addr, M)>, s: Seq<Ipv4Addr>, ip: Ipv4Addr)
    requires
        distinct(t),
        all_known(t, s),
        s.no_duplicates(),
        s.len() <= MAX_SOURCES,
    ensures
        distinct(spared(t, evicted(s, ip))),
        all_known(spared(t, evicted(s, ip)), sources_with(s, ip)),
{
    lemma_sources(s, ip);
    match evicted(s, ip) {
        None => {
            assert forall|i: int| 0 <= i < t.len() implies sources_with(s, ip).contains(
                (#[trigger] t[i]).0,
            ) by {
                assert(s.contains(t[i].0));
            }
        },
        Some(gone) => {
            lemma_without_distinct(t, gone);
            let u = without(t, gone);
            lemma_slot(t, gone, 0);
            lemma_slot(u, gone, 0);
            assert forall|i: int| 0 <= i < u.len() implies sources_with(s, ip).contains(
                (#[trigger] u[i]).0,
            ) by {
                assert(u[i].0 != gone);
                match slot(t, gone) {
                    Some(k) => {
                        let a = if i < k {
                            i
                        } else {
                            i + 1
                        };
                        assert(u[i] == t[a]);
                        assert(s.contains(t[a].0));
                    },
                    None => {
                        assert(s.contains(t[i].0));
                    },
                }
            }
        },
    }
}

proof fn lemma_put_known<M>(t: Seq<(Ipv4Addr, M)>, s: Seq<Ipv4Addr>, ip: Ipv4Addr, m: M)
    requires
        distinct(t),
        all_known(t, s),
        s.contains(ip),
    ensures
        distinct(put(t, ip, m)),
        all_known(put(t, ip, m), s),
{
    lemma_put_distinct(t, ip, m);
    lemma_slot(t, ip, 0);
    let u = put(t, ip, m);
    assert forall|i: int| 0 <= i < u.len() implies s.contains((#[trigger] u[i]).0) by {
        if i < t.len() {
            assert(s.contains(t[i].0));
        }
    }
}

// ── One step after another ───────────────────────────────────────────────────

proof fn lemma_dante_with(v: DanteView, ip: Ipv4Addr, name: Option<Seq<char>>)
    requires
        sound_dante(v),
    ensures
        sound_dante(dante_with(v, ip, name)),
        dante_with(v, ip, name).sources.contains(ip),
{
    lemma_sources(v.sources, ip);
    lemma_spared(v.names, v.sources, ip);
    lemma_spared(v.transmitter_class, v.sources, ip);
    if let Some(n) = name {
        lemma_put_known(spared(v.names, evicted(v.sources, ip)), sources_with(v.sources, ip), ip, n);
    }
}

proof fn lemma_enriched(t: Seq<(Seq<char>, StreamView)>, media: Seq<SdpMediaView>, name: Seq<char>)
    requires
        distinct(t),
    ensures
        distinct(enriched(t, media, name)),
    decreases media.len(),
{
    if media.len() > 0 {
        lemma_enriched(t, media.drop_last(), name);
        let s = enriched(t, media.drop_last(), name);
        lemma_same_keys(s, enriched_by(s, media.last(), name));
    }
}

proof fn lemma_joins(v: StateView, media: Seq<SdpMediaView>)
    ensures
        with_joins(v, media) == (StateView {
            pending_join_groups: with_joins(v, media).pending_join_groups,
            ..v
        }),
    decreases media.len(),
{
    if media.len() > 0 {
        lemma_joins(v, media.drop_last());
    }
}

proof fn lemma_groups(v: StateView, groups: Seq<Ipv4Addr>)
    ensures
        with_groups(v, groups) == (StateView {
            pending_join_groups: with_groups(v, groups).pending_join_groups,
            ..v
        }),
    decreases groups.len(),
{
    if groups.len() > 0 {
        lemma_groups(v, groups.drop_last());
    }
}

proof fn lemma_unused(
    cache: Seq<(Seq<char>, SdpSessionView)>,
    streams: Seq<(Seq<char>, StreamView)>,
    from: int,
)
    requires
        0 <= from,
    ensures
        unused(cache, streams, from) matches Some(i) ==> 0 <= i < cache.len(),
    decreases cache.len() - from,
{
    if from < cache.len() {
        lemma_unused(cache, streams, from + 1);
    }
}

proof fn lemma_put_len<I, M>(s: Seq<(I, M)>, id: I, m: M)
    ensures
        put(s, id, m).len() <= s.len() + 1,
        holds(s, id) ==> put(s, id, m).len() == s.len(),
{
    lemma_slot(s, id, 0);
}

proof fn lemma_cached(
    cache: Seq<(Seq<char>, SdpSessionView)>,
    streams: Seq<(Seq<char>, StreamView)>,
    s: SdpSessionView,
)
    requires
        distinct(cache),
        cache.len() <= MAX_SDP_SESSIONS,
    ensures
        distinct(cached(cache, streams, s)),
        cached(cache, streams, s).len() <= MAX_SDP_SESSIONS,
{
    if !holds(cache, s.session_id) && cache.len() >= MAX_SDP_SESSIONS {
        lemma_unused(cache, streams, 0);
        let k = sdp_victim(cache, streams);
        lemma_remove_distinct(cache, k);
        lemma_put_distinct(cache.remove(k), s.session_id, s);
        lemma_put_len(cache.remove(k), s.session_id, s);
    } else {
        lemma_put_distinct(cache, s.session_id, s);
        lemma_put_len(cache, s.session_id, s);
    }
}

proof fn lemma_sap(v: StateView, s: SdpSessionView)
    requires
        sound(v),
    ensures
        sound(sap_state(v, s)),
{
    let streams = enriched(v.streams, s.media, s.session_name);
    lemma_enriched(v.streams, s.media, s.session_name);
    lemma_joins(StateView { streams, ..v }, s.media);
    lemma_cached(v.sdp_cache, streams, s);
}

proof fn lemma_dante_step(
    v: StateView,
    p: AvProtocolView,
    l2: Seq<u8>,
    pcp: Option<u8>,
    frame: u64,
    now: u64,
)
    requires
        sound(v),
        p is Dante,
    ensures
        sound(dispatched(v, p, l2, pcp, frame, now)),
{
    if let AvProtocolView::Dante { kind, src, dst, dst_port } = p {
        match kind {
            DanteKindView::Discovery { device_name } => {
                lemma_dante_with(v.dante, src, device_name);
                if let Some(n) = device_name {
                    lemma_same_keys(v.streams, flows_named(v.streams, src, n));
                }
            },
            DanteKindView::ConMon { device_mac, channels } => {
                let m = monitored(
                    v.dante.conmon,
                    src,
                    device_mac,
                    channels,
                    now,
                );
                lemma_put_distinct(v.dante.conmon, src, m);
                let d = DanteView { conmon: put(v.dante.conmon, src, m), ..v.dante };
                lemma_dante_with(d, src, None);
                let e = dante_with(d, src, None);
                lemma_put_known(
                    e.transmitter_class,
                    e.sources,
                    src,
                    TransmitterClass::Hardware,
                );
            },
            DanteKindView::ControlPlane { class } => {
                lemma_dante_with(v.dante, src, None);
                let e = dante_with(v.dante, src, None);
                lemma_put_known(e.transmitter_class, e.sources, src, class);
            },
            DanteKindView::Control => {},
            DanteKindView::AudioStream => {
                let key = dante_key(src, dst, dst_port);
                let w = dispatched(v, p, l2, pcp, frame, now);
                let k = choose|m: StreamView| w.streams == put(v.streams, key, m);
                lemma_put_distinct(v.streams, key, k);
            },
        }
    }
}

proof fn lemma_registered(s: Seq<u16>, ids: Seq<u16>)
    requires
        s.no_duplicates(),
    ensures
        registered(s, ids).no_duplicates(),
    decreases ids.len(),
{
    if ids.len() > 0 {
        lemma_registered(s, ids.drop_last());
        lemma_with_once(registered(s, ids.drop_last()), ids.last());
    }
}

proof fn lemma_declared(t: Seq<(Seq<u8>, MsrpDeclaration)>, d: Seq<MsrpDeclaration>)
    requires
        distinct(t),
    ensures
        distinct(declared(t, d)),
    decreases d.len(),
{
    if d.len() > 0 {
        lemma_declared(t, d.drop_last());
        lemma_put_distinct(declared(t, d.drop_last()), d.last().stream_id@, d.last());
    }
}

proof fn lemma_igmp_step(
    v: StateView,
    src: Ipv4Addr,
    mac: [u8; 6],
    group: Ipv4Addr,
    t: IgmpTypeView,
    now: u64,
)
    requires
        sound(v),
    ensures
        sound(igmp_state(v, src, mac, group, t, now)),
{
    match t {
        IgmpTypeView::Join => {
            lemma_put_distinct(v.igmp.joins_seen, (src, group), now);
        },
        IgmpTypeView::Leave => {
            lemma_without_distinct(v.igmp.joins_seen, (src, group));
        },
        IgmpTypeView::MembershipReportV3 { groups } => {
            lemma_groups(v, groups);
        },
        IgmpTypeView::Query { version } => {
            lemma_with_once(v.igmp.querier_ips_this_window, src);
        },
        IgmpTypeView::Unknown(_) => {},
    }
}

proof fn lemma_step(
    v: StateView,
    p: AvProtocolView,
    l2: Seq<u8>,
    pcp: Option<u8>,
    frame: u64,
    now: u64,
)
    requires
        sound(v),
    ensures
        sound(dispatched(v, p, l2, pcp, frame, now)),
{
    let w = dispatched(v, p, l2, pcp, frame, now);
    match p {
        AvProtocolView::Sap { src, sdp } => {
            lemma_sap(v, sdp);
        },
        AvProtocolView::Ptp { info } => {
            if let Some(ip) = info.src_ip {
                lemma_put_distinct(v.ptp.v1_followers, ip, now);
            }
            let id = (info.domain, info.version);
            let m = choose|m: PtpStatsView|
                w.ptp.domains == put(v.ptp.domains, id, m);
            lemma_put_distinct(v.ptp.domains, id, m);
        },
        AvProtocolView::Aes67 { src, dst, dst_port, payload_type } => {
            let id = aes67_key(dst, dst_port);
            let m = choose|m: StreamView| w.streams == put(v.streams, id, m);
            lemma_put_distinct(v.streams, id, m);
        },
        AvProtocolView::St2110 { src, dst, dst_port, stream_type } => {
            let id = st2110_key(stream_type, dst, dst_port);
            let m = choose|m: StreamView| w.streams == put(v.streams, id, m);
            lemma_put_distinct(v.streams, id, m);
        },
        AvProtocolView::Dante { kind, src, dst, dst_port } => {
            lemma_dante_step(v, p, l2, pcp, frame, now);
        },
        AvProtocolView::Ndi { source_name, src } => {
            lemma_sources(v.ndi.sources, src);
            lemma_spared(v.ndi.names, v.ndi.sources, src);
            if let Some(n) = source_name {
                lemma_put_known(
                    spared(v.ndi.names, evicted(v.ndi.sources, src)),
                    sources_with(v.ndi.sources, src),
                    src,
                    n,
                );
            }
        },
        AvProtocolView::AvdeccAdp(a) => {
            lemma_without_distinct(v.avb.avdecc_entities, a.entity_id@);
            lemma_put_distinct(
                v.avb.avdecc_entities,
                a.entity_id@,
                entity(a, now),
            );
        },
        AvProtocolView::Avb { subtype, stream_id, seq } => {
            if let Some(sid) = stream_id {
                let m = choose|m: AvtpStreamStats|
                    w.avb.avtp_streams == put(v.avb.avtp_streams, sid@, m);
                lemma_put_distinct(v.avb.avtp_streams, sid@, m);
            }
        },
        AvProtocolView::Msrp { declarations } => {
            lemma_declared(v.avb.msrp_state, declarations);
        },
        AvProtocolView::Mvrp { vlan_ids } => {
            lemma_registered(v.avb.mvrp_vlans, vlan_ids);
        },
        AvProtocolView::LldpEee { chassis_id, port_id, tx_wake_us, rx_wake_us } => {
            lemma_put_distinct(v.eee_ports, (chassis_id, port_id), (tx_wake_us, rx_wake_us));
        },
        AvProtocolView::Igmp { src, src_mac, group, igmp_type } => {
            lemma_igmp_step(v, src, src_mac, group, igmp_type, now);
        },
        AvProtocolView::FlowControl { kind } => {},
        AvProtocolView::Tcp(t) => {
            let id = tcp_key(t);
            let m = choose|m: TcpStreamStats|
                w.tcp_streams == put(v.tcp_streams, id, m);
            lemma_put_distinct(v.tcp_streams, id, m);
            if let Some(ip) = ndi_sender(v, t) {
                let key = ndi_key(ip);
                let n = choose|n: StreamView| w.streams == put(v.streams, key, n);
                lemma_put_distinct(v.streams, key, n);
            }
        },
    }
}

proof fn lemma_aged(
    t: Seq<(Ipv4Addr, u32)>,
    sources: Seq<Ipv4Addr>,
    streams: Seq<(Seq<char>, StreamView)>,
    conmon: Seq<(Ipv4Addr, ConmonDevice)>,
)
    requires
        distinct(t),
    ensures
        distinct(aged(t, sources, streams, conmon)),
    decreases sources.len(),
{
    if sources.len() > 0 {
        lemma_aged(t, sources.drop_last(), streams, conmon);
        let u = aged(t, sources.drop_last(), streams, conmon);
        let ip = sources.last();
        lemma_without_distinct(u, ip);
        lemma_put_distinct(
            u,
            ip,
            windows_of(u, ip).wrapping_add(1),
        );
    }
}

// ── Laws ─────────────────────────────────────────────────────────────────────

/// A capture starts sound.
pub proof fn law_start_is_sound()
    ensures
        sound(fresh_state()),
{
}

/// No frame, however made, breaks soundness: nothing comes to be kept twice, and
/// what is bounded stays so.
pub proof fn law_frames_keep_soundness(
    v: StateView,
    frame: Seq<u8>,
    expanded: Seq<ProtocolChoice>,
    now: u64,
)
    requires
        sound(v),
    ensures
        sound(frame_state(v, frame, expanded, now)),
{
    let (et, pcp, p) = opened(frame);
    let a = StateView { packets_dispatched: v.packets_dispatched.wrapping_add(1), ..v };
    if let Some(x) = wanted(frame, expanded) {
        lemma_step(a, x, p, pcp, frame.len() as u64, now);
    }
}

/// The end of a window keeps soundness.
pub proof fn law_end_keeps_soundness(v: StateView, now: u64)
    requires
        sound(v),
    ensures
        sound(ended(v, now)),
{
    lemma_same_keys(v.ptp.domains, domains_checked(v.ptp.domains, now));
    let w = judged(v, now);
    lemma_same_keys(w.streams, all_rated(w.streams, w.tcp_streams));
}

/// The start of the next window keeps soundness.
pub proof fn law_reset_keeps_soundness(v: StateView, now: u64)
    requires
        sound(v),
    ensures
        sound(state_reset(v, now)),
{
    lemma_same_keys(v.streams, all_reset(v.streams));
    lemma_filter_distinct(
        all_reset(v.streams),
        |e: (Seq<char>, StreamView)| stream_kept(e.1, now),
    );
    lemma_filter_distinct(
        v.tcp_streams,
        |e: (Seq<char>, TcpStreamStats)|
            flow_kept(e.1, now),
    );
    let streams = live_streams(all_reset(v.streams), now);
    lemma_same_keys(v.ptp.domains, domains_reset(v.ptp.domains));
    lemma_filter_distinct(
        v.ptp.v1_followers,
        |e: (Ipv4Addr, u64)|
            within(now, e.1, FOLLOWER_SECS as nat),
    );
    lemma_filter_distinct(
        v.dante.conmon,
        |e: (Ipv4Addr, ConmonDevice)|
            within(
                now,
                e.1.last_seen,
                CONMON_PRUNE_SECS as nat,
            ),
    );
    let conmon = live_conmon(v.dante.conmon, now);
    lemma_aged(v.dante.unverified_windows, v.dante.sources, streams, conmon);
    lemma_filter_distinct(
        aged(v.dante.unverified_windows, v.dante.sources, streams, conmon),
        |e: (Ipv4Addr, u32)| v.dante.sources.contains(e.0),
    );
    lemma_filter_distinct(
        v.igmp.joins_seen,
        |e: ((Ipv4Addr, Ipv4Addr), u64)|
            since(now, e.1)
                < IGMP_JOIN_DEDUP_TTL_SECS * SECOND,
    );
    lemma_avb_reset(v.avb, now);
}

proof fn lemma_avb_reset(v: AvbView, now: u64)
    requires
        sound_avb(v),
    ensures
        sound_avb(avb_reset(v, now)),
{
    lemma_filter_distinct(
        v.avtp_streams,
        |e: (Seq<u8>, AvtpStreamStats)|
            within(
                now,
                e.1.last_seen,
                STREAM_PRUNE_SECS as nat,
            ),
    );
    let streams = live_avtp(v.avtp_streams, now);
    lemma_filter_distinct(
        v.msrp_state,
        |e: (Seq<u8>, MsrpDeclaration)| holds(streams, e.0),
    );
    lemma_filter_distinct(
        v.avdecc_entities,
        |e: (Seq<u8>, AvdeccEntity)|
            within(
                now,
                e.1.last_seen,
                (e.1.valid_time_secs + 10) as nat,
            ),
    );
}

} // verus!
