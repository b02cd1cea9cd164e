//! From a packet to its handler.

use vstd::prelude::*;

use crate::capture::alert::{quiet, Alert, AlertView};
use crate::capture::flows::{avb_state, ndi_alerts, ndi_state, tcp_state};
use crate::capture::handlers::{adp_alerts, adp_state, ptp_alerts, ptp_state, sap_state};
use crate::capture::link::{eee_alerts, eee_state, flow_control_state, igmp_alerts, igmp_state, msrp_alerts, msrp_state, mvrp_alerts, mvrp_state};
use crate::capture::media::{aes67_state, dante_alerts, dante_state, st2110_state};
use crate::capture::state::{CaptureState, StateView};
use crate::order::views;
use crate::parser::frame::{ip_at, ipv4};
use crate::parser::ptp::ptp;
use crate::parser::{detect_protocol_unwrapped, first_claim, is_multicast, multicast, protocol, untagged, unwrap_vlan};
use crate::protocols::{selected, AvProtocol, AvProtocolView, NdiKind, ProtocolChoice, ETHERTYPE_IPV4};
use crate::stats::health::NetworkHealth;
use crate::stats::ptp::has_magnitude;

verus! {

/// Whether the path delay that a PTP message measures has a positive counterpart, as
/// every one that is read from a packet does.
pub open spec fn delay_sane(p: AvProtocolView) -> bool {
    match p {
        AvProtocolView::Ptp { info } => has_magnitude(info),
        _ => true,
    }
}

/// The state after a packet of a protocol.
pub open spec fn dispatched(
    v: StateView,
    p: AvProtocolView,
    l2: Seq<u8>,
    pcp: Option<u8>,
    frame: u64,
    now: u64,
) -> StateView {
    match p {
        AvProtocolView::Sap { src, sdp } => sap_state(v, sdp),
        AvProtocolView::Ptp { info } => ptp_state(v, info, now),
        AvProtocolView::Aes67 { src, dst, dst_port, payload_type } => aes67_state(
            v,
            dst,
            dst_port,
            payload_type,
            l2,
            pcp,
            now,
        ),
        AvProtocolView::St2110 { src, dst, dst_port, stream_type } => st2110_state(
            v,
            dst,
            dst_port,
            stream_type,
            l2,
            pcp,
            now,
        ),
        AvProtocolView::Dante { kind, src, dst, dst_port } => dante_state(
            v,
            kind,
            src,
            dst,
            dst_port,
            l2,
            now,
        ),
        AvProtocolView::Ndi { source_name, src } => ndi_state(v, src, source_name),
        AvProtocolView::AvdeccAdp(a) => adp_state(v, a, now),
        AvProtocolView::Avb { subtype, stream_id, seq } => avb_state(
            v,
            subtype,
            stream_id,
            frame,
            seq,
            pcp,
            now,
        ),
        AvProtocolView::Msrp { declarations } => msrp_state(v, declarations),
        AvProtocolView::Mvrp { vlan_ids } => mvrp_state(v, vlan_ids),
        AvProtocolView::LldpEee { chassis_id, port_id, tx_wake_us, rx_wake_us } => eee_state(
            v,
            chassis_id,
            port_id,
            tx_wake_us,
            rx_wake_us,
        ),
        AvProtocolView::Igmp { src, src_mac, group, igmp_type } => igmp_state(
            v,
            src,
            src_mac,
            group,
            igmp_type,
            now,
        ),
        AvProtocolView::FlowControl { kind } => flow_control_state(v, kind),
        AvProtocolView::Tcp(t) => tcp_state(v, t, frame, now),
    }
}

/// The alerts of a packet of a protocol.
pub open spec fn raised(v: StateView, p: AvProtocolView, now: u64) -> Seq<AlertView> {
    match p {
        AvProtocolView::Ptp { info } => ptp_alerts(v, info, now),
        AvProtocolView::Dante { kind, src, dst, dst_port } => dante_alerts(v, kind, src),
        AvProtocolView::Ndi { source_name, src } => ndi_alerts(v, src, source_name),
        AvProtocolView::AvdeccAdp(a) => adp_alerts(v, a),
        AvProtocolView::Msrp { declarations } => msrp_alerts(declarations),
        AvProtocolView::Mvrp { vlan_ids } => mvrp_alerts(v.avb.mvrp_vlans, vlan_ids),
        AvProtocolView::LldpEee { chassis_id, port_id, tx_wake_us, rx_wake_us } => eee_alerts(
            v,
            chassis_id,
            port_id,
            tx_wake_us,
            rx_wake_us,
        ),
        AvProtocolView::Igmp { src, src_mac, group, igmp_type } => igmp_alerts(
            v,
            src,
            group,
            igmp_type,
        ),
        _ => Seq::empty(),
    }
}

/// Hands a packet to its handler and hands back the alerts, for the caller to
/// show. `l2_payload` is what the frame carries behind its tags, `frame_bytes`
/// the length of the whole frame.
pub fn dispatch(
    state: &mut CaptureState,
    proto: AvProtocol,
    l2_payload: &[u8],
    pcp: Option<u8>,
    frame_bytes: u64,
    now: u64,
) -> (r: Vec<Alert>)
    requires
        delay_sane(proto@),
    ensures
        final(state)@ == dispatched(old(state)@, proto@, l2_payload@, pcp, frame_bytes, now),
        views(r@) == raised(old(state)@, proto@, now),
{
    match proto {
        AvProtocol::Sap { src: _, sdp } => {
            state.handle_sap(sdp);
            quiet()
        },
        AvProtocol::Ptp { info } => state.handle_ptp(info, now),
        AvProtocol::Aes67 { src: _, dst, dst_port, payload_type } => {
            state.handle_aes67(dst, dst_port, payload_type, l2_payload, pcp, now);
            quiet()
        },
        AvProtocol::St2110 { src: _, dst, dst_port, stream_type } => {
            state.handle_st2110(dst, dst_port, stream_type, l2_payload, pcp, now);
            quiet()
        },
        AvProtocol::Dante { kind, src, dst, dst_port } => {
            state.handle_dante(kind, src, dst, dst_port, l2_payload, now)
        },
        AvProtocol::Ndi { kind: NdiKind::Discovery { source_name }, src } => {
            state.handle_ndi_discovery(src, source_name)
        },
        AvProtocol::AvdeccAdp(adp) => state.handle_avdecc_adp(adp, now),
        AvProtocol::Avb { subtype, stream_id, seq } => {
            state.handle_avb(subtype, stream_id, frame_bytes, seq, pcp, now);
            quiet()
        },
        AvProtocol::Msrp { declarations } => state.handle_msrp(declarations),
        AvProtocol::Mvrp { vlan_ids } => state.handle_mvrp(vlan_ids),
        AvProtocol::LldpEee { chassis_id, port_id, tx_wake_us, rx_wake_us } => {
            state.handle_lldp_eee(chassis_id, port_id, tx_wake_us, rx_wake_us)
        },
        AvProtocol::Igmp { src, src_mac, group, igmp_type } => {
            state.handle_igmp(src, src_mac, group, igmp_type, now)
        },
        AvProtocol::FlowControl { kind } => {
            state.handle_flow_control(kind);
            quiet()
        },
        AvProtocol::Tcp(segment) => {
            state.handle_tcp(segment, frame_bytes, now);
            quiet()
        },
    }
}

// ── Frames ───────────────────────────────────────────────────────────────────

/// What is behind the tags of a frame; a frame that ends within them holds
/// nothing.
pub open spec fn opened(frame: Seq<u8>) -> (u16, Option<u8>, Seq<u8>) {
    match untagged(frame) {
        Some(x) => x,
        None => (0, None, Seq::empty()),
    }
}

/// What of interest a frame holds.
pub open spec fn wanted(frame: Seq<u8>, expanded: Seq<ProtocolChoice>) -> Option<AvProtocolView> {
    let (et, pcp, p) = opened(frame);
    match protocol(frame, et, p) {
        Some(x) => if selected(x, expanded) {
            Some(x)
        } else {
            None
        },
        None => None,
    }
}

/// The state after a frame was counted for the network as a whole.
pub open spec fn frame_counted(v: StateView, frame: Seq<u8>) -> StateView {
    let (et, pcp, p) = opened(frame);
    let n = frame.len() as u64;
    let ip = et == ETHERTYPE_IPV4 && p.len() >= 20;
    let group = ip && multicast(ip_at(p, 16));
    StateView {
        bytes_this_window: v.bytes_this_window.wrapping_add(n),
        multicast_bytes_this_window: if group {
            v.multicast_bytes_this_window.wrapping_add(n)
        } else {
            v.multicast_bytes_this_window
        },
        network_health: NetworkHealth {
            total_packets: v.network_health.total_packets.wrapping_add(1),
            multicast_packets: if group {
                v.network_health.multicast_packets.wrapping_add(1)
            } else {
                v.network_health.multicast_packets
            },
            unicast_packets: if ip && !group {
                v.network_health.unicast_packets.wrapping_add(1)
            } else {
                v.network_health.unicast_packets
            },
            ..v.network_health
        },
        ..v
    }
}

/// The state after a frame.
pub open spec fn frame_state(
    v: StateView,
    frame: Seq<u8>,
    expanded: Seq<ProtocolChoice>,
    now: u64,
) -> StateView {
    let (et, pcp, p) = opened(frame);
    let a = StateView { packets_dispatched: v.packets_dispatched.wrapping_add(1), ..v };
    frame_counted(
        match wanted(frame, expanded) {
            Some(x) => dispatched(a, x, p, pcp, frame.len() as u64, now),
            None => a,
        },
        frame,
    )
}

/// The alerts of a frame.
pub open spec fn frame_alerts(
    v: StateView,
    frame: Seq<u8>,
    expanded: Seq<ProtocolChoice>,
    now: u64,
) -> Seq<AlertView> {
    match wanted(frame, expanded) {
        Some(x) => raised(v, x, now),
        None => Seq::empty(),
    }
}

proof fn lemma_delay_sane(frame: Seq<u8>, et: u16, p: Seq<u8>)
    ensures
        protocol(frame, et, p) matches Some(x) ==> delay_sane(x),
{
    reveal_with_fuel(first_claim, 5);
}

impl CaptureState {
    fn count_frame(&mut self, frame_bytes: u64, ip: bool, group: bool)
        ensures
            final(self)@ == (StateView {
                bytes_this_window: old(self)@.bytes_this_window.wrapping_add(frame_bytes),
                multicast_bytes_this_window: if ip && group {
                    old(self)@.multicast_bytes_this_window.wrapping_add(frame_bytes)
                } else {
                    old(self)@.multicast_bytes_this_window
                },
                network_health: NetworkHealth {
                    total_packets: old(self)@.network_health.total_packets.wrapping_add(1),
                    multicast_packets: if ip && group {
                        old(self)@.network_health.multicast_packets.wrapping_add(1)
                    } else {
                        old(self)@.network_health.multicast_packets
                    },
                    unicast_packets: if ip && !group {
                        old(self)@.network_health.unicast_packets.wrapping_add(1)
                    } else {
                        old(self)@.network_health.unicast_packets
                    },
                    ..old(self)@.network_health
                },
                ..old(self)@
            }),
    {
        self.network_health.total_packets = self.network_health.total_packets.wrapping_add(1);
        self.bytes_this_window = self.bytes_this_window.wrapping_add(frame_bytes);
        if ip {
            if group {
                self.network_health.multicast_packets =
                self.network_health.multicast_packets.wrapping_add(1);
                self.multicast_bytes_this_window = self.multicast_bytes_this_window.wrapping_add(
                    frame_bytes,
                );
            } else {
                self.network_health.unicast_packets =
                self.network_health.unicast_packets.wrapping_add(1);
            }
        }
    }
}

/// Takes one frame in: what it holds goes to its handler if it was chosen, and
/// the frame is counted either way.
pub fn process_packet(
    state: &mut CaptureState,
    frame: &[u8],
    expanded_protocols: &[ProtocolChoice],
    now: u64,
) -> (r: Vec<Alert>)
    requires
        frame@.len() >= 14,
    ensures
        final(state)@ == frame_state(old(state)@, frame@, expanded_protocols@, now),
        views(r@) == frame_alerts(old(state)@, frame@, expanded_protocols@, now),
{
    let nothing: Vec<u8> = Vec::new();
    let (et, pcp, payload): (u16, Option<u8>, &[u8]) = match unwrap_vlan(frame) {
        Some(x) => x,
        None => (0, None, nothing.as_slice()),
    };
    assert((et, pcp, payload@) == opened(frame@)) by {
        assert(nothing@ =~= Seq::empty());
    }
    let frame_bytes: u64 = frame.len() as u64;
    state.packets_dispatched = state.packets_dispatched.wrapping_add(1);
    let mut alerts: Vec<Alert> = quiet();
    if let Some(proto) = detect_protocol_unwrapped(frame, et, payload) {
        if proto.is_selected(expanded_protocols) {
            proof {
                lemma_delay_sane(frame@, et, payload@);
            }
            alerts = dispatch(state, proto, payload, pcp, frame_bytes, now);
        }
    }
    let mut ip: bool = false;
    let mut group: bool = false;
    if et == ETHERTYPE_IPV4 {
        if let Some(h) = ipv4(payload) {
            ip = true;
            group = is_multicast(h.destination);
        }
    }
    state.count_frame(frame_bytes, ip, group);
    alerts
}

/// A frame of a protocol that was not chosen is counted and does nothing else.
pub proof fn law_unchosen_is_only_counted(
    v: StateView,
    frame: Seq<u8>,
    expanded: Seq<ProtocolChoice>,
    now: u64,
)
    requires
        wanted(frame, expanded) is None,
    ensures
        frame_alerts(v, frame, expanded, now).len() == 0,
        frame_state(v, frame, expanded, now).streams == v.streams,
        frame_state(v, frame, expanded, now).dante == v.dante,
        frame_state(v, frame, expanded, now).ptp == v.ptp,
        frame_state(v, frame, expanded, now).avb == v.avb,
        frame_state(v, frame, expanded, now).network_health.total_packets
            == v.network_health.total_packets.wrapping_add(1),
{
}

} // verus!
