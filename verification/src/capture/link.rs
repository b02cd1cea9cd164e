//! What reservations, registrations, switch announcements, IGMP and flow control
//! do to the state.

use vstd::prelude::*;

use crate::capture::alert::{add_alert, info, only, quiet, warn, Alert, AlertView};
use crate::capture::avb::AvbView;
use crate::capture::handlers::with_join;
use crate::capture::igmp::IgmpStateView;
use crate::capture::state::{CaptureState, StateView};
use crate::net::{dotted, push_ip, Ipv4Addr};
use crate::order::views;
use crate::protocols::{all_systems, failure_reason, igmp_all_systems, msrp_failure_reason, FlowControlKind, IgmpType, IgmpTypeView, MsrpDeclType, MsrpDeclaration, SECOND};
use crate::stats::avtp::{push_stream_id, stream_id_text};
use crate::stats::health::NetworkHealth;
use crate::stats::stream::{since, StreamStats, StreamView};
use crate::table::{holds, put, with, without, Table};
use crate::text::{dec, hex2, push_dec, push_hex2};

verus! {

// ── MSRP and MVRP ────────────────────────────────────────────────────────────

/// The reservations after declarations, each in turn.
pub open spec fn declared(
    t: Seq<(Seq<u8>, MsrpDeclaration)>,
    d: Seq<MsrpDeclaration>,
) -> Seq<(Seq<u8>, MsrpDeclaration)>
    decreases d.len(),
{
    if d.len() == 0 {
        t
    } else {
        put(declared(t, d.drop_last()), d.last().stream_id@, d.last())
    }
}

/// Why a reservation failed.
pub open spec fn code_note(code: Option<u8>) -> Seq<char> {
    match code {
        Some(c) => " (code "@ + dec(c as nat) + ": "@ + failure_reason(c) + ")"@,
        None => Seq::empty(),
    }
}

/// The alerts of declarations: one for each failure.
pub open spec fn msrp_alerts(d: Seq<MsrpDeclaration>) -> Seq<AlertView>
    decreases d.len(),
{
    if d.len() == 0 {
        Seq::empty()
    } else if d.last().decl_type is TalkerFailed {
        msrp_alerts(d.drop_last()).push(
            warn(
                "⚠  MSRP Talker Failed: "@ + stream_id_text(d.last().stream_id@) + code_note(
                    d.last().failure_code,
                ),
            ),
        )
    } else {
        msrp_alerts(d.drop_last())
    }
}

/// The state after declarations.
pub open spec fn msrp_state(v: StateView, d: Seq<MsrpDeclaration>) -> StateView {
    StateView { avb: AvbView { msrp_state: declared(v.avb.msrp_state, d), ..v.avb }, ..v }
}

/// The VLANs after registrations.
pub open spec fn registered(s: Seq<u16>, ids: Seq<u16>) -> Seq<u16>
    decreases ids.len(),
{
    if ids.len() == 0 {
        s
    } else {
        with(registered(s, ids.drop_last()), ids.last())
    }
}

/// The alerts of registrations: one for each new VLAN.
pub open spec fn mvrp_alerts(s: Seq<u16>, ids: Seq<u16>) -> Seq<AlertView>
    decreases ids.len(),
{
    if ids.len() == 0 {
        Seq::empty()
    } else if registered(s, ids.drop_last()).contains(ids.last()) {
        mvrp_alerts(s, ids.drop_last())
    } else {
        mvrp_alerts(s, ids.drop_last()).push(
            info("🔖 MVRP: VLAN "@ + dec(ids.last() as nat) + " registered"@),
        )
    }
}

/// The state after registrations.
pub open spec fn mvrp_state(v: StateView, ids: Seq<u16>) -> StateView {
    StateView { avb: AvbView { mvrp_vlans: registered(v.avb.mvrp_vlans, ids), ..v.avb }, ..v }
}

fn push_code_note(s: &mut String, code: Option<u8>)
    ensures
        final(s)@ == old(s)@ + code_note(code),
{
    if let Some(c) = code {
        s.append(" (code ");
        push_dec(s, c as u64);
        s.append(": ");
        s.append(msrp_failure_reason(c));
        s.append(")");
    }
    assert(s@ =~= old(s)@ + code_note(code));
}

impl CaptureState {
    /// Reservations are declared; failures are told of.
    pub fn handle_msrp(&mut self, declarations: Vec<MsrpDeclaration>) -> (r: Vec<Alert>)
        ensures
            final(self)@ == msrp_state(old(self)@, declarations@),
            views(r@) == msrp_alerts(declarations@),
    {
        let ghost v = self@;
        let mut r: Vec<Alert> = quiet();
        let mut i: usize = 0;
        assert(declarations@.take(0) =~= Seq::empty());
        while i < declarations.len()
            invariant
                i <= declarations@.len(),
                self@ == msrp_state(v, declarations@.take(i as int)),
                views(r@) == msrp_alerts(declarations@.take(i as int)),
            decreases declarations@.len() - i,
        {
            assert(declarations@.take(i + 1).drop_last() =~= declarations@.take(i as int));
            let d: MsrpDeclaration = declarations[i];
            if d.decl_type == MsrpDeclType::TalkerFailed {
                let mut s: String = String::from_str("⚠  MSRP Talker Failed: ");
                push_stream_id(&mut s, &d.stream_id);
                push_code_note(&mut s, d.failure_code);
                add_alert(&mut r, Alert::warn(s));
            }
            self.avb.msrp_state.insert(d.stream_id, d);
            i += 1;
        }
        assert(declarations@.take(i as int) =~= declarations@);
        r
    }

    /// VLANs are registered; new ones are told of.
    pub fn handle_mvrp(&mut self, vlan_ids: Vec<u16>) -> (r: Vec<Alert>)
        ensures
            final(self)@ == mvrp_state(old(self)@, vlan_ids@),
            views(r@) == mvrp_alerts(old(self)@.avb.mvrp_vlans, vlan_ids@),
    {
        let ghost v = self@;
        let mut r: Vec<Alert> = quiet();
        let mut i: usize = 0;
        assert(vlan_ids@.take(0) =~= Seq::empty());
        while i < vlan_ids.len()
            invariant
                i <= vlan_ids@.len(),
                self@ == mvrp_state(v, vlan_ids@.take(i as int)),
                views(r@) == mvrp_alerts(v.avb.mvrp_vlans, vlan_ids@.take(i as int)),
            decreases vlan_ids@.len() - i,
        {
            assert(vlan_ids@.take(i + 1).drop_last() =~= vlan_ids@.take(i as int));
            let id: u16 = vlan_ids[i];
            if self.avb.mvrp_vlans.insert(id) {
                let mut s: String = String::from_str("🔖 MVRP: VLAN ");
                push_dec(&mut s, id as u64);
                s.append(" registered");
                add_alert(&mut r, Alert::info(s));
            }
            i += 1;
        }
        assert(vlan_ids@.take(i as int) =~= vlan_ids@);
        r
    }
}

// ── LLDP ─────────────────────────────────────────────────────────────────────

/// The state after a switch port announced that it saves energy.
pub open spec fn eee_state(
    v: StateView,
    chassis: Seq<char>,
    port: Seq<char>,
    tx: u16,
    rx: u16,
) -> StateView {
    StateView { eee_ports: put(v.eee_ports, (chassis, port), (tx, rx)), ..v }
}

/// The alert on a switch port that saves energy, told of once.
pub open spec fn eee_alerts(
    v: StateView,
    chassis: Seq<char>,
    port: Seq<char>,
    tx: u16,
    rx: u16,
) -> Seq<AlertView> {
    if holds(v.eee_ports, (chassis, port)) {
        Seq::empty()
    } else {
        seq![
            warn(
                "⚠  EEE active on switch port \""@ + port + "\" (chassis "@ + chassis
                    + ")  —  Tx wake: "@ + dec(tx as nat) + "µs  Rx wake: "@ + dec(rx as nat)
                    + "µs  —  disable EEE for AV reliability"@,
            ),
        ]
    }
}

impl CaptureState {
    /// A switch port announced that it saves energy.
    pub fn handle_lldp_eee(
        &mut self,
        chassis_id: String,
        port_id: String,
        tx_wake_us: u16,
        rx_wake_us: u16,
    ) -> (r: Vec<Alert>)
        ensures
            final(self)@ == eee_state(
                old(self)@,
                chassis_id@,
                port_id@,
                tx_wake_us,
                rx_wake_us,
            ),
            views(r@) == eee_alerts(old(self)@, chassis_id@, port_id@, tx_wake_us, rx_wake_us),
    {
        let key: (String, String) = (chassis_id.clone(), port_id.clone());
        if self.eee_ports.insert(key, (tx_wake_us, rx_wake_us)) {
            let mut s: String = String::from_str("⚠  EEE active on switch port \"");
            s.append(port_id.as_str());
            s.append("\" (chassis ");
            s.append(chassis_id.as_str());
            s.append(")  —  Tx wake: ");
            push_dec(&mut s, tx_wake_us as u64);
            s.append("µs  Rx wake: ");
            push_dec(&mut s, rx_wake_us as u64);
            s.append("µs  —  disable EEE for AV reliability");
            only(Alert::warn(s))
        } else {
            quiet()
        }
    }
}

// ── IGMP ─────────────────────────────────────────────────────────────────────

/// A host and a group, in an alert.
pub open spec fn membership(src: Ipv4Addr, group: Ipv4Addr) -> Seq<char> {
    dotted(src) + " → group "@ + dotted(group)
}

/// The state after groups were queued for joining.
pub open spec fn with_groups(v: StateView, groups: Seq<Ipv4Addr>) -> StateView
    decreases groups.len(),
{
    if groups.len() == 0 {
        v
    } else {
        with_join(with_groups(v, groups.drop_last()), groups.last())
    }
}

/// The state after a general query, which alone makes a querier.
pub open spec fn queried(
    v: StateView,
    src: Ipv4Addr,
    mac: [u8; 6],
    version: u8,
    now: u64,
) -> StateView {
    StateView {
        network_health: NetworkHealth {
            igmp_query_interval_secs: match v.network_health.last_igmp_query {
                Some(last) => Some(since(now, last) / SECOND),
                None => v.network_health.igmp_query_interval_secs,
            },
            last_igmp_query: Some(now),
            igmp_querier_ip: Some(src),
            igmp_querier_mac: Some(mac),
            ..v.network_health
        },
        igmp: IgmpStateView {
            querier_ips_this_window: with(v.igmp.querier_ips_this_window, src),
            querier_version: Some(version),
            ..v.igmp
        },
        ..v
    }
}

/// The state after an IGMP message.
pub open spec fn igmp_state(
    v: StateView,
    src: Ipv4Addr,
    mac: [u8; 6],
    group: Ipv4Addr,
    t: IgmpTypeView,
    now: u64,
) -> StateView {
    match t {
        IgmpTypeView::Join => StateView {
            igmp: IgmpStateView {
                joins_seen: put(v.igmp.joins_seen, (src, group), now),
                ..v.igmp
            },
            ..v
        },
        IgmpTypeView::Leave => StateView {
            igmp: IgmpStateView {
                joins_seen: without(v.igmp.joins_seen, (src, group)),
                ..v.igmp
            },
            ..v
        },
        IgmpTypeView::MembershipReportV3 { groups } => {
            let w = with_groups(v, groups);
            StateView { igmp: IgmpStateView { v3_report_seen_this_window: true, ..w.igmp }, ..w }
        },
        IgmpTypeView::Query { version } => if group == all_systems() {
            queried(v, src, mac, version, now)
        } else {
            v
        },
        IgmpTypeView::Unknown(_) => v,
    }
}

/// Whether any stream goes to a group.
pub open spec fn watched<I>(streams: Seq<(I, StreamView)>, group: Ipv4Addr) -> bool {
    exists|i: int| 0 <= i < streams.len() && (#[trigger] streams[i]).1.dst_ip == Some(group)
}

/// The alerts of an IGMP message. A join is told of once, until it is left.
pub open spec fn igmp_alerts(
    v: StateView,
    src: Ipv4Addr,
    group: Ipv4Addr,
    t: IgmpTypeView,
) -> Seq<AlertView> {
    match t {
        IgmpTypeView::Join => if holds(v.igmp.joins_seen, (src, group)) {
            Seq::empty()
        } else {
            seq![info("➕ IGMP Join: "@ + membership(src, group))]
        },
        IgmpTypeView::Leave => if watched(v.streams, group) {
            seq![
                info("➖ IGMP Leave: "@ + membership(src, group)),
                warn("    ⚠  IGMP Leave on monitored group "@ + dotted(group)),
            ]
        } else {
            seq![info("➖ IGMP Leave: "@ + membership(src, group))]
        },
        IgmpTypeView::MembershipReportV3 { .. } => Seq::empty(),
        IgmpTypeView::Query { version } => if group == all_systems() {
            seq![
                info(
                    "❓ IGMP General Query (v"@ + dec(version as nat) + "): "@ + dotted(src),
                ),
            ]
        } else {
            seq![
                info(
                    "❓ IGMP Group-Specific Query (v"@ + dec(version as nat) + "): "@ + membership(
                        src,
                        group,
                    ),
                ),
            ]
        },
        IgmpTypeView::Unknown(x) => seq![
            info("❔ IGMP Unknown(0x"@ + hex2(x) + "): "@ + membership(src, group)),
        ],
    }
}

fn push_membership(s: &mut String, src: Ipv4Addr, group: Ipv4Addr)
    ensures
        final(s)@ == old(s)@ + membership(src, group),
{
    push_ip(s, src);
    s.append(" → group ");
    push_ip(s, group);
    assert(s@ =~= old(s)@ + membership(src, group));
}

fn is_watched(streams: &Table<String, StreamStats>, group: Ipv4Addr) -> (r: bool)
    ensures
        r == watched(streams@, group),
{
    let mut i: usize = 0;
    while i < streams.len()
        invariant
            i <= streams@.len(),
            forall|j: int| 0 <= j < i ==> (#[trigger] streams@[j]).1.dst_ip != Some(group),
        decreases streams@.len() - i,
    {
        if streams.value_at(i).dst_ip == Some(group) {
            assert(streams@[i as int].1.dst_ip == Some(group));
            return true;
        }
        i += 1;
    }
    false
}

impl CaptureState {
    fn queue_groups(&mut self, groups: &Vec<Ipv4Addr>)
        ensures
            final(self)@ == with_groups(old(self)@, groups@),
    {
        let ghost v = self@;
        let mut i: usize = 0;
        assert(groups@.take(0) =~= Seq::empty());
        while i < groups.len()
            invariant
                i <= groups@.len(),
                self@ == with_groups(v, groups@.take(i as int)),
            decreases groups@.len() - i,
        {
            assert(groups@.take(i + 1).drop_last() =~= groups@.take(i as int));
            self.queue_multicast_join(groups[i]);
            i += 1;
        }
        assert(groups@.take(i as int) =~= groups@);
    }

    fn note_query(&mut self, src: Ipv4Addr, src_mac: [u8; 6], version: u8, now: u64)
        ensures
            final(self)@ == queried(old(self)@, src, src_mac, version, now),
    {
        if let Some(last) = self.network_health.last_igmp_query {
            self.network_health.igmp_query_interval_secs = Some(
                now.saturating_sub(last) / SECOND,
            );
        }
        self.network_health.last_igmp_query = Some(now);
        self.network_health.igmp_querier_ip = Some(src);
        self.network_health.igmp_querier_mac = Some(src_mac);
        self.igmp.querier_ips_this_window.insert(src);
        self.igmp.querier_version = Some(version);
    }

    /// An IGMP message: a join, a leave, a report, a query or something else.
    pub fn handle_igmp(
        &mut self,
        src: Ipv4Addr,
        src_mac: [u8; 6],
        group: Ipv4Addr,
        igmp_type: IgmpType,
        now: u64,
    ) -> (r: Vec<Alert>)
        ensures
            final(self)@ == igmp_state(old(self)@, src, src_mac, group, igmp_type@, now),
            views(r@) == igmp_alerts(old(self)@, src, group, igmp_type@),
    {
        match igmp_type {
            IgmpType::Join => {
                if self.igmp.joins_seen.insert((src, group), now) {
                    let mut s: String = String::from_str("➕ IGMP Join: ");
                    push_membership(&mut s, src, group);
                    only(Alert::info(s))
                } else {
                    quiet()
                }
            },
            IgmpType::Leave => {
                self.igmp.joins_seen.remove(&(src, group));
                let mut s: String = String::from_str("➖ IGMP Leave: ");
                push_membership(&mut s, src, group);
                let mut r: Vec<Alert> = only(Alert::info(s));
                if is_watched(&self.streams, group) {
                    let mut s: String = String::from_str("    ⚠  IGMP Leave on monitored group ");
                    push_ip(&mut s, group);
                    add_alert(&mut r, Alert::warn(s));
                }
                assert(views(r@) =~= igmp_alerts(old(self)@, src, group, igmp_type@));
                r
            },
            IgmpType::MembershipReportV3 { groups } => {
                self.queue_groups(&groups);
                self.igmp.v3_report_seen_this_window = true;
                quiet()
            },
            IgmpType::Query { version } => {
                if group == igmp_all_systems() {
                    self.note_query(src, src_mac, version, now);
                    let mut s: String = String::from_str("❓ IGMP General Query (v");
                    push_dec(&mut s, version as u64);
                    s.append("): ");
                    push_ip(&mut s, src);
                    only(Alert::info(s))
                } else {
                    let mut s: String = String::from_str("❓ IGMP Group-Specific Query (v");
                    push_dec(&mut s, version as u64);
                    s.append("): ");
                    push_membership(&mut s, src, group);
                    only(Alert::info(s))
                }
            },
            IgmpType::Unknown(t) => {
                let mut s: String = String::from_str("❔ IGMP Unknown(0x");
                push_hex2(&mut s, t);
                s.append("): ");
                push_membership(&mut s, src, group);
                only(Alert::info(s))
            },
        }
    }
}

// ── Flow control ─────────────────────────────────────────────────────────────

/// The state after a frame of flow control.
pub open spec fn flow_control_state(v: StateView, kind: FlowControlKind) -> StateView {
    match kind {
        FlowControlKind::Pause => StateView {
            pause_frames_this_window: v.pause_frames_this_window.wrapping_add(1),
            ..v
        },
        FlowControlKind::PriorityFlowControl => StateView {
            pfc_frames_this_window: v.pfc_frames_this_window.wrapping_add(1),
            ..v
        },
    }
}

impl CaptureState {
    /// A frame of flow control is counted.
    pub fn handle_flow_control(&mut self, kind: FlowControlKind)
        ensures
            final(self)@ == flow_control_state(old(self)@, kind),
    {
        match kind {
            FlowControlKind::Pause => {
                self.pause_frames_this_window = self.pause_frames_this_window.wrapping_add(1);
            },
            FlowControlKind::PriorityFlowControl => {
                self.pfc_frames_this_window = self.pfc_frames_this_window.wrapping_add(1);
            },
        }
    }
}

// ── Laws ─────────────────────────────────────────────────────────────────────

/// A join is told of once, and again after a leave.
pub proof fn law_joins_are_told_once(
    v: StateView,
    src: Ipv4Addr,
    mac: [u8; 6],
    group: Ipv4Addr,
    now: u64,
    later: u64,
)
    requires
        crate::table::distinct(v.igmp.joins_seen),
    ensures
        igmp_alerts(
            igmp_state(v, src, mac, group, IgmpTypeView::Join, now),
            src,
            group,
            IgmpTypeView::Join,
        ).len() == 0,
        igmp_alerts(
            igmp_state(
                igmp_state(v, src, mac, group, IgmpTypeView::Join, now),
                src,
                mac,
                group,
                IgmpTypeView::Leave,
                later,
            ),
            src,
            group,
            IgmpTypeView::Join,
        ) == seq![info("➕ IGMP Join: "@ + membership(src, group))],
{
    crate::table::lemma_put_lookup(v.igmp.joins_seen, (src, group), now, (src, group));
    crate::table::lemma_put_distinct(v.igmp.joins_seen, (src, group), now);
    crate::table::lemma_without_distinct(
        put(v.igmp.joins_seen, (src, group), now),
        (src, group),
    );
}

/// A query to a group is no general query: it makes no querier.
pub proof fn law_group_queries_make_no_querier(
    v: StateView,
    src: Ipv4Addr,
    mac: [u8; 6],
    group: Ipv4Addr,
    version: u8,
    now: u64,
)
    requires
        group != all_systems(),
    ensures
        igmp_state(v, src, mac, group, IgmpTypeView::Query { version }, now) == v,
{
}

/// An energy-saving port is told of once.
pub proof fn law_eee_is_told_once(
    v: StateView,
    chassis: Seq<char>,
    port: Seq<char>,
    tx: u16,
    rx: u16,
    tx2: u16,
    rx2: u16,
)
    ensures
        eee_alerts(eee_state(v, chassis, port, tx, rx), chassis, port, tx2, rx2).len() == 0,
{
    crate::table::lemma_put_lookup(v.eee_ports, (chassis, port), (tx, rx), (chassis, port));
}

} // verus!
