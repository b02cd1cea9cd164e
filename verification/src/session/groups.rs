//! The multicast groups that a session joins.

use vstd::prelude::*;

use crate::capture::state::{CaptureState, StateView};
use crate::net::{dotted, push_ip, Ipv4Addr};
use crate::order::views;
use crate::protocols::{any_ptp, any_sap, chosen, is_chosen, wants_ptp, wants_sap, ProtocolChoice};
use crate::table::with;
use crate::text::prefixed;

verus! {

/// A group that is joined at the start, with what the user is told of it.
#[derive(Debug)]
pub struct StartupGroup {
    pub group: Ipv4Addr,
    pub label: String,
}

/// A group that is joined at the start, in specifications.
pub struct GroupView {
    pub group: Ipv4Addr,
    pub label: Seq<char>,
}

impl View for StartupGroup {
    type V = GroupView;

    open spec fn view(&self) -> GroupView {
        GroupView { group: self.group, label: self.label@ }
    }
}

/// A group by its address.
pub open spec fn group(a: u8, b: u8, c: u8, d: u8, label: Seq<char>) -> GroupView {
    GroupView { group: Ipv4Addr { a, b, c, d }, label }
}

/// The groups of clocks, and that of IGMPv3's reports, which tell of the streams
/// there are.
pub open spec fn clock_groups() -> Seq<GroupView> {
    seq![
        group(224, 0, 1, 129, "PTPv1/v2 _DFLT (224.0.1.129)"@),
        group(224, 0, 1, 130, "PTPv1 _ALT1 (224.0.1.130)"@),
        group(224, 0, 1, 131, "PTPv1 _ALT2 (224.0.1.131)"@),
        group(224, 0, 1, 132, "PTPv1 _ALT3 (224.0.1.132)"@),
        group(224, 0, 0, 107, "PTPv2 peer-delay (224.0.0.107)"@),
        group(224, 0, 0, 22, "IGMPv3 reports (224.0.0.22)"@),
    ]
}

/// The groups of session announcements.
pub open spec fn announcement_groups() -> Seq<GroupView> {
    seq![
        group(224, 2, 127, 254, "SAP (224.2.127.254)"@),
        group(239, 255, 255, 255, "SAP Dante/AES67 (239.255.255.255)"@),
    ]
}

/// The groups that are joined at the start.
pub open spec fn first_groups(e: Seq<ProtocolChoice>) -> Seq<GroupView> {
    (if any_ptp(e) {
        clock_groups()
    } else {
        Seq::empty()
    }) + (if any_sap(e) {
        announcement_groups()
    } else {
        Seq::empty()
    })
}

fn push_group(v: &mut Vec<StartupGroup>, a: u8, b: u8, c: u8, d: u8, label: &str)
    ensures
        views(final(v)@) == views(old(v)@).push(group(a, b, c, d, label@)),
{
    v.push(StartupGroup { group: Ipv4Addr::new(a, b, c, d), label: String::from_str(label) });
    assert(views(v@) =~= views(old(v)@).push(group(a, b, c, d, label@)));
}

/// The groups to join at the start, so that switches forward their traffic.
pub fn startup_groups(expanded: &[ProtocolChoice]) -> (v: Vec<StartupGroup>)
    ensures
        views(v@) == first_groups(expanded@),
{
    let mut v: Vec<StartupGroup> = Vec::new();
    assert(views(v@) =~= Seq::empty());
    if wants_ptp(expanded) {
        push_group(&mut v, 224, 0, 1, 129, "PTPv1/v2 _DFLT (224.0.1.129)");
        push_group(&mut v, 224, 0, 1, 130, "PTPv1 _ALT1 (224.0.1.130)");
        push_group(&mut v, 224, 0, 1, 131, "PTPv1 _ALT2 (224.0.1.131)");
        push_group(&mut v, 224, 0, 1, 132, "PTPv1 _ALT3 (224.0.1.132)");
        push_group(&mut v, 224, 0, 0, 107, "PTPv2 peer-delay (224.0.0.107)");
        push_group(&mut v, 224, 0, 0, 22, "IGMPv3 reports (224.0.0.22)");
        assert(views(v@) =~= clock_groups());
    }
    let ghost before = views(v@);
    if wants_sap(expanded) {
        push_group(&mut v, 224, 2, 127, 254, "SAP (224.2.127.254)");
        push_group(&mut v, 239, 255, 255, 255, "SAP Dante/AES67 (239.255.255.255)");
        assert(views(v@) =~= before + announcement_groups());
    }
    assert(views(v@) =~= first_groups(expanded@));
    v
}

/// Tells of a group that was joined at the start.
pub fn join_text(label: &str) -> (s: String)
    ensures
        s@ == "   ✓ Joined multicast group "@ + label@,
{
    prefixed("   ✓ Joined multicast group ", label)
}

/// Tells of a group that could not be joined.
pub fn join_failed_text(label: &str, error: &str) -> (s: String)
    ensures
        s@ == "   ⚠ Could not join "@ + label@ + " — "@ + error@,
{
    let mut s: String = prefixed("   ⚠ Could not join ", label);
    s.append(" — ");
    s.append(error);
    s
}

/// Tells of a stream's group that was joined.
pub fn stream_join_text(group: Ipv4Addr) -> (s: String)
    ensures
        s@ == "   ✓ Joined stream multicast "@ + dotted(group),
{
    let mut s: String = String::from_str("   ✓ Joined stream multicast ");
    push_ip(&mut s, group);
    s
}

// ── Groups that are learned on the way ───────────────────────────────────────

/// The protocol whose streams a group carries.
pub open spec fn group_protocol(g: Ipv4Addr) -> Option<ProtocolChoice> {
    if g.a != 239 {
        None
    } else if g.b == 69 {
        Some(ProtocolChoice::AES67)
    } else if g.b == 255 {
        Some(ProtocolChoice::Dante)
    } else {
        Some(ProtocolChoice::ST2110)
    }
}

/// Whether a group is worth joining: it carries streams of a chosen protocol.
pub open spec fn joinable(g: Ipv4Addr, e: Seq<ProtocolChoice>) -> bool {
    match group_protocol(g) {
        Some(p) => chosen(e, p),
        None => false,
    }
}

/// Whether a group is worth joining.
pub fn should_join_group(group: &Ipv4Addr, expanded: &[ProtocolChoice]) -> (r: bool)
    ensures
        r == joinable(*group, expanded@),
{
    if group.a != 239 {
        return false;
    }
    let wanted: ProtocolChoice = match group.b {
        69 => ProtocolChoice::AES67,
        255 => ProtocolChoice::Dante,
        _ => ProtocolChoice::ST2110,
    };
    is_chosen(expanded, wanted)
}

/// Whether a group of the queue is to be joined: it is worth it, and was not yet.
pub open spec fn due(g: Ipv4Addr, joined: Seq<Ipv4Addr>, e: Seq<ProtocolChoice>) -> bool {
    joinable(g, e) && !joined.contains(g)
}

/// The next group of a queue that is to be joined, and the queue behind it.
pub open spec fn next_due(
    q: Seq<Ipv4Addr>,
    joined: Seq<Ipv4Addr>,
    e: Seq<ProtocolChoice>,
) -> (Option<Ipv4Addr>, Seq<Ipv4Addr>)
    decreases q.len(),
{
    if q.len() == 0 {
        (None, q)
    } else if due(q[0], joined, e) {
        (Some(q[0]), q.skip(1))
    } else {
        next_due(q.skip(1), joined, e)
    }
}

/// Takes the next group to join out of the queue; what need not be joined goes
/// with it. A replay joins nothing, and only empties the queue.
///
/// The caller tries to join what it gets, calls [`record_join`] if that worked,
/// and asks again until there is nothing left.
pub fn drain_pending_joins(
    state: &mut CaptureState,
    live: bool,
    expanded_protocols: &[ProtocolChoice],
) -> (r: Option<Ipv4Addr>)
    ensures
        live ==> (r, final(state)@.pending_join_groups) == next_due(
            old(state)@.pending_join_groups,
            old(state)@.joined_multicast,
            expanded_protocols@,
        ),
        !live ==> r is None && final(state)@.pending_join_groups.len() == 0,
        final(state)@ == (StateView {
            pending_join_groups: final(state)@.pending_join_groups,
            ..old(state)@
        }),
{
    if !live {
        state.pending_join_groups.clear();
        return None;
    }
    let ghost all = state.pending_join_groups@;
    let ghost before = state@;
    while state.pending_join_groups.len() > 0
        invariant
            before.pending_join_groups == all,
            state@ == (StateView { pending_join_groups: state.pending_join_groups@, ..before }),
            next_due(state.pending_join_groups@, before.joined_multicast, expanded_protocols@)
                == next_due(all, before.joined_multicast, expanded_protocols@),
            before == old(state)@,
            live,
        decreases state.pending_join_groups@.len(),
    {
        let ghost q = state.pending_join_groups@;
        let g: Ipv4Addr = state.pending_join_groups.remove(0);
        assert(state.pending_join_groups@ =~= q.skip(1));
        if should_join_group(&g, expanded_protocols) && !state.joined_multicast.contains(&g) {
            return Some(g);
        }
    }
    None
}

/// Notes that a group was joined.
pub fn record_join(state: &mut CaptureState, group: Ipv4Addr)
    ensures
        final(state)@ == (StateView {
            joined_multicast: with(old(state)@.joined_multicast, group),
            ..old(state)@
        }),
{
    state.joined_multicast.insert(group);
}

// ── Laws ─────────────────────────────────────────────────────────────────────

/// Only stream groups of a chosen protocol that were not joined yet are handed
/// out, and asking again gets through the queue.
pub proof fn law_joins_are_due(q: Seq<Ipv4Addr>, joined: Seq<Ipv4Addr>, e: Seq<ProtocolChoice>)
    ensures
        match next_due(q, joined, e) {
            (Some(g), rest) => due(g, joined, e) && g.a == 239 && q.contains(g) && rest.len()
                < q.len(),
            (None, rest) => rest.len() == 0,
        },
    decreases q.len(),
{
    if q.len() > 0 && !due(q[0], joined, e) {
        law_joins_are_due(q.skip(1), joined, e);
        if let (Some(g), _) = next_due(q.skip(1), joined, e) {
            let k = choose|k: int| 0 <= k < q.skip(1).len() && q.skip(1)[k] == g;
            assert(q[k + 1] == g);
        }
    }
}

/// A group that was joined is not joined again.
pub proof fn law_joined_once(
    q: Seq<Ipv4Addr>,
    joined: Seq<Ipv4Addr>,
    g: Ipv4Addr,
    e: Seq<ProtocolChoice>,
)
    ensures
        next_due(q, with(joined, g), e).0 != Some(g),
{
    let j = with(joined, g);
    if !joined.contains(g) {
        assert(j[j.len() - 1] == g);
    }
    assert(j.contains(g));
    law_joins_are_due(q, j, e);
}

} // verus!
