//! AVTP stream identifiers, MSRP reservations and MVRP registrations.

use vstd::prelude::*;

use crate::parser::bytes::{be16, id_at, mac_at, read16, read_id, read_mac};
use crate::protocols::{MsrpDeclType, MsrpDeclaration};

verus! {

/// The stream that an AVTP frame belongs to, if its stream bit is set.
pub open spec fn avtp_stream(p: Seq<u8>) -> Option<[u8; 8]> {
    if p.len() >= 12 && p[1] >= 0x80 {
        Some(id_at(p, 4))
    } else {
        None
    }
}

/// Reads the stream identifier of an AVTP frame.
pub fn parse_avtp_stream_id(payload: &[u8]) -> (r: Option<[u8; 8]>)
    ensures
        r == avtp_stream(payload@),
{
    if payload.len() < 12 || payload[1] < 0x80 {
        None
    } else {
        Some(read_id(payload, 4))
    }
}

// ── MSRP ─────────────────────────────────────────────────────────────────────

/// A talker's declaration at `o`.
pub open spec fn talker(p: Seq<u8>, o: int, kind: MsrpDeclType, failure: Option<u8>) -> MsrpDeclaration {
    MsrpDeclaration {
        decl_type: kind,
        stream_id: id_at(p, o),
        dest_mac: Some(mac_at(p, o + 8)),
        vlan_id: Some(be16(p, o + 14) % 4096),
        max_frame_size: Some(be16(p, o + 16)),
        max_interval_frames: Some(be16(p, o + 18)),
        priority: Some(p[o + 20] / 32),
        failure_code: failure,
        listener_state: None,
    }
}

/// A listener's declaration at `o`.
pub open spec fn listener(p: Seq<u8>, o: int) -> MsrpDeclaration {
    MsrpDeclaration {
        decl_type: MsrpDeclType::Listener,
        stream_id: id_at(p, o),
        dest_mac: None,
        vlan_id: None,
        max_frame_size: None,
        max_interval_frames: None,
        priority: None,
        failure_code: None,
        listener_state: Some(p[o + 8]),
    }
}

/// What an attribute of the given type and length declares.
pub open spec fn declared(p: Seq<u8>, attr_type: u8, attr_len: u8, o: int) -> Seq<MsrpDeclaration> {
    if attr_type == 1 && attr_len >= 25 {
        seq![talker(p, o, MsrpDeclType::TalkerAdvertise, None)]
    } else if attr_type == 2 && attr_len >= 34 {
        seq![talker(p, o, MsrpDeclType::TalkerFailed, Some(p[o + 33]))]
    } else if attr_type == 3 && attr_len >= 9 {
        seq![listener(p, o)]
    } else {
        Seq::empty()
    }
}

/// The declarations of the messages from `pos` on. A message is a type, the
/// length of a value, the length of the attribute list, a vector header and the
/// first value; an end mark or a truncated message ends them.
pub open spec fn msrp_from(p: Seq<u8>, pos: int) -> Seq<MsrpDeclaration>
    decreases p.len() - pos,
{
    if pos < 0 || pos >= p.len() || p[pos] == 0 || pos + 4 > p.len() || pos + 6 + p[pos + 1]
        > p.len() {
        Seq::empty()
    } else if be16(p, pos + 2) == 0 || pos + 4 + be16(p, pos + 2) >= p.len() {
        declared(p, p[pos], p[pos + 1], pos + 6)
    } else {
        declared(p, p[pos], p[pos + 1], pos + 6) + msrp_from(p, pos + 4 + be16(p, pos + 2))
    }
}

/// The declarations of a PDU of protocol version 0.
pub open spec fn msrp(p: Seq<u8>) -> Seq<MsrpDeclaration> {
    if p.len() == 0 || p[0] != 0 {
        Seq::empty()
    } else {
        msrp_from(p, 1)
    }
}

fn read_talker(p: &[u8], o: usize, kind: MsrpDeclType, failure: Option<u8>) -> (d: MsrpDeclaration)
    requires
        o + 25 <= p@.len(),
    ensures
        d == talker(p@, o as int, kind, failure),
{
    let _: usize = p.len();
    MsrpDeclaration {
        decl_type: kind,
        stream_id: read_id(p, o),
        dest_mac: Some(read_mac(p, o + 8)),
        vlan_id: Some(read16(p, o + 14) % 4096),
        max_frame_size: Some(read16(p, o + 16)),
        max_interval_frames: Some(read16(p, o + 18)),
        priority: Some(p[o + 20] / 32),
        failure_code: failure,
        listener_state: None,
    }
}

fn read_declared(p: &[u8], attr_type: u8, attr_len: u8, o: usize) -> (d: Option<MsrpDeclaration>)
    requires
        o + attr_len <= p@.len(),
    ensures
        declared(p@, attr_type, attr_len, o as int) == (match d {
            Some(x) => seq![x],
            None => Seq::empty(),
        }),
{
    let _: usize = p.len();
    if attr_type == 1 && attr_len >= 25 {
        Some(read_talker(p, o, MsrpDeclType::TalkerAdvertise, None))
    } else if attr_type == 2 && attr_len >= 34 {
        Some(read_talker(p, o, MsrpDeclType::TalkerFailed, Some(p[o + 33])))
    } else if attr_type == 3 && attr_len >= 9 {
        Some(
            MsrpDeclaration {
                decl_type: MsrpDeclType::Listener,
                stream_id: read_id(p, o),
                dest_mac: None,
                vlan_id: None,
                max_frame_size: None,
                max_interval_frames: None,
                priority: None,
                failure_code: None,
                listener_state: Some(p[o + 8]),
            },
        )
    } else {
        None
    }
}

/// Reads the talker and listener declarations of an MSRP PDU.
pub fn parse_msrp(payload: &[u8]) -> (r: Vec<MsrpDeclaration>)
    ensures
        r@ == msrp(payload@),
{
    let p: &[u8] = payload;
    let n: usize = p.len();
    let mut decls: Vec<MsrpDeclaration> = Vec::new();
    if n == 0 || p[0] != 0 {
        return decls;
    }
    let mut pos: usize = 1;
    assert(decls@ + msrp_from(p@, 1) =~= msrp(p@));
    while pos < n
        invariant_except_break
            decls@ + msrp_from(p@, pos as int) == msrp(p@),
        invariant
            n == p@.len(),
        ensures
            decls@ == msrp(p@),
        decreases n - pos,
    {
        if p[pos] == 0 || n - pos < 4 {
            assert(decls@ =~= msrp(p@));
            break;
        }
        let attr_len: u8 = p[pos + 1];
        let list_len: usize = read16(p, pos + 2) as usize;
        if n - pos < 6 + attr_len as usize {
            assert(decls@ =~= msrp(p@));
            break;
        }
        let ghost before = decls@;
        let ghost rest = msrp_from(p@, pos as int);
        match read_declared(p, p[pos], attr_len, pos + 6) {
            Some(d) => {
                decls.push(d);
            },
            None => {},
        }
        assert(decls@ =~= before + declared(p@, p@[pos as int], attr_len, pos + 6));
        if list_len == 0 || list_len >= n - pos - 4 {
            assert(decls@ =~= before + rest);
            break;
        }
        assert(decls@ + msrp_from(p@, pos + 4 + list_len) =~= before + rest);
        pos = pos + 4 + list_len;
    }
    decls
}

// ── MVRP ─────────────────────────────────────────────────────────────────────

/// The list with the `n` consecutive VLANs from `base` on, leaving out zero and
/// what is there already.
pub open spec fn registered(vlans: Seq<u16>, base: int, n: nat) -> Seq<u16>
    decreases n,
{
    if n == 0 {
        vlans
    } else {
        let before = registered(vlans, base, (n - 1) as nat);
        let vid = ((base + n - 1) % 4096) as u16;
        if vid > 0 && !before.contains(vid) {
            before.push(vid)
        } else {
            before
        }
    }
}

/// The octets that hold the events of `n` values, three to an octet.
pub open spec fn packed_len(n: int) -> int {
    (n + 2) / 3
}

/// The list after the rest of a PDU from `pos` on: within the vectors of an
/// attribute of the given type and length, or before the next message.
pub open spec fn mvrp_from(
    p: Seq<u8>,
    pos: int,
    attr: Option<(u8, u8)>,
    vlans: Seq<u16>,
) -> Seq<u16>
    decreases p.len() - pos,
{
    if pos < 0 || pos + 2 > p.len() {
        vlans
    } else {
        match attr {
            None => if p[pos] == 0 || p[pos + 1] == 0 {
                vlans
            } else {
                mvrp_from(p, pos + 2, Some((p[pos], p[pos + 1])), vlans)
            },
            Some((kind, len)) => {
                let n = (be16(p, pos) % 8192) as int;
                if be16(p, pos) == 0 {
                    mvrp_from(p, pos + 2, None, vlans)
                } else if n == 0 {
                    mvrp_from(p, pos + 2, attr, vlans)
                } else if pos + 2 + len > p.len() {
                    vlans
                } else {
                    let more = with_vector(p, pos + 2, kind, len, n as nat, vlans);
                    if pos + 2 + len + packed_len(n) > p.len() {
                        more
                    } else {
                        mvrp_from(p, pos + 2 + len + packed_len(n), attr, more)
                    }
                }
            },
        }
    }
}

/// The list with a vector of `n` values whose first stands at `o`. Only VLAN
/// attributes, type 1 with two octets, register anything.
pub open spec fn with_vector(
    p: Seq<u8>,
    o: int,
    kind: u8,
    len: u8,
    n: nat,
    vlans: Seq<u16>,
) -> Seq<u16> {
    if kind == 1 && len == 2 {
        registered(vlans, (be16(p, o) % 4096) as int, n)
    } else {
        vlans
    }
}

/// The VLANs that a PDU of protocol version 0 registers.
pub open spec fn mvrp(p: Seq<u8>) -> Seq<u16> {
    if p.len() == 0 || p[0] != 0 {
        Seq::empty()
    } else {
        mvrp_from(p, 1, None, Seq::empty())
    }
}

fn has_vlan(vlans: &Vec<u16>, vid: u16) -> (r: bool)
    ensures
        r == vlans@.contains(vid),
{
    let mut i: usize = 0;
    while i < vlans.len()
        invariant
            i <= vlans@.len(),
            forall|j: int| 0 <= j < i ==> vlans@[j] != vid,
        decreases vlans@.len() - i,
    {
        if vlans[i] == vid {
            return true;
        }
        i += 1;
    }
    false
}

fn register(vlans: &mut Vec<u16>, base: u16, n: u16)
    requires
        base < 4096,
        n < 8192,
    ensures
        final(vlans)@ == registered(old(vlans)@, base as int, n as nat),
{
    let mut i: u16 = 0;
    while i < n
        invariant
            i <= n,
            base < 4096,
            n < 8192,
            vlans@ == registered(old(vlans)@, base as int, i as nat),
        decreases n - i,
    {
        let vid: u16 = (base + i) % 4096;
        if vid > 0 && !has_vlan(vlans, vid) {
            vlans.push(vid);
        }
        i += 1;
    }
}

/// Reads the VLANs that an MVRP PDU registers.
pub fn parse_mvrp(payload: &[u8]) -> (r: Vec<u16>)
    ensures
        r@ == mvrp(payload@),
{
    let p: &[u8] = payload;
    let len: usize = p.len();
    let mut vlans: Vec<u16> = Vec::new();
    if len == 0 || p[0] != 0 {
        return vlans;
    }
    let mut pos: usize = 1;
    let mut attr: Option<(u8, u8)> = None;
    while len - pos >= 2
        invariant
            p@ == payload@,
            len == p@.len(),
            pos <= len,
            mvrp_from(p@, pos as int, attr, vlans@) == mvrp(p@),
        decreases len - pos,
    {
        match attr {
            None => {
                if p[pos] == 0 || p[pos + 1] == 0 {
                    return vlans;
                }
                attr = Some((p[pos], p[pos + 1]));
                pos += 2;
            },
            Some((kind, value_len)) => {
                let header: u16 = read16(p, pos);
                let n: u16 = header % 8192;
                if header == 0 {
                    attr = None;
                    pos += 2;
                } else if n == 0 {
                    pos += 2;
                } else if len - pos - 2 < value_len as usize {
                    return vlans;
                } else {
                    if kind == 1 && value_len == 2 {
                        let base: u16 = read16(p, pos + 2) % 4096;
                        register(&mut vlans, base, n);
                    }
                    let packed: usize = (n as usize + 2) / 3;
                    if len - pos - 2 - (value_len as usize) < packed {
                        return vlans;
                    }
                    pos = pos + 2 + value_len as usize + packed;
                }
            },
        }
    }
    vlans
}

/// A list of VLANs: none is zero and none stands twice.
pub open spec fn vlan_list(v: Seq<u16>) -> bool {
    &&& forall|i: int| 0 <= i < v.len() ==> 0 < #[trigger] v[i] < 4096
    &&& forall|i: int, j: int| 0 <= i < j < v.len() ==> #[trigger] v[i] != #[trigger] v[j]
}

proof fn lemma_registered_list(vlans: Seq<u16>, base: int, n: nat)
    requires
        vlan_list(vlans),
        base >= 0,
    ensures
        vlan_list(registered(vlans, base, n)),
    decreases n,
{
    if n > 0 {
        lemma_registered_list(vlans, base, (n - 1) as nat);
    }
}

proof fn lemma_mvrp_list(p: Seq<u8>, pos: int, attr: Option<(u8, u8)>, vlans: Seq<u16>)
    requires
        vlan_list(vlans),
    ensures
        vlan_list(mvrp_from(p, pos, attr, vlans)),
    decreases p.len() - pos,
{
    if !(pos < 0 || pos + 2 > p.len()) {
        match attr {
            None => {
                if p[pos] != 0 && p[pos + 1] != 0 {
                    lemma_mvrp_list(p, pos + 2, Some((p[pos], p[pos + 1])), vlans);
                }
            },
            Some((kind, len)) => {
                let n = (be16(p, pos) % 8192) as int;
                if be16(p, pos) == 0 {
                    lemma_mvrp_list(p, pos + 2, None, vlans);
                } else if n == 0 {
                    lemma_mvrp_list(p, pos + 2, attr, vlans);
                } else if pos + 2 + len <= p.len() {
                    lemma_registered_list(vlans, (be16(p, pos + 2) % 4096) as int, n as nat);
                    let more = with_vector(p, pos + 2, kind, len, n as nat, vlans);
                    if pos + 2 + len + packed_len(n) <= p.len() {
                        lemma_mvrp_list(p, pos + 2 + len + packed_len(n), attr, more);
                    }
                }
            },
        }
    }
}

/// Whatever a PDU holds, the registered VLANs are in range and none is twice.
pub proof fn law_mvrp_is_a_list(p: Seq<u8>)
    ensures
        vlan_list(mvrp(p)),
{
    if p.len() > 0 && p[0] == 0 {
        lemma_mvrp_list(p, 1, None, Seq::empty());
    }
}

} // verus!
