//! Which bytes of a message say what.

use vstd::prelude::*;
use vstd::utf8::{decode_utf8, valid_utf8};

use crate::parser::avb::{declared, msrp, msrp_from, mvrp, mvrp_from, registered};
use crate::parser::avdecc::{adp, has_aem, media_summary, not_ready, sr_class};
use crate::parser::bytes::{be16, be32, be64, id_at, mac_at};
use crate::parser::conmon::{channel_count, conmon_frame, sender_mac};
use crate::parser::lldp::{eee_port, lldp_id, tlvs, tlvs_from, with_tlv, LldpView};
use crate::parser::mdns::{dante_name, instance_name, label_at, label_before, name_end, occurrence, pointer_name, questions_end, response_name, stands_at};
use crate::parser::ptp::{clock_accuracy, clock_class, ptp, stratum_name, subdomain, v1_quality, v2_name};
use crate::scan::{label, printable, trim, trim_end_of};
use crate::text::{dec, hex_colons};

verus! {

// ── PTP ──────────────────────────────────────────────────────────────────────

/// The second byte tells the version of a clock message; a message of version 2 has at
/// least 34 bytes and one of version 1 at least 40.
pub proof fn law_clock_versions(p: Seq<u8>)
    ensures
        p.len() >= 2 && p[1] % 16 == 2 ==> (ptp(p) is Some <==> p.len() >= 34),
        p.len() >= 2 && p[1] % 16 != 2 ==> (ptp(p) is Some <==> p.len() >= 40),
        p.len() < 2 ==> ptp(p) is None,
        ptp(p) matches Some(info) ==> info.version == (if p[1] % 16 == 2 {
            2
        } else {
            1u8
        }) && info.src_ip is None && info.protocol_kind is None,
{
}

/// Where each field of a version 2 message stands.
pub proof fn law_clock_fields(p: Seq<u8>)
    requires
        p.len() >= 34,
        p[1] % 16 == 2,
    ensures
        ptp(p) matches Some(info) && {
            &&& info.message_type == p[0] % 16
            &&& info.domain == p[4]
            &&& info.clock_id == Some(hex_colons(p.subrange(20, 28)))
            &&& info.port_id == Some((p[28] * 256 + p[29]) as u16)
            &&& info.sequence_id == p[30] * 256 + p[31]
            &&& info.log_sync_interval == (if p[33] < 128 {
                p[33] as int
            } else {
                p[33] - 256
            })
            &&& p.len() >= 55 ==> info.log_min_pdelay_req_interval == (if p[54] < 128 {
                p[54] as int
            } else {
                p[54] - 256
            })
            &&& p.len() < 55 ==> info.log_min_pdelay_req_interval == 0
            &&& info.stratum is None
            &&& info.correction_ns is Some
            &&& info.path_delay_ns == (if p[0] % 16 == 9 || p[0] % 16 == 3 {
                info.correction_ns
            } else {
                None
            })
        },
{
}

/// Only an Announce of at least 64 bytes names a grandmaster, and how good its clock is.
pub proof fn law_announces_name_the_grandmaster(p: Seq<u8>)
    requires
        p.len() >= 34,
        p[1] % 16 == 2,
    ensures
        p[0] % 16 == 11 && p.len() >= 64 ==> ptp(p).unwrap().grandmaster_id == Some(
            hex_colons(p.subrange(53, 61)),
        ) && ptp(p).unwrap().clock_quality == Some(
            clock_class(p[48]) + "  "@ + clock_accuracy(p[49]),
        ),
        p[0] % 16 != 11 || p.len() < 64 ==> ptp(p).unwrap().grandmaster_id is None && ptp(
            p,
        ).unwrap().clock_quality is None,
{
}

/// The correction is a signed number of eight bytes, in units of which 65536 are a
/// nanosecond; what is less than one is cut off downwards.
pub proof fn law_corrections_are_signed(p: Seq<u8>, ns: int)
    requires
        p.len() >= 34,
        p[1] % 16 == 2,
        -0x8000_0000_0000 <= ns < 0x8000_0000_0000,
        ({
            let units = p[8] * 0x100_0000_0000_0000 + p[9] * 0x1_0000_0000_0000 + p[10]
                * 0x100_0000_0000 + p[11] * 0x1_0000_0000 + p[12] * 0x100_0000 + p[13] * 0x1_0000
                + p[14] * 0x100 + p[15];
            ns * 65536 <= (if p[8] < 128 {
                units
            } else {
                units - 0x1_0000_0000_0000_0000
            }) < (ns + 1) * 65536
        }),
    ensures
        ptp(p).unwrap().correction_ns == Some(ns as i64),
{
    let hi = be32(p, 8) as int;
    let lo = be32(p, 12) as int;
    assert(hi == p[8] * 0x100_0000 + p[9] * 0x1_0000 + p[10] * 0x100 + p[11]);
    assert(lo == p[12] * 0x100_0000 + p[13] * 0x1_0000 + p[14] * 0x100 + p[15]);
    let n = be64(p, 8);
    assert(n == hi * 0x1_0000_0000 + lo);
    let v = if p[8] < 128 {
        n as int
    } else {
        n - 0x1_0000_0000_0000_0000
    };
    assert(v / 0x1_0000 == ns);
}

/// Where each field of a version 1 message stands, whose header is two bytes longer than
/// its own first part.
pub proof fn law_old_clock_fields(p: Seq<u8>)
    requires
        p.len() >= 40,
        p[1] % 16 != 2,
    ensures
        ptp(p) matches Some(info) && {
            &&& info.message_type == (match p[32] {
                0 => 0u8,
                1 => 1,
                2 => 8,
                3 => 9,
                4 => 13,
                _ => 255,
            })
            &&& info.message_name == (match p[32] {
                0 => "Sync"@,
                1 => "Delay_Req"@,
                2 => "Follow_Up"@,
                3 => "Delay_Resp"@,
                4 => "Management"@,
                _ => "Unknown"@,
            })
            &&& info.clock_id == Some(hex_colons(p.subrange(22, 28)))
            &&& info.port_id == Some((p[28] * 256 + p[29]) as u16)
            &&& info.sequence_id == p[30] * 256 + p[31]
            &&& info.log_sync_interval == (if p[33] < 128 {
                p[33] as int
            } else {
                p[33] - 256
            })
            &&& info.log_min_pdelay_req_interval == 0
            &&& info.correction_ns is None && info.path_delay_ns is None
            &&& info.domain == subdomain(p.subrange(4, 20))
        },
{
}

/// A version 1 Sync of at least 66 bytes tells the stratum of its grandmaster, and names
/// it unless its address is all zeros. No other message does.
pub proof fn law_old_syncs_name_the_grandmaster(p: Seq<u8>)
    requires
        p.len() >= 40,
        p[1] % 16 != 2,
    ensures
        p[32] == 0 && p.len() >= 66 ==> ptp(p).unwrap().stratum == Some(p[61]),
        p[32] == 0 && p.len() >= 66 && !(p[50] == 0 && p[51] == 0 && p[52] == 0 && p[53] == 0 && p[54]
            == 0 && p[55] == 0) ==> ptp(p).unwrap().grandmaster_id == Some(
            hex_colons(p.subrange(50, 56)),
        ) && ptp(p).unwrap().clock_quality is Some,
        p[32] == 0 && p.len() >= 66 && p[50] == 0 && p[51] == 0 && p[52] == 0 && p[53] == 0 && p[54] == 0
            && p[55] == 0 ==> ptp(p).unwrap().grandmaster_id is None && ptp(p).unwrap().clock_quality
            is None,
        p[32] != 0 || p.len() < 66 ==> ptp(p).unwrap().grandmaster_id is None && ptp(
            p,
        ).unwrap().stratum is None && ptp(p).unwrap().clock_quality is None,
{
    if p.len() >= 66 {
        let g = p.subrange(50, 56);
        assert(g[0] == p[50] && g[1] == p[51] && g[2] == p[52] && g[3] == p[53] && g[4] == p[54]
            && g[5] == p[55]);
    }
}

/// The quality of a version 1 clock is its stratum, and its four letters where they can be
/// read once zeros and white space are taken off.
pub proof fn law_old_clock_quality(p: Seq<u8>)
    requires
        p.len() >= 66,
        p[1] % 16 != 2,
        p[32] == 0,
        p[50] != 0,
    ensures
        ({
            let b = p.subrange(62, 66);
            let t = trim(trim_end_of(decode_utf8(b), '\0'));
            let readable = valid_utf8(b) && t.len() > 0 && (forall|i: int|
                0 <= i < t.len() ==> ' ' <= #[trigger] t[i] <= '~');
            ptp(p).unwrap().clock_quality == Some(
                if readable {
                    stratum_name(p[61]) + "  "@ + t
                } else {
                    stratum_name(p[61])
                },
            )
        }),
{
    law_old_syncs_name_the_grandmaster(p);
}

/// The subdomains `_ALT1` to `_ALT3` are the domains 1 to 3, and any other is 0.
pub proof fn law_subdomains_are_domains(s: Seq<u8>)
    ensures
        s.len() >= 5 && s.subrange(0, 4) == seq![0x5fu8, 0x41, 0x4c, 0x54] && 0x31 <= s[4] <= 0x33
            ==> subdomain(s) == s[4] - 0x30,
        s.len() < 5 || s.subrange(0, 4) != seq![0x5fu8, 0x41, 0x4c, 0x54] || s[4] < 0x31 || s[4] > 0x33
            ==> subdomain(s) == 0,
{
    if s.len() >= 5 {
        let t = s.subrange(0, 4);
        assert(t[0] == s[0] && t[1] == s[1] && t[2] == s[2] && t[3] == s[3]);
        if s[0] == 0x5f && s[1] == 0x41 && s[2] == 0x4c && s[3] == 0x54 {
            assert(t =~= seq![0x5fu8, 0x41, 0x4c, 0x54]);
        }
    }
}

/// What a clock class, an accuracy and a stratum are called.
pub proof fn law_clock_qualities(n: u8)
    ensures
        clock_class(6) == "Primary reference — locked"@,
        clock_class(7) == "Primary reference — free-running"@,
        clock_class(52) == "Application-specific"@,
        clock_class(135) == "Primary reference — holdover"@,
        clock_class(165) == "Default"@,
        clock_class(187) == "Slave-only"@,
        clock_class(255) == "Slave-only"@,
        n != 6 && n != 7 && n != 52 && n != 135 && n != 165 && n != 187 && n != 255 ==> clock_class(n)
            == "class="@ + dec(n as nat),
        n == 0x20 || n == 0x21 ==> clock_accuracy(n) == "< 100 ns"@,
        n == 0x22 || n == 0x23 ==> clock_accuracy(n) == "< 1 µs"@,
        n == 0x24 || n == 0x25 ==> clock_accuracy(n) == "< 10 µs"@,
        n == 0x26 || n == 0x27 ==> clock_accuracy(n) == "< 100 µs"@,
        n == 0x28 || n == 0x29 ==> clock_accuracy(n) == "< 1 ms"@,
        clock_accuracy(0xFE) == "unknown precision"@,
        n != 0xFE && !(0x20 <= n <= 0x29) ==> clock_accuracy(n) == "other"@,
        stratum_name(0) == "Preferred grandmaster"@,
        stratum_name(1) == "Primary reference"@,
        stratum_name(2) == "Secondary reference"@,
        n > 2 ==> stratum_name(n) == "Stratum "@ + dec(n as nat),
        v1_quality(n, Seq::empty()) == stratum_name(n),
        forall|s: Seq<char>|
            s.len() > 0 ==> #[trigger] v1_quality(n, s) == stratum_name(n) + "  "@ + s,
{
}

/// What a version 2 message is called.
pub proof fn law_message_names(p: Seq<u8>)
    requires
        p.len() >= 34,
        p[1] % 16 == 2,
    ensures
        ({
            let name = ptp(p).unwrap().message_name;
            match p[0] % 16 {
                0 => name == "Sync"@,
                1 => name == "Delay_Req"@,
                2 => name == "P_Delay_Req"@,
                3 => name == "P_Delay_Resp"@,
                8 => name == "Follow_Up"@,
                9 => name == "Delay_Resp"@,
                10 => name == "P_Delay_Resp_Follow_Up"@,
                11 => name == "Announce"@,
                12 => name == "Signaling"@,
                13 => name == "Management"@,
                4 => name == "Unknown(0x4)"@,
                5 => name == "Unknown(0x5)"@,
                6 => name == "Unknown(0x6)"@,
                7 => name == "Unknown(0x7)"@,
                14 => name == "Unknown(0xE)"@,
                _ => name == "Unknown(0xF)"@,
            }
        }),
{
    reveal_strlit("Unknown(0x");
    reveal_strlit("Unknown(0x4)");
    reveal_strlit("Unknown(0x5)");
    reveal_strlit("Unknown(0x6)");
    reveal_strlit("Unknown(0x7)");
    reveal_strlit("Unknown(0xE)");
    reveal_strlit("Unknown(0xF)");
    assert(v2_name(4) =~= "Unknown(0x4)"@);
    assert(v2_name(5) =~= "Unknown(0x5)"@);
    assert(v2_name(6) =~= "Unknown(0x6)"@);
    assert(v2_name(7) =~= "Unknown(0x7)"@);
    assert(v2_name(14) =~= "Unknown(0xE)"@);
    assert(v2_name(15) =~= "Unknown(0xF)"@);
}

// ── AVB ──────────────────────────────────────────────────────────────────────

/// A reservation message starts with a zero byte. Its first attribute has its kind and
/// its length first, then the length of its list, and the declaration behind six bytes;
/// the next attribute stands behind the list.
pub proof fn law_reservations_in_turn(p: Seq<u8>)
    requires
        p.len() >= 7,
        p[0] == 0,
        p[1] != 0,
        7 + p[2] <= p.len(),
    ensures
        ({
            let list = p[3] * 256 + p[4];
            let first = declared(p, p[1], p[2], 7);
            &&& list == 0 || 5 + list >= p.len() ==> msrp(p) == first
            &&& list > 0 && 5 + list < p.len() ==> msrp(p) == first + msrp_from(p, 5 + list)
        }),
{
}

/// What is no reservation message declares nothing: an empty one, one of another
/// version, one that ends at once, and one whose first attribute is cut off.
pub proof fn law_no_reservations(p: Seq<u8>)
    ensures
        p.len() == 0 || p[0] != 0 ==> msrp(p).len() == 0,
        p.len() > 1 && p[1] == 0 ==> msrp(p).len() == 0,
        p.len() < 7 || 7 + p[2] > p.len() ==> msrp(p).len() == 0,
{
}

/// A talker's declaration: its stream, where it goes, its VLAN, how much it sends and its
/// priority. A failed talker tells why, and a talker that advertises nothing of it.
pub proof fn law_talkers(p: Seq<u8>, kind: u8, len: u8, o: int)
    requires
        0 <= o,
        o + len <= p.len(),
        kind == 1 && len >= 25 || kind == 2 && len >= 34,
    ensures
        ({
            let ds = declared(p, kind, len, o);
            &&& ds.len() == 1
            &&& kind == 1 ==> ds[0].decl_type is TalkerAdvertise && ds[0].failure_code is None
            &&& kind == 2 ==> ds[0].decl_type is TalkerFailed && ds[0].failure_code == Some(p[o + 33])
            &&& ds[0].stream_id@ == p.subrange(o, o + 8)
            &&& ds[0].dest_mac matches Some(m) && m@ == p.subrange(o + 8, o + 14)
            &&& ds[0].vlan_id == Some(((p[o + 14] * 256 + p[o + 15]) % 4096) as u16)
            &&& ds[0].max_frame_size == Some((p[o + 16] * 256 + p[o + 17]) as u16)
            &&& ds[0].max_interval_frames == Some((p[o + 18] * 256 + p[o + 19]) as u16)
            &&& ds[0].priority == Some((p[o + 20] / 32) as u8)
            &&& ds[0].listener_state is None
        }),
{
    assert(id_at(p, o)@ =~= p.subrange(o, o + 8));
    assert(mac_at(p, o + 8)@ =~= p.subrange(o + 8, o + 14));
}

/// A listener's declaration: its stream, and how it stands.
pub proof fn law_listeners(p: Seq<u8>, len: u8, o: int)
    requires
        0 <= o,
        o + len <= p.len(),
        len >= 9,
    ensures
        ({
            let ds = declared(p, 3, len, o);
            &&& ds.len() == 1
            &&& ds[0].decl_type is Listener
            &&& ds[0].stream_id@ == p.subrange(o, o + 8)
            &&& ds[0].listener_state == Some(p[o + 8])
            &&& ds[0].dest_mac is None && ds[0].vlan_id is None && ds[0].priority is None
            &&& ds[0].max_frame_size is None && ds[0].max_interval_frames is None
                && ds[0].failure_code is None
        }),
{
    assert(id_at(p, o)@ =~= p.subrange(o, o + 8));
}

/// An attribute of another kind, or too short for its own, declares nothing.
pub proof fn law_no_other_declarations(p: Seq<u8>, kind: u8, len: u8, o: int)
    ensures
        kind == 0 || kind > 3 ==> declared(p, kind, len, o).len() == 0,
        kind == 1 && len < 25 ==> declared(p, kind, len, o).len() == 0,
        kind == 2 && len < 34 ==> declared(p, kind, len, o).len() == 0,
        kind == 3 && len < 9 ==> declared(p, kind, len, o).len() == 0,
{
}

/// A vector registers as many VLANs as it counts, from its first on, each once; the
/// number 0 is none.
pub proof fn law_vectors_register_a_range(vlans: Seq<u16>, base: u16, n: nat, v: u16)
    requires
        base < 4096,
        base + n <= 4096,
    ensures
        registered(vlans, base as int, n).contains(v) <==> vlans.contains(v) || (base <= v < base + n
            && v != 0),
    decreases n,
{
    if n > 0 {
        law_vectors_register_a_range(vlans, base, (n - 1) as nat, v);
        let before = registered(vlans, base as int, (n - 1) as nat);
        let vid = ((base + n - 1) % 4096) as u16;
        assert(vid == base + n - 1);
        let all = registered(vlans, base as int, n);
        if vid > 0 && !before.contains(vid) {
            assert(all == before.push(vid));
            assert(all[before.len() as int] == vid);
            if before.contains(v) {
                let i = choose|i: int| 0 <= i < before.len() && before[i] == v;
                assert(all[i] == v);
            }
            if all.contains(v) {
                let i = choose|i: int| 0 <= i < all.len() && all[i] == v;
                if i < before.len() {
                    assert(before[i] == v);
                }
            }
        }
    }
}

/// A registration message with one vector of VLANs registers those of the vector.
pub proof fn law_one_vector(n: nat, first: u16, events: Seq<u8>)
    requires
        0 < n < 8192,
        first < 4096,
        events.len() == (n + 2) / 3,
    ensures
        mvrp(
            seq![
                0u8,
                1,
                2,
                (n / 256) as u8,
                (n % 256) as u8,
                (first / 256) as u8,
                (first % 256) as u8,
            ] + events + seq![0u8, 0, 0, 0],
        ) == registered(Seq::empty(), first as int, n),
{
    let front = seq![
        0u8,
        1,
        2,
        (n / 256) as u8,
        (n % 256) as u8,
        (first / 256) as u8,
        (first % 256) as u8,
    ];
    let p = front + events + seq![0u8, 0, 0, 0];
    assert(p[0] == 0 && p[1] == 1 && p[2] == 2);
    assert(p[3] == (n / 256) as u8 && p[4] == (n % 256) as u8);
    assert(p[5] == (first / 256) as u8 && p[6] == (first % 256) as u8);
    assert(be16(p, 3) == n);
    assert(be16(p, 5) == first);
    let e = 7 + events.len() as int;
    assert(p[e] == 0 && p[e + 1] == 0 && p[e + 2] == 0 && p[e + 3] == 0);
    let all = registered(Seq::empty(), first as int, n);
    assert(mvrp_from(p, e + 2, None, all) == all);
    assert(be16(p, e) == 0);
    assert(mvrp_from(p, e, Some((1u8, 2u8)), all) == mvrp_from(p, e + 2, None, all));
    assert(mvrp_from(p, 3, Some((1u8, 2u8)), Seq::empty()) == mvrp_from(
        p,
        e,
        Some((1u8, 2u8)),
        all,
    ));
    assert(mvrp(p) == mvrp_from(p, 3, Some((1u8, 2u8)), Seq::empty()));
}

/// The last events of a message may be cut off; what they would have said counts
/// all the same, and what is of another kind or length registers nothing.
pub proof fn law_vectors_of_other_kinds(p: Seq<u8>)
    ensures
        p.len() == 0 || p[0] != 0 ==> mvrp(p).len() == 0,
        p.len() < 3 ==> mvrp(p).len() == 0,
        p.len() >= 3 && (p[1] == 0 || p[2] == 0) ==> mvrp(p).len() == 0,
        p.len() == 7 && p[0] == 0 && p[1] == 1 && p[2] == 2 && (p[3] * 256 + p[4]) % 8192 > 0
            ==> mvrp(p) == registered(
            Seq::empty(),
            ((p[5] * 256 + p[6]) % 4096) as int,
            ((p[3] * 256 + p[4]) % 8192) as nat,
        ),
        p.len() == 7 && p[0] == 0 && p[1] != 1 && p[2] == 2 ==> mvrp(p).len() == 0,
{
    reveal_with_fuel(mvrp_from, 6);
}

/// A discovery message has at least 49 bytes, the first of them 0xFA. Where each of its
/// fields stands, and that it holds for twice the upper five bits of its length field.
pub proof fn law_discovery_fields(p: Seq<u8>)
    ensures
        adp(p) is Some <==> p.len() >= 49 && p[0] == 0xFA,
        adp(p) matches Some(a) ==> {
            &&& a.message_type == p[1] % 16
            &&& a.valid_time_secs == 2 * (p[2] / 8)
            &&& a.entity_id@ == p.subrange(4, 12)
            &&& a.entity_model_id@ == p.subrange(12, 20)
            &&& a.entity_capabilities == p[20] * 16777216 + p[21] * 65536 + p[22] * 256 + p[23]
            &&& a.talker_stream_sources == p[24] * 256 + p[25]
            &&& a.talker_capabilities == p[26] * 256 + p[27]
            &&& a.listener_stream_sinks == p[28] * 256 + p[29]
            &&& a.listener_capabilities == p[30] * 256 + p[31]
            &&& a.available_index == p[36] * 16777216 + p[37] * 65536 + p[38] * 256 + p[39]
            &&& a.gptp_grandmaster_id@ == p.subrange(40, 48)
            &&& a.gptp_domain_number == p[48]
        },
{
    if p.len() >= 49 {
        assert(id_at(p, 4)@ =~= p.subrange(4, 12));
        assert(id_at(p, 12)@ =~= p.subrange(12, 20));
        assert(id_at(p, 40)@ =~= p.subrange(40, 48));
        lemma_upper_five(p[2], p[3]);
        lemma_long(p, 20);
        lemma_long(p, 36);
    }
}

proof fn lemma_long(p: Seq<u8>, i: int)
    ensures
        be32(p, i) == p[i] * 16777216 + p[i + 1] * 65536 + p[i + 2] * 256 + p[i + 3],
{
}

proof fn lemma_upper_five(a: u8, b: u8)
    ensures
        (a * 256 + b) / 2048 == a / 8,
{
}

/// What an entity can do, by the bits of its capabilities.
pub proof fn law_capabilities(caps: u16, entity: u32)
    ensures
        ({
            let audio = caps & 0x200 != 0;
            let video = caps & 0x400 != 0;
            media_summary(caps) == (if audio && video {
                "audio+video"@
            } else if audio {
                "audio"@
            } else if video {
                "video"@
            } else {
                "other"@
            })
        }),
        ({
            let a = entity & 0x100 != 0;
            let b = entity & 0x200 != 0;
            sr_class(entity) == (if a && b {
                "Class A+B"@
            } else if a {
                "Class A"@
            } else if b {
                "Class B"@
            } else {
                ""@
            })
        }),
        has_aem(entity) <==> entity & 0x8 != 0,
        not_ready(entity) <==> entity & 0x2_0000 != 0,
{
    assert((caps & 0x200 != 0) == (caps / 0x200 % 2 == 1)) by (bit_vector);
    assert((caps & 0x400 != 0) == (caps / 0x400 % 2 == 1)) by (bit_vector);
    assert((entity & 0x100 != 0) == (entity / 0x100 % 2 == 1)) by (bit_vector);
    assert((entity & 0x200 != 0) == (entity / 0x200 % 2 == 1)) by (bit_vector);
    assert((entity & 0x8 != 0) == (entity / 8 % 2 == 1)) by (bit_vector);
    assert((entity & 0x2_0000 != 0) == (entity / 0x2_0000 % 2 == 1)) by (bit_vector);
}

// ── Dante monitoring ─────────────────────────────────────────────────────────

/// A monitoring frame holds the word `Audinate` behind its first sixteen bytes, and a
/// length of at least 24 that it has.
pub proof fn law_monitoring_frames(p: Seq<u8>)
    ensures
        conmon_frame(p) <==> p.len() >= 24 && p.subrange(16, 24) == seq![
            0x41u8,
            0x75,
            0x64,
            0x69,
            0x6e,
            0x61,
            0x74,
            0x65,
        ] && 24 <= p[2] * 256 + p[3] <= p.len(),
{
    if p.len() >= 24 {
        let s = p.subrange(16, 24);
        let w = seq![0x41u8, 0x75, 0x64, 0x69, 0x6e, 0x61, 0x74, 0x65];
        assert(s[0] == p[16] && s[1] == p[17] && s[2] == p[18] && s[3] == p[19] && s[4] == p[20]
            && s[5] == p[21] && s[6] == p[22] && s[7] == p[23]);
        if s == w {
            assert(w[0] == 0x41 && w[7] == 0x65);
        }
        if conmon_frame(p) {
            assert(s =~= w);
        }
    }
}

/// The sender's address stands in the eight bytes before the word: without the two in its
/// middle where they are the filling 0xFF 0xFE, and the first six elsewhere.
pub proof fn law_monitoring_senders(p: Seq<u8>)
    requires
        p.len() >= 24,
    ensures
        p[11] == 0xff && p[12] == 0xfe ==> sender_mac(p)@ == p.subrange(8, 11) + p.subrange(13, 16),
        !(p[11] == 0xff && p[12] == 0xfe) ==> sender_mac(p)@ == p.subrange(8, 14),
{
    if p[11] == 0xff && p[12] == 0xfe {
        assert(sender_mac(p)@ =~= p.subrange(8, 11) + p.subrange(13, 16));
    } else {
        assert(sender_mac(p)@ =~= p.subrange(8, 14));
    }
}

/// The channels stand at 0x44 of a metering frame, which is marked `MBC`, repeats its
/// sender, counts at least one, and is long enough for a value of each.
pub proof fn law_monitoring_channels(p: Seq<u8>)
    requires
        conmon_frame(p),
    ensures
        channel_count(p) matches Some(n) ==> p.len() > 0x44 && n == p[0x44] && n > 0,
        channel_count(p) is Some <==> p.len() > 0x44 && p.subrange(0x2a, 0x2d) == seq![0x4du8, 0x42, 0x43]
            && p.subrange(0x30, 0x36) == sender_mac(p)@ && p[0x44] > 0 && 0x47 + p[0x44] <= p[2] * 256
            + p[3],
{
    if p.len() > 0x44 {
        let s = p.subrange(0x2a, 0x2d);
        let w = seq![0x4du8, 0x42, 0x43];
        assert(s[0] == p[0x2a] && s[1] == p[0x2b] && s[2] == p[0x2c]);
        if s == w {
            assert(w[0] == 0x4d && w[1] == 0x42 && w[2] == 0x43);
        }
        if channel_count(p) is Some {
            assert(s =~= w);
        }
    }
}

// ── LLDP ─────────────────────────────────────────────────────────────────────

/// A port is told to save energy where its wake times are announced and one of them is
/// above zero.
pub proof fn law_saving_ports_have_wake_times(p: Seq<u8>)
    ensures
        eee_port(p) matches Some(v) ==> v == tlvs(p) && v.eee && (v.tx_wake_us > 0 || v.rx_wake_us > 0),
        eee_port(p) is None <==> !tlvs(p).eee || (tlvs(p).tx_wake_us == 0 && tlvs(p).rx_wake_us == 0),
{
}

/// A message says what its fields say, in turn, up to one that ends it or is cut off.
/// Seven bits tell what a field is, and nine how long.
pub proof fn law_fields_in_turn(p: Seq<u8>, pos: int, v: LldpView, kind: int, len: int)
    requires
        0 <= pos,
        pos + 2 <= p.len(),
        kind == p[pos] / 2,
        len == p[pos] % 2 * 256 + p[pos + 1],
    ensures
        kind == 0 || pos + 2 + len > p.len() ==> tlvs_from(p, pos, v) == v,
        kind != 0 && pos + 2 + len <= p.len() ==> tlvs_from(p, pos, v) == tlvs_from(
            p,
            pos + 2 + len,
            with_tlv(v, p, kind, len, pos + 2),
        ),
        tlvs_from(p, p.len() as int, v) == v,
{
    lemma_seven_and_nine(p[pos], p[pos + 1]);
}

proof fn lemma_seven_and_nine(a: u8, b: u8)
    ensures
        (a * 256 + b) / 512 == a / 2,
        (a * 256 + b) % 512 == a % 2 * 256 + b,
{
}

/// A field of kind 1 names the chassis and one of kind 2 the port, behind a byte that
/// says how; one of kind 127 with the mark 00-12-0F-05 and at least fourteen bytes gives
/// the wake times. Any other field says nothing.
pub proof fn law_fields_say(v: LldpView, p: Seq<u8>, kind: int, len: int, o: int)
    requires
        0 <= o,
        0 <= len,
        o + len <= p.len(),
    ensures
        kind == 1 && len >= 2 ==> with_tlv(v, p, kind, len, o) == (LldpView {
            chassis_id: lldp_id(p.subrange(o + 1, o + len)),
            ..v
        }),
        kind == 2 && len >= 2 ==> with_tlv(v, p, kind, len, o) == (LldpView {
            port_id: lldp_id(p.subrange(o + 1, o + len)),
            ..v
        }),
        kind == 127 && len >= 14 && p[o] == 0 && p[o + 1] == 0x12 && p[o + 2] == 0x0F && p[o + 3] == 5
            ==> with_tlv(v, p, kind, len, o) == (LldpView {
            tx_wake_us: (p[o + 4] * 256 + p[o + 5]) as u16,
            rx_wake_us: (p[o + 6] * 256 + p[o + 7]) as u16,
            eee: true,
            ..v
        }),
        len < 2 ==> with_tlv(v, p, kind, len, o) == v,
        kind != 1 && kind != 2 && kind != 127 ==> with_tlv(v, p, kind, len, o) == v,
        kind == 127 && (len < 14 || p[o] != 0 || p[o + 1] != 0x12 || p[o + 2] != 0x0F || p[o + 3] != 5)
            ==> with_tlv(v, p, kind, len, o) == v,
{
}

/// A name that can be read is told trimmed, and any other as its bytes.
pub proof fn law_names_or_bytes(b: Seq<u8>)
    ensures
        valid_utf8(b) && (forall|i: int|
            0 <= i < decode_utf8(b).len() ==> ' ' <= #[trigger] decode_utf8(b)[i] <= '~') ==> lldp_id(b)
            == trim(decode_utf8(b)),
        !valid_utf8(b) ==> lldp_id(b) == hex_colons(b),
        !printable(decode_utf8(b)) ==> lldp_id(b) == hex_colons(b),
{
}

// ── mDNS ─────────────────────────────────────────────────────────────────────

proof fn lemma_first_occurrence(p: Seq<u8>, needle: Seq<u8>, from: int, i: int)
    requires
        0 <= from <= i,
        stands_at(p, needle, i),
        forall|j: int| from <= j < i ==> !stands_at(p, needle, j),
    ensures
        occurrence(p, needle, from) == Some(i),
    decreases i - from,
{
    if from < i {
        lemma_first_occurrence(p, needle, from + 1, i);
    }
}

/// An instance is named by the label before the first occurrence of its service: a byte
/// that counts it and as many that can be read.
pub proof fn law_instances_are_named_before_the_service(p: Seq<u8>, needle: Seq<u8>, i: int, n: nat)
    requires
        1 <= n <= 63,
        n + 1 <= i,
        i + needle.len() <= p.len(),
        p.subrange(i, i + needle.len()) == needle,
        forall|j: int| 0 <= j < i ==> !stands_at(p, needle, j),
        p[i - n - 1] == n,
        label(p.subrange(i - n, i)) is Some,
        forall|m: int|
            n < m <= 63 && m + 1 <= i && p[i - m - 1] == m ==> label(
                #[trigger] p.subrange(i - m, i),
            ) is None,
    ensures
        instance_name(p, needle) == label(p.subrange(i - n, i)),
{
    assert(stands_at(p, needle, i));
    lemma_first_occurrence(p, needle, 0, i);
    lemma_longest_label(p, i, 63, n);
}

proof fn lemma_longest_label(p: Seq<u8>, i: int, top: nat, n: nat)
    requires
        1 <= n <= top <= 63,
        n + 1 <= i <= p.len(),
        p[i - n - 1] == n,
        label(p.subrange(i - n, i)) is Some,
        forall|m: int|
            n < m <= 63 && m + 1 <= i && p[i - m - 1] == m ==> label(
                #[trigger] p.subrange(i - m, i),
            ) is None,
    ensures
        label_before(p, i, top) == label(p.subrange(i - n, i)),
    decreases top,
{
    if top > n {
        lemma_longest_label(p, i, (top - 1) as nat, n);
        if top + 1 <= i && p[i - top - 1] == top {
            assert(label(p.subrange(i - top, i)) is None);
        }
    }
}

/// A label is read where it is text of printable characters around which white space is
/// taken off, and where any is left.
pub proof fn law_labels_are_readable(b: Seq<u8>)
    ensures
        label(b) matches Some(s) ==> valid_utf8(b) && s == trim(decode_utf8(b)) && s.len() > 0 && (
        forall|i: int| 0 <= i < s.len() ==> ' ' <= #[trigger] s[i] <= '~'),
        valid_utf8(b) && trim(decode_utf8(b)).len() > 0 && (forall|i: int|
            0 <= i < trim(decode_utf8(b)).len() ==> ' ' <= #[trigger] trim(decode_utf8(b))[i] <= '~')
            ==> label(b) is Some,
{
}

/// A device's name is taken from its control service first, from its routing service
/// next, from its audio service then, and from its pointer records last.
pub proof fn law_device_names_by_service(p: Seq<u8>)
    ensures
        ({
            let cmc = instance_name(
                p,
                seq![13u8, 0x5f, 0x6e, 0x65, 0x74, 0x61, 0x75, 0x64, 0x69, 0x6f, 0x2d, 0x63, 0x6d, 0x63],
            );
            let arc = instance_name(
                p,
                seq![13u8, 0x5f, 0x6e, 0x65, 0x74, 0x61, 0x75, 0x64, 0x69, 0x6f, 0x2d, 0x61, 0x72, 0x63],
            );
            let audio = instance_name(
                p,
                seq![9u8, 0x5f, 0x6e, 0x65, 0x74, 0x61, 0x75, 0x64, 0x69, 0x6f],
            );
            &&& cmc is Some ==> dante_name(p) == cmc
            &&& cmc is None && arc is Some ==> dante_name(p) == arc
            &&& cmc is None && arc is None && audio is Some ==> dante_name(p) == audio
            &&& cmc is None && arc is None && audio is None ==> dante_name(p) == response_name(p)
        }),
{
}

/// A name ends behind a zero byte, behind a pointer of two bytes, and behind the label
/// that it starts with where the rest does. No label is longer than 63 bytes.
pub proof fn law_names_end(p: Seq<u8>, off: int)
    requires
        0 <= off < p.len(),
    ensures
        p[off] == 0 ==> name_end(p, off) == Some(off + 1),
        p[off] >= 0xC0 ==> name_end(p, off) == Some(off + 2),
        0x40 <= p[off] < 0xC0 ==> name_end(p, off) is None,
        0 < p[off] < 0x40 && off + 1 + p[off] < p.len() ==> name_end(p, off) == name_end(
            p,
            off + 1 + p[off],
        ),
        0 < p[off] < 0x40 && off + 1 + p[off] >= p.len() ==> name_end(p, off) is None,
{
}

/// The questions of a response are passed over, each of them a name and four bytes; a
/// record is a name, ten bytes and as many more as it counts. The first label of the first
/// record of kind 12 that has one is the response's name.
pub proof fn law_responses_are_named_by_pointers(p: Seq<u8>, off: int, e: int, n: nat)
    requires
        p.len() >= 12,
        name_end(p, off) == Some(e),
        n > 0,
        0 <= e,
        e + 10 <= p.len(),
    ensures
        questions_end(p, off, n) == questions_end(p, e + 4, (n - 1) as nat),
        questions_end(p, off, 0) == Some(off),
        p[e] == 0 && p[e + 1] == 12 && label_at(p, e + 10) is Some ==> pointer_name(p, off, n) == label_at(
            p,
            e + 10,
        ),
        ({
            let next = e + 10 + p[e + 8] * 256 + p[e + 9];
            (p[e] != 0 || p[e + 1] != 12 || label_at(p, e + 10) is None) && next <= p.len()
                ==> pointer_name(p, off, n) == pointer_name(p, next, (n - 1) as nat)
        }),
        ({
            let questions = (p[4] * 256 + p[5]) as nat;
            let answers = (p[6] * 256 + p[7]) as nat;
            questions_end(p, 12, questions) matches Some(o) ==> response_name(p) == pointer_name(
                p,
                o,
                answers,
            )
        }),
        pointer_name(p, off, 0) is None,
{
}

/// The label at a place is counted by the byte there.
pub proof fn law_labels_are_counted(p: Seq<u8>, off: int, n: int)
    requires
        0 <= off < p.len(),
        n == p[off],
    ensures
        1 <= n <= 63 && off + 1 + n <= p.len() ==> label_at(p, off) == label(
            p.subrange(off + 1, off + 1 + n),
        ),
        n == 0 || n > 63 || off + 1 + n > p.len() ==> label_at(p, off) is None,
{
}

/// A registration message is read piece by piece. An attribute has its kind and its length;
/// a vector counts in its lower thirteen bits and holds a value and a byte for each three
/// of them; an empty vector ends the attribute, unless it only carries an event for all.
pub proof fn law_registrations_in_turn(p: Seq<u8>, pos: int, kind: u8, len: u8, vlans: Seq<u16>, n: int)
    requires
        0 <= pos,
        pos + 2 <= p.len(),
        n == (p[pos] * 256 + p[pos + 1]) % 8192,
    ensures
        p[pos] != 0 && p[pos + 1] != 0 ==> mvrp_from(p, pos, None, vlans) == mvrp_from(
            p,
            pos + 2,
            Some((p[pos], p[pos + 1])),
            vlans,
        ),
        p[pos] == 0 || p[pos + 1] == 0 ==> mvrp_from(p, pos, None, vlans) == vlans,
        p[pos] == 0 && p[pos + 1] == 0 ==> mvrp_from(p, pos, Some((kind, len)), vlans) == mvrp_from(
            p,
            pos + 2,
            None,
            vlans,
        ),
        n == 0 && p[pos] != 0 ==> mvrp_from(p, pos, Some((kind, len)), vlans) == mvrp_from(
            p,
            pos + 2,
            Some((kind, len)),
            vlans,
        ),
        n > 0 && pos + 2 + len > p.len() ==> mvrp_from(p, pos, Some((kind, len)), vlans) == vlans,
        n > 0 && pos + 2 + len + (n + 2) / 3 <= p.len() && kind == 1 && len == 2 ==> mvrp_from(
            p,
            pos,
            Some((kind, len)),
            vlans,
        ) == mvrp_from(
            p,
            pos + 4 + (n + 2) / 3,
            Some((kind, len)),
            registered(vlans, ((p[pos + 2] * 256 + p[pos + 3]) % 4096) as int, n as nat),
        ),
        n > 0 && pos + 2 + len + (n + 2) / 3 <= p.len() && (kind != 1 || len != 2) ==> mvrp_from(
            p,
            pos,
            Some((kind, len)),
            vlans,
        ) == mvrp_from(p, pos + 2 + len + (n + 2) / 3, Some((kind, len)), vlans),
        mvrp_from(p, p.len() as int, Some((kind, len)), vlans) == vlans,
        p.len() > 0 && p[0] == 0 ==> mvrp(p) == mvrp_from(p, 1, None, Seq::empty()),
{
    assert(be16(p, pos) == p[pos] * 256 + p[pos + 1]);
}

} // verus!
