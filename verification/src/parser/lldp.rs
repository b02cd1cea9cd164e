//! LLDP frames, searched for the energy efficient Ethernet TLV.
//!
//! A TLV is seven bits of type, nine bits of length and the value. The EEE TLV
//! is organizationally specific (type 127) with OUI 00-12-0F and subtype 5; its
//! wake-up times follow.

use vstd::prelude::*;
use vstd::slice::slice_subrange;
use vstd::utf8::*;

use crate::parser::bytes::{be16, read16};
use crate::protocols::AvProtocol;
use crate::scan::{all_printable, decoded, printable, string_of, trim, trimmed};
use crate::text::{hex_colons, push_hex_colons};

verus! {

/// What is gathered from the TLVs of a frame.
pub struct LldpView {
    pub chassis_id: Seq<char>,
    pub port_id: Seq<char>,
    pub tx_wake_us: u16,
    pub rx_wake_us: u16,
    pub eee: bool,
}

/// An identifier as text where it is printable, else in hexadecimal.
pub open spec fn lldp_id(b: Seq<u8>) -> Seq<char> {
    if valid_utf8(b) && printable(decode_utf8(b)) {
        trim(decode_utf8(b))
    } else {
        hex_colons(b)
    }
}

/// Shows an identifier as text where it is printable, else in hexadecimal.
pub fn format_lldp_id(bytes: &[u8]) -> (s: String)
    ensures
        s@ == lldp_id(bytes@),
{
    match decoded(bytes) {
        Some(v) => {
            if all_printable(v.as_slice()) {
                return string_of(trimmed(v.as_slice()));
            }
        },
        None => {},
    }
    let mut s: String = String::new();
    push_hex_colons(&mut s, bytes);
    assert(s@ =~= hex_colons(bytes@));
    s
}

/// What one TLV with its value at `o` adds.
pub open spec fn with_tlv(v: LldpView, p: Seq<u8>, kind: int, len: int, o: int) -> LldpView {
    if kind == 1 && len >= 2 {
        LldpView { chassis_id: lldp_id(p.subrange(o + 1, o + len)), ..v }
    } else if kind == 2 && len >= 2 {
        LldpView { port_id: lldp_id(p.subrange(o + 1, o + len)), ..v }
    } else if kind == 127 && len >= 14 && p[o] == 0x00 && p[o + 1] == 0x12 && p[o + 2] == 0x0F
        && p[o + 3] == 0x05 {
        LldpView { tx_wake_us: be16(p, o + 4), rx_wake_us: be16(p, o + 6), eee: true, ..v }
    } else {
        v
    }
}

/// What the TLVs from `pos` on add, up to the end mark or a truncated one.
pub open spec fn tlvs_from(p: Seq<u8>, pos: int, v: LldpView) -> LldpView
    decreases p.len() - pos,
{
    if pos < 0 || pos + 2 > p.len() {
        v
    } else {
        let kind = be16(p, pos) / 512;
        let len = be16(p, pos) % 512;
        if kind == 0 || pos + 2 + len > p.len() {
            v
        } else {
            tlvs_from(p, pos + 2 + len, with_tlv(v, p, kind as int, len as int, pos + 2))
        }
    }
}

/// What the TLVs of a frame tell.
pub open spec fn tlvs(p: Seq<u8>) -> LldpView {
    tlvs_from(
        p,
        0,
        LldpView {
            chassis_id: Seq::empty(),
            port_id: Seq::empty(),
            tx_wake_us: 0,
            rx_wake_us: 0,
            eee: false,
        },
    )
}

/// The EEE port that a frame tells of: the TLV is there and some wake-up time is
/// not zero.
pub open spec fn eee_port(p: Seq<u8>) -> Option<LldpView> {
    let v = tlvs(p);
    if v.eee && (v.tx_wake_us > 0 || v.rx_wake_us > 0) {
        Some(v)
    } else {
        None
    }
}

/// Reads an LLDP frame for an EEE port.
pub fn parse_lldp_eee(payload: &[u8]) -> (r: Option<AvProtocol>)
    ensures
        match eee_port(payload@) {
            Some(v) => r matches Some(AvProtocol::LldpEee {
                chassis_id,
                port_id,
                tx_wake_us,
                rx_wake_us,
            }) && chassis_id@ == v.chassis_id && port_id@ == v.port_id && tx_wake_us == v.tx_wake_us
                && rx_wake_us == v.rx_wake_us,
            None => r is None,
        },
{
    let p: &[u8] = payload;
    let n: usize = p.len();
    let mut pos: usize = 0;
    let mut chassis_id: String = String::new();
    let mut port_id: String = String::new();
    let mut tx_wake: u16 = 0;
    let mut rx_wake: u16 = 0;
    let mut eee: bool = false;
    while n - pos >= 2
        invariant_except_break
            tlvs_from(
                p@,
                pos as int,
                LldpView {
                    chassis_id: chassis_id@,
                    port_id: port_id@,
                    tx_wake_us: tx_wake,
                    rx_wake_us: rx_wake,
                    eee,
                },
            ) == tlvs(p@),
        invariant
            n == p@.len(),
            pos <= n,
        ensures
            tlvs(p@) == (LldpView {
                chassis_id: chassis_id@,
                port_id: port_id@,
                tx_wake_us: tx_wake,
                rx_wake_us: rx_wake,
                eee,
            }),
        decreases n - pos,
    {
        let header: u16 = read16(p, pos);
        let kind: u16 = header / 512;
        let len: usize = (header % 512) as usize;
        if kind == 0 || n - pos - 2 < len {
            break;
        }
        let o: usize = pos + 2;
        if kind == 1 && len >= 2 {
            chassis_id = format_lldp_id(slice_subrange(p, o + 1, o + len));
        } else if kind == 2 && len >= 2 {
            port_id = format_lldp_id(slice_subrange(p, o + 1, o + len));
        } else if kind == 127 && len >= 14 && p[o] == 0x00 && p[o + 1] == 0x12 && p[o + 2] == 0x0F
            && p[o + 3] == 0x05 {
            tx_wake = read16(p, o + 4);
            rx_wake = read16(p, o + 6);
            eee = true;
        }
        pos = o + len;
    }
    if eee && (tx_wake > 0 || rx_wake > 0) {
        Some(
            AvProtocol::LldpEee {
                chassis_id,
                port_id,
                tx_wake_us: tx_wake,
                rx_wake_us: rx_wake,
            },
        )
    } else {
        None
    }
}

} // verus!
