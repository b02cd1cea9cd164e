//! PTP messages of versions 1 and 2.
//!
//! Version 2 tells itself by a 2 in the low half of byte 1. Everything else is
//! version 1, whose fields stand two bytes behind where the compact layout of
//! the first implementations had them.

use vstd::prelude::*;
use vstd::slice::slice_subrange;
use vstd::utf8::*;

use crate::parser::bytes::{be16, be64, read16, read64};
use crate::protocols::{PtpInfo, PtpInfoView, PTP_VERSION_V1, PTP_VERSION_V2};
use crate::scan::{all_printable, decoded, printable, string_of, trim, trim_end_of, trimmed, trimmed_end_of};
use crate::text::{dec, digit, hex_colons, push_char, push_dec, push_hex_colons};

verus! {

/// The domain of a version 1 subdomain name. Unknown names share domain 0 with
/// the default one.
pub open spec fn subdomain(s: Seq<u8>) -> u8 {
    if s.len() >= 5 && s[0] == 0x5f && s[1] == 0x41 && s[2] == 0x4c && s[3] == 0x54 {
        if s[4] == 0x31 {
            1
        } else if s[4] == 0x32 {
            2
        } else if s[4] == 0x33 {
            3
        } else {
            0
        }
    } else {
        0
    }
}

/// Maps a version 1 subdomain name to its domain: `_ALT1` to `_ALT3` are 1 to 3.
pub fn map_ptpv1_subdomain(s: &[u8]) -> (d: u8)
    ensures
        d == subdomain(s@),
{
    if s.len() >= 5 && s[0] == 0x5f && s[1] == 0x41 && s[2] == 0x4c && s[3] == 0x54 {
        match s[4] {
            0x31 => 1,
            0x32 => 2,
            0x33 => 3,
            _ => 0,
        }
    } else {
        0
    }
}

/// The name of a clock class.
pub open spec fn clock_class(class: u8) -> Seq<char> {
    if class == 6 {
        "Primary reference — locked"@
    } else if class == 7 {
        "Primary reference — free-running"@
    } else if class == 52 {
        "Application-specific"@
    } else if class == 135 {
        "Primary reference — holdover"@
    } else if class == 165 {
        "Default"@
    } else if class == 187 || class == 255 {
        "Slave-only"@
    } else {
        "class="@ + dec(class as nat)
    }
}

/// Names a clock class.
pub fn ptp_class_str(class: u8) -> (s: String)
    ensures
        s@ == clock_class(class),
{
    match class {
        6 => String::from_str("Primary reference — locked"),
        7 => String::from_str("Primary reference — free-running"),
        52 => String::from_str("Application-specific"),
        135 => String::from_str("Primary reference — holdover"),
        165 => String::from_str("Default"),
        187 | 255 => String::from_str("Slave-only"),
        _ => {
            let mut s: String = String::from_str("class=");
            push_dec(&mut s, class as u64);
            s
        },
    }
}

/// The name of a clock accuracy.
pub open spec fn clock_accuracy(acc: u8) -> Seq<char> {
    if 0x20 <= acc <= 0x21 {
        "< 100 ns"@
    } else if 0x22 <= acc <= 0x23 {
        "< 1 µs"@
    } else if 0x24 <= acc <= 0x25 {
        "< 10 µs"@
    } else if 0x26 <= acc <= 0x27 {
        "< 100 µs"@
    } else if 0x28 <= acc <= 0x29 {
        "< 1 ms"@
    } else if acc == 0xFE {
        "unknown precision"@
    } else {
        "other"@
    }
}

/// Names a clock accuracy.
pub fn ptp_accuracy_str(acc: u8) -> (s: &'static str)
    ensures
        s@ == clock_accuracy(acc),
{
    match acc {
        0x20..=0x21 => "< 100 ns",
        0x22..=0x23 => "< 1 µs",
        0x24..=0x25 => "< 10 µs",
        0x26..=0x27 => "< 100 µs",
        0x28..=0x29 => "< 1 ms",
        0xFE => "unknown precision",
        _ => "other",
    }
}

/// A byte as a signed number.
pub open spec fn signed8(b: u8) -> i8 {
    if b < 128 {
        b as i8
    } else {
        (b - 256) as i8
    }
}

fn read_signed8(b: u8) -> (n: i8)
    ensures
        n == signed8(b),
{
    if b < 128 {
        b as i8
    } else {
        (b as i16 - 256) as i8
    }
}

/// A correction field in nanoseconds: the signed number over two to the 16,
/// rounded down.
pub open spec fn correction(n: u64) -> i64 {
    if n < 0x8000_0000_0000_0000 {
        (n / 0x1_0000) as i64
    } else {
        ((n - 0x1_0000_0000_0000_0000) / 0x1_0000) as i64
    }
}

fn read_correction(n: u64) -> (c: i64)
    ensures
        c == correction(n),
        -0x8000_0000_0000 <= c < 0x8000_0000_0000,
{
    if n < 0x8000_0000_0000_0000 {
        (n / 0x1_0000) as i64
    } else {
        (n / 0x1_0000) as i64 - 0x1_0000_0000_0000
    }
}

fn hex_id(b: &[u8]) -> (s: String)
    ensures
        s@ == hex_colons(b@),
{
    let mut s: String = String::new();
    push_hex_colons(&mut s, b);
    assert(s@ =~= hex_colons(b@));
    s
}

// ── Version 1 ────────────────────────────────────────────────────────────────

/// The message type that a version 1 control byte stands for.
pub open spec fn v1_type(control: u8) -> u8 {
    if control == 0 {
        0x00
    } else if control == 1 {
        0x01
    } else if control == 2 {
        0x08
    } else if control == 3 {
        0x09
    } else if control == 4 {
        0x0D
    } else {
        0xFF
    }
}

/// The name of a version 1 message.
pub open spec fn v1_name(control: u8) -> Seq<char> {
    if control == 0 {
        "Sync"@
    } else if control == 1 {
        "Delay_Req"@
    } else if control == 2 {
        "Follow_Up"@
    } else if control == 3 {
        "Delay_Resp"@
    } else if control == 4 {
        "Management"@
    } else {
        "Unknown"@
    }
}

/// The readable identifier of a version 1 clock, empty where there is none.
pub open spec fn v1_ident(b: Seq<u8>) -> Seq<char> {
    let t = trim(trim_end_of(decode_utf8(b), '\0'));
    if valid_utf8(b) && t.len() > 0 && printable(t) {
        t
    } else {
        Seq::empty()
    }
}

/// The name of a stratum.
pub open spec fn stratum_name(n: u8) -> Seq<char> {
    if n == 0 {
        "Preferred grandmaster"@
    } else if n == 1 {
        "Primary reference"@
    } else if n == 2 {
        "Secondary reference"@
    } else {
        "Stratum "@ + dec(n as nat)
    }
}

/// The quality of a version 1 grandmaster.
pub open spec fn v1_quality(stratum: u8, ident: Seq<char>) -> Seq<char> {
    if ident.len() == 0 {
        stratum_name(stratum)
    } else {
        stratum_name(stratum) + "  "@ + ident
    }
}

/// Only zeros.
pub open spec fn all_zero(b: Seq<u8>) -> bool {
    forall|i: int| 0 <= i < b.len() ==> #[trigger] b[i] == 0
}

/// A Sync whose body tells the grandmaster.
pub open spec fn v1_body(p: Seq<u8>, shift: int) -> bool {
    p[30 + shift] == 0 && p.len() >= 66
}

/// A Sync that names its grandmaster.
pub open spec fn v1_named(p: Seq<u8>, shift: int) -> bool {
    v1_body(p, shift) && !all_zero(p.subrange(50, 56))
}

/// The version 1 message that bytes hold, its header `shift` bytes behind the
/// compact layout.
pub open spec fn ptp_v1(p: Seq<u8>, shift: int) -> Option<PtpInfoView> {
    if p.len() < 40 {
        None
    } else {
        Some(
            PtpInfoView {
                version: PTP_VERSION_V1,
                message_type: v1_type(p[30 + shift]),
                domain: subdomain(p.subrange(2 + shift, 18 + shift)),
                clock_id: Some(hex_colons(p.subrange(20 + shift, 26 + shift))),
                grandmaster_id: if v1_named(p, shift) {
                    Some(hex_colons(p.subrange(50, 56)))
                } else {
                    None
                },
                clock_quality: if v1_named(p, shift) {
                    Some(v1_quality(p[61], v1_ident(p.subrange(62, 66))))
                } else {
                    None
                },
                correction_ns: None,
                path_delay_ns: None,
                message_name: v1_name(p[30 + shift]),
                port_id: Some(be16(p, 26 + shift)),
                sequence_id: be16(p, 28 + shift),
                log_sync_interval: signed8(p[31 + shift]),
                log_min_pdelay_req_interval: 0,
                protocol_kind: None,
                src_ip: None,
                stratum: if v1_body(p, shift) {
                    Some(p[61])
                } else {
                    None
                },
            },
        )
    }
}

fn v1_message(control: u8) -> (r: (u8, &'static str))
    ensures
        r.0 == v1_type(control),
        r.1@ == v1_name(control),
{
    match control {
        0x00 => (0x00, "Sync"),
        0x01 => (0x01, "Delay_Req"),
        0x02 => (0x08, "Follow_Up"),
        0x03 => (0x09, "Delay_Resp"),
        0x04 => (0x0D, "Management"),
        _ => (0xFF, "Unknown"),
    }
}

fn read_ident(b: &[u8]) -> (s: String)
    ensures
        s@ == v1_ident(b@),
{
    match decoded(b) {
        Some(v) => {
            let t: &[char] = trimmed(trimmed_end_of(v.as_slice(), '\0'));
            if t.len() > 0 && all_printable(t) {
                return string_of(t);
            }
        },
        None => {},
    }
    String::new()
}

fn quality_of(stratum: u8, ident: &String) -> (s: String)
    ensures
        s@ == v1_quality(stratum, ident@),
{
    let mut s: String = match stratum {
        0 => String::from_str("Preferred grandmaster"),
        1 => String::from_str("Primary reference"),
        2 => String::from_str("Secondary reference"),
        n => {
            let mut t: String = String::from_str("Stratum ");
            push_dec(&mut t, n as u64);
            t
        },
    };
    if !ident.as_str().is_empty() {
        s.append("  ");
        s.append(ident.as_str());
    }
    s
}

fn is_zero(b: &[u8]) -> (r: bool)
    ensures
        r == all_zero(b@),
{
    let mut i: usize = 0;
    while i < b.len()
        invariant
            i <= b@.len(),
            forall|j: int| 0 <= j < i ==> #[trigger] b@[j] == 0,
        decreases b@.len() - i,
    {
        if b[i] != 0 {
            return false;
        }
        i += 1;
    }
    true
}

/// Reads a version 1 message.
pub fn parse_ptp_v1(payload: &[u8], hdr_shift: usize) -> (r: Option<PtpInfo>)
    requires
        payload@.len() < 40 || hdr_shift + 32 <= payload@.len(),
    ensures
        match r {
            Some(info) => ptp_v1(payload@, hdr_shift as int) == Some(info@),
            None => ptp_v1(payload@, hdr_shift as int) is None,
        },
{
    let p: &[u8] = payload;
    let k: usize = hdr_shift;
    if p.len() < 40 {
        return None;
    }
    let control: u8 = p[30 + k];
    let (message_type, message_name) = v1_message(control);
    let body: bool = control == 0 && p.len() >= 66;
    let named: bool = body && !is_zero(slice_subrange(p, 50, 56));
    let grandmaster_id: Option<String> = if named {
        Some(hex_id(slice_subrange(p, 50, 56)))
    } else {
        None
    };
    let clock_quality: Option<String> = if named {
        Some(quality_of(p[61], &read_ident(slice_subrange(p, 62, 66))))
    } else {
        None
    };
    let stratum: Option<u8> = if body {
        Some(p[61])
    } else {
        None
    };
    Some(
        PtpInfo {
            version: PTP_VERSION_V1,
            message_type,
            domain: map_ptpv1_subdomain(slice_subrange(p, 2 + k, 18 + k)),
            clock_id: Some(hex_id(slice_subrange(p, 20 + k, 26 + k))),
            grandmaster_id,
            clock_quality,
            correction_ns: None,
            path_delay_ns: None,
            message_name: String::from_str(message_name),
            port_id: Some(read16(p, 26 + k)),
            sequence_id: read16(p, 28 + k),
            log_sync_interval: read_signed8(p[31 + k]),
            log_min_pdelay_req_interval: 0,
            protocol_kind: None,
            src_ip: None,
            stratum,
        },
    )
}

// ── Version 2 ────────────────────────────────────────────────────────────────

/// A hexadecimal digit with capitals.
pub open spec fn capital_digit(d: nat) -> char {
    if d < 10 {
        digit(d)
    } else {
        (55 + d) as char
    }
}

/// The name of a version 2 message type.
pub open spec fn v2_name(t: u8) -> Seq<char> {
    if t == 0x0 {
        "Sync"@
    } else if t == 0x1 {
        "Delay_Req"@
    } else if t == 0x2 {
        "P_Delay_Req"@
    } else if t == 0x3 {
        "P_Delay_Resp"@
    } else if t == 0x8 {
        "Follow_Up"@
    } else if t == 0x9 {
        "Delay_Resp"@
    } else if t == 0xA {
        "P_Delay_Resp_Follow_Up"@
    } else if t == 0xB {
        "Announce"@
    } else if t == 0xC {
        "Signaling"@
    } else if t == 0xD {
        "Management"@
    } else {
        "Unknown(0x"@.push(capital_digit(t as nat)).push(')')
    }
}

/// An Announce that is long enough to name its grandmaster.
pub open spec fn announce(p: Seq<u8>) -> bool {
    p[0] % 16 == 0xB && p.len() >= 64
}

/// The version 2 message that bytes hold.
pub open spec fn ptp_v2(p: Seq<u8>) -> Option<PtpInfoView> {
    if p.len() < 34 {
        None
    } else {
        Some(
            PtpInfoView {
                version: PTP_VERSION_V2,
                message_type: p[0] % 16,
                domain: p[4],
                clock_id: Some(hex_colons(p.subrange(20, 28))),
                grandmaster_id: if announce(p) {
                    Some(hex_colons(p.subrange(53, 61)))
                } else {
                    None
                },
                clock_quality: if announce(p) {
                    Some(clock_class(p[48]) + "  "@ + clock_accuracy(p[49]))
                } else {
                    None
                },
                correction_ns: Some(correction(be64(p, 8))),
                path_delay_ns: if p[0] % 16 == 0x9 || p[0] % 16 == 0x3 {
                    Some(correction(be64(p, 8)))
                } else {
                    None
                },
                message_name: v2_name(p[0] % 16),
                port_id: Some(be16(p, 28)),
                sequence_id: be16(p, 30),
                log_sync_interval: signed8(p[33]),
                log_min_pdelay_req_interval: if p.len() >= 55 {
                    signed8(p[54])
                } else {
                    0
                },
                protocol_kind: None,
                src_ip: None,
                stratum: None,
            },
        )
    }
}

/// The message that bytes hold.
pub open spec fn ptp(p: Seq<u8>) -> Option<PtpInfoView> {
    if p.len() < 2 {
        None
    } else if p[1] % 16 != PTP_VERSION_V2 {
        ptp_v1(p, 2)
    } else {
        ptp_v2(p)
    }
}

fn v2_message_name(t: u8) -> (s: String)
    requires
        t < 16,
    ensures
        s@ == v2_name(t),
{
    match t {
        0x0 => String::from_str("Sync"),
        0x1 => String::from_str("Delay_Req"),
        0x2 => String::from_str("P_Delay_Req"),
        0x3 => String::from_str("P_Delay_Resp"),
        0x8 => String::from_str("Follow_Up"),
        0x9 => String::from_str("Delay_Resp"),
        0xA => String::from_str("P_Delay_Resp_Follow_Up"),
        0xB => String::from_str("Announce"),
        0xC => String::from_str("Signaling"),
        0xD => String::from_str("Management"),
        _ => {
            let mut s: String = String::from_str("Unknown(0x");
            let c: char = if t < 10 {
                (48 + t) as char
            } else {
                (55 + t) as char
            };
            push_char(&mut s, c);
            push_char(&mut s, ')');
            s
        },
    }
}

fn announced_quality(class: u8, accuracy: u8) -> (s: String)
    ensures
        s@ == clock_class(class) + "  "@ + clock_accuracy(accuracy),
{
    let mut s: String = ptp_class_str(class);
    s.append("  ");
    s.append(ptp_accuracy_str(accuracy));
    s
}

fn parse_ptp_v2(p: &[u8]) -> (r: Option<PtpInfo>)
    ensures
        match r {
            Some(info) => ptp_v2(p@) == Some(info@),
            None => ptp_v2(p@) is None,
        },
{
    if p.len() < 34 {
        return None;
    }
    let message_type: u8 = p[0] % 16;
    let named: bool = message_type == 0xB && p.len() >= 64;
    let correction_ns: i64 = read_correction(read64(p, 8));
    let grandmaster_id: Option<String> = if named {
        Some(hex_id(slice_subrange(p, 53, 61)))
    } else {
        None
    };
    let clock_quality: Option<String> = if named {
        Some(announced_quality(p[48], p[49]))
    } else {
        None
    };
    let path_delay_ns: Option<i64> = if message_type == 0x9 || message_type == 0x3 {
        Some(correction_ns)
    } else {
        None
    };
    Some(
        PtpInfo {
            version: PTP_VERSION_V2,
            message_type,
            domain: p[4],
            clock_id: Some(hex_id(slice_subrange(p, 20, 28))),
            grandmaster_id,
            clock_quality,
            correction_ns: Some(correction_ns),
            path_delay_ns,
            message_name: v2_message_name(message_type),
            port_id: Some(read16(p, 28)),
            sequence_id: read16(p, 30),
            log_sync_interval: read_signed8(p[33]),
            log_min_pdelay_req_interval: if p.len() >= 55 {
                read_signed8(p[54])
            } else {
                0
            },
            protocol_kind: None,
            src_ip: None,
            stratum: None,
        },
    )
}

/// Reads a PTP message. Its kind of network and its sender are left to the
/// caller.
pub fn parse_ptp(payload: &[u8]) -> (r: Option<PtpInfo>)
    ensures
        match r {
            Some(info) => ptp(payload@) == Some(info@),
            None => ptp(payload@) is None,
        },
{
    if payload.len() < 2 {
        None
    } else if payload[1] % 16 != PTP_VERSION_V2 {
        parse_ptp_v1(payload, 2)
    } else {
        parse_ptp_v2(payload)
    }
}

/// A version 1 message measures no path and a version 2 message has no stratum;
/// only a Sync or an Announce names a grandmaster.
pub proof fn law_versions_differ(p: Seq<u8>)
    ensures
        ptp(p) matches Some(info) ==> {
            &&& info.version == PTP_VERSION_V1 ==> info.path_delay_ns is None
                && info.correction_ns is None
            &&& info.version == PTP_VERSION_V2 ==> info.stratum is None
            &&& info.grandmaster_id is Some ==> info.message_type == 0x00 || info.message_type
                == 0x0B
            &&& info.stratum is Some ==> info.message_type == 0x00
        },
{
}

} // verus!
