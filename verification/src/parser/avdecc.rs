//! AVDECC discovery announcements.
//!
//! Behind the subtype byte stand the message type, the valid time in units of
//! two seconds, the entity and its model, its capabilities, the state index and
//! the grandmaster in use.

use vstd::prelude::*;

use crate::parser::bytes::{be16, be32, id_at, read16, read32, read_id};
use crate::protocols::AvdeccAdp;
use crate::text::{hex_colons, push_hex_colons};

verus! {

/// The announcement that bytes hold.
pub open spec fn adp(p: Seq<u8>) -> Option<AvdeccAdp> {
    if p.len() < 49 || p[0] != 0xFA {
        None
    } else {
        Some(
            AvdeccAdp {
                message_type: p[1] % 16,
                entity_id: id_at(p, 4),
                entity_model_id: id_at(p, 12),
                entity_capabilities: be32(p, 20),
                talker_stream_sources: be16(p, 24),
                talker_capabilities: be16(p, 26),
                listener_stream_sinks: be16(p, 28),
                listener_capabilities: be16(p, 30),
                gptp_grandmaster_id: id_at(p, 40),
                gptp_domain_number: p[48],
                valid_time_secs: (be16(p, 2) / 2048 * 2) as u64,
                available_index: be32(p, 36),
            },
        )
    }
}

/// Reads an announcement from the start of its AVTP header.
pub fn parse_adp(payload: &[u8]) -> (r: Option<AvdeccAdp>)
    ensures
        r == adp(payload@),
{
    let p: &[u8] = payload;
    if p.len() < 49 || p[0] != 0xFA {
        return None;
    }
    Some(
        AvdeccAdp {
            message_type: p[1] % 16,
            entity_id: read_id(p, 4),
            entity_model_id: read_id(p, 12),
            entity_capabilities: read32(p, 20),
            talker_stream_sources: read16(p, 24),
            talker_capabilities: read16(p, 26),
            listener_stream_sinks: read16(p, 28),
            listener_capabilities: read16(p, 30),
            gptp_grandmaster_id: read_id(p, 40),
            gptp_domain_number: p[48],
            valid_time_secs: (read16(p, 2) / 2048) as u64 * 2,
            available_index: read32(p, 36),
        },
    )
}

/// An EUI-64 in colon-separated hexadecimal.
pub fn fmt_eui64(b: &[u8; 8]) -> (s: String)
    ensures
        s@ == hex_colons(b@),
{
    let mut s: String = String::new();
    push_eui64(&mut s, b);
    assert(s@ =~= hex_colons(b@));
    s
}

/// Appends an EUI-64 in colon-separated hexadecimal.
pub fn push_eui64(s: &mut String, b: &[u8; 8])
    ensures
        final(s)@ == old(s)@ + hex_colons(b@),
{
    push_hex_colons(s, b.as_slice());
}

/// What media an entity handles: bit 9 audio, bit 10 video.
pub open spec fn media_summary(caps: u16) -> Seq<char> {
    let audio = caps / 0x200 % 2 == 1;
    let video = caps / 0x400 % 2 == 1;
    if audio && video {
        "audio+video"@
    } else if audio {
        "audio"@
    } else if video {
        "video"@
    } else {
        "other"@
    }
}

/// What media an entity handles.
pub fn media_type_summary(caps: u16) -> (s: &'static str)
    ensures
        s@ == media_summary(caps),
{
    let audio: bool = caps / 0x200 % 2 == 1;
    let video: bool = caps / 0x400 % 2 == 1;
    if audio && video {
        "audio+video"
    } else if audio {
        "audio"
    } else if video {
        "video"
    } else {
        "other"
    }
}

/// The stream reservation classes of an entity: bit 8 class A, bit 9 class B.
pub open spec fn sr_class(caps: u32) -> Seq<char> {
    let a = caps / 0x100 % 2 == 1;
    let b = caps / 0x200 % 2 == 1;
    if a && b {
        "Class A+B"@
    } else if a {
        "Class A"@
    } else if b {
        "Class B"@
    } else {
        ""@
    }
}

/// The stream reservation classes of an entity.
pub fn sr_class_str(entity_caps: u32) -> (s: &'static str)
    ensures
        s@ == sr_class(entity_caps),
{
    let a: bool = entity_caps / 0x100 % 2 == 1;
    let b: bool = entity_caps / 0x200 % 2 == 1;
    if a && b {
        "Class A+B"
    } else if a {
        "Class A"
    } else if b {
        "Class B"
    } else {
        ""
    }
}

/// Whether an entity has an AEM descriptor model: bit 3.
pub open spec fn has_aem(caps: u32) -> bool {
    caps / 8 % 2 == 1
}

/// Whether an entity is not ready: bit 17.
pub open spec fn not_ready(caps: u32) -> bool {
    caps / 0x2_0000 % 2 == 1
}

} // verus!
