//! Dante control and monitoring frames. They run over link-local multicast that
//! switches never prune, so they show every live device on the segment.
//!
//! The sender's identity stands in bytes 8 to 15, either as a plain MAC address
//! or as an EUI-64 with `FF:FE` in its middle. Bytes 16 to 23 spell "Audinate".

use vstd::prelude::*;

use crate::parser::bytes::{be16, read16};

verus! {

/// What a control and monitoring frame tells.
#[derive(Debug, Clone, Copy, PartialEq)]
pub struct ConmonInfo {
    pub device_mac: [u8; 6],
    /// The channel count of a metering frame.
    pub channels: Option<u8>,
}

/// Bytes 16 to 23 spell "Audinate".
pub open spec fn signed_audinate(p: Seq<u8>) -> bool {
    p[16] == 0x41 && p[17] == 0x75 && p[18] == 0x64 && p[19] == 0x69 && p[20] == 0x6e && p[21]
        == 0x61 && p[22] == 0x74 && p[23] == 0x65
}

/// A frame: long enough, signed, and no longer declared than it is.
pub open spec fn conmon_frame(p: Seq<u8>) -> bool {
    p.len() >= 24 && signed_audinate(p) && 24 <= be16(p, 2) <= p.len()
}

/// The MAC address of the sender, without the filler of an EUI-64.
pub open spec fn sender_mac(p: Seq<u8>) -> [u8; 6] {
    if p[11] == 0xff && p[12] == 0xfe {
        [p[8], p[9], p[10], p[13], p[14], p[15]]
    } else {
        [p[8], p[9], p[10], p[11], p[12], p[13]]
    }
}

/// The channel count: tagged "MBC", under the sender's own address, and with
/// room for one meter byte per channel.
pub open spec fn channel_count(p: Seq<u8>) -> Option<u8> {
    if p.len() > 0x44 && p[0x2a] == 0x4d && p[0x2b] == 0x42 && p[0x2c] == 0x43 && p.subrange(
        0x30,
        0x36,
    ) == sender_mac(p)@ && p[0x44] > 0 && 0x47 + p[0x44] <= be16(p, 2) {
        Some(p[0x44])
    } else {
        None
    }
}

/// Reads a control and monitoring frame.
pub fn parse_conmon(payload: &[u8]) -> (r: Option<ConmonInfo>)
    ensures
        r == (if conmon_frame(payload@) {
            Some(ConmonInfo { device_mac: sender_mac(payload@), channels: channel_count(payload@) })
        } else {
            None
        }),
{
    let p: &[u8] = payload;
    if p.len() < 24 {
        return None;
    }
    let signed: bool = p[16] == 0x41 && p[17] == 0x75 && p[18] == 0x64 && p[19] == 0x69 && p[20]
        == 0x6e && p[21] == 0x61 && p[22] == 0x74 && p[23] == 0x65;
    if !signed {
        return None;
    }
    let declared: usize = read16(p, 2) as usize;
    if declared < 24 || declared > p.len() {
        return None;
    }
    let device_mac: [u8; 6] = if p[11] == 0xff && p[12] == 0xfe {
        [p[8], p[9], p[10], p[13], p[14], p[15]]
    } else {
        [p[8], p[9], p[10], p[11], p[12], p[13]]
    };
    let channels: Option<u8> = if p.len() > 0x44 && p[0x2a] == 0x4d && p[0x2b] == 0x42 && p[0x2c]
        == 0x43 && p[0x30] == device_mac[0] && p[0x31] == device_mac[1] && p[0x32] == device_mac[2]
        && p[0x33] == device_mac[3] && p[0x34] == device_mac[4] && p[0x35] == device_mac[5]
        && p[0x44] > 0 && 0x47 + p[0x44] as usize <= declared {
        Some(p[0x44])
    } else {
        None
    };
    proof {
        let s = p@.subrange(0x30, 0x36);
        if p@.len() > 0x44 {
            if p@[0x30] == device_mac@[0] && p@[0x31] == device_mac@[1] && p@[0x32]
                == device_mac@[2] && p@[0x33] == device_mac@[3] && p@[0x34] == device_mac@[4]
                && p@[0x35] == device_mac@[5] {
                assert(s =~= device_mac@);
            } else {
                assert(s[0] == p@[0x30] && s[1] == p@[0x31] && s[2] == p@[0x32] && s[3] == p@[0x33]
                    && s[4] == p@[0x34] && s[5] == p@[0x35]);
                assert(s != device_mac@);
            }
        }
    }
    Some(ConmonInfo { device_mac, channels })
}

/// Two EUI-64 identities that differ outside the filler name different devices.
pub proof fn law_identities_stay_apart(p: Seq<u8>, q: Seq<u8>)
    requires
        conmon_frame(p),
        conmon_frame(q),
        p[11] == 0xff && p[12] == 0xfe,
        q[11] == 0xff && q[12] == 0xfe,
        p.subrange(8, 16) != q.subrange(8, 16),
    ensures
        sender_mac(p) != sender_mac(q),
{
    let a = sender_mac(p)@;
    let b = sender_mac(q)@;
    assert(a[0] == p[8] && a[1] == p[9] && a[2] == p[10] && a[3] == p[13] && a[4] == p[14] && a[5]
        == p[15]);
    assert(b[0] == q[8] && b[1] == q[9] && b[2] == q[10] && b[3] == q[13] && b[4] == q[14] && b[5]
        == q[15]);
    if a == b {
        assert(p.subrange(8, 16) =~= q.subrange(8, 16));
    }
}

} // verus!
