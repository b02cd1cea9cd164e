//! Counters of AVB streams, and the devices that announce themselves.

use vstd::prelude::*;

use crate::order::{bytes_leq, id_le, lemma_bytes_total, lemma_bytes_transitive, Ranked};
use crate::protocols::SECOND;
use crate::stats::diagnostic::Pct;
use crate::stats::stream::{bits_per_second, rate, since};
use crate::text::{hex2, hex_colons, push_hex2, push_hex_colons};

verus! {

/// An AVDECC entity by its last announcement. It is dropped ten seconds after
/// what it announced has run out.
#[derive(Debug, Clone, Copy)]
pub struct AvdeccEntity {
    pub entity_id: [u8; 8],
    pub entity_model_id: [u8; 8],
    pub entity_capabilities: u32,
    pub talker_stream_sources: u16,
    pub talker_capabilities: u16,
    pub listener_stream_sinks: u16,
    pub listener_capabilities: u16,
    pub gptp_grandmaster_id: [u8; 8],
    pub gptp_domain_number: u8,
    pub valid_time_secs: u64,
    pub available_index: u32,
    pub last_seen: u64,
}

impl View for AvdeccEntity {
    type V = AvdeccEntity;

    open spec fn view(&self) -> AvdeccEntity {
        *self
    }
}

impl Ranked for AvdeccEntity {
    open spec fn leq(a: AvdeccEntity, b: AvdeccEntity) -> bool {
        bytes_leq(a.entity_id@, b.entity_id@)
    }

    proof fn total(a: AvdeccEntity, b: AvdeccEntity) {
        lemma_bytes_total(a.entity_id@, b.entity_id@);
    }

    proof fn transitive(a: AvdeccEntity, b: AvdeccEntity, c: AvdeccEntity) {
        lemma_bytes_transitive(a.entity_id@, b.entity_id@, c.entity_id@);
    }

    fn le(&self, other: &Self) -> (r: bool) {
        id_le(&self.entity_id, &other.entity_id)
    }
}

/// A Dante device that was seen in its monitoring multicast. Snooping switches
/// never prune that traffic, so it shows a device on every port.
#[derive(Debug, Clone, Copy)]
pub struct ConmonDevice {
    pub mac: [u8; 6],
    pub channels: Option<u8>,
    pub packets: u64,
    pub last_seen: u64,
}

impl View for ConmonDevice {
    type V = ConmonDevice;

    open spec fn view(&self) -> ConmonDevice {
        *self
    }
}

/// What is known of one AVTP stream.
#[derive(Debug, Clone, Copy)]
pub struct AvtpStreamStats {
    pub stream_id: [u8; 8],
    pub subtype: u8,
    pub packets: u64,
    pub lost_frames: u64,
    pub last_seq: Option<u8>,
    pub last_seen: u64,
    pub bytes_total: u64,
    pub bytes_at_check: u64,
    pub bitrate_bps: u64,
    pub last_bitrate_check: u64,
    /// Frames of this stream whose priority differs from the reserved one.
    pub pcp_violations: u64,
    pub observed_pcp: Option<u8>,
    pub msrp_declared_pcp: Option<u8>,
}

impl View for AvtpStreamStats {
    type V = AvtpStreamStats;

    open spec fn view(&self) -> AvtpStreamStats {
        *self
    }
}

impl Ranked for AvtpStreamStats {
    open spec fn leq(a: AvtpStreamStats, b: AvtpStreamStats) -> bool {
        bytes_leq(a.stream_id@, b.stream_id@)
    }

    proof fn total(a: AvtpStreamStats, b: AvtpStreamStats) {
        lemma_bytes_total(a.stream_id@, b.stream_id@);
    }

    proof fn transitive(a: AvtpStreamStats, b: AvtpStreamStats, c: AvtpStreamStats) {
        lemma_bytes_transitive(a.stream_id@, b.stream_id@, c.stream_id@);
    }

    fn le(&self, other: &Self) -> (r: bool) {
        id_le(&self.stream_id, &other.stream_id)
    }
}

/// An AVTP stream of which nothing is known yet.
pub open spec fn fresh_avtp(stream_id: [u8; 8], subtype: u8, now: u64) -> AvtpStreamStats {
    AvtpStreamStats {
        stream_id,
        subtype,
        packets: 0,
        lost_frames: 0,
        last_seq: None,
        last_seen: now,
        bytes_total: 0,
        bytes_at_check: 0,
        bitrate_bps: 0,
        last_bitrate_check: now,
        pcp_violations: 0,
        observed_pcp: None,
        msrp_declared_pcp: None,
    }
}

/// The stream after the bytes of a frame were counted.
pub open spec fn with_frame_bytes(s: AvtpStreamStats, len: u64, now: u64) -> AvtpStreamStats {
    let total = s.bytes_total.wrapping_add(len);
    let elapsed = since(now, s.last_bitrate_check);
    if elapsed > SECOND {
        AvtpStreamStats {
            bytes_total: total,
            bitrate_bps: rate(total.saturating_sub(s.bytes_at_check), elapsed),
            bytes_at_check: total,
            last_bitrate_check: now,
            ..s
        }
    } else {
        AvtpStreamStats { bytes_total: total, ..s }
    }
}

/// The stream after a frame with the given sequence number: a step ahead is a
/// loss of as many frames, a step back is none.
pub open spec fn with_frame_seq(s: AvtpStreamStats, seq: u8) -> AvtpStreamStats {
    let lost = match s.last_seq {
        Some(last) => {
            let step = seq.wrapping_sub(last.wrapping_add(1));
            if step < 0x80 {
                s.lost_frames.wrapping_add(step as u64)
            } else {
                s.lost_frames
            }
        },
        None => s.lost_frames,
    };
    AvtpStreamStats { lost_frames: lost, last_seq: Some(seq), ..s }
}

/// A stream identifier: the six bytes of an address and a number.
pub open spec fn stream_id_text(id: Seq<u8>) -> Seq<char> {
    hex_colons(id.subrange(0, 6)).push(':') + hex2(id[6]) + hex2(id[7])
}

/// Appends a stream identifier.
pub fn push_stream_id(s: &mut String, id: &[u8; 8])
    ensures
        final(s)@ == old(s)@ + stream_id_text(id@),
{
    let front: [u8; 6] = [id[0], id[1], id[2], id[3], id[4], id[5]];
    assert(front@ =~= id@.subrange(0, 6));
    push_hex_colons(s, front.as_slice());
    s.append(":");
    push_hex2(s, id[6]);
    push_hex2(s, id[7]);
    proof {
        reveal_strlit(":");
        assert(s@ =~= old(s)@ + stream_id_text(id@));
    }
}

impl AvtpStreamStats {
    /// A stream of which nothing is known yet.
    pub fn new(stream_id: [u8; 8], subtype: u8, now: u64) -> (r: Self)
        ensures
            r == fresh_avtp(stream_id, subtype, now),
    {
        AvtpStreamStats {
            stream_id,
            subtype,
            packets: 0,
            lost_frames: 0,
            last_seq: None,
            last_seen: now,
            bytes_total: 0,
            bytes_at_check: 0,
            bitrate_bps: 0,
            last_bitrate_check: now,
            pcp_violations: 0,
            observed_pcp: None,
            msrp_declared_pcp: None,
        }
    }

    /// Counts the bytes of a frame and measures the bitrate.
    pub fn update_bitrate(&mut self, frame_bytes: u64, now: u64)
        ensures
            *final(self) == with_frame_bytes(*old(self), frame_bytes, now),
    {
        self.bytes_total = self.bytes_total.wrapping_add(frame_bytes);
        let elapsed: u64 = now.saturating_sub(self.last_bitrate_check);
        if elapsed > SECOND {
            self.bitrate_bps = bits_per_second(
                self.bytes_total.saturating_sub(self.bytes_at_check),
                elapsed,
            );
            self.bytes_at_check = self.bytes_total;
            self.last_bitrate_check = now;
        }
    }

    /// Counts the frames that a sequence number shows to be missing.
    pub fn update_seq(&mut self, seq: u8)
        ensures
            *final(self) == with_frame_seq(*old(self), seq),
    {
        if let Some(last) = self.last_seq {
            let step: u8 = seq.wrapping_sub(last.wrapping_add(1));
            if step < 0x80 {
                self.lost_frames = self.lost_frames.wrapping_add(step as u64);
            }
        }
        self.last_seq = Some(seq);
    }

    /// The share of frames lost.
    pub fn loss_pct(&self) -> (r: Pct)
        ensures
            r == (Pct { part: self.lost_frames, received: self.packets, lost: self.lost_frames }),
    {
        Pct { part: self.lost_frames, received: self.packets, lost: self.lost_frames }
    }

    /// The stream identifier in text.
    pub fn stream_id_str(&self) -> (s: String)
        ensures
            s@ == stream_id_text(self.stream_id@),
    {
        let mut s: String = String::from_str("");
        push_stream_id(&mut s, &self.stream_id);
        proof {
            reveal_strlit("");
            assert(s@ =~= stream_id_text(self.stream_id@));
        }
        s
    }
}

/// The frame after the last one is no loss, and a frame from behind is none.
pub proof fn law_frames_in_order_are_no_loss(s: AvtpStreamStats, last: u8, back: u8)
    requires
        s.last_seq == Some(last),
        back < 0x80,
    ensures
        with_frame_seq(s, last.wrapping_add(1)).lost_frames == s.lost_frames,
        with_frame_seq(s, last.wrapping_sub(back)).lost_frames == s.lost_frames,
{
}

/// A gap counts as many losses as frames are missing.
pub proof fn law_gap_counts_missing_frames(s: AvtpStreamStats, last: u8, missing: u8)
    requires
        s.last_seq == Some(last),
        missing < 0x80,
    ensures
        with_frame_seq(s, last.wrapping_add(1).wrapping_add(missing)).lost_frames
            == s.lost_frames.wrapping_add(missing as u64),
{
}

} // verus!
