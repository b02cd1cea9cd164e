//! Counters of one TCP flow.

use vstd::prelude::*;

use crate::net::Ipv4Addr;
use crate::protocols::SECOND;
use crate::stats::stream::{bits_per_second, rate, since};

verus! {

/// How well a TCP flow does.
#[derive(Debug, Clone, Copy, PartialEq, Eq, Structural)]
pub enum StreamQuality {
    Healthy,
    /// Retransmissions are growing.
    Degrading,
    /// Many retransmissions.
    Critical,
    /// Reset, or closed from both ends.
    Terminated,
}

/// What is known of one TCP flow.
#[derive(Debug, Clone, Copy)]
pub struct TcpStreamStats {
    pub src_ip: Ipv4Addr,
    pub dst_ip: Ipv4Addr,
    pub packets: u64,
    pub bytes: u64,
    pub retransmissions: u64,
    pub fin_packets: u64,
    pub rst_packets: u64,
    pub last_seen: u64,
    pub stream_quality: StreamQuality,
    pub bitrate_bps: u64,
    pub last_bitrate_check: u64,
    pub bytes_at_check: u64,
    /// The last sequence number, by which retransmissions are told.
    pub last_seq: Option<u32>,
    pub last_ack: Option<u32>,
}

impl View for TcpStreamStats {
    type V = TcpStreamStats;

    open spec fn view(&self) -> TcpStreamStats {
        *self
    }
}

/// A flow of which nothing is known yet.
pub open spec fn fresh_flow(src_ip: Ipv4Addr, dst_ip: Ipv4Addr, now: u64) -> TcpStreamStats {
    TcpStreamStats {
        src_ip,
        dst_ip,
        packets: 0,
        bytes: 0,
        retransmissions: 0,
        fin_packets: 0,
        rst_packets: 0,
        last_seen: now,
        stream_quality: StreamQuality::Healthy,
        bitrate_bps: 0,
        last_bitrate_check: now,
        bytes_at_check: 0,
        last_seq: None,
        last_ack: None,
    }
}

/// The flow with its bitrate measured, over spans of more than a second.
pub open spec fn with_rate(t: TcpStreamStats, now: u64) -> TcpStreamStats {
    let elapsed = since(now, t.last_bitrate_check);
    if elapsed > SECOND {
        TcpStreamStats {
            bitrate_bps: rate(t.bytes.saturating_sub(t.bytes_at_check), elapsed),
            bytes_at_check: t.bytes,
            last_bitrate_check: now,
            ..t
        }
    } else {
        t
    }
}

/// How well a flow with the given counts does.
pub open spec fn quality(retransmissions: u64, fins: u64, resets: u64) -> StreamQuality {
    if resets > 0 || fins >= 2 {
        StreamQuality::Terminated
    } else if retransmissions > 10 {
        StreamQuality::Critical
    } else if retransmissions > 2 {
        StreamQuality::Degrading
    } else {
        StreamQuality::Healthy
    }
}

/// The flow with its quality judged.
pub open spec fn with_quality(t: TcpStreamStats) -> TcpStreamStats {
    TcpStreamStats {
        stream_quality: quality(t.retransmissions, t.fin_packets, t.rst_packets),
        ..t
    }
}

impl TcpStreamStats {
    /// A flow of which nothing is known yet.
    pub fn new(src_ip: Ipv4Addr, dst_ip: Ipv4Addr, now: u64) -> (r: Self)
        ensures
            r == fresh_flow(src_ip, dst_ip, now),
    {
        TcpStreamStats {
            src_ip,
            dst_ip,
            packets: 0,
            bytes: 0,
            retransmissions: 0,
            fin_packets: 0,
            rst_packets: 0,
            last_seen: now,
            stream_quality: StreamQuality::Healthy,
            bitrate_bps: 0,
            last_bitrate_check: now,
            bytes_at_check: 0,
            last_seq: None,
            last_ack: None,
        }
    }

    /// Measures the bitrate.
    pub fn update_bitrate(&mut self, now: u64)
        ensures
            *final(self) == with_rate(*old(self), now),
    {
        let elapsed: u64 = now.saturating_sub(self.last_bitrate_check);
        if elapsed > SECOND {
            self.bitrate_bps = bits_per_second(
                self.bytes.saturating_sub(self.bytes_at_check),
                elapsed,
            );
            self.bytes_at_check = self.bytes;
            self.last_bitrate_check = now;
        }
    }

    /// Judges the quality.
    pub fn update_quality(&mut self)
        ensures
            *final(self) == with_quality(*old(self)),
    {
        self.stream_quality = if self.rst_packets > 0 || self.fin_packets >= 2 {
            StreamQuality::Terminated
        } else if self.retransmissions > 10 {
            StreamQuality::Critical
        } else if self.retransmissions > 2 {
            StreamQuality::Degrading
        } else {
            StreamQuality::Healthy
        };
    }
}

} // verus!
