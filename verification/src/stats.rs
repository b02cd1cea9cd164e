//! Counters and verdicts: per stream, per PTP domain, and for the network as a
//! whole.
//!
//! Times are nanoseconds of one monotonic clock, read by the caller and passed in.
//! Plain counters wrap.
//!
//! What is not whole is counted in small units: clock rates in microhertz, jitter in
//! picoseconds, deductions and the score in millionths of a point. Jitter that moves
//! by part of a unit is rounded towards where it was, and a deduction for loss is
//! rounded up, so that no loss is free. Bitrates, and all that is shown, are rounded
//! as double precision rounds them.

pub use crate::stats::avtp::{AvdeccEntity, AvtpStreamStats, ConmonDevice};
pub use crate::stats::diagnostic::{DscpMarking, Jitter, Pct, StreamDiagnostic};
pub use crate::stats::health::{NetworkHealth, ScorePenalty};
pub use crate::stats::ptp::{path_delay_hop_estimate, path_delay_spread_unstable, path_delay_too_many_hops, PtpEvent, PtpStats};
pub use crate::stats::stream::{IatRing, StreamStats};
pub use crate::stats::tcp::{StreamQuality, TcpStreamStats};

pub mod avtp;
pub mod diagnostic;
pub mod flow_laws;
pub mod health;
pub mod laws;
pub mod ptp;
pub mod score_laws;
pub mod stream;
pub mod stream_laws;
pub mod tcp;
