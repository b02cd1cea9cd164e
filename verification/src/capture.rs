//! What a capture has gathered, what each packet does to it, and what is checked
//! at the end of each window.
//!
//! Nothing here reads or writes anything outside: handlers change the state and
//! hand back alerts, which the caller shows and logs.

pub use crate::capture::alert::{ansi_color, emitted, stream_clock_kind, Alert, AlertLevel, MissingClock, MissingClockKind};
pub use crate::capture::avb::AvbState;
pub use crate::capture::checks::WindowChecks;
pub use crate::capture::dante::DanteState;
pub use crate::capture::dispatch::dispatch;
pub use crate::capture::igmp::IgmpState;
pub use crate::capture::ndi::NdiState;
pub use crate::capture::ptp::PtpState;
pub use crate::capture::state::CaptureState;

pub mod alert;
pub mod avb;
pub mod check_laws;
pub mod checks;
pub mod dante;
pub mod dispatch;
pub mod flows;
pub mod handlers;
pub mod igmp;
pub mod link;
pub mod media;
pub mod media_laws;
pub mod message_laws;
pub mod ndi;
pub mod ptp;
pub mod reset_laws;
pub mod soundness;
pub mod state;
