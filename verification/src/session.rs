//! A monitoring session: what it joins and asks for at the start, when it reports,
//! and when it ends.
//!
//! The caller reads packets, opens sockets and writes lines; what it is to do next
//! is decided here.

pub use crate::session::groups::{drain_pending_joins, join_failed_text, join_text, record_join, should_join_group, startup_groups, stream_join_text, StartupGroup};
pub use crate::session::names::{live_banner, log_file_name, replay_banner, LogTime};
pub use crate::session::probe::{mdns_startup_probe, Probe};
pub use crate::session::run::{capture_error_text, do_report, exit_code, OfflineReportClock, Run};

pub mod groups;
pub mod laws;
pub mod names;
pub mod probe;
pub mod run;
