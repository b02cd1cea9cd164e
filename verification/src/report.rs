//! What a report shows: its sections as lines, and the whole of it as what goes
//! to the log and to the terminal.

pub use crate::report::clocks::{format_missing_clock, render_clock_sources};
pub use crate::report::discovery::{dante_tx_flow_count, render_avdecc_entities, render_discovery, transmitter_tag, tx_flow_suffix, DiscoveryInputs};
pub use crate::report::line::{ansi, status_detail, status_entry, Console, Output, RenderedLine, DETAIL_INDENT, ENTRY_INDENT};
pub use crate::report::print::{print_report, quiet_suppressible, AvbSnapshot, DanteSnapshot, PeriodicAlerts, ReportSession, ReportSnapshot};
pub use crate::report::status::{render_network_status, NetworkStatusInputs};
pub use crate::report::streams::render_streams;

pub mod clocks;
pub mod discovery;
pub mod laws;
pub mod line;
pub mod print;
pub mod status;
pub mod streams;
