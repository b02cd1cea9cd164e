//! Passive monitoring of AV-over-IP networks: frame classification, stream and
//! clock statistics, health scoring and report layout.

pub mod binary;
pub mod binary_laws;
pub mod capture;
pub mod cli;
pub mod net;
pub mod order;
pub mod order_laws;
pub mod parser;
pub mod protocol_laws;
pub mod protocols;
pub mod report;
pub mod scan;
pub mod session;
pub mod stats;
pub mod table;
pub mod table_laws;
pub mod text;
pub mod text_laws;
