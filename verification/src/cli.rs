//! The command line: its flags, the menus, and the choices made with them.

pub use crate::cli::args::{parse_cli_args, resolve_color_enabled, unknown_protocol_text, CliArgs, CliStop, Parsed};
pub use crate::cli::interfaces::{interface_line, macos_port_names, offered_interfaces, out_of_range_text, resolve_interface_by_name, select_interface, windows_ip_lookup, Interface, InterfaceChoice};
pub use crate::cli::selection::{all_protocols_filter, build_bpf_filter, expand, parse_protocol_str, prompt_protocol_selection, protocol_menu, selected_extras_display, selected_protocol_display, selected_protocol_names, unknown_protocols, with_vlan_arm};

pub mod args;
pub mod interfaces;
pub mod laws;
pub mod selection;
