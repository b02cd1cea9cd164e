//! Reading of flow control.

use avstreamlens::parser::flow_control::parse_flow_control;
use avstreamlens::protocols::{AvProtocol, FlowControlKind};

#[test]
fn pause_frame_detected() {
    let p = [0x00, 0x01, 0x00, 0xFF, 0x00, 0x00, 0x00, 0x00];
    match parse_flow_control(&p) {
        Some(AvProtocol::FlowControl { kind: FlowControlKind::Pause }) => {}
        other => panic!("expected Pause, got {:?}", other),
    }
}

#[test]
fn pfc_frame_detected() {
    let mut p = vec![0x01, 0x01, 0x00, 0xFF];
    p.extend_from_slice(&[0x00; 16]);
    match parse_flow_control(&p) {
        Some(AvProtocol::FlowControl { kind: FlowControlKind::PriorityFlowControl }) => {}
        other => panic!("expected PFC, got {:?}", other),
    }
}

#[test]
fn unknown_opcode_returns_none() {
    assert!(parse_flow_control(&[0xFF, 0xFF]).is_none());
}

#[test]
fn truncated_payload_returns_none() {
    assert!(parse_flow_control(&[0x00]).is_none());
}
