//! PAUSE and priority flow control frames. Many network cards keep these to
//! themselves, so their absence proves nothing.

use vstd::prelude::*;

use crate::parser::bytes::{be16, read16};
use crate::protocols::{AvProtocol, FlowControlKind};

verus! {

/// The kind of flow control that a frame's opcode tells.
pub open spec fn flow_kind(p: Seq<u8>) -> Option<FlowControlKind> {
    if p.len() < 2 {
        None
    } else if be16(p, 0) == 0x0001 {
        Some(FlowControlKind::Pause)
    } else if be16(p, 0) == 0x0101 {
        Some(FlowControlKind::PriorityFlowControl)
    } else {
        None
    }
}

/// Reads a flow control frame behind its EtherType.
pub fn parse_flow_control(payload: &[u8]) -> (r: Option<AvProtocol>)
    ensures
        match flow_kind(payload@) {
            Some(kind) => r == Some(AvProtocol::FlowControl { kind }),
            None => r is None,
        },
{
    if payload.len() < 2 {
        return None;
    }
    let opcode: u16 = read16(payload, 0);
    if opcode == 0x0001 {
        Some(AvProtocol::FlowControl { kind: FlowControlKind::Pause })
    } else if opcode == 0x0101 {
        Some(AvProtocol::FlowControl { kind: FlowControlKind::PriorityFlowControl })
    } else {
        None
    }
}

} // verus!
