//! Reading of link layer discovery.

use avstreamlens::parser::lldp::parse_lldp_eee;
use avstreamlens::protocols::AvProtocol;

fn lldp_with_eee(tx: u16, rx: u16) -> Vec<u8> {
    let mut p = Vec::new();
    p.extend_from_slice(&[0x02, 0x07, 0x04, 0xAA, 0xBB, 0xCC, 0xDD, 0xEE, 0xFF]);
    p.extend_from_slice(&[0x04, 0x07, 0x03, 0x11, 0x22, 0x33, 0x44, 0x55, 0x66]);
    p.extend_from_slice(&[0xFE, 0x0E, 0x00, 0x12, 0x0F, 0x05]);
    p.extend_from_slice(&tx.to_be_bytes());
    p.extend_from_slice(&rx.to_be_bytes());
    p.extend_from_slice(&[0x00; 8]);
    p.extend_from_slice(&[0x00, 0x00]);
    p
}

#[test]
fn lldp_eee_detected_with_wake_times() {
    let proto = parse_lldp_eee(&lldp_with_eee(16, 16)).unwrap();
    match proto {
        AvProtocol::LldpEee { tx_wake_us, rx_wake_us, .. } => {
            assert_eq!(tx_wake_us, 16);
            assert_eq!(rx_wake_us, 16);
        }
        _ => panic!("expected LldpEee variant"),
    }
}

#[test]
fn lldp_eee_zero_wake_times_ignored() {
    assert!(parse_lldp_eee(&lldp_with_eee(0, 0)).is_none());
}

#[test]
fn lldp_no_eee_tlv_returns_none() {
    let p = [
        0x02, 0x07, 0x04, 0xAA, 0xBB, 0xCC, 0xDD, 0xEE, 0xFF,
        0x04, 0x07, 0x03, 0x11, 0x22, 0x33, 0x44, 0x55, 0x66,
        0x00, 0x00,
    ];
    assert!(parse_lldp_eee(&p).is_none());
}
