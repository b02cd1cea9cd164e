//! Reading of names from mDNS.

use avstreamlens::parser::mdns::{extract_dante_name, extract_ndi_name, first_dns_label, skip_dns_name};

#[test]
fn dante_name_extracted_from_mdns_label() {
    let mut p = vec![0x05, b'S', b't', b'a', b'g', b'e'];
    p.extend_from_slice(b"\x09_netaudio");
    assert_eq!(extract_dante_name(&p), Some("Stage".to_string()));
}

#[test]
fn dante_name_extracted_from_netaudio_cmc_label() {
    let instance = b"Y001-Yamaha-DM7";
    let mut p = vec![instance.len() as u8];
    p.extend_from_slice(instance);
    p.extend_from_slice(b"\x0d_netaudio-cmc");
    assert_eq!(extract_dante_name(&p), Some("Y001-Yamaha-DM7".to_string()));
}

#[test]
fn dante_name_extracted_from_netaudio_arc_label() {
    let instance = b"TASCAM";
    let mut p = vec![instance.len() as u8];
    p.extend_from_slice(instance);
    p.extend_from_slice(b"\x0d_netaudio-arc");
    assert_eq!(extract_dante_name(&p), Some("TASCAM".to_string()));
}

#[test]
fn ndi_name_extracted_from_mdns_label() {
    let mut p = vec![0x06, b'S', b'o', b'u', b'r', b'c', b'e'];
    p.extend_from_slice(b"\x04_ndi");
    assert_eq!(extract_ndi_name(&p), Some("Source".to_string()));
}

#[test]
fn dante_name_absent_returns_none() {
    assert!(extract_dante_name(b"no matching service here").is_none());
}

fn build_ptr_response(instance: &str) -> Vec<u8> {
    let mut p: Vec<u8> = Vec::new();
    p.extend_from_slice(&[0x00, 0x00]);
    p.extend_from_slice(&[0x84, 0x00]);
    p.extend_from_slice(&[0x00, 0x01]);
    p.extend_from_slice(&[0x00, 0x01]);
    p.extend_from_slice(&[0x00, 0x00]);
    p.extend_from_slice(&[0x00, 0x00]);

    let qname_offset = p.len() as u16;
    p.extend_from_slice(b"\x0d_netaudio-arc\x04_udp\x05local\x00");
    p.extend_from_slice(&[0x00, 0x0C]);
    p.extend_from_slice(&[0x00, 0x01]);

    p.push(0xC0);
    p.push(qname_offset as u8);
    p.extend_from_slice(&[0x00, 0x0C]);
    p.extend_from_slice(&[0x00, 0x01]);
    p.extend_from_slice(&[0x00, 0x00, 0x00, 0x78]);

    let mut rdata: Vec<u8> = Vec::new();
    rdata.push(instance.len() as u8);
    rdata.extend_from_slice(instance.as_bytes());
    rdata.push(0xC0);
    rdata.push(qname_offset as u8);
    p.extend_from_slice(&(rdata.len() as u16).to_be_bytes());
    p.extend_from_slice(&rdata);
    p
}

#[test]
fn extract_name_from_compressed_ptr_response() {
    let pkt = build_ptr_response("Y001-Yamaha-DSP-RX-HY1");
    assert_eq!(extract_dante_name(&pkt), Some("Y001-Yamaha-DSP-RX-HY1".to_string()));
}

#[test]
fn extract_name_from_compressed_ptr_response_long_name() {
    let name = "Y009-Yamaha-Rio3224-D2-19862a";
    let pkt = build_ptr_response(name);
    assert_eq!(extract_dante_name(&pkt), Some(name.to_string()));
}

#[test]
fn skip_dns_name_plain_labels() {
    let name = b"\x0d_netaudio-arc\x04_udp\x05local\x00";
    assert_eq!(skip_dns_name(name, 0), Some(name.len()));
}

#[test]
fn skip_dns_name_compression_pointer() {
    let data = b"\xc0\x0c";
    assert_eq!(skip_dns_name(data, 0), Some(2));
}

#[test]
fn first_dns_label_extracts_instance() {
    let data = b"\x16Y001-Yamaha-DSP-RX-HY1\xc0\x0c";
    assert_eq!(first_dns_label(data, 0), Some("Y001-Yamaha-DSP-RX-HY1".to_string()));
}
