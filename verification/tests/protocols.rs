//! What the choices of the user ask for, and what gives a transmitter away.

use avstreamlens::net::Ipv4Addr;
use avstreamlens::protocols::{
    classify_transmitter, dante_control_plane_class, is_software_ignoring_dscp, AvProtocol,
    IgmpType, ProtocolChoice, TransmitterClass, TransmitterConfidence, TransmitterSignals,
};

#[test]
fn needs_ptp_true_for_clock_dependent_protocols() {
    for c in [ProtocolChoice::AES67, ProtocolChoice::ST2110, ProtocolChoice::Dante, ProtocolChoice::AVB] {
        assert!(c.needs_ptp(), "{:?} should need PTP", c);
    }
}

#[test]
fn needs_ptp_false_for_ndi() {
    assert!(!ProtocolChoice::NDI.needs_ptp());
}

#[test]
fn needs_igmp_true_only_for_ip_multicast_protocols() {
    for c in [ProtocolChoice::AES67, ProtocolChoice::ST2110, ProtocolChoice::Dante] {
        assert!(c.needs_igmp(), "{:?} should need IGMP", c);
    }
    assert!(!ProtocolChoice::AVB.needs_igmp(), "AVB is L2-only, no IP multicast");
    assert!(!ProtocolChoice::NDI.needs_igmp());
}

#[test]
fn is_selected_igmp_arm_agrees_with_needs_igmp() {
    let igmp = AvProtocol::Igmp {
        src: Ipv4Addr::new(0, 0, 0, 0), src_mac: [0; 6],
        group: Ipv4Addr::new(239, 0, 0, 1), igmp_type: IgmpType::Join,
    };
    for c in ProtocolChoice::all_choices() {
        for concrete in c.includes() {
            assert_eq!(igmp.is_selected(std::slice::from_ref(&concrete)), concrete.needs_igmp(),
                "{:?} disagreement", concrete);
        }
    }
}

#[test]
fn dvs_control_ports_classify_dvs() {
    assert_eq!(dante_control_plane_class(38700, 50000), Some(TransmitterClass::Dvs));
    assert_eq!(dante_control_plane_class(50000, 38708), Some(TransmitterClass::Dvs));
    assert_eq!(dante_control_plane_class(38800, 1), Some(TransmitterClass::Dvs));
    assert_eq!(dante_control_plane_class(8899, 1), Some(TransmitterClass::Dvs));
}

#[test]
fn via_control_ports_classify_via() {
    assert_eq!(dante_control_plane_class(28700, 50000), Some(TransmitterClass::Via));
    assert_eq!(dante_control_plane_class(4777, 1), Some(TransmitterClass::Via));
    assert_eq!(dante_control_plane_class(34336, 1), Some(TransmitterClass::Via));
    assert_eq!(dante_control_plane_class(24444, 1), Some(TransmitterClass::Via));
}

#[test]
fn fpga_ports_classify_hardware() {
    assert_eq!(dante_control_plane_class(8751, 1), Some(TransmitterClass::Hardware));
    assert_eq!(dante_control_plane_class(1, 61440), Some(TransmitterClass::Hardware));
}

#[test]
fn unrelated_ports_classify_nothing() {
    assert_eq!(dante_control_plane_class(5004, 5004), None);
    assert_eq!(dante_control_plane_class(8700, 8800), None);
}

#[test]
fn control_plane_dvs_is_confirmed() {
    let v = classify_transmitter(&TransmitterSignals {
        control_plane: Some(TransmitterClass::Dvs), ..Default::default()
    }).unwrap();
    assert_eq!(v.class, TransmitterClass::Dvs);
    assert_eq!(v.confidence, TransmitterConfidence::Confirmed);
}

#[test]
fn control_plane_via_is_confirmed() {
    let v = classify_transmitter(&TransmitterSignals {
        control_plane: Some(TransmitterClass::Via), ..Default::default()
    }).unwrap();
    assert_eq!(v.class, TransmitterClass::Via);
    assert_eq!(v.confidence, TransmitterConfidence::Confirmed);
}

#[test]
fn control_plane_hardware_is_confirmed() {
    let v = classify_transmitter(&TransmitterSignals {
        control_plane: Some(TransmitterClass::Hardware), ..Default::default()
    }).unwrap();
    assert_eq!(v.class, TransmitterClass::Hardware);
    assert_eq!(v.confidence, TransmitterConfidence::Confirmed);
}

#[test]
fn no_signals_no_verdict() {
    assert!(classify_transmitter(&TransmitterSignals::default()).is_none());
}

#[test]
fn metronomic_timing_overrides_dscp_zero_to_hardware() {
    let v = classify_transmitter(&TransmitterSignals {
        metronomic: Some(true), dscp_zero: true, ..Default::default()
    }).unwrap();
    assert_eq!(v.class, TransmitterClass::Hardware);
    assert_eq!(v.confidence, TransmitterConfidence::Inferred);
}

#[test]
fn noisy_timing_infers_dvs() {
    let v = classify_transmitter(&TransmitterSignals {
        metronomic: Some(false), ..Default::default()
    }).unwrap();
    assert_eq!(v.class, TransmitterClass::Dvs);
    assert_eq!(v.confidence, TransmitterConfidence::Inferred);
}

#[test]
fn control_plane_overrides_timing_for_confirmed_verdict() {
    let v = classify_transmitter(&TransmitterSignals {
        control_plane: Some(TransmitterClass::Dvs), metronomic: Some(true), ..Default::default()
    }).unwrap();
    assert_eq!(v.class, TransmitterClass::Dvs);
    assert_eq!(v.confidence, TransmitterConfidence::Confirmed);
}

#[test]
fn ttl_128_alone_infers_dvs() {
    let v = classify_transmitter(&TransmitterSignals { ttl: Some(128), ..Default::default() }).unwrap();
    assert_eq!(v.class, TransmitterClass::Dvs);
    assert_eq!(v.confidence, TransmitterConfidence::Inferred);
}

#[test]
fn ttl_128_does_not_override_metronomic_hardware() {
    let v = classify_transmitter(&TransmitterSignals {
        metronomic: Some(true), ttl: Some(128), ..Default::default()
    }).unwrap();
    assert_eq!(v.class, TransmitterClass::Hardware);
}

#[test]
fn dscp_zero_alone_is_only_a_hint() {
    let v = classify_transmitter(&TransmitterSignals { dscp_zero: true, ..Default::default() }).unwrap();
    assert_eq!(v.class, TransmitterClass::Dvs);
    assert_eq!(v.confidence, TransmitterConfidence::Hint);
    assert_eq!(v.signals, 1);
}

#[test]
fn confirmed_verdict_counts_corroborating_signals() {
    let v = classify_transmitter(&TransmitterSignals {
        control_plane: Some(TransmitterClass::Dvs),
        metronomic: Some(false),
        ttl: Some(128),
        dscp_zero: true,
    }).unwrap();
    assert_eq!(v.class, TransmitterClass::Dvs);
    assert_eq!(v.confidence, TransmitterConfidence::Confirmed);
    assert_eq!(v.signals, 4);
}

#[test]
fn is_software_ignoring_dscp_agrees_with_ttl_only_verdict() {
    let s = TransmitterSignals { ttl: Some(128), dscp_zero: true, ..Default::default() };
    assert!(is_software_ignoring_dscp(&s));
}

#[test]
fn is_software_ignoring_dscp_false_for_hardware_control_plane() {
    let s = TransmitterSignals {
        control_plane: Some(TransmitterClass::Hardware), dscp_zero: true, ..Default::default()
    };
    assert!(!is_software_ignoring_dscp(&s));
}

#[test]
fn is_software_ignoring_dscp_false_with_no_other_signals() {
    let s = TransmitterSignals { dscp_zero: true, ..Default::default() };
    assert!(!is_software_ignoring_dscp(&s));
}
