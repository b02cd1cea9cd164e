//! Shown numbers against the machine's own double precision.

use std::time::Duration;

use avstreamlens::binary::{
    divide, each_second, push_milliseconds, push_picoseconds, push_quotient, push_seconds, round,
};
use avstreamlens::capture::CaptureState;
use avstreamlens::report::line::push_mbps;
use avstreamlens::stats::Pct;

/// Numbers of all sizes, with many near round ones.
fn samples() -> Vec<u64> {
    let mut v = vec![0, 1, 2, 3, 5, 50, 93_750, 150_000, 1_000_000_000, 1_050_000_000, u64::MAX];
    let mut x: u64 = 0x9E37_79B9_7F4A_7C15;
    for i in 0..4_000u32 {
        x = x.wrapping_mul(6_364_136_223_846_793_005).wrapping_add(1_442_695_040_888_963_407);
        v.push(x >> (i % 64));
        v.push((x >> 44) * 50_000);
    }
    v
}

fn text(f: impl Fn(&mut String)) -> String {
    let mut s = String::new();
    f(&mut s);
    s
}

#[test]
fn whole_numbers_keep_53_places() {
    for n in samples() {
        assert_eq!(round(n as u128), n as f64 as u128, "{n}");
    }
}

#[test]
fn quotients_are_those_of_double_precision() {
    for n in samples() {
        for den in [1_000u64, 1_000_000, 5_000_000, 7] {
            let (q, p) = divide(round(n as u128), den as u128);
            assert_eq!(q as f64 / p as f64, n as f64 / den as f64, "{n} / {den}");
            let shown = text(|s| push_quotient(s, round(n as u128), den as u128, 1));
            assert_eq!(shown, format!("{:.1}", n as f64 / den as f64), "{n} / {den}");
        }
    }
}

#[test]
fn rates_are_shown_as_double_precision_has_them() {
    for n in samples() {
        assert_eq!(text(|s| push_mbps(s, n)), format!("{:.1}", n as f64 / 1_000_000.0), "{n}");
    }
    assert_eq!(text(|s| push_quotient(s, 93_750 * 8, 5_000_000, 1)), "0.1", "0.15 is a little less in binary");
}

#[test]
fn percentages_are_those_of_double_precision() {
    for (i, n) in samples().into_iter().enumerate() {
        let (part, received) = (n >> 8, (n >> 9) + i as u64);
        let p = Pct { part, received, lost: part };
        let total = received + part;
        let pct = if total == 0 { 0.0 } else { 100.0 * part as f64 / total as f64 };
        assert_eq!(text(|s| p.push(s, 1)), format!("{pct:.1}"), "{part} of {total}");
        assert_eq!(text(|s| p.push(s, 2)), format!("{pct:.2}"), "{part} of {total}");
    }
}

#[test]
fn times_are_those_of_double_precision() {
    for n in samples() {
        let secs = Duration::from_nanos(n).as_secs_f64();
        assert_eq!(text(|s| push_seconds(s, n)), format!("{secs:.0}"), "{n}");
        assert_eq!(text(|s| push_milliseconds(s, n)), format!("{:.1}", secs * 1000.0), "{n}");
        let jitter = n as f64 / 1e12;
        if n < 1 << 53 {
            assert_eq!(text(|s| push_picoseconds(s, n)), format!("{:.2}", jitter * 1000.0), "{n}");
        }
    }
}

#[test]
fn bitrates_are_those_of_double_precision() {
    let times = samples();
    for (i, bytes) in samples().into_iter().enumerate() {
        let ns = times[times.len() - 1 - i];
        if ns >= 1_000_000_000 {
            let secs = Duration::from_nanos(ns).as_secs_f64();
            assert_eq!(
                each_second(round(bytes as u128) * 8, ns),
                (bytes as f64 * 8.0 / secs) as u64,
                "{bytes} in {ns}"
            );
        }
    }
}

#[test]
fn multicast_bandwidth_is_that_of_double_precision() {
    for n in samples() {
        let mut state = CaptureState::new();
        state.multicast_bytes_this_window = n;
        let alerts = state.check_high_multicast_bandwidth();
        let mbps = n as f64 * 8.0 / 5.0 / 1_000_000.0;
        assert_eq!(alerts.len(), usize::from(mbps > 80.0), "{n}");
        if mbps > 80.0 {
            let start = format!("⚠ Multicast bandwidth {mbps:.0} Mbps");
            assert!(alerts[0].message.starts_with(&start), "{n}: {}", alerts[0].message);
        }
    }
}
