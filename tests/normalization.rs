use netsim_core::fixed::SCALE;
use netsim_core::normalize::NORM;
use netsim_core::normalize::{
    denormalize_bandwidth, denormalize_jitter, denormalize_latency, denormalize_packet_loss, normalize_bandwidth,
    normalize_jitter, normalize_latency, normalize_packet_loss,
};

fn unit(x: u64) -> f64 {
    x as f64 / NORM as f64
}

#[test]
fn test_normalization_functions() {
    // Test latency normalization
    assert!(unit(normalize_latency(SCALE)) > 0.99); // Excellent latency
    assert!(unit(normalize_latency(500 * SCALE)) < 0.01); // Poor latency

    // Test bandwidth normalization
    assert!(unit(normalize_bandwidth(100_000 * SCALE)) > 0.99); // Excellent bandwidth
    assert!(unit(normalize_bandwidth(SCALE)) < 0.01); // Poor bandwidth

    // Test packet loss normalization
    assert_eq!(unit(normalize_packet_loss(0)), 1.0); // No packet loss
    assert_eq!(unit(normalize_packet_loss(100 * SCALE)), 0.0); // Complete packet loss

    // Test jitter normalization
    assert_eq!(unit(normalize_jitter(0)), 1.0); // No jitter
    assert_eq!(unit(normalize_jitter(100 * SCALE)), 0.0); // High jitter
}

#[test]
fn normalization_exact_values() {
    assert_eq!(normalize_latency(250 * SCALE), 501_002_004_008_016);
    assert_eq!(normalize_jitter(50 * SCALE), NORM / 2);
    assert_eq!(normalize_packet_loss(250_000), 750_000_000_000_000);
    // The logarithmic scale: 10 Kbps sits near 0.2, 1000 Kbps near 0.6.
    assert_eq!(normalize_bandwidth(10 * SCALE), 198_499_845_842_475);
    assert_eq!(normalize_bandwidth(1000 * SCALE), 601_606_903_242_958);
    assert_eq!(normalize_bandwidth(1_234_567_890), 618_958_759_828_117);
    assert_eq!(normalize_bandwidth(200_000 * SCALE), NORM);
    assert_eq!(normalize_bandwidth(0), 0);
}

#[test]
fn normalization_round_trips() {
    for &l in &[SCALE, SCALE + 1, 3 * SCALE, 123_456_789, 500 * SCALE - 1, 500 * SCALE] {
        assert_eq!(denormalize_latency(normalize_latency(l)), l, "latency {}", l);
    }
    for &j in &[0, 1, 7_654_321, 100 * SCALE] {
        assert_eq!(denormalize_jitter(normalize_jitter(j)), j, "jitter {}", j);
    }
    for &p in &[0, 1, 333_333, SCALE] {
        assert_eq!(denormalize_packet_loss(normalize_packet_loss(p)), p);
    }
    for &b in &[SCALE, SCALE + 1, SCALE + 44, 5 * SCALE, 12_345_678_901, 99_999 * SCALE, 100_000 * SCALE - 1, 100_000 * SCALE] {
        assert_eq!(denormalize_bandwidth(normalize_bandwidth(b)), b, "bandwidth {}", b);
    }
}

#[test]
fn bandwidth_scale_is_strictly_increasing() {
    let mut last = normalize_bandwidth(SCALE);
    let mut b = SCALE + 1;
    while b <= 100_000 * SCALE {
        let n = normalize_bandwidth(b);
        assert!(n > last, "at {}", b);
        last = n;
        b = b * 3 / 2 + 1;
    }
}
