use netsim_core::adaptor::{AdaptorState, RealNetworkAdaptor};
use netsim_core::fixed::SCALE;
use netsim_core::normalize::{normalize_bandwidth, normalize_jitter, normalize_latency};

#[test]
fn activation_needs_an_endpoint() {
    let mut a = RealNetworkAdaptor::new("a1", "probe");
    assert_eq!(a.state, AdaptorState::Initializing);
    assert!(a.activate(0).is_err());
    assert_eq!(a.state, AdaptorState::Initializing);
    a.add_endpoint("example.org:80");
    assert!(a.activate(0).is_ok());
    assert_eq!(a.state, AdaptorState::Active);
}

#[test]
fn sensing_respects_state_and_interval() {
    let mut a = RealNetworkAdaptor::new("a1", "probe");
    a.add_endpoint("one:1");
    a.add_endpoint("two:2");
    a.set_measurement_interval(500);
    assert!(a.sense_environment(10_000, 10).is_none());
    a.activate(10_000).unwrap();
    assert!(a.sense_environment(10_100, 10).is_none());
    let samples = a.sense_environment(10_517, 10).unwrap();
    assert_eq!(samples.len(), 8);
    assert_eq!(samples[0].name, "latency");
    assert_eq!(samples[0].value, normalize_latency(67 * SCALE));
    assert_eq!(samples[1].value, normalize_bandwidth(5517 * SCALE));
    // 10517 ms modulo 4 is 1 %, a loss fraction of 0.01.
    assert_eq!(samples[2].value, 990_000_000_000_000);
    assert_eq!(samples[3].value, normalize_jitter(5_000_000 + 17 * SCALE / 10));
    assert_eq!(samples[7].timestamp, 10);
    assert!(a.sense_environment(10_600, 10).is_none());
    a.pause();
    assert!(a.sense_environment(20_000, 20).is_none());
}

#[test]
fn simulated_measurements() {
    let a = RealNetworkAdaptor::new("a1", "probe");
    assert_eq!(a.measure_latency("x", 123), Some(73 * SCALE));
    assert_eq!(a.measure_bandwidth("x", 123), Some(5123 * SCALE));
    assert_eq!(a.measure_packet_loss("x", 123), Some(3 * SCALE));
    assert_eq!(a.measure_jitter("x", 123), Some(5 * SCALE + 3 * SCALE / 10));
}

#[test]
fn history_keeps_the_last_hundred_samples() {
    let mut a = RealNetworkAdaptor::new("a1", "probe");
    a.add_endpoint("one:1");
    a.set_measurement_interval(0);
    a.activate(0).unwrap();
    let mut last = Vec::new();
    for t in 0..30u64 {
        last = a.sense_environment(1000 + t, t).unwrap();
    }
    assert_eq!(last.len(), 4);
    let h = a.history();
    assert_eq!(h.len(), 100);
    assert_eq!(h[99].timestamp, 29);
    assert_eq!(h[99].name, "jitter");
    assert_eq!(h[0].timestamp, 5);
    assert_eq!(h[0].name, "latency");
}
