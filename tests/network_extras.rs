use netsim_core::fixed::SCALE;
use netsim_core::metrics::{ScenarioMetrics, FULL_PERCENT};
use netsim_core::network::{contains_text, decode_pair, protocol_family, GeneratedProtocol, NetworkSimulation, NodeConnection, ProtocolFamily};

fn link(latency: u64, bandwidth: u64, packet_loss: u64, jitter: u64) -> NodeConnection {
    NodeConnection {
        source_id: 0,
        dest_id: 1,
        latency,
        bandwidth,
        packet_loss,
        jitter,
        uses_adaptation: true,
        active_protocol: None,
        current_conditions: Vec::new(),
    }
}

#[test]
fn substring_search_and_families() {
    assert!(contains_text("my_satellite_link", "satellite"));
    assert!(!contains_text("sat", "satellite"));
    assert!(contains_text("abc", ""));
    assert_eq!(protocol_family("asymmetric_mobile"), ProtocolFamily::Asymmetric);
    assert_eq!(protocol_family("mobile_satellite"), ProtocolFamily::Satellite);
    assert_eq!(protocol_family("mobile"), ProtocolFamily::Mobile);
    assert_eq!(protocol_family("low_latency"), ProtocolFamily::Other);
}

#[test]
fn connection_conditions_raise_flags() {
    let sim = NetworkSimulation::new(1);
    let calm = sim.get_connection_conditions(&link(20 * SCALE, 5000 * SCALE, 10_000, SCALE), 9);
    assert_eq!(calm.len(), 4);
    assert_eq!(calm[0].name, "latency");
    assert_eq!(calm[1].value, 5000 * SCALE);
    assert_eq!(calm[3].timestamp, 9);
    let rough = sim.get_connection_conditions(&link(300 * SCALE, 500 * SCALE, 200_000, SCALE), 9);
    let names: Vec<&str> = rough.iter().map(|c| c.name.as_str()).collect();
    assert_eq!(names, vec!["latency", "bandwidth", "packet_loss", "jitter", "high_latency", "high_packet_loss", "low_bandwidth"]);
    assert!(rough[4..].iter().all(|c| c.value == SCALE));
}

#[test]
fn typed_optimization_uses_table_and_family() {
    let mut sim = NetworkSimulation::new(2);
    sim.initialize(2, SCALE).unwrap();
    sim.connections[0].latency = 100 * SCALE;
    sim.connections[0].bandwidth = 1000 * SCALE;
    sim.connections[0].packet_loss = 100_000;
    sim.connections[0].jitter = 10 * SCALE;
    sim.apply_optimizations_to_connection(0, "satellite");
    let c = &sim.connections[0];
    // latency 1 - 0.2 * 0.8 = 0.84; bandwidth 1 + 0.15 * 0.2 = 1.03;
    // packet loss 1 - 0.35 * 0.6 = 0.79; jitter 1 - 0.1 * 0.4 * 0.8 = 0.968
    assert_eq!(c.latency, 84 * SCALE);
    assert_eq!(c.bandwidth, 1030 * SCALE);
    assert_eq!(c.packet_loss, 79_000);
    assert_eq!(c.jitter, 9_680_000);
    assert!(c.active_protocol.is_none());
    sim.apply_optimizations_to_connection(5, "satellite");
    assert_eq!(sim.connections[0].latency, 84 * SCALE);
}

#[test]
fn near_ideal_links_get_minimal_improvement() {
    let mut sim = NetworkSimulation::new(3);
    sim.initialize(2, SCALE).unwrap();
    sim.connections[0].latency = 4 * SCALE;
    sim.connections[0].bandwidth = 10_000 * SCALE;
    sim.apply_optimizations_to_connection(0, "low_latency");
    // 1 - 0.01 * 0.9 = 0.991
    assert_eq!(sim.connections[0].latency, 3_964_000);
}

#[test]
fn protocol_applies_to_adapting_connections_only() {
    let mut sim = NetworkSimulation::new(4);
    sim.initialize(3, SCALE).unwrap();
    sim.set_adaptation_enabled(false);
    sim.connections[1].uses_adaptation = true;
    let before: Vec<u64> = sim.connections.iter().map(|c| c.bandwidth).collect();
    let p = GeneratedProtocol {
        name: "wide".to_string(),
        family: ProtocolFamily::HighBandwidth,
        latency_optimization: 0,
        bandwidth_optimization: 10 * SCALE,
        packet_loss_optimization: 0,
        jitter_optimization: 0,
        directional_bias_correction: 0,
        asymmetric_buffer_sizing: 0,
        thermal_echo_boosting: 0,
    };
    sim.apply_protocol_optimizations(&p);
    assert_eq!(sim.connections[0].bandwidth, before[0]);
    assert_eq!(sim.connections[2].bandwidth, before[2]);
    // 1 + 0.15 * 10 is capped at 1.5.
    assert_eq!(sim.connections[1].bandwidth, before[1] / 2 * 3 + (before[1] % 2) * 3 / 2);
    assert_eq!(sim.connections[1].active_protocol.as_deref(), Some("wide"));
}

#[test]
fn link_scores_exact() {
    let sim = NetworkSimulation::new(5);
    assert_eq!(sim.calculate_resilience_score(0, 10_000 * SCALE, 0, 0), 100 * SCALE);
    assert_eq!(sim.calculate_resilience_score(1000 * SCALE, 0, SCALE, 100 * SCALE), 0);
    assert_eq!(sim.calculate_efficiency_score(10, 5, 10_000 * SCALE), 70 * SCALE);
    assert_eq!(sim.calculate_efficiency_score(0, 0, 0), 60 * SCALE);
    assert_eq!(sim.calculate_efficiency_score(10, 15, 10_000 * SCALE), 40 * SCALE);
}

#[test]
fn measuring_drops_protocols_and_averages_live_conditions() {
    let mut sim = NetworkSimulation::new(6);
    sim.initialize(2, SCALE).unwrap();
    sim.connections[0].latency = 40 * SCALE;
    sim.connections[0].bandwidth = 8192 * SCALE;
    sim.connections[0].packet_loss = 0;
    sim.connections[0].jitter = 0;
    sim.connections[0].active_protocol = Some("x".to_string());
    sim.set_adaptation_enabled(true);
    let m = sim.measure_performance("probe");
    assert_eq!(m.name, "probe");
    assert_eq!(m.avg_latency, 40 * SCALE);
    assert_eq!(m.avg_transfer_time, 10_000 * SCALE);
    assert!(!sim.adaptation_enabled);
    assert!(sim.connections[0].active_protocol.is_none());
}

#[test]
fn run_improvement_uses_zero_baseline_sentinels() {
    let sim = NetworkSimulation::new(7);
    let mut b = ScenarioMetrics::new("s".to_string());
    b.avg_latency = 100;
    b.avg_bandwidth = 100;
    let mut a = ScenarioMetrics::new("s".to_string());
    a.avg_latency = 50;
    a.avg_bandwidth = 150;
    a.avg_packet_loss = 7;
    let r = sim.calculate_performance_improvement(&b, &a);
    assert_eq!(r.latency, FULL_PERCENT / 2);
    assert_eq!(r.bandwidth, FULL_PERCENT / 2);
    assert_eq!(r.packet_loss, -FULL_PERCENT);
    assert_eq!(r.transfer_time, 0);
    // 0.3 * 50 + 0.2 * 50 + 0.2 * -100
    assert_eq!(r.overall, 5 * SCALE as i128);
}

#[test]
fn adaptation_never_takes_latency_below_one_ms() {
    let mut sim = NetworkSimulation::new(8);
    sim.initialize(2, SCALE).unwrap();
    sim.connections[0].latency = SCALE;
    sim.apply_optimizations_to_connection(0, "mobile");
    assert_eq!(sim.connections[0].latency, SCALE);
    sim.connections[0].latency = 2 * SCALE;
    sim.apply_optimizations_to_connection(0, "mobile");
    // 1 - 0.25 * 0.6 = 0.85
    assert_eq!(sim.connections[0].latency, 1_700_000);
}

#[test]
fn pair_positions_decode_in_order() {
    let mut expected = Vec::new();
    for s in 0..5usize {
        for d in s + 1..5 {
            expected.push((s, d));
        }
    }
    let decoded: Vec<(usize, usize)> = (0..10u64).map(|i| decode_pair(5, i)).collect();
    assert_eq!(decoded, expected);
}

#[test]
fn tick_steps_evolve_adapt_then_record() {
    let mut sim = NetworkSimulation::new(9);
    sim.initialize(6, 500_000).unwrap();
    let mut m = netsim_core::scenarios::ScenarioManager::new();
    m.load_predefined_scenarios();
    sim.apply_scenario(&m.get_scenario("congestion").unwrap());
    sim.set_adaptation_enabled(false);
    let requests = sim.begin_tick();
    assert!(requests.iter().all(|r| r.is_none()));
    let none: Vec<Option<GeneratedProtocol>> = requests.iter().map(|_| None).collect();
    sim.finish_tick(&none, 5);
    sim.set_adaptation_enabled(true);
    let requests = sim.begin_tick();
    assert!(requests.iter().all(|r| r.is_some()));
    let gen: Vec<Option<GeneratedProtocol>> = requests
        .iter()
        .map(|_| {
            Some(GeneratedProtocol {
                name: "p".to_string(),
                family: ProtocolFamily::Other,
                latency_optimization: 0,
                bandwidth_optimization: 0,
                packet_loss_optimization: 0,
                jitter_optimization: 0,
                directional_bias_correction: 0,
                asymmetric_buffer_sizing: 0,
                thermal_echo_boosting: 0,
            })
        })
        .collect();
    sim.finish_tick(&gen, 6);
    for m in sim.get_metrics() {
        assert_eq!(m.timestamps, vec![5, 6]);
        assert_eq!(m.protocol_history, vec![None, Some("p".to_string())]);
    }
}
