use netsim_core::fixed::SCALE;
use netsim_core::metrics::{MetricsCollector, ScenarioMetrics, FULL_PERCENT};
use netsim_core::network::{
    calculate_transfer_time, ConnectionMetrics, GeneratedProtocol, NetworkSimulation, NodeConnection, ProtocolFamily,
};
use netsim_core::nodes::NodeType;
use netsim_core::scenarios::ScenarioManager;
use netsim_core::simulator::{LargeScaleSimulator, SimulationConfig};

fn protocol(name: &str, family: ProtocolFamily) -> GeneratedProtocol {
    GeneratedProtocol {
        name: name.to_string(),
        family,
        latency_optimization: 800_000,
        bandwidth_optimization: 600_000,
        packet_loss_optimization: 700_000,
        jitter_optimization: 500_000,
        directional_bias_correction: 1_000_000,
        asymmetric_buffer_sizing: 900_000,
        thermal_echo_boosting: 950_000,
    }
}

fn built(seed: u64, nodes: usize, density: u64) -> NetworkSimulation {
    let mut sim = NetworkSimulation::new(seed);
    sim.initialize(nodes, density).unwrap();
    sim
}

fn scenario(name: &str) -> netsim_core::scenarios::NetworkScenario {
    let mut m = ScenarioManager::new();
    m.load_predefined_scenarios();
    m.get_scenario(name).unwrap()
}

fn in_range(c: &NodeConnection) -> bool {
    c.latency >= SCALE && c.bandwidth >= 100 * SCALE && c.packet_loss <= SCALE
}

#[test]
fn satellite_scenario_literals() {
    let s = scenario("satellite");
    assert_eq!(s.base_latency, 500 * SCALE);
    assert_eq!(s.base_bandwidth, 5000 * SCALE);
    assert_eq!(s.base_packet_loss, 20_000);
    assert_eq!(s.base_jitter, 10 * SCALE);
}

#[test]
fn catalog_holds_eight_scenarios_and_reload_is_idempotent() {
    let mut m = ScenarioManager::new();
    m.load_predefined_scenarios();
    assert_eq!(m.scenario_count(), 8);
    m.load_predefined_scenarios();
    assert_eq!(m.scenario_count(), 8);
    assert_eq!(m.get_all_scenarios().len(), 8);
    assert!(m.get_scenario("nowhere").is_none());
    let e = m.get_scenario("extreme").unwrap();
    assert_eq!(e.base_bandwidth, 500 * SCALE);
    assert_eq!(e.jitter_variation, 30 * SCALE);
}

#[test]
fn topology_has_requested_distinct_connections() {
    let sim = built(1, 10, 300_000);
    assert_eq!(sim.node_count(), 10);
    assert_eq!(sim.connection_count(), 13);
    let conns = sim.get_connections();
    for (i, a) in conns.iter().enumerate() {
        assert!(a.source_id < a.dest_id && a.dest_id < 10);
        for b in conns.iter().skip(i + 1) {
            assert!((a.source_id, a.dest_id) != (b.source_id, b.dest_id));
        }
    }
    assert_eq!(sim.get_metrics().len(), 13);
}

#[test]
fn node_buckets_follow_ratios() {
    let sim = built(2, 30, 0);
    let types: Vec<NodeType> = sim.get_nodes().iter().map(|n| n.node_type()).collect();
    assert_eq!(types.iter().filter(|t| **t == NodeType::Datacenter).count(), 3);
    assert_eq!(types.iter().filter(|t| **t == NodeType::EdgeServer).count(), 6);
    assert_eq!(types.iter().filter(|t| **t == NodeType::MobileDevice).count(), 10);
    assert_eq!(types.iter().filter(|t| **t == NodeType::ClientDevice).count(), 11);
    assert_eq!(sim.get_nodes()[0].name(), "datacenter_0");
    assert_eq!(sim.get_nodes()[29].name(), "client_29");
    assert!(sim.get_nodes()[12].is_mobile());
    assert_eq!(sim.connection_count(), 0);
}

#[test]
fn full_density_connects_every_pair() {
    let sim = built(3, 6, SCALE);
    assert_eq!(sim.connection_count(), 15);
}

#[test]
fn too_few_nodes_is_an_error() {
    let mut sim = NetworkSimulation::new(4);
    assert!(sim.initialize(1, 500_000).is_err());
    assert!(sim.initialize(0, 500_000).is_err());
    assert!(sim.initialize(2, 500_000).is_ok());
}

#[test]
fn conditions_stay_in_range_after_scenarios_and_ticks() {
    let mut sim = built(5, 20, 400_000);
    for name in ["ideal", "congestion", "satellite", "extreme", "asymmetric"] {
        let s = scenario(name);
        sim.apply_scenario(&s);
        assert!(sim.get_connections().iter().all(in_range));
        for _ in 0..5 {
            sim.update_network_conditions();
            assert!(sim.get_connections().iter().all(in_range));
        }
    }
}

#[test]
fn scenario_flags_are_attached() {
    let mut sim = built(6, 8, 500_000);
    sim.apply_scenario(&scenario("satellite"));
    for c in sim.get_connections() {
        assert_eq!(c.current_conditions.len(), 1);
        assert_eq!(c.current_conditions[0].name, "high_latency");
        assert_eq!(c.current_conditions[0].value, SCALE);
    }
    sim.apply_scenario(&scenario("ideal"));
    assert!(sim.get_connections().iter().all(|c| c.current_conditions.is_empty()));
}

#[test]
fn update_protocols_twice_is_idempotent() {
    let mut sim = built(7, 10, 500_000);
    sim.apply_scenario(&scenario("congestion"));
    sim.set_adaptation_enabled(true);
    let gen: Vec<Option<GeneratedProtocol>> =
        sim.adaptation_requests().iter().map(|r| r.map(|_| protocol("mobile_model", ProtocolFamily::Mobile))).collect();
    sim.update_protocols(&gen);
    let once: Vec<(Option<String>, u64, u64, u64, u64)> = sim
        .get_connections()
        .iter()
        .map(|c| (c.active_protocol.clone(), c.latency, c.bandwidth, c.packet_loss, c.jitter))
        .collect();
    assert!(once.iter().all(|c| c.0.as_deref() == Some("mobile_model")));
    sim.update_protocols(&gen);
    let twice: Vec<(Option<String>, u64, u64, u64, u64)> = sim
        .get_connections()
        .iter()
        .map(|c| (c.active_protocol.clone(), c.latency, c.bandwidth, c.packet_loss, c.jitter))
        .collect();
    assert_eq!(once, twice);
}

#[test]
fn declined_or_disabled_adaptation_changes_nothing() {
    let mut sim = built(8, 10, 500_000);
    sim.apply_scenario(&scenario("congestion"));
    sim.set_adaptation_enabled(false);
    let before: Vec<u64> = sim.get_connections().iter().map(|c| c.latency).collect();
    let gen: Vec<Option<GeneratedProtocol>> =
        (0..sim.connection_count()).map(|_| Some(protocol("x", ProtocolFamily::Other))).collect();
    sim.update_protocols(&gen);
    assert!(sim.get_connections().iter().all(|c| c.active_protocol.is_none()));
    sim.set_adaptation_enabled(true);
    let none: Vec<Option<GeneratedProtocol>> = (0..sim.connection_count()).map(|_| None).collect();
    sim.update_protocols(&none);
    let after: Vec<u64> = sim.get_connections().iter().map(|c| c.latency).collect();
    assert_eq!(before, after);
    assert!(sim.get_connections().iter().all(|c| c.active_protocol.is_none()));
}

#[test]
fn asymmetric_transform_is_clamped() {
    let mut sim = built(9, 4, SCALE);
    sim.apply_scenario(&scenario("asymmetric"));
    sim.set_adaptation_enabled(true);
    let base: Vec<(u64, u64, u64, u64)> =
        sim.get_connections().iter().map(|c| (c.latency, c.bandwidth, c.packet_loss, c.jitter)).collect();
    let gen: Vec<Option<GeneratedProtocol>> =
        (0..sim.connection_count()).map(|_| Some(protocol("asymmetric_model", ProtocolFamily::Asymmetric))).collect();
    sim.update_protocols(&gen);
    for (c, b) in sim.get_connections().iter().zip(base.iter()) {
        // latency: 1 - 0.3 * 0.8 * 1.0 = 0.76
        assert_eq!(c.latency, ((b.0 as u128) * 760_000 / 1_000_000) as u64);
        // bandwidth: 1 + 0.25 * 0.6 * 0.9 = 1.135
        assert_eq!(c.bandwidth, ((b.1 as u128) * 1_135_000 / 1_000_000) as u64);
        // packet loss: 1 - 0.4 * 0.7 * 1.0 = 0.72
        assert_eq!(c.packet_loss, ((b.2 as u128) * 720_000 / 1_000_000) as u64);
        // jitter: 1 - 0.3 * 0.5 * 0.95 = 0.8575
        assert_eq!(c.jitter, ((b.3 as u128) * 857_500 / 1_000_000) as u64);
    }
}

#[test]
fn transfer_time_exact() {
    let mut c = NodeConnection {
        source_id: 0,
        dest_id: 1,
        latency: 10 * SCALE,
        bandwidth: 8192 * SCALE,
        packet_loss: 0,
        jitter: 0,
        uses_adaptation: false,
        active_protocol: None,
        current_conditions: Vec::new(),
    };
    // 81920 Kb over 8192 Kbps is ten seconds.
    assert_eq!(calculate_transfer_time(&c), 10_000 * SCALE);
    c.packet_loss = 500_000;
    assert_eq!(calculate_transfer_time(&c), 20_000 * SCALE);
    c.active_protocol = Some("Low Latency Optimization Model".to_string());
    assert_eq!(calculate_transfer_time(&c), 13_000 * SCALE);
    c.active_protocol = Some("something else".to_string());
    assert_eq!(calculate_transfer_time(&c), 17_000 * SCALE);
}

#[test]
fn history_averages_and_empty_history() {
    let mut m = ConnectionMetrics::new();
    assert_eq!(m.averages(), (0, 0, 0, 0, 0));
    m.add_measurement(1, 10, 100, 2, 4, 50, None);
    m.add_measurement(1, 20, 300, 3, 6, 70, Some("p".to_string()));
    assert_eq!(m.averages(), (15, 200, 2, 5, 60));
    assert_eq!(m.timestamps, vec![1, 1]);
}

fn average_transfer(sim: &NetworkSimulation, entry: usize) -> u128 {
    let ms = sim.get_metrics();
    ms.iter().map(|m| m.transfer_time_history[entry] as u128).sum::<u128>() / ms.len() as u128
}

#[test]
fn adaptation_tick_does_not_slow_transfers() {
    let mut sim = built(11, 10, 300_000);
    assert_eq!(sim.connection_count(), 13);
    sim.apply_scenario(&scenario("congestion"));
    sim.set_adaptation_enabled(false);
    sim.update_network_conditions();
    sim.collect_metrics(1);
    sim.set_adaptation_enabled(true);
    sim.update_network_conditions();
    let gen: Vec<Option<GeneratedProtocol>> = sim
        .adaptation_requests()
        .iter()
        .map(|r| r.map(|_| protocol("Low Latency Optimization Model", ProtocolFamily::LowLatency)))
        .collect();
    sim.update_protocols(&gen);
    sim.collect_metrics(2);
    assert!(average_transfer(&sim, 1) <= average_transfer(&sim, 0));
}

fn record(name: &str, lat: u64, bw: u64, pl: u64, tt: u64, res: u64) -> ScenarioMetrics {
    let mut m = ScenarioMetrics::new(name.to_string());
    m.avg_latency = lat;
    m.avg_bandwidth = bw;
    m.avg_packet_loss = pl;
    m.avg_transfer_time = tt;
    m.resilience_score = res;
    m
}

#[test]
fn improvement_exact_values_and_sentinels() {
    assert_eq!(MetricsCollector::calculate_improvement(100, 80, true), 20 * SCALE as i128);
    assert_eq!(MetricsCollector::calculate_improvement(100, 150, false), 50 * SCALE as i128);
    assert_eq!(MetricsCollector::calculate_improvement(100, 300, true), -200 * SCALE as i128);
    assert_eq!(MetricsCollector::calculate_improvement(0, 0, true), 0);
    assert_eq!(MetricsCollector::calculate_improvement(0, 5, true), -FULL_PERCENT);
    assert_eq!(MetricsCollector::calculate_improvement(0, 5, false), FULL_PERCENT);
}

#[test]
fn weighted_improvement_caps_degradations() {
    let b = record("s", 100, 1000, 10, 50, 80);
    let a = record("s", 300, 400, 40, 200, 40);
    let r = MetricsCollector::calculate_weighted_improvement(&b, &a);
    assert_eq!(r.latency, -FULL_PERCENT);
    assert_eq!(r.bandwidth, -50 * SCALE as i128);
    assert_eq!(r.packet_loss, -FULL_PERCENT);
    assert_eq!(r.transfer_time, -FULL_PERCENT);
    assert_eq!(r.resilience, -50 * SCALE as i128);
    // 0.3 * -100 + 0.25 * -50 + 0.25 * -100 + 0.15 * -100 + 0.05 * -50
    assert_eq!(r.overall, -85 * SCALE as i128);
}

#[test]
fn zero_history_adapted_run_against_lossy_baseline() {
    let b = record("s", 100, 1000, 10, 50, 80);
    let zero = ScenarioMetrics::new("s".to_string());
    let r = MetricsCollector::calculate_weighted_improvement(&b, &zero);
    assert_eq!(r.packet_loss, FULL_PERCENT);
    let r = MetricsCollector::calculate_weighted_improvement(&zero, &b);
    assert_eq!(r.packet_loss, -FULL_PERCENT);
    assert_eq!(r.resilience, FULL_PERCENT);
    assert_eq!(r.latency, -FULL_PERCENT);
    assert_eq!(r.bandwidth, FULL_PERCENT);
    assert_eq!(r.transfer_time, -FULL_PERCENT);
    let both_zero = MetricsCollector::calculate_weighted_improvement(&zero, &zero);
    assert_eq!(both_zero.overall, 0);
    assert_eq!(both_zero.packet_loss, 0);
}

#[test]
fn scores_exact_values() {
    assert_eq!(MetricsCollector::calculate_resilience_score(0, 0, 0), 100 * SCALE);
    assert_eq!(MetricsCollector::calculate_resilience_score(500 * SCALE, 100 * SCALE, 100 * SCALE), 0);
    assert_eq!(MetricsCollector::calculate_resilience_score(250 * SCALE, 0, 0), 90 * SCALE);
    assert_eq!(MetricsCollector::calculate_transfer_efficiency(10_000 * SCALE, 0, 0), 100 * SCALE);
    assert_eq!(MetricsCollector::calculate_transfer_efficiency(5_000 * SCALE, 5_000 * SCALE, 50 * SCALE), 50 * SCALE);
}

#[test]
fn collector_summaries_and_overall_improvement() {
    let mut sim = built(12, 8, 500_000);
    let mut col = MetricsCollector::new(3);
    let empty = col.collect_connection_metrics(&sim);
    assert_eq!(empty.name, "unknown");
    assert_eq!((empty.avg_latency, empty.resilience_score, empty.efficiency_score), (0, 0, 0));
    assert_eq!(col.calculate_overall_improvement().overall, 0);
    assert_eq!(col.most_used_model(), "None");

    sim.apply_scenario(&scenario("congestion"));
    sim.set_adaptation_enabled(false);
    sim.update_network_conditions();
    sim.collect_metrics(1);
    col.collect_baseline_metrics(&sim);
    let base = col.collect_connection_metrics(&sim);
    assert_eq!(base.name, "congestion");
    assert!(base.avg_latency > 0 && base.resilience_score > 0);
    assert_eq!(col.calculate_scenario_improvement("congestion").overall, 0);

    sim.set_adaptation_enabled(true);
    let gen: Vec<Option<GeneratedProtocol>> = sim
        .adaptation_requests()
        .iter()
        .map(|r| r.map(|_| protocol("reliability_model", ProtocolFamily::Reliability)))
        .collect();
    sim.update_protocols(&gen);
    sim.collect_metrics(2);
    col.collect_adaptation_metrics(&sim);
    assert_eq!(col.most_used_model(), "reliability_model");
    assert_eq!(col.protocol_switch_count(), sim.connection_count());
    let t = col.avg_adaptation_time();
    assert!(t >= 10 * SCALE && t < 30 * SCALE);
    let dist = sim.protocol_distribution();
    assert_eq!(dist, vec![("reliability_model".to_string(), sim.connection_count())]);
    let scen = col.calculate_scenario_improvement("congestion");
    assert!(scen.transfer_time > 0);
    let whole = col.calculate_overall_improvement();
    assert!(whole.packet_loss >= 0);
}

#[test]
fn simulator_initializes_everything() {
    let mut s = LargeScaleSimulator::new(21);
    let cfg = SimulationConfig { node_count: 12, connection_density: 250_000, duration_secs: 30, enable_live_visualization: false };
    assert!(s.initialize(&cfg).is_ok());
    assert_eq!(s.network.node_count(), 12);
    assert_eq!(s.network.connection_count(), 16);
    assert_eq!(s.scenarios.scenario_count(), 8);
    let bad = SimulationConfig { node_count: 1, ..cfg };
    let mut t = LargeScaleSimulator::new(22);
    assert!(t.initialize(&bad).is_err());
}
