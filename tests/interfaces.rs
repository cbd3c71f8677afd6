use netsim_core::credentials::{Credential, CredentialType};
use netsim_core::interfaces::{NetworkInterfaceType, RealProtocolAdapter};
use netsim_core::network::{GeneratedProtocol, ProtocolFamily};

#[test]
fn test_determine_interface_type() {
    // Simple test to ensure comparisons work
    assert_eq!(NetworkInterfaceType::Loopback, NetworkInterfaceType::Loopback);
    assert_eq!(NetworkInterfaceType::Ethernet, NetworkInterfaceType::Ethernet);
}

#[test]
fn discovery_lists_four_simulated_interfaces() {
    let mut adapter = RealProtocolAdapter::new("host");
    let names = adapter.discover_interfaces();
    assert_eq!(names, vec!["eth0".to_string(), "wlan0".to_string(), "lo".to_string(), "docker0".to_string()]);
}

#[test]
fn stats_follow_deployment() {
    let mut adapter = RealProtocolAdapter::new("host");
    let before = adapter.collect_stats();
    assert_eq!(before.current_bandwidth, 8_000_000_000);
    assert_eq!(before.current_latency, 25_000_000);
    let p = GeneratedProtocol {
        name: "balanced".to_string(),
        family: ProtocolFamily::Other,
        latency_optimization: 0,
        bandwidth_optimization: 0,
        packet_loss_optimization: 0,
        jitter_optimization: 0,
        directional_bias_correction: 0,
        asymmetric_buffer_sizing: 0,
        thermal_echo_boosting: 0,
    };
    assert_eq!(adapter.deploy_protocol(&p, 42), Ok(true));
    let after = adapter.collect_stats();
    assert_eq!(after.deployments, 1);
    assert_eq!(after.last_deployment, Some(42));
    assert_eq!(after.current_bandwidth, 12_000_000_000);
    assert_eq!(after.current_packet_loss, 300_000);
}

#[test]
fn password_credentials_verify_exact_bytes() {
    let c = Credential::new_password("s3cret");
    assert_eq!(c.cred_type, CredentialType::Password);
    assert_eq!(c.data, b"s3cret".to_vec());
    assert!(c.verify_password("s3cret"));
    assert!(!c.verify_password("s3cre"));
    assert!(!c.verify_password("s3cret!"));
    let token = Credential { cred_type: CredentialType::Token, data: b"s3cret".to_vec() };
    assert!(!token.verify_password("s3cret"));
}
