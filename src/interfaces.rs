//! Network interfaces and the adapter that deploys protocols on them.

use vstd::prelude::*;
use crate::network::GeneratedProtocol;

verus! {

/// Kind of network interface.
#[derive(Debug, Clone, Copy, PartialEq, Eq, Structural)]
pub enum NetworkInterfaceType {
    Ethernet,
    Wireless,
    Virtual,
    Loopback,
}

/// Traffic counters of an interface.
#[derive(Debug, Clone, Copy, PartialEq, Eq, Structural)]
pub struct InterfaceStats {
    pub rx_bytes: u64,
    pub tx_bytes: u64,
    pub rx_packets: u64,
    pub tx_packets: u64,
    pub rx_errors: u64,
    pub tx_errors: u64,
    pub rx_dropped: u64,
    pub tx_dropped: u64,
}

/// A network interface (e.g. "eth0") and its state.
#[derive(Debug)]
pub struct NetworkInterface {
    pub name: String,
    pub interface_type: NetworkInterfaceType,
    pub active: bool,
    pub stats: InterfaceStats,
}

/// Deployment statistics of the adapter: bandwidth in Kbps, throughput in
/// packets per second, latency in ms and packet loss in percent, fixed-point.
#[derive(Debug, Clone, Copy, PartialEq, Eq, Structural)]
pub struct ProtocolStats {
    pub deployments: u32,
    pub last_deployment: Option<u64>,
    pub current_bandwidth: u64,
    pub current_throughput: u64,
    pub current_latency: u64,
    pub current_packet_loss: u64,
}

/// Counters that every simulated interface starts with.
pub open spec fn simulated_stats() -> InterfaceStats {
    InterfaceStats {
        rx_bytes: 1_000_000,
        tx_bytes: 500_000,
        rx_packets: 10_000,
        tx_packets: 5_000,
        rx_errors: 10,
        tx_errors: 5,
        rx_dropped: 20,
        tx_dropped: 10,
    }
}

/// Statistics reported with and without a deployed protocol.
pub open spec fn reported_stats(deployed: bool, deployments: u32, last: Option<u64>) -> ProtocolStats {
    if deployed {
        ProtocolStats {
            deployments,
            last_deployment: last,
            current_bandwidth: 12_000_000_000,
            current_throughput: 1_200_000_000,
            current_latency: 15_000_000,
            current_packet_loss: 300_000,
        }
    } else {
        ProtocolStats {
            deployments,
            last_deployment: last,
            current_bandwidth: 8_000_000_000,
            current_throughput: 800_000_000,
            current_latency: 25_000_000,
            current_packet_loss: 1_200_000,
        }
    }
}

/// Applies generated protocols to the host's network interfaces.
pub struct RealProtocolAdapter {
    pub name: String,
    interfaces: Vec<NetworkInterface>,
    active_protocol: Option<String>,
    stats: ProtocolStats,
}

impl RealProtocolAdapter {
    pub closed spec fn spec_name(&self) -> Seq<char> {
        self.name@
    }

    pub closed spec fn spec_interfaces(&self) -> Seq<NetworkInterface> {
        self.interfaces@
    }

    pub closed spec fn spec_active_protocol(&self) -> Option<String> {
        self.active_protocol
    }

    pub closed spec fn spec_stats(&self) -> ProtocolStats {
        self.stats
    }

    /// An adapter with no interfaces, no protocol and no deployments.
    pub fn new(name: &str) -> (r: RealProtocolAdapter)
        ensures
            r.spec_name() == name@,
            r.spec_interfaces().len() == 0,
            r.spec_active_protocol() is None,
            r.spec_stats().deployments == 0,
            r.spec_stats().last_deployment is None,
    {
        RealProtocolAdapter {
            name: name.to_owned(),
            interfaces: Vec::new(),
            active_protocol: None,
            stats: ProtocolStats {
                deployments: 0,
                last_deployment: None,
                current_bandwidth: 0,
                current_throughput: 0,
                current_latency: 0,
                current_packet_loss: 0,
            },
        }
    }

    /// Replaces the interfaces by the four simulated ones (eth0, wlan0, lo,
    /// docker0), all active, and returns their names.
    pub fn discover_interfaces(&mut self) -> (r: Vec<String>)
        ensures
            r@.len() == 4,
            r@[0]@ == "eth0"@ && r@[1]@ == "wlan0"@ && r@[2]@ == "lo"@ && r@[3]@ == "docker0"@,
            final(self).spec_interfaces().len() == 4,
            forall|i: int| 0 <= i < 4 ==> #[trigger] final(self).spec_interfaces()[i].name@ == r@[i]@
                && final(self).spec_interfaces()[i].active
                && final(self).spec_interfaces()[i].stats == simulated_stats(),
            final(self).spec_interfaces()[0].interface_type == NetworkInterfaceType::Ethernet,
            final(self).spec_interfaces()[1].interface_type == NetworkInterfaceType::Wireless,
            final(self).spec_interfaces()[2].interface_type == NetworkInterfaceType::Loopback,
            final(self).spec_interfaces()[3].interface_type == NetworkInterfaceType::Virtual,
            final(self).spec_active_protocol() == old(self).spec_active_protocol(),
            final(self).spec_stats() == old(self).spec_stats(),
    {
        let stats = InterfaceStats {
            rx_bytes: 1_000_000,
            tx_bytes: 500_000,
            rx_packets: 10_000,
            tx_packets: 5_000,
            rx_errors: 10,
            tx_errors: 5,
            rx_dropped: 20,
            tx_dropped: 10,
        };
        let mut interfaces: Vec<NetworkInterface> = Vec::new();
        let mut names: Vec<String> = Vec::new();
        interfaces.push(NetworkInterface { name: "eth0".to_owned(), interface_type: NetworkInterfaceType::Ethernet, active: true, stats });
        names.push("eth0".to_owned());
        interfaces.push(NetworkInterface { name: "wlan0".to_owned(), interface_type: NetworkInterfaceType::Wireless, active: true, stats });
        names.push("wlan0".to_owned());
        interfaces.push(NetworkInterface { name: "lo".to_owned(), interface_type: NetworkInterfaceType::Loopback, active: true, stats });
        names.push("lo".to_owned());
        interfaces.push(NetworkInterface { name: "docker0".to_owned(), interface_type: NetworkInterfaceType::Virtual, active: true, stats });
        names.push("docker0".to_owned());
        self.interfaces = interfaces;
        names
    }

    /// Makes `protocol` the active one and counts a deployment made at `now`
    /// (the count saturates).
    pub fn deploy_protocol(&mut self, protocol: &GeneratedProtocol, now: u64) -> (r: Result<bool, String>)
        ensures
            r == Ok::<bool, String>(true),
            final(self).spec_active_protocol() matches Some(n) && n@ == protocol.name@,
            final(self).spec_stats().deployments == (if old(self).spec_stats().deployments == u32::MAX {
                u32::MAX
            } else {
                (old(self).spec_stats().deployments + 1) as u32
            }),
            final(self).spec_stats().last_deployment == Some(now),
            final(self).spec_interfaces() == old(self).spec_interfaces(),
    {
        self.active_protocol = Some(protocol.name.clone());
        if self.stats.deployments < u32::MAX {
            self.stats.deployments = self.stats.deployments + 1;
        }
        self.stats.last_deployment = Some(now);
        Ok(true)
    }

    /// Current statistics: the simulated figures with a protocol deployed
    /// (12000 Kbps, 1200 packets/s, 15 ms, 0.3 %) or without (8000 Kbps,
    /// 800 packets/s, 25 ms, 1.2 %).
    pub fn collect_stats(&mut self) -> (r: ProtocolStats)
        ensures
            r == reported_stats(old(self).spec_active_protocol() is Some, old(self).spec_stats().deployments,
                old(self).spec_stats().last_deployment),
            final(self).spec_stats() == r,
            final(self).spec_active_protocol() == old(self).spec_active_protocol(),
            final(self).spec_interfaces() == old(self).spec_interfaces(),
    {
        if self.active_protocol.is_some() {
            self.stats.current_bandwidth = 12_000_000_000;
            self.stats.current_throughput = 1_200_000_000;
            self.stats.current_latency = 15_000_000;
            self.stats.current_packet_loss = 300_000;
        } else {
            self.stats.current_bandwidth = 8_000_000_000;
            self.stats.current_throughput = 800_000_000;
            self.stats.current_latency = 25_000_000;
            self.stats.current_packet_loss = 1_200_000;
        }
        self.stats
    }
}

} // verus!
