//! The simulation controller: one network, the scenario catalog, the
//! visualizer and the metrics collector.

use vstd::prelude::*;
use crate::fixed::SCALE;
use crate::metrics::{ErrorString, MetricsCollector};
use crate::network::{bucket_type, node_placed, target_connections, NetworkSimulation};
use crate::scenarios::{predefined_values, ScenarioManager};
use crate::visualizer::PerformanceVisualizer;

verus! {

/// Size and timing of a simulation; the density is a fixed-point fraction.
#[derive(Debug, Clone, Copy)]
pub struct SimulationConfig {
    pub node_count: usize,
    pub connection_density: u64,
    pub duration_secs: u64,
    pub enable_live_visualization: bool,
}

/// Drives a whole simulation.
pub struct LargeScaleSimulator {
    pub network: NetworkSimulation,
    pub scenarios: ScenarioManager,
    pub visualizer: PerformanceVisualizer,
    pub metrics: MetricsCollector,
}

impl LargeScaleSimulator {
    /// A simulator whose random draws come from generators seeded with `seed`.
    pub fn new(seed: u64) -> (r: LargeScaleSimulator)
        ensures
            r.network.wf(),
            r.network.nodes@.len() == 0,
            r.scenarios.wf(),
            r.scenarios@.dom().len() == 0,
            r.metrics.wf(),
    {
        let r = LargeScaleSimulator {
            network: NetworkSimulation::new(seed),
            scenarios: ScenarioManager::new(),
            visualizer: PerformanceVisualizer::new(),
            metrics: MetricsCollector::new(seed),
        };
        proof {
            assert(r.scenarios@.dom() =~= Set::<Seq<char>>::empty());
        }
        r
    }

    /// Builds the network, prepares the collector for the run and loads the
    /// predefined scenarios; fails, changing nothing, when there are fewer than
    /// two nodes.
    pub fn initialize(&mut self, config: &SimulationConfig) -> (r: Result<(), ErrorString>)
        requires
            config.connection_density <= SCALE,
            config.node_count <= u32::MAX,
        ensures
            r is Err <==> config.node_count < 2,
            r is Ok ==> {
                &&& final(self).network.wf()
                &&& final(self).network.nodes@.len() == config.node_count
                &&& forall|i: int| 0 <= i < config.node_count ==> #[trigger] node_placed(final(self).network.nodes@, config.node_count as int, i)
                &&& final(self).network.connections@.len() == target_connections(config.node_count as int, config.connection_density as int)
                &&& final(self).metrics.wf()
                &&& final(self).metrics.duration() == config.duration_secs
                &&& final(self).metrics.baselines().len() == 0
                &&& final(self).metrics.adaptations().len() == 0
                &&& final(self).scenarios.wf()
                &&& forall|k: Seq<char>| #[trigger] final(self).scenarios@.contains_key(k) <==> predefined_values(k) is Some
            },
    {
        match self.network.initialize(config.node_count, config.connection_density) {
            Ok(()) => {},
            Err(e) => {
                return Err(ErrorString(e));
            },
        }
        self.metrics.initialize(config.duration_secs);
        self.scenarios.load_predefined_scenarios();
        Ok(())
    }
}

} // verus!
