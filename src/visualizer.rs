//! Data points gathered for the performance visualizations.

use vstd::prelude::*;
use crate::metrics::{lookup, weighted_improvement, zero_improvement, MetricsCollector, PerformanceImprovement};
use crate::network::NetworkSimulation;

verus! {

/// Output format of the visualizations.
#[derive(Debug, Clone, Copy, PartialEq, Eq, Structural)]
pub enum VisualizationFormat {
    /// CSV data, to be visualized elsewhere
    Csv,
    /// HTML and JavaScript
    Html,
}

/// One improvement figure of one scenario at one time (seconds).
#[derive(Debug)]
pub struct VisualizationDataPoint {
    pub timestamp: u64,
    pub scenario: String,
    pub metric: String,
    pub baseline: i128,
    pub with_adaptation: i128,
    pub improvement: i128,
}

/// Collects data points while a simulation runs.
pub struct PerformanceVisualizer {
    live_enabled: bool,
    format: VisualizationFormat,
    data_points: Vec<VisualizationDataPoint>,
}

/// The improvement that a collector reports for the scenario `name`.
pub open spec fn scenario_improvement(m: MetricsCollector, name: Seq<char>) -> PerformanceImprovement {
    match (lookup(m.baselines(), name), lookup(m.adaptations(), name)) {
        (Some(b), Some(a)) => weighted_improvement(b, a),
        _ => zero_improvement(),
    }
}

/// `p` is a point at `t` for `scenario` and `metric` carrying `improvement`.
pub open spec fn point_is(p: VisualizationDataPoint, t: u64, scenario: Seq<char>, metric: Seq<char>, improvement: i128) -> bool {
    &&& p.timestamp == t
    &&& p.scenario@ == scenario
    &&& p.metric@ == metric
    &&& p.baseline == 0
    &&& p.with_adaptation == 0
    &&& p.improvement == improvement
}

impl PerformanceVisualizer {
    pub closed spec fn live(&self) -> bool {
        self.live_enabled
    }

    pub closed spec fn spec_format(&self) -> VisualizationFormat {
        self.format
    }

    pub closed spec fn points(&self) -> Seq<VisualizationDataPoint> {
        self.data_points@
    }

    /// Not live, HTML output, no data points.
    pub fn new() -> (r: PerformanceVisualizer)
        ensures
            !r.live(),
            r.spec_format() == VisualizationFormat::Html,
            r.points().len() == 0,
    {
        PerformanceVisualizer { live_enabled: false, format: VisualizationFormat::Html, data_points: Vec::new() }
    }

    /// Sets live mode and drops the data points.
    pub fn initialize(&mut self, live_enabled: bool)
        ensures
            final(self).live() == live_enabled,
            final(self).spec_format() == old(self).spec_format(),
            final(self).points().len() == 0,
    {
        self.live_enabled = live_enabled;
        self.data_points = Vec::new();
    }

    pub fn is_live_enabled(&self) -> (r: bool)
        ensures
            r == self.live(),
    {
        self.live_enabled
    }

    pub fn format(&self) -> (r: VisualizationFormat)
        ensures
            r == self.spec_format(),
    {
        self.format
    }

    pub fn data_points(&self) -> (r: &Vec<VisualizationDataPoint>)
        ensures
            r@ == self.points(),
    {
        &self.data_points
    }

    /// In live mode, records at `now` the latency, bandwidth, transfer-time and
    /// overall improvement of the simulation's current scenario; otherwise
    /// does nothing.
    pub fn update(&mut self, simulation: &NetworkSimulation, metrics: &MetricsCollector, now: u64)
        requires
            metrics.wf(),
        ensures
            final(self).live() == old(self).live(),
            final(self).spec_format() == old(self).spec_format(),
            !old(self).live() ==> final(self).points() == old(self).points(),
            old(self).live() ==> {
                let name = crate::metrics::run_name(*simulation);
                let imp = scenario_improvement(*metrics, name);
                let ps = final(self).points();
                let n = old(self).points().len() as int;
                &&& ps.len() == n + 4
                &&& ps.subrange(0, n) == old(self).points()
                &&& point_is(ps[n], now, name, "latency"@, imp.latency)
                &&& point_is(ps[n + 1], now, name, "bandwidth"@, imp.bandwidth)
                &&& point_is(ps[n + 2], now, name, "transfer_time"@, imp.transfer_time)
                &&& point_is(ps[n + 3], now, name, "overall"@, imp.overall)
            },
    {
        if !self.live_enabled {
            return;
        }
        let scenario_name = match simulation.get_current_scenario() {
            Some(s) => s.name.clone(),
            None => "unknown".to_owned(),
        };
        proof {
            reveal_strlit("unknown");
        }
        let improvement = metrics.calculate_scenario_improvement(scenario_name.as_str());
        let ghost start = self.data_points@;
        self.data_points.push(VisualizationDataPoint {
            timestamp: now,
            scenario: scenario_name.clone(),
            metric: "latency".to_owned(),
            baseline: 0,
            with_adaptation: 0,
            improvement: improvement.latency,
        });
        self.data_points.push(VisualizationDataPoint {
            timestamp: now,
            scenario: scenario_name.clone(),
            metric: "bandwidth".to_owned(),
            baseline: 0,
            with_adaptation: 0,
            improvement: improvement.bandwidth,
        });
        self.data_points.push(VisualizationDataPoint {
            timestamp: now,
            scenario: scenario_name.clone(),
            metric: "transfer_time".to_owned(),
            baseline: 0,
            with_adaptation: 0,
            improvement: improvement.transfer_time,
        });
        self.data_points.push(VisualizationDataPoint {
            timestamp: now,
            scenario: scenario_name,
            metric: "overall".to_owned(),
            baseline: 0,
            with_adaptation: 0,
            improvement: improvement.overall,
        });
        assert(self.data_points@.subrange(0, start.len() as int) =~= start);
    }
}

} // verus!
