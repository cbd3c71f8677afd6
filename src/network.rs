//! The simulated network: topology construction, scenario application,
//! per-tick condition evolution, protocol adaptation and metric recording.

use vstd::prelude::*;
use vstd::string::{StrSliceExecFns, StringExecFns};
use crate::adaptor::NetworkCondition;
use std::collections::HashSet;
use crate::fixed::{clamp, scale_by, mul_factor, clamp_u64, SCALE, METRIC_CEILING};
use crate::nodes::{NodeType, SimulationNode};
use crate::scenarios::NetworkScenario;
use crate::rng::{seeded, uniform_below};
use crate::stats::{average, seq_average};

verus! {

/// A named auxiliary sample attached to a connection.
#[derive(Debug)]
pub struct ConditionSample {
    pub name: String,
    pub value: u64,
}

/// Protocol family, decided by the engine when it generates a protocol.
#[derive(Debug, Clone, Copy, PartialEq, Eq, Structural)]
pub enum ProtocolFamily {
    LowLatency,
    HighBandwidth,
    Reliability,
    Mobile,
    Satellite,
    Asymmetric,
    Other,
}

/// What a protocol engine returns: a name, its family, and the optimization
/// parameters that adaptation reads (an absent parameter is zero). Parameters
/// are fixed-point.
#[derive(Debug)]
pub struct GeneratedProtocol {
    pub name: String,
    pub family: ProtocolFamily,
    pub latency_optimization: u64,
    pub bandwidth_optimization: u64,
    pub packet_loss_optimization: u64,
    pub jitter_optimization: u64,
    pub directional_bias_correction: u64,
    pub asymmetric_buffer_sizing: u64,
    pub thermal_echo_boosting: u64,
}

/// A connection between two nodes (`source_id < dest_id`) with its live
/// conditions: latency and jitter in ms, bandwidth in Kbps, packet loss as a
/// fraction, all fixed-point.
#[derive(Debug)]
pub struct NodeConnection {
    pub source_id: usize,
    pub dest_id: usize,
    pub latency: u64,
    pub bandwidth: u64,
    pub packet_loss: u64,
    pub jitter: u64,
    pub uses_adaptation: bool,
    pub active_protocol: Option<String>,
    pub current_conditions: Vec<ConditionSample>,
}

/// The four live metrics of a connection, each normalized to `0..=NORM`.
#[derive(Debug, Clone, Copy, PartialEq, Eq, Structural)]
pub struct NormalizedConditions {
    pub latency: u64,
    pub bandwidth: u64,
    pub packet_loss: u64,
    pub jitter: u64,
}

/// Raw random draws for one re-derivation of a connection's conditions. Each
/// is uniform below its bound and is shifted to be centred on zero: latency
/// by ±5 ms, bandwidth by ±200 Kbps, packet loss by ±0.01, jitter by ±1 ms.
#[derive(Debug, Clone, Copy, PartialEq, Eq, Structural)]
pub struct Perturbation {
    pub latency: u64,
    pub bandwidth: u64,
    pub packet_loss: u64,
    pub jitter: u64,
}

pub const LATENCY_SPREAD: u64 = 5_000_000;

pub const BANDWIDTH_SPREAD: u64 = 200_000_000;

pub const PACKET_LOSS_SPREAD: u64 = 10_000;

pub const JITTER_SPREAD: u64 = 1_000_000;

impl Perturbation {
    pub open spec fn in_range(self) -> bool {
        &&& self.latency < 2 * LATENCY_SPREAD
        &&& self.bandwidth < 2 * BANDWIDTH_SPREAD
        &&& self.packet_loss < 2 * PACKET_LOSS_SPREAD
        &&& self.jitter < 2 * JITTER_SPREAD
    }

    /// Draws each of the four perturbations from `rng`.
    pub fn draw(rng: &mut rand::rngs::StdRng) -> (r: Perturbation)
        ensures
            r.in_range(),
    {
        let latency = uniform_below(rng, 2 * LATENCY_SPREAD);
        let bandwidth = uniform_below(rng, 2 * BANDWIDTH_SPREAD);
        let packet_loss = uniform_below(rng, 2 * PACKET_LOSS_SPREAD);
        let jitter = uniform_below(rng, 2 * JITTER_SPREAD);
        Perturbation { latency, bandwidth, packet_loss, jitter }
    }
}

/// Scenario names that the condition tables single out.
#[derive(Debug, Clone, Copy, PartialEq, Eq, Structural)]
pub enum ScenarioKind {
    Congestion,
    WirelessInterference,
    MobileHandover,
    Asymmetric,
    Satellite,
    Other,
}

pub open spec fn scenario_kind(name: Seq<char>) -> ScenarioKind {
    if name == "congestion"@ {
        ScenarioKind::Congestion
    } else if name == "wireless_interference"@ {
        ScenarioKind::WirelessInterference
    } else if name == "mobile_handover"@ {
        ScenarioKind::MobileHandover
    } else if name == "asymmetric"@ {
        ScenarioKind::Asymmetric
    } else if name == "satellite"@ {
        ScenarioKind::Satellite
    } else {
        ScenarioKind::Other
    }
}

/// The kind of scenario that `name` designates.
pub fn kind_of(name: &String) -> (r: ScenarioKind)
    ensures
        r == scenario_kind(name@),
{
    if *name == "congestion".to_owned() {
        ScenarioKind::Congestion
    } else if *name == "wireless_interference".to_owned() {
        ScenarioKind::WirelessInterference
    } else if *name == "mobile_handover".to_owned() {
        ScenarioKind::MobileHandover
    } else if *name == "asymmetric".to_owned() {
        ScenarioKind::Asymmetric
    } else if *name == "satellite".to_owned() {
        ScenarioKind::Satellite
    } else {
        ScenarioKind::Other
    }
}

/// Base (latency, bandwidth) of a link between two node types, used when a
/// scenario is applied.
pub open spec fn pair_base(s: NodeType, d: NodeType) -> (u64, u64) {
    match (s, d) {
        (NodeType::Datacenter, NodeType::Datacenter) => (10_000_000, 100_000_000_000),
        (NodeType::Datacenter, NodeType::EdgeServer) | (NodeType::EdgeServer, NodeType::Datacenter) => (
            20_000_000,
            50_000_000_000,
        ),
        (NodeType::Datacenter, NodeType::MobileDevice) | (NodeType::MobileDevice, NodeType::Datacenter) => (
            50_000_000,
            20_000_000_000,
        ),
        (NodeType::EdgeServer, NodeType::MobileDevice) | (NodeType::MobileDevice, NodeType::EdgeServer) => (
            30_000_000,
            15_000_000_000,
        ),
        (NodeType::MobileDevice, NodeType::MobileDevice) => (40_000_000, 10_000_000_000),
        _ => (25_000_000, 25_000_000_000),
    }
}

pub fn link_base(s: NodeType, d: NodeType) -> (r: (u64, u64))
    ensures
        r == pair_base(s, d),
{
    match (s, d) {
        (NodeType::Datacenter, NodeType::Datacenter) => (10_000_000, 100_000_000_000),
        (NodeType::Datacenter, NodeType::EdgeServer) | (NodeType::EdgeServer, NodeType::Datacenter) => (
            20_000_000,
            50_000_000_000,
        ),
        (NodeType::Datacenter, NodeType::MobileDevice) | (NodeType::MobileDevice, NodeType::Datacenter) => (
            50_000_000,
            20_000_000_000,
        ),
        (NodeType::EdgeServer, NodeType::MobileDevice) | (NodeType::MobileDevice, NodeType::EdgeServer) => (
            30_000_000,
            15_000_000_000,
        ),
        (NodeType::MobileDevice, NodeType::MobileDevice) => (40_000_000, 10_000_000_000),
        _ => (25_000_000, 25_000_000_000),
    }
}

/// Multipliers (latency, bandwidth, packet loss, jitter) applied when a
/// scenario is applied.
pub open spec fn scenario_modifiers(k: ScenarioKind) -> (u64, u64, u64, u64) {
    match k {
        ScenarioKind::Asymmetric => (1_500_000, 800_000, 1_200_000, 1_500_000),
        ScenarioKind::MobileHandover => (1_200_000, 900_000, 1_100_000, 1_300_000),
        ScenarioKind::Satellite => (2_000_000, 500_000, 1_500_000, 2_000_000),
        _ => (1_000_000, 1_000_000, 1_000_000, 1_000_000),
    }
}

pub fn apply_modifiers(k: ScenarioKind) -> (r: (u64, u64, u64, u64))
    ensures
        r == scenario_modifiers(k),
{
    match k {
        ScenarioKind::Asymmetric => (1_500_000, 800_000, 1_200_000, 1_500_000),
        ScenarioKind::MobileHandover => (1_200_000, 900_000, 1_100_000, 1_300_000),
        ScenarioKind::Satellite => (2_000_000, 500_000, 1_500_000, 2_000_000),
        _ => (1_000_000, 1_000_000, 1_000_000, 1_000_000),
    }
}

/// Multipliers (latency, bandwidth, packet loss, jitter) of one tick, by
/// node-type pair and scenario.
pub open spec fn tick_modifiers(s: NodeType, d: NodeType, k: ScenarioKind) -> (u64, u64, u64, u64) {
    match (s, d) {
        (NodeType::Datacenter, NodeType::Datacenter) => (500_000, 2_000_000, 200_000, 500_000),
        (NodeType::Datacenter, NodeType::EdgeServer) | (NodeType::EdgeServer, NodeType::Datacenter) => (
            700_000,
            1_500_000,
            300_000,
            700_000,
        ),
        (NodeType::Datacenter, NodeType::MobileDevice) | (NodeType::MobileDevice, NodeType::Datacenter) => {
            match k {
                ScenarioKind::Congestion => (1_500_000, 600_000, 1_300_000, 1_400_000),
                ScenarioKind::WirelessInterference => (1_300_000, 700_000, 1_500_000, 1_600_000),
                _ => (1_000_000, 800_000, 1_100_000, 1_200_000),
            }
        },
        (NodeType::EdgeServer, NodeType::MobileDevice) | (NodeType::MobileDevice, NodeType::EdgeServer) => {
            match k {
                ScenarioKind::WirelessInterference => (1_400_000, 600_000, 1_600_000, 1_800_000),
                ScenarioKind::MobileHandover => (1_600_000, 500_000, 1_700_000, 1_900_000),
                _ => (1_100_000, 700_000, 1_200_000, 1_300_000),
            }
        },
        (NodeType::MobileDevice, NodeType::MobileDevice) => {
            match k {
                ScenarioKind::WirelessInterference => (1_700_000, 400_000, 1_800_000, 2_000_000),
                ScenarioKind::MobileHandover => (1_800_000, 300_000, 1_900_000, 2_200_000),
                _ => (1_400_000, 500_000, 1_500_000, 1_700_000),
            }
        },
        _ => (1_000_000, 1_000_000, 1_000_000, 1_000_000),
    }
}

pub fn evolution_modifiers(s: NodeType, d: NodeType, k: ScenarioKind) -> (r: (u64, u64, u64, u64))
    ensures
        r == tick_modifiers(s, d, k),
{
    match (s, d) {
        (NodeType::Datacenter, NodeType::Datacenter) => (500_000, 2_000_000, 200_000, 500_000),
        (NodeType::Datacenter, NodeType::EdgeServer) | (NodeType::EdgeServer, NodeType::Datacenter) => (
            700_000,
            1_500_000,
            300_000,
            700_000,
        ),
        (NodeType::Datacenter, NodeType::MobileDevice) | (NodeType::MobileDevice, NodeType::Datacenter) => {
            match k {
                ScenarioKind::Congestion => (1_500_000, 600_000, 1_300_000, 1_400_000),
                ScenarioKind::WirelessInterference => (1_300_000, 700_000, 1_500_000, 1_600_000),
                _ => (1_000_000, 800_000, 1_100_000, 1_200_000),
            }
        },
        (NodeType::EdgeServer, NodeType::MobileDevice) | (NodeType::MobileDevice, NodeType::EdgeServer) => {
            match k {
                ScenarioKind::WirelessInterference => (1_400_000, 600_000, 1_600_000, 1_800_000),
                ScenarioKind::MobileHandover => (1_600_000, 500_000, 1_700_000, 1_900_000),
                _ => (1_100_000, 700_000, 1_200_000, 1_300_000),
            }
        },
        (NodeType::MobileDevice, NodeType::MobileDevice) => {
            match k {
                ScenarioKind::WirelessInterference => (1_700_000, 400_000, 1_800_000, 2_000_000),
                ScenarioKind::MobileHandover => (1_800_000, 300_000, 1_900_000, 2_200_000),
                _ => (1_400_000, 500_000, 1_500_000, 1_700_000),
            }
        },
        _ => (1_000_000, 1_000_000, 1_000_000, 1_000_000),
    }
}

/// Conditions re-derived from base values, multipliers and centred random
/// draws, then floored: latency at 1 ms, bandwidth at 100 Kbps, packet loss
/// into `[0, 1]`, jitter at 0 (and the first, second and last at the metric
/// ceiling).
pub open spec fn evolved(base: (u64, u64, u64, u64), mods: (u64, u64, u64, u64), d: Perturbation) -> (u64, u64, u64, u64) {
    (
        clamp(scale_by(base.0 as int, mods.0 as int) + d.latency - LATENCY_SPREAD, SCALE as int, METRIC_CEILING as int) as u64,
        clamp(scale_by(base.1 as int, mods.1 as int) + d.bandwidth - BANDWIDTH_SPREAD, 100 * SCALE as int, METRIC_CEILING as int) as u64,
        clamp(scale_by(base.2 as int, mods.2 as int) + d.packet_loss - PACKET_LOSS_SPREAD, 0, SCALE as int) as u64,
        clamp(scale_by(base.3 as int, mods.3 as int) + d.jitter - JITTER_SPREAD, 0, METRIC_CEILING as int) as u64,
    )
}

/// `clamp(base * m / SCALE + draw - spread, lo, hi)`.
fn shifted(base: u64, m: u64, draw: u64, spread: u64, lo: u64, hi: u64) -> (r: u64)
    requires
        lo <= hi,
    ensures
        r == clamp(scale_by(base as int, m as int) + draw - spread, lo as int, hi as int),
{
    assert(base as int * m as int <= u64::MAX as int * u64::MAX as int) by (nonlinear_arith)
        requires
            base as int <= u64::MAX as int,
            m as int <= u64::MAX as int,
            0 <= base,
            0 <= m,
    ;
    let prod: u128 = (base as u128) * (m as u128);
    let q: u128 = prod / (SCALE as u128);
    assert(q as int <= 0x7fff_ffff_ffff_ffff_ffff_ffff_ffff_ffff) by (nonlinear_arith)
        requires
            q as int == prod as int / 1_000_000,
            0 <= prod as int <= 0xffff_ffff_ffff_ffff_ffff_ffff_ffff_ffff,
    ;
    let v: i128 = q as i128 + draw as i128 - spread as i128;
    if v < lo as i128 {
        lo
    } else if v > hi as i128 {
        hi
    } else {
        v as u64
    }
}

/// The conditions that base values and multipliers give under the draws `d`.
pub fn evolve_conditions(base: (u64, u64, u64, u64), mods: (u64, u64, u64, u64), d: Perturbation) -> (r: (u64, u64, u64, u64))
    ensures
        r == evolved(base, mods, d),
{
    (
        shifted(base.0, mods.0, d.latency, LATENCY_SPREAD, SCALE, METRIC_CEILING),
        shifted(base.1, mods.1, d.bandwidth, BANDWIDTH_SPREAD, 100 * SCALE, METRIC_CEILING),
        shifted(base.2, mods.2, d.packet_loss, PACKET_LOSS_SPREAD, 0, SCALE),
        shifted(base.3, mods.3, d.jitter, JITTER_SPREAD, 0, METRIC_CEILING),
    )
}

/// Latency of at least 1 ms, bandwidth of at least 100 Kbps, packet loss in
/// `[0, 1]`, and every metric at most the ceiling.
pub open spec fn in_range(c: NodeConnection) -> bool {
    &&& SCALE <= c.latency <= METRIC_CEILING
    &&& 100 * SCALE <= c.bandwidth <= METRIC_CEILING
    &&& c.packet_loss <= SCALE
    &&& c.jitter <= METRIC_CEILING
}

/// The conditions of `c` as a tuple.
pub open spec fn conditions_of(c: NodeConnection) -> (u64, u64, u64, u64) {
    (c.latency, c.bandwidth, c.packet_loss, c.jitter)
}

/// `c` holds the conditions that `base` and `mods` give under some in-range draws.
pub open spec fn evolved_from(c: NodeConnection, base: (u64, u64, u64, u64), mods: (u64, u64, u64, u64)) -> bool {
    exists|d: Perturbation| d.in_range() && conditions_of(c) == #[trigger] evolved(base, mods, d)
}

pub proof fn lemma_evolved_in_range(base: (u64, u64, u64, u64), mods: (u64, u64, u64, u64), d: Perturbation, c: NodeConnection)
    requires
        conditions_of(c) == evolved(base, mods, d),
    ensures
        in_range(c),
{
}

/// `(w * a / SCALE) * b / SCALE`: a weight applied to one or two parameters.
pub open spec fn fraction(w: int, a: int, b: int) -> int {
    (w * a / SCALE as int) * b / SCALE as int
}

/// Improvement fractions (latency, bandwidth, packet loss, jitter) that a
/// protocol earns on a connection with the given latency and bandwidth.
pub open spec fn improvement_fractions(p: GeneratedProtocol, latency: int, bandwidth: int) -> (int, int, int, int) {
    let s = SCALE as int;
    match p.family {
        ProtocolFamily::Asymmetric => (
            fraction(300_000, p.latency_optimization as int, p.directional_bias_correction as int),
            fraction(250_000, p.bandwidth_optimization as int, p.asymmetric_buffer_sizing as int),
            fraction(400_000, p.packet_loss_optimization as int, p.directional_bias_correction as int),
            fraction(300_000, p.jitter_optimization as int, p.thermal_echo_boosting as int),
        ),
        ProtocolFamily::Satellite => (
            fraction(200_000, p.latency_optimization as int, s),
            fraction(150_000, p.bandwidth_optimization as int, s),
            fraction(350_000, p.packet_loss_optimization as int, s),
            fraction(100_000, p.jitter_optimization as int, p.thermal_echo_boosting as int),
        ),
        ProtocolFamily::Mobile => (
            fraction(250_000, p.latency_optimization as int, s),
            fraction(100_000, p.bandwidth_optimization as int, s),
            fraction(200_000, p.packet_loss_optimization as int, s),
            fraction(400_000, p.jitter_optimization as int, s),
        ),
        _ => {
            let w = if latency < 5 * s && bandwidth > 9000 * s { 10_000 } else { 150_000 };
            (
                fraction(w, p.latency_optimization as int, s),
                fraction(w, p.bandwidth_optimization as int, s),
                fraction(w, p.packet_loss_optimization as int, s),
                fraction(w, p.jitter_optimization as int, s),
            )
        },
    }
}

/// Factors that a protocol applies to (latency, bandwidth, packet loss,
/// jitter), clamped to `[0.6, 1]`, `[1, 1.5]`, `[0.5, 1]` and `[0.7, 1]`.
pub open spec fn optimization_factors(p: GeneratedProtocol, latency: int, bandwidth: int) -> (int, int, int, int) {
    let f = improvement_fractions(p, latency, bandwidth);
    let s = SCALE as int;
    (
        clamp(s - f.0, 600_000, s),
        clamp(s + f.1, s, 1_500_000),
        clamp(s - f.2, 500_000, s),
        clamp(s - f.3, 700_000, s),
    )
}

/// Conditions of `c` once protocol `p` is applied to them; latency never
/// falls below 1 ms.
pub open spec fn optimized(c: NodeConnection, p: GeneratedProtocol) -> (u64, u64, u64, u64) {
    let f = optimization_factors(p, c.latency as int, c.bandwidth as int);
    (
        clamp(scale_by(c.latency as int, f.0), SCALE as int, METRIC_CEILING as int) as u64,
        crate::fixed::saturate(scale_by(c.bandwidth as int, f.1)) as u64,
        crate::fixed::saturate(scale_by(c.packet_loss as int, f.2)) as u64,
        crate::fixed::saturate(scale_by(c.jitter as int, f.3)) as u64,
    )
}

/// `(w * a / SCALE) * b / SCALE` in wide arithmetic.
fn weighted_fraction(w: u64, a: u64, b: u64) -> (r: u128)
    requires
        w <= SCALE,
    ensures
        r == fraction(w as int, a as int, b as int),
{
    assert(w as int * a as int <= SCALE as int * u64::MAX as int) by (nonlinear_arith)
        requires
            w as int <= SCALE as int,
            a as int <= u64::MAX as int,
            0 <= w,
            0 <= a,
    ;
    let x: u128 = (w as u128) * (a as u128) / (SCALE as u128);
    assert(x as int <= u64::MAX as int) by (nonlinear_arith)
        requires
            x as int == (w as int * a as int) / 1_000_000,
            w as int * a as int <= 1_000_000 * u64::MAX as int,
            0 <= w as int * a as int,
    ;
    assert(x as int * b as int <= u64::MAX as int * u64::MAX as int) by (nonlinear_arith)
        requires
            x as int <= u64::MAX as int,
            b as int <= u64::MAX as int,
            0 <= x,
            0 <= b,
    ;
    x * (b as u128) / (SCALE as u128)
}

/// `clamp(SCALE - f, lo, SCALE)`.
fn reduction_factor(f: u128, lo: u64) -> (r: u64)
    requires
        lo <= SCALE,
    ensures
        r == clamp(SCALE - f, lo as int, SCALE as int),
{
    if f >= (SCALE - lo) as u128 {
        lo
    } else {
        SCALE - f as u64
    }
}

/// The factors of `optimization_factors`.
pub fn protocol_factors(p: &GeneratedProtocol, latency: u64, bandwidth: u64) -> (r: (u64, u64, u64, u64))
    ensures
        (r.0 as int, r.1 as int, r.2 as int, r.3 as int) == optimization_factors(*p, latency as int, bandwidth as int),
{
    let f: (u128, u128, u128, u128) = match p.family {
        ProtocolFamily::Asymmetric => (
            weighted_fraction(300_000, p.latency_optimization, p.directional_bias_correction),
            weighted_fraction(250_000, p.bandwidth_optimization, p.asymmetric_buffer_sizing),
            weighted_fraction(400_000, p.packet_loss_optimization, p.directional_bias_correction),
            weighted_fraction(300_000, p.jitter_optimization, p.thermal_echo_boosting),
        ),
        ProtocolFamily::Satellite => (
            weighted_fraction(200_000, p.latency_optimization, SCALE),
            weighted_fraction(150_000, p.bandwidth_optimization, SCALE),
            weighted_fraction(350_000, p.packet_loss_optimization, SCALE),
            weighted_fraction(100_000, p.jitter_optimization, p.thermal_echo_boosting),
        ),
        ProtocolFamily::Mobile => (
            weighted_fraction(250_000, p.latency_optimization, SCALE),
            weighted_fraction(100_000, p.bandwidth_optimization, SCALE),
            weighted_fraction(200_000, p.packet_loss_optimization, SCALE),
            weighted_fraction(400_000, p.jitter_optimization, SCALE),
        ),
        _ => {
            let w: u64 = if latency < 5 * SCALE && bandwidth > 9000 * SCALE { 10_000 } else { 150_000 };
            (
                weighted_fraction(w, p.latency_optimization, SCALE),
                weighted_fraction(w, p.bandwidth_optimization, SCALE),
                weighted_fraction(w, p.packet_loss_optimization, SCALE),
                weighted_fraction(w, p.jitter_optimization, SCALE),
            )
        },
    };
    let bw_factor: u64 = if f.1 >= 500_000 { 1_500_000 } else { SCALE + f.1 as u64 };
    (reduction_factor(f.0, 600_000), bw_factor, reduction_factor(f.2, 500_000), reduction_factor(f.3, 700_000))
}

/// Applies the protocol transform to the conditions of `c`.
fn apply_optimizations(c: &mut NodeConnection, p: &GeneratedProtocol)
    ensures
        conditions_of(*final(c)) == optimized(*old(c), *p),
        final(c).source_id == old(c).source_id,
        final(c).dest_id == old(c).dest_id,
        final(c).uses_adaptation == old(c).uses_adaptation,
        final(c).active_protocol == old(c).active_protocol,
        final(c).current_conditions == old(c).current_conditions,
{
    let f = protocol_factors(p, c.latency, c.bandwidth);
    let latency = mul_factor(c.latency, f.0);
    c.latency = if latency < SCALE { SCALE } else { latency };
    c.bandwidth = mul_factor(c.bandwidth, f.1);
    c.packet_loss = mul_factor(c.packet_loss, f.2);
    c.jitter = mul_factor(c.jitter, f.3);
}

/// Applying a protocol keeps a connection in range, never raises latency,
/// packet loss or jitter, never lowers bandwidth (below the ceiling), and
/// keeps latency at or above 0.6 of what it was.
pub proof fn lemma_optimized_bounds(c: NodeConnection, p: GeneratedProtocol)
    requires
        in_range(c),
    ensures
        optimized(c, p).0 >= SCALE,
        optimized(c, p).0 <= c.latency,
        optimized(c, p).0 >= scale_by(c.latency as int, 600_000),
        optimized(c, p).1 >= c.bandwidth,
        optimized(c, p).2 <= c.packet_loss,
        optimized(c, p).3 <= c.jitter,
        100 * SCALE <= optimized(c, p).1 <= METRIC_CEILING,
        optimized(c, p).2 <= SCALE,
{
    let f = optimization_factors(p, c.latency as int, c.bandwidth as int);
    let s = SCALE as int;
    assert(scale_by(c.latency as int, f.0) <= c.latency) by (nonlinear_arith)
        requires f.0 <= s, s == 1_000_000, c.latency >= 0;
    assert(scale_by(c.latency as int, f.0) >= scale_by(c.latency as int, 600_000)) by (nonlinear_arith)
        requires f.0 >= 600_000, c.latency >= 0;
    assert(scale_by(c.bandwidth as int, f.1) >= c.bandwidth) by (nonlinear_arith)
        requires f.1 >= s, s == 1_000_000, c.bandwidth >= 0;
    assert(scale_by(c.packet_loss as int, f.2) <= c.packet_loss) by (nonlinear_arith)
        requires f.2 <= s, s == 1_000_000, c.packet_loss >= 0;
    assert(scale_by(c.jitter as int, f.3) <= c.jitter) by (nonlinear_arith)
        requires f.3 <= s, s == 1_000_000, c.jitter >= 0;
    assert(scale_by(c.latency as int, f.0) >= 0) by (nonlinear_arith)
        requires f.0 >= 0, c.latency >= 0;
    assert(scale_by(c.packet_loss as int, f.2) >= 0) by (nonlinear_arith)
        requires f.2 >= 0, c.packet_loss >= 0;
    assert(scale_by(c.jitter as int, f.3) >= 0) by (nonlinear_arith)
        requires f.3 >= 0, c.jitter >= 0;
}

/// Transfer-time factor of the active protocol, by model name; 1 with none.
pub open spec fn protocol_transfer_factor(active: Option<String>) -> u64 {
    match active {
        None => 1_000_000,
        Some(n) => if n@ == "Low Latency Optimization Model"@ {
            650_000
        } else if n@ == "High Bandwidth Optimization Model"@ {
            700_000
        } else if n@ == "Network Reliability Optimization Model"@ {
            750_000
        } else if n@ == "Balanced Network Optimization Model"@ {
            800_000
        } else if n@ == "Mobile Network Optimization Model"@ {
            750_000
        } else {
            850_000
        },
    }
}

/// Time in ms (fixed-point) to move 10 MB over a link: `81920 / bandwidth`
/// seconds, stretched by `1 + 2 * packet_loss` and scaled by the protocol factor.
pub open spec fn transfer_time(bandwidth: int, packet_loss: int, factor: int) -> int {
    81_920_000 * (SCALE + 2 * packet_loss) * factor / bandwidth
}

pub fn transfer_factor(active: &Option<String>) -> (r: u64)
    ensures
        r == protocol_transfer_factor(*active),
        r <= SCALE,
{
    match active {
        None => 1_000_000,
        Some(n) => if *n == "Low Latency Optimization Model".to_owned() {
            650_000
        } else if *n == "High Bandwidth Optimization Model".to_owned() {
            700_000
        } else if *n == "Network Reliability Optimization Model".to_owned() {
            750_000
        } else if *n == "Balanced Network Optimization Model".to_owned() {
            800_000
        } else if *n == "Mobile Network Optimization Model".to_owned() {
            750_000
        } else {
            850_000
        },
    }
}

/// Transfer time of a connection's current conditions and protocol.
pub fn calculate_transfer_time(conn: &NodeConnection) -> (r: u64)
    requires
        in_range(*conn),
    ensures
        r == transfer_time(conn.bandwidth as int, conn.packet_loss as int, protocol_transfer_factor(conn.active_protocol) as int),
{
    let pf = transfer_factor(&conn.active_protocol);
    let loss = SCALE as u128 + 2 * (conn.packet_loss as u128);
    assert(81_920_000 * loss * pf <= 81_920_000 * 3_000_000 * 1_000_000) by (nonlinear_arith)
        requires
            loss <= 3_000_000,
            pf <= 1_000_000,
            0 <= loss,
            0 <= pf,
    ;
    let num: u128 = 81_920_000 * loss * (pf as u128);
    let t: u128 = num / (conn.bandwidth as u128);
    assert(t as int <= num as int / 100) by (nonlinear_arith)
        requires
            t as int == num as int / conn.bandwidth as int,
            conn.bandwidth >= 100,
            num >= 0,
    ;
    t as u64
}


fn copy_name(o: &Option<String>) -> (r: Option<String>)
    ensures
        r == *o,
{
    match o {
        Some(s) => Some(s.clone()),
        None => None,
    }
}

/// Time series of one connection's measurements.
#[derive(Debug)]
pub struct ConnectionMetrics {
    pub latency_history: Vec<u64>,
    pub bandwidth_history: Vec<u64>,
    pub packet_loss_history: Vec<u64>,
    pub jitter_history: Vec<u64>,
    pub transfer_time_history: Vec<u64>,
    pub protocol_history: Vec<Option<String>>,
    pub timestamps: Vec<u64>,
    pub source_id: usize,
    pub dest_id: usize,
}

impl ConnectionMetrics {
    /// Empty histories.
    pub fn new() -> (r: ConnectionMetrics)
        ensures
            r.latency_history@.len() == 0 && r.bandwidth_history@.len() == 0,
            r.packet_loss_history@.len() == 0 && r.jitter_history@.len() == 0,
            r.transfer_time_history@.len() == 0 && r.protocol_history@.len() == 0,
            r.timestamps@.len() == 0,
            r.source_id == 0 && r.dest_id == 0,
    {
        ConnectionMetrics {
            latency_history: Vec::new(),
            bandwidth_history: Vec::new(),
            packet_loss_history: Vec::new(),
            jitter_history: Vec::new(),
            transfer_time_history: Vec::new(),
            protocol_history: Vec::new(),
            timestamps: Vec::new(),
            source_id: 0,
            dest_id: 0,
        }
    }

    /// Appends one measurement to every history.
    pub fn add_measurement(
        &mut self,
        timestamp: u64,
        latency: u64,
        bandwidth: u64,
        packet_loss: u64,
        jitter: u64,
        transfer_time: u64,
        protocol_id: Option<String>,
    )
        ensures
            final(self).timestamps@ == old(self).timestamps@.push(timestamp),
            final(self).latency_history@ == old(self).latency_history@.push(latency),
            final(self).bandwidth_history@ == old(self).bandwidth_history@.push(bandwidth),
            final(self).packet_loss_history@ == old(self).packet_loss_history@.push(packet_loss),
            final(self).jitter_history@ == old(self).jitter_history@.push(jitter),
            final(self).transfer_time_history@ == old(self).transfer_time_history@.push(transfer_time),
            final(self).protocol_history@ == old(self).protocol_history@.push(protocol_id),
            final(self).source_id == old(self).source_id,
            final(self).dest_id == old(self).dest_id,
    {
        self.timestamps.push(timestamp);
        self.latency_history.push(latency);
        self.bandwidth_history.push(bandwidth);
        self.packet_loss_history.push(packet_loss);
        self.jitter_history.push(jitter);
        self.transfer_time_history.push(transfer_time);
        self.protocol_history.push(protocol_id);
    }

    /// Mean (latency, bandwidth, packet loss, jitter, transfer time); all
    /// zero when nothing was measured.
    pub fn averages(&self) -> (r: (u64, u64, u64, u64, u64))
        ensures
            r == history_averages(*self),
    {
        if self.latency_history.len() == 0 {
            return (0, 0, 0, 0, 0);
        }
        (
            average(&self.latency_history),
            average(&self.bandwidth_history),
            average(&self.packet_loss_history),
            average(&self.jitter_history),
            average(&self.transfer_time_history),
        )
    }
}

/// No measurement has been recorded in `m`.
pub open spec fn empty_history(m: ConnectionMetrics) -> bool {
    &&& m.timestamps@.len() == 0
    &&& m.latency_history@.len() == 0
    &&& m.bandwidth_history@.len() == 0
    &&& m.packet_loss_history@.len() == 0
    &&& m.jitter_history@.len() == 0
    &&& m.transfer_time_history@.len() == 0
    &&& m.protocol_history@.len() == 0
}

pub open spec fn history_averages(m: ConnectionMetrics) -> (u64, u64, u64, u64, u64) {
    if m.latency_history@.len() == 0 {
        (0, 0, 0, 0, 0)
    } else {
        (
            seq_average(m.latency_history@) as u64,
            seq_average(m.bandwidth_history@) as u64,
            seq_average(m.packet_loss_history@) as u64,
            seq_average(m.jitter_history@) as u64,
            seq_average(m.transfer_time_history@) as u64,
        )
    }
}

/// Decimal digits of `n`.
pub open spec fn decimal_text(n: nat) -> Seq<char>
    decreases n,
{
    if n < 10 {
        seq![digit_char(n)]
    } else {
        decimal_text(n / 10) + seq![digit_char(n % 10)]
    }
}

pub open spec fn digit_char(d: nat) -> char {
    if d == 0 { '0' } else if d == 1 { '1' } else if d == 2 { '2' } else if d == 3 { '3' } else if d == 4 {
        '4'
    } else if d == 5 { '5' } else if d == 6 { '6' } else if d == 7 { '7' } else if d == 8 { '8' } else { '9' }
}

fn digit_str(d: usize) -> (r: &'static str)
    requires
        d < 10,
    ensures
        r@ == seq![digit_char(d as nat)],
{
    proof {
        reveal_strlit("0");
        reveal_strlit("1");
        reveal_strlit("2");
        reveal_strlit("3");
        reveal_strlit("4");
        reveal_strlit("5");
        reveal_strlit("6");
        reveal_strlit("7");
        reveal_strlit("8");
        reveal_strlit("9");
    }
    if d == 0 { "0" } else if d == 1 { "1" } else if d == 2 { "2" } else if d == 3 { "3" } else if d == 4 {
        "4"
    } else if d == 5 { "5" } else if d == 6 { "6" } else if d == 7 { "7" } else if d == 8 { "8" } else { "9" }
}

fn append_decimal(s: &mut String, n: usize)
    ensures
        final(s)@ == old(s)@ + decimal_text(n as nat),
    decreases n,
{
    if n >= 10 {
        append_decimal(s, n / 10);
    }
    s.append(digit_str(n % 10));
    proof {
        if n >= 10 {
            assert(final(s)@ =~= old(s)@ + decimal_text(n as nat));
        } else {
            assert(final(s)@ =~= old(s)@ + decimal_text(n as nat));
        }
    }
}

/// Type of node `i` of `n`: the first tenth (rounded down) are datacenters,
/// the next fifth edge servers, the next third mobile devices, the rest clients.
pub open spec fn bucket_type(n: int, i: int) -> NodeType {
    if i < n / 10 {
        NodeType::Datacenter
    } else if i < n / 10 + n / 5 {
        NodeType::EdgeServer
    } else if i < n / 10 + n / 5 + n / 3 {
        NodeType::MobileDevice
    } else {
        NodeType::ClientDevice
    }
}

/// Node `i` of `nodes` has id `i`.
pub open spec fn node_has_id(nodes: Seq<SimulationNode>, i: int) -> bool {
    nodes[i].spec_id() == i
}

/// Node `i` of `nodes` has id `i` and the type of its bucket among `n`
/// nodes, and is mobile exactly when it is a mobile device.
pub open spec fn node_placed(nodes: Seq<SimulationNode>, n: int, i: int) -> bool {
    &&& nodes[i].spec_id() == i
    &&& nodes[i].spec_node_type() == bucket_type(n, i)
    &&& nodes[i].spec_is_mobile() == (nodes[i].spec_node_type() == NodeType::MobileDevice)
}

/// No two connections join the same pair of nodes.
pub open spec fn distinct_pairs(s: Seq<NodeConnection>) -> bool {
    forall|i: int, j: int|
        0 <= i < s.len() && 0 <= j < s.len() && i != j ==> (s[i].source_id, s[i].dest_id) != (
            s[j].source_id,
            s[j].dest_id,
        )
}

/// Number of connections that a density (fixed-point fraction) asks for
/// among `n` nodes: `floor(density * n * (n - 1) / 2)`.
pub open spec fn target_connections(n: int, density: int) -> int {
    (n * (n - 1) / 2) * density / SCALE as int
}

/// `b` joins the same two nodes as `a`.
pub open spec fn same_identity_ends(a: NodeConnection, b: NodeConnection) -> bool {
    a.source_id == b.source_id && a.dest_id == b.dest_id
}

/// `b` is `a` with the same endpoints, adaptation flag and active protocol.
pub open spec fn same_identity(a: NodeConnection, b: NodeConnection) -> bool {
    &&& a.source_id == b.source_id
    &&& a.dest_id == b.dest_id
    &&& a.uses_adaptation == b.uses_adaptation
    &&& a.active_protocol == b.active_protocol
}

/// The auxiliary flag that a scenario attaches to every connection.
pub open spec fn scenario_flag(k: ScenarioKind) -> Option<Seq<char>> {
    match k {
        ScenarioKind::Asymmetric => Some("asymmetric"@),
        ScenarioKind::MobileHandover => Some("handover"@),
        ScenarioKind::Satellite => Some("high_latency"@),
        _ => None,
    }
}

/// `conds` holds exactly the flag of `k`, with value one, or nothing.
pub open spec fn flags_match(conds: Seq<ConditionSample>, k: ScenarioKind) -> bool {
    match scenario_flag(k) {
        None => conds.len() == 0,
        Some(f) => conds.len() == 1 && conds[0].name@ == f && conds[0].value == SCALE,
    }
}

fn scenario_flags(k: ScenarioKind) -> (r: Vec<ConditionSample>)
    ensures
        flags_match(r@, k),
{
    let mut r: Vec<ConditionSample> = Vec::new();
    match k {
        ScenarioKind::Asymmetric => r.push(ConditionSample { name: "asymmetric".to_owned(), value: SCALE }),
        ScenarioKind::MobileHandover => r.push(ConditionSample { name: "handover".to_owned(), value: SCALE }),
        ScenarioKind::Satellite => r.push(ConditionSample { name: "high_latency".to_owned(), value: SCALE }),
        _ => {},
    }
    r
}

/// A protocol engine's result is taken on `c`: adaptation is on, the engine
/// produced a protocol, and its name differs from the active one (or none is active).
pub open spec fn accepts(c: NodeConnection, g: Option<GeneratedProtocol>) -> bool {
    &&& c.uses_adaptation
    &&& g is Some
    &&& !(c.active_protocol matches Some(a) && a@ == g->Some_0.name@)
}

/// `c` after the engine's result `g`: an accepted protocol becomes active and
/// its transform applies to the conditions; otherwise nothing changes.
pub open spec fn updated_connection(c: NodeConnection, g: Option<GeneratedProtocol>) -> NodeConnection {
    if accepts(c, g) {
        let p = g->Some_0;
        let v = optimized(c, p);
        NodeConnection {
            latency: v.0,
            bandwidth: v.1,
            packet_loss: v.2,
            jitter: v.3,
            active_protocol: Some(p.name),
            ..c
        }
    } else {
        c
    }
}

pub open spec fn updated_connections(cs: Seq<NodeConnection>, gs: Seq<Option<GeneratedProtocol>>) -> Seq<NodeConnection> {
    Seq::new(cs.len(), |i: int| updated_connection(cs[i], gs[i]))
}

/// Updating a connection twice with the same engine result changes nothing the
/// second time.
pub proof fn lemma_update_connection_idempotent(c: NodeConnection, g: Option<GeneratedProtocol>)
    ensures
        updated_connection(updated_connection(c, g), g) == updated_connection(c, g),
{
}

/// Updating protocols twice in succession with the same engine results leaves
/// the connections as the first update left them: in particular, no active
/// protocol changes the second time.
pub proof fn lemma_update_protocols_idempotent(cs: Seq<NodeConnection>, gs: Seq<Option<GeneratedProtocol>>)
    requires
        gs.len() == cs.len(),
    ensures
        updated_connections(updated_connections(cs, gs), gs) == updated_connections(cs, gs),
{
    let once = updated_connections(cs, gs);
    let twice = updated_connections(once, gs);
    assert forall|i: int| 0 <= i < cs.len() implies twice[i] == once[i] by {
        lemma_update_connection_idempotent(cs[i], gs[i]);
    }
    assert(twice =~= once);
}

/// The normalized view of a connection's conditions.
pub open spec fn normalized_of(c: NodeConnection) -> NormalizedConditions {
    NormalizedConditions {
        latency: crate::normalize::latency_normalized(c.latency as int) as u64,
        bandwidth: crate::normalize::bandwidth_normalized(c.bandwidth as int) as u64,
        packet_loss: crate::normalize::packet_loss_normalized(c.packet_loss as int) as u64,
        jitter: crate::normalize::jitter_normalized(c.jitter as int) as u64,
    }
}

/// The normalized conditions of `c`.
pub fn normalize_conditions(c: &NodeConnection) -> (r: NormalizedConditions)
    ensures
        r == normalized_of(*c),
{
    NormalizedConditions {
        latency: crate::normalize::normalize_latency(c.latency),
        bandwidth: crate::normalize::normalize_bandwidth(c.bandwidth),
        packet_loss: crate::normalize::normalize_packet_loss(c.packet_loss),
        jitter: crate::normalize::normalize_jitter(c.jitter),
    }
}

/// The two node types of a connection's endpoints.
pub open spec fn link_types(nodes: Seq<SimulationNode>, c: NodeConnection) -> (NodeType, NodeType) {
    (nodes[c.source_id as int].spec_node_type(), nodes[c.dest_id as int].spec_node_type())
}

/// Base values used when a scenario is applied to a link.
pub open spec fn applied_base(nodes: Seq<SimulationNode>, c: NodeConnection, s: NetworkScenario) -> (u64, u64, u64, u64) {
    let t = link_types(nodes, c);
    (pair_base(t.0, t.1).0, pair_base(t.0, t.1).1, s.base_packet_loss, s.base_jitter)
}

/// Base values of a tick: the scenario's own.
pub open spec fn tick_base(s: NetworkScenario) -> (u64, u64, u64, u64) {
    (s.base_latency, s.base_bandwidth, s.base_packet_loss, s.base_jitter)
}

/// Multipliers of a tick on a link.
pub open spec fn tick_mods(nodes: Seq<SimulationNode>, c: NodeConnection, s: NetworkScenario) -> (u64, u64, u64, u64) {
    let t = link_types(nodes, c);
    tick_modifiers(t.0, t.1, scenario_kind(s.name@))
}

/// `m` is `old` with one more measurement of `c` taken at `now`: packet loss
/// as a percentage, and the transfer time of `c`.
pub open spec fn recorded(old: ConnectionMetrics, m: ConnectionMetrics, c: NodeConnection, now: u64) -> bool {
    &&& m.timestamps@ == old.timestamps@.push(now)
    &&& m.latency_history@ == old.latency_history@.push(c.latency)
    &&& m.bandwidth_history@ == old.bandwidth_history@.push(c.bandwidth)
    &&& m.packet_loss_history@ == old.packet_loss_history@.push((c.packet_loss * 100) as u64)
    &&& m.jitter_history@ == old.jitter_history@.push(c.jitter)
    &&& m.transfer_time_history@ == old.transfer_time_history@.push(
        transfer_time(c.bandwidth as int, c.packet_loss as int, protocol_transfer_factor(c.active_protocol) as int) as u64,
    )
    &&& m.protocol_history@ == old.protocol_history@.push(c.active_protocol)
    &&& m.source_id == old.source_id
    &&& m.dest_id == old.dest_id
}

/// Number of connections in `cs` whose active protocol is named `name`.
pub open spec fn usage_count(cs: Seq<NodeConnection>, name: Seq<char>) -> nat
    decreases cs.len(),
{
    if cs.len() == 0 {
        0
    } else {
        usage_count(cs.drop_last(), name) + if cs.last().active_protocol matches Some(a) && a@ == name {
            1nat
        } else {
            0nat
        }
    }
}

/// `d` lists each protocol active on some connection of `cs` once, with the
/// number of connections running it.
pub open spec fn is_distribution(d: Seq<(String, usize)>, cs: Seq<NodeConnection>) -> bool {
    &&& forall|i: int, j: int| 0 <= i < d.len() && 0 <= j < d.len() && i != j ==> d[i].0@ != d[j].0@
    &&& forall|i: int| 0 <= i < d.len() ==> #[trigger] d[i].1 == usage_count(cs, d[i].0@) && d[i].1 > 0
    &&& forall|k: int| 0 <= k < cs.len() ==> (#[trigger] cs[k].active_protocol matches Some(a) ==> exists|i: int|
        0 <= i < d.len() && d[i].0@ == a@)
}

/// `needle` occurs in `hay`.
pub open spec fn has_substring(hay: Seq<char>, needle: Seq<char>) -> bool {
    exists|i: int| 0 <= i && i + needle.len() <= hay.len() && #[trigger] hay.subrange(i, i + needle.len()) == needle
}

/// The characters of `s`.
fn chars_of(s: &str) -> (r: Vec<char>)
    ensures
        r@ == s@,
{
    let n = s.unicode_len();
    let mut r: Vec<char> = Vec::new();
    let mut i: usize = 0;
    while i < n
        invariant
            i <= n,
            n == s@.len(),
            r@ == s@.subrange(0, i as int),
        decreases n - i,
    {
        r.push(s.get_char(i));
        i = i + 1;
        assert(r@ =~= s@.subrange(0, i as int));
    }
    assert(r@ =~= s@);
    r
}

/// Whether `needle` occurs in `hay`.
pub fn contains_text(hay: &str, needle: &str) -> (r: bool)
    ensures
        r == has_substring(hay@, needle@),
{
    let h = chars_of(hay);
    let nd = chars_of(needle);
    if nd.len() > h.len() {
        return false;
    }
    if nd.len() == 0 {
        assert(hay@.subrange(0, 0 + needle@.len() as int) =~= needle@);
        return true;
    }
    let hl = h.len();
    let last = h.len() - nd.len();
    let mut i: usize = 0;
    while i <= last
        invariant
            last == h@.len() - nd@.len(),
            hl == h@.len(),
            nd@.len() > 0,
            h@ == hay@,
            nd@ == needle@,
            forall|k: int| 0 <= k < i ==> #[trigger] h@.subrange(k, k + nd@.len()) != nd@,
        decreases last + 1 - i,
    {
        let mut j: usize = 0;
        while j < nd.len() && h[i + j] == nd[j]
            invariant
                i <= last,
                hl == h@.len(),
                last == h@.len() - nd@.len(),
                h@ == hay@,
                nd@ == needle@,
                j <= nd@.len(),
                forall|m: int| 0 <= m < j ==> h@[i + m] == nd@[m],
            decreases nd@.len() - j,
        {
            j = j + 1;
        }
        if j == nd.len() {
            assert(h@.subrange(i as int, i + nd@.len()) =~= nd@);
            return true;
        }
        assert(h@.subrange(i as int, i + nd@.len())[j as int] != nd@[j as int]);
        i = i + 1;
    }
    assert forall|k: int| 0 <= k && k + needle@.len() <= hay@.len() implies #[trigger] hay@.subrange(k, k + needle@.len()) != needle@ by {
        assert(k < i);
    }
    false
}

/// Family of a protocol named `name`: the first of "asymmetric", "satellite"
/// and "mobile" that the name contains, otherwise `Other`.
pub open spec fn family_of_name(name: Seq<char>) -> ProtocolFamily {
    if has_substring(name, "asymmetric"@) {
        ProtocolFamily::Asymmetric
    } else if has_substring(name, "satellite"@) {
        ProtocolFamily::Satellite
    } else if has_substring(name, "mobile"@) {
        ProtocolFamily::Mobile
    } else {
        ProtocolFamily::Other
    }
}

pub fn protocol_family(name: &str) -> (r: ProtocolFamily)
    ensures
        r == family_of_name(name@),
{
    if contains_text(name, "asymmetric") {
        ProtocolFamily::Asymmetric
    } else if contains_text(name, "satellite") {
        ProtocolFamily::Satellite
    } else if contains_text(name, "mobile") {
        ProtocolFamily::Mobile
    } else {
        ProtocolFamily::Other
    }
}

/// Optimization parameters of a protocol type (latency, bandwidth, packet
/// loss, jitter, directional bias, asymmetric buffer, thermal echo).
pub open spec fn type_parameters(t: Seq<char>) -> (u64, u64, u64, u64, u64, u64, u64) {
    if t == "low_latency"@ {
        (900_000, 300_000, 500_000, 700_000, 300_000, 0, 0)
    } else if t == "high_bandwidth"@ {
        (200_000, 900_000, 400_000, 200_000, 0, 500_000, 0)
    } else if t == "reliability"@ {
        (500_000, 400_000, 900_000, 600_000, 700_000, 0, 0)
    } else if t == "mobile"@ {
        (600_000, 300_000, 400_000, 900_000, 0, 0, 400_000)
    } else if t == "satellite"@ {
        (800_000, 200_000, 600_000, 400_000, 0, 0, 800_000)
    } else if t == "asymmetric"@ {
        (500_000, 700_000, 800_000, 600_000, 900_000, 800_000, 700_000)
    } else {
        (300_000, 300_000, 300_000, 300_000, 0, 0, 0)
    }
}

/// The protocol that a protocol type stands for: its name, family and parameters.
pub open spec fn typed_protocol_matches(p: GeneratedProtocol, t: Seq<char>) -> bool {
    let v = type_parameters(t);
    &&& p.name@ == t
    &&& p.family == family_of_name(t)
    &&& (p.latency_optimization, p.bandwidth_optimization, p.packet_loss_optimization, p.jitter_optimization,
        p.directional_bias_correction, p.asymmetric_buffer_sizing, p.thermal_echo_boosting) == v
}

/// The protocol of a protocol type, with the parameters of its table entry.
pub fn typed_protocol(protocol_type: &str) -> (r: GeneratedProtocol)
    ensures
        typed_protocol_matches(r, protocol_type@),
{
    let key = protocol_type.to_owned();
    let v: (u64, u64, u64, u64, u64, u64, u64) = if key == "low_latency".to_owned() {
        (900_000, 300_000, 500_000, 700_000, 300_000, 0, 0)
    } else if key == "high_bandwidth".to_owned() {
        (200_000, 900_000, 400_000, 200_000, 0, 500_000, 0)
    } else if key == "reliability".to_owned() {
        (500_000, 400_000, 900_000, 600_000, 700_000, 0, 0)
    } else if key == "mobile".to_owned() {
        (600_000, 300_000, 400_000, 900_000, 0, 0, 400_000)
    } else if key == "satellite".to_owned() {
        (800_000, 200_000, 600_000, 400_000, 0, 0, 800_000)
    } else if key == "asymmetric".to_owned() {
        (500_000, 700_000, 800_000, 600_000, 900_000, 800_000, 700_000)
    } else {
        (300_000, 300_000, 300_000, 300_000, 0, 0, 0)
    };
    GeneratedProtocol {
        name: key,
        family: protocol_family(protocol_type),
        latency_optimization: v.0,
        bandwidth_optimization: v.1,
        packet_loss_optimization: v.2,
        jitter_optimization: v.3,
        directional_bias_correction: v.4,
        asymmetric_buffer_sizing: v.5,
        thermal_echo_boosting: v.6,
    }
}

/// Flags raised by a connection's conditions: "high_latency" above 200 ms,
/// "high_packet_loss" above 0.1, "low_bandwidth" below 1000 Kbps, in that order.
pub open spec fn condition_flags(c: NodeConnection) -> Seq<Seq<char>> {
    let a = if c.latency > 200 * SCALE { seq!["high_latency"@] } else { Seq::<Seq<char>>::empty() };
    let b = if c.packet_loss > 100_000 { a.push("high_packet_loss"@) } else { a };
    if c.bandwidth < 1000 * SCALE { b.push("low_bandwidth"@) } else { b }
}

/// Samples describing a connection at `now` (seconds): its four raw metrics,
/// then each of its flags with value one.
pub open spec fn conditions_describe(r: Seq<NetworkCondition>, c: NodeConnection, now: u64) -> bool {
    let f = condition_flags(c);
    &&& r.len() == 4 + f.len()
    &&& r[0].name@ == "latency"@ && r[0].value == c.latency && r[0].timestamp == now
    &&& r[1].name@ == "bandwidth"@ && r[1].value == c.bandwidth && r[1].timestamp == now
    &&& r[2].name@ == "packet_loss"@ && r[2].value == c.packet_loss && r[2].timestamp == now
    &&& r[3].name@ == "jitter"@ && r[3].value == c.jitter && r[3].timestamp == now
    &&& forall|k: int| 0 <= k < f.len() ==> #[trigger] r[4 + k].name@ == f[k] && r[4 + k].value == SCALE && r[4 + k].timestamp == now
}

/// `c` after protocol `p` is applied to it: transformed conditions and `p` active.
pub open spec fn protocol_applied(c: NodeConnection, p: GeneratedProtocol) -> NodeConnection {
    let v = optimized(c, p);
    NodeConnection { latency: v.0, bandwidth: v.1, packet_loss: v.2, jitter: v.3, active_protocol: Some(p.name), ..c }
}

/// Improvement between two measured runs: uncapped changes with the
/// zero-baseline sentinels, and the overall value weighted 30/20/20/20/10.
pub open spec fn run_improvement(b: crate::metrics::ScenarioMetrics, a: crate::metrics::ScenarioMetrics) -> crate::metrics::PerformanceImprovement {
    let lat = crate::metrics::improvement_pct(b.avg_latency as int, a.avg_latency as int, true);
    let bw = crate::metrics::improvement_pct(b.avg_bandwidth as int, a.avg_bandwidth as int, false);
    let pl = crate::metrics::improvement_pct(b.avg_packet_loss as int, a.avg_packet_loss as int, true);
    let tt = crate::metrics::improvement_pct(b.avg_transfer_time as int, a.avg_transfer_time as int, true);
    let res = crate::metrics::improvement_pct(b.resilience_score as int, a.resilience_score as int, false);
    crate::metrics::PerformanceImprovement {
        overall: crate::fixed::trunc_div(30 * lat + 20 * bw + 20 * pl + 20 * tt + 10 * res, 100) as i128,
        latency: lat as i128,
        bandwidth: bw as i128,
        packet_loss: pl as i128,
        transfer_time: tt as i128,
        resilience: res as i128,
    }
}

/// Averages of live conditions over all connections, with the transfer time,
/// the link resilience score and the delivery efficiency score of each.
pub open spec fn live_summary(cs: Seq<NodeConnection>) -> (u64, u64, u64, u64, u64, u64, u64) {
    let n = cs.len();
    (
        crate::stats::seq_average(Seq::new(n, |i: int| cs[i].latency)) as u64,
        crate::stats::seq_average(Seq::new(n, |i: int| cs[i].bandwidth)) as u64,
        crate::stats::seq_average(Seq::new(n, |i: int| cs[i].packet_loss)) as u64,
        crate::stats::seq_average(Seq::new(n, |i: int| cs[i].jitter)) as u64,
        crate::stats::seq_average(Seq::new(n, |i: int| transfer_time(cs[i].bandwidth as int, cs[i].packet_loss as int, SCALE as int) as u64)) as u64,
        crate::stats::seq_average(Seq::new(n, |i: int| link_resilience(cs[i]) as u64)) as u64,
        crate::stats::seq_average(Seq::new(n, |i: int| link_efficiency(cs[i]) as u64)) as u64,
    )
}

/// Resilience of a link in `[0, 100]` %: latency over `[0, 1000]` ms,
/// bandwidth over `[0, 10000]` Kbps, delivery, and jitter over `[0, 100]` ms,
/// weighted 0.3, 0.2, 0.3 and 0.2.
pub open spec fn link_resilience_of(latency: int, bandwidth: int, packet_loss: int, jitter: int) -> int {
    30 * (SCALE - clamp(latency, 0, 1000 * SCALE as int) / 1000)
        + 20 * (clamp(bandwidth, 0, 10000 * SCALE as int) / 10000)
        + 30 * (SCALE - clamp(packet_loss, 0, SCALE as int))
        + 20 * (SCALE - clamp(jitter, 0, 100 * SCALE as int) / 100)
}

pub open spec fn link_resilience(c: NodeConnection) -> int {
    link_resilience_of(c.latency as int, c.bandwidth as int, c.packet_loss as int, c.jitter as int)
}

/// Efficiency from packets sent and dropped and bandwidth: delivery ratio
/// (one when nothing was sent, zero when no more arrived than were dropped)
/// weighted 0.6, bandwidth per 10000 Kbps weighted 0.4, in percent.
pub open spec fn delivery_efficiency(packet_count: int, dropped: int, bandwidth: int) -> int {
    let delivery = if packet_count == 0 {
        SCALE as int
    } else if dropped >= packet_count {
        0
    } else {
        (packet_count - dropped) * SCALE / packet_count
    };
    60 * delivery + 40 * bandwidth / 10000
}

/// Efficiency of a link: one packet per Mbps (at least one), of which the
/// packet-loss fraction is dropped.
pub open spec fn link_efficiency(c: NodeConnection) -> int {
    let packets: int = if c.bandwidth / 1000 < SCALE { SCALE as int } else { (c.bandwidth / 1000) as int };
    delivery_efficiency(packets, scale_by(c.packet_loss as int, packets), c.bandwidth as int)
}

/// `b` is `a` after one tick of condition evolution: with a current scenario,
/// every connection re-derived from the scenario's base values, the tick
/// multipliers of its link and some in-range draws; without one, unchanged.
pub open spec fn ticked(a: NetworkSimulation, b: NetworkSimulation) -> bool {
    &&& b.current_scenario == a.current_scenario
    &&& b.nodes == a.nodes
    &&& b.connection_metrics == a.connection_metrics
    &&& b.adaptation_enabled == a.adaptation_enabled
    &&& b.connections@.len() == a.connections@.len()
    &&& a.current_scenario is None ==> b.connections@ == a.connections@
    &&& a.current_scenario matches Some(s) ==> forall|i: int| 0 <= i < b.connections@.len() ==> {
        let c = #[trigger] b.connections@[i];
        &&& same_identity(c, a.connections@[i])
        &&& c.current_conditions == a.connections@[i].current_conditions
        &&& evolved_from(c, tick_base(s), tick_mods(a.nodes@, a.connections@[i], s))
        &&& in_range(c)
    }
}

/// What a tick hands to the protocol engines: with adaptation on, the
/// normalized conditions of each adaptation-enabled connection.
pub open spec fn tick_requests(sim: NetworkSimulation) -> Seq<Option<NormalizedConditions>> {
    Seq::new(sim.connections@.len(), |i: int| if sim.adaptation_enabled && sim.connections@[i].uses_adaptation {
        Some(normalized_of(sim.connections@[i]))
    } else {
        None
    })
}

/// Number of pairs `(s, d)` with `s < d < n` whose first node is below `s`.
pub open spec fn pairs_before(n: int, s: int) -> int
    decreases s,
{
    if s <= 0 {
        0
    } else {
        pairs_before(n, s - 1) + (n - s)
    }
}

/// Position of the pair `p` (`p.0 < p.1`) in the lexicographic order of all
/// pairs of `n` nodes.
pub open spec fn pair_index(n: int, p: (usize, usize)) -> int {
    pairs_before(n, p.0 as int) + (p.1 - p.0 - 1)
}

pub proof fn lemma_pairs_before(n: int, s: int)
    requires
        0 <= s,
    ensures
        2 * pairs_before(n, s) == 2 * s * n - s * (s + 1),
    decreases s,
{
    if s > 0 {
        lemma_pairs_before(n, s - 1);
        let prev = pairs_before(n, s - 1);
        let cur = pairs_before(n, s);
        assert(cur == prev + (n - s));
        assert(2 * cur == 2 * s * n - s * (s + 1)) by (nonlinear_arith)
            requires
                2 * prev == 2 * (s - 1) * n - (s - 1) * (s - 1 + 1),
                cur == prev + (n - s),
        ;
    } else {
        assert(2 * s * n - s * (s + 1) == 0) by (nonlinear_arith)
            requires
                s == 0,
        ;
    }
}

/// The pair at position `i` of the lexicographic order of all pairs of `n` nodes.
pub fn decode_pair(n: u64, i: u64) -> (r: (usize, usize))
    requires
        2 <= n <= u32::MAX,
        i < n * (n - 1) / 2,
    ensures
        r.0 < r.1 < n,
        pair_index(n as int, r) == i,
{
    proof {
        lemma_pairs_before(n as int, n - 1);
        assert(2 * (n - 1) * n - (n - 1) * n == n * (n - 1)) by (nonlinear_arith);
        assert(n * (n - 1) <= 0xffff_ffff * 0xffff_ffff) by (nonlinear_arith)
            requires 2 <= n <= 0xffff_ffff;
    }
    let mut s: u64 = 0;
    let mut base: u64 = 0;
    while i >= base + (n - 1 - s)
        invariant
            2 <= n <= u32::MAX,
            s <= n - 2,
            base == pairs_before(n as int, s as int),
            base <= i,
            i < pairs_before(n as int, n - 1),
            i < 0x8000_0000_0000_0000,
        decreases n - s,
    {
        assert(pairs_before(n as int, s + 1) == base + (n - 1 - s));
        base = base + (n - 1 - s);
        s = s + 1;
    }
    assert(pairs_before(n as int, s + 1) == base + (n - 1 - s));
    (s as usize, (s + 1 + (i - base)) as usize)
}

/// `target` distinct values below `m`, drawn uniformly as a set: for each
/// `j` from `m - target` up, a draw from `0..=j` is kept unless already
/// seen, in which case `j` itself is kept.
fn sample_indices(rng: &mut rand::rngs::StdRng, m: u64, target: u64) -> (r: Vec<u64>)
    requires
        target <= m,
    ensures
        r@.len() == target,
        r@.no_duplicates(),
        forall|i: int| 0 <= i < r@.len() ==> #[trigger] r@[i] < m,
{
    broadcast use vstd::std_specs::hash::group_hash_axioms;
    let mut seen: HashSet<u64> = HashSet::new();
    let mut chosen: Vec<u64> = Vec::new();
    let mut j: u64 = m - target;
    while j < m
        invariant
            m - target <= j <= m,
            chosen@.len() == j - (m - target),
            chosen@.no_duplicates(),
            forall|i: int| 0 <= i < chosen@.len() ==> #[trigger] chosen@[i] < j,
            seen@ == chosen@.to_set(),
        decreases m - j,
    {
        let t = uniform_below(rng, j + 1);
        let pick = if seen.contains(&t) { j } else { t };
        assert(!chosen@.contains(pick)) by {
            if chosen@.contains(pick) {
                let w = choose|w: int| 0 <= w < chosen@.len() && chosen@[w] == pick;
                assert(chosen@[w] < j);
            }
        }
        seen.insert(pick);
        let ghost before = chosen@;
        chosen.push(pick);
        assert(seen@ =~= chosen@.to_set()) by {
            assert forall|x: u64| seen@.contains(x) <==> chosen@.to_set().contains(x) by {
                if x == pick {
                    assert(chosen@[chosen@.len() - 1] == x);
                } else if before.contains(x) {
                    let w = choose|w: int| 0 <= w < before.len() && before[w] == x;
                    assert(chosen@[w] == x);
                } else if chosen@.contains(x) {
                    let w = choose|w: int| 0 <= w < chosen@.len() && chosen@[w] == x;
                    if w < before.len() {
                        assert(before[w] == x);
                    }
                }
            }
        }
        assert forall|i: int| 0 <= i < chosen@.len() implies #[trigger] chosen@[i] < j + 1 by {
            if i < before.len() {
                assert(chosen@[i] == before[i]);
            }
        }
        j = j + 1;
    }
    chosen
}

/// The large-scale network simulation.
pub struct NetworkSimulation {
    pub nodes: Vec<SimulationNode>,
    pub connections: Vec<NodeConnection>,
    pub adaptation_enabled: bool,
    pub connection_metrics: Vec<ConnectionMetrics>,
    pub current_time: u64,
    pub current_scenario: Option<NetworkScenario>,
    pub rng: rand::rngs::StdRng,
    pub simulation_iterations: usize,
}

impl NetworkSimulation {
    /// Node `i` has id `i`; each connection joins two existing nodes with
    /// `source_id < dest_id`, stays in range and has its own history; no pair
    /// is joined twice.
    pub open spec fn wf(&self) -> bool {
        &&& forall|i: int| 0 <= i < self.nodes@.len() ==> #[trigger] node_has_id(self.nodes@, i)
        &&& self.connection_metrics@.len() == self.connections@.len()
        &&& forall|i: int| 0 <= i < self.connections@.len() ==> {
            let c = #[trigger] self.connections@[i];
            &&& c.source_id < c.dest_id
            &&& c.dest_id < self.nodes@.len()
            &&& in_range(c)
        }
        &&& distinct_pairs(self.connections@)
    }

    /// An empty simulation with adaptation enabled, drawing from a generator
    /// seeded with `seed`.
    pub fn new(seed: u64) -> (r: NetworkSimulation)
        ensures
            r.wf(),
            r.nodes@.len() == 0,
            r.connections@.len() == 0,
            r.adaptation_enabled,
            r.current_scenario is None,
            r.current_time == 0,
            r.simulation_iterations == 100,
    {
        NetworkSimulation {
            nodes: Vec::new(),
            connections: Vec::new(),
            adaptation_enabled: true,
            connection_metrics: Vec::new(),
            current_time: 0,
            current_scenario: None,
            rng: seeded(seed),
            simulation_iterations: 100,
        }
    }

    /// Builds `node_count` nodes and `target_connections(node_count, density)`
    /// distinct random connections; fails when there are fewer than two nodes.
    pub fn initialize(&mut self, node_count: usize, connection_density: u64) -> (r: Result<(), String>)
        requires
            connection_density <= SCALE,
            node_count <= u32::MAX,
        ensures
            r is Err <==> node_count < 2,
            r is Err ==> *final(self) == *old(self),
            r is Ok ==> {
                &&& final(self).wf()
                &&& final(self).nodes@.len() == node_count
                &&& forall|i: int| 0 <= i < node_count ==> #[trigger] node_placed(final(self).nodes@, node_count as int, i)
                &&& final(self).connections@.len() == target_connections(node_count as int, connection_density as int)
                &&& distinct_pairs(final(self).connections@)
                &&& forall|i: int| 0 <= i < final(self).connections@.len() ==> {
                    let c = #[trigger] final(self).connections@[i];
                    &&& c.source_id < c.dest_id
                    &&& c.dest_id < node_count
                    &&& in_range(c)
                    &&& c.current_conditions@.len() == 0
                    &&& !c.uses_adaptation
                    &&& c.active_protocol is None
                }
                &&& forall|i: int| 0 <= i < final(self).connection_metrics@.len() ==> #[trigger] empty_history(final(self).connection_metrics@[i])
            },
    {
        if node_count < 2 {
            return Err("a network needs at least two nodes".to_owned());
        }
        self.create_nodes(node_count);
        assert forall|i: int| 0 <= i < self.nodes@.len() implies #[trigger] node_has_id(self.nodes@, i) by {
            assert(node_placed(self.nodes@, node_count as int, i));
        }
        self.create_connections(connection_density);
        Ok(())
    }

    fn create_nodes(&mut self, node_count: usize)
        ensures
            final(self).nodes@.len() == node_count,
            forall|i: int| 0 <= i < node_count ==> #[trigger] node_placed(final(self).nodes@, node_count as int, i),
            final(self).connections@.len() == 0,
            final(self).connection_metrics@.len() == 0,
    {
        self.nodes = Vec::new();
        self.connections = Vec::new();
        self.connection_metrics = Vec::new();
        let dc = node_count / 10;
        let edge = node_count / 5;
        let mobile = node_count / 3;
        let mut id: usize = 0;
        while id < node_count
            invariant
                id <= node_count,
                dc == node_count / 10,
                edge == node_count / 5,
                mobile == node_count / 3,
                self.nodes@.len() == id,
                self.connections@.len() == 0,
                self.connection_metrics@.len() == 0,
                forall|i: int| 0 <= i < id ==> #[trigger] node_placed(self.nodes@, node_count as int, i),
            decreases node_count - id,
        {
            let (node_type, prefix) = if id < dc {
                (NodeType::Datacenter, "datacenter_")
            } else if id < dc + edge {
                (NodeType::EdgeServer, "edge_")
            } else if id < dc + edge + mobile {
                (NodeType::MobileDevice, "mobile_")
            } else {
                (NodeType::ClientDevice, "client_")
            };
            let mut name = prefix.to_owned();
            append_decimal(&mut name, id);
            let ghost at_start = self.nodes@;
            assert(forall|i: int| 0 <= i < id ==> #[trigger] node_placed(at_start, node_count as int, i));
            let x = uniform_below(&mut self.rng, 1000 * SCALE);
            assert(self.nodes@ == at_start);
            let y = uniform_below(&mut self.rng, 1000 * SCALE);
            let node = SimulationNode::new(id, name, node_type, (x, y));
            assert(node.spec_id() == id);
            assert(node.spec_node_type() == bucket_type(node_count as int, id as int));
            let ghost before = self.nodes@;
            self.nodes.push(node);
            assert forall|i: int| 0 <= i < id + 1 implies #[trigger] node_placed(self.nodes@, node_count as int, i) by {
                if i < id {
                    assert(self.nodes@[i] == before[i]);
                    assert(node_placed(before, node_count as int, i));
                    assert(before[i].spec_id() == i);
                    assert(before[i].spec_node_type() == bucket_type(node_count as int, i));
                } else {
                    assert(self.nodes@[i] == node);
                    assert(node.spec_id() == i);
                }
            }
            id = id + 1;
        }
    }

    fn create_connections(&mut self, density: u64)
        requires
            old(self).nodes@.len() >= 2,
            old(self).nodes@.len() <= u32::MAX,
            density <= SCALE,
            old(self).connections@.len() == 0,
            old(self).connection_metrics@.len() == 0,
            forall|i: int| 0 <= i < old(self).nodes@.len() ==> #[trigger] node_has_id(old(self).nodes@, i),
        ensures
            final(self).wf(),
            final(self).nodes == old(self).nodes,
            final(self).connections@.len() == target_connections(old(self).nodes@.len() as int, density as int),
            forall|i: int| 0 <= i < final(self).connections@.len() ==> {
                let c = #[trigger] final(self).connections@[i];
                &&& in_range(c)
                &&& c.current_conditions@.len() == 0
                &&& !c.uses_adaptation
                &&& c.active_protocol is None
            },
            forall|i: int| 0 <= i < final(self).connection_metrics@.len() ==> #[trigger] empty_history(final(self).connection_metrics@[i]),
    {
        let n = self.nodes.len();
        assert(n * (n - 1) <= u32::MAX as int * u32::MAX as int) by (nonlinear_arith)
            requires n <= u32::MAX, n >= 2;
        let m: u64 = (n as u64) * ((n - 1) as u64) / 2;
        assert(m as int * density as int <= m as int * SCALE as int) by (nonlinear_arith)
            requires density <= SCALE, m >= 0;
        let wide: u128 = (m as u128) * (density as u128);
        let target_wide: u128 = wide / (SCALE as u128);
        assert(target_wide as int == target_connections(n as int, density as int));
        assert(target_wide <= m) by (nonlinear_arith)
            requires
                target_wide as int == (m as int * density as int) / 1_000_000,
                m as int * density as int <= m as int * 1_000_000,
                m >= 0,
        ;
        let chosen = sample_indices(&mut self.rng, m, target_wide as u64);
        let mut pairs: Vec<(usize, usize)> = Vec::new();
        let mut k: usize = 0;
        while k < chosen.len()
            invariant
                k <= chosen@.len(),
                n >= 2,
                n <= u32::MAX,
                m == n * (n - 1) / 2,
                chosen@.no_duplicates(),
                forall|i: int| 0 <= i < chosen@.len() ==> #[trigger] chosen@[i] < m,
                pairs@.len() == k,
                forall|i: int| 0 <= i < k ==> #[trigger] pairs@[i].0 < pairs@[i].1 && pairs@[i].1 < n
                    && pair_index(n as int, pairs@[i]) == chosen@[i],
            decreases chosen@.len() - k,
        {
            let p = decode_pair(n as u64, chosen[k]);
            pairs.push(p);
            k = k + 1;
        }
        assert(pairs@.no_duplicates()) by {
            assert forall|x: int, y: int| 0 <= x < pairs@.len() && 0 <= y < pairs@.len() && x != y implies pairs@[x] != pairs@[y] by {
                assert(pair_index(n as int, pairs@[x]) == chosen@[x]);
                assert(pair_index(n as int, pairs@[y]) == chosen@[y]);
            }
        }
        let target = chosen.len();
        let mut c: usize = 0;
        while c < target
            invariant
                c <= target,
                target <= pairs@.len(),
                target as int == target_connections(n as int, density as int),
                n == self.nodes@.len(),
                forall|i: int| 0 <= i < pairs@.len() ==> #[trigger] pairs@[i].0 < pairs@[i].1 && pairs@[i].1 < n,
                pairs@.no_duplicates(),
                self.nodes == old(self).nodes,
                self.connections@.len() == c,
                self.connection_metrics@.len() == c,
                forall|i: int| 0 <= i < c ==> #[trigger] empty_history(self.connection_metrics@[i]),
                forall|i: int| 0 <= i < c ==> {
                    let x = #[trigger] self.connections@[i];
                    &&& (x.source_id, x.dest_id) == pairs@[i]
                    &&& x.source_id < x.dest_id
                    &&& x.dest_id < n
                    &&& in_range(x)
                    &&& x.current_conditions@.len() == 0
                    &&& !x.uses_adaptation
                    &&& x.active_protocol is None
                },
            decreases target - c,
        {
            let (source_id, dest_id) = pairs[c];
            assert(pairs@[c as int].0 < pairs@[c as int].1 && pairs@[c as int].1 < n);
            let latency = 50 * SCALE + uniform_below(&mut self.rng, 50 * SCALE);
            let bandwidth = 5000 * SCALE + uniform_below(&mut self.rng, 5000 * SCALE);
            let packet_loss = uniform_below(&mut self.rng, 50_000);
            let jitter = uniform_below(&mut self.rng, 10 * SCALE);
            self.connections.push(NodeConnection {
                source_id,
                dest_id,
                latency,
                bandwidth,
                packet_loss,
                jitter,
                uses_adaptation: false,
                active_protocol: None,
                current_conditions: Vec::new(),
            });
            self.connection_metrics.push(ConnectionMetrics::new());
            c = c + 1;
        }
        proof {
            assert forall|i: int, j: int|
                0 <= i < self.connections@.len() && 0 <= j < self.connections@.len() && i != j
                implies (self.connections@[i].source_id, self.connections@[i].dest_id) != (
                self.connections@[j].source_id, self.connections@[j].dest_id) by {
                assert(pairs@[i] != pairs@[j]);
            }
        }
    }

    /// Re-derives the conditions of connection `i` from `base` and `mods` with
    /// fresh draws.
    fn rederive(&mut self, i: usize, base: (u64, u64, u64, u64), mods: (u64, u64, u64, u64))
        requires
            i < old(self).connections@.len(),
        ensures
            final(self).nodes == old(self).nodes,
            final(self).connection_metrics == old(self).connection_metrics,
            final(self).current_scenario == old(self).current_scenario,
            final(self).adaptation_enabled == old(self).adaptation_enabled,
            final(self).connections@.len() == old(self).connections@.len(),
            forall|j: int| 0 <= j < final(self).connections@.len() && j != i ==> final(self).connections@[j] == old(self).connections@[j],
            same_identity(final(self).connections@[i as int], old(self).connections@[i as int]),
            final(self).connections@[i as int].current_conditions == old(self).connections@[i as int].current_conditions,
            evolved_from(final(self).connections@[i as int], base, mods),
            in_range(final(self).connections@[i as int]),
    {
        let d = Perturbation::draw(&mut self.rng);
        let v = evolve_conditions(base, mods, d);
        let c = &mut self.connections[i];
        c.latency = v.0;
        c.bandwidth = v.1;
        c.packet_loss = v.2;
        c.jitter = v.3;
        proof {
            let nc = self.connections@[i as int];
            assert(conditions_of(nc) == evolved(base, mods, d));
            lemma_evolved_in_range(base, mods, d, nc);
        }
    }

    /// Makes `scenario` current and re-derives every connection from its link
    /// base values, the scenario's multipliers and fresh draws; attaches the
    /// scenario's flag to each connection.
    pub fn apply_scenario(&mut self, scenario: &NetworkScenario)
        requires
            old(self).wf(),
        ensures
            final(self).wf(),
            final(self).current_scenario == Some(*scenario),
            final(self).nodes == old(self).nodes,
            final(self).connection_metrics == old(self).connection_metrics,
            final(self).adaptation_enabled == old(self).adaptation_enabled,
            final(self).connections@.len() == old(self).connections@.len(),
            forall|i: int| 0 <= i < final(self).connections@.len() ==> {
                let c = #[trigger] final(self).connections@[i];
                &&& same_identity(c, old(self).connections@[i])
                &&& evolved_from(c, applied_base(old(self).nodes@, old(self).connections@[i], *scenario),
                    scenario_modifiers(scenario_kind(scenario.name@)))
                &&& in_range(c)
                &&& flags_match(c.current_conditions@, scenario_kind(scenario.name@))
            },
    {
        self.current_scenario = Some(scenario.clone());
        let kind = kind_of(&scenario.name);
        let mods = apply_modifiers(kind);
        let mut i: usize = 0;
        while i < self.connections.len()
            invariant
                i <= self.connections@.len(),
                self.current_scenario == Some(*scenario),
                self.nodes == old(self).nodes,
                self.connection_metrics == old(self).connection_metrics,
                self.adaptation_enabled == old(self).adaptation_enabled,
                self.connections@.len() == old(self).connections@.len(),
                old(self).wf(),
                kind == scenario_kind(scenario.name@),
                mods == scenario_modifiers(kind),
                forall|j: int| i <= j < self.connections@.len() ==> #[trigger] self.connections@[j] == old(self).connections@[j],
                forall|j: int| 0 <= j < i ==> {
                    let c = #[trigger] self.connections@[j];
                    &&& same_identity(c, old(self).connections@[j])
                    &&& evolved_from(c, applied_base(old(self).nodes@, old(self).connections@[j], *scenario), mods)
                    &&& in_range(c)
                    &&& flags_match(c.current_conditions@, kind)
                },
            decreases self.connections@.len() - i,
        {
            let ghost oc = old(self).connections@[i as int];
            let source_type = self.nodes[self.connections[i].source_id].node_type();
            let dest_type = self.nodes[self.connections[i].dest_id].node_type();
            let link = link_base(source_type, dest_type);
            let base = (link.0, link.1, scenario.base_packet_loss, scenario.base_jitter);
            assert(base == applied_base(old(self).nodes@, oc, *scenario));
            self.rederive(i, base, mods);
            let flags = scenario_flags(kind);
            self.connections[i].current_conditions = flags;
            i = i + 1;
        }
        proof {
            assert forall|i: int| 0 <= i < self.connections@.len() implies same_identity_ends(
                #[trigger] self.connections@[i], old(self).connections@[i]) && in_range(self.connections@[i]) by {
                assert(same_identity(self.connections@[i], old(self).connections@[i]));
                let oc = old(self).connections@[i];
                assert(oc.source_id < oc.dest_id && oc.dest_id < old(self).nodes@.len());
            }
            lemma_wf_kept(*old(self), *self);
        }
    }

    /// One tick of condition evolution: with a current scenario, every
    /// connection is re-derived from the scenario's base values, the tick
    /// multipliers of its link and fresh draws; without one, nothing changes.
    pub fn update_network_conditions(&mut self)
        requires
            old(self).wf(),
        ensures
            final(self).wf(),
            ticked(*old(self), *final(self)),
    {
        let scenario = match &self.current_scenario {
            Some(s) => s.clone(),
            None => return,
        };
        let kind = kind_of(&scenario.name);
        let base = (scenario.base_latency, scenario.base_bandwidth, scenario.base_packet_loss, scenario.base_jitter);
        let mut i: usize = 0;
        while i < self.connections.len()
            invariant
                i <= self.connections@.len(),
                self.current_scenario == old(self).current_scenario,
                old(self).current_scenario == Some(scenario),
                self.nodes == old(self).nodes,
                self.connection_metrics == old(self).connection_metrics,
                self.adaptation_enabled == old(self).adaptation_enabled,
                self.connections@.len() == old(self).connections@.len(),
                old(self).wf(),
                kind == scenario_kind(scenario.name@),
                base == tick_base(scenario),
                forall|j: int| i <= j < self.connections@.len() ==> #[trigger] self.connections@[j] == old(self).connections@[j],
                forall|j: int| 0 <= j < i ==> {
                    let c = #[trigger] self.connections@[j];
                    &&& same_identity(c, old(self).connections@[j])
                    &&& c.current_conditions == old(self).connections@[j].current_conditions
                    &&& evolved_from(c, base, tick_mods(old(self).nodes@, old(self).connections@[j], scenario))
                    &&& in_range(c)
                },
            decreases self.connections@.len() - i,
        {
            let ghost oc = old(self).connections@[i as int];
            let source_type = self.nodes[self.connections[i].source_id].node_type();
            let dest_type = self.nodes[self.connections[i].dest_id].node_type();
            let mods = evolution_modifiers(source_type, dest_type, kind);
            assert(mods == tick_mods(old(self).nodes@, oc, scenario));
            self.rederive(i, base, mods);
            i = i + 1;
        }
        proof {
            assert forall|i: int| 0 <= i < self.connections@.len() implies same_identity_ends(
                #[trigger] self.connections@[i], old(self).connections@[i]) && in_range(self.connections@[i]) by {
                assert(same_identity(self.connections@[i], old(self).connections@[i]));
                let oc = old(self).connections@[i];
                assert(oc.source_id < oc.dest_id && oc.dest_id < old(self).nodes@.len());
            }
            lemma_wf_kept(*old(self), *self);
        }
    }


    /// Turns adaptation on or off for the simulation and every connection.
    pub fn set_adaptation_enabled(&mut self, enabled: bool)
        requires
            old(self).wf(),
        ensures
            final(self).wf(),
            final(self).adaptation_enabled == enabled,
            final(self).nodes == old(self).nodes,
            final(self).connection_metrics == old(self).connection_metrics,
            final(self).current_scenario == old(self).current_scenario,
            final(self).connections@.len() == old(self).connections@.len(),
            forall|i: int| 0 <= i < final(self).connections@.len() ==> #[trigger] final(self).connections@[i]
                == (NodeConnection { uses_adaptation: enabled, ..old(self).connections@[i] }),
    {
        self.adaptation_enabled = enabled;
        let mut i: usize = 0;
        while i < self.connections.len()
            invariant
                i <= self.connections@.len(),
                self.adaptation_enabled == enabled,
                self.nodes == old(self).nodes,
                self.connection_metrics == old(self).connection_metrics,
                self.current_scenario == old(self).current_scenario,
                self.connections@.len() == old(self).connections@.len(),
                forall|j: int| i <= j < self.connections@.len() ==> #[trigger] self.connections@[j] == old(self).connections@[j],
                forall|j: int| 0 <= j < i ==> #[trigger] self.connections@[j]
                    == (NodeConnection { uses_adaptation: enabled, ..old(self).connections@[j] }),
            decreases self.connections@.len() - i,
        {
            self.connections[i].uses_adaptation = enabled;
            i = i + 1;
        }
    }

    /// What each connection hands to its protocol engine: its normalized
    /// conditions when it uses adaptation, nothing otherwise.
    pub fn adaptation_requests(&self) -> (r: Vec<Option<NormalizedConditions>>)
        ensures
            r@.len() == self.connections@.len(),
            forall|i: int| 0 <= i < r@.len() ==> #[trigger] r@[i] == (if self.connections@[i].uses_adaptation {
                Some(normalized_of(self.connections@[i]))
            } else {
                None
            }),
    {
        let mut r: Vec<Option<NormalizedConditions>> = Vec::new();
        let mut i: usize = 0;
        while i < self.connections.len()
            invariant
                i <= self.connections@.len(),
                r@.len() == i,
                forall|j: int| 0 <= j < i ==> #[trigger] r@[j] == (if self.connections@[j].uses_adaptation {
                    Some(normalized_of(self.connections@[j]))
                } else {
                    None
                }),
            decreases self.connections@.len() - i,
        {
            let c = &self.connections[i];
            if c.uses_adaptation {
                r.push(Some(normalize_conditions(c)));
            } else {
                r.push(None);
            }
            i = i + 1;
        }
        r
    }

    /// Takes each engine result (`generated[i]` for connection `i`, `None`
    /// where the engine declined): on an adaptation-enabled connection whose
    /// active protocol has another name, or none, the protocol becomes active
    /// and its transform applies to the conditions. Nothing else changes.
    pub fn update_protocols(&mut self, generated: &Vec<Option<GeneratedProtocol>>)
        requires
            old(self).wf(),
            generated@.len() == old(self).connections@.len(),
        ensures
            final(self).wf(),
            final(self).connections@ == updated_connections(old(self).connections@, generated@),
            final(self).nodes == old(self).nodes,
            final(self).connection_metrics == old(self).connection_metrics,
            final(self).current_scenario == old(self).current_scenario,
            final(self).adaptation_enabled == old(self).adaptation_enabled,
    {
        let mut i: usize = 0;
        while i < self.connections.len()
            invariant
                i <= self.connections@.len(),
                generated@.len() == self.connections@.len(),
                self.nodes == old(self).nodes,
                self.connection_metrics == old(self).connection_metrics,
                self.current_scenario == old(self).current_scenario,
                self.adaptation_enabled == old(self).adaptation_enabled,
                self.connections@.len() == old(self).connections@.len(),
                old(self).wf(),
                forall|j: int| i <= j < self.connections@.len() ==> #[trigger] self.connections@[j] == old(self).connections@[j],
                forall|j: int| 0 <= j < i ==> #[trigger] self.connections@[j] == updated_connection(old(self).connections@[j], generated@[j]),
            decreases self.connections@.len() - i,
        {
            if self.connections[i].uses_adaptation {
                match &generated[i] {
                    Some(p) => {
                        let differs = match &self.connections[i].active_protocol {
                            Some(a) => !(*a == p.name),
                            None => true,
                        };
                        if differs {
                            apply_optimizations(&mut self.connections[i], p);
                            self.connections[i].active_protocol = Some(p.name.clone());
                        }
                    },
                    None => {},
                }
            }
            i = i + 1;
        }
        proof {
            assert(self.connections@ =~= updated_connections(old(self).connections@, generated@));
            assert forall|i: int| 0 <= i < self.connections@.len() implies same_identity_ends(
                #[trigger] self.connections@[i], old(self).connections@[i]) && in_range(self.connections@[i]) by {
                let oc = old(self).connections@[i];
                assert(oc.source_id < oc.dest_id && oc.dest_id < old(self).nodes@.len() && in_range(oc));
                if accepts(oc, generated@[i]) {
                    lemma_optimized_bounds(oc, generated@[i]->Some_0);
                }
            }
            lemma_wf_kept(*old(self), *self);
        }
    }

    /// Appends the current conditions of every connection, taken at `now`,
    /// to its history.
    pub fn collect_metrics(&mut self, now: u64)
        requires
            old(self).wf(),
        ensures
            final(self).wf(),
            final(self).connections == old(self).connections,
            final(self).nodes == old(self).nodes,
            final(self).current_scenario == old(self).current_scenario,
            final(self).adaptation_enabled == old(self).adaptation_enabled,
            final(self).connection_metrics@.len() == old(self).connection_metrics@.len(),
            forall|i: int| 0 <= i < final(self).connection_metrics@.len() ==> #[trigger] recorded(
                old(self).connection_metrics@[i],
                final(self).connection_metrics@[i],
                old(self).connections@[i],
                now,
            ),
    {
        let mut i: usize = 0;
        while i < self.connections.len()
            invariant
                i <= self.connections@.len(),
                self.connections == old(self).connections,
                self.nodes == old(self).nodes,
                self.current_scenario == old(self).current_scenario,
                self.adaptation_enabled == old(self).adaptation_enabled,
                self.connection_metrics@.len() == old(self).connection_metrics@.len(),
                old(self).wf(),
                forall|j: int| i <= j < self.connection_metrics@.len() ==> #[trigger] self.connection_metrics@[j] == old(self).connection_metrics@[j],
                forall|j: int| 0 <= j < i ==> #[trigger] recorded(
                    old(self).connection_metrics@[j],
                    self.connection_metrics@[j],
                    old(self).connections@[j],
                    now,
                ),
            decreases self.connections@.len() - i,
        {
            let c = &self.connections[i];
            assert(in_range(*c));
            let tt = calculate_transfer_time(c);
            let latency = c.latency;
            let bandwidth = c.bandwidth;
            let loss_percent = c.packet_loss * 100;
            let jitter = c.jitter;
            let protocol = copy_name(&c.active_protocol);
            self.connection_metrics[i].add_measurement(now, latency, bandwidth, loss_percent, jitter, tt, protocol);
            i = i + 1;
        }
    }

    /// Number of nodes.
    pub fn node_count(&self) -> (r: usize)
        ensures
            r == self.nodes@.len(),
    {
        self.nodes.len()
    }

    /// Number of connections.
    pub fn connection_count(&self) -> (r: usize)
        ensures
            r == self.connections@.len(),
    {
        self.connections.len()
    }

    pub fn get_connections(&self) -> (r: &Vec<NodeConnection>)
        ensures
            r@ == self.connections@,
    {
        &self.connections
    }

    pub fn get_nodes(&self) -> (r: &Vec<SimulationNode>)
        ensures
            r@ == self.nodes@,
    {
        &self.nodes
    }

    /// Histories, one per connection, in connection order.
    pub fn get_metrics(&self) -> (r: &Vec<ConnectionMetrics>)
        ensures
            r@ == self.connection_metrics@,
    {
        &self.connection_metrics
    }

    pub fn get_current_scenario(&self) -> (r: Option<&NetworkScenario>)
        ensures
            r == match self.current_scenario {
                Some(s) => Some(&s),
                None => None::<&NetworkScenario>,
            },
    {
        match &self.current_scenario {
            Some(s) => Some(s),
            None => None,
        }
    }


    /// How many connections run each active protocol.
    pub fn protocol_distribution(&self) -> (r: Vec<(String, usize)>)
        ensures
            is_distribution(r@, self.connections@),
    {
        let mut d: Vec<(String, usize)> = Vec::new();
        let mut k: usize = 0;
        while k < self.connections.len()
            invariant
                k <= self.connections@.len(),
                is_distribution(d@, self.connections@.subrange(0, k as int)),
            decreases self.connections@.len() - k,
        {
            let ghost pre = self.connections@.subrange(0, k as int);
            let ghost post = self.connections@.subrange(0, k + 1);
            assert(post.drop_last() =~= pre);
            assert forall|name: Seq<char>| #[trigger] usage_count(post, name) == usage_count(pre, name)
                + if self.connections@[k as int].active_protocol matches Some(a) && a@ == name { 1nat } else { 0nat } by {}
            match &self.connections[k].active_protocol {
                None => {
                    assert forall|j: int| 0 <= j < d@.len() implies #[trigger] d@[j].1 == usage_count(post, d@[j].0@) && d@[j].1 > 0 by {
                        assert(usage_count(post, d@[j].0@) == usage_count(pre, d@[j].0@));
                    }
                    assert forall|m: int| 0 <= m < post.len() implies (#[trigger] post[m].active_protocol matches Some(a) ==> exists|i: int|
                        0 <= i < d@.len() && d@[i].0@ == a@) by {
                        if m < k {
                            assert(post[m] == pre[m]);
                        }
                    }
                },
                Some(name) => {
                    let mut i: usize = 0;
                    while i < d.len() && !(d[i].0 == *name)
                        invariant
                            i <= d@.len(),
                            forall|j: int| 0 <= j < i ==> d@[j].0@ != name@,
                        decreases d@.len() - i,
                    {
                        i = i + 1;
                    }
                    let found = i < d.len();
                    let ghost before = d@;
                    if found {
                        let count = d[i].1;
                        assert(count == usage_count(pre, name@));
                        assert(count <= k) by {
                            lemma_usage_count_bound(pre, name@);
                        }
                        let entry = (d[i].0.clone(), count + 1);
                        d.set(i, entry);
                        assert forall|j: int| 0 <= j < d@.len() implies #[trigger] d@[j].1 == usage_count(post, d@[j].0@) && d@[j].1 > 0 by {
                            if j != i {
                                assert(d@[j] == before[j]);
                            }
                        }
                        assert forall|m: int| 0 <= m < post.len() implies (#[trigger] post[m].active_protocol matches Some(a) ==> exists|j: int|
                            0 <= j < d@.len() && d@[j].0@ == a@) by {
                            if m < k {
                                assert(post[m] == pre[m]);
                                if let Some(a) = post[m].active_protocol {
                                    let j = choose|j: int| 0 <= j < before.len() && before[j].0@ == a@;
                                    assert(d@[j].0@ == a@);
                                }
                            } else {
                                assert(d@[i as int].0@ == name@);
                            }
                        }
                    } else {
                        assert(usage_count(pre, name@) == 0) by {
                            assert forall|m: int| 0 <= m < pre.len() implies !(#[trigger] pre[m].active_protocol matches Some(a) && a@ == name@) by {
                                if let Some(a) = pre[m].active_protocol {
                                    if a@ == name@ {
                                        assert(exists|j: int| 0 <= j < d@.len() && d@[j].0@ == a@);
                                        let j = choose|j: int| 0 <= j < d@.len() && d@[j].0@ == a@;
                                        assert(d@[j].0@ != name@);
                                    }
                                }
                            }
                            lemma_usage_count_absent(pre, name@);
                        }
                        d.push((name.clone(), 1));
                        assert forall|j: int| 0 <= j < d@.len() implies #[trigger] d@[j].1 == usage_count(post, d@[j].0@) && d@[j].1 > 0 by {
                            if j < before.len() {
                                assert(d@[j] == before[j]);
                            }
                        }
                        assert forall|m: int| 0 <= m < post.len() implies (#[trigger] post[m].active_protocol matches Some(a) ==> exists|j: int|
                            0 <= j < d@.len() && d@[j].0@ == a@) by {
                            if m < k {
                                assert(post[m] == pre[m]);
                                if let Some(a) = post[m].active_protocol {
                                    let j = choose|j: int| 0 <= j < before.len() && before[j].0@ == a@;
                                    assert(d@[j].0@ == a@);
                                }
                            } else {
                                assert(d@[before.len() as int].0@ == name@);
                            }
                        }
                    }
                },
            }
            k = k + 1;
        }
        assert(self.connections@.subrange(0, self.connections@.len() as int) =~= self.connections@);
        d
    }


    /// The raw conditions of `conn` at `now`, followed by the flags they raise.
    pub fn get_connection_conditions(&self, conn: &NodeConnection, now: u64) -> (r: Vec<NetworkCondition>)
        ensures
            conditions_describe(r@, *conn, now),
    {
        let mut r: Vec<NetworkCondition> = Vec::new();
        r.push(NetworkCondition { name: "latency".to_owned(), value: conn.latency, timestamp: now });
        r.push(NetworkCondition { name: "bandwidth".to_owned(), value: conn.bandwidth, timestamp: now });
        r.push(NetworkCondition { name: "packet_loss".to_owned(), value: conn.packet_loss, timestamp: now });
        r.push(NetworkCondition { name: "jitter".to_owned(), value: conn.jitter, timestamp: now });
        if conn.latency > 200 * SCALE {
            r.push(NetworkCondition { name: "high_latency".to_owned(), value: SCALE, timestamp: now });
        }
        if conn.packet_loss > 100_000 {
            r.push(NetworkCondition { name: "high_packet_loss".to_owned(), value: SCALE, timestamp: now });
        }
        if conn.bandwidth < 1000 * SCALE {
            r.push(NetworkCondition { name: "low_bandwidth".to_owned(), value: SCALE, timestamp: now });
        }
        r
    }

    /// Applies protocol `p` to every adaptation-enabled connection and makes
    /// it their active protocol.
    pub fn apply_protocol_optimizations(&mut self, protocol: &GeneratedProtocol)
        requires
            old(self).wf(),
        ensures
            final(self).wf(),
            final(self).connections@.len() == old(self).connections@.len(),
            forall|i: int| 0 <= i < final(self).connections@.len() ==> #[trigger] final(self).connections@[i] == if old(self).connections@[i].uses_adaptation {
                protocol_applied(old(self).connections@[i], *protocol)
            } else {
                old(self).connections@[i]
            },
            final(self).nodes == old(self).nodes,
            final(self).connection_metrics == old(self).connection_metrics,
            final(self).current_scenario == old(self).current_scenario,
            final(self).adaptation_enabled == old(self).adaptation_enabled,
    {
        let mut i: usize = 0;
        while i < self.connections.len()
            invariant
                i <= self.connections@.len(),
                self.nodes == old(self).nodes,
                self.connection_metrics == old(self).connection_metrics,
                self.current_scenario == old(self).current_scenario,
                self.adaptation_enabled == old(self).adaptation_enabled,
                self.connections@.len() == old(self).connections@.len(),
                old(self).wf(),
                forall|j: int| i <= j < self.connections@.len() ==> #[trigger] self.connections@[j] == old(self).connections@[j],
                forall|j: int| 0 <= j < i ==> #[trigger] self.connections@[j] == if old(self).connections@[j].uses_adaptation {
                    protocol_applied(old(self).connections@[j], *protocol)
                } else {
                    old(self).connections@[j]
                },
            decreases self.connections@.len() - i,
        {
            if self.connections[i].uses_adaptation {
                apply_optimizations(&mut self.connections[i], protocol);
                self.connections[i].active_protocol = Some(protocol.name.clone());
            }
            i = i + 1;
        }
        proof {
            assert forall|i: int| 0 <= i < self.connections@.len() implies same_identity_ends(
                #[trigger] self.connections@[i], old(self).connections@[i]) && in_range(self.connections@[i]) by {
                let oc = old(self).connections@[i];
                assert(oc.source_id < oc.dest_id && oc.dest_id < old(self).nodes@.len() && in_range(oc));
                if oc.uses_adaptation {
                    lemma_optimized_bounds(oc, *protocol);
                }
            }
            lemma_wf_kept(*old(self), *self);
        }
    }

    /// Applies the protocol that `protocol_type` names (its table parameters,
    /// and the family its name designates) to the conditions of connection
    /// `conn_idx`; an index past the end changes nothing.
    pub fn apply_optimizations_to_connection(&mut self, conn_idx: usize, protocol_type: &str)
        requires
            old(self).wf(),
        ensures
            final(self).wf(),
            final(self).nodes == old(self).nodes,
            final(self).connection_metrics == old(self).connection_metrics,
            final(self).current_scenario == old(self).current_scenario,
            final(self).adaptation_enabled == old(self).adaptation_enabled,
            final(self).connections@.len() == old(self).connections@.len(),
            conn_idx >= old(self).connections@.len() ==> final(self).connections@ == old(self).connections@,
            conn_idx < old(self).connections@.len() ==> {
                &&& forall|j: int| 0 <= j < final(self).connections@.len() && j != conn_idx ==> #[trigger] final(self).connections@[j] == old(self).connections@[j]
                &&& same_identity(final(self).connections@[conn_idx as int], old(self).connections@[conn_idx as int])
                &&& final(self).connections@[conn_idx as int].current_conditions == old(self).connections@[conn_idx as int].current_conditions
                &&& exists|p: GeneratedProtocol| typed_protocol_matches(p, protocol_type@)
                    && conditions_of(final(self).connections@[conn_idx as int]) == #[trigger] optimized(old(self).connections@[conn_idx as int], p)
            },
    {
        if conn_idx >= self.connections.len() {
            return;
        }
        let p = typed_protocol(protocol_type);
        apply_optimizations(&mut self.connections[conn_idx], &p);
        proof {
            let oc = old(self).connections@[conn_idx as int];
            assert(conditions_of(self.connections@[conn_idx as int]) == optimized(oc, p));
            lemma_optimized_bounds(oc, p);
            assert forall|i: int| 0 <= i < self.connections@.len() implies same_identity_ends(
                #[trigger] self.connections@[i], old(self).connections@[i]) && in_range(self.connections@[i]) by {
                let oci = old(self).connections@[i];
                assert(oci.source_id < oci.dest_id && oci.dest_id < old(self).nodes@.len() && in_range(oci));
            }
            lemma_wf_kept(*old(self), *self);
        }
    }

    /// Resilience of a link (see `link_resilience_of`).
    pub fn calculate_resilience_score(&self, latency: u64, bandwidth: u64, packet_loss: u64, jitter: u64) -> (r: u64)
        ensures
            r == link_resilience_of(latency as int, bandwidth as int, packet_loss as int, jitter as int),
            r <= 100 * SCALE,
    {
        let l = clamp_u64(latency, 0, 1000 * SCALE);
        let b = clamp_u64(bandwidth, 0, 10000 * SCALE);
        let p = clamp_u64(packet_loss, 0, SCALE);
        let j = clamp_u64(jitter, 0, 100 * SCALE);
        30 * (SCALE - l / 1000) + 20 * (b / 10000) + 30 * (SCALE - p) + 20 * (SCALE - j / 100)
    }

    /// Efficiency from packets sent and dropped and bandwidth (see
    /// `delivery_efficiency`).
    pub fn calculate_efficiency_score(&self, packet_count: u64, dropped_packets: u64, bandwidth: u64) -> (r: u64)
        ensures
            r == delivery_efficiency(packet_count as int, dropped_packets as int, bandwidth as int),
    {
        let delivery: u128 = if packet_count > 0 && dropped_packets >= packet_count {
            0
        } else if packet_count > 0 {
            assert((packet_count - dropped_packets) as int * SCALE as int <= packet_count as int * SCALE as int) by (nonlinear_arith)
                requires dropped_packets <= packet_count;
            assert(packet_count as int * SCALE as int <= u64::MAX as int * 1_000_000) by (nonlinear_arith)
                requires packet_count <= u64::MAX;
            let d = ((packet_count - dropped_packets) as u128) * (SCALE as u128) / (packet_count as u128);
            assert(d <= SCALE) by (nonlinear_arith)
                requires
                    d as int == ((packet_count - dropped_packets) as int * 1_000_000) / packet_count as int,
                    dropped_packets <= packet_count,
                    packet_count > 0,
            ;
            d
        } else {
            SCALE as u128
        };
        let r: u128 = 60 * delivery + 40 * (bandwidth as u128) / 10000;
        assert(r <= 60_000_000 + 40 * (u64::MAX as int) / 10000);
        r as u64
    }

    /// Averages of the live conditions of a run, measured with adaptation
    /// turned off and every active protocol dropped first.
    pub fn measure_performance(&mut self, scenario_name: &str) -> (r: crate::metrics::ScenarioMetrics)
        requires
            old(self).wf(),
        ensures
            final(self).wf(),
            !final(self).adaptation_enabled,
            final(self).connections@.len() == old(self).connections@.len(),
            forall|i: int| 0 <= i < final(self).connections@.len() ==> #[trigger] final(self).connections@[i]
                == (NodeConnection { active_protocol: None, ..old(self).connections@[i] }),
            r.name@ == scenario_name@,
            crate::metrics::summary_of(r) == {
                let s = live_summary(old(self).connections@);
                (s.0, s.1, s.2, s.3, s.4, s.5, s.6)
            },
            final(self).nodes == old(self).nodes,
            final(self).connection_metrics == old(self).connection_metrics,
    {
        self.adaptation_enabled = false;
        let mut i: usize = 0;
        while i < self.connections.len()
            invariant
                i <= self.connections@.len(),
                !self.adaptation_enabled,
                self.nodes == old(self).nodes,
                self.connection_metrics == old(self).connection_metrics,
                self.connections@.len() == old(self).connections@.len(),
                forall|j: int| i <= j < self.connections@.len() ==> #[trigger] self.connections@[j] == old(self).connections@[j],
                forall|j: int| 0 <= j < i ==> #[trigger] self.connections@[j]
                    == (NodeConnection { active_protocol: None, ..old(self).connections@[j] }),
            decreases self.connections@.len() - i,
        {
            self.connections[i].active_protocol = None;
            i = i + 1;
        }
        proof {
            assert forall|i: int| 0 <= i < self.connections@.len() implies same_identity_ends(
                #[trigger] self.connections@[i], old(self).connections@[i]) && in_range(self.connections@[i]) by {
                let oci = old(self).connections@[i];
                assert(oci.source_id < oci.dest_id && oci.dest_id < old(self).nodes@.len() && in_range(oci));
            }
            lemma_wf_kept(*old(self), *self);
        }
        let ghost cs = old(self).connections@;
        let n = self.connections.len();
        let mut lat: Vec<u64> = Vec::new();
        let mut bw: Vec<u64> = Vec::new();
        let mut pl: Vec<u64> = Vec::new();
        let mut jit: Vec<u64> = Vec::new();
        let mut tt: Vec<u64> = Vec::new();
        let mut res: Vec<u64> = Vec::new();
        let mut eff: Vec<u64> = Vec::new();
        let mut k: usize = 0;
        while k < n
            invariant
                k <= n,
                n == self.connections@.len(),
                n == cs.len(),
                self.wf(),
                forall|j: int| 0 <= j < n ==> #[trigger] self.connections@[j] == (NodeConnection { active_protocol: None, ..cs[j] }),
                lat@ == Seq::new(k as nat, |i: int| cs[i].latency),
                bw@ == Seq::new(k as nat, |i: int| cs[i].bandwidth),
                pl@ == Seq::new(k as nat, |i: int| cs[i].packet_loss),
                jit@ == Seq::new(k as nat, |i: int| cs[i].jitter),
                tt@ == Seq::new(k as nat, |i: int| transfer_time(cs[i].bandwidth as int, cs[i].packet_loss as int, SCALE as int) as u64),
                res@ == Seq::new(k as nat, |i: int| link_resilience(cs[i]) as u64),
                eff@ == Seq::new(k as nat, |i: int| link_efficiency(cs[i]) as u64),
            decreases n - k,
        {
            let c = &self.connections[k];
            assert(in_range(*c));
            lat.push(c.latency);
            bw.push(c.bandwidth);
            pl.push(c.packet_loss);
            jit.push(c.jitter);
            tt.push(calculate_transfer_time(c));
            res.push(self.calculate_resilience_score(c.latency, c.bandwidth, c.packet_loss, c.jitter));
            let packets: u64 = if c.bandwidth / 1000 < SCALE { SCALE } else { c.bandwidth / 1000 };
            let dropped = mul_factor(c.packet_loss, packets);
            assert(scale_by(c.packet_loss as int, packets as int) <= packets) by (nonlinear_arith)
                requires c.packet_loss <= 1_000_000, packets >= 0;
            assert(scale_by(c.packet_loss as int, packets as int) >= 0) by (nonlinear_arith)
                requires c.packet_loss >= 0, packets >= 0;
            eff.push(self.calculate_efficiency_score(packets, dropped, c.bandwidth));
            k = k + 1;
            assert(lat@ =~= Seq::new(k as nat, |i: int| cs[i].latency));
            assert(bw@ =~= Seq::new(k as nat, |i: int| cs[i].bandwidth));
            assert(pl@ =~= Seq::new(k as nat, |i: int| cs[i].packet_loss));
            assert(jit@ =~= Seq::new(k as nat, |i: int| cs[i].jitter));
            assert(tt@ =~= Seq::new(k as nat, |i: int| transfer_time(cs[i].bandwidth as int, cs[i].packet_loss as int, SCALE as int) as u64));
            assert(res@ =~= Seq::new(k as nat, |i: int| link_resilience(cs[i]) as u64));
            assert(eff@ =~= Seq::new(k as nat, |i: int| link_efficiency(cs[i]) as u64));
        }
        crate::metrics::ScenarioMetrics {
            name: scenario_name.to_owned(),
            avg_latency: average(&lat),
            avg_bandwidth: average(&bw),
            avg_packet_loss: average(&pl),
            avg_jitter: average(&jit),
            avg_transfer_time: average(&tt),
            resilience_score: average(&res),
            efficiency_score: average(&eff),
        }
    }

    /// Improvement between two measured runs (see `run_improvement`).
    pub fn calculate_performance_improvement(
        &self,
        baseline: &crate::metrics::ScenarioMetrics,
        adapted: &crate::metrics::ScenarioMetrics,
    ) -> (r: crate::metrics::PerformanceImprovement)
        ensures
            r == run_improvement(*baseline, *adapted),
    {
        let lat = crate::metrics::MetricsCollector::calculate_improvement(baseline.avg_latency, adapted.avg_latency, true);
        let bw = crate::metrics::MetricsCollector::calculate_improvement(baseline.avg_bandwidth, adapted.avg_bandwidth, false);
        let pl = crate::metrics::MetricsCollector::calculate_improvement(baseline.avg_packet_loss, adapted.avg_packet_loss, true);
        let tt = crate::metrics::MetricsCollector::calculate_improvement(baseline.avg_transfer_time, adapted.avg_transfer_time, true);
        let res = crate::metrics::MetricsCollector::calculate_improvement(baseline.resilience_score, adapted.resilience_score, false);
        let overall = crate::metrics::weighted_overall((30, 20, 20, 20, 10), (lat, bw, pl, tt, res));
        crate::metrics::PerformanceImprovement { overall, latency: lat, bandwidth: bw, packet_loss: pl, transfer_time: tt, resilience: res }
    }

    /// The active protocol of connection `conn_idx`; `None` past the end.
    pub fn get_protocol_name(&self, conn_idx: usize) -> (r: Option<String>)
        ensures
            r == if conn_idx < self.connections@.len() { self.connections@[conn_idx as int].active_protocol } else { None::<String> },
    {
        if conn_idx < self.connections.len() {
            copy_name(&self.connections[conn_idx].active_protocol)
        } else {
            None
        }
    }

    /// Name of node `node_id`, if there is such a node.
    pub fn get_node_name(&self, node_id: usize) -> (r: Option<String>)
        requires
            self.wf(),
        ensures
            r matches Some(n) ==> node_id < self.nodes@.len() && n@ == self.nodes@[node_id as int].spec_name(),
            r is None ==> node_id >= self.nodes@.len(),
    {
        if node_id < self.nodes.len() {
            Some(self.nodes[node_id].name().to_owned())
        } else {
            None
        }
    }

    /// First half of a tick: evolves the conditions, then returns what each
    /// connection hands to its protocol engine (nothing with adaptation off).
    pub fn begin_tick(&mut self) -> (r: Vec<Option<NormalizedConditions>>)
        requires
            old(self).wf(),
        ensures
            final(self).wf(),
            ticked(*old(self), *final(self)),
            r@ == tick_requests(*final(self)),
    {
        self.update_network_conditions();
        let mut r: Vec<Option<NormalizedConditions>> = Vec::new();
        if self.adaptation_enabled {
            r = self.adaptation_requests();
        } else {
            let mut i: usize = 0;
            while i < self.connections.len()
                invariant
                    i <= self.connections@.len(),
                    r@.len() == i,
                    forall|j: int| 0 <= j < i ==> #[trigger] r@[j] == None::<NormalizedConditions>,
                decreases self.connections@.len() - i,
            {
                r.push(None);
                i = i + 1;
            }
        }
        assert(r@ =~= tick_requests(*self));
        r
    }

    /// Second half of a tick: with adaptation on, takes the engines' results
    /// (`generated[i]` for connection `i`), then records every connection's
    /// conditions at `now`.
    pub fn finish_tick(&mut self, generated: &Vec<Option<GeneratedProtocol>>, now: u64)
        requires
            old(self).wf(),
            generated@.len() == old(self).connections@.len(),
        ensures
            final(self).wf(),
            final(self).connections@ == if old(self).adaptation_enabled {
                updated_connections(old(self).connections@, generated@)
            } else {
                old(self).connections@
            },
            final(self).nodes == old(self).nodes,
            final(self).current_scenario == old(self).current_scenario,
            final(self).adaptation_enabled == old(self).adaptation_enabled,
            final(self).connection_metrics@.len() == old(self).connection_metrics@.len(),
            forall|i: int| 0 <= i < final(self).connection_metrics@.len() ==> #[trigger] recorded(
                old(self).connection_metrics@[i],
                final(self).connection_metrics@[i],
                final(self).connections@[i],
                now,
            ),
    {
        if self.adaptation_enabled {
            self.update_protocols(generated);
        }
        self.collect_metrics(now);
    }

}

/// Adapting a connection that runs no protocol never lengthens its transfer
/// time under the same conditions: the transform does not lower bandwidth or
/// raise packet loss, and every protocol's transfer factor is at most one.
pub proof fn lemma_adaptation_never_slows(c: NodeConnection, g: Option<GeneratedProtocol>)
    requires
        in_range(c),
        c.active_protocol is None,
    ensures
        ({
            let u = updated_connection(c, g);
            transfer_time(u.bandwidth as int, u.packet_loss as int, protocol_transfer_factor(u.active_protocol) as int)
                <= transfer_time(c.bandwidth as int, c.packet_loss as int, protocol_transfer_factor(c.active_protocol) as int)
        }),
{
    let u = updated_connection(c, g);
    if accepts(c, g) {
        lemma_optimized_bounds(c, g->Some_0);
        let f = protocol_transfer_factor(u.active_protocol) as int;
        assert(f <= SCALE);
        let num_new = 81_920_000 * (SCALE + 2 * u.packet_loss) * f;
        let num_old = 81_920_000 * (SCALE + 2 * c.packet_loss) * SCALE;
        assert(num_new <= num_old) by (nonlinear_arith)
            requires
                0 <= u.packet_loss <= c.packet_loss,
                0 <= f <= 1_000_000,
                num_new == 81_920_000 * (1_000_000 + 2 * u.packet_loss) * f,
                num_old == 81_920_000 * (1_000_000 + 2 * c.packet_loss) * 1_000_000,
        ;
        assert(num_new >= 0) by (nonlinear_arith)
            requires
                u.packet_loss >= 0,
                f >= 0,
                num_new == 81_920_000 * (1_000_000 + 2 * u.packet_loss) * f,
        ;
        assert(num_new / (u.bandwidth as int) <= num_old / (c.bandwidth as int)) by (nonlinear_arith)
            requires
                0 <= num_new <= num_old,
                0 < c.bandwidth <= u.bandwidth,
        {
            vstd::arithmetic::div_mod::lemma_div_is_ordered(num_new, num_old, u.bandwidth as int);
            vstd::arithmetic::div_mod::lemma_div_is_ordered_by_denominator(num_old, c.bandwidth as int, u.bandwidth as int);
        }
    }
}

/// Transfer times (ms, fixed-point) of the connections of `cs`.
pub open spec fn transfer_times(cs: Seq<NodeConnection>) -> Seq<u64> {
    Seq::new(cs.len(), |i: int| transfer_time(cs[i].bandwidth as int, cs[i].packet_loss as int,
        protocol_transfer_factor(cs[i].active_protocol) as int) as u64)
}

/// Two ticks over the same conditions, one without adaptation and one with
/// it on connections that run no protocol yet: whatever the engine answers,
/// the adapted tick's mean transfer time is at most the other's.
pub proof fn lemma_adapted_tick_not_slower(cs: Seq<NodeConnection>, gs: Seq<Option<GeneratedProtocol>>)
    requires
        gs.len() == cs.len(),
        forall|i: int| 0 <= i < cs.len() ==> in_range(#[trigger] cs[i]) && cs[i].active_protocol is None,
    ensures
        crate::stats::seq_average(transfer_times(updated_connections(cs, gs)))
            <= crate::stats::seq_average(transfer_times(cs)),
{
    let a = transfer_times(updated_connections(cs, gs));
    let b = transfer_times(cs);
    assert forall|i: int| 0 <= i < a.len() implies #[trigger] a[i] <= b[i] by {
        let c = cs[i];
        assert(in_range(c) && c.active_protocol is None);
        lemma_adaptation_never_slows(cs[i], gs[i]);
        let u = updated_connection(cs[i], gs[i]);
        if accepts(cs[i], gs[i]) {
            lemma_optimized_bounds(cs[i], gs[i]->Some_0);
        }
        lemma_transfer_time_fits(u);
        lemma_transfer_time_fits(cs[i]);
    }
    crate::stats::lemma_average_pointwise_le(a, b);
}

/// The transfer time of a connection with at least 100 Kbps fits in a `u64`.
pub proof fn lemma_transfer_time_fits(c: NodeConnection)
    requires
        100 * SCALE <= c.bandwidth,
        c.packet_loss <= SCALE,
    ensures
        0 <= transfer_time(c.bandwidth as int, c.packet_loss as int, protocol_transfer_factor(c.active_protocol) as int) <= u64::MAX,
{
    let f = protocol_transfer_factor(c.active_protocol) as int;
    let num = 81_920_000 * (SCALE + 2 * c.packet_loss) * f;
    assert(0 <= num <= 81_920_000 * 3_000_000 * 1_000_000) by (nonlinear_arith)
        requires
            num == 81_920_000 * (1_000_000 + 2 * c.packet_loss) * f,
            0 <= c.packet_loss <= 1_000_000,
            0 <= f <= 1_000_000,
    ;
    assert(num / (c.bandwidth as int) <= num / 100_000_000) by (nonlinear_arith)
        requires
            num >= 0,
            c.bandwidth >= 100_000_000,
    {
        vstd::arithmetic::div_mod::lemma_div_is_ordered_by_denominator(num, 100_000_000, c.bandwidth as int);
    }
    assert(num / (c.bandwidth as int) >= 0) by (nonlinear_arith)
        requires
            num >= 0,
            c.bandwidth >= 1,
    ;
}

/// A simulation stays well formed when its nodes and histories are kept and
/// each connection keeps its endpoints and stays in range.
pub proof fn lemma_wf_kept(a: NetworkSimulation, b: NetworkSimulation)
    requires
        a.wf(),
        b.nodes == a.nodes,
        b.connection_metrics@.len() == a.connection_metrics@.len(),
        b.connections@.len() == a.connections@.len(),
        forall|i: int| 0 <= i < b.connections@.len() ==> same_identity_ends(#[trigger] b.connections@[i], a.connections@[i])
            && in_range(b.connections@[i]),
    ensures
        b.wf(),
{
    assert forall|i: int, j: int|
        0 <= i < b.connections@.len() && 0 <= j < b.connections@.len() && i != j
        implies (b.connections@[i].source_id, b.connections@[i].dest_id) != (
        b.connections@[j].source_id, b.connections@[j].dest_id) by {
        assert(same_identity_ends(b.connections@[i], a.connections@[i]));
        assert(same_identity_ends(b.connections@[j], a.connections@[j]));
    }
    assert forall|i: int| 0 <= i < b.connections@.len() implies {
        let c = #[trigger] b.connections@[i];
        &&& c.source_id < c.dest_id
        &&& c.dest_id < b.nodes@.len()
        &&& in_range(c)
    } by {
        assert(same_identity_ends(b.connections@[i], a.connections@[i]));
        let oc = a.connections@[i];
        assert(oc.source_id < oc.dest_id && oc.dest_id < a.nodes@.len());
    }
}

pub proof fn lemma_usage_count_bound(cs: Seq<NodeConnection>, name: Seq<char>)
    ensures
        usage_count(cs, name) <= cs.len(),
    decreases cs.len(),
{
    if cs.len() > 0 {
        lemma_usage_count_bound(cs.drop_last(), name);
    }
}

pub proof fn lemma_usage_count_absent(cs: Seq<NodeConnection>, name: Seq<char>)
    requires
        forall|m: int| 0 <= m < cs.len() ==> !(#[trigger] cs[m].active_protocol matches Some(a) && a@ == name),
    ensures
        usage_count(cs, name) == 0,
    decreases cs.len(),
{
    if cs.len() > 0 {
        let rest = cs.drop_last();
        assert forall|m: int| 0 <= m < rest.len() implies !(#[trigger] rest[m].active_protocol matches Some(a) && a@ == name) by {
            assert(rest[m] == cs[m]);
        }
        lemma_usage_count_absent(rest, name);
        assert(cs.last() == cs[cs.len() - 1]);
    }
}

} // verus!
