//! Scenario-level metrics, derived scores and improvement percentages.
//!
//! Percentages and scores are fixed-point: `SCALE` units are one percent.

use vstd::prelude::*;
use crate::fixed::{trunc_div, SCALE};
use crate::stats::{average, seq_average};
use crate::network::{history_averages, ConnectionMetrics, NetworkSimulation};
use crate::rng::{seeded, uniform_below};

verus! {

/// One hundred percent, in fixed-point units.
pub const FULL_PERCENT: i128 = 100_000_000;

/// Fifty percent, in fixed-point units.
pub const HALF_PERCENT: i128 = 50_000_000;

/// An error message.
#[derive(Debug)]
pub struct ErrorString(pub String);

/// Signed percentage deltas between a baseline and an adapted run; positive
/// means better.
#[derive(Debug, Clone, Copy, PartialEq, Eq, Structural)]
pub struct PerformanceImprovement {
    pub overall: i128,
    pub latency: i128,
    pub bandwidth: i128,
    pub packet_loss: i128,
    pub transfer_time: i128,
    pub resilience: i128,
}

impl Default for PerformanceImprovement {
    fn default() -> (r: Self)
        ensures
            r == zero_improvement(),
    {
        PerformanceImprovement { overall: 0, latency: 0, bandwidth: 0, packet_loss: 0, transfer_time: 0, resilience: 0 }
    }
}

pub open spec fn zero_improvement() -> PerformanceImprovement {
    PerformanceImprovement { overall: 0, latency: 0, bandwidth: 0, packet_loss: 0, transfer_time: 0, resilience: 0 }
}

/// Averages of one scenario run, with the two derived scores. Packet loss is a
/// percentage here.
#[derive(Debug)]
pub struct ScenarioMetrics {
    pub name: String,
    pub avg_latency: u64,
    pub avg_bandwidth: u64,
    pub avg_packet_loss: u64,
    pub avg_jitter: u64,
    pub avg_transfer_time: u64,
    pub resilience_score: u64,
    pub efficiency_score: u64,
}

impl Clone for ScenarioMetrics {
    fn clone(&self) -> (r: Self)
        ensures
            r == *self,
    {
        ScenarioMetrics {
            name: self.name.clone(),
            avg_latency: self.avg_latency,
            avg_bandwidth: self.avg_bandwidth,
            avg_packet_loss: self.avg_packet_loss,
            avg_jitter: self.avg_jitter,
            avg_transfer_time: self.avg_transfer_time,
            resilience_score: self.resilience_score,
            efficiency_score: self.efficiency_score,
        }
    }
}

impl ScenarioMetrics {
    /// All-zero metrics under `name`.
    pub fn new(name: String) -> (r: ScenarioMetrics)
        ensures
            r.name@ == name@,
            r.avg_latency == 0 && r.avg_bandwidth == 0 && r.avg_packet_loss == 0,
            r.avg_jitter == 0 && r.avg_transfer_time == 0,
            r.resilience_score == 0 && r.efficiency_score == 0,
    {
        ScenarioMetrics {
            name,
            avg_latency: 0,
            avg_bandwidth: 0,
            avg_packet_loss: 0,
            avg_jitter: 0,
            avg_transfer_time: 0,
            resilience_score: 0,
            efficiency_score: 0,
        }
    }
}

/// Baseline and adapted metrics of one scenario, and the improvement between them.
#[derive(Debug, Clone)]
pub struct PerformanceMetrics {
    pub baseline: ScenarioMetrics,
    pub adaptation: ScenarioMetrics,
    pub improvement: PerformanceImprovement,
}

impl PerformanceMetrics {
    pub fn new() -> (r: PerformanceMetrics)
        ensures
            r.baseline.name@ == "baseline"@,
            r.adaptation.name@ == "adaptation"@,
            r.baseline.avg_latency == 0 && r.baseline.avg_bandwidth == 0 && r.baseline.avg_packet_loss == 0,
            r.baseline.avg_jitter == 0 && r.baseline.avg_transfer_time == 0,
            r.baseline.resilience_score == 0 && r.baseline.efficiency_score == 0,
            r.adaptation.avg_latency == 0 && r.adaptation.avg_bandwidth == 0 && r.adaptation.avg_packet_loss == 0,
            r.adaptation.avg_jitter == 0 && r.adaptation.avg_transfer_time == 0,
            r.adaptation.resilience_score == 0 && r.adaptation.efficiency_score == 0,
            r.improvement == zero_improvement(),
    {
        PerformanceMetrics {
            baseline: ScenarioMetrics::new("baseline".to_owned()),
            adaptation: ScenarioMetrics::new("adaptation".to_owned()),
            improvement: PerformanceImprovement::default(),
        }
    }
}

/// Usage of one protocol over a run.
#[derive(Debug, Clone)]
pub struct ProtocolUsageStats {
    pub model_name: String,
    pub usage_count: usize,
    pub avg_improvement: u64,
    pub best_improvement: u64,
    pub worst_improvement: u64,
    pub most_common_scenario: String,
}

/// Percentage change from `baseline` to `adapted`, signed so that an
/// improvement is positive; a zero baseline gives 0 when `adapted` is zero
/// too, and otherwise -100 % (lower is better) or +100 % (higher is better).
pub open spec fn improvement_pct(baseline: int, adapted: int, lower_is_better: bool) -> int {
    if baseline == 0 {
        if adapted == 0 {
            0
        } else if lower_is_better {
            -100 * SCALE
        } else {
            100 * SCALE
        }
    } else if lower_is_better {
        trunc_div((baseline - adapted) * 100 * SCALE, baseline)
    } else {
        trunc_div((adapted - baseline) * 100 * SCALE, baseline)
    }
}

/// Lower-is-better change capped at -100 % when `adapted` is over twice the
/// baseline; `zero_baseline` is the value for a zero baseline.
pub open spec fn capped_lower_pct(baseline: int, adapted: int, zero_baseline: int) -> int {
    if baseline > 0 {
        if adapted > 2 * baseline {
            -100 * SCALE
        } else {
            trunc_div((baseline - adapted) * 100 * SCALE, baseline)
        }
    } else {
        zero_baseline
    }
}

/// Higher-is-better bandwidth change, capped at -50 % when `adapted` is under
/// half the baseline; over a zero baseline, 0 when `adapted` is zero too and
/// +100 % otherwise.
pub open spec fn capped_bandwidth_pct(baseline: int, adapted: int) -> int {
    if baseline > 0 {
        if 2 * adapted < baseline {
            -50 * SCALE
        } else {
            trunc_div((adapted - baseline) * 100 * SCALE, baseline)
        }
    } else if adapted == 0 {
        0
    } else {
        100 * SCALE
    }
}

/// The lower-is-better value for a zero baseline: 0 when `adapted` is zero
/// too, -100 % otherwise.
pub open spec fn lower_sentinel(adapted: int) -> int {
    if adapted == 0 {
        0
    } else {
        -100 * SCALE
    }
}

/// Per-scenario improvement, with pathological ratios capped and the overall
/// value weighted 30/25/25/15/5.
pub open spec fn weighted_improvement(baseline: ScenarioMetrics, adapted: ScenarioMetrics) -> PerformanceImprovement {
    let lat = capped_lower_pct(baseline.avg_latency as int, adapted.avg_latency as int, lower_sentinel(adapted.avg_latency as int));
    let bw = capped_bandwidth_pct(baseline.avg_bandwidth as int, adapted.avg_bandwidth as int);
    let pl = capped_lower_pct(
        baseline.avg_packet_loss as int,
        adapted.avg_packet_loss as int,
        lower_sentinel(adapted.avg_packet_loss as int),
    );
    let tt = capped_lower_pct(
        baseline.avg_transfer_time as int,
        adapted.avg_transfer_time as int,
        lower_sentinel(adapted.avg_transfer_time as int),
    );
    let res = if baseline.resilience_score > 0 {
        trunc_div((adapted.resilience_score - baseline.resilience_score) * 100 * SCALE, baseline.resilience_score as int)
    } else if adapted.resilience_score > 0 {
        100 * SCALE
    } else {
        0
    };
    PerformanceImprovement {
        overall: trunc_div(30 * lat + 25 * bw + 25 * pl + 15 * tt + 5 * res, 100) as i128,
        latency: lat as i128,
        bandwidth: bw as i128,
        packet_loss: pl as i128,
        transfer_time: tt as i128,
        resilience: res as i128,
    }
}

/// Whole-run improvement of averaged baseline and adapted values, uncapped,
/// with the overall value weighted 25/25/20/20/10.
pub open spec fn overall_improvement(
    baseline: (int, int, int, int, int),
    adapted: (int, int, int, int, int),
) -> PerformanceImprovement {
    let lat = improvement_pct(baseline.0, adapted.0, true);
    let bw = improvement_pct(baseline.1, adapted.1, false);
    let pl = improvement_pct(baseline.2, adapted.2, true);
    let tt = improvement_pct(baseline.3, adapted.3, true);
    let res = improvement_pct(baseline.4, adapted.4, false);
    PerformanceImprovement {
        overall: trunc_div(25 * lat + 25 * bw + 20 * pl + 20 * tt + 10 * res, 100) as i128,
        latency: lat as i128,
        bandwidth: bw as i128,
        packet_loss: pl as i128,
        transfer_time: tt as i128,
        resilience: res as i128,
    }
}

/// Resilience score in `[0, 100]` %: latency, packet loss (a percentage) and
/// jitter weighted 0.2, 0.5 and 0.3.
pub open spec fn resilience_score(latency: int, packet_loss: int, jitter: int) -> int {
    20 * (SCALE - crate::fixed::clamp(latency, 0, 500 * SCALE as int) / 500)
        + 50 * (SCALE - crate::fixed::clamp(packet_loss, 0, 100 * SCALE as int) / 100)
        + 30 * (SCALE - crate::fixed::clamp(jitter, 0, 100 * SCALE as int) / 100)
}

/// Efficiency score in `[0, 100]` %: bandwidth, transfer time and packet loss
/// (a percentage) weighted 0.4, 0.4 and 0.2.
pub open spec fn efficiency_score(bandwidth: int, transfer_time: int, packet_loss: int) -> int {
    40 * (crate::fixed::clamp(bandwidth, 0, 10000 * SCALE as int) / 10000)
        + 40 * (SCALE - crate::fixed::clamp(transfer_time, 0, 10000 * SCALE as int) / 10000)
        + 20 * (SCALE - crate::fixed::clamp(packet_loss, 0, 100 * SCALE as int) / 100)
}

/// `(part * 100 * SCALE) / whole`, truncated toward zero.
pub(crate) fn percent_of(part: i128, whole: u64) -> (r: i128)
    requires
        whole > 0,
        -(u64::MAX as int) <= part <= u64::MAX,
    ensures
        r == trunc_div(part * 100 * SCALE, whole as int),
        -(u64::MAX as int) * 100 * SCALE <= r <= (u64::MAX as int) * 100 * SCALE,
{
    let scaled: i128 = part * FULL_PERCENT;
    let r = crate::fixed::div_trunc(scaled, whole as i128);
    proof {
        let a = scaled as int;
        let d = whole as int;
        if a >= 0 {
            assert(a / d <= a) by (nonlinear_arith)
                requires
                    a >= 0,
                    d >= 1,
            ;
        } else {
            assert((-a) / d <= -a) by (nonlinear_arith)
                requires
                    -a >= 0,
                    d >= 1,
            ;
        }
    }
    r
}

/// Weighted sum of five percentages divided by 100, truncated toward zero.
pub(crate) fn weighted_overall(w: (i128, i128, i128, i128, i128), p: (i128, i128, i128, i128, i128)) -> (r: i128)
    requires
        0 <= w.0 <= 100 && 0 <= w.1 <= 100 && 0 <= w.2 <= 100 && 0 <= w.3 <= 100 && 0 <= w.4 <= 100,
        -(u64::MAX as int) * 100 * SCALE <= p.0 <= (u64::MAX as int) * 100 * SCALE,
        -(u64::MAX as int) * 100 * SCALE <= p.1 <= (u64::MAX as int) * 100 * SCALE,
        -(u64::MAX as int) * 100 * SCALE <= p.2 <= (u64::MAX as int) * 100 * SCALE,
        -(u64::MAX as int) * 100 * SCALE <= p.3 <= (u64::MAX as int) * 100 * SCALE,
        -(u64::MAX as int) * 100 * SCALE <= p.4 <= (u64::MAX as int) * 100 * SCALE,
    ensures
        r == trunc_div(w.0 * p.0 + w.1 * p.1 + w.2 * p.2 + w.3 * p.3 + w.4 * p.4, 100),
{
    let ghost m: int = (u64::MAX as int) * 100 * SCALE;
    assert(-100 * m <= w.0 * p.0 <= 100 * m) by (nonlinear_arith)
        requires 0 <= w.0 <= 100, -m <= p.0 <= m, m >= 0;
    assert(-100 * m <= w.1 * p.1 <= 100 * m) by (nonlinear_arith)
        requires 0 <= w.1 <= 100, -m <= p.1 <= m, m >= 0;
    assert(-100 * m <= w.2 * p.2 <= 100 * m) by (nonlinear_arith)
        requires 0 <= w.2 <= 100, -m <= p.2 <= m, m >= 0;
    assert(-100 * m <= w.3 * p.3 <= 100 * m) by (nonlinear_arith)
        requires 0 <= w.3 <= 100, -m <= p.3 <= m, m >= 0;
    assert(-100 * m <= w.4 * p.4 <= 100 * m) by (nonlinear_arith)
        requires 0 <= w.4 <= 100, -m <= p.4 <= m, m >= 0;
    let s = w.0 * p.0 + w.1 * p.1 + w.2 * p.2 + w.3 * p.3 + w.4 * p.4;
    crate::fixed::div_trunc(s, 100)
}

/// Lower-is-better change with the -100 % cap.
fn capped_lower(baseline: u64, adapted: u64, zero_baseline: i128) -> (r: i128)
    requires
        -100 * SCALE <= zero_baseline <= 0,
    ensures
        r == capped_lower_pct(baseline as int, adapted as int, zero_baseline as int),
        -(u64::MAX as int) * 100 * SCALE <= r <= (u64::MAX as int) * 100 * SCALE,
{
    if baseline > 0 {
        if adapted as u128 > 2 * (baseline as u128) {
            -FULL_PERCENT
        } else {
            percent_of(baseline as i128 - adapted as i128, baseline)
        }
    } else {
        zero_baseline
    }
}

/// The value of `m` under one of five columns: 0 latency, 1 bandwidth,
/// 2 packet loss, 3 transfer time, 4 resilience.
pub open spec fn metric_field(m: ScenarioMetrics, k: int) -> u64 {
    if k == 0 {
        m.avg_latency
    } else if k == 1 {
        m.avg_bandwidth
    } else if k == 2 {
        m.avg_packet_loss
    } else if k == 3 {
        m.avg_transfer_time
    } else {
        m.resilience_score
    }
}

pub open spec fn column(ms: Seq<ScenarioMetrics>, k: int) -> Seq<u64> {
    Seq::new(ms.len(), |i: int| metric_field(ms[i], k))
}

/// No two records share a name.
pub open spec fn unique_names(ms: Seq<ScenarioMetrics>) -> bool {
    forall|i: int, j: int| #![trigger ms[i], ms[j]] 0 <= i < ms.len() && 0 <= j < ms.len() && i != j ==> ms[i].name@ != ms[j].name@
}

/// The record named `name`, if any.
pub open spec fn lookup(ms: Seq<ScenarioMetrics>, name: Seq<char>) -> Option<ScenarioMetrics> {
    if exists|i: int| 0 <= i < ms.len() && ms[i].name@ == name {
        Some(ms[choose|i: int| 0 <= i < ms.len() && ms[i].name@ == name])
    } else {
        None
    }
}

/// The baseline records that have an adapted record of the same name, in
/// order, beside those adapted records.
pub open spec fn matched(bs: Seq<ScenarioMetrics>, ads: Seq<ScenarioMetrics>) -> (Seq<ScenarioMetrics>, Seq<ScenarioMetrics>)
    decreases bs.len(),
{
    if bs.len() == 0 {
        (Seq::empty(), Seq::empty())
    } else {
        let rest = matched(bs.drop_last(), ads);
        match lookup(ads, bs.last().name@) {
            Some(a) => (rest.0.push(bs.last()), rest.1.push(a)),
            None => rest,
        }
    }
}

/// Column averages (latency, bandwidth, packet loss, transfer time, resilience).
pub open spec fn column_averages(ms: Seq<ScenarioMetrics>) -> (int, int, int, int, int) {
    (
        seq_average(column(ms, 0)),
        seq_average(column(ms, 1)),
        seq_average(column(ms, 2)),
        seq_average(column(ms, 3)),
        seq_average(column(ms, 4)),
    )
}

/// Some connection has at least one measurement.
pub open spec fn has_measurements(ms: Seq<ConnectionMetrics>) -> bool {
    exists|i: int| 0 <= i < ms.len() && #[trigger] ms[i].latency_history@.len() > 0
}

/// Summary of a run from per-connection histories: the mean over connections
/// of each connection's mean, with the derived scores; all zero when nothing
/// was measured.
pub open spec fn summary_values(ms: Seq<ConnectionMetrics>) -> (u64, u64, u64, u64, u64, u64, u64) {
    if !has_measurements(ms) {
        (0, 0, 0, 0, 0, 0, 0)
    } else {
        measured_summary(ms)
    }
}

pub open spec fn measured_summary(ms: Seq<ConnectionMetrics>) -> (u64, u64, u64, u64, u64, u64, u64) {
    let n = ms.len();
    let lat = seq_average(Seq::new(n, |i: int| history_averages(ms[i]).0));
    let bw = seq_average(Seq::new(n, |i: int| history_averages(ms[i]).1));
    let pl = seq_average(Seq::new(n, |i: int| history_averages(ms[i]).2));
    let jit = seq_average(Seq::new(n, |i: int| history_averages(ms[i]).3));
    let tt = seq_average(Seq::new(n, |i: int| history_averages(ms[i]).4));
    (
        lat as u64,
        bw as u64,
        pl as u64,
        jit as u64,
        tt as u64,
        resilience_score(lat, pl, jit) as u64,
        efficiency_score(bw, tt, pl) as u64,
    )
}

pub open spec fn summary_of(m: ScenarioMetrics) -> (u64, u64, u64, u64, u64, u64, u64) {
    (m.avg_latency, m.avg_bandwidth, m.avg_packet_loss, m.avg_jitter, m.avg_transfer_time, m.resilience_score, m.efficiency_score)
}

/// Name under which a simulation's metrics are kept: its current scenario's.
pub open spec fn run_name(sim: NetworkSimulation) -> Seq<char> {
    match sim.current_scenario {
        Some(s) => s.name@,
        None => "unknown"@,
    }
}

/// Mean of one column of `v`.
fn column_average(v: &Vec<ScenarioMetrics>, k: usize) -> (r: u64)
    ensures
        r == seq_average(column(v@, k as int)),
{
    let mut c: Vec<u64> = Vec::new();
    let mut i: usize = 0;
    while i < v.len()
        invariant
            i <= v@.len(),
            c@ == column(v@.subrange(0, i as int), k as int),
        decreases v@.len() - i,
    {
        let m = &v[i];
        let x = if k == 0 {
            m.avg_latency
        } else if k == 1 {
            m.avg_bandwidth
        } else if k == 2 {
            m.avg_packet_loss
        } else if k == 3 {
            m.avg_transfer_time
        } else {
            m.resilience_score
        };
        c.push(x);
        i = i + 1;
        assert(c@ =~= column(v@.subrange(0, i as int), k as int));
    }
    assert(v@.subrange(0, v@.len() as int) =~= v@);
    average(&c)
}

/// Index of the record named `name` in `v`, if any.
fn find_named(v: &Vec<ScenarioMetrics>, name: &String) -> (r: Option<usize>)
    requires
        unique_names(v@),
    ensures
        r is None ==> lookup(v@, name@) is None,
        r matches Some(i) ==> i < v@.len() && v@[i as int].name@ == name@ && lookup(v@, name@) == Some(v@[i as int]),
{
    let mut i: usize = 0;
    while i < v.len()
        invariant
            i <= v@.len(),
            unique_names(v@),
            forall|j: int| 0 <= j < i ==> v@[j].name@ != name@,
        decreases v@.len() - i,
    {
        if v[i].name == *name {
            proof {
                assert(v@[i as int].name@ == name@);
                assert(exists|j: int| 0 <= j < v@.len() && v@[j].name@ == name@);
                let j = choose|j: int| 0 <= j < v@.len() && v@[j].name@ == name@;
                if j != i {
                    assert(v@[j].name@ != v@[i as int].name@);
                }
            }
            return Some(i);
        }
        i = i + 1;
    }
    None
}

/// Stores `m` in `v`, replacing any record of the same name.
fn insert_named(v: &mut Vec<ScenarioMetrics>, m: ScenarioMetrics)
    requires
        unique_names(old(v)@),
    ensures
        unique_names(final(v)@),
        forall|k: Seq<char>| #[trigger] lookup(final(v)@, k) == if k == m.name@ { Some(m) } else { lookup(old(v)@, k) },
{
    let ghost mm = m;
    let found = find_named(v, &m.name);
    match found {
        Some(i) => {
            v.set(i, m);
        },
        None => {
            v.push(m);
        },
    }
    proof {
        let n = v@.len();
        let idx: int = match found {
            Some(i) => i as int,
            None => n - 1,
        };
        assert(v@[idx] == mm);
        assert forall|a: int| 0 <= a < n && a != idx implies v@[a] == old(v)@[a] by {}
        assert(unique_names(v@));
        assert forall|k: Seq<char>| #[trigger] lookup(v@, k) == if k == mm.name@ { Some(mm) } else { lookup(old(v)@, k) } by {
            if k == mm.name@ {
                let j = choose|j: int| 0 <= j < v@.len() && v@[j].name@ == k;
                assert(v@[idx].name@ == k);
                assert(j == idx);
            } else {
                if exists|j: int| 0 <= j < v@.len() && v@[j].name@ == k {
                    let j = choose|j: int| 0 <= j < v@.len() && v@[j].name@ == k;
                    assert(j != idx);
                    assert(old(v)@[j].name@ == k);
                    let j2 = choose|j2: int| 0 <= j2 < old(v)@.len() && old(v)@[j2].name@ == k;
                    assert(j2 == j);
                } else {
                    if exists|j: int| 0 <= j < old(v)@.len() && old(v)@[j].name@ == k {
                        let j = choose|j: int| 0 <= j < old(v)@.len() && old(v)@[j].name@ == k;
                        assert(j != idx);
                        assert(v@[j].name@ == k);
                    }
                }
            }
        }
    }
}

/// Number of connections with an active protocol.
pub open spec fn active_count(cs: Seq<crate::network::NodeConnection>) -> nat
    decreases cs.len(),
{
    if cs.len() == 0 {
        0
    } else {
        active_count(cs.drop_last()) + if cs.last().active_protocol is Some { 1nat } else { 0nat }
    }
}


/// Collects per-scenario metrics of baseline and adapted runs and compares them.
pub struct MetricsCollector {
    duration_secs: u64,
    baseline_metrics: Vec<ScenarioMetrics>,
    adaptation_metrics: Vec<ScenarioMetrics>,
    protocol_usage: Vec<(String, usize)>,
    adaptation_times: Vec<u64>,
    protocol_switches: usize,
    rng: rand::rngs::StdRng,
}

impl MetricsCollector {
    /// Percentage improvement of `adapted` over `baseline`.
    pub fn calculate_improvement(baseline: u64, adapted: u64, lower_is_better: bool) -> (r: i128)
        ensures
            r == improvement_pct(baseline as int, adapted as int, lower_is_better),
            -(u64::MAX as int) * 100 * SCALE <= r <= (u64::MAX as int) * 100 * SCALE,
    {
        if baseline == 0 {
            if adapted == 0 {
                0
            } else if lower_is_better {
                -FULL_PERCENT
            } else {
                FULL_PERCENT
            }
        } else if lower_is_better {
            percent_of(baseline as i128 - adapted as i128, baseline)
        } else {
            percent_of(adapted as i128 - baseline as i128, baseline)
        }
    }

    /// Improvement of one scenario, with the capped ratios.
    pub fn calculate_weighted_improvement(baseline: &ScenarioMetrics, adapted: &ScenarioMetrics) -> (r: PerformanceImprovement)
        ensures
            r == weighted_improvement(*baseline, *adapted),
    {
        let lat_zero: i128 = if adapted.avg_latency == 0 { 0 } else { -FULL_PERCENT };
        let lat = capped_lower(baseline.avg_latency, adapted.avg_latency, lat_zero);
        let bw: i128 = if baseline.avg_bandwidth > 0 {
            if 2 * (adapted.avg_bandwidth as u128) < baseline.avg_bandwidth as u128 {
                -HALF_PERCENT
            } else {
                percent_of(adapted.avg_bandwidth as i128 - baseline.avg_bandwidth as i128, baseline.avg_bandwidth)
            }
        } else if adapted.avg_bandwidth == 0 {
            0
        } else {
            FULL_PERCENT
        };
        let pl_zero: i128 = if adapted.avg_packet_loss == 0 { 0 } else { -FULL_PERCENT };
        let pl = capped_lower(baseline.avg_packet_loss, adapted.avg_packet_loss, pl_zero);
        let tt_zero: i128 = if adapted.avg_transfer_time == 0 { 0 } else { -FULL_PERCENT };
        let tt = capped_lower(baseline.avg_transfer_time, adapted.avg_transfer_time, tt_zero);
        let res: i128 = if baseline.resilience_score > 0 {
            percent_of(adapted.resilience_score as i128 - baseline.resilience_score as i128, baseline.resilience_score)
        } else if adapted.resilience_score > 0 {
            FULL_PERCENT
        } else {
            0
        };
        let overall = weighted_overall((30, 25, 25, 15, 5), (lat, bw, pl, tt, res));
        PerformanceImprovement { overall, latency: lat, bandwidth: bw, packet_loss: pl, transfer_time: tt, resilience: res }
    }

    /// Improvement between averaged whole-run values, given as (latency,
    /// bandwidth, packet loss, transfer time, resilience).
    pub fn improvement_of_averages(baseline: (u64, u64, u64, u64, u64), adapted: (u64, u64, u64, u64, u64)) -> (r: PerformanceImprovement)
        ensures
            r == overall_improvement(
                (baseline.0 as int, baseline.1 as int, baseline.2 as int, baseline.3 as int, baseline.4 as int),
                (adapted.0 as int, adapted.1 as int, adapted.2 as int, adapted.3 as int, adapted.4 as int),
            ),
    {
        let lat = Self::calculate_improvement(baseline.0, adapted.0, true);
        let bw = Self::calculate_improvement(baseline.1, adapted.1, false);
        let pl = Self::calculate_improvement(baseline.2, adapted.2, true);
        let tt = Self::calculate_improvement(baseline.3, adapted.3, true);
        let res = Self::calculate_improvement(baseline.4, adapted.4, false);
        let overall = weighted_overall((25, 25, 20, 20, 10), (lat, bw, pl, tt, res));
        PerformanceImprovement { overall, latency: lat, bandwidth: bw, packet_loss: pl, transfer_time: tt, resilience: res }
    }

    /// Resilience score of averaged latency, packet loss (a percentage) and jitter.
    pub fn calculate_resilience_score(latency: u64, packet_loss: u64, jitter: u64) -> (r: u64)
        ensures
            r == resilience_score(latency as int, packet_loss as int, jitter as int),
            r <= 100 * SCALE,
    {
        let l = crate::fixed::clamp_u64(latency, 0, 500 * SCALE);
        let p = crate::fixed::clamp_u64(packet_loss, 0, 100 * SCALE);
        let j = crate::fixed::clamp_u64(jitter, 0, 100 * SCALE);
        20 * (SCALE - l / 500) + 50 * (SCALE - p / 100) + 30 * (SCALE - j / 100)
    }

    /// Efficiency score of averaged bandwidth, transfer time and packet loss (a
    /// percentage).
    pub fn calculate_transfer_efficiency(bandwidth: u64, transfer_time: u64, packet_loss: u64) -> (r: u64)
        ensures
            r == efficiency_score(bandwidth as int, transfer_time as int, packet_loss as int),
            r <= 100 * SCALE,
    {
        let b = crate::fixed::clamp_u64(bandwidth, 0, 10000 * SCALE);
        let t = crate::fixed::clamp_u64(transfer_time, 0, 10000 * SCALE);
        let p = crate::fixed::clamp_u64(packet_loss, 0, 100 * SCALE);
        40 * (b / 10000) + 40 * (SCALE - t / 10000) + 20 * (SCALE - p / 100)
    }

    pub closed spec fn baselines(&self) -> Seq<ScenarioMetrics> {
        self.baseline_metrics@
    }

    pub closed spec fn adaptations(&self) -> Seq<ScenarioMetrics> {
        self.adaptation_metrics@
    }

    pub closed spec fn usage(&self) -> Seq<(String, usize)> {
        self.protocol_usage@
    }

    pub closed spec fn switches(&self) -> usize {
        self.protocol_switches
    }

    pub closed spec fn adaptation_time_history(&self) -> Seq<u64> {
        self.adaptation_times@
    }

    pub closed spec fn duration(&self) -> u64 {
        self.duration_secs
    }

    /// Records are kept at most once per scenario name.
    pub closed spec fn wf(&self) -> bool {
        unique_names(self.baseline_metrics@) && unique_names(self.adaptation_metrics@)
    }

    /// An empty collector whose simulated adaptation times are drawn from a
    /// generator seeded with `seed`.
    pub fn new(seed: u64) -> (r: MetricsCollector)
        ensures
            r.wf(),
            r.baselines().len() == 0,
            r.adaptations().len() == 0,
            r.usage().len() == 0,
            r.switches() == 0,
            r.adaptation_time_history().len() == 0,
            r.duration() == 0,
    {
        MetricsCollector {
            duration_secs: 0,
            baseline_metrics: Vec::new(),
            adaptation_metrics: Vec::new(),
            protocol_usage: Vec::new(),
            adaptation_times: Vec::new(),
            protocol_switches: 0,
            rng: seeded(seed),
        }
    }

    /// Sets the run duration and clears everything collected.
    pub fn initialize(&mut self, duration_secs: u64)
        ensures
            final(self).wf(),
            final(self).duration() == duration_secs,
            final(self).baselines().len() == 0,
            final(self).adaptations().len() == 0,
            final(self).usage().len() == 0,
            final(self).switches() == 0,
            final(self).adaptation_time_history().len() == 0,
    {
        self.duration_secs = duration_secs;
        self.reset();
    }

    /// Clears everything collected.
    pub fn reset(&mut self)
        ensures
            final(self).wf(),
            final(self).duration() == old(self).duration(),
            final(self).baselines().len() == 0,
            final(self).adaptations().len() == 0,
            final(self).usage().len() == 0,
            final(self).switches() == 0,
            final(self).adaptation_time_history().len() == 0,
    {
        self.baseline_metrics = Vec::new();
        self.adaptation_metrics = Vec::new();
        self.protocol_usage = Vec::new();
        self.adaptation_times = Vec::new();
        self.protocol_switches = 0;
    }

    /// Averages of the simulation's histories under its current scenario's name.
    pub fn collect_connection_metrics(&self, simulation: &NetworkSimulation) -> (r: ScenarioMetrics)
        ensures
            r.name@ == run_name(*simulation),
            summary_of(r) == summary_values(simulation.connection_metrics@),
    {
        let name = match simulation.get_current_scenario() {
            Some(s) => s.name.clone(),
            None => "unknown".to_owned(),
        };
        let ms = simulation.get_metrics();
        let ghost n = ms@.len();
        let mut lat: Vec<u64> = Vec::new();
        let mut bw: Vec<u64> = Vec::new();
        let mut pl: Vec<u64> = Vec::new();
        let mut jit: Vec<u64> = Vec::new();
        let mut tt: Vec<u64> = Vec::new();
        let mut measured = false;
        let mut i: usize = 0;
        while i < ms.len()
            invariant
                i <= ms@.len(),
                measured == exists|j: int| 0 <= j < i && #[trigger] ms@[j].latency_history@.len() > 0,
                lat@ == Seq::new(i as nat, |j: int| history_averages(ms@[j]).0),
                bw@ == Seq::new(i as nat, |j: int| history_averages(ms@[j]).1),
                pl@ == Seq::new(i as nat, |j: int| history_averages(ms@[j]).2),
                jit@ == Seq::new(i as nat, |j: int| history_averages(ms@[j]).3),
                tt@ == Seq::new(i as nat, |j: int| history_averages(ms@[j]).4),
            decreases ms@.len() - i,
        {
            if ms[i].latency_history.len() > 0 {
                measured = true;
            }
            let a = ms[i].averages();
            lat.push(a.0);
            bw.push(a.1);
            pl.push(a.2);
            jit.push(a.3);
            tt.push(a.4);
            i = i + 1;
            assert(lat@ =~= Seq::new(i as nat, |j: int| history_averages(ms@[j]).0));
            assert(bw@ =~= Seq::new(i as nat, |j: int| history_averages(ms@[j]).1));
            assert(pl@ =~= Seq::new(i as nat, |j: int| history_averages(ms@[j]).2));
            assert(jit@ =~= Seq::new(i as nat, |j: int| history_averages(ms@[j]).3));
            assert(tt@ =~= Seq::new(i as nat, |j: int| history_averages(ms@[j]).4));
        }
        proof {
            reveal_strlit("unknown");
        }
        if !measured {
            return ScenarioMetrics::new(name);
        }
        let avg_latency = average(&lat);
        let avg_bandwidth = average(&bw);
        let avg_packet_loss = average(&pl);
        let avg_jitter = average(&jit);
        let avg_transfer_time = average(&tt);
        let resilience_score = Self::calculate_resilience_score(avg_latency, avg_packet_loss, avg_jitter);
        let efficiency_score = Self::calculate_transfer_efficiency(avg_bandwidth, avg_transfer_time, avg_packet_loss);
        proof {
            reveal_strlit("unknown");
        }
        ScenarioMetrics {
            name,
            avg_latency,
            avg_bandwidth,
            avg_packet_loss,
            avg_jitter,
            avg_transfer_time,
            resilience_score,
            efficiency_score,
        }
    }

    /// Stores the simulation's summary as the baseline of its scenario,
    /// replacing an earlier one.
    pub fn collect_baseline_metrics(&mut self, simulation: &NetworkSimulation)
        requires
            old(self).wf(),
        ensures
            final(self).wf(),
            lookup(final(self).baselines(), run_name(*simulation)) matches Some(m)
                && summary_of(m) == summary_values(simulation.connection_metrics@),
            forall|k: Seq<char>| k != run_name(*simulation) ==> #[trigger] lookup(final(self).baselines(), k) == lookup(old(self).baselines(), k),
            final(self).adaptations() == old(self).adaptations(),
            final(self).usage() == old(self).usage(),
            final(self).switches() == old(self).switches(),
            final(self).adaptation_time_history() == old(self).adaptation_time_history(),
    {
        let metrics = self.collect_connection_metrics(simulation);
        insert_named(&mut self.baseline_metrics, metrics);
    }

    /// Stores the simulation's summary as the adapted run of its scenario,
    /// replacing an earlier one, and refreshes the protocol usage.
    pub fn collect_adaptation_metrics(&mut self, simulation: &NetworkSimulation)
        requires
            old(self).wf(),
        ensures
            final(self).wf(),
            lookup(final(self).adaptations(), run_name(*simulation)) matches Some(m)
                && summary_of(m) == summary_values(simulation.connection_metrics@),
            forall|k: Seq<char>| k != run_name(*simulation) ==> #[trigger] lookup(final(self).adaptations(), k) == lookup(old(self).adaptations(), k),
            final(self).baselines() == old(self).baselines(),
            crate::network::is_distribution(final(self).usage(), simulation.connections@),
    {
        let metrics = self.collect_connection_metrics(simulation);
        insert_named(&mut self.adaptation_metrics, metrics);
        self.collect_protocol_usage(simulation);
    }

    /// Replaces the protocol usage by the simulation's distribution, counts
    /// one protocol switch per connection with an active protocol (saturating),
    /// and records a simulated adaptation time in `[10, 30)` ms for each.
    pub fn collect_protocol_usage(&mut self, simulation: &NetworkSimulation)
        requires
            old(self).wf(),
        ensures
            final(self).wf(),
            final(self).baselines() == old(self).baselines(),
            final(self).adaptations() == old(self).adaptations(),
            crate::network::is_distribution(final(self).usage(), simulation.connections@),
            final(self).switches() == crate::fixed::clamp(
                old(self).switches() + active_count(simulation.connections@), 0, usize::MAX as int),
            final(self).adaptation_time_history().len() == old(self).adaptation_time_history().len()
                + active_count(simulation.connections@),
            final(self).adaptation_time_history().subrange(0, old(self).adaptation_time_history().len() as int)
                == old(self).adaptation_time_history(),
            forall|i: int| old(self).adaptation_time_history().len() <= i < final(self).adaptation_time_history().len()
                ==> 10 * SCALE <= #[trigger] final(self).adaptation_time_history()[i] < 30 * SCALE,
    {
        self.protocol_usage = simulation.protocol_distribution();
        let conns = simulation.get_connections();
        let ghost start = self.adaptation_times@;
        let mut count: usize = 0;
        let mut i: usize = 0;
        while i < conns.len()
            invariant
                i <= conns@.len(),
                count == active_count(conns@.subrange(0, i as int)),
                count <= i,
                self.adaptation_times@.len() == start.len() + count,
                self.adaptation_times@.subrange(0, start.len() as int) == start,
                forall|j: int| start.len() <= j < self.adaptation_times@.len() ==> 10 * SCALE <= #[trigger] self.adaptation_times@[j] < 30 * SCALE,
                self.baseline_metrics == old(self).baseline_metrics,
                self.adaptation_metrics == old(self).adaptation_metrics,
                self.protocol_switches == old(self).protocol_switches,
                crate::network::is_distribution(self.protocol_usage@, simulation.connections@),
                conns@ == simulation.connections@,
                start == old(self).adaptation_times@,
            decreases conns@.len() - i,
        {
            assert(conns@.subrange(0, i + 1).drop_last() =~= conns@.subrange(0, i as int));
            if conns[i].active_protocol.is_some() {
                let t = 10 * SCALE + uniform_below(&mut self.rng, 20 * SCALE);
                self.adaptation_times.push(t);
                count = count + 1;
                assert(self.adaptation_times@.subrange(0, start.len() as int) =~= start);
            }
            i = i + 1;
        }
        assert(conns@.subrange(0, conns@.len() as int) =~= conns@);
        if self.protocol_switches > usize::MAX - count {
            self.protocol_switches = usize::MAX;
        } else {
            self.protocol_switches = self.protocol_switches + count;
        }
    }

    /// Improvement of one scenario (capped ratios), or all zero when either
    /// of its runs is missing.
    pub fn calculate_scenario_improvement(&self, scenario_name: &str) -> (r: PerformanceImprovement)
        requires
            self.wf(),
        ensures
            r == match (lookup(self.baselines(), scenario_name@), lookup(self.adaptations(), scenario_name@)) {
                (Some(b), Some(a)) => weighted_improvement(b, a),
                _ => zero_improvement(),
            },
    {
        let key = scenario_name.to_owned();
        match (find_named(&self.baseline_metrics, &key), find_named(&self.adaptation_metrics, &key)) {
            (Some(i), Some(j)) => Self::calculate_weighted_improvement(&self.baseline_metrics[i], &self.adaptation_metrics[j]),
            _ => PerformanceImprovement::default(),
        }
    }

    /// Improvement over all scenarios with both runs: uncapped changes between
    /// the averaged baseline and adapted values; all zero with no such scenario.
    pub fn calculate_overall_improvement(&self) -> (r: PerformanceImprovement)
        requires
            self.wf(),
        ensures
            r == overall_improvement(
                column_averages(matched(self.baselines(), self.adaptations()).0),
                column_averages(matched(self.baselines(), self.adaptations()).1),
            ),
    {
        let mut bs: Vec<ScenarioMetrics> = Vec::new();
        let mut ads: Vec<ScenarioMetrics> = Vec::new();
        let mut k: usize = 0;
        while k < self.baseline_metrics.len()
            invariant
                k <= self.baseline_metrics@.len(),
                self.wf(),
                (bs@, ads@) == matched(self.baseline_metrics@.subrange(0, k as int), self.adaptation_metrics@),
            decreases self.baseline_metrics@.len() - k,
        {
            let ghost pre = self.baseline_metrics@.subrange(0, k as int);
            let ghost post = self.baseline_metrics@.subrange(0, k + 1);
            assert(post.drop_last() =~= pre);
            match find_named(&self.adaptation_metrics, &self.baseline_metrics[k].name) {
                Some(j) => {
                    bs.push(self.baseline_metrics[k].clone());
                    ads.push(self.adaptation_metrics[j].clone());
                },
                None => {},
            }
            k = k + 1;
        }
        assert(self.baseline_metrics@.subrange(0, self.baseline_metrics@.len() as int) =~= self.baseline_metrics@);
        let b = (column_average(&bs, 0), column_average(&bs, 1), column_average(&bs, 2), column_average(&bs, 3), column_average(&bs, 4));
        let a = (column_average(&ads, 0), column_average(&ads, 1), column_average(&ads, 2), column_average(&ads, 3), column_average(&ads, 4));
        Self::improvement_of_averages(b, a)
    }

    /// Mean of the recorded adaptation times; zero with none.
    pub fn avg_adaptation_time(&self) -> (r: u64)
        ensures
            r == seq_average(self.adaptation_time_history()),
    {
        average(&self.adaptation_times)
    }

    /// Baseline records, at most one per scenario name.
    pub fn baseline_records(&self) -> (r: &Vec<ScenarioMetrics>)
        ensures
            r@ == self.baselines(),
    {
        &self.baseline_metrics
    }

    /// Adapted records, at most one per scenario name.
    pub fn adaptation_records(&self) -> (r: &Vec<ScenarioMetrics>)
        ensures
            r@ == self.adaptations(),
    {
        &self.adaptation_metrics
    }

    /// Protocols in use at the last collection, with their connection counts.
    pub fn protocol_usage(&self) -> (r: &Vec<(String, usize)>)
        ensures
            r@ == self.usage(),
    {
        &self.protocol_usage
    }

    /// The adapted record whose name is `name`, if any.
    pub fn adaptation_for(&self, name: &String) -> (r: Option<&ScenarioMetrics>)
        requires
            self.wf(),
        ensures
            r matches Some(m) ==> lookup(self.adaptations(), name@) == Some(*m),
            r is None ==> lookup(self.adaptations(), name@) is None,
    {
        match find_named(&self.adaptation_metrics, name) {
            Some(i) => Some(&self.adaptation_metrics[i]),
            None => None,
        }
    }

    pub fn protocol_switch_count(&self) -> (r: usize)
        ensures
            r == self.switches(),
    {
        self.protocol_switches
    }

    /// Name of the protocol used by the most connections (the first listed
    /// among equals); `"None"` when no protocol is in use.
    pub fn most_used_model(&self) -> (r: String)
        ensures
            self.usage().len() == 0 ==> r@ == "None"@,
            self.usage().len() > 0 ==> exists|i: int| 0 <= i < self.usage().len() && self.usage()[i].0@ == r@
                && forall|j: int| 0 <= j < self.usage().len() ==> #[trigger] self.usage()[j].1 <= self.usage()[i].1,
    {
        if self.protocol_usage.len() == 0 {
            return "None".to_owned();
        }
        let mut best: usize = 0;
        let mut i: usize = 1;
        while i < self.protocol_usage.len()
            invariant
                1 <= i <= self.protocol_usage@.len(),
                best < i,
                forall|j: int| 0 <= j < i ==> #[trigger] self.protocol_usage@[j].1 <= self.protocol_usage@[best as int].1,
            decreases self.protocol_usage@.len() - i,
        {
            if self.protocol_usage[i].1 > self.protocol_usage[best].1 {
                best = i;
            }
            i = i + 1;
        }
        let r = self.protocol_usage[best].0.clone();
        assert(self.usage()[best as int].0@ == r@);
        r
    }
}

/// Sentinel of a zero baseline: when the baseline has no packet loss and the
/// adapted run has some, the packet-loss change is -100 %, in the capped
/// per-scenario variant and in the uncapped one.
pub proof fn lemma_zero_baseline_packet_loss(baseline: ScenarioMetrics, adapted: ScenarioMetrics)
    requires
        baseline.avg_packet_loss == 0,
        adapted.avg_packet_loss > 0,
    ensures
        weighted_improvement(baseline, adapted).packet_loss == -100 * SCALE,
        improvement_pct(baseline.avg_packet_loss as int, adapted.avg_packet_loss as int, true) == -100 * SCALE,
{
}

/// Against an adapted run with no packet loss (such as one with no
/// measurements), a baseline with packet loss shows a +100 % packet-loss
/// change, in the capped per-scenario variant and in the uncapped one.
pub proof fn lemma_zero_adapted_packet_loss(baseline: ScenarioMetrics, adapted: ScenarioMetrics)
    requires
        baseline.avg_packet_loss > 0,
        adapted.avg_packet_loss == 0,
    ensures
        weighted_improvement(baseline, adapted).packet_loss == 100 * SCALE,
        improvement_pct(baseline.avg_packet_loss as int, adapted.avg_packet_loss as int, true) == 100 * SCALE,
{
    let b = baseline.avg_packet_loss as int;
    assert((b * 100 * SCALE) / b == 100 * SCALE) by (nonlinear_arith)
        requires
            b > 0,
    ;
}

/// A run with no measurements summarizes to all-zero metrics.
pub proof fn lemma_unmeasured_summary(ms: Seq<ConnectionMetrics>)
    requires
        forall|i: int| 0 <= i < ms.len() ==> #[trigger] ms[i].latency_history@.len() == 0,
    ensures
        summary_values(ms) == (0u64, 0u64, 0u64, 0u64, 0u64, 0u64, 0u64),
{
}

} // verus!
