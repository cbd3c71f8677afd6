//! An adaptor that measures conditions towards configured endpoints and keeps
//! a bounded history of normalized samples. Clock readings are passed in.

use vstd::prelude::*;
use crate::fixed::SCALE;
use crate::normalize::{
    bandwidth_normalized, jitter_normalized, latency_normalized, normalize_bandwidth, normalize_jitter,
    normalize_latency, normalize_packet_loss, packet_loss_normalized,
};

verus! {

/// Lifecycle of an adaptor.
#[derive(Debug, Clone, Copy, PartialEq, Eq, Structural)]
pub enum AdaptorState {
    Initializing,
    Active,
    Paused,
}

/// A normalized sample of one metric, taken at `timestamp` (seconds).
#[derive(Debug)]
pub struct NetworkCondition {
    pub name: String,
    pub value: u64,
    pub timestamp: u64,
}

/// Simulated latency towards an endpoint at `now_ms`: 50 ms plus the
/// milliseconds modulo 50.
pub open spec fn simulated_latency(now_ms: u64) -> u64 {
    (50 * SCALE + (now_ms % 50) * SCALE) as u64
}

/// Simulated bandwidth: 5000 Kbps plus the milliseconds modulo 5000.
pub open spec fn simulated_bandwidth(now_ms: u64) -> u64 {
    (5000 * SCALE + (now_ms % 5000) * SCALE) as u64
}

/// Simulated packet loss in percent: the milliseconds modulo 4.
pub open spec fn simulated_packet_loss(now_ms: u64) -> u64 {
    ((now_ms % 4) * SCALE) as u64
}

/// Simulated jitter: 5 ms plus a tenth of the milliseconds modulo 20.
pub open spec fn simulated_jitter(now_ms: u64) -> u64 {
    (5 * SCALE + (now_ms % 20) * SCALE / 10) as u64
}

/// `c` is the sample named `name` with value `v` taken at `t`.
pub open spec fn sample_is(c: NetworkCondition, name: Seq<char>, v: int, t: u64) -> bool {
    c.name@ == name && c.value == v && c.timestamp == t
}

/// The four samples that one endpoint yields at `now_ms`, `now_secs`.
pub open spec fn endpoint_samples(s: Seq<NetworkCondition>, now_ms: u64, now_secs: u64) -> bool {
    &&& s.len() == 4
    &&& sample_is(s[0], "latency"@, latency_normalized(simulated_latency(now_ms) as int), now_secs)
    &&& sample_is(s[1], "bandwidth"@, bandwidth_normalized(simulated_bandwidth(now_ms) as int), now_secs)
    &&& sample_is(s[2], "packet_loss"@, packet_loss_normalized(simulated_packet_loss(now_ms) as int / 100), now_secs)
    &&& sample_is(s[3], "jitter"@, jitter_normalized(simulated_jitter(now_ms) as int), now_secs)
}

/// What a sample records: its name, value and timestamp.
pub open spec fn sample_key(c: NetworkCondition) -> (Seq<char>, u64, u64) {
    (c.name@, c.value, c.timestamp)
}

pub open spec fn sample_keys(s: Seq<NetworkCondition>) -> Seq<(Seq<char>, u64, u64)> {
    s.map_values(|c: NetworkCondition| sample_key(c))
}

/// The last `m` entries of `h` (all of them when there are fewer).
pub open spec fn keep_last(h: Seq<(Seq<char>, u64, u64)>, m: nat) -> Seq<(Seq<char>, u64, u64)> {
    if h.len() > m {
        h.subrange(h.len() - m, h.len() as int)
    } else {
        h
    }
}

/// Trimming before appending and trimming after gives the same history.
pub proof fn lemma_keep_last_push(h: Seq<(Seq<char>, u64, u64)>, x: (Seq<char>, u64, u64), m: nat)
    ensures
        keep_last(keep_last(h, m).push(x), m) == keep_last(h.push(x), m),
{
    assert(keep_last(keep_last(h, m).push(x), m) =~= keep_last(h.push(x), m));
}

/// Measures real network conditions towards a set of endpoints.
pub struct RealNetworkAdaptor {
    pub id: String,
    pub name: String,
    pub state: AdaptorState,
    endpoints: Vec<String>,
    history: Vec<NetworkCondition>,
    max_history: usize,
    measurement_interval: u64,
    last_measurement: Option<u64>,
}

impl RealNetworkAdaptor {
    pub closed spec fn spec_id(&self) -> Seq<char> {
        self.id@
    }

    pub closed spec fn spec_name(&self) -> Seq<char> {
        self.name@
    }

    pub closed spec fn spec_state(&self) -> AdaptorState {
        self.state
    }

    pub closed spec fn spec_endpoints(&self) -> Seq<String> {
        self.endpoints@
    }

    pub closed spec fn spec_history(&self) -> Seq<NetworkCondition> {
        self.history@
    }

    pub closed spec fn spec_max_history(&self) -> usize {
        self.max_history
    }

    pub closed spec fn spec_interval(&self) -> u64 {
        self.measurement_interval
    }

    pub closed spec fn spec_last_measurement(&self) -> Option<u64> {
        self.last_measurement
    }

    /// The recorded samples, oldest first.
    pub fn history(&self) -> (r: &Vec<NetworkCondition>)
        ensures
            r@ == self.spec_history(),
    {
        &self.history
    }

    /// A new adaptor: initializing, no endpoints, an empty history of at most
    /// 100 samples, one measurement per second.
    pub fn new(id: &str, name: &str) -> (r: RealNetworkAdaptor)
        ensures
            r.spec_id() == id@,
            r.spec_name() == name@,
            r.spec_state() == AdaptorState::Initializing,
            r.spec_endpoints().len() == 0,
            r.spec_history().len() == 0,
            r.spec_max_history() == 100,
            r.spec_interval() == 1000,
            r.spec_last_measurement() is None,
    {
        RealNetworkAdaptor {
            id: id.to_owned(),
            name: name.to_owned(),
            state: AdaptorState::Initializing,
            endpoints: Vec::new(),
            history: Vec::new(),
            max_history: 100,
            measurement_interval: 1000,
            last_measurement: None,
        }
    }

    /// Adds an endpoint (`host:port`) to measure against.
    pub fn add_endpoint(&mut self, endpoint: &str)
        ensures
            final(self).spec_endpoints().len() == old(self).spec_endpoints().len() + 1,
            final(self).spec_endpoints().drop_last() == old(self).spec_endpoints(),
            final(self).spec_endpoints().last()@ == endpoint@,
            final(self).spec_state() == old(self).spec_state(),
            final(self).spec_history() == old(self).spec_history(),
            final(self).spec_max_history() == old(self).spec_max_history(),
            final(self).spec_interval() == old(self).spec_interval(),
            final(self).spec_last_measurement() == old(self).spec_last_measurement(),
    {
        self.endpoints.push(endpoint.to_owned());
        assert(self.endpoints@.drop_last() =~= old(self).endpoints@);
    }

    /// Sets the interval between measurements, in milliseconds.
    pub fn set_measurement_interval(&mut self, interval_ms: u64)
        ensures
            final(self).spec_interval() == interval_ms,
            final(self).spec_state() == old(self).spec_state(),
            final(self).spec_endpoints() == old(self).spec_endpoints(),
            final(self).spec_history() == old(self).spec_history(),
            final(self).spec_max_history() == old(self).spec_max_history(),
            final(self).spec_last_measurement() == old(self).spec_last_measurement(),
    {
        self.measurement_interval = interval_ms;
    }

    /// Starts measuring at `now_ms`; fails, changing nothing, without endpoints.
    pub fn activate(&mut self, now_ms: u64) -> (r: Result<(), String>)
        ensures
            r is Err <==> old(self).spec_endpoints().len() == 0,
            r matches Err(e) ==> e@ == "No endpoints configured for measurement"@,
            r is Err ==> final(self).spec_state() == old(self).spec_state() && final(self).spec_last_measurement() == old(self).spec_last_measurement(),
            r is Ok ==> final(self).spec_state() == AdaptorState::Active && final(self).spec_last_measurement() == Some(now_ms),
            final(self).spec_endpoints() == old(self).spec_endpoints(),
            final(self).spec_history() == old(self).spec_history(),
            final(self).spec_max_history() == old(self).spec_max_history(),
            final(self).spec_interval() == old(self).spec_interval(),
    {
        if self.endpoints.len() == 0 {
            proof {
                reveal_strlit("No endpoints configured for measurement");
            }
            return Err("No endpoints configured for measurement".to_owned());
        }
        self.state = AdaptorState::Active;
        self.last_measurement = Some(now_ms);
        Ok(())
    }

    pub fn pause(&mut self)
        ensures
            final(self).spec_state() == AdaptorState::Paused,
            final(self).spec_endpoints() == old(self).spec_endpoints(),
            final(self).spec_history() == old(self).spec_history(),
            final(self).spec_max_history() == old(self).spec_max_history(),
            final(self).spec_interval() == old(self).spec_interval(),
            final(self).spec_last_measurement() == old(self).spec_last_measurement(),
    {
        self.state = AdaptorState::Paused;
    }

    pub fn measure_latency(&self, endpoint: &str, now_ms: u64) -> (r: Option<u64>)
        ensures
            r == Some(simulated_latency(now_ms)),
    {
        Some(50 * SCALE + (now_ms % 50) * SCALE)
    }

    pub fn measure_bandwidth(&self, endpoint: &str, now_ms: u64) -> (r: Option<u64>)
        ensures
            r == Some(simulated_bandwidth(now_ms)),
    {
        Some(5000 * SCALE + (now_ms % 5000) * SCALE)
    }

    pub fn measure_packet_loss(&self, endpoint: &str, now_ms: u64) -> (r: Option<u64>)
        ensures
            r == Some(simulated_packet_loss(now_ms)),
    {
        Some((now_ms % 4) * SCALE)
    }

    pub fn measure_jitter(&self, endpoint: &str, now_ms: u64) -> (r: Option<u64>)
        ensures
            r == Some(simulated_jitter(now_ms)),
    {
        Some(5 * SCALE + (now_ms % 20) * SCALE / 10)
    }

    /// Appends `c` to the history and drops the oldest samples beyond the limit.
    fn record_measurement(&mut self, c: NetworkCondition)
        ensures
            final(self).history@ == {
                let h = old(self).history@.push(c);
                if h.len() > old(self).max_history { h.subrange(h.len() - old(self).max_history, h.len() as int) } else { h }
            },
            sample_keys(final(self).history@) == keep_last(sample_keys(old(self).history@).push(sample_key(c)),
                old(self).max_history as nat),
            final(self).endpoints == old(self).endpoints,
            final(self).max_history == old(self).max_history,
            final(self).measurement_interval == old(self).measurement_interval,
            final(self).last_measurement == old(self).last_measurement,
            final(self).spec_state() == old(self).spec_state(),
    {
        let ghost key = sample_key(c);
        let ghost h = old(self).history@.push(c);
        self.history.push(c);
        let ghost mut dropped: int = 0;
        while self.history.len() > self.max_history
            invariant
                0 <= dropped <= h.len(),
                self.history@ == h.subrange(dropped, h.len() as int),
                h.len() - dropped >= self.max_history || dropped == 0,
                self.max_history == old(self).max_history,
                self.endpoints == old(self).endpoints,
                self.measurement_interval == old(self).measurement_interval,
                self.last_measurement == old(self).last_measurement,
                self.state == old(self).state,
                self.id == old(self).id,
                self.name == old(self).name,
            decreases self.history@.len(),
        {
            self.history.remove(0);
            proof {
                dropped = dropped + 1;
            }
            assert(self.history@ =~= h.subrange(dropped, h.len() as int));
        }
        proof {
            if h.len() > self.max_history {
                assert(dropped == h.len() - self.max_history);
            } else {
                assert(h.subrange(0, h.len() as int) =~= h);
            }
            assert(sample_keys(self.history@) =~= keep_last(sample_keys(old(self).history@).push(key),
                old(self).max_history as nat));
        }
    }

    /// Records a sample in the history and appends the same sample to `out`.
    fn record_and_report(&mut self, out: &mut Vec<NetworkCondition>, name: &str, value: u64, timestamp: u64)
        ensures
            final(out)@.len() == old(out)@.len() + 1,
            final(out)@.drop_last() == old(out)@,
            final(out)@.last().name@ == name@,
            final(out)@.last().value == value,
            final(out)@.last().timestamp == timestamp,
            sample_keys(final(self).history@) == keep_last(sample_keys(old(self).history@).push((name@, value, timestamp)),
                old(self).max_history as nat),
            final(self).endpoints == old(self).endpoints,
            final(self).max_history == old(self).max_history,
            final(self).measurement_interval == old(self).measurement_interval,
            final(self).last_measurement == old(self).last_measurement,
            final(self).spec_state() == old(self).spec_state(),
    {
        self.record_measurement(NetworkCondition { name: name.to_owned(), value, timestamp });
        out.push(NetworkCondition { name: name.to_owned(), value, timestamp });
        assert(out@.drop_last() =~= old(out)@);
    }

    /// When active and at least one interval after the last measurement (or
    /// with none yet), measures every endpoint at `now_ms` and returns the
    /// four normalized samples of each, stamped `now_secs`; `None` when
    /// inactive, too early, or without endpoints.
    pub fn sense_environment(&mut self, now_ms: u64, now_secs: u64) -> (r: Option<Vec<NetworkCondition>>)
        ensures
            old(self).spec_state() != AdaptorState::Active ==> r is None,
            (old(self).spec_last_measurement() matches Some(l) && now_ms >= l && now_ms - l < old(self).spec_interval())
                ==> r is None,
            (old(self).spec_state() == AdaptorState::Active && old(self).spec_endpoints().len() > 0
                && !(old(self).spec_last_measurement() matches Some(l) && now_ms >= l && now_ms - l < old(self).spec_interval()))
                ==> r is Some,
            r matches Some(v) ==> {
                &&& v@.len() == 4 * old(self).spec_endpoints().len()
                &&& v@.len() > 0
                &&& forall|e: int| 0 <= e < old(self).spec_endpoints().len() ==> #[trigger] endpoint_samples(
                    v@.subrange(4 * e, 4 * e + 4), now_ms, now_secs)
                &&& final(self).spec_last_measurement() == Some(now_ms)
                &&& sample_keys(final(self).spec_history()) == keep_last(
                    sample_keys(old(self).spec_history()) + sample_keys(v@), old(self).spec_max_history() as nat)
            },
            r is None ==> final(self).spec_history() == old(self).spec_history(),
            final(self).spec_state() == old(self).spec_state(),
            final(self).spec_endpoints() == old(self).spec_endpoints(),
            final(self).spec_max_history() == old(self).spec_max_history(),
            final(self).spec_history().len() <= old(self).spec_history().len() + 4 * old(self).spec_endpoints().len(),
    {
        if self.state != AdaptorState::Active {
            return None;
        }
        match self.last_measurement {
            Some(last) => {
                if now_ms >= last && now_ms - last < self.measurement_interval {
                    return None;
                }
            },
            None => {},
        }
        self.last_measurement = Some(now_ms);
        let mut conditions: Vec<NetworkCondition> = Vec::new();
        let n = self.endpoints.len();
        let mut e: usize = 0;
        while e < n
            invariant
                e <= n,
                n == self.endpoints@.len(),
                self.endpoints == old(self).endpoints,
                self.state == old(self).spec_state(),
                self.max_history == old(self).max_history,
                self.last_measurement == Some(now_ms),
                conditions@.len() == 0 ==> self.history == old(self).history,
                conditions@.len() > 0 ==> sample_keys(self.history@) == keep_last(
                    sample_keys(old(self).history@) + sample_keys(conditions@), self.max_history as nat),
                conditions@.len() == 4 * e,
                forall|k: int| 0 <= k < e ==> #[trigger] endpoint_samples(conditions@.subrange(4 * k, 4 * k + 4), now_ms, now_secs),
            decreases n - e,
        {
            let ghost before = conditions@;
            let latency = normalize_latency(50 * SCALE + (now_ms % 50) * SCALE);
            let bandwidth = normalize_bandwidth(5000 * SCALE + (now_ms % 5000) * SCALE);
            let loss = normalize_packet_loss((now_ms % 4) * SCALE / 100);
            let jitter = normalize_jitter(5 * SCALE + (now_ms % 20) * SCALE / 10);
            let ghost hist = sample_keys(self.history@);
            let ghost prev = conditions@;
            self.record_and_report(&mut conditions, "latency", latency, now_secs);
            proof {
                let k = sample_key(conditions@.last());
                let a = sample_keys(old(self).history@);
                assert(sample_keys(conditions@) =~= sample_keys(prev).push(k));
                assert((a + sample_keys(prev)).push(k) =~= a + sample_keys(conditions@));
                if prev.len() == 0 {
                    assert(a + sample_keys(prev) =~= a);
                } else {
                    lemma_keep_last_push(a + sample_keys(prev), k, self.max_history as nat);
                }
            }
            let ghost hist = sample_keys(self.history@);
            let ghost prev = conditions@;
            self.record_and_report(&mut conditions, "bandwidth", bandwidth, now_secs);
            proof {
                let k = sample_key(conditions@.last());
                let a = sample_keys(old(self).history@);
                assert(sample_keys(conditions@) =~= sample_keys(prev).push(k));
                assert((a + sample_keys(prev)).push(k) =~= a + sample_keys(conditions@));
                if prev.len() == 0 {
                    assert(a + sample_keys(prev) =~= a);
                } else {
                    lemma_keep_last_push(a + sample_keys(prev), k, self.max_history as nat);
                }
            }
            let ghost hist = sample_keys(self.history@);
            let ghost prev = conditions@;
            self.record_and_report(&mut conditions, "packet_loss", loss, now_secs);
            proof {
                let k = sample_key(conditions@.last());
                let a = sample_keys(old(self).history@);
                assert(sample_keys(conditions@) =~= sample_keys(prev).push(k));
                assert((a + sample_keys(prev)).push(k) =~= a + sample_keys(conditions@));
                if prev.len() == 0 {
                    assert(a + sample_keys(prev) =~= a);
                } else {
                    lemma_keep_last_push(a + sample_keys(prev), k, self.max_history as nat);
                }
            }
            let ghost hist = sample_keys(self.history@);
            let ghost prev = conditions@;
            self.record_and_report(&mut conditions, "jitter", jitter, now_secs);
            proof {
                let k = sample_key(conditions@.last());
                let a = sample_keys(old(self).history@);
                assert(sample_keys(conditions@) =~= sample_keys(prev).push(k));
                assert((a + sample_keys(prev)).push(k) =~= a + sample_keys(conditions@));
                if prev.len() == 0 {
                    assert(a + sample_keys(prev) =~= a);
                } else {
                    lemma_keep_last_push(a + sample_keys(prev), k, self.max_history as nat);
                }
            }
            assert(conditions@.subrange(4 * e as int, 4 * e + 4) =~= seq![conditions@[4 * e as int], conditions@[4 * e + 1],
                conditions@[4 * e + 2], conditions@[4 * e + 3]]);
            assert forall|k: int| 0 <= k < e + 1 implies #[trigger] endpoint_samples(conditions@.subrange(4 * k, 4 * k + 4), now_ms, now_secs) by {
                if k < e {
                    assert(conditions@.subrange(4 * k, 4 * k + 4) =~= before.subrange(4 * k, 4 * k + 4));
                }
            }
            e = e + 1;
        }
        proof {
            if conditions@.len() > 0 {
                let all = sample_keys(old(self).history@) + sample_keys(conditions@);
                assert(sample_keys(self.history@).len() == self.history@.len());
                assert(keep_last(all, self.max_history as nat).len() <= all.len());
            }
        }
        if conditions.len() == 0 {
            None
        } else {
            Some(conditions)
        }
    }
}

} // verus!
