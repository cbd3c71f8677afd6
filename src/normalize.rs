//! Maps the four live metrics onto the unit interval (`0..=NORM`, higher is
//! better) before they go to a protocol engine, and back again.
//!
//! Latency and jitter use a linear inverse over `[1, 500]` ms and `[0, 100]` ms,
//! packet loss a linear inverse over `[0, 1]`, and bandwidth a base-two
//! logarithmic scale over `[1, 100000]` Kbps. Normalized values are finer than
//! the metrics (`NORM` is 10^15), so each map is one-to-one on its range and
//! mapping back returns the metric exactly.
//!
//! The logarithm is a fixed-point `log2` with `OCTAVE_BITS` fractional bits:
//! its integer part is exactly `floor(log2(x))`, and within each octave
//! `[2^k, 2^(k+1))` it is linear, so it is strictly increasing and exact at
//! powers of two.

use vstd::prelude::*;
use vstd::arithmetic::power2::{pow2, lemma2_to64, lemma2_to64_rest, lemma_pow2_adds, lemma_pow2_strictly_increases, lemma_pow2_unfold, lemma_pow2_pos};
use vstd::arithmetic::div_mod::lemma_fundamental_div_mod_converse;
use crate::fixed::{clamp, SCALE};

verus! {

/// One whole unit of a normalized value.
pub const NORM: u64 = 1_000_000_000_000_000;

/// Fractional bits of the fixed-point logarithm.
pub const OCTAVE_BITS: u64 = 37;

/// `2^OCTAVE_BITS`: one unit of the fixed-point logarithm.
pub const OCTAVE: u64 = 137_438_953_472;

/// Fixed-point `log2` of the lowest bandwidth, 1 Kbps (`SCALE` units).
pub const LOG_LOW: u64 = 2_736_045_162_496;

/// Fixed-point `log2` of the highest bandwidth, 100000 Kbps.
pub const LOG_HIGH: u64 = 5_010_363_371_520;

/// `floor(log2(x))` for `x >= 1`.
pub open spec fn ilog2(x: nat) -> nat
    decreases x,
{
    if x < 2 {
        0
    } else {
        1 + ilog2(x / 2)
    }
}

/// Fixed-point `log2(x)` with `OCTAVE_BITS` fractional bits: the octave of
/// `x`, plus the position of `x` within it, linearly.
pub open spec fn log2_fixed(x: int) -> int {
    let k = ilog2(x as nat);
    k * OCTAVE + (x - pow2(k)) * pow2((OCTAVE_BITS - k) as nat)
}

/// The `x` whose fixed-point logarithm is `l`.
pub open spec fn exp2_fixed(l: int) -> int {
    let k = (l / OCTAVE as int) as nat;
    pow2(k) + (l % OCTAVE as int) / pow2((OCTAVE_BITS - k) as nat) as int
}

pub open spec fn latency_normalized(latency: int) -> int {
    (500 * SCALE - clamp(latency, SCALE as int, 500 * SCALE as int)) * 1_000_000_000 / 499
}

pub open spec fn latency_denormalized(n: int) -> int {
    500 * SCALE - (n * 499 + 999_999_999) / 1_000_000_000
}

pub open spec fn jitter_normalized(jitter: int) -> int {
    (100 * SCALE - clamp(jitter, 0, 100 * SCALE as int)) * 10_000_000
}

pub open spec fn jitter_denormalized(n: int) -> int {
    100 * SCALE - n / 10_000_000
}

pub open spec fn packet_loss_normalized(loss: int) -> int {
    (SCALE - clamp(loss, 0, SCALE as int)) * 1_000_000_000
}

pub open spec fn packet_loss_denormalized(n: int) -> int {
    SCALE - n / 1_000_000_000
}

pub open spec fn bandwidth_normalized(bandwidth: int) -> int {
    let c = clamp(bandwidth, SCALE as int, 100000 * SCALE as int);
    (log2_fixed(c) - LOG_LOW) * NORM / (LOG_HIGH - LOG_LOW)
}

pub open spec fn bandwidth_denormalized(n: int) -> int {
    exp2_fixed(LOG_LOW + (n * (LOG_HIGH - LOG_LOW) + NORM - 1) / NORM as int)
}

/// `floor(log2(x))` brackets `x`.
pub proof fn lemma_ilog2_bracket(x: nat)
    requires
        x >= 1,
    ensures
        pow2(ilog2(x)) <= x < pow2(ilog2(x) + 1),
    decreases x,
{
    if x < 2 {
        lemma2_to64();
    } else {
        lemma_ilog2_bracket(x / 2);
        let m = ilog2(x / 2);
        lemma_pow2_unfold(m + 1);
        lemma_pow2_unfold(m + 2);
    }
}

/// Only one octave brackets `x`.
pub proof fn lemma_octave_unique(x: int, k: nat)
    requires
        x >= 1,
        pow2(k) <= x < pow2(k + 1),
    ensures
        k == ilog2(x as nat),
{
    lemma_ilog2_bracket(x as nat);
    let j = ilog2(x as nat);
    if k < j {
        if k + 1 < j {
            lemma_pow2_strictly_increases(k + 1, j);
        }
    } else if j < k {
        if j + 1 < k {
            lemma_pow2_strictly_increases(j + 1, k);
        }
    }
}

/// Facts about the octave of `x` below `2^OCTAVE_BITS`: it is at most
/// `OCTAVE_BITS - 1`, its width times its step is `OCTAVE`, and the
/// position of `x` within it is below `OCTAVE`.
pub proof fn lemma_octave_facts(x: int)
    requires
        1 <= x < OCTAVE,
    ensures
        ilog2(x as nat) < OCTAVE_BITS,
        pow2(ilog2(x as nat)) * pow2((OCTAVE_BITS - ilog2(x as nat)) as nat) == OCTAVE,
        0 <= (x - pow2(ilog2(x as nat))) * pow2((OCTAVE_BITS - ilog2(x as nat)) as nat) < OCTAVE,
{
    lemma2_to64_rest();
    lemma_ilog2_bracket(x as nat);
    let k = ilog2(x as nat);
    if k >= OCTAVE_BITS {
        if k > OCTAVE_BITS {
            lemma_pow2_strictly_increases(OCTAVE_BITS as nat, k);
        }
    }
    let q = pow2((OCTAVE_BITS - k) as nat);
    lemma_pow2_adds(k, (OCTAVE_BITS - k) as nat);
    lemma_pow2_unfold(k + 1);
    lemma_pow2_pos((OCTAVE_BITS - k) as nat);
    let p = pow2(k) as int;
    assert((x - p) * q < p * q) by (nonlinear_arith)
        requires
            x - p < p,
            q > 0,
    ;
    assert((x - p) * q >= 0) by (nonlinear_arith)
        requires
            x - p >= 0,
            q > 0,
    ;
}

/// The fixed-point logarithm is logarithmic: its integer part is exactly
/// `floor(log2(x))`, and at a power of two it is exact.
pub proof fn lemma_log2_fixed_is_logarithmic(x: int)
    requires
        1 <= x < OCTAVE,
    ensures
        pow2((log2_fixed(x) / OCTAVE as int) as nat) <= x < pow2((log2_fixed(x) / OCTAVE as int) as nat + 1),
        x == pow2(ilog2(x as nat)) ==> log2_fixed(x) == ilog2(x as nat) * OCTAVE,
{
    lemma_octave_facts(x);
    lemma_ilog2_bracket(x as nat);
    let k = ilog2(x as nat);
    let r = (x - pow2(k)) * pow2((OCTAVE_BITS - k) as nat);
    lemma_fundamental_div_mod_converse(log2_fixed(x), OCTAVE as int, k as int, r);
    if x == pow2(k) {
        assert(r == 0) by (nonlinear_arith)
            requires
                r == (x - pow2(k)) * pow2((OCTAVE_BITS - k) as nat),
                x - pow2(k) == 0,
        ;
    }
}

/// The fixed-point logarithm is strictly increasing.
pub proof fn lemma_log2_fixed_increasing(a: int, b: int)
    requires
        1 <= a < b < OCTAVE,
    ensures
        log2_fixed(a) < log2_fixed(b),
{
    lemma_octave_facts(a);
    lemma_octave_facts(b);
    lemma_ilog2_bracket(a as nat);
    lemma_ilog2_bracket(b as nat);
    let ka = ilog2(a as nat);
    let kb = ilog2(b as nat);
    if ka > kb {
        if ka > kb + 1 {
            lemma_pow2_strictly_increases(kb + 1, ka);
        }
    }
    let qa = pow2((OCTAVE_BITS - ka) as nat);
    if ka == kb {
        lemma_pow2_pos((OCTAVE_BITS - ka) as nat);
        assert((a - pow2(ka)) * qa < (b - pow2(ka)) * qa) by (nonlinear_arith)
            requires
                a < b,
                qa > 0,
        ;
    } else {
        assert(ka * OCTAVE + OCTAVE <= kb * OCTAVE) by (nonlinear_arith)
            requires
                ka < kb,
        ;
    }
}

/// The fixed-point logarithms of the two ends of the bandwidth range.
pub proof fn lemma_log_ends()
    ensures
        log2_fixed(SCALE as int) == LOG_LOW,
        log2_fixed(100000 * SCALE as int) == LOG_HIGH,
{
    lemma2_to64();
    lemma2_to64_rest();
    lemma_octave_unique(SCALE as int, 19);
    lemma_octave_unique(100000 * SCALE as int, 36);
    assert(ilog2(SCALE as nat) == 19);
    assert(ilog2((100000 * SCALE) as nat) == 36);
    assert(pow2(18) == 262144);
    assert(pow2(1) == 2);
}

/// Mapping a fixed-point logarithm back gives the value it came from.
pub proof fn lemma_exp2_of_log2(x: int)
    requires
        1 <= x < OCTAVE,
    ensures
        exp2_fixed(log2_fixed(x)) == x,
{
    lemma_octave_facts(x);
    let k = ilog2(x as nat);
    let q = pow2((OCTAVE_BITS - k) as nat);
    let d = x - pow2(k);
    let r = d * q;
    lemma_fundamental_div_mod_converse(log2_fixed(x), OCTAVE as int, k as int, r);
    lemma_pow2_pos((OCTAVE_BITS - k) as nat);
    lemma_fundamental_div_mod_converse(r, q as int, d, 0);
}

/// With `n = floor(d * m / a)` and `0 < a <= m`, `d` is `ceil(n * a / m)`.
pub proof fn lemma_ceil_inverts_floor(d: int, m: int, a: int, n: int)
    requires
        d >= 0,
        0 < a <= m,
        n == d * m / a,
    ensures
        (n * a + m - 1) / m == d,
{
    let x = d * m;
    let rest = x % a;
    assert(x == (x / a) * a + rest && 0 <= rest < a) by (nonlinear_arith)
        requires
            a > 0,
            rest == x % a,
    {
        vstd::arithmetic::div_mod::lemma_fundamental_div_mod(x, a);
    }
    assert(n * a == d * m - rest);
    lemma_fundamental_div_mod_converse(n * a + m - 1, m, d, m - 1 - rest);
}

/// Normalized latency: 1 ms or less gives `NORM`, 500 ms or more gives 0.
pub fn normalize_latency(latency: u64) -> (r: u64)
    ensures
        r == latency_normalized(latency as int),
        r <= NORM,
{
    let c = crate::fixed::clamp_u64(latency, SCALE, 500 * SCALE);
    (500 * SCALE - c) * 1_000_000_000 / 499
}

pub fn denormalize_latency(n: u64) -> (r: u64)
    requires
        n <= NORM,
    ensures
        r == latency_denormalized(n as int),
{
    500 * SCALE - (n * 499 + 999_999_999) / 1_000_000_000
}

/// Normalized jitter: none gives `NORM`, 100 ms or more gives 0.
pub fn normalize_jitter(jitter: u64) -> (r: u64)
    ensures
        r == jitter_normalized(jitter as int),
        r <= NORM,
{
    let c = crate::fixed::clamp_u64(jitter, 0, 100 * SCALE);
    (100 * SCALE - c) * 10_000_000
}

pub fn denormalize_jitter(n: u64) -> (r: u64)
    requires
        n <= NORM,
    ensures
        r == jitter_denormalized(n as int),
{
    100 * SCALE - n / 10_000_000
}

/// Normalized packet loss: no loss gives `NORM`, total loss gives 0.
pub fn normalize_packet_loss(loss: u64) -> (r: u64)
    ensures
        r == packet_loss_normalized(loss as int),
        r <= NORM,
{
    let c = crate::fixed::clamp_u64(loss, 0, SCALE);
    (SCALE - c) * 1_000_000_000
}

pub fn denormalize_packet_loss(n: u64) -> (r: u64)
    requires
        n <= NORM,
    ensures
        r == packet_loss_denormalized(n as int),
{
    SCALE - n / 1_000_000_000
}

/// The fixed-point logarithm of `x`.
pub fn log2_of(x: u64) -> (r: u64)
    requires
        1 <= x < OCTAVE,
    ensures
        r == log2_fixed(x as int),
{
    proof {
        lemma2_to64();
        lemma2_to64_rest();
    }
    let mut k: u64 = 0;
    let mut p: u64 = 1;
    while p <= x / 2
        invariant
            1 <= x < OCTAVE,
            p as nat == pow2(k as nat),
            1 <= p <= x,
            k <= OCTAVE_BITS,
        decreases x - p,
    {
        proof {
            lemma2_to64_rest();
            lemma_pow2_unfold((k + 1) as nat);
            if k + 1 > OCTAVE_BITS {
                lemma_pow2_strictly_increases(OCTAVE_BITS as nat, (k + 1) as nat);
            }
            assert(k + 1 < OCTAVE_BITS);
        }
        p = p * 2;
        k = k + 1;
    }
    proof {
        lemma_pow2_unfold((k + 1) as nat);
        lemma_octave_unique(x as int, k as nat);
        lemma_octave_facts(x as int);
        lemma_pow2_pos((OCTAVE_BITS - k) as nat);
        vstd::arithmetic::div_mod::lemma_div_multiples_vanish(pow2((OCTAVE_BITS - k) as nat) as int, p as int);
    }
    let q = OCTAVE / p;
    assert(q as nat == pow2((OCTAVE_BITS - k) as nat)) by {
        assert(OCTAVE as int == p as int * pow2((OCTAVE_BITS - k) as nat));
    }
    assert(k * OCTAVE <= OCTAVE_BITS * OCTAVE) by (nonlinear_arith)
        requires
            k <= OCTAVE_BITS,
    ;
    k * OCTAVE + (x - p) * q
}

/// The value whose fixed-point logarithm is `l`, for `l` of a value below
/// `2^OCTAVE_BITS`.
pub fn exp2_of(l: u64) -> (r: u64)
    requires
        l < OCTAVE_BITS * OCTAVE,
    ensures
        r == exp2_fixed(l as int),
{
    proof {
        lemma2_to64();
        lemma2_to64_rest();
    }
    let k = l / OCTAVE;
    let rest = l % OCTAVE;
    let mut p: u64 = 1;
    let mut i: u64 = 0;
    proof {
        lemma_pow2_strictly_increases(k as nat, OCTAVE_BITS as nat);
    }
    while i < k
        invariant
            k < OCTAVE_BITS,
            i <= k,
            p as nat == pow2(i as nat),
            p <= pow2(k as nat),
            pow2(k as nat) < OCTAVE,
        decreases k - i,
    {
        proof {
            lemma_pow2_unfold((i + 1) as nat);
            if i + 1 < k {
                lemma_pow2_strictly_increases((i + 1) as nat, k as nat);
            }
        }
        p = p * 2;
        i = i + 1;
    }
    proof {
        lemma_pow2_adds(k as nat, (OCTAVE_BITS - k) as nat);
        lemma_pow2_pos((OCTAVE_BITS - k) as nat);
        lemma_pow2_strictly_increases(k as nat, OCTAVE_BITS as nat);
        vstd::arithmetic::div_mod::lemma_div_multiples_vanish(pow2((OCTAVE_BITS - k) as nat) as int, p as int);
    }
    let q = OCTAVE / p;
    assert(q as nat == pow2((OCTAVE_BITS - k) as nat)) by {
        assert(OCTAVE as int == p as int * pow2((OCTAVE_BITS - k) as nat));
    }
    p + rest / q
}

/// Normalized bandwidth: 1 Kbps or less gives 0, 100000 Kbps or more gives
/// `NORM`, logarithmically in between.
pub fn normalize_bandwidth(bandwidth: u64) -> (r: u64)
    ensures
        r == bandwidth_normalized(bandwidth as int),
        r <= NORM,
{
    let c = crate::fixed::clamp_u64(bandwidth, SCALE, 100000 * SCALE);
    proof {
        lemma2_to64();
        lemma2_to64_rest();
        if c > SCALE {
            lemma_log2_fixed_increasing(SCALE as int, c as int);
        }
        if c < 100000 * SCALE {
            lemma_log2_fixed_increasing(c as int, 100000 * SCALE as int);
        }
        lemma_log_ends();
    }
    let l = log2_of(c);
    let d = (l - LOG_LOW) as u128;
    assert(d * NORM / (LOG_HIGH - LOG_LOW) as int <= NORM) by (nonlinear_arith)
        requires
            d <= LOG_HIGH - LOG_LOW,
            LOG_HIGH - LOG_LOW > 0,
    ;
    (d * (NORM as u128) / ((LOG_HIGH - LOG_LOW) as u128)) as u64
}

pub fn denormalize_bandwidth(n: u64) -> (r: u64)
    requires
        n <= NORM,
    ensures
        r == bandwidth_denormalized(n as int),
{
    let span = (LOG_HIGH - LOG_LOW) as u128;
    let up: u128 = ((n as u128) * span + (NORM as u128) - 1) / (NORM as u128);
    assert(up <= span) by (nonlinear_arith)
        requires
            up as int == (n as int * span as int + NORM - 1) / NORM as int,
            n <= NORM,
            0 < span < NORM,
    ;
    exp2_of(LOG_LOW + up as u64)
}

/// Round trip of latency: exact for a latency in `[1, 500]` ms.
pub proof fn lemma_latency_round_trip(latency: int)
    requires
        SCALE <= latency <= 500 * SCALE,
    ensures
        latency_denormalized(latency_normalized(latency)) == latency,
{
    lemma_ceil_inverts_floor(500 * SCALE - latency, 1_000_000_000, 499, latency_normalized(latency));
}

/// Round trip of jitter: exact for a jitter in `[0, 100]` ms.
pub proof fn lemma_jitter_round_trip(jitter: int)
    requires
        0 <= jitter <= 100 * SCALE,
    ensures
        jitter_denormalized(jitter_normalized(jitter)) == jitter,
{
    lemma_fundamental_div_mod_converse(jitter_normalized(jitter), 10_000_000, 100 * SCALE - jitter, 0);
}

/// Round trip of packet loss: exact on `[0, 1]`.
pub proof fn lemma_packet_loss_round_trip(loss: int)
    requires
        0 <= loss <= SCALE,
    ensures
        packet_loss_denormalized(packet_loss_normalized(loss)) == loss,
{
    lemma_fundamental_div_mod_converse(packet_loss_normalized(loss), 1_000_000_000, SCALE - loss, 0);
}

/// Round trip of bandwidth: exact for a bandwidth in `[1, 100000]` Kbps.
pub proof fn lemma_bandwidth_round_trip(bandwidth: int)
    requires
        SCALE <= bandwidth <= 100000 * SCALE,
    ensures
        bandwidth_denormalized(bandwidth_normalized(bandwidth)) == bandwidth,
{
    lemma2_to64();
    lemma2_to64_rest();
    lemma_log_ends();
    if bandwidth > SCALE {
        lemma_log2_fixed_increasing(SCALE as int, bandwidth);
    }
    let d = log2_fixed(bandwidth) - LOG_LOW;
    lemma_ceil_inverts_floor(d, NORM as int, (LOG_HIGH - LOG_LOW) as int, bandwidth_normalized(bandwidth));
    lemma_exp2_of_log2(bandwidth);
}

} // verus!
