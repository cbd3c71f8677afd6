//! Sums and averages of metric histories.

use vstd::prelude::*;

verus! {

pub open spec fn seq_sum(s: Seq<u64>) -> int
    decreases s.len(),
{
    if s.len() == 0 {
        0
    } else {
        seq_sum(s.drop_last()) + s.last()
    }
}

/// The mean of `s`, rounded down; zero for an empty sequence.
pub open spec fn seq_average(s: Seq<u64>) -> int {
    if s.len() == 0 {
        0
    } else {
        seq_sum(s) / (s.len() as int)
    }
}


/// A sequence that is pointwise at most another has at most its sum and mean.
pub proof fn lemma_average_pointwise_le(a: Seq<u64>, b: Seq<u64>)
    requires
        a.len() == b.len(),
        forall|i: int| 0 <= i < a.len() ==> #[trigger] a[i] <= b[i],
    ensures
        seq_sum(a) <= seq_sum(b),
        seq_average(a) <= seq_average(b),
    decreases a.len(),
{
    if a.len() > 0 {
        let a2 = a.drop_last();
        let b2 = b.drop_last();
        assert forall|i: int| 0 <= i < a2.len() implies #[trigger] a2[i] <= b2[i] by {
            assert(a2[i] == a[i] && b2[i] == b[i]);
        }
        lemma_average_pointwise_le(a2, b2);
        assert(a.last() <= b.last());
        vstd::arithmetic::div_mod::lemma_div_is_ordered(seq_sum(a), seq_sum(b), a.len() as int);
    }
}

/// Mean of the values of `v`, rounded down; zero when `v` is empty.
pub fn average(v: &Vec<u64>) -> (r: u64)
    ensures
        r == seq_average(v@),
{
    if v.len() == 0 {
        return 0;
    }
    let mut total: u128 = 0;
    let mut i: usize = 0;
    while i < v.len()
        invariant
            i <= v@.len(),
            total == seq_sum(v@.subrange(0, i as int)),
            total <= i * (u64::MAX as int),
        decreases v@.len() - i,
    {
        assert(v@.subrange(0, i + 1).drop_last() =~= v@.subrange(0, i as int));
        assert((i + 1) * (u64::MAX as int) == i * (u64::MAX as int) + u64::MAX) by (nonlinear_arith);
        assert(i * (u64::MAX as int) <= usize::MAX as int * u64::MAX as int) by (nonlinear_arith)
            requires
                i <= usize::MAX,
        ;
        total = total + v[i] as u128;
        i = i + 1;
    }
    assert(v@.subrange(0, v@.len() as int) =~= v@);
    let n = v.len() as u128;
    assert((total as int) / (n as int) <= u64::MAX) by (nonlinear_arith)
        requires
            total <= n * (u64::MAX as int),
            n > 0,
    ;
    (total / n) as u64
}

} // verus!
