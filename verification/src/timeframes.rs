use vstd::prelude::*;
use vstd::arithmetic::div_mod::lemma_fundamental_div_mod;
use vstd::arithmetic::mul::lemma_mul_inequality;

verus! {

/// Length of one candle interval in milliseconds (1-minute candles).
pub const CANDLE_INTERVAL_MS: u64 = 60_000;

/// The remote API returns at most this many candles per page.
pub const MAX_PAGE_SIZE: u64 = 1000;

/// Milliseconds covered by one full page of candles.
pub const PAGE_SPAN_MS: u64 = MAX_PAGE_SIZE * CANDLE_INTERVAL_MS;

/// A timestamp sits on an interval boundary.
pub open spec fn is_aligned(t: u64) -> bool {
    t % CANDLE_INTERVAL_MS == 0
}

/// How many timestamps `from, from + step, ...` fit in `[from, to]`.
pub open spec fn step_count(from: u64, to: u64, step: u64) -> nat
    recommends
        step > 0,
        from <= to,
{
    ((to - from) / (step as int) + 1) as nat
}

/// The timestamps `from, from + step, ...` up to the last one that is
/// at most `to`.
pub open spec fn arith_seq(from: u64, to: u64, step: u64) -> Seq<u64>
    recommends
        step > 0,
        from <= to,
{
    Seq::new(step_count(from, to, step), |i: int| (from + i * step) as u64)
}

/// Every element of `arith_seq` lies in `[from, to]`; this also shows the
/// exec enumeration below stays within `u64`.
pub proof fn lemma_arith_seq_element_bound(from: u64, to: u64, step: u64, i: int)
    requires
        step > 0,
        from <= to,
        0 <= i < step_count(from, to, step),
    ensures
        from + i * step <= to,
{
    let s = step as int;
    let d = to - from;
    lemma_fundamental_div_mod(d, s);
    lemma_mul_inequality(i, d / s, s);
    assert((d / s) * s == s * (d / s));
}

/// The facts the range planner promises of its page starts: the sequence
/// begins at `from`, rises by exactly `step` from one element to the next,
/// ends at or below `to`, and one more step would pass `to`.
pub proof fn lemma_arith_seq_properties(from: u64, to: u64, step: u64)
    requires
        step > 0,
        from <= to,
    ensures
        arith_seq(from, to, step).len() == step_count(from, to, step) >= 1,
        arith_seq(from, to, step)[0] == from,
        forall|i: int|
            0 <= i < step_count(from, to, step) ==> #[trigger] arith_seq(from, to, step)[i] == from
                + i * step <= to,
        forall|i: int|
            0 <= i < step_count(from, to, step) - 1 ==> #[trigger] arith_seq(from, to, step)[i + 1]
                == arith_seq(from, to, step)[i] + step,
        to - arith_seq(from, to, step).last() < step,
{
    let s = step as int;
    let d = to - from;
    let q = arith_seq(from, to, step);
    assert forall|i: int| 0 <= i < step_count(from, to, step) implies #[trigger] q[i] == from + i
        * step <= to by {
        lemma_arith_seq_element_bound(from, to, step, i);
    }
    assert forall|i: int| 0 <= i < step_count(from, to, step) - 1 implies #[trigger] q[i + 1] == q[i]
        + step by {
        assert(q[i] == from + i * step);
        assert(q[i + 1] == from + (i + 1) * step);
        assert((i + 1) * step == i * step + step) by (nonlinear_arith);
    }
    lemma_fundamental_div_mod(d, s);
    assert(q.last() == from + (d / s) * s) by {
        assert(step_count(from, to, step) - 1 == d / s);
    }
    assert((d / s) * s == s * (d / s)) by (nonlinear_arith);
}

/// Enumerates the interval boundaries `from, from + step, ..` up to `to`.
/// Both the range planner and the expected-timestamp maintenance walk
/// ranges this way.
pub fn enumerate_boundaries(from: u64, to: u64, step: u64) -> (r: Vec<u64>)
    requires
        step > 0,
        from <= to,
        (to - from) / (step as int) < u64::MAX,
    ensures
        r@ == arith_seq(from, to, step),
{
    let last_index: u64 = (to - from) / step;
    let mut res: Vec<u64> = Vec::new();
    let mut i: u64 = 0;
    while i <= last_index
        invariant
            step > 0,
            from <= to,
            last_index == (to - from) / (step as int),
            last_index < u64::MAX,
            i <= last_index + 1,
            res@ == arith_seq(from, to, step).take(i as int),
        decreases last_index + 1 - i,
    {
        proof {
            lemma_arith_seq_element_bound(from, to, step, i as int);
        }
        res.push(from + i * step);
        proof {
            assert(res@ =~= arith_seq(from, to, step).take(i + 1 as int));
        }
        i = i + 1;
    }
    proof {
        assert(res@ =~= arith_seq(from, to, step));
    }
    res
}

} // verus!
