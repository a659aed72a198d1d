use vstd::prelude::*;
use vstd::arithmetic::div_mod::{lemma_fundamental_div_mod, lemma_mod_multiples_basic};
use crate::clock::now_millis;
use crate::kline::Kline;
use crate::store::{CandleTable, TimestampTable, has_time};

verus! {

/// The expected timestamps with no matching candle row, in ledger order:
/// the anti-join between the expected-timestamp table and the candle
/// table, which is the authoritative definition of "missing data".
pub open spec fn missing_times(expected: Seq<u64>, rows: Seq<Kline>) -> Seq<u64>
    decreases expected.len(),
{
    if expected.len() == 0 {
        Seq::empty()
    } else if !has_time(rows, expected.last()) {
        missing_times(expected.drop_last(), rows).push(expected.last())
    } else {
        missing_times(expected.drop_last(), rows)
    }
}

/// Gap analysis is exactly the anti-join: everything it reports is an
/// expected timestamp with no candle row, and every expected timestamp
/// with no candle row is reported.
pub proof fn lemma_missing_times_exact(expected: Seq<u64>, rows: Seq<Kline>)
    ensures
        forall|i: int|
            0 <= i < missing_times(expected, rows).len() ==> expected.contains(
                #[trigger] missing_times(expected, rows)[i],
            ) && !has_time(rows, missing_times(expected, rows)[i]),
        forall|i: int|
            0 <= i < expected.len() && !has_time(rows, #[trigger] expected[i]) ==> missing_times(
                expected,
                rows,
            ).contains(expected[i]),
    decreases expected.len(),
{
    if expected.len() > 0 {
        lemma_missing_times_exact(expected.drop_last(), rows);
        let m = missing_times(expected, rows);
        let prev = missing_times(expected.drop_last(), rows);
        assert forall|i: int| 0 <= i < m.len() implies expected.contains(#[trigger] m[i])
            && !has_time(rows, m[i]) by {
            if i < prev.len() {
                assert(m[i] == prev[i]);
                let j = choose|j: int|
                    0 <= j < expected.drop_last().len() && expected.drop_last()[j] == prev[i];
                assert(expected[j] == prev[i]);
            } else {
                assert(expected[expected.len() - 1] == m[i]);
            }
        }
        assert forall|i: int|
            0 <= i < expected.len() && !has_time(rows, #[trigger] expected[i]) implies m.contains(
            expected[i],
        ) by {
            if i < expected.len() - 1 {
                assert(expected.drop_last()[i] == expected[i]);
                let j = choose|j: int| 0 <= j < prev.len() && prev[j] == expected[i];
                assert(m[j] == expected[i]);
            } else {
                assert(m[m.len() - 1] == expected[i]);
            }
        }
    }
}

/// A duplicate-free ledger yields a duplicate-free gap report: together
/// with `lemma_missing_times_exact` this makes the report exactly the set
/// of expected timestamps that have no candle row.
pub proof fn lemma_missing_times_unique(expected: Seq<u64>, rows: Seq<Kline>)
    requires
        forall|i: int, j: int| 0 <= i < j < expected.len() ==> expected[i] != expected[j],
    ensures
        forall|i: int, j: int|
            0 <= i < j < missing_times(expected, rows).len() ==> missing_times(expected, rows)[i]
                != missing_times(expected, rows)[j],
    decreases expected.len(),
{
    if expected.len() > 0 {
        assert forall|i: int, j: int| 0 <= i < j < expected.drop_last().len() implies expected.drop_last()[i]
            != expected.drop_last()[j] by {
            assert(expected.drop_last()[i] == expected[i]);
            assert(expected.drop_last()[j] == expected[j]);
        }
        lemma_missing_times_unique(expected.drop_last(), rows);
        lemma_missing_times_exact(expected.drop_last(), rows);
        let m = missing_times(expected, rows);
        let prev = missing_times(expected.drop_last(), rows);
        assert forall|i: int, j: int| 0 <= i < j < m.len() implies m[i] != m[j] by {
            if j < prev.len() {
                assert(m[i] == prev[i]);
                assert(m[j] == prev[j]);
            } else {
                assert(m[j] == expected.last());
                assert(m[i] == prev[i]);
                assert(expected.drop_last().contains(prev[i]));
                let k = choose|k: int|
                    0 <= k < expected.drop_last().len() && expected.drop_last()[k] == prev[i];
                assert(expected[k] == prev[i]);
                assert(expected[k] != expected[expected.len() - 1]);
            }
        }
    }
}

/// Read-side queries over the per-symbol tables, and the clock-derived
/// boundary helpers.
pub struct PostgresAbsenceAnalyser {}

impl PostgresAbsenceAnalyser {
    /// Gap analysis for one symbol: every expected timestamp that has no
    /// candle row. Does not depend on remote state.
    pub fn analyze(expected: &TimestampTable, candles: &CandleTable) -> (r: Vec<u64>)
        ensures
            r@ == missing_times(expected@, candles@),
    {
        let mut res: Vec<u64> = Vec::new();
        let mut i: usize = 0;
        while i < expected.len()
            invariant
                i <= expected@.len(),
                res@ == missing_times(expected@.take(i as int), candles@),
            decreases expected@.len() - i,
        {
            let t = expected.stamp(i);
            if !candles.contains_time(t) {
                res.push(t);
            }
            proof {
                assert(expected@.take(i + 1 as int).drop_last() =~= expected@.take(i as int));
                assert(expected@.take(i + 1 as int).last() == expected@[i as int]);
            }
            i = i + 1;
        }
        proof {
            assert(expected@.take(expected@.len() as int) =~= expected@);
        }
        res
    }

    /// The earliest open time present in the candle table, or unknown if
    /// the table is empty.
    pub fn get_first_timeframe(candles: &CandleTable) -> (r: Option<u64>)
        ensures
            candles@.len() == 0 ==> r is None,
            candles@.len() > 0 ==> (r matches Some(m) && has_time(candles@, m) && (forall|i: int|
                0 <= i < candles@.len() ==> m <= #[trigger] candles@[i].time_open)),
    {
        if candles.len() == 0 {
            return None;
        }
        let mut best: u64 = candles.row(0).time_open;
        let mut i: usize = 1;
        while i < candles.len()
            invariant
                1 <= i <= candles@.len(),
                has_time(candles@, best),
                forall|j: int| 0 <= j < i ==> best <= #[trigger] candles@[j].time_open,
            decreases candles@.len() - i,
        {
            let t = candles.row(i).time_open;
            if t < best {
                best = t;
            }
            i = i + 1;
        }
        Some(best)
    }

    /// The latest open time present in the candle table, or unknown if the
    /// table is empty.
    pub fn get_last_timeframe(candles: &CandleTable) -> (r: Option<u64>)
        ensures
            candles@.len() == 0 ==> r is None,
            candles@.len() > 0 ==> (r matches Some(m) && has_time(candles@, m) && (forall|i: int|
                0 <= i < candles@.len() ==> m >= #[trigger] candles@[i].time_open)),
    {
        if candles.len() == 0 {
            return None;
        }
        let mut best: u64 = candles.row(0).time_open;
        let mut i: usize = 1;
        while i < candles.len()
            invariant
                1 <= i <= candles@.len(),
                has_time(candles@, best),
                forall|j: int| 0 <= j < i ==> best >= #[trigger] candles@[j].time_open,
            decreases candles@.len() - i,
        {
            let t = candles.row(i).time_open;
            if t > best {
                best = t;
            }
            i = i + 1;
        }
        Some(best)
    }

    /// The latest timestamp present in the expected-timestamp ledger, or
    /// unknown if the ledger is empty.
    pub fn get_last_timeframe_pot(expected: &TimestampTable) -> (r: Option<u64>)
        ensures
            expected@.len() == 0 ==> r is None,
            expected@.len() > 0 ==> (r matches Some(m) && expected@.contains(m) && (forall|i: int|
                0 <= i < expected@.len() ==> m >= #[trigger] expected@[i])),
    {
        if expected.len() == 0 {
            return None;
        }
        let mut best: u64 = expected.stamp(0);
        let mut i: usize = 1;
        proof {
            assert(expected@.contains(expected@[0]));
        }
        while i < expected.len()
            invariant
                1 <= i <= expected@.len(),
                expected@.contains(best),
                forall|j: int| 0 <= j < i ==> best >= #[trigger] expected@[j],
            decreases expected@.len() - i,
        {
            let t = expected.stamp(i);
            if t > best {
                best = t;
                proof {
                    assert(expected@.contains(expected@[i as int]));
                }
            }
            i = i + 1;
        }
        Some(best)
    }

    /// The current wall-clock time in epoch milliseconds; a clock reading
    /// before the epoch is clamped to zero.
    pub fn curr_time_millis() -> u64 {
        let now = now_millis();
        if now < 0 {
            0
        } else {
            now as u64
        }
    }

    /// The open time of the last interval that is certainly complete at
    /// time `now`: one full interval before the boundary `now` sits in.
    fn last_complete_boundary(now: u64, interval: u64) -> (r: u64)
        requires
            interval > 0,
        ensures
            r % interval == 0,
            now >= interval ==> r as int == (now as int / interval as int - 1) * (interval as int),
            now < interval ==> r == 0,
    {
        let q = now / interval;
        if q == 0 {
            proof {
                if now >= interval {
                    vstd::arithmetic::div_mod::lemma_div_non_zero(now as int, interval as int);
                }
                lemma_mod_multiples_basic(0, interval as int);
            }
            return 0;
        }
        proof {
            lemma_fundamental_div_mod(now as int, interval as int);
            assert((q - 1) * interval == q * interval - interval) by (nonlinear_arith);
            assert(q * interval <= now) by (nonlinear_arith)
                requires
                    q == now as int / interval as int,
                    interval > 0,
            ;
            lemma_mod_multiples_basic(q as int - 1, interval as int);
        }
        (q - 1) * interval
    }

    /// The last complete 1-minute boundary by the process clock; always a
    /// multiple of one minute, whatever the clock read.
    pub fn last_complete_1m_timestamp() -> (r: u64)
        ensures
            r % 60_000 == 0,
    {
        Self::last_complete_boundary(Self::curr_time_millis(), 60_000)
    }

    /// The last complete 3-minute boundary by the process clock.
    pub fn last_complete_3m_timestamp() -> (r: u64)
        ensures
            r % 180_000 == 0,
    {
        Self::last_complete_boundary(Self::curr_time_millis(), 180_000)
    }

    /// The last complete 5-minute boundary by the process clock.
    pub fn last_complete_5m_timestamp() -> (r: u64)
        ensures
            r % 300_000 == 0,
    {
        Self::last_complete_boundary(Self::curr_time_millis(), 300_000)
    }

    /// The last complete 15-minute boundary by the process clock.
    pub fn last_complete_15m_timestamp() -> (r: u64)
        ensures
            r % 900_000 == 0,
    {
        Self::last_complete_boundary(Self::curr_time_millis(), 900_000)
    }
}

} // verus!
