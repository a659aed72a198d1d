use vstd::prelude::*;
use vstd::arithmetic::div_mod::lemma_div_nonincreasing;
use crate::cooldown_handler::{CooldownHandler, merged_until};
use crate::error::BusinessError;
use crate::kline::Kline;
use crate::timeframes::{
    CANDLE_INTERVAL_MS, PAGE_SPAN_MS, arith_seq, enumerate_boundaries, is_aligned,
};

verus! {

/// HTTP status by which the remote API asks for a pause until the next
/// interval boundary.
pub const STATUS_TOO_MANY_REQUESTS: u16 = 429;

/// HTTP status by which the remote API reports a temporary block, with an
/// absolute retry-after hint in the headers when it has one.
pub const STATUS_BLOCKED: u16 = 418;

pub struct TimeframeJumpGenerator {}

impl TimeframeJumpGenerator {
    /// The sequence of page-start timestamps covering `[from, to]`, one
    /// full page apart, starting at `from` and inclusive of `to`. Both
    /// bounds must be interval-boundary multiples and ordered; the errors
    /// say which check failed.
    pub fn generate_timeframe_jumps(from: u64, to: u64) -> (r: Result<Vec<u64>, BusinessError>)
        ensures
            !(is_aligned(from) && is_aligned(to)) ==> r == Err::<Vec<u64>, BusinessError>(
                BusinessError::UnalignedTimeframe,
            ),
            is_aligned(from) && is_aligned(to) && from > to ==> r == Err::<Vec<u64>, BusinessError>(
                BusinessError::IncorrectArgumentOrder,
            ),
            is_aligned(from) && is_aligned(to) && from <= to ==> (r matches Ok(v) && v@
                == arith_seq(from, to, PAGE_SPAN_MS)),
    {
        if from % CANDLE_INTERVAL_MS != 0 || to % CANDLE_INTERVAL_MS != 0 {
            return Err(BusinessError::UnalignedTimeframe);
        }
        if !(from <= to) {
            return Err(BusinessError::IncorrectArgumentOrder);
        }
        proof {
            lemma_div_nonincreasing(to - from, PAGE_SPAN_MS as int);
        }
        Ok(enumerate_boundaries(from, to, PAGE_SPAN_MS))
    }
}

/// What the planner's output looks like for every aligned, ordered pair of
/// bounds: the page starts begin at `from`, rise strictly by one full page
/// span from each element to the next, the last one is at most `to`, and
/// the next hypothetical one would exceed `to`.
pub proof fn lemma_timeframe_jumps_properties(from: u64, to: u64)
    requires
        is_aligned(from),
        is_aligned(to),
        from <= to,
    ensures
        arith_seq(from, to, PAGE_SPAN_MS).len() >= 1,
        arith_seq(from, to, PAGE_SPAN_MS)[0] == from,
        forall|i: int|
            0 <= i < arith_seq(from, to, PAGE_SPAN_MS).len() - 1
                ==> #[trigger] arith_seq(from, to, PAGE_SPAN_MS)[i + 1] == arith_seq(
                from,
                to,
                PAGE_SPAN_MS,
            )[i] + PAGE_SPAN_MS,
        arith_seq(from, to, PAGE_SPAN_MS).last() <= to,
        arith_seq(from, to, PAGE_SPAN_MS).last() + PAGE_SPAN_MS > to,
{
    crate::timeframes::lemma_arith_seq_properties(from, to, PAGE_SPAN_MS);
}

/// A candle's open time falls inside the requested span.
pub open spec fn in_range(k: Kline, from: u64, to: u64) -> bool {
    from <= k.time_open <= to
}

/// The candles of `s` whose open time falls inside `[from, to]`, in order:
/// what one decoded page contributes to the merged result after the
/// out-of-range entries of an overshooting page are discarded.
pub open spec fn in_range_only(s: Seq<Kline>, from: u64, to: u64) -> Seq<Kline>
    decreases s.len(),
{
    if s.len() == 0 {
        Seq::empty()
    } else if in_range(s.last(), from, to) {
        in_range_only(s.drop_last(), from, to).push(s.last())
    } else {
        in_range_only(s.drop_last(), from, to)
    }
}

/// The merged fetch result never carries a candle from outside the
/// requested span, and every in-range candle of a page survives the
/// discarding.
pub proof fn lemma_in_range_only_exact(s: Seq<Kline>, from: u64, to: u64)
    ensures
        forall|i: int|
            0 <= i < in_range_only(s, from, to).len() ==> in_range(
                #[trigger] in_range_only(s, from, to)[i],
                from,
                to,
            ),
        forall|i: int|
            0 <= i < s.len() && in_range(#[trigger] s[i], from, to) ==> in_range_only(
                s,
                from,
                to,
            ).contains(s[i]),
    decreases s.len(),
{
    if s.len() > 0 {
        lemma_in_range_only_exact(s.drop_last(), from, to);
        assert forall|i: int| 0 <= i < s.len() && in_range(#[trigger] s[i], from, to) implies
            in_range_only(s, from, to).contains(s[i]) by {
            if i < s.len() - 1 {
                assert(s.drop_last()[i] == s[i]);
                let j = choose|j: int|
                    0 <= j < in_range_only(s.drop_last(), from, to).len() && in_range_only(
                        s.drop_last(),
                        from,
                        to,
                    )[j] == s[i];
                assert(in_range_only(s, from, to)[j] == s[i]);
            } else {
                let r = in_range_only(s, from, to);
                assert(r[r.len() - 1] == s[i]);
            }
        }
    }
}

pub struct BinanceConnector {}

impl BinanceConnector {
    /// The page plan of a whole-range fetch: validates the bounds exactly
    /// as the planner does and enumerates the page starts; a planner
    /// failure after the checks would be reported as `UnspecifiedError`.
    pub fn plan_fetch(from: u64, to: u64) -> (r: Result<Vec<u64>, BusinessError>)
        ensures
            !(is_aligned(from) && is_aligned(to)) ==> r == Err::<Vec<u64>, BusinessError>(
                BusinessError::UnalignedTimeframe,
            ),
            is_aligned(from) && is_aligned(to) && from > to ==> r == Err::<Vec<u64>, BusinessError>(
                BusinessError::IncorrectArgumentOrder,
            ),
            is_aligned(from) && is_aligned(to) && from <= to ==> (r matches Ok(v) && v@
                == arith_seq(from, to, PAGE_SPAN_MS)),
    {
        if from % CANDLE_INTERVAL_MS != 0 || to % CANDLE_INTERVAL_MS != 0 {
            return Err(BusinessError::UnalignedTimeframe);
        }
        if !(from <= to) {
            return Err(BusinessError::IncorrectArgumentOrder);
        }
        match TimeframeJumpGenerator::generate_timeframe_jumps(from, to) {
            Ok(jumps) => Ok(jumps),
            Err(_) => Err(BusinessError::UnspecifiedError),
        }
    }

    /// The earliest available open time, read from a page that was
    /// requested with `limit=1`: any other page shape means the answer is
    /// unknown.
    pub fn first_time_from_page(page: &Vec<Kline>) -> (r: Option<u64>)
        ensures
            page@.len() == 1 ==> r == Some(page@[0].time_open),
            page@.len() != 1 ==> r is None,
    {
        if page.len() != 1 {
            return None;
        }
        Some(page[0].time_open)
    }

    /// The last complete open time, read from a page that was requested
    /// with `limit=2`: the remote end may return an incomplete boundary
    /// candle, so the smaller of the two open times is the safe answer;
    /// any other page shape means the answer is unknown.
    pub fn last_complete_from_page(page: &Vec<Kline>) -> (r: Option<u64>)
        ensures
            page@.len() == 2 ==> r == Some(
                if page@[0].time_open <= page@[1].time_open {
                    page@[0].time_open
                } else {
                    page@[1].time_open
                },
            ),
            page@.len() != 2 ==> r is None,
    {
        if page.len() != 2 {
            return None;
        }
        let left = page[0].time_open;
        let right = page[1].time_open;
        if left <= right {
            Some(left)
        } else {
            Some(right)
        }
    }

    /// Appends to `acc` exactly the candles of one decoded page whose open
    /// time lies in `[from, to]`, in page order; pagination can overshoot,
    /// and the overshooting entries are discarded here.
    pub fn merge_page(acc: &mut Vec<Kline>, page: &Vec<Kline>, from: u64, to: u64)
        ensures
            final(acc)@ == old(acc)@ + in_range_only(page@, from, to),
    {
        let ghost acc0 = acc@;
        let mut idx: usize = 0;
        while idx < page.len()
            invariant
                idx <= page@.len(),
                acc@ == acc0 + in_range_only(page@.take(idx as int), from, to),
            decreases page@.len() - idx,
        {
            let k = &page[idx];
            if from <= k.time_open && k.time_open <= to {
                acc.push(k.clone());
            }
            proof {
                assert(page@.take(idx + 1 as int).drop_last() =~= page@.take(idx as int));
                assert(page@.take(idx + 1 as int).last() == page@[idx as int]);
            }
            idx = idx + 1;
        }
        proof {
            assert(page@.take(page@.len() as int) =~= page@);
        }
    }

    /// The cooldown reaction to a page request that could not be decoded:
    /// a "too many requests" status raises the shared window to the next
    /// interval boundary after `now`; a "blocked" status raises it to the
    /// absolute retry-after hint when one was sent and changes nothing
    /// otherwise; any other status changes nothing.
    pub fn handle_failure_status(
        cooldown: &mut CooldownHandler,
        status: u16,
        retry_after: Option<i64>,
        now: i64,
    )
        requires
            0 <= now <= i64::MAX - CANDLE_INTERVAL_MS,
        ensures
            status == STATUS_TOO_MANY_REQUESTS ==> final(cooldown).spec_until() == Some(
                merged_until(old(cooldown).spec_until(), next_boundary_after(now)),
            ),
            status == STATUS_BLOCKED ==> final(cooldown).spec_until() == (match retry_after {
                Option::Some(ra) => Some(merged_until(old(cooldown).spec_until(), ra)),
                Option::None => old(cooldown).spec_until(),
            }),
            status != STATUS_TOO_MANY_REQUESTS && status != STATUS_BLOCKED
                ==> final(cooldown).spec_until() == old(cooldown).spec_until(),
    {
        if status == STATUS_TOO_MANY_REQUESTS {
            let next_minute = now - now % (CANDLE_INTERVAL_MS as i64) + (CANDLE_INTERVAL_MS as i64);
            cooldown.set_cooldown_to(next_minute);
        } else if status == STATUS_BLOCKED {
            match retry_after {
                Some(ra) => cooldown.set_cooldown_to(ra),
                None => (),
            }
        }
    }
}

/// The first interval boundary strictly after `now`.
pub open spec fn next_boundary_after(now: i64) -> i64
    recommends
        0 <= now <= i64::MAX - CANDLE_INTERVAL_MS,
{
    (now - now % (CANDLE_INTERVAL_MS as i64) + CANDLE_INTERVAL_MS) as i64
}

/// `next_boundary_after` is what its name says: an interval boundary,
/// strictly after `now`, and no more than one full interval away.
pub proof fn lemma_next_boundary_after(now: i64)
    requires
        0 <= now <= i64::MAX - CANDLE_INTERVAL_MS,
    ensures
        next_boundary_after(now) as int % (CANDLE_INTERVAL_MS as int) == 0,
        next_boundary_after(now) > now,
        next_boundary_after(now) - now <= CANDLE_INTERVAL_MS,
{
    let c = CANDLE_INTERVAL_MS as int;
    let q = now as int / c;
    vstd::arithmetic::div_mod::lemma_fundamental_div_mod(now as int, c);
    assert(now as int - now as int % c == c * q);
    vstd::arithmetic::div_mod::lemma_mod_multiples_basic(q + 1, c);
    assert(c * q + c == (q + 1) * c) by (nonlinear_arith);
}

} // verus!
