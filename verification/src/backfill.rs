use vstd::prelude::*;
use vstd::arithmetic::div_mod::lemma_div_nonincreasing;
use crate::error::BusinessError;
use crate::timeframes::{CANDLE_INTERVAL_MS, arith_seq, enumerate_boundaries};

verus! {

/// One contiguous span to fetch and persist, inclusive endpoints.
#[derive(Clone, Copy, Debug, PartialEq, Eq, Structural)]
pub struct FetchRange {
    pub from: u64,
    pub to: u64,
}

/// A single range, unless it is degenerate: equal endpoints mean there is
/// nothing to fetch.
pub open spec fn range_unless_empty(from: u64, to: u64) -> Seq<FetchRange> {
    if from == to {
        Seq::empty()
    } else {
        seq![FetchRange { from, to }]
    }
}

/// The ranges a backfill of one symbol must fetch, given the known local
/// and remote extents. Cold start (no local data): the whole remote span.
/// Warm start (both local extents known): the head older than local data
/// and the tail newer than it, independently.
pub open spec fn backfill_ranges(
    first_local: Option<u64>,
    last_local: Option<u64>,
    first_remote: u64,
    last_remote: u64,
) -> Seq<FetchRange> {
    match (first_local, last_local) {
        (Option::None, Option::None) => range_unless_empty(first_remote, last_remote),
        (Option::Some(fl), Option::Some(ll)) => range_unless_empty(first_remote, fl)
            + range_unless_empty(ll, last_remote),
        _ => Seq::empty(),
    }
}

/// Decides what a backfill of one symbol must fetch. Unknown remote
/// extents are fatal for the symbol: the orchestrator must not guess a
/// substitute range. With known remote extents the plan is exactly
/// `backfill_ranges`; a degenerate range never appears, and a half-known
/// local extent (impossible in a consistent store) plans nothing.
pub fn plan_backfill(
    first_local: Option<u64>,
    last_local: Option<u64>,
    first_remote: Option<u64>,
    last_remote: Option<u64>,
) -> (r: Result<Vec<FetchRange>, BusinessError>)
    ensures
        match (first_remote, last_remote) {
            (Option::Some(fr), Option::Some(lr)) => r matches Ok(v) && v@ == backfill_ranges(
                first_local,
                last_local,
                fr,
                lr,
            ),
            _ => r == Err::<Vec<FetchRange>, BusinessError>(BusinessError::ApiConnectorError),
        },
{
    let (fr, lr) = match (first_remote, last_remote) {
        (Some(fr), Some(lr)) => (fr, lr),
        _ => {
            return Err(BusinessError::ApiConnectorError);
        },
    };
    let mut plan: Vec<FetchRange> = Vec::new();
    match (first_local, last_local) {
        (None, None) => {
            if fr != lr {
                plan.push(FetchRange { from: fr, to: lr });
            }
        },
        (Some(fl), Some(ll)) => {
            if fr != fl {
                plan.push(FetchRange { from: fr, to: fl });
            }
            if ll != lr {
                plan.push(FetchRange { from: ll, to: lr });
            }
        },
        _ => {},
    }
    proof {
        assert(plan@ =~= backfill_ranges(first_local, last_local, fr, lr));
    }
    Ok(plan)
}

/// The starting point of the expected-timestamp maintenance step: the
/// later of the last known expected timestamp and the first remote extent.
pub open spec fn pot_update_start(last_local_pot: Option<u64>, first_remote: u64) -> u64 {
    match last_local_pot {
        Option::None => first_remote,
        Option::Some(p) => if p >= first_remote {
            p
        } else {
            first_remote
        },
    }
}

/// The timestamps the expected-timestamp maintenance step must insert:
/// one per interval boundary from `pot_update_start` up to the last
/// remote extent.
pub open spec fn pot_update_times(
    last_local_pot: Option<u64>,
    first_remote: u64,
    last_remote: u64,
) -> Seq<u64> {
    if pot_update_start(last_local_pot, first_remote) > last_remote {
        Seq::empty()
    } else {
        arith_seq(pot_update_start(last_local_pot, first_remote), last_remote, CANDLE_INTERVAL_MS)
    }
}

/// The expected-timestamp maintenance step's generation phase: enumerates
/// every interval boundary from the later of the last known expected
/// timestamp and the first remote extent, up to the last remote extent.
/// Unknown remote extents are fatal, exactly as for the backfill plan.
pub fn possible_open_times(
    last_local_pot: Option<u64>,
    first_remote: Option<u64>,
    last_remote: Option<u64>,
) -> (r: Result<Vec<u64>, BusinessError>)
    ensures
        match (first_remote, last_remote) {
            (Option::Some(fr), Option::Some(lr)) => r matches Ok(v) && v@ == pot_update_times(
                last_local_pot,
                fr,
                lr,
            ),
            _ => r == Err::<Vec<u64>, BusinessError>(BusinessError::ApiConnectorError),
        },
{
    let (fr, lr) = match (first_remote, last_remote) {
        (Some(fr), Some(lr)) => (fr, lr),
        _ => {
            return Err(BusinessError::ApiConnectorError);
        },
    };
    let start = match last_local_pot {
        None => fr,
        Some(p) => if p >= fr {
            p
        } else {
            fr
        },
    };
    if start > lr {
        let empty: Vec<u64> = Vec::new();
        proof {
            assert(empty@ =~= pot_update_times(last_local_pot, fr, lr));
        }
        return Ok(empty);
    }
    proof {
        lemma_div_nonincreasing(lr - start, CANDLE_INTERVAL_MS as int);
    }
    Ok(enumerate_boundaries(start, lr, CANDLE_INTERVAL_MS))
}

} // verus!
