use vstd::prelude::*;
use crate::clock::now_millis;

verus! {

/// The merge rule of the cooldown window: a new request never shortens an
/// existing window, so the effective end is the maximum of old and new.
pub open spec fn merged_until(prev: Option<i64>, until: i64) -> i64 {
    match prev {
        Option::None => until,
        Option::Some(p) => if p >= until {
            p
        } else {
            until
        },
    }
}

/// The process-wide throttle window shared by the fetch workers. One
/// instance is created at startup and handed (behind a lock) to every
/// worker; tests may instantiate isolated instances.
pub struct CooldownHandler {
    until: Option<i64>,
}

impl CooldownHandler {
    /// The end of the current window in epoch milliseconds, if one is set.
    pub closed spec fn spec_until(&self) -> Option<i64> {
        self.until
    }

    pub fn new() -> (r: Self)
        ensures
            r.spec_until() is None,
    {
        Self { until: None }
    }

    /// Whether a request may go out at time `now`. A window that has
    /// already expired is cleared on this check (lazy expiry, no timer);
    /// an unexpired window is left untouched.
    pub fn can_request_at(&mut self, now: i64) -> (r: bool)
        ensures
            old(self).spec_until() is None ==> r && final(self).spec_until() is None,
            (old(self).spec_until() matches Some(u) && u < now) ==> r
                && final(self).spec_until() is None,
            (old(self).spec_until() matches Some(u) && u >= now) ==> !r && final(self).spec_until()
                == old(self).spec_until(),
            r == (final(self).spec_until() is None),
    {
        match self.until {
            None => true,
            Some(u) => {
                if u < now {
                    self.until = None;
                    true
                } else {
                    false
                }
            },
        }
    }

    /// Reads the process clock and defers to `can_request_at`. Whatever
    /// the clock returned: `true` means the window is clear afterwards,
    /// `false` leaves the window exactly as it was, and with no window set
    /// the answer is always `true`.
    pub fn can_request(&mut self) -> (r: bool)
        ensures
            r == (final(self).spec_until() is None),
            !r ==> final(self).spec_until() == old(self).spec_until(),
            old(self).spec_until() is None ==> r,
    {
        let now = now_millis();
        self.can_request_at(now)
    }

    /// Raises the effective window end to `max(existing, until)`; never
    /// lowers it.
    pub fn set_cooldown_to(&mut self, until: i64)
        ensures
            final(self).spec_until() == Some(merged_until(old(self).spec_until(), until)),
    {
        match self.until {
            Some(u) => {
                if u >= until {
                    self.until = Some(u);
                } else {
                    self.until = Some(until);
                }
            },
            None => {
                self.until = Some(until);
            },
        }
    }

    pub fn get_until(&self) -> (r: Option<i64>)
        ensures
            r == self.spec_until(),
    {
        self.until
    }
}

/// Cooldown merge is monotonic: however two cooldown requests are ordered,
/// the window end after both is the maximum of everything requested and
/// never shorter than what either request alone would have set.
pub proof fn lemma_cooldown_merge_monotonic(prev: Option<i64>, a: i64, b: i64)
    ensures
        merged_until(Some(merged_until(prev, a)), b) >= merged_until(prev, a),
        merged_until(Some(merged_until(prev, a)), b) >= b,
        merged_until(Some(merged_until(prev, a)), b) == merged_until(Some(merged_until(prev, b)), a),
{
}

} // verus!
