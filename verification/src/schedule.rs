//! A single vesting grant: start and end marks, a total amount, and the part
//! of it already released.
//!
//! Release amounts accrue linearly between `start` and `end`, rounded down to
//! whole units; once `end` has passed the schedule is overdue and the exact
//! remainder — rounding dust included — becomes releasable in one step. That
//! round-down-then-sweep policy is what lets the store conserve locked value
//! exactly across partial releases.

use vstd::prelude::*;

use crate::types::{Balance, Timestamp};

verus! {

/// One vesting grant.
#[derive(Clone, Copy, PartialEq, Eq, Structural, Debug)]
pub struct VestingSchedule {
    /// When linear accrual begins.
    pub start: Timestamp,
    /// When the full amount matures.
    pub end: Timestamp,
    /// The total to be released over the schedule's lifetime.
    pub amount: Balance,
    /// How much has been released so far.
    pub released: Balance,
}

impl VestingSchedule {
    /// Well-formedness: a schedule never releases more than its amount.
    pub open spec fn wf(self) -> bool {
        self.released <= self.amount
    }

    /// The linearly interpolated share of `amount` accrued by `now`, floored.
    pub open spec fn linear_total(self, now: Timestamp) -> int
        recommends
            self.start < self.end,
    {
        (self.amount * (now - self.start)) / (self.end - self.start)
    }

    /// What a release at `now` pays out: the full remainder once overdue,
    /// nothing before the start (or for a degenerate `start == end` grant),
    /// and the floored linear accrual minus what already left in between.
    pub open spec fn releasable_at(self, now: Timestamp) -> int {
        if now >= self.end {
            self.amount - self.released
        } else if now <= self.start {
            0
        } else {
            self.linear_total(now) - self.released
        }
    }

    /// The inputs on which the release arithmetic is defined. In the linear
    /// branch the product `amount * (now - start)` must fit the balance width,
    /// and the running `released` cannot exceed the accrual at `now` — with a
    /// monotonic clock the second bound holds of every reachable schedule.
    pub open spec fn release_arith_ok(self, now: Timestamp) -> bool {
        self.start < now < self.end ==> {
            &&& self.amount * (now - self.start) <= u128::MAX
            &&& self.released <= self.linear_total(now)
        }
    }

    /// The schedule as it stands after collecting a release at `now`.
    pub open spec fn after_release(self, now: Timestamp) -> VestingSchedule {
        VestingSchedule { released: (self.released + self.releasable_at(now)) as Balance, ..self }
    }

    /// In the strict interior of the vesting window the floored accrual stays
    /// within `[0, amount]`.
    pub proof fn lemma_linear_total_in_range(self, now: Timestamp)
        requires
            self.start < now < self.end,
        ensures
            0 <= self.linear_total(now) <= self.amount,
    {
        let dt = now - self.start;
        let dur = self.end - self.start;
        let a = self.amount as int;
        vstd::arithmetic::mul::lemma_mul_nonnegative(a, dt);
        vstd::arithmetic::div_mod::lemma_div_pos_is_pos(a * dt, dur);
        vstd::arithmetic::mul::lemma_mul_inequality(dt, dur, a);
        vstd::arithmetic::mul::lemma_mul_is_commutative(dt, a);
        vstd::arithmetic::mul::lemma_mul_is_commutative(dur, a);
        vstd::arithmetic::div_mod::lemma_multiply_divide_le(a * dt, dur, a);
    }

    /// A release at any admissible time pays out a nonnegative amount and
    /// never pushes `released` past `amount`: the per-step heart of the
    /// "released is monotonic and bounded" law.
    pub proof fn lemma_releasable_bounds(self, now: Timestamp)
        requires
            self.wf(),
            self.release_arith_ok(now),
        ensures
            0 <= self.releasable_at(now) <= self.amount - self.released,
            self.after_release(now).released >= self.released,
            self.after_release(now).released <= self.amount,
            self.after_release(now).wf(),
    {
        if self.start < now < self.end {
            self.lemma_linear_total_in_range(now);
        }
    }

    /// No premature release: before a schedule has started (and before it has
    /// matured) nothing is releasable.
    pub proof fn lemma_no_premature_release(self, now: Timestamp)
        requires
            now < self.start,
            now < self.end,
        ensures
            self.releasable_at(now) == 0,
    {
    }

    /// Full release at maturity: once overdue, exactly the remainder —
    /// rounding dust included — is releasable, and afterwards the schedule is
    /// fully released.
    pub proof fn lemma_full_release_at_maturity(self, now: Timestamp)
        requires
            self.wf(),
            now >= self.end,
        ensures
            self.releasable_at(now) == self.amount - self.released,
            self.after_release(now).released == self.amount,
    {
    }

    /// Is the schedule past its end mark at `now`?
    pub fn is_overdue(&self, now: Timestamp) -> (r: bool)
        ensures
            r == (now >= self.end),
    {
        now >= self.end
    }

    /// How much a release at `now` would pay out.
    pub fn amount_releaseable(&self, now: Timestamp) -> (r: Balance)
        requires
            self.wf(),
            self.release_arith_ok(now),
        ensures
            r == self.releasable_at(now),
            r <= self.amount - self.released,
    {
        if now >= self.end {
            return self.amount - self.released;
        }
        if now <= self.start {
            return 0;
        }
        let dt = (now - self.start) as u128;
        let duration = (self.end - self.start) as u128;
        let total_to_release = self.amount * dt / duration;
        proof {
            self.lemma_linear_total_in_range(now);
        }
        total_to_release - self.released
    }

    /// Collect a release at `now`: add the releasable amount to `released`
    /// and hand it back. The sole mutator of a schedule.
    pub fn collect_releasable(&mut self, now: Timestamp) -> (r: Balance)
        requires
            old(self).wf(),
            old(self).release_arith_ok(now),
        ensures
            r == old(self).releasable_at(now),
            *final(self) == old(self).after_release(now),
            final(self).wf(),
    {
        let r = self.amount_releaseable(now);
        self.released = self.released + r;
        r
    }
}

} // verus!
