//! The adaptive rate: how long the loop waits between two ticks, slowed down
//! by failures and overlong work, and eased back by successes.

use vstd::prelude::*;

verus! {

/// A success shrinks the interval by the gap to the target divided by this.
pub const FRAME_RECOVERY_DIVISOR: u64 = 5;

/// Successes in a row that must be passed before the interval shrinks.
pub const FRAME_RECOVERY_BUFFER: u16 = 5;

/// Milliseconds that one failure adds to the interval.
pub const FRAME_THROTTLE_RATE: u64 = 10;

/// A gap to the target of at most this many milliseconds is closed in one step.
pub const FRAME_SNAP_DELTA: u64 = 10;

/// The failure in a row at which the interval jumps to its maximum.
pub const FAILURE_LIMIT: u16 = 10;

/// The state of the rate control. Intervals are in milliseconds; the share of
/// an interval that work may take is in thousandths.
#[derive(Clone, Copy, Debug, PartialEq, Eq, Structural)]
pub struct AdaptiveRate {
    pub target_interval: u64,
    pub current_interval: u64,
    pub max_interval: u64,
    pub consecutive_failures: u16,
    pub consecutive_successes: u16,
    pub percent_thread_work: u32,
}

/// A count of events in a row after one more, which stops at the largest value it can hold.
pub open spec fn one_more(count: u16) -> u16 {
    if count == u16::MAX {
        count
    } else {
        (count + 1) as u16
    }
}

impl AdaptiveRate {
    /// The target does not lie above the maximum.
    pub open spec fn wf(self) -> bool {
        self.target_interval <= self.max_interval
    }

    /// The current interval lies between the target and the maximum.
    pub open spec fn in_band(self) -> bool {
        self.target_interval <= self.current_interval <= self.max_interval
    }

    /// The interval after a success.
    pub open spec fn restored_interval(self) -> u64 {
        let delta = self.current_interval - self.target_interval;
        if delta <= FRAME_SNAP_DELTA {
            self.target_interval
        } else if self.consecutive_successes > FRAME_RECOVERY_BUFFER {
            (self.current_interval - delta / (FRAME_RECOVERY_DIVISOR as int)) as u64
        } else {
            self.current_interval
        }
    }

    /// The state after a success.
    pub open spec fn restored(self) -> AdaptiveRate {
        AdaptiveRate {
            current_interval: self.restored_interval(),
            consecutive_successes: one_more(self.consecutive_successes),
            consecutive_failures: 0,
            ..self
        }
    }

    /// The interval after a failure.
    pub open spec fn throttled_interval(self) -> u64 {
        if self.current_interval < self.max_interval && self.consecutive_failures + 1
            < FAILURE_LIMIT {
            if self.current_interval + FRAME_THROTTLE_RATE < self.max_interval {
                (self.current_interval + FRAME_THROTTLE_RATE) as u64
            } else {
                self.max_interval
            }
        } else {
            self.max_interval
        }
    }

    /// The state after a failure.
    pub open spec fn throttled(self) -> AdaptiveRate {
        AdaptiveRate {
            current_interval: self.throttled_interval(),
            consecutive_successes: 0,
            consecutive_failures: one_more(self.consecutive_failures),
            ..self
        }
    }

    /// The work time in milliseconds above which a tick counts as a failure.
    pub open spec fn throttle_threshold(self) -> int {
        self.current_interval * self.percent_thread_work / 1000
    }

    /// The state after a tick whose work took `work_time` milliseconds.
    pub open spec fn adjusted(self, work_time: u64) -> AdaptiveRate {
        if work_time > self.throttle_threshold() {
            self.throttled()
        } else {
            self.restored()
        }
    }

    /// The time to sleep after a tick whose work took `work_time` milliseconds:
    /// what is left of the interval that the tick ran under, before it is adjusted.
    pub open spec fn sleep_after(self, work_time: u64) -> int {
        if self.current_interval > work_time {
            self.current_interval - work_time
        } else {
            0
        }
    }

    /// The state after `count` successes in a row.
    pub open spec fn after_successes(self, count: nat) -> AdaptiveRate
        decreases count,
    {
        if count == 0 {
            self
        } else {
            self.restored().after_successes((count - 1) as nat)
        }
    }

    /// The state after `count` failures in a row.
    pub open spec fn after_failures(self, count: nat) -> AdaptiveRate
        decreases count,
    {
        if count == 0 {
            self
        } else {
            self.throttled().after_failures((count - 1) as nat)
        }
    }

    pub fn new(
        target_interval: u64,
        current_interval: u64,
        max_interval: u64,
        percent_thread_work: u32,
    ) -> (rate: Self)
        ensures
            rate == (AdaptiveRate {
                target_interval,
                current_interval,
                max_interval,
                consecutive_failures: 0,
                consecutive_successes: 0,
                percent_thread_work,
            }),
    {
        AdaptiveRate {
            target_interval,
            current_interval,
            max_interval,
            consecutive_failures: 0,
            consecutive_successes: 0,
            percent_thread_work,
        }
    }

    /// A rate that starts at its target of `1000 / fps` milliseconds.
    pub fn new_from_fps(fps: u64, max_interval: u64, percent_thread_work: u32) -> (rate: Self)
        requires
            fps > 0,
        ensures
            rate == (AdaptiveRate {
                target_interval: (1000u64 / fps) as u64,
                current_interval: (1000u64 / fps) as u64,
                max_interval,
                consecutive_failures: 0,
                consecutive_successes: 0,
                percent_thread_work,
            }),
    {
        AdaptiveRate {
            target_interval: 1000 / fps,
            current_interval: 1000 / fps,
            max_interval,
            consecutive_failures: 0,
            consecutive_successes: 0,
            percent_thread_work,
        }
    }

    /// A success: a small gap to the target is closed, a larger one shrinks by
    /// a fifth once enough successes came in a row.
    pub fn on_success(&mut self)
        ensures
            *final(self) == old(self).restored(),
    {
        if self.current_interval <= self.target_interval || self.current_interval
            - self.target_interval <= FRAME_SNAP_DELTA {
            self.current_interval = self.target_interval;
        } else if self.consecutive_successes > FRAME_RECOVERY_BUFFER {
            let delta: u64 = self.current_interval - self.target_interval;
            self.current_interval = self.current_interval - delta / FRAME_RECOVERY_DIVISOR;
        }
        if self.consecutive_successes < u16::MAX {
            self.consecutive_successes = self.consecutive_successes + 1;
        }
        self.consecutive_failures = 0;
    }

    /// A failure: the interval grows by a step, never beyond the maximum, and
    /// at the tenth failure in a row jumps to the maximum.
    pub fn on_failure(&mut self)
        ensures
            *final(self) == old(self).throttled(),
    {
        if self.current_interval < self.max_interval && self.consecutive_failures < FAILURE_LIMIT
            - 1 {
            if self.max_interval - self.current_interval > FRAME_THROTTLE_RATE {
                self.current_interval = self.current_interval + FRAME_THROTTLE_RATE;
            } else {
                self.current_interval = self.max_interval;
            }
        } else {
            self.current_interval = self.max_interval;
        }
        self.consecutive_successes = 0;
        if self.consecutive_failures < u16::MAX {
            self.consecutive_failures = self.consecutive_failures + 1;
        }
    }

    /// The work time above which a tick counts as a failure.
    pub fn work_limit(&self) -> (limit: u128)
        ensures
            limit == self.throttle_threshold(),
    {
        let interval: u128 = self.current_interval as u128;
        let share: u128 = self.percent_thread_work as u128;
        assert(interval * share <= 0xffff_ffff_ffff_ffff * 0xffff_ffff) by (nonlinear_arith)
            requires
                interval <= 0xffff_ffff_ffff_ffff,
                share <= 0xffff_ffff,
        ;
        interval * share / 1000
    }

    /// Ends a tick whose work took `work_time` milliseconds: work beyond the
    /// allowed share of the interval counts as a failure, anything else as a
    /// success. Returns the milliseconds to sleep: what the work left of the
    /// interval as it was before this adjustment, 0 where the work took all
    /// of it or more.
    pub fn adjust_timing(&mut self, work_time: u64) -> (sleep: u64)
        ensures
            *final(self) == old(self).adjusted(work_time),
            sleep == old(self).sleep_after(work_time),
            sleep == (if old(self).current_interval > work_time {
                old(self).current_interval - work_time
            } else {
                0
            }),
    {
        let interval: u64 = self.current_interval;
        if work_time as u128 > self.work_limit() {
            self.on_failure();
        } else {
            self.on_success();
        }
        if interval > work_time {
            interval - work_time
        } else {
            0
        }
    }
}

/// A success never takes the interval below the target, and never raises it
/// unless it lay below the target.
pub proof fn lemma_success_bounds(rate: AdaptiveRate)
    ensures
        rate.restored().current_interval >= rate.target_interval,
        rate.current_interval >= rate.target_interval ==> rate.restored().current_interval
            <= rate.current_interval,
        rate.restored().target_interval == rate.target_interval,
        rate.restored().max_interval == rate.max_interval,
{
}

/// A failure never takes the interval beyond the maximum, and never lowers it
/// unless it lay beyond the maximum.
pub proof fn lemma_failure_bounds(rate: AdaptiveRate)
    ensures
        rate.throttled().current_interval <= rate.max_interval,
        rate.current_interval <= rate.max_interval ==> rate.throttled().current_interval
            >= rate.current_interval,
        rate.throttled().target_interval == rate.target_interval,
        rate.throttled().max_interval == rate.max_interval,
{
}

/// Where the target does not lie above the maximum, an interval between the
/// two stays between them, whatever happens.
pub proof fn lemma_band_kept(rate: AdaptiveRate, work_time: u64)
    requires
        rate.wf(),
        rate.in_band(),
    ensures
        rate.restored().in_band(),
        rate.throttled().in_band(),
        rate.adjusted(work_time).in_band(),
        rate.sleep_after(work_time) <= rate.max_interval,
{
}

/// Where the target does not lie above the maximum, one failure brings any
/// interval between the two, and one success brings an interval that is not
/// beyond the maximum between them.
pub proof fn lemma_band_entered(rate: AdaptiveRate)
    requires
        rate.wf(),
    ensures
        rate.current_interval >= rate.target_interval ==> rate.throttled().in_band(),
        rate.current_interval <= rate.max_interval ==> rate.restored().in_band(),
{
}

/// After any number of failures in a row, the first included, the interval is
/// not beyond the maximum.
pub proof fn lemma_failures_never_exceed(rate: AdaptiveRate, count: nat)
    requires
        count >= 1,
    ensures
        rate.after_failures(count).current_interval <= rate.max_interval,
        rate.after_failures(count).max_interval == rate.max_interval,
    decreases count,
{
    if count > 1 {
        lemma_failures_never_exceed(rate.throttled(), (count - 1) as nat);
    } else {
        assert(rate.throttled().after_failures(0) == rate.throttled());
    }
}

/// Once the failures in a row number `FAILURE_LIMIT`, those counted before
/// included, the interval is the maximum.
pub proof fn lemma_failures_reach_max(rate: AdaptiveRate, count: nat)
    requires
        count >= 1,
        rate.consecutive_failures + count >= FAILURE_LIMIT,
    ensures
        rate.after_failures(count).current_interval == rate.max_interval,
    decreases count,
{
    if count > 1 {
        lemma_failures_reach_max(rate.throttled(), (count - 1) as nat);
    } else {
        assert(rate.throttled().after_failures(0) == rate.throttled());
    }
}

/// After any number of successes in a row, the first included, the interval
/// is not below the target.
pub proof fn lemma_successes_never_below(rate: AdaptiveRate, count: nat)
    requires
        count >= 1,
    ensures
        rate.after_successes(count).current_interval >= rate.target_interval,
        rate.after_successes(count).target_interval == rate.target_interval,
    decreases count,
{
    if count > 1 {
        lemma_successes_never_below(rate.restored(), (count - 1) as nat);
    } else {
        assert(rate.restored().after_successes(0) == rate.restored());
    }
}

/// An interval at its target stays there under successes.
pub proof fn lemma_target_is_kept(rate: AdaptiveRate, count: nat)
    requires
        rate.current_interval == rate.target_interval,
    ensures
        rate.after_successes(count).current_interval == rate.target_interval,
        rate.after_successes(count).target_interval == rate.target_interval,
    decreases count,
{
    if count > 0 {
        lemma_target_is_kept(rate.restored(), (count - 1) as nat);
    }
}

/// How far the interval lies above the target, 0 where it does not.
pub open spec fn excess(rate: AdaptiveRate) -> nat {
    if rate.current_interval > rate.target_interval {
        (rate.current_interval - rate.target_interval) as nat
    } else {
        0
    }
}

/// Successes that are still needed before the interval may shrink.
pub open spec fn warm_up(rate: AdaptiveRate) -> nat {
    if rate.consecutive_successes > FRAME_RECOVERY_BUFFER {
        0
    } else {
        (FRAME_RECOVERY_BUFFER + 1 - rate.consecutive_successes) as nat
    }
}

/// Enough successes in a row bring the interval back to the target exactly:
/// as many as are needed before it may shrink, one for each millisecond above
/// the target, and one more.
pub proof fn lemma_successes_reach_target(rate: AdaptiveRate, count: nat)
    requires
        count >= warm_up(rate) + excess(rate) + 1,
    ensures
        rate.after_successes(count).current_interval == rate.target_interval,
    decreases count,
{
    let next = rate.restored();
    if next.current_interval == next.target_interval {
        lemma_target_is_kept(next, (count - 1) as nat);
    } else {
        assert(warm_up(next) + excess(next) < warm_up(rate) + excess(rate));
        lemma_successes_reach_target(next, (count - 1) as nat);
    }
}

} // verus!
