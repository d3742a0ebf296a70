//! The schedule of a dial that is retried: how often, and how long to wait in between.

use vstd::prelude::*;
use vstd::arithmetic::power2::*;

verus! {

/// What to do after a dial has failed.
#[derive(Clone, Copy, Debug, PartialEq, Eq, Structural)]
pub enum DialStep {
    /// Wait for this many seconds, then dial again.
    Retry { sleep_secs: u64 },
    /// Stop and report the last error.
    GiveUp,
}

/// The number of dials that a limit of `max_attempts` allows: at least one.
pub open spec fn attempt_budget(max_attempts: u8) -> nat {
    if max_attempts == 0 {
        1
    } else {
        max_attempts as nat
    }
}

/// The wait, in seconds, after the given number of failed dials: one second after the
/// first, twice the previous wait after each further one, held at the largest `u64`.
pub open spec fn backoff_after(failures: nat) -> nat
    decreases failures,
{
    if failures <= 1 {
        1
    } else {
        let previous = backoff_after((failures - 1) as nat);
        if previous > u64::MAX / 2 {
            u64::MAX as nat
        } else {
            2 * previous
        }
    }
}

/// The seconds waited in all once `failures` dials have failed and each was followed by
/// its wait.
pub open spec fn total_sleep(failures: nat) -> nat
    decreases failures,
{
    if failures == 0 {
        0
    } else {
        total_sleep((failures - 1) as nat) + backoff_after(failures)
    }
}

/// Progress of one retried dial.
#[derive(Clone, Copy, Debug)]
pub struct DialBackoff {
    max_attempts: u8,
    failures: u8,
    next_sleep_secs: u64,
    slept_secs: u128,
}

impl DialBackoff {
    /// The schedule is valid: no more failures are counted than dials are allowed, a
    /// wait was ordered after every failure but the one that ended the schedule, and
    /// while a dial is left the next wait is the one that follows the failures so far.
    pub closed spec fn wf(&self) -> bool {
        &&& self.failures <= attempt_budget(self.max_attempts)
        &&& self.failures < attempt_budget(self.max_attempts) ==> {
            &&& self.next_sleep_secs == backoff_after(self.failures as nat + 1)
            &&& self.slept_secs == total_sleep(self.failures as nat)
        }
        &&& self.failures == attempt_budget(self.max_attempts) ==> self.slept_secs
            == total_sleep((self.failures - 1) as nat)
    }

    /// The limit that the schedule was made with.
    pub closed spec fn max_attempts(&self) -> u8 {
        self.max_attempts
    }

    /// The number of dials that have failed so far.
    pub closed spec fn failures(&self) -> nat {
        self.failures as nat
    }

    /// The seconds of waiting ordered so far, all waits together.
    pub closed spec fn slept(&self) -> nat {
        self.slept_secs as nat
    }

    /// No dial is left.
    pub open spec fn exhausted(&self) -> bool {
        self.failures() >= attempt_budget(self.max_attempts())
    }

    /// The schedule of a dial that has not been tried yet.
    pub fn new(max_attempts: u8) -> (b: DialBackoff)
        ensures
            b.wf(),
            b.max_attempts() == max_attempts,
            b.failures() == 0,
            b.slept() == 0,
    {
        assert(backoff_after(1) == 1) by {
            reveal_with_fuel(backoff_after, 2);
        }
        DialBackoff { max_attempts, failures: 0, next_sleep_secs: 1, slept_secs: 0 }
    }

    /// The dials that failed so far, and the seconds of waiting ordered so far.
    pub fn progress(&self) -> (p: (u8, u128))
        ensures
            p.0 == self.failures(),
            p.1 == self.slept(),
    {
        (self.failures, self.slept_secs)
    }

    /// Records one failed dial and says what follows: a wait and another dial while the
    /// limit allows one, else the end. Once the end is reached it stays.
    pub fn on_failure(&mut self) -> (step: DialStep)
        requires
            old(self).wf(),
        ensures
            final(self).wf(),
            final(self).max_attempts() == old(self).max_attempts(),
            old(self).failures() + 1 < attempt_budget(old(self).max_attempts()) ==> {
                &&& final(self).failures() == old(self).failures() + 1
                &&& step == (DialStep::Retry {
                    sleep_secs: backoff_after(final(self).failures()) as u64,
                })
                &&& backoff_after(final(self).failures()) <= u64::MAX
                &&& final(self).slept() == old(self).slept() + backoff_after(
                    final(self).failures(),
                )
            },
            old(self).failures() + 1 >= attempt_budget(old(self).max_attempts()) ==> {
                &&& final(self).failures() == attempt_budget(old(self).max_attempts())
                &&& step == DialStep::GiveUp
                &&& final(self).slept() == old(self).slept()
            },
    {
        let budget: u8 = if self.max_attempts == 0 {
            1
        } else {
            self.max_attempts
        };
        if self.failures >= budget - 1 {
            self.failures = budget;
            return DialStep::GiveUp;
        }
        let sleep_secs: u64 = self.next_sleep_secs;
        proof {
            lemma_total_sleep_fits(self.failures as nat);
        }
        self.slept_secs = self.slept_secs + sleep_secs as u128;
        self.failures = self.failures + 1;
        assert(backoff_after(self.failures as nat + 1) == if sleep_secs > u64::MAX / 2 {
            u64::MAX as nat
        } else {
            2 * sleep_secs as nat
        }) by {
            reveal_with_fuel(backoff_after, 2);
        }
        self.next_sleep_secs = if sleep_secs > u64::MAX / 2 {
            u64::MAX
        } else {
            2 * sleep_secs
        };
        DialStep::Retry { sleep_secs }
    }
}

/// Every wait fits a `u64`.
pub proof fn lemma_backoff_fits(failures: nat)
    ensures
        1 <= backoff_after(failures) <= u64::MAX,
    decreases failures,
{
    if failures > 1 {
        lemma_backoff_fits((failures - 1) as nat);
    }
}

/// The waits of any number of failures add up to at most that many times the largest.
pub proof fn lemma_total_sleep_fits(failures: nat)
    ensures
        total_sleep(failures) <= failures * u64::MAX,
    decreases failures,
{
    if failures > 0 {
        lemma_total_sleep_fits((failures - 1) as nat);
        lemma_backoff_fits(failures);
        assert((failures - 1) * u64::MAX + u64::MAX == failures * u64::MAX) by (nonlinear_arith);
    }
}

/// Up to the sixty-fourth failure the wait is an exact power of two: `2^(failures - 1)`.
pub proof fn lemma_backoff_doubles(failures: nat)
    requires
        1 <= failures <= 64,
    ensures
        backoff_after(failures) == pow2((failures - 1) as nat),
    decreases failures,
{
    lemma2_to64();
    lemma2_to64_rest();
    if failures > 1 {
        lemma_backoff_doubles((failures - 1) as nat);
        lemma_pow2_unfold((failures - 1) as nat);
        if failures - 2 < 62 {
            lemma_pow2_strictly_increases((failures - 2) as nat, 62);
        }
        assert(pow2((failures - 2) as nat) <= pow2(62));
    }
}

/// The waits of the first `failures` failed dials add up to `2^failures - 1` seconds,
/// which is `1 + 2 + ... + 2^(failures - 1)`.
pub proof fn lemma_total_sleep(failures: nat)
    requires
        failures <= 64,
    ensures
        total_sleep(failures) == pow2(failures) - 1,
    decreases failures,
{
    lemma2_to64();
    if failures > 0 {
        lemma_total_sleep((failures - 1) as nat);
        lemma_backoff_doubles(failures);
        lemma_pow2_unfold(failures);
    }
}

/// A dial that is retried under a limit of `n` is tried at least once and at most `n`
/// times (once where `n` is 0): a valid schedule never counts more failures than that,
/// and it has ended exactly when it counts that many. Once every try has failed, a wait
/// was ordered after each try but the last, and for `n` from 1 to 65 the waits add up to
/// `1 + 2 + ... + 2^(n - 2)` seconds, which is `2^(n - 1) - 1`.
pub proof fn lemma_try_dial_bounds(schedule: DialBackoff)
    requires
        schedule.wf(),
    ensures
        1 <= attempt_budget(schedule.max_attempts()),
        schedule.max_attempts() >= 1 ==> attempt_budget(schedule.max_attempts())
            == schedule.max_attempts(),
        schedule.failures() <= attempt_budget(schedule.max_attempts()),
        schedule.exhausted() ==> schedule.slept() == total_sleep(
            (attempt_budget(schedule.max_attempts()) - 1) as nat,
        ),
        schedule.exhausted() && 1 <= schedule.max_attempts() <= 65 ==> schedule.slept() == pow2(
            (schedule.max_attempts() - 1) as nat,
        ) - 1,
{
    if 1 <= schedule.max_attempts() <= 65 {
        lemma_total_sleep((schedule.max_attempts() - 1) as nat);
    }
}

} // verus!
