//! The life cycle of a sensor: a loop of polls that ends when its
//! cancellation is seen between two polls. The cancellation is a signal
//! that is given once and never taken back; the loop is told at every
//! wake-up whether it is given.

use vstd::prelude::*;

verus! {

/// What the loop does when it wakes between two polls.
#[derive(Clone, Copy, Debug, PartialEq, Eq)]
pub enum Step {
    /// the sensor takes a reading
    Poll,
    /// the task ends
    Exit,
}

/// The step of a loop at a wake-up: it ends if it has ended before or
/// sees the cancellation, and polls otherwise.
pub open spec fn step_at(exited: bool, cancelled: bool) -> Step {
    if exited || cancelled {
        Step::Exit
    } else {
        Step::Poll
    }
}

/// How many polls a loop runs at the wake-ups at which it sees `seen`,
/// given whether it has ended before.
pub open spec fn polls_from(exited: bool, seen: Seq<bool>) -> nat
    decreases seen.len(),
{
    if seen.len() == 0 {
        0
    } else {
        let here: nat = if step_at(exited, seen[0]) == Step::Poll {
            1
        } else {
            0
        };
        here + polls_from(exited || seen[0], seen.drop_first())
    }
}

/// How many polls a new loop runs that sees `seen` at its wake-ups.
pub open spec fn polls_run(seen: Seq<bool>) -> nat {
    polls_from(false, seen)
}

/// A loop that has ended polls no more, whatever it sees.
pub proof fn lemma_ended_stays_ended(seen: Seq<bool>)
    ensures
        polls_from(true, seen) == 0,
    decreases seen.len(),
{
    if seen.len() > 0 {
        lemma_ended_stays_ended(seen.drop_first());
    }
}

/// Once the cancellation is seen at a wake-up, no poll starts at that
/// wake-up or at any later one, whatever is seen later. So of the polls
/// that belong to a run, only the one that was under way when the
/// cancellation was asked for can end after it.
pub proof fn lemma_no_poll_after_cancellation(seen: Seq<bool>, k: int)
    requires
        0 <= k < seen.len(),
        seen[k],
    ensures
        polls_run(seen) <= k,
    decreases seen.len(),
{
    if seen[0] {
        lemma_ended_stays_ended(seen.drop_first());
    } else {
        lemma_no_poll_after_cancellation(seen.drop_first(), k - 1);
    }
}

/// The state of the loop of one sensor.
pub struct SensorLoop {
    exited: bool,
}

impl SensorLoop {
    pub closed spec fn has_exited(&self) -> bool {
        self.exited
    }

    pub fn new() -> (r: Self)
        ensures
            !r.has_exited(),
    {
        SensorLoop { exited: false }
    }

    /// The step to take at a wake-up, given whether the cancellation is
    /// seen: the loop ends when it is, and stays ended.
    pub fn wake(&mut self, cancelled: bool) -> (step: Step)
        ensures
            step == step_at(old(self).has_exited(), cancelled),
            final(self).has_exited() == (old(self).has_exited() || cancelled),
    {
        if self.exited || cancelled {
            self.exited = true;
            Step::Exit
        } else {
            Step::Poll
        }
    }
}

} // verus!
