//! The retry scheduler that drives the event-log parser: a state machine
//! over running, done and aborted, with a bounded consecutive-error budget
//! and an index cursor over the parser's entry sequence.
//!
//! The cursor makes re-dispatch impossible: each successful round is handed
//! exactly the index range of entries appended since the previous round,
//! whatever their contents.

use vstd::prelude::*;

verus! {

/// The retry budget the loop starts with.
pub const DEFAULT_RETRIES: u32 = 5;

/// Where the loop stands.
#[derive(Clone, Copy, PartialEq, Eq, Structural, Debug)]
pub enum SchedState {
    /// The loop keeps polling the parser.
    Running,
    /// The terminal marker was reached; the loop has ended normally.
    Done,
    /// The error budget is exhausted; the last error is surfaced.
    Aborted,
}

/// The decision state of the polling loop.
pub struct RetryScheduler {
    pub budget: u32,
    pub retries_left: u32,
    pub cursor: usize,
    pub state: SchedState,
}

impl RetryScheduler {
    /// A fresh scheduler with the given consecutive-error budget, at the
    /// start of the entry sequence.
    pub fn new(budget: u32) -> (r: RetryScheduler)
        requires
            budget >= 1,
        ensures
            r.budget == budget,
            r.retries_left == budget,
            r.cursor == 0,
            r.state == SchedState::Running,
    {
        RetryScheduler { budget, retries_left: budget, cursor: 0, state: SchedState::Running }
    }

    /// Records a successful parse round over an entry sequence that has
    /// grown to `total`: the error budget is reset in full, the round is
    /// handed exactly the indices appended since the last round, and the
    /// loop ends when the parser is done.
    pub fn on_parse_ok(&mut self, total: usize, done: bool) -> (batch: (usize, usize))
        requires
            old(self).state == SchedState::Running,
            old(self).cursor <= total,
        ensures
            final(self).budget == old(self).budget,
            final(self).retries_left == old(self).budget,
            batch.0 == old(self).cursor,
            batch.1 == total,
            final(self).cursor == total,
            final(self).state == (if done {
                SchedState::Done
            } else {
                SchedState::Running
            }),
    {
        self.retries_left = self.budget;
        let start = self.cursor;
        self.cursor = total;
        if done {
            self.state = SchedState::Done;
        }
        (start, total)
    }

    /// Records a failed parse round: one retry is spent, and the loop
    /// aborts exactly when the budget runs out.
    pub fn on_parse_err(&mut self) -> (abort: bool)
        requires
            old(self).state == SchedState::Running,
            old(self).retries_left >= 1,
        ensures
            final(self).budget == old(self).budget,
            final(self).retries_left == old(self).retries_left - 1,
            final(self).cursor == old(self).cursor,
            abort == (old(self).retries_left == 1),
            final(self).state == (if abort {
                SchedState::Aborted
            } else {
                SchedState::Running
            }),
    {
        self.retries_left = self.retries_left - 1;
        if self.retries_left == 0 {
            self.state = SchedState::Aborted;
            true
        } else {
            false
        }
    }
}

} // verus!
