use vstd::prelude::*;

verus! {

/// The lifecycle of one playback run.
#[derive(Clone, Copy, PartialEq, Eq, Structural, Debug)]
pub enum Phase {
    Idle,
    Running,
    Cancelled,
    Exhausted,
}

/// Drives the generate-render-present cycle: one tick per item, from the
/// configured start index up to an exclusive bound, until the sequence is
/// exhausted or a cancellation signal is observed between ticks. The
/// sequence counter is owned here alone and advances once per completed
/// tick; cancellation is cooperative and never interrupts a tick, so no
/// partial item is ever presented.
#[derive(Clone, Copy, PartialEq, Eq, Structural, Debug)]
pub struct Scheduler {
    pub phase: Phase,
    pub counter: u32,
    pub start: u32,
    pub bound: u32,
}

impl Scheduler {
    /// The counter stays between its start and its bound, and does not
    /// move before the run begins.
    pub open spec fn wf(self) -> bool {
        &&& self.start <= self.counter <= self.bound
        &&& self.phase == Phase::Idle ==> self.counter == self.start
    }

    /// How many items have been fully presented so far.
    pub open spec fn presented(self) -> int {
        self.counter - self.start
    }

    /// A scheduler that has not started yet.
    pub fn new(start: u32, bound: u32) -> (s: Scheduler)
        requires
            start <= bound,
        ensures
            s.wf(),
            s == (Scheduler { phase: Phase::Idle, counter: start, start: start, bound: bound }),
    {
        Scheduler { phase: Phase::Idle, counter: start, start, bound }
    }

    /// Move from idle to running at process start.
    pub fn begin(&mut self)
        requires
            old(self).wf(),
            old(self).phase == Phase::Idle,
        ensures
            final(self).wf(),
            *final(self) == (Scheduler { phase: Phase::Running, ..*old(self) }),
    {
        self.phase = Phase::Running;
    }

    /// One tick. When the counter has already reached the bound, the run
    /// is exhausted and nothing is presented. Otherwise the item of the
    /// current counter is presented (its index is returned), the counter
    /// advances, and a cancellation signal observed at the end of the
    /// tick halts the run with the presented item complete.
    pub fn tick(&mut self, cancel: bool) -> (r: Option<u32>)
        requires
            old(self).wf(),
            old(self).phase == Phase::Running,
        ensures
            final(self).wf(),
            final(self).start == old(self).start,
            final(self).bound == old(self).bound,
            old(self).counter == old(self).bound ==> r is None && *final(self) == (Scheduler {
                phase: Phase::Exhausted,
                ..*old(self)
            }),
            old(self).counter < old(self).bound ==> {
                &&& r == Some(old(self).counter)
                &&& final(self).counter == old(self).counter + 1
                &&& final(self).phase == (if cancel {
                    Phase::Cancelled
                } else {
                    Phase::Running
                })
            },
    {
        if self.counter == self.bound {
            self.phase = Phase::Exhausted;
            None
        } else {
            let item = self.counter;
            self.counter = self.counter + 1;
            if cancel {
                self.phase = Phase::Cancelled;
            }
            Some(item)
        }
    }
}

} // verus!
