use vstd::prelude::*;
use crate::error::ShmError;
use crate::tick::TickRecord;

verus! {

/// The counter value that follows `s`: one more, wrapping to zero past `u32::MAX`.
pub open spec fn next_seq(s: u32) -> u32 {
    if s == u32::MAX {
        0
    } else {
        (s + 1) as u32
    }
}

/// What a reader does with one sample of a slot.
#[derive(Clone, Copy, Debug, PartialEq, Eq, Structural)]
pub enum SampleVerdict {
    /// Both counter reads matched and were even: the copy is one writer's burst.
    Accept,
    /// The copy may be torn or a write was in progress: sample again.
    Retry,
    /// The retry budget is spent.
    Unavailable,
}

/// The verdict on a sample whose counter reads were `s1` before the copy and
/// `s2` after it, on attempt number `attempt` (from zero) of `budget`.
pub open spec fn sample_verdict(s1: u32, s2: u32, attempt: u32, budget: u32) -> SampleVerdict {
    if s1 % 2 == 0 && s1 == s2 {
        SampleVerdict::Accept
    } else if attempt as int + 1 >= budget as int {
        SampleVerdict::Unavailable
    } else {
        SampleVerdict::Retry
    }
}

/// Decides what a reader does after one sample: keep the copy only when the
/// counter was even and unchanged across it, otherwise retry within the budget.
pub fn judge_sample(s1: u32, s2: u32, attempt: u32, budget: u32) -> (r: SampleVerdict)
    ensures
        r == sample_verdict(s1, s2, attempt, budget),
{
    if s1 % 2 == 0 && s1 == s2 {
        SampleVerdict::Accept
    } else if attempt >= budget || budget - attempt <= 1 {
        SampleVerdict::Unavailable
    } else {
        SampleVerdict::Retry
    }
}

/// One slot of the table: a sequence counter, whose parity tells a write in
/// progress (odd) from a stable record (even), and the record itself.
#[derive(Clone, Copy, Debug)]
pub struct SnapshotSlot {
    pub seq: u32,
    pub _pad: [u8; 60],
    pub tick: TickRecord,
}

impl SnapshotSlot {
    /// No write is in progress.
    pub open spec fn is_stable(&self) -> bool {
        self.seq % 2 == 0
    }

    /// A slot that was never written: counter zero, record zeroed.
    pub fn empty() -> (r: SnapshotSlot)
        ensures
            r.seq == 0,
            r.tick.is_zeroed(),
            r.is_stable(),
    {
        SnapshotSlot { seq: 0, _pad: [0u8; 60], tick: TickRecord::zeroed() }
    }

    /// Opens a write burst: the counter turns odd, the record is untouched.
    pub fn begin_write(&mut self)
        requires
            old(self).is_stable(),
        ensures
            final(self).seq == old(self).seq + 1,
            !final(self).is_stable(),
            final(self).tick == old(self).tick,
            final(self)._pad == old(self)._pad,
    {
        self.seq = self.seq + 1;
    }

    /// Overwrites the record inside an open burst; the counter stays odd.
    pub fn store(&mut self, tick: TickRecord)
        requires
            !old(self).is_stable(),
        ensures
            final(self).seq == old(self).seq,
            final(self).tick == tick,
            final(self)._pad == old(self)._pad,
    {
        self.tick = tick;
    }

    /// Closes a write burst: the counter turns even again, the record is untouched.
    pub fn end_write(&mut self)
        requires
            !old(self).is_stable(),
        ensures
            final(self).seq == next_seq(old(self).seq),
            final(self).is_stable(),
            final(self).tick == old(self).tick,
            final(self)._pad == old(self)._pad,
    {
        self.seq = self.seq.wrapping_add(1);
    }

    /// One complete write burst: open, overwrite the record, close. The counter
    /// is even before and after and has advanced by two.
    pub fn publish(&mut self, tick: TickRecord)
        requires
            old(self).is_stable(),
        ensures
            final(self).seq == next_seq(next_seq(old(self).seq)),
            final(self).is_stable(),
            final(self).tick == tick,
            final(self)._pad == old(self)._pad,
    {
        self.begin_write();
        self.store(tick);
        self.end_write();
    }

    /// Samples the slot under the reader protocol, with at most `budget`
    /// attempts: read the counter, copy the record, read the counter again, and
    /// keep the copy only if both reads agree on an even value.
    pub fn read(&self, budget: u32) -> (r: Result<TickRecord, ShmError>)
        ensures
            r == (if budget > 0 && self.is_stable() {
                Ok::<TickRecord, ShmError>(self.tick)
            } else {
                Err::<TickRecord, ShmError>(ShmError::TransientUnavailable)
            }),
    {
        let mut attempt: u32 = 0;
        while attempt < budget
            invariant
                attempt <= budget,
                attempt > 0 ==> !self.is_stable(),
            decreases budget - attempt,
        {
            let s1 = self.seq;
            let copy = self.tick;
            let s2 = self.seq;
            match judge_sample(s1, s2, attempt, budget) {
                SampleVerdict::Accept => {
                    return Ok(copy);
                },
                SampleVerdict::Retry => {},
                SampleVerdict::Unavailable => {
                    return Err(ShmError::TransientUnavailable);
                },
            }
            attempt = attempt + 1;
        }
        Err(ShmError::TransientUnavailable)
    }
}

} // verus!
