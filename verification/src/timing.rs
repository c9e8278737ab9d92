//! Time accounting between a guest and its host: the time that host calls take
//! is taken out of a guest's poll, and each batch of polls is moved by the
//! difference between the time the host measured and the time the guest spent.
use vstd::prelude::*;

verus! {

/// The sum of two 128-bit values, held at the bounds of the type.
pub open spec fn saturated_sum(a: int, b: int) -> int {
    if a + b > i128::MAX {
        i128::MAX as int
    } else if a + b < i128::MIN {
        i128::MIN as int
    } else {
        a + b
    }
}

/// A duration in nanoseconds, held at what 64 bits can count.
pub open spec fn clamped(n: int) -> int {
    if n > u64::MAX {
        u64::MAX as int
    } else {
        n
    }
}

/// A span of nanoseconds that fits 64 bits: longer spans count as the longest one.
pub fn clamp_nanos(nanos: u128) -> (r: u64)
    ensures
        r == clamped(nanos as int),
{
    if nanos > u64::MAX as u128 {
        u64::MAX
    } else {
        nanos as u64
    }
}

/// The polls that a batch is moved by, innermost batch last.
pub struct PollBatches {
    batches: Vec<i128>,
}

/// Which way, and how far, a batch's end is moved.
#[derive(Clone, Copy, Debug, PartialEq, Eq, Structural)]
pub enum Adjustment {
    /// The batch ends this many nanoseconds before now.
    Earlier(u64),
    /// The batch ends this many nanoseconds after now.
    Later(u64),
}

/// The adjustment that a batch's accumulated difference calls for.
pub open spec fn adjustment_of(difference: int) -> Adjustment {
    if difference >= 0 {
        Adjustment::Earlier(clamped(difference) as u64)
    } else {
        Adjustment::Later(clamped(-difference) as u64)
    }
}

impl View for PollBatches {
    type V = Seq<i128>;

    closed spec fn view(&self) -> Seq<i128> {
        self.batches@
    }
}

impl PollBatches {
    pub fn new() -> (r: Self)
        ensures
            r@ == Seq::<i128>::empty(),
    {
        PollBatches { batches: Vec::new() }
    }

    /// Opens a batch with nothing to move it by.
    pub fn start(&mut self)
        ensures
            final(self)@ == old(self)@.push(0),
    {
        self.batches.push(0);
    }

    /// Adds a poll whose host measure was `actual` and whose guest share was
    /// `guest` to the innermost batch, if one is open.
    pub fn record_poll(&mut self, actual: u64, guest: u64)
        ensures
            final(self)@ == (if old(self)@.len() == 0 {
                old(self)@
            } else {
                old(self)@.update(
                    old(self)@.len() - 1,
                    saturated_sum(old(self)@.last() as int, actual - guest) as i128,
                )
            }),
    {
        let n = self.batches.len();
        if n == 0 {
            return;
        }
        let current = self.batches[n - 1];
        let difference = actual as i128 - guest as i128;
        let updated = if difference > 0 && current > i128::MAX - difference {
            i128::MAX
        } else if difference < 0 && current < i128::MIN - difference {
            i128::MIN
        } else {
            current + difference
        };
        self.batches.set(n - 1, updated);
    }

    /// Closes the innermost batch and says how its end moves.
    pub fn finish(&mut self) -> (r: Adjustment)
        requires
            old(self)@.len() > 0,
        ensures
            final(self)@ == old(self)@.drop_last(),
            r == adjustment_of(old(self)@.last() as int),
    {
        let difference = self.batches.pop().unwrap();
        if difference >= 0 {
            Adjustment::Earlier(
                if difference > u64::MAX as i128 {
                    u64::MAX
                } else {
                    difference as u64
                },
            )
        } else if difference < -(u64::MAX as i128) {
            Adjustment::Later(u64::MAX)
        } else {
            Adjustment::Later((-difference) as u64)
        }
    }
}

/// A batch that no poll was recorded in ends where it was measured.
pub proof fn empty_batch_stays(before: Seq<i128>)
    ensures
        adjustment_of(before.push(0i128).last() as int) == Adjustment::Earlier(0),
{
}

/// The nesting of host calls on a thread, and the time its outermost calls took.
#[derive(Clone, Copy, Debug, PartialEq, Eq, Structural)]
pub struct HostCalls {
    pub depth: usize,
    pub elapsed: u64,
}

/// The sum of two durations, held at what 64 bits can count.
pub open spec fn saturated_nanos(a: int, b: int) -> u64 {
    clamped(a + b) as u64
}

pub open spec fn entered(calls: HostCalls) -> HostCalls {
    HostCalls { depth: (calls.depth + 1) as usize, elapsed: calls.elapsed }
}

pub open spec fn is_outer(calls: HostCalls) -> bool {
    calls.depth == 0
}

pub open spec fn left(calls: HostCalls, outer: bool, nanos: u64) -> HostCalls {
    HostCalls {
        depth: (calls.depth - 1) as usize,
        elapsed: if outer {
            saturated_nanos(calls.elapsed as int, nanos as int)
        } else {
            calls.elapsed
        },
    }
}

impl HostCalls {
    pub fn new() -> (r: Self)
        ensures
            r.depth == 0,
            r.elapsed == 0,
    {
        HostCalls { depth: 0, elapsed: 0 }
    }

    /// Enters a host call; says whether it is the outermost one.
    pub fn enter(&mut self) -> (outer: bool)
        requires
            old(self).depth < usize::MAX,
        ensures
            *final(self) == entered(*old(self)),
            outer == is_outer(*old(self)),
    {
        let outer = self.depth == 0;
        self.depth = self.depth + 1;
        outer
    }

    /// Leaves a host call that took `nanos`; only an outermost call counts.
    pub fn leave(&mut self, outer: bool, nanos: u64)
        requires
            old(self).depth > 0,
        ensures
            *final(self) == left(*old(self), outer, nanos),
    {
        if outer {
            self.elapsed = self.elapsed.saturating_add(nanos);
        }
        self.depth = self.depth - 1;
    }
}

/// A host call made inside another adds nothing: once both have returned, only
/// the outer call's time has been counted, and the thread is back at the top.
pub proof fn nested_host_call_counts_once(calls: HostCalls, inner: u64, outer: u64)
    requires
        calls.depth == 0,
    ensures
        ({
            let first = entered(calls);
            let second = entered(first);
            let done = left(left(second, is_outer(first), inner), is_outer(calls), outer);
            done == HostCalls {
                depth: 0,
                elapsed: saturated_nanos(calls.elapsed as int, outer as int),
            }
        }),
{
}

/// The guest's share of a poll that took `elapsed`: the time spent in host calls
/// meanwhile (the counter moved from `host_before` to `host_after`) is taken out.
pub fn measure_poll(elapsed: u64, host_before: u64, host_after: u64) -> (r: u64)
    ensures
        r == (if host_after < host_before {
            elapsed as int
        } else if elapsed < host_after - host_before {
            0
        } else {
            elapsed - (host_after - host_before)
        }),
{
    elapsed.saturating_sub(host_after.saturating_sub(host_before))
}

} // verus!
