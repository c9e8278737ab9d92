//! Coordination state of the host's I/O wake-ups and of task-dump tracing.
use vstd::prelude::*;

verus! {

/// The wake-ups of an I/O registration that are running, and whether the
/// registration is being closed.
#[derive(Clone, Copy, Debug, PartialEq, Eq, Structural)]
pub struct WakeLifecycle {
    pub active: usize,
    pub closing: bool,
}

pub open spec fn after_enter(state: WakeLifecycle) -> (WakeLifecycle, bool) {
    if state.closing {
        (state, false)
    } else {
        (WakeLifecycle { active: (state.active + 1) as usize, ..state }, true)
    }
}

pub open spec fn after_leave(state: WakeLifecycle) -> WakeLifecycle {
    WakeLifecycle { active: (state.active - 1) as usize, ..state }
}

impl WakeLifecycle {
    pub fn new() -> (r: Self)
        ensures
            r == (WakeLifecycle { active: 0, closing: false }),
    {
        WakeLifecycle { active: 0, closing: false }
    }

    /// Starts a wake-up, unless the registration is closing.
    pub fn enter(&mut self) -> (entered: bool)
        requires
            !old(self).closing ==> old(self).active < usize::MAX,
        ensures
            (*final(self), entered) == after_enter(*old(self)),
    {
        if self.closing {
            return false;
        }
        self.active = self.active + 1;
        true
    }

    /// Ends a wake-up; says whether it was the last one running, so that a
    /// close waiting for it is told.
    pub fn leave(&mut self) -> (last: bool)
        requires
            old(self).active > 0,
        ensures
            *final(self) == after_leave(*old(self)),
            last == (final(self).active == 0),
    {
        self.active = self.active - 1;
        self.active == 0
    }

    /// Refuses every later wake-up.
    pub fn begin_close(&mut self)
        ensures
            *final(self) == (WakeLifecycle { closing: true, ..*old(self) }),
    {
        self.closing = true;
    }

    /// No wake-up is running: a close may finish.
    pub fn is_closed(&self) -> (r: bool)
        ensures
            r == (self.active == 0),
    {
        self.active == 0
    }
}

/// Once a registration is closing, no wake-up starts and the running ones only
/// end: the count never grows, and the close stays in force.
pub proof fn closing_only_drains(state: WakeLifecycle)
    requires
        state.closing,
    ensures
        after_enter(state) == (state, false),
        state.active > 0 ==> after_leave(state).closing && after_leave(state).active
            < state.active,
{
}

/// The lock that lets one task dump run at a time, with the tasks waiting for it.
pub struct TraceLock {
    active: bool,
    waiters: Vec<u64>,
}

impl View for TraceLock {
    type V = (bool, Seq<u64>);

    closed spec fn view(&self) -> (bool, Seq<u64>) {
        (self.active, self.waiters@)
    }
}

impl TraceLock {
    /// No waiter is queued twice.
    pub open spec fn wf(&self) -> bool {
        self@.1.no_duplicates()
    }

    pub fn new() -> (r: Self)
        ensures
            r@ == (false, Seq::<u64>::empty()),
            r.wf(),
    {
        TraceLock { active: false, waiters: Vec::new() }
    }

    /// Takes the lock for the task whose waker is `waker`, or queues the waker
    /// once to be woken when the lock is released.
    pub fn lock(&mut self, waker: u64) -> (acquired: bool)
        requires
            old(self).wf(),
        ensures
            final(self).wf(),
            acquired == !old(self)@.0,
            final(self)@.0,
            final(self)@.1 == (if acquired || old(self)@.1.contains(waker) {
                old(self)@.1
            } else {
                old(self)@.1.push(waker)
            }),
    {
        if !self.active {
            self.active = true;
            return true;
        }
        let mut i: usize = 0;
        while i < self.waiters.len()
            invariant
                self.active,
                self.waiters@ == old(self)@.1,
                old(self).wf(),
                old(self)@.0,
                i <= self.waiters@.len(),
                forall|j: int| 0 <= j < i ==> self.waiters@[j] != waker,
            decreases self.waiters@.len() - i,
        {
            if self.waiters[i] == waker {
                assert(self.waiters@.contains(waker));
                return false;
            }
            i += 1;
        }
        let ghost before = self.waiters@;
        self.waiters.push(waker);
        assert(self.waiters@.no_duplicates()) by {
            assert forall|a: int, b: int|
                0 <= a < b < self.waiters@.len() implies self.waiters@[a] != self.waiters@[b] by {
                if b == before.len() {
                    assert(before[a] != waker);
                }
            }
        }
        false
    }

    /// Releases the lock and hands back the wakers to wake.
    pub fn unlock(&mut self) -> (waiters: Vec<u64>)
        requires
            old(self).wf(),
        ensures
            final(self).wf(),
            final(self)@ == (false, Seq::<u64>::empty()),
            waiters@ == old(self)@.1,
    {
        self.active = false;
        let mut taken: Vec<u64> = Vec::new();
        std::mem::swap(&mut taken, &mut self.waiters);
        taken
    }
}

/// A task dump in progress: the tasks still to report, and whether the dump
/// waits to be woken when the last one does.
pub struct TraceRequest<T> {
    pub remaining: usize,
    pub traces: Vec<T>,
    pub waiting: bool,
}

impl<T> TraceRequest<T> {
    /// One task reports, with its trace when it could take one; says whether
    /// the dump is to be woken now.
    pub fn complete(&mut self, trace: Option<T>) -> (wake: bool)
        requires
            old(self).remaining > 0,
        ensures
            final(self).remaining == old(self).remaining - 1,
            final(self).traces@ == (match trace {
                Some(t) => old(self).traces@.push(t),
                None => old(self).traces@,
            }),
            wake == (old(self).remaining == 1 && old(self).waiting),
            final(self).waiting == (old(self).waiting && old(self).remaining != 1),
    {
        if let Some(t) = trace {
            self.traces.push(t);
        }
        let last = self.remaining == 1;
        self.remaining = self.remaining - 1;
        if last && self.waiting {
            self.waiting = false;
            true
        } else {
            false
        }
    }
}

} // verus!
