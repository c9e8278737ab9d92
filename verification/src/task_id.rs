//! Task IDs as the host hands them out, and the worker threads it reports.
use vstd::prelude::*;

verus! {

/// A task ID: never zero.
#[derive(Clone, Copy, Debug, PartialEq, Eq, Structural)]
pub struct Id {
    value: u64,
}

impl Id {
    pub closed spec fn spec_value(self) -> u64 {
        self.value
    }

    /// The ID of a value that the host handed out; zero is no task ID.
    pub fn from_telekio(value: u64) -> (r: Self)
        requires
            value != 0,
        ensures
            r.spec_value() == value,
    {
        Id { value }
    }

    pub fn telekio_value(&self) -> (r: u64)
        ensures
            r == self.spec_value(),
            r != 0,
    {
        proof {
            use_type_invariant(self);
        }
        self.value
    }

    #[verifier::type_invariant]
    spec fn nonzero(self) -> bool {
        self.value != 0
    }
}

/// The ID that the next spawned task takes, when the host has chosen it.
pub struct IdOverride {
    slot: Option<Id>,
}

impl View for IdOverride {
    type V = Option<u64>;

    closed spec fn view(&self) -> Option<u64> {
        match self.slot {
            Some(id) => Some(id.spec_value()),
            None => None,
        }
    }
}

/// The override that stood before `with_telekio` replaced it.
pub struct Previous {
    slot: Option<Id>,
}

impl View for Previous {
    type V = Option<u64>;

    closed spec fn view(&self) -> Option<u64> {
        match self.slot {
            Some(id) => Some(id.spec_value()),
            None => None,
        }
    }
}

impl IdOverride {
    pub fn new() -> (r: Self)
        ensures
            r@ == None::<u64>,
    {
        IdOverride { slot: None }
    }

    /// Makes `value` the ID of the next spawned task; only one can wait. The
    /// override that was there before is handed back, to be put back by
    /// `restore` once the call that spawns the task has returned.
    pub fn with_telekio(&mut self, value: u64) -> (previous: Previous)
        requires
            value != 0,
            old(self)@ is None,
        ensures
            final(self)@ == Some(value),
            previous@ == old(self)@,
    {
        let previous = Previous { slot: self.slot };
        self.slot = Some(Id::from_telekio(value));
        previous
    }

    /// Puts back the override that `with_telekio` replaced, whether or not a
    /// task took the chosen ID in between.
    pub fn restore(&mut self, previous: Previous)
        ensures
            final(self)@ == previous@,
    {
        self.slot = previous.slot;
    }

    /// The ID of the next spawned task: the chosen one if there is one, which
    /// is then used up, else `fallback`.
    pub fn next(&mut self, fallback: Id) -> (r: Id)
        ensures
            final(self)@ == None::<u64>,
            r.spec_value() == (match old(self)@ {
                Some(v) => v,
                None => fallback.spec_value(),
            }),
    {
        match self.slot.take() {
            Some(id) => id,
            None => fallback,
        }
    }
}

/// The thread that each worker of a multi-threaded runtime was last seen on.
pub struct Workers {
    threads: Vec<Option<u64>>,
}

impl View for Workers {
    type V = Seq<Option<u64>>;

    closed spec fn view(&self) -> Seq<Option<u64>> {
        self.threads@
    }
}

/// The workers' threads once `worker` is seen on `thread`: the table grows with
/// unknown threads up to the worker.
pub open spec fn stored(threads: Seq<Option<u64>>, worker: int, thread: u64) -> Seq<Option<u64>> {
    let grown = if threads.len() <= worker {
        threads + Seq::new((worker + 1 - threads.len()) as nat, |i: int| None::<u64>)
    } else {
        threads
    };
    grown.update(worker, Some(thread))
}

impl Workers {
    pub fn new() -> (r: Self)
        ensures
            r@ == Seq::<Option<u64>>::empty(),
    {
        Workers { threads: Vec::new() }
    }

    /// Records that `worker` runs on `thread`.
    pub fn store(&mut self, worker: usize, thread: u64)
        requires
            worker < usize::MAX,
        ensures
            final(self)@ == stored(old(self)@, worker as int, thread),
    {
        let ghost before = self.threads@;
        while self.threads.len() <= worker
            invariant
                worker < usize::MAX,
                before.len() <= self.threads@.len() <= (if before.len() <= worker {
                    worker + 1
                } else {
                    before.len() as int
                }),
                self.threads@.subrange(0, before.len() as int) == before,
                forall|i: int|
                    before.len() <= i < self.threads@.len() ==> self.threads@[i] == None::<u64>,
            decreases worker + 1 - self.threads@.len(),
        {
            self.threads.push(None);
        }
        self.threads.set(worker, Some(thread));
        assert(self.threads@ =~= stored(before, worker as int, thread));
    }

    /// The thread that `worker` was last seen on, if any.
    pub fn get(&self, worker: usize) -> (r: Option<u64>)
        ensures
            r == (if worker < self@.len() {
                self@[worker as int]
            } else {
                None::<u64>
            }),
    {
        if worker < self.threads.len() {
            self.threads[worker]
        } else {
            None
        }
    }
}

/// A worker's thread reads back as it was stored, and the others are unchanged.
pub proof fn stored_reads_back(threads: Seq<Option<u64>>, worker: int, thread: u64, other: int)
    requires
        0 <= worker,
        0 <= other,
        other != worker,
    ensures
        stored(threads, worker, thread)[worker] == Some(thread),
        other < threads.len() ==> stored(threads, worker, thread)[other] == threads[other],
        threads.len() <= other ==> (other < stored(threads, worker, thread).len() ==> stored(
            threads,
            worker,
            thread,
        )[other] == None::<u64>),
{
}

} // verus!
