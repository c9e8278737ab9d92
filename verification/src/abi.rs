//! The values that cross the boundary between a guest Tokio and the host
//! runtime, and the decisions taken on what comes back across it.
use vstd::prelude::*;

verus! {

/// How a host call ended: it succeeded, failed, or a panic ended it on
/// either side.
#[derive(Clone, Copy, Debug, PartialEq, Eq, Structural)]
pub enum Status {
    Success,
    Error,
    Panicked,
    HostPanicked,
}

/// The outcome of a host call: its status and the bytes it handed back (an
/// error or panic message, or nothing).
pub struct CallResult {
    pub status: Status,
    pub payload: Vec<u8>,
}

impl CallResult {
    pub fn is_ok(&self) -> (r: bool)
        ensures
            r == (self.status == Status::Success),
    {
        self.status == Status::Success
    }
}

/// The state of a polled operation.
#[derive(Clone, Copy, Debug, PartialEq, Eq, Structural)]
pub enum Poll {
    Pending,
    Ready,
    Panicked,
}

/// Whether the current thread has entered a runtime.
#[derive(Clone, Copy, Debug, PartialEq, Eq, Structural)]
pub enum RuntimeContext {
    NotEntered,
    Entered { allow_block_in_place: bool },
}

/// The scheduler of a host runtime.
#[derive(Clone, Copy, Debug, PartialEq, Eq, Structural)]
pub enum Flavor {
    CurrentThread,
    MultiThread,
    Local,
}

/// How a host runtime is shut down.
#[derive(Clone, Copy, Debug, PartialEq, Eq, Structural)]
pub enum Shutdown {
    Wait,
    Background,
    Timeout,
}

/// The flavor that Tokio's own API reports.
#[derive(Clone, Copy, Debug, PartialEq, Eq, Structural)]
pub enum RuntimeFlavor {
    CurrentThread,
    MultiThread,
}

/// The flavor that a guest reports for its host runtime: a local runtime runs
/// on the current thread.
pub fn runtime_flavor(flavor: Flavor) -> (r: RuntimeFlavor)
    ensures
        r == (if flavor == Flavor::MultiThread {
            RuntimeFlavor::MultiThread
        } else {
            RuntimeFlavor::CurrentThread
        }),
{
    match flavor {
        Flavor::CurrentThread | Flavor::Local => RuntimeFlavor::CurrentThread,
        Flavor::MultiThread => RuntimeFlavor::MultiThread,
    }
}

/// A signal that a runtime can listen for.
#[derive(Clone, Copy, Debug, PartialEq, Eq, Structural)]
pub enum SignalKind {
    Unix,
    CtrlC,
    CtrlBreak,
    CtrlClose,
    CtrlLogoff,
    CtrlShutdown,
}

#[derive(Clone, Copy, Debug, PartialEq, Eq, Structural)]
pub struct SignalRequest {
    pub kind: SignalKind,
    pub number: i32,
}

impl SignalRequest {
    /// A Unix signal by its number.
    pub fn unix(number: i32) -> (r: Self)
        ensures
            r.kind == SignalKind::Unix,
            r.number == number,
    {
        SignalRequest { kind: SignalKind::Unix, number }
    }

    /// A Windows console event; its number is unused.
    pub fn console(kind: SignalKind) -> (r: Self)
        ensures
            r.kind == kind,
            r.number == 0,
    {
        SignalRequest { kind, number: 0 }
    }
}

/// Where a task was spawned.
#[derive(Clone, Copy)]
pub struct SourceLocation {
    file: &'static str,
    line: u32,
    column: u32,
}

impl View for SourceLocation {
    type V = (Seq<char>, u32, u32);

    open spec fn view(&self) -> (Seq<char>, u32, u32) {
        (self.spec_file(), self.spec_line(), self.spec_column())
    }
}

impl SourceLocation {
    pub closed spec fn spec_file(&self) -> Seq<char> {
        self.file@
    }

    pub closed spec fn spec_line(&self) -> u32 {
        self.line
    }

    pub closed spec fn spec_column(&self) -> u32 {
        self.column
    }

    pub fn from_location(file: &'static str, line: u32, column: u32) -> (r: Self)
        ensures
            r@ == (file@, line, column),
    {
        SourceLocation { file, line, column }
    }

    pub fn file(&self) -> (r: &'static str)
        ensures
            r@ == self@.0,
    {
        self.file
    }

    pub fn line(&self) -> (r: u32)
        ensures
            r == self@.1,
    {
        self.line
    }

    pub fn column(&self) -> (r: u32)
        ensures
            r == self@.2,
    {
        self.column
    }
}

/// A task ID handed out by the host.
pub struct TaskIdResult {
    pub call: CallResult,
    pub value: u64,
}

/// A runtime name handed out by the host, if it has one.
pub struct NameResult {
    pub call: CallResult,
    pub value: Vec<u8>,
    pub is_some: bool,
}

/// The task ID of a successful host call.
pub fn task_id_of(result: TaskIdResult) -> (r: u64)
    requires
        result.call.status == Status::Success,
    ensures
        r == result.value,
{
    result.value
}

/// The runtime name of a successful host call: its bytes when the runtime has a name.
pub fn name_of(result: NameResult) -> (r: Option<Vec<u8>>)
    requires
        result.call.status == Status::Success,
    ensures
        r == (if result.is_some {
            Some(result.value)
        } else {
            None::<Vec<u8>>
        }),
{
    if result.is_some {
        Some(result.value)
    } else {
        None
    }
}

/// What a guest does once the host has run its future or blocking function.
pub enum Completion<T, P> {
    /// The function completed with this output.
    Output(T),
    /// The function panicked with this payload; the panic resumes.
    Resume(P),
    /// The host panicked with this message.
    HostPanic(Vec<u8>),
    /// The host failed with this message.
    Failure(Vec<u8>),
    /// The host's answer does not match what the function left behind.
    Invalid,
}

/// Matches the host's status against what the function left behind.
pub fn completion<T, P>(call: CallResult, result: Option<Result<T, P>>) -> (r: Completion<T, P>)
    ensures
        r == (match (call.status, result) {
            (Status::Success, Some(Ok(output))) => Completion::Output(output),
            (Status::Panicked, Some(Err(payload))) => Completion::Resume(payload),
            (Status::HostPanicked, _) => Completion::HostPanic(call.payload),
            (Status::Error, _) => Completion::Failure(call.payload),
            _ => Completion::<T, P>::Invalid,
        }),
{
    match (call.status, result) {
        (Status::Success, Some(Ok(output))) => Completion::Output(output),
        (Status::Panicked, Some(Err(payload))) => Completion::Resume(payload),
        (Status::HostPanicked, _) => Completion::HostPanic(call.payload),
        (Status::Error, _) => Completion::Failure(call.payload),
        _ => Completion::Invalid,
    }
}

/// What polling a guest future reports to the host, and what it leaves
/// behind: its output, or the payload of its panic.
pub fn poll_report<T, P>(polled: Result<Option<T>, P>) -> (r: (Poll, Option<Result<T, P>>))
    ensures
        r == (match polled {
            Ok(None) => (Poll::Pending, None),
            Ok(Some(output)) => (Poll::Ready, Some(Ok::<T, P>(output))),
            Err(payload) => (Poll::Panicked, Some(Err::<T, P>(payload))),
        }),
{
    match polled {
        Ok(None) => (Poll::Pending, None),
        Ok(Some(output)) => (Poll::Ready, Some(Ok(output))),
        Err(payload) => (Poll::Panicked, Some(Err(payload))),
    }
}

/// Where a signal receiver stands after a poll of the host.
pub enum SignalWait {
    Pending,
    Received,
    /// The host reported a failure, with its message.
    Failed(Vec<u8>),
}

/// Reads the host's answer to polling a signal: a panicked poll is always a failure.
pub fn signal_wait(state: Poll, call: CallResult) -> (r: SignalWait)
    ensures
        r == (match state {
            Poll::Pending => SignalWait::Pending,
            Poll::Ready => if call.status == Status::Success {
                SignalWait::Received
            } else {
                SignalWait::Failed(call.payload)
            },
            Poll::Panicked => SignalWait::Failed(call.payload),
        }),
{
    match state {
        Poll::Pending => SignalWait::Pending,
        Poll::Ready => if call.status == Status::Success {
            SignalWait::Received
        } else {
            SignalWait::Failed(call.payload)
        },
        Poll::Panicked => SignalWait::Failed(call.payload),
    }
}

/// The index of the current worker, from the host's metric that counts from one
/// (zero when the thread is not a worker).
pub fn worker_index(metric: u64) -> (r: Option<usize>)
    ensures
        r == (if 1 <= metric && metric - 1 <= usize::MAX {
            Some((metric - 1) as usize)
        } else {
            None::<usize>
        }),
{
    if metric == 0 {
        return None;
    }
    let index = metric - 1;
    if index as u128 <= usize::MAX as u128 {
        Some(index as usize)
    } else {
        None
    }
}

/// The per-thread state that a guest and its host share while a task runs.
#[derive(Clone, Copy, Debug, PartialEq, Eq, Structural)]
pub struct ExecutionState {
    pub runtime: RuntimeContext,
    pub task_id: u64,
    pub budget: u16,
    pub rng_one: u32,
    pub rng_two: u32,
    pub rng_active: u8,
    pub tracing: u8,
    pub forced_yields: u64,
}

/// Whether a task dump is being traced on this thread. Only a build that can
/// take task dumps (`task_dumps`: Tokio's unstable `taskdump` feature, on Linux
/// for aarch64, x86, x86_64 or s390x) ever traces; never without a state.
pub fn is_tracing(state: Option<&ExecutionState>, task_dumps: bool) -> (r: bool)
    ensures
        r == (task_dumps && match state {
            Some(s) => s.tracing != 0,
            None => false,
        }),
        !task_dumps ==> !r,
{
    if !task_dumps {
        return false;
    }
    match state {
        Some(s) => s.tracing != 0,
        None => false,
    }
}

/// The task, budget and random generator of the current thread, as a runtime
/// keeps them: no task, an unconstrained budget, no generator.
#[derive(Clone, Copy, Debug)]
pub struct ThreadContext {
    pub task_id: Option<u64>,
    pub budget: Option<u16>,
    pub rng: Option<(u32, u32)>,
}

pub open spec fn captured(context: ThreadContext) -> ExecutionState {
    ExecutionState {
        runtime: RuntimeContext::NotEntered,
        task_id: match context.task_id {
            Some(id) => id,
            None => 0,
        },
        budget: match context.budget {
            Some(b) => b,
            None => u16::MAX,
        },
        rng_one: match context.rng {
            Some(r) => r.0,
            None => 0,
        },
        rng_two: match context.rng {
            Some(r) => r.1,
            None => 0,
        },
        rng_active: if context.rng is Some {
            1
        } else {
            0
        },
        tracing: 0,
        forced_yields: 0,
    }
}

pub open spec fn restored(state: ExecutionState) -> ThreadContext {
    ThreadContext {
        task_id: if state.task_id != 0 {
            Some(state.task_id)
        } else {
            None
        },
        budget: Some(state.budget),
        rng: if state.rng_active != 0 {
            Some((state.rng_one, state.rng_two))
        } else {
            None
        },
    }
}

/// The shared state that the thread's context is handed to the host in.
pub fn capture(context: ThreadContext) -> (r: ExecutionState)
    ensures
        r == captured(context),
{
    let (rng_one, rng_two) = match context.rng {
        Some(pair) => pair,
        None => (0, 0),
    };
    ExecutionState {
        runtime: RuntimeContext::NotEntered,
        task_id: match context.task_id {
            Some(id) => id,
            None => 0,
        },
        budget: match context.budget {
            Some(b) => b,
            None => u16::MAX,
        },
        rng_one,
        rng_two,
        rng_active: if context.rng.is_some() {
            1
        } else {
            0
        },
        tracing: 0,
        forced_yields: 0,
    }
}

/// The thread's context taken back from the shared state once the host returns.
pub fn restore(state: &ExecutionState) -> (r: ThreadContext)
    ensures
        r == restored(*state),
{
    ThreadContext {
        task_id: if state.task_id != 0 {
            Some(state.task_id)
        } else {
            None
        },
        budget: Some(state.budget),
        rng: if state.rng_active != 0 {
            Some((state.rng_one, state.rng_two))
        } else {
            None
        },
    }
}

/// What the host leaves untouched comes back as it went: the task (task IDs are
/// never zero) and the random generator; a missing budget comes back unconstrained.
pub proof fn capture_restore_round_trip(context: ThreadContext)
    requires
        context.task_id != Some(0u64),
    ensures
        restored(captured(context)).task_id == context.task_id,
        restored(captured(context)).rng == context.rng,
        restored(captured(context)).budget == Some(
            match context.budget {
                Some(b) => b,
                None => u16::MAX,
            },
        ),
{
}

/// Counts the yields that the host forced on a task into the scheduler's
/// metric, which wraps as the atomic counter it stands for does.
pub fn record_forced_yields(forced_yield_count: &mut u64, count: u64)
    ensures
        *final(forced_yield_count) == ((*old(forced_yield_count) as int + count as int) % 0x1_0000_0000_0000_0000) as u64,
{
    let current = *forced_yield_count;
    if count <= u64::MAX - current {
        *forced_yield_count = current + count;
    } else {
        *forced_yield_count = count - (u64::MAX - current) - 1;
    }
}

} // verus!
