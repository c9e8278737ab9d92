use telekio::abi::{
    CallResult, Completion, Flavor, NameResult, Poll, RuntimeFlavor, SignalKind, SignalRequest,
    SignalWait, SourceLocation, Status, TaskIdResult, ThreadContext, capture, completion, is_tracing,
    name_of, poll_report, record_forced_yields, restore, runtime_flavor, signal_wait, task_id_of,
    worker_index,
};

fn call(status: Status, payload: &[u8]) -> CallResult {
    CallResult { status, payload: payload.to_vec() }
}

#[test]
fn unix_signal_request_carries_its_number() {
    let request = SignalRequest::unix(15);
    assert_eq!(request.kind, SignalKind::Unix);
    assert_eq!(request.number, 15);
}

#[test]
fn console_signal_request_has_no_number() {
    let request = SignalRequest::console(SignalKind::CtrlBreak);
    assert_eq!(request.kind, SignalKind::CtrlBreak);
    assert_eq!(request.number, 0);
}

#[test]
fn source_location_reads_back() {
    let location = SourceLocation::from_location("src/main.rs", 12, 5);
    assert_eq!(location.file(), "src/main.rs");
    assert_eq!(location.line(), 12);
    assert_eq!(location.column(), 5);
}

#[test]
fn local_runtime_reports_current_thread() {
    assert_eq!(runtime_flavor(Flavor::Local), RuntimeFlavor::CurrentThread);
    assert_eq!(runtime_flavor(Flavor::CurrentThread), RuntimeFlavor::CurrentThread);
    assert_eq!(runtime_flavor(Flavor::MultiThread), RuntimeFlavor::MultiThread);
}

#[test]
fn completed_output_is_returned() {
    let outcome: Completion<u32, String> = completion(call(Status::Success, b""), Some(Ok(7)));
    assert!(matches!(outcome, Completion::Output(7)));
}

#[test]
fn guest_panic_resumes() {
    let outcome: Completion<u32, String> =
        completion(call(Status::Panicked, b""), Some(Err("boom".to_owned())));
    assert!(matches!(outcome, Completion::Resume(ref p) if p == "boom"));
}

#[test]
fn host_panic_carries_message() {
    let outcome: Completion<u32, String> = completion(call(Status::HostPanicked, b"host"), None);
    assert!(matches!(outcome, Completion::HostPanic(ref m) if m == b"host"));
}

#[test]
fn host_error_is_a_failure() {
    let outcome: Completion<u32, String> = completion(call(Status::Error, b"bad"), Some(Ok(1)));
    assert!(matches!(outcome, Completion::Failure(ref m) if m == b"bad"));
}

#[test]
fn success_without_output_is_invalid() {
    let outcome: Completion<u32, String> = completion(call(Status::Success, b""), None);
    assert!(matches!(outcome, Completion::Invalid));
    let mismatched: Completion<u32, String> =
        completion(call(Status::Panicked, b""), Some(Ok(3)));
    assert!(matches!(mismatched, Completion::Invalid));
}

#[test]
fn poll_report_keeps_output() {
    let (state, kept) = poll_report::<u8, ()>(Ok(Some(4)));
    assert_eq!(state, Poll::Ready);
    assert!(matches!(kept, Some(Ok(4))));
    let (state, kept) = poll_report::<u8, ()>(Ok(None));
    assert_eq!(state, Poll::Pending);
    assert!(kept.is_none());
    let (state, kept) = poll_report::<u8, &str>(Err("panic"));
    assert_eq!(state, Poll::Panicked);
    assert!(matches!(kept, Some(Err("panic"))));
}

#[test]
fn signal_wait_outcomes() {
    assert!(matches!(signal_wait(Poll::Pending, call(Status::Success, b"")), SignalWait::Pending));
    assert!(matches!(signal_wait(Poll::Ready, call(Status::Success, b"")), SignalWait::Received));
    assert!(matches!(
        signal_wait(Poll::Ready, call(Status::Error, b"gone")),
        SignalWait::Failed(ref m) if m == b"gone"
    ));
    assert!(matches!(
        signal_wait(Poll::Panicked, call(Status::Success, b"")),
        SignalWait::Failed(_)
    ));
}

#[test]
fn task_id_and_name_of_successful_calls() {
    let id = TaskIdResult { call: call(Status::Success, b""), value: 42 };
    assert_eq!(task_id_of(id), 42);
    let named = NameResult { call: call(Status::Success, b""), value: b"rt".to_vec(), is_some: true };
    assert_eq!(name_of(named), Some(b"rt".to_vec()));
    let unnamed =
        NameResult { call: call(Status::Success, b""), value: b"ignored".to_vec(), is_some: false };
    assert_eq!(name_of(unnamed), None);
}

#[test]
fn worker_index_counts_from_one() {
    assert_eq!(worker_index(0), None);
    assert_eq!(worker_index(1), Some(0));
    assert_eq!(worker_index(5), Some(4));
}

#[test]
fn tracing_needs_a_state() {
    assert!(!is_tracing(None, true));
    let context = ThreadContext { task_id: Some(3), budget: None, rng: Some((1, 2)) };
    let mut state = capture(context);
    assert!(!is_tracing(Some(&state), true));
    state.tracing = 1;
    assert!(is_tracing(Some(&state), true));
}

#[test]
fn no_tracing_without_task_dumps() {
    let context = ThreadContext { task_id: Some(3), budget: None, rng: Some((1, 2)) };
    let mut state = capture(context);
    state.tracing = 1;
    assert!(!is_tracing(Some(&state), false));
    assert!(!is_tracing(None, false));
}

#[test]
fn captured_context_restores() {
    let context = ThreadContext { task_id: Some(9), budget: Some(17), rng: Some((5, 6)) };
    let state = capture(context);
    assert_eq!(state.task_id, 9);
    assert_eq!(state.rng_active, 1);
    let back = restore(&state);
    assert_eq!(back.task_id, Some(9));
    assert_eq!(back.budget, Some(17));
    assert_eq!(back.rng, Some((5, 6)));
    let empty = ThreadContext { task_id: None, budget: None, rng: None };
    let state = capture(empty);
    assert_eq!(state.budget, u16::MAX);
    let back = restore(&state);
    assert_eq!(back.task_id, None);
    assert_eq!(back.rng, None);
    assert_eq!(back.budget, Some(u16::MAX));
}

#[test]
fn forced_yields_wrap() {
    let mut count = 5u64;
    record_forced_yields(&mut count, 3);
    assert_eq!(count, 8);
    let mut near = u64::MAX - 1;
    record_forced_yields(&mut near, 3);
    assert_eq!(near, 1);
}
