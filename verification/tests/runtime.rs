use telekio::abi::SourceLocation;
use telekio::abi::Flavor;
use telekio::histogram::{
    Builder, HistogramBuilder, HistogramConfig, HistogramScale, HistogramType, Kind,
    LegacyBuilder, Seed, Span, TimerFlavor, next_power_of_two,
};
use telekio::hooks::{Hook, HookSet, HostTaskHooks, TaskEvent};
use telekio::lifecycle::{TraceLock, TraceRequest, WakeLifecycle};
use telekio::task_id::{Id, IdOverride, Workers};
use telekio::timing::{Adjustment, HostCalls, PollBatches, clamp_nanos, measure_poll};

fn here() -> SourceLocation {
    SourceLocation::from_location("src/lib.rs", 3, 9)
}

fn all_hooks() -> HookSet {
    HookSet { spawn: true, terminate: true, before_poll: true, after_poll: true }
}

#[test]
fn inactive_hooks_track_nothing() {
    let mut hooks = HostTaskHooks::empty();
    assert!(!hooks.callback());
    hooks.register(1, here());
    hooks.remove(1);
    assert!(!HostTaskHooks::hooks_active(&HookSet {
        spawn: false,
        terminate: false,
        before_poll: false,
        after_poll: false
    }));
    assert!(HostTaskHooks::hooks_active(&HookSet {
        spawn: false,
        terminate: true,
        before_poll: false,
        after_poll: false
    }));
}

#[test]
fn hook_events_run_installed_hooks() {
    let mut hooks = HostTaskHooks::new(all_hooks());
    assert!(hooks.callback());
    hooks.register(7, here());
    let spawn = hooks.call(TaskEvent::Spawn, 7);
    assert_eq!(spawn.hook, Some(Hook::Spawn));
    assert_eq!(spawn.id, 7);
    assert_eq!(spawn.spawned_at.line(), 3);
    let start = hooks.call(TaskEvent::PollStart, 7);
    assert_eq!(start.hook, Some(Hook::BeforePoll));
    let terminate = hooks.call(TaskEvent::Terminate, 7);
    assert_eq!(terminate.hook, Some(Hook::Terminate));
    let stop = hooks.call(TaskEvent::PollStop, 7);
    assert_eq!(stop.hook, Some(Hook::AfterPoll));
    hooks.register(7, here());
}

#[test]
fn terminated_task_is_forgotten() {
    let mut hooks = HostTaskHooks::new(all_hooks());
    hooks.register(3, here());
    let terminate = hooks.call(TaskEvent::Terminate, 3);
    assert_eq!(terminate.hook, Some(Hook::Terminate));
    hooks.register(3, SourceLocation::from_location("src/other.rs", 1, 1));
    let again = hooks.call(TaskEvent::Spawn, 3);
    assert_eq!(again.spawned_at.file(), "src/other.rs");
}

#[test]
fn only_terminate_hook_runs() {
    let mut hooks = HostTaskHooks::new(HookSet {
        spawn: false,
        terminate: true,
        before_poll: false,
        after_poll: false,
    });
    hooks.register(2, here());
    assert_eq!(hooks.call(TaskEvent::Spawn, 2).hook, None);
    assert_eq!(hooks.call(TaskEvent::PollStart, 2).hook, None);
    assert_eq!(hooks.call(TaskEvent::Terminate, 2).hook, Some(Hook::Terminate));
}

#[test]
fn batches_move_by_recorded_differences() {
    let mut batches = PollBatches::new();
    batches.record_poll(10, 1);
    batches.start();
    batches.record_poll(100, 40);
    batches.record_poll(5, 10);
    assert_eq!(batches.finish(), Adjustment::Earlier(55));
    batches.start();
    batches.record_poll(1, 30);
    assert_eq!(batches.finish(), Adjustment::Later(29));
    batches.start();
    assert_eq!(batches.finish(), Adjustment::Earlier(0));
}

#[test]
fn nested_batches_are_separate() {
    let mut batches = PollBatches::new();
    batches.start();
    batches.record_poll(50, 0);
    batches.start();
    batches.record_poll(7, 0);
    assert_eq!(batches.finish(), Adjustment::Earlier(7));
    assert_eq!(batches.finish(), Adjustment::Earlier(50));
}

#[test]
fn batch_difference_saturates() {
    let mut batches = PollBatches::new();
    batches.start();
    for _ in 0..3 {
        batches.record_poll(u64::MAX, 0);
    }
    assert_eq!(batches.finish(), Adjustment::Earlier(u64::MAX));
}

#[test]
fn nested_host_calls_count_once() {
    let mut calls = HostCalls::new();
    let outer = calls.enter();
    assert!(outer);
    let inner = calls.enter();
    assert!(!inner);
    calls.leave(inner, 30);
    assert_eq!(calls.elapsed, 0);
    calls.leave(outer, 100);
    assert_eq!(calls.elapsed, 100);
    assert_eq!(calls.depth, 0);
}

#[test]
fn poll_time_excludes_host_calls() {
    assert_eq!(measure_poll(1000, 200, 500), 700);
    assert_eq!(measure_poll(100, 0, 500), 0);
    assert_eq!(measure_poll(100, 500, 400), 100);
    assert_eq!(clamp_nanos(5), 5);
    assert_eq!(clamp_nanos(u128::MAX), u64::MAX);
}

#[test]
fn closing_registration_refuses_wake_ups() {
    let mut state = WakeLifecycle::new();
    assert!(state.enter());
    assert!(state.enter());
    state.begin_close();
    assert!(!state.enter());
    assert!(!state.is_closed());
    assert!(!state.leave());
    assert!(state.leave());
    assert!(state.is_closed());
    assert!(!state.enter());
}

#[test]
fn trace_lock_queues_each_waiter_once() {
    let mut lock = TraceLock::new();
    assert!(lock.lock(1));
    assert!(!lock.lock(2));
    assert!(!lock.lock(2));
    assert!(!lock.lock(3));
    assert_eq!(lock.unlock(), vec![2, 3]);
    assert!(lock.lock(4));
}

#[test]
fn trace_request_wakes_on_last_report() {
    let mut request = TraceRequest { remaining: 2, traces: vec!["a"], waiting: true };
    assert!(!request.complete(None));
    assert!(request.complete(Some("b")));
    assert_eq!(request.traces, vec!["a", "b"]);
    assert!(!request.waiting);
}

#[test]
fn chosen_task_id_is_taken_once() {
    let mut slot = IdOverride::new();
    let fallback = Id::from_telekio(99);
    let previous = slot.with_telekio(5);
    assert_eq!(slot.next(fallback).telekio_value(), 5);
    assert_eq!(slot.next(fallback).telekio_value(), 99);
    slot.restore(previous);
    assert_eq!(slot.next(fallback).telekio_value(), 99);
}

#[test]
fn untaken_task_id_is_dropped_on_restore() {
    let mut slot = IdOverride::new();
    let fallback = Id::from_telekio(42);
    let previous = slot.with_telekio(6);
    slot.restore(previous);
    assert_eq!(slot.next(fallback).telekio_value(), 42);
    let again = slot.with_telekio(7);
    assert_eq!(slot.next(fallback).telekio_value(), 7);
    slot.restore(again);
    assert_eq!(slot.next(fallback).telekio_value(), 42);
}

#[test]
fn workers_remember_threads() {
    let mut workers = Workers::new();
    assert_eq!(workers.get(0), None);
    workers.store(2, 77);
    assert_eq!(workers.get(2), Some(77));
    assert_eq!(workers.get(0), None);
    assert_eq!(workers.get(3), None);
    workers.store(0, 11);
    workers.store(2, 78);
    assert_eq!(workers.get(0), Some(11));
    assert_eq!(workers.get(2), Some(78));
}

#[test]
fn powers_of_two() {
    assert_eq!(next_power_of_two(0), 1);
    assert_eq!(next_power_of_two(1), 1);
    assert_eq!(next_power_of_two(3), 4);
    assert_eq!(next_power_of_two(1000), 1024);
    assert_eq!(next_power_of_two(1 << 63), 1 << 63);
}

fn linear() -> HistogramBuilder {
    HistogramBuilder {
        histogram_type: HistogramType::Linear { num_buckets: 10, bucket_width: 100 },
        legacy: None,
    }
}

#[test]
fn histogram_parts() {
    assert_eq!(linear().telekio_parts(), (1, 100, 10, 0));
    let h2 = HistogramBuilder {
        histogram_type: HistogramType::H2 { num_buckets: 120, p: 2, bucket_offset: 7 },
        legacy: None,
    };
    assert_eq!(h2.telekio_parts(), (3, 120, 2, 7));
    let legacy_log = HistogramBuilder {
        histogram_type: HistogramType::Linear { num_buckets: 1, bucket_width: 1 },
        legacy: Some(LegacyBuilder { num_buckets: 8, resolution: 1000, scale: HistogramScale::Log }),
    };
    assert_eq!(legacy_log.telekio_parts(), (2, 1024, 8, 0));
    let legacy_linear = HistogramBuilder {
        histogram_type: HistogramType::Linear { num_buckets: 1, bucket_width: 1 },
        legacy: Some(LegacyBuilder { num_buckets: 4, resolution: 50, scale: HistogramScale::Linear }),
    };
    assert_eq!(legacy_linear.telekio_parts(), (1, 50, 4, 0));
}

#[test]
fn histogram_from_parts() {
    assert_eq!(HistogramBuilder::telekio_from_parts(1, 100, 10, 0), Some(linear()));
    assert_eq!(
        HistogramBuilder::telekio_from_parts(3, 120, 2, 7),
        Some(HistogramBuilder {
            histogram_type: HistogramType::H2 { num_buckets: 120, p: 2, bucket_offset: 7 },
            legacy: None,
        })
    );
    assert_eq!(HistogramBuilder::telekio_from_parts(0, 1, 1, 1), None);
    assert_eq!(HistogramBuilder::telekio_from_parts(3, 1, u64::from(u32::MAX) + 1, 1), None);
    let (kind, a, b, c) = linear().telekio_parts();
    assert_eq!(HistogramBuilder::telekio_from_parts(kind, a, b, c), Some(linear()));
}

fn builder() -> Builder {
    Builder {
        kind: Kind::CurrentThread,
        enable_io: false,
        enable_time: false,
        start_paused: false,
        worker_threads: None,
        max_blocking_threads: 512,
        thread_stack_size: None,
        after_start: false,
        before_stop: false,
        before_park: false,
        after_unpark: false,
        keep_alive: None,
        global_queue_interval: None,
        event_interval: 61,
        nevents: 1024,
        seed: Seed { one: 7, two: 9 },
        name: None,
        disable_lifo_slot: false,
        enable_eager_driver_handoff: false,
        timer_flavor: TimerFlavor::Traditional,
        metrics_poll_count_histogram_enable: false,
        metrics_poll_count_histogram: linear(),
        metrics_schedule_latency_histogram_enabled: false,
        metrics_schedule_latency_histogram: linear(),
    }
}

#[test]
fn builder_settings() {
    let mut b = builder();
    b.telekio_disable_lifo_slot();
    b.telekio_enable_eager_driver_handoff();
    b.telekio_enable_alt_timer();
    assert!(b.disable_lifo_slot);
    assert!(b.enable_eager_driver_handoff);
    assert!(b.enable_time);
    assert_eq!(b.timer_flavor, TimerFlavor::Alternative);
}

#[test]
fn builder_histograms() {
    let mut b = builder();
    b.telekio_poll_histogram(2, 64, 5, 0);
    assert!(b.metrics_poll_count_histogram_enable);
    assert_eq!(
        b.metrics_poll_count_histogram.histogram_type,
        HistogramType::LogLegacy { num_buckets: 5, first_bucket_width: 64 }
    );
    b.telekio_poll_histogram(9, 1, 1, 1);
    assert!(!b.metrics_poll_count_histogram_enable);
    assert_eq!(
        b.metrics_poll_count_histogram.histogram_type,
        HistogramType::LogLegacy { num_buckets: 5, first_bucket_width: 64 }
    );
    b.telekio_schedule_histogram(3, 10, 1, 2);
    assert!(b.metrics_schedule_latency_histogram_enabled);
    assert_eq!(
        b.metrics_schedule_latency_histogram.histogram_type,
        HistogramType::H2 { num_buckets: 10, p: 1, bucket_offset: 2 }
    );
}

#[test]
fn host_config_of_defaults() {
    let config = builder().host_config(false, false, false);
    assert_eq!(config.flavor, Flavor::CurrentThread);
    assert_eq!(config.enable_io, 0);
    assert_eq!(config.worker_threads, 0);
    assert_eq!(config.max_blocking_threads, 512);
    assert_eq!((config.thread_stack_size, config.has_thread_stack_size), (0, 0));
    assert_eq!((config.keep_alive_secs, config.keep_alive_nanos, config.has_keep_alive), (0, 0, 0));
    assert_eq!(config.global_queue_interval, 0);
    assert_eq!(config.event_interval, 61);
    assert_eq!(config.max_io_events_per_tick, 1024);
    assert_eq!((config.rng_one, config.rng_two), (7, 9));
    assert_eq!(config.name, None);
    assert_eq!(config.alternative_timer, 0);
    assert_eq!(config.poll_histogram, HistogramConfig::disabled());
    assert_eq!(config.schedule_histogram, HistogramConfig::disabled());
}

#[test]
fn host_config_of_settings() {
    let mut b = builder();
    b.kind = Kind::MultiThread;
    b.enable_io = true;
    b.start_paused = true;
    b.worker_threads = Some(4);
    b.thread_stack_size = Some(1 << 20);
    b.after_start = true;
    b.keep_alive = Some(Span { secs: 10, nanos: 500 });
    b.global_queue_interval = Some(31);
    b.name = Some("pool".to_owned());
    b.telekio_disable_lifo_slot();
    b.telekio_enable_alt_timer();
    b.telekio_poll_histogram(2, 64, 5, 0);
    let config = b.host_config(false, true, true);
    assert_eq!(config.flavor, Flavor::MultiThread);
    assert_eq!((config.enable_io, config.enable_time, config.start_paused), (1, 1, 1));
    assert_eq!(config.worker_threads, 4);
    assert_eq!((config.thread_stack_size, config.has_thread_stack_size), (1 << 20, 1));
    assert!(config.after_start && !config.before_stop);
    assert_eq!((config.keep_alive_secs, config.keep_alive_nanos, config.has_keep_alive), (10, 500, 1));
    assert_eq!(config.global_queue_interval, 31);
    assert_eq!(config.name.as_deref(), Some("pool"));
    assert_eq!((config.disable_lifo_slot, config.eager_driver_handoff), (1, 0));
    assert_eq!(config.alternative_timer, 1);
    assert_eq!(config.poll_histogram, HistogramConfig { kind: 2, a: 64, b: 5, c: 0 });
    assert_eq!(config.schedule_histogram, HistogramConfig::disabled());
    assert_eq!(b.host_config(true, true, false).flavor, Flavor::Local);
    assert_eq!(b.host_config(false, true, false).alternative_timer, 0);
    assert_eq!(b.host_config(false, false, true).poll_histogram, HistogramConfig::disabled());
}

#[test]
fn sent_histogram_arrives_at_host() {
    let mut guest = builder();
    guest.metrics_poll_count_histogram_enable = true;
    guest.metrics_poll_count_histogram = HistogramBuilder {
        histogram_type: HistogramType::Linear { num_buckets: 1, bucket_width: 1 },
        legacy: Some(LegacyBuilder { num_buckets: 8, resolution: 1000, scale: HistogramScale::Log }),
    };
    let sent = guest.host_config(false, true, true).poll_histogram;
    let mut host = builder();
    host.telekio_poll_histogram(sent.kind, sent.a, sent.b, sent.c);
    assert!(host.metrics_poll_count_histogram_enable);
    assert_eq!(
        host.metrics_poll_count_histogram.histogram_type,
        HistogramType::LogLegacy { num_buckets: 8, first_bucket_width: 1024 }
    );
    let off = builder().host_config(false, true, true).poll_histogram;
    host.telekio_poll_histogram(off.kind, off.a, off.b, off.c);
    assert!(!host.metrics_poll_count_histogram_enable);
}
