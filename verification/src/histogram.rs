//! Runtime metrics histograms as they cross to the host in four integers, and
//! the builder settings that a guest forwards to its host runtime.
use vstd::prelude::*;

use vstd::arithmetic::power2::{
    lemma2_to64, lemma2_to64_rest, lemma_pow2_strictly_increases, lemma_pow2_unfold, pow2,
};

use crate::abi::Flavor;

verus! {

/// `p` is the smallest power of two that is at least `n`.
pub open spec fn is_next_power_of_two(n: nat, p: nat) -> bool {
    exists|k: nat| #[trigger] pow2(k) == p && n <= p && (k == 0 || pow2((k - 1) as nat) < n)
}

/// The smallest power of two that is at least `n`, as `u64::next_power_of_two` gives it.
pub fn next_power_of_two(n: u64) -> (r: u64)
    requires
        n <= 0x8000_0000_0000_0000,
    ensures
        is_next_power_of_two(n as nat, r as nat),
{
    proof {
        lemma2_to64();
        lemma2_to64_rest();
    }
    let mut p: u64 = 1;
    let ghost mut k: nat = 0;
    while p < n
        invariant
            n <= 0x8000_0000_0000_0000,
            pow2(63) == 0x8000_0000_0000_0000,
            p == pow2(k),
            k <= 63,
            k == 0 || pow2((k - 1) as nat) < n,
        decreases 63 - k,
    {
        proof {
            if k >= 63 {
                if k > 63 {
                    lemma_pow2_strictly_increases(63, k);
                }
                assert(false);
            }
            lemma_pow2_unfold(k + 1);
        }
        p = p * 2;
        proof {
            k = k + 1;
        }
    }
    assert(pow2(k) == p as nat && n <= p && (k == 0 || pow2((k - 1) as nat) < n));
    p
}

/// How the buckets of a histogram are laid out.
#[derive(Clone, Copy, Debug, PartialEq, Eq, Structural)]
pub enum HistogramType {
    Linear { num_buckets: usize, bucket_width: u64 },
    LogLegacy { num_buckets: usize, first_bucket_width: u64 },
    H2 { num_buckets: usize, p: u32, bucket_offset: usize },
}

/// The scale of a histogram configured the old way.
#[derive(Clone, Copy, Debug, PartialEq, Eq, Structural)]
pub enum HistogramScale {
    Linear,
    Log,
}

/// A histogram configured the old way, by resolution and scale.
#[derive(Clone, Copy, Debug, PartialEq, Eq, Structural)]
pub struct LegacyBuilder {
    pub num_buckets: usize,
    pub resolution: u64,
    pub scale: HistogramScale,
}

/// A histogram's configuration; an old-style one takes precedence.
#[derive(Clone, Copy, Debug, PartialEq, Eq, Structural)]
pub struct HistogramBuilder {
    pub histogram_type: HistogramType,
    pub legacy: Option<LegacyBuilder>,
}

/// The layout that a configuration stands for, when its old-style part can be read.
pub open spec fn effective_type(builder: HistogramBuilder, first_width: u64) -> HistogramType {
    match builder.legacy {
        Some(legacy) => match legacy.scale {
            HistogramScale::Linear => HistogramType::Linear {
                num_buckets: legacy.num_buckets,
                bucket_width: legacy.resolution,
            },
            HistogramScale::Log => HistogramType::LogLegacy {
                num_buckets: legacy.num_buckets,
                first_bucket_width: first_width,
            },
        },
        None => builder.histogram_type,
    }
}

/// The four integers that a layout crosses to the host in: a kind tag, then its fields.
pub open spec fn parts_of(histogram: HistogramType) -> (u8, u64, u64, u64) {
    match histogram {
        HistogramType::Linear { num_buckets, bucket_width } => (
            1,
            bucket_width,
            num_buckets as u64,
            0,
        ),
        HistogramType::LogLegacy { num_buckets, first_bucket_width } => (
            2,
            first_bucket_width,
            num_buckets as u64,
            0,
        ),
        HistogramType::H2 { num_buckets, p, bucket_offset } => (
            3,
            num_buckets as u64,
            p as u64,
            bucket_offset as u64,
        ),
    }
}

/// A value that fits the platform's `usize`.
pub open spec fn fits_usize(v: u64) -> bool {
    v <= usize::MAX
}

/// The layout that four integers from the guest stand for: none for an
/// unknown kind or a field that does not fit.
pub open spec fn type_of_parts(kind: u8, a: u64, b: u64, c: u64) -> Option<HistogramType> {
    if kind == 1 && fits_usize(b) {
        Some(HistogramType::Linear { num_buckets: b as usize, bucket_width: a })
    } else if kind == 2 && fits_usize(b) {
        Some(HistogramType::LogLegacy { num_buckets: b as usize, first_bucket_width: a })
    } else if kind == 3 && fits_usize(a) && b <= u32::MAX && fits_usize(c) {
        Some(HistogramType::H2 { num_buckets: a as usize, p: b as u32, bucket_offset: c as usize })
    } else {
        None
    }
}

fn to_usize(v: u64) -> (r: Option<usize>)
    ensures
        r == (if fits_usize(v) {
            Some(v as usize)
        } else {
            None::<usize>
        }),
{
    if v as u128 <= usize::MAX as u128 {
        Some(v as usize)
    } else {
        None
    }
}

/// The resolution of an old-style configuration on a log scale.
pub open spec fn log_resolution(builder: HistogramBuilder) -> Option<u64> {
    match builder.legacy {
        Some(l) => if l.scale == HistogramScale::Log {
            Some(l.resolution)
        } else {
            None
        },
        None => None,
    }
}

impl HistogramBuilder {
    /// The configuration in the four integers that cross to the host.
    pub fn telekio_parts(&self) -> (r: (u8, u64, u64, u64))
        requires
            log_resolution(*self) matches Some(resolution) ==> resolution
                <= 0x8000_0000_0000_0000,
        ensures
            exists|first: u64|
                {
                    &&& (log_resolution(*self) matches Some(resolution) ==> is_next_power_of_two(
                        resolution as nat,
                        first as nat,
                    ))
                    &&& r == parts_of(effective_type(*self, first))
                },
    {
        let (histogram, first) = match self.legacy {
            Some(legacy) => match legacy.scale {
                HistogramScale::Linear => (
                    HistogramType::Linear {
                        num_buckets: legacy.num_buckets,
                        bucket_width: legacy.resolution,
                    },
                    0,
                ),
                HistogramScale::Log => {
                    let first = next_power_of_two(legacy.resolution);
                    (
                        HistogramType::LogLegacy {
                            num_buckets: legacy.num_buckets,
                            first_bucket_width: first,
                        },
                        first,
                    )
                },
            },
            None => (self.histogram_type, 0),
        };
        assert(histogram == effective_type(*self, first));
        match histogram {
            HistogramType::Linear { num_buckets, bucket_width } => (
                1,
                bucket_width,
                num_buckets as u64,
                0,
            ),
            HistogramType::LogLegacy { num_buckets, first_bucket_width } => (
                2,
                first_bucket_width,
                num_buckets as u64,
                0,
            ),
            HistogramType::H2 { num_buckets, p, bucket_offset } => (
                3,
                num_buckets as u64,
                p as u64,
                bucket_offset as u64,
            ),
        }
    }

    /// The configuration that four integers from the guest stand for.
    pub fn telekio_from_parts(kind: u8, a: u64, b: u64, c: u64) -> (r: Option<Self>)
        ensures
            r == (match type_of_parts(kind, a, b, c) {
                Some(t) => Some(HistogramBuilder { histogram_type: t, legacy: None }),
                None => None::<HistogramBuilder>,
            }),
    {
        if kind == 1 {
            match to_usize(b) {
                Some(num_buckets) => Some(
                    HistogramBuilder {
                        histogram_type: HistogramType::Linear { num_buckets, bucket_width: a },
                        legacy: None,
                    },
                ),
                None => None,
            }
        } else if kind == 2 {
            match to_usize(b) {
                Some(num_buckets) => Some(
                    HistogramBuilder {
                        histogram_type: HistogramType::LogLegacy {
                            num_buckets,
                            first_bucket_width: a,
                        },
                        legacy: None,
                    },
                ),
                None => None,
            }
        } else if kind == 3 {
            match (to_usize(a), to_usize(c)) {
                (Some(num_buckets), Some(bucket_offset)) => if b <= u32::MAX as u64 {
                    Some(
                        HistogramBuilder {
                            histogram_type: HistogramType::H2 {
                                num_buckets,
                                p: b as u32,
                                bucket_offset,
                            },
                            legacy: None,
                        },
                    )
                } else {
                    None
                },
                _ => None,
            }
        } else {
            None
        }
    }
}

/// A layout that crosses to the host arrives as it left.
pub proof fn parts_round_trip(histogram: HistogramType)
    ensures
        ({
            let (kind, a, b, c) = parts_of(histogram);
            type_of_parts(kind, a, b, c) == Some(histogram)
        }),
{
}

/// The timer that a runtime drives.
#[derive(Clone, Copy, Debug, PartialEq, Eq, Structural)]
pub enum TimerFlavor {
    Traditional,
    Alternative,
}

/// The kind of runtime that a builder makes.
#[derive(Clone, Copy, Debug, PartialEq, Eq, Structural)]
pub enum Kind {
    CurrentThread,
    MultiThread,
}

/// A span of time: whole seconds and the nanoseconds past them.
#[derive(Clone, Copy, Debug, PartialEq, Eq, Structural)]
pub struct Span {
    pub secs: u64,
    pub nanos: u32,
}

/// The two words of a random seed generator's state.
#[derive(Clone, Copy, Debug, PartialEq, Eq, Structural)]
pub struct Seed {
    pub one: u32,
    pub two: u32,
}

/// The settings of a runtime builder that a guest forwards to its host. The
/// callbacks are kept as whether each one is set.
#[derive(Clone, Debug, PartialEq, Eq)]
pub struct Builder {
    pub kind: Kind,
    pub enable_io: bool,
    pub enable_time: bool,
    pub start_paused: bool,
    pub worker_threads: Option<usize>,
    pub max_blocking_threads: usize,
    pub thread_stack_size: Option<usize>,
    pub after_start: bool,
    pub before_stop: bool,
    pub before_park: bool,
    pub after_unpark: bool,
    pub keep_alive: Option<Span>,
    pub global_queue_interval: Option<u32>,
    pub event_interval: u32,
    pub nevents: usize,
    pub seed: Seed,
    pub name: Option<String>,
    pub disable_lifo_slot: bool,
    pub enable_eager_driver_handoff: bool,
    pub timer_flavor: TimerFlavor,
    pub metrics_poll_count_histogram_enable: bool,
    pub metrics_poll_count_histogram: HistogramBuilder,
    pub metrics_schedule_latency_histogram_enabled: bool,
    pub metrics_schedule_latency_histogram: HistogramBuilder,
}

/// A histogram as the host runtime takes it: its four integers, kind 0 for none.
#[derive(Clone, Copy, Debug, PartialEq, Eq, Structural)]
pub struct HistogramConfig {
    pub kind: u8,
    pub a: u64,
    pub b: u64,
    pub c: u64,
}

/// What a guest hands its host to build a runtime with; flags are 0 or 1.
#[derive(Clone, Debug, PartialEq, Eq)]
pub struct RuntimeConfig {
    pub flavor: Flavor,
    pub enable_io: u8,
    pub enable_time: u8,
    pub start_paused: u8,
    pub worker_threads: usize,
    pub max_blocking_threads: usize,
    pub thread_stack_size: usize,
    pub has_thread_stack_size: u8,
    pub after_start: bool,
    pub before_stop: bool,
    pub before_park: bool,
    pub after_unpark: bool,
    pub keep_alive_secs: u64,
    pub keep_alive_nanos: u32,
    pub has_keep_alive: u8,
    pub global_queue_interval: u32,
    pub event_interval: u32,
    pub max_io_events_per_tick: usize,
    pub rng_one: u32,
    pub rng_two: u32,
    pub name: Option<String>,
    pub disable_lifo_slot: u8,
    pub eager_driver_handoff: u8,
    pub alternative_timer: u8,
    pub poll_histogram: HistogramConfig,
    pub schedule_histogram: HistogramConfig,
}

pub open spec fn flag(b: bool) -> u8 {
    if b {
        1
    } else {
        0
    }
}

fn flag_of(b: bool) -> (r: u8)
    ensures
        r == flag(b),
{
    if b {
        1
    } else {
        0
    }
}

impl HistogramConfig {
    /// No histogram.
    pub fn disabled() -> (r: HistogramConfig)
        ensures
            r == (HistogramConfig { kind: 0, a: 0, b: 0, c: 0 }),
    {
        HistogramConfig { kind: 0, a: 0, b: 0, c: 0 }
    }
}

/// The four integers that `telekio_parts` gives for the builder.
pub open spec fn sent_parts(builder: HistogramBuilder, parts: (u8, u64, u64, u64)) -> bool {
    exists|first: u64|
        {
            &&& (log_resolution(builder) matches Some(resolution) ==> is_next_power_of_two(
                resolution as nat,
                first as nat,
            ))
            &&& parts == parts_of(effective_type(builder, first))
        }
}

/// `config` is the histogram that the host is given: the builder's, when the
/// histogram is turned on and metrics histograms are compiled in; else none.
pub open spec fn is_histogram_config(
    config: HistogramConfig,
    enabled: bool,
    builder: HistogramBuilder,
    unstable: bool,
) -> bool {
    if unstable && enabled {
        sent_parts(builder, (config.kind, config.a, config.b, config.c))
    } else {
        config == HistogramConfig { kind: 0, a: 0, b: 0, c: 0 }
    }
}

/// The histogram can be sent: a legacy logarithmic resolution has a next power of two.
pub open spec fn sendable(enabled: bool, builder: HistogramBuilder, unstable: bool) -> bool {
    unstable && enabled ==> (log_resolution(builder) matches Some(resolution) ==> resolution
        <= 0x8000_0000_0000_0000)
}

fn histogram_config_of(enabled: bool, builder: &HistogramBuilder, unstable: bool) -> (r:
    HistogramConfig)
    requires
        sendable(enabled, *builder, unstable),
    ensures
        is_histogram_config(r, enabled, *builder, unstable),
{
    if unstable && enabled {
        let (kind, a, b, c) = builder.telekio_parts();
        HistogramConfig { kind, a, b, c }
    } else {
        HistogramConfig::disabled()
    }
}

/// Law: a histogram that a guest builder hands its host arrives there: when the
/// guest has it turned on and histograms are compiled in, the host reads back
/// the guest's layout (with a legacy logarithmic width rounded up to a power of
/// two), and otherwise it reads no histogram and turns its own off.
pub proof fn sent_histogram_arrives(
    config: HistogramConfig,
    enabled: bool,
    builder: HistogramBuilder,
    unstable: bool,
)
    requires
        is_histogram_config(config, enabled, builder, unstable),
    ensures
        unstable && enabled ==> exists|first: u64|
            {
                &&& (log_resolution(builder) matches Some(resolution) ==> is_next_power_of_two(
                    resolution as nat,
                    first as nat,
                ))
                &&& type_of_parts(config.kind, config.a, config.b, config.c) == Some(
                    effective_type(builder, first),
                )
            },
        !(unstable && enabled) ==> type_of_parts(config.kind, config.a, config.b, config.c) is None,
{
    if unstable && enabled {
        let first = choose|first: u64|
            {
                &&& (log_resolution(builder) matches Some(resolution) ==> is_next_power_of_two(
                    resolution as nat,
                    first as nat,
                ))
                &&& (config.kind, config.a, config.b, config.c) == parts_of(
                    effective_type(builder, first),
                )
            };
        parts_round_trip(effective_type(builder, first));
    }
}

/// The runtime flavor that the host builds for the builder.
pub open spec fn host_flavor(kind: Kind, local: bool) -> Flavor {
    if local {
        Flavor::Local
    } else {
        match kind {
            Kind::CurrentThread => Flavor::CurrentThread,
            Kind::MultiThread => Flavor::MultiThread,
        }
    }
}

/// `c` is what a guest builder hands its host: `local` asks for a local
/// runtime; `unstable` and `multi_thread` say whether Tokio is built with its
/// unstable features and with its multi-threaded runtime.
pub open spec fn is_host_config(
    b: Builder,
    local: bool,
    unstable: bool,
    multi_thread: bool,
    c: RuntimeConfig,
) -> bool {
    &&& c.flavor == host_flavor(b.kind, local)
    &&& c.enable_io == flag(b.enable_io)
    &&& c.enable_time == flag(b.enable_time)
    &&& c.start_paused == flag(b.start_paused)
    &&& c.worker_threads == (match b.worker_threads {
        Some(n) => n,
        None => 0,
    })
    &&& c.max_blocking_threads == b.max_blocking_threads
    &&& c.thread_stack_size == (match b.thread_stack_size {
        Some(n) => n,
        None => 0,
    })
    &&& c.has_thread_stack_size == flag(b.thread_stack_size is Some)
    &&& c.after_start == b.after_start && c.before_stop == b.before_stop
    &&& c.before_park == b.before_park && c.after_unpark == b.after_unpark
    &&& c.keep_alive_secs == (match b.keep_alive {
        Some(span) => span.secs,
        None => 0,
    })
    &&& c.keep_alive_nanos == (match b.keep_alive {
        Some(span) => span.nanos,
        None => 0,
    })
    &&& c.has_keep_alive == flag(b.keep_alive is Some)
    &&& c.global_queue_interval == (match b.global_queue_interval {
        Some(n) => n,
        None => 0,
    })
    &&& c.event_interval == b.event_interval
    &&& c.max_io_events_per_tick == b.nevents
    &&& c.rng_one == b.seed.one && c.rng_two == b.seed.two
    &&& c.name == b.name
    &&& c.disable_lifo_slot == flag(b.disable_lifo_slot)
    &&& c.eager_driver_handoff == flag(b.enable_eager_driver_handoff)
    &&& c.alternative_timer == flag(
        unstable && multi_thread && b.timer_flavor == TimerFlavor::Alternative,
    )
    &&& is_histogram_config(
        c.poll_histogram,
        b.metrics_poll_count_histogram_enable,
        b.metrics_poll_count_histogram,
        unstable,
    )
    &&& is_histogram_config(
        c.schedule_histogram,
        b.metrics_schedule_latency_histogram_enabled,
        b.metrics_schedule_latency_histogram,
        unstable,
    )
}

impl Builder {
    /// The configuration that this builder hands its host runtime.
    pub fn host_config(&self, local: bool, unstable: bool, multi_thread: bool) -> (c: RuntimeConfig)
        requires
            sendable(self.metrics_poll_count_histogram_enable, self.metrics_poll_count_histogram, unstable),
            sendable(
                self.metrics_schedule_latency_histogram_enabled,
                self.metrics_schedule_latency_histogram,
                unstable,
            ),
        ensures
            is_host_config(*self, local, unstable, multi_thread, c),
    {
        let flavor = if local {
            Flavor::Local
        } else {
            match self.kind {
                Kind::CurrentThread => Flavor::CurrentThread,
                Kind::MultiThread => Flavor::MultiThread,
            }
        };
        let keep_alive = match self.keep_alive {
            Some(span) => span,
            None => Span { secs: 0, nanos: 0 },
        };
        let name = match &self.name {
            Some(name) => Some(name.clone()),
            None => None,
        };
        let alternative = match self.timer_flavor {
            TimerFlavor::Alternative => true,
            TimerFlavor::Traditional => false,
        };
        RuntimeConfig {
            flavor,
            enable_io: flag_of(self.enable_io),
            enable_time: flag_of(self.enable_time),
            start_paused: flag_of(self.start_paused),
            worker_threads: match self.worker_threads {
                Some(n) => n,
                None => 0,
            },
            max_blocking_threads: self.max_blocking_threads,
            thread_stack_size: match self.thread_stack_size {
                Some(n) => n,
                None => 0,
            },
            has_thread_stack_size: flag_of(self.thread_stack_size.is_some()),
            after_start: self.after_start,
            before_stop: self.before_stop,
            before_park: self.before_park,
            after_unpark: self.after_unpark,
            keep_alive_secs: keep_alive.secs,
            keep_alive_nanos: keep_alive.nanos,
            has_keep_alive: flag_of(self.keep_alive.is_some()),
            global_queue_interval: match self.global_queue_interval {
                Some(n) => n,
                None => 0,
            },
            event_interval: self.event_interval,
            max_io_events_per_tick: self.nevents,
            rng_one: self.seed.one,
            rng_two: self.seed.two,
            name,
            disable_lifo_slot: flag_of(self.disable_lifo_slot),
            eager_driver_handoff: flag_of(self.enable_eager_driver_handoff),
            alternative_timer: flag_of(unstable && multi_thread && alternative),
            poll_histogram: histogram_config_of(
                self.metrics_poll_count_histogram_enable,
                &self.metrics_poll_count_histogram,
                unstable,
            ),
            schedule_histogram: histogram_config_of(
                self.metrics_schedule_latency_histogram_enabled,
                &self.metrics_schedule_latency_histogram,
                unstable,
            ),
        }
    }

    pub fn telekio_disable_lifo_slot(&mut self)
        ensures
            *final(self) == (Builder { disable_lifo_slot: true, ..*old(self) }),
    {
        self.disable_lifo_slot = true;
    }

    pub fn telekio_enable_eager_driver_handoff(&mut self)
        ensures
            *final(self) == (Builder { enable_eager_driver_handoff: true, ..*old(self) }),
    {
        self.enable_eager_driver_handoff = true;
    }

    /// Turns the timer on, in its alternative flavor.
    pub fn telekio_enable_alt_timer(&mut self)
        ensures
            *final(self) == (Builder {
                enable_time: true,
                timer_flavor: TimerFlavor::Alternative,
                ..*old(self)
            }),
    {
        self.enable_time = true;
        self.timer_flavor = TimerFlavor::Alternative;
    }

    /// Sets the poll-count histogram from the guest's four integers; integers
    /// that stand for no histogram turn it off and keep the old configuration.
    pub fn telekio_poll_histogram(&mut self, kind: u8, a: u64, b: u64, c: u64)
        ensures
            *final(self) == (match type_of_parts(kind, a, b, c) {
                Some(t) => Builder {
                    metrics_poll_count_histogram_enable: true,
                    metrics_poll_count_histogram: HistogramBuilder {
                        histogram_type: t,
                        legacy: None,
                    },
                    ..*old(self)
                },
                None => Builder { metrics_poll_count_histogram_enable: false, ..*old(self) },
            }),
    {
        let histogram = HistogramBuilder::telekio_from_parts(kind, a, b, c);
        self.metrics_poll_count_histogram_enable = histogram.is_some();
        if let Some(histogram) = histogram {
            self.metrics_poll_count_histogram = histogram;
        }
    }

    /// Sets the schedule-latency histogram in the same way.
    pub fn telekio_schedule_histogram(&mut self, kind: u8, a: u64, b: u64, c: u64)
        ensures
            *final(self) == (match type_of_parts(kind, a, b, c) {
                Some(t) => Builder {
                    metrics_schedule_latency_histogram_enabled: true,
                    metrics_schedule_latency_histogram: HistogramBuilder {
                        histogram_type: t,
                        legacy: None,
                    },
                    ..*old(self)
                },
                None => Builder { metrics_schedule_latency_histogram_enabled: false, ..*old(self) },
            }),
    {
        let histogram = HistogramBuilder::telekio_from_parts(kind, a, b, c);
        self.metrics_schedule_latency_histogram_enabled = histogram.is_some();
        if let Some(histogram) = histogram {
            self.metrics_schedule_latency_histogram = histogram;
        }
    }
}

} // verus!
