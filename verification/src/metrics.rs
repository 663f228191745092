use vstd::prelude::*;
use crate::types::Metrics;

verus! {

/// Number of latency samples that the ring buffer holds. A power of two, so
/// that an index is reduced by a mask.
pub const LATENCY_SAMPLE_SIZE: usize = 2048;

pub const LATENCY_SAMPLE_MASK: usize = 2047;

/// Fewest samples from which percentiles are taken.
pub const MIN_PERCENTILE_SAMPLES: usize = 10;

/// Reorders `v` with `slice::select_nth_unstable` and returns the element
/// that then stands at `index`. As the documentation of the standard
/// library says, that element is where a sort would put it: none before it
/// is larger, none after it is smaller, and the slice holds what it held.
#[verifier::external_body]
pub(crate) fn select_nth(v: &mut Vec<u64>, index: usize) -> (r: u64)
    requires
        index < old(v)@.len(),
    ensures
        final(v)@.len() == old(v)@.len(),
        final(v)@.to_multiset() == old(v)@.to_multiset(),
        r == final(v)@[index as int],
        forall|i: int| 0 <= i < index ==> #[trigger] final(v)@[i] <= r,
        forall|i: int| index < i < final(v)@.len() ==> #[trigger] final(v)@[i] >= r,
{
    *v.select_nth_unstable(index).1
}

/// Whether `p` is the element of rank `k` among `s`: `s` can be arranged so
/// that `p` stands at `k` with nothing larger before it and nothing smaller
/// after it.
pub open spec fn is_order_statistic(s: Seq<u64>, k: int, p: u64) -> bool {
    exists|t: Seq<u64>|
        #![trigger t.to_multiset()]
        {
            &&& t.to_multiset() == s.to_multiset()
            &&& t.len() == s.len()
            &&& 0 <= k < t.len()
            &&& t[k] == p
            &&& forall|i: int| 0 <= i < k ==> #[trigger] t[i] <= p
            &&& forall|i: int| k < i < t.len() ==> #[trigger] t[i] >= p
        }
}

/// The rank at which the percentile `pct` of `len` samples is taken.
pub open spec fn percentile_rank(len: nat, pct: nat) -> int {
    if len * pct / 100 < len - 1 {
        (len * pct / 100) as int
    } else {
        len - 1
    }
}

/// The content of a latency buffer.
pub struct LatencyModel {
    pub samples: Seq<u64>,
    pub write_index: usize,
    pub count: u64,
    pub p50: u64,
    pub p95: u64,
    pub p99: u64,
}

/// The buffer after a sample was recorded: the sample stands at the write
/// index reduced to the buffer, and the index and the count have moved on,
/// each wrapping around.
pub open spec fn latency_recorded(m: LatencyModel, latency_us: u64) -> LatencyModel {
    LatencyModel {
        samples: m.samples.update(m.write_index as int % LATENCY_SAMPLE_SIZE as int, latency_us),
        write_index: if m.write_index == usize::MAX {
            0
        } else {
            (m.write_index + 1) as usize
        },
        count: if m.count == u64::MAX {
            0
        } else {
            (m.count + 1) as u64
        },
        ..m
    }
}

/// The number of samples from which percentiles are taken: all that were
/// recorded, up to the size of the buffer.
pub open spec fn live_samples(m: LatencyModel) -> nat {
    if m.count < LATENCY_SAMPLE_SIZE {
        m.count as nat
    } else {
        LATENCY_SAMPLE_SIZE as nat
    }
}

/// A ring buffer of the latest latency samples, in microseconds, with
/// cached percentiles. Recording takes constant time; the percentiles are
/// refreshed apart from it.
#[derive(Debug)]
pub struct LockFreeLatencyBuffer {
    samples: Vec<u64>,
    write_index: usize,
    count: u64,
    cached_p50: u64,
    cached_p95: u64,
    cached_p99: u64,
    scratch_buffer: Vec<u64>,
}

impl View for LockFreeLatencyBuffer {
    type V = LatencyModel;

    closed spec fn view(&self) -> LatencyModel {
        LatencyModel {
            samples: self.samples@,
            write_index: self.write_index,
            count: self.count,
            p50: self.cached_p50,
            p95: self.cached_p95,
            p99: self.cached_p99,
        }
    }
}

impl LockFreeLatencyBuffer {
    /// The invariant of a buffer: it holds `LATENCY_SAMPLE_SIZE` samples.
    pub open spec fn wf(&self) -> bool {
        self@.samples.len() == LATENCY_SAMPLE_SIZE
    }

    /// A buffer of zeros with nothing recorded.
    pub fn new() -> (r: Self)
        ensures
            r.wf(),
            r@ == initial_latency(),
    {
        let mut samples: Vec<u64> = Vec::new();
        let mut i: usize = 0;
        while i < LATENCY_SAMPLE_SIZE
            invariant
                i <= LATENCY_SAMPLE_SIZE,
                samples@ == Seq::new(i as nat, |k: int| 0u64),
            decreases LATENCY_SAMPLE_SIZE - i,
        {
            samples.push(0);
            proof {
                assert(samples@ =~= Seq::new((i + 1) as nat, |k: int| 0u64));
            }
            i += 1;
        }
        Self {
            samples,
            write_index: 0,
            count: 0,
            cached_p50: 0,
            cached_p95: 0,
            cached_p99: 0,
            scratch_buffer: Vec::new(),
        }
    }

    /// Records a sample at the write index reduced to the buffer, and moves
    /// the index and the count on. Both wrap around.
    pub fn record(&mut self, latency_us: u64)
        requires
            old(self).wf(),
        ensures
            final(self).wf(),
            final(self)@ == latency_recorded(old(self)@, latency_us),
    {
        let w = self.write_index;
        let index = w & LATENCY_SAMPLE_MASK;
        proof {
            let x = w as u64;
            assert(x & 2047 == x % 2048) by (bit_vector);
            assert(w & 2047usize == (x & 2047) as usize) by (bit_vector)
                requires
                    x == w as u64,
            ;
        }
        self.samples.set(index, latency_us);
        self.write_index = w.wrapping_add(1);
        self.count = self.count.wrapping_add(1);
    }

    /// The percentiles 50, 95 and 99 as they were last refreshed.
    pub fn get_cached_percentiles(&self) -> (r: (u64, u64, u64))
        ensures
            r == (self@.p50, self@.p95, self@.p99),
    {
        (self.cached_p50, self.cached_p95, self.cached_p99)
    }

    /// Refreshes the cached percentiles from the live samples: the first
    /// `count` slots, or all once the buffer is full. With fewer than ten
    /// samples the cache stays as it is.
    pub fn update_percentiles(&mut self)
        requires
            old(self).wf(),
        ensures
            final(self).wf(),
            final(self)@.samples == old(self)@.samples,
            final(self)@.write_index == old(self)@.write_index,
            final(self)@.count == old(self)@.count,
            live_samples(old(self)@) < MIN_PERCENTILE_SAMPLES ==> final(self)@ == old(self)@,
            live_samples(old(self)@) >= MIN_PERCENTILE_SAMPLES ==> {
                let len = live_samples(old(self)@);
                let live = old(self)@.samples.take(len as int);
                &&& is_order_statistic(live, percentile_rank(len, 99), final(self)@.p99)
                &&& is_order_statistic(live, percentile_rank(len, 95), final(self)@.p95)
                &&& is_order_statistic(live, len as int / 2, final(self)@.p50)
            },
    {
        let len: usize = if self.count < LATENCY_SAMPLE_SIZE as u64 {
            self.count as usize
        } else {
            LATENCY_SAMPLE_SIZE
        };
        if len < MIN_PERCENTILE_SAMPLES {
            return ;
        }
        let ghost live = self.samples@.take(len as int);
        let mut scratch: Vec<u64> = Vec::new();
        core::mem::swap(&mut scratch, &mut self.scratch_buffer);
        scratch.clear();
        let mut i: usize = 0;
        while i < len
            invariant
                i <= len <= self.samples@.len(),
                live == self.samples@.take(len as int),
                scratch@ == live.take(i as int),
            decreases len - i,
        {
            scratch.push(self.samples[i]);
            proof {
                assert(live.take(i as int + 1) == live.take(i as int).push(live[i as int]));
            }
            i += 1;
        }
        proof {
            assert(live.take(len as int) == live);
        }
        let p99_idx = if len * 99 / 100 < len - 1 {
            len * 99 / 100
        } else {
            len - 1
        };
        let p99 = select_nth(&mut scratch, p99_idx);
        proof {
            assert(scratch@.to_multiset() == live.to_multiset());
            assert(is_order_statistic(live, p99_idx as int, p99));
        }
        let p95_idx = if len * 95 / 100 < len - 1 {
            len * 95 / 100
        } else {
            len - 1
        };
        let p95 = select_nth(&mut scratch, p95_idx);
        proof {
            assert(scratch@.to_multiset() == live.to_multiset());
            assert(is_order_statistic(live, p95_idx as int, p95));
        }
        let p50_idx = len / 2;
        let p50 = select_nth(&mut scratch, p50_idx);
        proof {
            assert(scratch@.to_multiset() == live.to_multiset());
            assert(is_order_statistic(live, p50_idx as int, p50));
        }
        self.cached_p50 = p50;
        self.cached_p95 = p95;
        self.cached_p99 = p99;
        self.scratch_buffer = scratch;
    }
}

/// The latest readings of the process's memory and processor use, kept as
/// the bit patterns of their floating-point values so that they can be
/// stored in plain words.
#[derive(Debug, Clone, Copy, PartialEq, Eq, Structural)]
pub struct SystemMetricsCache {
    pub memory_used_mb_bits: u64,
    pub memory_rss_mb_bits: u64,
    pub cpu_usage_percent_bits: u64,
}

impl SystemMetricsCache {
    /// A cache of three zeros: the bit pattern of `0.0` is zero.
    pub fn new() -> (r: Self)
        ensures
            r == (SystemMetricsCache {
                memory_used_mb_bits: 0,
                memory_rss_mb_bits: 0,
                cpu_usage_percent_bits: 0,
            }),
    {
        Self { memory_used_mb_bits: 0, memory_rss_mb_bits: 0, cpu_usage_percent_bits: 0 }
    }

    /// The three readings: memory in use, resident memory, processor use.
    pub fn get(&self) -> (r: (u64, u64, u64))
        ensures
            r == (self.memory_used_mb_bits, self.memory_rss_mb_bits, self.cpu_usage_percent_bits),
    {
        (self.memory_used_mb_bits, self.memory_rss_mb_bits, self.cpu_usage_percent_bits)
    }

    /// Stores new readings.
    pub fn update(&mut self, memory_used_mb_bits: u64, memory_rss_mb_bits: u64, cpu_usage_percent_bits: u64)
        ensures
            *final(self) == (SystemMetricsCache {
                memory_used_mb_bits,
                memory_rss_mb_bits,
                cpu_usage_percent_bits,
            }),
    {
        self.memory_used_mb_bits = memory_used_mb_bits;
        self.memory_rss_mb_bits = memory_rss_mb_bits;
        self.cpu_usage_percent_bits = cpu_usage_percent_bits;
    }
}

/// `a + b` as the counters add: wrapping around at 2^64.
pub open spec fn wrap_add(a: u64, b: u64) -> u64 {
    if a + b > u64::MAX {
        (a + b - 0x1_0000_0000_0000_0000) as u64
    } else {
        (a + b) as u64
    }
}

/// `a - b` as the counters subtract: wrapping around at zero.
pub open spec fn wrap_sub(a: u64, b: u64) -> u64 {
    if a < b {
        (a - b + 0x1_0000_0000_0000_0000) as u64
    } else {
        (a - b) as u64
    }
}

/// Events per second for `delta` events in `elapsed_us` microseconds,
/// rounded down and held to 64 bits; zero where no time has passed.
pub open spec fn rate_per_second(delta: u64, elapsed_us: u64) -> u64 {
    if elapsed_us == 0 {
        0
    } else if delta * 1_000_000 / (elapsed_us as int) > u64::MAX {
        u64::MAX
    } else {
        (delta * 1_000_000 / (elapsed_us as int)) as u64
    }
}

/// Events per second for `delta` events in `elapsed_us` microseconds.
pub fn rate(delta: u64, elapsed_us: u64) -> (r: u64)
    ensures
        r == rate_per_second(delta, elapsed_us),
{
    if elapsed_us == 0 {
        return 0;
    }
    let scaled: u128 = delta as u128 * 1_000_000u128;
    let per_second: u128 = scaled / (elapsed_us as u128);
    if per_second > u64::MAX as u128 {
        u64::MAX
    } else {
        per_second as u64
    }
}

/// The content of a metrics collector. Times are in microseconds on the
/// caller's clock.
pub struct CollectorModel {
    pub message_count: u64,
    pub latency: LatencyModel,
    pub latency_sum_us: u64,
    pub latency_count: u64,
    pub bytes_received: u64,
    pub ws_reconnects: u64,
    pub active_connections: u64,
    pub start_us: u64,
    pub last_reset_us: u64,
    pub last_message_count: u64,
    pub last_bytes_received: u64,
    pub system: SystemMetricsCache,
}

/// The collector after the latency of a message was recorded: in the sum
/// and count of the running average and in the ring buffer.
pub open spec fn collector_recorded(m: CollectorModel, latency_us: u64) -> CollectorModel {
    CollectorModel {
        latency_sum_us: wrap_add(m.latency_sum_us, latency_us),
        latency_count: wrap_add(m.latency_count, 1),
        latency: latency_recorded(m.latency, latency_us),
        ..m
    }
}

/// The aggregate that a collector gives at `now_us`.
pub open spec fn metrics_of(m: CollectorModel, now_us: u64) -> Metrics {
    let elapsed = if now_us >= m.last_reset_us {
        (now_us - m.last_reset_us) as u64
    } else {
        0
    };
    Metrics {
        messages_per_second: rate_per_second(
            wrap_sub(m.message_count, m.last_message_count),
            elapsed,
        ),
        bytes_per_second: rate_per_second(
            wrap_sub(m.bytes_received, m.last_bytes_received),
            elapsed,
        ),
        latency_sum_us: m.latency_sum_us,
        latency_samples: m.latency_count,
        latency_p50_us: m.latency.p50,
        latency_p95_us: m.latency.p95,
        latency_p99_us: m.latency.p99,
        total_messages: m.message_count,
        uptime_seconds: if now_us >= m.start_us {
            ((now_us - m.start_us) / 1_000_000) as u64
        } else {
            0
        },
        memory_used_mb_bits: m.system.memory_used_mb_bits,
        memory_rss_mb_bits: m.system.memory_rss_mb_bits,
        cpu_usage_percent_bits: m.system.cpu_usage_percent_bits,
        active_connections: (m.active_connections % 0x1_0000_0000) as u32,
        websocket_reconnects: m.ws_reconnects,
        bytes_received: m.bytes_received,
    }
}

/// The collector after it gave its aggregate at `now_us`: the rates start
/// anew from the present counts, the latency sum and count from zero.
pub open spec fn after_compute(m: CollectorModel, now_us: u64) -> CollectorModel {
    CollectorModel {
        last_message_count: m.message_count,
        last_bytes_received: m.bytes_received,
        latency_sum_us: 0,
        latency_count: 0,
        last_reset_us: now_us,
        ..m
    }
}

/// A buffer of zeros with nothing recorded.
pub open spec fn initial_latency() -> LatencyModel {
    LatencyModel {
        samples: Seq::new(LATENCY_SAMPLE_SIZE as nat, |i: int| 0u64),
        write_index: 0,
        count: 0,
        p50: 0,
        p95: 0,
        p99: 0,
    }
}

/// A collector that starts at `now_us` with every counter at zero.
pub open spec fn initial_collector(now_us: u64) -> CollectorModel {
    CollectorModel {
        message_count: 0,
        latency: initial_latency(),
        latency_sum_us: 0,
        latency_count: 0,
        bytes_received: 0,
        ws_reconnects: 0,
        active_connections: 0,
        start_us: now_us,
        last_reset_us: now_us,
        last_message_count: 0,
        last_bytes_received: 0,
        system: SystemMetricsCache {
            memory_used_mb_bits: 0,
            memory_rss_mb_bits: 0,
            cpu_usage_percent_bits: 0,
        },
    }
}

/// The counters from which the periodic aggregate is computed.
#[derive(Debug)]
pub struct MetricsCollector {
    global_message_count: u64,
    global_latency_buffer: LockFreeLatencyBuffer,
    global_latency_sum_us: u64,
    global_latency_count: u64,
    bytes_received: u64,
    ws_reconnects: u64,
    active_connections: u64,
    start_us: u64,
    last_reset_us: u64,
    last_message_count: u64,
    last_bytes_received: u64,
    system_cache: SystemMetricsCache,
}

impl View for MetricsCollector {
    type V = CollectorModel;

    closed spec fn view(&self) -> CollectorModel {
        CollectorModel {
            message_count: self.global_message_count,
            latency: self.global_latency_buffer@,
            latency_sum_us: self.global_latency_sum_us,
            latency_count: self.global_latency_count,
            bytes_received: self.bytes_received,
            ws_reconnects: self.ws_reconnects,
            active_connections: self.active_connections,
            start_us: self.start_us,
            last_reset_us: self.last_reset_us,
            last_message_count: self.last_message_count,
            last_bytes_received: self.last_bytes_received,
            system: self.system_cache,
        }
    }
}

impl MetricsCollector {
/// The invariant of a collector: that of its latency buffer.
    pub open spec fn wf(&self) -> bool {
        self@.latency.samples.len() == LATENCY_SAMPLE_SIZE
    }

    /// A collector that starts at `now_us` with every counter at zero.
    pub fn new(now_us: u64) -> (r: Self)
        ensures
            r.wf(),
            r@ == initial_collector(now_us),
    {
        Self {
            global_message_count: 0,
            global_latency_buffer: LockFreeLatencyBuffer::new(),
            global_latency_sum_us: 0,
            global_latency_count: 0,
            bytes_received: 0,
            ws_reconnects: 0,
            active_connections: 0,
            start_us: now_us,
            last_reset_us: now_us,
            last_message_count: 0,
            last_bytes_received: 0,
            system_cache: SystemMetricsCache::new(),
        }
    }

    /// Counts one message.
    pub fn record_message(&mut self)
        ensures
            final(self)@ == (CollectorModel {
                message_count: wrap_add(old(self)@.message_count, 1),
                ..old(self)@
            }),
    {
        self.global_message_count = self.global_message_count.wrapping_add(1);
    }

    /// Counts `bytes` received bytes.
    pub fn record_bytes(&mut self, bytes: u64)
        ensures
            final(self)@ == (CollectorModel {
                bytes_received: wrap_add(old(self)@.bytes_received, bytes),
                ..old(self)@
            }),
    {
        self.bytes_received = self.bytes_received.wrapping_add(bytes);
    }

    /// Counts one reconnection of a venue.
    pub fn record_reconnect(&mut self)
        ensures
            final(self)@ == (CollectorModel {
                ws_reconnects: wrap_add(old(self)@.ws_reconnects, 1),
                ..old(self)@
            }),
    {
        self.ws_reconnects = self.ws_reconnects.wrapping_add(1);
    }

    /// Counts one more subscriber.
    pub fn increment_connections(&mut self)
        ensures
            final(self)@ == (CollectorModel {
                active_connections: wrap_add(old(self)@.active_connections, 1),
                ..old(self)@
            }),
    {
        self.active_connections = self.active_connections.wrapping_add(1);
    }

    /// Counts one subscriber less.
    pub fn decrement_connections(&mut self)
        ensures
            final(self)@ == (CollectorModel {
                active_connections: wrap_sub(old(self)@.active_connections, 1),
                ..old(self)@
            }),
    {
        self.active_connections = self.active_connections.wrapping_sub(1);
    }

    /// Records the latency of one message, in microseconds: into the sum
    /// and count of the running average and into the ring buffer.
    pub fn record_latency(&mut self, latency_us: u64)
        requires
            old(self).wf(),
        ensures
            final(self).wf(),
            final(self)@ == collector_recorded(old(self)@, latency_us),
    {
        self.global_latency_sum_us = self.global_latency_sum_us.wrapping_add(latency_us);
        self.global_latency_count = self.global_latency_count.wrapping_add(1);
        self.global_latency_buffer.record(latency_us);
    }

    /// Gives the aggregate at `now_us` and starts the next period: rates
    /// over the time since the last aggregate, the latency sum and count
    /// since then, the cached percentiles and system readings, the totals.
    pub fn compute_metrics(&mut self, now_us: u64) -> (r: Metrics)
        ensures
            r == metrics_of(old(self)@, now_us),
            final(self)@ == after_compute(old(self)@, now_us),
    {
        let elapsed = if now_us >= self.last_reset_us {
            now_us - self.last_reset_us
        } else {
            0
        };
        let current_messages = self.global_message_count;
        let current_bytes = self.bytes_received;
        let prev_messages = self.last_message_count;
        let prev_bytes = self.last_bytes_received;
        self.last_message_count = current_messages;
        self.last_bytes_received = current_bytes;
        let latency_sum = self.global_latency_sum_us;
        let latency_count = self.global_latency_count;
        self.global_latency_sum_us = 0;
        self.global_latency_count = 0;
        let (p50, p95, p99) = self.global_latency_buffer.get_cached_percentiles();
        let (memory_used_mb_bits, memory_rss_mb_bits, cpu_usage_percent_bits) =
            self.system_cache.get();
        self.last_reset_us = now_us;
        Metrics {
            messages_per_second: rate(current_messages.wrapping_sub(prev_messages), elapsed),
            bytes_per_second: rate(current_bytes.wrapping_sub(prev_bytes), elapsed),
            latency_sum_us: latency_sum,
            latency_samples: latency_count,
            latency_p50_us: p50,
            latency_p95_us: p95,
            latency_p99_us: p99,
            total_messages: current_messages,
            uptime_seconds: if now_us >= self.start_us {
                (now_us - self.start_us) / 1_000_000
            } else {
                0
            },
            memory_used_mb_bits,
            memory_rss_mb_bits,
            cpu_usage_percent_bits,
            active_connections: (self.active_connections % 0x1_0000_0000) as u32,
            websocket_reconnects: self.ws_reconnects,
            bytes_received: current_bytes,
        }
    }

    /// Stores new readings of the process's memory and processor use.
    pub fn update_system_metrics(
        &mut self,
        memory_used_mb_bits: u64,
        memory_rss_mb_bits: u64,
        cpu_usage_percent_bits: u64,
    )
        ensures
            final(self)@ == (CollectorModel {
                system: SystemMetricsCache {
                    memory_used_mb_bits,
                    memory_rss_mb_bits,
                    cpu_usage_percent_bits,
                },
                ..old(self)@
            }),
    {
        self.system_cache.update(memory_used_mb_bits, memory_rss_mb_bits, cpu_usage_percent_bits);
    }

    /// Refreshes the cached latency percentiles.
    pub fn update_latency_percentiles(&mut self)
        requires
            old(self).wf(),
        ensures
            final(self).wf(),
            final(self)@.latency.samples == old(self)@.latency.samples,
            final(self)@.latency.write_index == old(self)@.latency.write_index,
            final(self)@.latency.count == old(self)@.latency.count,
            final(self)@ == (CollectorModel { latency: final(self)@.latency, ..old(self)@ }),
            live_samples(old(self)@.latency) < MIN_PERCENTILE_SAMPLES ==> final(self)@ == old(
                self,
            )@,
            live_samples(old(self)@.latency) >= MIN_PERCENTILE_SAMPLES ==> {
                let len = live_samples(old(self)@.latency);
                let live = old(self)@.latency.samples.take(len as int);
                &&& is_order_statistic(live, percentile_rank(len, 99), final(self)@.latency.p99)
                &&& is_order_statistic(live, percentile_rank(len, 95), final(self)@.latency.p95)
                &&& is_order_statistic(live, len as int / 2, final(self)@.latency.p50)
            },
    {
        self.global_latency_buffer.update_percentiles();
    }
}

} // verus!
