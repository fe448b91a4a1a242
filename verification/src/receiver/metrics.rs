//! Presentation metrics of the receiver, gathered over fixed windows.
use vstd::prelude::*;
use std::time::Instant;
use crate::clock::{micros_since, monotonic_now};

verus! {

/// What the tasks report to the metrics task.
#[derive(Debug, Clone, Copy)]
pub enum MetricEvent {
    FramePresented {
        latency_micros: u64,
        queue_latency_micros: u64,
        decode_latency_micros: u64,
        queue_depth: usize,
        dropped_total: u64,
    },
    FrameDropped { count: u64 },
}

/// The totals of one closed window, from which rates and means are derived.
#[derive(Debug, Clone, Copy, PartialEq, Eq, Structural)]
pub struct ReceiverWindow {
    pub frames: u64,
    pub dropped: u64,
    pub queue_depth: usize,
    pub window_micros: u64,
    pub latency_total_micros: u64,
    pub latency_max_micros: u64,
    pub queue_total_micros: u64,
    pub queue_max_micros: u64,
    pub decode_total_micros: u64,
    pub decode_max_micros: u64,
}

/// The counts of the window in progress.
#[derive(Debug, Clone, Copy, PartialEq, Eq, Structural)]
pub struct WindowCounts {
    pub frames: u64,
    pub dropped: u64,
    pub latency_total_micros: u64,
    pub latency_max_micros: u64,
    pub queue_total_micros: u64,
    pub queue_max_micros: u64,
    pub decode_total_micros: u64,
    pub decode_max_micros: u64,
    pub last_queue_depth: usize,
}

pub open spec fn zero_counts() -> WindowCounts {
    WindowCounts {
        frames: 0,
        dropped: 0,
        latency_total_micros: 0,
        latency_max_micros: 0,
        queue_total_micros: 0,
        queue_max_micros: 0,
        decode_total_micros: 0,
        decode_max_micros: 0,
        last_queue_depth: 0,
    }
}

pub open spec fn max_u64(a: u64, b: u64) -> u64 {
    if a > b { a } else { b }
}

/// The counts after a frame was presented.
pub open spec fn presented_counts(c: WindowCounts, latency: u64, queue: u64, decode: u64, depth: usize, dropped_total: u64) -> WindowCounts {
    WindowCounts {
        frames: if c.frames == u64::MAX { u64::MAX } else { (c.frames + 1) as u64 },
        dropped: dropped_total,
        latency_total_micros: (c.latency_total_micros + latency) as u64,
        latency_max_micros: max_u64(latency, c.latency_max_micros),
        queue_total_micros: (c.queue_total_micros + queue) as u64,
        queue_max_micros: max_u64(queue, c.queue_max_micros),
        decode_total_micros: (c.decode_total_micros + decode) as u64,
        decode_max_micros: max_u64(decode, c.decode_max_micros),
        last_queue_depth: depth,
    }
}

/// The counts after each frame of `frames` was presented, in turn; a frame
/// is its latency, queue latency, decode latency, the queue depth and the
/// drop total reported with it.
pub open spec fn presented_all(c: WindowCounts, frames: Seq<(u64, u64, u64, usize, u64)>) -> WindowCounts
    decreases frames.len(),
{
    if frames.len() == 0 {
        c
    } else {
        let (l, q, d, depth, dropped) = frames.last();
        presented_counts(presented_all(c, frames.drop_last()), l, q, d, depth, dropped)
    }
}

/// The sums of the latency, queue latency and decode latency of `frames`.
pub open spec fn latency_sums(frames: Seq<(u64, u64, u64, usize, u64)>) -> (int, int, int)
    decreases frames.len(),
{
    if frames.len() == 0 {
        (0, 0, 0)
    } else {
        let (l, q, d) = latency_sums(frames.drop_last());
        (l + frames.last().0, q + frames.last().1, d + frames.last().2)
    }
}

proof fn lemma_latency_sums_grow(frames: Seq<(u64, u64, u64, usize, u64)>)
    ensures
        latency_sums(frames).0 >= 0,
        latency_sums(frames).1 >= 0,
        latency_sums(frames).2 >= 0,
    decreases frames.len(),
{
    if frames.len() > 0 {
        lemma_latency_sums_grow(frames.drop_last());
    }
}

/// What a window adds up: from a fresh window, while the sums fit, each
/// total is the sum of the matching latencies of the frames presented.
pub proof fn lemma_window_totals(frames: Seq<(u64, u64, u64, usize, u64)>)
    requires
        latency_sums(frames).0 <= u64::MAX,
        latency_sums(frames).1 <= u64::MAX,
        latency_sums(frames).2 <= u64::MAX,
    ensures
        presented_all(zero_counts(), frames).latency_total_micros == latency_sums(frames).0,
        presented_all(zero_counts(), frames).queue_total_micros == latency_sums(frames).1,
        presented_all(zero_counts(), frames).decode_total_micros == latency_sums(frames).2,
    decreases frames.len(),
{
    if frames.len() > 0 {
        let rest = frames.drop_last();
        lemma_latency_sums_grow(rest);
        lemma_window_totals(rest);
        let f = frames.last();
        assert(presented_all(zero_counts(), frames) == presented_counts(presented_all(zero_counts(), rest), f.0, f.1, f.2, f.3, f.4));
    }
}

/// What a window records of the frames presented in it: each maximum is at
/// least the matching latency of every frame and is the latency of one of
/// them; the frames are counted; the queue depth and drop total are the
/// last ones reported.
pub proof fn lemma_window_records_frames(frames: Seq<(u64, u64, u64, usize, u64)>)
    requires
        frames.len() > 0,
    ensures
        ({
            let c = presented_all(zero_counts(), frames);
            &&& forall|i: int| 0 <= i < frames.len() ==> {
                &&& c.latency_max_micros >= (#[trigger] frames[i]).0
                &&& c.queue_max_micros >= frames[i].1
                &&& c.decode_max_micros >= frames[i].2
            }
            &&& exists|i: int| 0 <= i < frames.len() && c.latency_max_micros == (#[trigger] frames[i]).0
            &&& exists|i: int| 0 <= i < frames.len() && c.queue_max_micros == (#[trigger] frames[i]).1
            &&& exists|i: int| 0 <= i < frames.len() && c.decode_max_micros == (#[trigger] frames[i]).2
            &&& c.frames == if frames.len() >= u64::MAX { u64::MAX as int } else { frames.len() as int }
            &&& c.last_queue_depth == frames.last().3
            &&& c.dropped == frames.last().4
        }),
    decreases frames.len(),
{
    let rest = frames.drop_last();
    let c = presented_all(zero_counts(), frames);
    let f = frames.last();
    assert(frames[frames.len() - 1] == f);
    assert(c == presented_counts(presented_all(zero_counts(), rest), f.0, f.1, f.2, f.3, f.4));
    assert(c.dropped == f.4);
    if rest.len() == 0 {
        assert forall|i: int| 0 <= i < frames.len() implies {
            &&& c.latency_max_micros >= (#[trigger] frames[i]).0
            &&& c.queue_max_micros >= frames[i].1
            &&& c.decode_max_micros >= frames[i].2
        } by {
            assert(i == 0);
        }
    } else {
        lemma_window_records_frames(rest);
        let p = presented_all(zero_counts(), rest);
        assert forall|i: int| 0 <= i < frames.len() implies {
            &&& c.latency_max_micros >= (#[trigger] frames[i]).0
            &&& c.queue_max_micros >= frames[i].1
            &&& c.decode_max_micros >= frames[i].2
        } by {
            if i < rest.len() {
                assert(rest[i] == frames[i]);
            }
        }
        if c.latency_max_micros != f.0 {
            let j = choose|j: int| 0 <= j < rest.len() && p.latency_max_micros == (#[trigger] rest[j]).0;
            assert(rest[j] == frames[j]);
        }
        if c.queue_max_micros != f.1 {
            let j = choose|j: int| 0 <= j < rest.len() && p.queue_max_micros == (#[trigger] rest[j]).1;
            assert(rest[j] == frames[j]);
        }
        if c.decode_max_micros != f.2 {
            let j = choose|j: int| 0 <= j < rest.len() && p.decode_max_micros == (#[trigger] rest[j]).2;
            assert(rest[j] == frames[j]);
        }
    }
}

/// The window that closes with counts `c` after `elapsed` microseconds.
pub open spec fn window_of(c: WindowCounts, elapsed: u64) -> ReceiverWindow {
    ReceiverWindow {
        frames: c.frames,
        dropped: c.dropped,
        queue_depth: c.last_queue_depth,
        window_micros: elapsed,
        latency_total_micros: c.latency_total_micros,
        latency_max_micros: c.latency_max_micros,
        queue_total_micros: c.queue_total_micros,
        queue_max_micros: c.queue_max_micros,
        decode_total_micros: c.decode_total_micros,
        decode_max_micros: c.decode_max_micros,
    }
}

/// The outcome of a measurement of the window against a clock: with no
/// window handed out the counts are `c`; a window handed out holds `c`, has
/// lasted at least the interval (and more than nothing), and a new one opens.
pub open spec fn clock_outcome(c: WindowCounts, interval: u64, w: Option<ReceiverWindow>, after: WindowCounts) -> bool {
    match w {
        None => after == c,
        Some(win) => {
            &&& win == window_of(c, win.window_micros)
            &&& win.window_micros >= interval
            &&& win.window_micros > 0
            &&& after == zero_counts()
        },
    }
}

/// Counts presented and dropped frames until a window has passed.
#[derive(Debug)]
pub struct MetricsCollector {
    interval_micros: u64,
    last_tick: Instant,
    counts: WindowCounts,
}

impl MetricsCollector {
    pub closed spec fn interval_spec(&self) -> u64 {
        self.interval_micros
    }

    pub closed spec fn counts_spec(&self) -> WindowCounts {
        self.counts
    }

    /// A collector with windows of `interval_micros` (100 ms when zero).
    pub fn new(interval_micros: u64) -> (c: Self)
        ensures
            c.interval_spec() == if interval_micros == 0 { 100_000 } else { interval_micros },
            c.counts_spec() == zero_counts(),
    {
        MetricsCollector {
            interval_micros: if interval_micros == 0 { 100_000 } else { interval_micros },
            last_tick: monotonic_now(),
            counts: WindowCounts {
                frames: 0,
                dropped: 0,
                latency_total_micros: 0,
                latency_max_micros: 0,
                queue_total_micros: 0,
                queue_max_micros: 0,
                decode_total_micros: 0,
                decode_max_micros: 0,
                last_queue_depth: 0,
            },
        }
    }

    /// The counts of the window in progress.
    pub fn counts(&self) -> (c: WindowCounts)
        ensures
            c == self.counts_spec(),
    {
        self.counts
    }

    pub fn interval(&self) -> (i: u64)
        ensures
            i == self.interval_spec(),
    {
        self.interval_micros
    }

    /// Closes the window when `elapsed_micros` reach the interval (and are
    /// not zero): its totals come back and a new window opens.
    fn snapshot_elapsed(&mut self, elapsed_micros: u64) -> (w: Option<ReceiverWindow>)
        ensures
            final(self).interval_spec() == old(self).interval_spec(),
            if elapsed_micros < old(self).interval_spec() || elapsed_micros == 0 {
                w is None && final(self).counts_spec() == old(self).counts_spec()
            } else {
                w == Some(window_of(old(self).counts_spec(), elapsed_micros)) && final(self).counts_spec() == zero_counts()
            },
    {
        if elapsed_micros < self.interval_micros || elapsed_micros == 0 {
            return None;
        }
        let window = ReceiverWindow {
            frames: self.counts.frames,
            dropped: self.counts.dropped,
            queue_depth: self.counts.last_queue_depth,
            window_micros: elapsed_micros,
            latency_total_micros: self.counts.latency_total_micros,
            latency_max_micros: self.counts.latency_max_micros,
            queue_total_micros: self.counts.queue_total_micros,
            queue_max_micros: self.counts.queue_max_micros,
            decode_total_micros: self.counts.decode_total_micros,
            decode_max_micros: self.counts.decode_max_micros,
        };
        self.last_tick = monotonic_now();
        self.counts = WindowCounts {
            frames: 0,
            dropped: 0,
            latency_total_micros: 0,
            latency_max_micros: 0,
            queue_total_micros: 0,
            queue_max_micros: 0,
            decode_total_micros: 0,
            decode_max_micros: 0,
            last_queue_depth: 0,
        };
        Some(window)
    }

    /// Counts a presented frame `elapsed_micros` into the window.
    pub fn record_presented_elapsed(
        &mut self,
        latency_micros: u64,
        queue_latency_micros: u64,
        decode_latency_micros: u64,
        queue_depth: usize,
        dropped_total: u64,
        elapsed_micros: u64,
    ) -> (w: Option<ReceiverWindow>)
        requires
            old(self).counts_spec().latency_total_micros + latency_micros <= u64::MAX,
            old(self).counts_spec().queue_total_micros + queue_latency_micros <= u64::MAX,
            old(self).counts_spec().decode_total_micros + decode_latency_micros <= u64::MAX,
        ensures
            ({
                let c = presented_counts(
                    old(self).counts_spec(),
                    latency_micros,
                    queue_latency_micros,
                    decode_latency_micros,
                    queue_depth,
                    dropped_total,
                );
                &&& final(self).interval_spec() == old(self).interval_spec()
                &&& if elapsed_micros < old(self).interval_spec() || elapsed_micros == 0 {
                    w is None && final(self).counts_spec() == c
                } else {
                    w == Some(window_of(c, elapsed_micros)) && final(self).counts_spec() == zero_counts()
                }
            }),
    {
        self.counts.frames = self.counts.frames.saturating_add(1);
        self.counts.latency_total_micros = self.counts.latency_total_micros + latency_micros;
        if latency_micros > self.counts.latency_max_micros {
            self.counts.latency_max_micros = latency_micros;
        }
        self.counts.queue_total_micros = self.counts.queue_total_micros + queue_latency_micros;
        if queue_latency_micros > self.counts.queue_max_micros {
            self.counts.queue_max_micros = queue_latency_micros;
        }
        self.counts.decode_total_micros = self.counts.decode_total_micros + decode_latency_micros;
        if decode_latency_micros > self.counts.decode_max_micros {
            self.counts.decode_max_micros = decode_latency_micros;
        }
        self.counts.last_queue_depth = queue_depth;
        self.counts.dropped = dropped_total;
        self.snapshot_elapsed(elapsed_micros)
    }

    /// Counts a presented frame, measuring the window against the monotonic clock.
    pub fn record_presented(
        &mut self,
        latency_micros: u64,
        queue_latency_micros: u64,
        decode_latency_micros: u64,
        queue_depth: usize,
        dropped_total: u64,
    ) -> (w: Option<ReceiverWindow>)
        requires
            old(self).counts_spec().latency_total_micros + latency_micros <= u64::MAX,
            old(self).counts_spec().queue_total_micros + queue_latency_micros <= u64::MAX,
            old(self).counts_spec().decode_total_micros + decode_latency_micros <= u64::MAX,
        ensures
            final(self).interval_spec() == old(self).interval_spec(),
            clock_outcome(
                presented_counts(
                    old(self).counts_spec(),
                    latency_micros,
                    queue_latency_micros,
                    decode_latency_micros,
                    queue_depth,
                    dropped_total,
                ),
                old(self).interval_spec(),
                w,
                final(self).counts_spec(),
            ),
    {
        let elapsed = micros_since(&self.last_tick);
        self.record_presented_elapsed(latency_micros, queue_latency_micros, decode_latency_micros, queue_depth, dropped_total, elapsed)
    }

    /// Counts `count` dropped frames `elapsed_micros` into the window.
    pub fn record_dropped_elapsed(&mut self, count: u64, elapsed_micros: u64) -> (w: Option<ReceiverWindow>)
        ensures
            ({
                let o = old(self).counts_spec();
                let c = WindowCounts {
                    dropped: if o.dropped + count > u64::MAX { u64::MAX } else { (o.dropped + count) as u64 },
                    ..o
                };
                &&& final(self).interval_spec() == old(self).interval_spec()
                &&& if elapsed_micros < old(self).interval_spec() || elapsed_micros == 0 {
                    w is None && final(self).counts_spec() == c
                } else {
                    w == Some(window_of(c, elapsed_micros)) && final(self).counts_spec() == zero_counts()
                }
            }),
    {
        self.counts.dropped = self.counts.dropped.saturating_add(count);
        self.snapshot_elapsed(elapsed_micros)
    }

    /// Counts dropped frames, measuring the window against the monotonic clock.
    pub fn record_dropped(&mut self, count: u64) -> (w: Option<ReceiverWindow>)
        ensures
            final(self).interval_spec() == old(self).interval_spec(),
            clock_outcome(
                WindowCounts {
                    dropped: if old(self).counts_spec().dropped + count > u64::MAX {
                        u64::MAX
                    } else {
                        (old(self).counts_spec().dropped + count) as u64
                    },
                    ..old(self).counts_spec()
                },
                old(self).interval_spec(),
                w,
                final(self).counts_spec(),
            ),
    {
        let elapsed = micros_since(&self.last_tick);
        self.record_dropped_elapsed(count, elapsed)
    }
}

} // verus!
