//! Throughput metrics of the sender, gathered over fixed windows.
use vstd::prelude::*;
use std::time::Instant;
use crate::clock::{micros_since, monotonic_now};

verus! {

/// What the pipeline reports to the metrics task.
#[derive(Debug, Clone, Copy)]
pub enum MetricEvent {
    Frame { encode_latency_micros: u64 },
    CaptureError,
}

/// The totals of one closed window, from which rates are derived.
#[derive(Debug, Clone, Copy, PartialEq, Eq, Structural)]
pub struct MetricsWindow {
    pub frames: u64,
    pub errors: u64,
    pub window_micros: u64,
    pub encode_total_micros: u64,
    pub encode_max_micros: u64,
}

/// The largest encode time of a window after a frame that took `latency`
/// joined a window whose largest was `max`.
pub open spec fn max_after(max: u64, latency: u64) -> u64 {
    if latency > max { latency } else { max }
}

/// The largest encode time after each of `latencies` joined a window whose
/// largest was `max`, in turn.
pub open spec fn max_after_all(max: u64, latencies: Seq<u64>) -> u64
    decreases latencies.len(),
{
    if latencies.len() == 0 {
        max
    } else {
        max_after(max_after_all(max, latencies.drop_last()), latencies.last())
    }
}

/// What a window records as its largest encode time: from a fresh window,
/// after frames with `latencies` were counted, it is at least each of them
/// and is one of them.
pub proof fn lemma_window_max_encode(latencies: Seq<u64>)
    requires
        latencies.len() > 0,
    ensures
        forall|i: int| 0 <= i < latencies.len() ==> max_after_all(0, latencies) >= #[trigger] latencies[i],
        exists|i: int| 0 <= i < latencies.len() && max_after_all(0, latencies) == #[trigger] latencies[i],
    decreases latencies.len(),
{
    let rest = latencies.drop_last();
    let m = max_after_all(0, latencies);
    let last = latencies.last();
    assert(latencies[latencies.len() - 1] == last);
    assert(m == max_after(max_after_all(0, rest), last));
    if rest.len() == 0 {
        assert(max_after_all(0, rest) == 0);
        assert forall|i: int| 0 <= i < latencies.len() implies m >= #[trigger] latencies[i] by {
            assert(i == 0);
        }
    } else {
        lemma_window_max_encode(rest);
        assert forall|i: int| 0 <= i < latencies.len() implies m >= #[trigger] latencies[i] by {
            if i < rest.len() {
                assert(rest[i] == latencies[i]);
            }
        }
        if m != last {
            let j = choose|j: int| 0 <= j < rest.len() && max_after_all(0, rest) == #[trigger] rest[j];
            assert(rest[j] == latencies[j]);
        }
    }
}

/// The sum of `latencies`.
pub open spec fn latency_sum(latencies: Seq<u64>) -> int
    decreases latencies.len(),
{
    if latencies.len() == 0 { 0 } else { latency_sum(latencies.drop_last()) + latencies.last() }
}

/// The encode total of a window after a frame that took `latency` joined a
/// window whose total was `total`.
pub open spec fn total_after(total: u64, latency: u64) -> u64 {
    (total + latency) as u64
}

/// The encode total after each of `latencies` joined a window whose total
/// was `total`, in turn, as the collector adds them.
pub open spec fn total_after_all(total: u64, latencies: Seq<u64>) -> u64
    decreases latencies.len(),
{
    if latencies.len() == 0 {
        total
    } else {
        total_after(total_after_all(total, latencies.drop_last()), latencies.last())
    }
}

proof fn lemma_latency_sum_grows(latencies: Seq<u64>)
    ensures
        latency_sum(latencies) >= 0,
    decreases latencies.len(),
{
    if latencies.len() > 0 {
        lemma_latency_sum_grows(latencies.drop_last());
    }
}

/// What a window adds up: from a fresh window, while the sum fits, the
/// encode total is the sum of the encode times counted.
pub proof fn lemma_window_encode_total(latencies: Seq<u64>)
    requires
        latency_sum(latencies) <= u64::MAX,
    ensures
        total_after_all(0, latencies) == latency_sum(latencies),
    decreases latencies.len(),
{
    if latencies.len() > 0 {
        lemma_latency_sum_grows(latencies.drop_last());
        lemma_window_encode_total(latencies.drop_last());
    }
}

/// Counts frames, encode time and errors until a window has passed.
#[derive(Debug)]
pub struct MetricsCollector {
    interval_micros: u64,
    last_tick: Instant,
    frame_counter: u64,
    encode_total_micros: u64,
    encode_max_micros: u64,
    error_counter: u64,
}

/// The counts of the window in progress.
pub struct CollectorView {
    pub interval_micros: u64,
    pub frame_counter: u64,
    pub encode_total_micros: u64,
    pub encode_max_micros: u64,
    pub error_counter: u64,
}

impl View for MetricsCollector {
    type V = CollectorView;

    closed spec fn view(&self) -> CollectorView {
        CollectorView {
            interval_micros: self.interval_micros,
            frame_counter: self.frame_counter,
            encode_total_micros: self.encode_total_micros,
            encode_max_micros: self.encode_max_micros,
            error_counter: self.error_counter,
        }
    }
}

impl MetricsCollector {
    /// A collector with windows of `interval_micros` (100 ms when zero).
    pub fn new(interval_micros: u64) -> (c: Self)
        ensures
            c@.interval_micros == if interval_micros == 0 { 100_000 } else { interval_micros },
            c@.frame_counter == 0,
            c@.encode_total_micros == 0,
            c@.encode_max_micros == 0,
            c@.error_counter == 0,
    {
        MetricsCollector {
            interval_micros: if interval_micros == 0 { 100_000 } else { interval_micros },
            last_tick: monotonic_now(),
            frame_counter: 0,
            encode_total_micros: 0,
            encode_max_micros: 0,
            error_counter: 0,
        }
    }

    /// Counts a frame that took `encode_latency_micros` to encode, and closes
    /// the window when `elapsed_micros` since it opened reach the interval:
    /// its totals come back and a new window opens.
    pub fn record_frame_elapsed(&mut self, encode_latency_micros: u64, elapsed_micros: u64) -> (w: Option<MetricsWindow>)
        requires
            old(self)@.encode_total_micros + encode_latency_micros <= u64::MAX,
        ensures
            ({
                let o = old(self)@;
                let frames = if o.frame_counter == u64::MAX { u64::MAX } else { (o.frame_counter + 1) as u64 };
                let total = total_after(o.encode_total_micros, encode_latency_micros);
                let max = max_after(o.encode_max_micros, encode_latency_micros);
                &&& final(self)@.interval_micros == o.interval_micros
                &&& if elapsed_micros >= o.interval_micros && elapsed_micros > 0 {
                    &&& w == Some(MetricsWindow {
                        frames,
                        errors: o.error_counter,
                        window_micros: elapsed_micros,
                        encode_total_micros: total,
                        encode_max_micros: max,
                    })
                    &&& final(self)@.frame_counter == 0
                    &&& final(self)@.encode_total_micros == 0
                    &&& final(self)@.encode_max_micros == 0
                    &&& final(self)@.error_counter == 0
                } else {
                    &&& w is None
                    &&& final(self)@.frame_counter == frames
                    &&& final(self)@.encode_total_micros == total
                    &&& final(self)@.encode_max_micros == max
                    &&& final(self)@.error_counter == o.error_counter
                }
            }),
    {
        self.frame_counter = self.frame_counter.saturating_add(1);
        self.encode_total_micros = self.encode_total_micros + encode_latency_micros;
        if encode_latency_micros > self.encode_max_micros {
            self.encode_max_micros = encode_latency_micros;
        }
        if elapsed_micros >= self.interval_micros && elapsed_micros > 0 {
            let window = MetricsWindow {
                frames: self.frame_counter,
                errors: self.error_counter,
                window_micros: elapsed_micros,
                encode_total_micros: self.encode_total_micros,
                encode_max_micros: self.encode_max_micros,
            };
            self.reset_window();
            return Some(window);
        }
        None
    }

    /// Counts a frame, measuring the window against the monotonic clock.
    pub fn record_frame(&mut self, encode_latency_micros: u64) -> (w: Option<MetricsWindow>)
        requires
            old(self)@.encode_total_micros + encode_latency_micros <= u64::MAX,
        ensures
            ({
                let o = old(self)@;
                let frames = if o.frame_counter == u64::MAX { u64::MAX } else { (o.frame_counter + 1) as u64 };
                let total = total_after(o.encode_total_micros, encode_latency_micros);
                let max = max_after(o.encode_max_micros, encode_latency_micros);
                &&& final(self)@.interval_micros == o.interval_micros
                &&& match w {
                    Some(win) => {
                        &&& win == (MetricsWindow {
                            frames,
                            errors: o.error_counter,
                            window_micros: win.window_micros,
                            encode_total_micros: total,
                            encode_max_micros: max,
                        })
                        &&& win.window_micros >= o.interval_micros
                        &&& win.window_micros > 0
                        &&& final(self)@.frame_counter == 0
                        &&& final(self)@.encode_total_micros == 0
                        &&& final(self)@.encode_max_micros == 0
                        &&& final(self)@.error_counter == 0
                    },
                    None => {
                        &&& final(self)@.frame_counter == frames
                        &&& final(self)@.encode_total_micros == total
                        &&& final(self)@.encode_max_micros == max
                        &&& final(self)@.error_counter == o.error_counter
                    },
                }
            }),
    {
        let elapsed = micros_since(&self.last_tick);
        self.record_frame_elapsed(encode_latency_micros, elapsed)
    }

    /// Counts a capture error.
    pub fn record_error(&mut self)
        ensures
            final(self)@.error_counter == if old(self)@.error_counter == u64::MAX { u64::MAX } else {
                (old(self)@.error_counter + 1) as u64
            },
            final(self)@.frame_counter == old(self)@.frame_counter,
            final(self)@.encode_total_micros == old(self)@.encode_total_micros,
            final(self)@.encode_max_micros == old(self)@.encode_max_micros,
            final(self)@.interval_micros == old(self)@.interval_micros,
    {
        self.error_counter = self.error_counter.saturating_add(1);
    }

    /// The encode time counted in the window in progress, in microseconds.
    pub fn encode_total_micros(&self) -> (t: u64)
        ensures
            t == self@.encode_total_micros,
    {
        self.encode_total_micros
    }

    /// The window length in microseconds.
    pub fn interval(&self) -> (i: u64)
        ensures
            i == self@.interval_micros,
    {
        self.interval_micros
    }

    fn reset_window(&mut self)
        ensures
            final(self)@.interval_micros == old(self)@.interval_micros,
            final(self)@.frame_counter == 0,
            final(self)@.encode_total_micros == 0,
            final(self)@.encode_max_micros == 0,
            final(self)@.error_counter == 0,
    {
        self.last_tick = monotonic_now();
        self.frame_counter = 0;
        self.encode_total_micros = 0;
        self.encode_max_micros = 0;
        self.error_counter = 0;
    }
}

} // verus!
