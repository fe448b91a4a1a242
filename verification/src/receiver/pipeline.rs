//! The receiving pipeline's decisions: the render queue that polices
//! latency, frame decoding, buffering presets and the counters it keeps.
use vstd::prelude::*;
use std::collections::VecDeque;
use std::time::Instant;
use crate::clock::{micros_since, monotonic_now, wall_clock_micros, wall_clock_nanos};
use crate::codec::Decoder;
use crate::error::AppError;
use crate::network::assembly::ReceivedFrame;
use crate::receiver::config::{ReceiverConfig, RenderSettings, config_problem};
use crate::network::endpoint::EndpointConfig;
use crate::text::{decimal, decimal_spec};

verus! {

broadcast use vstd::std_specs::vecdeque::group_vec_dequeue_axioms;

/// Extra age, in microseconds, a frame may reach beyond the latency bound.
pub const INVALID_FRAME_GRACE_MICROS: u64 = 5_000;

/// Pause after a failed receive, in milliseconds.
pub const NETWORK_BACKOFF_MS: u64 = 15;

/// A request from the interface to the pipeline.
#[derive(Debug, Clone)]
pub enum ControlEvent {
    SelectSender { address: String },
    SetBuffering { max_frames: usize, max_latency_ms: u64 },
}

/// What the pipeline tells the interface about the connection.
#[derive(Debug, Clone)]
pub enum PipelineStatus {
    Connecting { address: String },
    Connected { address: String },
    ConnectionFailed { address: String, error: String },
    Disconnected,
}

/// A named render-queue setting offered in the interface.
#[derive(Debug, Clone)]
pub struct BufferingPresetConfig {
    pub label: String,
    pub max_frames: usize,
    pub max_latency_ms: u64,
}

impl BufferingPresetConfig {
    /// A preset; a zero queue length or latency becomes one.
    pub fn new(label: &str, max_frames: usize, max_latency_ms: u64) -> (p: Self)
        ensures
            p.label@ == label@,
            p.max_frames == if max_frames > 1 { max_frames } else { 1 },
            p.max_latency_ms == if max_latency_ms > 1 { max_latency_ms } else { 1 },
    {
        BufferingPresetConfig {
            label: String::from_str(label),
            max_frames: if max_frames > 1 { max_frames } else { 1 },
            max_latency_ms: if max_latency_ms > 1 { max_latency_ms } else { 1 },
        }
    }
}

pub open spec fn max_int(a: int, b: int) -> int {
    if a >= b { a } else { b }
}

pub open spec fn min_int(a: int, b: int) -> int {
    if a <= b { a } else { b }
}

/// The presets offered for a configuration: low latency, balanced (the
/// configured queue and latency) and high jitter tolerance.
pub fn default_buffering_presets(config: &ReceiverConfig) -> (presets: Vec<BufferingPresetConfig>)
    ensures
        ({
            let base_queue = max_int(config.pipeline.render_queue as int, 1);
            let base_latency = max_int(config.pipeline.max_latency_ms as int, 50);
            &&& presets@.len() == 3
            &&& presets@[0].label@ == "Low latency"@
            &&& presets@[0].max_frames == max_int(min_int(base_queue, 2), 1)
            &&& presets@[0].max_latency_ms == max_int(max_int(base_latency / 2, 30), 1)
            &&& presets@[1].label@ == "Balanced"@
            &&& presets@[1].max_frames == base_queue
            &&& presets@[1].max_latency_ms == base_latency
            &&& presets@[2].label@ == "High jitter tolerance"@
            &&& presets@[2].max_frames == max_int(min_int(max_int(base_queue * 2, base_queue + 1), 64), 1)
            &&& presets@[2].max_latency_ms == max_int(min_int(base_latency * 2, 2_000), 1)
        }),
{
    let base_queue: usize = if config.pipeline.render_queue > 1 { config.pipeline.render_queue } else { 1 };
    let base_latency: u64 = if config.pipeline.max_latency_ms > 50 { config.pipeline.max_latency_ms } else { 50 };
    let low_queue: usize = if base_queue < 2 { base_queue } else { 2 };
    let half: u64 = base_latency / 2;
    let low_latency: u64 = if half > 30 { half } else { 30 };
    let mut presets: Vec<BufferingPresetConfig> = Vec::new();
    presets.push(BufferingPresetConfig::new("Low latency", low_queue, low_latency));
    presets.push(BufferingPresetConfig::new("Balanced", base_queue, base_latency));
    let doubled: u128 = (base_queue as u128) * 2;
    let plus_one: u128 = (base_queue as u128) + 1;
    let larger: u128 = if doubled > plus_one { doubled } else { plus_one };
    let high_queue: usize = if larger < 64 { larger as usize } else { 64 };
    let doubled_latency: u128 = (base_latency as u128) * 2;
    let high_latency: u64 = if doubled_latency < 2_000 { doubled_latency as u64 } else { 2_000 };
    presets.push(BufferingPresetConfig::new("High jitter tolerance", high_queue, high_latency));
    presets
}

/// The counters of the receiving pipeline (wrapping, as atomics do).
#[derive(Debug, Clone, Copy, Default)]
pub struct PipelineCounters {
    pub frames_received: u64,
    pub frames_decoded: u64,
    pub frames_dispatched: u64,
    pub frames_rendered: u64,
    pub frames_dropped: u64,
    pub latency_total_micros: u64,
    pub latency_max_micros: u64,
}

pub open spec fn wrap_add(a: u64, b: u64) -> u64 {
    ((a as int + b as int) % 0x1_0000_0000_0000_0000) as u64
}

impl PipelineCounters {
    pub fn new() -> (c: Self)
        ensures
            c.frames_received == 0 && c.frames_decoded == 0 && c.frames_dispatched == 0
                && c.frames_rendered == 0 && c.frames_dropped == 0 && c.latency_total_micros == 0
                && c.latency_max_micros == 0,
    {
        PipelineCounters {
            frames_received: 0,
            frames_decoded: 0,
            frames_dispatched: 0,
            frames_rendered: 0,
            frames_dropped: 0,
            latency_total_micros: 0,
            latency_max_micros: 0,
        }
    }

    pub fn record_received(&mut self)
        ensures
            *final(self) == (PipelineCounters { frames_received: wrap_add(old(self).frames_received, 1), ..*old(self) }),
    {
        self.frames_received = self.frames_received.wrapping_add(1);
    }

    pub fn record_decoded(&mut self)
        ensures
            *final(self) == (PipelineCounters { frames_decoded: wrap_add(old(self).frames_decoded, 1), ..*old(self) }),
    {
        self.frames_decoded = self.frames_decoded.wrapping_add(1);
    }

    pub fn record_dispatched(&mut self)
        ensures
            *final(self) == (PipelineCounters { frames_dispatched: wrap_add(old(self).frames_dispatched, 1), ..*old(self) }),
    {
        self.frames_dispatched = self.frames_dispatched.wrapping_add(1);
    }

    /// A frame was shown `latency_micros` after its capture.
    pub fn record_rendered(&mut self, latency_micros: u64)
        ensures
            *final(self) == (PipelineCounters {
                frames_rendered: wrap_add(old(self).frames_rendered, 1),
                latency_total_micros: wrap_add(old(self).latency_total_micros, latency_micros),
                latency_max_micros: if latency_micros > old(self).latency_max_micros {
                    latency_micros
                } else {
                    old(self).latency_max_micros
                },
                ..*old(self)
            }),
    {
        self.frames_rendered = self.frames_rendered.wrapping_add(1);
        self.latency_total_micros = self.latency_total_micros.wrapping_add(latency_micros);
        if latency_micros > self.latency_max_micros {
            self.latency_max_micros = latency_micros;
        }
    }

    pub fn record_dropped(&mut self)
        ensures
            *final(self) == (PipelineCounters { frames_dropped: wrap_add(old(self).frames_dropped, 1), ..*old(self) }),
    {
        self.frames_dropped = self.frames_dropped.wrapping_add(1);
    }

    /// `count` frames were dropped at once (nothing changes for zero).
    pub fn record_dropped_many(&mut self, count: u64)
        ensures
            *final(self) == (PipelineCounters { frames_dropped: wrap_add(old(self).frames_dropped, count), ..*old(self) }),
    {
        if count > 0 {
            self.frames_dropped = self.frames_dropped.wrapping_add(count);
        }
    }
}

/// A decoded frame waiting to be shown, with the times (microseconds since
/// the Unix epoch) it was captured and arrived, and when it was queued.
#[derive(Debug)]
pub struct DecodedFrame {
    pub frame_id: u64,
    pub session_id: u64,
    pub pixels: Vec<u8>,
    pub width: u32,
    pub height: u32,
    pub timestamp_micros: u64,
    pub arrival_micros: u64,
    pub decode_latency_micros: u64,
    pub enqueue_instant: Instant,
}

/// `queued` is `frame` as the render queue holds it: the same in every
/// field but the time it was queued.
pub open spec fn queued_as(queued: DecodedFrame, frame: DecodedFrame) -> bool {
    queued == DecodedFrame { enqueue_instant: queued.enqueue_instant, ..frame }
}

/// A frame captured at `timestamp` (microseconds since the Unix epoch) is
/// too old at `now` (nanoseconds since the Unix epoch) for a latency bound of
/// `max_latency_ms` milliseconds plus the grace period: more than that has
/// gone by since it was captured. A frame stamped after `now` is never too old.
pub open spec fn is_stale(timestamp: u64, now: u128, max_latency_ms: u64) -> bool {
    now >= timestamp * 1000 && (now - timestamp * 1000) > (max_latency_ms * 1000 + INVALID_FRAME_GRACE_MICROS) * 1000
}

/// Whether a frame captured at `timestamp_micros` is too old at `now_nanos`.
fn too_old(timestamp_micros: u64, now_nanos: u128, max_latency_ms: u64) -> (b: bool)
    ensures
        b == is_stale(timestamp_micros, now_nanos, max_latency_ms),
{
    let captured: u128 = (timestamp_micros as u128) * 1000;
    let bound: u128 = ((max_latency_ms as u128) * 1000 + INVALID_FRAME_GRACE_MICROS as u128) * 1000;
    now_nanos >= captured && now_nanos - captured > bound
}

/// How many frames at the front of the queue are too old.
pub open spec fn stale_prefix(frames: Seq<DecodedFrame>, now: u128, max_latency: u64) -> nat
    decreases frames.len(),
{
    if frames.len() > 0 && is_stale(frames[0].timestamp_micros, now, max_latency) {
        1 + stale_prefix(frames.drop_first(), now, max_latency)
    } else {
        0
    }
}

pub open spec fn sat_add(a: u64, b: int) -> u64 {
    if a + b > u64::MAX { u64::MAX } else { (a + b) as u64 }
}

/// The result of offering a frame to the render queue.
#[derive(Debug, Clone, Copy, PartialEq, Eq, Structural)]
pub struct QueuePushOutcome {
    pub accepted: bool,
    pub queue_depth: usize,
    pub stale_dropped: usize,
    pub overflow_dropped: usize,
    pub dropped_new_frame: bool,
}

/// A frame taken from the render queue, with how long it waited.
#[derive(Debug)]
pub struct QueuePopOutcome {
    pub frame: DecodedFrame,
    pub queue_latency_micros: u64,
    pub remaining: usize,
    pub stale_dropped: usize,
    pub dropped_total: u64,
}

/// Frames waiting to be shown, bounded in number and in age.
#[derive(Debug)]
pub struct RenderQueue {
    pub frames: VecDeque<DecodedFrame>,
    pub max_frames: usize,
    pub max_latency_ms: u64,
    pub dropped_total: u64,
}

/// A queue holding `frames` (with `total` drops so far) given the bounds
/// `max_frames` (one at least) and `max_latency_ms` at `now`: the frames too
/// old leave, then the oldest beyond the bound; `dropped` counts them.
pub open spec fn rebuffered(
    frames: Seq<DecodedFrame>,
    total: u64,
    max_frames: usize,
    max_latency_ms: u64,
    now: u128,
    new_frames: Seq<DecodedFrame>,
    new_total: u64,
    new_max_frames: usize,
    new_max_latency_ms: u64,
    dropped: usize,
) -> bool {
    let bound = if max_frames > 1 { max_frames } else { 1 };
    let stale = stale_prefix(frames, now, max_latency_ms);
    let kept = frames.skip(stale as int);
    let excess = if kept.len() > bound { kept.len() - bound } else { 0 };
    &&& new_max_frames == bound
    &&& new_max_latency_ms == max_latency_ms
    &&& dropped == stale + excess
    &&& new_frames == kept.skip(excess)
    &&& new_total == sat_add(sat_add(total, stale as int), excess)
}

proof fn lemma_stale_prefix_bound(frames: Seq<DecodedFrame>, now: u128, max_latency: u64)
    ensures
        stale_prefix(frames, now, max_latency) <= frames.len(),
    decreases frames.len(),
{
    if frames.len() > 0 {
        lemma_stale_prefix_bound(frames.drop_first(), now, max_latency);
    }
}

impl RenderQueue {
    /// An empty queue holding at most `max_frames` frames (at least one)
    /// younger than `max_latency_ms` milliseconds.
    pub fn new(max_frames: usize, max_latency_ms: u64) -> (q: Self)
        ensures
            q.frames@.len() == 0,
            q.max_frames == if max_frames > 1 { max_frames } else { 1 },
            q.max_latency_ms == max_latency_ms,
            q.dropped_total == 0,
    {
        RenderQueue {
            frames: VecDeque::new(),
            max_frames: if max_frames > 1 { max_frames } else { 1 },
            max_latency_ms,
            dropped_total: 0,
        }
    }

    /// Drops the frames at the front that are too old at `now`.
    pub fn trim_stale(&mut self, now_nanos: u128) -> (dropped: usize)
        ensures
            dropped == stale_prefix(old(self).frames@, now_nanos, old(self).max_latency_ms),
            final(self).frames@ == old(self).frames@.skip(dropped as int),
            final(self).dropped_total == sat_add(old(self).dropped_total, dropped as int),
            final(self).max_frames == old(self).max_frames,
            final(self).max_latency_ms == old(self).max_latency_ms,
    {
        let ghost start = self.frames@;
        let n = self.frames.len();
        let mut dropped: usize = 0;
        proof {
            lemma_stale_prefix_bound(start, now_nanos, self.max_latency_ms);
            assert(start.skip(0) =~= start);
        }
        while self.frames.len() > 0
            invariant
                n == start.len(),
                dropped <= start.len(),
                self.frames@ == start.skip(dropped as int),
                stale_prefix(start, now_nanos, self.max_latency_ms)
                    == dropped + stale_prefix(self.frames@, now_nanos, self.max_latency_ms),
                self.dropped_total == sat_add(old(self).dropped_total, dropped as int),
                self.max_frames == old(self).max_frames,
                self.max_latency_ms == old(self).max_latency_ms,
            ensures
                dropped == stale_prefix(start, now_nanos, self.max_latency_ms),
                self.frames@ == start.skip(dropped as int),
                self.dropped_total == sat_add(old(self).dropped_total, dropped as int),
                self.max_frames == old(self).max_frames,
                self.max_latency_ms == old(self).max_latency_ms,
            decreases self.frames@.len(),
        {
            let stale = too_old(self.frames[0].timestamp_micros, now_nanos, self.max_latency_ms);
            if !stale {
                break;
            }
            let _ = self.frames.pop_front();
            proof {
                assert(start.skip(dropped + 1) =~= start.skip(dropped as int).drop_first());
            }
            self.dropped_total = self.dropped_total.saturating_add(1);
            dropped = dropped + 1;
        }
        dropped
    }

    /// Drops the oldest frames beyond the queue's bound.
    pub fn trim_excess(&mut self) -> (dropped: usize)
        ensures
            dropped == if old(self).frames@.len() > old(self).max_frames {
                old(self).frames@.len() - old(self).max_frames
            } else {
                0
            },
            final(self).frames@ == old(self).frames@.skip(dropped as int),
            final(self).dropped_total == sat_add(old(self).dropped_total, dropped as int),
            final(self).max_frames == old(self).max_frames,
            final(self).max_latency_ms == old(self).max_latency_ms,
    {
        let ghost start = self.frames@;
        let n = self.frames.len();
        let mut dropped: usize = 0;
        assert(start.skip(0) =~= start);
        while self.frames.len() > self.max_frames
            invariant
                n == start.len(),
                dropped <= start.len(),
                self.frames@ == start.skip(dropped as int),
                start.len() > self.max_frames ==> dropped <= start.len() - self.max_frames,
                start.len() <= self.max_frames ==> dropped == 0,
                self.dropped_total == sat_add(old(self).dropped_total, dropped as int),
                self.max_frames == old(self).max_frames,
                self.max_latency_ms == old(self).max_latency_ms,
            decreases self.frames@.len(),
        {
            let _ = self.frames.pop_front();
            proof {
                assert(start.skip(dropped + 1) =~= start.skip(dropped as int).drop_first());
            }
            self.dropped_total = self.dropped_total.saturating_add(1);
            dropped = dropped + 1;
        }
        dropped
    }

    /// Offers a decoded frame at `now_nanos`. The frames that grew too old
    /// leave first; a frame that is itself too old is refused; when the
    /// queue is full its oldest frame leaves for the new one.
    pub fn push(&mut self, frame: DecodedFrame, now_nanos: u128) -> (o: QueuePushOutcome)
        requires
            old(self).max_frames >= 1,
        ensures
            ({
                let stale = stale_prefix(old(self).frames@, now_nanos, old(self).max_latency_ms);
                let kept = old(self).frames@.skip(stale as int);
                let total = sat_add(old(self).dropped_total, stale as int);
                &&& o.stale_dropped == stale
                &&& final(self).max_frames == old(self).max_frames
                &&& final(self).max_latency_ms == old(self).max_latency_ms
                &&& if is_stale(frame.timestamp_micros, now_nanos, old(self).max_latency_ms) {
                    &&& !o.accepted
                    &&& o.dropped_new_frame
                    &&& o.overflow_dropped == 0
                    &&& o.queue_depth == kept.len()
                    &&& final(self).frames@ == kept
                    &&& final(self).dropped_total == sat_add(total, 1)
                } else {
                    let overflow = kept.len() >= old(self).max_frames;
                    let rest = if overflow { kept.drop_first() } else { kept };
                    &&& o.accepted
                    &&& !o.dropped_new_frame
                    &&& o.overflow_dropped == if overflow { 1usize } else { 0usize }
                    &&& final(self).frames@.len() == rest.len() + 1
                    &&& final(self).frames@.drop_last() == rest
                    &&& queued_as(final(self).frames@.last(), frame)
                    &&& o.queue_depth == final(self).frames@.len()
                    &&& final(self).dropped_total == if overflow { sat_add(total, 1) } else { total }
                }
            }),
    {
        let stale_dropped = self.trim_stale(now_nanos);
        if too_old(frame.timestamp_micros, now_nanos, self.max_latency_ms) {
            self.dropped_total = self.dropped_total.saturating_add(1);
            return QueuePushOutcome {
                accepted: false,
                queue_depth: self.frames.len(),
                stale_dropped,
                overflow_dropped: 0,
                dropped_new_frame: true,
            };
        }
        let mut frame = frame;
        frame.enqueue_instant = monotonic_now();
        let mut overflow_dropped: usize = 0;
        let ghost kept = self.frames@;
        if self.frames.len() >= self.max_frames {
            let _ = self.frames.pop_front();
            assert(self.frames@ =~= kept.drop_first());
            self.dropped_total = self.dropped_total.saturating_add(1);
            overflow_dropped = 1;
        }
        let ghost rest = self.frames@;
        self.frames.push_back(frame);
        assert(self.frames@.drop_last() =~= rest);
        QueuePushOutcome {
            accepted: true,
            queue_depth: self.frames.len(),
            stale_dropped,
            overflow_dropped,
            dropped_new_frame: false,
        }
    }

    /// Takes the oldest frame that is not too old at `now_nanos`, if any;
    /// the frames too old leave first.
    pub fn pop(&mut self, now_nanos: u128) -> (o: Option<QueuePopOutcome>)
        ensures
            ({
                let stale = stale_prefix(old(self).frames@, now_nanos, old(self).max_latency_ms);
                let kept = old(self).frames@.skip(stale as int);
                let total = sat_add(old(self).dropped_total, stale as int);
                &&& final(self).dropped_total == total
                &&& final(self).max_frames == old(self).max_frames
                &&& final(self).max_latency_ms == old(self).max_latency_ms
                &&& match o {
                    Some(out) => {
                        &&& kept.len() > 0
                        &&& out.frame == kept[0]
                        &&& final(self).frames@ == kept.drop_first()
                        &&& out.remaining == kept.len() - 1
                        &&& out.stale_dropped == stale
                        &&& out.dropped_total == total
                    },
                    None => kept.len() == 0 && final(self).frames@ == kept,
                }
            }),
    {
        let stale_dropped = self.trim_stale(now_nanos);
        let ghost kept = self.frames@;
        match self.frames.pop_front() {
            None => None,
            Some(frame) => {
                assert(self.frames@ =~= kept.drop_first());
                let remaining = self.frames.len();
                let queue_latency_micros = micros_since(&frame.enqueue_instant);
                Some(QueuePopOutcome {
                    frame,
                    queue_latency_micros,
                    remaining,
                    stale_dropped,
                    dropped_total: self.dropped_total,
                })
            },
        }
    }

    /// Changes the bounds (a zero frame bound becomes one) and drops what no
    /// longer fits at `now_nanos`: the frames too old, then the oldest
    /// beyond the new bound. Returns how many frames left.
    pub fn set_buffering_at(&mut self, max_frames: usize, max_latency_ms: u64, now_nanos: u128) -> (dropped: usize)
        ensures
            rebuffered(
                old(self).frames@,
                old(self).dropped_total,
                max_frames,
                max_latency_ms,
                now_nanos,
                final(self).frames@,
                final(self).dropped_total,
                final(self).max_frames,
                final(self).max_latency_ms,
                dropped,
            ),
    {
        let n = self.frames.len();
        self.max_frames = if max_frames > 1 { max_frames } else { 1 };
        self.max_latency_ms = max_latency_ms;
        let stale = self.trim_stale(now_nanos);
        let overflow = self.trim_excess();
        proof {
            lemma_stale_prefix_bound(old(self).frames@, now_nanos, max_latency_ms);
        }
        assert(stale + overflow <= n);
        stale + overflow
    }

    /// `set_buffering_at` with the current time.
    pub fn set_buffering(&mut self, max_frames: usize, max_latency_ms: u64) -> (dropped: usize)
        ensures
            exists|now: u128| rebuffered(
                old(self).frames@,
                old(self).dropped_total,
                max_frames,
                max_latency_ms,
                now,
                final(self).frames@,
                final(self).dropped_total,
                final(self).max_frames,
                final(self).max_latency_ms,
                dropped,
            ),
            dropped <= old(self).frames@.len(),
            final(self).frames@.len() == old(self).frames@.len() - dropped,
            final(self).frames@.len() <= final(self).max_frames,
    {
        let now = wall_clock_nanos();
        let r = self.set_buffering_at(max_frames, max_latency_ms, now);
        proof {
            lemma_stale_prefix_bound(old(self).frames@, now, max_latency_ms);
        }
        r
    }

    /// Drops every waiting frame; returns how many there were.
    pub fn clear(&mut self) -> (dropped: usize)
        ensures
            dropped == old(self).frames@.len(),
            final(self).frames@.len() == 0,
            final(self).dropped_total == sat_add(old(self).dropped_total, dropped as int),
            final(self).max_frames == old(self).max_frames,
            final(self).max_latency_ms == old(self).max_latency_ms,
    {
        let dropped = self.frames.len();
        if dropped > 0 {
            self.frames.clear();
            self.dropped_total = self.dropped_total.saturating_add(dropped as u64);
        }
        dropped
    }
}

/// A queue that respects its bound keeps respecting it when a frame is offered.
pub proof fn lemma_push_respects_bound(frames: Seq<DecodedFrame>, now: u128, max_latency: u64, max_frames: usize)
    requires
        max_frames >= 1,
        frames.len() <= max_frames,
    ensures
        ({
            let stale = stale_prefix(frames, now, max_latency);
            let kept = frames.skip(stale as int);
            let rest = if kept.len() >= max_frames { kept.drop_first() } else { kept };
            rest.len() + 1 <= max_frames
        }),
{
    lemma_stale_prefix_bound(frames, now, max_latency);
}

/// Whether the last four bytes are a codec marker (`H264` or `HEVC`).
pub open spec fn ends_with_marker(p: Seq<u8>) -> bool {
    p.len() >= 4 && {
        let tail = p.subrange(p.len() - 4, p.len() as int);
        tail == seq![0x48u8, 0x32u8, 0x36u8, 0x34u8] || tail == seq![0x48u8, 0x45u8, 0x56u8, 0x43u8]
    }
}

/// The message of a decoded frame smaller than expected.
pub open spec fn too_small_message(expected: usize, got: int) -> Seq<char> {
    "decoded frame too small: expected "@ + decimal_spec(expected as nat) + " bytes, got "@ + decimal_spec(got as nat)
}

/// The pixels of a decoded payload: the codec marker is cut off, the
/// payload must hold at least `expected` bytes, and only the first
/// `expected` bytes are kept.
pub fn prepare_pixels(payload: Vec<u8>, expected: usize) -> (r: Result<Vec<u8>, AppError>)
    ensures
        ({
            let body = if ends_with_marker(payload@) { payload@.subrange(0, payload@.len() - 4) } else { payload@ };
            match r {
                Ok(px) => body.len() >= expected && px@ == body.subrange(0, expected as int),
                Err(AppError::Message(m)) => body.len() < expected && m@ == too_small_message(expected, body.len() as int),
                Err(_) => false,
            }
        }),
{
    let ghost input = payload@;
    let mut payload = payload;
    let n = payload.len();
    if n >= 4 {
        let a = payload[n - 4];
        let b = payload[n - 3];
        let c = payload[n - 2];
        let d = payload[n - 1];
        let is_marker = (a == 0x48 && b == 0x32 && c == 0x36 && d == 0x34) || (a == 0x48 && b == 0x45 && c == 0x56 && d == 0x43);
        proof {
            let tail = payload@.subrange(n - 4, n as int);
            assert(is_marker ==> (tail =~= seq![0x48u8, 0x32u8, 0x36u8, 0x34u8] || tail =~= seq![0x48u8, 0x45u8, 0x56u8, 0x43u8]));
            assert(tail =~= seq![0x48u8, 0x32u8, 0x36u8, 0x34u8] ==> is_marker) by {
                if tail =~= seq![0x48u8, 0x32u8, 0x36u8, 0x34u8] {
                    assert(tail[0] == a && tail[1] == b && tail[2] == c && tail[3] == d);
                }
            }
            assert(tail =~= seq![0x48u8, 0x45u8, 0x56u8, 0x43u8] ==> is_marker) by {
                if tail =~= seq![0x48u8, 0x45u8, 0x56u8, 0x43u8] {
                    assert(tail[0] == a && tail[1] == b && tail[2] == c && tail[3] == d);
                }
            }
        }
        if is_marker {
            payload.truncate(n - 4);
        }
    }
    let ghost body = payload@;
    assert(body == if ends_with_marker(input) { input.subrange(0, input.len() - 4) } else { input }) by {
        if n >= 4 {
            assert(payload@ =~= body);
        }
    };
    if payload.len() < expected {
        let m = String::from_str("decoded frame too small: expected ").concat(decimal(expected as u64).as_str())
            .concat(" bytes, got ").concat(decimal(payload.len() as u64).as_str());
        return Err(AppError::Message(m));
    }
    if payload.len() > expected {
        payload.truncate(expected);
    }
    assert(payload@ =~= body.subrange(0, expected as int));
    Ok(payload)
}

/// Decodes a received frame into the pixels of a frame of the render size,
/// timing the decoder and stamping when the frame was queued.
pub fn decode_frame(decoder: &Decoder, frame: ReceivedFrame, render_settings: &RenderSettings, expected_bytes: usize) -> (r: Result<DecodedFrame, AppError>)
    ensures
        ({
            let body = if ends_with_marker(frame.data@) { frame.data@.subrange(0, frame.data@.len() - 4) } else { frame.data@ };
            match r {
                Ok(d) => {
                    &&& body.len() >= expected_bytes
                    &&& d.pixels@ == body.subrange(0, expected_bytes as int)
                    &&& d.frame_id == frame.frame_id
                    &&& d.session_id == frame.session_id
                    &&& d.width == render_settings.width
                    &&& d.height == render_settings.height
                    &&& d.timestamp_micros == frame.timestamp_micros
                    &&& d.arrival_micros == frame.arrival_micros
                },
                Err(AppError::Message(m)) => body.len() < expected_bytes && m@ == too_small_message(expected_bytes, body.len() as int),
                Err(_) => false,
            }
        }),
{
    let start = monotonic_now();
    let payload = match decoder.decode(frame.data.as_slice()) {
        Ok(p) => p,
        Err(e) => return Err(e),
    };
    let decode_latency_micros = micros_since(&start);
    let pixels = match prepare_pixels(payload, expected_bytes) {
        Ok(p) => p,
        Err(e) => return Err(e),
    };
    Ok(DecodedFrame {
        frame_id: frame.frame_id,
        session_id: frame.session_id,
        pixels,
        width: render_settings.width,
        height: render_settings.height,
        timestamp_micros: frame.timestamp_micros,
        arrival_micros: frame.arrival_micros,
        decode_latency_micros,
        enqueue_instant: monotonic_now(),
    })
}

/// A frame handed to the window, with its timing and queue state.
#[derive(Debug)]
pub struct RenderFrame {
    pub pixels: Vec<u8>,
    pub width: u32,
    pub height: u32,
    pub timestamp_micros: u64,
    pub arrival_micros: u64,
    pub frame_id: u64,
    pub session_id: u64,
    pub decode_latency_micros: u64,
    pub queue_latency_micros: u64,
    pub queue_depth: usize,
    pub dropped_total: u64,
}

/// The frame the presenting task hands to the window for a queue outcome.
pub fn render_frame_from(outcome: QueuePopOutcome) -> (f: RenderFrame)
    ensures
        f.pixels@ == outcome.frame.pixels@,
        f.width == outcome.frame.width,
        f.height == outcome.frame.height,
        f.timestamp_micros == outcome.frame.timestamp_micros,
        f.arrival_micros == outcome.frame.arrival_micros,
        f.frame_id == outcome.frame.frame_id,
        f.session_id == outcome.frame.session_id,
        f.decode_latency_micros == outcome.frame.decode_latency_micros,
        f.queue_latency_micros == outcome.queue_latency_micros,
        f.queue_depth == outcome.remaining,
        f.dropped_total == outcome.dropped_total,
{
    let frame = outcome.frame;
    RenderFrame {
        pixels: frame.pixels,
        width: frame.width,
        height: frame.height,
        timestamp_micros: frame.timestamp_micros,
        arrival_micros: frame.arrival_micros,
        frame_id: frame.frame_id,
        session_id: frame.session_id,
        decode_latency_micros: frame.decode_latency_micros,
        queue_latency_micros: outcome.queue_latency_micros,
        queue_depth: outcome.remaining,
        dropped_total: outcome.dropped_total,
    }
}

/// The drop counts the decoding task reports for a push outcome, in order:
/// the frames too old, the frame pushed out, and the refused frame.
pub fn push_drop_reports(outcome: &QueuePushOutcome) -> (counts: Vec<u64>)
    ensures
        counts@ == (if outcome.stale_dropped > 0 { seq![outcome.stale_dropped as u64] } else { Seq::empty() })
            + (if outcome.overflow_dropped > 0 { seq![outcome.overflow_dropped as u64] } else { Seq::empty() })
            + (if outcome.dropped_new_frame { seq![1u64] } else { Seq::empty() }),
{
    let mut counts: Vec<u64> = Vec::new();
    if outcome.stale_dropped > 0 {
        counts.push(outcome.stale_dropped as u64);
    }
    let ghost a = counts@;
    if outcome.overflow_dropped > 0 {
        counts.push(outcome.overflow_dropped as u64);
    }
    let ghost b = counts@;
    if outcome.dropped_new_frame {
        counts.push(1u64);
    }
    assert(counts@ =~= (if outcome.stale_dropped > 0 { seq![outcome.stale_dropped as u64] } else { Seq::empty() })
        + (if outcome.overflow_dropped > 0 { seq![outcome.overflow_dropped as u64] } else { Seq::empty() })
        + (if outcome.dropped_new_frame { seq![1u64] } else { Seq::empty() }));
    counts
}

/// Whether the presenting task stops after `dispatched` frames.
pub fn frame_limit_reached(dispatched: u64, frame_limit: Option<u64>) -> (stop: bool)
    ensures
        stop == match frame_limit { Some(limit) => dispatched >= limit, None => false },
{
    match frame_limit {
        Some(limit) => dispatched >= limit,
        None => false,
    }
}

/// The connection state the network task keeps.
#[derive(Debug, Clone)]
pub struct NetworkLoopState {
    pub endpoint: EndpointConfig,
    pub current_address: String,
    pub connected: bool,
}

impl NetworkLoopState {
    /// The state a network task starts in, and the status it announces.
    pub fn new(endpoint: EndpointConfig) -> (r: (NetworkLoopState, PipelineStatus))
        ensures
            r.0.endpoint == endpoint,
            r.0.current_address@ == endpoint.address@,
            !r.0.connected,
            r.1 matches PipelineStatus::Connecting { address } && address@ == endpoint.address@,
    {
        let current = endpoint.address.clone();
        let announced = endpoint.address.clone();
        (NetworkLoopState { endpoint, current_address: current, connected: false }, PipelineStatus::Connecting { address: announced })
    }

    /// The window asked for another sender: the endpoint moves to it and
    /// the task reconnects.
    pub fn select_sender(&mut self, address: String) -> (status: PipelineStatus)
        ensures
            final(self).current_address@ == address@,
            final(self).endpoint.address@ == address@,
            final(self).endpoint.bind_address == old(self).endpoint.bind_address,
            final(self).endpoint.target_bitrate == old(self).endpoint.target_bitrate,
            final(self).endpoint.max_packet_payload == old(self).endpoint.max_packet_payload,
            final(self).endpoint.jitter_buffer_capacity == old(self).endpoint.jitter_buffer_capacity,
            final(self).endpoint.handshake_timeout_ms == old(self).endpoint.handshake_timeout_ms,
            final(self).endpoint.key_frame_redundancy == old(self).endpoint.key_frame_redundancy,
            !final(self).connected,
            status matches PipelineStatus::Connecting { address: a } && a@ == address@,
    {
        self.current_address = address.clone();
        self.endpoint.address = address.clone();
        self.connected = false;
        PipelineStatus::Connecting { address }
    }

    /// A frame came in: the first one after (re)connecting announces the connection.
    pub fn frame_received(&mut self) -> (status: Option<PipelineStatus>)
        ensures
            final(self).connected,
            final(self).current_address == old(self).current_address,
            final(self).endpoint == old(self).endpoint,
            match status {
                Some(s) => !old(self).connected && (s matches PipelineStatus::Connected { address }
                    && address@ == old(self).current_address@),
                None => old(self).connected,
            },
    {
        if !self.connected {
            self.connected = true;
            return Some(PipelineStatus::Connected { address: self.current_address.clone() });
        }
        None
    }

    /// Receiving failed with `error`: the connection is lost.
    pub fn receive_failed(&mut self, error: String) -> (status: PipelineStatus)
        ensures
            !final(self).connected,
            final(self).current_address == old(self).current_address,
            final(self).endpoint == old(self).endpoint,
            status matches PipelineStatus::ConnectionFailed { address, error: e }
                && address@ == old(self).current_address@ && e@ == error@,
    {
        self.connected = false;
        PipelineStatus::ConnectionFailed { address: self.current_address.clone(), error }
    }
}

/// BGRA pixels as RGBA: the first and third byte of each whole pixel swap;
/// a trailing partial pixel is left out.
pub fn bgra_to_rgba(bytes: &[u8]) -> (rgba: Vec<u8>)
    ensures
        rgba@.len() == bytes@.len() / 4 * 4,
        forall|i: int, c: int| 0 <= i < bytes@.len() / 4 && 0 <= c < 4 ==> #[trigger] rgba@[4 * i + c] == bytes@[4 * i
            + if c == 0 { 2int } else if c == 2 { 0int } else { c }],
{
    let mut rgba: Vec<u8> = Vec::new();
    let n = bytes.len();
    let pixels = n / 4;
    let mut i: usize = 0;
    while i < pixels
        invariant
            n == bytes@.len(),
            i <= pixels,
            pixels == bytes@.len() / 4,
            rgba@.len() == 4 * i,
            forall|k: int, c: int| 0 <= k < i && 0 <= c < 4 ==> #[trigger] rgba@[4 * k + c] == bytes@[4 * k
                + if c == 0 { 2int } else if c == 2 { 0int } else { c }],
        decreases pixels - i,
    {
        assert(4 * i + 4 <= n) by (nonlinear_arith)
            requires i < pixels, pixels == n / 4;
        let base = 4 * i;
        let ghost before = rgba@;
        rgba.push(bytes[base + 2]);
        rgba.push(bytes[base + 1]);
        rgba.push(bytes[base]);
        rgba.push(bytes[base + 3]);
        proof {
            assert forall|k: int, c: int| 0 <= k < i + 1 && 0 <= c < 4 implies #[trigger] rgba@[4 * k + c] == bytes@[4 * k
                + if c == 0 { 2int } else if c == 2 { 0int } else { c }] by {
                if k < i {
                    assert(rgba@[4 * k + c] == before[4 * k + c]);
                }
            }
        }
        i = i + 1;
    }
    rgba
}

/// The receiving pipeline, before it runs.
#[derive(Debug)]
pub struct ReceiverPipeline {
    pub config: ReceiverConfig,
}

impl ReceiverPipeline {
    /// A pipeline for a configuration that normalises and checks out.
    pub fn new(config: ReceiverConfig) -> (r: Result<ReceiverPipeline, AppError>)
        ensures
            match r {
                Ok(p) => config_problem(config) is None && ReceiverConfig::normalise_post(config, p.config),
                Err(AppError::Message(m)) => config_problem(config) == Some(m@),
                Err(_) => false,
            },
    {
        let mut config = config;
        match config.validate() {
            Ok(()) => Ok(ReceiverPipeline { config }),
            Err(e) => Err(e),
        }
    }
}

} // verus!
