//! H.264 helpers: encoder and decoder settings, Annex-B NAL scanning, and
//! the buffering policy of decoded output.
use vstd::prelude::*;
use std::collections::VecDeque;
use crate::error::AppError;

verus! {

broadcast use vstd::std_specs::vecdeque::group_vec_dequeue_axioms;

pub const NAL_TYPE_SPS: u8 = 7;

pub const NAL_TYPE_PPS: u8 = 8;

pub const NAL_TYPE_IDR: u8 = 5;

pub const NAL_TYPE_NON_IDR: u8 = 1;

/// H.264 profiles the encoder can be asked for.
#[derive(Debug, Clone, Copy, PartialEq, Eq, Structural)]
pub enum H264Profile {
    Baseline,
    Main,
    High,
}

impl H264Profile {
    /// The `profile_idc` of the profile.
    pub fn to_mf_profile(self) -> (p: u32)
        ensures
            p == match self {
                H264Profile::Baseline => 66u32,
                H264Profile::Main => 77u32,
                H264Profile::High => 100u32,
            },
    {
        match self {
            H264Profile::Baseline => 66,
            H264Profile::Main => 77,
            H264Profile::High => 100,
        }
    }
}

/// Layout of the raw frames handed to the encoder.
#[derive(Debug, Clone, Copy, PartialEq, Eq, Structural)]
pub enum PixelFormat {
    Bgra,
    Rgba,
}

/// Settings of the hardware H.264 encoder.
#[derive(Debug, Clone, Copy)]
pub struct H264EncoderConfig {
    pub width: u32,
    pub height: u32,
    pub bitrate: u32,
    pub framerate: u32,
    pub gop_length: u32,
    pub profile: H264Profile,
    pub pixel_format: PixelFormat,
}

impl Default for H264EncoderConfig {
    /// 1080p at 60 frames per second, 8 Mbit/s, a key frame every 60 frames,
    /// High profile, BGRA input.
    fn default() -> (c: Self)
        ensures
            c.width == 1920,
            c.height == 1080,
            c.bitrate == 8_000_000,
            c.framerate == 60,
            c.gop_length == 60,
            c.profile == H264Profile::High,
            c.pixel_format == PixelFormat::Bgra,
    {
        H264EncoderConfig {
            width: 1920,
            height: 1080,
            bitrate: 8_000_000,
            framerate: 60,
            gop_length: 60,
            profile: H264Profile::High,
            pixel_format: PixelFormat::Bgra,
        }
    }
}

/// The first thing wrong with encoder settings, as its message.
pub open spec fn encoder_config_problem(c: H264EncoderConfig) -> Option<Seq<char>> {
    if c.width == 0 || c.height == 0 {
        Some("Width and height must be positive"@)
    } else if c.bitrate == 0 {
        Some("Bitrate must be positive"@)
    } else if c.framerate == 0 {
        Some("Framerate must be positive"@)
    } else {
        None
    }
}

/// The checks the encoder makes on its settings before it starts.
pub fn validate_encoder_config(config: &H264EncoderConfig) -> (r: Result<(), AppError>)
    ensures
        match r {
            Ok(()) => encoder_config_problem(*config) is None,
            Err(AppError::Message(m)) => encoder_config_problem(*config) == Some(m@),
            Err(_) => false,
        },
{
    if config.width == 0 || config.height == 0 {
        return Err(AppError::Message(String::from_str("Width and height must be positive")));
    }
    if config.bitrate == 0 {
        return Err(AppError::Message(String::from_str("Bitrate must be positive")));
    }
    if config.framerate == 0 {
        return Err(AppError::Message(String::from_str("Framerate must be positive")));
    }
    Ok(())
}

/// The presentation time, in 100 ns units, of frame `frame_count` at `framerate`.
pub fn encoder_timestamp(frame_count: i64, framerate: u32) -> (t: i64)
    requires
        framerate > 0,
        0 <= frame_count,
        frame_count * 10_000_000 <= i64::MAX,
    ensures
        t == (frame_count * 10_000_000) / (framerate as int),
{
    (frame_count * 10_000_000) / (framerate as i64)
}

/// Presentation times never go back: a later frame is stamped no earlier
/// than an earlier one at the same frame rate.
pub proof fn lemma_encoder_timestamps_increase(earlier: i64, later: i64, framerate: u32)
    requires
        framerate > 0,
        0 <= earlier <= later,
    ensures
        (earlier * 10_000_000) / (framerate as int) <= (later * 10_000_000) / (framerate as int),
{
    assert((earlier * 10_000_000) / (framerate as int) <= (later * 10_000_000) / (framerate as int)) by (nonlinear_arith)
        requires
            framerate > 0,
            0 <= earlier <= later,
    ;
}

/// One encoded access unit.
#[derive(Debug)]
pub struct EncodedFrame {
    pub data: Vec<u8>,
    pub timestamp: i64,
    pub is_keyframe: bool,
}

/// Whether an Annex-B start code (`00 00 01`, or `00 00 00 01`) begins at
/// position `k` of `d`.
pub open spec fn start_code_at(d: Seq<u8>, k: int) -> bool {
    &&& 0 <= k
    &&& k + 2 < d.len()
    &&& d[k] == 0
    &&& d[k + 1] == 0
    &&& (d[k + 2] == 1 || (k + 3 < d.len() && d[k + 2] == 0 && d[k + 3] == 1))
}

/// The first position at or after `from` where a start code begins, or the
/// end of the data when none does.
pub open spec fn next_start_code(d: Seq<u8>, from: int) -> int
    decreases d.len() - from,
{
    if from < 0 || from >= d.len() {
        d.len() as int
    } else if start_code_at(d, from) {
        from
    } else {
        next_start_code(d, from + 1)
    }
}

/// The units found from position `i` on, as (start, end, type). A unit
/// starts just after a start code that begins with four bytes still to
/// come, ends where the next start code begins or at the end of the data
/// (also when a start code follows right at its start), and its type is the
/// low five bits of its first byte. `None` when a four-byte start code ends
/// the data, so that the unit would have no first byte.
pub open spec fn nal_scan(d: Seq<u8>, i: int) -> Option<Seq<(usize, usize, u8)>>
    decreases d.len() - i, 0int,
{
    if i < 0 || i + 3 >= d.len() {
        Some(Seq::empty())
    } else if start_code_at(d, i) {
        let start = if d[i + 2] == 1 { i + 3 } else { i + 4 };
        let e = next_start_code(d, start);
        let end = if e == start { d.len() as int } else { e };
        if start >= d.len() {
            None
        } else if end <= i || end > d.len() {
            // never taken: `end` lies past `start`, within the data
            None
        } else {
            match nal_scan(d, end) {
                Some(rest) => Some(seq![(start as usize, end as usize, d[start] & 0x1f)] + rest),
                None => None,
            }
        }
    } else {
        nal_scan(d, i + 1)
    }
}

fn start_code(data: &[u8], k: usize) -> (b: bool)
    ensures
        b == start_code_at(data@, k as int),
{
    k < data.len() && data.len() - k > 2 && data[k] == 0 && data[k + 1] == 0 && (data[k + 2] == 1 || (
    data.len() - k > 3 && data[k + 2] == 0 && data[k + 3] == 1))
}

/// The NAL units of an Annex-B stream, as (start, end, type): `start` is the
/// byte after a start code, `end` is where the next start code begins, or
/// the end of the data where none follows (or one follows right at
/// `start`), and the type is the low five bits of the first byte.
pub fn parse_nal_units(data: &[u8]) -> (units: Vec<(usize, usize, u8)>)
    requires
        nal_scan(data@, 0) is Some,
    ensures
        units@ == nal_scan(data@, 0)->0,
{
    let mut units: Vec<(usize, usize, u8)> = Vec::new();
    let mut i: usize = 0;
    let n = data.len();
    while i < n && n - i > 3
        invariant
            n == data@.len(),
            i <= n,
            nal_scan(data@, i as int) is Some,
            units@ + nal_scan(data@, i as int)->0 == nal_scan(data@, 0)->0,
        decreases n - i,
    {
        if start_code(data, i) {
            let start = if data[i + 2] == 1 { i + 3 } else { i + 4 };
            let nal_type = data[start] & 0x1f;
            let mut end = start;
            while end < n && !start_code(data, end)
                invariant
                    start <= end <= n,
                    n == data@.len(),
                    next_start_code(data@, start as int) == next_start_code(data@, end as int),
                decreases n - end,
            {
                end = end + 1;
            }
            if end == start {
                end = n;
            }
            let ghost rest = nal_scan(data@, end as int)->0;
            assert(units@.push((start, end, nal_type)) + rest =~= units@ + (seq![(start, end, nal_type)] + rest));
            units.push((start, end, nal_type));
            i = end;
        } else {
            i = i + 1;
        }
    }
    assert(units@ + Seq::<(usize, usize, u8)>::empty() =~= units@);
    units
}

/// What the decoder hands out.
#[derive(Debug, Clone, Copy, PartialEq, Eq, Structural)]
pub enum DecoderOutput {
    CpuNv12,
    CpuBgra,
    DxgiTexture,
}

/// Layout of decoded frames in memory.
#[derive(Debug, Clone, Copy, PartialEq, Eq, Structural)]
pub enum DecoderPixelFormat {
    Nv12,
    Bgra,
}

/// What to give up when the decoded-output queue is full.
#[derive(Debug, Clone, Copy, PartialEq, Eq, Structural)]
pub enum DropPolicy {
    DropOldest,
    DropNewest,
}

/// How many decoded outputs may wait, and what happens beyond that.
#[derive(Debug, Clone, Copy, PartialEq, Eq, Structural)]
pub struct BufferingConfig {
    pub max_frames: usize,
    pub drop_policy: DropPolicy,
}

impl Default for BufferingConfig {
    /// Four outputs, dropping the oldest.
    fn default() -> (b: Self)
        ensures
            b.max_frames == 4,
            b.drop_policy == DropPolicy::DropOldest,
    {
        BufferingConfig { max_frames: 4, drop_policy: DropPolicy::DropOldest }
    }
}

/// Settings of the hardware H.264 decoder.
#[derive(Debug, Clone, Copy)]
pub struct H264DecoderConfig {
    pub output: DecoderOutput,
    pub buffering: BufferingConfig,
}

impl Default for H264DecoderConfig {
    /// NV12 output in CPU memory with the default buffering.
    fn default() -> (c: Self)
        ensures
            c.output == DecoderOutput::CpuNv12,
            c.buffering.max_frames == 4,
            c.buffering.drop_policy == DropPolicy::DropOldest,
    {
        H264DecoderConfig { output: DecoderOutput::CpuNv12, buffering: BufferingConfig::default() }
    }
}

/// The geometry and layout of decoded frames.
#[derive(Debug, Clone, Copy, PartialEq, Eq, Structural)]
pub struct VideoFormat {
    pub width: u32,
    pub height: u32,
    pub pixel_format: DecoderPixelFormat,
    pub stride: u32,
}

/// A decoded frame in CPU memory.
#[derive(Debug, Clone)]
pub struct DecodedFrame {
    pub data: Vec<u8>,
    pub timestamp: i64,
    pub width: u32,
    pub height: u32,
    pub stride: u32,
    pub pixel_format: DecoderPixelFormat,
    pub is_keyframe: bool,
}

/// A change the decoder reports between frames.
#[derive(Debug, Clone)]
pub enum DecoderEvent {
    Reconfigured(VideoFormat),
}

/// One item of decoder output.
#[derive(Debug, Clone)]
pub enum DecodeOutput {
    Frame(DecodedFrame),
    Event(DecoderEvent),
}

/// The queue of decoded outputs after `item` arrived under `config`: it is
/// appended while there is room (or no limit); when full, the oldest item
/// leaves for it, or it is dropped, as the policy says.
pub open spec fn enqueue_spec<T>(queue: Seq<T>, item: T, config: BufferingConfig) -> Seq<T> {
    if queue.len() < config.max_frames || config.max_frames == 0 {
        queue.push(item)
    } else {
        match config.drop_policy {
            DropPolicy::DropOldest => queue.drop_first().push(item),
            DropPolicy::DropNewest => queue,
        }
    }
}

/// Decoded outputs waiting to be handed out, bounded by a buffering policy.
#[derive(Debug)]
pub struct DecodeQueue {
    pub config: BufferingConfig,
    pub items: VecDeque<DecodeOutput>,
}

impl DecodeQueue {
    pub fn new(config: BufferingConfig) -> (q: Self)
        ensures
            q.config == config,
            q.items@.len() == 0,
    {
        DecodeQueue { config, items: VecDeque::new() }
    }

    /// Adds a decoded output under the buffering policy.
    pub fn enqueue(&mut self, item: DecodeOutput)
        ensures
            final(self).config == old(self).config,
            final(self).items@ == enqueue_spec(old(self).items@, item, old(self).config),
    {
        if self.items.len() < self.config.max_frames || self.config.max_frames == 0 {
            self.items.push_back(item);
            return;
        }
        match self.config.drop_policy {
            DropPolicy::DropOldest => {
                let _ = self.items.pop_front();
                self.items.push_back(item);
                assert(self.items@ =~= old(self).items@.drop_first().push(item));
            },
            DropPolicy::DropNewest => {},
        }
    }

    /// The oldest waiting output, if any.
    pub fn pop(&mut self) -> (r: Option<DecodeOutput>)
        ensures
            final(self).config == old(self).config,
            match r {
                Some(x) => old(self).items@.len() > 0 && x == old(self).items@[0]
                    && final(self).items@ == old(self).items@.drop_first(),
                None => old(self).items@.len() == 0 && final(self).items@ == old(self).items@,
            },
    {
        let r = self.items.pop_front();
        proof {
            if r is Some {
                assert(self.items@ =~= old(self).items@.drop_first());
            }
        }
        r
    }
}

/// A bounded queue stays within its bound: with a limit, enqueueing never
/// takes the queue past it.
pub proof fn lemma_enqueue_bounded<T>(queue: Seq<T>, item: T, config: BufferingConfig)
    requires
        config.max_frames > 0,
        queue.len() <= config.max_frames,
    ensures
        enqueue_spec(queue, item, config).len() <= config.max_frames,
{
}

} // verus!
