//! Frame preparation on the sending side: retry policy, scaling, mock
//! frames and the counters the pipeline keeps.
use vstd::prelude::*;
use crate::codec::{Encoder, marker_spec};
use crate::error::AppError;
use crate::sender::config::{
    CaptureConfig, CaptureSettings, MetricsSettings, MonitorId, NetworkSettings, PipelineSettings,
    ScalingMethod, ScalingSettings, SenderConfig, DEFAULT_FRAME_RATE, DEFAULT_MOCK_FRAME_COUNT,
    capture_rate_spec, effective_bitrate_spec, normalised_address, normalised_pipeline, sender_problem,
};
use crate::codec::{CodecConfig, CodecKind};

verus! {

pub const DEFAULT_MOCK_WIDTH: u32 = 1920;

pub const DEFAULT_MOCK_HEIGHT: u32 = 1080;

pub const METRICS_CHANNEL_CAPACITY: usize = 32;

/// Whether another attempt is allowed after `attempts` failures; a limit of
/// zero means no limit.
pub fn should_retry(attempts: usize, max_retries: usize) -> (b: bool)
    ensures
        b == (max_retries == 0 || attempts <= max_retries),
{
    max_retries == 0 || attempts <= max_retries
}

/// What the capture stage reports alongside a frame.
#[derive(Debug, Clone, Copy, PartialEq, Eq)]
pub struct FrameMetadata {
    pub timestamp_micros: u64,
    pub monitor: MonitorId,
    pub frame_index: u64,
    pub accumulated_frames: u32,
    pub metadata_size: u32,
    pub pointer_shape_size: u32,
    pub pointer_position: Option<(i32, i32)>,
    pub pointer_visible: bool,
    pub rects_coalesced: bool,
    pub protected_content_masked: bool,
    pub last_present_qpc: i64,
    pub last_mouse_update_qpc: i64,
}

/// A captured frame of 4-byte pixels, `stride` bytes per row.
#[derive(Debug, Clone)]
pub struct ScreenFrame {
    pub bytes: Vec<u8>,
    pub width: u32,
    pub height: u32,
    pub stride: u32,
    pub metadata: FrameMetadata,
}

/// The counters the sending pipeline keeps.
#[derive(Debug, Clone, Copy, Default)]
pub struct PipelineCounters {
    pub frames_sent: u64,
    pub capture_errors: u64,
    pub dropped_frames: u64,
}

impl PipelineCounters {
    pub fn new() -> (c: Self)
        ensures
            c.frames_sent == 0 && c.capture_errors == 0 && c.dropped_frames == 0,
    {
        PipelineCounters { frames_sent: 0, capture_errors: 0, dropped_frames: 0 }
    }

    pub fn record_frame(&mut self)
        ensures
            final(self).frames_sent == (old(self).frames_sent + 1) % 0x1_0000_0000_0000_0000,
            final(self).capture_errors == old(self).capture_errors,
            final(self).dropped_frames == old(self).dropped_frames,
    {
        self.frames_sent = self.frames_sent.wrapping_add(1);
    }

    pub fn record_capture_error(&mut self)
        ensures
            final(self).capture_errors == (old(self).capture_errors + 1) % 0x1_0000_0000_0000_0000,
            final(self).frames_sent == old(self).frames_sent,
            final(self).dropped_frames == old(self).dropped_frames,
    {
        self.capture_errors = self.capture_errors.wrapping_add(1);
    }

    pub fn record_drop(&mut self)
        ensures
            final(self).dropped_frames == (old(self).dropped_frames + 1) % 0x1_0000_0000_0000_0000,
            final(self).frames_sent == old(self).frames_sent,
            final(self).capture_errors == old(self).capture_errors,
    {
        self.dropped_frames = self.dropped_frames.wrapping_add(1);
    }

    pub fn frames_sent(&self) -> (n: u64)
        ensures
            n == self.frames_sent,
    {
        self.frames_sent
    }

    pub fn capture_errors(&self) -> (n: u64)
        ensures
            n == self.capture_errors,
    {
        self.capture_errors
    }

    pub fn dropped_frames(&self) -> (n: u64)
        ensures
            n == self.dropped_frames,
    {
        self.dropped_frames
    }

    /// The report the pipeline ends with.
    pub fn report(&self) -> (r: PipelineReport)
        ensures
            r.frames_transmitted == self.frames_sent,
            r.capture_errors == self.capture_errors,
            r.dropped_frames == self.dropped_frames,
    {
        PipelineReport {
            frames_transmitted: self.frames_sent,
            capture_errors: self.capture_errors,
            dropped_frames: self.dropped_frames,
        }
    }
}

/// What a finished sending pipeline reports.
#[derive(Debug, Clone, Copy, Default)]
pub struct PipelineReport {
    pub frames_transmitted: u64,
    pub capture_errors: u64,
    pub dropped_frames: u64,
}

/// Byte `c` of pixel (`x`, `y`) of a frame scaled by nearest neighbour from
/// `sw`x`sh` pixels (`sstride` bytes per row, bytes `src`) to `w`x`h`: the
/// source pixel's byte, or zero where the source pixel lies beyond the bytes.
pub open spec fn scaled_byte(src: Seq<u8>, sw: int, sh: int, sstride: int, w: int, h: int, x: int, y: int, c: int) -> u8 {
    let si = (y * sh / h) * sstride + (x * sw / w) * 4;
    if si + 4 <= src.len() { src[si + c] } else { 0 }
}

/// `out` is the frame `src` scaled to `w`x`h` pixels, four bytes each,
/// rows packed.
pub open spec fn scaled_ok(out: Seq<u8>, src: Seq<u8>, sw: int, sh: int, sstride: int, w: int, h: int) -> bool {
    &&& out.len() == w * 4 * h
    &&& forall|x: int, y: int, c: int|
        0 <= x < w && 0 <= y < h && 0 <= c < 4 ==> #[trigger] out[y * (w * 4) + x * 4 + c] == scaled_byte(
            src,
            sw,
            sh,
            sstride,
            w,
            h,
            x,
            y,
            c,
        )
}

proof fn lemma_pixel_index(x: int, y: int, c: int, w: int, h: int)
    requires
        0 <= x < w,
        0 <= y < h,
        0 <= c < 4,
    ensures
        0 <= y * (w * 4) + x * 4 + c < w * 4 * h,
        y * (w * 4) + x * 4 + c < (y + 1) * (w * 4),
        y * (w * 4) <= y * (w * 4) + x * 4 + c,
{
    assert(0 <= y * (w * 4) + x * 4 + c < w * 4 * h) by (nonlinear_arith)
        requires 0 <= x < w, 0 <= y < h, 0 <= c < 4;
    assert(y * (w * 4) + x * 4 + c < (y + 1) * (w * 4)) by (nonlinear_arith)
        requires 0 <= x < w, 0 <= c < 4;
    assert(y * (w * 4) >= 0) by (nonlinear_arith)
        requires y >= 0, w >= 0;
}

fn scaled_bytes(src: &Vec<u8>, sw: u32, sh: u32, sstride: u32, w: u32, h: u32) -> (out: Vec<u8>)
    requires
        w > 0,
        h > 0,
        (w as int) * 4 * (h as int) <= usize::MAX,
    ensures
        scaled_ok(out@, src@, sw as int, sh as int, sstride as int, w as int, h as int),
{
    assert((w as u128) * 4 * (h as u128) <= 0x4_0000_0000 * 0x1_0000_0000u128) by (nonlinear_arith)
        requires w <= 0xffff_ffffu32, h <= 0xffff_ffffu32;
    let total: usize = ((w as u128) * 4 * (h as u128)) as usize;
    let mut out: Vec<u8> = Vec::with_capacity(total);
    let mut k: usize = 0;
    while k < total
        invariant
            k <= total,
            out@.len() == k,
            forall|i: int| 0 <= i < k ==> out@[i] == 0u8,
        decreases total - k,
    {
        out.push(0u8);
        k = k + 1;
    }
    let row: u64 = (w as u64) * 4;
    let mut y: u32 = 0;
    while y < h
        invariant
            y <= h,
            w > 0,
            h > 0,
            row == (w as int) * 4,
            total == (w as int) * 4 * (h as int),
            out@.len() == total,
            forall|i: int| (y as int) * ((w as int) * 4) <= i < total ==> out@[i] == 0u8,
            forall|x: int, yy: int, c: int|
                0 <= x < w && 0 <= yy < y && 0 <= c < 4 ==> #[trigger] out@[yy * (w * 4) + x * 4 + c]
                    == scaled_byte(src@, sw as int, sh as int, sstride as int, w as int, h as int, x, yy, c),
        decreases h - y,
    {
        assert((y as u128) * (sh as u128) <= 0xffff_ffffu128 * 0xffff_ffffu128) by (nonlinear_arith)
            requires y <= 0xffff_ffffu32, sh <= 0xffff_ffffu32;
        let src_y: u128 = (y as u128) * (sh as u128) / (h as u128);
        let mut x: u32 = 0;
        while x < w
            invariant
                x <= w,
                y < h,
                w > 0,
                h > 0,
                row == (w as int) * 4,
                total == (w as int) * 4 * (h as int),
                out@.len() == total,
                src_y == (y as int) * (sh as int) / (h as int),
                forall|i: int| (y as int) * ((w as int) * 4) + (x as int) * 4 <= i < total ==> out@[i] == 0u8,
                forall|xx: int, yy: int, c: int|
                    0 <= xx < w && 0 <= yy < y && 0 <= c < 4 ==> #[trigger] out@[yy * (w * 4) + xx * 4 + c]
                        == scaled_byte(src@, sw as int, sh as int, sstride as int, w as int, h as int, xx, yy, c),
                forall|xx: int, c: int|
                    0 <= xx < x && 0 <= c < 4 ==> #[trigger] out@[y * (w * 4) + xx * 4 + c]
                        == scaled_byte(src@, sw as int, sh as int, sstride as int, w as int, h as int, xx, y as int, c),
            decreases w - x,
        {
            assert((x as u128) * (sw as u128) <= 0xffff_ffffu128 * 0xffff_ffffu128) by (nonlinear_arith)
                requires x <= 0xffff_ffffu32, sw <= 0xffff_ffffu32;
            let src_x: u128 = (x as u128) * (sw as u128) / (w as u128);
            assert(src_y <= sh) by (nonlinear_arith)
                requires src_y == (y as int) * (sh as int) / (h as int), y < h, h > 0;
            assert(src_x <= sw) by (nonlinear_arith)
                requires src_x == (x as int) * (sw as int) / (w as int), x < w, w > 0;
            assert(src_y * (sstride as u128) <= 0xffff_ffffu128 * 0xffff_ffffu128) by (nonlinear_arith)
                requires src_y <= 0xffff_ffffu128, sstride <= 0xffff_ffffu32;
            let src_index: u128 = src_y * (sstride as u128) + src_x * 4;
            assert((y as u128) * (row as u128) <= 0xffff_ffffu128 * 0x4_0000_0000u128) by (nonlinear_arith)
                requires y <= 0xffff_ffffu32, row <= 0x4_0000_0000u64;
            let dst: u128 = (y as u128) * (row as u128) + (x as u128) * 4;
            proof {
                lemma_pixel_index(x as int, y as int, 0, w as int, h as int);
                lemma_pixel_index(x as int, y as int, 3, w as int, h as int);
                assert(dst == (y as int) * ((w as int) * 4) + (x as int) * 4);
            }
            if src_index + 4 <= src.len() as u128 {
                let si = src_index as usize;
                let di = dst as usize;
                let ghost before = out@;
                assert(src@.len() == src.len());
                let mut c: usize = 0;
                while c < 4
                    invariant
                        c <= 4,
                        si + 4 <= src@.len(),
                        src@.len() <= usize::MAX,
                        di + 4 <= total,
                        di == (y as int) * ((w as int) * 4) + (x as int) * 4,
                        out@.len() == total,
                        forall|i: int| 0 <= i < total && !(di <= i < di + c) ==> out@[i] == before[i],
                        forall|cc: int| 0 <= cc < c ==> #[trigger] out@[di + cc] == src@[si + cc],
                    decreases 4 - c,
                {
                    assert(di + c < total && si + c < src@.len());
                    let d: usize = di + c;
                    let from: usize = si + c;
                    let byte = src[from];
                    out.set(d, byte);
                    c = c + 1;
                }
                proof {
                    assert forall|i: int| di + 4 <= i < total implies out@[i] == 0u8 by {
                        assert(out@[i] == before[i]);
                    }
                    assert forall|xx: int, yy: int, cc: int|
                        0 <= xx < w && 0 <= yy < y && 0 <= cc < 4 implies #[trigger] out@[yy * (w * 4) + xx * 4 + cc]
                            == scaled_byte(src@, sw as int, sh as int, sstride as int, w as int, h as int, xx, yy, cc) by {
                        lemma_pixel_index(xx, yy, cc, w as int, h as int);
                        assert(yy + 1 <= y);
                        assert((yy + 1) * (w * 4) <= (y as int) * (w * 4)) by (nonlinear_arith)
                            requires yy + 1 <= y, w >= 0;
                        assert(before[yy * (w * 4) + xx * 4 + cc] == out@[yy * (w * 4) + xx * 4 + cc]);
                    }
                    assert forall|xx: int, cc: int|
                        0 <= xx < x + 1 && 0 <= cc < 4 implies #[trigger] out@[y * (w * 4) + xx * 4 + cc]
                            == scaled_byte(src@, sw as int, sh as int, sstride as int, w as int, h as int, xx, y as int, cc) by {
                        lemma_pixel_index(xx, y as int, cc, w as int, h as int);
                        if xx < x {
                            assert(xx * 4 + cc < (x as int) * 4);
                            assert(out@[y * (w * 4) + xx * 4 + cc] == before[y * (w * 4) + xx * 4 + cc]);
                        } else {
                            assert(out@[di + cc] == src@[si + cc]);
                        }
                    }
                }
            } else {
                proof {
                    let di = (y as int) * ((w as int) * 4) + (x as int) * 4;
                    assert forall|cc: int| 0 <= cc < 4 implies #[trigger] out@[di + cc] == 0u8 by {
                        lemma_pixel_index(x as int, y as int, cc, w as int, h as int);
                        assert(0 <= di + cc < total);
                    }
                }
            }
            x = x + 1;
        }
        assert((y as int) * ((w as int) * 4) + (w as int) * 4 == ((y as int) + 1) * ((w as int) * 4)) by (nonlinear_arith);
        y = y + 1;
    }
    out
}

/// The frame scaled to `width`x`height`; the metadata stays.
pub open spec fn scaled_frame_ok(frame: ScreenFrame, width: u32, height: u32, out: ScreenFrame) -> bool {
    &&& scaled_ok(
        out.bytes@,
        frame.bytes@,
        frame.width as int,
        frame.height as int,
        frame.stride as int,
        width as int,
        height as int,
    )
    &&& out.width == width
    &&& out.height == height
    &&& out.stride == ((width as int) * 4) as u32
    &&& out.metadata == frame.metadata
}

/// Scales a frame by nearest neighbour. A frame already at the target size
/// is handed back as it is.
pub fn scale_software(frame: ScreenFrame, width: u32, height: u32) -> (r: Result<ScreenFrame, AppError>)
    requires
        (width as int) * 4 * (height as int) <= usize::MAX,
    ensures
        match r {
            Ok(out) => if frame.width == width && frame.height == height {
                width != 0 && height != 0 && out == frame
            } else {
                width != 0 && height != 0 && frame.width != 0 && frame.height != 0
                    && scaled_frame_ok(frame, width, height, out)
            },
            Err(AppError::Message(m)) => if width == 0 || height == 0 {
                m@ == "scaling dimensions must be positive"@
            } else {
                !(frame.width == width && frame.height == height) && (frame.width == 0 || frame.height == 0)
                    && m@ == "source frame dimensions are invalid"@
            },
            Err(_) => false,
        },
{
    if width == 0 || height == 0 {
        return Err(AppError::Message(String::from_str("scaling dimensions must be positive")));
    }
    if frame.width == width && frame.height == height {
        return Ok(frame);
    }
    if frame.width == 0 || frame.height == 0 {
        return Err(AppError::Message(String::from_str("source frame dimensions are invalid")));
    }
    let bytes = scaled_bytes(&frame.bytes, frame.width, frame.height, frame.stride, width, height);
    let stride: u32 = #[verifier::truncate] (((width as u64) * 4) as u32);
    Ok(ScreenFrame { bytes, width, height, stride, metadata: frame.metadata })
}

/// Scales a frame as the settings say; the DXGI path scales in software too.
pub fn apply_scaling(frame: ScreenFrame, scaling: &ScalingSettings) -> (r: Result<ScreenFrame, AppError>)
    requires
        (scaling.width as int) * 4 * (scaling.height as int) <= usize::MAX,
    ensures
        match r {
            Ok(out) => if frame.width == scaling.width && frame.height == scaling.height {
                scaling.width != 0 && scaling.height != 0 && out == frame
            } else {
                scaling.width != 0 && scaling.height != 0 && frame.width != 0 && frame.height != 0
                    && scaled_frame_ok(frame, scaling.width, scaling.height, out)
            },
            Err(AppError::Message(m)) => if scaling.width == 0 || scaling.height == 0 {
                m@ == "scaling dimensions must be positive"@
            } else {
                !(frame.width == scaling.width && frame.height == scaling.height)
                    && (frame.width == 0 || frame.height == 0) && m@ == "source frame dimensions are invalid"@
            },
            Err(_) => false,
        },
{
    match scaling.method {
        ScalingMethod::Software => scale_software(frame, scaling.width, scaling.height),
        ScalingMethod::Dxgi => scale_software(frame, scaling.width, scaling.height),
    }
}

/// Byte `c` of pixel (`x`, `y`) of mock frame `index`: a gradient that
/// moves with the frame index, fully opaque.
pub open spec fn mock_byte(x: int, y: int, c: int, index: u64) -> u8 {
    let i = (index as int) % 256;
    if c == 0 {
        ((x % 256 + i) % 256) as u8
    } else if c == 1 {
        ((y % 256 + i) % 256) as u8
    } else if c == 2 {
        ((i * 3) % 256) as u8
    } else {
        255u8
    }
}

/// A synthetic frame for running without a capture device.
pub fn build_mock_frame(width: u32, height: u32, frame_index: u64) -> (f: ScreenFrame)
    requires
        (width as int) * 4 * (height as int) <= usize::MAX,
    ensures
        f.width == width,
        f.height == height,
        f.stride == ((width as int) * 4) as u32,
        f.bytes@.len() == (width as int) * 4 * (height as int),
        forall|x: int, y: int, c: int|
            0 <= x < width && 0 <= y < height && 0 <= c < 4 ==> #[trigger] f.bytes@[y * (width * 4) + x * 4 + c]
                == mock_byte(x, y, c, frame_index),
        f.metadata.monitor == (MonitorId { adapter_index: 0, output_index: 0 }),
        f.metadata.frame_index == frame_index,
        f.metadata.accumulated_frames == 1,
        f.metadata.metadata_size == 0,
        f.metadata.pointer_shape_size == 0,
        f.metadata.pointer_position is None,
        !f.metadata.pointer_visible,
        !f.metadata.rects_coalesced,
        !f.metadata.protected_content_masked,
        f.metadata.last_present_qpc == 0,
        f.metadata.last_mouse_update_qpc == 0,
{
    let ghost w = width as int;
    let ghost h = height as int;
    let tag: u8 = (frame_index % 256) as u8;
    let mut bytes: Vec<u8> = Vec::new();
    let mut y: u32 = 0;
    while y < height
        invariant
            y <= height,
            w == width,
            h == height,
            tag == (frame_index as int) % 256,
            w * 4 * h <= usize::MAX,
            bytes@.len() == (y as int) * (w * 4),
            forall|xx: int, yy: int, c: int|
                0 <= xx < w && 0 <= yy < y && 0 <= c < 4 ==> #[trigger] bytes@[yy * (w * 4) + xx * 4 + c]
                    == mock_byte(xx, yy, c, frame_index),
        decreases height - y,
    {
        let mut x: u32 = 0;
        let ghost row_start = bytes@.len() as int;
        while x < width
            invariant
                x <= width,
                y < height,
                w == width,
                h == height,
                tag == (frame_index as int) % 256,
                row_start == (y as int) * (w * 4),
                w * 4 * h <= usize::MAX,
                bytes@.len() == row_start + (x as int) * 4,
                forall|xx: int, yy: int, c: int|
                    0 <= xx < w && 0 <= yy < y && 0 <= c < 4 ==> #[trigger] bytes@[yy * (w * 4) + xx * 4 + c]
                        == mock_byte(xx, yy, c, frame_index),
                forall|xx: int, c: int|
                    0 <= xx < x && 0 <= c < 4 ==> #[trigger] bytes@[row_start + xx * 4 + c]
                        == mock_byte(xx, y as int, c, frame_index),
            decreases width - x,
        {
            let ghost before = bytes@;
            proof {
                lemma_pixel_index(x as int, y as int, 3, w, h);
            }
            let xb: u8 = (x % 256) as u8;
            let yb: u8 = (y % 256) as u8;
            bytes.push(xb.wrapping_add(tag));
            bytes.push(yb.wrapping_add(tag));
            bytes.push(tag.wrapping_mul(3));
            bytes.push(255u8);
            proof {
                assert forall|xx: int, yy: int, c: int|
                    0 <= xx < w && 0 <= yy < y && 0 <= c < 4 implies #[trigger] bytes@[yy * (w * 4) + xx * 4 + c]
                        == mock_byte(xx, yy, c, frame_index) by {
                    lemma_pixel_index(xx, yy, c, w, h);
                    assert((yy + 1) * (w * 4) <= (y as int) * (w * 4)) by (nonlinear_arith)
                        requires yy + 1 <= y, w >= 0;
                    assert(bytes@[yy * (w * 4) + xx * 4 + c] == before[yy * (w * 4) + xx * 4 + c]);
                }
                assert forall|xx: int, c: int|
                    0 <= xx < x + 1 && 0 <= c < 4 implies #[trigger] bytes@[row_start + xx * 4 + c]
                        == mock_byte(xx, y as int, c, frame_index) by {
                    if xx < x {
                        assert(bytes@[row_start + xx * 4 + c] == before[row_start + xx * 4 + c]);
                    }
                }
            }
            x = x + 1;
        }
        proof {
            assert(row_start + w * 4 == (y as int + 1) * (w * 4)) by (nonlinear_arith)
                requires row_start == (y as int) * (w * 4);
            assert forall|xx: int, yy: int, c: int|
                0 <= xx < w && 0 <= yy < y + 1 && 0 <= c < 4 implies #[trigger] bytes@[yy * (w * 4) + xx * 4 + c]
                    == mock_byte(xx, yy, c, frame_index) by {
                if yy == y {
                    assert(bytes@[row_start + xx * 4 + c] == mock_byte(xx, y as int, c, frame_index));
                }
            }
        }
        y = y + 1;
    }
    assert((height as int) * (w * 4) == w * 4 * h) by (nonlinear_arith)
        requires h == height;
    let stride: u32 = #[verifier::truncate] (((width as u64) * 4) as u32);
    let metadata = FrameMetadata {
        timestamp_micros: crate::clock::wall_clock_micros(),
        monitor: MonitorId::primary(),
        frame_index,
        accumulated_frames: 1,
        metadata_size: 0,
        pointer_shape_size: 0,
        pointer_position: None,
        pointer_visible: false,
        rects_coalesced: false,
        protected_content_masked: false,
        last_present_qpc: 0,
        last_mouse_update_qpc: 0,
    };
    ScreenFrame { bytes, width, height, stride, metadata }
}

/// Where frames come from.
#[derive(Debug, Clone, Copy)]
pub enum CaptureMode {
    Real { capture_config: CaptureConfig, pipeline: PipelineSettings },
    Mock { frame_count: usize, width: u32, height: u32, frame_rate: u32 },
}

/// Everything the sending tasks are started with.
#[derive(Debug, Clone)]
pub struct PipelinePlan {
    pub capture_mode: CaptureMode,
    pub codec_config: CodecConfig,
    pub scaling: Option<ScalingSettings>,
    pub network: NetworkSettings,
    pub pipeline: PipelineSettings,
    pub metrics: MetricsSettings,
}

/// The capture source of a validated configuration: mock frames at the
/// scaling size (1920x1080 without scaling) and the capture rate, or the
/// real capture.
pub open spec fn capture_mode_spec(
    pipeline: PipelineSettings,
    scaling: Option<ScalingSettings>,
    capture: CaptureSettings,
) -> CaptureMode {
    if pipeline.use_mock_components {
        CaptureMode::Mock {
            frame_count: match pipeline.mock_frame_count { Some(n) => n, None => DEFAULT_MOCK_FRAME_COUNT },
            width: match scaling { Some(s) => s.width, None => DEFAULT_MOCK_WIDTH },
            height: match scaling { Some(s) => s.height, None => DEFAULT_MOCK_HEIGHT },
            frame_rate: match capture.frame_rate { Some(r) => r, None => DEFAULT_FRAME_RATE },
        }
    } else {
        CaptureMode::Real {
            capture_config: CaptureConfig {
                monitor: MonitorId {
                    adapter_index: match capture.adapter_index { Some(a) => a, None => 0 },
                    output_index: match capture.output_index { Some(o) => o, None => 0 },
                },
                frame_rate: capture_rate_spec(capture),
            },
            pipeline,
        }
    }
}

/// The sending pipeline, before it runs.
#[derive(Debug)]
pub struct SenderPipeline {
    pub config: SenderConfig,
}

impl SenderPipeline {
    pub fn new(config: SenderConfig) -> (p: Self)
        ensures
            p.config == config,
    {
        SenderPipeline { config }
    }

    /// The decisions taken before the tasks start: the configuration is
    /// validated, the capture and codec settings derived, and the capture
    /// source chosen.
    pub fn plan(self) -> (r: Result<PipelinePlan, AppError>)
        ensures
            ({
                let c = self.config;
                let problem = sender_problem(c.capture, c.scaling, c.network.address@);
                let framerate = match c.encoder.framerate { Some(f) => f, None => capture_rate_spec(c.capture) };
                let codec_problem = match effective_bitrate_spec(c.encoder) {
                    Err(e) => Some(e),
                    Ok(_) => if framerate == 0 { Some("encoder framerate must be positive"@) } else { None },
                };
                let pipeline = normalised_pipeline(c.pipeline);
                match r {
                    Ok(plan) => {
                        &&& problem is None
                        &&& codec_problem is None
                        &&& plan.capture_mode == capture_mode_spec(pipeline, c.scaling, c.capture)
                        &&& plan.codec_config == (CodecConfig {
                            bitrate: effective_bitrate_spec(c.encoder)->Ok_0,
                            framerate,
                            codec: CodecKind::H264,
                        })
                        &&& plan.scaling == c.scaling
                        &&& plan.pipeline == pipeline
                        &&& plan.metrics == c.metrics
                        &&& plan.network.address@ == normalised_address(c.network.address@)
                    },
                    Err(AppError::Message(m)) => match problem {
                        Some(p) => m@ == p,
                        None => codec_problem == Some(m@),
                    },
                    Err(_) => false,
                }
            }),
    {
        let mut config = self.config;
        match config.validate() {
            Ok(()) => {},
            Err(e) => return Err(e),
        }
        let capture_config = match config.capture_config() {
            Ok(c) => c,
            Err(e) => return Err(e),
        };
        let codec_config = match config.codec_config() {
            Ok(c) => c,
            Err(e) => return Err(e),
        };
        let capture_mode = if config.pipeline.use_mock_components {
            CaptureMode::Mock {
                frame_count: match config.pipeline.mock_frame_count { Some(n) => n, None => DEFAULT_MOCK_FRAME_COUNT },
                width: match config.scaling { Some(s) => s.width, None => DEFAULT_MOCK_WIDTH },
                height: match config.scaling { Some(s) => s.height, None => DEFAULT_MOCK_HEIGHT },
                frame_rate: match config.capture.frame_rate { Some(r) => r, None => DEFAULT_FRAME_RATE },
            }
        } else {
            CaptureMode::Real { capture_config, pipeline: config.pipeline }
        };
        Ok(PipelinePlan {
            capture_mode,
            codec_config,
            scaling: config.scaling,
            pipeline: config.pipeline,
            metrics: config.metrics,
            network: config.network,
        })
    }
}

/// The failures counted since the capture last delivered, against the
/// retry limit.
#[derive(Debug, Clone, Copy, PartialEq, Eq, Structural)]
pub struct CaptureRetry {
    pub attempts: usize,
    pub max_retries: usize,
}

impl CaptureRetry {
    pub fn new(max_retries: usize) -> (r: Self)
        ensures
            r.attempts == 0 && r.max_retries == max_retries,
    {
        CaptureRetry { attempts: 0, max_retries }
    }

    /// A frame or a capture came through: the count starts over.
    pub fn succeeded(&mut self)
        ensures
            final(self).attempts == 0,
            final(self).max_retries == old(self).max_retries,
    {
        self.attempts = 0;
    }

    /// A failure; whether to try again.
    pub fn failed(&mut self) -> (retry: bool)
        requires
            old(self).attempts < usize::MAX,
        ensures
            final(self).attempts == old(self).attempts + 1,
            final(self).max_retries == old(self).max_retries,
            retry == (final(self).max_retries == 0 || final(self).attempts <= final(self).max_retries),
    {
        self.attempts = self.attempts + 1;
        should_retry(self.attempts, self.max_retries)
    }

    /// A failure to open the capture stream, counted without overflow;
    /// whether to try again.
    pub fn failed_saturating(&mut self) -> (retry: bool)
        ensures
            final(self).attempts == if old(self).attempts == usize::MAX { usize::MAX } else {
                (old(self).attempts + 1) as usize
            },
            final(self).max_retries == old(self).max_retries,
            retry == (final(self).max_retries == 0 || final(self).attempts <= final(self).max_retries),
    {
        self.attempts = self.attempts.saturating_add(1);
        should_retry(self.attempts, self.max_retries)
    }
}

/// The bytes sent for a captured frame: scaled when scaling is configured,
/// then encoded.
pub fn encode_for_send(frame: ScreenFrame, scaling: Option<ScalingSettings>, encoder: &Encoder) -> (r: Result<Vec<u8>, AppError>)
    requires
        scaling matches Some(s) ==> (s.width as int) * 4 * (s.height as int) <= usize::MAX,
    ensures
        match scaling {
            None => r matches Ok(v) && v@ == frame.bytes@ + marker_spec(encoder.config_spec().codec),
            Some(s) => match r {
                Ok(v) => s.width != 0 && s.height != 0 && if frame.width == s.width && frame.height == s.height {
                    v@ == frame.bytes@ + marker_spec(encoder.config_spec().codec)
                } else {
                    exists|out: ScreenFrame| scaled_frame_ok(frame, s.width, s.height, out)
                        && v@ == out.bytes@ + marker_spec(encoder.config_spec().codec)
                },
                Err(AppError::Message(m)) => if s.width == 0 || s.height == 0 {
                    m@ == "scaling dimensions must be positive"@
                } else {
                    (frame.width == 0 || frame.height == 0) && m@ == "source frame dimensions are invalid"@
                },
                Err(_) => false,
            },
        },
{
    let processed = match scaling {
        Some(settings) => match apply_scaling(frame, &settings) {
            Ok(f) => f,
            Err(e) => return Err(e),
        },
        None => frame,
    };
    encoder.encode(processed.bytes.as_slice())
}

} // verus!
