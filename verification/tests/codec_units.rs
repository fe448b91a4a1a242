use desktop_stream::codec::h264::{
    encoder_timestamp, parse_nal_units, validate_encoder_config, BufferingConfig, DecodeOutput, DecodeQueue,
    DecodedFrame, DecoderPixelFormat, DropPolicy, H264EncoderConfig, H264Profile,
};
use desktop_stream::codec::{CodecConfig, CodecKind, Decoder, Encoder};
use desktop_stream::error::AppError;

fn message(e: AppError) -> String {
    match e {
        AppError::Message(m) => m,
        other => panic!("unexpected error {:?}", other),
    }
}

#[test]
fn encoding_appends_the_codec_marker() {
    let encoder = Encoder::new(CodecConfig::default_config()).unwrap();
    assert_eq!(encoder.encode(&[1, 2, 3]).unwrap(), vec![1, 2, 3, b'H', b'2', b'6', b'4']);
    let hevc = Encoder::new(CodecConfig { bitrate: 1, framerate: 30, codec: CodecKind::Hevc }).unwrap();
    assert_eq!(hevc.encode(&[]).unwrap(), b"HEVC".to_vec());
    assert_eq!(hevc.config().framerate, 30);
}

#[test]
fn decoding_gives_back_the_packet() {
    let encoder = Encoder::new(CodecConfig::default_config()).unwrap();
    let decoder = Decoder::new().unwrap();
    let packet = encoder.encode(b"frame").unwrap();
    assert_eq!(decoder.decode(&packet).unwrap(), b"frameH264".to_vec());
}

#[test]
fn encoder_refuses_a_zero_framerate() {
    let err = Encoder::new(CodecConfig { bitrate: 1, framerate: 0, codec: CodecKind::H264 }).unwrap_err();
    assert_eq!(message(err), "framerate must be positive");
}

#[test]
fn nal_units_of_an_annex_b_stream() {
    let data = vec![
        0x00, 0x00, 0x00, 0x01, 0x67, 0x42, 0x00, 0x1e, 0x00, 0x00, 0x00, 0x01, 0x68, 0xce, 0x3c, 0x80, 0x00, 0x00,
        0x01, 0x65, 0x88, 0x84, 0x00,
    ];
    assert_eq!(parse_nal_units(&data), vec![(4, 8, 7), (12, 16, 8), (19, 23, 5)]);
    assert!(parse_nal_units(&[]).is_empty());
    assert!(parse_nal_units(&[1, 2, 3, 4, 5]).is_empty());
    // A unit whose start is itself a start code runs to the end of the data.
    assert_eq!(parse_nal_units(&[0, 0, 1, 0, 0, 1, 9, 9]), vec![(3, 8, 0)]);
    // A start code that closes the data ends the unit before it.
    assert_eq!(parse_nal_units(&[0, 0, 1, 0x65, 7, 7, 0, 0, 1]), vec![(3, 6, 5)]);
}

#[test]
fn encoder_settings_are_checked() {
    let good = H264EncoderConfig::default();
    assert!(validate_encoder_config(&good).is_ok());
    assert_eq!(good.profile.to_mf_profile(), 100);
    assert_eq!(H264Profile::Baseline.to_mf_profile(), 66);
    assert_eq!(H264Profile::Main.to_mf_profile(), 77);
    let mut bad = good;
    bad.width = 0;
    assert_eq!(message(validate_encoder_config(&bad).unwrap_err()), "Width and height must be positive");
    let mut bad = good;
    bad.bitrate = 0;
    assert_eq!(message(validate_encoder_config(&bad).unwrap_err()), "Bitrate must be positive");
    let mut bad = good;
    bad.framerate = 0;
    assert_eq!(message(validate_encoder_config(&bad).unwrap_err()), "Framerate must be positive");
}

#[test]
fn encoder_timestamps_are_in_hundred_nanoseconds() {
    assert_eq!(encoder_timestamp(0, 60), 0);
    assert_eq!(encoder_timestamp(1, 60), 166_666);
    assert_eq!(encoder_timestamp(30, 30), 10_000_000);
}

fn frame(timestamp: i64) -> DecodeOutput {
    DecodeOutput::Frame(DecodedFrame {
        data: vec![],
        timestamp,
        width: 1,
        height: 1,
        stride: 4,
        pixel_format: DecoderPixelFormat::Bgra,
        is_keyframe: false,
    })
}

fn timestamps(queue: &mut DecodeQueue) -> Vec<i64> {
    let mut out = Vec::new();
    while let Some(item) = queue.pop() {
        match item {
            DecodeOutput::Frame(f) => out.push(f.timestamp),
            DecodeOutput::Event(_) => out.push(-1),
        }
    }
    out
}

#[test]
fn decode_queue_drops_the_oldest_when_full() {
    let mut queue = DecodeQueue::new(BufferingConfig { max_frames: 2, drop_policy: DropPolicy::DropOldest });
    for t in 1..=3 {
        queue.enqueue(frame(t));
    }
    assert_eq!(timestamps(&mut queue), vec![2, 3]);
}

#[test]
fn decode_queue_drops_the_newest_when_full() {
    let mut queue = DecodeQueue::new(BufferingConfig { max_frames: 2, drop_policy: DropPolicy::DropNewest });
    for t in 1..=3 {
        queue.enqueue(frame(t));
    }
    assert_eq!(timestamps(&mut queue), vec![1, 2]);
}

#[test]
fn decode_queue_without_limit_keeps_everything() {
    let mut queue = DecodeQueue::new(BufferingConfig { max_frames: 0, drop_policy: DropPolicy::DropNewest });
    for t in 1..=5 {
        queue.enqueue(frame(t));
    }
    assert_eq!(timestamps(&mut queue), vec![1, 2, 3, 4, 5]);
    let defaults = BufferingConfig::default();
    assert_eq!(defaults.max_frames, 4);
    assert_eq!(defaults.drop_policy, DropPolicy::DropOldest);
}

#[test]
fn test_h264_encoder_invalid_config() {
    let config = H264EncoderConfig {
        width: 0,
        height: 1080,
        bitrate: 4_000_000,
        framerate: 30,
        gop_length: 30,
        profile: H264Profile::High,
        pixel_format: desktop_stream::codec::h264::PixelFormat::Bgra,
    };
    assert!(validate_encoder_config(&config).is_err(), "Should fail with zero width");
    let config = H264EncoderConfig {
        width: 1920,
        height: 1080,
        bitrate: 0,
        framerate: 30,
        gop_length: 30,
        profile: H264Profile::High,
        pixel_format: desktop_stream::codec::h264::PixelFormat::Bgra,
    };
    assert!(validate_encoder_config(&config).is_err(), "Should fail with zero bitrate");
}

#[test]
fn encoder_timestamps_never_go_back() {
    let mut last = -1i64;
    for frame in 0..10i64 {
        let t = encoder_timestamp(frame, 30);
        assert!(t >= last, "Timestamps should be monotonically increasing");
        last = t;
    }
    assert_eq!(last, 3_000_000);
}
