use desktop_stream::codec::{CodecConfig, CodecKind, Encoder};
use desktop_stream::error::AppError;
use desktop_stream::sender::config::{
    BitratePreset, CaptureSettings, CliArgs, EncoderSettings, ResolutionOverride, ScalingMethod, ScalingSettings,
    SenderConfig,
};
use desktop_stream::sender::metrics::MetricsCollector;
use desktop_stream::sender::pipeline::{
    build_mock_frame, encode_for_send, scale_software, should_retry, CaptureMode, CaptureRetry, PipelineCounters,
    SenderPipeline,
};
use desktop_stream::sender::ui::{
    accent_colour, config_for_start, current_bitrate_label, current_resolution_label, parse_resolution as ui_resolution,
    preset_label, push_bounded, resolution_preset, PipelineState, ResolutionSelection, StatusLevel,
};
use desktop_stream::sender::config::{parse_monitor, parse_resolution};
use desktop_stream::sender::pipeline::PipelineReport;
use desktop_stream::sender::ui::{ControlState, PipelineEvent, STATUS_HISTORY};
use std::collections::VecDeque;

fn message(e: AppError) -> String {
    match e {
        AppError::Message(m) => m,
        other => panic!("unexpected error {:?}", other),
    }
}

fn no_args() -> CliArgs {
    CliArgs {
        config: None,
        monitor: None,
        frame_rate: None,
        scale: None,
        disable_scaling: false,
        bitrate_preset: None,
        bitrate: None,
        address: None,
        use_mocks: false,
        mock_frames: None,
        gui: false,
    }
}

#[test]
fn resolution_and_monitor_errors_name_the_problem() {
    assert_eq!(parse_resolution("1920X1080").unwrap(), ResolutionOverride { width: 1920, height: 1080 });
    assert_eq!(parse_resolution("1920").unwrap_err(), "expected format WIDTHxHEIGHT");
    assert_eq!(parse_resolution("ax2").unwrap_err(), "failed to parse width component");
    assert_eq!(parse_resolution("2x-1").unwrap_err(), "failed to parse height component");
    assert_eq!(parse_resolution("0x2").unwrap_err(), "dimensions must be positive");
    assert_eq!(parse_monitor("3,4").unwrap().output_index, 4);
    assert_eq!(message(parse_monitor("3").unwrap_err()), "monitor override must use ADAPTER:OUTPUT format");
    assert_eq!(message(parse_monitor("x:1").unwrap_err()), "failed to parse adapter index");
    assert_eq!(message(parse_monitor("1:y").unwrap_err()), "failed to parse output index");
}

#[test]
fn command_line_overrides_the_defaults() {
    let mut args = no_args();
    args.monitor = Some("1:2".to_string());
    args.frame_rate = Some(30);
    args.scale = Some(ResolutionOverride { width: 1280, height: 720 });
    args.bitrate_preset = Some(BitratePreset::High);
    args.address = Some("10.0.0.5:6000".to_string());
    args.use_mocks = true;
    let config = SenderConfig::from_cli(args, None).unwrap();
    assert_eq!(config.capture.adapter_index, Some(1));
    assert_eq!(config.capture.output_index, Some(2));
    assert_eq!(config.capture.frame_rate, Some(30));
    assert_eq!(config.scaling, Some(ScalingSettings { width: 1280, height: 720, method: ScalingMethod::Software }));
    assert_eq!(config.encoder.preset, BitratePreset::High);
    assert_eq!(config.network.address, "10.0.0.5:6000");
    assert!(config.pipeline.use_mock_components);
    assert_eq!(config.pipeline.mock_frame_count, Some(120));
    assert_eq!(config.encoder.effective_bitrate().unwrap(), 12_000_000);
}

#[test]
fn sender_command_line_errors_are_reported() {
    let mut args = no_args();
    args.monitor = Some("bad".to_string());
    let err = SenderConfig::from_cli(args, None).unwrap_err();
    assert_eq!(message(err), "monitor override must use ADAPTER:OUTPUT format");

    let mut args = no_args();
    args.scale = Some(ResolutionOverride { width: 0, height: 720 });
    assert_eq!(message(SenderConfig::from_cli(args, None).unwrap_err()), "scaling dimensions must be positive");

    let mut args = no_args();
    args.frame_rate = Some(0);
    assert_eq!(message(SenderConfig::from_cli(args, None).unwrap_err()), "capture frame rate must be positive");

    let mut args = no_args();
    args.address = Some("somewhere".to_string());
    assert_eq!(
        message(SenderConfig::from_cli(args, None).unwrap_err()),
        "invalid socket address 'somewhere': invalid socket address syntax"
    );
}

#[test]
fn disabling_scaling_wins_over_a_scale() {
    let mut file = SenderConfig::default();
    file.scaling = Some(ScalingSettings { width: 640, height: 480, method: ScalingMethod::Dxgi });
    let mut args = no_args();
    args.scale = Some(ResolutionOverride { width: 800, height: 600 });
    let scaled = SenderConfig::from_cli(args.clone(), Some(file.clone())).unwrap();
    assert_eq!(scaled.scaling, Some(ScalingSettings { width: 800, height: 600, method: ScalingMethod::Dxgi }));
    args.disable_scaling = true;
    let plain = SenderConfig::from_cli(args, Some(file)).unwrap();
    assert_eq!(plain.scaling, None);
}

#[test]
fn bitrate_follows_the_preset_unless_given() {
    let mut e = EncoderSettings::default();
    assert_eq!(e.effective_bitrate().unwrap(), 8_000_000);
    e.preset = BitratePreset::Low;
    assert_eq!(e.effective_bitrate().unwrap(), 4_000_000);
    e.bitrate = Some(5);
    assert_eq!(e.effective_bitrate().unwrap(), 5);
    e.bitrate = Some(0);
    assert_eq!(message(e.effective_bitrate().unwrap_err()), "encoder bitrate must be positive");
    e.bitrate = None;
    e.preset = BitratePreset::Custom;
    assert_eq!(message(e.effective_bitrate().unwrap_err()), "custom preset requires explicit bitrate override");
}

#[test]
fn capture_settings_default_to_the_primary_monitor() {
    let c = CaptureSettings { adapter_index: None, output_index: Some(3), frame_rate: None };
    let m = c.monitor_id();
    assert_eq!((m.adapter_index, m.output_index), (0, 3));
    assert_eq!(c.frame_rate().unwrap(), 60);
    let zero = CaptureSettings { adapter_index: None, output_index: None, frame_rate: Some(0) };
    assert_eq!(message(zero.frame_rate().unwrap_err()), "capture frame rate must be positive");
}

#[test]
fn plan_of_a_mock_pipeline() {
    let mut config = SenderConfig::default();
    config.pipeline.use_mock_components = true;
    config.pipeline.channel_capacity = 0;
    let plan = SenderPipeline::new(config).plan().unwrap();
    match plan.capture_mode {
        CaptureMode::Mock { frame_count, width, height, frame_rate } => {
            assert_eq!((frame_count, width, height, frame_rate), (120, 1920, 1080, 60));
        }
        other => panic!("unexpected capture mode {:?}", other),
    }
    assert_eq!(plan.pipeline.channel_capacity, 6);
    assert_eq!(plan.codec_config.bitrate, 8_000_000);
    assert_eq!(plan.codec_config.framerate, 60);
}

#[test]
fn plan_of_a_real_pipeline_and_its_errors() {
    let mut config = SenderConfig::default();
    config.capture.adapter_index = Some(2);
    config.encoder.framerate = Some(0);
    let err = SenderPipeline::new(config.clone()).plan().unwrap_err();
    assert_eq!(message(err), "encoder framerate must be positive");
    config.encoder.framerate = Some(24);
    let plan = SenderPipeline::new(config).plan().unwrap();
    match plan.capture_mode {
        CaptureMode::Real { capture_config, .. } => {
            assert_eq!(capture_config.monitor.adapter_index, 2);
            assert_eq!(capture_config.frame_rate, 60);
        }
        other => panic!("unexpected capture mode {:?}", other),
    }
    assert_eq!(plan.codec_config.framerate, 24);
}

#[test]
fn mock_frames_are_a_moving_gradient() {
    let f = build_mock_frame(3, 2, 257);
    assert_eq!(f.width, 3);
    assert_eq!(f.stride, 12);
    assert_eq!(f.bytes.len(), 24);
    // Pixel (2, 1): blue = x + index, green = y + index, red = 3 * index, alpha 255.
    let p = 1 * 12 + 2 * 4;
    assert_eq!(&f.bytes[p..p + 4], &[3, 2, 3, 255]);
    assert_eq!(f.metadata.frame_index, 257);
}

#[test]
fn software_scaling_picks_the_nearest_pixel() {
    let mut f = build_mock_frame(4, 2, 0);
    for (i, b) in f.bytes.iter_mut().enumerate() {
        *b = i as u8;
    }
    let scaled = scale_software(f.clone(), 2, 1).unwrap();
    assert_eq!(scaled.stride, 8);
    assert_eq!(scaled.bytes, vec![0, 1, 2, 3, 8, 9, 10, 11]);
    let same = scale_software(f.clone(), 4, 2).unwrap();
    assert_eq!(same.bytes, f.bytes);
    assert_eq!(message(scale_software(f, 0, 2).unwrap_err()), "scaling dimensions must be positive");
    let empty = build_mock_frame(0, 0, 0);
    assert_eq!(message(scale_software(empty, 2, 2).unwrap_err()), "source frame dimensions are invalid");
}

#[test]
fn frames_are_scaled_then_encoded() {
    let encoder = Encoder::new(CodecConfig { bitrate: 1, framerate: 1, codec: CodecKind::Hevc }).unwrap();
    let f = build_mock_frame(1, 1, 1);
    let plain = encode_for_send(f.clone(), None, &encoder).unwrap();
    assert_eq!(plain, vec![1, 1, 3, 255, b'H', b'E', b'V', b'C']);
    let scaling = ScalingSettings { width: 2, height: 1, method: ScalingMethod::Software };
    let bigger = encode_for_send(f.clone(), Some(scaling), &encoder).unwrap();
    assert_eq!(bigger, vec![1, 1, 3, 255, 1, 1, 3, 255, b'H', b'E', b'V', b'C']);
    let bad = ScalingSettings { width: 0, height: 1, method: ScalingMethod::Dxgi };
    assert_eq!(message(encode_for_send(f, Some(bad), &encoder).unwrap_err()), "scaling dimensions must be positive");
}

#[test]
fn capture_retries_stop_past_the_limit() {
    assert!(should_retry(5, 0));
    assert!(should_retry(2, 2));
    assert!(!should_retry(3, 2));
    let mut retry = CaptureRetry::new(2);
    assert!(retry.failed());
    assert!(retry.failed());
    assert!(!retry.failed());
    retry.succeeded();
    assert_eq!(retry.attempts, 0);
    assert!(retry.failed_saturating());
}

#[test]
fn counters_feed_the_report() {
    let mut c = PipelineCounters::new();
    c.record_frame();
    c.record_frame();
    c.record_capture_error();
    c.record_drop();
    let r = c.report();
    assert_eq!((r.frames_transmitted, r.capture_errors, r.dropped_frames), (2, 1, 1));
}

#[test]
fn metrics_window_closes_after_the_interval() {
    let mut m = MetricsCollector::new(1_000);
    assert!(m.record_frame_elapsed(10, 400).is_none());
    m.record_error();
    let w = m.record_frame_elapsed(30, 1_000).expect("window");
    assert_eq!(w.frames, 2);
    assert_eq!(w.errors, 1);
    assert_eq!(w.encode_total_micros, 40);
    assert_eq!(w.encode_max_micros, 30);
    assert_eq!(w.window_micros, 1_000);
    assert!(m.record_frame_elapsed(5, 10).is_none());
}

#[test]
fn window_labels() {
    assert_eq!(accent_colour(), (52, 152, 219));
    assert_eq!(StatusLevel::Error.colour(), (231, 76, 60));
    assert_eq!(PipelineState::Running.as_str(), "Running");
    assert_eq!(preset_label(BitratePreset::Custom), "Custom");
    assert_eq!(resolution_preset(1).unwrap().width, 1600);
    assert!(resolution_preset(3).is_none());
    assert_eq!(current_resolution_label(ResolutionSelection::Native, ""), "Native (no scaling)");
    assert_eq!(current_resolution_label(ResolutionSelection::Preset(2), ""), "1920 × 1080");
    assert_eq!(current_resolution_label(ResolutionSelection::Custom, "  800x600 "), "Custom (800x600)");
    assert_eq!(current_resolution_label(ResolutionSelection::Custom, "   "), "Custom");
    assert_eq!(current_bitrate_label(BitratePreset::High, ""), "High");
}

#[test]
fn typed_resolutions() {
    assert_eq!(ui_resolution(" 800x600 ").unwrap(), (800, 600));
    assert_eq!(ui_resolution("   ").unwrap_err(), "provide WIDTHxHEIGHT values");
    assert_eq!(ui_resolution("800").unwrap_err(), "expected WIDTHxHEIGHT format");
    assert_eq!(ui_resolution("ax1").unwrap_err(), "invalid width component");
    assert_eq!(ui_resolution("1xb").unwrap_err(), "invalid height component");
    assert_eq!(ui_resolution("0x1").unwrap_err(), "dimensions must be positive");
}

#[test]
fn history_keeps_the_latest_items() {
    let mut h: VecDeque<u32> = VecDeque::new();
    for i in 0..5 {
        push_bounded(&mut h, i, 3);
    }
    assert_eq!(h.into_iter().collect::<Vec<_>>(), vec![2, 3, 4]);
}

#[test]
fn start_requests_from_the_window() {
    let config = SenderConfig::default();
    let started = config_for_start(
        &config,
        "  192.168.1.2:7000 ",
        ResolutionSelection::Preset(0),
        "",
        BitratePreset::Custom,
        " 2500000 ",
    )
    .unwrap();
    assert_eq!(started.network.address, "192.168.1.2:7000");
    assert_eq!(started.scaling.unwrap().width, 1280);
    assert_eq!(started.encoder.bitrate, Some(2_500_000));

    let bad_res = config_for_start(&config, "1.2.3.4:5", ResolutionSelection::Custom, "wide", BitratePreset::Low, "");
    assert_eq!(bad_res.unwrap_err(), "Invalid resolution: expected WIDTHxHEIGHT format");
    let bad_rate = config_for_start(&config, "1.2.3.4:5", ResolutionSelection::Native, "", BitratePreset::Custom, "0");
    assert_eq!(bad_rate.unwrap_err(), "Provide a positive bitrate when using the custom preset");
    let bad_addr = config_for_start(&config, "nowhere", ResolutionSelection::Native, "", BitratePreset::Low, "");
    assert_eq!(
        bad_addr.unwrap_err(),
        "Configuration error: invalid socket address 'nowhere': invalid socket address syntax"
    );
}

#[test]
fn metrics_snapshot_generated() {
    let mut collector = MetricsCollector::new(10_000);
    assert!(collector.record_frame_elapsed(5_000, 0).is_none());
    let snapshot = collector.record_frame_elapsed(5_000, 20_000).expect("snapshot");
    let fps = snapshot.frames as f64 / (snapshot.window_micros as f64 / 1_000_000.0);
    assert!(fps > 0.0);
    assert_eq!(snapshot.errors, 0);
}

#[test]
fn metrics_error_count() {
    let mut collector = MetricsCollector::new(10_000);
    collector.record_error();
    let snapshot = collector.record_frame_elapsed(5_000, 20_000).expect("snapshot");
    assert_eq!(snapshot.errors, 1);
}

#[test]
fn window_follows_pipeline_events() {
    let mut state = ControlState::new();
    state.running = true;
    state.handle_pipeline_event(PipelineEvent::Started);
    assert_eq!(state.pipeline_state, PipelineState::Running);
    state.handle_pipeline_event(PipelineEvent::CaptureWarning { message: "slow".to_string() });
    let report = PipelineReport { frames_transmitted: 120, capture_errors: 2, dropped_frames: 1 };
    state.handle_pipeline_event(PipelineEvent::Stopped(report));
    assert_eq!(state.pipeline_state, PipelineState::Idle);
    assert!(!state.running);
    let messages: Vec<(StatusLevel, String)> =
        state.status_log.iter().map(|e| (e.level, e.message.clone())).collect();
    assert_eq!(
        messages,
        vec![
            (StatusLevel::Info, "Pipeline started".to_string()),
            (StatusLevel::Warning, "slow".to_string()),
            (StatusLevel::Info, "Capture complete – 120 frames, 2 capture errors, 1 dropped".to_string()),
        ]
    );
    assert_eq!(state.last_report.unwrap().frames_transmitted, 120);
    state.stop_pipeline();
    assert_eq!(state.status_log.len(), 3);
    state.running = true;
    state.handle_pipeline_event(PipelineEvent::Error { message: "boom".to_string() });
    assert_eq!(state.pipeline_state, PipelineState::Error);
    assert!(!state.running);
}

#[test]
fn status_history_is_bounded() {
    let mut state = ControlState::new();
    for i in 0..(STATUS_HISTORY + 5) {
        state.push_status(StatusLevel::Info, format!("m{i}"));
    }
    assert_eq!(state.status_log.len(), STATUS_HISTORY);
    assert_eq!(state.status_log.front().unwrap().message, "m5");
    state.running = true;
    state.cleanup_finished_handle(false);
    assert!(state.running);
    state.cleanup_finished_handle(true);
    assert!(!state.running);
    state.running = true;
    state.stop_pipeline();
    assert_eq!(state.status_log.back().unwrap().message, "Stop requested");
}
