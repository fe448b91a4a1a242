use desktop_stream::error::AppError;
use desktop_stream::network::endpoint::EndpointConfig;
use desktop_stream::receiver::config::{order_presets, CliArgs, ReceiverConfig};
use desktop_stream::receiver::metrics::MetricsCollector;
use desktop_stream::receiver::pipeline::{
    bgra_to_rgba, default_buffering_presets, frame_limit_reached, prepare_pixels, push_drop_reports,
    render_frame_from, BufferingPresetConfig, ControlEvent, DecodedFrame, NetworkLoopState, PipelineStatus,
    QueuePushOutcome, ReceiverPipeline, RenderQueue,
};
use desktop_stream::receiver::render::{ConnectionPanel, ConnectionState};
use std::time::Instant;

fn message(e: AppError) -> String {
    match e {
        AppError::Message(m) => m,
        other => panic!("unexpected error {:?}", other),
    }
}

fn no_args() -> CliArgs {
    CliArgs {
        config: None,
        address: None,
        bind: None,
        jitter_capacity: None,
        max_latency: None,
        decode_queue: None,
        render_queue: None,
        width: None,
        height: None,
        refresh_rate: None,
        metrics_interval: None,
        window_title: None,
        frame_limit: None,
    }
}

fn strings(items: &[&str]) -> Vec<String> {
    items.iter().map(|s| s.to_string()).collect()
}

#[test]
fn presets_start_with_the_own_address_then_sorted() {
    let ordered = order_presets(strings(&[" b:1 ", "", "a:1", "b:1", "   ", "c:1"]), &"c:1".to_string());
    assert_eq!(ordered, strings(&["c:1", "a:1", "b:1"]));
    let added = order_presets(strings(&["z:1"]), &"m:1".to_string());
    assert_eq!(added, strings(&["m:1", "z:1"]));
}

#[test]
fn defaults_come_through_the_command_line() {
    let config = ReceiverConfig::from_cli(no_args(), None).unwrap();
    assert_eq!(config.network.address, "127.0.0.1:5000");
    assert_eq!(config.network.jitter_buffer_capacity, 48);
    assert_eq!(config.pipeline.decode_queue, 10);
    assert_eq!(config.pipeline.render_queue, 8);
    assert_eq!(config.network.sender_presets, strings(&["127.0.0.1:5000"]));
    assert_eq!(config.pipeline.frame_limit, None);
    assert_eq!(config.max_latency(), config.pipeline.max_latency_ms);
    assert_eq!(config.expected_frame_bytes(), config.render.width as usize * config.render.height as usize * 4);
}

#[test]
fn command_line_overrides_the_file() {
    let mut file = ReceiverConfig::default();
    file.network.sender_presets = strings(&["10.0.0.9:5000"]);
    file.render.width = 640;
    let mut args = no_args();
    args.address = Some("127.0.0.1:6000".to_string());
    args.jitter_capacity = Some(8);
    args.frame_limit = Some(10);
    args.decode_queue = Some(0);
    args.window_title = Some("Remote".to_string());
    let config = ReceiverConfig::from_cli(args, Some(file)).unwrap();
    assert_eq!(config.network.address, "127.0.0.1:6000");
    assert_eq!(config.network.sender_presets, strings(&["127.0.0.1:6000", "10.0.0.9:5000"]));
    assert_eq!(config.network.jitter_buffer_capacity, 8);
    assert_eq!(config.pipeline.frame_limit, Some(10));
    assert!(config.pipeline.decode_queue > 0);
    assert_eq!(config.render.width, 640);
    assert_eq!(config.render.window_title, "Remote");
    let endpoint = config.endpoint_config();
    assert_eq!(endpoint.address, "127.0.0.1:6000");
    assert_eq!(endpoint.jitter_buffer_capacity, 8);
}

#[test]
fn receiver_command_line_errors_are_reported() {
    let mut args = no_args();
    args.jitter_capacity = Some(0);
    assert_eq!(
        message(ReceiverConfig::from_cli(args, None).unwrap_err()),
        "jitter buffer capacity must be greater than zero"
    );
    let mut args = no_args();
    args.address = Some("here".to_string());
    assert_eq!(
        message(ReceiverConfig::from_cli(args, None).unwrap_err()),
        "invalid socket address 'here': invalid socket address syntax"
    );
    let mut args = no_args();
    args.bind = Some("there".to_string());
    assert_eq!(
        message(ReceiverConfig::from_cli(args, None).unwrap_err()),
        "invalid socket address 'there': invalid socket address syntax"
    );
    let mut config = ReceiverConfig::default();
    config.network.jitter_buffer_capacity = 0;
    assert_eq!(message(ReceiverPipeline::new(config).unwrap_err()), "jitter buffer capacity must be greater than zero");
    assert!(ReceiverPipeline::new(ReceiverConfig::default()).is_ok());
}

#[test]
fn buffering_presets_follow_the_configuration() {
    let mut config = ReceiverConfig::default();
    config.pipeline.render_queue = 5;
    config.pipeline.max_latency_ms = 200;
    let presets = default_buffering_presets(&config);
    let summary: Vec<(String, usize, u64)> =
        presets.into_iter().map(|p| (p.label, p.max_frames, p.max_latency_ms)).collect();
    assert_eq!(
        summary,
        vec![
            ("Low latency".to_string(), 2, 100),
            ("Balanced".to_string(), 5, 200),
            ("High jitter tolerance".to_string(), 10, 400),
        ]
    );
    config.pipeline.render_queue = 40;
    config.pipeline.max_latency_ms = 1_500;
    let high = &default_buffering_presets(&config)[2];
    assert_eq!((high.max_frames, high.max_latency_ms), (64, 2_000));
    let p = BufferingPresetConfig::new("x", 0, 0);
    assert_eq!((p.max_frames, p.max_latency_ms), (1, 1));
}

fn decoded(frame_id: u64, timestamp_micros: u64) -> DecodedFrame {
    DecodedFrame {
        frame_id,
        session_id: 1,
        pixels: vec![frame_id as u8],
        width: 1,
        height: 1,
        timestamp_micros,
        arrival_micros: timestamp_micros,
        decode_latency_micros: 0,
        enqueue_instant: Instant::now(),
    }
}

#[test]
fn render_queue_drops_the_oldest_when_full() {
    let mut q = RenderQueue::new(2, 100);
    let now = 1_000_000;
    let now_nanos = now as u128 * 1_000;
    assert!(q.push(decoded(1, now), now_nanos).accepted);
    assert!(q.push(decoded(2, now), now_nanos).accepted);
    let o = q.push(decoded(3, now), now_nanos);
    assert!(o.accepted);
    assert_eq!(o.overflow_dropped, 1);
    assert_eq!(o.queue_depth, 2);
    assert_eq!(q.dropped_total, 1);
    let first = q.pop(now_nanos).unwrap();
    assert_eq!(first.frame.frame_id, 2);
    assert_eq!(first.remaining, 1);
    let shown = render_frame_from(first);
    assert_eq!(shown.frame_id, 2);
    assert_eq!(shown.queue_depth, 1);
}

#[test]
fn render_queue_refuses_and_trims_stale_frames() {
    let mut q = RenderQueue::new(4, 10);
    // The bound is 10 ms plus 5 ms of grace.
    assert!(q.push(decoded(1, 1_000), 16_000_000).accepted);
    let late = q.push(decoded(2, 0), 16_000_000);
    assert!(!late.accepted);
    assert!(late.dropped_new_frame);
    assert_eq!(push_drop_reports(&late), vec![1]);
    // Later, the first frame has grown too old too.
    assert!(q.pop(20_000_000).is_none());
    assert_eq!(q.dropped_total, 2);
    assert!(q.push(decoded(3, 30_000), 20_000_000).accepted);
    assert_eq!(q.clear(), 1);
    assert_eq!(q.dropped_total, 3);
}

#[test]
fn render_queue_counts_age_in_nanoseconds() {
    let mut q = RenderQueue::new(4, 10);
    // Exactly 15 ms old is still in time; one nanosecond more is too late.
    assert!(q.push(decoded(1, 1_000), 16_000_000).accepted);
    let late = q.push(decoded(2, 1_000), 16_000_001);
    assert!(!late.accepted);
    assert_eq!(late.stale_dropped, 1);
}

#[test]
fn render_queue_bounds_can_change() {
    let mut q = RenderQueue::new(5, 1_000);
    for id in 0..5 {
        q.push(decoded(id, 100), 100_000);
    }
    assert_eq!(q.set_buffering_at(2, 1_000, 100_000), 3);
    assert_eq!(q.max_frames, 2);
    assert_eq!(q.pop(100_000).unwrap().frame.frame_id, 3);
    assert_eq!(q.set_buffering_at(0, 1_000, 100_000), 0);
    assert_eq!(q.max_frames, 1);
}

#[test]
fn drop_reports_list_each_cause() {
    let o = QueuePushOutcome { accepted: true, queue_depth: 1, stale_dropped: 2, overflow_dropped: 1, dropped_new_frame: false };
    assert_eq!(push_drop_reports(&o), vec![2, 1]);
    let none = QueuePushOutcome { accepted: true, queue_depth: 1, stale_dropped: 0, overflow_dropped: 0, dropped_new_frame: false };
    assert!(push_drop_reports(&none).is_empty());
}

#[test]
fn pixels_lose_the_marker_and_the_excess() {
    let mut payload = vec![9u8; 10];
    payload.extend_from_slice(b"H264");
    assert_eq!(prepare_pixels(payload.clone(), 8).unwrap(), vec![9u8; 8]);
    assert_eq!(
        message(prepare_pixels(payload, 12).unwrap_err()),
        "decoded frame too small: expected 12 bytes, got 10"
    );
    assert_eq!(prepare_pixels(vec![1, 2, 3], 3).unwrap(), vec![1, 2, 3]);
}

#[test]
fn bgra_becomes_rgba() {
    assert_eq!(bgra_to_rgba(&[1, 2, 3, 4, 5, 6, 7, 8, 9]), vec![3, 2, 1, 4, 7, 6, 5, 8]);
    assert!(bgra_to_rgba(&[]).is_empty());
}

#[test]
fn frame_limit() {
    assert!(!frame_limit_reached(100, None));
    assert!(!frame_limit_reached(9, Some(10)));
    assert!(frame_limit_reached(10, Some(10)));
}

#[test]
fn network_task_announces_its_connection() {
    let (mut state, status) = NetworkLoopState::new(EndpointConfig::new("0.0.0.0:5000"));
    assert!(matches!(status, PipelineStatus::Connecting { ref address } if address == "0.0.0.0:5000"));
    assert!(matches!(state.frame_received(), Some(PipelineStatus::Connected { ref address }) if address == "0.0.0.0:5000"));
    assert!(state.frame_received().is_none());
    let failed = state.receive_failed("timeout".to_string());
    assert!(matches!(failed, PipelineStatus::ConnectionFailed { ref error, .. } if error == "timeout"));
    let switched = state.select_sender("10.0.0.1:5000".to_string());
    assert!(matches!(switched, PipelineStatus::Connecting { ref address } if address == "10.0.0.1:5000"));
    assert_eq!(state.endpoint.address, "10.0.0.1:5000");
    assert!(!state.connected);
}

#[test]
fn connection_panel_follows_the_pipeline() {
    let presets = vec![BufferingPresetConfig::new("A", 2, 50), BufferingPresetConfig::new("B", 4, 100)];
    let (mut panel, event) = ConnectionPanel::new(strings(&["a:1", "b:2"]), presets);
    assert!(matches!(event, Some(ControlEvent::SetBuffering { max_frames: 2, max_latency_ms: 50 })));
    assert_eq!(panel.connection_status_text(), ("Connecting to a:1".to_string(), (243, 156, 18)));
    panel.handle_status(PipelineStatus::Connected { address: "b:2".to_string() });
    assert_eq!(panel.selected_sender_index, 1);
    assert_eq!(panel.connection_status_text(), ("Connected to b:2".to_string(), (46, 204, 113)));
    assert!(panel.request_sender_switch(1).is_none());
    assert!(matches!(panel.request_sender_switch(0), Some(ControlEvent::SelectSender { ref address }) if address == "a:1"));
    assert!(panel.request_sender_switch(5).is_none());
    assert!(panel.apply_buffering_preset(0).is_none());
    assert!(matches!(panel.apply_buffering_preset(1), Some(ControlEvent::SetBuffering { max_frames: 4, .. })));
    panel.handle_status(PipelineStatus::ConnectionFailed { address: "a:1".to_string(), error: "refused".to_string() });
    assert_eq!(panel.connection_status_text(), ("Failed to a:1: refused".to_string(), (231, 76, 60)));
    panel.handle_status(PipelineStatus::Disconnected);
    assert!(matches!(panel.connection_state, ConnectionState::Disconnected));
    let (idle, none) = ConnectionPanel::new(vec![], vec![]);
    assert!(none.is_none());
    assert_eq!(idle.connection_status_text(), ("Idle".to_string(), (160, 160, 160)));
}

#[test]
fn receiver_metrics_window() {
    let mut m = MetricsCollector::new(1_000);
    assert!(m.record_dropped_elapsed(2, 10).is_none());
    assert!(m.interval() >= 1);
}

#[test]
fn rebuffering_now_drops_frames_captured_long_ago() {
    let mut q = RenderQueue::new(4, 1_000);
    assert!(q.push(decoded(1, 0), 0).accepted);
    assert!(q.push(decoded(2, u64::MAX), 0).accepted);
    // Read against the wall clock, the frame from the epoch is long stale;
    // the one stamped at the end of time is not.
    assert_eq!(q.set_buffering(4, 1_000), 1);
    assert_eq!(q.frames.len(), 1);
    assert_eq!(q.frames[0].frame_id, 2);
}
