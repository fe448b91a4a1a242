//! Sender configuration: defaults, command-line overrides and validation.
use vstd::prelude::*;
use crate::codec::{CodecConfig, CodecKind};
use crate::error::AppError;
use crate::network::addr::socket_spec;
use crate::network::endpoint::{invalid_address_message, validate_address};
use crate::text::{
    decimal_spec, lemma_decimal_reads_back, lemma_digits_free_of, lemma_split_pair, parse_unsigned,
    parse_unsigned_chars, split_on, split_spec,
};

verus! {

pub const DEFAULT_FRAME_RATE: u32 = 60;

pub const DEFAULT_METRICS_INTERVAL_SECS: u64 = 5;

pub const DEFAULT_CHANNEL_CAPACITY: usize = 6;

pub const DEFAULT_RETRY_ATTEMPTS: usize = 5;

pub const DEFAULT_RETRY_BACKOFF_MS: u64 = 1_000;

pub const DEFAULT_BITRATE_LOW: u32 = 4_000_000;

pub const DEFAULT_BITRATE_MEDIUM: u32 = 8_000_000;

pub const DEFAULT_BITRATE_HIGH: u32 = 12_000_000;

pub const DEFAULT_MOCK_FRAME_COUNT: usize = 120;

/// The address a sender streams to unless told otherwise.
pub open spec fn default_address_spec() -> Seq<char> {
    "127.0.0.1:5000"@
}

pub fn default_address() -> (s: String)
    ensures
        s@ == default_address_spec(),
{
    String::from_str("127.0.0.1:5000")
}

/// A display output: the adapter and the output on it.
#[derive(Debug, Clone, Copy, PartialEq, Eq, Structural)]
pub struct MonitorId {
    pub adapter_index: u32,
    pub output_index: u32,
}

impl MonitorId {
    /// The primary output of the primary adapter.
    pub fn primary() -> (m: MonitorId)
        ensures
            m.adapter_index == 0 && m.output_index == 0,
    {
        MonitorId { adapter_index: 0, output_index: 0 }
    }
}

/// What the capture stage is set up with.
#[derive(Debug, Clone, Copy, PartialEq, Eq, Structural)]
pub struct CaptureConfig {
    pub monitor: MonitorId,
    pub frame_rate: u32,
}

impl CaptureConfig {
    /// Capture of `monitor` at the default frame rate.
    pub fn new(monitor: MonitorId) -> (c: CaptureConfig)
        ensures
            c.monitor == monitor,
            c.frame_rate == DEFAULT_FRAME_RATE,
    {
        CaptureConfig { monitor, frame_rate: DEFAULT_FRAME_RATE }
    }

    /// The same capture at `frame_rate` frames per second.
    pub fn with_frame_rate(self, frame_rate: u32) -> (c: CaptureConfig)
        requires
            frame_rate > 0,
        ensures
            c.monitor == self.monitor,
            c.frame_rate == frame_rate,
    {
        CaptureConfig { monitor: self.monitor, frame_rate }
    }
}

/// A target resolution given on the command line.
#[derive(Debug, Clone, Copy, PartialEq, Eq, Structural)]
pub struct ResolutionOverride {
    pub width: u32,
    pub height: u32,
}

/// A monitor given on the command line.
#[derive(Debug, Clone, Copy, PartialEq, Eq, Structural)]
pub struct MonitorSelection {
    pub adapter_index: u32,
    pub output_index: u32,
}

/// Encoder bitrate presets.
#[derive(Debug, Clone, Copy, PartialEq, Eq, Structural)]
pub enum BitratePreset {
    Low,
    Medium,
    High,
    Custom,
}

impl Default for BitratePreset {
    fn default() -> (p: Self)
        ensures
            p == BitratePreset::Medium,
    {
        BitratePreset::Medium
    }
}

/// How frames are scaled.
#[derive(Debug, Clone, Copy, PartialEq, Eq, Structural)]
pub enum ScalingMethod {
    Dxgi,
    Software,
}

impl Default for ScalingMethod {
    fn default() -> (m: Self)
        ensures
            m == ScalingMethod::Software,
    {
        ScalingMethod::Software
    }
}

/// Scaling of captured frames to a fixed resolution.
#[derive(Debug, Clone, Copy, PartialEq, Eq, Structural)]
pub struct ScalingSettings {
    pub width: u32,
    pub height: u32,
    pub method: ScalingMethod,
}

/// Which output to capture and how often.
#[derive(Debug, Clone, Copy, PartialEq, Eq, Structural)]
pub struct CaptureSettings {
    pub adapter_index: Option<u32>,
    pub output_index: Option<u32>,
    pub frame_rate: Option<u32>,
}

impl Default for CaptureSettings {
    fn default() -> (c: Self)
        ensures
            c.adapter_index is None,
            c.output_index is None,
            c.frame_rate == Some(DEFAULT_FRAME_RATE),
    {
        CaptureSettings { adapter_index: None, output_index: None, frame_rate: Some(DEFAULT_FRAME_RATE) }
    }
}

/// The frame rate a capture runs at: the configured one or the default.
pub open spec fn capture_rate_spec(c: CaptureSettings) -> u32 {
    match c.frame_rate {
        Some(r) => r,
        None => DEFAULT_FRAME_RATE,
    }
}

impl CaptureSettings {
    /// The configured output, defaulting each index to the primary one.
    pub fn monitor_id(&self) -> (m: MonitorId)
        ensures
            m.adapter_index == match self.adapter_index { Some(a) => a, None => 0 },
            m.output_index == match self.output_index { Some(o) => o, None => 0 },
    {
        let primary = MonitorId::primary();
        MonitorId {
            adapter_index: match self.adapter_index { Some(a) => a, None => primary.adapter_index },
            output_index: match self.output_index { Some(o) => o, None => primary.output_index },
        }
    }

    /// The capture frame rate, which must be positive.
    pub fn frame_rate(&self) -> (r: Result<u32, AppError>)
        ensures
            match r {
                Ok(rate) => rate == capture_rate_spec(*self) && rate > 0,
                Err(AppError::Message(m)) => capture_rate_spec(*self) == 0
                    && m@ == "capture frame rate must be positive"@,
                Err(_) => false,
            },
    {
        let rate = match self.frame_rate { Some(r) => r, None => DEFAULT_FRAME_RATE };
        if rate == 0 {
            return Err(AppError::Message(String::from_str("capture frame rate must be positive")));
        }
        Ok(rate)
    }
}

/// Encoder bitrate and frame rate settings.
#[derive(Debug, Clone, Copy, PartialEq, Eq, Structural)]
pub struct EncoderSettings {
    pub preset: BitratePreset,
    pub bitrate: Option<u32>,
    pub framerate: Option<u32>,
}

impl Default for EncoderSettings {
    fn default() -> (e: Self)
        ensures
            e.preset == BitratePreset::Medium,
            e.bitrate is None,
            e.framerate is None,
    {
        EncoderSettings { preset: BitratePreset::Medium, bitrate: None, framerate: None }
    }
}

/// The bitrate an encoder setting stands for, or the message of why there is none.
pub open spec fn effective_bitrate_spec(e: EncoderSettings) -> Result<u32, Seq<char>> {
    match e.bitrate {
        Some(v) => if v == 0 { Err("encoder bitrate must be positive"@) } else { Ok(v) },
        None => match e.preset {
            BitratePreset::Low => Ok(DEFAULT_BITRATE_LOW),
            BitratePreset::Medium => Ok(DEFAULT_BITRATE_MEDIUM),
            BitratePreset::High => Ok(DEFAULT_BITRATE_HIGH),
            BitratePreset::Custom => Err("custom preset requires explicit bitrate override"@),
        },
    }
}

impl EncoderSettings {
    /// An explicit bitrate wins over the preset; a custom preset needs one.
    pub fn effective_bitrate(&self) -> (r: Result<u32, AppError>)
        ensures
            match r {
                Ok(v) => effective_bitrate_spec(*self) == Ok::<u32, Seq<char>>(v),
                Err(AppError::Message(m)) => effective_bitrate_spec(*self) == Err::<u32, Seq<char>>(m@),
                Err(_) => false,
            },
    {
        match self.bitrate {
            Some(value) => {
                if value == 0 {
                    return Err(AppError::Message(String::from_str("encoder bitrate must be positive")));
                }
                Ok(value)
            },
            None => match self.preset {
                BitratePreset::Low => Ok(DEFAULT_BITRATE_LOW),
                BitratePreset::Medium => Ok(DEFAULT_BITRATE_MEDIUM),
                BitratePreset::High => Ok(DEFAULT_BITRATE_HIGH),
                BitratePreset::Custom => Err(
                    AppError::Message(String::from_str("custom preset requires explicit bitrate override")),
                ),
            },
        }
    }
}

/// Where frames are sent.
#[derive(Debug, Clone)]
pub struct NetworkSettings {
    pub address: String,
}

impl Default for NetworkSettings {
    fn default() -> (n: Self)
        ensures
            n.address@ == default_address_spec(),
    {
        NetworkSettings { address: default_address() }
    }
}

/// Channel sizes, retry policy and mock capture switches.
#[derive(Debug, Clone, Copy, PartialEq, Eq, Structural)]
pub struct PipelineSettings {
    pub channel_capacity: usize,
    pub max_retries: usize,
    pub retry_backoff_ms: u64,
    pub use_mock_components: bool,
    pub mock_frame_count: Option<usize>,
}

impl Default for PipelineSettings {
    fn default() -> (p: Self)
        ensures
            p.channel_capacity == DEFAULT_CHANNEL_CAPACITY,
            p.max_retries == DEFAULT_RETRY_ATTEMPTS,
            p.retry_backoff_ms == DEFAULT_RETRY_BACKOFF_MS,
            !p.use_mock_components,
            p.mock_frame_count is None,
    {
        PipelineSettings {
            channel_capacity: DEFAULT_CHANNEL_CAPACITY,
            max_retries: DEFAULT_RETRY_ATTEMPTS,
            retry_backoff_ms: DEFAULT_RETRY_BACKOFF_MS,
            use_mock_components: false,
            mock_frame_count: None,
        }
    }
}

impl PipelineSettings {
    /// The pause between capture retries, in milliseconds (at least one).
    pub fn retry_backoff(&self) -> (ms: u64)
        ensures
            ms == if self.retry_backoff_ms > 1 { self.retry_backoff_ms } else { 1 },
    {
        if self.retry_backoff_ms > 1 { self.retry_backoff_ms } else { 1 }
    }
}

/// How often metrics are logged.
#[derive(Debug, Clone, Copy, PartialEq, Eq, Structural)]
pub struct MetricsSettings {
    pub log_interval_secs: u64,
}

impl Default for MetricsSettings {
    fn default() -> (m: Self)
        ensures
            m.log_interval_secs == DEFAULT_METRICS_INTERVAL_SECS,
    {
        MetricsSettings { log_interval_secs: DEFAULT_METRICS_INTERVAL_SECS }
    }
}

impl MetricsSettings {
    /// The logging interval in seconds (at least one).
    pub fn interval(&self) -> (secs: u64)
        ensures
            secs == if self.log_interval_secs > 1 { self.log_interval_secs } else { 1 },
    {
        if self.log_interval_secs > 1 { self.log_interval_secs } else { 1 }
    }
}

/// The command line of the sender.
#[derive(Debug, Clone)]
pub struct CliArgs {
    pub config: Option<String>,
    pub monitor: Option<String>,
    pub frame_rate: Option<u32>,
    pub scale: Option<ResolutionOverride>,
    pub disable_scaling: bool,
    pub bitrate_preset: Option<BitratePreset>,
    pub bitrate: Option<u32>,
    pub address: Option<String>,
    pub use_mocks: bool,
    pub mock_frames: Option<usize>,
    pub gui: bool,
}

/// The whole sender configuration.
#[derive(Debug, Clone)]
pub struct SenderConfig {
    pub capture: CaptureSettings,
    pub scaling: Option<ScalingSettings>,
    pub encoder: EncoderSettings,
    pub network: NetworkSettings,
    pub pipeline: PipelineSettings,
    pub metrics: MetricsSettings,
}

impl Default for SenderConfig {
    fn default() -> (c: Self)
        ensures
            c.capture.frame_rate == Some(DEFAULT_FRAME_RATE),
            c.capture.adapter_index is None,
            c.capture.output_index is None,
            c.scaling is None,
            c.encoder.preset == BitratePreset::Medium,
            c.encoder.bitrate is None,
            c.encoder.framerate is None,
            c.network.address@ == default_address_spec(),
            c.pipeline.channel_capacity == DEFAULT_CHANNEL_CAPACITY,
            c.pipeline.max_retries == DEFAULT_RETRY_ATTEMPTS,
            c.pipeline.retry_backoff_ms == DEFAULT_RETRY_BACKOFF_MS,
            !c.pipeline.use_mock_components,
            c.pipeline.mock_frame_count is None,
            c.metrics.log_interval_secs == DEFAULT_METRICS_INTERVAL_SECS,
    {
        SenderConfig {
            capture: CaptureSettings::default(),
            scaling: None,
            encoder: EncoderSettings::default(),
            network: NetworkSettings::default(),
            pipeline: PipelineSettings::default(),
            metrics: MetricsSettings::default(),
        }
    }
}

/// The first problem `normalise` finds, as its message, from the capture
/// and scaling settings and the address.
pub open spec fn sender_problem(capture: CaptureSettings, scaling: Option<ScalingSettings>, address: Seq<char>) -> Option<Seq<char>> {
    let address = if address.len() == 0 { default_address_spec() } else { address };
    if capture_rate_spec(capture) == 0 {
        Some("capture frame rate must be positive"@)
    } else if scaling is Some && (scaling->0.width == 0 || scaling->0.height == 0) {
        Some("scaling dimensions must be positive"@)
    } else if socket_spec(address) is None {
        Some(invalid_address_message(address))
    } else {
        None
    }
}

pub open spec fn default_capture_spec() -> CaptureSettings {
    CaptureSettings { adapter_index: None, output_index: None, frame_rate: Some(DEFAULT_FRAME_RATE) }
}

pub open spec fn default_encoder_spec() -> EncoderSettings {
    EncoderSettings { preset: BitratePreset::Medium, bitrate: None, framerate: None }
}

pub open spec fn default_pipeline_spec() -> PipelineSettings {
    PipelineSettings {
        channel_capacity: DEFAULT_CHANNEL_CAPACITY,
        max_retries: DEFAULT_RETRY_ATTEMPTS,
        retry_backoff_ms: DEFAULT_RETRY_BACKOFF_MS,
        use_mock_components: false,
        mock_frame_count: None,
    }
}

pub open spec fn default_metrics_spec() -> MetricsSettings {
    MetricsSettings { log_interval_secs: DEFAULT_METRICS_INTERVAL_SECS }
}

/// The capture settings once the command line has overridden them.
pub open spec fn cli_capture_spec(base: CaptureSettings, args: CliArgs) -> CaptureSettings {
    let (adapter, output) = match args.monitor {
        Some(raw) => match parse_monitor_spec(raw@) {
            Ok(sel) => (Some(sel.adapter_index), Some(sel.output_index)),
            Err(_) => (base.adapter_index, base.output_index),
        },
        None => (base.adapter_index, base.output_index),
    };
    CaptureSettings {
        adapter_index: adapter,
        output_index: output,
        frame_rate: match args.frame_rate { Some(r) => Some(r), None => base.frame_rate },
    }
}

/// The scaling settings once the command line has overridden them.
pub open spec fn cli_scaling_spec(base: Option<ScalingSettings>, args: CliArgs) -> Option<ScalingSettings> {
    if args.disable_scaling {
        None
    } else {
        match args.scale {
            Some(res) => Some(ScalingSettings {
                width: res.width,
                height: res.height,
                method: match base { Some(b) => b.method, None => ScalingMethod::Software },
            }),
            None => base,
        }
    }
}

/// The encoder settings once the command line has overridden them.
pub open spec fn cli_encoder_spec(base: EncoderSettings, args: CliArgs) -> EncoderSettings {
    EncoderSettings {
        preset: match args.bitrate_preset { Some(p) => p, None => base.preset },
        bitrate: match args.bitrate { Some(b) => Some(b), None => base.bitrate },
        framerate: base.framerate,
    }
}

/// The pipeline settings once the command line has overridden them.
pub open spec fn cli_pipeline_spec(base: PipelineSettings, args: CliArgs) -> PipelineSettings {
    PipelineSettings {
        use_mock_components: base.use_mock_components || args.use_mocks,
        mock_frame_count: match args.mock_frames { Some(n) => Some(n), None => base.mock_frame_count },
        ..base
    }
}

/// The address once the command line has overridden it.
pub open spec fn cli_address_spec(base: Seq<char>, args: CliArgs) -> Seq<char> {
    match args.address {
        Some(a) => a@,
        None => base,
    }
}

/// What `normalise` leaves of pipeline settings.
pub open spec fn normalised_pipeline(p: PipelineSettings) -> PipelineSettings {
    PipelineSettings {
        channel_capacity: if p.channel_capacity == 0 { DEFAULT_CHANNEL_CAPACITY } else { p.channel_capacity },
        mock_frame_count: if p.use_mock_components && p.mock_frame_count is None {
            Some(DEFAULT_MOCK_FRAME_COUNT)
        } else {
            p.mock_frame_count
        },
        ..p
    }
}

/// What `normalise` leaves of an address.
pub open spec fn normalised_address(a: Seq<char>) -> Seq<char> {
    if a.len() == 0 { default_address_spec() } else { a }
}

/// What `from_cli` gives for `args` over `file` (the defaults when it is
/// `None`): the overrides applied, then checked and normalised; a monitor
/// that does not parse, or the first problem of the result, as the error.
pub open spec fn from_cli_outcome(args: CliArgs, file: Option<SenderConfig>, r: Result<SenderConfig, AppError>) -> bool {
    let base_capture = match file { Some(c) => c.capture, None => default_capture_spec() };
    let base_scaling = match file { Some(c) => c.scaling, None => None };
    let base_encoder = match file { Some(c) => c.encoder, None => default_encoder_spec() };
    let base_pipeline = match file { Some(c) => c.pipeline, None => default_pipeline_spec() };
    let base_metrics = match file { Some(c) => c.metrics, None => default_metrics_spec() };
    let base_address = match file { Some(c) => c.network.address@, None => default_address_spec() };
    let capture = cli_capture_spec(base_capture, args);
    let scaling = cli_scaling_spec(base_scaling, args);
    let address = cli_address_spec(base_address, args);
    let bad_monitor = args.monitor is Some && parse_monitor_spec(args.monitor->0@) is Err;
    match r {
        Ok(c) => {
            &&& !bad_monitor
            &&& sender_problem(capture, scaling, address) is None
            &&& c.capture == capture
            &&& c.scaling == scaling
            &&& c.encoder == cli_encoder_spec(base_encoder, args)
            &&& c.metrics == base_metrics
            &&& c.pipeline == normalised_pipeline(cli_pipeline_spec(base_pipeline, args))
            &&& c.network.address@ == normalised_address(address)
        },
        Err(AppError::Message(m)) => if bad_monitor {
            parse_monitor_spec(args.monitor->0@) == Err::<MonitorSelection, Seq<char>>(m@)
        } else {
            sender_problem(capture, scaling, address) == Some(m@)
        },
        Err(_) => false,
    }
}

/// Values given on the command line win: when `from_cli` succeeds, the
/// encoder has the bitrate (and then that effective bitrate, when it is
/// positive) and the preset given, the capture the frame rate and the
/// monitor given, scaling is off when switched off and otherwise has the
/// size given, the address is the one given (unless blank), and the mock
/// settings are those given.
pub proof fn lemma_cli_values_win(args: CliArgs, file: Option<SenderConfig>, c: SenderConfig)
    requires
        from_cli_outcome(args, file, Ok(c)),
    ensures
        args.bitrate matches Some(b) ==> c.encoder.bitrate == Some(b)
            && (b > 0 ==> effective_bitrate_spec(c.encoder) == Ok::<u32, Seq<char>>(b)),
        args.bitrate_preset matches Some(p) ==> c.encoder.preset == p,
        args.frame_rate matches Some(rate) ==> c.capture.frame_rate == Some(rate),
        args.monitor matches Some(m) ==> parse_monitor_spec(m@) matches Ok(sel)
            && c.capture.adapter_index == Some(sel.adapter_index)
            && c.capture.output_index == Some(sel.output_index),
        args.disable_scaling ==> c.scaling is None,
        !args.disable_scaling ==> (args.scale matches Some(res) ==> c.scaling matches Some(sc)
            && sc.width == res.width && sc.height == res.height),
        args.address matches Some(a) ==> (a@.len() > 0 ==> c.network.address@ == a@),
        args.use_mocks ==> c.pipeline.use_mock_components,
        args.mock_frames matches Some(n) ==> c.pipeline.mock_frame_count == Some(n),
{
}

impl SenderConfig {
    /// Checks the configuration and fills in defaults; see `normalise`.
    pub fn validate(&mut self) -> (r: Result<(), AppError>)
        ensures
            SenderConfig::normalise_post(*old(self), *final(self), r),
    {
        self.normalise()
    }

    /// What `normalise` does: a zero frame rate or scaling dimension is
    /// refused with the configuration untouched; otherwise the channel
    /// capacity, mock frame count and address get their defaults where
    /// missing, and the address must parse.
    pub open spec fn normalise_post(c: SenderConfig, out: SenderConfig, r: Result<(), AppError>) -> bool {
        let problem = sender_problem(c.capture, c.scaling, c.network.address@);
        &&& match r {
            Ok(()) => problem is None,
            Err(AppError::Message(m)) => problem == Some(m@),
            Err(_) => false,
        }
        &&& if capture_rate_spec(c.capture) == 0 || (c.scaling is Some && (c.scaling->0.width == 0
            || c.scaling->0.height == 0)) {
            out == c
        } else {
            &&& out.capture == c.capture
            &&& out.scaling == c.scaling
            &&& out.encoder == c.encoder
            &&& out.metrics == c.metrics
            &&& out.pipeline == normalised_pipeline(c.pipeline)
            &&& out.network.address@ == normalised_address(c.network.address@)
        }
    }

    fn normalise(&mut self) -> (r: Result<(), AppError>)
        ensures
            SenderConfig::normalise_post(*old(self), *final(self), r),
    {
        let rate = match self.capture.frame_rate { Some(r) => r, None => DEFAULT_FRAME_RATE };
        if rate == 0 {
            return Err(AppError::Message(String::from_str("capture frame rate must be positive")));
        }
        match self.scaling {
            Some(scaling) => {
                if scaling.width == 0 || scaling.height == 0 {
                    return Err(AppError::Message(String::from_str("scaling dimensions must be positive")));
                }
            },
            None => {},
        }
        if self.pipeline.channel_capacity == 0 {
            self.pipeline.channel_capacity = DEFAULT_CHANNEL_CAPACITY;
        }
        if self.pipeline.use_mock_components && self.pipeline.mock_frame_count.is_none() {
            self.pipeline.mock_frame_count = Some(DEFAULT_MOCK_FRAME_COUNT);
        }
        if self.network.address.as_str().is_empty() {
            self.network.address = NetworkSettings::default().address;
        }
        validate_address(self.network.address.as_str())
    }

    /// The configuration to run with: the one read from the file named on
    /// the command line (`file`, when it names one) or the defaults, with
    /// the command-line overrides applied, then checked and normalised.
    pub fn from_cli(args: CliArgs, file: Option<SenderConfig>) -> (r: Result<SenderConfig, AppError>)
        ensures
            from_cli_outcome(args, file, r),
    {
        let mut config = match file {
            Some(c) => c,
            None => SenderConfig::default(),
        };
        match &args.monitor {
            Some(raw) => {
                let selection = match parse_monitor(raw.as_str()) {
                    Ok(s) => s,
                    Err(e) => return Err(e),
                };
                config.capture.adapter_index = Some(selection.adapter_index);
                config.capture.output_index = Some(selection.output_index);
            },
            None => {},
        }
        match args.frame_rate {
            Some(rate) => { config.capture.frame_rate = Some(rate); },
            None => {},
        }
        match args.scale {
            Some(resolution) => {
                let mut scaling = match config.scaling {
                    Some(s) => s,
                    None => ScalingSettings {
                        width: resolution.width,
                        height: resolution.height,
                        method: ScalingMethod::Software,
                    },
                };
                scaling.width = resolution.width;
                scaling.height = resolution.height;
                config.scaling = Some(scaling);
            },
            None => {},
        }
        if args.disable_scaling {
            config.scaling = None;
        }
        match args.bitrate_preset {
            Some(preset) => { config.encoder.preset = preset; },
            None => {},
        }
        match args.bitrate {
            Some(bitrate) => { config.encoder.bitrate = Some(bitrate); },
            None => {},
        }
        match &args.address {
            Some(address) => { config.network.address = address.clone(); },
            None => {},
        }
        if args.use_mocks {
            config.pipeline.use_mock_components = true;
        }
        match args.mock_frames {
            Some(frames) => { config.pipeline.mock_frame_count = Some(frames); },
            None => {},
        }
        match config.validate() {
            Ok(()) => Ok(config),
            Err(e) => Err(e),
        }
    }

    /// How frames are captured: the configured output at the configured rate.
    pub fn capture_config(&self) -> (r: Result<CaptureConfig, AppError>)
        ensures
            match r {
                Ok(c) => capture_rate_spec(self.capture) > 0 && c.frame_rate == capture_rate_spec(self.capture)
                    && c.monitor.adapter_index == match self.capture.adapter_index { Some(a) => a, None => 0 }
                    && c.monitor.output_index == match self.capture.output_index { Some(o) => o, None => 0 },
                Err(AppError::Message(m)) => capture_rate_spec(self.capture) == 0
                    && m@ == "capture frame rate must be positive"@,
                Err(_) => false,
            },
    {
        let frame_rate = match self.capture.frame_rate() {
            Ok(r) => r,
            Err(e) => return Err(e),
        };
        let monitor = self.capture.monitor_id();
        Ok(CaptureConfig::new(monitor).with_frame_rate(frame_rate))
    }

    /// How frames are encoded: H.264 at the effective bitrate and at the
    /// encoder's frame rate, or else the capture's.
    pub fn codec_config(&self) -> (r: Result<CodecConfig, AppError>)
        ensures
            ({
                let framerate = match self.encoder.framerate { Some(f) => f, None => capture_rate_spec(self.capture) };
                match r {
                    Ok(c) => effective_bitrate_spec(self.encoder) == Ok::<u32, Seq<char>>(c.bitrate)
                        && framerate != 0 && c.framerate == framerate && c.codec == CodecKind::H264,
                    Err(AppError::Message(m)) => match effective_bitrate_spec(self.encoder) {
                        Err(e) => m@ == e,
                        Ok(_) => framerate == 0 && m@ == "encoder framerate must be positive"@,
                    },
                    Err(_) => false,
                }
            }),
    {
        let source_rate = match self.capture.frame_rate { Some(r) => r, None => DEFAULT_FRAME_RATE };
        let bitrate = match self.encoder.effective_bitrate() {
            Ok(b) => b,
            Err(e) => return Err(e),
        };
        let framerate = match self.encoder.framerate { Some(f) => f, None => source_rate };
        if framerate == 0 {
            return Err(AppError::Message(String::from_str("encoder framerate must be positive")));
        }
        Ok(CodecConfig { bitrate, framerate, codec: CodecKind::H264 })
    }

    /// The metrics logging interval in seconds.
    pub fn metrics_interval(&self) -> (secs: u64)
        ensures
            secs == if self.metrics.log_interval_secs > 1 { self.metrics.log_interval_secs } else { 1 },
    {
        self.metrics.interval()
    }

    pub fn scaling(&self) -> (s: Option<&ScalingSettings>)
        ensures
            match s {
                Some(x) => self.scaling == Some(*x),
                None => self.scaling is None,
            },
    {
        self.scaling.as_ref()
    }
}

/// Why a resolution does not parse, or the resolution.
pub open spec fn parse_resolution_spec(raw: Seq<char>) -> Result<ResolutionOverride, Seq<char>> {
    let parts = split_spec(raw, 'x', 'X');
    if parts.len() != 2 {
        Err("expected format WIDTHxHEIGHT"@)
    } else if parse_unsigned(parts[0], u32::MAX as int) is None {
        Err("failed to parse width component"@)
    } else if parse_unsigned(parts[1], u32::MAX as int) is None {
        Err("failed to parse height component"@)
    } else if parse_unsigned(parts[0], u32::MAX as int)->0 == 0 || parse_unsigned(parts[1], u32::MAX as int)->0 == 0 {
        Err("dimensions must be positive"@)
    } else {
        Ok(ResolutionOverride {
            width: parse_unsigned(parts[0], u32::MAX as int)->0 as u32,
            height: parse_unsigned(parts[1], u32::MAX as int)->0 as u32,
        })
    }
}

/// A resolution override reads back: `WIDTHxHEIGHT` (with either case of
/// `x`) written in decimal, for positive sizes, gives that width and that
/// height.
pub proof fn lemma_resolution_reads_back(width: u32, height: u32, upper: bool)
    requires
        width > 0,
        height > 0,
    ensures
        parse_resolution_spec(decimal_spec(width as nat) + seq![if upper { 'X' } else { 'x' }] + decimal_spec(height as nat))
            == Ok::<ResolutionOverride, Seq<char>>(ResolutionOverride { width, height }),
{
    let w = decimal_spec(width as nat);
    let h = decimal_spec(height as nat);
    lemma_decimal_reads_back(width as nat);
    lemma_decimal_reads_back(height as nat);
    lemma_digits_free_of(w, 'x', 'X');
    lemma_digits_free_of(h, 'x', 'X');
    lemma_split_pair(w, if upper { 'X' } else { 'x' }, h, 'x', 'X');
}

/// Reads `WIDTHxHEIGHT` (either case of `x`), both positive.
pub fn parse_resolution(raw: &str) -> (r: Result<ResolutionOverride, String>)
    ensures
        match r {
            Ok(res) => parse_resolution_spec(raw@) == Ok::<ResolutionOverride, Seq<char>>(res),
            Err(m) => parse_resolution_spec(raw@) == Err::<ResolutionOverride, Seq<char>>(m@),
        },
{
    let parts = split_on(raw, 'x', 'X');
    let ghost ps = parts@.map_values(|p: Vec<char>| p@);
    if parts.len() != 2 {
        return Err(String::from_str("expected format WIDTHxHEIGHT"));
    }
    assert(ps[0] == parts@[0]@ && ps[1] == parts@[1]@);
    let width = match parse_unsigned_chars(&parts[0], 0xffff_ffff) {
        Some(w) => w,
        None => return Err(String::from_str("failed to parse width component")),
    };
    let height = match parse_unsigned_chars(&parts[1], 0xffff_ffff) {
        Some(h) => h,
        None => return Err(String::from_str("failed to parse height component")),
    };
    if width == 0 || height == 0 {
        return Err(String::from_str("dimensions must be positive"));
    }
    Ok(ResolutionOverride { width: width as u32, height: height as u32 })
}

/// Why a monitor does not parse, or the monitor.
pub open spec fn parse_monitor_spec(raw: Seq<char>) -> Result<MonitorSelection, Seq<char>> {
    let parts = split_spec(raw, ':', ',');
    if parts.len() != 2 {
        Err("monitor override must use ADAPTER:OUTPUT format"@)
    } else if parse_unsigned(parts[0], u32::MAX as int) is None {
        Err("failed to parse adapter index"@)
    } else if parse_unsigned(parts[1], u32::MAX as int) is None {
        Err("failed to parse output index"@)
    } else {
        Ok(MonitorSelection {
            adapter_index: parse_unsigned(parts[0], u32::MAX as int)->0 as u32,
            output_index: parse_unsigned(parts[1], u32::MAX as int)->0 as u32,
        })
    }
}

/// A monitor override reads back: `ADAPTER:OUTPUT` (or with a comma)
/// written in decimal gives that adapter and that output.
pub proof fn lemma_monitor_reads_back(adapter: u32, output: u32, comma: bool)
    ensures
        parse_monitor_spec(decimal_spec(adapter as nat) + seq![if comma { ',' } else { ':' }] + decimal_spec(output as nat))
            == Ok::<MonitorSelection, Seq<char>>(MonitorSelection { adapter_index: adapter, output_index: output }),
{
    let a = decimal_spec(adapter as nat);
    let o = decimal_spec(output as nat);
    lemma_decimal_reads_back(adapter as nat);
    lemma_decimal_reads_back(output as nat);
    lemma_digits_free_of(a, ':', ',');
    lemma_digits_free_of(o, ':', ',');
    lemma_split_pair(a, if comma { ',' } else { ':' }, o, ':', ',');
}

/// Reads `ADAPTER:OUTPUT` (or `ADAPTER,OUTPUT`).
pub fn parse_monitor(raw: &str) -> (r: Result<MonitorSelection, AppError>)
    ensures
        match r {
            Ok(m) => parse_monitor_spec(raw@) == Ok::<MonitorSelection, Seq<char>>(m),
            Err(AppError::Message(m)) => parse_monitor_spec(raw@) == Err::<MonitorSelection, Seq<char>>(m@),
            Err(_) => false,
        },
{
    let parts = split_on(raw, ':', ',');
    let ghost ps = parts@.map_values(|p: Vec<char>| p@);
    if parts.len() != 2 {
        return Err(AppError::Message(String::from_str("monitor override must use ADAPTER:OUTPUT format")));
    }
    assert(ps[0] == parts@[0]@ && ps[1] == parts@[1]@);
    let adapter_index = match parse_unsigned_chars(&parts[0], 0xffff_ffff) {
        Some(a) => a,
        None => return Err(AppError::Message(String::from_str("failed to parse adapter index"))),
    };
    let output_index = match parse_unsigned_chars(&parts[1], 0xffff_ffff) {
        Some(o) => o,
        None => return Err(AppError::Message(String::from_str("failed to parse output index"))),
    };
    Ok(MonitorSelection { adapter_index: adapter_index as u32, output_index: output_index as u32 })
}

} // verus!
