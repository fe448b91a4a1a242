//! What the sender's control window decides: labels, the parsing of its
//! inputs, and the configuration a start request runs with.
use vstd::prelude::*;
use std::collections::VecDeque;
use crate::error::AppError;
use crate::sender::config::{
    BitratePreset, NetworkSettings, ScalingMethod, ScalingSettings, SenderConfig, normalised_address,
    normalised_pipeline, sender_problem,
};
use crate::text::{
    is_blank, parse_unsigned, parse_unsigned_chars, split_chars, split_spec, trim_spec, trim_text, chars_of,
    decimal, decimal_spec, lemma_decimal_reads_back, lemma_trim_unchanged, lemma_split_pair, lemma_digits_free_of,
};
use crate::sender::pipeline::PipelineReport;

verus! {

broadcast use vstd::std_specs::vecdeque::group_vec_dequeue_axioms;

pub const MAX_HISTORY_SAMPLES: usize = 240;

pub const STATUS_HISTORY: usize = 32;

pub const ACTIVE_REPAINT_MS: u64 = 16;

pub const IDLE_REPAINT_MS: u64 = 250;

/// How serious a status message is.
#[derive(Debug, Clone, Copy, PartialEq, Eq, Structural)]
pub enum StatusLevel {
    Info,
    Warning,
    Error,
}

impl StatusLevel {
    /// The colour a message of this level is shown in, as red, green, blue.
    pub fn colour(self) -> (c: (u8, u8, u8))
        ensures
            c == match self {
                StatusLevel::Info => (189u8, 195u8, 199u8),
                StatusLevel::Warning => (243u8, 156u8, 18u8),
                StatusLevel::Error => (231u8, 76u8, 60u8),
            },
    {
        match self {
            StatusLevel::Info => (189, 195, 199),
            StatusLevel::Warning => (243, 156, 18),
            StatusLevel::Error => (231, 76, 60),
        }
    }
}

/// The accent colour of the interface, as red, green, blue.
pub fn accent_colour() -> (c: (u8, u8, u8))
    ensures
        c == (52u8, 152u8, 219u8),
{
    (52, 152, 219)
}

/// Where the sending pipeline stands, as the window shows it.
#[derive(Debug, Clone, Copy, PartialEq, Eq, Structural)]
pub enum PipelineState {
    Idle,
    Starting,
    Running,
    Error,
}

impl PipelineState {
    pub fn as_str(self) -> (s: &'static str)
        ensures
            s@ == match self {
                PipelineState::Idle => "Idle"@,
                PipelineState::Starting => "Starting"@,
                PipelineState::Running => "Running"@,
                PipelineState::Error => "Error"@,
            },
    {
        match self {
            PipelineState::Idle => "Idle",
            PipelineState::Starting => "Starting",
            PipelineState::Running => "Running",
            PipelineState::Error => "Error",
        }
    }
}

/// The name of a bitrate preset.
pub open spec fn preset_label_spec(preset: BitratePreset) -> Seq<char> {
    match preset {
        BitratePreset::Low => "Low"@,
        BitratePreset::Medium => "Medium"@,
        BitratePreset::High => "High"@,
        BitratePreset::Custom => "Custom"@,
    }
}

pub fn preset_label(preset: BitratePreset) -> (s: &'static str)
    ensures
        s@ == preset_label_spec(preset),
{
    match preset {
        BitratePreset::Low => "Low",
        BitratePreset::Medium => "Medium",
        BitratePreset::High => "High",
        BitratePreset::Custom => "Custom",
    }
}

/// A resolution offered in the window.
#[derive(Debug, Clone, Copy)]
pub struct ResolutionPreset {
    pub label: &'static str,
    pub width: u32,
    pub height: u32,
}

/// The preset resolutions, smallest first.
pub open spec fn resolution_preset_spec(index: int) -> Option<(u32, u32)> {
    if index == 0 {
        Some((1280u32, 720u32))
    } else if index == 1 {
        Some((1600u32, 900u32))
    } else if index == 2 {
        Some((1920u32, 1080u32))
    } else {
        None
    }
}

/// The label the window shows for the preset at `index`.
pub open spec fn resolution_label_spec(index: int) -> Seq<char> {
    if index == 0 {
        "1280 × 720"@
    } else if index == 1 {
        "1600 × 900"@
    } else if index == 2 {
        "1920 × 1080"@
    } else {
        "Preset"@
    }
}

/// A preset scales to the resolution its label names: the label is the
/// width and the height in decimal, joined by " × ".
pub proof fn lemma_preset_label_names_resolution(index: int)
    requires
        resolution_preset_spec(index) is Some,
    ensures
        ({
            let (width, height) = resolution_preset_spec(index)->0;
            resolution_label_spec(index) == decimal_spec(width as nat) + " × "@ + decimal_spec(height as nat)
        }),
{
    reveal_strlit("1280 × 720");
    reveal_strlit("1600 × 900");
    reveal_strlit("1920 × 1080");
    reveal_strlit(" × ");
    reveal_with_fuel(decimal_spec, 5);
    if index == 0 {
        assert(resolution_label_spec(index) =~= decimal_spec(1280) + " × "@ + decimal_spec(720));
    } else if index == 1 {
        assert(resolution_label_spec(index) =~= decimal_spec(1600) + " × "@ + decimal_spec(900));
    } else {
        assert(resolution_label_spec(index) =~= decimal_spec(1920) + " × "@ + decimal_spec(1080));
    }
}

/// The preset at `index`, if there is one, with its label.
pub fn resolution_preset(index: usize) -> (p: Option<ResolutionPreset>)
    ensures
        match p {
            Some(r) => resolution_preset_spec(index as int) == Some((r.width, r.height))
                && r.label@ == resolution_label_spec(index as int),
            None => resolution_preset_spec(index as int) is None,
        },
{
    if index == 0 {
        Some(ResolutionPreset { label: "1280 × 720", width: 1280, height: 720 })
    } else if index == 1 {
        Some(ResolutionPreset { label: "1600 × 900", width: 1600, height: 900 })
    } else if index == 2 {
        Some(ResolutionPreset { label: "1920 × 1080", width: 1920, height: 1080 })
    } else {
        None
    }
}

/// The resolution chosen in the window.
#[derive(Debug, Clone, Copy, PartialEq, Eq, Structural)]
pub enum ResolutionSelection {
    Native,
    Preset(usize),
    Custom,
}

/// Why typed dimensions do not parse, or the dimensions.
pub open spec fn ui_resolution_spec(raw: Seq<char>) -> Result<(u32, u32), Seq<char>> {
    let t = trim_spec(raw);
    let parts = split_spec(t, 'x', 'X');
    if t.len() == 0 {
        Err("provide WIDTHxHEIGHT values"@)
    } else if parts.len() != 2 {
        Err("expected WIDTHxHEIGHT format"@)
    } else if parse_unsigned(parts[0], u32::MAX as int) is None {
        Err("invalid width component"@)
    } else if parse_unsigned(parts[1], u32::MAX as int) is None {
        Err("invalid height component"@)
    } else if parse_unsigned(parts[0], u32::MAX as int)->0 == 0 || parse_unsigned(parts[1], u32::MAX as int)->0 == 0 {
        Err("dimensions must be positive"@)
    } else {
        Ok((parse_unsigned(parts[0], u32::MAX as int)->0 as u32, parse_unsigned(parts[1], u32::MAX as int)->0 as u32))
    }
}

/// Reads the dimensions typed in the window, `WIDTHxHEIGHT` with white space around.
pub fn parse_resolution(raw: &str) -> (r: Result<(u32, u32), String>)
    ensures
        match r {
            Ok(d) => ui_resolution_spec(raw@) == Ok::<(u32, u32), Seq<char>>(d),
            Err(m) => ui_resolution_spec(raw@) == Err::<(u32, u32), Seq<char>>(m@),
        },
{
    let trimmed = trim_text(raw);
    let chars = chars_of(trimmed.as_str());
    if chars.len() == 0 {
        return Err(String::from_str("provide WIDTHxHEIGHT values"));
    }
    let parts = split_chars(&chars, 'x', 'X');
    let ghost ps = parts@.map_values(|p: Vec<char>| p@);
    if parts.len() != 2 {
        return Err(String::from_str("expected WIDTHxHEIGHT format"));
    }
    assert(ps[0] == parts@[0]@ && ps[1] == parts@[1]@);
    let width = match parse_unsigned_chars(&parts[0], 0xffff_ffff) {
        Some(w) => w,
        None => return Err(String::from_str("invalid width component")),
    };
    let height = match parse_unsigned_chars(&parts[1], 0xffff_ffff) {
        Some(h) => h,
        None => return Err(String::from_str("invalid height component")),
    };
    if width == 0 || height == 0 {
        return Err(String::from_str("dimensions must be positive"));
    }
    Ok((width as u32, height as u32))
}

/// Typed dimensions read back: `WIDTHxHEIGHT` written in decimal, for
/// positive sizes, gives that width and that height, in that order.
pub proof fn lemma_typed_resolution_reads_back(width: u32, height: u32)
    requires
        width > 0,
        height > 0,
    ensures
        ui_resolution_spec(decimal_spec(width as nat) + "x"@ + decimal_spec(height as nat))
            == Ok::<(u32, u32), Seq<char>>((width, height)),
{
    reveal_strlit("x");
    let w = decimal_spec(width as nat);
    let h = decimal_spec(height as nat);
    lemma_decimal_reads_back(width as nat);
    lemma_decimal_reads_back(height as nat);
    let raw = w + "x"@ + h;
    assert("x"@ =~= seq!['x']);
    assert(raw[0] == w[0]);
    assert(raw.last() == h.last());
    lemma_trim_unchanged(raw);
    lemma_digits_free_of(w, 'x', 'X');
    lemma_digits_free_of(h, 'x', 'X');
    lemma_split_pair(w, 'x', h, 'x', 'X');
}

/// A typed custom bitrate reads back: a positive number written in decimal
/// is the bitrate a start request asks for under the custom preset.
pub proof fn lemma_custom_bitrate_reads_back(bitrate: u32)
    requires
        bitrate > 0,
    ensures
        start_bitrate_spec(BitratePreset::Custom, decimal_spec(bitrate as nat)) == Ok::<Option<u32>, ()>(Some(bitrate)),
{
    let d = decimal_spec(bitrate as nat);
    lemma_decimal_reads_back(bitrate as nat);
    lemma_trim_unchanged(d);
}

/// `Custom`, with the trimmed input in brackets when there is any.
pub open spec fn custom_label_spec(input: Seq<char>) -> Seq<char> {
    if trim_spec(input).len() == 0 {
        "Custom"@
    } else {
        "Custom ("@ + trim_spec(input) + ")"@
    }
}

fn custom_label(input: &str) -> (s: String)
    ensures
        s@ == custom_label_spec(input@),
{
    let value = trim_text(input);
    if value.as_str().is_empty() {
        String::from_str("Custom")
    } else {
        String::from_str("Custom (").concat(value.as_str()).concat(")")
    }
}

/// The label of the chosen resolution.
pub fn current_resolution_label(selection: ResolutionSelection, custom_input: &str) -> (s: String)
    ensures
        s@ == match selection {
            ResolutionSelection::Native => "Native (no scaling)"@,
            ResolutionSelection::Preset(i) => resolution_label_spec(i as int),
            ResolutionSelection::Custom => custom_label_spec(custom_input@),
        },
{
    match selection {
        ResolutionSelection::Native => String::from_str("Native (no scaling)"),
        ResolutionSelection::Preset(index) => {
            if index == 0 {
                String::from_str("1280 × 720")
            } else if index == 1 {
                String::from_str("1600 × 900")
            } else if index == 2 {
                String::from_str("1920 × 1080")
            } else {
                String::from_str("Preset")
            }
        },
        ResolutionSelection::Custom => custom_label(custom_input),
    }
}

/// The label of the chosen bitrate.
pub fn current_bitrate_label(preset: BitratePreset, custom_input: &str) -> (s: String)
    ensures
        s@ == if preset == BitratePreset::Custom { custom_label_spec(custom_input@) } else { preset_label_spec(preset) },
{
    if preset == BitratePreset::Custom {
        custom_label(custom_input)
    } else {
        String::from_str(preset_label(preset))
    }
}

/// Appends to a history that keeps at most `limit` entries, dropping the
/// oldest when it is full.
pub fn push_bounded<T>(history: &mut VecDeque<T>, item: T, limit: usize)
    requires
        limit > 0,
    ensures
        final(history)@ == if old(history)@.len() == limit {
            old(history)@.drop_first().push(item)
        } else {
            old(history)@.push(item)
        },
{
    if history.len() == limit {
        let _ = history.pop_front();
        assert(history@ =~= old(history)@.drop_first());
    }
    history.push_back(item);
}

/// A history that never exceeds its limit keeps within it.
pub proof fn lemma_history_bounded<T>(history: Seq<T>, item: T, limit: nat)
    requires
        limit > 0,
        history.len() <= limit,
    ensures
        (if history.len() == limit { history.drop_first().push(item) } else { history.push(item) }).len() <= limit,
{
}

/// The scaling a start request asks for, or the message of why the typed
/// resolution is refused.
pub open spec fn start_scaling_spec(
    base: Option<ScalingSettings>,
    selection: ResolutionSelection,
    custom_resolution: Seq<char>,
) -> Result<Option<ScalingSettings>, Seq<char>> {
    match selection {
        ResolutionSelection::Native => Ok(None),
        ResolutionSelection::Preset(i) => match resolution_preset_spec(i as int) {
            Some((w, h)) => Ok(Some(ScalingSettings { width: w, height: h, method: ScalingMethod::Software })),
            None => Ok(base),
        },
        ResolutionSelection::Custom => match ui_resolution_spec(custom_resolution) {
            Ok((w, h)) => Ok(Some(ScalingSettings { width: w, height: h, method: ScalingMethod::Software })),
            Err(e) => Err("Invalid resolution: "@ + e),
        },
    }
}

/// The explicit bitrate a start request asks for: `None` but for the
/// custom preset, which needs a positive number; `Err` when it has none.
pub open spec fn start_bitrate_spec(preset: BitratePreset, custom_bitrate: Seq<char>) -> Result<Option<u32>, ()> {
    if preset == BitratePreset::Custom {
        match parse_unsigned(trim_spec(custom_bitrate), u32::MAX as int) {
            Some(v) => if v > 0 { Ok(Some(v as u32)) } else { Err(()) },
            None => Err(()),
        }
    } else {
        Ok(None)
    }
}

fn copy_config(c: &SenderConfig) -> (out: SenderConfig)
    ensures
        out.capture == c.capture,
        out.scaling == c.scaling,
        out.encoder == c.encoder,
        out.pipeline == c.pipeline,
        out.metrics == c.metrics,
        out.network.address@ == c.network.address@,
{
    SenderConfig {
        capture: c.capture,
        scaling: c.scaling,
        encoder: c.encoder,
        network: NetworkSettings { address: c.network.address.clone() },
        pipeline: c.pipeline,
        metrics: c.metrics,
    }
}

/// The configuration a start request runs with: the window's address
/// (trimmed), resolution and bitrate over the current configuration, then
/// validated. A refusal comes back as the status message to show.
pub fn config_for_start(
    config: &SenderConfig,
    address_input: &str,
    selection: ResolutionSelection,
    custom_resolution: &str,
    preset: BitratePreset,
    custom_bitrate: &str,
) -> (r: Result<SenderConfig, String>)
    ensures
        ({
            let address = trim_spec(address_input@);
            let scaling = start_scaling_spec(config.scaling, selection, custom_resolution@);
            let bitrate = start_bitrate_spec(preset, custom_bitrate@);
            match scaling {
                Err(m) => r matches Err(s) && s@ == m,
                Ok(sc) => match bitrate {
                    Err(()) => r matches Err(s) && s@ == "Provide a positive bitrate when using the custom preset"@,
                    Ok(b) => match sender_problem(config.capture, sc, address) {
                        Some(p) => r matches Err(s) && s@ == "Configuration error: "@ + p,
                        None => r matches Ok(c) && {
                            &&& c.capture == config.capture
                            &&& c.scaling == sc
                            &&& c.encoder.preset == preset
                            &&& c.encoder.bitrate == b
                            &&& c.encoder.framerate == config.encoder.framerate
                            &&& c.metrics == config.metrics
                            &&& c.pipeline == normalised_pipeline(config.pipeline)
                            &&& c.network.address@ == normalised_address(address)
                        },
                    },
                },
            }
        }),
{
    let mut next = copy_config(config);
    next.network.address = trim_text(address_input);
    match selection {
        ResolutionSelection::Native => {
            next.scaling = None;
        },
        ResolutionSelection::Preset(index) => match resolution_preset(index) {
            Some(p) => {
                next.scaling = Some(ScalingSettings { width: p.width, height: p.height, method: ScalingMethod::Software });
            },
            None => {},
        },
        ResolutionSelection::Custom => match parse_resolution(custom_resolution) {
            Ok((width, height)) => {
                next.scaling = Some(ScalingSettings { width, height, method: ScalingMethod::Software });
            },
            Err(e) => {
                return Err(String::from_str("Invalid resolution: ").concat(e.as_str()));
            },
        },
    }
    next.encoder.preset = preset;
    if preset == BitratePreset::Custom {
        let typed = trim_text(custom_bitrate);
        let chars = chars_of(typed.as_str());
        match parse_unsigned_chars(&chars, 0xffff_ffff) {
            Some(value) => {
                if value > 0 {
                    next.encoder.bitrate = Some(value as u32);
                } else {
                    return Err(String::from_str("Provide a positive bitrate when using the custom preset"));
                }
            },
            None => {
                return Err(String::from_str("Provide a positive bitrate when using the custom preset"));
            },
        }
    } else {
        next.encoder.bitrate = None;
    }
    match next.validate() {
        Ok(()) => Ok(next),
        Err(e) => Err(String::from_str("Configuration error: ").concat(e.describe().as_str())),
    }
}

/// What the running pipeline tells the window.
#[derive(Debug, Clone)]
pub enum PipelineEvent {
    Started,
    CaptureWarning { message: String },
    Error { message: String },
    Stopped(PipelineReport),
}

/// A status message of the window.
#[derive(Debug, Clone)]
pub struct StatusEntry {
    pub level: StatusLevel,
    pub message: String,
}

/// The message shown when a capture run ends with `report`.
pub open spec fn stopped_message_spec(report: PipelineReport) -> Seq<char> {
    "Capture complete – "@ + decimal_spec(report.frames_transmitted as nat) + " frames, "@
        + decimal_spec(report.capture_errors as nat) + " capture errors, "@
        + decimal_spec(report.dropped_frames as nat) + " dropped"@
}

fn stopped_message(report: &PipelineReport) -> (s: String)
    ensures
        s@ == stopped_message_spec(*report),
{
    String::from_str("Capture complete – ")
        .concat(decimal(report.frames_transmitted).as_str())
        .concat(" frames, ")
        .concat(decimal(report.capture_errors).as_str())
        .concat(" capture errors, ")
        .concat(decimal(report.dropped_frames).as_str())
        .concat(" dropped")
}

/// The status history after `entry` was added to `log`.
pub open spec fn logged(log: Seq<StatusEntry>, level: StatusLevel, message: Seq<char>, out: Seq<StatusEntry>) -> bool {
    let kept = if log.len() == STATUS_HISTORY { log.drop_first() } else { log };
    &&& out.len() == kept.len() + 1
    &&& out.drop_last() == kept
    &&& out.last().level == level
    &&& out.last().message@ == message
}

/// What the sender window keeps of the pipeline: where it stands, whether a
/// run is under way, the recent status messages and the last report.
#[derive(Debug)]
pub struct ControlState {
    pub pipeline_state: PipelineState,
    pub running: bool,
    pub status_log: VecDeque<StatusEntry>,
    pub last_report: Option<PipelineReport>,
}

impl ControlState {
    /// An idle window with nothing logged.
    pub fn new() -> (c: Self)
        ensures
            c.pipeline_state == PipelineState::Idle,
            !c.running,
            c.status_log@.len() == 0,
            c.last_report is None,
    {
        ControlState { pipeline_state: PipelineState::Idle, running: false, status_log: VecDeque::new(), last_report: None }
    }

    /// Logs a status message, dropping the oldest when the history is full.
    pub fn push_status(&mut self, level: StatusLevel, message: String)
        ensures
            logged(old(self).status_log@, level, message@, final(self).status_log@),
            final(self).pipeline_state == old(self).pipeline_state,
            final(self).running == old(self).running,
            final(self).last_report == old(self).last_report,
    {
        let ghost text = message@;
        push_bounded(&mut self.status_log, StatusEntry { level, message }, STATUS_HISTORY);
        proof {
            let kept = if old(self).status_log@.len() == STATUS_HISTORY {
                old(self).status_log@.drop_first()
            } else {
                old(self).status_log@
            };
            assert(self.status_log@.drop_last() =~= kept);
        }
    }

    /// Follows an event of the pipeline: a start runs, a warning is logged,
    /// an error ends the run in the error state, and a stop ends it idle
    /// with its report.
    pub fn handle_pipeline_event(&mut self, event: PipelineEvent)
        ensures
            match event {
                PipelineEvent::Started => {
                    &&& final(self).pipeline_state == PipelineState::Running
                    &&& final(self).running == old(self).running
                    &&& final(self).last_report == old(self).last_report
                    &&& logged(old(self).status_log@, StatusLevel::Info, "Pipeline started"@, final(self).status_log@)
                },
                PipelineEvent::CaptureWarning { message } => {
                    &&& final(self).pipeline_state == old(self).pipeline_state
                    &&& final(self).running == old(self).running
                    &&& final(self).last_report == old(self).last_report
                    &&& logged(old(self).status_log@, StatusLevel::Warning, message@, final(self).status_log@)
                },
                PipelineEvent::Error { message } => {
                    &&& final(self).pipeline_state == PipelineState::Error
                    &&& !final(self).running
                    &&& final(self).last_report == old(self).last_report
                    &&& logged(old(self).status_log@, StatusLevel::Error, message@, final(self).status_log@)
                },
                PipelineEvent::Stopped(report) => {
                    &&& final(self).pipeline_state == PipelineState::Idle
                    &&& !final(self).running
                    &&& final(self).last_report == Some(report)
                    &&& logged(old(self).status_log@, StatusLevel::Info, stopped_message_spec(report), final(self).status_log@)
                },
            },
    {
        match event {
            PipelineEvent::Started => {
                self.pipeline_state = PipelineState::Running;
                self.push_status(StatusLevel::Info, String::from_str("Pipeline started"));
            },
            PipelineEvent::CaptureWarning { message } => {
                self.push_status(StatusLevel::Warning, message);
            },
            PipelineEvent::Error { message } => {
                self.pipeline_state = PipelineState::Error;
                self.push_status(StatusLevel::Error, message);
                self.running = false;
            },
            PipelineEvent::Stopped(report) => {
                self.pipeline_state = PipelineState::Idle;
                self.running = false;
                self.last_report = Some(report);
                let text = stopped_message(&report);
                self.push_status(StatusLevel::Info, text);
            },
        }
    }

    /// A stop request: a run under way is ended (and the request logged);
    /// the window goes idle.
    pub fn stop_pipeline(&mut self)
        ensures
            final(self).pipeline_state == PipelineState::Idle,
            !final(self).running,
            final(self).last_report == old(self).last_report,
            if old(self).running {
                logged(old(self).status_log@, StatusLevel::Info, "Stop requested"@, final(self).status_log@)
            } else {
                final(self).status_log@ == old(self).status_log@
            },
    {
        if self.running {
            self.running = false;
            self.push_status(StatusLevel::Info, String::from_str("Stop requested"));
        }
        self.pipeline_state = PipelineState::Idle;
    }

    /// Forgets a run whose task has `finished`.
    pub fn cleanup_finished_handle(&mut self, finished: bool)
        ensures
            final(self).running == (old(self).running && !finished),
            final(self).pipeline_state == old(self).pipeline_state,
            final(self).status_log@ == old(self).status_log@,
            final(self).last_report == old(self).last_report,
    {
        if self.running && finished {
            self.running = false;
        }
    }
}

} // verus!
