//! Receiver configuration: defaults, command-line overrides, normalisation
//! and validation.
use vstd::prelude::*;
use crate::error::AppError;
use crate::network::addr::socket_spec;
use crate::network::endpoint::{EndpointConfig, invalid_address_message, validate_address};
use crate::text::{
    chars_equal, chars_less, chars_of, is_blank, lemma_lex_irreflexive, lemma_lex_total,
    lemma_lex_transitive, lex_less, trim_spec, trim_text,
};

verus! {

pub const DEFAULT_JITTER_CAPACITY: usize = 48;

pub const DEFAULT_MAX_LATENCY_MS: u64 = 500;

pub const DEFAULT_DECODE_QUEUE: usize = 10;

pub const DEFAULT_RENDER_QUEUE: usize = 8;

pub const DEFAULT_FRAME_WIDTH: u32 = 1920;

pub const DEFAULT_FRAME_HEIGHT: u32 = 1080;

pub const DEFAULT_REFRESH_RATE: u32 = 60;

pub const DEFAULT_METRICS_INTERVAL_SECS: u64 = 5;

pub const DEFAULT_METRICS_CHANNEL_CAPACITY: usize = 16;

/// The address a receiver listens for unless told otherwise.
pub open spec fn default_address_spec() -> Seq<char> {
    "127.0.0.1:5000"@
}

pub fn default_address() -> (s: String)
    ensures
        s@ == default_address_spec(),
{
    String::from_str("127.0.0.1:5000")
}

/// The title of the receiver window unless told otherwise.
pub open spec fn default_window_title_spec() -> Seq<char> {
    "UDP Receiver"@
}

pub fn default_window_title() -> (s: String)
    ensures
        s@ == default_window_title_spec(),
{
    String::from_str("UDP Receiver")
}

/// The list is in strictly increasing lexicographic order.
pub open spec fn strictly_sorted(l: Seq<Seq<char>>) -> bool {
    forall|i: int, j: int| 0 <= i < j < l.len() ==> lex_less(l[i], l[j])
}

/// The sender presets a receiver offers: the trimmed, nonempty given ones
/// and its own address.
pub open spec fn preset_entries(presets: Seq<Seq<char>>, address: Seq<char>) -> Set<Seq<char>> {
    Set::new(
        |s: Seq<char>|
            s == address || (s.len() > 0 && exists|i: int| 0 <= i < presets.len() && trim_spec(presets[i]) == s),
    )
}

/// `out` lists `entries` with `address` first and the others after it in
/// increasing order, each once.
pub open spec fn presets_ordered(out: Seq<Seq<char>>, entries: Set<Seq<char>>, address: Seq<char>) -> bool {
    &&& out.len() >= 1
    &&& out[0] == address
    &&& out.no_duplicates()
    &&& out.to_set() == entries
    &&& strictly_sorted(out.drop_first())
}

pub open spec fn string_views(l: Seq<String>) -> Seq<Seq<char>> {
    l.map_values(|s: String| s@)
}

/// Inserts `item` into a strictly sorted list unless it is already there.
fn insert_sorted(list: &mut Vec<String>, item: String)
    requires
        strictly_sorted(string_views(old(list)@)),
    ensures
        strictly_sorted(string_views(final(list)@)),
        string_views(final(list)@).to_set() == string_views(old(list)@).to_set().insert(item@),
{
    let ghost l = string_views(list@);
    let key = chars_of(item.as_str());
    let mut p: usize = 0;
    while p < list.len()
        invariant
            p <= list@.len(),
            l == string_views(list@),
            key@ == item@,
            forall|i: int| 0 <= i < p ==> lex_less(#[trigger] l[i], item@),
        ensures
            p <= list@.len(),
            forall|i: int| 0 <= i < p ==> lex_less(#[trigger] l[i], item@),
            p < list@.len() ==> !lex_less(l[p as int], item@),
        decreases list@.len() - p,
    {
        let current = chars_of(list[p].as_str());
        if !chars_less(&current, &key) {
            break;
        }
        p = p + 1;
    }
    if p < list.len() {
        let current = chars_of(list[p].as_str());
        if chars_equal(&current, &key) {
            proof {
                assert(l.to_set().insert(item@) =~= l.to_set()) by {
                    assert(l[p as int] == item@);
                }
            }
            return;
        }
        proof {
            lemma_lex_total(l[p as int], item@);
        }
    }
    let ghost item_view = item@;
    list.insert(p, item);
    proof {
        let nl = string_views(list@);
        assert(nl =~= l.insert(p as int, item_view));
        assert forall|i: int, j: int| 0 <= i < j < nl.len() implies lex_less(nl[i], nl[j]) by {
            if j < p {
            } else if j == p {
                assert(nl[i] == l[i]);
            } else if i < p {
                assert(nl[j] == l[j - 1]);
                if j - 1 == p {
                    lemma_lex_transitive(l[i], item_view, l[j - 1]);
                } else {
                    lemma_lex_transitive(l[i], item_view, l[p as int]);
                    lemma_lex_transitive(l[i], l[p as int], l[j - 1]);
                }
            } else if i == p {
                assert(nl[j] == l[j - 1]);
                if j - 1 > p {
                    lemma_lex_transitive(item_view, l[p as int], l[j - 1]);
                }
            } else {
                assert(nl[i] == l[i - 1] && nl[j] == l[j - 1]);
            }
        }
        assert(nl.to_set() =~= l.to_set().insert(item_view)) by {
            assert forall|s: Seq<char>| nl.to_set().contains(s) implies l.to_set().insert(item_view).contains(s) by {
                let k = choose|k: int| 0 <= k < nl.len() && nl[k] == s;
                if k < p {
                    assert(l[k] == s);
                } else if k > p {
                    assert(l[k - 1] == s);
                }
            }
            assert forall|s: Seq<char>| l.to_set().insert(item_view).contains(s) implies nl.to_set().contains(s) by {
                if s == item_view {
                    assert(nl[p as int] == s);
                } else {
                    let k = choose|k: int| 0 <= k < l.len() && l[k] == s;
                    if k < p {
                        assert(nl[k] == s);
                    } else {
                        assert(nl[k + 1] == s);
                    }
                }
            }
        }
    }
}

proof fn lemma_sorted_no_duplicates(l: Seq<Seq<char>>)
    requires
        strictly_sorted(l),
    ensures
        l.no_duplicates(),
{
    assert forall|i: int, j: int| 0 <= i < l.len() && 0 <= j < l.len() && i != j implies l[i] != l[j] by {
        if i < j {
            lemma_lex_irreflexive(l[i]);
        } else {
            lemma_lex_irreflexive(l[j]);
        }
    }
}

/// `x` is one of the first `j` entries of `all`.
pub open spec fn drawn_from(x: Seq<char>, all: Seq<Seq<char>>, j: int) -> bool {
    exists|k: int| 0 <= k < j && all[k] == x
}

/// The sender presets with the own address first, then the trimmed,
/// nonempty given presets (and nothing twice) in increasing order.
pub fn order_presets(presets: Vec<String>, address: &String) -> (out: Vec<String>)
    ensures
        presets_ordered(string_views(out@), preset_entries(string_views(presets@), address@), address@),
{
    let ghost given = string_views(presets@);
    let mut sorted: Vec<String> = Vec::new();
    proof {
        assert(string_views(sorted@).to_set() =~= Set::<Seq<char>>::empty());
    }
    insert_sorted(&mut sorted, address.clone());
    let mut i: usize = 0;
    while i < presets.len()
        invariant
            i <= presets@.len(),
            given == string_views(presets@),
            strictly_sorted(string_views(sorted@)),
            string_views(sorted@).to_set() == Set::new(
                |s: Seq<char>|
                    s == address@ || (s.len() > 0 && exists|k: int| 0 <= k < i && trim_spec(given[k]) == s),
            ),
        decreases presets@.len() - i,
    {
        let trimmed = trim_text(presets[i].as_str());
        let ghost before = string_views(sorted@).to_set();
        assert(given[i as int] == presets@[i as int]@);
        if !trimmed.as_str().is_empty() {
            let ghost t = trimmed@;
            insert_sorted(&mut sorted, trimmed);
            proof {
                assert(string_views(sorted@).to_set() =~= Set::new(
                    |s: Seq<char>|
                        s == address@ || (s.len() > 0 && exists|k: int| 0 <= k < i + 1 && trim_spec(given[k]) == s),
                )) by {
                    assert forall|s: Seq<char>| (s == address@ || (s.len() > 0 && exists|k: int| 0 <= k < i + 1 && trim_spec(given[k]) == s))
                        implies before.insert(t).contains(s) by {
                        if s != address@ && s != t {
                            let k = choose|k: int| 0 <= k < i + 1 && trim_spec(given[k]) == s;
                            assert(k < i);
                        }
                    }
                }
            }
        } else {
            proof {
                assert(string_views(sorted@).to_set() =~= Set::new(
                    |s: Seq<char>|
                        s == address@ || (s.len() > 0 && exists|k: int| 0 <= k < i + 1 && trim_spec(given[k]) == s),
                )) by {
                    assert forall|s: Seq<char>| (s == address@ || (s.len() > 0 && exists|k: int| 0 <= k < i + 1 && trim_spec(given[k]) == s))
                        implies before.contains(s) by {
                        if s != address@ {
                            let k = choose|k: int| 0 <= k < i + 1 && trim_spec(given[k]) == s;
                            assert(k < i);
                        }
                    }
                }
            }
        }
        i = i + 1;
    }
    let ghost all = string_views(sorted@);
    assert(all.to_set() =~= preset_entries(given, address@));
    let key = chars_of(address.as_str());
    let mut out: Vec<String> = Vec::new();
    out.push(address.clone());
    let mut j: usize = 0;
    proof {
        assert(string_views(out@).drop_first() =~= Seq::<Seq<char>>::empty());
    }
    while j < sorted.len()
        invariant
            j <= sorted@.len(),
            all == string_views(sorted@),
            strictly_sorted(all),
            key@ == address@,
            string_views(out@).len() >= 1,
            string_views(out@)[0] == address@,
            strictly_sorted(string_views(out@).drop_first()),
            forall|m: int| 1 <= m < string_views(out@).len() ==> drawn_from(#[trigger] string_views(out@)[m], all, j as int),
            forall|m: int| 1 <= m < string_views(out@).len() ==> #[trigger] string_views(out@)[m] != address@,
            forall|k: int| 0 <= k < j && all[k] != address@ ==> string_views(out@).contains(#[trigger] all[k]),
        decreases sorted@.len() - j,
    {
        let current = chars_of(sorted[j].as_str());
        let ghost before = string_views(out@);
        if !chars_equal(&current, &key) {
            out.push(sorted[j].clone());
            proof {
                let o = string_views(out@);
                assert(o =~= before.push(all[j as int]));
                assert forall|a: int, b: int| 0 <= a < b < o.drop_first().len() implies lex_less(o.drop_first()[a], o.drop_first()[b]) by {
                    if b == o.drop_first().len() - 1 {
                        assert(o.drop_first()[b] == all[j as int]);
                        assert(o.drop_first()[a] == before[a + 1]);
                        assert(drawn_from(before[a + 1], all, j as int));
                        let k = choose|k: int| 0 <= k < j && all[k] == before[a + 1];
                        assert(lex_less(all[k], all[j as int]));
                    } else {
                        assert(o.drop_first()[a] == before.drop_first()[a]);
                        assert(o.drop_first()[b] == before.drop_first()[b]);
                    }
                }
                assert forall|m: int| 1 <= m < o.len() implies drawn_from(#[trigger] o[m], all, j + 1) by {
                    if m == o.len() - 1 {
                        assert(o[m] == all[j as int]);
                    } else {
                        assert(o[m] == before[m]);
                        assert(drawn_from(before[m], all, j as int));
                        let k = choose|k: int| 0 <= k < j && all[k] == before[m];
                    }
                }
                assert forall|k: int| 0 <= k < j + 1 && all[k] != address@ implies o.contains(#[trigger] all[k]) by {
                    if k == j {
                        assert(o[o.len() - 1] == all[k]);
                    } else {
                        let m = choose|m: int| 0 <= m < before.len() && before[m] == all[k];
                        assert(o[m] == all[k]);
                    }
                }
            }
        } else {
            proof {
                assert forall|m: int| 1 <= m < before.len() implies drawn_from(#[trigger] before[m], all, j + 1) by {
                    assert(drawn_from(before[m], all, j as int));
                    let k = choose|k: int| 0 <= k < j && all[k] == before[m];
                }
            }
        }
        j = j + 1;
    }
    proof {
        let o = string_views(out@);
        let rest = o.drop_first();
        lemma_sorted_no_duplicates(rest);
        assert(o.to_set() =~= preset_entries(given, address@)) by {
            assert forall|s: Seq<char>| o.to_set().contains(s) implies all.to_set().contains(s) by {
                let m = choose|m: int| 0 <= m < o.len() && o[m] == s;
                if m > 0 {
                    assert(drawn_from(o[m], all, all.len() as int));
                    let k = choose|k: int| 0 <= k < all.len() && all[k] == o[m];
                } else {
                    assert(preset_entries(given, address@).contains(address@));
                }
            }
            assert forall|s: Seq<char>| all.to_set().contains(s) implies o.to_set().contains(s) by {
                if s == address@ {
                    assert(o[0] == s);
                } else {
                    let k = choose|k: int| 0 <= k < all.len() && all[k] == s;
                    assert(o.contains(all[k]));
                }
            }
        }
        assert forall|a: int, b: int| 0 <= a < o.len() && 0 <= b < o.len() && a != b implies o[a] != o[b] by {
            if a > 0 && b > 0 {
                assert(o[a] == rest[a - 1] && o[b] == rest[b - 1]);
            }
        }
    }
    out
}

/// The command line of the receiver.
#[derive(Debug, Clone)]
pub struct CliArgs {
    pub config: Option<String>,
    pub address: Option<String>,
    pub bind: Option<String>,
    pub jitter_capacity: Option<usize>,
    pub max_latency: Option<u64>,
    pub decode_queue: Option<usize>,
    pub render_queue: Option<usize>,
    pub width: Option<u32>,
    pub height: Option<u32>,
    pub refresh_rate: Option<u32>,
    pub metrics_interval: Option<u64>,
    pub window_title: Option<String>,
    pub frame_limit: Option<u64>,
}

/// Where to receive from and how the endpoint is tuned.
#[derive(Debug, Clone)]
pub struct NetworkSettings {
    pub address: String,
    pub bind: Option<String>,
    pub jitter_buffer_capacity: usize,
    pub target_bitrate: Option<u64>,
    pub max_packet_payload: Option<usize>,
    pub handshake_timeout_ms: Option<u64>,
    pub sender_presets: Vec<String>,
}

impl Default for NetworkSettings {
    fn default() -> (n: Self)
        ensures
            n.address@ == default_address_spec(),
            n.bind is None,
            n.jitter_buffer_capacity == DEFAULT_JITTER_CAPACITY,
            n.target_bitrate is None,
            n.max_packet_payload is None,
            n.handshake_timeout_ms is None,
            n.sender_presets@.len() == 0,
    {
        NetworkSettings {
            address: default_address(),
            bind: None,
            jitter_buffer_capacity: DEFAULT_JITTER_CAPACITY,
            target_bitrate: None,
            max_packet_payload: None,
            handshake_timeout_ms: None,
            sender_presets: Vec::new(),
        }
    }
}

/// The first problem with network settings, as its message.
pub open spec fn network_problem(address: Seq<char>, bind: Option<Seq<char>>, jitter: usize) -> Option<Seq<char>> {
    if socket_spec(address) is None {
        Some(invalid_address_message(address))
    } else if bind is Some && socket_spec(bind->0) is None {
        Some(invalid_address_message(bind->0))
    } else if jitter == 0 {
        Some("jitter buffer capacity must be greater than zero"@)
    } else {
        None
    }
}

pub open spec fn bind_view(bind: Option<String>) -> Option<Seq<char>> {
    match bind {
        Some(b) => Some(b@),
        None => None,
    }
}

impl NetworkSettings {
    pub fn validate(&self) -> (r: Result<(), AppError>)
        ensures
            match r {
                Ok(()) => network_problem(self.address@, bind_view(self.bind), self.jitter_buffer_capacity) is None,
                Err(AppError::Message(m)) => network_problem(self.address@, bind_view(self.bind), self.jitter_buffer_capacity)
                    == Some(m@),
                Err(_) => false,
            },
    {
        match validate_address(self.address.as_str()) {
            Ok(()) => {},
            Err(e) => return Err(e),
        }
        match &self.bind {
            Some(bind) => match validate_address(bind.as_str()) {
                Ok(()) => {},
                Err(e) => return Err(e),
            },
            None => {},
        }
        if self.jitter_buffer_capacity == 0 {
            return Err(AppError::Message(String::from_str("jitter buffer capacity must be greater than zero")));
        }
        Ok(())
    }

    /// Puts the sender presets in order: trimmed, nonempty, each once, the
    /// own address first and the others after it in increasing order.
    pub fn normalise_presets(&mut self)
        ensures
            presets_ordered(
                string_views(final(self).sender_presets@),
                preset_entries(string_views(old(self).sender_presets@), old(self).address@),
                old(self).address@,
            ),
            final(self).address == old(self).address,
            final(self).bind == old(self).bind,
            final(self).jitter_buffer_capacity == old(self).jitter_buffer_capacity,
            final(self).target_bitrate == old(self).target_bitrate,
            final(self).max_packet_payload == old(self).max_packet_payload,
            final(self).handshake_timeout_ms == old(self).handshake_timeout_ms,
    {
        let mut presets: Vec<String> = Vec::new();
        std::mem::swap(&mut presets, &mut self.sender_presets);
        self.sender_presets = order_presets(presets, &self.address);
    }
}

/// Queue sizes, latency bound and frame limit of the receiving pipeline.
#[derive(Debug, Clone, Copy, PartialEq, Eq, Structural)]
pub struct PipelineSettings {
    pub decode_queue: usize,
    pub render_queue: usize,
    pub max_latency_ms: u64,
    pub frame_limit: Option<u64>,
}

impl Default for PipelineSettings {
    fn default() -> (p: Self)
        ensures
            p == (PipelineSettings {
                decode_queue: DEFAULT_DECODE_QUEUE,
                render_queue: DEFAULT_RENDER_QUEUE,
                max_latency_ms: DEFAULT_MAX_LATENCY_MS,
                frame_limit: None,
            }),
    {
        PipelineSettings {
            decode_queue: DEFAULT_DECODE_QUEUE,
            render_queue: DEFAULT_RENDER_QUEUE,
            max_latency_ms: DEFAULT_MAX_LATENCY_MS,
            frame_limit: None,
        }
    }
}

pub open spec fn pipeline_problem(p: PipelineSettings) -> Option<Seq<char>> {
    if p.decode_queue == 0 {
        Some("decode queue capacity must be greater than zero"@)
    } else if p.render_queue == 0 {
        Some("render queue capacity must be greater than zero"@)
    } else if p.max_latency_ms == 0 {
        Some("maximum latency must be greater than zero"@)
    } else {
        None
    }
}

impl PipelineSettings {
    pub fn validate(&self) -> (r: Result<(), AppError>)
        ensures
            match r {
                Ok(()) => pipeline_problem(*self) is None,
                Err(AppError::Message(m)) => pipeline_problem(*self) == Some(m@),
                Err(_) => false,
            },
    {
        if self.decode_queue == 0 {
            return Err(AppError::Message(String::from_str("decode queue capacity must be greater than zero")));
        }
        if self.render_queue == 0 {
            return Err(AppError::Message(String::from_str("render queue capacity must be greater than zero")));
        }
        if self.max_latency_ms == 0 {
            return Err(AppError::Message(String::from_str("maximum latency must be greater than zero")));
        }
        Ok(())
    }

    /// The render-queue latency bound in milliseconds (at least one).
    pub fn max_latency(&self) -> (ms: u64)
        ensures
            ms == if self.max_latency_ms > 1 { self.max_latency_ms } else { 1 },
    {
        if self.max_latency_ms > 1 { self.max_latency_ms } else { 1 }
    }
}

/// The picture the receiver expects and shows.
#[derive(Debug, Clone)]
pub struct RenderSettings {
    pub width: u32,
    pub height: u32,
    pub refresh_rate: u32,
    pub window_title: String,
    pub vsync: bool,
}

impl Default for RenderSettings {
    fn default() -> (r: Self)
        ensures
            r.width == DEFAULT_FRAME_WIDTH,
            r.height == DEFAULT_FRAME_HEIGHT,
            r.refresh_rate == DEFAULT_REFRESH_RATE,
            r.window_title@ == default_window_title_spec(),
            r.vsync,
    {
        RenderSettings {
            width: DEFAULT_FRAME_WIDTH,
            height: DEFAULT_FRAME_HEIGHT,
            refresh_rate: DEFAULT_REFRESH_RATE,
            window_title: default_window_title(),
            vsync: true,
        }
    }
}

pub open spec fn render_problem(width: u32, height: u32, refresh_rate: u32) -> Option<Seq<char>> {
    if width == 0 || height == 0 {
        Some("render dimensions must be positive"@)
    } else if refresh_rate == 0 {
        Some("refresh rate must be positive"@)
    } else {
        None
    }
}

/// `width * height * 4`, stopping at the largest `usize`.
pub open spec fn frame_bytes_spec(width: u32, height: u32) -> int {
    let wh = if (width as int) * (height as int) > usize::MAX { usize::MAX as int } else { (width as int) * (height as int) };
    if wh * 4 > usize::MAX { usize::MAX as int } else { wh * 4 }
}

impl RenderSettings {
    pub fn validate(&self) -> (r: Result<(), AppError>)
        ensures
            match r {
                Ok(()) => render_problem(self.width, self.height, self.refresh_rate) is None,
                Err(AppError::Message(m)) => render_problem(self.width, self.height, self.refresh_rate) == Some(m@),
                Err(_) => false,
            },
    {
        if self.width == 0 || self.height == 0 {
            return Err(AppError::Message(String::from_str("render dimensions must be positive")));
        }
        if self.refresh_rate == 0 {
            return Err(AppError::Message(String::from_str("refresh rate must be positive")));
        }
        Ok(())
    }

    /// The size of a decoded BGRA frame.
    pub fn expected_frame_bytes(&self) -> (n: usize)
        ensures
            n == frame_bytes_spec(self.width, self.height),
    {
        assert((self.width as u128) * (self.height as u128) <= 0xffff_ffffu128 * 0xffff_ffffu128) by (nonlinear_arith)
            requires self.width <= 0xffff_ffffu32, self.height <= 0xffff_ffffu32;
        let wh: u128 = (self.width as u128) * (self.height as u128);
        let wh_sat: u128 = if wh > usize::MAX as u128 { usize::MAX as u128 } else { wh };
        let bytes: u128 = wh_sat * 4;
        if bytes > usize::MAX as u128 { usize::MAX } else { bytes as usize }
    }
}

/// How often metrics are logged, and how many snapshots may wait.
#[derive(Debug, Clone, Copy, PartialEq, Eq, Structural)]
pub struct MetricsSettings {
    pub log_interval_secs: u64,
    pub channel_capacity: usize,
}

impl Default for MetricsSettings {
    fn default() -> (m: Self)
        ensures
            m.log_interval_secs == DEFAULT_METRICS_INTERVAL_SECS,
            m.channel_capacity == DEFAULT_METRICS_CHANNEL_CAPACITY,
    {
        MetricsSettings {
            log_interval_secs: DEFAULT_METRICS_INTERVAL_SECS,
            channel_capacity: DEFAULT_METRICS_CHANNEL_CAPACITY,
        }
    }
}

impl MetricsSettings {
    /// The logging interval in seconds (at least one).
    pub fn interval(&self) -> (secs: u64)
        ensures
            secs == if self.log_interval_secs > 1 { self.log_interval_secs } else { 1 },
    {
        if self.log_interval_secs > 1 { self.log_interval_secs } else { 1 }
    }
}

/// The whole receiver configuration.
#[derive(Debug, Clone)]
pub struct ReceiverConfig {
    pub network: NetworkSettings,
    pub pipeline: PipelineSettings,
    pub render: RenderSettings,
    pub metrics: MetricsSettings,
}

impl Default for ReceiverConfig {
    fn default() -> (c: Self)
        ensures
            c.network.address@ == default_address_spec(),
            c.network.bind is None,
            c.network.jitter_buffer_capacity == DEFAULT_JITTER_CAPACITY,
            c.network.target_bitrate is None,
            c.network.max_packet_payload is None,
            c.network.handshake_timeout_ms is None,
            c.network.sender_presets@.len() == 0,
            c.pipeline == (PipelineSettings {
                decode_queue: DEFAULT_DECODE_QUEUE,
                render_queue: DEFAULT_RENDER_QUEUE,
                max_latency_ms: DEFAULT_MAX_LATENCY_MS,
                frame_limit: None,
            }),
            c.render.width == DEFAULT_FRAME_WIDTH,
            c.render.height == DEFAULT_FRAME_HEIGHT,
            c.render.refresh_rate == DEFAULT_REFRESH_RATE,
            c.render.window_title@ == default_window_title_spec(),
            c.render.vsync,
            c.metrics.log_interval_secs == DEFAULT_METRICS_INTERVAL_SECS,
            c.metrics.channel_capacity == DEFAULT_METRICS_CHANNEL_CAPACITY,
    {
        ReceiverConfig {
            network: NetworkSettings::default(),
            pipeline: PipelineSettings::default(),
            render: RenderSettings::default(),
            metrics: MetricsSettings::default(),
        }
    }
}

/// What `normalise` leaves of pipeline settings: zero queues and latency get
/// their defaults.
pub open spec fn normalised_pipeline(p: PipelineSettings) -> PipelineSettings {
    PipelineSettings {
        decode_queue: if p.decode_queue == 0 { DEFAULT_DECODE_QUEUE } else { p.decode_queue },
        render_queue: if p.render_queue == 0 { DEFAULT_RENDER_QUEUE } else { p.render_queue },
        max_latency_ms: if p.max_latency_ms == 0 { DEFAULT_MAX_LATENCY_MS } else { p.max_latency_ms },
        frame_limit: p.frame_limit,
    }
}

/// What `normalise` leaves of an address: a blank one becomes the default.
pub open spec fn normalised_address(a: Seq<char>) -> Seq<char> {
    if trim_spec(a).len() == 0 { default_address_spec() } else { a }
}

pub open spec fn or_default_u32(v: u32, d: u32) -> u32 {
    if v == 0 { d } else { v }
}

/// The configuration that `from_cli` starts from, before normalising: the
/// file's, or the defaults, with each command-line value that is given in
/// place of the one there.
pub open spec fn merged_address(args: CliArgs, file: Option<ReceiverConfig>) -> Seq<char> {
    match args.address {
        Some(a) => a@,
        None => match file { Some(f) => f.network.address@, None => default_address_spec() },
    }
}

pub open spec fn merged_bind(args: CliArgs, file: Option<ReceiverConfig>) -> Option<Seq<char>> {
    match args.bind {
        Some(b) => Some(b@),
        None => match file { Some(f) => bind_view(f.network.bind), None => None },
    }
}

pub open spec fn merged_jitter(args: CliArgs, file: Option<ReceiverConfig>) -> usize {
    match args.jitter_capacity {
        Some(j) => j,
        None => match file { Some(f) => f.network.jitter_buffer_capacity, None => DEFAULT_JITTER_CAPACITY },
    }
}

pub open spec fn base_pipeline(file: Option<ReceiverConfig>) -> PipelineSettings {
    match file {
        Some(f) => f.pipeline,
        None => PipelineSettings {
            decode_queue: DEFAULT_DECODE_QUEUE,
            render_queue: DEFAULT_RENDER_QUEUE,
            max_latency_ms: DEFAULT_MAX_LATENCY_MS,
            frame_limit: None,
        },
    }
}

pub open spec fn merged_pipeline(args: CliArgs, file: Option<ReceiverConfig>) -> PipelineSettings {
    let b = base_pipeline(file);
    PipelineSettings {
        decode_queue: match args.decode_queue { Some(q) => q, None => b.decode_queue },
        render_queue: match args.render_queue { Some(q) => q, None => b.render_queue },
        max_latency_ms: match args.max_latency { Some(l) => l, None => b.max_latency_ms },
        frame_limit: match args.frame_limit { Some(l) => Some(l), None => b.frame_limit },
    }
}

/// Width, height and refresh rate after the overrides.
pub open spec fn merged_render(args: CliArgs, file: Option<ReceiverConfig>) -> (u32, u32, u32) {
    let (w, h, r) = match file {
        Some(f) => (f.render.width, f.render.height, f.render.refresh_rate),
        None => (DEFAULT_FRAME_WIDTH, DEFAULT_FRAME_HEIGHT, DEFAULT_REFRESH_RATE),
    };
    (
        match args.width { Some(x) => x, None => w },
        match args.height { Some(x) => x, None => h },
        match args.refresh_rate { Some(x) => x, None => r },
    )
}

/// `m` is the file's configuration, or the defaults, with each value given
/// on the command line in place of the one there.
pub open spec fn is_merged(args: CliArgs, file: Option<ReceiverConfig>, m: ReceiverConfig) -> bool {
    &&& m.network.address@ == merged_address(args, file)
    &&& bind_view(m.network.bind) == merged_bind(args, file)
    &&& m.network.jitter_buffer_capacity == merged_jitter(args, file)
    &&& m.network.target_bitrate == match file { Some(f) => f.network.target_bitrate, None => None }
    &&& m.network.max_packet_payload == match file { Some(f) => f.network.max_packet_payload, None => None }
    &&& m.network.handshake_timeout_ms == match file { Some(f) => f.network.handshake_timeout_ms, None => None }
    &&& string_views(m.network.sender_presets@) == match file {
        Some(f) => string_views(f.network.sender_presets@),
        None => Seq::empty(),
    }
    &&& m.pipeline == merged_pipeline(args, file)
    &&& (m.render.width, m.render.height, m.render.refresh_rate) == merged_render(args, file)
    &&& m.render.window_title@ == match args.window_title {
        Some(t) => t@,
        None => match file { Some(f) => f.render.window_title@, None => default_window_title_spec() },
    }
    &&& m.render.vsync == match file { Some(f) => f.render.vsync, None => true }
    &&& m.metrics.log_interval_secs == match args.metrics_interval {
        Some(i) => i,
        None => match file { Some(f) => f.metrics.log_interval_secs, None => DEFAULT_METRICS_INTERVAL_SECS },
    }
    &&& m.metrics.channel_capacity == match file {
        Some(f) => f.metrics.channel_capacity,
        None => DEFAULT_METRICS_CHANNEL_CAPACITY,
    }
}

/// The file's configuration, or the defaults, with each value given on the
/// command line in place of the one there.
#[verifier::rlimit(80)]
fn merge_cli(args: CliArgs, file: Option<ReceiverConfig>) -> (m: ReceiverConfig)
    ensures
        is_merged(args, file, m),
{
    let ghost file_g = file;
    let mut config = match file {
        Some(c) => c,
        None => ReceiverConfig::default(),
    };
    proof {
        let presets = match file_g { Some(f) => string_views(f.network.sender_presets@), None => Seq::empty() };
        assert(string_views(config.network.sender_presets@) =~= presets);
    }
    match args.address {
        Some(address) => { config.network.address = address; },
        None => {},
    }
    match args.bind {
        Some(bind) => { config.network.bind = Some(bind); },
        None => {},
    }
    match args.jitter_capacity {
        Some(capacity) => { config.network.jitter_buffer_capacity = capacity; },
        None => {},
    }
    match args.max_latency {
        Some(latency) => { config.pipeline.max_latency_ms = latency; },
        None => {},
    }
    match args.decode_queue {
        Some(queue) => { config.pipeline.decode_queue = queue; },
        None => {},
    }
    match args.render_queue {
        Some(queue) => { config.pipeline.render_queue = queue; },
        None => {},
    }
    match args.width {
        Some(width) => { config.render.width = width; },
        None => {},
    }
    match args.height {
        Some(height) => { config.render.height = height; },
        None => {},
    }
    match args.refresh_rate {
        Some(rate) => { config.render.refresh_rate = rate; },
        None => {},
    }
    match args.metrics_interval {
        Some(interval) => { config.metrics.log_interval_secs = interval; },
        None => {},
    }
    match args.window_title {
        Some(title) => { config.render.window_title = title; },
        None => {},
    }
    match args.frame_limit {
        Some(limit) => { config.pipeline.frame_limit = Some(limit); },
        None => {},
    }
    config
}

/// The first problem that `validate` finds in `c`, as its message: it
/// checks the normalised settings.
pub open spec fn config_problem(c: ReceiverConfig) -> Option<Seq<char>> {
    match network_problem(normalised_address(c.network.address@), bind_view(c.network.bind), c.network.jitter_buffer_capacity) {
        Some(p) => Some(p),
        None => match pipeline_problem(normalised_pipeline(c.pipeline)) {
            Some(p) => Some(p),
            None => render_problem(
                or_default_u32(c.render.width, DEFAULT_FRAME_WIDTH),
                or_default_u32(c.render.height, DEFAULT_FRAME_HEIGHT),
                or_default_u32(c.render.refresh_rate, DEFAULT_REFRESH_RATE),
            ),
        },
    }
}

/// The first problem `from_cli` reports, as its message.
pub open spec fn cli_problem(args: CliArgs, file: Option<ReceiverConfig>) -> Option<Seq<char>> {
    let (w, h, r) = merged_render(args, file);
    match network_problem(normalised_address(merged_address(args, file)), merged_bind(args, file), merged_jitter(args, file)) {
        Some(p) => Some(p),
        None => match pipeline_problem(normalised_pipeline(merged_pipeline(args, file))) {
            Some(p) => Some(p),
            None => render_problem(
                or_default_u32(w, DEFAULT_FRAME_WIDTH),
                or_default_u32(h, DEFAULT_FRAME_HEIGHT),
                or_default_u32(r, DEFAULT_REFRESH_RATE),
            ),
        },
    }
}

/// The configuration `from_cli` hands back: the merged one, normalised.
pub open spec fn cli_result(args: CliArgs, file: Option<ReceiverConfig>, c: ReceiverConfig) -> bool {
    let address = normalised_address(merged_address(args, file));
    let (w, h, r) = merged_render(args, file);
    let presets = match file { Some(f) => string_views(f.network.sender_presets@), None => Seq::empty() };
    &&& c.network.address@ == address
    &&& bind_view(c.network.bind) == merged_bind(args, file)
    &&& c.network.jitter_buffer_capacity == merged_jitter(args, file)
    &&& c.network.target_bitrate == match file { Some(f) => f.network.target_bitrate, None => None }
    &&& c.network.max_packet_payload == match file { Some(f) => f.network.max_packet_payload, None => None }
    &&& c.network.handshake_timeout_ms == match file { Some(f) => f.network.handshake_timeout_ms, None => None }
    &&& presets_ordered(string_views(c.network.sender_presets@), preset_entries(presets, address), address)
    &&& c.pipeline == normalised_pipeline(merged_pipeline(args, file))
    &&& c.render.width == or_default_u32(w, DEFAULT_FRAME_WIDTH)
    &&& c.render.height == or_default_u32(h, DEFAULT_FRAME_HEIGHT)
    &&& c.render.refresh_rate == or_default_u32(r, DEFAULT_REFRESH_RATE)
    &&& c.render.window_title@ == match args.window_title {
        Some(t) => t@,
        None => match file { Some(f) => f.render.window_title@, None => default_window_title_spec() },
    }
    &&& c.render.vsync == match file { Some(f) => f.render.vsync, None => true }
    &&& c.metrics.log_interval_secs == match args.metrics_interval {
        Some(i) => i,
        None => match file { Some(f) => f.metrics.log_interval_secs, None => DEFAULT_METRICS_INTERVAL_SECS },
    }
    &&& c.metrics.channel_capacity == {
        let cap = match file { Some(f) => f.metrics.channel_capacity, None => DEFAULT_METRICS_CHANNEL_CAPACITY };
        if cap == 0 { DEFAULT_METRICS_CHANNEL_CAPACITY } else { cap }
    }
}

/// Values given on the command line win: when `from_cli` succeeds, the
/// render width, height and refresh rate are those given (a zero one gets
/// the default), and so are the jitter capacity, the queue sizes and the
/// latency bound (zero ones get their defaults), the frame limit, the
/// address (a blank one gets the default), the bind address, the window
/// title and the metrics interval.
pub proof fn lemma_cli_values_win(args: CliArgs, file: Option<ReceiverConfig>, c: ReceiverConfig)
    requires
        cli_problem(args, file) is None,
        cli_result(args, file, c),
    ensures
        args.width matches Some(x) ==> c.render.width == if x == 0 { DEFAULT_FRAME_WIDTH } else { x },
        args.height matches Some(x) ==> c.render.height == if x == 0 { DEFAULT_FRAME_HEIGHT } else { x },
        args.refresh_rate matches Some(x) ==> c.render.refresh_rate == if x == 0 { DEFAULT_REFRESH_RATE } else { x },
        args.jitter_capacity matches Some(j) ==> c.network.jitter_buffer_capacity == j,
        args.decode_queue matches Some(q) ==> c.pipeline.decode_queue == if q == 0 { DEFAULT_DECODE_QUEUE } else { q },
        args.render_queue matches Some(q) ==> c.pipeline.render_queue == if q == 0 { DEFAULT_RENDER_QUEUE } else { q },
        args.max_latency matches Some(l) ==> c.pipeline.max_latency_ms == if l == 0 { DEFAULT_MAX_LATENCY_MS } else { l },
        args.frame_limit matches Some(l) ==> c.pipeline.frame_limit == Some(l),
        args.address matches Some(a) ==> c.network.address@ == if trim_spec(a@).len() == 0 {
            default_address_spec()
        } else {
            a@
        },
        args.bind matches Some(b) ==> bind_view(c.network.bind) == Some(b@),
        args.window_title matches Some(t) ==> c.render.window_title@ == t@,
        args.metrics_interval matches Some(i) ==> c.metrics.log_interval_secs == i,
{
}

impl ReceiverConfig {
    /// What `normalise` does to a configuration.
    pub open spec fn normalise_post(c: ReceiverConfig, out: ReceiverConfig) -> bool {
        let address = normalised_address(c.network.address@);
        &&& out.network.address@ == address
        &&& out.network.bind == c.network.bind
        &&& out.network.jitter_buffer_capacity == c.network.jitter_buffer_capacity
        &&& out.network.target_bitrate == c.network.target_bitrate
        &&& out.network.max_packet_payload == c.network.max_packet_payload
        &&& out.network.handshake_timeout_ms == c.network.handshake_timeout_ms
        &&& presets_ordered(
            string_views(out.network.sender_presets@),
            preset_entries(string_views(c.network.sender_presets@), address),
            address,
        )
        &&& out.pipeline == normalised_pipeline(c.pipeline)
        &&& out.render.width == or_default_u32(c.render.width, DEFAULT_FRAME_WIDTH)
        &&& out.render.height == or_default_u32(c.render.height, DEFAULT_FRAME_HEIGHT)
        &&& out.render.refresh_rate == or_default_u32(c.render.refresh_rate, DEFAULT_REFRESH_RATE)
        &&& out.render.window_title == c.render.window_title
        &&& out.render.vsync == c.render.vsync
        &&& out.metrics.log_interval_secs == c.metrics.log_interval_secs
        &&& out.metrics.channel_capacity == if c.metrics.channel_capacity == 0 {
            DEFAULT_METRICS_CHANNEL_CAPACITY
        } else {
            c.metrics.channel_capacity
        }
    }

    /// Fills in defaults for what is missing and orders the presets.
    fn normalise(&mut self)
        ensures
            ReceiverConfig::normalise_post(*old(self), *final(self)),
    {
        if is_blank(self.network.address.as_str()) {
            self.network.address = default_address();
        }
        if self.pipeline.decode_queue == 0 {
            self.pipeline.decode_queue = DEFAULT_DECODE_QUEUE;
        }
        if self.pipeline.render_queue == 0 {
            self.pipeline.render_queue = DEFAULT_RENDER_QUEUE;
        }
        if self.render.width == 0 {
            self.render.width = DEFAULT_FRAME_WIDTH;
        }
        if self.render.height == 0 {
            self.render.height = DEFAULT_FRAME_HEIGHT;
        }
        if self.render.refresh_rate == 0 {
            self.render.refresh_rate = DEFAULT_REFRESH_RATE;
        }
        if self.pipeline.max_latency_ms == 0 {
            self.pipeline.max_latency_ms = DEFAULT_MAX_LATENCY_MS;
        }
        if self.metrics.channel_capacity == 0 {
            self.metrics.channel_capacity = DEFAULT_METRICS_CHANNEL_CAPACITY;
        }
        self.network.normalise_presets();
    }

    /// Normalises, then checks the network, pipeline and render settings,
    /// reporting the first problem.
    pub fn validate(&mut self) -> (r: Result<(), AppError>)
        ensures
            ReceiverConfig::normalise_post(*old(self), *final(self)),
            ({
                let n = *final(self);
                let problem = match network_problem(n.network.address@, bind_view(n.network.bind), n.network.jitter_buffer_capacity) {
                    Some(p) => Some(p),
                    None => match pipeline_problem(n.pipeline) {
                        Some(p) => Some(p),
                        None => render_problem(n.render.width, n.render.height, n.render.refresh_rate),
                    },
                };
                match r {
                    Ok(()) => problem is None,
                    Err(AppError::Message(m)) => problem == Some(m@),
                    Err(_) => false,
                }
            }),
    {
        self.normalise();
        match self.network.validate() {
            Ok(()) => {},
            Err(e) => return Err(e),
        }
        match self.pipeline.validate() {
            Ok(()) => {},
            Err(e) => return Err(e),
        }
        self.render.validate()
    }

    /// The endpoint the receiver listens with: the address, the optional
    /// bind address, bitrate, payload and handshake timeout overrides, and
    /// the jitter capacity.
    pub fn endpoint_config(&self) -> (e: EndpointConfig)
        ensures
            e.address@ == self.network.address@,
            bind_view(e.bind_address) == bind_view(self.network.bind),
            e.target_bitrate == match self.network.target_bitrate {
                Some(b) => if b > 0 { b } else { crate::network::endpoint::DEFAULT_TARGET_BITRATE },
                None => crate::network::endpoint::DEFAULT_TARGET_BITRATE,
            },
            e.max_packet_payload == match self.network.max_packet_payload {
                Some(p) => if p >= crate::network::fragment::MIN_PACKET_PAYLOAD {
                    if p < crate::network::fragment::MAX_PAYLOAD_LIMIT { p } else { crate::network::fragment::MAX_PAYLOAD_LIMIT }
                } else {
                    crate::network::endpoint::DEFAULT_MAX_PACKET_PAYLOAD
                },
                None => crate::network::endpoint::DEFAULT_MAX_PACKET_PAYLOAD,
            },
            e.jitter_buffer_capacity == if self.network.jitter_buffer_capacity > 0 {
                self.network.jitter_buffer_capacity
            } else {
                crate::network::endpoint::DEFAULT_JITTER_CAPACITY
            },
            e.handshake_timeout_ms == match self.network.handshake_timeout_ms {
                Some(t) => if t > 1 { t } else { 1 },
                None => crate::network::endpoint::DEFAULT_HANDSHAKE_TIMEOUT_MS,
            },
            e.key_frame_redundancy == crate::network::endpoint::DEFAULT_KEY_FRAME_REPETITIONS,
    {
        let mut endpoint = EndpointConfig::new(self.network.address.as_str());
        match &self.network.bind {
            Some(bind) => { endpoint = endpoint.with_bind_address(bind.as_str()); },
            None => {},
        }
        match self.network.target_bitrate {
            Some(bitrate) => { endpoint = endpoint.with_target_bitrate(bitrate); },
            None => {},
        }
        match self.network.max_packet_payload {
            Some(payload) => { endpoint = endpoint.with_max_packet_payload(payload); },
            None => {},
        }
        endpoint = endpoint.with_jitter_capacity(self.network.jitter_buffer_capacity);
        match self.network.handshake_timeout_ms {
            Some(timeout) => {
                let ms = if timeout > 1 { timeout } else { 1 };
                endpoint = endpoint.with_handshake_timeout(ms);
            },
            None => {},
        }
        endpoint
    }

    pub fn expected_frame_bytes(&self) -> (n: usize)
        ensures
            n == frame_bytes_spec(self.render.width, self.render.height),
    {
        self.render.expected_frame_bytes()
    }

    /// The render-queue latency bound in milliseconds.
    pub fn max_latency(&self) -> (ms: u64)
        ensures
            ms == if self.pipeline.max_latency_ms > 1 { self.pipeline.max_latency_ms } else { 1 },
    {
        self.pipeline.max_latency()
    }

    /// The metrics logging interval in seconds.
    pub fn metrics_interval(&self) -> (secs: u64)
        ensures
            secs == if self.metrics.log_interval_secs > 1 { self.metrics.log_interval_secs } else { 1 },
    {
        self.metrics.interval()
    }

    pub fn metrics_channel_capacity(&self) -> (n: usize)
        ensures
            n == self.metrics.channel_capacity,
    {
        self.metrics.channel_capacity
    }

    pub fn sender_presets(&self) -> (p: &[String])
        ensures
            p@ == self.network.sender_presets@,
    {
        self.network.sender_presets.as_slice()
    }

    /// The configuration to run with: the one read from the file named on
    /// the command line (`file`, when it names one) or the defaults, with
    /// the command-line overrides applied, then normalised and checked.
    pub fn from_cli(args: CliArgs, file: Option<ReceiverConfig>) -> (r: Result<ReceiverConfig, AppError>)
        ensures
            match r {
                Ok(c) => cli_problem(args, file) is None && cli_result(args, file, c),
                Err(AppError::Message(m)) => cli_problem(args, file) == Some(m@),
                Err(_) => false,
            },
    {
        let mut config = merge_cli(args, file);
        match config.validate() {
            Ok(()) => Ok(config),
            Err(e) => Err(e),
        }
    }
}

} // verus!
