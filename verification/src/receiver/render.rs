//! What the receiver window decides: the connection it shows, the sender
//! switches and buffering changes it asks for.
use vstd::prelude::*;
use crate::receiver::config::string_views;
use crate::receiver::pipeline::{BufferingPresetConfig, ControlEvent, PipelineStatus};
use crate::text::{chars_equal, chars_of};

verus! {

/// The connection as the window shows it.
#[derive(Debug, Clone)]
pub enum ConnectionState {
    Idle,
    Connecting { address: String },
    Connected { address: String },
    Failed { address: String, error: String },
    Disconnected,
}

/// The first position of `x` in `l`, if it occurs.
pub open spec fn first_position(l: Seq<Seq<char>>, x: Seq<char>) -> Option<int> {
    if exists|i: int| 0 <= i < l.len() && l[i] == x {
        Some(choose|i: int| 0 <= i < l.len() && l[i] == x && forall|j: int| 0 <= j < i ==> l[j] != x)
    } else {
        None
    }
}

fn position_of(list: &Vec<String>, item: &String) -> (p: Option<usize>)
    ensures
        match p {
            Some(i) => i < list@.len() && string_views(list@)[i as int] == item@
                && forall|j: int| 0 <= j < i ==> string_views(list@)[j] != item@,
            None => forall|j: int| 0 <= j < list@.len() ==> string_views(list@)[j] != item@,
        },
{
    let key = chars_of(item.as_str());
    let mut i: usize = 0;
    while i < list.len()
        invariant
            i <= list@.len(),
            key@ == item@,
            forall|j: int| 0 <= j < i ==> string_views(list@)[j] != item@,
        decreases list@.len() - i,
    {
        let current = chars_of(list[i].as_str());
        if chars_equal(&current, &key) {
            return Some(i);
        }
        i = i + 1;
    }
    None
}

proof fn lemma_first_position(l: Seq<Seq<char>>, x: Seq<char>, i: int)
    requires
        0 <= i < l.len(),
        l[i] == x,
        forall|j: int| 0 <= j < i ==> l[j] != x,
    ensures
        first_position(l, x) == Some(i),
{
    let k = choose|k: int| 0 <= k < l.len() && l[k] == x && forall|j: int| 0 <= j < k ==> l[j] != x;
    assert(0 <= i < l.len() && l[i] == x && forall|j: int| 0 <= j < i ==> l[j] != x);
    if k < i {
        assert(l[k] != x);
    } else if k > i {
        assert(l[i] != x);
    }
}

/// The sender and buffering choices of the receiver window.
#[derive(Debug)]
pub struct ConnectionPanel {
    pub sender_presets: Vec<String>,
    pub buffering_presets: Vec<BufferingPresetConfig>,
    pub connection_state: ConnectionState,
    pub selected_sender_index: usize,
    pub pending_sender_index: usize,
    pub selected_buffering_index: usize,
    pub last_buffering_sent: Option<usize>,
    pub last_sender_sent: Option<String>,
}

impl ConnectionPanel {
    /// The window's choices at start: connecting to the first preset (idle
    /// when there is none), and the first buffering preset requested when
    /// there is one.
    pub fn new(sender_presets: Vec<String>, buffering_presets: Vec<BufferingPresetConfig>) -> (r: (ConnectionPanel, Option<ControlEvent>))
        ensures
            string_views(r.0.sender_presets@) == string_views(sender_presets@),
            r.0.buffering_presets@ == buffering_presets@,
            r.0.selected_sender_index == 0,
            r.0.pending_sender_index == 0,
            r.0.selected_buffering_index == 0,
            r.0.last_sender_sent is None,
            if sender_presets@.len() > 0 {
                r.0.connection_state matches ConnectionState::Connecting { address } && address@ == sender_presets@[0]@
            } else {
                r.0.connection_state is Idle
            },
            if buffering_presets@.len() > 0 {
                &&& r.1 matches Some(ControlEvent::SetBuffering { max_frames, max_latency_ms })
                &&& max_frames == buffering_presets@[0].max_frames
                &&& max_latency_ms == buffering_presets@[0].max_latency_ms
                &&& r.0.last_buffering_sent == Some(0usize)
            } else {
                r.1 is None && r.0.last_buffering_sent is None
            },
    {
        let connection_state = if sender_presets.len() > 0 {
            ConnectionState::Connecting { address: sender_presets[0].clone() }
        } else {
            ConnectionState::Idle
        };
        let mut panel = ConnectionPanel {
            sender_presets,
            buffering_presets,
            connection_state,
            selected_sender_index: 0,
            pending_sender_index: 0,
            selected_buffering_index: 0,
            last_buffering_sent: None,
            last_sender_sent: None,
        };
        let mut event = None;
        if panel.buffering_presets.len() > 0 {
            event = panel.apply_buffering_preset(0);
        }
        (panel, event)
    }

    /// Follows a status report of the pipeline.
    pub fn handle_status(&mut self, status: PipelineStatus)
        ensures
            final(self).sender_presets@ == old(self).sender_presets@,
            final(self).buffering_presets@ == old(self).buffering_presets@,
            final(self).selected_buffering_index == old(self).selected_buffering_index,
            final(self).last_buffering_sent == old(self).last_buffering_sent,
            match status {
                PipelineStatus::Connecting { address } => {
                    &&& final(self).connection_state matches ConnectionState::Connecting { address: a } && a@ == address@
                    &&& final(self).pending_sender_index == match first_position(string_views(old(self).sender_presets@), address@) {
                        Some(i) => i as usize,
                        None => old(self).pending_sender_index,
                    }
                    &&& final(self).selected_sender_index == old(self).selected_sender_index
                    &&& final(self).last_sender_sent == old(self).last_sender_sent
                },
                PipelineStatus::Connected { address } => {
                    &&& final(self).connection_state matches ConnectionState::Connected { address: a } && a@ == address@
                    &&& final(self).pending_sender_index == match first_position(string_views(old(self).sender_presets@), address@) {
                        Some(i) => i as usize,
                        None => old(self).pending_sender_index,
                    }
                    &&& final(self).selected_sender_index == match first_position(string_views(old(self).sender_presets@), address@) {
                        Some(i) => i as usize,
                        None => old(self).selected_sender_index,
                    }
                    &&& final(self).last_sender_sent matches Some(s) && s@ == address@
                },
                PipelineStatus::ConnectionFailed { address, error } => {
                    &&& final(self).connection_state matches ConnectionState::Failed { address: a, error: e }
                        && a@ == address@ && e@ == error@
                    &&& final(self).pending_sender_index == old(self).pending_sender_index
                    &&& final(self).selected_sender_index == old(self).selected_sender_index
                    &&& final(self).last_sender_sent is None
                },
                PipelineStatus::Disconnected => {
                    &&& final(self).connection_state is Disconnected
                    &&& final(self).pending_sender_index == old(self).pending_sender_index
                    &&& final(self).selected_sender_index == old(self).selected_sender_index
                    &&& final(self).last_sender_sent is None
                },
            },
    {
        match status {
            PipelineStatus::Connecting { address } => {
                match position_of(&self.sender_presets, &address) {
                    Some(i) => {
                        proof {
                            lemma_first_position(string_views(self.sender_presets@), address@, i as int);
                        }
                        self.pending_sender_index = i;
                    },
                    None => {},
                }
                self.connection_state = ConnectionState::Connecting { address };
            },
            PipelineStatus::Connected { address } => {
                match position_of(&self.sender_presets, &address) {
                    Some(i) => {
                        proof {
                            lemma_first_position(string_views(self.sender_presets@), address@, i as int);
                        }
                        self.selected_sender_index = i;
                        self.pending_sender_index = i;
                    },
                    None => {},
                }
                self.connection_state = ConnectionState::Connected { address: address.clone() };
                self.last_sender_sent = Some(address);
            },
            PipelineStatus::ConnectionFailed { address, error } => {
                self.connection_state = ConnectionState::Failed { address, error };
                self.last_sender_sent = None;
            },
            PipelineStatus::Disconnected => {
                self.connection_state = ConnectionState::Disconnected;
                self.last_sender_sent = None;
            },
        }
    }

    /// Asks for the sender at `index`, unless it is the one last asked for
    /// (or there is none there).
    pub fn request_sender_switch(&mut self, index: usize) -> (event: Option<ControlEvent>)
        ensures
            final(self).sender_presets@ == old(self).sender_presets@,
            final(self).buffering_presets@ == old(self).buffering_presets@,
            final(self).last_buffering_sent == old(self).last_buffering_sent,
            final(self).selected_buffering_index == old(self).selected_buffering_index,
            ({
                let presets = old(self).sender_presets@;
                let skip = index >= presets.len() || (old(self).last_sender_sent matches Some(s) && s@ == presets[index as int]@);
                if skip {
                    event is None && final(self).connection_state == old(self).connection_state
                        && final(self).last_sender_sent == old(self).last_sender_sent
                        && final(self).selected_sender_index == old(self).selected_sender_index
                        && final(self).pending_sender_index == old(self).pending_sender_index
                } else {
                    &&& event matches Some(ControlEvent::SelectSender { address }) && address@ == presets[index as int]@
                    &&& final(self).connection_state matches ConnectionState::Connecting { address } && address@ == presets[index as int]@
                    &&& final(self).last_sender_sent matches Some(s) && s@ == presets[index as int]@
                    &&& final(self).selected_sender_index == index
                    &&& final(self).pending_sender_index == index
                }
            }),
    {
        if index >= self.sender_presets.len() {
            return None;
        }
        let address = self.sender_presets[index].clone();
        match &self.last_sender_sent {
            Some(last) => {
                let a = chars_of(last.as_str());
                let b = chars_of(address.as_str());
                if chars_equal(&a, &b) {
                    return None;
                }
            },
            None => {},
        }
        self.last_sender_sent = Some(address.clone());
        self.connection_state = ConnectionState::Connecting { address: address.clone() };
        self.selected_sender_index = index;
        self.pending_sender_index = index;
        Some(ControlEvent::SelectSender { address })
    }

    /// Asks for the buffering preset at `index`, unless it is the one last
    /// asked for (or there is none there).
    pub fn apply_buffering_preset(&mut self, index: usize) -> (event: Option<ControlEvent>)
        ensures
            final(self).sender_presets@ == old(self).sender_presets@,
            final(self).buffering_presets@ == old(self).buffering_presets@,
            final(self).connection_state == old(self).connection_state,
            final(self).last_sender_sent == old(self).last_sender_sent,
            final(self).selected_sender_index == old(self).selected_sender_index,
            final(self).pending_sender_index == old(self).pending_sender_index,
            final(self).selected_buffering_index == old(self).selected_buffering_index,
            if old(self).last_buffering_sent == Some(index) || index >= old(self).buffering_presets@.len() {
                event is None && final(self).last_buffering_sent == old(self).last_buffering_sent
            } else {
                &&& event matches Some(ControlEvent::SetBuffering { max_frames, max_latency_ms })
                &&& max_frames == old(self).buffering_presets@[index as int].max_frames
                &&& max_latency_ms == old(self).buffering_presets@[index as int].max_latency_ms
                &&& final(self).last_buffering_sent == Some(index)
            },
    {
        if self.last_buffering_sent == Some(index) {
            return None;
        }
        if index >= self.buffering_presets.len() {
            return None;
        }
        let max_frames = self.buffering_presets[index].max_frames;
        let max_latency_ms = self.buffering_presets[index].max_latency_ms;
        self.last_buffering_sent = Some(index);
        Some(ControlEvent::SetBuffering { max_frames, max_latency_ms })
    }

    /// The connection line of the window and its colour (red, green, blue).
    pub fn connection_status_text(&self) -> (r: (String, (u8, u8, u8)))
        ensures
            match self.connection_state {
                ConnectionState::Idle => r.0@ == "Idle"@ && r.1 == (160u8, 160u8, 160u8),
                ConnectionState::Connecting { address } => r.0@ == "Connecting to "@ + address@
                    && r.1 == (243u8, 156u8, 18u8),
                ConnectionState::Connected { address } => r.0@ == "Connected to "@ + address@
                    && r.1 == (46u8, 204u8, 113u8),
                ConnectionState::Failed { address, error } => r.0@ == "Failed to "@ + address@ + ": "@ + error@
                    && r.1 == (231u8, 76u8, 60u8),
                ConnectionState::Disconnected => r.0@ == "Disconnected"@ && r.1 == (231u8, 76u8, 60u8),
            },
    {
        match &self.connection_state {
            ConnectionState::Idle => (String::from_str("Idle"), (160, 160, 160)),
            ConnectionState::Connecting { address } => (
                String::from_str("Connecting to ").concat(address.as_str()),
                (243, 156, 18),
            ),
            ConnectionState::Connected { address } => (
                String::from_str("Connected to ").concat(address.as_str()),
                (46, 204, 113),
            ),
            ConnectionState::Failed { address, error } => (
                String::from_str("Failed to ").concat(address.as_str()).concat(": ").concat(error.as_str()),
                (231, 76, 60),
            ),
            ConnectionState::Disconnected => (String::from_str("Disconnected"), (231, 76, 60)),
        }
    }
}

} // verus!
