//! Endpoint configuration of a sender or a receiver.
use vstd::prelude::*;
use crate::error::AppError;
use crate::network::addr::{SocketAddress, parse_socket_address, socket_spec};
use crate::network::fragment::{MAX_PAYLOAD_LIMIT, MIN_PACKET_PAYLOAD};
use crate::text::{is_blank, trim_spec};

verus! {

/// Handshake attempts before a sender gives up.
pub const HANDSHAKE_RETRIES: usize = 5;

pub const DEFAULT_TARGET_BITRATE: u64 = 6_000_000;

pub const DEFAULT_MAX_PACKET_PAYLOAD: usize = 1_200;

pub const DEFAULT_JITTER_CAPACITY: usize = 32;

pub const DEFAULT_HANDSHAKE_TIMEOUT_MS: u64 = 250;

pub const DEFAULT_KEY_FRAME_REPETITIONS: u8 = 2;

/// Largest datagram a receiver reads.
pub const MAX_UDP_DATAGRAM: usize = 1_500;

/// Most copies of a key-frame fragment that are ever sent.
pub const REDUNDANCY_CAP: u8 = 4;

/// `value` clamped to `lo..=hi`.
pub open spec fn clamp_int(value: int, lo: int, hi: int) -> int {
    if value < lo { lo } else if value > hi { hi } else { value }
}

/// A key-frame redundancy clamped to `1..=REDUNDANCY_CAP`.
pub fn clamp_redundancy(redundancy: u8) -> (r: u8)
    ensures
        r == clamp_int(redundancy as int, 1, REDUNDANCY_CAP as int),
{
    if redundancy < 1 {
        1
    } else if redundancy > REDUNDANCY_CAP {
        REDUNDANCY_CAP
    } else {
        redundancy
    }
}

/// Where to send to or listen on, and how to packetise.
#[derive(Debug, Clone)]
pub struct EndpointConfig {
    pub address: String,
    pub bind_address: Option<String>,
    pub target_bitrate: u64,
    pub max_packet_payload: usize,
    pub jitter_buffer_capacity: usize,
    pub handshake_timeout_ms: u64,
    pub key_frame_redundancy: u8,
}

/// The message of the error for a socket address that does not parse.
pub open spec fn invalid_address_message(addr: Seq<char>) -> Seq<char> {
    "invalid socket address '"@ + addr + "': invalid socket address syntax"@
}

/// Parses a socket address, failing with a message that quotes it.
pub fn parse_socket_addr(addr: &str) -> (r: Result<SocketAddress, AppError>)
    ensures
        match r {
            Ok(a) => socket_spec(addr@) == Some(a),
            Err(AppError::Message(m)) => socket_spec(addr@) is None && m@ == invalid_address_message(addr@),
            Err(_) => false,
        },
{
    match parse_socket_address(addr) {
        Some(a) => Ok(a),
        None => {
            let m = String::from_str("invalid socket address '").concat(addr).concat(
                "': invalid socket address syntax",
            );
            Err(AppError::Message(m))
        },
    }
}

/// Checks that `address` is a socket address.
pub fn validate_address(address: &str) -> (r: Result<(), AppError>)
    ensures
        match r {
            Ok(()) => socket_spec(address@) is Some,
            Err(AppError::Message(m)) => socket_spec(address@) is None && m@ == invalid_address_message(address@),
            Err(_) => false,
        },
{
    match parse_socket_addr(address) {
        Ok(_) => Ok(()),
        Err(e) => Err(e),
    }
}

/// The first thing wrong with an endpoint configuration, as its error message.
pub open spec fn endpoint_problem(c: EndpointConfig) -> Option<Seq<char>> {
    if trim_spec(c.address@).len() == 0 {
        Some("network address cannot be empty"@)
    } else if socket_spec(c.address@) is None {
        Some(invalid_address_message(c.address@))
    } else if c.bind_address is Some && socket_spec(c.bind_address->0@) is None {
        Some(invalid_address_message(c.bind_address->0@))
    } else if c.target_bitrate == 0 {
        Some("target bitrate must be greater than zero"@)
    } else if c.max_packet_payload < MIN_PACKET_PAYLOAD || c.max_packet_payload > MAX_PAYLOAD_LIMIT {
        Some("max packet payload must be between 256 and 1300 bytes"@)
    } else if c.jitter_buffer_capacity == 0 {
        Some("jitter buffer capacity must be greater than zero"@)
    } else if c.key_frame_redundancy == 0 {
        Some("key frame redundancy must be at least 1"@)
    } else {
        None
    }
}

/// The unspecified address of the family of `a`, with the port of `a`.
pub open spec fn unspecified_like(a: SocketAddress) -> SocketAddress {
    match a {
        SocketAddress::V4 { port, .. } => SocketAddress::V4 { octets: [0u8, 0u8, 0u8, 0u8], port },
        SocketAddress::V6 { port, .. } => SocketAddress::V6 {
            segments: [0u16, 0u16, 0u16, 0u16, 0u16, 0u16, 0u16, 0u16],
            scope_id: 0,
            port,
        },
    }
}

/// One call of an endpoint configuration's setters, with its argument.
pub enum EndpointStep {
    TargetBitrate(u64),
    MaxPacketPayload(usize),
    JitterCapacity(usize),
    HandshakeTimeout(u64),
    KeyFrameRedundancy(u8),
}

/// A configuration as `EndpointConfig::new` makes it: no bind address and
/// the defaults for everything but the address.
pub open spec fn fresh_endpoint(c: EndpointConfig) -> bool {
    &&& c.bind_address is None
    &&& c.target_bitrate == DEFAULT_TARGET_BITRATE
    &&& c.max_packet_payload == DEFAULT_MAX_PACKET_PAYLOAD
    &&& c.jitter_buffer_capacity == DEFAULT_JITTER_CAPACITY
    &&& c.handshake_timeout_ms == DEFAULT_HANDSHAKE_TIMEOUT_MS
    &&& c.key_frame_redundancy == DEFAULT_KEY_FRAME_REPETITIONS
}

impl EndpointConfig {
    /// The configuration after one setter call: zero bitrates, capacities
    /// and timeouts and too small payloads are ignored, a payload is capped
    /// at the protocol limit and a redundancy is clamped.
    pub open spec fn after(self, step: EndpointStep) -> Self {
        match step {
            EndpointStep::TargetBitrate(b) => EndpointConfig {
                target_bitrate: if b > 0 { b } else { self.target_bitrate },
                ..self
            },
            EndpointStep::MaxPacketPayload(p) => EndpointConfig {
                max_packet_payload: if p >= MIN_PACKET_PAYLOAD {
                    if p < MAX_PAYLOAD_LIMIT { p } else { MAX_PAYLOAD_LIMIT }
                } else {
                    self.max_packet_payload
                },
                ..self
            },
            EndpointStep::JitterCapacity(c) => EndpointConfig {
                jitter_buffer_capacity: if c > 0 { c } else { self.jitter_buffer_capacity },
                ..self
            },
            EndpointStep::HandshakeTimeout(t) => EndpointConfig {
                handshake_timeout_ms: if t > 0 { t } else { self.handshake_timeout_ms },
                ..self
            },
            EndpointStep::KeyFrameRedundancy(r) => EndpointConfig {
                key_frame_redundancy: clamp_int(r as int, 1, REDUNDANCY_CAP as int) as u8,
                ..self
            },
        }
    }

    /// The configuration after each setter call of `steps`, in turn.
    pub open spec fn after_all(self, steps: Seq<EndpointStep>) -> Self
        decreases steps.len(),
    {
        if steps.len() == 0 {
            self
        } else {
            self.after_all(steps.drop_last()).after(steps.last())
        }
    }

    /// The setters keep a configuration valid: one that `new` makes from an
    /// address that parses, followed by any chain of calls of
    /// `with_target_bitrate`, `with_max_packet_payload`,
    /// `with_jitter_capacity`, `with_handshake_timeout` and
    /// `with_key_frame_redundancy` with any arguments, has no problem.
    pub proof fn lemma_setters_keep_valid(self, steps: Seq<EndpointStep>)
        requires
            fresh_endpoint(self),
            socket_spec(self.address@) is Some,
        ensures
            endpoint_problem(self.after_all(steps)) is None,
    {
        crate::network::addr::lemma_socket_text_nonblank(self.address@);
        self.lemma_steps_keep_valid(steps);
    }

    proof fn lemma_steps_keep_valid(self, steps: Seq<EndpointStep>)
        requires
            endpoint_problem(self) is None,
        ensures
            endpoint_problem(self.after_all(steps)) is None,
        decreases steps.len(),
    {
        if steps.len() > 0 {
            self.lemma_steps_keep_valid(steps.drop_last());
        }
    }

    /// Defaults for everything but the address.
    pub fn new(address: &str) -> (c: Self)
        ensures
            c.address@ == address@,
            c.bind_address is None,
            c.target_bitrate == DEFAULT_TARGET_BITRATE,
            c.max_packet_payload == DEFAULT_MAX_PACKET_PAYLOAD,
            c.jitter_buffer_capacity == DEFAULT_JITTER_CAPACITY,
            c.handshake_timeout_ms == DEFAULT_HANDSHAKE_TIMEOUT_MS,
            c.key_frame_redundancy == DEFAULT_KEY_FRAME_REPETITIONS,
            fresh_endpoint(c),
            socket_spec(address@) is Some ==> endpoint_problem(c) is None,
    {
        proof {
            if socket_spec(address@) is Some {
                crate::network::addr::lemma_socket_text_nonblank(address@);
            }
        }
        EndpointConfig {
            address: String::from_str(address),
            bind_address: None,
            target_bitrate: DEFAULT_TARGET_BITRATE,
            max_packet_payload: DEFAULT_MAX_PACKET_PAYLOAD,
            jitter_buffer_capacity: DEFAULT_JITTER_CAPACITY,
            handshake_timeout_ms: DEFAULT_HANDSHAKE_TIMEOUT_MS,
            key_frame_redundancy: DEFAULT_KEY_FRAME_REPETITIONS,
        }
    }

    /// Binds to `bind` instead of deriving the local address.
    pub fn with_bind_address(self, bind: &str) -> (c: Self)
        ensures
            c.bind_address is Some && c.bind_address->0@ == bind@,
            c.address == self.address,
            c.target_bitrate == self.target_bitrate,
            c.max_packet_payload == self.max_packet_payload,
            c.jitter_buffer_capacity == self.jitter_buffer_capacity,
            c.handshake_timeout_ms == self.handshake_timeout_ms,
            c.key_frame_redundancy == self.key_frame_redundancy,
            endpoint_problem(self) is None && socket_spec(bind@) is Some ==> endpoint_problem(c) is None,
    {
        let mut c = self;
        c.bind_address = Some(String::from_str(bind));
        c
    }

    /// Sets the target bitrate; zero leaves it as it was.
    pub fn with_target_bitrate(self, bitrate: u64) -> (c: Self)
        ensures
            c.target_bitrate == if bitrate > 0 { bitrate } else { self.target_bitrate },
            c == (EndpointConfig { target_bitrate: c.target_bitrate, ..self }),
            c == self.after(EndpointStep::TargetBitrate(bitrate)),
            endpoint_problem(self) is None ==> endpoint_problem(c) is None,
    {
        let mut c = self;
        if bitrate > 0 {
            c.target_bitrate = bitrate;
        }
        c
    }

    /// Sets the packet payload ceiling (capped at the protocol limit); a value
    /// below the protocol minimum leaves it as it was.
    pub fn with_max_packet_payload(self, payload: usize) -> (c: Self)
        ensures
            c.max_packet_payload == if payload >= MIN_PACKET_PAYLOAD {
                if payload < MAX_PAYLOAD_LIMIT { payload } else { MAX_PAYLOAD_LIMIT }
            } else {
                self.max_packet_payload
            },
            c == (EndpointConfig { max_packet_payload: c.max_packet_payload, ..self }),
            c == self.after(EndpointStep::MaxPacketPayload(payload)),
            endpoint_problem(self) is None ==> endpoint_problem(c) is None,
    {
        let mut c = self;
        if payload >= MIN_PACKET_PAYLOAD {
            c.max_packet_payload = if payload < MAX_PAYLOAD_LIMIT { payload } else { MAX_PAYLOAD_LIMIT };
        }
        c
    }

    /// Sets the jitter buffer capacity; zero leaves it as it was.
    pub fn with_jitter_capacity(self, capacity: usize) -> (c: Self)
        ensures
            c.jitter_buffer_capacity == if capacity > 0 { capacity } else { self.jitter_buffer_capacity },
            c == (EndpointConfig { jitter_buffer_capacity: c.jitter_buffer_capacity, ..self }),
            c == self.after(EndpointStep::JitterCapacity(capacity)),
            endpoint_problem(self) is None ==> endpoint_problem(c) is None,
    {
        let mut c = self;
        if capacity > 0 {
            c.jitter_buffer_capacity = capacity;
        }
        c
    }

    /// Sets the handshake timeout in milliseconds; zero leaves it as it was.
    pub fn with_handshake_timeout(self, timeout_ms: u64) -> (c: Self)
        ensures
            c.handshake_timeout_ms == if timeout_ms > 0 { timeout_ms } else { self.handshake_timeout_ms },
            c == (EndpointConfig { handshake_timeout_ms: c.handshake_timeout_ms, ..self }),
            c == self.after(EndpointStep::HandshakeTimeout(timeout_ms)),
            endpoint_problem(self) is None ==> endpoint_problem(c) is None,
    {
        let mut c = self;
        if timeout_ms > 0 {
            c.handshake_timeout_ms = timeout_ms;
        }
        c
    }

    /// Sets the key-frame redundancy, clamped to `1..=REDUNDANCY_CAP`.
    pub fn with_key_frame_redundancy(self, redundancy: u8) -> (c: Self)
        ensures
            c.key_frame_redundancy == clamp_int(redundancy as int, 1, REDUNDANCY_CAP as int),
            c == (EndpointConfig { key_frame_redundancy: c.key_frame_redundancy, ..self }),
            c == self.after(EndpointStep::KeyFrameRedundancy(redundancy)),
            endpoint_problem(self) is None ==> endpoint_problem(c) is None,
    {
        let mut c = self;
        c.key_frame_redundancy = clamp_redundancy(redundancy);
        c
    }

    /// The address of the peer.
    pub fn remote_addr(&self) -> (r: Result<SocketAddress, AppError>)
        ensures
            match r {
                Ok(a) => socket_spec(self.address@) == Some(a),
                Err(AppError::Message(m)) => socket_spec(self.address@) is None
                    && m@ == invalid_address_message(self.address@),
                Err(_) => false,
            },
    {
        parse_socket_addr(self.address.as_str())
    }

    /// The local address: the configured one, or the unspecified address of
    /// the peer's family on the peer's port.
    pub fn bind_addr(&self) -> (r: Result<SocketAddress, AppError>)
        ensures
            match self.bind_address {
                Some(b) => match r {
                    Ok(a) => socket_spec(b@) == Some(a),
                    Err(AppError::Message(m)) => socket_spec(b@) is None && m@ == invalid_address_message(b@),
                    Err(_) => false,
                },
                None => match r {
                    Ok(a) => socket_spec(self.address@) is Some && a == unspecified_like(
                        socket_spec(self.address@)->0,
                    ),
                    Err(AppError::Message(m)) => socket_spec(self.address@) is None
                        && m@ == invalid_address_message(self.address@),
                    Err(_) => false,
                },
            },
    {
        match &self.bind_address {
            Some(addr) => parse_socket_addr(addr.as_str()),
            None => {
                let remote = self.remote_addr();
                match remote {
                    Ok(SocketAddress::V4 { port, .. }) => Ok(SocketAddress::V4 { octets: [0u8, 0u8, 0u8, 0u8], port }),
                    Ok(SocketAddress::V6 { port, .. }) => Ok(
                        SocketAddress::V6 {
                            segments: [0u16, 0u16, 0u16, 0u16, 0u16, 0u16, 0u16, 0u16],
                            scope_id: 0,
                            port,
                        },
                    ),
                    Err(e) => Err(e),
                }
            },
        }
    }

    /// The handshake timeout in milliseconds, at least one.
    pub fn handshake_timeout(&self) -> (ms: u64)
        ensures
            ms == if self.handshake_timeout_ms > 1 { self.handshake_timeout_ms } else { 1 },
    {
        if self.handshake_timeout_ms > 1 { self.handshake_timeout_ms } else { 1 }
    }

    /// Checks the configuration, reporting the first problem found.
    pub fn validate(&self) -> (r: Result<(), AppError>)
        ensures
            match r {
                Ok(()) => endpoint_problem(*self) is None,
                Err(AppError::Message(m)) => endpoint_problem(*self) == Some(m@),
                Err(_) => false,
            },
    {
        if is_blank(self.address.as_str()) {
            return Err(AppError::Message(String::from_str("network address cannot be empty")));
        }
        match self.remote_addr() {
            Ok(_) => {},
            Err(e) => return Err(e),
        }
        match &self.bind_address {
            Some(bind) => match parse_socket_addr(bind.as_str()) {
                Ok(_) => {},
                Err(e) => return Err(e),
            },
            None => {},
        }
        if self.target_bitrate == 0 {
            return Err(AppError::Message(String::from_str("target bitrate must be greater than zero")));
        }
        if self.max_packet_payload < MIN_PACKET_PAYLOAD || self.max_packet_payload > MAX_PAYLOAD_LIMIT {
            return Err(
                AppError::Message(String::from_str("max packet payload must be between 256 and 1300 bytes")),
            );
        }
        if self.jitter_buffer_capacity == 0 {
            return Err(
                AppError::Message(String::from_str("jitter buffer capacity must be greater than zero")),
            );
        }
        if self.key_frame_redundancy == 0 {
            return Err(AppError::Message(String::from_str("key frame redundancy must be at least 1")));
        }
        Ok(())
    }
}

} // verus!
