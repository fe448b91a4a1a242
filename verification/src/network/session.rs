//! The decisions of a sending session: opening it with a handshake and
//! cutting frames into numbered packets.
use vstd::prelude::*;
use crate::error::AppError;
use crate::network::addr::SocketAddress;
use crate::network::endpoint::{EndpointConfig, clamp_int, clamp_redundancy, HANDSHAKE_RETRIES, REDUNDANCY_CAP};
use crate::network::fragment::{
    AdaptivePacketSizer, FragmentPlan, MAX_PAYLOAD_LIMIT, MIN_PACKET_PAYLOAD, fragment_count_spec,
    fragment_end, fragment_start,
};
use crate::network::wire::{
    DataPacket, HandshakeAck, HandshakeMessage, PacketFlags, PacketHeader, WireMessage, FLAG_KEY,
    FLAG_REDUNDANT, PROTOCOL_VERSION,
};

verus! {

/// A frame handed to the sender: its bytes, when it was captured (in
/// microseconds since the Unix epoch) and whether it is a key frame.
#[derive(Debug, Clone)]
pub struct FramePayload<'a> {
    data: &'a [u8],
    timestamp: Option<u64>,
    is_key: bool,
}

/// One call of a frame payload's builders: a timestamp, or the key-frame mark.
pub enum PayloadStep {
    Timestamp(u64),
    KeyFrame,
}

/// The argument of the last timestamp among `steps`, if there is one.
pub open spec fn last_timestamp(steps: Seq<PayloadStep>) -> Option<u64>
    decreases steps.len(),
{
    if steps.len() == 0 {
        None
    } else {
        match steps.last() {
            PayloadStep::Timestamp(t) => Some(t),
            PayloadStep::KeyFrame => last_timestamp(steps.drop_last()),
        }
    }
}

impl<'a> FramePayload<'a> {
    /// The payload after one builder call.
    pub closed spec fn after(self, step: PayloadStep) -> Self {
        match step {
            PayloadStep::Timestamp(t) => FramePayload { data: self.data, timestamp: Some(t), is_key: self.is_key },
            PayloadStep::KeyFrame => FramePayload { data: self.data, timestamp: self.timestamp, is_key: true },
        }
    }

    /// The payload after each builder call of `steps`, in turn.
    pub open spec fn after_all(self, steps: Seq<PayloadStep>) -> Self
        decreases steps.len(),
    {
        if steps.len() == 0 {
            self
        } else {
            self.after_all(steps.drop_last()).after(steps.last())
        }
    }

    /// Building a frame payload: whatever chain of timestamps and key-frame
    /// marks follows, the bytes stay those it had, the timestamp is the
    /// last one set (or the one it had when none is), and it is a key frame
    /// exactly when it was one or a mark is among the calls.
    pub proof fn lemma_builders_chain(self, steps: Seq<PayloadStep>)
        ensures
            self.after_all(steps).data_spec() == self.data_spec(),
            self.after_all(steps).timestamp_spec() == match last_timestamp(steps) {
                Some(t) => Some(t),
                None => self.timestamp_spec(),
            },
            self.after_all(steps).is_key_spec() == (self.is_key_spec() || steps.contains(PayloadStep::KeyFrame)),
        decreases steps.len(),
    {
        if steps.len() > 0 {
            let rest = steps.drop_last();
            self.lemma_builders_chain(rest);
            if steps.contains(PayloadStep::KeyFrame) && steps.last() != PayloadStep::KeyFrame {
                let i = choose|i: int| 0 <= i < steps.len() && steps[i] == PayloadStep::KeyFrame;
                assert(rest[i] == PayloadStep::KeyFrame);
            }
            if rest.contains(PayloadStep::KeyFrame) {
                let i = choose|i: int| 0 <= i < rest.len() && rest[i] == PayloadStep::KeyFrame;
                assert(steps[i] == PayloadStep::KeyFrame);
            }
            if steps.last() == PayloadStep::KeyFrame {
                assert(steps[steps.len() - 1] == PayloadStep::KeyFrame);
            }
        }
    }

    pub closed spec fn data_spec(&self) -> Seq<u8> {
        self.data@
    }

    pub closed spec fn timestamp_spec(&self) -> Option<u64> {
        self.timestamp
    }

    pub closed spec fn is_key_spec(&self) -> bool {
        self.is_key
    }

    /// A delta frame with no timestamp.
    pub fn new(data: &'a [u8]) -> (f: Self)
        ensures
            f.data_spec() == data@,
            f.timestamp_spec() is None,
            !f.is_key_spec(),
    {
        FramePayload { data, timestamp: None, is_key: false }
    }

    /// The same frame, stamped with `timestamp` microseconds.
    pub fn with_timestamp(self, timestamp: u64) -> (f: Self)
        ensures
            f.data_spec() == self.data_spec(),
            f.timestamp_spec() == Some(timestamp),
            f.is_key_spec() == self.is_key_spec(),
            f == self.after(PayloadStep::Timestamp(timestamp)),
    {
        FramePayload { data: self.data, timestamp: Some(timestamp), is_key: self.is_key }
    }

    /// The same frame, marked as a key frame.
    pub fn as_key_frame(self) -> (f: Self)
        ensures
            f.data_spec() == self.data_spec(),
            f.timestamp_spec() == self.timestamp_spec(),
            f.is_key_spec(),
            f == self.after(PayloadStep::KeyFrame),
    {
        FramePayload { data: self.data, timestamp: self.timestamp, is_key: true }
    }

    pub fn data(&self) -> (d: &'a [u8])
        ensures
            d@ == self.data_spec(),
    {
        self.data
    }

    pub fn timestamp(&self) -> (t: Option<u64>)
        ensures
            t == self.timestamp_spec(),
    {
        self.timestamp
    }

    pub fn is_key(&self) -> (k: bool)
        ensures
            k == self.is_key_spec(),
    {
        self.is_key
    }
}

/// Whether `reply` acknowledges the session `session_id`.
pub open spec fn reply_accepted(session_id: u64, reply: WireMessage) -> bool {
    reply matches WireMessage::HandshakeAck(ack) && ack.session_id == session_id
}

/// `after` is the sender `before` once `ack` established session
/// `session_id`: the session starts at frame and sequence zero with the
/// acknowledged redundancy (clamped) and payload (at least the minimum), and
/// the sizer takes that payload as its ceiling.
pub open spec fn established_by(before: SenderState, after: SenderState, session_id: u64, ack: HandshakeAck) -> bool {
    let accepted = accepted_payload_spec(ack);
    &&& after.config == before.config
    &&& after.session == Some(SenderSession {
        session_id,
        next_frame_id: 0,
        next_sequence: 0,
        redundancy: clamp_int(ack.key_frame_redundancy as int, 1, REDUNDANCY_CAP as int) as u8,
        max_payload: accepted as usize,
    })
    &&& after.sizer.max_payload == clamp_int(accepted, MIN_PACKET_PAYLOAD as int, MAX_PAYLOAD_LIMIT as int)
    &&& after.sizer.current_payload == if before.sizer.current_payload < after.sizer.max_payload {
        before.sizer.current_payload
    } else {
        after.sizer.max_payload
    }
    &&& after.sizer.target_bitrate == before.sizer.target_bitrate
}

/// What came of one attempt to open a session: a reply from some address
/// (`None` where it could not be read as a message), or nothing before the
/// timeout.
#[derive(Debug, Clone)]
pub enum HandshakeAttempt {
    Reply { from: SocketAddress, message: Option<WireMessage> },
    TimedOut,
}

/// What a sender does after a handshake attempt: use the session, send the
/// request again as the attempt numbered `attempt`, give up, or fail
/// because the receiver's reply could not be read.
#[derive(Debug, Clone, Copy, PartialEq, Eq, Structural)]
pub enum HandshakeStep {
    Established,
    Retry { attempt: usize },
    GiveUp,
    Unreadable,
}

/// The step after attempt `attempt` (counted from zero) that did not
/// establish a session: another attempt while fewer than
/// `HANDSHAKE_RETRIES` were made, else giving up.
pub open spec fn retry_after(attempt: usize) -> HandshakeStep {
    if attempt + 1 < HANDSHAKE_RETRIES {
        HandshakeStep::Retry { attempt: (attempt + 1) as usize }
    } else {
        HandshakeStep::GiveUp
    }
}

/// Whether two socket addresses are the same.
pub fn same_address(a: &SocketAddress, b: &SocketAddress) -> (r: bool)
    ensures
        r == (*a == *b),
{
    match (a, b) {
        (SocketAddress::V4 { octets: x, port: p }, SocketAddress::V4 { octets: y, port: q }) => {
            let same = *p == *q && x[0] == y[0] && x[1] == y[1] && x[2] == y[2] && x[3] == y[3];
            proof {
                if same {
                    assert(*x =~= *y);
                }
            }
            same
        },
        (
            SocketAddress::V6 { segments: x, scope_id: s, port: p },
            SocketAddress::V6 { segments: y, scope_id: t, port: q },
        ) => {
            let same = *p == *q && *s == *t && x[0] == y[0] && x[1] == y[1] && x[2] == y[2] && x[3] == y[3]
                && x[4] == y[4] && x[5] == y[5] && x[6] == y[6] && x[7] == y[7];
            proof {
                if same {
                    assert(*x =~= *y);
                }
            }
            same
        },
        _ => false,
    }
}

/// The state of an established sending session.
#[derive(Debug, Clone, Copy, PartialEq, Eq, Structural)]
pub struct SenderSession {
    pub session_id: u64,
    pub next_frame_id: u64,
    pub next_sequence: u64,
    pub redundancy: u8,
    pub max_payload: usize,
}

/// The handshake a sender opens session `session_id` with.
pub open spec fn handshake_request_spec(config: EndpointConfig, session_id: u64) -> HandshakeMessage {
    HandshakeMessage {
        session_id,
        target_bitrate: config.target_bitrate,
        max_packet_payload: clamp_int(
            config.max_packet_payload as int,
            MIN_PACKET_PAYLOAD as int,
            MAX_PAYLOAD_LIMIT as int,
        ) as u32,
        key_frame_redundancy: clamp_int(config.key_frame_redundancy as int, 1, REDUNDANCY_CAP as int) as u8,
    }
}

/// The handshake a sender opens session `session_id` with.
pub fn handshake_request(config: &EndpointConfig, session_id: u64) -> (m: HandshakeMessage)
    ensures
        m == handshake_request_spec(*config, session_id),
{
    let payload = config.max_packet_payload;
    let clamped: usize = if payload < MIN_PACKET_PAYLOAD {
        MIN_PACKET_PAYLOAD
    } else if payload > MAX_PAYLOAD_LIMIT {
        MAX_PAYLOAD_LIMIT
    } else {
        payload
    };
    HandshakeMessage {
        session_id,
        target_bitrate: config.target_bitrate,
        max_packet_payload: clamped as u32,
        key_frame_redundancy: clamp_redundancy(config.key_frame_redundancy),
    }
}

/// A fresh random session id from `rand::random` (the thread-local
/// generator). Nothing is claimed of the value: any `u64` may come back.
#[verifier::external_body]
fn random_session_id() -> u64 {
    rand::random::<u64>()
}

/// Opens a new session: a random id and the handshake that announces it.
pub fn open_handshake(config: &EndpointConfig) -> (m: HandshakeMessage)
    ensures
        m == handshake_request_spec(*config, m.session_id),
{
    let session_id = random_session_id();
    handshake_request(config, session_id)
}

/// The packet payload a sender keeps after the receiver's answer.
pub open spec fn accepted_payload_spec(ack: HandshakeAck) -> int {
    if ack.accepted_packet_payload < MIN_PACKET_PAYLOAD { MIN_PACKET_PAYLOAD as int } else { ack.accepted_packet_payload as int }
}

/// A sender: its configuration, its session once established, and the
/// sizer that plans its packets.
#[derive(Debug, Clone)]
pub struct SenderState {
    pub config: EndpointConfig,
    pub session: Option<SenderSession>,
    pub sizer: AdaptivePacketSizer,
}

/// The redundancy a session sends key frames with (at least one copy).
pub open spec fn session_redundancy(s: SenderSession) -> u8 {
    if s.redundancy > 1 { s.redundancy } else { 1 }
}

/// How many packets carry each fragment of a frame.
pub open spec fn copies_spec(is_key: bool, redundancy: u8) -> int {
    if is_key && redundancy > 1 { redundancy as int } else { 1 }
}

/// The flag bits of a packet.
pub open spec fn flags_spec(is_key: bool, redundant: bool) -> u8 {
    if redundant { 3 } else if is_key { 1 } else { 0 }
}

/// The header of copy `j` of fragment `i` of a frame.
pub open spec fn frame_header_spec(
    session_id: u64,
    frame_id: u64,
    first_sequence: u64,
    timestamp: u64,
    count: int,
    copies: int,
    is_key: bool,
    i: int,
    j: int,
) -> PacketHeader {
    PacketHeader {
        protocol_version: PROTOCOL_VERSION,
        session_id,
        frame_id,
        sequence: ((first_sequence + i * copies + j) % 0x1_0000_0000_0000_0000) as u64,
        timestamp_micros: timestamp,
        fragment_index: i as u16,
        fragment_count: count as u16,
        flags: PacketFlags(flags_spec(is_key, j > 0)),
    }
}

/// `p` carries `bytes` under `header`, as a data packet or, for a repeated
/// copy, as a redundant one.
pub open spec fn packet_is(p: WireMessage, header: PacketHeader, bytes: Seq<u8>, redundant: bool) -> bool {
    match p {
        WireMessage::Data(d) => !redundant && d.header == header && d.payload@ == bytes,
        WireMessage::Redundant(d) => redundant && d.header == header && d.payload@ == bytes,
        _ => false,
    }
}

/// `packets` are the packets of a frame of `data`, cut by `size`, sent by
/// `session` with the given timestamp.
pub open spec fn frame_packets_ok(
    packets: Seq<WireMessage>,
    session: SenderSession,
    data: Seq<u8>,
    size: int,
    timestamp: u64,
    is_key: bool,
) -> bool {
    let total = data.len() as int;
    let count = fragment_count_spec(total, size);
    let c = copies_spec(is_key, session_redundancy(session));
    &&& packets.len() == count * c
    &&& forall|i: int, j: int|
        0 <= i < count && 0 <= j < c ==> packet_is(
            packets[i * c + j],
            #[trigger] frame_header_spec(
                session.session_id,
                session.next_frame_id,
                session.next_sequence,
                timestamp,
                count,
                c,
                is_key,
                i,
                j,
            ),
            data.subrange(fragment_start(size, total, i), fragment_end(size, count, total, i)),
            j > 0,
        )
}

fn copy_range(data: &[u8], start: usize, end: usize) -> (v: Vec<u8>)
    requires
        start <= end <= data@.len(),
    ensures
        v@ == data@.subrange(start as int, end as int),
{
    let mut v: Vec<u8> = Vec::new();
    let mut i = start;
    while i < end
        invariant
            start <= i <= end <= data@.len(),
            v@ == data@.subrange(start as int, i as int),
        decreases end - i,
    {
        v.push(data[i]);
        i = i + 1;
        assert(v@ =~= data@.subrange(start as int, i as int));
    }
    v
}

impl SenderState {
    /// A sender with no session yet.
    pub fn new(config: EndpointConfig) -> (s: Self)
        ensures
            s.config == config,
            s.session is None,
            s.sizer.wf(),
            s.sizer.target_bitrate == config.target_bitrate,
    {
        let sizer = AdaptivePacketSizer::new(config.target_bitrate, config.max_packet_payload);
        SenderState { config, session: None, sizer }
    }

    /// Takes the receiver's reply to the handshake for `session_id`. An
    /// acknowledgement of that session establishes it; anything else is
    /// ignored and the sender keeps waiting.
    pub fn accept_reply(&mut self, session_id: u64, reply: &WireMessage) -> (established: bool)
        requires
            old(self).sizer.wf(),
        ensures
            final(self).sizer.wf(),
            final(self).config == old(self).config,
            established == reply_accepted(session_id, *reply),
            !established ==> *final(self) == *old(self),
            established ==> established_by(*old(self), *final(self), session_id, reply->HandshakeAck_0),
    {
        match reply {
            WireMessage::HandshakeAck(ack) => {
                if ack.session_id != session_id {
                    return false;
                }
                let accepted: usize = if (ack.accepted_packet_payload as usize) < MIN_PACKET_PAYLOAD {
                    MIN_PACKET_PAYLOAD
                } else {
                    ack.accepted_packet_payload as usize
                };
                self.sizer.update_max_payload(accepted);
                self.session = Some(SenderSession {
                    session_id,
                    next_frame_id: 0,
                    next_sequence: 0,
                    redundancy: clamp_redundancy(ack.key_frame_redundancy),
                    max_payload: accepted,
                });
                true
            },
            _ => false,
        }
    }

    /// Decides after handshake attempt `attempt` (counted from zero) of
    /// session `session_id` with the receiver at `peer`: a reply from
    /// another address is ignored; one from `peer` that acknowledges the
    /// session establishes it, and one from `peer` that cannot be read
    /// ends the handshake; otherwise, and after a timeout, the request goes
    /// out again until `HANDSHAKE_RETRIES` attempts were made.
    pub fn after_handshake_attempt(
        &mut self,
        attempt: usize,
        session_id: u64,
        peer: &SocketAddress,
        outcome: &HandshakeAttempt,
    ) -> (step: HandshakeStep)
        requires
            old(self).sizer.wf(),
            attempt < HANDSHAKE_RETRIES,
        ensures
            final(self).sizer.wf(),
            match *outcome {
                HandshakeAttempt::Reply { from, message: Some(m) } if from == *peer && reply_accepted(session_id, m) => {
                    step == HandshakeStep::Established
                        && established_by(*old(self), *final(self), session_id, m->HandshakeAck_0)
                },
                HandshakeAttempt::Reply { from, message: None } if from == *peer => {
                    step == HandshakeStep::Unreadable && *final(self) == *old(self)
                },
                _ => step == retry_after(attempt) && *final(self) == *old(self),
            },
    {
        let mut unreadable = false;
        let established = match outcome {
            HandshakeAttempt::Reply { from, message } => {
                if same_address(from, peer) {
                    match message {
                        Some(m) => self.accept_reply(session_id, m),
                        None => {
                            unreadable = true;
                            false
                        },
                    }
                } else {
                    false
                }
            },
            HandshakeAttempt::TimedOut => false,
        };
        if established {
            HandshakeStep::Established
        } else if unreadable {
            HandshakeStep::Unreadable
        } else if attempt + 1 < HANDSHAKE_RETRIES {
            HandshakeStep::Retry { attempt: attempt + 1 }
        } else {
            HandshakeStep::GiveUp
        }
    }

    /// Cuts a frame into the packets that carry it, numbering them from the
    /// session's counters, which move past them. A frame with no bytes
    /// yields no packet; without a session nothing can be sent.
    #[verifier::rlimit(60)]
    pub fn prepare_frame(&mut self, frame: &FramePayload, now_micros: u64) -> (r: Result<Vec<WireMessage>, AppError>)
        requires
            old(self).sizer.wf(),
            frame.data_spec().len() + MAX_PAYLOAD_LIMIT <= usize::MAX,
        ensures
            final(self).sizer.wf(),
            final(self).config == old(self).config,
            match r {
                Err(AppError::Message(m)) => old(self).session is None
                    && m@ == "handshake did not produce a session"@
                    && *final(self) == *old(self),
                Err(_) => false,
                Ok(packets) => old(self).session is Some && if frame.data_spec().len() == 0 {
                    packets@.len() == 0 && *final(self) == *old(self)
                } else {
                    let s = old(self).session->0;
                    let size = old(self).sizer.planned_size(frame.is_key_spec(), s.max_payload as int);
                    let len = frame.data_spec().len() as int;
                    let count = fragment_count_spec(len, size);
                    let c = copies_spec(frame.is_key_spec(), session_redundancy(s));
                    let ts = match frame.timestamp_spec() { Some(t) => t, None => now_micros };
                    &&& frame_packets_ok(packets@, s, frame.data_spec(), size, ts, frame.is_key_spec())
                    &&& final(self).session == Some(SenderSession {
                        next_frame_id: ((s.next_frame_id + 1) % 0x1_0000_0000_0000_0000) as u64,
                        next_sequence: ((s.next_sequence + count * c) % 0x1_0000_0000_0000_0000) as u64,
                        ..s
                    })
                    &&& final(self).sizer == (AdaptivePacketSizer {
                        current_payload: old(self).sizer.next_payload(len, frame.is_key_spec(), s.max_payload as int) as usize,
                        ..old(self).sizer
                    })
                },
            },
    {
        let session = match self.session {
            Some(s) => s,
            None => return Err(AppError::Message(String::from_str("handshake did not produce a session"))),
        };
        let data = frame.data();
        if data.len() == 0 {
            return Ok(Vec::new());
        }
        let is_key = frame.is_key();
        let redundancy: u8 = if session.redundancy > 1 { session.redundancy } else { 1 };
        let timestamp_micros: u64 = match frame.timestamp() {
            Some(t) => t,
            None => now_micros,
        };
        let payload_len = data.len();
        let plan: FragmentPlan = self.sizer.plan(payload_len, is_key, session.max_payload);
        let ranges = plan.fragment_ranges(payload_len);
        let count = ranges.len();
        let copies: u64 = if is_key && redundancy > 1 { redundancy as u64 } else { 1 };
        let ghost size = plan.fragment_size as int;
        let ghost total = payload_len as int;
        proof {
            crate::network::fragment::lemma_fragments_tile_payload(size, total);
        }
        let frame_id = session.next_frame_id;
        let mut sequence = session.next_sequence;
        let mut packets: Vec<WireMessage> = Vec::new();
        let mut index: usize = 0;
        while index < count
            invariant
                index <= count,
                count == ranges@.len(),
                count == fragment_count_spec(total, size),
                total == data@.len(),
                size == plan.fragment_size,
                1 <= copies <= 255,
                copies == copies_spec(is_key, redundancy),
                redundancy == if session.redundancy > 1 { session.redundancy } else { 1 },
                data@ == frame.data_spec(),
                forall|i: int| 0 <= i < count ==> {
                    &&& #[trigger] ranges@[i].start == fragment_start(size, total, i)
                    &&& ranges@[i].end == fragment_end(size, count as int, total, i)
                },
                forall|i: int| 0 <= i < count ==>
                    0 <= #[trigger] fragment_start(size, total, i) <= fragment_end(size, count as int, total, i) <= total,
                packets@.len() == index * copies,
                sequence == ((session.next_sequence + index * copies) % 0x1_0000_0000_0000_0000) as u64,
                forall|i: int, j: int|
                    0 <= i < index && 0 <= j < copies ==> packet_is(
                        packets@[i * copies + j],
                        #[trigger] frame_header_spec(
                            session.session_id,
                            frame_id,
                            session.next_sequence,
                            timestamp_micros,
                            count as int,
                            copies as int,
                            is_key,
                            i,
                            j,
                        ),
                        data@.subrange(fragment_start(size, total, i), fragment_end(size, count as int, total, i)),
                        j > 0,
                    ),
            decreases count - index,
        {
            let start = ranges[index].start;
            let end = ranges[index].end;
            let mut flags = PacketFlags::empty();
            if is_key {
                flags.mark_key();
            }
            let header = PacketHeader {
                protocol_version: PROTOCOL_VERSION,
                session_id: session.session_id,
                frame_id,
                sequence,
                timestamp_micros,
                fragment_index: #[verifier::truncate] (index as u16),
                fragment_count: #[verifier::truncate] (count as u16),
                flags,
            };
            let ghost bytes = data@.subrange(start as int, end as int);
            let ghost before = packets@;
            proof {
                assert(flags.0 == flags_spec(is_key, false)) by {
                    assert((0u8 | 1u8) == 1u8) by (bit_vector);
                }
                assert(index * copies + copies <= count * copies) by (nonlinear_arith)
                    requires index < count, copies >= 1;
            }
            packets.push(WireMessage::Data(DataPacket { header, payload: copy_range(data, start, end) }));
            sequence = sequence.wrapping_add(1);
            let mut k: u64 = 1;
            while k < copies
                invariant
                    1 <= k <= copies <= 255,
                    start <= end <= data@.len(),
                    bytes == data@.subrange(start as int, end as int),
                    packets@.len() == index * copies + k,
                    before.len() == index * copies,
                    forall|t: int| 0 <= t < before.len() ==> packets@[t] == before[t],
                    sequence == ((session.next_sequence + index * copies + k) % 0x1_0000_0000_0000_0000) as u64,
                    header.flags.0 == flags_spec(is_key, false),
                    header == frame_header_spec(
                        session.session_id,
                        frame_id,
                        session.next_sequence,
                        timestamp_micros,
                        count as int,
                        copies as int,
                        is_key,
                        index as int,
                        0,
                    ),
                    copies > 1 ==> is_key,
                    forall|j: int| 0 <= j < k ==> packet_is(
                        packets@[index * copies + j],
                        #[trigger] frame_header_spec(
                            session.session_id,
                            frame_id,
                            session.next_sequence,
                            timestamp_micros,
                            count as int,
                            copies as int,
                            is_key,
                            index as int,
                            j,
                        ),
                        bytes,
                        j > 0,
                    ),
                decreases copies - k,
            {
                let mut redundant_flags = header.flags;
                redundant_flags.mark_redundant();
                proof {
                    assert((1u8 | 2u8) == 3u8) by (bit_vector);
                    assert(redundant_flags.0 == flags_spec(is_key, true));
                }
                let ghost before_copy = packets@;
                let redundant_header = PacketHeader { sequence, flags: redundant_flags, ..header };
                packets.push(WireMessage::Redundant(DataPacket {
                    header: redundant_header,
                    payload: copy_range(data, start, end),
                }));
                proof {
                    assert forall|j: int| 0 <= j < k + 1 implies packet_is(
                        packets@[index * copies + j],
                        #[trigger] frame_header_spec(
                            session.session_id,
                            frame_id,
                            session.next_sequence,
                            timestamp_micros,
                            count as int,
                            copies as int,
                            is_key,
                            index as int,
                            j,
                        ),
                        bytes,
                        j > 0,
                    ) by {
                        if j < k {
                            assert(packets@[index * copies + j] == before_copy[index * copies + j]);
                        } else {
                            let h = frame_header_spec(
                                session.session_id,
                                frame_id,
                                session.next_sequence,
                                timestamp_micros,
                                count as int,
                                copies as int,
                                is_key,
                                index as int,
                                j,
                            );
                            assert(h.sequence == redundant_header.sequence);
                            assert(h.flags == redundant_header.flags);
                            assert(h.fragment_index == redundant_header.fragment_index);
                            assert(h.fragment_count == redundant_header.fragment_count);
                            assert(h == redundant_header);
                            assert(packets@[index * copies + j] == packets@[before_copy.len() as int]);
                        }
                    }
                }
                sequence = sequence.wrapping_add(1);
                k = k + 1;
            }
            proof {
                assert forall|i: int, j: int|
                    0 <= i < index + 1 && 0 <= j < copies implies packet_is(
                        packets@[i * copies + j],
                        #[trigger] frame_header_spec(
                            session.session_id,
                            frame_id,
                            session.next_sequence,
                            timestamp_micros,
                            count as int,
                            copies as int,
                            is_key,
                            i,
                            j,
                        ),
                        data@.subrange(fragment_start(size, total, i), fragment_end(size, count as int, total, i)),
                        j > 0,
                    ) by {
                    if i < index {
                        assert(i * copies + j < index * copies) by (nonlinear_arith)
                            requires i < index, 0 <= j < copies;
                        assert(packets@[i * copies + j] == before[i * copies + j]);
                    }
                }
            }
            index = index + 1;
            assert(packets@.len() == index * copies) by (nonlinear_arith)
                requires packets@.len() == (index - 1) * copies + copies;
        }
        let mut updated = session;
        updated.next_frame_id = session.next_frame_id.wrapping_add(1);
        updated.next_sequence = sequence;
        self.session = Some(updated);
        Ok(packets)
    }
}

} // verus!
