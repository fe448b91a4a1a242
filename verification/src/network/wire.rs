use vstd::prelude::*;

verus! {

/// Version tag carried by every data packet.
pub const PROTOCOL_VERSION: u8 = 1;

/// Per-packet flag bits.
#[derive(Debug, Clone, Copy, PartialEq, Eq, Structural)]
pub struct PacketFlags(pub u8);

/// Bit marking a packet that belongs to a key frame.
pub const FLAG_KEY: u8 = 0b0000_0001;

/// Bit marking a redundant copy of a key-frame fragment.
pub const FLAG_REDUNDANT: u8 = 0b0000_0010;

impl PacketFlags {
    /// No flag set.
    pub fn empty() -> (f: Self)
        ensures
            f.0 == 0,
    {
        PacketFlags(0)
    }

    /// Sets the key-frame bit, leaving the others as they were.
    pub fn mark_key(&mut self)
        ensures
            final(self).0 == old(self).0 | FLAG_KEY,
    {
        self.0 = self.0 | FLAG_KEY;
    }

    /// Sets the redundancy bit, leaving the others as they were.
    pub fn mark_redundant(&mut self)
        ensures
            final(self).0 == old(self).0 | FLAG_REDUNDANT,
    {
        self.0 = self.0 | FLAG_REDUNDANT;
    }

    /// Whether the key-frame bit is set.
    pub fn is_key(self) -> (b: bool)
        ensures
            b == self.key_spec(),
    {
        self.0 & FLAG_KEY != 0
    }

    pub open spec fn key_spec(self) -> bool {
        self.0 & FLAG_KEY != 0
    }
}

/// Marking the key bit makes `is_key` hold, whatever the other bits.
pub proof fn lemma_mark_key_sets_key(bits: u8)
    ensures
        PacketFlags(bits | FLAG_KEY).key_spec(),
{
    assert((bits | 1u8) & 1u8 != 0) by (bit_vector);
}

/// Marking the redundancy bit leaves the key bit as it was.
pub proof fn lemma_mark_redundant_keeps_key(bits: u8)
    ensures
        PacketFlags(bits | FLAG_REDUNDANT).key_spec() == PacketFlags(bits).key_spec(),
{
    assert(((bits | 2u8) & 1u8 != 0) == (bits & 1u8 != 0)) by (bit_vector);
}

/// Header of every data packet.
#[derive(Debug, Clone, Copy)]
pub struct PacketHeader {
    pub protocol_version: u8,
    pub session_id: u64,
    pub frame_id: u64,
    pub sequence: u64,
    pub timestamp_micros: u64,
    pub fragment_index: u16,
    pub fragment_count: u16,
    pub flags: PacketFlags,
}

/// One fragment of a frame.
#[derive(Debug, Clone)]
pub struct DataPacket {
    pub header: PacketHeader,
    pub payload: Vec<u8>,
}

/// Opening message of a session, sent by the sender.
#[derive(Debug, Clone, Copy)]
pub struct HandshakeMessage {
    pub session_id: u64,
    pub target_bitrate: u64,
    pub max_packet_payload: u32,
    pub key_frame_redundancy: u8,
}

/// The receiver's answer to a handshake.
#[derive(Debug, Clone, Copy)]
pub struct HandshakeAck {
    pub session_id: u64,
    pub accepted_packet_payload: u32,
    pub jitter_capacity: u16,
    pub key_frame_redundancy: u8,
}

/// Every message exchanged on the wire.
#[derive(Debug, Clone)]
pub enum WireMessage {
    Handshake(HandshakeMessage),
    HandshakeAck(HandshakeAck),
    Data(DataPacket),
    Redundant(DataPacket),
}

} // verus!
