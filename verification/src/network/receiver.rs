//! The decisions of a receiving endpoint: answering handshakes and routing
//! data packets to the jitter buffer of their session.
use vstd::prelude::*;
use std::collections::HashMap;
use crate::network::assembly::AssembledFrame;
use crate::network::endpoint::{EndpointConfig, clamp_int, clamp_redundancy, REDUNDANCY_CAP};
use crate::network::fragment::MIN_PACKET_PAYLOAD;
use crate::network::jitter::{JitterBuffer, JitterView, pop_view, popped_view, push_view};
use crate::network::wire::{DataPacket, HandshakeAck, HandshakeMessage, PROTOCOL_VERSION};

verus! {

broadcast use vstd::std_specs::hash::group_hash_axioms;

/// One sender as seen by the receiver; `A` is the type of its address.
#[derive(Debug)]
pub struct ReceiverSession<A> {
    pub remote_addr: A,
    pub jitter: JitterBuffer,
    pub max_payload: usize,
    pub redundancy: u8,
}

/// The receiver's answer to `message`.
pub open spec fn handshake_ack_spec(config: EndpointConfig, message: HandshakeMessage) -> HandshakeAck {
    let ours = config.max_packet_payload as u32;
    let smaller = if message.max_packet_payload < ours { message.max_packet_payload } else { ours };
    HandshakeAck {
        session_id: message.session_id,
        accepted_packet_payload: if smaller < MIN_PACKET_PAYLOAD as u32 { MIN_PACKET_PAYLOAD as u32 } else { smaller },
        jitter_capacity: if config.jitter_buffer_capacity < 0xffff { config.jitter_buffer_capacity as u16 } else { 0xffffu16 },
        key_frame_redundancy: clamp_int(message.key_frame_redundancy as int, 1, REDUNDANCY_CAP as int) as u8,
    }
}

/// The sessions a receiver knows, by session id.
#[derive(Debug)]
pub struct ReceiverState<A> {
    pub config: EndpointConfig,
    pub sessions: HashMap<u64, ReceiverSession<A>>,
}

impl<A> ReceiverState<A> {
    /// Every session's jitter buffer is well formed.
    pub open spec fn wf(&self) -> bool {
        forall|k: u64| #[trigger] self.sessions@.contains_key(k) ==> self.sessions@[k].jitter.wf()
    }

    /// A receiver that knows no session yet.
    pub fn new(config: EndpointConfig) -> (r: Self)
        ensures
            r.wf(),
            r.config == config,
            r.sessions@ == Map::<u64, ReceiverSession<A>>::empty(),
    {
        ReceiverState { config, sessions: HashMap::new() }
    }

    /// Answers a handshake: the session is opened (or, if it is known,
    /// refreshed) with the negotiated payload and redundancy.
    pub fn handle_handshake(&mut self, message: HandshakeMessage, addr: A) -> (ack: HandshakeAck)
        requires
            old(self).wf(),
        ensures
            final(self).wf(),
            ack == handshake_ack_spec(old(self).config, message),
            final(self).config == old(self).config,
            final(self).sessions@.dom() == old(self).sessions@.dom().insert(message.session_id),
            forall|k: u64| k != message.session_id && #[trigger] old(self).sessions@.contains_key(k)
                ==> final(self).sessions@[k] == old(self).sessions@[k],
            ({
                let s = final(self).sessions@[message.session_id];
                &&& s.remote_addr == addr
                &&& s.max_payload == ack.accepted_packet_payload as usize
                &&& s.redundancy == ack.key_frame_redundancy
                &&& if old(self).sessions@.contains_key(message.session_id) {
                    s.jitter == old(self).sessions@[message.session_id].jitter
                } else {
                    s.jitter@ == (JitterView {
                        capacity: if old(self).config.jitter_buffer_capacity == 0 { 1 } else {
                            old(self).config.jitter_buffer_capacity as nat
                        },
                        next_frame_id: 0,
                        assemblies: Map::empty(),
                        ready: Seq::empty(),
                    })
                }
            }),
    {
        let ours: u32 = #[verifier::truncate] (self.config.max_packet_payload as u32);
        let smaller: u32 = if message.max_packet_payload < ours { message.max_packet_payload } else { ours };
        let accepted: u32 = if smaller < MIN_PACKET_PAYLOAD as u32 { MIN_PACKET_PAYLOAD as u32 } else { smaller };
        let redundancy = clamp_redundancy(message.key_frame_redundancy);
        let jitter_capacity: u16 = if self.config.jitter_buffer_capacity < 0xffff {
            self.config.jitter_buffer_capacity as u16
        } else {
            0xffff
        };
        let jitter = match self.sessions.remove(&message.session_id) {
            Some(existing) => existing.jitter,
            None => JitterBuffer::new(self.config.jitter_buffer_capacity),
        };
        self.sessions.insert(
            message.session_id,
            ReceiverSession { remote_addr: addr, jitter, max_payload: accepted as usize, redundancy },
        );
        assert(self.sessions@.dom() =~= old(self).sessions@.dom().insert(message.session_id));
        HandshakeAck {
            session_id: message.session_id,
            accepted_packet_payload: accepted,
            jitter_capacity,
            key_frame_redundancy: redundancy,
        }
    }

    /// Routes a data packet to its session's jitter buffer and hands out the
    /// next ready frame of that session, if any. Packets of another protocol
    /// version or of an unknown session are dropped.
    pub fn handle_data(&mut self, packet: DataPacket, addr: A) -> (r: Option<(u64, AssembledFrame)>)
        requires
            old(self).wf(),
            packet.header.frame_id < u64::MAX,
        ensures
            final(self).wf(),
            final(self).config == old(self).config,
            ({
                let sid = packet.header.session_id;
                if packet.header.protocol_version != PROTOCOL_VERSION || !old(self).sessions@.contains_key(sid) {
                    r is None && final(self).sessions@ == old(self).sessions@
                } else {
                    let before = old(self).sessions@[sid];
                    let pushed = push_view(before.jitter@, packet.header, packet.payload@);
                    let s = final(self).sessions@[sid];
                    &&& final(self).sessions@.dom() == old(self).sessions@.dom()
                    &&& forall|k: u64| k != sid && #[trigger] old(self).sessions@.contains_key(k)
                        ==> final(self).sessions@[k] == old(self).sessions@[k]
                    &&& s.remote_addr == addr
                    &&& s.max_payload == before.max_payload
                    &&& s.redundancy == before.redundancy
                    &&& s.jitter@ == pop_view(pushed)
                    &&& match r {
                        Some((id, f)) => id == sid && popped_view(pushed) == Some(f@),
                        None => popped_view(pushed) is None,
                    }
                }
            }),
    {
        if packet.header.protocol_version != PROTOCOL_VERSION {
            return None;
        }
        let session_id = packet.header.session_id;
        match self.sessions.remove(&session_id) {
            None => None,
            Some(session) => {
                let mut session = session;
                session.remote_addr = addr;
                session.jitter.push(packet);
                let frame = session.jitter.pop_ready();
                self.sessions.insert(session_id, session);
                assert(self.sessions@.dom() =~= old(self).sessions@.dom());
                match frame {
                    Some(f) => Some((session_id, f)),
                    None => None,
                }
            },
        }
    }

    /// Hands out a ready frame of some session, if any session has one.
    pub fn try_pop_ready(&mut self) -> (r: Option<(u64, AssembledFrame)>)
        requires
            old(self).wf(),
        ensures
            final(self).wf(),
            final(self).config == old(self).config,
            match r {
                Some((sid, f)) => {
                    let before = old(self).sessions@[sid];
                    let s = final(self).sessions@[sid];
                    &&& old(self).sessions@.contains_key(sid)
                    &&& popped_view(before.jitter@) == Some(f@)
                    &&& final(self).sessions@.dom() == old(self).sessions@.dom()
                    &&& forall|k: u64| k != sid && #[trigger] old(self).sessions@.contains_key(k)
                        ==> final(self).sessions@[k] == old(self).sessions@[k]
                    &&& s.remote_addr == before.remote_addr
                    &&& s.max_payload == before.max_payload
                    &&& s.redundancy == before.redundancy
                    &&& s.jitter@ == pop_view(before.jitter@)
                },
                None => {
                    &&& final(self).sessions@ == old(self).sessions@
                    &&& forall|k: u64| #[trigger] old(self).sessions@.contains_key(k)
                        ==> old(self).sessions@[k].jitter@.ready.len() == 0
                },
            },
    {
        let mut ids: Vec<u64> = Vec::new();
        for key in it: self.sessions.keys()
            invariant
                it.seq().unref().to_set() == self.sessions@.dom(),
                ids@ == it.seq().unref().take(it.index()),
                it.index() == it.seq().len() ==> ids@.to_set() == self.sessions@.dom(),
        {
            assert(it.seq().unref().take(it.index() + 1) =~= ids@.push(*key));
            assert(it.index() + 1 == it.seq().len() ==> it.seq().unref().take(it.index() + 1) =~= it.seq().unref());
            ids.push(*key);
        }
        let mut i: usize = 0;
        while i < ids.len()
            invariant
                i <= ids@.len(),
                ids@.to_set() == old(self).sessions@.dom(),
                self.sessions@ == old(self).sessions@,
                self.config == old(self).config,
                self.wf(),
                forall|j: int| 0 <= j < i ==> old(self).sessions@[#[trigger] ids@[j]].jitter@.ready.len() == 0,
            decreases ids@.len() - i,
        {
            let id = ids[i];
            assert(ids@.to_set().contains(id));
            let waiting = match self.sessions.get(&id) {
                Some(session) => session.jitter.has_ready(),
                None => false,
            };
            if waiting {
                match self.sessions.remove(&id) {
                    Some(session) => {
                        let mut session = session;
                        let frame = session.jitter.pop_ready();
                        self.sessions.insert(id, session);
                        assert(self.sessions@.dom() =~= old(self).sessions@.dom());
                        match frame {
                            Some(f) => {
                                return Some((id, f));
                            },
                            None => {
                                assert(false);
                                return None;
                            },
                        }
                    },
                    None => {
                        assert(false);
                        return None;
                    },
                }
            }
            i = i + 1;
        }
        assert forall|k: u64| #[trigger] old(self).sessions@.contains_key(k)
            implies old(self).sessions@[k].jitter@.ready.len() == 0 by {
            assert(ids@.to_set().contains(k));
            let j = choose|j: int| 0 <= j < ids@.len() && ids@[j] == k;
            assert(old(self).sessions@[ids@[j]].jitter@.ready.len() == 0);
        }
        None
    }
}

} // verus!
