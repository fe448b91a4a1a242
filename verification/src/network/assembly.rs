use vstd::prelude::*;
use crate::network::wire::{PacketFlags, DataPacket, PacketHeader, FLAG_KEY};
use crate::network::fragment::{fragment_count_spec, fragment_start, fragment_end, lemma_fragments_tile_payload};

verus! {

/// What a fragment slot holds, seen as bytes.
pub open spec fn slot_view(slot: Option<Vec<u8>>) -> Option<Seq<u8>> {
    match slot {
        Some(bytes) => Some(bytes@),
        None => None,
    }
}

/// Number of filled slots.
pub open spec fn present_count(slots: Seq<Option<Seq<u8>>>) -> nat
    decreases slots.len(),
{
    if slots.len() == 0 {
        0
    } else {
        present_count(slots.drop_last()) + if slots.last() is Some { 1nat } else { 0nat }
    }
}

/// The bytes of the filled slots, in slot order.
pub open spec fn joined(slots: Seq<Option<Seq<u8>>>) -> Seq<u8>
    decreases slots.len(),
{
    if slots.len() == 0 {
        Seq::empty()
    } else {
        joined(slots.drop_last()) + match slots.last() {
            Some(bytes) => bytes,
            None => Seq::empty(),
        }
    }
}

pub(crate) proof fn lemma_present_count_bounds(slots: Seq<Option<Seq<u8>>>)
    ensures
        present_count(slots) <= slots.len(),
        present_count(slots) == slots.len() <==> forall|i: int| 0 <= i < slots.len() ==> #[trigger] slots[i] is Some,
    decreases slots.len(),
{
    if slots.len() > 0 {
        lemma_present_count_bounds(slots.drop_last());
        if present_count(slots) == slots.len() {
            assert forall|i: int| 0 <= i < slots.len() implies #[trigger] slots[i] is Some by {
                if i < slots.len() - 1 {
                    assert(slots.drop_last()[i] == slots[i]);
                }
            }
        }
        if forall|i: int| 0 <= i < slots.len() ==> #[trigger] slots[i] is Some {
            assert forall|i: int| 0 <= i < slots.drop_last().len() implies #[trigger] slots.drop_last()[i] is Some by {
                assert(slots[i] is Some);
            }
        }
    }
}

pub(crate) proof fn lemma_present_count_fill(slots: Seq<Option<Seq<u8>>>, i: int, bytes: Seq<u8>)
    requires
        0 <= i < slots.len(),
        slots[i] is None,
    ensures
        present_count(slots.update(i, Some(bytes))) == present_count(slots) + 1,
    decreases slots.len(),
{
    let s2 = slots.update(i, Some(bytes));
    if i == slots.len() - 1 {
        assert(s2.drop_last() =~= slots.drop_last());
    } else {
        lemma_present_count_fill(slots.drop_last(), i, bytes);
        assert(s2.drop_last() =~= slots.drop_last().update(i, Some(bytes)));
    }
}

/// What an assembly holds, as plain values.
pub struct AssemblyView {
    pub timestamp_micros: u64,
    pub flags: u8,
    pub slots: Seq<Option<Seq<u8>>>,
}

/// A fresh assembly: `count` empty slots (at least one).
pub open spec fn new_assembly(count: u16, timestamp: u64, flags: u8) -> AssemblyView {
    AssemblyView {
        timestamp_micros: timestamp,
        flags,
        slots: Seq::new(if count == 0 { 1nat } else { count as nat }, |i: int| None),
    }
}

/// An assembly after a packet with `header` and `payload` was filed.
pub open spec fn assembly_with(a: AssemblyView, header: PacketHeader, payload: Seq<u8>) -> AssemblyView {
    let i = header.fragment_index as int;
    if i >= a.slots.len() {
        a
    } else {
        AssemblyView {
            timestamp_micros: header.timestamp_micros,
            flags: if header.flags.key_spec() { a.flags | FLAG_KEY } else { a.flags },
            slots: if a.slots[i] is None { a.slots.update(i, Some(payload)) } else { a.slots },
        }
    }
}

/// Every slot of the assembly is filled.
pub open spec fn complete_view(a: AssemblyView) -> bool {
    forall|i: int| 0 <= i < a.slots.len() ==> #[trigger] a.slots[i] is Some
}

/// A finished frame, as plain values.
pub struct FrameView {
    pub frame_id: u64,
    pub timestamp_micros: u64,
    pub flags: u8,
    pub payload: Seq<u8>,
}

/// The frame that an assembly yields.
pub open spec fn assembled_view(a: AssemblyView, frame_id: u64) -> FrameView {
    FrameView {
        frame_id,
        timestamp_micros: a.timestamp_micros,
        flags: a.flags,
        payload: joined(a.slots),
    }
}

/// The fragments of one frame gathered so far.
#[derive(Debug, Clone)]
pub struct FrameAssembly {
    pub timestamp_micros: u64,
    pub flags: PacketFlags,
    pub fragments: Vec<Option<Vec<u8>>>,
    pub received: usize,
}

impl View for FrameAssembly {
    type V = AssemblyView;

    open spec fn view(&self) -> AssemblyView {
        AssemblyView { timestamp_micros: self.timestamp_micros, flags: self.flags.0, slots: self.slots() }
    }
}

impl FrameAssembly {
    /// The slots seen as bytes.
    pub open spec fn slots(&self) -> Seq<Option<Seq<u8>>> {
        self.fragments@.map_values(|slot: Option<Vec<u8>>| slot_view(slot))
    }

    /// `received` counts the filled slots, and there is at least one slot.
    pub open spec fn wf(&self) -> bool {
        &&& self.fragments@.len() >= 1
        &&& self.received == present_count(self.slots())
    }

    /// An empty assembly with `fragment_count` slots (at least one).
    pub fn new(fragment_count: u16, timestamp: u64, flags: PacketFlags) -> (a: Self)
        ensures
            a.wf(),
            a@ == new_assembly(fragment_count, timestamp, flags.0),
            a.flags == flags,
    {
        let count: usize = if fragment_count == 0 { 1 } else { fragment_count as usize };
        let mut fragments: Vec<Option<Vec<u8>>> = Vec::with_capacity(count);
        let mut i: usize = 0;
        while i < count
            invariant
                i <= count,
                fragments@.len() == i,
                forall|j: int| 0 <= j < i ==> #[trigger] fragments@[j] is None,
            decreases count - i,
        {
            fragments.push(None);
            i = i + 1;
        }
        let a = FrameAssembly { timestamp_micros: timestamp, flags, fragments, received: 0 };
        proof {
            lemma_none_count(a.slots());
            assert(a.slots() =~= new_assembly(fragment_count, timestamp, flags.0).slots);
        }
        a
    }

    /// Files a packet's payload in its slot. A slot that is already filled
    /// keeps its bytes; an index beyond the slots leaves the assembly as it was.
    pub fn insert(&mut self, packet: DataPacket)
        requires
            old(self).wf(),
        ensures
            final(self).wf(),
            final(self)@ == assembly_with(old(self)@, packet.header, packet.payload@),
    {
        let idx = packet.header.fragment_index as usize;
        if idx >= self.fragments.len() {
            return;
        }
        let is_key = packet.header.flags.is_key();
        let timestamp = packet.header.timestamp_micros;
        if self.fragments[idx].is_none() {
            let ghost before = self.slots();
            let ghost bytes = packet.payload@;
            self.fragments.set(idx, Some(packet.payload));
            proof {
                assert(self.slots() =~= before.update(idx as int, Some(bytes)));
                lemma_present_count_fill(before, idx as int, bytes);
                lemma_present_count_bounds(before);
            }
            self.received = self.received + 1;
        }
        if is_key {
            self.flags.mark_key();
        }
        self.timestamp_micros = timestamp;
    }

    /// Whether every slot is filled.
    pub fn is_complete(&self) -> (b: bool)
        requires
            self.wf(),
        ensures
            b == complete_view(self@),
    {
        proof {
            lemma_present_count_bounds(self.slots());
        }
        self.received == self.fragments.len()
    }

    /// The frame made of the filled slots, in slot order.
    pub fn into_frame(self, frame_id: u64) -> (f: AssembledFrame)
        ensures
            f@ == assembled_view(self@, frame_id),
    {
        let ghost slots = self.slots();
        let mut payload: Vec<u8> = Vec::new();
        let mut fragments = self.fragments;
        let ghost all = fragments@;
        let mut rest: Vec<Option<Vec<u8>>> = Vec::new();
        // Take the slots from the back, then rebuild the payload from the front.
        while fragments.len() > 0
            invariant
                fragments@ + rest@.reverse() == all,
            decreases fragments.len(),
        {
            let slot = fragments.pop().unwrap();
            rest.push(slot);
            proof {
                assert(fragments@ + rest@.reverse() =~= all) by {
                    assert(rest@.reverse() =~= seq![slot] + (rest@.drop_last()).reverse());
                }
            }
        }
        assert(rest@.reverse() =~= all);
        let ghost done: Seq<Option<Vec<u8>>> = Seq::empty();
        while rest.len() > 0
            invariant
                done + rest@.reverse() == all,
                payload@ == joined(done.map_values(|slot: Option<Vec<u8>>| slot_view(slot))),
            decreases rest.len(),
        {
            let slot = rest.pop().unwrap();
            let ghost done_before = done;
            proof {
                done = done.push(slot);
                assert(done + rest@.reverse() =~= all) by {
                    assert(done_before + (rest@.push(slot)).reverse() == all);
                    assert((rest@.push(slot)).reverse() =~= seq![slot] + rest@.reverse());
                }
                let dv = done.map_values(|s: Option<Vec<u8>>| slot_view(s));
                assert(dv.drop_last() =~= done_before.map_values(|s: Option<Vec<u8>>| slot_view(s)));
            }
            match slot {
                Some(mut bytes) => {
                    payload.append(&mut bytes);
                },
                None => {},
            }
        }
        assert(done =~= all);
        AssembledFrame {
            frame_id,
            timestamp_micros: self.timestamp_micros,
            flags: self.flags,
            payload,
        }
    }
}

pub(crate) proof fn lemma_none_count(slots: Seq<Option<Seq<u8>>>)
    requires
        forall|i: int| 0 <= i < slots.len() ==> #[trigger] slots[i] is None,
    ensures
        present_count(slots) == 0,
    decreases slots.len(),
{
    if slots.len() > 0 {
        lemma_none_count(slots.drop_last());
    }
}

/// A frame whose fragments have all arrived.
#[derive(Debug, Clone)]
pub struct AssembledFrame {
    pub frame_id: u64,
    pub timestamp_micros: u64,
    pub flags: PacketFlags,
    pub payload: Vec<u8>,
}

/// A frame handed to the application, with its capture time, arrival time
/// and the latency between them, all in microseconds.
#[derive(Debug, Clone)]
pub struct ReceivedFrame {
    pub session_id: u64,
    pub frame_id: u64,
    pub data: Vec<u8>,
    pub timestamp_micros: u64,
    pub arrival_micros: u64,
    pub is_key: bool,
    pub latency_micros: u64,
}

/// The frame that an assembled frame of `session_id` becomes when it
/// arrives at `arrival`: the latency is zero for a frame stamped in the future.
pub open spec fn received_spec(f: FrameView, session_id: u64, arrival: u64, r: ReceivedFrame) -> bool {
    &&& r.session_id == session_id
    &&& r.frame_id == f.frame_id
    &&& r.data@ == f.payload
    &&& r.timestamp_micros == f.timestamp_micros
    &&& r.arrival_micros == arrival
    &&& r.is_key == PacketFlags(f.flags).key_spec()
    &&& r.latency_micros == if arrival >= f.timestamp_micros { (arrival - f.timestamp_micros) as u64 } else { 0 }
}

impl AssembledFrame {
    /// Hands the frame to the application as arriving at `arrival_micros`.
    pub fn into_received_at(self, session_id: u64, arrival_micros: u64) -> (r: ReceivedFrame)
        ensures
            received_spec(self@, session_id, arrival_micros, r),
    {
        let latency = if arrival_micros >= self.timestamp_micros { arrival_micros - self.timestamp_micros } else { 0 };
        ReceivedFrame {
            session_id,
            frame_id: self.frame_id,
            data: self.payload,
            timestamp_micros: self.timestamp_micros,
            arrival_micros,
            is_key: self.flags.is_key(),
            latency_micros: latency,
        }
    }

    /// Hands the frame to the application as arriving now.
    pub fn into_received(self, session_id: u64) -> (r: ReceivedFrame)
        ensures
            received_spec(self@, session_id, r.arrival_micros, r),
    {
        let now = crate::clock::wall_clock_micros();
        self.into_received_at(session_id, now)
    }
}

impl View for AssembledFrame {
    type V = FrameView;

    open spec fn view(&self) -> FrameView {
        FrameView {
            frame_id: self.frame_id,
            timestamp_micros: self.timestamp_micros,
            flags: self.flags.0,
            payload: self.payload@,
        }
    }
}

/// The slots of a frame whose every fragment arrived: slot `i` holds the
/// bytes of fragment `i` of the plan.
pub open spec fn delivered_slots(payload: Seq<u8>, size: int) -> Seq<Option<Seq<u8>>> {
    let total = payload.len() as int;
    let count = fragment_count_spec(total, size);
    Seq::new(
        count as nat,
        |i: int| Some(payload.subrange(fragment_start(size, total, i), fragment_end(size, count, total, i))),
    )
}

proof fn lemma_joined_prefix(payload: Seq<u8>, size: int, k: int)
    requires
        size >= 1,
        0 <= k <= fragment_count_spec(payload.len() as int, size),
    ensures
        joined(delivered_slots(payload, size).take(k)) == payload.subrange(
            0,
            if k == 0 { 0 } else {
                fragment_end(
                    size,
                    fragment_count_spec(payload.len() as int, size),
                    payload.len() as int,
                    k - 1,
                )
            },
        ),
    decreases k,
{
    let total = payload.len() as int;
    let count = fragment_count_spec(total, size);
    let slots = delivered_slots(payload, size);
    if k == 0 {
        assert(slots.take(0) =~= Seq::<Option<Seq<u8>>>::empty());
        assert(payload.subrange(0, 0) =~= Seq::<u8>::empty());
    } else {
        lemma_joined_prefix(payload, size, k - 1);
        let prev = slots.take(k - 1);
        let cur = slots.take(k);
        let s = fragment_start(size, total, k - 1);
        let e = fragment_end(size, count, total, k - 1);
        assert(0 <= s <= e <= total && (k >= 2 ==> fragment_end(size, count, total, k - 2) == s)
            && (k == 1 ==> s == 0)) by {
            lemma_fragments_tile_payload(size, total);
            assert(0 <= fragment_start(size, total, k - 1));
            if k >= 2 {
                assert(fragment_end(size, count, total, k - 2) == fragment_start(size, total, (k - 2) + 1));
            }
        }
        assert(cur.drop_last() =~= prev);
        assert(cur.last() == Some(payload.subrange(s, e)));
        assert(joined(cur) == joined(prev) + payload.subrange(s, e));
        assert(payload.subrange(0, s) + payload.subrange(s, e) =~= payload.subrange(0, e));
    }
}

/// Reassembly restores the frame: when every fragment of a plan has been
/// filed in its slot, the slots joined in order give back the payload.
pub proof fn lemma_reassembly_restores_payload(payload: Seq<u8>, size: int)
    requires
        size >= 1,
    ensures
        complete_view(AssemblyView { timestamp_micros: 0, flags: 0, slots: delivered_slots(payload, size) }),
        joined(delivered_slots(payload, size)) == payload,
{
    let total = payload.len() as int;
    let count = fragment_count_spec(total, size);
    let slots = delivered_slots(payload, size);
    lemma_fragments_tile_payload(size, total);
    lemma_joined_prefix(payload, size, count);
    assert(slots.take(count) =~= slots);
    assert(payload.subrange(0, total) =~= payload);
}

} // verus!
