use vstd::prelude::*;
use vstd::laws_cmp::obeys_cmp;
use std::collections::{BTreeMap, VecDeque};
use crate::network::assembly::{
    AssembledFrame, AssemblyView, FrameAssembly, FrameView, assembled_view, assembly_with,
    complete_view, new_assembly,
};
use crate::network::wire::{DataPacket, PacketHeader, PROTOCOL_VERSION};

verus! {

broadcast use {
    vstd::laws_cmp::group_laws_cmp,
    vstd::std_specs::btree::group_btree_axioms,
    vstd::std_specs::vecdeque::group_vec_dequeue_axioms,
};

/// The smallest frame id among the pending assemblies.
fn first_pending(m: &BTreeMap<u64, FrameAssembly>) -> (k: Option<u64>)
    ensures
        match k {
            Some(k) => m@.dom().contains(k) && forall|j: u64| m@.dom().contains(j) ==> k <= j,
            None => m@.dom().is_empty(),
        },
{
    let mut best: Option<u64> = None;
    let ghost mut seen: Seq<u64> = Seq::empty();
    for key in it: m.keys()
        invariant
            it.seq().unref().to_set() == m@.dom(),
            seen == it.seq().unref().take(it.index()),
            it.index() == it.seq().len() ==> seen.to_set() == m@.dom(),
            match best {
                None => seen.len() == 0,
                Some(b) => seen.contains(b) && forall|i: int| 0 <= i < seen.len() ==> b <= #[trigger] seen[i],
            },
    {
        let k: u64 = *key;
        assert(it.seq().unref().take(it.index() + 1) =~= seen.push(k));
        assert(it.index() + 1 == it.seq().len() ==> it.seq().unref().take(it.index() + 1) =~= it.seq().unref());
        proof {
            seen = seen.push(k);
        }
        best = match best {
            None => Some(k),
            Some(b) => if k < b { Some(k) } else { Some(b) },
        };
        proof {
            match best {
                Some(b) => {
                    assert(seen.contains(b)) by {
                        if b == k {
                            assert(seen[seen.len() - 1] == k);
                        }
                    }
                },
                None => {},
            }
        }
    }
    proof {
        match best {
            Some(b) => {
                assert forall|j: u64| m@.dom().contains(j) implies b <= j by {
                    assert(seen.to_set().contains(j));
                    let i = choose|i: int| 0 <= i < seen.len() && seen[i] == j;
                    assert(b <= seen[i]);
                }
            },
            None => {
                assert(seen.to_set() =~= Set::<u64>::empty());
            },
        }
    }
    best
}

/// What a jitter buffer holds, as plain values.
pub struct JitterView {
    pub capacity: nat,
    pub next_frame_id: u64,
    pub assemblies: Map<u64, AssemblyView>,
    pub ready: Seq<FrameView>,
}

/// Where a frame with id `id` joins the ready queue: before the first frame,
/// from index `i` on, whose id is larger; at the end if there is none.
pub open spec fn insert_position(ready: Seq<FrameView>, id: u64, i: nat) -> nat
    decreases ready.len() - i,
{
    if i >= ready.len() {
        ready.len()
    } else if id < ready[i as int].frame_id {
        i
    } else {
        insert_position(ready, id, i + 1)
    }
}

/// The smallest id of a nonempty set of ids.
pub open spec fn lowest_id(ids: Set<u64>) -> u64 {
    choose|k: u64| ids.contains(k) && forall|j: u64| ids.contains(j) ==> k <= j
}

/// A finished frame joins the ready queue in id order; when the queue
/// overflows, its oldest frame is dropped and the next expected id moves
/// to the frame now in front.
pub open spec fn insert_ready_view(v: JitterView, f: FrameView) -> JitterView {
    let r = v.ready.insert(insert_position(v.ready, f.frame_id, 0) as int, f);
    if r.len() > v.capacity {
        JitterView {
            capacity: v.capacity,
            next_frame_id: r[1].frame_id,
            assemblies: v.assemblies,
            ready: r.subrange(1, r.len() as int),
        }
    } else {
        JitterView { capacity: v.capacity, next_frame_id: v.next_frame_id, assemblies: v.assemblies, ready: r }
    }
}

/// When more frames are pending than the capacity allows, the oldest pending
/// frame is given up and the next expected id moves past it.
pub open spec fn trim_view(v: JitterView) -> JitterView {
    if v.assemblies.len() > v.capacity {
        let k = lowest_id(v.assemblies.dom());
        JitterView {
            capacity: v.capacity,
            next_frame_id: (k + 1) as u64,
            assemblies: v.assemblies.remove(k),
            ready: v.ready,
        }
    } else {
        v
    }
}

/// The buffer after a data packet arrived.
pub open spec fn push_view(v: JitterView, header: PacketHeader, payload: Seq<u8>) -> JitterView {
    let id = header.frame_id;
    if header.protocol_version != PROTOCOL_VERSION || id < v.next_frame_id {
        v
    } else {
        let base = if v.assemblies.contains_key(id) {
            v.assemblies[id]
        } else {
            new_assembly(header.fragment_count, header.timestamp_micros, header.flags.0)
        };
        let filled = assembly_with(base, header, payload);
        let stored = if complete_view(filled) {
            insert_ready_view(
                JitterView {
                    capacity: v.capacity,
                    next_frame_id: v.next_frame_id,
                    assemblies: v.assemblies.remove(id),
                    ready: v.ready,
                },
                assembled_view(filled, id),
            )
        } else {
            JitterView {
                capacity: v.capacity,
                next_frame_id: v.next_frame_id,
                assemblies: v.assemblies.insert(id, filled),
                ready: v.ready,
            }
        };
        trim_view(stored)
    }
}

/// The frame that `pop_ready` hands out: the front of the ready queue.
pub open spec fn popped_view(v: JitterView) -> Option<FrameView> {
    if v.ready.len() == 0 { None } else { Some(v.ready[0]) }
}

/// The buffer after `pop_ready`: the front frame leaves, and the next
/// expected id moves past it unless it is already further on.
pub open spec fn pop_view(v: JitterView) -> JitterView {
    if v.ready.len() == 0 {
        v
    } else {
        let f = v.ready[0];
        JitterView {
            capacity: v.capacity,
            next_frame_id: if f.frame_id >= v.next_frame_id { (f.frame_id + 1) as u64 } else { v.next_frame_id },
            assemblies: v.assemblies,
            ready: v.ready.subrange(1, v.ready.len() as int),
        }
    }
}

/// The standing invariant of a jitter buffer: at least one slot, at most
/// `capacity` pending and `capacity` ready frames, the ready queue in id
/// order, and every id below the largest one (so that the id after it exists).
pub open spec fn jitter_inv(v: JitterView) -> bool {
    &&& v.capacity >= 1
    &&& v.assemblies.dom().finite()
    &&& v.assemblies.len() <= v.capacity
    &&& v.ready.len() <= v.capacity
    &&& forall|i: int, j: int| 0 <= i <= j < v.ready.len() ==> v.ready[i].frame_id <= v.ready[j].frame_id
    &&& forall|i: int| 0 <= i < v.ready.len() ==> #[trigger] v.ready[i].frame_id < u64::MAX
    &&& forall|k: u64| v.assemblies.contains_key(k) ==> k < u64::MAX
}

proof fn lemma_insert_position(ready: Seq<FrameView>, id: u64, i: nat)
    requires
        i <= ready.len(),
    ensures
        i <= insert_position(ready, id, i) <= ready.len(),
        forall|j: int| i <= j < insert_position(ready, id, i) ==> !(id < #[trigger] ready[j].frame_id),
        insert_position(ready, id, i) < ready.len() ==> id < ready[insert_position(ready, id, i) as int].frame_id,
    decreases ready.len() - i,
{
    if i < ready.len() && !(id < ready[i as int].frame_id) {
        lemma_insert_position(ready, id, i + 1);
    }
}

proof fn lemma_has_lowest(ids: Set<u64>) -> (m: u64)
    requires
        ids.finite(),
        ids.len() > 0,
    ensures
        ids.contains(m),
        forall|j: u64| ids.contains(j) ==> m <= j,
    decreases ids.len(),
{
    let x = ids.choose();
    let rest = ids.remove(x);
    if rest.len() == 0 {
        assert forall|j: u64| ids.contains(j) implies x <= j by {
            if j != x {
                assert(rest.contains(j));
            }
        }
        x
    } else {
        let m = lemma_has_lowest(rest);
        if x < m { x } else { m }
    }
}

proof fn lemma_lowest_id(ids: Set<u64>)
    requires
        ids.finite(),
        ids.len() > 0,
    ensures
        ids.contains(lowest_id(ids)),
        forall|j: u64| ids.contains(j) ==> lowest_id(ids) <= j,
{
    let m = lemma_has_lowest(ids);
    assert(ids.contains(m) && forall|j: u64| ids.contains(j) ==> m <= j);
}

/// Ordered insertion keeps the ready queue in id order, and both
/// queues stay within the capacity.
pub proof fn lemma_insert_ready_keeps_inv(v: JitterView, f: FrameView)
    requires
        jitter_inv(v),
        f.frame_id < u64::MAX,
    ensures
        jitter_inv(insert_ready_view(v, f)),
        insert_ready_view(v, f).ready.contains(f) || insert_ready_view(v, f).ready.len() == v.capacity,
{
    let p = insert_position(v.ready, f.frame_id, 0);
    lemma_insert_position(v.ready, f.frame_id, 0);
    let r = v.ready.insert(p as int, f);
    assert forall|i: int, j: int| 0 <= i <= j < r.len() implies r[i].frame_id <= r[j].frame_id by {
        if i < p && j < p {
        } else if i < p && j == p {
            assert(!(f.frame_id < v.ready[i].frame_id));
        } else if i < p {
            assert(v.ready[i].frame_id <= v.ready[j - 1].frame_id);
        } else if i == p && j > p {
            assert(f.frame_id < v.ready[p as int].frame_id);
            assert(v.ready[p as int].frame_id <= v.ready[j - 1].frame_id);
        } else if i > p {
            assert(v.ready[i - 1].frame_id <= v.ready[j - 1].frame_id);
        }
    }
    assert forall|i: int| 0 <= i < r.len() implies #[trigger] r[i].frame_id < u64::MAX by {
        if i < p {
            assert(r[i] == v.ready[i]);
        } else if i > p {
            assert(r[i] == v.ready[i - 1]);
        }
    }
    assert(r[p as int] == f);
    if r.len() > v.capacity {
        let rest = r.subrange(1, r.len() as int);
        assert forall|i: int| 0 <= i < rest.len() implies #[trigger] rest[i].frame_id < u64::MAX by {
            assert(rest[i] == r[i + 1]);
        }
        assert forall|i: int, j: int| 0 <= i <= j < rest.len() implies rest[i].frame_id <= rest[j].frame_id by {
            assert(rest[i] == r[i + 1] && rest[j] == r[j + 1]);
        }
    } else {
        assert(r.contains(f));
    }
}

/// Giving up the oldest pending frame brings the pending frames back within
/// the capacity when they were at most one over it.
pub proof fn lemma_trim_keeps_inv(v: JitterView)
    requires
        v.capacity >= 1,
        v.assemblies.dom().finite(),
        v.assemblies.len() <= v.capacity + 1,
        v.ready.len() <= v.capacity,
        forall|i: int, j: int| 0 <= i <= j < v.ready.len() ==> v.ready[i].frame_id <= v.ready[j].frame_id,
        forall|i: int| 0 <= i < v.ready.len() ==> #[trigger] v.ready[i].frame_id < u64::MAX,
        forall|k: u64| v.assemblies.contains_key(k) ==> k < u64::MAX,
    ensures
        jitter_inv(trim_view(v)),
{
    if v.assemblies.len() > v.capacity {
        lemma_lowest_id(v.assemblies.dom());
    }
}

/// Every operation keeps the standing invariant: a packet arriving (whose
/// frame id is not the largest one) and a frame leaving.
pub proof fn lemma_operations_keep_inv(v: JitterView, header: PacketHeader, payload: Seq<u8>)
    requires
        jitter_inv(v),
        header.frame_id < u64::MAX,
    ensures
        jitter_inv(push_view(v, header, payload)),
        jitter_inv(pop_view(v)),
{
    let id = header.frame_id;
    if !(header.protocol_version != PROTOCOL_VERSION || id < v.next_frame_id) {
        let base = if v.assemblies.contains_key(id) {
            v.assemblies[id]
        } else {
            new_assembly(header.fragment_count, header.timestamp_micros, header.flags.0)
        };
        let filled = assembly_with(base, header, payload);
        if complete_view(filled) {
            let removed = JitterView {
                capacity: v.capacity,
                next_frame_id: v.next_frame_id,
                assemblies: v.assemblies.remove(id),
                ready: v.ready,
            };
            assert(removed.assemblies.len() <= v.assemblies.len()) by {
                if v.assemblies.contains_key(id) {
                    assert(removed.assemblies.dom() =~= v.assemblies.dom().remove(id));
                } else {
                    assert(removed.assemblies =~= v.assemblies);
                }
            }
            lemma_insert_ready_keeps_inv(removed, assembled_view(filled, id));
            lemma_trim_keeps_inv(insert_ready_view(removed, assembled_view(filled, id)));
        } else {
            let stored = JitterView {
                capacity: v.capacity,
                next_frame_id: v.next_frame_id,
                assemblies: v.assemblies.insert(id, filled),
                ready: v.ready,
            };
            assert(stored.assemblies.dom() =~= v.assemblies.dom().insert(id));
            lemma_trim_keeps_inv(stored);
        }
    }
    if v.ready.len() > 0 {
        let rest = v.ready.subrange(1, v.ready.len() as int);
        assert forall|i: int| 0 <= i < rest.len() implies #[trigger] rest[i].frame_id < u64::MAX by {
            assert(rest[i] == v.ready[i + 1]);
        }
        assert forall|i: int, j: int| 0 <= i <= j < rest.len() implies rest[i].frame_id <= rest[j].frame_id by {
            assert(rest[i] == v.ready[i + 1] && rest[j] == v.ready[j + 1]);
        }
    }
}

/// Frames leave in id order: the frame handed out is the one with the
/// lowest id among those ready, and the frames behind it keep their order.
pub proof fn lemma_pop_gives_lowest_ready(v: JitterView)
    requires
        jitter_inv(v),
        v.ready.len() > 0,
    ensures
        popped_view(v) == Some(v.ready[0]),
        forall|i: int| 0 <= i < v.ready.len() ==> v.ready[0].frame_id <= #[trigger] v.ready[i].frame_id,
        pop_view(v).ready =~= v.ready.drop_first(),
{
}

/// Reorders the packets of a session into whole frames.
#[derive(Debug)]
pub struct JitterBuffer {
    capacity: usize,
    next_frame_id: u64,
    assemblies: BTreeMap<u64, FrameAssembly>,
    ready: VecDeque<AssembledFrame>,
}

impl View for JitterBuffer {
    type V = JitterView;

    closed spec fn view(&self) -> JitterView {
        JitterView {
            capacity: self.capacity as nat,
            next_frame_id: self.next_frame_id,
            assemblies: self.assemblies@.map_values(|a: FrameAssembly| a@),
            ready: self.ready@.map_values(|f: AssembledFrame| f@),
        }
    }
}

impl JitterBuffer {
    /// Every pending assembly is well formed and the view keeps the invariant.
    pub closed spec fn wf(&self) -> bool {
        &&& forall|k: u64| #[trigger] self.assemblies@.contains_key(k) ==> self.assemblies@[k].wf()
        &&& jitter_inv(self@)
    }

    /// An empty buffer holding at most `capacity` frames (at least one).
    pub fn new(capacity: usize) -> (b: Self)
        ensures
            b.wf(),
            b@ == (JitterView {
                capacity: if capacity == 0 { 1 } else { capacity as nat },
                next_frame_id: 0,
                assemblies: Map::empty(),
                ready: Seq::empty(),
            }),
    {
        let b = JitterBuffer {
            capacity: if capacity == 0 { 1 } else { capacity },
            next_frame_id: 0,
            assemblies: BTreeMap::new(),
            ready: VecDeque::new(),
        };
        assert(b@.assemblies =~= Map::empty());
        assert(b@.ready =~= Seq::empty());
        b
    }

    /// Files a data packet; a frame whose fragments are all in moves to the
    /// ready queue.
    #[verifier::rlimit(40)]
    pub fn push(&mut self, packet: DataPacket)
        requires
            old(self).wf(),
            packet.header.frame_id < u64::MAX,
        ensures
            final(self).wf(),
            final(self)@ == push_view(old(self)@, packet.header, packet.payload@),
    {
        if packet.header.protocol_version != PROTOCOL_VERSION {
            return;
        }
        let frame_id = packet.header.frame_id;
        if frame_id < self.next_frame_id {
            return;
        }
        let ghost v = self@;
        let ghost header = packet.header;
        let ghost payload = packet.payload@;
        let fragment_count: u16 = if packet.header.fragment_count == 0 { 1 } else { packet.header.fragment_count };
        let timestamp = packet.header.timestamp_micros;
        let flags = packet.header.flags;
        assert(obeys_cmp::<u64>());
        let mut assembly = match self.assemblies.remove(&frame_id) {
            Some(existing) => existing,
            None => FrameAssembly::new(fragment_count, timestamp, flags),
        };
        assert(self.assemblies@ == old(self).assemblies@.remove(frame_id));
        assert(new_assembly(fragment_count, timestamp, flags.0) == new_assembly(header.fragment_count, timestamp, flags.0)) by {
            assert(new_assembly(fragment_count, timestamp, flags.0).slots =~= new_assembly(header.fragment_count, timestamp, flags.0).slots);
        }
        assembly.insert(packet);
        let ghost filled = assembly@;
        if assembly.is_complete() {
            let frame = assembly.into_frame(frame_id);
            proof {
                assert(self@.assemblies =~= v.assemblies.remove(frame_id));
            }
            self.insert_ready(frame);
        } else {
            self.assemblies.insert(frame_id, assembly);
            proof {
                assert(self@.assemblies =~= v.assemblies.insert(frame_id, filled));
            }
        }
        self.trim_assemblies();
        proof {
            lemma_operations_keep_inv(v, header, payload);
        }
    }

    /// Places a finished frame in id order, dropping the oldest one when the
    /// queue overflows.
    fn insert_ready(&mut self, frame: AssembledFrame)
        requires
            forall|k: u64| #[trigger] old(self).assemblies@.contains_key(k) ==> old(self).assemblies@[k].wf(),
            jitter_inv(old(self)@),
            frame.frame_id < u64::MAX,
        ensures
            forall|k: u64| #[trigger] final(self).assemblies@.contains_key(k) ==> final(self).assemblies@[k].wf(),
            final(self).assemblies@ == old(self).assemblies@,
            final(self)@ == insert_ready_view(old(self)@, frame@),
    {
        let ghost v = self@;
        let ghost f = frame@;
        let len = self.ready.len();
        let mut pos: usize = 0;
        while pos < len
            invariant
                pos <= len,
                len == self.ready@.len(),
                self@ == v,
                insert_position(v.ready, f.frame_id, 0) == insert_position(v.ready, f.frame_id, pos as nat),
                frame.frame_id == f.frame_id,
            ensures
                pos <= len,
                self@ == v,
                insert_position(v.ready, f.frame_id, 0) == pos,
            decreases len - pos,
        {
            if frame.frame_id < self.ready[pos].frame_id {
                assert(v.ready[pos as int].frame_id == self.ready@[pos as int].frame_id);
                break;
            }
            assert(v.ready[pos as int].frame_id == self.ready@[pos as int].frame_id);
            pos = pos + 1;
        }
        proof {
            lemma_insert_position(v.ready, f.frame_id, pos as nat);
        }
        self.ready.insert(pos, frame);
        let ghost r = v.ready.insert(pos as int, f);
        assert(self@.ready =~= r);
        if self.ready.len() > self.capacity {
            self.ready.pop_front();
            assert(self@.ready =~= r.subrange(1, r.len() as int));
            if self.ready.len() > 0 {
                assert(self.ready@[0]@ == r[1]);
                self.next_frame_id = self.ready[0].frame_id;
            }
        }
        assert(self@.assemblies == v.assemblies);
    }

    /// Gives up the oldest pending frame when too many are pending.
    fn trim_assemblies(&mut self)
        requires
            forall|k: u64| #[trigger] old(self).assemblies@.contains_key(k) ==> old(self).assemblies@[k].wf(),
            old(self)@.capacity >= 1,
            old(self)@.assemblies.len() <= old(self)@.capacity + 1,
            forall|k: u64| old(self)@.assemblies.contains_key(k) ==> k < u64::MAX,
        ensures
            forall|k: u64| #[trigger] final(self).assemblies@.contains_key(k) ==> final(self).assemblies@[k].wf(),
            final(self)@ == trim_view(old(self)@),
    {
        assert(self@.assemblies.dom() =~= self.assemblies@.dom());
        assert(self.assemblies.len() == self.assemblies@.len());
        if self.assemblies.len() > self.capacity {
            let lowest = first_pending(&self.assemblies);
            match lowest {
                Some(k) => {
                    proof {
                        lemma_lowest_id(self@.assemblies.dom());
                    }
                    let ghost v = self@;
                    self.assemblies.remove(&k);
                    self.next_frame_id = k + 1;
                    assert(self@.assemblies =~= v.assemblies.remove(k));
                },
                None => {},
            }
        }
    }

    /// Whether a frame is waiting to be handed out.
    pub fn has_ready(&self) -> (b: bool)
        ensures
            b == (self@.ready.len() > 0),
    {
        self.ready.len() > 0
    }

    /// Hands out the frame at the front of the ready queue, if any.
    pub fn pop_ready(&mut self) -> (f: Option<AssembledFrame>)
        requires
            old(self).wf(),
        ensures
            final(self).wf(),
            final(self)@ == pop_view(old(self)@),
            match f {
                Some(frame) => popped_view(old(self)@) == Some(frame@),
                None => popped_view(old(self)@) is None,
            },
    {
        proof {
            lemma_operations_keep_inv(self@, PacketHeader {
                protocol_version: 0,
                session_id: 0,
                frame_id: 0,
                sequence: 0,
                timestamp_micros: 0,
                fragment_index: 0,
                fragment_count: 0,
                flags: crate::network::wire::PacketFlags(0),
            }, Seq::empty());
        }
        let ghost v = self@;
        match self.ready.pop_front() {
            None => None,
            Some(frame) => {
                assert(self@.ready =~= v.ready.subrange(1, v.ready.len() as int));
                if frame.frame_id >= self.next_frame_id {
                    self.next_frame_id = frame.frame_id + 1;
                }
                Some(frame)
            },
        }
    }
}

} // verus!
