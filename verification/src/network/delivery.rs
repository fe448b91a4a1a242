//! What the receiving side makes of the packets a sender emits for a frame.
use vstd::prelude::*;
use crate::network::assembly::{
    AssemblyView, assembly_with, complete_view, delivered_slots, joined, lemma_reassembly_restores_payload,
    new_assembly,
};
use crate::network::fragment::{fragment_count_spec, fragment_end, fragment_start};
use crate::network::session::{
    SenderSession, copies_spec, flags_spec, frame_header_spec, frame_packets_ok, session_redundancy,
};
use crate::network::jitter::{JitterView, jitter_inv, pop_view, popped_view, push_view, insert_ready_view, trim_view};
use crate::network::assembly::{FrameView, assembled_view};
use crate::network::wire::{PacketFlags, PacketHeader, WireMessage, PROTOCOL_VERSION, FLAG_KEY};
use crate::network::assembly::{lemma_present_count_bounds, lemma_present_count_fill, present_count};
use crate::network::endpoint::{EndpointConfig, clamp_int, REDUNDANCY_CAP};
use crate::network::fragment::{MAX_PAYLOAD_LIMIT, MIN_PACKET_PAYLOAD};
use crate::network::receiver::handshake_ack_spec;
use crate::network::session::{accepted_payload_spec, handshake_request_spec};

verus! {

/// The header and payload of a data packet (plain or redundant); nothing
/// for a handshake message.
pub open spec fn carried(p: WireMessage) -> Option<(PacketHeader, Seq<u8>)> {
    match p {
        WireMessage::Data(d) => Some((d.header, d.payload@)),
        WireMessage::Redundant(d) => Some((d.header, d.payload@)),
        _ => None,
    }
}

/// The assembly that the first packet of a frame opens, as the jitter
/// buffer opens it: its slot count, timestamp and flags.
pub open spec fn opened_by(p: WireMessage) -> AssemblyView {
    match carried(p) {
        Some((h, _)) => new_assembly(h.fragment_count, h.timestamp_micros, h.flags.0),
        None => new_assembly(1, 0, 0),
    }
}

/// An assembly after each packet of `packets` was filed in it, in order.
pub open spec fn file_all(a: AssemblyView, packets: Seq<WireMessage>) -> AssemblyView
    decreases packets.len(),
{
    if packets.len() == 0 {
        a
    } else {
        let before = file_all(a, packets.drop_last());
        match carried(packets.last()) {
            Some((h, b)) => assembly_with(before, h, b),
            None => before,
        }
    }
}

proof fn lemma_div_split(n: int, c: int)
    requires
        c >= 1,
        n >= 0,
    ensures
        n == (n / c) * c + n % c,
        0 <= n % c < c,
        0 <= n / c,
{
    assert(n == (n / c) * c + n % c && 0 <= n % c < c && 0 <= n / c) by (nonlinear_arith)
        requires
            c >= 1,
            n >= 0,
    ;
}

proof fn lemma_slot_order(k: int, i: int, j: int, c: int, n: int)
    requires
        c >= 1,
        0 <= j < c,
        n == i * c + j,
        k >= 0,
        i >= 0,
    ensures
        k * c < n + 1 <==> (k * c < n || k == i),
        k == i ==> k * c <= n,
{
    assert((k * c < n + 1 <==> (k * c < n || k == i)) && (k == i ==> k * c <= n)) by (nonlinear_arith)
        requires
            c >= 1,
            0 <= j < c,
            n == i * c + j,
            k >= 0,
            i >= 0,
    ;
}

proof fn lemma_index_below(i: int, j: int, c: int, n: int, count: int)
    requires
        c >= 1,
        0 <= j < c,
        n == i * c + j,
        n < count * c,
        i >= 0,
    ensures
        i < count,
{
    assert(i < count) by (nonlinear_arith)
        requires
            c >= 1,
            0 <= j < c,
            n == i * c + j,
            n < count * c,
            i >= 0,
    ;
}

/// After the first `n` packets of a frame, the slot of fragment `k` holds
/// its bytes once a copy of it has been filed, and is empty before.
proof fn lemma_filed_prefix(
    packets: Seq<WireMessage>,
    session: SenderSession,
    data: Seq<u8>,
    size: int,
    timestamp: u64,
    is_key: bool,
    n: int,
)
    requires
        frame_packets_ok(packets, session, data, size, timestamp, is_key),
        size >= 1,
        fragment_count_spec(data.len() as int, size) <= 0xffff,
        0 <= n <= packets.len(),
    ensures
        ({
            let total = data.len() as int;
            let count = fragment_count_spec(total, size);
            let c = copies_spec(is_key, session_redundancy(session));
            let a = file_all(new_assembly(count as u16, timestamp, flags_spec(is_key, false)), packets.take(n));
            &&& a.slots.len() == count
            &&& a.timestamp_micros == timestamp
            &&& a.flags == flags_spec(is_key, false)
            &&& forall|k: int| 0 <= k < count ==> #[trigger] a.slots[k] == if k * c < n {
                Some(data.subrange(fragment_start(size, total, k), fragment_end(size, count, total, k)))
            } else {
                None::<Seq<u8>>
            }
        }),
    decreases n,
{
    let total = data.len() as int;
    let count = fragment_count_spec(total, size);
    let c = copies_spec(is_key, session_redundancy(session));
    let a0 = new_assembly(count as u16, timestamp, flags_spec(is_key, false));
    crate::network::fragment::lemma_fragments_tile_payload(size, total);
    if n == 0 {
        assert(packets.take(0) =~= Seq::<WireMessage>::empty());
        assert forall|k: int| 0 <= k < count implies #[trigger] file_all(a0, packets.take(0)).slots[k] == None::<Seq<u8>> by {
            assert(k * c >= 0) by (nonlinear_arith) requires k >= 0, c >= 1;
        }
    } else {
        let m = n - 1;
        lemma_filed_prefix(packets, session, data, size, timestamp, is_key, m);
        let before = file_all(a0, packets.take(m));
        assert(packets.take(n).drop_last() =~= packets.take(m));
        assert(packets.take(n).last() == packets[m]);
        lemma_div_split(m, c);
        let i = m / c;
        let j = m % c;
        lemma_index_below(i, j, c, m, count);
        let h = frame_header_spec(
            session.session_id,
            session.next_frame_id,
            session.next_sequence,
            timestamp,
            count,
            c,
            is_key,
            i,
            j,
        );
        let bytes = data.subrange(fragment_start(size, total, i), fragment_end(size, count, total, i));
        assert(packets[i * c + j] == packets[m]);
        assert(carried(packets[m]) == Some((h, bytes)));
        let after = file_all(a0, packets.take(n));
        assert(after == assembly_with(before, h, bytes));
        assert(h.fragment_index as int == i);
        assert(PacketFlags(flags_spec(is_key, j > 0)).key_spec() == is_key) by {
            assert(3u8 & 1u8 != 0) by (bit_vector);
            assert(1u8 & 1u8 != 0) by (bit_vector);
            assert(0u8 & 1u8 == 0) by (bit_vector);
        }
        assert(is_key ==> before.flags | 1u8 == before.flags) by {
            assert(1u8 | 1u8 == 1u8) by (bit_vector);
        }
        assert forall|k: int| 0 <= k < count implies #[trigger] after.slots[k] == if k * c < n {
            Some(data.subrange(fragment_start(size, total, k), fragment_end(size, count, total, k)))
        } else {
            None::<Seq<u8>>
        } by {
            lemma_slot_order(k, i, j, c, m);
            assert(before.slots[k] == if k * c < m {
                Some(data.subrange(fragment_start(size, total, k), fragment_end(size, count, total, k)))
            } else {
                None::<Seq<u8>>
            });
        }
    }
}

/// A frame goes through intact: when the receiving side files every packet
/// that the sender emitted for a frame, in the order they were sent, in the
/// assembly that the first of them opens, every slot gets filled, the
/// slots joined give back the frame's bytes, and the assembly carries the
/// frame's timestamp and key-frame mark. Redundant copies change nothing.
pub proof fn lemma_sent_frame_reassembles(
    packets: Seq<WireMessage>,
    session: SenderSession,
    data: Seq<u8>,
    size: int,
    timestamp: u64,
    is_key: bool,
)
    requires
        frame_packets_ok(packets, session, data, size, timestamp, is_key),
        size >= 1,
        fragment_count_spec(data.len() as int, size) <= 0xffff,
    ensures
        ({
            let a = file_all(opened_by(packets[0]), packets);
            &&& complete_view(a)
            &&& joined(a.slots) == data
            &&& a.timestamp_micros == timestamp
            &&& PacketFlags(a.flags).key_spec() == is_key
        }),
{
    let total = data.len() as int;
    let count = fragment_count_spec(total, size);
    let c = copies_spec(is_key, session_redundancy(session));
    crate::network::fragment::lemma_fragments_tile_payload(size, total);
    assert(count * c >= 1) by (nonlinear_arith) requires count >= 1, c >= 1;
    let h0 = frame_header_spec(session.session_id, session.next_frame_id, session.next_sequence, timestamp, count, c, is_key, 0, 0);
    assert(packets[0 * c + 0] == packets[0]);
    assert(carried(packets[0]) == Some((h0, data.subrange(fragment_start(size, total, 0), fragment_end(size, count, total, 0)))));
    assert(opened_by(packets[0]) == new_assembly(count as u16, timestamp, flags_spec(is_key, false)));
    let n = packets.len() as int;
    lemma_filed_prefix(packets, session, data, size, timestamp, is_key, n);
    assert(packets.take(n) =~= packets);
    let a = file_all(opened_by(packets[0]), packets);
    assert forall|k: int| 0 <= k < count implies #[trigger] a.slots[k] == delivered_slots(data, size)[k] by {
        assert(k * c < count * c) by (nonlinear_arith) requires 0 <= k < count, c >= 1;
    }
    assert(a.slots =~= delivered_slots(data, size));
    lemma_reassembly_restores_payload(data, size);
    assert(PacketFlags(flags_spec(is_key, false)).key_spec() == is_key) by {
        assert(1u8 & 1u8 != 0) by (bit_vector);
        assert(0u8 & 1u8 == 0) by (bit_vector);
    }
}

/// Once the first copy of the last fragment has been filed, the assembly
/// holds every fragment of the frame in its slot.
proof fn lemma_filed_past_last(
    packets: Seq<WireMessage>,
    session: SenderSession,
    data: Seq<u8>,
    size: int,
    timestamp: u64,
    is_key: bool,
    n: int,
)
    requires
        frame_packets_ok(packets, session, data, size, timestamp, is_key),
        size >= 1,
        fragment_count_spec(data.len() as int, size) <= 0xffff,
        (fragment_count_spec(data.len() as int, size) - 1) * copies_spec(is_key, session_redundancy(session)) < n
            <= packets.len(),
    ensures
        ({
            let count = fragment_count_spec(data.len() as int, size);
            let a = file_all(new_assembly(count as u16, timestamp, flags_spec(is_key, false)), packets.take(n));
            &&& a.slots == delivered_slots(data, size)
            &&& complete_view(a)
            &&& joined(a.slots) == data
            &&& assembled_view(a, session.next_frame_id) == (FrameView {
                frame_id: session.next_frame_id,
                timestamp_micros: timestamp,
                flags: flags_spec(is_key, false),
                payload: data,
            })
        }),
{
    let total = data.len() as int;
    let count = fragment_count_spec(total, size);
    let c = copies_spec(is_key, session_redundancy(session));
    let a = file_all(new_assembly(count as u16, timestamp, flags_spec(is_key, false)), packets.take(n));
    crate::network::fragment::lemma_fragments_tile_payload(size, total);
    lemma_filed_prefix(packets, session, data, size, timestamp, is_key, n);
    assert forall|k: int| 0 <= k < count implies #[trigger] a.slots[k] == delivered_slots(data, size)[k] by {
        assert(k * c <= (count - 1) * c) by (nonlinear_arith) requires 0 <= k <= count - 1, c >= 1;
    }
    assert(a.slots =~= delivered_slots(data, size));
    lemma_reassembly_restores_payload(data, size);
}

/// The receiving side takes a packet: a data packet goes to the jitter
/// buffer, then the front ready frame, if any, is handed out.
pub open spec fn receive_step(v: JitterView, p: WireMessage) -> (JitterView, Option<FrameView>) {
    match carried(p) {
        Some((h, b)) => {
            let pushed = push_view(v, h, b);
            (pop_view(pushed), popped_view(pushed))
        },
        None => (v, None),
    }
}

/// The buffer after each packet of `packets` in turn, and the frames
/// handed out on the way, in order.
pub open spec fn receive_all(v: JitterView, packets: Seq<WireMessage>) -> (JitterView, Seq<FrameView>)
    decreases packets.len(),
{
    if packets.len() == 0 {
        (v, Seq::empty())
    } else {
        let (w, out) = receive_all(v, packets.drop_last());
        let (w2, f) = receive_step(w, packets.last());
        (
            w2,
            match f {
                Some(x) => out.push(x),
                None => out,
            },
        )
    }
}

/// Packet `m` of a frame carries copy `m % c` of fragment `m / c`.
proof fn lemma_packet_at(
    packets: Seq<WireMessage>,
    session: SenderSession,
    data: Seq<u8>,
    size: int,
    timestamp: u64,
    is_key: bool,
    m: int,
)
    requires
        frame_packets_ok(packets, session, data, size, timestamp, is_key),
        size >= 1,
        0 <= m < packets.len(),
    ensures
        ({
            let total = data.len() as int;
            let count = fragment_count_spec(total, size);
            let c = copies_spec(is_key, session_redundancy(session));
            let i = m / c;
            let j = m % c;
            &&& 0 <= i < count
            &&& 0 <= j < c
            &&& m == i * c + j
            &&& carried(packets[m]) == Some((
                frame_header_spec(session.session_id, session.next_frame_id, session.next_sequence, timestamp, count, c, is_key, i, j),
                data.subrange(fragment_start(size, total, i), fragment_end(size, count, total, i)),
            ))
        }),
{
    let total = data.len() as int;
    let count = fragment_count_spec(total, size);
    let c = copies_spec(is_key, session_redundancy(session));
    lemma_div_split(m, c);
    let i = m / c;
    let j = m % c;
    lemma_index_below(i, j, c, m, count);
    let h = frame_header_spec(session.session_id, session.next_frame_id, session.next_sequence, timestamp, count, c, is_key, i, j);
    assert(packets[i * c + j] == packets[m]);
}

/// The pending state of the receiver while the frame is incomplete.
pub open spec fn waiting_view(v: JitterView, fid: u64, a: AssemblyView, any: bool) -> JitterView {
    JitterView {
        capacity: v.capacity,
        next_frame_id: v.next_frame_id,
        assemblies: if any { v.assemblies.insert(fid, a) } else { v.assemblies },
        ready: Seq::empty(),
    }
}

/// The state of the receiver once the frame has been handed out.
pub open spec fn done_view(v: JitterView, fid: u64) -> JitterView {
    JitterView { capacity: v.capacity, next_frame_id: (fid + 1) as u64, assemblies: v.assemblies, ready: Seq::empty() }
}

/// The frame that the packets of a frame make.
pub open spec fn sent_frame(fid: u64, timestamp: u64, is_key: bool, data: Seq<u8>) -> FrameView {
    FrameView { frame_id: fid, timestamp_micros: timestamp, flags: flags_spec(is_key, false), payload: data }
}

proof fn lemma_step_before_last(
    v: JitterView,
    packets: Seq<WireMessage>,
    session: SenderSession,
    data: Seq<u8>,
    size: int,
    timestamp: u64,
    is_key: bool,
    m: int,
)
    requires
        frame_packets_ok(packets, session, data, size, timestamp, is_key),
        size >= 1,
        fragment_count_spec(data.len() as int, size) <= 0xffff,
        jitter_inv(v),
        !v.assemblies.contains_key(session.next_frame_id),
        v.assemblies.len() < v.capacity,
        v.next_frame_id <= session.next_frame_id < u64::MAX,
        0 <= m < packets.len(),
        m < (fragment_count_spec(data.len() as int, size) - 1) * copies_spec(is_key, session_redundancy(session)),
    ensures
        ({
            let fid = session.next_frame_id;
            let a0 = new_assembly(fragment_count_spec(data.len() as int, size) as u16, timestamp, flags_spec(is_key, false));
            receive_step(waiting_view(v, fid, file_all(a0, packets.take(m)), m > 0), packets[m])
                == (waiting_view(v, fid, file_all(a0, packets.take(m + 1)), true), None::<FrameView>)
        }),
{
    let fid = session.next_frame_id;
    let total = data.len() as int;
    let count = fragment_count_spec(total, size);
    let c = copies_spec(is_key, session_redundancy(session));
    let a0 = new_assembly(count as u16, timestamp, flags_spec(is_key, false));
    crate::network::fragment::lemma_fragments_tile_payload(size, total);
    lemma_packet_at(packets, session, data, size, timestamp, is_key, m);
    let i = m / c;
    let j = m % c;
    let h = frame_header_spec(session.session_id, session.next_frame_id, session.next_sequence, timestamp, count, c, is_key, i, j);
    let bytes = data.subrange(fragment_start(size, total, i), fragment_end(size, count, total, i));
    let w = waiting_view(v, fid, file_all(a0, packets.take(m)), m > 0);
    assert(packets.take(m + 1).drop_last() =~= packets.take(m));
    assert(packets.take(m + 1).last() == packets[m]);
    let filled = file_all(a0, packets.take(m + 1));
    assert(filled == assembly_with(file_all(a0, packets.take(m)), h, bytes));
    lemma_filed_prefix(packets, session, data, size, timestamp, is_key, m + 1);
    assert(filled.slots[count - 1] is None);
    assert(!complete_view(filled));
    if m == 0 {
        assert(packets.take(0) =~= Seq::<WireMessage>::empty());
    } else {
        assert(w.assemblies[fid] == file_all(a0, packets.take(m)));
    }
    let stored = waiting_view(v, fid, filled, true);
    assert(w.assemblies.insert(fid, filled) =~= v.assemblies.insert(fid, filled));
    assert(push_view(w, h, bytes) == trim_view(stored));
    assert(v.assemblies.insert(fid, filled).len() == v.assemblies.len() + 1);
}

proof fn lemma_step_at_last(
    v: JitterView,
    packets: Seq<WireMessage>,
    session: SenderSession,
    data: Seq<u8>,
    size: int,
    timestamp: u64,
    is_key: bool,
    m: int,
)
    requires
        frame_packets_ok(packets, session, data, size, timestamp, is_key),
        size >= 1,
        fragment_count_spec(data.len() as int, size) <= 0xffff,
        jitter_inv(v),
        !v.assemblies.contains_key(session.next_frame_id),
        v.assemblies.len() < v.capacity,
        v.next_frame_id <= session.next_frame_id < u64::MAX,
        0 <= m < packets.len(),
        m == (fragment_count_spec(data.len() as int, size) - 1) * copies_spec(is_key, session_redundancy(session)),
    ensures
        ({
            let fid = session.next_frame_id;
            let a0 = new_assembly(fragment_count_spec(data.len() as int, size) as u16, timestamp, flags_spec(is_key, false));
            receive_step(waiting_view(v, fid, file_all(a0, packets.take(m)), m > 0), packets[m])
                == (done_view(v, fid), Some(sent_frame(fid, timestamp, is_key, data)))
        }),
{
    let fid = session.next_frame_id;
    let total = data.len() as int;
    let count = fragment_count_spec(total, size);
    let c = copies_spec(is_key, session_redundancy(session));
    let a0 = new_assembly(count as u16, timestamp, flags_spec(is_key, false));
    crate::network::fragment::lemma_fragments_tile_payload(size, total);
    lemma_packet_at(packets, session, data, size, timestamp, is_key, m);
    let i = m / c;
    let j = m % c;
    let h = frame_header_spec(session.session_id, session.next_frame_id, session.next_sequence, timestamp, count, c, is_key, i, j);
    let bytes = data.subrange(fragment_start(size, total, i), fragment_end(size, count, total, i));
    let w = waiting_view(v, fid, file_all(a0, packets.take(m)), m > 0);
    assert(packets.take(m + 1).drop_last() =~= packets.take(m));
    assert(packets.take(m + 1).last() == packets[m]);
    let filled = file_all(a0, packets.take(m + 1));
    assert(filled == assembly_with(file_all(a0, packets.take(m)), h, bytes));
    lemma_filed_past_last(packets, session, data, size, timestamp, is_key, m + 1);
    if m == 0 {
        assert(packets.take(0) =~= Seq::<WireMessage>::empty());
    } else {
        assert(w.assemblies[fid] == file_all(a0, packets.take(m)));
    }
    assert(w.assemblies.remove(fid) =~= v.assemblies);
    let f = assembled_view(filled, fid);
    let base = JitterView { capacity: v.capacity, next_frame_id: v.next_frame_id, assemblies: v.assemblies, ready: Seq::empty() };
    assert(Seq::<FrameView>::empty().insert(0, f) =~= seq![f]);
    let stored = insert_ready_view(base, f);
    assert(stored.ready == seq![f]);
    assert(trim_view(stored) == stored);
    assert(push_view(w, h, bytes) == stored);
    assert(stored.ready.subrange(1, 1) =~= Seq::<FrameView>::empty());
}

proof fn lemma_received_prefix(
    v: JitterView,
    packets: Seq<WireMessage>,
    session: SenderSession,
    data: Seq<u8>,
    size: int,
    timestamp: u64,
    is_key: bool,
    n: int,
)
    requires
        frame_packets_ok(packets, session, data, size, timestamp, is_key),
        size >= 1,
        fragment_count_spec(data.len() as int, size) <= 0xffff,
        jitter_inv(v),
        v.ready.len() == 0,
        !v.assemblies.contains_key(session.next_frame_id),
        v.assemblies.len() < v.capacity,
        v.next_frame_id <= session.next_frame_id < u64::MAX,
        0 <= n <= packets.len(),
    ensures
        ({
            let fid = session.next_frame_id;
            let count = fragment_count_spec(data.len() as int, size);
            let c = copies_spec(is_key, session_redundancy(session));
            let a0 = new_assembly(count as u16, timestamp, flags_spec(is_key, false));
            if n <= (count - 1) * c {
                receive_all(v, packets.take(n)) == (waiting_view(v, fid, file_all(a0, packets.take(n)), n > 0), Seq::<FrameView>::empty())
            } else {
                receive_all(v, packets.take(n)) == (done_view(v, fid), seq![sent_frame(fid, timestamp, is_key, data)])
            }
        }),
    decreases n,
{
    let fid = session.next_frame_id;
    let total = data.len() as int;
    let count = fragment_count_spec(total, size);
    let c = copies_spec(is_key, session_redundancy(session));
    let a0 = new_assembly(count as u16, timestamp, flags_spec(is_key, false));
    crate::network::fragment::lemma_fragments_tile_payload(size, total);
    let last = (count - 1) * c;
    assert(0 <= (count - 1) * c) by (nonlinear_arith) requires count >= 1, c >= 1;
    if n == 0 {
        assert(packets.take(0) =~= Seq::<WireMessage>::empty());
        assert(v.ready =~= Seq::<FrameView>::empty());
    } else {
        let m = n - 1;
        lemma_received_prefix(v, packets, session, data, size, timestamp, is_key, m);
        assert(packets.take(n).drop_last() =~= packets.take(m));
        assert(packets.take(n).last() == packets[m]);
        if m < last {
            lemma_step_before_last(v, packets, session, data, size, timestamp, is_key, m);
        } else if m == last {
            lemma_step_at_last(v, packets, session, data, size, timestamp, is_key, m);
            assert(Seq::<FrameView>::empty().push(sent_frame(fid, timestamp, is_key, data)) =~= seq![sent_frame(fid, timestamp, is_key, data)]);
        } else {
            lemma_packet_at(packets, session, data, size, timestamp, is_key, m);
        }
    }
}

/// A frame is delivered once and intact: a receiver whose jitter buffer
/// waits for nothing in front of the frame, has no frame ready and room
/// for one more pending frame, and that takes each packet the sender
/// emitted for the frame in turn, handing out a ready frame after each,
/// hands out exactly that frame, once, with its bytes, timestamp and
/// key-frame mark; afterwards it expects the next frame and its pending
/// frames are as before.
pub proof fn lemma_sent_frame_delivered_once(
    v: JitterView,
    packets: Seq<WireMessage>,
    session: SenderSession,
    data: Seq<u8>,
    size: int,
    timestamp: u64,
    is_key: bool,
)
    requires
        frame_packets_ok(packets, session, data, size, timestamp, is_key),
        size >= 1,
        fragment_count_spec(data.len() as int, size) <= 0xffff,
        jitter_inv(v),
        v.ready.len() == 0,
        !v.assemblies.contains_key(session.next_frame_id),
        v.assemblies.len() < v.capacity,
        v.next_frame_id <= session.next_frame_id < u64::MAX,
    ensures
        receive_all(v, packets).1 == seq![sent_frame(session.next_frame_id, timestamp, is_key, data)],
        PacketFlags(flags_spec(is_key, false)).key_spec() == is_key,
        receive_all(v, packets).0 == done_view(v, session.next_frame_id),
{
    let total = data.len() as int;
    let count = fragment_count_spec(total, size);
    let c = copies_spec(is_key, session_redundancy(session));
    crate::network::fragment::lemma_fragments_tile_payload(size, total);
    assert((count - 1) * c < count * c) by (nonlinear_arith) requires count >= 1, c >= 1;
    let n = packets.len() as int;
    lemma_received_prefix(v, packets, session, data, size, timestamp, is_key, n);
    assert(packets.take(n) =~= packets);
    assert(PacketFlags(flags_spec(is_key, false)).key_spec() == is_key) by {
        assert(1u8 & 1u8 != 0) by (bit_vector);
        assert(0u8 & 1u8 == 0) by (bit_vector);
    }
}

/// A jitter buffer after each (header, payload) of `packets` was pushed,
/// in turn.
pub open spec fn push_all(v: JitterView, packets: Seq<(PacketHeader, Seq<u8>)>) -> JitterView
    decreases packets.len(),
{
    if packets.len() == 0 {
        v
    } else {
        push_view(push_all(v, packets.drop_last()), packets.last().0, packets.last().1)
    }
}

/// The bytes of fragment `i` when `data` is cut into pieces of `size` bytes.
pub open spec fn fragment_bytes(data: Seq<u8>, size: int, i: int) -> Seq<u8> {
    let total = data.len() as int;
    data.subrange(fragment_start(size, total, i), fragment_end(size, fragment_count_spec(total, size), total, i))
}

/// `packets` carry each fragment of `data`, cut into pieces of `size`
/// bytes, exactly once and in any order: every packet is for the frame of
/// `h` and carries its version, timestamp and flags, names the number of
/// fragments and the index of the fragment whose bytes it carries, and no
/// two packets name the same index.
pub open spec fn fragments_in_any_order(
    packets: Seq<(PacketHeader, Seq<u8>)>,
    h: PacketHeader,
    data: Seq<u8>,
    size: int,
) -> bool {
    let count = fragment_count_spec(data.len() as int, size);
    &&& packets.len() == count
    &&& forall|k: int|
        0 <= k < packets.len() ==> {
            let ph = (#[trigger] packets[k]).0;
            &&& ph.protocol_version == h.protocol_version
            &&& ph.frame_id == h.frame_id
            &&& ph.timestamp_micros == h.timestamp_micros
            &&& ph.flags == h.flags
            &&& ph.fragment_count as int == count
            &&& 0 <= ph.fragment_index < count
            &&& packets[k].1 == fragment_bytes(data, size, ph.fragment_index as int)
        }
    &&& forall|k1: int, k2: int|
        0 <= k1 < packets.len() && 0 <= k2 < packets.len() && k1 != k2
            ==> (#[trigger] packets[k1]).0.fragment_index != (#[trigger] packets[k2]).0.fragment_index
}

/// Whether one of the first `n` packets carries fragment `i`.
spec fn arrived(packets: Seq<(PacketHeader, Seq<u8>)>, n: int, i: int) -> bool
    decreases n,
{
    if n <= 0 {
        false
    } else {
        packets[n - 1].0.fragment_index as int == i || arrived(packets, n - 1, i)
    }
}

/// The assembly of a frame once the first `n` of its packets arrived.
spec fn arrived_assembly(packets: Seq<(PacketHeader, Seq<u8>)>, h: PacketHeader, data: Seq<u8>, size: int, n: int) -> AssemblyView {
    AssemblyView {
        timestamp_micros: h.timestamp_micros,
        flags: h.flags.0,
        slots: Seq::new(
            fragment_count_spec(data.len() as int, size) as nat,
            |i: int| if arrived(packets, n, i) { Some(fragment_bytes(data, size, i)) } else { None::<Seq<u8>> },
        ),
    }
}

/// A packet that arrives after the first `n` names a fragment none of them named.
proof fn lemma_not_yet_arrived(packets: Seq<(PacketHeader, Seq<u8>)>, h: PacketHeader, data: Seq<u8>, size: int, n: int, m: int)
    requires
        fragments_in_any_order(packets, h, data, size),
        0 <= n <= m < packets.len(),
    ensures
        !arrived(packets, n, packets[m].0.fragment_index as int),
    decreases n,
{
    if n > 0 {
        assert(packets[n - 1].0.fragment_index != packets[m].0.fragment_index);
        lemma_not_yet_arrived(packets, h, data, size, n - 1, m);
    }
}

/// After the first `n` packets, fewer than all: the frame is pending with
/// `n` fragments in; after all of them: it is the one ready frame.
proof fn lemma_pushed_prefix(v: JitterView, packets: Seq<(PacketHeader, Seq<u8>)>, h: PacketHeader, data: Seq<u8>, size: int, n: int)
    requires
        size >= 1,
        fragment_count_spec(data.len() as int, size) <= 0xffff,
        fragments_in_any_order(packets, h, data, size),
        h.protocol_version == PROTOCOL_VERSION,
        jitter_inv(v),
        v.ready.len() == 0,
        !v.assemblies.contains_key(h.frame_id),
        v.assemblies.len() < v.capacity,
        v.next_frame_id <= h.frame_id < u64::MAX,
        0 <= n <= packets.len(),
    ensures
        present_count(arrived_assembly(packets, h, data, size, n).slots) == n,
        n < packets.len() ==> push_all(v, packets.take(n))
            == waiting_view(v, h.frame_id, arrived_assembly(packets, h, data, size, n), n > 0),
        n == packets.len() ==> push_all(v, packets.take(n)) == (JitterView {
            capacity: v.capacity,
            next_frame_id: v.next_frame_id,
            assemblies: v.assemblies,
            ready: seq![assembled_view(arrived_assembly(packets, h, data, size, n), h.frame_id)],
        }),
    decreases n,
{
    let fid = h.frame_id;
    let count = fragment_count_spec(data.len() as int, size);
    crate::network::fragment::lemma_fragments_tile_payload(size, data.len() as int);
    let a = arrived_assembly(packets, h, data, size, n);
    if n == 0 {
        assert(packets.take(0) =~= Seq::<(PacketHeader, Seq<u8>)>::empty());
        assert forall|i: int| 0 <= i < a.slots.len() implies #[trigger] a.slots[i] is None by {}
        crate::network::assembly::lemma_none_count(a.slots);
        assert(v.ready =~= Seq::<FrameView>::empty());
    } else {
        let m = n - 1;
        lemma_pushed_prefix(v, packets, h, data, size, m);
        let prev = arrived_assembly(packets, h, data, size, m);
        let (ph, b) = packets[m];
        let i = ph.fragment_index as int;
        assert(packets.take(n).drop_last() =~= packets.take(m));
        assert(packets.take(n).last() == packets[m]);
        lemma_not_yet_arrived(packets, h, data, size, m, m);
        assert(prev.slots[i] is None);
        assert(a.slots =~= prev.slots.update(i, Some(b)));
        lemma_present_count_fill(prev.slots, i, b);
        let w = waiting_view(v, fid, prev, m > 0);
        let base = new_assembly(ph.fragment_count, ph.timestamp_micros, ph.flags.0);
        if m == 0 {
            assert(base.slots =~= prev.slots);
            assert(base == prev);
        } else {
            assert(w.assemblies[fid] == prev);
        }
        assert(ph.flags.key_spec() ==> prev.flags | FLAG_KEY == prev.flags) by {
            let x = prev.flags;
            assert(x & 1u8 != 0 ==> x | 1u8 == x) by (bit_vector);
        }
        assert(assembly_with(prev, ph, b) == a);
        lemma_present_count_bounds(a.slots);
        if n < packets.len() {
            assert(!complete_view(a));
            let stored = waiting_view(v, fid, a, true);
            assert(w.assemblies.insert(fid, a) =~= v.assemblies.insert(fid, a));
            assert(v.assemblies.insert(fid, a).len() == v.assemblies.len() + 1);
            assert(push_view(w, ph, b) == trim_view(stored));
        } else {
            assert(complete_view(a));
            assert(w.assemblies.remove(fid) =~= v.assemblies);
            let f = assembled_view(a, fid);
            let base_view = JitterView { capacity: v.capacity, next_frame_id: v.next_frame_id, assemblies: v.assemblies, ready: Seq::empty() };
            assert(Seq::<FrameView>::empty().insert(0, f) =~= seq![f]);
            let stored = insert_ready_view(base_view, f);
            assert(stored.ready == seq![f]);
            assert(trim_view(stored) == stored);
            assert(push_view(w, ph, b) == stored);
        }
    }
}

/// Reassembly in any arrival order: a jitter buffer that waits for nothing
/// in front of a frame (a fresh one does not), has no frame ready and room
/// for one more pending frame, and to which each fragment of the frame is
/// pushed exactly once, in any order, hands out that frame, with its id,
/// timestamp and flags and with the bytes that were cut into the fragments;
/// afterwards it expects the next frame and its pending frames are as before.
pub proof fn lemma_fragments_reassemble_in_any_order(
    v: JitterView,
    packets: Seq<(PacketHeader, Seq<u8>)>,
    h: PacketHeader,
    data: Seq<u8>,
    size: int,
)
    requires
        size >= 1,
        fragment_count_spec(data.len() as int, size) <= 0xffff,
        fragments_in_any_order(packets, h, data, size),
        h.protocol_version == PROTOCOL_VERSION,
        jitter_inv(v),
        v.ready.len() == 0,
        !v.assemblies.contains_key(h.frame_id),
        v.assemblies.len() < v.capacity,
        v.next_frame_id <= h.frame_id < u64::MAX,
    ensures
        popped_view(push_all(v, packets)) == Some(FrameView {
            frame_id: h.frame_id,
            timestamp_micros: h.timestamp_micros,
            flags: h.flags.0,
            payload: data,
        }),
        pop_view(push_all(v, packets)) == done_view(v, h.frame_id),
{
    let n = packets.len() as int;
    lemma_pushed_prefix(v, packets, h, data, size, n);
    assert(packets.take(n) =~= packets);
    let a = arrived_assembly(packets, h, data, size, n);
    lemma_present_count_bounds(a.slots);
    assert(a.slots =~= delivered_slots(data, size)) by {
        assert forall|i: int| 0 <= i < a.slots.len() implies #[trigger] a.slots[i] == delivered_slots(data, size)[i] by {
            assert(a.slots[i] is Some);
        }
    }
    lemma_reassembly_restores_payload(data, size);
    let pushed = push_all(v, packets);
    assert(pushed.ready.subrange(1, 1) =~= Seq::<FrameView>::empty());
}

/// Both ends agree after a handshake: the receiver acknowledges the session
/// that was asked for, with a packet payload no larger than the sender
/// offered and within the protocol limits, and with the redundancy the
/// sender asked for; the sender keeps exactly that payload and redundancy.
pub proof fn lemma_handshake_agrees(sender: EndpointConfig, receiver: EndpointConfig, session_id: u64)
    ensures
        ({
            let request = handshake_request_spec(sender, session_id);
            let ack = handshake_ack_spec(receiver, request);
            &&& ack.session_id == session_id
            &&& MIN_PACKET_PAYLOAD <= ack.accepted_packet_payload <= MAX_PAYLOAD_LIMIT
            &&& ack.accepted_packet_payload <= request.max_packet_payload
            &&& accepted_payload_spec(ack) == ack.accepted_packet_payload
            &&& ack.key_frame_redundancy == request.key_frame_redundancy
            &&& clamp_int(ack.key_frame_redundancy as int, 1, REDUNDANCY_CAP as int) == ack.key_frame_redundancy
        }),
{
}

} // verus!
