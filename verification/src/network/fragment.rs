use vstd::prelude::*;
use core::ops::Range;

verus! {

/// Smallest payload a packet is planned with.
pub const MIN_PACKET_PAYLOAD: usize = 256;

/// Largest payload a packet may carry.
pub const MAX_PAYLOAD_LIMIT: usize = 1_300;

/// Frame rate the bandwidth hint of the packet sizer assumes.
pub const PLANNING_FRAME_RATE: u64 = 60;

/// Fragments above which the sizer shrinks its payload.
pub const SHRINK_ABOVE_FRAGMENTS: usize = 4;

pub open spec fn min_int(a: int, b: int) -> int {
    if a <= b { a } else { b }
}

pub open spec fn max_int(a: int, b: int) -> int {
    if a >= b { a } else { b }
}

/// How a frame payload is cut into packets.
#[derive(Debug, Clone)]
pub struct FragmentPlan {
    pub fragment_size: usize,
    pub fragment_count: usize,
}

/// Start of fragment `i` when `total` bytes are cut into pieces of `size`.
pub open spec fn fragment_start(size: int, total: int, i: int) -> int {
    min_int(i * size, total)
}

/// End of fragment `i` of `count`: the last one always reaches `total`.
pub open spec fn fragment_end(size: int, count: int, total: int, i: int) -> int {
    if i == count - 1 {
        total
    } else {
        min_int((i + 1) * size, total)
    }
}

proof fn lemma_next_start(size: int, total: int, i: int)
    requires
        size >= 0,
        i >= 0,
        total >= 0,
    ensures
        fragment_start(size, total, i + 1) == min_int(fragment_start(size, total, i) + size, total),
{
    assert((i + 1) * size == i * size + size) by (nonlinear_arith);
}

impl FragmentPlan {
    /// The byte ranges of the fragments of a `total_len`-byte payload.
    pub fn fragment_ranges(&self, total_len: usize) -> (ranges: Vec<Range<usize>>)
        requires
            total_len + self.fragment_size <= usize::MAX,
        ensures
            ranges@.len() == self.fragment_count,
            forall|i: int|
                0 <= i < self.fragment_count ==> {
                    &&& #[trigger] ranges@[i].start == fragment_start(
                        self.fragment_size as int,
                        total_len as int,
                        i,
                    )
                    &&& ranges@[i].end == fragment_end(
                        self.fragment_size as int,
                        self.fragment_count as int,
                        total_len as int,
                        i,
                    )
                },
    {
        let mut ranges: Vec<Range<usize>> = Vec::with_capacity(self.fragment_count);
        let mut start: usize = 0;
        let mut index: usize = 0;
        while index < self.fragment_count
            invariant
                index <= self.fragment_count,
                total_len + self.fragment_size <= usize::MAX,
                ranges@.len() == index,
                start <= total_len,
                index < self.fragment_count ==> start == fragment_start(
                    self.fragment_size as int,
                    total_len as int,
                    index as int,
                ),
                forall|i: int|
                    0 <= i < index ==> {
                        &&& #[trigger] ranges@[i].start == fragment_start(
                            self.fragment_size as int,
                            total_len as int,
                            i,
                        )
                        &&& ranges@[i].end == fragment_end(
                            self.fragment_size as int,
                            self.fragment_count as int,
                            total_len as int,
                            i,
                        )
                    },
            decreases self.fragment_count - index,
        {
            proof {
                lemma_next_start(self.fragment_size as int, total_len as int, index as int);
                assert(0 <= index * self.fragment_size) by (nonlinear_arith)
                    requires index >= 0, self.fragment_size >= 0;
            }
            let mut end: usize = start + self.fragment_size;
            if end > total_len || index == self.fragment_count - 1 {
                end = total_len;
            }
            if end < start {
                end = start;
            }
            let ghost prev = ranges@;
            ranges.push(start..end);
            assert(ranges@ == prev.push(start..end));
            assert(ranges@[index as int].start == start);
            assert(ranges@[index as int].end == end);
            start = end;
            index = index + 1;
        }
        ranges
    }
}

/// Chooses packet payload sizes from the target bitrate and past plans.
#[derive(Debug, Clone)]
pub struct AdaptivePacketSizer {
    pub target_bitrate: u64,
    pub min_payload: usize,
    pub max_payload: usize,
    pub current_payload: usize,
}

/// The bandwidth-derived cap of a plan.
pub open spec fn effective_cap_spec(target_bitrate: int, min_payload: int, max_payload: int, cap: int) -> int {
    let per_frame_bits = max_int(max_int(target_bitrate, 1) / 60, min_payload * 8);
    let hint = per_frame_bits / 8;
    let capped = min_int(cap, max_int(hint, min_payload));
    if capped < min_payload {
        min_payload
    } else if capped > max_payload {
        max_payload
    } else {
        capped
    }
}

/// Number of pieces of at most `size` bytes that `len` bytes take (at least one).
pub open spec fn fragment_count_spec(len: int, size: int) -> int {
    if len == 0 {
        1
    } else {
        (len + size - 1) / size
    }
}

impl AdaptivePacketSizer {
    /// The sizer's standing invariant.
    pub open spec fn wf(&self) -> bool {
        &&& self.min_payload == MIN_PACKET_PAYLOAD
        &&& MIN_PACKET_PAYLOAD <= self.max_payload <= MAX_PAYLOAD_LIMIT
        &&& self.min_payload <= self.current_payload <= self.max_payload
    }

    pub open spec fn effective_cap(&self, cap: int) -> int {
        effective_cap_spec(
            self.target_bitrate as int,
            self.min_payload as int,
            self.max_payload as int,
            cap,
        )
    }

    /// Payload that a plan starts from (a key frame pulls it towards the cap).
    pub open spec fn planned_start(&self, is_key: bool, cap: int) -> int {
        if is_key {
            max_int((self.current_payload + self.effective_cap(cap)) / 2, self.min_payload as int)
        } else {
            self.current_payload as int
        }
    }

    /// Fragment size of a plan.
    pub open spec fn planned_size(&self, is_key: bool, cap: int) -> int {
        max_int(
            min_int(self.planned_start(is_key, cap), self.effective_cap(cap)),
            self.min_payload as int,
        )
    }

    /// Payload the sizer keeps for the next plan.
    pub open spec fn next_payload(&self, len: int, is_key: bool, cap: int) -> int {
        let start = self.planned_start(is_key, cap);
        let count = fragment_count_spec(len, self.planned_size(is_key, cap));
        if count > SHRINK_ABOVE_FRAGMENTS {
            max_int(max_int(start - self.min_payload / 2, 0), self.min_payload as int)
        } else {
            min_int(start + max_int((self.min_payload / 4) as int, 1), self.effective_cap(cap))
        }
    }

    /// A sizer for `target_bitrate` whose packets never exceed `max_payload`
    /// once that is clamped to the protocol limits.
    pub fn new(target_bitrate: u64, max_payload: usize) -> (s: Self)
        ensures
            s.wf(),
            s.target_bitrate == target_bitrate,
            s.max_payload as int == (if max_payload < MIN_PACKET_PAYLOAD {
                MIN_PACKET_PAYLOAD as int
            } else if max_payload > MAX_PAYLOAD_LIMIT {
                MAX_PAYLOAD_LIMIT as int
            } else {
                max_payload as int
            }),
            s.current_payload == min_int(
                s.max_payload as int,
                max_int((target_bitrate / 8) as int, MIN_PACKET_PAYLOAD as int),
            ),
    {
        let max_payload = if max_payload < MIN_PACKET_PAYLOAD {
            MIN_PACKET_PAYLOAD
        } else if max_payload > MAX_PAYLOAD_LIMIT {
            MAX_PAYLOAD_LIMIT
        } else {
            max_payload
        };
        let by_rate: u64 = target_bitrate / 8;
        let floor: u64 = if by_rate > MIN_PACKET_PAYLOAD as u64 { by_rate } else { MIN_PACKET_PAYLOAD as u64 };
        let initial: usize = if (max_payload as u64) < floor { max_payload } else { floor as usize };
        AdaptivePacketSizer {
            target_bitrate,
            min_payload: MIN_PACKET_PAYLOAD,
            max_payload,
            current_payload: initial,
        }
    }

    /// Lowers (or raises) the payload ceiling, keeping the current payload under it.
    pub fn update_max_payload(&mut self, max_payload: usize)
        requires
            old(self).wf(),
        ensures
            final(self).wf(),
            final(self).target_bitrate == old(self).target_bitrate,
            final(self).min_payload == old(self).min_payload,
            final(self).max_payload as int == (if max_payload < old(self).min_payload {
                old(self).min_payload as int
            } else if max_payload > MAX_PAYLOAD_LIMIT {
                MAX_PAYLOAD_LIMIT as int
            } else {
                max_payload as int
            }),
            final(self).current_payload == min_int(
                old(self).current_payload as int,
                final(self).max_payload as int,
            ),
    {
        let clamped = if max_payload < self.min_payload {
            self.min_payload
        } else if max_payload > MAX_PAYLOAD_LIMIT {
            MAX_PAYLOAD_LIMIT
        } else {
            max_payload
        };
        self.max_payload = clamped;
        if self.current_payload > clamped {
            self.current_payload = clamped;
        }
    }

    /// The bandwidth-derived cap on the fragment size of the next plan.
    pub fn compute_effective_cap(&self, cap: usize) -> (c: usize)
        requires
            self.wf(),
        ensures
            c == self.effective_cap(cap as int),
            self.min_payload <= c <= self.max_payload,
    {
        let min_payload = self.min_payload;
        let rate: u64 = if self.target_bitrate > 1 { self.target_bitrate } else { 1 };
        let per_rate: u64 = rate / PLANNING_FRAME_RATE;
        let floor_bits: u64 = (min_payload * 8) as u64;
        let per_frame_bits: u64 = if per_rate > floor_bits { per_rate } else { floor_bits };
        let hint: u64 = per_frame_bits / 8;
        let hint_floor: u64 = if hint > min_payload as u64 { hint } else { min_payload as u64 };
        let capped: u64 = if (cap as u64) < hint_floor { cap as u64 } else { hint_floor };
        if capped < min_payload as u64 {
            min_payload
        } else if capped > self.max_payload as u64 {
            self.max_payload
        } else {
            capped as usize
        }
    }

    /// Plans the fragmentation of a `payload_len`-byte frame whose packets
    /// may carry at most `cap` bytes, and adapts the payload for the next frame.
    pub fn plan(&mut self, payload_len: usize, is_key: bool, cap: usize) -> (p: FragmentPlan)
        requires
            old(self).wf(),
        ensures
            final(self).wf(),
            final(self).target_bitrate == old(self).target_bitrate,
            final(self).min_payload == old(self).min_payload,
            final(self).max_payload == old(self).max_payload,
            p.fragment_size == old(self).planned_size(is_key, cap as int),
            p.fragment_count == fragment_count_spec(payload_len as int, p.fragment_size as int),
            final(self).current_payload == old(self).next_payload(payload_len as int, is_key, cap as int),
            MIN_PACKET_PAYLOAD <= p.fragment_size <= old(self).max_payload,
            p.fragment_count >= 1,
    {
        let min_payload = self.min_payload;
        let effective_cap = self.compute_effective_cap(cap);
        if is_key {
            let half = (self.current_payload + effective_cap) / 2;
            self.current_payload = if half > min_payload { half } else { min_payload };
        }
        let smaller = if self.current_payload < effective_cap { self.current_payload } else { effective_cap };
        let fragment_size = if smaller > min_payload { smaller } else { min_payload };
        let fragment_count = ceil_fragments(payload_len, fragment_size);
        if fragment_count > SHRINK_ABOVE_FRAGMENTS {
            let reduced = self.current_payload.saturating_sub(min_payload / 2);
            self.current_payload = if reduced > min_payload { reduced } else { min_payload };
        } else {
            let step = if min_payload / 4 > 1 { min_payload / 4 } else { 1 };
            let grown = self.current_payload + step;
            self.current_payload = if grown < effective_cap { grown } else { effective_cap };
        }
        FragmentPlan { fragment_size, fragment_count }
    }
}

/// `len / size` rounded up, at least one piece for an empty payload.
pub fn ceil_fragments(len: usize, size: usize) -> (n: usize)
    requires
        size > 0,
    ensures
        n == fragment_count_spec(len as int, size as int),
        n >= 1,
{
    if len == 0 {
        return 1;
    }
    let whole = len / size;
    proof {
        lemma_ceil_div(len as int, size as int);
    }
    if len % size != 0 {
        whole + 1
    } else {
        whole
    }
}

proof fn lemma_ceil_div(len: int, size: int)
    requires
        len > 0,
        size > 0,
    ensures
        (len + size - 1) / size == len / size + (if len % size != 0 { 1int } else { 0int }),
        (len + size - 1) / size >= 1,
        len % size != 0 ==> len / size < len,
        len / size <= len,
{
    let q = len / size;
    let r = len % size;
    assert(len == q * size + r && 0 <= r < size) by (nonlinear_arith)
        requires size > 0, q == len / size, r == len % size;
    if r == 0 {
        assert((q * size + size - 1) / size == q) by (nonlinear_arith)
            requires size > 0;
    } else {
        assert((q * size + r + size - 1) / size == q + 1) by (nonlinear_arith)
            requires size > 0, 0 < r < size;
    }
    assert((len + size - 1) / size >= 1) by (nonlinear_arith)
        requires len >= 1, size > 0;
    assert(q <= len) by (nonlinear_arith)
        requires len > 0, size > 0, len == q * size + r, 0 <= r < size;
    if r != 0 {
        assert(q < len) by (nonlinear_arith)
            requires len > 0, size > 1, len == q * size + r, 0 < r < size;
    }
}

/// Whatever the plan, its fragments tile the payload: the first starts at
/// zero, each one starts where the previous ended, the last ends at the end
/// of the payload, and none is longer than the fragment size.
pub proof fn lemma_fragments_tile_payload(size: int, total: int)
    requires
        size >= 1,
        total >= 0,
    ensures
        ({
            let count = fragment_count_spec(total, size);
            &&& count >= 1
            &&& fragment_start(size, total, 0) == 0
            &&& fragment_end(size, count, total, count - 1) == total
            &&& forall|i: int|
                0 <= i < count - 1 ==> #[trigger] fragment_end(size, count, total, i)
                    == fragment_start(size, total, i + 1)
            &&& forall|i: int|
                0 <= i < count ==> {
                    &&& 0 <= #[trigger] fragment_start(size, total, i) <= fragment_end(size, count, total, i) <= total
                    &&& fragment_end(size, count, total, i) - fragment_start(size, total, i) <= size
                }
        }),
{
    let count = fragment_count_spec(total, size);
    if total > 0 {
        lemma_ceil_div(total, size);
        assert((count - 1) * size < total && total <= count * size) by (nonlinear_arith)
            requires
                size >= 1,
                total > 0,
                count == (total + size - 1) / size,
        ;
    }
    assert(count >= 1);
    assert forall|i: int| 0 <= i < count - 1 implies #[trigger] fragment_end(size, count, total, i)
        == fragment_start(size, total, i + 1) by {
        lemma_next_start(size, total, i);
    }
    assert forall|i: int| 0 <= i < count implies {
        &&& 0 <= #[trigger] fragment_start(size, total, i) <= fragment_end(size, count, total, i) <= total
        &&& fragment_end(size, count, total, i) - fragment_start(size, total, i) <= size
    } by {
        lemma_next_start(size, total, i);
        assert(0 <= i * size) by (nonlinear_arith) requires i >= 0, size >= 1;
        if i == count - 1 && total > 0 {
            assert(i * size >= total - size) by (nonlinear_arith)
                requires i == count - 1, total <= count * size, size >= 1;
        }
    }
}

} // verus!
