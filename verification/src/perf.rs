//! The deterministic parts of the performance harness: its random number
//! generator, seed derivation and table formatting.
use vstd::prelude::*;
use vstd::string::StringSliceAdditionalSpecFns;
use crate::error::AppError;

verus! {

/// Why a simulated frame was dropped.
#[derive(Debug, Clone, Copy, PartialEq, Eq, Structural)]
pub enum DropReason {
    LatencyBudget,
    PacketLoss,
    QueueOverflow,
}

/// The seed of a benchmark run unless one is given.
pub fn default_seed() -> (s: u64)
    ensures
        s == 0xC0DEC0DE,
{
    0xC0DEC0DE
}

/// The length of a simulated scenario, in seconds, unless one is given.
pub fn default_duration() -> (d: u64)
    ensures
        d == 60,
{
    60
}

/// A 64-bit linear congruential generator.
#[derive(Clone, Debug)]
pub struct Rng64 {
    state: u64,
}

pub open spec fn lcg_step(state: u64) -> u64 {
    ((state as int * 6364136223846793005 + 1442695040888963407) % 0x1_0000_0000_0000_0000) as u64
}

/// The state that a seed gives a generator: a fixed constant in place of zero.
pub open spec fn seeded_state(seed: u64) -> u64 {
    if seed == 0 { 0x0123_4567_89AB_CDEFu64 } else { seed }
}

/// The values that `next_bits` gives, one after another, `n` of them, from
/// a generator in state `state`.
pub open spec fn bits_from(state: u64, n: nat) -> Seq<u64>
    decreases n,
{
    if n == 0 {
        Seq::empty()
    } else {
        seq![lcg_step(state) >> 11u64] + bits_from(lcg_step(state), (n - 1) as nat)
    }
}

/// Draws replay: the values drawn from a generator are fixed by its state
/// alone, so two generators in the same state draw the same values, one
/// made from a seed draws `bits_from(seeded_state(seed), n)` on every run,
/// and one made from a zero seed draws exactly what one made from the fixed
/// constant draws.
pub proof fn lemma_draws_replay(a: Rng64, b: Rng64, seed: u64, n: nat)
    ensures
        a.state_spec() == b.state_spec() ==> bits_from(a.state_spec(), n) == bits_from(b.state_spec(), n),
        bits_from(seeded_state(seed), n).len() == n,
        seed == 0 ==> bits_from(seeded_state(seed), n) == bits_from(seeded_state(0x0123_4567_89AB_CDEF), n),
{
    lemma_bits_len(seeded_state(seed), n);
}

proof fn lemma_bits_len(state: u64, n: nat)
    ensures
        bits_from(state, n).len() == n,
    decreases n,
{
    if n > 0 {
        lemma_bits_len(lcg_step(state), (n - 1) as nat);
    }
}

impl Rng64 {
    pub closed spec fn state_spec(&self) -> u64 {
        self.state
    }

    /// A generator seeded with `seed` (a fixed constant in place of zero).
    pub fn new(seed: u64) -> (r: Self)
        ensures
            r.state_spec() == seeded_state(seed),
    {
        let init = if seed == 0 { 0x0123_4567_89AB_CDEF } else { seed };
        Rng64 { state: init }
    }

    /// Advances the generator and returns the top 53 bits of the new state,
    /// from which a uniform sample in [0, 1) is made.
    pub fn next_bits(&mut self) -> (bits: u64)
        ensures
            final(self).state_spec() == lcg_step(old(self).state_spec()),
            bits == final(self).state_spec() >> 11u64,
            bits == bits_from(old(self).state_spec(), 1)[0],
    {
        self.state = self.state.wrapping_mul(6364136223846793005).wrapping_add(1442695040888963407);
        proof {
            let s = old(self).state_spec();
            assert(((s as int * 6364136223846793005) % 0x1_0000_0000_0000_0000 + 1442695040888963407)
                % 0x1_0000_0000_0000_0000 == (s as int * 6364136223846793005 + 1442695040888963407)
                % 0x1_0000_0000_0000_0000) by (nonlinear_arith);
        }
        self.state >> 11
    }
}

/// The seed of one scenario at one stress level: the run's seed mixed with
/// the stress index and the bytes of both names.
pub open spec fn mix_bytes(hash: u64, bytes: Seq<u8>, factor: u64) -> u64
    decreases bytes.len(),
{
    if bytes.len() == 0 {
        hash
    } else {
        let h = mix_bytes(hash, bytes.drop_last(), factor);
        ((h as int * factor as int + bytes.last() as int) % 0x1_0000_0000_0000_0000) as u64
    }
}

pub open spec fn derive_seed_spec(base: u64, name: Seq<u8>, stress: Seq<u8>, index: u64) -> u64 {
    let start = base ^ (((index as int * 0x9E37_79B9) % 0x1_0000_0000_0000_0000) as u64);
    mix_bytes(mix_bytes(start, name, 0xC2B2_AE35), stress, 0x1656_67B1)
}

fn mix(hash: u64, bytes: &[u8], factor: u64) -> (h: u64)
    ensures
        h == mix_bytes(hash, bytes@, factor),
{
    let mut h = hash;
    let mut i: usize = 0;
    while i < bytes.len()
        invariant
            i <= bytes@.len(),
            h == mix_bytes(hash, bytes@.take(i as int), factor),
        decreases bytes@.len() - i,
    {
        proof {
            assert(bytes@.take(i + 1).drop_last() =~= bytes@.take(i as int));
            assert(((h as int * factor as int) % 0x1_0000_0000_0000_0000 + bytes@[i as int] as int)
                % 0x1_0000_0000_0000_0000 == (h as int * factor as int + bytes@[i as int] as int)
                % 0x1_0000_0000_0000_0000) by (nonlinear_arith);
        }
        h = h.wrapping_mul(factor).wrapping_add(bytes[i] as u64);
        i = i + 1;
    }
    assert(bytes@.take(bytes@.len() as int) =~= bytes@);
    h
}

/// The seed of a scenario at a stress level.
pub fn derive_seed(base: u64, name: &str, stress: &str, index: u64) -> (s: u64)
    ensures
        s == derive_seed_spec(base, name.spec_bytes(), stress.spec_bytes(), index),
{
    let start = base ^ index.wrapping_mul(0x9E37_79B9);
    let h = mix(start, name.as_bytes(), 0xC2B2_AE35);
    mix(h, stress.as_bytes(), 0x1656_67B1)
}

/// `count` ellipses.
pub open spec fn ellipses(count: nat) -> Seq<char>
    decreases count,
{
    if count == 0 { Seq::empty() } else { ellipses((count - 1) as nat).push('…') }
}

/// A table cell of at most `width` bytes' worth: the text itself when its
/// UTF-8 form fits, else its first `width - 1` characters and an ellipsis
/// (only ellipses for a width of three or less).
pub open spec fn truncate_spec(value: &str, width: usize) -> Seq<char> {
    if value.spec_bytes().len() <= width {
        value@
    } else if width <= 3 {
        ellipses(width as nat)
    } else {
        let keep = if value@.len() < width - 1 { value@.len() as int } else { width - 1 };
        value@.subrange(0, keep).push('…')
    }
}

pub fn truncate(value: &str, width: usize) -> (s: String)
    requires
        value.spec_bytes().len() <= usize::MAX,
    ensures
        s@ == truncate_spec(value, width),
{
    proof {
        reveal_strlit("…");
    }
    assert("…"@ =~= seq!['…']);
    if value.len() <= width {
        String::from_str(value)
    } else if width <= 3 {
        let mut out = String::new();
        let mut i: usize = 0;
        while i < width
            invariant
                i <= width,
                "…"@ == seq!['…'],
                out@ == ellipses(i as nat),
            decreases width - i,
        {
            out.append("…");
            i = i + 1;
        }
        out
    } else {
        let chars = value.unicode_len();
        let keep = if chars < width - 1 { chars } else { width - 1 };
        let head = value.substring_char(0, keep);
        let out = String::from_str(head).concat("…");
        assert(out@ =~= value@.subrange(0, keep as int).push('…'));
        out
    }
}

/// The message for a scenario that does not say how many frames a second it runs at.
pub open spec fn fps_message(name: Seq<char>) -> Seq<char> {
    "scenario '"@ + name + "' must declare fps > 0"@
}

/// The message for a scenario without a positive resolution.
pub open spec fn resolution_message(name: Seq<char>) -> Seq<char> {
    "scenario '"@ + name + "' must declare a positive resolution"@
}

/// Checks the integer settings of a scenario and fills in its duration:
/// a frame rate and a resolution are owed; a duration of zero becomes the
/// default one.
pub fn check_scenario(name: &str, width: u32, height: u32, fps: u32, duration_secs: u64) -> (r: Result<u64, AppError>)
    ensures
        match r {
            Ok(d) => fps > 0 && width > 0 && height > 0 && d == if duration_secs == 0 { 60 } else { duration_secs },
            Err(AppError::Message(m)) => if fps == 0 {
                m@ == fps_message(name@)
            } else {
                (width == 0 || height == 0) && m@ == resolution_message(name@)
            },
            Err(_) => false,
        },
{
    if fps == 0 {
        let m = String::from_str("scenario '").concat(name).concat("' must declare fps > 0");
        return Err(AppError::Message(m));
    }
    if width == 0 || height == 0 {
        let m = String::from_str("scenario '").concat(name).concat("' must declare a positive resolution");
        return Err(AppError::Message(m));
    }
    if duration_secs == 0 {
        Ok(default_duration())
    } else {
        Ok(duration_secs)
    }
}

} // verus!
