//! The tick counter: a free-running unsigned counter that wraps silently at
//! two to the power of its bit width.

use vstd::prelude::*;
use vstd::arithmetic::div_mod::{
    lemma_fundamental_div_mod,
    lemma_fundamental_div_mod_converse_mod,
    lemma_mod_bound,
    lemma_mod_mod,
    lemma_mod_multiples_vanish,
    lemma_small_mod,
};
use vstd::arithmetic::power2::{lemma2_to64, lemma_pow2_adds, lemma_pow2_pos, lemma_pow2_unfold, pow2};

verus! {

/// Narrowest counter that can be described.
pub const MIN_COUNTER_BITS: u32 = 1;

/// Widest counter whose raw value fits the reading type.
pub const MAX_COUNTER_BITS: u32 = 32;

/// The number of prescaled ticks between two raw readings of a counter that
/// wraps at `2^bits`: the difference taken modulo `2^bits`.
pub open spec fn wrapping_delta(previous: int, current: int, bits: nat) -> int {
    (current - previous) % (pow2(bits) as int)
}

/// The bit width of a tick counter register.
///
/// The view is the number of bits; the counter wraps at `2^bits`.
#[derive(Clone, Copy, Debug)]
pub struct CounterWidth {
    bits: u32,
    modulus: u64,
}

impl View for CounterWidth {
    type V = nat;

    closed spec fn view(&self) -> nat {
        self.bits as nat
    }
}

impl CounterWidth {
    #[verifier::type_invariant]
    spec fn well_formed(self) -> bool {
        &&& MIN_COUNTER_BITS <= self.bits <= MAX_COUNTER_BITS
        &&& self.modulus == pow2(self.bits as nat)
    }

    /// A width of `bits` bits, for every width from `MIN_COUNTER_BITS` to
    /// `MAX_COUNTER_BITS`; nothing outside that range.
    pub fn new(bits: u32) -> (width: Option<CounterWidth>)
        ensures
            width is Some <==> MIN_COUNTER_BITS <= bits <= MAX_COUNTER_BITS,
            width matches Some(w) ==> w@ == bits,
    {
        if bits < MIN_COUNTER_BITS || bits > MAX_COUNTER_BITS {
            return None;
        }
        let mut modulus: u64 = 1;
        let mut done: u32 = 0;
        proof {
            lemma2_to64();
        }
        while done < bits
            invariant
                done <= bits <= MAX_COUNTER_BITS,
                modulus == pow2(done as nat),
                pow2(31) == 0x8000_0000,
            decreases bits - done,
        {
            proof {
                lemma_pow2_unfold((done + 1) as nat);
                lemma_pow2_bounded(done as nat, 31);
            }
            modulus = modulus * 2;
            done = done + 1;
        }
        Some(CounterWidth { bits, modulus })
    }

    /// The number of bits.
    pub fn bits(&self) -> (bits: u32)
        ensures
            bits == self@,
            MIN_COUNTER_BITS <= bits <= MAX_COUNTER_BITS,
    {
        proof {
            use_type_invariant(self);
        }
        self.bits
    }

    /// The number of distinct raw values, `2^bits`.
    pub fn modulus(&self) -> (modulus: u64)
        ensures
            modulus == pow2(self@),
            2 <= modulus <= 0x1_0000_0000,
    {
        proof {
            use_type_invariant(self);
            lemma2_to64();
            lemma_pow2_bounded(1, self.bits as nat);
            lemma_pow2_bounded(self.bits as nat, 32);
        }
        self.modulus
    }

    /// The largest raw value, `2^bits - 1`: the value after which the counter
    /// wraps to zero, and so the reload value that lets it count to its end.
    pub fn max_count(&self) -> (max: u32)
        ensures
            max == pow2(self@) - 1,
    {
        let modulus: u64 = self.modulus();
        (modulus - 1) as u32
    }

    /// The wrap-aware difference `current - previous` modulo `2^bits`.
    ///
    /// Bits of a reading above the counter's width do not matter.
    pub fn delta(&self, previous: u32, current: u32) -> (delta: u32)
        ensures
            delta == wrapping_delta(previous as int, current as int, self@),
            delta < pow2(self@),
    {
        let modulus: u64 = self.modulus();
        let raw: u32 = current.wrapping_sub(previous);
        let reduced: u64 = (raw as u64) % modulus;
        proof {
            use_type_invariant(self);
            let difference: int = current as int - previous as int;
            let full: int = 0x1_0000_0000;
            let rest: nat = (32 - self.bits) as nat;
            lemma2_to64();
            lemma_pow2_pos(rest);
            lemma_pow2_adds(self.bits as nat, rest);
            assert(raw as int == difference % full) by {
                if difference < 0 {
                    lemma_fundamental_div_mod_converse_mod(difference, full, -1, difference + full);
                } else {
                    lemma_small_mod(difference as nat, full as nat);
                }
            }
            assert(modulus as int * pow2(rest) as int == full);
            lemma_mod_mod(difference, modulus as int, pow2(rest) as int);
            lemma_mod_bound(difference, modulus as int);
        }
        reduced as u32
    }
}

/// Whatever the two readings are, the delta is never negative and always
/// below `2^bits`.
pub proof fn lemma_delta_in_range(previous: int, current: int, bits: nat)
    ensures
        0 <= wrapping_delta(previous, current, bits) < pow2(bits),
{
    lemma_pow2_pos(bits);
    lemma_mod_bound(current - previous, pow2(bits) as int);
}

/// A counter that stood at its largest value and has since wrapped to zero
/// has advanced by exactly one tick.
pub proof fn lemma_delta_across_wrap(bits: nat)
    requires
        bits >= 1,
    ensures
        wrapping_delta(pow2(bits) - 1, 0, bits) == 1,
{
    let modulus: int = pow2(bits) as int;
    lemma_pow2_bounded(1, bits);
    lemma2_to64();
    lemma_fundamental_div_mod_converse_mod(1 - modulus, modulus, -1, 1);
}

/// A counter that has advanced by `advance` ticks since the previous reading,
/// wrapping any number of times on the way, yields `advance` modulo `2^bits`.
/// Advances that differ by a multiple of `2^bits` cannot be told apart.
pub proof fn lemma_delta_of_advance(previous: int, advance: int, bits: nat)
    ensures
        ({
            let modulus = pow2(bits) as int;
            wrapping_delta(previous, (previous + advance) % modulus, bits) == advance % modulus
        }),
{
    let modulus: int = pow2(bits) as int;
    let wraps: int = (previous + advance) / modulus;
    lemma_pow2_pos(bits);
    lemma_fundamental_div_mod(previous + advance, modulus);
    assert((previous + advance) % modulus - previous == modulus * (-wraps) + advance) by {
        assert(modulus * (-wraps) == -(modulus * wraps)) by (nonlinear_arith);
    }
    lemma_mod_multiples_vanish(-wraps, advance, modulus);
}

/// As long as fewer than `2^bits` ticks pass between two readings, the delta
/// is the true number of ticks, wherever in its range the counter stood.
pub proof fn lemma_delta_recovers_advance(previous: int, advance: int, bits: nat)
    requires
        0 <= advance < pow2(bits),
    ensures
        wrapping_delta(previous, (previous + advance) % (pow2(bits) as int), bits) == advance,
{
    lemma_delta_of_advance(previous, advance, bits);
    lemma_small_mod(advance as nat, pow2(bits));
}

/// Powers of two do not decrease as the exponent grows.
proof fn lemma_pow2_bounded(low: nat, high: nat)
    requires
        low <= high,
    ensures
        pow2(low) <= pow2(high),
    decreases high - low,
{
    if low < high {
        lemma_pow2_bounded(low, (high - 1) as nat);
        lemma_pow2_unfold(high);
    }
}

} // verus!
