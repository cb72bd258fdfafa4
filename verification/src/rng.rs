//! The source of random bytes behind the random-number instruction.
//!
//! The interpreter takes its bytes from any [`RandomSource`]. Two are here:
//! [`RngWrapper`], which asks the `rand` crate for the generator of the
//! current thread, and [`SeededRng`], which is computed here and repeats
//! itself from run to run.

use vstd::prelude::*;

verus! {

/// A source of bytes.
pub trait RandomSource {
    /// What this kind of source promises of the `byte` it gives out and of
    /// itself `after` that. A source that says nothing here promises
    /// nothing.
    open spec fn yields(&self, after: &Self, byte: u8) -> bool {
        true
    }

    /// The next byte.
    fn next_byte(&mut self) -> (byte: u8)
        ensures
            old(self).yields(final(self), byte),
    ;
}

/// `rand::rngs::ThreadRng`, the handle to the generator of the current
/// thread. It is carried around and handed back to `rand`; nothing is known
/// of what it holds.
#[verifier::external_type_specification]
#[verifier::external_body]
pub struct ExThreadRng(rand::rngs::ThreadRng);

/// The generator of the current thread, seeded by the operating system.
pub struct RngWrapper {
    generator: rand::rngs::ThreadRng,
}

impl RngWrapper {
    /// Calls `rand::thread_rng`, which hands out the generator of the
    /// current thread and sets it up from the operating system's generator
    /// on first use; `rand` panics if that one fails. Nothing is claimed of
    /// the handle.
    #[verifier::external_body]
    pub(crate) fn new() -> Self {
        Self { generator: rand::thread_rng() }
    }

    /// Calls `rand::Rng::gen` for a `u8`, which takes the low byte of the
    /// generator's next 32 bits; `rand` panics if the operating system's
    /// generator fails when the thread's generator is seeded anew. The byte
    /// is random: nothing is claimed of it.
    #[verifier::external_body]
    pub(crate) fn generate_random_byte(&mut self) -> u8 {
        rand::Rng::gen(&mut self.generator)
    }
}

impl RandomSource for RngWrapper {
    fn next_byte(&mut self) -> (byte: u8) {
        self.generate_random_byte()
    }
}

/// Multiplier of the seeded generator.
pub const SEEDED_MULTIPLIER: u64 = 6364136303846793005;

/// Increment of the seeded generator.
pub const SEEDED_INCREMENT: u64 = 1442695040888963407;

/// The state that follows `state` in the seeded generator: a linear
/// congruential step modulo two to the 64.
pub open spec fn seeded_step(state: u64) -> u64 {
    ((state as int * SEEDED_MULTIPLIER as int + SEEDED_INCREMENT as int)
        % 0x1_0000_0000_0000_0000) as u64
}

/// The byte that the seeded generator gives out in `state`: its top eight
/// bits.
pub open spec fn seeded_output(state: u64) -> u8 {
    (state as int / 0x100_0000_0000_0000) as u8
}

/// A generator that repeats itself: the same seed gives the same bytes, in
/// every run. For tests and for replaying a program.
pub struct SeededRng {
    state: u64,
}

impl View for SeededRng {
    type V = u64;

    /// The state the next byte is derived from.
    closed spec fn view(&self) -> u64 {
        self.state
    }
}

impl SeededRng {
    /// A generator that starts from `seed`.
    pub fn new(seed: u64) -> (rng: Self)
        ensures
            rng@ == seed,
    {
        SeededRng { state: seed }
    }
}

impl RandomSource for SeededRng {
    /// The generator moves one step on, and the byte is the output of the
    /// state it reaches.
    open spec fn yields(&self, after: &Self, byte: u8) -> bool {
        after@ == seeded_step(self@) && byte == seeded_output(after@)
    }

    fn next_byte(&mut self) -> (byte: u8) {
        let product = self.state.wrapping_mul(SEEDED_MULTIPLIER);
        let next = product.wrapping_add(SEEDED_INCREMENT);
        proof {
            lemma_seeded_step(self.state, product, next);
        }
        self.state = next;
        let top = next >> 56;
        assert(next >> 56 == next / 0x100_0000_0000_0000 && (next >> 56) < 256) by (bit_vector);
        top as u8
    }
}

/// A wrapping multiplication followed by a wrapping addition is one step
/// modulo two to the 64.
proof fn lemma_seeded_step(state: u64, product: u64, next: u64)
    requires
        product == vstd::wrapping::u64_specs::wrapping_mul(state, SEEDED_MULTIPLIER),
        next == vstd::wrapping::u64_specs::wrapping_add(product, SEEDED_INCREMENT),
    ensures
        next == seeded_step(state),
{
    let modulus = 0x1_0000_0000_0000_0000int;
    let full = state as int * SEEDED_MULTIPLIER as int;
    assert(0 <= full) by (nonlinear_arith)
        requires
            full == state as int * SEEDED_MULTIPLIER as int,
    ;
    assert(product == full % modulus);
    vstd::arithmetic::div_mod::lemma_add_mod_noop(full, SEEDED_INCREMENT as int, modulus);
    vstd::arithmetic::div_mod::lemma_small_mod(SEEDED_INCREMENT as nat, modulus as nat);
    vstd::arithmetic::div_mod::lemma_small_mod(product as nat, modulus as nat);
}

} // verus!
