//! A xorshift generator with a fixed seed. Every generator starts from the
//! same state, so the sequence of outputs is the same in every run.

use vstd::prelude::*;

verus! {

/// The four words of state of a xorshift generator.
pub struct GeneratorState {
    pub x: u32,
    pub y: u32,
    pub z: u32,
    pub w: u32,
}

impl GeneratorState {
    /// The state every fresh generator starts from.
    pub open spec fn seed() -> GeneratorState {
        GeneratorState { x: 123456789, y: 362436069, z: 521288629, w: 88675123 }
    }

    /// The word that one step mixes out of the state.
    pub open spec fn mixed(self) -> u32 {
        let t: u32 = self.x ^ (self.x << 11u32);
        self.w ^ (self.w >> 19u32) ^ (t ^ (t >> 8u32))
    }

    /// The state after one step: the words shift down by one place and the
    /// mixed word enters at the end.
    pub open spec fn step(self) -> GeneratorState {
        GeneratorState { x: self.y, y: self.z, z: self.w, w: self.mixed() }
    }

    /// The state after `n` steps.
    pub open spec fn advance(self, n: nat) -> GeneratorState
        decreases n,
    {
        if n == 0 {
            self
        } else {
            self.advance((n - 1) as nat).step()
        }
    }
}

/// The word that a fresh generator returns from its call number `n`, counted
/// from zero.
pub open spec fn nth_output(n: nat) -> u32 {
    GeneratorState::seed().advance(n).mixed()
}

/// A xorshift generator. Its view is the state that the next step starts
/// from.
pub struct XORShift {
    x: u32,
    y: u32,
    z: u32,
    w: u32,
}

impl View for XORShift {
    type V = GeneratorState;

    closed spec fn view(&self) -> GeneratorState {
        GeneratorState { x: self.x, y: self.y, z: self.z, w: self.w }
    }
}

impl XORShift {
    /// A generator in the seed state.
    pub fn new() -> (rng: XORShift)
        ensures
            rng@ == GeneratorState::seed(),
    {
        XORShift { x: 123456789, y: 362436069, z: 521288629, w: 88675123 }
    }

    /// Advances the generator by one step and returns the word that the step
    /// produced.
    pub fn next(&mut self) -> (out: u32)
        ensures
            final(self)@ == old(self)@.step(),
            out == old(self)@.mixed(),
    {
        let t: u32 = self.x ^ (self.x << 11);
        self.x = self.y;
        self.y = self.z;
        self.z = self.w;
        self.w = self.w ^ (self.w >> 19) ^ (t ^ (t >> 8));
        self.w
    }
}

/// Generators in the same state stay in step: after any number of calls
/// they are in the same state again and return the same word next.
pub proof fn lemma_equal_states_agree(first: GeneratorState, second: GeneratorState, calls: nat)
    requires
        first == second,
    ensures
        first.advance(calls) == second.advance(calls),
        first.advance(calls).mixed() == second.advance(calls).mixed(),
{
}

/// One call after `calls` calls leaves a generator where `calls + 1` calls
/// leave it.
pub proof fn lemma_advance_by_one(state: GeneratorState, calls: nat)
    ensures
        state.advance(calls).step() == state.advance(calls + 1),
{
}

} // verus!
