use std::ops::Range;
use vstd::prelude::*;

verus! {

/// One round of the 32-bit xorshift transform: shift left by 13, right by 17,
/// left by 5, each folded back into the word with XOR.
pub open spec fn xorshift(x: u32) -> u32 {
    let a = x ^ (x << 13);
    let b = a ^ (a >> 17);
    b ^ (b << 5)
}

/// The state that `rounds` rounds of the transform lead to from `state`.
pub open spec fn xorshift_nth(state: u32, rounds: nat) -> u32
    decreases rounds,
{
    if rounds == 0 {
        state
    } else {
        xorshift(xorshift_nth(state, (rounds - 1) as nat))
    }
}

/// The value that a draw from `[lo, hi)` yields in the state `state`.
pub open spec fn draw(state: u32, lo: u32, hi: u32) -> int {
    lo + xorshift(state) % ((hi - lo) as u32)
}

/// A xorshift generator. Its state word is never zero: zero is a fixed point
/// of the transform.
pub struct XorShift {
    state: u32,
}

impl XorShift {
    /// The state word.
    pub closed spec fn state(&self) -> u32 {
        self.state
    }

    /// The state word is not zero.
    pub open spec fn wf(&self) -> bool {
        self.state() != 0
    }

    /// A generator that starts from `seed`, or nothing where the seed is zero.
    pub fn new(seed: u32) -> (made: Option<Self>)
        ensures
            seed == 0 <==> made is None,
            made matches Some(rng) ==> rng.state() == seed && rng.wf(),
    {
        if seed == 0 {
            None
        } else {
            Some(XorShift { state: seed })
        }
    }

    /// Advances the generator by one round and returns the new state word.
    pub fn rand(&mut self) -> (word: u32)
        requires
            old(self).wf(),
        ensures
            word == xorshift(old(self).state()),
            final(self).state() == word,
            final(self).wf(),
    {
        let mut x = self.state;
        proof {
            lemma_xorshift_nonzero(x);
        }
        x ^= x << 13;
        x ^= x >> 17;
        x ^= x << 5;
        self.state = x;
        x
    }

    /// Draws one value from the half-open range `range`.
    pub fn rand_range(&mut self, range: Range<u32>) -> (value: u32)
        requires
            old(self).wf(),
            range.start < range.end,
        ensures
            value == draw(old(self).state(), range.start, range.end),
            range.start <= value < range.end,
            final(self).state() == xorshift(old(self).state()),
            final(self).wf(),
    {
        let rand = self.rand() % (range.end - range.start);
        range.start + rand
    }
}

/// The transform never reaches zero from a state that is not zero.
pub proof fn lemma_xorshift_nonzero(x: u32)
    requires
        x != 0,
    ensures
        xorshift(x) != 0,
{
    assert(x != 0 ==> xorshift(x) != 0) by (bit_vector);
}

/// The transform sends different states to different states.
pub proof fn lemma_xorshift_injective(x: u32, y: u32)
    requires
        x != y,
    ensures
        xorshift(x) != xorshift(y),
{
    assert(xorshift(x) == xorshift(y) ==> x == y) by (bit_vector);
}

/// No number of rounds leads to zero from a state that is not zero.
pub proof fn lemma_xorshift_nth_nonzero(state: u32, rounds: nat)
    requires
        state != 0,
    ensures
        xorshift_nth(state, rounds) != 0,
    decreases rounds,
{
    if rounds > 0 {
        lemma_xorshift_nth_nonzero(state, (rounds - 1) as nat);
        lemma_xorshift_nonzero(xorshift_nth(state, (rounds - 1) as nat));
    }
}

/// Rounds add up: `more` rounds after `rounds` rounds are `rounds + more` rounds.
pub proof fn lemma_nth_adds(state: u32, rounds: nat, more: nat)
    ensures
        xorshift_nth(xorshift_nth(state, rounds), more) == xorshift_nth(state, rounds + more),
    decreases more,
{
    if more > 0 {
        lemma_nth_adds(state, rounds, (more - 1) as nat);
    }
}

} // verus!
