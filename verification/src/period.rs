use crate::leaps::{is_factor, lemma_no_early_return, lemma_returns};
use crate::rand::{lemma_nth_adds, lemma_xorshift_nth_nonzero, xorshift_nth};
use vstd::arithmetic::div_mod::*;
use vstd::prelude::*;

verus! {

/// The number of states that are not zero: 2^32 - 1.
pub const PERIOD: u32 = 0xFFFF_FFFF;

/// A state that is back after `rounds` rounds is back after every multiple of
/// them.
proof fn lemma_back_after_multiple(state: u32, rounds: nat, times: nat)
    requires
        xorshift_nth(state, rounds) == state,
    ensures
        xorshift_nth(state, times * rounds) == state,
    decreases times,
{
    if times > 0 {
        lemma_back_after_multiple(state, rounds, (times - 1) as nat);
        assert(times * rounds == (times - 1) * rounds + rounds) by (nonlinear_arith)
            requires
                times > 0,
        ;
        lemma_nth_adds(state, ((times - 1) * rounds) as nat, rounds);
    }
}

/// A state that is back after `a` rounds and after `b` rounds is back after a
/// common divisor of the two.
proof fn lemma_back_after_divisor(state: u32, a: nat, b: nat) -> (g: nat)
    requires
        xorshift_nth(state, a) == state,
        xorshift_nth(state, b) == state,
        b > 0,
    ensures
        0 < g <= b,
        a % g == 0,
        b % g == 0,
        xorshift_nth(state, g) == state,
    decreases b,
{
    let q = a / b;
    let r = a % b;
    lemma_fundamental_div_mod(a as int, b as int);
    assert(a == q * b + r) by (nonlinear_arith)
        requires
            a == b * q + r,
    ;
    lemma_back_after_multiple(state, b, q);
    lemma_nth_adds(state, q * b, r);
    if r == 0 {
        lemma_mod_self_0(b as int);
        b
    } else {
        let g = lemma_back_after_divisor(state, b, r);
        lemma_fundamental_div_mod(b as int, g as int);
        lemma_fundamental_div_mod(r as int, g as int);
        let x = b / g;
        let y = r / g;
        assert(a == (q * x + y) * g) by (nonlinear_arith)
            requires
                a == q * b + r,
                b == g * x,
                r == g * y,
        ;
        lemma_mod_multiples_basic((q * x + y) as int, g as int);
        g
    }
}

/// A divisor of 2^32 - 1 other than 1 has one of its five primes as a factor.
#[verifier::rlimit(100)]
proof fn lemma_factors(g: u32, c: u32)
    by (bit_vector)
    requires
        (g as u64) * (c as u64) == 0xFFFF_FFFFu64,
        c != 1,
    ensures
        c % 3 == 0 || c % 5 == 0 || c % 17 == 0 || c % 257 == 0 || c % 65537 == 0,
{
}

/// After 2^32 - 1 rounds every state is back where it was.
pub proof fn lemma_period_returns(state: u32)
    ensures
        xorshift_nth(state, PERIOD as nat) == state,
{
    lemma_returns(state);
}

/// A state that is not zero is not back before 2^32 - 1 rounds are over.
pub proof fn lemma_no_short_cycle(state: u32, rounds: nat)
    requires
        state != 0,
        0 < rounds < PERIOD,
    ensures
        xorshift_nth(state, rounds) != state,
{
    if xorshift_nth(state, rounds) == state {
        lemma_returns(state);
        let g = lemma_back_after_divisor(state, PERIOD as nat, rounds);
        let c = PERIOD as nat / g;
        lemma_fundamental_div_mod(PERIOD as int, g as int);
        assert(g * c == PERIOD);
        assert(1 < c <= PERIOD) by (nonlinear_arith)
            requires
                g * c == PERIOD,
                0 < g < PERIOD,
        ;
        lemma_factors(g as u32, c as u32);
        let p: u32 = if c % 3 == 0 {
            3
        } else if c % 5 == 0 {
            5
        } else if c % 17 == 0 {
            17
        } else if c % 257 == 0 {
            257
        } else {
            65537
        };
        assert(is_factor(p));
        let d = c / (p as nat);
        lemma_fundamental_div_mod(c as int, p as int);
        assert(PERIOD == p * (d * g)) by (nonlinear_arith)
            requires
                g * c == PERIOD,
                c == p * d,
        ;
        assert(PERIOD / p == d * g);
        lemma_back_after_multiple(state, g, d);
        lemma_no_early_return(p, state);
    }
}

/// From a seed that is not zero, the first 2^32 - 1 states are all different:
/// the generator visits every state but zero before one comes again.
pub proof fn lemma_full_period(seed: u32, i: nat, j: nat)
    requires
        seed != 0,
        i < j < PERIOD,
    ensures
        xorshift_nth(seed, i) != xorshift_nth(seed, j),
        xorshift_nth(seed, PERIOD as nat) == seed,
{
    lemma_returns(seed);
    lemma_xorshift_nth_nonzero(seed, i);
    lemma_nth_adds(seed, i, (j - i) as nat);
    lemma_no_short_cycle(xorshift_nth(seed, i), (j - i) as nat);
}

} // verus!
