use vstd::prelude::*;

verus! {

/// Whether `f` respects XOR: it is a linear map of the 32-bit words, taken as
/// vectors of bits.
pub open spec fn linear(f: spec_fn(u32) -> u32) -> bool {
    forall|a: u32, b: u32| #[trigger] f(a ^ b) == f(a) ^ f(b)
}

/// The bits of `x` below the place `k`.
pub open spec fn below(x: u32, k: u32) -> u32 {
    if k >= 32 {
        x
    } else {
        x & !(0xFFFF_FFFFu32 << k)
    }
}

/// What XOR does with equal words, with zero, and with two pairs.
pub(crate) proof fn lemma_xor_laws(a: u32, b: u32, c: u32, d: u32)
    by (bit_vector)
    ensures
        a ^ a == 0,
        a ^ 0 == a,
        0 ^ a == a,
        (a ^ b) ^ (c ^ d) == (a ^ c) ^ (b ^ d),
        a ^ b == 0 ==> a == b,
{
}

/// The bits below a place, one place further up.
proof fn lemma_below_step(x: u32, k: u32)
    by (bit_vector)
    requires
        k < 32,
    ensures
        x & !(0xFFFF_FFFFu32 << 0) == 0,
        x & (1u32 << k) == 0 || x & (1u32 << k) == 1u32 << k,
        k < 31 ==> x & !(0xFFFF_FFFFu32 << ((k + 1) as u32)) == (x & !(0xFFFF_FFFFu32 << k)) ^ (x
            & (1u32 << k)),
        k == 31 ==> x == (x & !(0xFFFF_FFFFu32 << k)) ^ (x & (1u32 << k)),
{
}

/// A linear map sends zero to zero.
pub(crate) proof fn lemma_linear_zero(f: spec_fn(u32) -> u32)
    requires
        linear(f),
    ensures
        f(0) == 0,
{
    lemma_xor_laws(0, 0, 0, 0);
    lemma_xor_laws(f(0), 0, 0, 0);
    assert(f(0u32 ^ 0u32) == f(0) ^ f(0));
}

/// Two linear maps that agree on the words of one bit agree on the bits below
/// any place.
proof fn lemma_agree_below(f: spec_fn(u32) -> u32, g: spec_fn(u32) -> u32, x: u32, k: u32)
    requires
        linear(f),
        linear(g),
        k <= 32,
        forall|i: u32| i < 32 ==> f(1u32 << i) == g(1u32 << i),
    ensures
        f(below(x, k)) == g(below(x, k)),
    decreases k,
{
    lemma_linear_zero(f);
    lemma_linear_zero(g);
    if k == 0 {
        lemma_below_step(x, 0);
    } else {
        let j = (k - 1) as u32;
        lemma_agree_below(f, g, x, j);
        lemma_below_step(x, j);
        let lower = below(x, j);
        let bit = x & (1u32 << j);
        assert(below(x, k) == lower ^ bit);
        assert(f(lower ^ bit) == f(lower) ^ f(bit));
        assert(g(lower ^ bit) == g(lower) ^ g(bit));
    }
}

/// Two linear maps that agree on the 32 words of one bit agree everywhere.
pub(crate) proof fn lemma_agree(f: spec_fn(u32) -> u32, g: spec_fn(u32) -> u32, x: u32)
    requires
        linear(f),
        linear(g),
        forall|i: u32| i < 32 ==> f(1u32 << i) == g(1u32 << i),
    ensures
        f(x) == g(x),
{
    lemma_agree_below(f, g, x, 32);
}

} // verus!
