// The period of the generator, by linear algebra over the two-element field.
//
// One round is a linear map of the state, so any number of rounds is one, and a
// linear map is known from where it sends the 32 words of one bit. Three tables
// hold 2^8, 2^16 and 2^24 rounds as such maps; each is held against 256
// applications of the one before, and 256 applications of the last against a
// single round. That 2^32 rounds equal one round gives the return after
// 2^32 - 1. For each prime p that divides 2^32 - 1, a further table inverts
// x -> x ^ (x after (2^32 - 1) / p rounds), so that only zero comes back that
// early.

use crate::linear::{lemma_agree, lemma_linear_zero, lemma_xor_laws, linear};
use crate::rand::{lemma_nth_adds, lemma_xorshift_injective, xorshift, xorshift_nth};
use vstd::prelude::*;

verus! {

/// The word `c` where `x` has the bit at place `i`, zero where it has not.
spec fn pick(x: u32, i: u32, c: u32) -> u32 {
    if x & (1u32 << i) != 0 {
        c
    } else {
        0
    }
}

/// The image of `x` under the linear map that sends the word of the one bit
/// at place `i` to `c(i)`, for the places below `k`.
spec fn span(c: spec_fn(u32) -> u32, x: u32, k: u32) -> u32
    decreases k,
{
    if k == 0 {
        0
    } else {
        span(c, x, (k - 1) as u32) ^ pick(x, (k - 1) as u32, c((k - 1) as u32))
    }
}

/// The image of `x` under the linear map that sends the word of the one bit
/// at place `i` to the `i`-th of the 32 words given.
#[verifier::opaque]
spec fn span32(
    x: u32, c0: u32, c1: u32, c2: u32, c3: u32, c4: u32, c5: u32, c6: u32, c7: u32, c8: u32,
    c9: u32, c10: u32, c11: u32, c12: u32, c13: u32, c14: u32, c15: u32, c16: u32, c17: u32,
    c18: u32, c19: u32, c20: u32, c21: u32, c22: u32, c23: u32, c24: u32, c25: u32, c26: u32,
    c27: u32, c28: u32, c29: u32, c30: u32, c31: u32,
) -> u32 {
    pick(x, 0, c0) ^ pick(x, 1, c1) ^ pick(x, 2, c2) ^ pick(x, 3, c3) ^ pick(x, 4, c4)
        ^ pick(x, 5, c5) ^ pick(x, 6, c6) ^ pick(x, 7, c7) ^ pick(x, 8, c8) ^ pick(x, 9, c9)
        ^ pick(x, 10, c10) ^ pick(x, 11, c11) ^ pick(x, 12, c12) ^ pick(x, 13, c13)
        ^ pick(x, 14, c14) ^ pick(x, 15, c15) ^ pick(x, 16, c16) ^ pick(x, 17, c17)
        ^ pick(x, 18, c18) ^ pick(x, 19, c19) ^ pick(x, 20, c20) ^ pick(x, 21, c21)
        ^ pick(x, 22, c22) ^ pick(x, 23, c23) ^ pick(x, 24, c24) ^ pick(x, 25, c25)
        ^ pick(x, 26, c26) ^ pick(x, 27, c27) ^ pick(x, 28, c28) ^ pick(x, 29, c29)
        ^ pick(x, 30, c30) ^ pick(x, 31, c31)
}

/// Picking by one bit respects XOR.
proof fn lemma_pick_linear(a: u32, b: u32, i: u32, c: u32)
    by (bit_vector)
    requires
        i < 32,
    ensures
        pick(a ^ b, i, c) == pick(a, i, c) ^ pick(b, i, c),
{
}

/// The map that the words `c` span is linear.
proof fn lemma_span_linear(c: spec_fn(u32) -> u32, k: u32)
    requires
        k <= 32,
    ensures
        linear(|x: u32| span(c, x, k)),
    decreases k,
{
    let f = |x: u32| span(c, x, k);
    if k == 0 {
        assert forall|a: u32, b: u32| #[trigger] f(a ^ b) == f(a) ^ f(b) by {
            lemma_xor_laws(0, 0, 0, 0);
        }
    } else {
        let j = (k - 1) as u32;
        let g = |x: u32| span(c, x, j);
        lemma_span_linear(c, j);
        assert forall|a: u32, b: u32| #[trigger] f(a ^ b) == f(a) ^ f(b) by {
            assert(g(a ^ b) == g(a) ^ g(b));
            lemma_pick_linear(a, b, j, c(j));
            lemma_xor_laws(g(a), g(b), pick(a, j, c(j)), pick(b, j, c(j)));
        }
    }
}

/// The map that 32 words span is linear.
proof fn lemma_span32_linear(c: spec_fn(u32) -> u32)
    ensures
        linear(|x: u32| span32(
            x, c(0), c(1), c(2), c(3), c(4), c(5), c(6), c(7), c(8), c(9), c(10), c(11), c(12),
            c(13), c(14), c(15), c(16), c(17), c(18), c(19), c(20), c(21), c(22), c(23), c(24),
            c(25), c(26), c(27), c(28), c(29), c(30), c(31),
        )),
{
    let f = |x: u32| span32(
        x, c(0), c(1), c(2), c(3), c(4), c(5), c(6), c(7), c(8), c(9), c(10), c(11), c(12), c(13),
        c(14), c(15), c(16), c(17), c(18), c(19), c(20), c(21), c(22), c(23), c(24), c(25), c(26),
        c(27), c(28), c(29), c(30), c(31),
    );
    let g = |x: u32| span(c, x, 32);
    lemma_span_linear(c, 32);
    assert forall|a: u32, b: u32| #[trigger] f(a ^ b) == f(a) ^ f(b) by {
        lemma_span32_unfolds(c, a);
        lemma_span32_unfolds(c, b);
        lemma_span32_unfolds(c, a ^ b);
        assert(g(a ^ b) == g(a) ^ g(b));
    }
}

/// The span of 32 words, written out, is the span of them by recursion.
proof fn lemma_span32_unfolds(c: spec_fn(u32) -> u32, x: u32)
    ensures
        span32(
            x, c(0), c(1), c(2), c(3), c(4), c(5), c(6), c(7), c(8), c(9), c(10), c(11), c(12),
            c(13), c(14), c(15), c(16), c(17), c(18), c(19), c(20), c(21), c(22), c(23), c(24),
            c(25), c(26), c(27), c(28), c(29), c(30), c(31),
        ) == span(c, x, 32),
{
    reveal(span32);
    reveal_with_fuel(span, 33);
    lemma_xor_laws(pick(x, 0, c(0)), 0, 0, 0);
}

/// The map that 32 words span respects XOR, whatever the words.
proof fn lemma_span32_respects_xor()
    ensures
        forall|
            a: u32, b: u32, c0: u32, c1: u32, c2: u32, c3: u32, c4: u32, c5: u32, c6: u32, c7: u32,
            c8: u32, c9: u32, c10: u32, c11: u32, c12: u32, c13: u32, c14: u32, c15: u32, c16: u32,
            c17: u32, c18: u32, c19: u32, c20: u32, c21: u32, c22: u32, c23: u32, c24: u32, c25: u32,
            c26: u32, c27: u32, c28: u32, c29: u32, c30: u32, c31: u32,
        | #[trigger]
            span32(
                a ^ b, c0, c1, c2, c3, c4, c5, c6, c7, c8, c9, c10, c11, c12, c13, c14, c15, c16,
                c17, c18, c19, c20, c21, c22, c23, c24, c25, c26, c27, c28, c29, c30, c31,
            ) == span32(
                a, c0, c1, c2, c3, c4, c5, c6, c7, c8, c9, c10, c11, c12, c13, c14, c15, c16,
                c17, c18, c19, c20, c21, c22, c23, c24, c25, c26, c27, c28, c29, c30, c31,
            ) ^ span32(
                b, c0, c1, c2, c3, c4, c5, c6, c7, c8, c9, c10, c11, c12, c13, c14, c15, c16,
                c17, c18, c19, c20, c21, c22, c23, c24, c25, c26, c27, c28, c29, c30, c31,
            ),
{
    assert forall|
        a: u32, b: u32, c0: u32, c1: u32, c2: u32, c3: u32, c4: u32, c5: u32, c6: u32, c7: u32,
        c8: u32, c9: u32, c10: u32, c11: u32, c12: u32, c13: u32, c14: u32, c15: u32, c16: u32,
        c17: u32, c18: u32, c19: u32, c20: u32, c21: u32, c22: u32, c23: u32, c24: u32, c25: u32,
        c26: u32, c27: u32, c28: u32, c29: u32, c30: u32, c31: u32,
    | #[trigger]
        span32(
            a ^ b, c0, c1, c2, c3, c4, c5, c6, c7, c8, c9, c10, c11, c12, c13, c14, c15, c16,
            c17, c18, c19, c20, c21, c22, c23, c24, c25, c26, c27, c28, c29, c30, c31,
        ) == span32(
            a, c0, c1, c2, c3, c4, c5, c6, c7, c8, c9, c10, c11, c12, c13, c14, c15, c16,
            c17, c18, c19, c20, c21, c22, c23, c24, c25, c26, c27, c28, c29, c30, c31,
        ) ^ span32(
            b, c0, c1, c2, c3, c4, c5, c6, c7, c8, c9, c10, c11, c12, c13, c14, c15, c16,
            c17, c18, c19, c20, c21, c22, c23, c24, c25, c26, c27, c28, c29, c30, c31,
        ) by {
        let t = seq![
            c0, c1, c2, c3, c4, c5, c6, c7, c8, c9, c10, c11, c12, c13, c14, c15, c16, c17, c18,
            c19, c20, c21, c22, c23, c24, c25, c26, c27, c28, c29, c30, c31,
        ];
        let c = |i: u32| t[i as int];
        lemma_span32_linear(c);
        let f = |x: u32|
            span32(
                x, c(0), c(1), c(2), c(3), c(4), c(5), c(6), c(7), c(8), c(9), c(10), c(11),
                c(12), c(13), c(14), c(15), c(16), c(17), c(18), c(19), c(20), c(21), c(22),
                c(23), c(24), c(25), c(26), c(27), c(28), c(29), c(30), c(31),
            );
        assert(f(a ^ b) == f(a) ^ f(b));
    }
}

/// One round respects XOR.
proof fn lemma_xorshift_linear(a: u32, b: u32)
    by (bit_vector)
    ensures
        xorshift(a ^ b) == xorshift(a) ^ xorshift(b),
{
}

/// Any number of rounds is a linear map of the state.
proof fn lemma_nth_linear(rounds: nat)
    ensures
        linear(|x: u32| xorshift_nth(x, rounds)),
    decreases rounds,
{
    let f = |x: u32| xorshift_nth(x, rounds);
    if rounds == 0 {
        assert forall|a: u32, b: u32| #[trigger] f(a ^ b) == f(a) ^ f(b) by {}
    } else {
        let g = |x: u32| xorshift_nth(x, (rounds - 1) as nat);
        lemma_nth_linear((rounds - 1) as nat);
        assert forall|a: u32, b: u32| #[trigger] f(a ^ b) == f(a) ^ f(b) by {
            assert(g(a ^ b) == g(a) ^ g(b));
            lemma_xorshift_linear(g(a), g(b));
        }
    }
}

/// 256 rounds, as the linear map that they are: the images of the 32 words of
/// one bit.
spec fn rounds_256(x: u32) -> u32 {
    span32(
        x,
        0x54eda13c, 0xe9cd73ee, 0xb77136c3, 0xdeb89e2b, 0x4837ddb4, 0xaa7186bd,
        0x47ccfd7d, 0x09409751, 0x4852e923, 0x935eb108, 0x58647569, 0x9e1d74f6,
        0xe6c5e3f7, 0xb56f517a, 0xdfbaa62a, 0x6551e937, 0x1933008c, 0x74359566,
        0xb2730c82, 0xc019be4f, 0x7fea9452, 0xed17fdb1, 0x926154af, 0x200c67eb,
        0x73fc8e9a, 0x68787df8, 0x70e5d9cc, 0xc61d550e, 0xcb068d93, 0x3ba1b411,
        0x0a6b48da, 0x8c5a768c,
    )
}

/// 65536 rounds, as a linear map.
spec fn rounds_65536(x: u32) -> u32 {
    span32(
        x,
        0x1a19edb3, 0x1e2d1efc, 0x4a4b634e, 0x8598f248, 0x39266608, 0xcf006c06,
        0xb6a534ee, 0x4fbc5841, 0x6aaffd08, 0xaff86f9b, 0xc276f1cf, 0xab243d78,
        0x1c18840c, 0x792c9459, 0xa842b119, 0xb8f17b40, 0x93bc6860, 0x00968e99,
        0x7e694708, 0x03605bae, 0x5f72fbf0, 0x9d6d2c80, 0x0a558524, 0x490e9555,
        0x0c310b85, 0xb1d67186, 0x2ce80a2d, 0xe3f94b31, 0xbba4f4a4, 0xdae3ce4d,
        0x21625802, 0xb348f734,
    )
}

/// 16777216 rounds, as a linear map.
spec fn rounds_16777216(x: u32) -> u32 {
    span32(
        x,
        0x329a7895, 0x77bbe428, 0xedd73b9a, 0xc57a26a1, 0x3eaa1809, 0x774789c5,
        0x8c11f770, 0x4b5c3c6e, 0x20abcd89, 0x7a9e9132, 0xc043767d, 0xa6c5b623,
        0x7af3ff46, 0x36bdc047, 0x3653cd2c, 0x54f2665d, 0x3ad4a76a, 0x3f81ca27,
        0xbff41d66, 0xa11b0923, 0xac52c661, 0x6b63c4f4, 0xf6a36f10, 0xbac8c43c,
        0xc04e206b, 0x2ece34a7, 0x4303a185, 0xb2c2e418, 0x7bb13314, 0x7dcae849,
        0xdbd688a3, 0xde9ea407,
    )
}

/// The number of rounds that one leap of the kind `kind` stands for.
spec fn stride(kind: u32) -> nat {
    if kind == 0 {
        1
    } else if kind == 1 {
        256
    } else if kind == 2 {
        65536
    } else {
        16777216
    }
}

/// One leap of the kind `kind` from `x`: one round, or one of the three
/// tabulated powers of it.
spec fn leap(kind: u32, x: u32) -> u32 {
    if kind == 0 {
        xorshift(x)
    } else if kind == 1 {
        rounds_256(x)
    } else if kind == 2 {
        rounds_65536(x)
    } else {
        rounds_16777216(x)
    }
}

/// 2 leaps of the kind `kind` from `x`.
#[verifier::opaque]
spec fn leap2(kind: u32, x: u32) -> u32 {
    leap(kind, leap(kind, x))
}

/// 4 leaps of the kind `kind` from `x`.
#[verifier::opaque]
spec fn leap4(kind: u32, x: u32) -> u32 {
    leap2(kind, leap2(kind, x))
}

/// 8 leaps of the kind `kind` from `x`.
#[verifier::opaque]
spec fn leap8(kind: u32, x: u32) -> u32 {
    leap4(kind, leap4(kind, x))
}

/// 16 leaps of the kind `kind` from `x`.
#[verifier::opaque]
spec fn leap16(kind: u32, x: u32) -> u32 {
    leap8(kind, leap8(kind, x))
}

/// 32 leaps of the kind `kind` from `x`.
#[verifier::opaque]
spec fn leap32(kind: u32, x: u32) -> u32 {
    leap16(kind, leap16(kind, x))
}

/// 64 leaps of the kind `kind` from `x`.
#[verifier::opaque]
spec fn leap64(kind: u32, x: u32) -> u32 {
    leap32(kind, leap32(kind, x))
}

/// 128 leaps of the kind `kind` from `x`.
#[verifier::opaque]
spec fn leap128(kind: u32, x: u32) -> u32 {
    leap64(kind, leap64(kind, x))
}

/// 256 leaps of the kind `kind` from `x`.
#[verifier::opaque]
spec fn leap256(kind: u32, x: u32) -> u32 {
    leap128(kind, leap128(kind, x))
}

/// 15 leaps of the kind `kind` from `x`.
#[verifier::opaque]
spec fn leap15(kind: u32, x: u32) -> u32 {
    leap8(kind, leap4(kind, leap2(kind, leap(kind, x))))
}

/// 51 leaps of the kind `kind` from `x`.
#[verifier::opaque]
spec fn leap51(kind: u32, x: u32) -> u32 {
    leap32(kind, leap16(kind, leap2(kind, leap(kind, x))))
}

/// 85 leaps of the kind `kind` from `x`.
#[verifier::opaque]
spec fn leap85(kind: u32, x: u32) -> u32 {
    leap64(kind, leap16(kind, leap4(kind, leap(kind, x))))
}

/// 255 leaps of the kind `kind` from `x`.
#[verifier::opaque]
spec fn leap255(kind: u32, x: u32) -> u32 {
    leap128(kind, leap64(kind, leap32(kind, leap16(kind, leap15(kind, x)))))
}

/// Whether a leap of the kind `kind` is what it stands for: as many rounds as
/// its stride says.
spec fn settled(kind: u32) -> bool {
    forall|x: u32| #[trigger] leap(kind, x) == xorshift_nth(x, stride(kind))
}

/// 256 rounds lead from each word of one bit where the table says.
proof fn lemma_basis_after_256()
    by (bit_vector)
    ensures
        leap256(0, 1u32 << 0) == leap(1, 1u32 << 0),
        leap256(0, 1u32 << 1) == leap(1, 1u32 << 1),
        leap256(0, 1u32 << 2) == leap(1, 1u32 << 2),
        leap256(0, 1u32 << 3) == leap(1, 1u32 << 3),
        leap256(0, 1u32 << 4) == leap(1, 1u32 << 4),
        leap256(0, 1u32 << 5) == leap(1, 1u32 << 5),
        leap256(0, 1u32 << 6) == leap(1, 1u32 << 6),
        leap256(0, 1u32 << 7) == leap(1, 1u32 << 7),
        leap256(0, 1u32 << 8) == leap(1, 1u32 << 8),
        leap256(0, 1u32 << 9) == leap(1, 1u32 << 9),
        leap256(0, 1u32 << 10) == leap(1, 1u32 << 10),
        leap256(0, 1u32 << 11) == leap(1, 1u32 << 11),
        leap256(0, 1u32 << 12) == leap(1, 1u32 << 12),
        leap256(0, 1u32 << 13) == leap(1, 1u32 << 13),
        leap256(0, 1u32 << 14) == leap(1, 1u32 << 14),
        leap256(0, 1u32 << 15) == leap(1, 1u32 << 15),
        leap256(0, 1u32 << 16) == leap(1, 1u32 << 16),
        leap256(0, 1u32 << 17) == leap(1, 1u32 << 17),
        leap256(0, 1u32 << 18) == leap(1, 1u32 << 18),
        leap256(0, 1u32 << 19) == leap(1, 1u32 << 19),
        leap256(0, 1u32 << 20) == leap(1, 1u32 << 20),
        leap256(0, 1u32 << 21) == leap(1, 1u32 << 21),
        leap256(0, 1u32 << 22) == leap(1, 1u32 << 22),
        leap256(0, 1u32 << 23) == leap(1, 1u32 << 23),
        leap256(0, 1u32 << 24) == leap(1, 1u32 << 24),
        leap256(0, 1u32 << 25) == leap(1, 1u32 << 25),
        leap256(0, 1u32 << 26) == leap(1, 1u32 << 26),
        leap256(0, 1u32 << 27) == leap(1, 1u32 << 27),
        leap256(0, 1u32 << 28) == leap(1, 1u32 << 28),
        leap256(0, 1u32 << 29) == leap(1, 1u32 << 29),
        leap256(0, 1u32 << 30) == leap(1, 1u32 << 30),
        leap256(0, 1u32 << 31) == leap(1, 1u32 << 31),
{
}

/// 256 leaps of 256 rounds lead from each word of one bit where the table says.
proof fn lemma_basis_after_65536()
    by (bit_vector)
    ensures
        leap256(1, 1u32 << 0) == leap(2, 1u32 << 0),
        leap256(1, 1u32 << 1) == leap(2, 1u32 << 1),
        leap256(1, 1u32 << 2) == leap(2, 1u32 << 2),
        leap256(1, 1u32 << 3) == leap(2, 1u32 << 3),
        leap256(1, 1u32 << 4) == leap(2, 1u32 << 4),
        leap256(1, 1u32 << 5) == leap(2, 1u32 << 5),
        leap256(1, 1u32 << 6) == leap(2, 1u32 << 6),
        leap256(1, 1u32 << 7) == leap(2, 1u32 << 7),
        leap256(1, 1u32 << 8) == leap(2, 1u32 << 8),
        leap256(1, 1u32 << 9) == leap(2, 1u32 << 9),
        leap256(1, 1u32 << 10) == leap(2, 1u32 << 10),
        leap256(1, 1u32 << 11) == leap(2, 1u32 << 11),
        leap256(1, 1u32 << 12) == leap(2, 1u32 << 12),
        leap256(1, 1u32 << 13) == leap(2, 1u32 << 13),
        leap256(1, 1u32 << 14) == leap(2, 1u32 << 14),
        leap256(1, 1u32 << 15) == leap(2, 1u32 << 15),
        leap256(1, 1u32 << 16) == leap(2, 1u32 << 16),
        leap256(1, 1u32 << 17) == leap(2, 1u32 << 17),
        leap256(1, 1u32 << 18) == leap(2, 1u32 << 18),
        leap256(1, 1u32 << 19) == leap(2, 1u32 << 19),
        leap256(1, 1u32 << 20) == leap(2, 1u32 << 20),
        leap256(1, 1u32 << 21) == leap(2, 1u32 << 21),
        leap256(1, 1u32 << 22) == leap(2, 1u32 << 22),
        leap256(1, 1u32 << 23) == leap(2, 1u32 << 23),
        leap256(1, 1u32 << 24) == leap(2, 1u32 << 24),
        leap256(1, 1u32 << 25) == leap(2, 1u32 << 25),
        leap256(1, 1u32 << 26) == leap(2, 1u32 << 26),
        leap256(1, 1u32 << 27) == leap(2, 1u32 << 27),
        leap256(1, 1u32 << 28) == leap(2, 1u32 << 28),
        leap256(1, 1u32 << 29) == leap(2, 1u32 << 29),
        leap256(1, 1u32 << 30) == leap(2, 1u32 << 30),
        leap256(1, 1u32 << 31) == leap(2, 1u32 << 31),
{
}

/// 256 leaps of 65536 rounds lead from each word of one bit where the table
/// says.
proof fn lemma_basis_after_16777216()
    by (bit_vector)
    ensures
        leap256(2, 1u32 << 0) == leap(3, 1u32 << 0),
        leap256(2, 1u32 << 1) == leap(3, 1u32 << 1),
        leap256(2, 1u32 << 2) == leap(3, 1u32 << 2),
        leap256(2, 1u32 << 3) == leap(3, 1u32 << 3),
        leap256(2, 1u32 << 4) == leap(3, 1u32 << 4),
        leap256(2, 1u32 << 5) == leap(3, 1u32 << 5),
        leap256(2, 1u32 << 6) == leap(3, 1u32 << 6),
        leap256(2, 1u32 << 7) == leap(3, 1u32 << 7),
        leap256(2, 1u32 << 8) == leap(3, 1u32 << 8),
        leap256(2, 1u32 << 9) == leap(3, 1u32 << 9),
        leap256(2, 1u32 << 10) == leap(3, 1u32 << 10),
        leap256(2, 1u32 << 11) == leap(3, 1u32 << 11),
        leap256(2, 1u32 << 12) == leap(3, 1u32 << 12),
        leap256(2, 1u32 << 13) == leap(3, 1u32 << 13),
        leap256(2, 1u32 << 14) == leap(3, 1u32 << 14),
        leap256(2, 1u32 << 15) == leap(3, 1u32 << 15),
        leap256(2, 1u32 << 16) == leap(3, 1u32 << 16),
        leap256(2, 1u32 << 17) == leap(3, 1u32 << 17),
        leap256(2, 1u32 << 18) == leap(3, 1u32 << 18),
        leap256(2, 1u32 << 19) == leap(3, 1u32 << 19),
        leap256(2, 1u32 << 20) == leap(3, 1u32 << 20),
        leap256(2, 1u32 << 21) == leap(3, 1u32 << 21),
        leap256(2, 1u32 << 22) == leap(3, 1u32 << 22),
        leap256(2, 1u32 << 23) == leap(3, 1u32 << 23),
        leap256(2, 1u32 << 24) == leap(3, 1u32 << 24),
        leap256(2, 1u32 << 25) == leap(3, 1u32 << 25),
        leap256(2, 1u32 << 26) == leap(3, 1u32 << 26),
        leap256(2, 1u32 << 27) == leap(3, 1u32 << 27),
        leap256(2, 1u32 << 28) == leap(3, 1u32 << 28),
        leap256(2, 1u32 << 29) == leap(3, 1u32 << 29),
        leap256(2, 1u32 << 30) == leap(3, 1u32 << 30),
        leap256(2, 1u32 << 31) == leap(3, 1u32 << 31),
{
}

/// 256 leaps of 16777216 rounds lead from each word of one bit where a single
/// round leads.
proof fn lemma_basis_after_all()
    by (bit_vector)
    ensures
        leap256(3, 1u32 << 0) == leap(0, 1u32 << 0),
        leap256(3, 1u32 << 1) == leap(0, 1u32 << 1),
        leap256(3, 1u32 << 2) == leap(0, 1u32 << 2),
        leap256(3, 1u32 << 3) == leap(0, 1u32 << 3),
        leap256(3, 1u32 << 4) == leap(0, 1u32 << 4),
        leap256(3, 1u32 << 5) == leap(0, 1u32 << 5),
        leap256(3, 1u32 << 6) == leap(0, 1u32 << 6),
        leap256(3, 1u32 << 7) == leap(0, 1u32 << 7),
        leap256(3, 1u32 << 8) == leap(0, 1u32 << 8),
        leap256(3, 1u32 << 9) == leap(0, 1u32 << 9),
        leap256(3, 1u32 << 10) == leap(0, 1u32 << 10),
        leap256(3, 1u32 << 11) == leap(0, 1u32 << 11),
        leap256(3, 1u32 << 12) == leap(0, 1u32 << 12),
        leap256(3, 1u32 << 13) == leap(0, 1u32 << 13),
        leap256(3, 1u32 << 14) == leap(0, 1u32 << 14),
        leap256(3, 1u32 << 15) == leap(0, 1u32 << 15),
        leap256(3, 1u32 << 16) == leap(0, 1u32 << 16),
        leap256(3, 1u32 << 17) == leap(0, 1u32 << 17),
        leap256(3, 1u32 << 18) == leap(0, 1u32 << 18),
        leap256(3, 1u32 << 19) == leap(0, 1u32 << 19),
        leap256(3, 1u32 << 20) == leap(0, 1u32 << 20),
        leap256(3, 1u32 << 21) == leap(0, 1u32 << 21),
        leap256(3, 1u32 << 22) == leap(0, 1u32 << 22),
        leap256(3, 1u32 << 23) == leap(0, 1u32 << 23),
        leap256(3, 1u32 << 24) == leap(0, 1u32 << 24),
        leap256(3, 1u32 << 25) == leap(0, 1u32 << 25),
        leap256(3, 1u32 << 26) == leap(0, 1u32 << 26),
        leap256(3, 1u32 << 27) == leap(0, 1u32 << 27),
        leap256(3, 1u32 << 28) == leap(0, 1u32 << 28),
        leap256(3, 1u32 << 29) == leap(0, 1u32 << 29),
        leap256(3, 1u32 << 30) == leap(0, 1u32 << 30),
        leap256(3, 1u32 << 31) == leap(0, 1u32 << 31),
{
}

/// 256 leaps of the kind `kind`, from each word of one bit, lead where one leap
/// of the next kind leads; and from the last kind back to a single round.
proof fn lemma_leaps_on_basis(kind: u32, i: u32)
    requires
        kind < 4,
        i < 32,
    ensures
        leap256(kind, 1u32 << i) == leap(
            if kind == 3 {
                0u32
            } else {
                (kind + 1) as u32
            },
            1u32 << i,
        ),
{
    if kind == 0 {
        lemma_basis_after_256();
    } else if kind == 1 {
        lemma_basis_after_65536();
    } else if kind == 2 {
        lemma_basis_after_16777216();
    } else {
        lemma_basis_after_all();
    }
}

/// A run of leaps of a settled kind is as many rounds as its length times the
/// stride.
proof fn lemma_leaps(kind: u32, x: u32)
    requires
        settled(kind),
    ensures
        leap2(kind, x) == xorshift_nth(x, 2 * stride(kind)),
        leap4(kind, x) == xorshift_nth(x, 4 * stride(kind)),
        leap8(kind, x) == xorshift_nth(x, 8 * stride(kind)),
        leap16(kind, x) == xorshift_nth(x, 16 * stride(kind)),
        leap32(kind, x) == xorshift_nth(x, 32 * stride(kind)),
        leap64(kind, x) == xorshift_nth(x, 64 * stride(kind)),
        leap128(kind, x) == xorshift_nth(x, 128 * stride(kind)),
        leap256(kind, x) == xorshift_nth(x, 256 * stride(kind)),
{
    let m = stride(kind);
    assert forall|y: u32| #[trigger] leap2(kind, y) == xorshift_nth(y, 2 * m) by {
        reveal(leap2);
        lemma_nth_adds(y, m, m);
    }
    assert forall|y: u32| #[trigger] leap4(kind, y) == xorshift_nth(y, 4 * m) by {
        reveal(leap4);
        lemma_nth_adds(y, 2 * m, 2 * m);
    }
    assert forall|y: u32| #[trigger] leap8(kind, y) == xorshift_nth(y, 8 * m) by {
        reveal(leap8);
        lemma_nth_adds(y, 4 * m, 4 * m);
    }
    assert forall|y: u32| #[trigger] leap16(kind, y) == xorshift_nth(y, 16 * m) by {
        reveal(leap16);
        lemma_nth_adds(y, 8 * m, 8 * m);
    }
    assert forall|y: u32| #[trigger] leap32(kind, y) == xorshift_nth(y, 32 * m) by {
        reveal(leap32);
        lemma_nth_adds(y, 16 * m, 16 * m);
    }
    assert forall|y: u32| #[trigger] leap64(kind, y) == xorshift_nth(y, 64 * m) by {
        reveal(leap64);
        lemma_nth_adds(y, 32 * m, 32 * m);
    }
    assert forall|y: u32| #[trigger] leap128(kind, y) == xorshift_nth(y, 128 * m) by {
        reveal(leap128);
        lemma_nth_adds(y, 64 * m, 64 * m);
    }
    reveal(leap256);
    lemma_nth_adds(x, 128 * m, 128 * m);
}

/// The same for the runs of odd length.
proof fn lemma_odd_leaps(kind: u32, x: u32)
    requires
        settled(kind),
    ensures
        leap15(kind, x) == xorshift_nth(x, 15 * stride(kind)),
        leap51(kind, x) == xorshift_nth(x, 51 * stride(kind)),
        leap85(kind, x) == xorshift_nth(x, 85 * stride(kind)),
        leap255(kind, x) == xorshift_nth(x, 255 * stride(kind)),
{
    let m = stride(kind);
    assert forall|y: u32| #[trigger] leap15(kind, y) == xorshift_nth(y, 15 * m) by {
        reveal(leap15);
        let y1 = leap(kind, y);
        let y3 = leap2(kind, y1);
        let y7 = leap4(kind, y3);
        lemma_leaps(kind, y1);
        lemma_leaps(kind, y3);
        lemma_leaps(kind, y7);
        lemma_nth_adds(y, m, 2 * m);
        lemma_nth_adds(y, 3 * m, 4 * m);
        lemma_nth_adds(y, 7 * m, 8 * m);
    }
    {
        reveal(leap51);
        let x1 = leap(kind, x);
        let x3 = leap2(kind, x1);
        let x19 = leap16(kind, x3);
        lemma_leaps(kind, x1);
        lemma_leaps(kind, x3);
        lemma_leaps(kind, x19);
        lemma_nth_adds(x, m, 2 * m);
        lemma_nth_adds(x, 3 * m, 16 * m);
        lemma_nth_adds(x, 19 * m, 32 * m);
    }
    {
        reveal(leap85);
        let x1 = leap(kind, x);
        let x5 = leap4(kind, x1);
        let x21 = leap16(kind, x5);
        lemma_leaps(kind, x1);
        lemma_leaps(kind, x5);
        lemma_leaps(kind, x21);
        lemma_nth_adds(x, m, 4 * m);
        lemma_nth_adds(x, 5 * m, 16 * m);
        lemma_nth_adds(x, 21 * m, 64 * m);
    }
    {
        reveal(leap255);
        let x15 = leap15(kind, x);
        let x31 = leap16(kind, x15);
        let x63 = leap32(kind, x31);
        let x127 = leap64(kind, x63);
        lemma_leaps(kind, x15);
        lemma_leaps(kind, x31);
        lemma_leaps(kind, x63);
        lemma_leaps(kind, x127);
        lemma_nth_adds(x, 15 * m, 16 * m);
        lemma_nth_adds(x, 31 * m, 32 * m);
        lemma_nth_adds(x, 63 * m, 64 * m);
        lemma_nth_adds(x, 127 * m, 128 * m);
    }
}

/// A leap of any kind is linear.
proof fn lemma_leap_linear(kind: u32)
    ensures
        linear(|x: u32| leap(kind, x)),
{
    let f = |x: u32| leap(kind, x);
    lemma_span32_respects_xor();
    assert forall|a: u32, b: u32| #[trigger] f(a ^ b) == f(a) ^ f(b) by {
        lemma_xorshift_linear(a, b);
    }
}

/// Every kind of leap is what it stands for.
proof fn lemma_settled(kind: u32)
    requires
        kind < 4,
    ensures
        settled(kind),
    decreases kind,
{
    if kind == 0 {
        assert forall|x: u32| #[trigger] leap(kind, x) == xorshift_nth(x, stride(kind)) by {
            reveal_with_fuel(xorshift_nth, 2);
        }
    } else {
        let before = (kind - 1) as u32;
        lemma_settled(before);
        let f = |x: u32| xorshift_nth(x, stride(kind));
        let g = |x: u32| leap(kind, x);
        lemma_nth_linear(stride(kind));
        lemma_leap_linear(kind);
        assert forall|i: u32| i < 32 implies f(1u32 << i) == g(1u32 << i) by {
            lemma_leaps_on_basis(before, i);
            lemma_leaps(before, 1u32 << i);
        }
        assert forall|x: u32| #[trigger] leap(kind, x) == xorshift_nth(x, stride(kind)) by {
            lemma_agree(f, g, x);
        }
    }
}

/// 2^32 rounds do what a single round does.
proof fn lemma_all_rounds(state: u32)
    ensures
        xorshift_nth(state, 0x1_0000_0000) == xorshift(state),
{
    let f = |x: u32| xorshift_nth(x, 0x1_0000_0000);
    let g = |x: u32| xorshift(x);
    lemma_nth_linear(0x1_0000_0000);
    assert(linear(g)) by {
        assert forall|a: u32, b: u32| #[trigger] g(a ^ b) == g(a) ^ g(b) by {
            lemma_xorshift_linear(a, b);
        }
    }
    assert forall|i: u32| i < 32 implies f(1u32 << i) == g(1u32 << i) by {
        lemma_settled(3);
        lemma_leaps_on_basis(3, i);
        lemma_leaps(3, 1u32 << i);
        assert(256 * stride(3) == 0x1_0000_0000);
    }
    lemma_agree(f, g, state);
}

/// After 2^32 - 1 rounds every state is back where it was.
pub(crate) proof fn lemma_returns(state: u32)
    ensures
        xorshift_nth(state, 0xFFFF_FFFF) == state,
{
    lemma_all_rounds(state);
    let back = xorshift_nth(state, 0xFFFF_FFFF);
    assert(xorshift_nth(state, 0x1_0000_0000) == xorshift(back));
    if back != state {
        lemma_xorshift_injective(back, state);
    }
}

/// The inverse of the linear map that sends `x` to `x` XOR the state that
/// (2^32 - 1) / 3 rounds lead to from `x`.
spec fn undo_3(x: u32) -> u32 {
    span32(
        x,
        0xc6d40f11, 0xe8d7523f, 0x1459d7c3, 0xd043a6ec, 0x4cc0bb1c, 0xa3c5fcd8,
        0x802b7b0e, 0x4088aa93, 0x9ba4c15e, 0xd40b2665, 0xd8cca28d, 0xaaffe371,
        0x1875bd52, 0x4ba873e3, 0xf3b56fc3, 0x092f6da9, 0x5c53c2dd, 0x58e0af2f,
        0x8f4e1de0, 0xcbcf9b65, 0xa76ba20a, 0x20e445ac, 0x8afb0ef2, 0x0b3bc693,
        0xb3d92781, 0x5af73dc7, 0x1a4c79d1, 0x7e7007c7, 0x2f352d6b, 0x9924fef5,
        0x9e44601a, 0x06464e5d,
    )
}

/// The inverse of the linear map that sends `x` to `x` XOR the state that
/// (2^32 - 1) / 5 rounds lead to from `x`.
spec fn undo_5(x: u32) -> u32 {
    span32(
        x,
        0xb5109e95, 0xbda9a905, 0x6380d566, 0x8bc0aa6b, 0x161beea9, 0xe887c474,
        0x524e22b2, 0xfaf1008c, 0xb0ffc9ae, 0x8bfd4542, 0x6e8d696e, 0x63281eb1,
        0x6db414bc, 0x495f7ab3, 0xfab352b7, 0x87ea11f1, 0xa49c60c9, 0x7fa9e4af,
        0x6a47f326, 0x8cf43c61, 0x4232d3eb, 0xd09e2381, 0xadc9872b, 0x128a17fb,
        0x71fecbf6, 0x68b5f662, 0xc457bf5c, 0x137ab42c, 0x7d328c19, 0x5e3076b0,
        0x885733e1, 0xf1215e6b,
    )
}

/// The inverse of the linear map that sends `x` to `x` XOR the state that
/// (2^32 - 1) / 17 rounds lead to from `x`.
spec fn undo_17(x: u32) -> u32 {
    span32(
        x,
        0x7c058b46, 0xf444fd12, 0xf85f6c88, 0x0f9f0a59, 0xff1cf006, 0xf97378b9,
        0x8c68ca31, 0xd664b8ba, 0xd5ce5705, 0x9719a193, 0x64d4ae4e, 0xda3c0542,
        0xb7b307fc, 0x86675fa3, 0x0c3fd87c, 0x9992b98e, 0xe7dc1520, 0xec5e677a,
        0x63d93fac, 0x63247b9e, 0x1babc633, 0x09d2b32f, 0x43b1d498, 0xdcb4bc93,
        0x2bb1d4b9, 0xcf25fc4a, 0xc88f00ce, 0x8369eb46, 0xa519aae0, 0x7f9f1295,
        0xf9b0f370, 0x69e53d04,
    )
}

/// The inverse of the linear map that sends `x` to `x` XOR the state that
/// (2^32 - 1) / 257 rounds lead to from `x`.
spec fn undo_257(x: u32) -> u32 {
    span32(
        x,
        0x73a95da9, 0x27da4677, 0x2439ef5c, 0xdba7344c, 0x434ba086, 0x26ac1192,
        0xc4e26453, 0x0e0f5858, 0xe4331532, 0x9f708aa0, 0xc24c3b0e, 0x746567d8,
        0xba201c5e, 0x30200983, 0x7bacff4f, 0x00a0d7d5, 0xb010b5c3, 0xdf31fcb8,
        0x3eb320ff, 0x15127336, 0x090875c4, 0x177f6506, 0x8a3b84ee, 0x0e35503a,
        0x0ac38b3e, 0xc7326126, 0x4b608ae9, 0xc0baa06f, 0x9cc855f2, 0xb1c66454,
        0xfaeb0c9a, 0xb2318611,
    )
}

/// The inverse of the linear map that sends `x` to `x` XOR the state that
/// (2^32 - 1) / 65537 rounds lead to from `x`.
spec fn undo_65537(x: u32) -> u32 {
    span32(
        x,
        0x13c5c62e, 0x944f33ad, 0x4815c2e0, 0x28b3e54b, 0x320e984d, 0x53eceb8e,
        0xef31f861, 0xf41f5ec0, 0x3d9bc2ca, 0x89320255, 0x2de22fbe, 0xf97275d2,
        0x9ec19df7, 0x9ff36897, 0xf6892d38, 0xafde6203, 0x5e1b94a5, 0xa7e5bdac,
        0x14d06359, 0xb8981a44, 0xeaaa1c67, 0x9c7cf4a2, 0x9d1e5b1a, 0x0c94b865,
        0xc55ab448, 0x72718d92, 0x78be61ac, 0x7acbab8e, 0xf245d55f, 0x46283efe,
        0xeba745dc, 0x22f98808,
    )
}

/// Whether `p` is one of the five primes that divide 2^32 - 1.
pub open spec fn is_factor(p: u32) -> bool {
    p == 3 || p == 5 || p == 17 || p == 257 || p == 65537
}

/// The state that (2^32 - 1) / `p` rounds lead to from `x`, put together from
/// leaps.
#[verifier::opaque]
spec fn part(p: u32, x: u32) -> u32 {
    if p == 3 {
        leap85(3, leap85(2, leap85(1, leap85(0, x))))
    } else if p == 5 {
        leap51(3, leap51(2, leap51(1, leap51(0, x))))
    } else if p == 17 {
        leap15(3, leap15(2, leap15(1, leap15(0, x))))
    } else if p == 257 {
        leap255(2, leap255(0, x))
    } else {
        leap255(1, leap255(0, x))
    }
}

/// The inverse of the linear map that sends `x` to `x ^ part(p, x)`.
spec fn undo(p: u32, x: u32) -> u32 {
    if p == 3 {
        undo_3(x)
    } else if p == 5 {
        undo_5(x)
    } else if p == 17 {
        undo_17(x)
    } else if p == 257 {
        undo_257(x)
    } else {
        undo_65537(x)
    }
}

/// On each word of one bit, `undo` takes back what (2^32 - 1) / 3 rounds and
/// an XOR with the word did.
proof fn lemma_undo_on_basis_3()
    by (bit_vector)
    ensures
        undo(3, part(3, 1u32 << 0) ^ (1u32 << 0)) == 1u32 << 0,
        undo(3, part(3, 1u32 << 1) ^ (1u32 << 1)) == 1u32 << 1,
        undo(3, part(3, 1u32 << 2) ^ (1u32 << 2)) == 1u32 << 2,
        undo(3, part(3, 1u32 << 3) ^ (1u32 << 3)) == 1u32 << 3,
        undo(3, part(3, 1u32 << 4) ^ (1u32 << 4)) == 1u32 << 4,
        undo(3, part(3, 1u32 << 5) ^ (1u32 << 5)) == 1u32 << 5,
        undo(3, part(3, 1u32 << 6) ^ (1u32 << 6)) == 1u32 << 6,
        undo(3, part(3, 1u32 << 7) ^ (1u32 << 7)) == 1u32 << 7,
        undo(3, part(3, 1u32 << 8) ^ (1u32 << 8)) == 1u32 << 8,
        undo(3, part(3, 1u32 << 9) ^ (1u32 << 9)) == 1u32 << 9,
        undo(3, part(3, 1u32 << 10) ^ (1u32 << 10)) == 1u32 << 10,
        undo(3, part(3, 1u32 << 11) ^ (1u32 << 11)) == 1u32 << 11,
        undo(3, part(3, 1u32 << 12) ^ (1u32 << 12)) == 1u32 << 12,
        undo(3, part(3, 1u32 << 13) ^ (1u32 << 13)) == 1u32 << 13,
        undo(3, part(3, 1u32 << 14) ^ (1u32 << 14)) == 1u32 << 14,
        undo(3, part(3, 1u32 << 15) ^ (1u32 << 15)) == 1u32 << 15,
        undo(3, part(3, 1u32 << 16) ^ (1u32 << 16)) == 1u32 << 16,
        undo(3, part(3, 1u32 << 17) ^ (1u32 << 17)) == 1u32 << 17,
        undo(3, part(3, 1u32 << 18) ^ (1u32 << 18)) == 1u32 << 18,
        undo(3, part(3, 1u32 << 19) ^ (1u32 << 19)) == 1u32 << 19,
        undo(3, part(3, 1u32 << 20) ^ (1u32 << 20)) == 1u32 << 20,
        undo(3, part(3, 1u32 << 21) ^ (1u32 << 21)) == 1u32 << 21,
        undo(3, part(3, 1u32 << 22) ^ (1u32 << 22)) == 1u32 << 22,
        undo(3, part(3, 1u32 << 23) ^ (1u32 << 23)) == 1u32 << 23,
        undo(3, part(3, 1u32 << 24) ^ (1u32 << 24)) == 1u32 << 24,
        undo(3, part(3, 1u32 << 25) ^ (1u32 << 25)) == 1u32 << 25,
        undo(3, part(3, 1u32 << 26) ^ (1u32 << 26)) == 1u32 << 26,
        undo(3, part(3, 1u32 << 27) ^ (1u32 << 27)) == 1u32 << 27,
        undo(3, part(3, 1u32 << 28) ^ (1u32 << 28)) == 1u32 << 28,
        undo(3, part(3, 1u32 << 29) ^ (1u32 << 29)) == 1u32 << 29,
        undo(3, part(3, 1u32 << 30) ^ (1u32 << 30)) == 1u32 << 30,
        undo(3, part(3, 1u32 << 31) ^ (1u32 << 31)) == 1u32 << 31,
{
}

/// On each word of one bit, `undo` takes back what (2^32 - 1) / 5 rounds and
/// an XOR with the word did.
proof fn lemma_undo_on_basis_5()
    by (bit_vector)
    ensures
        undo(5, part(5, 1u32 << 0) ^ (1u32 << 0)) == 1u32 << 0,
        undo(5, part(5, 1u32 << 1) ^ (1u32 << 1)) == 1u32 << 1,
        undo(5, part(5, 1u32 << 2) ^ (1u32 << 2)) == 1u32 << 2,
        undo(5, part(5, 1u32 << 3) ^ (1u32 << 3)) == 1u32 << 3,
        undo(5, part(5, 1u32 << 4) ^ (1u32 << 4)) == 1u32 << 4,
        undo(5, part(5, 1u32 << 5) ^ (1u32 << 5)) == 1u32 << 5,
        undo(5, part(5, 1u32 << 6) ^ (1u32 << 6)) == 1u32 << 6,
        undo(5, part(5, 1u32 << 7) ^ (1u32 << 7)) == 1u32 << 7,
        undo(5, part(5, 1u32 << 8) ^ (1u32 << 8)) == 1u32 << 8,
        undo(5, part(5, 1u32 << 9) ^ (1u32 << 9)) == 1u32 << 9,
        undo(5, part(5, 1u32 << 10) ^ (1u32 << 10)) == 1u32 << 10,
        undo(5, part(5, 1u32 << 11) ^ (1u32 << 11)) == 1u32 << 11,
        undo(5, part(5, 1u32 << 12) ^ (1u32 << 12)) == 1u32 << 12,
        undo(5, part(5, 1u32 << 13) ^ (1u32 << 13)) == 1u32 << 13,
        undo(5, part(5, 1u32 << 14) ^ (1u32 << 14)) == 1u32 << 14,
        undo(5, part(5, 1u32 << 15) ^ (1u32 << 15)) == 1u32 << 15,
        undo(5, part(5, 1u32 << 16) ^ (1u32 << 16)) == 1u32 << 16,
        undo(5, part(5, 1u32 << 17) ^ (1u32 << 17)) == 1u32 << 17,
        undo(5, part(5, 1u32 << 18) ^ (1u32 << 18)) == 1u32 << 18,
        undo(5, part(5, 1u32 << 19) ^ (1u32 << 19)) == 1u32 << 19,
        undo(5, part(5, 1u32 << 20) ^ (1u32 << 20)) == 1u32 << 20,
        undo(5, part(5, 1u32 << 21) ^ (1u32 << 21)) == 1u32 << 21,
        undo(5, part(5, 1u32 << 22) ^ (1u32 << 22)) == 1u32 << 22,
        undo(5, part(5, 1u32 << 23) ^ (1u32 << 23)) == 1u32 << 23,
        undo(5, part(5, 1u32 << 24) ^ (1u32 << 24)) == 1u32 << 24,
        undo(5, part(5, 1u32 << 25) ^ (1u32 << 25)) == 1u32 << 25,
        undo(5, part(5, 1u32 << 26) ^ (1u32 << 26)) == 1u32 << 26,
        undo(5, part(5, 1u32 << 27) ^ (1u32 << 27)) == 1u32 << 27,
        undo(5, part(5, 1u32 << 28) ^ (1u32 << 28)) == 1u32 << 28,
        undo(5, part(5, 1u32 << 29) ^ (1u32 << 29)) == 1u32 << 29,
        undo(5, part(5, 1u32 << 30) ^ (1u32 << 30)) == 1u32 << 30,
        undo(5, part(5, 1u32 << 31) ^ (1u32 << 31)) == 1u32 << 31,
{
}

/// On each word of one bit, `undo` takes back what (2^32 - 1) / 17 rounds and
/// an XOR with the word did.
proof fn lemma_undo_on_basis_17()
    by (bit_vector)
    ensures
        undo(17, part(17, 1u32 << 0) ^ (1u32 << 0)) == 1u32 << 0,
        undo(17, part(17, 1u32 << 1) ^ (1u32 << 1)) == 1u32 << 1,
        undo(17, part(17, 1u32 << 2) ^ (1u32 << 2)) == 1u32 << 2,
        undo(17, part(17, 1u32 << 3) ^ (1u32 << 3)) == 1u32 << 3,
        undo(17, part(17, 1u32 << 4) ^ (1u32 << 4)) == 1u32 << 4,
        undo(17, part(17, 1u32 << 5) ^ (1u32 << 5)) == 1u32 << 5,
        undo(17, part(17, 1u32 << 6) ^ (1u32 << 6)) == 1u32 << 6,
        undo(17, part(17, 1u32 << 7) ^ (1u32 << 7)) == 1u32 << 7,
        undo(17, part(17, 1u32 << 8) ^ (1u32 << 8)) == 1u32 << 8,
        undo(17, part(17, 1u32 << 9) ^ (1u32 << 9)) == 1u32 << 9,
        undo(17, part(17, 1u32 << 10) ^ (1u32 << 10)) == 1u32 << 10,
        undo(17, part(17, 1u32 << 11) ^ (1u32 << 11)) == 1u32 << 11,
        undo(17, part(17, 1u32 << 12) ^ (1u32 << 12)) == 1u32 << 12,
        undo(17, part(17, 1u32 << 13) ^ (1u32 << 13)) == 1u32 << 13,
        undo(17, part(17, 1u32 << 14) ^ (1u32 << 14)) == 1u32 << 14,
        undo(17, part(17, 1u32 << 15) ^ (1u32 << 15)) == 1u32 << 15,
        undo(17, part(17, 1u32 << 16) ^ (1u32 << 16)) == 1u32 << 16,
        undo(17, part(17, 1u32 << 17) ^ (1u32 << 17)) == 1u32 << 17,
        undo(17, part(17, 1u32 << 18) ^ (1u32 << 18)) == 1u32 << 18,
        undo(17, part(17, 1u32 << 19) ^ (1u32 << 19)) == 1u32 << 19,
        undo(17, part(17, 1u32 << 20) ^ (1u32 << 20)) == 1u32 << 20,
        undo(17, part(17, 1u32 << 21) ^ (1u32 << 21)) == 1u32 << 21,
        undo(17, part(17, 1u32 << 22) ^ (1u32 << 22)) == 1u32 << 22,
        undo(17, part(17, 1u32 << 23) ^ (1u32 << 23)) == 1u32 << 23,
        undo(17, part(17, 1u32 << 24) ^ (1u32 << 24)) == 1u32 << 24,
        undo(17, part(17, 1u32 << 25) ^ (1u32 << 25)) == 1u32 << 25,
        undo(17, part(17, 1u32 << 26) ^ (1u32 << 26)) == 1u32 << 26,
        undo(17, part(17, 1u32 << 27) ^ (1u32 << 27)) == 1u32 << 27,
        undo(17, part(17, 1u32 << 28) ^ (1u32 << 28)) == 1u32 << 28,
        undo(17, part(17, 1u32 << 29) ^ (1u32 << 29)) == 1u32 << 29,
        undo(17, part(17, 1u32 << 30) ^ (1u32 << 30)) == 1u32 << 30,
        undo(17, part(17, 1u32 << 31) ^ (1u32 << 31)) == 1u32 << 31,
{
}

/// On each word of one bit, `undo` takes back what (2^32 - 1) / 257 rounds and
/// an XOR with the word did.
proof fn lemma_undo_on_basis_257()
    by (bit_vector)
    ensures
        undo(257, part(257, 1u32 << 0) ^ (1u32 << 0)) == 1u32 << 0,
        undo(257, part(257, 1u32 << 1) ^ (1u32 << 1)) == 1u32 << 1,
        undo(257, part(257, 1u32 << 2) ^ (1u32 << 2)) == 1u32 << 2,
        undo(257, part(257, 1u32 << 3) ^ (1u32 << 3)) == 1u32 << 3,
        undo(257, part(257, 1u32 << 4) ^ (1u32 << 4)) == 1u32 << 4,
        undo(257, part(257, 1u32 << 5) ^ (1u32 << 5)) == 1u32 << 5,
        undo(257, part(257, 1u32 << 6) ^ (1u32 << 6)) == 1u32 << 6,
        undo(257, part(257, 1u32 << 7) ^ (1u32 << 7)) == 1u32 << 7,
        undo(257, part(257, 1u32 << 8) ^ (1u32 << 8)) == 1u32 << 8,
        undo(257, part(257, 1u32 << 9) ^ (1u32 << 9)) == 1u32 << 9,
        undo(257, part(257, 1u32 << 10) ^ (1u32 << 10)) == 1u32 << 10,
        undo(257, part(257, 1u32 << 11) ^ (1u32 << 11)) == 1u32 << 11,
        undo(257, part(257, 1u32 << 12) ^ (1u32 << 12)) == 1u32 << 12,
        undo(257, part(257, 1u32 << 13) ^ (1u32 << 13)) == 1u32 << 13,
        undo(257, part(257, 1u32 << 14) ^ (1u32 << 14)) == 1u32 << 14,
        undo(257, part(257, 1u32 << 15) ^ (1u32 << 15)) == 1u32 << 15,
        undo(257, part(257, 1u32 << 16) ^ (1u32 << 16)) == 1u32 << 16,
        undo(257, part(257, 1u32 << 17) ^ (1u32 << 17)) == 1u32 << 17,
        undo(257, part(257, 1u32 << 18) ^ (1u32 << 18)) == 1u32 << 18,
        undo(257, part(257, 1u32 << 19) ^ (1u32 << 19)) == 1u32 << 19,
        undo(257, part(257, 1u32 << 20) ^ (1u32 << 20)) == 1u32 << 20,
        undo(257, part(257, 1u32 << 21) ^ (1u32 << 21)) == 1u32 << 21,
        undo(257, part(257, 1u32 << 22) ^ (1u32 << 22)) == 1u32 << 22,
        undo(257, part(257, 1u32 << 23) ^ (1u32 << 23)) == 1u32 << 23,
        undo(257, part(257, 1u32 << 24) ^ (1u32 << 24)) == 1u32 << 24,
        undo(257, part(257, 1u32 << 25) ^ (1u32 << 25)) == 1u32 << 25,
        undo(257, part(257, 1u32 << 26) ^ (1u32 << 26)) == 1u32 << 26,
        undo(257, part(257, 1u32 << 27) ^ (1u32 << 27)) == 1u32 << 27,
        undo(257, part(257, 1u32 << 28) ^ (1u32 << 28)) == 1u32 << 28,
        undo(257, part(257, 1u32 << 29) ^ (1u32 << 29)) == 1u32 << 29,
        undo(257, part(257, 1u32 << 30) ^ (1u32 << 30)) == 1u32 << 30,
        undo(257, part(257, 1u32 << 31) ^ (1u32 << 31)) == 1u32 << 31,
{
}

/// On each word of one bit, `undo` takes back what (2^32 - 1) / 65537 rounds and
/// an XOR with the word did.
proof fn lemma_undo_on_basis_65537()
    by (bit_vector)
    ensures
        undo(65537, part(65537, 1u32 << 0) ^ (1u32 << 0)) == 1u32 << 0,
        undo(65537, part(65537, 1u32 << 1) ^ (1u32 << 1)) == 1u32 << 1,
        undo(65537, part(65537, 1u32 << 2) ^ (1u32 << 2)) == 1u32 << 2,
        undo(65537, part(65537, 1u32 << 3) ^ (1u32 << 3)) == 1u32 << 3,
        undo(65537, part(65537, 1u32 << 4) ^ (1u32 << 4)) == 1u32 << 4,
        undo(65537, part(65537, 1u32 << 5) ^ (1u32 << 5)) == 1u32 << 5,
        undo(65537, part(65537, 1u32 << 6) ^ (1u32 << 6)) == 1u32 << 6,
        undo(65537, part(65537, 1u32 << 7) ^ (1u32 << 7)) == 1u32 << 7,
        undo(65537, part(65537, 1u32 << 8) ^ (1u32 << 8)) == 1u32 << 8,
        undo(65537, part(65537, 1u32 << 9) ^ (1u32 << 9)) == 1u32 << 9,
        undo(65537, part(65537, 1u32 << 10) ^ (1u32 << 10)) == 1u32 << 10,
        undo(65537, part(65537, 1u32 << 11) ^ (1u32 << 11)) == 1u32 << 11,
        undo(65537, part(65537, 1u32 << 12) ^ (1u32 << 12)) == 1u32 << 12,
        undo(65537, part(65537, 1u32 << 13) ^ (1u32 << 13)) == 1u32 << 13,
        undo(65537, part(65537, 1u32 << 14) ^ (1u32 << 14)) == 1u32 << 14,
        undo(65537, part(65537, 1u32 << 15) ^ (1u32 << 15)) == 1u32 << 15,
        undo(65537, part(65537, 1u32 << 16) ^ (1u32 << 16)) == 1u32 << 16,
        undo(65537, part(65537, 1u32 << 17) ^ (1u32 << 17)) == 1u32 << 17,
        undo(65537, part(65537, 1u32 << 18) ^ (1u32 << 18)) == 1u32 << 18,
        undo(65537, part(65537, 1u32 << 19) ^ (1u32 << 19)) == 1u32 << 19,
        undo(65537, part(65537, 1u32 << 20) ^ (1u32 << 20)) == 1u32 << 20,
        undo(65537, part(65537, 1u32 << 21) ^ (1u32 << 21)) == 1u32 << 21,
        undo(65537, part(65537, 1u32 << 22) ^ (1u32 << 22)) == 1u32 << 22,
        undo(65537, part(65537, 1u32 << 23) ^ (1u32 << 23)) == 1u32 << 23,
        undo(65537, part(65537, 1u32 << 24) ^ (1u32 << 24)) == 1u32 << 24,
        undo(65537, part(65537, 1u32 << 25) ^ (1u32 << 25)) == 1u32 << 25,
        undo(65537, part(65537, 1u32 << 26) ^ (1u32 << 26)) == 1u32 << 26,
        undo(65537, part(65537, 1u32 << 27) ^ (1u32 << 27)) == 1u32 << 27,
        undo(65537, part(65537, 1u32 << 28) ^ (1u32 << 28)) == 1u32 << 28,
        undo(65537, part(65537, 1u32 << 29) ^ (1u32 << 29)) == 1u32 << 29,
        undo(65537, part(65537, 1u32 << 30) ^ (1u32 << 30)) == 1u32 << 30,
        undo(65537, part(65537, 1u32 << 31) ^ (1u32 << 31)) == 1u32 << 31,
{
}

/// On each word of one bit, `undo` takes back what (2^32 - 1) / `p` rounds and
/// an XOR with the word did.
proof fn lemma_undo_on_basis(p: u32, i: u32)
    requires
        is_factor(p),
        i < 32,
    ensures
        undo(p, part(p, 1u32 << i) ^ (1u32 << i)) == 1u32 << i,
{
    if p == 3 {
        lemma_undo_on_basis_3();
    } else if p == 5 {
        lemma_undo_on_basis_5();
    } else if p == 17 {
        lemma_undo_on_basis_17();
    } else if p == 257 {
        lemma_undo_on_basis_257();
    } else {
        lemma_undo_on_basis_65537();
    }
}

/// The odd number of leaps that the quotient by `p` is put together from.
spec fn leap_odd(p: u32, kind: u32, x: u32) -> u32 {
    if p == 3 {
        leap85(kind, x)
    } else if p == 5 {
        leap51(kind, x)
    } else {
        leap15(kind, x)
    }
}

/// `part(p, x)` is what it stands for: the state that (2^32 - 1) / `p` rounds
/// lead to from `x`.
proof fn lemma_part(p: u32, x: u32)
    requires
        is_factor(p),
    ensures
        part(p, x) == xorshift_nth(x, (0xFFFF_FFFFu32 / p) as nat),
{
    reveal(part);
    lemma_settled(0);
    lemma_settled(1);
    lemma_settled(2);
    lemma_settled(3);
    if p == 257 || p == 65537 {
        let kind = if p == 257 { 2u32 } else { 1u32 };
        let x1 = leap255(0, x);
        lemma_odd_leaps(0, x);
        lemma_odd_leaps(kind, x1);
        lemma_nth_adds(x, 255, 255 * stride(kind));
    } else {
        let n: nat = if p == 3 {
            85
        } else if p == 5 {
            51
        } else {
            15
        };
        let x1 = leap_odd(p, 0, x);
        let x2 = leap_odd(p, 1, x1);
        let x3 = leap_odd(p, 2, x2);
        lemma_odd_leaps(0, x);
        lemma_odd_leaps(1, x1);
        lemma_odd_leaps(2, x2);
        lemma_odd_leaps(3, x3);
        lemma_nth_adds(x, n, n * 256);
        lemma_nth_adds(x, n * 257, n * 65536);
        lemma_nth_adds(x, n * 65793, n * 16777216);
    }
}

/// Taking back is linear.
proof fn lemma_undo_linear(p: u32)
    ensures
        linear(|y: u32| undo(p, y)),
{
    let u = |y: u32| undo(p, y);
    lemma_span32_respects_xor();
    assert forall|a: u32, b: u32| #[trigger] u(a ^ b) == u(a) ^ u(b) by {}
}

/// No state but zero is back where it was after (2^32 - 1) / `p` rounds.
pub(crate) proof fn lemma_no_early_return(p: u32, x: u32)
    requires
        is_factor(p),
        xorshift_nth(x, (0xFFFF_FFFFu32 / p) as nat) == x,
    ensures
        x == 0,
{
    let rounds = (0xFFFF_FFFFu32 / p) as nat;
    let r = |y: u32| xorshift_nth(y, rounds);
    let u = |y: u32| undo(p, y);
    let f = |y: u32| u(r(y) ^ y);
    let g = |y: u32| y;
    lemma_undo_linear(p);
    lemma_nth_linear(rounds);
    assert(linear(f)) by {
        assert forall|a: u32, b: u32| #[trigger] f(a ^ b) == f(a) ^ f(b) by {
            assert(r(a ^ b) == r(a) ^ r(b));
            lemma_xor_laws(r(a), r(b), a, b);
            assert(u((r(a) ^ a) ^ (r(b) ^ b)) == u(r(a) ^ a) ^ u(r(b) ^ b));
        }
    }
    assert(linear(g));
    assert forall|i: u32| i < 32 implies f(1u32 << i) == g(1u32 << i) by {
        lemma_undo_on_basis(p, i);
        lemma_part(p, 1u32 << i);
    }
    lemma_agree(f, g, x);
    lemma_xor_laws(x, 0, 0, 0);
    lemma_linear_zero(u);
    assert(f(x) == u(0));
}

} // verus!
