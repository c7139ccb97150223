//! Bitboards: sets of squares held as the bits of a `u64`, bit `i` standing
//! for the square of index `i` (A1 = 0, H8 = 63).
use vstd::prelude::*;

verus! {

pub const EMPTY: u64 = 0;
pub const ALL: u64 = 0xFFFF_FFFF_FFFF_FFFF;

pub const A_FILE: u64 = 0x0101_0101_0101_0101;
pub const B_FILE: u64 = 0x0202_0202_0202_0202;
pub const C_FILE: u64 = 0x0404_0404_0404_0404;
pub const D_FILE: u64 = 0x0808_0808_0808_0808;
pub const E_FILE: u64 = 0x1010_1010_1010_1010;
pub const F_FILE: u64 = 0x2020_2020_2020_2020;
pub const G_FILE: u64 = 0x4040_4040_4040_4040;
pub const H_FILE: u64 = 0x8080_8080_8080_8080;

pub const RANK_1: u64 = 0x0000_0000_0000_00FF;
pub const RANK_2: u64 = 0x0000_0000_0000_FF00;
pub const RANK_3: u64 = 0x0000_0000_00FF_0000;
pub const RANK_4: u64 = 0x0000_0000_FF00_0000;
pub const RANK_5: u64 = 0x0000_00FF_0000_0000;
pub const RANK_6: u64 = 0x0000_FF00_0000_0000;
pub const RANK_7: u64 = 0x00FF_0000_0000_0000;
pub const RANK_8: u64 = 0xFF00_0000_0000_0000;

/// Whether the square of index `s` is in the bitboard `b`.
pub open spec fn has_sq(b: u64, s: int) -> bool {
    0 <= s < 64 && (b >> (s as u64)) & 1u64 == 1u64
}

/// Number of squares of `b` among the indices `0 .. n`.
pub open spec fn count_below(b: u64, n: int) -> nat
    decreases n,
{
    if n <= 0 {
        0
    } else {
        count_below(b, n - 1) + if has_sq(b, n - 1) { 1nat } else { 0nat }
    }
}

/// Number of squares in `b`.
pub open spec fn popcount(b: u64) -> nat {
    count_below(b, 64)
}

/// Whether the square of index `s` is set in `b` (executable form of `has`).
pub fn contains(b: u64, s: u8) -> (r: bool)
    requires
        s < 64,
    ensures
        r == has_sq(b, s as int),
{
    (b >> s) & 1 == 1
}

/// The bitboard holding only the square of index `s`.
pub fn square_bit(s: u8) -> (r: u64)
    requires
        s < 64,
    ensures
        r == 1u64 << s,
        forall|t: int| has_sq(r, t) <==> t == s,
{
    proof { lemma_single_bit(s as u64); }
    1u64 << s
}

pub proof fn lemma_single_bit(s: u64)
    requires
        s < 64,
    ensures
        forall|t: int| has_sq(1u64 << s, t) <==> t == s,
{
    assert forall|t: int| has_sq(1u64 << s, t) <==> t == s by {
        if 0 <= t < 64 {
            let tt = t as u64;
            assert(((1u64 << s) >> tt) & 1u64 == 1u64 <==> tt == s) by (bit_vector)
                requires
                    s < 64,
                    tt < 64,
            ;
        }
    }
}

/// Number of squares in `b`.
pub fn count_ones(b: u64) -> (r: u32)
    ensures
        r == popcount(b),
        r <= 64,
{
    let mut count: u32 = 0;
    let mut s: u8 = 0;
    while s < 64
        invariant
            s <= 64,
            count == count_below(b, s as int),
            count <= s,
        decreases 64 - s,
    {
        if (b >> s) & 1 == 1 {
            count = count + 1;
        }
        s = s + 1;
    }
    count
}

/// Whether the two bitboards share a square.
pub fn overlaps(a: u64, b: u64) -> (r: bool)
    ensures
        r == (a & b != 0),
{
    a & b != 0
}

/// Membership in the meet, join and complement of bitboards.
pub proof fn lemma_has_ops(a: u64, b: u64, s: int)
    requires
        0 <= s < 64,
    ensures
        has_sq(a & b, s) == (has_sq(a, s) && has_sq(b, s)),
        has_sq(a | b, s) == (has_sq(a, s) || has_sq(b, s)),
        has_sq(!a, s) == !has_sq(a, s),
        has_sq(0u64, s) == false,
        has_sq(0xFFFF_FFFF_FFFF_FFFFu64, s),
{
    let t = s as u64;
    assert(((a & b) >> t) & 1u64 == 1u64 <==> ((a >> t) & 1u64 == 1u64 && (b >> t) & 1u64 == 1u64)) by (bit_vector);
    assert(((a | b) >> t) & 1u64 == 1u64 <==> ((a >> t) & 1u64 == 1u64 || (b >> t) & 1u64 == 1u64)) by (bit_vector);
    assert(((!a) >> t) & 1u64 == 1u64 <==> !((a >> t) & 1u64 == 1u64)) by (bit_vector)
        requires
            t < 64,
    ;
    assert((0u64 >> t) & 1u64 != 1u64) by (bit_vector);
    assert((0xFFFF_FFFF_FFFF_FFFFu64 >> t) & 1u64 == 1u64) by (bit_vector) requires t < 64;
}

/// A bitboard without squares is zero, and conversely.
pub proof fn lemma_zero_iff_no_square(b: u64)
    ensures
        (b == 0) <==> (forall|s: int| 0 <= s < 64 ==> !#[trigger] has_sq(b, s)),
{
    if b != 0 {
        let tz = b.trailing_zeros();
        vstd::std_specs::bits::axiom_u64_trailing_zeros(b);
        assert(has_sq(b, tz as int));
    } else {
        assert forall|s: int| 0 <= s < 64 implies !#[trigger] has_sq(b, s) by {
            let t = s as u64;
            assert((0u64 >> t) & 1u64 != 1u64) by (bit_vector);
        }
    }
}

/// Membership in the symmetric difference of bitboards.
pub proof fn lemma_has_xor(a: u64, b: u64, s: int)
    requires
        0 <= s < 64,
    ensures
        has_sq(a ^ b, s) == (has_sq(a, s) != has_sq(b, s)),
{
    let t = s as u64;
    assert(((a ^ b) >> t) & 1u64 == 1u64 <==> (((a >> t) & 1u64 == 1u64) != ((b >> t) & 1u64 == 1u64))) by (bit_vector);
}

/// Two bitboards with the same squares are equal.
pub proof fn lemma_bitboard_ext(a: u64, b: u64)
    requires
        forall|s: int| 0 <= s < 64 ==> #[trigger] has_sq(a, s) == has_sq(b, s),
    ensures
        a == b,
{
    if a != b {
        assert(a ^ b != 0) by (bit_vector) requires a != b;
        lemma_zero_iff_no_square(a ^ b);
        let s = choose|s: int| 0 <= s < 64 && has_sq(a ^ b, s);
        lemma_has_xor(a, b, s);
        assert(has_sq(a, s) == has_sq(b, s));
    }
}

/// Membership after adding or removing one square.
pub proof fn lemma_has_with_bit(b: u64, s: u64, t: int)
    requires
        s < 64,
        0 <= t < 64,
    ensures
        has_sq(b | (1u64 << s), t) == (has_sq(b, t) || t == s),
        has_sq(b & !(1u64 << s), t) == (has_sq(b, t) && t != s),
{
    let u = t as u64;
    assert(((b | (1u64 << s)) >> u) & 1u64 == 1u64 <==> ((b >> u) & 1u64 == 1u64 || u == s)) by (bit_vector)
        requires s < 64, u < 64;
    assert(((b & !(1u64 << s)) >> u) & 1u64 == 1u64 <==> ((b >> u) & 1u64 == 1u64 && u != s)) by (bit_vector)
        requires s < 64, u < 64;
}

/// At most `n` of the squares below `n` are in a bitboard.
pub proof fn lemma_count_below_bounds(b: u64, n: int)
    requires
        n >= 0,
    ensures
        count_below(b, n) <= n,
    decreases n,
{
    if n > 0 {
        lemma_count_below_bounds(b, n - 1);
    }
}


/// The bitboard of the squares below `n` that satisfy `p`.
pub open spec fn bits_where(n: int, p: spec_fn(int) -> bool) -> u64
    decreases n,
{
    if n <= 0 {
        0
    } else {
        bits_where(n - 1, p) | if p(n - 1) {
            1u64 << ((n - 1) as u64)
        } else {
            0u64
        }
    }
}

pub proof fn lemma_or_zero(x: u64)
    ensures
        x | 0u64 == x,
{
    assert(x | 0u64 == x) by (bit_vector);
}

/// A square is in `bits_where(n, p)` exactly when it is below `n` and satisfies `p`.
pub proof fn lemma_bits_where(n: int, p: spec_fn(int) -> bool)
    requires
        0 <= n <= 64,
    ensures
        forall|t: int| #[trigger] has_sq(bits_where(n, p), t) <==> (0 <= t < n && p(t)),
    decreases n,
{
    if n == 0 {
        assert forall|t: int| #[trigger] has_sq(bits_where(n, p), t) <==> (0 <= t < n && p(t)) by {
            if 0 <= t < 64 {
                lemma_has_ops(0, 0, t);
            }
        }
    } else {
        lemma_bits_where(n - 1, p);
        let prev = bits_where(n - 1, p);
        assert forall|t: int| #[trigger] has_sq(bits_where(n, p), t) <==> (0 <= t < n && p(t)) by {
            if 0 <= t < 64 {
                if p(n - 1) {
                    lemma_has_with_bit(prev, (n - 1) as u64, t);
                } else {
                    lemma_or_zero(prev);
                }
            }
        }
    }
}

} // verus!
