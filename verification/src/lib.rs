//! The deciding core of a path tracer for scenes of spheres.
//!
//! A path tracer computes with real numbers, and a host does that in
//! binary64 arithmetic. What it computes is decided here: which root of a
//! sphere counts as a hit, which object of a scene is the nearest, how a
//! material sends a ray on, where a path ends, in which order the pixels
//! go out and what is written for each. Numbers reach this crate as their
//! binary64 patterns, or as ranks, signed integers that order as the
//! numbers do (see `rank`). Sums, products and roots, which round, stay
//! with the host; what is exact on the patterns (sign, order, clamping, a
//! uniform draw, scaling a channel to its level) is done and proved here.
use vstd::arithmetic::power2::{
    lemma2_to64, lemma2_to64_rest, lemma_pow2_adds, lemma_pow2_pos, lemma_pow2_unfold, pow2,
};
use vstd::prelude::*;

pub mod color;
pub mod file;
pub mod hittable;
pub mod image;
pub mod material;
pub mod rank;
pub mod ray;
pub mod sphere;
pub mod vec;

verus! {

/// The thread-local generator of the `rand` crate.
#[verifier::external_type_specification]
#[verifier::external_body]
pub struct ExThreadRng(rand::rngs::ThreadRng);

/// Calls `rand::Rng::gen` for 64 random bits. Nothing is claimed of them:
/// callers are proved for every value.
#[verifier::external_body]
fn draw(rng: &mut rand::rngs::ThreadRng) -> (r: u64) {
    rand::Rng::gen(rng)
}

/// The pattern is a number from zero up to one, one left out.
pub open spec fn is_draw(draw: u64) -> bool {
    rank::is_number(draw) && !rank::below(draw, rank::ZERO) && rank::below(draw, rank::ONE)
}

/// The number that 64 random bits stand for: their upper 53 bits, read as
/// a whole number and divided by 2 to the 53rd, as a binary64 pattern. It
/// is held exactly, and lies from zero up to one, one left out.
pub fn unit_interval(bits: u64) -> (r: u64)
    ensures
        !rank::negative(r),
        rank::value_of(r) == (bits >> 11) * pow2(1021),
        is_draw(r),
{
    let k: u64 = bits >> 11;
    proof {
        rank::lemma_zero_and_one();
        lemma2_to64_rest();
        lemma_pow2_pos(1021);
        lemma_pow2_adds(53, 1021);
        assert(k < 0x0020_0000_0000_0000) by (bit_vector)
            requires
                k == bits >> 11,
        ;
        assert(k * pow2(1021) < pow2(53) * pow2(1021)) by (nonlinear_arith)
            requires
                k < pow2(53),
                pow2(1021) > 0,
        ;
        assert(0 <= k * pow2(1021)) by (nonlinear_arith)
            requires
                k >= 0,
                pow2(1021) > 0,
        ;
    }
    if k == 0 {
        assert(0 * pow2(1021) == 0) by (nonlinear_arith);
        return rank::ZERO;
    }
    let mut m: u64 = k;
    let mut e: u64 = 1022;
    let ghost mut s: nat = 0;
    proof {
        lemma2_to64();
    }
    while m < rank::LEADING
        invariant
            s <= 52,
            e == 1022 - s,
            0 < m < 2 * rank::LEADING,
            m == k * pow2(s),
            k >= 1,
        decreases 2 * rank::LEADING - m,
    {
        proof {
            lemma_pow2_unfold(s + 1);
            lemma_pow2_pos(s);
            assert(pow2(52) == 0x0010_0000_0000_0000) by {
                lemma2_to64_rest();
            }
            if s == 52 {
                assert(k * pow2(52) >= pow2(52)) by (nonlinear_arith)
                    requires
                        k >= 1,
                        pow2(52) > 0,
                ;
            }
            assert(k * (2 * pow2(s)) == 2 * (k * pow2(s))) by (nonlinear_arith);
            s = s + 1;
        }
        m = m * 2;
        e = e - 1;
    }
    let f: u64 = m & rank::FRACTION;
    let r: u64 = (e << 52) | f;
    proof {
        assert(f == m - 0x0010_0000_0000_0000 && f < 0x0010_0000_0000_0000) by (bit_vector)
            requires
                0x0010_0000_0000_0000 <= m < 0x0020_0000_0000_0000,
                f == m & 0x000F_FFFF_FFFF_FFFF,
        ;
        assert(r & 0x7FFF_FFFF_FFFF_FFFF == r && r & 0x8000_0000_0000_0000 == 0 && (r >> 52) == e
            && r & 0x000F_FFFF_FFFF_FFFF == f && r <= 0x7FF0_0000_0000_0000) by (bit_vector)
            requires
                r == (e << 52) | f,
                e <= 1022,
                f < 0x0010_0000_0000_0000,
        ;
        assert(rank::exponent(r) == e);
        assert(rank::fraction(r) == f);
        lemma_pow2_adds(s, (1021 - s) as nat);
        assert(rank::size_of(r) == m * pow2((e - 1) as nat));
        assert(m * pow2((1021 - s) as nat) == k * pow2(1021)) by (nonlinear_arith)
            requires
                m == k * pow2(s),
                pow2(1021) == pow2(s) * pow2((1021 - s) as nat),
        ;
    }
    r
}

/// Draws a number from zero up to one, one left out, and returns its
/// binary64 pattern. Which number comes is the generator's affair; that
/// it lies in that range holds of every draw.
pub fn random(rng: &mut rand::rngs::ThreadRng) -> (r: u64)
    ensures
        is_draw(r),
{
    unit_interval(draw(rng))
}

/// `x` brought into the range from `min` to `max`: `min` where `x` is
/// below it, else `max` where `x` is above that, else `x` itself.
pub open spec fn clamp_of(x: u64, min: u64, max: u64) -> u64 {
    if rank::below(x, min) {
        min
    } else if rank::below(max, x) {
        max
    } else {
        x
    }
}

/// Brings a number into the range from `min` to `max`, all three given as
/// binary64 patterns. A pattern that is no number is below and above
/// nothing, and comes back as it is.
pub fn clamp(x: u64, min: u64, max: u64) -> (r: u64)
    ensures
        r == clamp_of(x, min, max),
{
    if rank::less(x, min) {
        return min;
    }
    if rank::less(max, x) {
        return max;
    }
    x
}

} // verus!
