use vstd::arithmetic::power2::{
    lemma2_to64_rest, lemma_pow2_adds, lemma_pow2_pos, lemma_pow2_strictly_increases,
    lemma_pow2_unfold, pow2,
};
use vstd::prelude::*;

verus! {

/// The sign bit of a binary64 pattern.
pub const SIGN: u64 = 0x8000_0000_0000_0000;

/// All bits of a binary64 pattern but the sign.
pub const MAGNITUDE: u64 = 0x7FFF_FFFF_FFFF_FFFF;

/// The pattern of positive infinity, the largest magnitude that is a
/// number.
pub const INFINITY: u64 = 0x7FF0_0000_0000_0000;

/// The pattern of zero.
pub const ZERO: u64 = 0;

/// The pattern of one.
pub const ONE: u64 = 0x3FF0_0000_0000_0000;

/// The fraction bits of a binary64 pattern.
pub const FRACTION: u64 = 0x000F_FFFF_FFFF_FFFF;

/// The leading one that a normal number has in front of its fraction.
pub const LEADING: u64 = 0x0010_0000_0000_0000;

/// The exponent and fraction bits of a pattern.
pub open spec fn magnitude(bits: u64) -> u64 {
    bits & MAGNITUDE
}

/// The sign bit of the pattern is set.
pub open spec fn negative(bits: u64) -> bool {
    bits & SIGN != 0
}

/// The pattern stands for a number, finite or infinite.
pub open spec fn is_number(bits: u64) -> bool {
    magnitude(bits) <= INFINITY
}

/// The rank of a pattern: its magnitude, with the sign of the number in
/// front. Both zeros have rank 0.
pub open spec fn rank_of(bits: u64) -> int {
    if negative(bits) {
        -(magnitude(bits) as int)
    } else {
        magnitude(bits) as int
    }
}

/// The rank is that of some number.
pub open spec fn is_rank(rank: int) -> bool {
    -(INFINITY as int) <= rank <= INFINITY as int
}

/// The rank of the number with the given bit pattern, or `None` where the
/// pattern is not a number.
pub fn of_bits(bits: u64) -> (r: Option<i64>)
    ensures
        r is Some <==> is_number(bits),
        r matches Some(rank) ==> rank == rank_of(bits) && is_rank(rank as int),
{
    let m: u64 = bits & MAGNITUDE;
    if m > INFINITY {
        return None;
    }
    if bits & SIGN != 0 {
        Some(-(m as i64))
    } else {
        Some(m as i64)
    }
}

/// The bit pattern of the number with the given rank, or `None` where no
/// number has that rank. Rank 0 gives the positive zero.
pub fn to_bits(rank: i64) -> (r: Option<u64>)
    ensures
        r is Some <==> is_rank(rank as int),
        r matches Some(bits) ==> is_number(bits) && rank_of(bits) == rank && (negative(bits)
            <==> rank < 0),
{
    if rank > INFINITY as i64 || rank < -(INFINITY as i64) {
        None
    } else if rank < 0 {
        let m: u64 = (-rank) as u64;
        assert((m | SIGN) & MAGNITUDE == m && (m | SIGN) & SIGN != 0) by (bit_vector)
            requires
                m <= INFINITY,
        ;
        Some(m | SIGN)
    } else {
        let m: u64 = rank as u64;
        assert(m & MAGNITUDE == m && m & SIGN == 0) by (bit_vector)
            requires
                m <= INFINITY,
        ;
        Some(m)
    }
}

/// A number is found again from its rank: only the negative zero comes
/// back as the positive one.
pub proof fn lemma_found_again(bits: u64, back: u64)
    requires
        is_number(bits),
        is_number(back),
        rank_of(back) == rank_of(bits),
        negative(back) <==> rank_of(bits) < 0,
    ensures
        back == if bits == SIGN {
            0
        } else {
            bits
        },
{
    assert(bits == (bits & MAGNITUDE) | (bits & SIGN)) by (bit_vector);
    assert(back == (back & MAGNITUDE) | (back & SIGN)) by (bit_vector);
    assert(bits & SIGN == 0 || bits & SIGN == SIGN) by (bit_vector);
    assert(back & SIGN == 0 || back & SIGN == SIGN) by (bit_vector);
    assert(bits & MAGNITUDE == 0 && bits & SIGN == SIGN ==> bits == SIGN) by (bit_vector);
    assert(SIGN & MAGNITUDE == 0 && SIGN & SIGN != 0) by (bit_vector);
    let m = bits & MAGNITUDE;
    assert(m | 0 == m) by (bit_vector);
}

/// The biased exponent of a pattern.
pub open spec fn exponent(bits: u64) -> nat {
    (magnitude(bits) >> 52) as nat
}

/// The fraction of a pattern.
pub open spec fn fraction(bits: u64) -> nat {
    (bits & FRACTION) as nat
}

/// The absolute value that binary64 gives a pattern, counted in units of
/// the smallest positive number: the fraction alone where the exponent is
/// zero, else the fraction under its leading one, doubled once for each
/// step of the exponent above one. Infinity, read the same way, stands
/// above every finite number.
pub open spec fn size_of(bits: u64) -> int {
    size(exponent(bits), fraction(bits))
}

/// The absolute value of a number by its exponent and fraction.
pub open spec fn size(exponent: nat, fraction: nat) -> int {
    if exponent == 0 {
        fraction as int
    } else {
        (LEADING + fraction) * pow2((exponent - 1) as nat)
    }
}

/// The value that binary64 gives a pattern, in the same units.
pub open spec fn value_of(bits: u64) -> int {
    if negative(bits) {
        -size_of(bits)
    } else {
        size_of(bits)
    }
}

proof fn lemma_size_grows(e1: nat, f1: nat, e2: nat, f2: nat)
    requires
        f1 < LEADING,
        f2 < LEADING,
        e1 < e2 || (e1 == e2 && f1 < f2),
    ensures
        0 <= size(e1, f1) < size(e2, f2),
{
    let lead = LEADING as int;
    if e1 == e2 {
        if e1 > 0 {
            let p = pow2((e1 - 1) as nat) as int;
            lemma_pow2_pos((e1 - 1) as nat);
            assert((lead + f1) * p < (lead + f2) * p) by (nonlinear_arith)
                requires
                    f1 < f2,
                    p > 0,
            ;
        }
    } else {
        let q = pow2((e2 - 1) as nat) as int;
        lemma_pow2_pos((e2 - 1) as nat);
        assert(lead * q <= (lead + f2) * q) by (nonlinear_arith)
            requires
                f2 >= 0,
                q > 0,
        ;
        if e1 == 0 {
            assert(lead * 1 <= lead * q) by (nonlinear_arith)
                requires
                    q >= 1,
                    lead > 0,
            ;
        } else {
            let p = pow2((e1 - 1) as nat) as int;
            lemma_pow2_pos((e1 - 1) as nat);
            lemma_pow2_unfold(e1);
            if e1 < e2 - 1 {
                lemma_pow2_strictly_increases(e1, (e2 - 1) as nat);
            }
            assert(pow2(e1) <= q);
            assert((lead + f1) * p < lead * (2 * p)) by (nonlinear_arith)
                requires
                    f1 < lead,
                    p > 0,
            ;
            assert(lead * (2 * p) <= lead * q) by (nonlinear_arith)
                requires
                    2 * p <= q,
                    lead > 0,
            ;
        }
    }
}

proof fn lemma_parts(bits: u64)
    ensures
        magnitude(bits) == exponent(bits) * LEADING + fraction(bits),
        fraction(bits) < LEADING,
{
    let m = bits & MAGNITUDE;
    assert(m == (m >> 52) * 0x0010_0000_0000_0000 + (m & 0x000F_FFFF_FFFF_FFFF)) by (bit_vector)
        requires
            m == bits & 0x7FFF_FFFF_FFFF_FFFF,
    ;
    assert(m & 0x000F_FFFF_FFFF_FFFF == bits & 0x000F_FFFF_FFFF_FFFF) by (bit_vector)
        requires
            m == bits & 0x7FFF_FFFF_FFFF_FFFF,
    ;
    assert(bits & 0x000F_FFFF_FFFF_FFFF < 0x0010_0000_0000_0000) by (bit_vector);
}

/// Patterns with the larger magnitude stand for the larger absolute
/// value.
pub proof fn lemma_magnitude_orders_sizes(a: u64, b: u64)
    ensures
        magnitude(a) < magnitude(b) <==> size_of(a) < size_of(b),
        magnitude(a) == magnitude(b) <==> size_of(a) == size_of(b),
{
    lemma_parts(a);
    lemma_parts(b);
    let (ea, fa) = (exponent(a), fraction(a));
    let (eb, fb) = (exponent(b), fraction(b));
    if ea < eb || (ea == eb && fa < fb) {
        lemma_size_grows(ea, fa, eb, fb);
    } else if eb < ea || (eb == ea && fb < fa) {
        lemma_size_grows(eb, fb, ea, fa);
    }
}

/// Ranks order the patterns as binary64 orders the numbers they stand
/// for, and two patterns share a rank exactly where they stand for the
/// same number.
pub proof fn lemma_rank_orders_values(a: u64, b: u64)
    ensures
        rank_of(a) < rank_of(b) <==> value_of(a) < value_of(b),
        rank_of(a) == rank_of(b) <==> value_of(a) == value_of(b),
{
    lemma_magnitude_orders_sizes(a, b);
    lemma_magnitude_orders_sizes(a, 0);
    lemma_magnitude_orders_sizes(b, 0);
    assert(0u64 & MAGNITUDE == 0 && 0u64 & FRACTION == 0 && (0u64 >> 52) == 0) by (bit_vector);
}

/// Both patterns are numbers, and the first stands for the smaller one.
/// This is the order of binary64: nothing is below or above a pattern that
/// is no number, and the two zeros are equal.
pub open spec fn below(a: u64, b: u64) -> bool {
    is_number(a) && is_number(b) && value_of(a) < value_of(b)
}

/// Compares two numbers by their patterns.
pub fn less(a: u64, b: u64) -> (r: bool)
    ensures
        r == below(a, b),
{
    proof {
        lemma_rank_orders_values(a, b);
    }
    match (of_bits(a), of_bits(b)) {
        (Some(rank_a), Some(rank_b)) => rank_a < rank_b,
        _ => false,
    }
}

/// The patterns of zero and one stand for zero and one.
pub proof fn lemma_zero_and_one()
    ensures
        is_number(ONE),
        !negative(ONE),
        value_of(ONE) == pow2(1074),
        is_number(ZERO),
        !negative(ZERO),
        value_of(ZERO) == 0,
        below(ZERO, ONE),
{
    lemma_pow2_pos(1074);
    assert(0x3FF0_0000_0000_0000u64 & 0x7FFF_FFFF_FFFF_FFFF == 0x3FF0_0000_0000_0000)
        by (bit_vector);
    assert(0x3FF0_0000_0000_0000u64 & 0x8000_0000_0000_0000 == 0) by (bit_vector);
    assert(0x3FF0_0000_0000_0000u64 >> 52 == 1023) by (bit_vector);
    assert(0x3FF0_0000_0000_0000u64 & 0x000F_FFFF_FFFF_FFFF == 0) by (bit_vector);
    assert(0u64 & 0x7FFF_FFFF_FFFF_FFFF == 0 && 0u64 & 0x8000_0000_0000_0000 == 0 && 0u64 >> 52
        == 0 && 0u64 & 0x000F_FFFF_FFFF_FFFF == 0) by (bit_vector);
    lemma2_to64_rest();
    lemma_pow2_adds(52, 1022);
    assert(exponent(ONE) == 1023);
    assert(fraction(ONE) == 0);
}

/// The pattern of the number with the opposite sign.
pub open spec fn negated(bits: u64) -> u64 {
    bits ^ SIGN
}

/// Turning the sign bit turns the sign of the value and nothing else.
pub proof fn lemma_negated(bits: u64)
    ensures
        is_number(negated(bits)) == is_number(bits),
        value_of(negated(bits)) == -value_of(bits),
        negated(negated(bits)) == bits,
{
    assert((bits ^ SIGN) & MAGNITUDE == bits & MAGNITUDE) by (bit_vector);
    assert((bits ^ SIGN) & FRACTION == bits & FRACTION) by (bit_vector);
    assert(((bits ^ SIGN) & SIGN != 0) <==> (bits & SIGN == 0)) by (bit_vector);
    assert((bits ^ SIGN) ^ SIGN == bits) by (bit_vector);
}

} // verus!
