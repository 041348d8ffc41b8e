use crate::file::{line_text, pixel_line};
use crate::rank::{
    is_number, lemma_magnitude_orders_sizes, magnitude, negative, size, size_of, value_of,
    FRACTION, INFINITY, LEADING, MAGNITUDE, SIGN,
};
use vstd::arithmetic::div_mod::{
    lemma_basic_div, lemma_div_is_ordered, lemma_div_multiples_vanish_quotient,
};
use vstd::arithmetic::power2::{
    lemma2_to64, lemma2_to64_rest, lemma_pow2_adds, lemma_pow2_pos, lemma_pow2_strictly_increases,
    pow2,
};
use vstd::bits::lemma_u64_shr_is_div;
use vstd::prelude::*;

verus! {

/// The binary64 pattern of 0.999, the upper end of the range to which a
/// channel is clamped.
pub const CEILING: u64 = 0x3FEF_F7CE_D916_872B;

/// The number one, in the units in which `value_of` counts.
pub open spec fn one() -> int {
    pow2(1074) as int
}

/// The value of a channel after it is clamped to the range from zero to
/// `CEILING`.
pub open spec fn clamped(bits: u64) -> int {
    let value = value_of(bits);
    if value < 0 {
        0
    } else if value > value_of(CEILING) {
        value_of(CEILING)
    } else {
        value
    }
}

/// The level that goes out for a channel: 256 times its clamped value,
/// rounded down. A pattern that is no number gives 0.
pub open spec fn level(bits: u64) -> int {
    if is_number(bits) {
        (256 * clamped(bits)) / one()
    } else {
        0
    }
}

/// Scaling a positive normal number by 256 and rounding down cuts its
/// fraction, led by its one, at a place that its exponent gives.
proof fn lemma_scaled(e: nat, f: nat)
    requires
        1 <= e <= 1067,
        f < LEADING,
    ensures
        (256 * size(e, f)) / one() == (LEADING + f) / (pow2((1067 - e) as nat) as int),
{
    let lead = (LEADING + f) as int;
    let up = pow2((e + 7) as nat) as int;
    let down = pow2((1067 - e) as nat) as int;
    lemma_pow2_pos((e + 7) as nat);
    lemma_pow2_pos((1067 - e) as nat);
    lemma_pow2_adds(8, (e - 1) as nat);
    lemma_pow2_adds((e + 7) as nat, (1067 - e) as nat);
    lemma2_to64();
    assert(pow2(8) == 256);
    assert(up == 256 * pow2((e - 1) as nat));
    assert(one() == up * down);
    assert(256 * size(e, f) == up * lead) by (nonlinear_arith)
        requires
            size(e, f) == lead * pow2((e - 1) as nat),
            up == 256 * pow2((e - 1) as nat),
    ;
    lemma_div_multiples_vanish_quotient(up, lead, down);
}

/// A number below one part in 256 has level 0.
proof fn lemma_dark(e: nat, f: nat)
    requires
        e < 1015,
        f < LEADING,
    ensures
        (256 * size(e, f)) / one() == 0,
{
    lemma2_to64();
    lemma2_to64_rest();
    if e == 0 {
        lemma_pow2_strictly_increases(60, 1074);
        assert(pow2(60) == 0x1000_0000_0000_0000);
        assert(0 <= 256 * size(e, f) < one());
        lemma_basic_div(256 * size(e, f), one());
    } else {
        lemma_scaled(e, f);
        if 1067 - e > 53 {
            lemma_pow2_strictly_increases(53, (1067 - e) as nat);
        }
        assert(pow2(53) == 0x20_0000_0000_0000);
        assert(0 <= LEADING + f < pow2((1067 - e) as nat));
        lemma_basic_div((LEADING + f) as int, pow2((1067 - e) as nat) as int);
    }
}

/// The level that goes out for one channel of a pixel, from the channel's
/// binary64 pattern: the channel is clamped to the range from zero to
/// 0.999, multiplied by 256 and rounded down.
pub fn quantize(bits: u64) -> (r: u8)
    ensures
        r == level(bits),
{
    let m: u64 = bits & MAGNITUDE;
    if m > INFINITY {
        return 0;
    }
    proof {
        lemma_magnitude_orders_sizes(bits, CEILING);
        lemma_magnitude_orders_sizes(bits, 0);
        lemma_ceiling();
        assert(0u64 & MAGNITUDE == 0 && 0u64 & FRACTION == 0 && (0u64 >> 52) == 0)
            by (bit_vector);
        assert(size_of(0) == 0);
    }
    if bits & SIGN != 0 || m == 0 {
        proof {
            lemma_pow2_pos(1074);
            lemma_basic_div(0, one());
            assert(clamped(bits) == 0);
        }
        return 0;
    }
    assert(value_of(bits) == size_of(bits) && size_of(bits) > 0);
    if m >= CEILING {
        assert(clamped(bits) == value_of(CEILING));
        return 255;
    }
    assert(clamped(bits) == size_of(bits));
    let e: u64 = m >> 52;
    let f: u64 = m & FRACTION;
    proof {
        assert(f == bits & 0x000F_FFFF_FFFF_FFFF) by (bit_vector)
            requires
                m == bits & 0x7FFF_FFFF_FFFF_FFFF,
                f == m & 0x000F_FFFF_FFFF_FFFF,
        ;
        assert(f < 0x0010_0000_0000_0000 && (m < 0x3FEF_F7CE_D916_872B ==> e <= 1022))
            by (bit_vector)
            requires
                e == m >> 52,
                f == m & 0x000F_FFFF_FFFF_FFFF,
        ;
        assert(size_of(bits) == size(e as nat, f as nat));
    }
    if e < 1015 {
        proof {
            lemma_dark(e as nat, f as nat);
        }
        return 0;
    }
    let shift: u64 = 1067 - e;
    let cut: u64 = (LEADING | f) >> shift;
    proof {
        lemma_scaled(e as nat, f as nat);
        lemma_u64_shr_is_div(LEADING | f, shift);
        assert((0x0010_0000_0000_0000 | f) == 0x0010_0000_0000_0000 + f) by (bit_vector)
            requires
                f < 0x0010_0000_0000_0000,
        ;
        assert(((0x0010_0000_0000_0000 | f) >> shift) < 256) by (bit_vector)
            requires
                f < 0x0010_0000_0000_0000,
                45 <= shift <= 52,
        ;
        assert(cut == (LEADING + f) / (pow2(shift as nat) as int));
    }
    cut as u8
}

/// The line that goes out for a pixel, from the binary64 patterns of its
/// three channels.
pub fn pixel(red: u64, green: u64, blue: u64) -> (r: Vec<u8>)
    ensures
        r@ == line_text(level(red), level(green), level(blue)),
{
    pixel_line(quantize(red) as i32, quantize(green) as i32, quantize(blue) as i32)
}

/// The upper end of the range has level 255.
proof fn lemma_ceiling()
    ensures
        value_of(CEILING) > 0,
        (256 * value_of(CEILING)) / one() == 255,
        is_number(CEILING),
        !negative(CEILING),
        magnitude(CEILING) == CEILING,
{
    assert(0x3FEF_F7CE_D916_872Bu64 & 0x7FFF_FFFF_FFFF_FFFF == 0x3FEF_F7CE_D916_872B)
        by (bit_vector);
    assert(0x3FEF_F7CE_D916_872Bu64 & 0x8000_0000_0000_0000 == 0) by (bit_vector);
    assert(0x3FEF_F7CE_D916_872Bu64 >> 52 == 1022) by (bit_vector);
    assert(0x3FEF_F7CE_D916_872Bu64 & 0x000F_FFFF_FFFF_FFFF == 0x000F_F7CE_D916_872B)
        by (bit_vector);
    assert(size_of(CEILING) == size(1022, 0x000F_F7CE_D916_872B));
    lemma_scaled(1022, 0x000F_F7CE_D916_872B);
    lemma2_to64_rest();
    lemma_pow2_pos(1021);
    assert(size(1022, 0x000F_F7CE_D916_872B) > 0) by (nonlinear_arith)
        requires
            size(1022, 0x000F_F7CE_D916_872B) == (0x0010_0000_0000_0000 + 0x000F_F7CE_D916_872B)
                * pow2(1021),
            pow2(1021) > 0,
    ;
    assert(pow2((1067 - 1022) as nat) == 0x2000_0000_0000);
    assert(0x001F_F7CE_D916_872Bint / 0x2000_0000_0000int == 255);
}

/// Every level lies between 0 and 255, whatever the pattern.
pub proof fn lemma_level_in_range(bits: u64)
    ensures
        0 <= level(bits) <= 255,
{
    if is_number(bits) {
        lemma_ceiling();
        lemma_pow2_pos(1074);
        lemma_div_is_ordered(256 * clamped(bits), 256 * value_of(CEILING), one());
        lemma_div_is_ordered(0, 256 * clamped(bits), one());
        lemma_basic_div(0, one());
    }
}

} // verus!
