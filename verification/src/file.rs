use vstd::prelude::*;

verus! {

/// The decimal digits of `n` in ASCII, most significant first, without
/// leading zeros.
pub open spec fn digits(n: nat) -> Seq<u8>
    decreases n,
{
    if n < 10 {
        seq![(48 + n) as u8]
    } else {
        digits(n / 10).push((48 + n % 10) as u8)
    }
}

/// `n` written in decimal, with a minus sign in front where it is negative.
pub open spec fn decimal(n: int) -> Seq<u8> {
    if n < 0 {
        seq![45u8] + digits((-n) as nat)
    } else {
        digits(n as nat)
    }
}

/// The header of a plain-text pixel map: the line `P3`, a line with the
/// width, a space and the height, and the line `255`.
pub open spec fn header_text(width: int, height: int) -> Seq<u8> {
    seq![80u8, 51u8, 10u8] + decimal(width) + seq![32u8] + decimal(height) + seq![
        10u8,
        50u8,
        53u8,
        53u8,
        10u8,
    ]
}

/// One pixel's line: the three channels in decimal, a space between them
/// and a line feed at the end.
pub open spec fn line_text(red: int, green: int, blue: int) -> Seq<u8> {
    decimal(red) + seq![32u8] + decimal(green) + seq![32u8] + decimal(blue) + seq![10u8]
}

fn push_digits(out: &mut Vec<u8>, n: u64)
    ensures
        final(out)@ == old(out)@ + digits(n as nat),
    decreases n,
{
    if n >= 10 {
        push_digits(out, n / 10);
    }
    out.push((48 + n % 10) as u8);
}

fn push_decimal(out: &mut Vec<u8>, n: i64)
    ensures
        final(out)@ == old(out)@ + decimal(n as int),
{
    if n < 0 {
        out.push(45u8);
        let magnitude: u64 = (-(n + 1)) as u64 + 1;
        push_digits(out, magnitude);
    } else {
        push_digits(out, n as u64);
    }
}

/// The bytes that open an image of the given size.
pub fn header(width: i64, height: i64) -> (r: Vec<u8>)
    ensures
        r@ == header_text(width as int, height as int),
{
    let mut out: Vec<u8> = Vec::new();
    out.push(80u8);
    out.push(51u8);
    out.push(10u8);
    push_decimal(&mut out, width);
    out.push(32u8);
    push_decimal(&mut out, height);
    out.push(10u8);
    out.push(50u8);
    out.push(53u8);
    out.push(53u8);
    out.push(10u8);
    out
}

/// The bytes of one pixel's line.
pub fn pixel_line(red: i32, green: i32, blue: i32) -> (r: Vec<u8>)
    ensures
        r@ == line_text(red as int, green as int, blue as int),
{
    let mut out: Vec<u8> = Vec::new();
    push_decimal(&mut out, red as i64);
    out.push(32u8);
    push_decimal(&mut out, green as i64);
    out.push(32u8);
    push_decimal(&mut out, blue as i64);
    out.push(10u8);
    out
}

} // verus!
