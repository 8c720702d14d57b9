//! Plain-text PPM (`P3`) encoding: a header, then one line per pixel.
use vstd::prelude::*;

verus! {

/// ASCII line feed, which ends every line of the format.
pub const NEWLINE: u8 = 10;

/// ASCII space, which separates the numbers on a line.
pub const SPACE: u8 = 32;

/// ASCII `0`; the digit `d` is written as `ZERO + d`.
pub const ZERO: u8 = 48;

/// ASCII `P`, the first byte of the magic number `P3`.
pub const LETTER_P: u8 = 80;

/// ASCII code of the digit `d` (`d < 10`).
pub open spec fn digit_byte(d: nat) -> u8 {
    (ZERO + d) as u8
}

/// Decimal digits of `n`, most significant first, without leading zeros.
pub open spec fn decimal(n: nat) -> Seq<u8>
    decreases n,
{
    if n < 10 {
        seq![digit_byte(n)]
    } else {
        decimal(n / 10).push(digit_byte(n % 10))
    }
}

/// Appends the decimal digits of `n` to `out`.
pub fn push_decimal(out: &mut Vec<u8>, n: u32)
    ensures
        final(out)@ == old(out)@ + decimal(n as nat),
    decreases n,
{
    if n < 10 {
        out.push(ZERO + n as u8);
    } else {
        push_decimal(out, n / 10);
        out.push(ZERO + (n % 10) as u8);
        assert(out@ =~= old(out)@ + decimal(n as nat));
    }
}

/// Header of a `P3` image: the magic number, then width and height separated
/// by a space, then the maximum channel value 255, each on a line of its own.
pub open spec fn header_bytes(width: nat, height: nat) -> Seq<u8> {
    seq![LETTER_P, digit_byte(3), NEWLINE] + decimal(width) + seq![SPACE] + decimal(height) + seq![
        NEWLINE,
        digit_byte(2),
        digit_byte(5),
        digit_byte(5),
        NEWLINE,
    ]
}

/// One pixel line: the three channel values separated by spaces.
pub open spec fn pixel_bytes(r: nat, g: nat, b: nat) -> Seq<u8> {
    decimal(r) + seq![SPACE] + decimal(g) + seq![SPACE] + decimal(b) + seq![NEWLINE]
}

/// Encodes the header of a `P3` image of the given size.
pub fn ppm_header(width: u32, height: u32) -> (r: Vec<u8>)
    ensures
        r@ == header_bytes(width as nat, height as nat),
{
    let mut out: Vec<u8> = Vec::new();
    out.push(LETTER_P);
    out.push(ZERO + 3);
    out.push(NEWLINE);
    push_decimal(&mut out, width);
    out.push(SPACE);
    push_decimal(&mut out, height);
    out.push(NEWLINE);
    out.push(ZERO + 2);
    out.push(ZERO + 5);
    out.push(ZERO + 5);
    out.push(NEWLINE);
    assert(out@ =~= header_bytes(width as nat, height as nat));
    out
}

/// Appends the line of one pixel with channels `r`, `g`, `b` to `out`.
pub fn push_pixel(out: &mut Vec<u8>, r: u8, g: u8, b: u8)
    ensures
        final(out)@ == old(out)@ + pixel_bytes(r as nat, g as nat, b as nat),
{
    push_decimal(out, r as u32);
    out.push(SPACE);
    push_decimal(out, g as u32);
    out.push(SPACE);
    push_decimal(out, b as u32);
    out.push(NEWLINE);
    assert(out@ =~= old(out)@ + pixel_bytes(r as nat, g as nat, b as nat));
}

/// Encodes the line of one pixel with channels `r`, `g`, `b`.
pub fn pixel_line(r: u8, g: u8, b: u8) -> (line: Vec<u8>)
    ensures
        line@ == pixel_bytes(r as nat, g as nat, b as nat),
{
    let mut out: Vec<u8> = Vec::new();
    push_pixel(&mut out, r, g, b);
    assert(out@ =~= pixel_bytes(r as nat, g as nat, b as nat));
    out
}

} // verus!
