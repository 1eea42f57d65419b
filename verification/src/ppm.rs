//! The text of a plain PPM image: decimal numbers, the header, and the
//! bytes in which they are written.

use vstd::prelude::*;

verus! {

/// The ASCII digit of `n` at the place of `unit`, a power of ten.
pub open spec fn digit(n: nat, unit: nat) -> u8 {
    (48 + (n / unit) % 10) as u8
}

/// The digit of `n` at the place of `unit`, if `n` reaches that place.
pub open spec fn place(n: nat, unit: nat) -> Seq<u8> {
    if n >= unit {
        seq![digit(n, unit)]
    } else {
        Seq::<u8>::empty()
    }
}

/// The ASCII digits of `n`, without leading zeros, for `n` below ten to
/// the power ten: the digit at each place that `n` reaches, and the last
/// one in any case.
pub open spec fn digits(n: nat) -> Seq<u8> {
    place(n, 1_000_000_000) + place(n, 100_000_000) + place(n, 10_000_000) + place(n, 1_000_000)
        + place(n, 100_000) + place(n, 10_000) + place(n, 1_000) + place(n, 100) + place(n, 10)
        + seq![digit(n, 1)]
}

/// `n` in decimal: a minus sign where it is negative, then its digits.
pub open spec fn decimal(n: int) -> Seq<u8> {
    if n < 0 {
        seq![45u8] + digits((-n) as nat)
    } else {
        digits(n as nat)
    }
}

/// The header of a plain PPM image of the given size, with 255 as the
/// largest channel value: the magic number of the format, the width and
/// the height with a space between them, and `255`, each on a line of its
/// own.
pub open spec fn header_text(width: int, height: int) -> Seq<u8> {
    seq![80u8, 51u8, 10u8] + decimal(width) + seq![32u8] + decimal(height) + seq![
        10u8,
        50u8,
        53u8,
        53u8,
        10u8,
    ]
}

/// Appends the digits of `n` to `out`.
fn push_digits(n: u32, out: &mut Vec<u8>)
    ensures
        final(out)@ == old(out)@ + digits(n as nat),
    decreases n,
{
    if n >= 10 {
        push_digits(n / 10, out);
    }
    out.push(48u8 + (n % 10) as u8);
    assert(final(out)@ =~= old(out)@ + digits(n as nat));
}

/// Appends `n` in decimal to `out`.
pub fn push_decimal(n: i32, out: &mut Vec<u8>)
    ensures
        final(out)@ == old(out)@ + decimal(n as int),
{
    if n < 0 {
        out.push(45u8);
        push_digits((-(n as i64)) as u32, out);
        assert(final(out)@ =~= old(out)@ + decimal(n as int));
    } else {
        push_digits(n as u32, out);
    }
}

/// The header of a plain PPM image of the given size.
pub fn header(width: i32, height: i32) -> (r: Vec<u8>)
    ensures
        r@ == header_text(width as int, height as int),
{
    let mut out: Vec<u8> = Vec::new();
    out.push(80u8);
    out.push(51u8);
    out.push(10u8);
    push_decimal(width, &mut out);
    out.push(32u8);
    push_decimal(height, &mut out);
    out.push(10u8);
    out.push(50u8);
    out.push(53u8);
    out.push(53u8);
    out.push(10u8);
    assert(out@ =~= header_text(width as int, height as int));
    out
}

} // verus!
