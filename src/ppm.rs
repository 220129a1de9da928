use vstd::prelude::*;

verus! {

/// ASCII code of the digit `0`.
pub const ZERO: u8 = 48;

/// ASCII code of a space.
pub const SPACE: u8 = 32;

/// ASCII code of a line feed.
pub const NEWLINE: u8 = 10;

/// The ASCII decimal digits of `n`, most significant first, without leading
/// zeros.
pub open spec fn decimal(n: nat) -> Seq<u8>
    decreases n,
{
    if n < 10 {
        seq![(ZERO + n) as u8]
    } else {
        decimal(n / 10).push((ZERO + n % 10) as u8)
    }
}

/// The number that the ASCII digits `s` spell, most significant first.
pub open spec fn digits_value(s: Seq<u8>) -> nat
    decreases s.len(),
{
    if s.len() == 0 {
        0
    } else {
        digits_value(s.drop_last()) * 10 + (s.last() - ZERO) as nat
    }
}

/// The decimal text of `n` reads back as `n`: it is a non-empty run of ASCII
/// digits whose first digit is zero only when `n` is zero.
pub proof fn lemma_decimal_round_trip(n: nat)
    ensures
        digits_value(decimal(n)) == n,
        decimal(n).len() > 0,
        forall|i: int| 0 <= i < decimal(n).len() ==> ZERO <= #[trigger] decimal(n)[i] <= ZERO + 9,
        decimal(n)[0] == ZERO ==> n == 0,
    decreases n,
{
    if n >= 10 {
        lemma_decimal_round_trip(n / 10);
        let d = decimal(n);
        assert(d.drop_last() =~= decimal(n / 10));
        assert(d[0] == decimal(n / 10)[0]);
        assert(d.last() - ZERO == n % 10);
        vstd::arithmetic::div_mod::lemma_fundamental_div_mod(n as int, 10);
    } else {
        let d = decimal(n);
        assert(d.drop_last() =~= Seq::<u8>::empty());
        assert(digits_value(d.drop_last()) == 0);
    }
}

/// The header of a plain-text pixmap: the format's magic (the bytes 80 and 51,
/// a capital letter P and a digit three), then the width and height, then the
/// largest channel value 255, each on a line of its own.
pub open spec fn spec_ppm_header(width: nat, height: nat) -> Seq<u8> {
    seq![80u8, 51u8, NEWLINE] + decimal(width) + seq![SPACE] + decimal(height) + seq![
        NEWLINE,
        50u8,
        53u8,
        53u8,
        NEWLINE,
    ]
}

/// One pixel of a plain-text image: its three channel values separated by
/// spaces, on a line of its own.
pub open spec fn spec_ppm_pixel(r: nat, g: nat, b: nat) -> Seq<u8> {
    decimal(r) + seq![SPACE] + decimal(g) + seq![SPACE] + decimal(b) + seq![NEWLINE]
}

/// The header of a floating-point pixmap: the magic `PF` (bytes 80 and 70),
/// then the width and height, then the scale, minus one written with one
/// decimal place (bytes 45, 49, 46, 48), whose sign marks little-endian data.
pub open spec fn spec_pfm_header(width: nat, height: nat) -> Seq<u8> {
    seq![80u8, 70u8, NEWLINE] + decimal(width) + seq![SPACE] + decimal(height) + seq![
        NEWLINE,
        45u8,
        49u8,
        46u8,
        ZERO,
        NEWLINE,
    ]
}

/// Appends the decimal digits of `n` to `out`.
pub fn push_decimal(out: &mut Vec<u8>, n: usize)
    ensures
        final(out)@ == old(out)@ + decimal(n as nat),
    decreases n,
{
    if n >= 10 {
        push_decimal(out, n / 10);
    }
    let digit = (n % 10) as u8;
    out.push(ZERO + digit);
    proof {
        if n >= 10 {
            assert(old(out)@ + decimal(n as nat) =~= old(out)@ + decimal((n / 10) as nat) + seq![
                (ZERO + digit) as u8,
            ]);
        } else {
            assert(old(out)@ + decimal(n as nat) =~= old(out)@.push((ZERO + digit) as u8));
        }
    }
}

/// Appends the bytes of `tail` to `out`.
fn push_all(out: &mut Vec<u8>, tail: &[u8])
    ensures
        final(out)@ == old(out)@ + tail@,
{
    let mut i: usize = 0;
    while i < tail.len()
        invariant
            i <= tail@.len(),
            out@ == old(out)@ + tail@.subrange(0, i as int),
        decreases tail@.len() - i,
    {
        out.push(tail[i]);
        i = i + 1;
        assert(out@ =~= old(out)@ + tail@.subrange(0, i as int));
    }
    assert(tail@.subrange(0, i as int) =~= tail@);
}

/// The header of a plain-text image of `width` by `height` pixels.
pub fn ppm_header(width: usize, height: usize) -> (r: Vec<u8>)
    ensures
        r@ == spec_ppm_header(width as nat, height as nat),
{
    let mut out: Vec<u8> = Vec::new();
    push_all(&mut out, &[80u8, 51u8, NEWLINE]);
    push_decimal(&mut out, width);
    out.push(SPACE);
    push_decimal(&mut out, height);
    push_all(&mut out, &[NEWLINE, 50u8, 53u8, 53u8, NEWLINE]);
    assert(out@ =~= spec_ppm_header(width as nat, height as nat));
    out
}

/// The text line of one pixel whose channels are `r`, `g` and `b`.
pub fn ppm_pixel(r: u8, g: u8, b: u8) -> (line: Vec<u8>)
    ensures
        line@ == spec_ppm_pixel(r as nat, g as nat, b as nat),
{
    let mut out: Vec<u8> = Vec::new();
    push_decimal(&mut out, r as usize);
    out.push(SPACE);
    push_decimal(&mut out, g as usize);
    out.push(SPACE);
    push_decimal(&mut out, b as usize);
    out.push(NEWLINE);
    assert(out@ =~= spec_ppm_pixel(r as nat, g as nat, b as nat));
    out
}

/// The header of a floating-point image of `width` by `height` pixels.
pub fn pfm_header(width: usize, height: usize) -> (r: Vec<u8>)
    ensures
        r@ == spec_pfm_header(width as nat, height as nat),
{
    let mut out: Vec<u8> = Vec::new();
    push_all(&mut out, &[80u8, 70u8, NEWLINE]);
    push_decimal(&mut out, width);
    out.push(SPACE);
    push_decimal(&mut out, height);
    push_all(&mut out, &[NEWLINE, 45u8, 49u8, 46u8, ZERO, NEWLINE]);
    assert(out@ =~= spec_pfm_header(width as nat, height as nat));
    out
}

} // verus!
