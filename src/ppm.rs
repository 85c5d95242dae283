//! Byte-exact ASCII PPM (P3): a three-line header, then one line of three
//! decimal channel values per pixel.
use vstd::prelude::*;
use crate::color::Rgb;

verus! {

/// ASCII `0`.
pub const ASCII_ZERO: u8 = 48;

/// ASCII space, between the values of a line.
pub const SPACE: u8 = 32;

/// ASCII line feed, ending each line.
pub const NEWLINE: u8 = 10;

/// ASCII `P`, the first byte of the magic number.
pub const LETTER_P: u8 = 80;

/// The format's version digit: `P3` is the ASCII pixmap.
pub const FORMAT_DIGIT: u8 = 3;

/// The largest channel value, written in the header.
pub const MAX_VALUE: u64 = 255;

/// The ASCII digit for `d < 10`.
pub open spec fn digit(d: nat) -> u8 {
    (ASCII_ZERO + d) as u8
}

/// The decimal digits of `n`, most significant first, with no leading zero.
pub open spec fn decimal(n: nat) -> Seq<u8>
    decreases n,
{
    if n < 10 {
        seq![digit(n)]
    } else {
        decimal(n / 10) + seq![digit(n % 10)]
    }
}

/// `P3`, then `<width> <height>`, then the maximum channel value `255`, each
/// on a line of its own.
pub open spec fn header(width: nat, height: nat) -> Seq<u8> {
    seq![LETTER_P, digit(FORMAT_DIGIT as nat), NEWLINE] + decimal(width) + seq![SPACE] + decimal(
        height,
    ) + seq![NEWLINE] + decimal(MAX_VALUE as nat) + seq![NEWLINE]
}

/// One pixel: its three channels in decimal, separated by spaces, ending
/// with a newline.
pub open spec fn pixel_line(c: Rgb) -> Seq<u8> {
    decimal(c.r as nat) + seq![SPACE] + decimal(c.g as nat) + seq![SPACE] + decimal(c.b as nat)
        + seq![NEWLINE]
}

/// The lines of all pixels, in the order given.
pub open spec fn pixel_lines(pixels: Seq<Rgb>) -> Seq<u8>
    decreases pixels.len(),
{
    if pixels.len() == 0 {
        seq![]
    } else {
        pixel_lines(pixels.drop_last()) + pixel_line(pixels.last())
    }
}

/// The whole image file.
pub open spec fn ppm_bytes(width: nat, height: nat, pixels: Seq<Rgb>) -> Seq<u8> {
    header(width, height) + pixel_lines(pixels)
}

/// Appends the decimal digits of `n` to `out`.
pub fn push_decimal(out: &mut Vec<u8>, n: u64)
    ensures
        final(out)@ == old(out)@ + decimal(n as nat),
    decreases n,
{
    if n >= 10 {
        push_decimal(out, n / 10);
    }
    out.push(ASCII_ZERO + (n % 10) as u8);
    assert(final(out)@ =~= old(out)@ + decimal(n as nat));
}

/// Appends the line of one pixel to `out`.
pub fn push_pixel_line(out: &mut Vec<u8>, c: Rgb)
    ensures
        final(out)@ == old(out)@ + pixel_line(c),
{
    push_decimal(out, c.r as u64);
    out.push(SPACE);
    push_decimal(out, c.g as u64);
    out.push(SPACE);
    push_decimal(out, c.b as u64);
    out.push(NEWLINE);
    assert(final(out)@ =~= old(out)@ + pixel_line(c));
}

/// The header of a `width` by `height` image.
pub fn ppm_header(width: u32, height: u32) -> (r: Vec<u8>)
    ensures
        r@ == header(width as nat, height as nat),
{
    let mut out: Vec<u8> = Vec::new();
    out.push(LETTER_P);
    out.push(ASCII_ZERO + FORMAT_DIGIT);
    out.push(NEWLINE);
    push_decimal(&mut out, width as u64);
    out.push(SPACE);
    push_decimal(&mut out, height as u64);
    out.push(NEWLINE);
    push_decimal(&mut out, MAX_VALUE);
    out.push(NEWLINE);
    assert(out@ =~= header(width as nat, height as nat));
    out
}

/// The whole image file of a `width` by `height` image whose pixels are
/// given row by row, top to bottom, each row left to right. `None` exactly
/// when the number of pixels is not `width * height`.
pub fn encode_ppm(width: u32, height: u32, pixels: &Vec<Rgb>) -> (r: Option<Vec<u8>>)
    ensures
        r is Some <==> pixels.len() == width * height,
        r matches Some(bytes) ==> bytes@ == ppm_bytes(width as nat, height as nat, pixels@),
{
    assert(width as u64 * height as u64 <= u64::MAX) by (nonlinear_arith)
        requires
            width <= u32::MAX,
            height <= u32::MAX,
    ;
    if pixels.len() as u64 != width as u64 * height as u64 {
        return None;
    }
    let mut out = ppm_header(width, height);
    let mut k: usize = 0;
    while k < pixels.len()
        invariant
            0 <= k <= pixels.len(),
            out@ == header(width as nat, height as nat) + pixel_lines(pixels@.subrange(0, k as int)),
        decreases pixels.len() - k,
    {
        push_pixel_line(&mut out, pixels[k]);
        assert(pixels@.subrange(0, k + 1).drop_last() =~= pixels@.subrange(0, k as int));
        k = k + 1;
    }
    assert(pixels@.subrange(0, k as int) =~= pixels@);
    Some(out)
}

/// How many times the byte `b` occurs in `s`.
pub open spec fn count_byte(s: Seq<u8>, b: u8) -> nat
    decreases s.len(),
{
    if s.len() == 0 {
        0
    } else {
        count_byte(s.drop_last(), b) + if s.last() == b {
            1nat
        } else {
            0nat
        }
    }
}

proof fn lemma_count_concat(s: Seq<u8>, t: Seq<u8>, b: u8)
    ensures
        count_byte(s + t, b) == count_byte(s, b) + count_byte(t, b),
    decreases t.len(),
{
    if t.len() == 0 {
        assert(s + t =~= s);
    } else {
        lemma_count_concat(s, t.drop_last(), b);
        assert((s + t).drop_last() =~= s + t.drop_last());
    }
}

proof fn lemma_count_single(x: u8, b: u8)
    ensures
        count_byte(seq![x], b) == if x == b {
            1nat
        } else {
            0nat
        },
{
    assert(seq![x].drop_last() =~= Seq::<u8>::empty());
    reveal_with_fuel(count_byte, 2);
}

proof fn lemma_decimal_has_no_newline(n: nat)
    ensures
        count_byte(decimal(n), NEWLINE) == 0,
    decreases n,
{
    lemma_count_single(digit(n % 10), NEWLINE);
    if n >= 10 {
        lemma_decimal_has_no_newline(n / 10);
        lemma_count_concat(decimal(n / 10), seq![digit(n % 10)], NEWLINE);
    }
}

proof fn lemma_pixel_line_has_one_newline(c: Rgb)
    ensures
        count_byte(pixel_line(c), NEWLINE) == 1,
{
    let r = decimal(c.r as nat);
    let g = decimal(c.g as nat);
    let b = decimal(c.b as nat);
    lemma_decimal_has_no_newline(c.r as nat);
    lemma_decimal_has_no_newline(c.g as nat);
    lemma_decimal_has_no_newline(c.b as nat);
    lemma_count_single(SPACE, NEWLINE);
    lemma_count_single(NEWLINE, NEWLINE);
    lemma_count_concat(r, seq![SPACE], NEWLINE);
    lemma_count_concat(r + seq![SPACE], g, NEWLINE);
    lemma_count_concat(r + seq![SPACE] + g, seq![SPACE], NEWLINE);
    lemma_count_concat(r + seq![SPACE] + g + seq![SPACE], b, NEWLINE);
    lemma_count_concat(r + seq![SPACE] + g + seq![SPACE] + b, seq![NEWLINE], NEWLINE);
}

proof fn lemma_header_has_three_newlines(width: nat, height: nat)
    ensures
        count_byte(header(width, height), NEWLINE) == 3,
{
    let magic = seq![LETTER_P, digit(FORMAT_DIGIT as nat), NEWLINE];
    let w = decimal(width);
    let h = decimal(height);
    let m = decimal(MAX_VALUE as nat);
    assert(magic =~= seq![LETTER_P, digit(FORMAT_DIGIT as nat)] + seq![NEWLINE]);
    assert(seq![LETTER_P, digit(FORMAT_DIGIT as nat)] =~= seq![LETTER_P] + seq![digit(
        FORMAT_DIGIT as nat,
    )]);
    lemma_count_single(LETTER_P, NEWLINE);
    lemma_count_single(digit(FORMAT_DIGIT as nat), NEWLINE);
    lemma_count_single(SPACE, NEWLINE);
    lemma_count_single(NEWLINE, NEWLINE);
    lemma_count_concat(seq![LETTER_P], seq![digit(FORMAT_DIGIT as nat)], NEWLINE);
    lemma_count_concat(seq![LETTER_P, digit(FORMAT_DIGIT as nat)], seq![NEWLINE], NEWLINE);
    lemma_decimal_has_no_newline(width);
    lemma_decimal_has_no_newline(height);
    lemma_decimal_has_no_newline(MAX_VALUE as nat);
    lemma_count_concat(magic, w, NEWLINE);
    lemma_count_concat(magic + w, seq![SPACE], NEWLINE);
    lemma_count_concat(magic + w + seq![SPACE], h, NEWLINE);
    lemma_count_concat(magic + w + seq![SPACE] + h, seq![NEWLINE], NEWLINE);
    lemma_count_concat(magic + w + seq![SPACE] + h + seq![NEWLINE], m, NEWLINE);
    lemma_count_concat(magic + w + seq![SPACE] + h + seq![NEWLINE] + m, seq![NEWLINE], NEWLINE);
}

proof fn lemma_one_newline_per_pixel(pixels: Seq<Rgb>)
    ensures
        count_byte(pixel_lines(pixels), NEWLINE) == pixels.len(),
    decreases pixels.len(),
{
    if pixels.len() > 0 {
        lemma_one_newline_per_pixel(pixels.drop_last());
        lemma_pixel_line_has_one_newline(pixels.last());
        lemma_count_concat(pixel_lines(pixels.drop_last()), pixel_line(pixels.last()), NEWLINE);
    }
}

/// An image file of `width * height` pixels has three header lines followed
/// by exactly `width * height` pixel lines.
pub proof fn one_line_per_pixel(width: nat, height: nat, pixels: Seq<Rgb>)
    requires
        pixels.len() == width * height,
    ensures
        count_byte(header(width, height), NEWLINE) == 3,
        count_byte(pixel_lines(pixels), NEWLINE) == width * height,
        count_byte(ppm_bytes(width, height, pixels), NEWLINE) == 3 + width * height,
{
    lemma_header_has_three_newlines(width, height);
    lemma_one_newline_per_pixel(pixels);
    lemma_count_concat(header(width, height), pixel_lines(pixels), NEWLINE);
}

} // verus!
