//! The plain-text PPM encoding of a rendered image.
//!
//! The text opens with the plain-PPM magic line, the width and height, and
//! the maximum value `255`, then holds one line `r g b` per pixel, row by row
//! from the top, each row left to right.
use vstd::prelude::*;
use crate::shade::Pixel;

verus! {

/// ASCII codes used by the encoding.
pub const SPACE: u8 = 32;

pub const NEWLINE: u8 = 10;

/// The decimal digits of `n`, most significant first, without leading zeros.
pub open spec fn decimal(n: nat) -> Seq<u8>
    decreases n,
{
    if n < 10 {
        seq![(48 + n) as u8]
    } else {
        decimal(n / 10) + seq![(48 + n % 10) as u8]
    }
}

/// The header for a `w` by `h` image: the magic line, `<w> <h>`, and `255`,
/// each ended by a newline.
pub open spec fn header_text(w: nat, h: nat) -> Seq<u8> {
    seq![80u8, 51u8, NEWLINE] + decimal(w) + seq![SPACE] + decimal(h) + seq![NEWLINE] + seq![
        50u8,
        53u8,
        53u8,
        NEWLINE,
    ]
}

/// The line of one pixel: `<r> <g> <b>\n`.
pub open spec fn pixel_text(p: Pixel) -> Seq<u8> {
    decimal(p.r as nat) + seq![SPACE] + decimal(p.g as nat) + seq![SPACE] + decimal(p.b as nat)
        + seq![NEWLINE]
}

/// The lines of the first `n` pixels of `ps`.
pub open spec fn pixels_text(ps: Seq<Pixel>, n: int) -> Seq<u8>
    decreases n,
{
    if n <= 0 {
        Seq::empty()
    } else {
        pixels_text(ps, n - 1) + pixel_text(ps[n - 1])
    }
}

/// The lines of the first `n` rows of `rows`.
pub open spec fn rows_text(rows: Seq<Vec<Pixel>>, n: int) -> Seq<u8>
    decreases n,
{
    if n <= 0 {
        Seq::empty()
    } else {
        rows_text(rows, n - 1) + pixels_text(rows[n - 1]@, rows[n - 1]@.len() as int)
    }
}

/// Appends the decimal digits of `n`.
pub fn push_decimal(out: &mut Vec<u8>, n: u64)
    ensures
        final(out)@ == old(out)@ + decimal(n as nat),
    decreases n,
{
    if n >= 10 {
        push_decimal(out, n / 10);
    }
    out.push((48 + n % 10) as u8);
    proof {
        if n < 10 {
            assert(n % 10 == n);
        }
        assert(final(out)@ =~= old(out)@ + decimal(n as nat));
    }
}

/// The header for a `width` by `height` image.
pub fn header(width: u64, height: u64) -> (text: Vec<u8>)
    ensures
        text@ == header_text(width as nat, height as nat),
{
    let mut out: Vec<u8> = Vec::new();
    out.push(80);
    out.push(51);
    out.push(NEWLINE);
    push_decimal(&mut out, width);
    out.push(SPACE);
    push_decimal(&mut out, height);
    out.push(NEWLINE);
    out.push(50);
    out.push(53);
    out.push(53);
    out.push(NEWLINE);
    assert(out@ =~= header_text(width as nat, height as nat));
    out
}

/// Appends the line of one pixel.
pub fn push_pixel(out: &mut Vec<u8>, p: Pixel)
    ensures
        final(out)@ == old(out)@ + pixel_text(p),
{
    push_decimal(out, p.r as u64);
    out.push(SPACE);
    push_decimal(out, p.g as u64);
    out.push(SPACE);
    push_decimal(out, p.b as u64);
    out.push(NEWLINE);
    assert(final(out)@ =~= old(out)@ + pixel_text(p));
}

/// The lines of one row of pixels.
pub fn encode_row(row: &Vec<Pixel>) -> (text: Vec<u8>)
    ensures
        text@ == pixels_text(row@, row@.len() as int),
{
    let mut out: Vec<u8> = Vec::new();
    let mut i: usize = 0;
    while i < row.len()
        invariant
            0 <= i <= row@.len(),
            out@ == pixels_text(row@, i as int),
        decreases row@.len() - i,
    {
        push_pixel(&mut out, row[i]);
        i = i + 1;
    }
    out
}

/// The whole text of an image given as rows of pixels.
pub fn encode_image(width: u64, height: u64, rows: &Vec<Vec<Pixel>>) -> (text: Vec<u8>)
    ensures
        text@ == header_text(width as nat, height as nat) + rows_text(rows@, rows@.len() as int),
{
    let mut out = header(width, height);
    let mut i: usize = 0;
    while i < rows.len()
        invariant
            0 <= i <= rows@.len(),
            out@ == header_text(width as nat, height as nat) + rows_text(rows@, i as int),
        decreases rows@.len() - i,
    {
        let line = encode_row(&rows[i]);
        let mut j: usize = 0;
        let ghost start = out@;
        while j < line.len()
            invariant
                0 <= j <= line@.len(),
                out@ == start + line@.subrange(0, j as int),
            decreases line@.len() - j,
        {
            out.push(line[j]);
            j = j + 1;
            assert(out@ =~= start + line@.subrange(0, j as int));
        }
        assert(line@.subrange(0, line@.len() as int) =~= line@);
        assert(out@ =~= header_text(width as nat, height as nat) + rows_text(rows@, i + 1));
        i = i + 1;
    }
    out
}

} // verus!
