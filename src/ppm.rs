use vstd::prelude::*;

use crate::canvas::Canvas;

verus! {

/// Pixels per text line of the dump.
pub const PIXELS_PER_LINE: usize = 70;

/// Largest channel value, as stated in the header.
pub const MAX_CHANNEL: usize = 255;

/// Version digit of the format tag `P3`.
pub const FORMAT_VERSION: usize = 3;

/// ASCII codes.
pub const ZERO: u8 = 48;

pub const SPACE: u8 = 32;

pub const NEWLINE: u8 = 10;

pub const LETTER_P: u8 = 80;

/// Decimal digits of `n`, most significant first, without leading zeros.
pub open spec fn decimal(n: nat) -> Seq<u8>
    decreases n,
{
    if n < 10 {
        seq![(ZERO + n) as u8]
    } else {
        decimal(n / 10).push((ZERO + n % 10) as u8)
    }
}

/// Red channel of a packed color: byte 0.
pub open spec fn red_of(pixel: u32) -> nat {
    (pixel % 256) as nat
}

/// Green channel of a packed color: byte 1.
pub open spec fn green_of(pixel: u32) -> nat {
    (pixel / 256 % 256) as nat
}

/// Blue channel of a packed color: byte 2.
pub open spec fn blue_of(pixel: u32) -> nat {
    (pixel / 65536 % 256) as nat
}

/// Text of one pixel: `" r g b "`.
pub open spec fn pixel_text(pixel: u32) -> Seq<u8> {
    seq![SPACE] + decimal(red_of(pixel)) + seq![SPACE] + decimal(green_of(pixel)) + seq![SPACE]
        + decimal(blue_of(pixel)) + seq![SPACE]
}

/// Text of the first `k` pixels of `ps`: a line break closes every full line
/// of `PIXELS_PER_LINE` pixels and the last line.
pub open spec fn pixels_text(ps: Seq<u32>, k: nat) -> Seq<u8>
    decreases k,
{
    if k == 0 {
        Seq::empty()
    } else {
        let line_end = k % (PIXELS_PER_LINE as nat) == 0 || k == ps.len();
        pixels_text(ps, (k - 1) as nat) + pixel_text(ps[k - 1]) + if line_end {
            seq![NEWLINE]
        } else {
            Seq::empty()
        }
    }
}

/// Header of the dump: format tag, width and height, largest channel value.
pub open spec fn header_text(width: nat, height: nat) -> Seq<u8> {
    seq![LETTER_P] + decimal(FORMAT_VERSION as nat) + seq![NEWLINE] + decimal(width) + seq![SPACE]
        + decimal(height) + seq![NEWLINE] + decimal(MAX_CHANNEL as nat) + seq![NEWLINE]
}

/// Appends the decimal digits of `n`.
fn push_decimal(out: &mut Vec<u8>, n: usize)
    ensures
        final(out)@ == old(out)@ + decimal(n as nat),
    decreases n,
{
    if n >= 10 {
        push_decimal(out, n / 10);
    }
    out.push(ZERO + (n % 10) as u8);
    assert(final(out)@ =~= old(out)@ + decimal(n as nat));
}

/// Appends the text of one pixel.
fn push_pixel(out: &mut Vec<u8>, pixel: u32)
    ensures
        final(out)@ == old(out)@ + pixel_text(pixel),
{
    out.push(SPACE);
    push_decimal(out, (pixel % 256) as usize);
    out.push(SPACE);
    push_decimal(out, (pixel / 256 % 256) as usize);
    out.push(SPACE);
    push_decimal(out, (pixel / 65536 % 256) as usize);
    out.push(SPACE);
    assert(final(out)@ =~= old(out)@ + pixel_text(pixel));
}

impl Canvas {
    /// Text of one pixel in the dump: its red, green and blue bytes in
    /// decimal, each preceded by a space, with a space at the end.
    pub fn pix_to_ppm(pixel: u32) -> (r: Vec<u8>)
        ensures
            r@ == pixel_text(pixel),
    {
        let mut out: Vec<u8> = Vec::new();
        push_pixel(&mut out, pixel);
        assert(out@ =~= pixel_text(pixel));
        out
    }

    /// The whole plain-text pixel dump: the header, then the pixels row by
    /// row, `PIXELS_PER_LINE` to a line.
    pub fn to_ppm(&self) -> (r: Vec<u8>)
        ensures
            r@ == header_text(self.cols(), self.rows()) + pixels_text(
                self.cells(),
                self.cells().len(),
            ),
    {
        let mut out: Vec<u8> = Vec::new();
        out.push(LETTER_P);
        push_decimal(&mut out, FORMAT_VERSION);
        out.push(NEWLINE);
        push_decimal(&mut out, self.width());
        out.push(SPACE);
        push_decimal(&mut out, self.height());
        out.push(NEWLINE);
        push_decimal(&mut out, MAX_CHANNEL);
        out.push(NEWLINE);
        let ghost head = out@;
        assert(head =~= header_text(self.cols(), self.rows()));
        let pixels = self.pixels();
        let n = pixels.len();
        let mut i: usize = 0;
        while i < n
            invariant
                i <= n,
                n == pixels@.len(),
                pixels@ == self.cells(),
                out@ == head + pixels_text(pixels@, i as nat),
            decreases n - i,
        {
            push_pixel(&mut out, pixels[i]);
            i += 1;
            if i % PIXELS_PER_LINE == 0 || i == n {
                out.push(NEWLINE);
            }
            assert(out@ =~= head + pixels_text(pixels@, i as nat));
        }
        out
    }
}

} // verus!
