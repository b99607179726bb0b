//! A plain-text pixel-dump image encoder.
//!
//! The buffer collects RGB triples in row-major order; `write_to` appends the
//! finished image to a byte sink as a fixed text format: a magic token line,
//! a dimensions line, a maximum-value line, then one "R G B" line per pixel.
//! The byte stream produced is pinned down exactly by `ppm_encoding`.

use vstd::prelude::*;

verus! {

/// Maximum channel value written in the header.
pub const MAXVALUE: u8 = 255;

/// ASCII '0'; digit d is rendered as the byte `DIGIT0 + d`.
pub const DIGIT0: u8 = 0x30;

/// ASCII newline.
pub const NL: u8 = 0x0a;

/// ASCII space.
pub const SP: u8 = 0x20;

/// ASCII minus sign.
pub const MINUS: u8 = 0x2d;

/// ASCII 'P' of the magic token.
pub const MAGIC_P: u8 = 0x50;

/// ASCII '3' of the magic token.
pub const MAGIC_3: u8 = 0x33;

/// Decimal digits of `n`, most significant first, as ASCII bytes.
pub open spec fn dec_digits(n: nat) -> Seq<u8>
    decreases n,
{
    if n < 10 {
        seq![(n + DIGIT0) as u8]
    } else {
        dec_digits(n / 10).push((n % 10 + DIGIT0) as u8)
    }
}

/// Decimal rendering of a signed value: a minus sign before the digits of the
/// magnitude when `n` is negative.
pub open spec fn signed_decimal(n: int) -> Seq<u8> {
    if n < 0 {
        seq![MINUS] + dec_digits((-n) as nat)
    } else {
        dec_digits(n as nat)
    }
}

/// One image row entry: "R G B" followed by a newline.
pub open spec fn pixel_line(p: (u8, u8, u8)) -> Seq<u8> {
    dec_digits(p.0 as nat) + seq![SP] + dec_digits(p.1 as nat) + seq![SP]
        + dec_digits(p.2 as nat) + seq![NL]
}

/// The pixel lines of the whole buffer, in order.
pub open spec fn pixel_lines(ps: Seq<(u8, u8, u8)>) -> Seq<u8>
    decreases ps.len(),
{
    if ps.len() == 0 {
        Seq::empty()
    } else {
        pixel_lines(ps.drop_last()) + pixel_line(ps.last())
    }
}

/// The complete encoding: "P3", then "<width> <height>", then the maximum
/// channel value, each on its own line, then one line per pixel.
pub open spec fn ppm_encoding(width: int, height: int, ps: Seq<(u8, u8, u8)>) -> Seq<u8> {
    seq![MAGIC_P, MAGIC_3, NL] + signed_decimal(width) + seq![SP] + signed_decimal(height)
        + seq![NL] + dec_digits(MAXVALUE as nat) + seq![NL] + pixel_lines(ps)
}

/// Appends the decimal digits of `n` to `dest`.
fn push_decimal_u32(dest: &mut Vec<u8>, n: u32)
    ensures
        final(dest)@ == old(dest)@ + dec_digits(n as nat),
    decreases n,
{
    if n < 10 {
        dest.push((n as u8) + DIGIT0);
        assert(dest@ =~= old(dest)@ + dec_digits(n as nat));
    } else {
        push_decimal_u32(dest, n / 10);
        dest.push(((n % 10) as u8) + DIGIT0);
        assert(dest@ =~= old(dest)@ + dec_digits(n as nat));
    }
}

/// Appends the decimal rendering of `n`, sign included, to `dest`.
fn push_decimal_i32(dest: &mut Vec<u8>, n: i32)
    ensures
        final(dest)@ == old(dest)@ + signed_decimal(n as int),
{
    if n < 0 {
        dest.push(MINUS);
        let m: u32 = (-(n as i64)) as u32;
        push_decimal_u32(dest, m);
        assert(dest@ =~= old(dest)@ + signed_decimal(n as int));
    } else {
        push_decimal_u32(dest, n as u32);
    }
}

/// A pixel buffer that encodes itself as the text format above.
pub struct PPMEncoder {
    pixels: Vec<(u8, u8, u8)>,
    width: i32,
    height: i32,
}

impl PPMEncoder {
    /// The width announced in the header.
    pub closed spec fn width_spec(self) -> int {
        self.width as int
    }

    /// The height announced in the header.
    pub closed spec fn height_spec(self) -> int {
        self.height as int
    }

    /// The pixels collected so far, in the order they were put.
    pub closed spec fn pixels_spec(self) -> Seq<(u8, u8, u8)> {
        self.pixels@
    }

    /// An empty buffer for an image of the given dimensions.
    pub fn new(width: i32, height: i32) -> (enc: Self)
        ensures
            enc.width_spec() == width,
            enc.height_spec() == height,
            enc.pixels_spec() == Seq::<(u8, u8, u8)>::empty(),
    {
        Self { pixels: Vec::new(), width, height }
    }

    /// Appends one pixel; nothing else changes.
    pub fn put_pixel(&mut self, r: u8, g: u8, b: u8)
        ensures
            final(self).pixels_spec() == old(self).pixels_spec().push((r, g, b)),
            final(self).width_spec() == old(self).width_spec(),
            final(self).height_spec() == old(self).height_spec(),
    {
        self.pixels.push((r, g, b));
    }

    /// Appends the full text encoding of the image to `dest`.
    pub fn write_to(&self, dest: &mut Vec<u8>)
        ensures
            final(dest)@ == old(dest)@
                + ppm_encoding(self.width_spec(), self.height_spec(), self.pixels_spec()),
    {
        dest.push(MAGIC_P);
        dest.push(MAGIC_3);
        dest.push(NL);
        push_decimal_i32(dest, self.width);
        dest.push(SP);
        push_decimal_i32(dest, self.height);
        dest.push(NL);
        push_decimal_u32(dest, MAXVALUE as u32);
        dest.push(NL);
        let ghost header: Seq<u8> = seq![MAGIC_P, MAGIC_3, NL] + signed_decimal(self.width as int)
            + seq![SP] + signed_decimal(self.height as int) + seq![NL]
            + dec_digits(MAXVALUE as nat) + seq![NL];
        assert(dest@ =~= old(dest)@ + header);
        let mut i: usize = 0;
        while i < self.pixels.len()
            invariant
                i <= self.pixels@.len(),
                dest@ == old(dest)@ + header + pixel_lines(self.pixels@.take(i as int)),
            decreases self.pixels@.len() - i,
        {
            let p: (u8, u8, u8) = self.pixels[i];
            let ghost entered: Seq<u8> = dest@;
            push_decimal_u32(dest, p.0 as u32);
            dest.push(SP);
            push_decimal_u32(dest, p.1 as u32);
            dest.push(SP);
            push_decimal_u32(dest, p.2 as u32);
            dest.push(NL);
            proof {
                assert(dest@ =~= entered + pixel_line(p));
                assert(self.pixels@.take(i as int + 1).drop_last() =~= self.pixels@.take(
                    i as int,
                ));
                assert(dest@ =~= old(dest)@ + header + pixel_lines(
                    self.pixels@.take(i as int + 1),
                ));
            }
            i = i + 1;
        }
        proof {
            assert(self.pixels@.take(self.pixels@.len() as int) =~= self.pixels@);
            assert(dest@ =~= old(dest)@
                + ppm_encoding(self.width_spec(), self.height_spec(), self.pixels_spec()));
        }
    }
}

} // verus!
