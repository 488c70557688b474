//! The pixel buffer and the addressing of single pixels in it.
use vstd::arithmetic::div_mod::lemma_fundamental_div_mod;
use vstd::prelude::*;

verus! {

/// A bitmap given by width, height and bytes of packed pixel data,
/// eight pixels per byte, rows in order.
#[derive(Clone, Copy)]
pub struct Bitmap<'a> {
    pub(crate) w: usize,
    pub(crate) h: usize,
    pub(crate) pixels: &'a [u8],
}

/// What a bitmap holds: its size in pixels and its bytes.
pub ghost struct BitmapView {
    pub width: nat,
    pub height: nat,
    pub pixels: Seq<u8>,
}

impl<'a> View for Bitmap<'a> {
    type V = BitmapView;

    closed spec fn view(&self) -> BitmapView {
        BitmapView { width: self.w as nat, height: self.h as nat, pixels: self.pixels@ }
    }
}

impl<'a> Bitmap<'a> {
    /// A bitmap of `width` by `height` pixels over `pixels`.
    pub fn new(width: usize, height: usize, pixels: &'a [u8]) -> (r: Bitmap<'a>)
        ensures
            r@ == (BitmapView { width: width as nat, height: height as nat, pixels: pixels@ }),
    {
        Bitmap { w: width, h: height, pixels }
    }

    /// The bitmap's width in pixels.
    pub fn width(self) -> (r: usize)
        ensures
            r == self@.width,
    {
        self.w
    }

    /// The bitmap's height in pixels.
    pub fn height(self) -> (r: usize)
        ensures
            r == self@.height,
    {
        self.h
    }

    pub(crate) fn data(&self) -> (r: &'a [u8])
        ensures
            r@ == self@.pixels,
    {
        self.pixels
    }
}

/// Number of bits from the start of one row to the start of the next: a
/// byte-aligned row is padded up to a whole number of bytes.
pub open spec fn row_stride(width: nat, aligned: bool) -> nat {
    if aligned {
        ceil_div(width, 8) * 8
    } else {
        width
    }
}

/// `a / b` rounded up.
pub open spec fn ceil_div(a: nat, b: nat) -> nat {
    if a % b == 0 {
        a / b
    } else {
        a / b + 1
    }
}

/// Position in the bit stream of the pixel `(x, y)`.
pub open spec fn bit_index(width: nat, x: nat, y: nat, aligned: bool) -> nat {
    y * row_stride(width, aligned) + x
}

/// Bit `i` of `b`, counted from the least significant bit.
pub open spec fn bit_of(b: u8, i: nat) -> bool {
    (b >> (i as u8)) & 1u8 == 1u8
}

/// Which bit of its byte holds the bit at `bit` of the stream: counted from
/// the least significant bit when big-endian, from the most significant one
/// otherwise.
pub open spec fn bit_in_byte(bit: nat, be: bool) -> nat {
    if be {
        bit % 8
    } else {
        (7 - bit % 8) as nat
    }
}

/// Whether the pixel `(x, y)` is set. A pixel whose byte lies beyond the
/// buffer is unset.
pub open spec fn pixel_set(pixels: Seq<u8>, width: nat, x: nat, y: nat, be: bool, aligned: bool) -> bool {
    let bit = bit_index(width, x, y, aligned);
    bit / 8 < pixels.len() && bit_of(pixels[(bit / 8) as int], bit_in_byte(bit, be))
}

/// Tests the pixel `(x, y)`; coordinates are taken wide so that a block that
/// reaches past the largest bitmap is still addressed.
pub(crate) fn test_pixel(
    pixels: &[u8],
    width: usize,
    x: u128,
    y: u128,
    be: bool,
    aligned: bool,
) -> (r: bool)
    ensures
        r == pixel_set(pixels@, width as nat, x as nat, y as nat, be, aligned),
{
    let stride: u128 = if aligned {
        let q: u128 = width as u128 / 8;
        if width as u128 % 8 == 0 {
            q * 8
        } else {
            (q + 1) * 8
        }
    } else {
        width as u128
    };
    assert(stride == row_stride(width as nat, aligned));
    let limit: u128 = pixels.len() as u128 * 8;
    let ghost bit = bit_index(width as nat, x as nat, y as nat, aligned);
    if x >= limit {
        assert(bit >= x) by (nonlinear_arith)
            requires
                bit == y * stride + x,
        ;
        return false;
    }
    if stride > 0 && y > (limit - 1 - x) / stride {
        let ghost room = (limit - 1 - x) as int;
        proof {
            lemma_fundamental_div_mod(room, stride as int);
            assert(y * stride >= (room / stride as int + 1) * stride) by (nonlinear_arith)
                requires
                    y >= room / stride as int + 1,
                    stride > 0,
            ;
            assert((room / stride as int + 1) * stride == room / stride as int * stride + stride)
                by (nonlinear_arith);
        }
        return false;
    }
    proof {
        if stride > 0 {
            let room = (limit - 1 - x) as int;
            lemma_fundamental_div_mod(room, stride as int);
            assert(y * stride <= room / stride as int * stride) by (nonlinear_arith)
                requires
                    y <= room / stride as int,
                    stride > 0,
            ;
        }
    }
    let b: u128 = y * stride + x;
    assert(b == bit);
    let byte: usize = (b / 8) as usize;
    let shift: u8 = if be {
        (b % 8) as u8
    } else {
        (7 - b % 8) as u8
    };
    (pixels[byte] >> shift) & 1u8 == 1u8
}

} // verus!
