//! Convert monochrome pixel data to text for displaying in a terminal or
//! for transfer to a text-oriented device.
use vstd::prelude::*;

pub mod bitmap;
pub mod glyphs;
pub mod laws;
pub mod writer;

pub use crate::bitmap::Bitmap;
pub use crate::writer::Writer;


verus! {

/// The style determines the character set used to convert the bitmap.
///
/// The style's name denotes how many pixels are shown per character:
/// `1x1` is one pixel per character, `2x3` encodes six pixels in one
/// character. On `ASCII1x1` the given character shows a set pixel, and a
/// blank space an unset one.
#[derive(Clone, Copy, Debug)]
pub enum Style {
    ASCII1x1(char),
    UnicodeBlock1x1,
    UnicodeBlock1x2,
    UnicodeBlock2x2,
    UnicodeSextant1x3,
    UnicodeSextant2x3,
}

/// A decorative frame drawn around the bitmap to show where its edges are.
#[derive(Clone, Copy, Debug)]
pub enum Frame {
    NoFrame,
    ASCIIFrame,
    UnicodeFrame,
    UnicodeBoldFrame,
    UnicodeDoubleUFrame,
    UnicodeBlockFrame,
    UnicodeShadeFrame,
}

} // verus!
