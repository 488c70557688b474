//! The glyph tables of the styles and the tile sets of the frames.
use crate::{Frame, Style};
use vstd::arithmetic::power2::{lemma2_to64, pow2};
use vstd::prelude::*;

verus! {

/// Width in pixels of the block that one glyph of the style encodes.
pub open spec fn style_w(s: Style) -> nat {
    match s {
        Style::UnicodeBlock2x2 | Style::UnicodeSextant2x3 => 2,
        _ => 1,
    }
}

/// Height in pixels of the block that one glyph of the style encodes.
pub open spec fn style_h(s: Style) -> nat {
    match s {
        Style::ASCII1x1(_) | Style::UnicodeBlock1x1 => 1,
        Style::UnicodeBlock1x2 | Style::UnicodeBlock2x2 => 2,
        Style::UnicodeSextant1x3 | Style::UnicodeSextant2x3 => 3,
    }
}

pub open spec fn quadrant_glyphs() -> Seq<char> {
    seq![' ', '▘', '▝', '▀', '▖', '▋', '▞', '▛', '▗', '▚', '▐', '▜', '▄', '▙', '▟', '█']
}

pub open spec fn sextant_column_glyphs() -> Seq<char> {
    seq![' ', '🬀', '🬃', '🬄', '🬏', '🬐', '🬓', '▋']
}

pub open spec fn sextant_glyphs() -> Seq<char> {
    seq![
        ' ', '🬀', '🬁', '🬂', '🬃', '🬄', '🬅', '🬆',
        '🬇', '🬈', '🬉', '🬊', '🬋', '🬌', '🬍', '🬎',
        '🬏', '🬐', '🬑', '🬒', '🬓', '▋', '🬔', '🬕',
        '🬖', '🬗', '🬘', '🬙', '🬚', '🬛', '🬜', '🬝',
        '🬞', '🬟', '🬠', '🬡', '🬢', '🬣', '🬤', '🬥',
        '🬦', '🬧', '▐', '🬨', '🬩', '🬪', '🬫', '🬬',
        '🬭', '🬮', '🬯', '🬰', '🬱', '🬲', '🬳', '🬴',
        '🬵', '🬶', '🬷', '🬸', '🬹', '🬺', '🬻', '🮋'
    ]
}

/// The glyphs of a style, indexed by the bit pattern of a block: the pixel
/// at local position `(xx, yy)` is bit `yy * w + xx`.
pub open spec fn style_glyphs(s: Style) -> Seq<char> {
    match s {
        Style::ASCII1x1(c) => seq![' ', c],
        Style::UnicodeBlock1x1 => seq![' ', '█'],
        Style::UnicodeBlock1x2 => seq![' ', '▀', '▄', '█'],
        Style::UnicodeBlock2x2 => quadrant_glyphs(),
        Style::UnicodeSextant1x3 => sextant_column_glyphs(),
        Style::UnicodeSextant2x3 => sextant_glyphs(),
    }
}

/// The nine tiles of a frame: top-left, top, top-right, left, fill, right,
/// bottom-left, bottom, bottom-right.
pub open spec fn frame_tiles(f: Frame) -> Seq<char> {
    match f {
        Frame::ASCIIFrame => seq!['.', '-', '.', '|', ' ', '|', '\'', '-', '\''],
        Frame::UnicodeBoldFrame => seq!['┏', '━', '┓', '┃', ' ', '┃', '┗', '━', '┛'],
        Frame::UnicodeDoubleUFrame => seq!['╔', '═', '╗', '║', ' ', '║', '╚', '═', '╝'],
        Frame::UnicodeBlockFrame => seq!['▞', '▀', '▚', '▌', ' ', '▐', '▚', '▄', '▞'],
        Frame::UnicodeShadeFrame => seq!['🮞', '🮐', '🮟', '🮐', ' ', '🮐', '🮝', '🮐', '🮜'],
        _ => seq!['┌', '─', '┐', '│', ' ', '│', '└', '─', '┘'],
    }
}

/// Every style has exactly one glyph for each bit pattern of its block.
pub proof fn lemma_glyph_count(s: Style)
    ensures
        1 <= style_w(s) <= 2,
        1 <= style_h(s) <= 3,
        style_glyphs(s).len() == pow2(style_w(s) * style_h(s)),
{
    lemma2_to64();
    match s {
        Style::ASCII1x1(_) => {
            assert(style_w(s) == 1 && style_h(s) == 1);
            assert(style_w(s) * style_h(s) == 1);
            assert(style_glyphs(s).len() == 2);
        },
        Style::UnicodeBlock1x1 => {
            assert(style_w(s) == 1 && style_h(s) == 1);
            assert(style_w(s) * style_h(s) == 1);
            assert(style_glyphs(s).len() == 2);
        },
        Style::UnicodeBlock1x2 => assert(style_glyphs(s).len() == 4),
        Style::UnicodeBlock2x2 => assert(style_glyphs(s).len() == 16),
        Style::UnicodeSextant1x3 => assert(style_glyphs(s).len() == 8),
        Style::UnicodeSextant2x3 => assert(style_glyphs(s).len() == 64),
    }
}

pub(crate) fn block_width(s: &Style) -> (r: usize)
    ensures
        r == style_w(*s),
{
    match s {
        Style::UnicodeBlock2x2 | Style::UnicodeSextant2x3 => 2,
        _ => 1,
    }
}

pub(crate) fn block_height(s: &Style) -> (r: usize)
    ensures
        r == style_h(*s),
{
    match s {
        Style::ASCII1x1(_) | Style::UnicodeBlock1x1 => 1,
        Style::UnicodeBlock1x2 | Style::UnicodeBlock2x2 => 2,
        Style::UnicodeSextant1x3 | Style::UnicodeSextant2x3 => 3,
    }
}

/// The glyph of the style for the bit pattern `index`.
pub(crate) fn glyph(s: &Style, index: usize) -> (r: char)
    requires
        index < style_glyphs(*s).len(),
    ensures
        r == style_glyphs(*s)[index as int],
{
    match s {
        Style::ASCII1x1(c) => {
            if index == 0 {
                ' '
            } else {
                *c
            }
        },
        Style::UnicodeBlock1x1 => {
            let t: [char; 2] = [' ', '█'];
            assert(t@ =~= style_glyphs(*s));
            t[index]
        },
        Style::UnicodeBlock1x2 => {
            let t: [char; 4] = [' ', '▀', '▄', '█'];
            assert(t@ =~= style_glyphs(*s));
            t[index]
        },
        Style::UnicodeBlock2x2 => {
            let t: [char; 16] = [
                ' ', '▘', '▝', '▀', '▖', '▋', '▞', '▛', '▗', '▚', '▐', '▜', '▄', '▙', '▟', '█',
            ];
            assert(t@ =~= quadrant_glyphs());
            t[index]
        },
        Style::UnicodeSextant1x3 => {
            let t: [char; 8] = [' ', '🬀', '🬃', '🬄', '🬏', '🬐', '🬓', '▋'];
            assert(t@ =~= sextant_column_glyphs());
            t[index]
        },
        Style::UnicodeSextant2x3 => {
            let t: [char; 64] = [
                ' ', '🬀', '🬁', '🬂', '🬃', '🬄', '🬅', '🬆',
                '🬇', '🬈', '🬉', '🬊', '🬋', '🬌', '🬍', '🬎',
                '🬏', '🬐', '🬑', '🬒', '🬓', '▋', '🬔', '🬕',
                '🬖', '🬗', '🬘', '🬙', '🬚', '🬛', '🬜', '🬝',
                '🬞', '🬟', '🬠', '🬡', '🬢', '🬣', '🬤', '🬥',
                '🬦', '🬧', '▐', '🬨', '🬩', '🬪', '🬫', '🬬',
                '🬭', '🬮', '🬯', '🬰', '🬱', '🬲', '🬳', '🬴',
                '🬵', '🬶', '🬷', '🬸', '🬹', '🬺', '🬻', '🮋',
            ];
            assert(t@ =~= sextant_glyphs());
            t[index]
        },
    }
}

/// Tile `i` of the frame's tile set.
pub(crate) fn tile(f: &Frame, i: usize) -> (r: char)
    requires
        i < 9,
    ensures
        r == frame_tiles(*f)[i as int],
{
    let t: [char; 9] = match f {
        Frame::ASCIIFrame => ['.', '-', '.', '|', ' ', '|', '\'', '-', '\''],
        Frame::UnicodeBoldFrame => ['┏', '━', '┓', '┃', ' ', '┃', '┗', '━', '┛'],
        Frame::UnicodeDoubleUFrame => ['╔', '═', '╗', '║', ' ', '║', '╚', '═', '╝'],
        Frame::UnicodeBlockFrame => ['▞', '▀', '▚', '▌', ' ', '▐', '▚', '▄', '▞'],
        Frame::UnicodeShadeFrame => ['🮞', '🮐', '🮟', '🮐', ' ', '🮐', '🮝', '🮐', '🮜'],
        _ => ['┌', '─', '┐', '│', ' ', '│', '└', '─', '┘'],
    };
    assert(t@ =~= frame_tiles(*f));
    t[i]
}

} // verus!
