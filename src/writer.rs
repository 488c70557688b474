//! The writer: its settings, and the conversion of a bitmap into text.
use crate::bitmap::{ceil_div, pixel_set, test_pixel, Bitmap, BitmapView};
use crate::glyphs::{
    block_height, block_width, frame_tiles, glyph, lemma_glyph_count, style_glyphs, style_h,
    style_w, tile,
};
use crate::{Frame, Style};
use vstd::arithmetic::power2::{lemma_pow2_unfold, pow2};
use vstd::prelude::*;

verus! {

/// Relies on `String::push`: the character is appended at the end.
pub assume_specification[ String::push ](s: &mut String, ch: char)
    ensures
        final(s)@ == old(s)@.push(ch),
;

/// The character of the decimal digit `d`.
pub open spec fn digit_char(d: nat) -> char {
    (d + 48) as char
}

/// Decimal notation of `n`, without leading zeros.
pub open spec fn decimal(n: nat) -> Seq<char>
    decreases n,
{
    if n < 10 {
        seq![digit_char(n)]
    } else {
        decimal(n / 10).push(digit_char(n % 10))
    }
}

/// The ANSI command that moves the cursor to `line` and `column`.
pub open spec fn cursor_to(line: nat, column: nat) -> Seq<char> {
    seq!['\x1b', '['] + decimal(line) + seq![';'] + decimal(column) + seq!['H']
}

/// The ANSI command that saves the cursor position.
pub open spec fn cursor_save() -> Seq<char> {
    seq!['\x1b', '[', 's']
}

/// The ANSI command that restores the saved cursor position.
pub open spec fn cursor_restore() -> Seq<char> {
    seq!['\x1b', '[', 'u']
}

/// The bit pattern of the first `n` pixels of the block whose top-left pixel
/// is `(x, y)`, taken row by row in rows of `w` pixels: local pixel
/// `(xx, yy)` is bit `yy * w + xx`.
pub open spec fn block_bits(
    pixels: Seq<u8>,
    width: nat,
    x: nat,
    y: nat,
    w: nat,
    be: bool,
    aligned: bool,
    n: nat,
) -> nat
    decreases n,
{
    if n == 0 {
        0
    } else {
        let k = (n - 1) as nat;
        block_bits(pixels, width, x, y, w, be, aligned, k) + if pixel_set(
            pixels,
            width,
            x + k % w,
            y + k / w,
            be,
            aligned,
        ) {
            pow2(k)
        } else {
            0
        }
    }
}

/// The settings of a writer.
pub ghost struct WriterView {
    pub style: Style,
    pub frame: Frame,
    /// Line and column for explicit cursor placement, if set.
    pub position: Option<(nat, nat)>,
    /// Save the cursor before the bitmap and restore it after.
    pub restore: bool,
    /// Big-endian bit order.
    pub be: bool,
    /// Rows start on a byte boundary.
    pub aligned: bool,
}

impl WriterView {
    /// The settings of a new writer.
    pub open spec fn initial() -> WriterView {
        WriterView {
            style: Style::UnicodeBlock1x2,
            frame: Frame::NoFrame,
            position: None,
            restore: false,
            be: false,
            aligned: false,
        }
    }

    /// Number of glyphs in a row of content.
    pub open spec fn cols(self, bm: BitmapView) -> nat {
        ceil_div(bm.width, style_w(self.style))
    }

    /// Number of rows of content.
    pub open spec fn rows(self, bm: BitmapView) -> nat {
        ceil_div(bm.height, style_h(self.style))
    }

    /// Whether the pixel `(x, y)` of the bitmap is set under these settings.
    pub open spec fn pixel(self, bm: BitmapView, x: nat, y: nat) -> bool {
        pixel_set(bm.pixels, bm.width, x, y, self.be, self.aligned)
    }

    /// The bit pattern of the block shown at glyph column `col`, row `row`.
    pub open spec fn block_value(self, bm: BitmapView, col: nat, row: nat) -> nat {
        let w = style_w(self.style);
        let h = style_h(self.style);
        block_bits(bm.pixels, bm.width, col * w, row * h, w, self.be, self.aligned, w * h)
    }

    /// The glyph at glyph column `col`, row `row`.
    pub open spec fn glyph_at(self, bm: BitmapView, col: nat, row: nat) -> char {
        style_glyphs(self.style)[self.block_value(bm, col, row) as int]
    }

    /// The glyphs of content row `row`.
    pub open spec fn content_row(self, bm: BitmapView, row: nat) -> Seq<char> {
        Seq::new(self.cols(bm), |c: int| self.glyph_at(bm, c as nat, row))
    }

    pub open spec fn framed(self) -> bool {
        !(self.frame is NoFrame)
    }

    /// A border line of `cols` edge tiles between two corners; `first` is
    /// the index of its left corner among the frame's tiles.
    pub open spec fn border(self, cols: nat, first: int) -> Seq<char> {
        let t = frame_tiles(self.frame);
        seq![t[first]] + Seq::new(cols, |_i: int| t[first + 1]) + seq![t[first + 2]]
    }

    /// Lines written above the content: the top border, if any.
    pub open spec fn top_lines(self) -> nat {
        if self.framed() {
            1
        } else {
            0
        }
    }

    /// Whether the cursor is moved explicitly before each line.
    pub open spec fn positioned(self) -> bool {
        !self.restore && self.position is Some
    }

    /// The cursor move before output line `line`, if any.
    pub open spec fn place(self, line: nat) -> Seq<char> {
        if self.positioned() {
            let (base_line, column) = self.position->0;
            cursor_to(base_line + line, column)
        } else {
            Seq::empty()
        }
    }

    /// Content row `row` as written: cursor move, edges and line break.
    pub open spec fn row_line(self, bm: BitmapView, row: nat) -> Seq<char> {
        let t = frame_tiles(self.frame);
        let body = if self.framed() {
            seq![t[3]] + self.content_row(bm, row) + seq![t[5]]
        } else {
            self.content_row(bm, row)
        };
        self.place(self.top_lines() + row) + body + seq!['\n']
    }

    /// The first `n` content rows as written.
    pub open spec fn row_lines(self, bm: BitmapView, n: nat) -> Seq<char>
        decreases n,
    {
        if n == 0 {
            Seq::empty()
        } else {
            self.row_lines(bm, (n - 1) as nat) + self.row_line(bm, (n - 1) as nat)
        }
    }

    /// The top border line, if framed.
    pub open spec fn top(self, bm: BitmapView) -> Seq<char> {
        if self.framed() {
            self.border(self.cols(bm), 0).push('\n')
        } else {
            Seq::empty()
        }
    }

    /// The bottom border line, if framed.
    pub open spec fn bottom(self, bm: BitmapView) -> Seq<char> {
        if self.framed() {
            self.border(self.cols(bm), 6).push('\n')
        } else {
            Seq::empty()
        }
    }

    /// The whole text that the bitmap is converted to.
    pub open spec fn render(self, bm: BitmapView) -> Seq<char> {
        let rows = self.rows(bm);
        (if self.restore {
            cursor_save()
        } else {
            self.place(0)
        }) + self.top(bm) + self.row_lines(bm, rows) + self.place(self.top_lines() + rows)
            + self.bottom(bm) + (if self.restore {
            cursor_restore()
        } else {
            Seq::empty()
        })
    }
}

struct AnsiPosition {
    line: usize,
    column: usize,
}

/// Converts a `Bitmap` into text, by the settings it holds.
pub struct Writer {
    style: Style,
    frame: Frame,
    ansi_position: Option<AnsiPosition>,
    ansi_position_restore: bool,
    use_be: bool,
    byte_aligned: bool,
}

impl View for Writer {
    type V = WriterView;

    closed spec fn view(&self) -> WriterView {
        WriterView {
            style: self.style,
            frame: self.frame,
            position: match self.ansi_position {
                Some(p) => Some((p.line as nat, p.column as nat)),
                None => None,
            },
            restore: self.ansi_position_restore,
            be: self.use_be,
            aligned: self.byte_aligned,
        }
    }
}

/// `a / b` rounded up.
fn ceil_div_exec(a: usize, b: usize) -> (r: usize)
    requires
        b >= 1,
    ensures
        r == ceil_div(a as nat, b as nat),
        r <= a,
{
    if a % b == 0 {
        assert(a / b <= a) by (nonlinear_arith)
            requires
                b >= 1,
        ;
        a / b
    } else {
        assert(a / b + 1 <= a) by (nonlinear_arith)
            requires
                b >= 1,
                a % b != 0,
        ;
        a / b + 1
    }
}

fn push_digit(out: &mut String, d: u128)
    requires
        d < 10,
    ensures
        final(out)@ == old(out)@.push(digit_char(d as nat)),
{
    out.push(((d as u8) + 48u8) as char);
}

fn push_decimal(out: &mut String, n: u128)
    ensures
        final(out)@ == old(out)@ + decimal(n as nat),
    decreases n,
{
    if n >= 10 {
        push_decimal(out, n / 10);
    }
    push_digit(out, n % 10);
    proof {
        if n >= 10 {
            assert(decimal(n as nat) == decimal((n / 10) as nat).push(digit_char((n % 10) as nat)));
        }
    }
    assert(final(out)@ =~= old(out)@ + decimal(n as nat));
}

impl Writer {
    /// A writer with the default settings: style `UnicodeBlock1x2`, no
    /// frame, no cursor commands, little-endian, rows not byte-aligned.
    pub fn new() -> (r: Writer)
        ensures
            r@ == WriterView::initial(),
    {
        Writer {
            style: Style::UnicodeBlock1x2,
            frame: Frame::NoFrame,
            ansi_position: None,
            ansi_position_restore: false,
            use_be: false,
            byte_aligned: false,
        }
    }

    /// Sets the characters used to show the pixels.
    pub fn style(&mut self, style: Style) -> (r: &mut Self)
        ensures
            r@ == (WriterView { style, ..old(self)@ }),
            *final(self) == *final(r),
    {
        self.style = style;
        self
    }

    /// Sets the frame drawn around the bitmap.
    pub fn frame(&mut self, frame: Frame) -> (r: &mut Self)
        ensures
            r@ == (WriterView { frame, ..old(self)@ }),
            *final(self) == *final(r),
    {
        self.frame = frame;
        self
    }

    /// Moves the cursor to `line` and `column` by ANSI commands before the
    /// bitmap is written, and to the following lines before each line of it.
    pub fn ansi_position(&mut self, line: usize, column: usize) -> (r: &mut Self)
        ensures
            r@ == (WriterView { position: Some((line as nat, column as nat)), ..old(self)@ }),
            *final(self) == *final(r),
    {
        self.ansi_position = Some(AnsiPosition { line, column });
        self
    }

    /// Removes the position set by `ansi_position`.
    pub fn clear_ansi_position(&mut self) -> (r: &mut Self)
        ensures
            r@ == (WriterView { position: None, ..old(self)@ }),
            *final(self) == *final(r),
    {
        self.ansi_position = None;
        self
    }

    /// Whether the cursor is saved before the bitmap and restored after it,
    /// so that the next bitmap of the same size overwrites it. While set,
    /// the position of `ansi_position` is not used.
    pub fn ansi_position_restore(&mut self, state: bool) -> (r: &mut Self)
        ensures
            r@ == (WriterView { restore: state, ..old(self)@ }),
            *final(self) == *final(r),
    {
        self.ansi_position_restore = state;
        self
    }

    /// Whether the bits of a byte are read from the least significant one
    /// (big-endian) or from the most significant one (little-endian, the
    /// default).
    pub fn be(&mut self, state: bool) -> (r: &mut Self)
        ensures
            r@ == (WriterView { be: state, ..old(self)@ }),
            *final(self) == *final(r),
    {
        self.use_be = state;
        self
    }

    /// Whether each row of the bitmap starts on a new byte.
    pub fn byte_aligned(&mut self, state: bool) -> (r: &mut Self)
        ensures
            r@ == (WriterView { aligned: state, ..old(self)@ }),
            *final(self) == *final(r),
    {
        self.byte_aligned = state;
        self
    }

    /// Appends the text of `bitmap` to `out`.
    pub fn write(&self, out: &mut String, bitmap: &Bitmap)
        ensures
            final(out)@ == old(out)@ + self@.render(bitmap@),
    {
        self.write_bitmap(out, bitmap);
    }

    fn ansi_set_position(&self, out: &mut String, pos: &AnsiPosition, line: u128)
        requires
            line <= usize::MAX as u128 + 1,
        ensures
            final(out)@ == old(out)@ + cursor_to(pos.line as nat + line as nat, pos.column as nat),
    {
        let ghost start = out@;
        out.push('\x1b');
        out.push('[');
        push_decimal(out, pos.line as u128 + line);
        out.push(';');
        push_decimal(out, pos.column as u128);
        out.push('H');
        assert(out@ =~= start + cursor_to(pos.line as nat + line as nat, pos.column as nat));
    }

    fn ansi_store_position(&self, out: &mut String)
        ensures
            final(out)@ == old(out)@ + cursor_save(),
    {
        let ghost start = out@;
        out.push('\x1b');
        out.push('[');
        out.push('s');
        assert(out@ =~= start + cursor_save());
    }

    fn ansi_restore_position(&self, out: &mut String)
        ensures
            final(out)@ == old(out)@ + cursor_restore(),
    {
        let ghost start = out@;
        out.push('\x1b');
        out.push('[');
        out.push('u');
        assert(out@ =~= start + cursor_restore());
    }

    /// Moves the cursor before output line `line`, where that is asked for.
    fn place(&self, out: &mut String, line: u128)
        requires
            line <= usize::MAX as u128 + 1,
        ensures
            final(out)@ == old(out)@ + self@.place(line as nat),
    {
        if !self.ansi_position_restore {
            match &self.ansi_position {
                Some(p) => self.ansi_set_position(out, p, line),
                None => {
                    assert(out@ =~= out@ + self@.place(line as nat));
                },
            }
        } else {
            assert(out@ =~= out@ + self@.place(line as nat));
        }
    }

    /// Writes a border line and its line break; `first` is the index of its
    /// left corner among the frame's tiles.
    fn write_border(&self, out: &mut String, cols: usize, first: usize)
        requires
            first == 0 || first == 6,
        ensures
            final(out)@ == old(out)@ + self@.border(cols as nat, first as int).push('\n'),
    {
        let ghost start = out@;
        let ghost t = frame_tiles(self.frame);
        out.push(tile(&self.frame, first));
        let edge = tile(&self.frame, first + 1);
        let mut i: usize = 0;
        while i < cols
            invariant
                i <= cols,
                edge == t[first + 1],
                out@ == start + seq![t[first as int]] + Seq::new(i as nat, |_j: int| t[first + 1]),
            decreases cols - i,
        {
            out.push(edge);
            i += 1;
            assert(out@ =~= start + seq![t[first as int]] + Seq::new(i as nat, |_j: int| t[first + 1]));
        }
        out.push(tile(&self.frame, first + 2));
        out.push('\n');
        assert(out@ =~= start + self@.border(cols as nat, first as int).push('\n'));
    }

    /// The bit pattern of the block whose top-left pixel is `(x, y)`.
    fn block_index(&self, pixels: &[u8], width: usize, w: usize, h: usize, x: u128, y: u128) -> (r: usize)
        requires
            w == style_w(self.style),
            h == style_h(self.style),
            x <= 3 * (usize::MAX as u128),
            y <= 3 * (usize::MAX as u128),
        ensures
            r == block_bits(pixels@, width as nat, x as nat, y as nat, w as nat, self.use_be, self.byte_aligned, (w * h) as nat),
            r < pow2((w * h) as nat),
    {
        proof {
            lemma_glyph_count(self.style);
        }
        assert(w * h <= 6) by (nonlinear_arith)
            requires
                1 <= w <= 2,
                1 <= h <= 3,
        ;
        let n: usize = w * h;
        let mut k: usize = 0;
        let mut bit: usize = 1;
        let mut acc: usize = 0;
        proof {
            vstd::arithmetic::power2::lemma2_to64();
        }
        while k < n
            invariant
                n == w * h,
                n <= 6,
                1 <= w <= 2,
                k <= n,
                bit == pow2(k as nat),
                bit <= 64,
                acc < bit,
                acc == block_bits(pixels@, width as nat, x as nat, y as nat, w as nat, self.use_be, self.byte_aligned, k as nat),
                x <= 3 * (usize::MAX as u128),
                y <= 3 * (usize::MAX as u128),
            decreases n - k,
        {
            let xx: usize = k % w;
            let yy: usize = k / w;
            if test_pixel(pixels, width, x + xx as u128, y + yy as u128, self.use_be, self.byte_aligned) {
                acc = acc + bit;
            }
            proof {
                lemma_pow2_unfold((k + 1) as nat);
                vstd::arithmetic::power2::lemma2_to64();
            }
            bit = bit * 2;
            k = k + 1;
        }
        acc
    }

    /// Writes the glyphs of content row `row`.
    fn write_content(&self, out: &mut String, bitmap: &Bitmap, w: usize, h: usize, cols: usize, row: usize)
        requires
            w == style_w(self.style),
            h == style_h(self.style),
            cols == self@.cols(bitmap@),
        ensures
            final(out)@ == old(out)@ + self@.content_row(bitmap@, row as nat),
    {
        let ghost start = out@;
        let ghost v = self@;
        let ghost bm = bitmap@;
        let pixels = bitmap.data();
        let width = bitmap.width();
        proof {
            lemma_glyph_count(self.style);
        }
        assert(cols <= width) by (nonlinear_arith)
            requires
                cols == ceil_div(width as nat, w as nat),
                1 <= w <= 2,
        ;
        let y: u128 = row as u128 * h as u128;
        let mut c: usize = 0;
        while c < cols
            invariant
                c <= cols,
                cols == v.cols(bm),
                cols <= width,
                width == bm.width,
                pixels@ == bm.pixels,
                w == style_w(v.style),
                h == style_h(v.style),
                1 <= w <= 2,
                1 <= h <= 3,
                y == row * h,
                y <= 3 * (usize::MAX as u128),
                style_glyphs(v.style).len() == pow2((w * h) as nat),
                v == self@,
                out@ == start + v.content_row(bm, row as nat).take(c as int),
            decreases cols - c,
        {
            let x: u128 = c as u128 * w as u128;
            let idx = self.block_index(pixels, width, w, h, x, y);
            let g = glyph(&self.style, idx);
            out.push(g);
            proof {
                assert(g == v.glyph_at(bm, c as nat, row as nat));
                assert(v.content_row(bm, row as nat).take(c + 1) =~= v.content_row(bm, row as nat).take(c as int).push(g));
            }
            c += 1;
        }
        assert(v.content_row(bm, row as nat).take(cols as int) =~= v.content_row(bm, row as nat));
    }

    /// Writes content row `row` with its cursor move, edges and line break.
    fn write_row(&self, out: &mut String, bitmap: &Bitmap, w: usize, h: usize, cols: usize, row: usize)
        requires
            w == style_w(self.style),
            h == style_h(self.style),
            cols == self@.cols(bitmap@),
        ensures
            final(out)@ == old(out)@ + self@.row_line(bitmap@, row as nat),
    {
        let ghost start = out@;
        let framed = match self.frame {
            Frame::NoFrame => false,
            _ => true,
        };
        let top: u128 = if framed { 1 } else { 0 };
        self.place(out, top + row as u128);
        if framed {
            out.push(tile(&self.frame, 3));
        }
        self.write_content(out, bitmap, w, h, cols, row);
        if framed {
            out.push(tile(&self.frame, 5));
        }
        out.push('\n');
        assert(out@ =~= start + self@.row_line(bitmap@, row as nat));
    }

    fn write_bitmap(&self, out: &mut String, bitmap: &Bitmap)
        ensures
            final(out)@ == old(out)@ + self@.render(bitmap@),
    {
        let ghost start = out@;
        let ghost v = self@;
        let ghost bm = bitmap@;
        let w = block_width(&self.style);
        let h = block_height(&self.style);
        let cols: usize = ceil_div_exec(bitmap.width(), w);
        let rows: usize = ceil_div_exec(bitmap.height(), h);
        let framed = match self.frame {
            Frame::NoFrame => false,
            _ => true,
        };
        let ghost a = if v.restore {
            cursor_save()
        } else {
            v.place(0)
        };
        let ghost b = v.top(bm);
        let ghost c = v.row_lines(bm, rows as nat);
        let ghost d = v.place(v.top_lines() + rows as nat);
        let ghost e = v.bottom(bm);
        let ghost f = if v.restore {
            cursor_restore()
        } else {
            Seq::empty()
        };
        if self.ansi_position_restore {
            self.ansi_store_position(out);
        } else {
            self.place(out, 0);
        }
        let mut top: u128 = 0;
        if framed {
            self.write_border(out, cols, 0);
            top = 1;
        } else {
            assert(out@ =~= start + a + b);
        }
        let ghost head = out@;
        let mut r: usize = 0;
        while r < rows
            invariant
                r <= rows,
                rows == v.rows(bm),
                cols == v.cols(bm),
                w == style_w(v.style),
                h == style_h(v.style),
                v == self@,
                bm == bitmap@,
                out@ == head + v.row_lines(bm, r as nat),
            decreases rows - r,
        {
            self.write_row(out, bitmap, w, h, cols, r);
            r += 1;
        }
        assert(out@ == start + a + b + c);
        self.place(out, top + rows as u128);
        if framed {
            self.write_border(out, cols, 6);
        } else {
            assert(out@ =~= start + a + b + c + d + e);
        }
        if self.ansi_position_restore {
            self.ansi_restore_position(out);
        } else {
            assert(out@ =~= start + a + b + c + d + e + f);
        }
        assert(v.render(bm) == a + b + c + d + e + f);
        assert(out@ =~= start + v.render(bm));
    }
}

} // verus!
