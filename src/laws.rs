//! Properties that hold of every conversion.
use crate::bitmap::{bit_in_byte, bit_index, bit_of, ceil_div, pixel_set, row_stride, BitmapView};
use crate::glyphs::{lemma_glyph_count, style_h, style_w};
use crate::writer::{block_bits, cursor_restore, cursor_save, WriterView};
use vstd::prelude::*;

verus! {

/// The column that `x` is mirrored to within its group of eight pixels.
pub open spec fn mirror8(x: nat) -> nat {
    (x - x % 8 + 7 - x % 8) as nat
}

/// Where a row holds a whole number of bytes, the pixel at `x` under one
/// bit order is the pixel at the mirrored column under the other.
pub proof fn lemma_pixel_mirror(pixels: Seq<u8>, width: nat, x: nat, y: nat, be: bool, aligned: bool)
    requires
        row_stride(width, aligned) % 8 == 0,
    ensures
        pixel_set(pixels, width, x, y, be, aligned) == pixel_set(pixels, width, mirror8(x), y, !be, aligned),
{
    let stride = row_stride(width, aligned);
    let m = stride / 8;
    assert(y * stride == 8 * (y * m)) by (nonlinear_arith)
        requires
            stride == 8 * m,
    ;
    let k = y * m;
    let b1 = bit_index(width, x, y, aligned);
    let b2 = bit_index(width, mirror8(x), y, aligned);
    assert(b1 == 8 * k + x);
    assert(b2 == 8 * k + mirror8(x));
    assert(b1 / 8 == b2 / 8);
    assert(b1 % 8 == x % 8);
    assert(b2 % 8 == 7 - x % 8);
    assert(bit_in_byte(b1, be) == bit_in_byte(b2, !be));
}

proof fn lemma_block_mirror(pixels: Seq<u8>, width: nat, x: nat, y: nat, be: bool, aligned: bool, n: nat)
    requires
        row_stride(width, aligned) % 8 == 0,
    ensures
        block_bits(pixels, width, x, y, 1, be, aligned, n) == block_bits(pixels, width, mirror8(x), y, 1, !be, aligned, n),
    decreases n,
{
    if n > 0 {
        let k = (n - 1) as nat;
        lemma_block_mirror(pixels, width, x, y, be, aligned, k);
        assert(k % 1 == 0 && k / 1 == k);
        lemma_pixel_mirror(pixels, width, x, y + k, be, aligned);
    }
}

/// On a bitmap whose width is a multiple of eight, shown with a style one
/// pixel wide, each glyph row under one bit order is the row under the
/// other order mirrored within every group of eight columns.
pub proof fn lemma_endianness_mirror(v: WriterView, bm: BitmapView, row: nat, col: nat)
    requires
        bm.width % 8 == 0,
        style_w(v.style) == 1,
        col < bm.width,
    ensures
        v.cols(bm) == bm.width,
        mirror8(col) < bm.width,
        v.content_row(bm, row)[col as int] == (WriterView { be: !v.be, ..v }).content_row(bm, row)[mirror8(col) as int],
{
    let h = style_h(v.style);
    assert(ceil_div(bm.width, 1) == bm.width);
    assert(mirror8(col) < bm.width) by {
        assert(col - col % 8 + 8 <= bm.width);
    }
    assert(row_stride(bm.width, v.aligned) % 8 == 0);
    lemma_block_mirror(bm.pixels, bm.width, col, row * h, v.be, v.aligned, h);
    assert(col * 1 == col && mirror8(col) * 1 == mirror8(col) && 1 * h == h);
}

/// The first pixel row lies at the same bits whether rows are byte-aligned
/// or not. On a width that is not a multiple of eight every later row starts
/// further on when aligned, past the padding bits.
pub proof fn lemma_alignment_rows(width: nat, x: nat, y: nat)
    ensures
        bit_index(width, x, 0, true) == bit_index(width, x, 0, false),
        y >= 1 && width % 8 != 0 ==> bit_index(width, x, y, true) > bit_index(width, x, y, false),
{
    if y >= 1 && width % 8 != 0 {
        let s = row_stride(width, true);
        assert(s > width);
        assert(y * s > y * width) by (nonlinear_arith)
            requires
                y >= 1,
                s > width,
        ;
    }
}

proof fn lemma_block_first_row(pixels: Seq<u8>, width: nat, x: nat, w: nat, be: bool, n: nat)
    requires
        w >= 1,
        n <= w,
    ensures
        block_bits(pixels, width, x, 0, w, be, true, n) == block_bits(pixels, width, x, 0, w, be, false, n),
    decreases n,
{
    if n > 0 {
        let k = (n - 1) as nat;
        lemma_block_first_row(pixels, width, x, w, be, k);
        assert(k / w == 0 && k % w == k) by (nonlinear_arith)
            requires
                k < w,
        ;
        lemma_alignment_rows(width, x + k, 0);
    }
}

/// With a style one pixel high, the first glyph row is the same whether rows
/// are byte-aligned or not.
pub proof fn lemma_alignment_first_row(v: WriterView, bm: BitmapView)
    requires
        style_h(v.style) == 1,
    ensures
        v.content_row(bm, 0) == (WriterView { aligned: !v.aligned, ..v }).content_row(bm, 0),
{
    let u = WriterView { aligned: !v.aligned, ..v };
    let w = style_w(v.style);
    lemma_glyph_count(v.style);
    assert forall|c: int| 0 <= c < v.cols(bm) implies v.content_row(bm, 0)[c] == u.content_row(bm, 0)[c] by {
        assert(w * 1 == w);
        assert(0nat * 1 == 0);
        lemma_block_first_row(bm.pixels, bm.width, c as nat * w, w, v.be, w);
    }
    assert(v.content_row(bm, 0) =~= u.content_row(bm, 0));
}

/// A framed conversion has top and bottom borders of one corner, one edge
/// tile for each glyph column, and another corner.
pub proof fn lemma_frame_width(v: WriterView, bm: BitmapView)
    requires
        v.framed(),
    ensures
        v.top(bm) == v.border(ceil_div(bm.width, style_w(v.style)), 0).push('\n'),
        v.bottom(bm) == v.border(ceil_div(bm.width, style_w(v.style)), 6).push('\n'),
        v.border(ceil_div(bm.width, style_w(v.style)), 0).len() == ceil_div(bm.width, style_w(v.style)) + 2,
        v.border(ceil_div(bm.width, style_w(v.style)), 6).len() == ceil_div(bm.width, style_w(v.style)) + 2,
{
}

/// A pixel whose byte lies past the end of the buffer reads as unset.
pub proof fn lemma_pixel_past_end(pixels: Seq<u8>, width: nat, x: nat, y: nat, be: bool, aligned: bool)
    requires
        bit_index(width, x, y, aligned) / 8 >= pixels.len(),
    ensures
        !pixel_set(pixels, width, x, y, be, aligned),
{
}

proof fn lemma_block_past_end(pixels: Seq<u8>, width: nat, x: nat, y: nat, w: nat, be: bool, aligned: bool, n: nat)
    requires
        w >= 1,
        bit_index(width, x, y, aligned) / 8 >= pixels.len(),
    ensures
        block_bits(pixels, width, x, y, w, be, aligned, n) == 0,
    decreases n,
{
    if n > 0 {
        let k = (n - 1) as nat;
        lemma_block_past_end(pixels, width, x, y, w, be, aligned, k);
        let s = row_stride(width, aligned);
        let d = k / w;
        assert((y + d) * s >= y * s) by (nonlinear_arith)
            requires
                d >= 0,
                s >= 0,
        ;
        assert(bit_index(width, x + k % w, y + k / w, aligned) >= bit_index(width, x, y, aligned));
    }
}

/// A glyph whose block starts past the end of the buffer is blank.
pub proof fn lemma_glyph_past_end(v: WriterView, bm: BitmapView, col: nat, row: nat)
    requires
        bit_index(bm.width, col * style_w(v.style), row * style_h(v.style), v.aligned) / 8
            >= bm.pixels.len(),
    ensures
        v.glyph_at(bm, col, row) == ' ',
{
    let w = style_w(v.style);
    let h = style_h(v.style);
    lemma_glyph_count(v.style);
    lemma_block_past_end(bm.pixels, bm.width, col * w, row * h, w, v.be, v.aligned, w * h);
}

/// The bitmap `bm` with `extra` zero bytes after its data.
pub open spec fn zero_padded(bm: BitmapView, extra: nat) -> BitmapView {
    BitmapView { pixels: bm.pixels + Seq::new(extra, |_i: int| 0u8), ..bm }
}

proof fn lemma_block_zero_padded(bm: BitmapView, extra: nat, x: nat, y: nat, w: nat, be: bool, aligned: bool, n: nat)
    ensures
        block_bits(bm.pixels, bm.width, x, y, w, be, aligned, n) == block_bits(
            zero_padded(bm, extra).pixels,
            bm.width,
            x,
            y,
            w,
            be,
            aligned,
            n,
        ),
    decreases n,
{
    if n > 0 {
        let k = (n - 1) as nat;
        lemma_block_zero_padded(bm, extra, x, y, w, be, aligned, k);
        let p = zero_padded(bm, extra).pixels;
        let bit = bit_index(bm.width, x + k % w, y + k / w, aligned);
        if bit / 8 >= bm.pixels.len() && bit / 8 < p.len() {
            assert(p[(bit / 8) as int] == 0u8);
            let i = bit_in_byte(bit, be);
            assert(i < 8);
            let s = i as u8;
            assert((0u8 >> s) & 1u8 != 1u8) by (bit_vector);
            assert(!bit_of(0u8, i));
        }
    }
}

/// A buffer shorter than the bitmap needs converts as if it were filled up
/// with zero bytes: the missing pixels show as unset.
pub proof fn lemma_short_buffer(v: WriterView, bm: BitmapView, extra: nat)
    ensures
        v.render(bm) == v.render(zero_padded(bm, extra)),
{
    let bz = zero_padded(bm, extra);
    let w = style_w(v.style);
    let h = style_h(v.style);
    assert forall|row: nat| #[trigger] v.content_row(bm, row) == v.content_row(bz, row) by {
        assert forall|c: int| 0 <= c < v.cols(bm) implies v.content_row(bm, row)[c] == v.content_row(bz, row)[c] by {
            lemma_block_zero_padded(bm, extra, c as nat * w, row * h, w, v.be, v.aligned, w * h);
        }
        assert(v.content_row(bm, row) =~= v.content_row(bz, row));
    }
    lemma_row_lines_zero_padded(v, bm, extra, v.rows(bm));
}

proof fn lemma_row_lines_zero_padded(v: WriterView, bm: BitmapView, extra: nat, n: nat)
    requires
        forall|row: nat| #[trigger] v.content_row(bm, row) == v.content_row(zero_padded(bm, extra), row),
    ensures
        v.row_lines(bm, n) == v.row_lines(zero_padded(bm, extra), n),
    decreases n,
{
    if n > 0 {
        lemma_row_lines_zero_padded(v, bm, extra, (n - 1) as nat);
        assert(v.content_row(bm, (n - 1) as nat) == v.content_row(zero_padded(bm, extra), (n - 1) as nat));
    }
}

/// The settings `v` without any cursor command.
pub open spec fn plain(v: WriterView) -> WriterView {
    WriterView { position: None, restore: false, ..v }
}

proof fn lemma_row_lines_restore(v: WriterView, bm1: BitmapView, bm2: BitmapView, n: nat)
    requires
        v.restore,
        bm1.width == bm2.width,
    ensures
        v.row_lines(bm1, n) == plain(v).row_lines(bm1, n),
        v.row_lines(bm1, n).len() == v.row_lines(bm2, n).len(),
    decreases n,
{
    if n > 0 {
        let k = (n - 1) as nat;
        lemma_row_lines_restore(v, bm1, bm2, k);
        assert(v.row_line(bm1, k) =~= plain(v).row_line(bm1, k));
    }
}

/// With the cursor saved and restored, the text of a bitmap is its plain
/// text between the save and the restore command, wherever a position was
/// set; and bitmaps of one size give texts of one length, with their rows
/// of content ending at the same places, so each overwrites the last.
pub proof fn lemma_restore_in_place(v: WriterView, bm1: BitmapView, bm2: BitmapView)
    requires
        v.restore,
        bm1.width == bm2.width,
        bm1.height == bm2.height,
    ensures
        v.render(bm1) == cursor_save() + plain(v).render(bm1) + cursor_restore(),
        v.render(bm1).len() == v.render(bm2).len(),
        forall|n: nat| n <= v.rows(bm1) ==> #[trigger] v.row_lines(bm1, n).len() == v.row_lines(bm2, n).len(),
{
    let rows = v.rows(bm1);
    lemma_row_lines_restore(v, bm1, bm2, rows);
    assert forall|n: nat| n <= v.rows(bm1) implies #[trigger] v.row_lines(bm1, n).len() == v.row_lines(bm2, n).len() by {
        lemma_row_lines_restore(v, bm1, bm2, n);
    }
    assert(v.render(bm1) =~= cursor_save() + plain(v).render(bm1) + cursor_restore());
}

} // verus!
