use bitmap_writer::{Bitmap, Frame, Style, Writer};

fn render(w: &Writer, width: usize, height: usize, pixels: &[u8]) -> String {
    let mut out = String::new();
    w.write(&mut out, &Bitmap::new(width, height, pixels));
    out
}

#[test]
fn bitmap_keeps_its_size() {
    let data: [u8; 2] = [1, 2];
    let b = Bitmap::new(5, 3, &data);
    assert_eq!(b.width(), 5);
    assert_eq!(b.height(), 3);
}

#[test]
fn single_row_block_1x1() {
    let mut w = Writer::new();
    w.style(Style::UnicodeBlock1x1);
    assert_eq!(render(&w, 8, 1, &[0b10110000]), "█ ██    \n");
}

#[test]
fn big_endian_mirrors_each_byte() {
    let mut w = Writer::new();
    w.style(Style::UnicodeBlock1x1).be(true);
    assert_eq!(render(&w, 8, 1, &[0b10110000]), "    ██ █\n");
    let mut l = Writer::new();
    l.style(Style::UnicodeBlock1x1);
    let be_rows = render(&w, 8, 2, &[0b11100010, 0b00000001]);
    let le_rows = render(&l, 8, 2, &[0b11100010, 0b00000001]);
    for (a, b) in be_rows.lines().zip(le_rows.lines()) {
        let mirrored: String = b.chars().rev().collect();
        assert_eq!(a, mirrored);
    }
}

#[test]
fn byte_alignment_skips_padding_bits() {
    let mut packed = Writer::new();
    packed.style(Style::ASCII1x1('#'));
    let mut aligned = Writer::new();
    aligned.style(Style::ASCII1x1('#')).byte_aligned(true);
    let data: [u8; 2] = [0b10100101, 0b11110000];
    let p = render(&packed, 4, 2, &data);
    let a = render(&aligned, 4, 2, &data);
    assert_eq!(p, "# # \n # #\n");
    assert_eq!(a, "# # \n####\n");
    assert_eq!(p.lines().next(), a.lines().next());
}

#[test]
fn default_style_is_half_blocks() {
    let w = Writer::new();
    assert_eq!(render(&w, 1, 2, &[0b01000000]), "▄\n");
    assert_eq!(render(&w, 1, 2, &[0b10000000]), "▀\n");
    assert_eq!(render(&w, 1, 2, &[0b11000000]), "█\n");
    assert_eq!(render(&w, 1, 2, &[0b00000000]), " \n");
}

#[test]
fn odd_height_leaves_lower_half_unset() {
    let w = Writer::new();
    assert_eq!(render(&w, 2, 3, &[0b11111100]), "██\n▀▀\n");
}

#[test]
fn quadrant_glyphs_follow_bit_pattern() {
    let mut w = Writer::new();
    w.style(Style::UnicodeBlock2x2);
    assert_eq!(render(&w, 2, 2, &[0b10000000]), "▘\n");
    assert_eq!(render(&w, 2, 2, &[0b01000000]), "▝\n");
    assert_eq!(render(&w, 2, 2, &[0b00100000]), "▖\n");
    assert_eq!(render(&w, 2, 2, &[0b00010000]), "▗\n");
    assert_eq!(render(&w, 2, 2, &[0b10010000]), "▚\n");
    assert_eq!(render(&w, 2, 2, &[0b11110000]), "█\n");
}

#[test]
fn sextant_glyphs_follow_bit_pattern() {
    let mut w = Writer::new();
    w.style(Style::UnicodeSextant2x3);
    assert_eq!(render(&w, 2, 3, &[0b11111100]), "🮋\n");
    assert_eq!(render(&w, 2, 3, &[0b10000000]), "🬀\n");
    assert_eq!(render(&w, 2, 3, &[0b10101000]), "▋\n");
    assert_eq!(render(&w, 2, 3, &[0b01010100]), "▐\n");
    let mut c = Writer::new();
    c.style(Style::UnicodeSextant1x3);
    assert_eq!(render(&c, 1, 3, &[0b11100000]), "▋\n");
    assert_eq!(render(&c, 1, 3, &[0b01000000]), "🬃\n");
}

#[test]
fn partial_block_at_right_edge() {
    let mut w = Writer::new();
    w.style(Style::UnicodeBlock2x2).byte_aligned(true);
    assert_eq!(render(&w, 3, 2, &[0b11100000, 0b11100000]), "█▋\n");
    // Without alignment the column past the edge reads the next row's bits.
    w.byte_aligned(false);
    assert_eq!(render(&w, 3, 2, &[0b11111100]), "█▛\n");
}

#[test]
fn ascii_frame_surrounds_content() {
    let mut w = Writer::new();
    w.style(Style::ASCII1x1('#')).frame(Frame::ASCIIFrame);
    assert_eq!(render(&w, 3, 1, &[0b10100000]), ".---.\n|# #|\n'---'\n");
}

#[test]
fn frame_border_width_counts_glyph_columns() {
    let mut w = Writer::new();
    w.style(Style::UnicodeBlock2x2).frame(Frame::UnicodeFrame);
    let out = render(&w, 5, 2, &[0, 0]);
    let lines: Vec<&str> = out.lines().collect();
    assert_eq!(lines.len(), 3);
    assert_eq!(lines[0], "┌───┐");
    assert_eq!(lines[1].chars().count(), 5);
    assert_eq!(lines[2], "└───┘");
}

#[test]
fn every_frame_has_its_tiles() {
    let cases: [(Frame, &str); 5] = [
        (Frame::UnicodeFrame, "┌─┐\n│█│\n└─┘\n"),
        (Frame::UnicodeBoldFrame, "┏━┓\n┃█┃\n┗━┛\n"),
        (Frame::UnicodeDoubleUFrame, "╔═╗\n║█║\n╚═╝\n"),
        (Frame::UnicodeBlockFrame, "▞▀▚\n▌█▐\n▚▄▞\n"),
        (Frame::UnicodeShadeFrame, "🮞🮐🮟\n🮐█🮐\n🮝🮐🮜\n"),
    ];
    for (frame, expected) in cases {
        let mut w = Writer::new();
        w.style(Style::UnicodeBlock1x1).frame(frame);
        assert_eq!(render(&w, 1, 1, &[0b10000000]), expected);
    }
    let mut none = Writer::new();
    none.style(Style::UnicodeBlock1x1).frame(Frame::UnicodeFrame).frame(Frame::NoFrame);
    assert_eq!(render(&none, 1, 1, &[0b10000000]), "█\n");
}

#[test]
fn short_buffer_renders_blank() {
    let mut w = Writer::new();
    w.style(Style::UnicodeBlock1x1);
    assert_eq!(render(&w, 8, 3, &[0xff]), "████████\n        \n        \n");
    assert_eq!(render(&w, 4, 2, &[]), "    \n    \n");
}

#[test]
fn explicit_position_moves_before_each_line() {
    let mut w = Writer::new();
    w.style(Style::UnicodeBlock1x1).ansi_position(5, 10);
    assert_eq!(
        render(&w, 1, 2, &[0b11000000]),
        "\x1b[5;10H\x1b[5;10H█\n\x1b[6;10H█\n\x1b[7;10H"
    );
    w.frame(Frame::ASCIIFrame);
    assert_eq!(
        render(&w, 1, 1, &[0b10000000]),
        "\x1b[5;10H.-.\n\x1b[6;10H|█|\n\x1b[7;10H'-'\n"
    );
}

#[test]
fn first_position_is_repeated_without_frame() {
    let mut w = Writer::new();
    w.style(Style::UnicodeBlock1x1).ansi_position(1, 1);
    assert_eq!(render(&w, 1, 1, &[0]), "\x1b[1;1H\x1b[1;1H \n\x1b[2;1H");
}

#[test]
fn position_beyond_machine_word_is_written_in_full() {
    let mut w = Writer::new();
    w.style(Style::UnicodeBlock1x1).ansi_position(usize::MAX, 0);
    let out = render(&w, 1, 1, &[0]);
    let max = usize::MAX.to_string();
    let next = (usize::MAX as u128 + 1).to_string();
    let expected = format!("\x1b[{};0H\x1b[{};0H \n\x1b[{};0H", max, max, next);
    assert_eq!(out, expected);
}

#[test]
fn cleared_position_writes_no_commands() {
    let mut w = Writer::new();
    w.style(Style::UnicodeBlock1x1).ansi_position(3, 4).clear_ansi_position();
    assert_eq!(render(&w, 2, 1, &[0b01000000]), " █\n");
}

#[test]
fn restore_mode_wraps_output_in_save_and_restore() {
    let mut w = Writer::new();
    w.style(Style::UnicodeBlock1x1).ansi_position(3, 4).ansi_position_restore(true);
    let first = render(&w, 2, 2, &[0b10010000]);
    let second = render(&w, 2, 2, &[0b01100000]);
    assert_eq!(first, "\x1b[s█ \n █\n\x1b[u");
    assert_eq!(second, "\x1b[s █\n█ \n\x1b[u");
    assert_eq!(first.chars().count(), second.chars().count());
    let again = render(&w, 2, 2, &[0b10010000]);
    assert_eq!(first, again);
    w.ansi_position_restore(false);
    assert_eq!(render(&w, 1, 1, &[0]), "\x1b[3;4H\x1b[3;4H \n\x1b[4;4H");
}

#[test]
fn write_appends_to_existing_text() {
    let mut w = Writer::new();
    w.style(Style::ASCII1x1('*'));
    let mut out = String::from("> ");
    let data: [u8; 1] = [0b10000000];
    w.write(&mut out, &Bitmap::new(2, 1, &data));
    assert_eq!(out, "> * \n");
}

#[test]
fn empty_bitmap_gives_only_frame() {
    let mut w = Writer::new();
    w.frame(Frame::ASCIIFrame);
    assert_eq!(render(&w, 0, 0, &[]), "..\n''\n");
    let plain = Writer::new();
    assert_eq!(render(&plain, 0, 0, &[]), "");
}

#[test]
fn every_bit_pattern_has_its_own_glyph() {
    let styles: [(Style, usize, usize); 6] = [
        (Style::ASCII1x1('@'), 1, 1),
        (Style::UnicodeBlock1x1, 1, 1),
        (Style::UnicodeBlock1x2, 1, 2),
        (Style::UnicodeBlock2x2, 2, 2),
        (Style::UnicodeSextant1x3, 1, 3),
        (Style::UnicodeSextant2x3, 2, 3),
    ];
    for (style, bw, bh) in styles {
        let mut w = Writer::new();
        w.style(style);
        let n = bw * bh;
        let mut seen: Vec<char> = Vec::new();
        for index in 0..(1usize << n) {
            let mut byte: u8 = 0;
            for k in 0..n {
                if (index >> k) & 1 == 1 {
                    byte |= 1 << (7 - k);
                }
            }
            let out = render(&w, bw, bh, &[byte]);
            let chars: Vec<char> = out.chars().collect();
            assert_eq!(chars.len(), 2);
            assert_eq!(chars[1], '\n');
            assert!(!seen.contains(&chars[0]));
            seen.push(chars[0]);
        }
        assert_eq!(seen.len(), 1 << n);
        assert_eq!(seen[0], ' ');
    }
}
