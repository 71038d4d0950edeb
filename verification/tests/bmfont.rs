use sonorous::bmfont::{decompress, has_bit, Alignment, Font, NCOLUMNS, NGLYPHS, NROWS, NWORDS};
use sonorous::gfx::{Blend, Color, Gradient, SurfacePixels};

const BLACK: Color = Color { r: 0, g: 0, b: 0 };
const WHITE: Color = Color { r: 255, g: 255, b: 255 };
const RED: Color = Color { r: 255, g: 0, b: 0 };

fn surface(width: usize, height: usize) -> SurfacePixels {
    SurfacePixels::new(width, height, BLACK).unwrap()
}

/// The rows of the surface, a `#` for each pixel that is not black.
fn picture(s: &SurfacePixels) -> Vec<String> {
    (0..s.height)
        .map(|y| {
            (0..s.width)
                .map(|x| if s.get_pixel(x, y) == Some(BLACK) { '.' } else { '#' })
                .collect()
        })
        .collect()
}

#[test]
fn decompress_literals_and_copies() {
    let dwords = [5u16, 10, 65535];
    // the code words are 0, 5, 15 and 14
    assert_eq!(decompress(&dwords, b"!\"#$"), Some(vec![0, 5, 15, 14]));
    assert_eq!(decompress(&dwords, b""), Some(vec![]));
    // three copies from one word back, then four from three words back
    assert_eq!(decompress(&dwords, b"\"b!"), Some(vec![5, 5, 5, 5]));
    assert_eq!(decompress(&dwords, b"\"#$c#"), Some(vec![5, 15, 14, 5, 15, 14, 5]));
    assert_eq!(decompress(&dwords, b"\"#b\""), Some(vec![5, 15, 5, 15, 5]));
    assert_eq!(decompress(&dwords, b"\"~!").map(|v| v.len()), Some(32));
}

#[test]
fn decompress_rejects_malformed_indices() {
    let dwords = [5u16, 10];
    assert_eq!(decompress(&dwords, b" "), None);
    assert_eq!(decompress(&dwords, b"!\x7f"), None);
    assert_eq!(decompress(&dwords, b"!$"), None);
    assert_eq!(decompress(&dwords, b"!a"), None);
    assert_eq!(decompress(&dwords, b"!b"), None);
    assert_eq!(decompress(&dwords, b"!b "), None);
    assert_eq!(decompress(&dwords, b"!b\""), None);
    assert_eq!(decompress(&dwords, b"b!"), None);
    assert_eq!(decompress(&[], b"!"), Some(vec![0]));
    assert_eq!(decompress(&[], b"\""), None);
}

#[test]
fn font_data_is_complete() {
    let font = Font();
    assert_eq!(font.glyphs.len(), NWORDS);
    assert_eq!(NWORDS, NGLYPHS * NROWS * 2);
    assert!(font.pixels.is_empty());
    assert_eq!(font.glyphs[..8], [0, 0, 4095, 65535, 3840, 15, 3840, 15]);
    assert_eq!(font.glyphs[33 * 32..33 * 32 + 8], [0, 0, 0, 0, 0, 0, 47, 4096]);
    let sum: u64 = font.glyphs.iter().map(|&w| w as u64).sum();
    assert_eq!(sum, 52_849_562);
    let mixed = font.glyphs.iter().fold(0u64, |s, &w| (s * 31 + w as u64) % 1_000_000_007);
    assert_eq!(mixed, 480_486_109);
}

#[test]
fn zoomed_fonts() {
    let mut font = Font();
    assert!(!font.is_zoomed(1));
    font.create_zoomed_font(1);
    assert!(font.is_zoomed(1) && !font.is_zoomed(0) && !font.is_zoomed(2));
    assert_eq!(font.pixels[1].len(), NGLYPHS);
    assert_eq!(
        font.pixels[1][33],
        vec![0, 0, 0, 16, 56, 108, 198, 198, 198, 254, 198, 198, 198, 0, 0, 0]
    );
    assert_eq!(font.pixels[1][1], vec![0, 0, 0, 24, 60, 60, 60, 60, 24, 24, 0, 24, 24, 24, 0, 0]);
    assert_eq!(font.pixels[1][95], vec![0, 0, 0, 0, 0, 0, 0, 0, 0, 0, 0, 0, 0, 126, 60, 24]);
    font.create_zoomed_font(3);
    assert_eq!(font.pixels.len(), 4);
    assert!(font.pixels[0].is_empty() && font.pixels[2].is_empty());
    assert_eq!(font.pixels[3][33].len(), 48);
    assert_eq!(font.pixels[3][33][9..15], [28672, 63488, 130048, 261632, 524032, 1048448]);
    font.create_zoomed_font(2);
    assert_eq!(
        font.pixels[2][33],
        vec![
            0, 0, 0, 0, 0, 0, 768, 1920, 4032, 8160, 16368, 31992, 63612, 61500, 61500, 61500,
            61500, 61500, 65532, 65532, 61500, 61500, 61500, 61500, 61500, 61500, 0, 0, 0, 0, 0,
            0
        ]
    );
    let before = font.pixels.clone();
    font.create_zoomed_font(1);
    font.create_zoomed_font(3);
    assert_eq!(font.pixels, before);
    font.create_zoomed_font(4);
    assert_eq!(font.pixels[4][0].len(), 64);
    assert!(font.pixels[4].iter().all(|g| g.len() == 64));
    assert!(has_bit(5, 0) && !has_bit(5, 1) && has_bit(5, 2) && has_bit(u32::MAX, 31) && !has_bit(0, 31));
}

#[test]
fn print_glyph_paints_the_lit_pixels() {
    let mut font = Font();
    font.create_zoomed_font(1);
    let mut s = surface(10, 18);
    font.print_glyph(&mut s, 1, 1, 1, 33, WHITE);
    assert_eq!(
        picture(&s),
        vec![
            "..........",
            "..........",
            "..........",
            "..........",
            ".....#....",
            "....###...",
            "...##.##..",
            "..##...##.",
            "..##...##.",
            "..##...##.",
            "..#######.",
            "..##...##.",
            "..##...##.",
            "..##...##.",
            "..........",
            "..........",
            "..........",
            "..........",
        ]
    );
    // what is there stays unless it is painted over
    font.print_glyph(&mut s, 1, 1, 1, 1, RED);
    assert_eq!(s.get_pixel(5, 4), Some(RED));
    assert_eq!(s.get_pixel(2, 7), Some(WHITE));
    assert_eq!(s.get_pixel(4, 7), Some(RED));
    assert_eq!(s.get_pixel(0, 0), Some(BLACK));
}

#[test]
fn print_glyph_clips_at_the_edges() {
    let mut font = Font();
    font.create_zoomed_font(2);
    let mut s = surface(6, 20);
    font.print_glyph(&mut s, 0, 0, 2, 33, WHITE);
    assert_eq!(picture(&s)[5], "......");
    assert_eq!(picture(&s)[9], ".....#");
    assert_eq!(picture(&s)[12], "..####");
    let mut far = surface(3, 3);
    font.print_glyph(&mut far, usize::MAX - 2, usize::MAX, 2, 33, WHITE);
    font.print_glyph(&mut far, 3, 0, 2, 0, WHITE);
    font.print_glyph(&mut far, 0, 3, 2, 0, WHITE);
    assert_eq!(picture(&far), vec!["...", "...", "..."]);
}

#[test]
fn gradients_blend_by_row() {
    let g = Gradient { zero: Color { r: 0, g: 100, b: 255 }, one: Color { r: 255, g: 0, b: 255 } };
    assert_eq!(g.blend(0, 16), g.zero);
    assert_eq!(g.blend(16, 16), g.one);
    assert_eq!(g.blend(8, 16), Color { r: 127, g: 50, b: 255 });
    assert_eq!(g.blend(1, 3), Color { r: 85, g: 67, b: 255 });
    assert_eq!(g.blend(-16, 16), Color { r: 0, g: 200, b: 255 });
    assert_eq!(g.blend(32, 16), Color { r: 255, g: 0, b: 255 });
    assert_eq!(RED.blend(3, 7), RED);
    let mut font = Font();
    font.create_zoomed_font(1);
    let mut s = surface(8, 16);
    font.print_glyph(&mut s, 0, 0, 1, 33, g);
    assert_eq!(s.get_pixel(4, 3), Some(g.blend(3, 16)));
    assert_eq!(s.get_pixel(1, 12), Some(g.blend(12, 16)));
    assert_eq!(s.get_pixel(0, 12), Some(BLACK));
}

#[test]
fn print_char_skips_white_space_and_maps_the_rest() {
    let mut font = Font();
    font.create_zoomed_font(1);
    let print = |c: char| {
        let mut s = surface(8, 16);
        font.print_char(&mut s, 0, 0, 1, c, WHITE);
        picture(&s)
    };
    let glyph = |g: usize| {
        let mut s = surface(8, 16);
        font.print_glyph(&mut s, 0, 0, 1, g, WHITE);
        picture(&s)
    };
    let blank = picture(&surface(8, 16));
    assert_eq!(print(' '), blank);
    assert_eq!(print('\t'), blank);
    assert_eq!(print('\n'), blank);
    for c in ['\u{85}', '\u{a0}', '\u{1680}', '\u{2000}', '\u{200a}', '\u{2028}', '\u{202f}', '\u{3000}'] {
        assert_eq!(print(c), blank);
    }
    assert_eq!(print('\u{200b}'), glyph(0));
    assert_eq!(print('A'), glyph(33));
    assert_eq!(print('!'), glyph(1));
    assert_eq!(print('}'), glyph(93));
    assert_eq!(print('~'), glyph(0));
    assert_eq!(print('\u{7f}'), glyph(0));
    assert_eq!(print('é'), glyph(0));
    assert_eq!(print('\0'), glyph(0));
    assert_ne!(glyph(0), blank);
}

#[test]
fn print_string_aligns_and_clips() {
    let mut font = Font();
    font.create_zoomed_font(1);
    let columns = |align: Alignment, x: usize, text: &str, width: usize| -> Vec<usize> {
        let mut s = surface(width, 16);
        font.print_string(&mut s, x, 0, 1, align, text, WHITE);
        // the character cells that hold a pixel
        (0..width / NCOLUMNS + 1)
            .filter(|&cell| {
                (cell * NCOLUMNS..(cell * NCOLUMNS + NCOLUMNS).min(width))
                    .any(|px| (0..16).any(|py| s.get_pixel(px, py) != Some(BLACK)))
            })
            .collect()
    };
    assert_eq!(columns(Alignment::LeftAligned, 8, "AB C", 64), vec![1, 2, 4]);
    assert_eq!(columns(Alignment::RightAligned, 40, "AB C", 64), vec![1, 2, 4]);
    assert_eq!(columns(Alignment::Centered, 24, "AB C", 64), vec![1, 2, 4]);
    assert_eq!(columns(Alignment::RightAligned, 8, "AB", 64), vec![0, 1]);
    assert_eq!(columns(Alignment::Centered, 3, "ABCD", 64), vec![0, 1, 2, 3]);
    // a character is printed only if it ends before the last column
    assert_eq!(columns(Alignment::LeftAligned, 0, "ABCD", 24), vec![0, 1]);
    assert_eq!(columns(Alignment::LeftAligned, 0, "ABCD", 25), vec![0, 1, 2]);
    assert_eq!(columns(Alignment::LeftAligned, 0, "ABCD", 8), vec![]);
    assert_eq!(columns(Alignment::LeftAligned, 1, "ABCD", 9), vec![]);
    assert_eq!(columns(Alignment::LeftAligned, 0, "", 64), vec![]);
    assert_eq!(columns(Alignment::LeftAligned, usize::MAX, "A", 64), vec![]);
}

#[test]
fn surfaces() {
    let mut s = surface(3, 2);
    assert_eq!(s.pixels.len(), 6);
    s.put_pixel(2, 1, RED);
    s.put_pixel(0, 1, WHITE);
    s.put_pixel(3, 0, WHITE);
    s.put_pixel(0, 2, WHITE);
    assert_eq!(s.pixels, vec![BLACK, BLACK, BLACK, WHITE, BLACK, RED]);
    assert_eq!(s.get_pixel(2, 1), Some(RED));
    assert_eq!(s.get_pixel(3, 1), None);
    assert_eq!(s.get_pixel(2, 2), None);
    assert!(SurfacePixels::new(usize::MAX, 2, BLACK).is_none());
    assert_eq!(SurfacePixels::new(0, usize::MAX, BLACK).map(|s| s.pixels.len()), Some(0));
}
