use solar_raster::font::FONT;
use solar_raster::plot::{Plot, TEXT_DEPTH};
use solar_raster::text::{draw_char, draw_text};

fn cells(plots: &[Plot]) -> Vec<(usize, usize)> {
    plots.iter().map(|p| (p.x, p.y)).collect()
}

/// The lit pixels of a glyph, read straight from the table.
fn glyph(c: u8, x: usize, y: usize, width: usize, height: usize) -> Vec<(usize, usize)> {
    let mut out = Vec::new();
    if !(32..=126).contains(&c) {
        return out;
    }
    for row in 0..8 {
        for col in 0..8 {
            let lit = FONT[(c - 32) as usize][row] & (1 << col) != 0;
            if let (true, Some(px), Some(py)) = (lit, x.checked_add(col), y.checked_add(row)) {
                if px < width && py < height {
                    out.push((px, py));
                }
            }
        }
    }
    out
}

#[test]
fn font_has_one_glyph_per_printable_character() {
    assert_eq!(FONT.len(), 95);
    assert_eq!(FONT[0], [0u8; 8]);
    assert_eq!(FONT[('A' as usize) - 32], [0x0C, 0x1E, 0x33, 0x33, 0x3F, 0x33, 0x33, 0x00]);
    assert_eq!(FONT[('~' as usize) - 32], [0x6E, 0x3B, 0, 0, 0, 0, 0, 0]);
}

#[test]
fn char_minus_sign_is_one_row() {
    // '-' is the single row 0x3F in row 3: columns 0 to 5.
    let plots = draw_char(100, 100, 10, 20, '-', 0xFFFFFF);
    assert_eq!(
        cells(&plots),
        vec![(10, 23), (11, 23), (12, 23), (13, 23), (14, 23), (15, 23)]
    );
    for p in &plots {
        assert_eq!(p.color, 0xFFFFFF);
        assert_eq!(p.depth, TEXT_DEPTH);
    }
    assert_eq!(TEXT_DEPTH, -2);
}

#[test]
fn char_exclamation_mark_pixels() {
    let plots = draw_char(64, 64, 0, 0, '!', 1);
    assert_eq!(
        cells(&plots),
        vec![
            (3, 0), (4, 0),
            (2, 1), (3, 1), (4, 1), (5, 1),
            (2, 2), (3, 2), (4, 2), (5, 2),
            (3, 3), (4, 3),
            (3, 4), (4, 4),
            (3, 6), (4, 6),
        ]
    );
}

#[test]
fn char_space_draws_nothing() {
    assert!(draw_char(64, 64, 5, 5, ' ', 7).is_empty());
}

#[test]
fn char_outside_printable_range_draws_nothing() {
    assert!(draw_char(64, 64, 5, 5, '\n', 7).is_empty());
    assert!(draw_char(64, 64, 5, 5, '\u{1f}', 7).is_empty());
    assert!(draw_char(64, 64, 5, 5, '\u{7f}', 7).is_empty());
    assert!(draw_char(64, 64, 5, 5, 'é', 7).is_empty());
}

#[test]
fn char_every_glyph_matches_the_table() {
    for c in 0u8..=255 {
        let plots = draw_char(50, 50, 7, 9, c as char, 3);
        assert_eq!(cells(&plots), glyph(c, 7, 9, 50, 50), "character {c}");
    }
}

#[test]
fn char_is_clipped_at_the_right_and_bottom_edges() {
    let plots = draw_char(13, 24, 10, 20, '#', 3);
    assert_eq!(cells(&plots), glyph(b'#', 10, 20, 13, 24));
    assert!(!plots.is_empty());
    for p in &plots {
        assert!(p.x < 13 && p.y < 24);
    }
    assert!(draw_char(10, 100, 10, 0, '#', 3).is_empty());
    assert!(draw_char(100, 20, 0, 20, '#', 3).is_empty());
}

#[test]
fn char_near_the_largest_coordinate_does_not_wrap() {
    let plots = draw_char(usize::MAX, usize::MAX, usize::MAX - 2, usize::MAX - 3, '#', 3);
    for p in &plots {
        assert!(p.x >= usize::MAX - 2 && p.x < usize::MAX);
        assert!(p.y >= usize::MAX - 3 && p.y < usize::MAX);
    }
    // Columns 0 and 1 and rows 0 to 2 of '#': 0x36 0x36 0x7F.
    assert_eq!(
        cells(&plots),
        vec![
            (usize::MAX - 1, usize::MAX - 3),
            (usize::MAX - 1, usize::MAX - 2),
            (usize::MAX - 2, usize::MAX - 1),
            (usize::MAX - 1, usize::MAX - 1),
        ]
    );
}

#[test]
fn text_places_one_cell_per_byte() {
    let plots = draw_text(200, 50, 20, 10, "-!", 9);
    let mut expected = glyph(b'-', 20, 10, 200, 50);
    expected.extend(glyph(b'!', 28, 10, 200, 50));
    assert_eq!(cells(&plots), expected);
    for p in &plots {
        assert_eq!(p.color, 9);
        assert_eq!(p.depth, TEXT_DEPTH);
    }
}

#[test]
fn text_line_feed_leaves_its_cell_empty() {
    let plots = draw_text(200, 50, 0, 0, "a\nb", 9);
    let mut expected = glyph(b'a', 0, 0, 200, 50);
    expected.extend(glyph(b'b', 16, 0, 200, 50));
    assert_eq!(cells(&plots), expected);
}

#[test]
fn text_counts_bytes_not_characters() {
    // 'á' is two bytes, neither of them printable ASCII.
    let plots = draw_text(200, 50, 0, 0, "áb", 9);
    assert_eq!(cells(&plots), glyph(b'b', 16, 0, 200, 50));
}

#[test]
fn text_stops_at_the_right_edge() {
    let plots = draw_text(20, 50, 0, 0, "####", 9);
    let mut expected = glyph(b'#', 0, 0, 20, 50);
    expected.extend(glyph(b'#', 8, 0, 20, 50));
    expected.extend(glyph(b'#', 16, 0, 20, 50));
    assert_eq!(cells(&plots), expected);
}

#[test]
fn text_below_the_sink_or_empty_draws_nothing() {
    assert!(draw_text(200, 50, 0, 50, "hello", 9).is_empty());
    assert!(draw_text(200, 50, 200, 0, "hello", 9).is_empty());
    assert!(draw_text(200, 50, 0, 0, "", 9).is_empty());
    assert!(draw_text(0, 0, 0, 0, "hello", 9).is_empty());
}

#[test]
fn text_near_the_largest_coordinate_does_not_wrap() {
    let plots = draw_text(usize::MAX, 10, usize::MAX - 9, 0, "##", 9);
    let mut expected = glyph(b'#', usize::MAX - 9, 0, usize::MAX, 10);
    expected.extend(glyph(b'#', usize::MAX - 1, 0, usize::MAX, 10));
    assert_eq!(cells(&plots), expected);
    assert!(plots.iter().all(|p| p.x < usize::MAX));
}

#[test]
fn text_status_line() {
    let text = "Pos: (0, 300, 800)";
    let plots = draw_text(1400, 900, 20, 20, text, 0xFFFFFF);
    let mut expected = Vec::new();
    for (i, b) in text.bytes().enumerate() {
        expected.extend(glyph(b, 20 + 8 * i, 20, 1400, 900));
    }
    assert_eq!(cells(&plots), expected);
}
