//! Overlay text in the bitmap font.

use vstd::prelude::*;
use vstd::string::StringSliceAdditionalSpecFns;
use crate::font::{
    cell_point, glyph_points, glyph_points_upto, has_glyph, lemma_glyph_points_ends,
    lemma_glyph_points_in_box, lemma_glyph_points_succ, FONT,
};
use crate::plot::{
    all_on_sink, clipped_plots, lemma_clipped_all_outside, lemma_clipped_on_sink,
    lemma_clipped_push, lemma_joined_on_sink, Plot, Point, TEXT_DEPTH,
};

verus! {

/// The byte that ends a line of text.
pub const LINE_FEED: u8 = 10;

/// The pixel writes of the character `c` drawn with the top left corner of
/// its cell at `(x, y)` on a `width` by `height` sink.
pub open spec fn char_plots(
    width: usize,
    height: usize,
    x: int,
    y: int,
    c: char,
    color: u32,
) -> Seq<Plot> {
    clipped_plots(glyph_points(c, x, y), width, height, color, TEXT_DEPTH)
}

/// The pixel writes of a run of bytes drawn from `(x, y)` rightwards: byte
/// number `i` is drawn as a character in the cell that starts at
/// `x + 8 * i`, whatever the bytes before it were.
pub open spec fn text_plots(
    width: usize,
    height: usize,
    x: int,
    y: int,
    bytes: Seq<u8>,
    color: u32,
) -> Seq<Plot> {
    Seq::new(
        bytes.len(),
        |i: int| char_plots(width, height, x + 8 * i, y, bytes[i] as char, color),
    ).flatten()
}

/// A character without a glyph, or one whose cell starts right of or below
/// the sink, leaves no write.
pub proof fn lemma_char_plots_empty(
    width: usize,
    height: usize,
    x: int,
    y: int,
    c: char,
    color: u32,
)
    requires
        !has_glyph(c) || x >= width || y >= height,
    ensures
        char_plots(width, height, x, y, c, color) == Seq::<Plot>::empty(),
{
    lemma_glyph_points_in_box(c, x, y);
    if has_glyph(c) {
        lemma_clipped_all_outside(glyph_points(c, x, y), width, height, color, TEXT_DEPTH);
    }
}

/// Draws one character of the 8 by 8 font with the top left corner of its
/// cell at `(x, y)`: one write per lit pixel that lies on the sink, row by
/// row. Characters outside the printable ASCII range draw nothing.
pub fn draw_char(width: usize, height: usize, x: usize, y: usize, c: char, color: u32) -> (plots:
    Vec<Plot>)
    ensures
        plots@ == char_plots(width, height, x as int, y as int, c, color),
        all_on_sink(plots@, width, height),
{
    proof {
        lemma_clipped_on_sink(glyph_points(c, x as int, y as int), width, height, color, TEXT_DEPTH);
    }
    let mut plots: Vec<Plot> = Vec::new();
    if c < ' ' || c > '~' {
        proof {
            lemma_char_plots_empty(width, height, x as int, y as int, c, color);
        }
        return plots;
    }
    let index: usize = c as usize - 32;
    proof {
        lemma_glyph_points_ends(c, x as int, y as int);
    }
    let mut row: usize = 0;
    while row < 8
        invariant
            row <= 8,
            has_glyph(c),
            index == c as int - 32,
            plots@ == clipped_plots(
                glyph_points_upto(c, x as int, y as int, 8 * row),
                width,
                height,
                color,
                TEXT_DEPTH,
            ),
        decreases 8 - row,
    {
        let bits: u8 = FONT[index][row];
        let mut col: usize = 0;
        while col < 8
            invariant
                row < 8,
                col <= 8,
                has_glyph(c),
                index == c as int - 32,
                bits == FONT[index as int][row as int],
                plots@ == clipped_plots(
                    glyph_points_upto(c, x as int, y as int, 8 * row + col),
                    width,
                    height,
                    color,
                    TEXT_DEPTH,
                ),
            decreases 8 - col,
        {
            let ghost cell: int = 8 * row + col;
            let ghost p: Point = cell_point(x as int, y as int, cell);
            proof {
                lemma_glyph_points_succ(c, x as int, y as int, cell);
                lemma_clipped_push(
                    glyph_points_upto(c, x as int, y as int, cell),
                    p,
                    width,
                    height,
                    color,
                    TEXT_DEPTH,
                );
            }
            if bits & (1u8 << col) != 0 {
                if x < width && y < height && col < width - x && row < height - y {
                    let px: usize = x + col;
                    let py: usize = y + row;
                    plots.push(Plot { x: px, y: py, color, depth: TEXT_DEPTH });
                }
            }
            col += 1;
        }
        row += 1;
    }
    plots
}

/// Draws `text` from `(x, y)` rightwards, one 8 pixel wide cell per byte of
/// the text. A line feed and any other byte outside the printable ASCII
/// range leaves its cell empty.
pub fn draw_text(width: usize, height: usize, x: usize, y: usize, text: &str, color: u32) -> (plots:
    Vec<Plot>)
    ensures
        plots@ == text_plots(width, height, x as int, y as int, text.spec_bytes(), color),
        all_on_sink(plots@, width, height),
{
    let bytes = text.as_bytes();
    let mut plots: Vec<Plot> = Vec::new();
    let ghost cells = Seq::new(
        bytes@.len(),
        |i: int| char_plots(width, height, x + 8 * i, y as int, bytes@[i] as char, color),
    );
    let mut i: usize = 0;
    while i < bytes.len()
        invariant
            i <= bytes@.len(),
            bytes@ == text.spec_bytes(),
            cells == Seq::new(
                bytes@.len(),
                |i: int| char_plots(width, height, x + 8 * i, y as int, bytes@[i] as char, color),
            ),
            plots@ == cells.take(i as int).flatten(),
        decreases bytes@.len() - i,
    {
        let b: u8 = bytes[i];
        proof {
            assert(cells.take(i + 1) =~= cells.take(i as int).push(cells[i as int]));
            cells.take(i as int).lemma_flatten_push(cells[i as int]);
            if b == LINE_FEED || x + 8 * i >= width || y >= height {
                lemma_char_plots_empty(width, height, x + 8 * i, y as int, b as char, color);
            }
        }
        if b != LINE_FEED && y < height {
            if let Some(offset) = i.checked_mul(8) {
                if let Some(cx) = x.checked_add(offset) {
                    if cx < width {
                        let mut glyph = draw_char(width, height, cx, y, b as char, color);
                        plots.append(&mut glyph);
                    }
                }
            }
        }
        i += 1;
    }
    proof {
        assert(cells.take(i as int) =~= cells);
        assert forall|j: int| 0 <= j < cells.len() implies all_on_sink(
            #[trigger] cells[j],
            width,
            height,
        ) by {
            lemma_clipped_on_sink(
                glyph_points(bytes@[j] as char, x + 8 * j, y as int),
                width,
                height,
                color,
                TEXT_DEPTH,
            );
        }
        lemma_joined_on_sink(cells, width, height);
    }
    plots
}

} // verus!
