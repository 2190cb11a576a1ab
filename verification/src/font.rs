//! The 8 by 8 bitmap font of the overlay text.

use vstd::prelude::*;
use crate::plot::Point;

verus! {

/// One glyph per printable ASCII character, from the space to the tilde.
/// A glyph is eight rows, top to bottom; bit `n` of a row is the pixel in
/// column `n`, counted from the left.
pub const FONT: [[u8; 8]; 95] = [
    [0x00, 0x00, 0x00, 0x00, 0x00, 0x00, 0x00, 0x00],  // space
    [0x18, 0x3C, 0x3C, 0x18, 0x18, 0x00, 0x18, 0x00],  // !
    [0x36, 0x36, 0x24, 0x00, 0x00, 0x00, 0x00, 0x00],  // "
    [0x36, 0x36, 0x7F, 0x36, 0x7F, 0x36, 0x36, 0x00],  // #
    [0x0C, 0x3E, 0x03, 0x1E, 0x30, 0x1F, 0x0C, 0x00],  // $
    [0x00, 0x63, 0x33, 0x18, 0x0C, 0x66, 0x63, 0x00],  // %
    [0x1C, 0x36, 0x1C, 0x6E, 0x3B, 0x33, 0x6E, 0x00],  // &
    [0x06, 0x06, 0x04, 0x00, 0x00, 0x00, 0x00, 0x00],  // '
    [0x18, 0x0C, 0x06, 0x06, 0x06, 0x0C, 0x18, 0x00],  // (
    [0x06, 0x0C, 0x18, 0x18, 0x18, 0x0C, 0x06, 0x00],  // )
    [0x00, 0x66, 0x3C, 0xFF, 0x3C, 0x66, 0x00, 0x00],  // *
    [0x00, 0x0C, 0x0C, 0x3F, 0x0C, 0x0C, 0x00, 0x00],  // +
    [0x00, 0x00, 0x00, 0x00, 0x00, 0x0C, 0x0C, 0x18],  // ,
    [0x00, 0x00, 0x00, 0x3F, 0x00, 0x00, 0x00, 0x00],  // -
    [0x00, 0x00, 0x00, 0x00, 0x00, 0x0C, 0x0C, 0x00],  // .
    [0x60, 0x30, 0x18, 0x0C, 0x06, 0x03, 0x01, 0x00],  // /
    [0x3E, 0x63, 0x73, 0x7B, 0x6F, 0x67, 0x3E, 0x00],  // 0
    [0x0C, 0x0E, 0x0F, 0x0C, 0x0C, 0x0C, 0x3F, 0x00],  // 1
    [0x1E, 0x33, 0x30, 0x1C, 0x06, 0x33, 0x3F, 0x00],  // 2
    [0x1E, 0x33, 0x30, 0x1C, 0x30, 0x33, 0x1E, 0x00],  // 3
    [0x38, 0x3C, 0x36, 0x33, 0x7F, 0x30, 0x78, 0x00],  // 4
    [0x3F, 0x03, 0x1F, 0x30, 0x30, 0x33, 0x1E, 0x00],  // 5
    [0x1C, 0x06, 0x03, 0x1F, 0x33, 0x33, 0x1E, 0x00],  // 6
    [0x3F, 0x33, 0x30, 0x18, 0x0C, 0x0C, 0x0C, 0x00],  // 7
    [0x1E, 0x33, 0x33, 0x1E, 0x33, 0x33, 0x1E, 0x00],  // 8
    [0x1E, 0x33, 0x33, 0x3E, 0x30, 0x18, 0x0E, 0x00],  // 9
    [0x00, 0x0C, 0x0C, 0x00, 0x00, 0x0C, 0x0C, 0x00],  // :
    [0x00, 0x0C, 0x0C, 0x00, 0x00, 0x0C, 0x0C, 0x18],  // ;
    [0x18, 0x0C, 0x06, 0x03, 0x06, 0x0C, 0x18, 0x00],  // <
    [0x00, 0x00, 0x3F, 0x00, 0x00, 0x3F, 0x00, 0x00],  // =
    [0x06, 0x0C, 0x18, 0x30, 0x18, 0x0C, 0x06, 0x00],  // >
    [0x1E, 0x33, 0x30, 0x18, 0x0C, 0x00, 0x0C, 0x00],  // ?
    [0x3E, 0x63, 0x6F, 0x6F, 0x6F, 0x03, 0x1E, 0x00],  // @
    [0x0C, 0x1E, 0x33, 0x33, 0x3F, 0x33, 0x33, 0x00],  // A
    [0x3F, 0x66, 0x66, 0x3E, 0x66, 0x66, 0x3F, 0x00],  // B
    [0x3C, 0x66, 0x03, 0x03, 0x03, 0x66, 0x3C, 0x00],  // C
    [0x1F, 0x36, 0x66, 0x66, 0x66, 0x36, 0x1F, 0x00],  // D
    [0x7F, 0x46, 0x16, 0x1E, 0x16, 0x46, 0x7F, 0x00],  // E
    [0x7F, 0x46, 0x16, 0x1E, 0x16, 0x06, 0x0F, 0x00],  // F
    [0x3C, 0x66, 0x03, 0x03, 0x73, 0x66, 0x7C, 0x00],  // G
    [0x33, 0x33, 0x33, 0x3F, 0x33, 0x33, 0x33, 0x00],  // H
    [0x1E, 0x0C, 0x0C, 0x0C, 0x0C, 0x0C, 0x1E, 0x00],  // I
    [0x78, 0x30, 0x30, 0x30, 0x33, 0x33, 0x1E, 0x00],  // J
    [0x67, 0x66, 0x36, 0x1E, 0x36, 0x66, 0x67, 0x00],  // K
    [0x0F, 0x06, 0x06, 0x06, 0x46, 0x66, 0x7F, 0x00],  // L
    [0x63, 0x77, 0x7F, 0x7F, 0x6B, 0x63, 0x63, 0x00],  // M
    [0x63, 0x67, 0x6F, 0x7B, 0x73, 0x63, 0x63, 0x00],  // N
    [0x3E, 0x63, 0x63, 0x63, 0x63, 0x63, 0x3E, 0x00],  // O
    [0x3F, 0x66, 0x66, 0x3E, 0x06, 0x06, 0x0F, 0x00],  // P
    [0x3E, 0x63, 0x63, 0x63, 0x6B, 0x33, 0x5E, 0x00],  // Q
    [0x3F, 0x66, 0x66, 0x3E, 0x36, 0x66, 0x67, 0x00],  // R
    [0x1E, 0x33, 0x03, 0x1E, 0x30, 0x33, 0x1E, 0x00],  // S
    [0x3F, 0x2D, 0x0C, 0x0C, 0x0C, 0x0C, 0x1E, 0x00],  // T
    [0x33, 0x33, 0x33, 0x33, 0x33, 0x33, 0x3E, 0x00],  // U
    [0x33, 0x33, 0x33, 0x33, 0x33, 0x1E, 0x0C, 0x00],  // V
    [0x63, 0x63, 0x63, 0x6B, 0x7F, 0x77, 0x63, 0x00],  // W
    [0x63, 0x63, 0x36, 0x1C, 0x1C, 0x36, 0x63, 0x00],  // X
    [0x33, 0x33, 0x33, 0x1E, 0x0C, 0x0C, 0x1E, 0x00],  // Y
    [0x7F, 0x63, 0x31, 0x18, 0x4C, 0x66, 0x7F, 0x00],  // Z
    [0x1E, 0x06, 0x06, 0x06, 0x06, 0x06, 0x1E, 0x00],  // [
    [0x03, 0x06, 0x0C, 0x18, 0x30, 0x60, 0x40, 0x00],  // \
    [0x1E, 0x18, 0x18, 0x18, 0x18, 0x18, 0x1E, 0x00],  // ]
    [0x08, 0x1C, 0x36, 0x63, 0x00, 0x00, 0x00, 0x00],  // ^
    [0x00, 0x00, 0x00, 0x00, 0x00, 0x00, 0x00, 0xFF],  // _
    [0x0C, 0x0C, 0x18, 0x00, 0x00, 0x00, 0x00, 0x00],  // `
    [0x00, 0x00, 0x1E, 0x30, 0x3E, 0x33, 0x6E, 0x00],  // a
    [0x07, 0x06, 0x06, 0x3E, 0x66, 0x66, 0x3B, 0x00],  // b
    [0x00, 0x00, 0x1E, 0x33, 0x03, 0x33, 0x1E, 0x00],  // c
    [0x38, 0x30, 0x30, 0x3E, 0x33, 0x33, 0x6E, 0x00],  // d
    [0x00, 0x00, 0x1E, 0x33, 0x3F, 0x03, 0x1E, 0x00],  // e
    [0x1C, 0x36, 0x06, 0x0F, 0x06, 0x06, 0x0F, 0x00],  // f
    [0x00, 0x00, 0x6E, 0x33, 0x33, 0x3E, 0x30, 0x1F],  // g
    [0x07, 0x06, 0x36, 0x6E, 0x66, 0x66, 0x67, 0x00],  // h
    [0x0C, 0x00, 0x0E, 0x0C, 0x0C, 0x0C, 0x1E, 0x00],  // i
    [0x30, 0x00, 0x38, 0x30, 0x30, 0x33, 0x33, 0x1E],  // j
    [0x07, 0x06, 0x66, 0x36, 0x1E, 0x36, 0x67, 0x00],  // k
    [0x0E, 0x0C, 0x0C, 0x0C, 0x0C, 0x0C, 0x1E, 0x00],  // l
    [0x00, 0x00, 0x33, 0x7F, 0x7F, 0x6B, 0x63, 0x00],  // m
    [0x00, 0x00, 0x1F, 0x33, 0x33, 0x33, 0x33, 0x00],  // n
    [0x00, 0x00, 0x1E, 0x33, 0x33, 0x33, 0x1E, 0x00],  // o
    [0x00, 0x00, 0x3B, 0x66, 0x66, 0x3E, 0x06, 0x0F],  // p
    [0x00, 0x00, 0x6E, 0x33, 0x33, 0x3E, 0x30, 0x78],  // q
    [0x00, 0x00, 0x3B, 0x6E, 0x66, 0x06, 0x0F, 0x00],  // r
    [0x00, 0x00, 0x3E, 0x03, 0x1E, 0x30, 0x1F, 0x00],  // s
    [0x08, 0x0C, 0x3E, 0x0C, 0x0C, 0x2C, 0x18, 0x00],  // t
    [0x00, 0x00, 0x33, 0x33, 0x33, 0x33, 0x6E, 0x00],  // u
    [0x00, 0x00, 0x33, 0x33, 0x33, 0x1E, 0x0C, 0x00],  // v
    [0x00, 0x00, 0x63, 0x6B, 0x7F, 0x7F, 0x36, 0x00],  // w
    [0x00, 0x00, 0x63, 0x36, 0x1C, 0x36, 0x63, 0x00],  // x
    [0x00, 0x00, 0x33, 0x33, 0x33, 0x3E, 0x30, 0x1F],  // y
    [0x00, 0x00, 0x3F, 0x19, 0x0C, 0x26, 0x3F, 0x00],  // z
    [0x38, 0x0C, 0x0C, 0x07, 0x0C, 0x0C, 0x38, 0x00],  // {
    [0x0C, 0x0C, 0x0C, 0x00, 0x0C, 0x0C, 0x0C, 0x00],  // |
    [0x07, 0x0C, 0x0C, 0x38, 0x0C, 0x0C, 0x07, 0x00],  // }
    [0x6E, 0x3B, 0x00, 0x00, 0x00, 0x00, 0x00, 0x00],  // ~
];

/// Whether `c` is drawn at all: the printable ASCII characters are.
pub open spec fn has_glyph(c: char) -> bool {
    32 <= c as int <= 126
}

/// Whether bit `col` of a glyph row is set.
pub open spec fn row_bit(bits: u8, col: int) -> bool {
    bits & (1u8 << (col as u8)) != 0
}

/// Whether the glyph of `c` has its pixel number `cell` lit. Cells are
/// numbered row by row, eight to a row.
pub open spec fn glyph_lit(c: char, cell: int) -> bool {
    &&& has_glyph(c)
    &&& 0 <= cell < 64
    &&& row_bit(FONT[c as int - 32][cell / 8], cell % 8)
}

/// Where cell number `cell` of a glyph lands when the glyph's top left
/// corner is at `(x, y)`.
pub open spec fn cell_point(x: int, y: int, cell: int) -> Point {
    (x + cell % 8, y + cell / 8)
}

/// The lit pixels of the glyph of `c` drawn with its top left corner at
/// `(x, y)`, row by row and left to right within a row.
pub open spec fn glyph_points(c: char, x: int, y: int) -> Seq<Point> {
    Seq::new(64, |i: int| i).filter(|i: int| glyph_lit(c, i)).map_values(
        |i: int| cell_point(x, y, i),
    )
}

/// The lit pixels among the first `n` cells of the glyph.
pub open spec fn glyph_points_upto(c: char, x: int, y: int, n: int) -> Seq<Point> {
    Seq::new(64, |i: int| i).take(n).filter(|i: int| glyph_lit(c, i)).map_values(
        |i: int| cell_point(x, y, i),
    )
}

/// The first no cells hold no pixel, and all 64 cells are the glyph.
pub proof fn lemma_glyph_points_ends(c: char, x: int, y: int)
    ensures
        glyph_points_upto(c, x, y, 0) == Seq::<Point>::empty(),
        glyph_points_upto(c, x, y, 64) == glyph_points(c, x, y),
{
    let cells = Seq::new(64, |i: int| i);
    assert(cells.take(64) =~= cells);
}

/// Cell `n` adds its pixel to those of the cells before it if it is lit.
pub proof fn lemma_glyph_points_succ(c: char, x: int, y: int, n: int)
    requires
        0 <= n < 64,
    ensures
        glyph_points_upto(c, x, y, n + 1) == if glyph_lit(c, n) {
            glyph_points_upto(c, x, y, n).push(cell_point(x, y, n))
        } else {
            glyph_points_upto(c, x, y, n)
        },
{
    let cells = Seq::new(64, |i: int| i);
    assert(cells.take(n + 1) =~= cells.take(n).push(n));
    cells.take(n).lemma_filter_push(n, |i: int| glyph_lit(c, i));
}

/// Every pixel of a glyph lies in the 8 by 8 box whose top left corner is
/// `(x, y)`, and only characters that are drawn have pixels.
pub proof fn lemma_glyph_points_in_box(c: char, x: int, y: int)
    ensures
        forall|j: int|
            0 <= j < glyph_points(c, x, y).len() ==> {
                let p = #[trigger] glyph_points(c, x, y)[j];
                x <= p.0 < x + 8 && y <= p.1 < y + 8
            },
        !has_glyph(c) ==> glyph_points(c, x, y) == Seq::<Point>::empty(),
{
    // Every pixel is the place of a cell that is lit, and `glyph_lit` holds
    // only of the 64 cells of a character that is drawn.
    let points = glyph_points(c, x, y);
    if !has_glyph(c) && points.len() > 0 {
        let p = points[0];
    }
}

} // verus!
