//! What the rasteriser decides without arithmetic on fractions: which
//! surface shades a draw call, how dark its night side may get, which
//! vertices of a flat list make up each triangle, and in what order the
//! pixels of a triangle's bounding box are visited.

use vstd::prelude::*;
use vstd::arithmetic::div_mod::{lemma_fundamental_div_mod, lemma_fundamental_div_mod_converse, lemma_mod_bound};

verus! {

/// Which procedural surface a draw call is shaded with.
#[derive(Clone, Copy, Debug, PartialEq, Eq, Structural)]
pub enum ShaderType {
    Sun,
    RockyPlanet,
    GasGiant,
    IcePlanet,
    VolcanicPlanet,
    Moon,
    Spaceship,
}

impl ShaderType {
    /// The least light, in hundredths of full light, that a surface of this
    /// kind is shaded with, so that its unlit side stays visible. `None` for
    /// the star, which shines by itself and is not lit at all.
    pub open spec fn floor_percent(self) -> Option<u8> {
        match self {
            ShaderType::Sun => None,
            ShaderType::RockyPlanet => Some(20u8),
            ShaderType::GasGiant => Some(20u8),
            ShaderType::IcePlanet => Some(30u8),
            ShaderType::VolcanicPlanet => Some(40u8),
            ShaderType::Moon => Some(15u8),
            ShaderType::Spaceship => Some(40u8),
        }
    }

    /// The least light that a surface of this kind is shaded with, in
    /// hundredths of full light; `None` for the star.
    pub fn light_floor_percent(self) -> (floor: Option<u8>)
        ensures
            floor == self.floor_percent(),
    {
        match self {
            ShaderType::Sun => None,
            ShaderType::RockyPlanet | ShaderType::GasGiant => Some(20),
            ShaderType::IcePlanet => Some(30),
            ShaderType::VolcanicPlanet | ShaderType::Spaceship => Some(40),
            ShaderType::Moon => Some(15),
        }
    }
}

/// Groups the vertices of a flat list of `vertex_count` vertices into
/// triangles: each run of three vertices is one triangle, and one or two
/// vertices left over at the end belong to none.
pub fn assemble_triangles(vertex_count: usize) -> (triangles: Vec<[usize; 3]>)
    ensures
        triangles@.len() == vertex_count / 3,
        forall|t: int|
            0 <= t < triangles@.len() ==> {
                &&& (#[trigger] triangles@[t])@[0] == 3 * t
                &&& triangles@[t]@[1] == 3 * t + 1
                &&& triangles@[t]@[2] == 3 * t + 2
            },
{
    let mut triangles: Vec<[usize; 3]> = Vec::new();
    let mut i: usize = 0;
    while i < vertex_count && vertex_count - i > 2
        invariant
            i <= vertex_count,
            i == 3 * triangles@.len(),
            forall|t: int|
                0 <= t < triangles@.len() ==> {
                    &&& (#[trigger] triangles@[t])@[0] == 3 * t
                    &&& triangles@[t]@[1] == 3 * t + 1
                    &&& triangles@[t]@[2] == 3 * t + 2
                },
        decreases vertex_count - i,
    {
        triangles.push([i, i + 1, i + 2]);
        i += 3;
    }
    triangles
}

/// The whole-pixel bounding box of a triangle on the screen, both corners
/// included. A box whose `min` lies beyond its `max` on either axis holds no
/// pixel.
#[derive(Clone, Copy, Debug, PartialEq, Eq, Structural)]
pub struct BoundingBox {
    pub min_x: i32,
    pub min_y: i32,
    pub max_x: i32,
    pub max_y: i32,
}

impl BoundingBox {
    /// Number of pixels in a row of the box.
    pub open spec fn columns(self) -> int {
        if self.min_x <= self.max_x {
            self.max_x - self.min_x + 1
        } else {
            0
        }
    }

    /// Number of rows of the box.
    pub open spec fn rows(self) -> int {
        if self.min_y <= self.max_y {
            self.max_y - self.min_y + 1
        } else {
            0
        }
    }

    /// Number of pixels of the box.
    pub open spec fn pixel_count(self) -> int {
        self.rows() * self.columns()
    }

    /// Whether the pixel `(x, y)` lies in the box.
    pub open spec fn contains(self, x: int, y: int) -> bool {
        self.min_x <= x <= self.max_x && self.min_y <= y <= self.max_y
    }

    /// Pixel number `k` of the box in scan order: row by row from `min_y`,
    /// and from `min_x` rightwards within a row.
    pub open spec fn pixel(self, k: int) -> (int, int) {
        (self.min_x + k % self.columns(), self.min_y + k / self.columns())
    }

    /// The place of the pixel `(x, y)` in scan order.
    pub open spec fn index_of(self, x: int, y: int) -> int {
        (y - self.min_y) * self.columns() + (x - self.min_x)
    }

    /// The pixel after `(x, y)` in scan order: the next of the row, or the
    /// first of the next row. `None` after the last pixel of the box, and
    /// for a pixel that is not in the box.
    pub open spec fn successor(self, x: int, y: int) -> Option<(i32, i32)> {
        if !self.contains(x, y) {
            None
        } else if x < self.max_x {
            Some(((x + 1) as i32, y as i32))
        } else if y < self.max_y {
            Some((self.min_x, (y + 1) as i32))
        } else {
            None
        }
    }

    /// The first pixel of the scan: the top left corner, or `None` where
    /// the box holds no pixel.
    pub fn first(&self) -> (start: Option<(i32, i32)>)
        ensures
            self.pixel_count() == 0 ==> start is None,
            self.pixel_count() > 0 ==> start == Some((self.min_x, self.min_y)) && self.index_of(
                self.min_x as int,
                self.min_y as int,
            ) == 0,
    {
        proof {
            let rows = self.rows();
            let columns = self.columns();
            assert(rows * columns > 0 <==> rows > 0 && columns > 0) by (nonlinear_arith)
                requires
                    rows >= 0,
                    columns >= 0,
            ;
            assert(0 * columns == 0) by (nonlinear_arith);
        }
        if self.min_x <= self.max_x && self.min_y <= self.max_y {
            Some((self.min_x, self.min_y))
        } else {
            None
        }
    }

    /// The pixel that the scan visits after `(x, y)`; its place in scan
    /// order is the next one. `None` after the last pixel of the box, and
    /// for a pixel that is not in the box.
    pub fn next(&self, x: i32, y: i32) -> (following: Option<(i32, i32)>)
        ensures
            following == self.successor(x as int, y as int),
            self.contains(x as int, y as int) ==> match following {
                Some((nx, ny)) => self.contains(nx as int, ny as int) && self.index_of(
                    nx as int,
                    ny as int,
                ) == self.index_of(x as int, y as int) + 1,
                None => self.index_of(x as int, y as int) == self.pixel_count() - 1,
            },
    {
        proof {
            let columns = self.columns();
            let row = y - self.min_y;
            assert((row + 1) * columns == row * columns + columns) by (nonlinear_arith);
            assert(self.rows() * columns == (self.rows() - 1) * columns + columns)
                by (nonlinear_arith);
        }
        if x < self.min_x || x > self.max_x || y < self.min_y || y > self.max_y {
            None
        } else if x < self.max_x {
            Some((x + 1, y))
        } else if y < self.max_y {
            Some((self.min_x, y + 1))
        } else {
            None
        }
    }
}

/// Scan order numbers the pixels of a box without gap or repeat: the pixel
/// in place `k` is in the box and has place `k`, and every pixel of the box
/// is the one in its place.
pub proof fn lemma_scan_order(b: BoundingBox, k: int, x: int, y: int)
    ensures
        0 <= k < b.pixel_count() ==> b.contains(b.pixel(k).0, b.pixel(k).1) && b.index_of(
            b.pixel(k).0,
            b.pixel(k).1,
        ) == k,
        b.contains(x, y) ==> 0 <= b.index_of(x, y) < b.pixel_count() && b.pixel(b.index_of(x, y))
            == (x, y),
{
    let columns = b.columns();
    let rows = b.rows();
    if 0 <= k < b.pixel_count() {
        assert(columns > 0 && rows > 0) by (nonlinear_arith)
            requires
                0 < rows * columns,
                rows >= 0,
                columns >= 0,
        ;
        lemma_fundamental_div_mod(k, columns);
        lemma_mod_bound(k, columns);
        let q = k / columns;
        assert(0 <= q < rows) by (nonlinear_arith)
            requires
                0 <= k < rows * columns,
                k == columns * q + k % columns,
                0 <= k % columns < columns,
        ;
        assert(q * columns == columns * q) by (nonlinear_arith);
    }
    if b.contains(x, y) {
        let row = y - b.min_y;
        let col = x - b.min_x;
        assert(0 <= row * columns + col < rows * columns) by (nonlinear_arith)
            requires
                0 <= row < rows,
                0 <= col < columns,
        ;
        lemma_fundamental_div_mod_converse(row * columns + col, columns, row, col);
    }
}

} // verus!
