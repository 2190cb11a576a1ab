//! The star field behind the scene.

use vstd::prelude::*;
use crate::color::pack_rgb;
use crate::plot::{
    all_on_sink, clipped_plots, lemma_clipped_on_sink, lemma_clipped_push, lemma_joined_on_sink,
    Plot, Point, STAR_DEPTH,
};

verus! {

/// One background star: the pixel it sits on, how bright it is, and
/// whether it covers one pixel or, with `size` 2, a block of two by two.
#[derive(Clone, Copy, Debug, PartialEq, Eq, Structural)]
pub struct Star {
    pub x: usize,
    pub y: usize,
    pub brightness: u8,
    pub size: u8,
}

/// The pixels a star covers: its own, and for a large star the three to
/// the right, below, and below right, in that order.
pub open spec fn star_points(star: Star) -> Seq<Point> {
    let x = star.x as int;
    let y = star.y as int;
    if star.size == 2 {
        seq![(x, y), (x + 1, y), (x, y + 1), (x + 1, y + 1)]
    } else {
        seq![(x, y)]
    }
}

/// The writes of one star shown at grey level `level`.
pub open spec fn star_plots(star: Star, level: u8, width: usize, height: usize) -> Seq<Plot> {
    clipped_plots(star_points(star), width, height, pack_rgb(level, level, level), STAR_DEPTH)
}

/// The writes of a star field in which star number `i` is shown at grey
/// level `levels[i]`, one star after the other.
pub open spec fn field_plots(stars: Seq<Star>, levels: Seq<u8>, width: usize, height: usize) -> Seq<
    Plot,
> {
    Seq::new(stars.len(), |i: int| star_plots(stars[i], levels[i], width, height)).flatten()
}

/// The brightness of each star of a field, in order.
pub open spec fn own_levels(stars: Seq<Star>) -> Seq<u8> {
    Seq::new(stars.len(), |i: int| stars[i].brightness)
}

/// A field of background stars.
pub struct Skybox {
    stars: Vec<Star>,
}

impl View for Skybox {
    type V = Seq<Star>;

    closed spec fn view(&self) -> Seq<Star> {
        self.stars@
    }
}

impl Skybox {
    /// A star field of the given stars, drawn in the order given.
    pub fn new(stars: Vec<Star>) -> (sky: Skybox)
        ensures
            sky@ == stars@,
    {
        Skybox { stars }
    }

    /// The stars of the field, in drawing order.
    pub fn stars(&self) -> (stars: &Vec<Star>)
        ensures
            stars@ == self@,
    {
        &self.stars
    }

    /// Draws every star at its own brightness.
    pub fn render(&self, width: usize, height: usize) -> (plots: Vec<Plot>)
        ensures
            plots@ == field_plots(self@, own_levels(self@), width, height),
            all_on_sink(plots@, width, height),
    {
        let mut plots: Vec<Plot> = Vec::new();
        let ghost parts = Seq::new(
            self@.len(),
            |i: int| star_plots(self@[i], own_levels(self@)[i], width, height),
        );
        let mut i: usize = 0;
        while i < self.stars.len()
            invariant
                i <= self@.len(),
                parts == Seq::new(
                    self@.len(),
                    |i: int| star_plots(self@[i], own_levels(self@)[i], width, height),
                ),
                plots@ == parts.take(i as int).flatten(),
            decreases self@.len() - i,
        {
            let star: Star = self.stars[i];
            proof {
                assert(parts.take(i + 1) =~= parts.take(i as int).push(parts[i as int]));
                parts.take(i as int).lemma_flatten_push(parts[i as int]);
            }
            let mut part = plot_star(star, star.brightness, width, height);
            plots.append(&mut part);
            i += 1;
        }
        proof {
            assert(parts.take(i as int) =~= parts);
            lemma_field_on_sink(parts, width, height);
        }
        plots
    }

    /// Draws every star at the grey level given for it: `levels[i]` is the
    /// level of star number `i`.
    pub fn render_with_twinkle(&self, width: usize, height: usize, levels: &Vec<u8>) -> (plots: Vec<
        Plot,
    >)
        requires
            levels@.len() == self@.len(),
        ensures
            plots@ == field_plots(self@, levels@, width, height),
            all_on_sink(plots@, width, height),
    {
        let mut plots: Vec<Plot> = Vec::new();
        let ghost parts = Seq::new(
            self@.len(),
            |i: int| star_plots(self@[i], levels@[i], width, height),
        );
        let mut i: usize = 0;
        while i < self.stars.len()
            invariant
                i <= self@.len(),
                levels@.len() == self@.len(),
                parts == Seq::new(
                    self@.len(),
                    |i: int| star_plots(self@[i], levels@[i], width, height),
                ),
                plots@ == parts.take(i as int).flatten(),
            decreases self@.len() - i,
        {
            let star: Star = self.stars[i];
            proof {
                assert(parts.take(i + 1) =~= parts.take(i as int).push(parts[i as int]));
                parts.take(i as int).lemma_flatten_push(parts[i as int]);
            }
            let mut part = plot_star(star, levels[i], width, height);
            plots.append(&mut part);
            i += 1;
        }
        proof {
            assert(parts.take(i as int) =~= parts);
            lemma_field_on_sink(parts, width, height);
        }
        plots
    }
}

/// A star field leaves no write off the sink.
proof fn lemma_field_on_sink(parts: Seq<Seq<Plot>>, width: usize, height: usize)
    requires
        forall|i: int|
            0 <= i < parts.len() ==> exists|star: Star, level: u8| #[trigger]
                parts[i] == star_plots(star, level, width, height),
    ensures
        all_on_sink(parts.flatten(), width, height),
{
    assert forall|i: int| 0 <= i < parts.len() implies all_on_sink(
        #[trigger] parts[i],
        width,
        height,
    ) by {
        let (star, level) = choose|star: Star, level: u8|
            parts[i] == star_plots(star, level, width, height);
        lemma_clipped_on_sink(
            star_points(star),
            width,
            height,
            pack_rgb(level, level, level),
            STAR_DEPTH,
        );
    }
    lemma_joined_on_sink(parts, width, height);
}

/// Draws one star at grey level `level`: the pixels of the star that lie on
/// the sink, each with red, green and blue at `level`.
pub fn plot_star(star: Star, level: u8, width: usize, height: usize) -> (plots: Vec<Plot>)
    ensures
        plots@ == star_plots(star, level, width, height),
        all_on_sink(plots@, width, height),
{
    let grey: u32 = level as u32;
    let color: u32 = (grey << 16) | (grey << 8) | grey;
    assert(((grey << 16) | (grey << 8) | grey) == grey * 0x1_0000 + grey * 0x100 + grey)
        by (bit_vector)
        requires
            grey < 0x100,
    ;
    let mut plots: Vec<Plot> = Vec::new();
    let x: usize = star.x;
    let y: usize = star.y;
    let ghost here: Point = (x as int, y as int);
    let ghost none = Seq::<Point>::empty();
    proof {
        lemma_clipped_push(none, here, width, height, color, STAR_DEPTH);
        if star.size == 2 {
            let right: Point = (x + 1, y as int);
            let below: Point = (x as int, y + 1);
            let across: Point = (x + 1, y + 1);
            lemma_clipped_push(seq![here], right, width, height, color, STAR_DEPTH);
            lemma_clipped_push(seq![here, right], below, width, height, color, STAR_DEPTH);
            lemma_clipped_push(seq![here, right, below], across, width, height, color, STAR_DEPTH);
            assert(seq![here].push(right) =~= seq![here, right]);
            assert(seq![here, right].push(below) =~= seq![here, right, below]);
            assert(seq![here, right, below].push(across) =~= star_points(star));
        }
    }
    if x < width && y < height {
        plots.push(Plot { x, y, color, depth: STAR_DEPTH });
        if star.size == 2 {
            if x + 1 < width {
                plots.push(Plot { x: x + 1, y, color, depth: STAR_DEPTH });
            }
            if y + 1 < height {
                plots.push(Plot { x, y: y + 1, color, depth: STAR_DEPTH });
            }
            if x + 1 < width && y + 1 < height {
                plots.push(Plot { x: x + 1, y: y + 1, color, depth: STAR_DEPTH });
            }
        }
    }
    plots
}

} // verus!
