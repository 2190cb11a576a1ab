//! Pixel commands handed to a pixel sink.

use vstd::prelude::*;

verus! {

/// Depth at which orbit lines are written.
pub const LINE_DEPTH: i32 = -1;

/// Depth at which overlay text is written: in front of lines.
pub const TEXT_DEPTH: i32 = -2;

/// Depth at which background stars are written: behind every body.
pub const STAR_DEPTH: i32 = 1_000_000;

/// One pixel write: set the active colour, then write `(x, y)` at `depth`.
/// The depths of the overlay are whole numbers; a sink that keeps
/// fractional depths takes them as they are.
#[derive(Clone, Copy, Debug, PartialEq, Eq, Structural)]
pub struct Plot {
    pub x: usize,
    pub y: usize,
    pub color: u32,
    pub depth: i32,
}

/// A point of the integer plane.
pub type Point = (int, int);

/// Whether `p` is a pixel of a sink that is `width` by `height`.
pub open spec fn in_window(width: usize, height: usize, p: Point) -> bool {
    0 <= p.0 < width && 0 <= p.1 < height
}

/// The write of `color` at `depth` to the pixel `p`.
pub open spec fn plot_at(p: Point, color: u32, depth: i32) -> Plot {
    Plot { x: p.0 as usize, y: p.1 as usize, color, depth }
}

/// The sink pixel that a signed pixel position names: `None` for a position
/// left of, above, right of or below the sink.
pub fn sink_pixel(width: usize, height: usize, x: i32, y: i32) -> (pixel: Option<(usize, usize)>)
    ensures
        pixel == if in_window(width, height, (x as int, y as int)) {
            Some((x as usize, y as usize))
        } else {
            None::<(usize, usize)>
        },
{
    if x >= 0 && y >= 0 && (x as usize) < width && (y as usize) < height {
        Some((x as usize, y as usize))
    } else {
        None
    }
}

/// The writes that a list of points becomes on a `width` by `height` sink:
/// points outside the sink are dropped, the others keep their order.
pub open spec fn clipped_plots(
    points: Seq<Point>,
    width: usize,
    height: usize,
    color: u32,
    depth: i32,
) -> Seq<Plot> {
    points.filter(|p: Point| in_window(width, height, p)).map_values(
        |p: Point| plot_at(p, color, depth),
    )
}

/// Clipping one more point adds its write if the point is on the sink and
/// nothing otherwise.
pub proof fn lemma_clipped_push(
    points: Seq<Point>,
    p: Point,
    width: usize,
    height: usize,
    color: u32,
    depth: i32,
)
    ensures
        clipped_plots(points.push(p), width, height, color, depth) == if in_window(
            width,
            height,
            p,
        ) {
            clipped_plots(points, width, height, color, depth).push(plot_at(p, color, depth))
        } else {
            clipped_plots(points, width, height, color, depth)
        },
{
    points.lemma_filter_push(p, |p: Point| in_window(width, height, p));
}

/// Whether every write of a list lies on a `width` by `height` sink.
pub open spec fn all_on_sink(plots: Seq<Plot>, width: usize, height: usize) -> bool {
    forall|i: int| 0 <= i < plots.len() ==> (#[trigger] plots[i]).x < width && plots[i].y < height
}

/// Every write that clipping leaves lies on the sink, and there are no more
/// writes than points.
pub proof fn lemma_clipped_on_sink(
    points: Seq<Point>,
    width: usize,
    height: usize,
    color: u32,
    depth: i32,
)
    ensures
        all_on_sink(clipped_plots(points, width, height, color, depth), width, height),
        clipped_plots(points, width, height, color, depth).len() <= points.len(),
{
    let keep = |p: Point| in_window(width, height, p);
    let plots = clipped_plots(points, width, height, color, depth);
    points.lemma_filter_len(keep);
    assert forall|i: int| 0 <= i < plots.len() implies (#[trigger] plots[i]).x < width && plots[i].y
        < height by {
        points.lemma_filter_pred(keep, i);
        assert(keep(points.filter(keep)[i]));
    }
}

/// Lists of writes that each lie on the sink still do when put end to end.
pub proof fn lemma_joined_on_sink(parts: Seq<Seq<Plot>>, width: usize, height: usize)
    requires
        forall|i: int| 0 <= i < parts.len() ==> all_on_sink(#[trigger] parts[i], width, height),
    ensures
        all_on_sink(parts.flatten(), width, height),
    decreases parts.len(),
{
    if parts.len() > 0 {
        let head = parts.drop_last();
        lemma_joined_on_sink(head, width, height);
        assert(parts =~= head.push(parts.last()));
        head.lemma_flatten_push(parts.last());
    }
}

/// Points that all lie off the sink leave no write.
pub proof fn lemma_clipped_all_outside(
    points: Seq<Point>,
    width: usize,
    height: usize,
    color: u32,
    depth: i32,
)
    requires
        forall|i: int| 0 <= i < points.len() ==> !in_window(width, height, #[trigger] points[i]),
    ensures
        clipped_plots(points, width, height, color, depth) == Seq::<Plot>::empty(),
    decreases points.len(),
{
    if points.len() > 0 {
        let head = points.drop_last();
        lemma_clipped_all_outside(head, width, height, color, depth);
        assert(points =~= head.push(points.last()));
        lemma_clipped_push(head, points.last(), width, height, color, depth);
    }
}

} // verus!
