//! Straight lines on the pixel grid.

use vstd::prelude::*;
use vstd::arithmetic::div_mod::{lemma_fundamental_div_mod, lemma_fundamental_div_mod_converse, lemma_mod_bound};
use crate::plot::{
    all_on_sink, clipped_plots, lemma_clipped_on_sink, lemma_clipped_push, sink_pixel, Plot, Point,
    LINE_DEPTH,
};

verus! {

/// Distance between two coordinates.
pub open spec fn span(from: int, to: int) -> int {
    if from <= to {
        to - from
    } else {
        from - to
    }
}

/// Direction of travel along one axis: `1` towards larger coordinates,
/// `-1` otherwise.
pub open spec fn heading(from: int, to: int) -> int {
    if from < to {
        1
    } else {
        -1
    }
}

/// How far the line has moved along its shorter axis after `k` steps along
/// the longer one: `k * minor / major` rounded to the nearest whole number,
/// a half rounded up.
pub open spec fn minor_advance(k: int, minor: int, major: int) -> int {
    if major == 0 {
        0
    } else {
        (2 * k * minor + major) / (2 * major)
    }
}

/// Number of steps from the first point of a line to its last.
pub open spec fn line_steps(x1: int, y1: int, x2: int, y2: int) -> int {
    if span(x1, x2) >= span(y1, y2) {
        span(x1, x2)
    } else {
        span(y1, y2)
    }
}

/// Point number `k` of the line from `(x1, y1)` to `(x2, y2)`.
///
/// The line advances one pixel per step along its longer axis and stays as
/// close to the ideal segment as the grid allows along the other.
pub open spec fn line_point(x1: int, y1: int, x2: int, y2: int, k: int) -> Point {
    let dx = span(x1, x2);
    let dy = span(y1, y2);
    if dx >= dy {
        (x1 + heading(x1, x2) * k, y1 + heading(y1, y2) * minor_advance(k, dy, dx))
    } else {
        (x1 + heading(x1, x2) * minor_advance(k, dx, dy), y1 + heading(y1, y2) * k)
    }
}

/// All points of the line from `(x1, y1)` to `(x2, y2)`, first to last.
pub open spec fn line_path(x1: int, y1: int, x2: int, y2: int) -> Seq<Point> {
    Seq::new((line_steps(x1, y1, x2, y2) + 1) as nat, |k: int| line_point(x1, y1, x2, y2, k))
}

/// `minor_advance` is the one whole number within half a step of the ideal
/// position.
pub proof fn lemma_minor_advance_bounds(k: int, minor: int, major: int)
    requires
        0 <= k,
        0 <= minor <= major,
        0 < major,
    ensures
        2 * major * minor_advance(k, minor, major) <= 2 * k * minor + major,
        2 * k * minor + major < 2 * major * (minor_advance(k, minor, major) + 1),
        0 <= minor_advance(k, minor, major) <= k,
        k <= major ==> minor_advance(k, minor, major) <= minor,
{
    let n = 2 * k * minor + major;
    let d = 2 * major;
    let q = n / d;
    lemma_fundamental_div_mod(n, d);
    lemma_mod_bound(n, d);
    assert(d * q <= n < d * q + d);
    assert(2 * major * q == d * q);
    assert(2 * major * (q + 1) == d * q + d) by (nonlinear_arith)
        requires
            d == 2 * major,
    ;
    assert(0 <= k * minor <= k * major && 2 * k * minor == 2 * (k * minor)) by (nonlinear_arith)
        requires
            0 <= k,
            0 <= minor <= major,
    ;
    assert(0 <= q <= k) by (nonlinear_arith)
        requires
            d * q <= n < d * q + d,
            d == 2 * major,
            0 < major,
            0 <= n <= 2 * (k * major) + major,
            0 <= k,
    ;
    if k <= major {
        assert(k * minor <= major * minor) by (nonlinear_arith)
            requires
                0 <= k <= major,
                0 <= minor,
        ;
        assert(q <= minor) by (nonlinear_arith)
            requires
                d * q <= n,
                d == 2 * major,
                0 < major,
                n <= 2 * (major * minor) + major,
        ;
    }
}

/// One more step along the longer axis moves the line by one pixel along
/// the shorter axis exactly when the ideal position has reached the next
/// half.
pub proof fn lemma_minor_advance_step(k: int, minor: int, major: int)
    requires
        0 <= k,
        0 <= minor <= major,
        0 < major,
    ensures
        minor_advance(k + 1, minor, major) == if 2 * (k + 1) * minor + major >= 2 * major * (
        minor_advance(k, minor, major) + 1) {
            minor_advance(k, minor, major) + 1
        } else {
            minor_advance(k, minor, major)
        },
{
    let b = minor_advance(k, minor, major);
    lemma_minor_advance_bounds(k, minor, major);
    assert(2 * (k + 1) * minor + major == 2 * k * minor + major + 2 * minor) by (nonlinear_arith);
    assert(2 * major * (b + 2) == 2 * major * (b + 1) + 2 * major) by (nonlinear_arith);
    if 2 * (k + 1) * minor + major >= 2 * major * (b + 1) {
        lemma_minor_advance_unique(k + 1, minor, major, b + 1);
    } else {
        lemma_minor_advance_unique(k + 1, minor, major, b);
    }
}

/// Any whole number within half a step of the ideal position is
/// `minor_advance`.
pub proof fn lemma_minor_advance_unique(k: int, minor: int, major: int, b: int)
    requires
        0 < major,
        2 * major * b <= 2 * k * minor + major < 2 * major * (b + 1),
    ensures
        minor_advance(k, minor, major) == b,
{
    let n = 2 * k * minor + major;
    let d = 2 * major;
    let r = n - 2 * major * b;
    assert(2 * major * (b + 1) == 2 * major * b + d) by (nonlinear_arith)
        requires
            d == 2 * major,
    ;
    assert(n == b * d + r) by (nonlinear_arith)
        requires
            r == n - 2 * major * b,
            d == 2 * major,
    ;
    lemma_fundamental_div_mod_converse(n, d, b, r);
}

/// Walking the whole span in the heading's direction arrives at `to`.
pub proof fn lemma_heading_span(from: int, to: int)
    ensures
        from + heading(from, to) * span(from, to) == to,
{
    let d = span(from, to);
    if from < to {
        assert(1 * d == d);
    } else {
        assert((-1) * d == -d);
    }
}

/// A line has not moved before its first step.
pub proof fn lemma_minor_advance_start(minor: int, major: int)
    requires
        0 <= major,
    ensures
        minor_advance(0, minor, major) == 0,
{
    if major > 0 {
        assert(2 * 0 * minor + major == major) by (nonlinear_arith);
        assert(2 * major * 0 == 0) by (nonlinear_arith);
        assert(2 * major * (0 + 1) == 2 * major) by (nonlinear_arith);
        lemma_minor_advance_unique(0, minor, major, 0);
    }
}

/// A line ends where it is asked to end.
pub proof fn lemma_line_ends(x1: int, y1: int, x2: int, y2: int)
    ensures
        line_point(x1, y1, x2, y2, 0) == (x1, y1),
        line_point(x1, y1, x2, y2, line_steps(x1, y1, x2, y2)) == (x2, y2),
{
    let dx = span(x1, x2);
    let dy = span(y1, y2);
    lemma_heading_span(x1, x2);
    lemma_heading_span(y1, y2);
    if dx >= dy {
        if dx > 0 {
            lemma_minor_advance_start(dy, dx);
            assert(2 * dx * dy <= 2 * dx * dy + dx < 2 * dx * (dy + 1)) by (nonlinear_arith)
                requires
                    0 < dx,
            ;
            lemma_minor_advance_unique(dx, dy, dx, dy);
        }
    } else {
        lemma_minor_advance_start(dx, dy);
        assert(2 * dy * dx <= 2 * dy * dx + dy < 2 * dy * (dx + 1)) by (nonlinear_arith)
            requires
                0 < dy,
        ;
        lemma_minor_advance_unique(dy, dx, dy, dx);
    }
}

/// How far along an axis `at` lies from `from`, counted in the direction of
/// travel towards `to`.
pub open spec fn travelled(from: int, to: int, at: int) -> int {
    heading(from, to) * (at - from)
}

/// A line never leaves the segment by more than half a pixel: point `k`
/// has moved `k` pixels along the longer axis, and along the shorter axis
/// it differs from the segment's own position there by at most a half.
pub proof fn lemma_line_hugs_segment(x1: int, y1: int, x2: int, y2: int, k: int)
    requires
        0 <= k <= line_steps(x1, y1, x2, y2),
    ensures
        ({
            let p = line_point(x1, y1, x2, y2, k);
            let dx = span(x1, x2);
            let dy = span(y1, y2);
            let along_x = travelled(x1, x2, p.0);
            let along_y = travelled(y1, y2, p.1);
            &&& 0 <= along_x <= dx
            &&& 0 <= along_y <= dy
            &&& dx >= dy ==> along_x == k && -dx <= 2 * (dx * along_y - k * dy) <= dx
            &&& dx < dy ==> along_y == k && -dy <= 2 * (dy * along_x - k * dx) <= dy
        }),
{
    let dx = span(x1, x2);
    let dy = span(y1, y2);
    let sx = heading(x1, x2);
    let sy = heading(y1, y2);
    let p = line_point(x1, y1, x2, y2, k);
    if dx >= dy {
        let b = minor_advance(k, dy, dx);
        lemma_unit_square(sx, k);
        lemma_unit_square(sy, b);
        assert(p.0 - x1 == sx * k);
        assert(p.1 - y1 == sy * b);
        if dx > 0 {
            lemma_minor_advance_bounds(k, dy, dx);
            assert(2 * dx * b == 2 * (dx * b) && 2 * dx * (b + 1) == 2 * (dx * b) + 2 * dx && 2 * k
                * dy == 2 * (k * dy)) by (nonlinear_arith);
        } else {
            assert(dx * b == 0 && k * dy == 0) by (nonlinear_arith)
                requires
                    dx == 0,
                    k == 0,
            ;
        }
    } else {
        let a = minor_advance(k, dx, dy);
        lemma_unit_square(sx, a);
        lemma_unit_square(sy, k);
        assert(p.0 - x1 == sx * a);
        assert(p.1 - y1 == sy * k);
        lemma_minor_advance_bounds(k, dx, dy);
        assert(2 * dy * a == 2 * (dy * a) && 2 * dy * (a + 1) == 2 * (dy * a) + 2 * dy && 2 * k * dx
            == 2 * (k * dx)) by (nonlinear_arith);
    }
}

/// Each step of a line leads to a neighbouring pixel, towards the end
/// point: one pixel along the longer axis, and none or one along the
/// shorter.
pub proof fn lemma_line_connected(x1: int, y1: int, x2: int, y2: int, k: int)
    requires
        0 <= k < line_steps(x1, y1, x2, y2),
    ensures
        ({
            let p = line_point(x1, y1, x2, y2, k);
            let q = line_point(x1, y1, x2, y2, k + 1);
            let step_x = q.0 - p.0;
            let step_y = q.1 - p.1;
            &&& step_x == 0 || step_x == heading(x1, x2)
            &&& step_y == 0 || step_y == heading(y1, y2)
            &&& span(x1, x2) >= span(y1, y2) ==> step_x != 0
            &&& span(x1, x2) < span(y1, y2) ==> step_y != 0
        }),
{
    let dx = span(x1, x2);
    let dy = span(y1, y2);
    let sx = heading(x1, x2);
    let sy = heading(y1, y2);
    if dx >= dy {
        let b = minor_advance(k, dy, dx);
        lemma_minor_advance_step(k, dy, dx);
        assert(sx * (k + 1) == sx * k + sx) by (nonlinear_arith);
        assert(sy * (b + 1) == sy * b + sy) by (nonlinear_arith);
    } else {
        let a = minor_advance(k, dx, dy);
        lemma_minor_advance_step(k, dx, dy);
        assert(sy * (k + 1) == sy * k + sy) by (nonlinear_arith);
        assert(sx * (a + 1) == sx * a + sx) by (nonlinear_arith);
    }
}

/// A heading times itself is one, so stepping `n` times and measuring
/// along the heading gives `n` back.
proof fn lemma_unit_square(s: int, n: int)
    requires
        s == 1 || s == -1,
    ensures
        s * (s * n) == n,
{
    assert(s * (s * n) == n) by (nonlinear_arith)
        requires
            s == 1 || s == -1,
    ;
}

/// The pixel writes of the line from `(x1, y1)` to `(x2, y2)` on a `width`
/// by `height` sink.
pub open spec fn line_plots(
    width: usize,
    height: usize,
    x1: int,
    y1: int,
    x2: int,
    y2: int,
    color: u32,
) -> Seq<Plot> {
    clipped_plots(line_path(x1, y1, x2, y2), width, height, color, LINE_DEPTH)
}

/// Rasterises the segment from `(x1, y1)` to `(x2, y2)`, both ends included,
/// and returns one write per point that lies on the sink, from the first
/// point of the line to the last.
pub fn draw_line(
    width: usize,
    height: usize,
    x1: i32,
    y1: i32,
    x2: i32,
    y2: i32,
    color: u32,
) -> (plots: Vec<Plot>)
    ensures
        plots@ == line_plots(width, height, x1 as int, y1 as int, x2 as int, y2 as int, color),
        all_on_sink(plots@, width, height),
{
    let dx: i64 = if x1 < x2 {
        x2 as i64 - x1 as i64
    } else {
        x1 as i64 - x2 as i64
    };
    let dy: i64 = if y1 < y2 {
        y1 as i64 - y2 as i64
    } else {
        y2 as i64 - y1 as i64
    };
    let sx: i64 = if x1 < x2 {
        1
    } else {
        -1
    };
    let sy: i64 = if y1 < y2 {
        1
    } else {
        -1
    };
    let mut err: i64 = dx + dy;
    let mut x: i64 = x1 as i64;
    let mut y: i64 = y1 as i64;
    let mut plots: Vec<Plot> = Vec::new();

    let ghost path = line_path(x1 as int, y1 as int, x2 as int, y2 as int);
    let ghost steps = line_steps(x1 as int, y1 as int, x2 as int, y2 as int);
    let ghost run = span(x1 as int, x2 as int);
    let ghost rise = span(y1 as int, y2 as int);
    let ghost mut k: int = 0;
    let ghost mut a: int = 0;
    let ghost mut b: int = 0;
    proof {
        lemma_line_ends(x1 as int, y1 as int, x2 as int, y2 as int);
        lemma_minor_advance_start(rise, run);
        lemma_minor_advance_start(run, rise);
        assert(path.take(0) =~= Seq::<Point>::empty());
    }
    loop
        invariant_except_break
            plots@ == clipped_plots(path.take(k), width, height, color, LINE_DEPTH),
        invariant
            path == line_path(x1 as int, y1 as int, x2 as int, y2 as int),
            steps == line_steps(x1 as int, y1 as int, x2 as int, y2 as int),
            run == span(x1 as int, x2 as int),
            rise == span(y1 as int, y2 as int),
            dx == run,
            dy == -rise,
            sx == heading(x1 as int, x2 as int),
            sy == heading(y1 as int, y2 as int),
            0 <= k <= steps,
            0 <= a <= run,
            0 <= b <= rise,
            run >= rise ==> a == k && b == minor_advance(k, rise, run),
            run < rise ==> b == k && a == minor_advance(k, run, rise),
            x == x1 + sx * a,
            y == y1 + sy * b,
            err == (b + 1) * run - (a + 1) * rise,
            -3 * 0x1_0000_0000 <= 2 * err <= 3 * 0x1_0000_0000,
        ensures
            plots@ == clipped_plots(path, width, height, color, LINE_DEPTH),
        decreases steps - k,
    {
        proof {
            assert(path[k] == (x as int, y as int));
            assert(path.take(k + 1) =~= path.take(k).push(path[k]));
            lemma_clipped_push(path.take(k), path[k], width, height, color, LINE_DEPTH);
            assert(sx * a == if sx == 1 { a } else { -a }) by (nonlinear_arith)
                requires
                    sx == 1 || sx == -1,
            ;
            assert(sy * b == if sy == 1 { b } else { -b }) by (nonlinear_arith)
                requires
                    sy == 1 || sy == -1,
            ;
        }
        if let Some((px, py)) = sink_pixel(width, height, x as i32, y as i32) {
            plots.push(Plot { x: px, y: py, color, depth: LINE_DEPTH });
        }
        if x == x2 as i64 && y == y2 as i64 {
            proof {
                assert(k == steps);
                assert(path.take(k + 1) =~= path);
            }
            break ;
        }
        proof {
            lemma_line_ends(x1 as int, y1 as int, x2 as int, y2 as int);
            assert(k < steps);
            if run >= rise {
                lemma_minor_advance_bounds(k, rise, run);
                lemma_minor_advance_step(k, rise, run);
                lemma_minor_advance_bounds(k + 1, rise, run);
            } else {
                lemma_minor_advance_bounds(k, run, rise);
                lemma_minor_advance_step(k, run, rise);
                lemma_minor_advance_bounds(k + 1, run, rise);
            }
            lemma_err_algebra(a, b, k, run, rise);
        }
        let e2: i64 = 2 * err;
        if e2 >= dy {
            err += dy;
            x += sx;
            proof {
                a = a + 1;
            }
        }
        if e2 <= dx {
            err += dx;
            y += sy;
            proof {
                b = b + 1;
            }
        }
        proof {
            k = k + 1;
            assert(sx * a == sx * (a - 1) + sx) by (nonlinear_arith);
            assert(sy * b == sy * (b - 1) + sy) by (nonlinear_arith);
            lemma_err_algebra(a, b, k, run, rise);
        }
    }
    proof {
        lemma_clipped_on_sink(path, width, height, color, LINE_DEPTH);
    }
    plots
}

/// The products that the error term of `draw_line` is made of, written out.
proof fn lemma_err_algebra(a: int, b: int, k: int, run: int, rise: int)
    ensures
        (b + 2) * run == (b + 1) * run + run,
        (a + 2) * rise == (a + 1) * rise + rise,
        (b + 1) * run == b * run + run,
        (a + 1) * rise == a * rise + rise,
        2 * run * (b + 1) == 2 * ((b + 1) * run),
        2 * rise * (a + 1) == 2 * ((a + 1) * rise),
        2 * run * b == 2 * (b * run),
        2 * rise * a == 2 * (a * rise),
        2 * k * rise == 2 * (k * rise),
        2 * k * run == 2 * (k * run),
        2 * (k + 1) * rise == 2 * (k * rise) + 2 * rise,
        2 * (k + 1) * run == 2 * (k * run) + 2 * run,
        2 * (k + 1 + 1) * rise == 2 * (k * rise) + 4 * rise,
        2 * (k + 1 + 1) * run == 2 * (k * run) + 4 * run,
{
    assert((b + 2) * run == (b + 1) * run + run) by (nonlinear_arith);
    assert((a + 2) * rise == (a + 1) * rise + rise) by (nonlinear_arith);
    assert((b + 1) * run == b * run + run) by (nonlinear_arith);
    assert((a + 1) * rise == a * rise + rise) by (nonlinear_arith);
    assert(2 * run * (b + 1) == 2 * ((b + 1) * run)) by (nonlinear_arith);
    assert(2 * rise * (a + 1) == 2 * ((a + 1) * rise)) by (nonlinear_arith);
    assert(2 * run * b == 2 * (b * run)) by (nonlinear_arith);
    assert(2 * rise * a == 2 * (a * rise)) by (nonlinear_arith);
    assert(2 * k * rise == 2 * (k * rise)) by (nonlinear_arith);
    assert(2 * k * run == 2 * (k * run)) by (nonlinear_arith);
    assert(2 * (k + 1) * rise == 2 * (k * rise) + 2 * rise) by (nonlinear_arith);
    assert(2 * (k + 1) * run == 2 * (k * run) + 2 * run) by (nonlinear_arith);
    assert(2 * (k + 1 + 1) * rise == 2 * (k * rise) + 4 * rise) by (nonlinear_arith);
    assert(2 * (k + 1 + 1) * run == 2 * (k * run) + 4 * run) by (nonlinear_arith);
}

} // verus!
