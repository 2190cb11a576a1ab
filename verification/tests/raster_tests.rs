use solar_raster::plot::sink_pixel;
use solar_raster::triangle::{assemble_triangles, BoundingBox};

fn scan(bounds: &BoundingBox) -> Vec<(i32, i32)> {
    let mut visited = Vec::new();
    let mut cursor = bounds.first();
    while let Some((x, y)) = cursor {
        visited.push((x, y));
        cursor = bounds.next(x, y);
    }
    visited
}

fn edge(a: (f32, f32), b: (f32, f32), c: (f32, f32)) -> f32 {
    (c.0 - a.0) * (b.1 - a.1) - (c.1 - a.1) * (b.0 - a.0)
}

#[test]
fn scan_is_row_major() {
    let bounds = BoundingBox { min_x: 3, min_y: -1, max_x: 5, max_y: 0 };
    assert_eq!(scan(&bounds), vec![(3, -1), (4, -1), (5, -1), (3, 0), (4, 0), (5, 0)]);
}

#[test]
fn scan_of_a_single_pixel() {
    let bounds = BoundingBox { min_x: 7, min_y: 7, max_x: 7, max_y: 7 };
    assert_eq!(bounds.first(), Some((7, 7)));
    assert_eq!(bounds.next(7, 7), None);
}

#[test]
fn scan_of_an_empty_box_visits_nothing() {
    assert_eq!(BoundingBox { min_x: 1, min_y: 0, max_x: 0, max_y: 5 }.first(), None);
    assert_eq!(BoundingBox { min_x: 0, min_y: 5, max_x: 3, max_y: 4 }.first(), None);
}

#[test]
fn scan_from_outside_the_box_stops() {
    let bounds = BoundingBox { min_x: 0, min_y: 0, max_x: 2, max_y: 2 };
    assert_eq!(bounds.next(-1, 0), None);
    assert_eq!(bounds.next(3, 1), None);
    assert_eq!(bounds.next(1, 3), None);
    assert_eq!(bounds.next(2, 0), Some((0, 1)));
    assert_eq!(bounds.next(1, 1), Some((2, 1)));
}

#[test]
fn scan_at_the_largest_coordinates_ends() {
    let bounds = BoundingBox {
        min_x: i32::MAX - 1,
        min_y: i32::MAX,
        max_x: i32::MAX,
        max_y: i32::MAX,
    };
    assert_eq!(scan(&bounds), vec![(i32::MAX - 1, i32::MAX), (i32::MAX, i32::MAX)]);
    let bounds = BoundingBox { min_x: i32::MIN, min_y: i32::MIN, max_x: i32::MIN, max_y: i32::MIN + 1 };
    assert_eq!(scan(&bounds), vec![(i32::MIN, i32::MIN), (i32::MIN, i32::MIN + 1)]);
}

#[test]
fn scan_visits_every_pixel_once() {
    let bounds = BoundingBox { min_x: -4, min_y: 2, max_x: 6, max_y: 9 };
    let visited = scan(&bounds);
    assert_eq!(visited.len(), 11 * 8);
    for (k, (x, y)) in visited.iter().enumerate() {
        assert_eq!(*x, -4 + (k % 11) as i32);
        assert_eq!(*y, 2 + (k / 11) as i32);
    }
}

#[test]
fn small_triangle_covers_three_pixel_centres() {
    // Corners (0,0), (2,0), (0,2): the box runs from 0 to 2 on both axes, and
    // with edges included the centres of (0,0), (1,0) and (0,1) are covered.
    let (a, b, c) = ((0.0f32, 0.0f32), (2.0f32, 0.0f32), (0.0f32, 2.0f32));
    let bounds = BoundingBox { min_x: 0, min_y: 0, max_x: 2, max_y: 2 };
    let candidates = scan(&bounds);
    assert_eq!(candidates.len(), 9);
    let area = edge(a, b, c);
    assert!(area != 0.0);
    let mut covered = Vec::new();
    for (x, y) in candidates {
        let p = (x as f32 + 0.5, y as f32 + 0.5);
        let w1 = edge(b, c, p) / area;
        let w2 = edge(c, a, p) / area;
        let w3 = edge(a, b, p) / area;
        assert_eq!(w1 + w2 + w3, 1.0);
        if [w1, w2, w3].iter().all(|w| (0.0..=1.0).contains(w)) {
            covered.push((x, y));
        }
    }
    assert_eq!(covered, vec![(0, 0), (1, 0), (0, 1)]);
}

#[test]
fn lone_vertex_forms_no_triangle() {
    assert!(assemble_triangles(1).is_empty());
}

#[test]
fn sphere_sized_list_groups_every_vertex() {
    let triangles = assemble_triangles(2880);
    assert_eq!(triangles.len(), 960);
    assert_eq!(triangles[0], [0, 1, 2]);
    assert_eq!(triangles[959], [2877, 2878, 2879]);
}

#[test]
fn sink_pixel_accepts_only_pixels_of_the_sink() {
    assert_eq!(sink_pixel(4, 3, 0, 0), Some((0, 0)));
    assert_eq!(sink_pixel(4, 3, 3, 2), Some((3, 2)));
    assert_eq!(sink_pixel(4, 3, 4, 2), None);
    assert_eq!(sink_pixel(4, 3, 3, 3), None);
    assert_eq!(sink_pixel(4, 3, -1, 0), None);
    assert_eq!(sink_pixel(4, 3, 0, -1), None);
    assert_eq!(sink_pixel(4, 3, i32::MIN, i32::MIN), None);
    assert_eq!(sink_pixel(4, 3, i32::MAX, 0), None);
    assert_eq!(sink_pixel(0, 0, 0, 0), None);
    assert_eq!(sink_pixel(usize::MAX, usize::MAX, i32::MAX, i32::MAX), Some((i32::MAX as usize, i32::MAX as usize)));
}
