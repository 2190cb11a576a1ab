use solar_raster::color::Color;
use solar_raster::plot::{Plot, STAR_DEPTH};
use solar_raster::skybox::{plot_star, Skybox, Star};
use solar_raster::triangle::{assemble_triangles, ShaderType};
use solar_raster::warp::{WarpPhase, WarpStep};

fn star(x: usize, y: usize, brightness: u8, size: u8) -> Star {
    Star { x, y, brightness, size }
}

fn at(x: usize, y: usize, color: u32) -> Plot {
    Plot { x, y, color, depth: STAR_DEPTH }
}

#[test]
fn color_packs_as_rrggbb() {
    assert_eq!(Color::new(0x12, 0x34, 0x56).to_hex(), 0x123456);
    assert_eq!(Color::new(0, 0, 0).to_hex(), 0);
    assert_eq!(Color::new(255, 255, 255).to_hex(), 0xFFFFFF);
    assert_eq!(Color::new(20, 80, 180).to_hex(), 0x1450B4);
}

#[test]
fn color_unpacks_and_ignores_high_bits() {
    assert_eq!(Color::from_hex(0x123456), Color { r: 0x12, g: 0x34, b: 0x56 });
    assert_eq!(Color::from_hex(0xFF00_0008), Color { r: 0, g: 0, b: 8 });
}

#[test]
fn color_hex_round_trip() {
    for r in [0u8, 1, 127, 128, 255] {
        for g in [0u8, 9, 200, 255] {
            for b in [0u8, 77, 255] {
                let c = Color::new(r, g, b);
                assert_eq!(Color::from_hex(c.to_hex()), c);
            }
        }
    }
}

#[test]
fn color_sum_saturates_per_channel() {
    let a = Color::new(200, 100, 0);
    let b = Color::new(100, 100, 255);
    assert_eq!(a.saturating_add(b), Color::new(255, 200, 255));
    assert_eq!(b.saturating_add(a), Color::new(255, 200, 255));
    assert_eq!(a.saturating_add(Color::new(0, 0, 0)), a);
    assert_eq!(Color::new(255, 155, 1).saturating_add(Color::new(1, 100, 254)), Color::new(255, 255, 255));
}

#[test]
fn shader_light_floors() {
    assert_eq!(ShaderType::Sun.light_floor_percent(), None);
    assert_eq!(ShaderType::RockyPlanet.light_floor_percent(), Some(20));
    assert_eq!(ShaderType::GasGiant.light_floor_percent(), Some(20));
    assert_eq!(ShaderType::IcePlanet.light_floor_percent(), Some(30));
    assert_eq!(ShaderType::VolcanicPlanet.light_floor_percent(), Some(40));
    assert_eq!(ShaderType::Moon.light_floor_percent(), Some(15));
    assert_eq!(ShaderType::Spaceship.light_floor_percent(), Some(40));
}

#[test]
fn shader_floor_percent_is_the_decimal_fraction() {
    assert_eq!(15.0f32 / 100.0, 0.15f32);
    assert_eq!(20.0f32 / 100.0, 0.2f32);
    assert_eq!(30.0f32 / 100.0, 0.3f32);
    assert_eq!(40.0f32 / 100.0, 0.4f32);
}

#[test]
fn triangles_group_runs_of_three() {
    assert_eq!(assemble_triangles(0), Vec::<[usize; 3]>::new());
    assert_eq!(assemble_triangles(2), Vec::<[usize; 3]>::new());
    assert_eq!(assemble_triangles(3), vec![[0, 1, 2]]);
    assert_eq!(assemble_triangles(6), vec![[0, 1, 2], [3, 4, 5]]);
}

#[test]
fn triangles_ignore_an_incomplete_tail() {
    assert_eq!(assemble_triangles(7), vec![[0, 1, 2], [3, 4, 5]]);
    assert_eq!(assemble_triangles(8), vec![[0, 1, 2], [3, 4, 5]]);
    assert_eq!(assemble_triangles(1), Vec::<[usize; 3]>::new());
}

#[test]
fn small_star_is_one_grey_pixel() {
    assert_eq!(plot_star(star(3, 4, 0x80, 1), 0x80, 10, 10), vec![at(3, 4, 0x808080)]);
    assert_eq!(STAR_DEPTH, 1_000_000);
}

#[test]
fn large_star_is_a_block_of_four() {
    assert_eq!(
        plot_star(star(3, 4, 200, 2), 200, 10, 10),
        vec![at(3, 4, 0xC8C8C8), at(4, 4, 0xC8C8C8), at(3, 5, 0xC8C8C8), at(4, 5, 0xC8C8C8)]
    );
}

#[test]
fn star_of_another_size_is_one_pixel() {
    assert_eq!(plot_star(star(3, 4, 200, 3), 200, 10, 10), vec![at(3, 4, 0xC8C8C8)]);
    assert_eq!(plot_star(star(3, 4, 200, 0), 200, 10, 10), vec![at(3, 4, 0xC8C8C8)]);
}

#[test]
fn large_star_is_clipped_at_the_edges() {
    assert_eq!(plot_star(star(9, 4, 100, 2), 100, 10, 10), vec![at(9, 4, 0x646464), at(9, 5, 0x646464)]);
    assert_eq!(plot_star(star(3, 9, 100, 2), 100, 10, 10), vec![at(3, 9, 0x646464), at(4, 9, 0x646464)]);
    assert_eq!(plot_star(star(9, 9, 100, 2), 100, 10, 10), vec![at(9, 9, 0x646464)]);
    assert!(plot_star(star(10, 9, 100, 2), 100, 10, 10).is_empty());
    assert!(plot_star(star(9, 10, 100, 2), 100, 10, 10).is_empty());
    assert!(plot_star(star(usize::MAX, usize::MAX, 100, 2), 100, usize::MAX, usize::MAX).is_empty());
}

#[test]
fn star_level_overrides_brightness() {
    assert_eq!(plot_star(star(1, 1, 250, 1), 7, 10, 10), vec![at(1, 1, 0x070707)]);
}

#[test]
fn skybox_renders_stars_in_order() {
    let sky = Skybox::new(vec![star(5, 5, 100, 1), star(0, 0, 255, 2), star(50, 1, 9, 1)]);
    assert_eq!(sky.stars().len(), 3);
    assert_eq!(
        sky.render(10, 10),
        vec![
            at(5, 5, 0x646464),
            at(0, 0, 0xFFFFFF),
            at(1, 0, 0xFFFFFF),
            at(0, 1, 0xFFFFFF),
            at(1, 1, 0xFFFFFF),
        ]
    );
}

#[test]
fn skybox_empty_field() {
    let sky = Skybox::new(Vec::new());
    assert!(sky.render(10, 10).is_empty());
    assert!(sky.render_with_twinkle(10, 10, &Vec::new()).is_empty());
}

#[test]
fn skybox_twinkle_uses_the_given_levels() {
    let sky = Skybox::new(vec![star(5, 5, 100, 1), star(8, 9, 255, 2)]);
    assert_eq!(
        sky.render_with_twinkle(10, 10, &vec![70, 200]),
        vec![at(5, 5, 0x464646), at(8, 9, 0xC8C8C8), at(9, 9, 0xC8C8C8)]
    );
}

#[test]
fn skybox_twinkle_at_own_brightness_is_render() {
    let stars = vec![star(1, 2, 3, 2), star(4, 5, 6, 1), star(9, 9, 200, 2)];
    let levels: Vec<u8> = stars.iter().map(|s| s.brightness).collect();
    let sky = Skybox::new(stars);
    assert_eq!(sky.render_with_twinkle(10, 10, &levels), sky.render(10, 10));
}

#[test]
fn warp_starts_from_either_phase() {
    assert_eq!(WarpPhase::Free.start(), WarpPhase::Warping);
    assert_eq!(WarpPhase::Warping.start(), WarpPhase::Warping);
    assert!(WarpPhase::Warping.is_warping());
    assert!(!WarpPhase::Free.is_warping());
}

#[test]
fn warp_update_while_free_is_idle() {
    assert_eq!(WarpPhase::Free.update(false), (WarpPhase::Free, WarpStep::Idle));
    assert_eq!(WarpPhase::Free.update(true), (WarpPhase::Free, WarpStep::Idle));
}

#[test]
fn warp_travels_until_the_end_is_reached() {
    let mut phase = WarpPhase::Free.start();
    for _ in 0..5 {
        let (next, step) = phase.update(false);
        assert_eq!((next, step), (WarpPhase::Warping, WarpStep::Travel));
        phase = next;
    }
    assert_eq!(phase.update(true), (WarpPhase::Free, WarpStep::Arrive));
}

#[test]
fn warp_stays_finished_after_arrival() {
    let (phase, step) = WarpPhase::Warping.update(true);
    assert_eq!(step, WarpStep::Arrive);
    assert_eq!(phase.update(false), (WarpPhase::Free, WarpStep::Idle));
    assert_eq!(phase.update(true), (WarpPhase::Free, WarpStep::Idle));
}
