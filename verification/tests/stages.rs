//! Tests of the pipeline stages and the small building blocks.

use sprite_gen::color::{darken_channel, hsl_to_rgb, onebit_output, pack_pixel};
use sprite_gen::edges::grow_edges;
use sprite_gen::input::{ButtonState, Input};
use sprite_gen::mask::MaskValue;
use sprite_gen::options::Options;
use sprite_gen::resolve::resolve_mask;
use sprite_gen::rng::Pcg32;

#[test]
fn mask_value_encodings() {
    assert_eq!(MaskValue::Solid.i8(), -1);
    assert_eq!(MaskValue::Empty.i8(), 0);
    assert_eq!(MaskValue::Body1.i8(), 1);
    assert_eq!(MaskValue::Body2.i8(), 2);
}

#[test]
fn mask_value_decoding_round_trips() {
    for v in [-1i8, 0, 1, 2] {
        assert_eq!(MaskValue::from_i8(v).i8(), v);
    }
    assert_eq!(MaskValue::from_i8(7), MaskValue::Empty);
    assert_eq!(MaskValue::from_i8(-3), MaskValue::Empty);
    assert_eq!(MaskValue::default(), MaskValue::Empty);
}

#[test]
fn default_options() {
    let opts = Options::default();
    assert!(!opts.mirror_x);
    assert!(!opts.mirror_y);
    assert!(opts.colored);
    assert_eq!(opts.edge_brightness, 300);
    assert_eq!(opts.color_variations, 200);
    assert_eq!(opts.brightness_noise, 300);
    assert_eq!(opts.saturation, 500);
    assert_eq!(opts.seed, 0);
}

#[test]
fn resolution_is_complete_and_keeps_fixed_cells() {
    let mut cells: Vec<i8> = vec![-1, 0, 1, 2, 1, 2, 0, -1, 1];
    let mut rng = Pcg32::new(2024);
    resolve_mask(&mut cells, &mut rng);
    assert_eq!(cells.len(), 9);
    for &v in cells.iter() {
        assert!((-1..=1).contains(&v));
    }
    assert_eq!(cells[0], -1);
    assert_eq!(cells[1], 0);
    assert_eq!(cells[6], 0);
    assert_eq!(cells[7], -1);
}

#[test]
fn single_ambiguous_cell_resolves_reproducibly() {
    // A one-cell mask of the empty-or-filled kind: under one seed the
    // outcome is fixed, and it is one of the two permitted values.
    let seed = 0xfeed;
    let mut first: Vec<i8> = vec![1];
    let mut rng = Pcg32::new(seed);
    resolve_mask(&mut first, &mut rng);
    let mut second: Vec<i8> = vec![1];
    let mut rng2 = Pcg32::new(seed);
    resolve_mask(&mut second, &mut rng2);
    assert_eq!(first, second);
    assert!(first[0] == 0 || first[0] == 1);
}

#[test]
fn body2_resolves_to_border_or_filled() {
    for seed in 0..16u64 {
        let mut cells: Vec<i8> = vec![2];
        let mut rng = Pcg32::new(seed);
        resolve_mask(&mut cells, &mut rng);
        assert!(cells[0] == -1 || cells[0] == 1);
    }
}

#[test]
fn edges_grow_around_filled_cells() {
    // One filled cell in a 3x2 grid: its in-bounds neighbors become border,
    // cells with no shape neighbor stay empty.
    let cells: Vec<i8> = vec![0, 1, 0, 0, 0, 0];
    let grown = grow_edges(&cells, 3, 2);
    assert_eq!(grown, vec![-1, 1, -1, 0, -1, 0]);
}

#[test]
fn edges_grow_around_solid_cells() {
    let cells: Vec<i8> = vec![0, -1];
    let grown = grow_edges(&cells, 2, 1);
    assert_eq!(grown, vec![-1, -1]);
}

#[test]
fn edge_growth_does_not_cascade() {
    // The border grown beside the filled cell does not itself grow: the far
    // cells of the row keep their values.
    let cells: Vec<i8> = vec![1, 0, 0, 0];
    let grown = grow_edges(&cells, 4, 1);
    assert_eq!(grown, vec![1, -1, 0, 0]);
}

#[test]
fn onebit_maps_border_to_zero_and_rest_to_white() {
    let cells: Vec<i8> = vec![-1, 0, 1];
    let pixels = onebit_output(&cells);
    assert_eq!(pixels, vec![0, 0xffff_ffff, 0xffff_ffff]);
}

#[test]
fn hsl_extremes() {
    assert_eq!(hsl_to_rgb(0, 0, 1000), (255, 255, 255));
    assert_eq!(hsl_to_rgb(500, 700, 0), (0, 0, 0));
    assert_eq!(hsl_to_rgb(0, 0, 500), (127, 127, 127));
}

#[test]
fn hsl_primary_colors() {
    // Full saturation at half lightness lands on the pure primaries.
    assert_eq!(hsl_to_rgb(0, 1000, 500), (255, 0, 0));
    assert_eq!(hsl_to_rgb(333, 1000, 500), (0, 255, 0));
    assert_eq!(hsl_to_rgb(667, 1000, 500), (0, 0, 255));
    assert_eq!(hsl_to_rgb(1000, 1000, 500), (255, 0, 0));
}

#[test]
fn darkening_scales_channels_down() {
    assert_eq!(darken_channel(255, 300), 76);
    assert_eq!(darken_channel(200, 500), 100);
    assert_eq!(darken_channel(10, 0), 0);
    assert_eq!(darken_channel(10, 1000), 10);
    for c in [0u8, 1, 17, 128, 255] {
        for eb in [0u16, 250, 500, 750, 1000] {
            let d = darken_channel(c, eb) as u32;
            assert!(1000 * d <= (eb as u32) * (c as u32));
            assert!(d <= c as u32);
        }
    }
}

#[test]
fn pixels_pack_as_rgb() {
    assert_eq!(pack_pixel(0x12, 0x34, 0x56), 0x0012_3456);
    assert_eq!(pack_pixel(255, 255, 255), 0x00ff_ffff);
    assert_eq!(pack_pixel(0, 0, 0), 0);
}

#[test]
fn random_source_is_seed_deterministic() {
    let mut a = Pcg32::new(42);
    let mut b = Pcg32::new(42);
    for _ in 0..8 {
        assert_eq!(a.next_u32(), b.next_u32());
    }
    let mut fresh = Pcg32::new(42);
    let mut other = Pcg32::new(43);
    let same_seed = [fresh.next_u32(), fresh.next_u32(), fresh.next_u32()];
    let other_seed = [other.next_u32(), other.next_u32(), other.next_u32()];
    assert_ne!(same_seed, other_seed);
}

#[test]
fn unit_draws_stay_per_mille() {
    let mut rng = Pcg32::new(7);
    for _ in 0..32 {
        assert!(rng.unit() <= 1000);
        let s = rng.signed_unit();
        assert!((-1000..=1000).contains(&s));
    }
}

#[test]
fn button_state_ticks() {
    let mut b = ButtonState::default();
    assert_eq!(b, ButtonState::Up);
    b.handle_bool(true);
    assert_eq!(b, ButtonState::Pressed);
    assert!(b.is_pressed());
    assert!(b.is_down());
    assert!(!b.is_released());
    b.update();
    assert_eq!(b, ButtonState::Down);
    assert!(b.is_down());
    assert!(!b.is_pressed());
    b.handle_bool(false);
    assert_eq!(b, ButtonState::Released);
    assert!(b.is_released());
    b.update();
    assert_eq!(b, ButtonState::Up);
}

#[test]
fn button_state_ignores_redundant_readings() {
    let mut b = ButtonState::Pressed;
    b.handle_bool(true);
    assert_eq!(b, ButtonState::Pressed);
    let mut b = ButtonState::Up;
    b.handle_bool(false);
    assert_eq!(b, ButtonState::Up);
}

#[test]
fn input_update_ages_every_button() {
    let mut input = Input::default();
    input.mouse_x = 12;
    input.mouse_y = -3;
    input.left_mouse = ButtonState::Pressed;
    input.right_mouse = ButtonState::Released;
    input.space = ButtonState::Down;
    input.x = ButtonState::Up;
    input.update();
    assert_eq!(input.mouse_x, 12);
    assert_eq!(input.mouse_y, -3);
    assert_eq!(input.left_mouse, ButtonState::Down);
    assert_eq!(input.right_mouse, ButtonState::Up);
    assert_eq!(input.space, ButtonState::Down);
    assert_eq!(input.x, ButtonState::Up);
}
