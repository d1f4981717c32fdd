//! End-to-end tests of the sprite generator.

use sprite_gen::{gen_sprite, GenError, MaskValue, Options};

fn monochrome(seed: u64) -> Options {
    let mut opts = Options::default();
    opts.colored = false;
    opts.seed = seed;
    opts
}

const WHITE: u32 = 0xffff_ffff;

#[test]
fn empty_mask_is_rejected() {
    let mask: Vec<MaskValue> = Vec::new();
    let out = gen_sprite(&mask, 3, Options::default());
    assert!(matches!(out, Err(GenError::InvalidDimensions)));
}

#[test]
fn zero_width_is_rejected() {
    let mask = vec![MaskValue::Empty; 9];
    let out = gen_sprite(&mask, 0, Options::default());
    assert!(matches!(out, Err(GenError::InvalidDimensions)));
}

#[test]
fn solid_center_grows_a_cross() {
    // A 3x3 mask, all empty except a solid center: the center and its four
    // orthogonal neighbors render as border, the corners stay fill-colored.
    let mut mask = vec![MaskValue::Empty; 9];
    mask[4] = MaskValue::Solid;
    let buf = gen_sprite(&mask, 3, monochrome(0)).unwrap();
    assert_eq!(buf.width, 3);
    assert_eq!(buf.height, 3);
    assert!(!buf.truncated);
    let expected = vec![WHITE, 0, WHITE, 0, 0, 0, WHITE, 0, WHITE];
    assert_eq!(buf.pixels, expected);
}

#[test]
fn size_law_without_mirrors() {
    let mask = vec![MaskValue::Empty; 12];
    let buf = gen_sprite(&mask, 3, monochrome(7)).unwrap();
    assert_eq!(buf.width, 3);
    assert_eq!(buf.height, 4);
    assert_eq!(buf.pixels.len(), 12);
}

#[test]
fn size_law_with_both_mirrors() {
    let mask = vec![MaskValue::Body1; 12];
    let mut opts = monochrome(7);
    opts.mirror_x = true;
    opts.mirror_y = true;
    let buf = gen_sprite(&mask, 3, opts).unwrap();
    assert_eq!(buf.width, 6);
    assert_eq!(buf.height, 8);
    assert_eq!(buf.pixels.len(), 48);
}

#[test]
fn size_law_with_one_mirror() {
    let mask = vec![MaskValue::Body2; 10];
    let mut opts = monochrome(3);
    opts.mirror_x = true;
    let buf = gen_sprite(&mask, 5, opts).unwrap();
    assert_eq!(buf.width, 10);
    assert_eq!(buf.height, 2);
    assert_eq!(buf.pixels.len(), 20);
}

#[test]
fn trailing_cells_are_truncated() {
    // Five cells at width two: the fifth cell does not fill a row and is
    // dropped, and the caller is told.
    let mask = vec![MaskValue::Empty; 5];
    let buf = gen_sprite(&mask, 2, monochrome(0)).unwrap();
    assert!(buf.truncated);
    assert_eq!(buf.width, 2);
    assert_eq!(buf.height, 2);
    assert_eq!(buf.pixels.len(), 4);
}

#[test]
fn generation_is_deterministic() {
    let mask = vec![
        MaskValue::Body1,
        MaskValue::Body2,
        MaskValue::Empty,
        MaskValue::Solid,
        MaskValue::Body1,
        MaskValue::Body2,
        MaskValue::Body1,
        MaskValue::Empty,
        MaskValue::Body2,
        MaskValue::Body1,
        MaskValue::Body2,
        MaskValue::Body1,
    ];
    let mut opts = Options::default();
    opts.seed = 0x5eed_cafe;
    opts.mirror_x = true;
    let first = gen_sprite(&mask, 4, opts).unwrap();
    let second = gen_sprite(&mask, 4, opts).unwrap();
    assert_eq!(first.pixels, second.pixels);
    assert_eq!(first.width, second.width);
    assert_eq!(first.height, second.height);
}

#[test]
fn monochrome_output_is_two_valued() {
    let mask = vec![
        MaskValue::Body1,
        MaskValue::Body2,
        MaskValue::Solid,
        MaskValue::Empty,
        MaskValue::Body1,
        MaskValue::Body2,
        MaskValue::Empty,
        MaskValue::Solid,
        MaskValue::Body1,
    ];
    let buf = gen_sprite(&mask, 3, monochrome(99)).unwrap();
    for &px in buf.pixels.iter() {
        assert!(px == 0 || px == WHITE);
    }
}

#[test]
fn mirrored_output_is_symmetric() {
    let mask = vec![
        MaskValue::Body1,
        MaskValue::Body2,
        MaskValue::Body1,
        MaskValue::Solid,
        MaskValue::Empty,
        MaskValue::Body2,
        MaskValue::Body1,
        MaskValue::Body1,
        MaskValue::Body2,
        MaskValue::Empty,
        MaskValue::Solid,
        MaskValue::Body1,
    ];
    let mut opts = Options::default();
    opts.seed = 1234;
    opts.mirror_x = true;
    opts.mirror_y = true;
    let buf = gen_sprite(&mask, 4, opts).unwrap();
    let (w, h) = (buf.width, buf.height);
    assert_eq!(w, 8);
    assert_eq!(h, 6);
    for y in 0..h {
        for x in 0..w {
            let px = buf.pixels[y * w + x];
            assert_eq!(px, buf.pixels[y * w + (w - 1 - x)]);
            assert_eq!(px, buf.pixels[(h - 1 - y) * w + x]);
            assert_eq!(px, buf.pixels[(h - 1 - y) * w + (w - 1 - x)]);
        }
    }
}

#[test]
fn mirror_x_only_is_symmetric_across_x() {
    let mask = vec![
        MaskValue::Body1,
        MaskValue::Body2,
        MaskValue::Solid,
        MaskValue::Body1,
        MaskValue::Empty,
        MaskValue::Body2,
    ];
    let mut opts = Options::default();
    opts.seed = 77;
    opts.mirror_x = true;
    let buf = gen_sprite(&mask, 2, opts).unwrap();
    let (w, h) = (buf.width, buf.height);
    assert_eq!(w, 4);
    assert_eq!(h, 3);
    for y in 0..h {
        for x in 0..w {
            assert_eq!(buf.pixels[y * w + x], buf.pixels[y * w + (w - 1 - x)]);
        }
    }
}

#[test]
fn zero_edge_brightness_blackens_all_borders() {
    // A solid cell and its grown border are darkened to black when the edge
    // brightness is zero, whatever the seed drew.
    let mask = vec![MaskValue::Solid, MaskValue::Empty];
    let mut opts = Options::default();
    opts.edge_brightness = 0;
    opts.seed = 31337;
    let buf = gen_sprite(&mask, 2, opts).unwrap();
    assert_eq!(buf.pixels, vec![0, 0]);
}

#[test]
fn colored_output_differs_from_sentinel_on_filled_cells() {
    // A solid cell is always written by the gradient colorizer: it cannot
    // keep the unset sentinel, because its top byte is zero after packing.
    let mask = vec![MaskValue::Solid];
    let mut opts = Options::default();
    opts.seed = 5;
    let buf = gen_sprite(&mask, 1, opts).unwrap();
    assert_eq!(buf.pixels.len(), 1);
    assert!(buf.pixels[0] <= 0x00ff_ffff);
}

#[test]
fn empty_cells_keep_the_sentinel_when_colored() {
    let mask = vec![MaskValue::Empty; 4];
    let mut opts = Options::default();
    opts.seed = 12;
    let buf = gen_sprite(&mask, 2, opts).unwrap();
    assert_eq!(buf.pixels, vec![WHITE; 4]);
}
