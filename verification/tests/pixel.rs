use teal::pixel::{CHANNEL_ONE, Pixel};

fn white() -> Pixel {
    Pixel { r: CHANNEL_ONE, g: CHANNEL_ONE, b: CHANNEL_ONE, a: CHANNEL_ONE }
}

#[test]
fn blend_full_strength_replaces() {
    let mut p = white();
    let src = Pixel { r: 0, g: 0, b: CHANNEL_ONE, a: CHANNEL_ONE };
    p.blend(&src);
    assert_eq!(p, src);
}

#[test]
fn blend_zero_strength_is_identity() {
    let mut p = Pixel { r: 123, g: 456, b: 789, a: CHANNEL_ONE };
    let before = p;
    p.blend(&Pixel { r: CHANNEL_ONE, g: 0, b: 0, a: 0 });
    assert_eq!(p, before);
}

#[test]
fn blend_half_strength_black_over_white() {
    // Compositing black at half strength over opaque white:
    // the blended alpha stays full and each colour channel lands exactly
    // half way.
    let mut p = white();
    let half = CHANNEL_ONE / 2;
    p.blend(&Pixel { r: 0, g: 0, b: 0, a: half });
    assert_eq!(p, Pixel { r: half, g: half, b: half, a: CHANNEL_ONE });
}

#[test]
fn display_pixel_endpoints() {
    let d = white().display_pixel();
    assert_eq!((d.r, d.g, d.b, d.a), (255, 255, 255, 255));
    let z = Pixel { r: 0, g: 0, b: 0, a: 0 }.display_pixel();
    assert_eq!((z.r, z.g, z.b, z.a), (0, 0, 0, 0));
    let m = Pixel { r: CHANNEL_ONE / 2, g: 0, b: 0, a: 0 }.display_pixel();
    assert_eq!(m.r, 127);
}

#[test]
fn opaque_builds_full_alpha() {
    let p = Pixel::opaque(1, 2, 3);
    assert_eq!(p, Pixel { r: 1, g: 2, b: 3, a: CHANNEL_ONE });
}
