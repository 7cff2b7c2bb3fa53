use teal::image::Image;
use teal::pixel::{CHANNEL_ONE, Pixel};
use teal::view::{checkerboard, ImageView};

fn white() -> Pixel {
    Pixel { r: CHANNEL_ONE, g: CHANNEL_ONE, b: CHANNEL_ONE, a: CHANNEL_ONE }
}

#[test]
fn corner_check_short_circuits_before_bounds() {
    // Corner offset (5, 5) display units, factor 1.0: the display point
    // (4, 100) is rejected because 4 lies before the corner, whatever the
    // canvas size.
    let view = ImageView::from_parts(5_000, 5_000, 10);
    let small = Image::new(4, 4, white());
    let large = Image::new(2_000, 2_000, white());
    assert!(view.get_image_coords_u_checked(&small, 4, 100).is_none());
    assert!(view.get_image_coords_u_checked(&large, 4, 100).is_none());
}

#[test]
fn checked_conversion_maps_and_bounds() {
    let view = ImageView::from_parts(5_000, 5_000, 10);
    let img = Image::new(100, 100, white());
    // (10 - 5) * 1.0 = 5 on both axes.
    assert_eq!(view.get_image_coords_u_checked(&img, 10, 10), Some((5, 5)));
    // Beyond the far edge: (130 - 5) * 1.0 = 125 >= 100.
    assert!(view.get_image_coords_u_checked(&img, 130, 10).is_none());
}

#[test]
fn unchecked_conversion_keeps_subpixels() {
    let view = ImageView::from_parts(0, 0, 5);
    let img = Image::new(10, 10, white());
    // 3.5 display units at factor 0.5 is 1.75 canvas units.
    let (fx, fy) = view.get_image_coords_f(&img, 3_500, 0);
    assert_eq!((fx, fy), (1_750, 0));
}

#[test]
fn zoom_steps_are_tenths_and_unclamped_at_zero() {
    let mut view = ImageView::from_parts(0, 0, 10);
    view.zoom_in();
    assert_eq!(view.conversion_factor, 9);
    view.zoom_out();
    view.zoom_out();
    assert_eq!(view.conversion_factor, 11);
    // Zooming in repeatedly drives the factor through zero: there is no
    // floor at a meaningful value.
    for _ in 0..12 {
        view.zoom_in();
    }
    assert_eq!(view.conversion_factor, -1);
    // A non-positive factor degenerates the mapping: everything is
    // off-canvas.
    let img = Image::new(100, 100, white());
    assert!(view.get_image_coords_u_checked(&img, 10, 10).is_none());
}

#[test]
fn checkerboard_alternates_squares() {
    let dark = checkerboard(0, 0);
    assert_eq!((dark.r, dark.g, dark.b, dark.a), (0, 128, 128, 255));
    let light = checkerboard(20, 0);
    assert_eq!((light.r, light.g, light.b, light.a), (0, 255, 255, 255));
    assert_eq!(checkerboard(19, 0), dark);
    assert_eq!(checkerboard(20, 20), dark);
    assert_eq!(checkerboard(0, 20), light);
}

#[test]
fn image_get_set_roundtrip() {
    let mut img = Image::new(3, 2, white());
    let blue = Pixel { r: 0, g: 0, b: CHANNEL_ONE, a: CHANNEL_ONE };
    img.set(2, 1, blue);
    assert_eq!(*img.get(2, 1), blue);
    assert_eq!(*img.get(0, 0), white());
    assert_eq!(img.width, 3);
    assert_eq!(img.height, 2);
}
