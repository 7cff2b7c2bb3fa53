use teal::brush::Brush;
use teal::image::Image;
use teal::pixel::{CHANNEL_ONE, Pixel};

#[test]
fn kernel_weights_invert_luminance() {
    // A brighter raster pixel contributes less coverage: full white gives
    // weight zero, full black gives full weight, mid grey gives half.
    let grey = CHANNEL_ONE / 2;
    let raster = Image::new(1, 1, Pixel { r: grey, g: grey, b: grey, a: CHANNEL_ONE });
    let brush = Brush::new(String::from("grey"), raster);
    let kernel = brush.iter_values();
    assert_eq!(kernel.len(), 1);
    assert_eq!((kernel[0].dx, kernel[0].dy), (0, 0));
    assert_eq!(kernel[0].weight, CHANNEL_ONE - grey);

    let black = Brush::new(String::from("black"), Image::new(1, 1, Pixel { r: 0, g: 0, b: 0, a: 0 }));
    assert_eq!(black.iter_values()[0].weight, CHANNEL_ONE);
    let white_raster = Image::new(
        1,
        1,
        Pixel { r: CHANNEL_ONE, g: CHANNEL_ONE, b: CHANNEL_ONE, a: CHANNEL_ONE },
    );
    let white = Brush::new(String::from("white"), white_raster);
    assert_eq!(white.iter_values()[0].weight, 0);
}

#[test]
fn even_rasters_centre_toward_lower_right() {
    // A 2x2 raster centres on its lower-right pixel: offsets run from
    // (-1, -1) to (0, 0), row-major.
    let raster = Image::new(2, 2, Pixel { r: 0, g: 0, b: 0, a: 0 });
    let brush = Brush::new(String::from("pad"), raster);
    let kernel = brush.iter_values();
    assert_eq!(kernel.len(), 4);
    assert_eq!((kernel[0].dx, kernel[0].dy), (-1, -1));
    assert_eq!((kernel[1].dx, kernel[1].dy), (0, -1));
    assert_eq!((kernel[2].dx, kernel[2].dy), (-1, 0));
    assert_eq!((kernel[3].dx, kernel[3].dy), (0, 0));
}

#[test]
fn duplicate_copies_the_kernel() {
    let raster = Image::new(2, 1, Pixel { r: 0, g: 0, b: 0, a: 0 });
    let brush = Brush::new(String::from("pair"), raster);
    let copy = brush.duplicate();
    assert_eq!(copy.kernel.len(), brush.kernel.len());
    for i in 0..copy.kernel.len() {
        assert_eq!(copy.kernel[i], brush.kernel[i]);
    }
}
