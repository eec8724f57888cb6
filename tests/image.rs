use ytesrev::image::{Color, ImageError, PngImage};

fn encode(width: u32, height: u32, color: png::ColorType, depth: png::BitDepth, data: &[u8]) -> Vec<u8> {
    let mut out = Vec::new();
    {
        let mut encoder = png::Encoder::new(&mut out, width, height);
        encoder.set_color(color);
        encoder.set_depth(depth);
        let mut writer = encoder.write_header().unwrap();
        writer.write_image_data(data).unwrap();
    }
    out
}

#[test]
fn rgba_png_is_stored_blue_first() {
    let bytes = encode(2, 1, png::ColorType::Rgba, png::BitDepth::Eight, &[1, 2, 3, 4, 5, 6, 7, 8]);
    let image = PngImage::load_from_path(&bytes).unwrap();
    assert_eq!((image.width, image.height), (2, 1));
    assert_eq!(image.data, vec![3, 2, 1, 4, 7, 6, 5, 8]);
}

#[test]
fn rgb_png_is_opaque() {
    let bytes = encode(1, 2, png::ColorType::Rgb, png::BitDepth::Eight, &[10, 20, 30, 40, 50, 60]);
    let image = PngImage::load_from_path(&bytes).unwrap();
    assert_eq!(image.data, vec![30, 20, 10, 255, 60, 50, 40, 255]);
}

#[test]
fn transform_applies_to_every_pixel() {
    let bytes = encode(2, 1, png::ColorType::Rgba, png::BitDepth::Eight, &[1, 2, 3, 4, 5, 6, 7, 8]);
    let image = PngImage::load_from_path_transform(&bytes, |c: Color| Color { a: 255 - c.a, ..c }).unwrap();
    assert_eq!(image.data, vec![3, 2, 1, 251, 7, 6, 5, 247]);
}

#[test]
fn unsupported_and_broken_files() {
    let grey = encode(1, 1, png::ColorType::Grayscale, png::BitDepth::Eight, &[7]);
    assert_eq!(PngImage::load_from_path(&grey).err(), Some(ImageError::Unsupported));
    let deep = encode(1, 1, png::ColorType::Rgb, png::BitDepth::Sixteen, &[0, 1, 0, 2, 0, 3]);
    assert_eq!(PngImage::load_from_path(&deep).err(), Some(ImageError::Unsupported));
    assert_eq!(PngImage::load_from_path(&[1, 2, 3]).err(), Some(ImageError::Decode));
}
