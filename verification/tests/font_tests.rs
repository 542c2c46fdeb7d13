use bracket_terminal::builder::Rgb8;
use bracket_terminal::font::{font_texture_data, make_dark_transparent, remove_background, Font};

#[test]
// Tests that we make an RGB triplet at defaults and it is black.
fn font_make_font_minimal() {
    let f = Font::new("test.png", 1, 2, (8, 8));
    assert_eq!(f.bitmap_file, "test.png");
    assert_eq!(f.width, 1);
    assert_eq!(f.height, 2);
}

#[test]
fn font_glyph_grid_from_sizes() {
    let f = Font::new("test.png", 1, 2, (8, 8));
    assert_eq!(f.font_dimensions_glyphs, (8, 4));
    let g = Font::for_image("terminal8x8.png", (8, 8), None, 128, 128);
    assert_eq!((g.width, g.height), (128, 128));
    assert_eq!(g.font_dimensions_glyphs, (16, 16));
}

#[test]
fn background_pixels_become_transparent() {
    let mut data = vec![1, 2, 3, 255, 9, 9, 9, 255, 1, 2, 3, 7, 1, 2];
    remove_background(&mut data, Rgb8 { r: 1, g: 2, b: 3 });
    assert_eq!(data, vec![0, 0, 0, 0, 9, 9, 9, 255, 0, 0, 0, 0, 1, 2]);
    let once = data.clone();
    remove_background(&mut data, Rgb8 { r: 1, g: 2, b: 3 });
    assert_eq!(data, once);
}

#[test]
fn texture_data_is_flipped_upside_down() {
    // 1 x 2 image: top pixel red, bottom pixel green.
    let rgba = vec![255, 0, 0, 255, 0, 255, 0, 255];
    let flipped = font_texture_data(1, 2, rgba.clone(), None);
    assert_eq!(flipped, vec![0, 255, 0, 255, 255, 0, 0, 255]);
    let no_green = font_texture_data(1, 2, rgba, Some(Rgb8 { r: 0, g: 255, b: 0 }));
    assert_eq!(no_green, vec![0, 0, 0, 0, 255, 0, 0, 255]);
}

#[test]
fn prepare_texture_records_the_image_size() {
    let mut f = Font::new("x.png", 1, 1, (1, 1));
    let data = f.prepare_texture(2, 1, vec![1, 1, 1, 1, 2, 2, 2, 2]);
    assert_eq!((f.width, f.height), (2, 1));
    assert_eq!(data, vec![1, 1, 1, 1, 2, 2, 2, 2]);
}

#[test]
fn dark_pixels_lose_their_alpha() {
    let mut data = vec![9, 9, 9, 255, 10, 0, 0, 255, 0, 0];
    make_dark_transparent(&mut data);
    assert_eq!(data, vec![9, 9, 9, 0, 10, 0, 0, 255, 0, 0]);
}

/// PNG bytes of a 16 x 8 image whose top row is red and the rest blue.
fn two_row_png() -> Vec<u8> {
    let mut img = image::RgbaImage::new(16, 8);
    for (_, y, p) in img.enumerate_pixels_mut() {
        *p = if y == 0 { image::Rgba([255, 0, 0, 255]) } else { image::Rgba([0, 0, 255, 255]) };
    }
    let mut bytes = Vec::new();
    image::DynamicImage::ImageRgba8(img)
        .write_to(&mut std::io::Cursor::new(&mut bytes), image::ImageOutputFormat::Png)
        .unwrap();
    bytes
}

#[test]
fn font_from_embedded_image() {
    let bytes = two_row_png();
    let (f, data) = Font::from_embedded("embedded.png", &bytes, (8, 8), None).unwrap();
    assert_eq!(f.bitmap_file, "embedded.png");
    assert_eq!((f.width, f.height), (16, 8));
    assert_eq!(f.font_dimensions_glyphs, (2, 1));
    assert_eq!(data.len(), 16 * 8 * 4);
    // The texture is upside down: the red top row comes last.
    assert_eq!(&data[0..4], &[0, 0, 255, 255]);
    assert_eq!(&data[7 * 64..7 * 64 + 4], &[255, 0, 0, 255]);
}

#[test]
fn font_from_embedded_image_with_background() {
    let bytes = two_row_png();
    let (_, data) = Font::from_embedded("embedded.png", &bytes, (8, 8), Some(Rgb8 { r: 0, g: 0, b: 255 })).unwrap();
    assert_eq!(&data[0..4], &[0, 0, 0, 0]);
    assert_eq!(&data[7 * 64..7 * 64 + 4], &[255, 0, 0, 255]);
}

#[test]
fn font_from_bytes_that_are_no_image() {
    assert!(Font::from_embedded("junk.png", &[1, 2, 3, 4], (8, 8), None).is_none());
}

#[test]
fn font_from_file_bytes_by_extension() {
    let bytes = two_row_png();
    let (f, data) = Font::load_file_bytes("resources/font.png", &bytes, (8, 8), None).unwrap();
    assert_eq!(f.bitmap_file, "resources/font.png");
    assert_eq!((f.width, f.height), (16, 8));
    assert_eq!(f.font_dimensions_glyphs, (2, 1));
    assert_eq!(&data[7 * 64..7 * 64 + 4], &[255, 0, 0, 255]);
    // An extension that names no image format is refused.
    assert!(Font::load_file_bytes("resources/font.txt", &bytes, (8, 8), None).is_none());
    // Bytes that are no PNG are refused.
    assert!(Font::load_file_bytes("resources/font.png", &[0, 1, 2], (8, 8), None).is_none());
}

#[test]
fn font_texture_from_its_file_bytes() {
    let bytes = two_row_png();
    let mut f = Font::new("resources/font.png", 1, 1, (8, 8));
    let data = f.texture_from_file_bytes(&bytes).unwrap();
    assert_eq!((f.width, f.height), (16, 8));
    assert_eq!(data.len(), 16 * 8 * 4);
    assert_eq!(&data[0..4], &[0, 0, 255, 255]);
    let mut g = Font::new("resources/font.png", 1, 1, (8, 8));
    assert!(g.texture_from_file_bytes(&[9, 9]).is_none());
    assert_eq!((g.width, g.height), (1, 1));
}
