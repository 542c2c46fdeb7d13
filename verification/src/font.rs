//! Fonts: a tileset image cut into a grid of glyphs, and the pixel data that is
//! uploaded as its texture.
use vstd::prelude::*;
use crate::builder::Rgb8;

verus! {

/// A font or tileset: its image file, the image size in pixels, the glyph size
/// in pixels, the colour to be made transparent, and the glyph grid.
pub struct Font {
    pub bitmap_file: String,
    pub width: u32,
    pub height: u32,
    pub tile_size: (u32, u32),
    pub explicit_background: Option<Rgb8>,
    pub font_dimensions_glyphs: (u32, u32),
}

impl Font {
    /// A font not yet loaded, with the given file name and sizes; its glyph grid
    /// is the tile size divided by the image size.
    pub fn new(filename: &str, width: u32, height: u32, tile_size: (u32, u32)) -> (f: Font)
        requires
            width > 0,
            height > 0,
        ensures
            f.bitmap_file@ == filename@,
            f.width == width,
            f.height == height,
            f.tile_size == tile_size,
            f.explicit_background is None,
            f.font_dimensions_glyphs == ((tile_size.0 / width) as u32, (tile_size.1 / height) as u32),
    {
        Font {
            bitmap_file: filename.to_owned(),
            width,
            height,
            tile_size,
            explicit_background: None,
            font_dimensions_glyphs: (tile_size.0 / width, tile_size.1 / height),
        }
    }

    /// The font of an image of `image_width` x `image_height` pixels cut into
    /// glyphs of `tile_size` pixels.
    pub fn for_image(
        filename: &str,
        tile_size: (u32, u32),
        explicit_background: Option<Rgb8>,
        image_width: u32,
        image_height: u32,
    ) -> (f: Font)
        requires
            tile_size.0 > 0,
            tile_size.1 > 0,
        ensures
            f.bitmap_file@ == filename@,
            f.width == image_width,
            f.height == image_height,
            f.tile_size == tile_size,
            f.explicit_background == explicit_background,
            f.font_dimensions_glyphs == ((image_width / tile_size.0) as u32, (image_height
                / tile_size.1) as u32),
    {
        Font {
            bitmap_file: filename.to_owned(),
            width: image_width,
            height: image_height,
            tile_size,
            explicit_background,
            font_dimensions_glyphs: (image_width / tile_size.0, image_height / tile_size.1),
        }
    }

    /// Records the loaded image's size and returns the texture data for it: the
    /// image's RGBA rows turned upside down, with this font's explicit
    /// background made transparent.
    pub fn prepare_texture(&mut self, image_width: u32, image_height: u32, rgba: Vec<u8>) -> (data: Vec<
        u8,
    >)
        requires
            rgba@.len() == 4 * image_width * image_height,
        ensures
            final(self).width == image_width,
            final(self).height == image_height,
            final(self).bitmap_file == old(self).bitmap_file,
            final(self).tile_size == old(self).tile_size,
            final(self).explicit_background == old(self).explicit_background,
            final(self).font_dimensions_glyphs == old(self).font_dimensions_glyphs,
            data@ == texture_data(rgba@, image_width as int, image_height as int, old(self).explicit_background),
    {
        self.width = image_width;
        self.height = image_height;
        font_texture_data(image_width, image_height, rgba, self.explicit_background)
    }

    /// Loads a font from the bytes of its image file, read from `filename`:
    /// the font of the decoded image's size, cut into glyphs of `tile_size`
    /// pixels, together with the texture data for it. `None` when the file's
    /// extension names no image format or the bytes do not decode in it.
    pub fn load_file_bytes(
        filename: &str,
        bytes: &[u8],
        tile_size: (u32, u32),
        explicit_background: Option<Rgb8>,
    ) -> (r: Option<(Font, Vec<u8>)>)
        requires
            tile_size.0 > 0,
            tile_size.1 > 0,
        ensures
            match decoded_file_rgba(filename@, bytes@) {
                None => r is None,
                Some((w, h, d)) => r matches Some((f, data)) && f.bitmap_file@ == filename@ && f.width
                    == w && f.height == h && f.tile_size == tile_size && f.explicit_background
                    == explicit_background && f.font_dimensions_glyphs == ((w / tile_size.0) as u32, (h
                    / tile_size.1) as u32) && data@ == texture_data(d, w as int, h as int, explicit_background),
            },
    {
        match decode_file_rgba(filename, bytes) {
            None => None,
            Some((w, h, d)) => {
                let mut f = Font::for_image(filename, tile_size, explicit_background, w, h);
                let data = f.prepare_texture(w, h, d);
                Some((f, data))
            },
        }
    }

    /// The texture data of this font, from the bytes of its image file (read
    /// from `bitmap_file`): the image's size is recorded and its texture data
    /// returned, as `prepare_texture` gives it. `None`, with the font
    /// unchanged, when the bytes do not decode.
    pub fn texture_from_file_bytes(&mut self, bytes: &[u8]) -> (r: Option<Vec<u8>>)
        ensures
            match decoded_file_rgba(old(self).bitmap_file@, bytes@) {
                None => r is None && *final(self) == *old(self),
                Some((w, h, d)) => r matches Some(data) && final(self).width == w && final(self).height
                    == h && final(self).bitmap_file == old(self).bitmap_file && final(self).tile_size
                    == old(self).tile_size && final(self).explicit_background == old(
                    self,
                ).explicit_background && final(self).font_dimensions_glyphs == old(
                    self,
                ).font_dimensions_glyphs && data@ == texture_data(
                    d,
                    w as int,
                    h as int,
                    old(self).explicit_background,
                ),
            },
    {
        match decode_file_rgba(self.bitmap_file.as_str(), bytes) {
            None => None,
            Some((w, h, d)) => Some(self.prepare_texture(w, h, d)),
        }
    }

    /// Loads a font from an image held in memory, such as an embedded
    /// resource: the font of the decoded image's size, cut into glyphs of
    /// `tile_size` pixels, together with the texture data for it. `None` when
    /// the bytes do not decode as an image.
    pub fn from_embedded(
        filename: &str,
        bytes: &[u8],
        tile_size: (u32, u32),
        explicit_background: Option<Rgb8>,
    ) -> (r: Option<(Font, Vec<u8>)>)
        requires
            tile_size.0 > 0,
            tile_size.1 > 0,
        ensures
            match decoded_rgba(bytes@) {
                None => r is None,
                Some((w, h, d)) => r matches Some((f, data)) && f.bitmap_file@ == filename@ && f.width
                    == w && f.height == h && f.tile_size == tile_size && f.explicit_background
                    == explicit_background && f.font_dimensions_glyphs == ((w / tile_size.0) as u32, (h
                    / tile_size.1) as u32) && data@ == texture_data(d, w as int, h as int, explicit_background),
            },
    {
        match decode_rgba(bytes) {
            None => None,
            Some((w, h, d)) => {
                let mut f = Font::for_image(filename, tile_size, explicit_background, w, h);
                let data = f.prepare_texture(w, h, d);
                Some((f, data))
            },
        }
    }
}

/// What `image::load_from_memory` decodes a byte buffer to, as RGBA: the
/// image's width, height and rows (top row first, four bytes per pixel), or
/// `None` when the bytes are not an image that the crate can read.
pub uninterp spec fn decoded_rgba(bytes: Seq<u8>) -> Option<(u32, u32, Seq<u8>)>;

/// Decodes an image held in memory with the `image` crate's
/// `load_from_memory`, converted with `to_rgba8`.
///
/// Trusted: the result is the decoding that `decoded_rgba` names for these
/// bytes (`None` exactly when decoding fails), and the RGBA data of a decoded
/// image holds four bytes for each of its `width * height` pixels, since
/// `to_rgba8` builds a new buffer of exactly that size.
#[verifier::external_body]
fn decode_rgba(bytes: &[u8]) -> (r: Option<(u32, u32, Vec<u8>)>)
    ensures
        r is None <==> decoded_rgba(bytes@) is None,
        r matches Some((w, h, d)) ==> decoded_rgba(bytes@) == Some((w, h, d@)) && d@.len() == 4
            * w * h,
{
    match image::load_from_memory(bytes) {
        Ok(img) => {
            let rgba = img.to_rgba8();
            let (w, h) = rgba.dimensions();
            Some((w, h, rgba.into_raw()))
        },
        Err(_) => None,
    }
}

/// What `image::load_from_memory_with_format` decodes `bytes` to, as RGBA,
/// with the format that `image::ImageFormat::from_path` names for the
/// extension of `path`: the image's width, height and rows (top row first,
/// four bytes per pixel), or `None` when the extension names no format or the
/// bytes do not decode in it.
pub uninterp spec fn decoded_file_rgba(path: Seq<char>, bytes: Seq<u8>) -> Option<(u32, u32, Seq<u8>)>;

/// Decodes the bytes of an image file as `image::open` does once the file is
/// read: the format from the path's extension (`ImageFormat::from_path`), then
/// `load_from_memory_with_format`, converted with `to_rgba8`.
///
/// Trusted: the result is the decoding that `decoded_file_rgba` names for this
/// path and these bytes (`None` exactly when either step fails), and the RGBA
/// data holds four bytes for each of the image's `width * height` pixels.
#[verifier::external_body]
fn decode_file_rgba(path: &str, bytes: &[u8]) -> (r: Option<(u32, u32, Vec<u8>)>)
    ensures
        r is None <==> decoded_file_rgba(path@, bytes@) is None,
        r matches Some((w, h, d)) ==> decoded_file_rgba(path@, bytes@) == Some((w, h, d@)) && d@.len()
            == 4 * w * h,
{
    let format = match image::ImageFormat::from_path(path) {
        Ok(f) => f,
        Err(_) => return None,
    };
    match image::load_from_memory_with_format(bytes, format) {
        Ok(img) => {
            let rgba = img.to_rgba8();
            let (w, h) = rgba.dimensions();
            Some((w, h, rgba.into_raw()))
        },
        Err(_) => None,
    }
}

/// Row `y` of an image `row_bytes` bytes wide, counted from the top, placed at
/// row `height - 1 - y`: the image turned upside down.
pub open spec fn flipped_rows(data: Seq<u8>, row_bytes: int, height: int) -> Seq<u8> {
    Seq::new(
        data.len(),
        |i: int| data[(height - 1 - i / row_bytes) * row_bytes + i % row_bytes],
    )
}

/// Flips an RGBA image of `width` x `height` pixels upside down, with the
/// `image` crate's `imageops::flip_vertical`.
///
/// Trusted: `flip_vertical` writes pixel (x, y) of its input to (x, height - 1
/// - y) of a new image of the same size, whose raw data, four bytes per pixel
/// and row after row, is returned.
#[verifier::external_body]
fn flip_vertical_rgba(width: u32, height: u32, data: Vec<u8>) -> (out: Vec<u8>)
    requires
        data@.len() == 4 * width * height,
    ensures
        out@ == flipped_rows(data@, 4 * width, height as int),
{
    let img = image::ImageBuffer::<image::Rgba<u8>, Vec<u8>>::from_raw(width, height, data).unwrap();
    image::imageops::flip_vertical(&img).into_raw()
}

/// Whether whole pixel `p` of RGBA data has colour `bg`.
pub open spec fn pixel_is(data: Seq<u8>, p: int, bg: Rgb8) -> bool {
    &&& 0 <= p < data.len() / 4
    &&& data[4 * p] == bg.r
    &&& data[4 * p + 1] == bg.g
    &&& data[4 * p + 2] == bg.b
}

/// RGBA data with every whole pixel of colour `bg` made fully transparent
/// black; other bytes unchanged.
pub open spec fn without_background(data: Seq<u8>, bg: Rgb8) -> Seq<u8> {
    Seq::new(data.len(), |i: int| if pixel_is(data, i / 4, bg) { 0u8 } else { data[i] })
}

/// The texture data of an image: turned upside down, then with the explicit
/// background removed.
pub open spec fn texture_data(rgba: Seq<u8>, width: int, height: int, bg: Option<Rgb8>) -> Seq<u8> {
    match bg {
        Some(c) => without_background(flipped_rows(rgba, 4 * width, height), c),
        None => flipped_rows(rgba, 4 * width, height),
    }
}

/// Makes every whole pixel of colour `bg` fully transparent black.
pub fn remove_background(data: &mut Vec<u8>, bg: Rgb8)
    ensures
        final(data)@ == without_background(old(data)@, bg),
{
    let ghost d0 = data@;
    let len = data.len() / 4;
    let mut i: usize = 0;
    while i < len
        invariant
            len == d0.len() / 4,
            data@.len() == d0.len(),
            i <= len,
            forall|k: int|
                0 <= k < d0.len() ==> #[trigger] data@[k] == if k / 4 < i {
                    without_background(d0, bg)[k]
                } else {
                    d0[k]
                },
        decreases len - i,
    {
        proof {
            assert(data.len() == data@.len());
        }
        let idx = i * 4;
        if data[idx] == bg.r && data[idx + 1] == bg.g && data[idx + 2] == bg.b {
            data.set(idx, 0);
            data.set(idx + 1, 0);
            data.set(idx + 2, 0);
            data.set(idx + 3, 0);
        }
        proof {
            assert forall|k: int| 0 <= k < d0.len() implies #[trigger] data@[k] == if k / 4 < i
                + 1 {
                without_background(d0, bg)[k]
            } else {
                d0[k]
            } by {
                if idx <= k < idx + 4 {
                    assert(k / 4 == i);
                } else if k < idx {
                    assert(k / 4 < i);
                } else {
                    assert(k / 4 > i);
                }
            }
        }
        i = i + 1;
    }
    proof {
        assert forall|k: int| 0 <= k < d0.len() implies #[trigger] data@[k] == without_background(
            d0,
            bg,
        )[k] by {
            if k / 4 >= len {
                assert(!pixel_is(d0, k / 4, bg));
            }
        }
        assert(data@ == without_background(d0, bg));
    }
}

/// Removing the background twice is removing it once.
pub proof fn background_removal_is_idempotent(data: Seq<u8>, bg: Rgb8)
    ensures
        without_background(without_background(data, bg), bg) == without_background(data, bg),
{
    let once = without_background(data, bg);
    let twice = without_background(once, bg);
    assert forall|i: int| 0 <= i < data.len() implies twice[i] == once[i] by {
        let p = i / 4;
        if pixel_is(once, p, bg) && !pixel_is(data, p, bg) {
            assert(once[4 * p] == data[4 * p] && once[4 * p + 1] == data[4 * p + 1] && once[4 * p
                + 2] == data[4 * p + 2]) by {
                assert((4 * p) / 4 == p && (4 * p + 1) / 4 == p && (4 * p + 2) / 4 == p);
            }
        }
    }
    assert(twice == once);
}

/// Removing a background touches exactly the pixels whose red, green and blue
/// bytes all equal the background's: all four bytes of such a pixel become 0,
/// and every other byte (of a pixel that differs in any of the three colour
/// bytes, or a trailing partial pixel) keeps its value.
pub proof fn background_removal_clears_exactly_matching_pixels(data: Seq<u8>, bg: Rgb8)
    ensures
        without_background(data, bg).len() == data.len(),
        forall|p: int, j: int|
            0 <= p < data.len() / 4 && 0 <= j < 4 ==> #[trigger] without_background(data, bg)[4 * p
                + j] == if data[4 * p] == bg.r && data[4 * p + 1] == bg.g && data[4 * p + 2]
                == bg.b {
                0u8
            } else {
                data[4 * p + j]
            },
        forall|i: int|
            4 * (data.len() / 4) <= i < data.len() ==> #[trigger] without_background(data, bg)[i]
                == data[i],
{
    assert forall|p: int, j: int| 0 <= p < data.len() / 4 && 0 <= j < 4 implies #[trigger] without_background(
        data,
        bg,
    )[4 * p + j] == if data[4 * p] == bg.r && data[4 * p + 1] == bg.g && data[4 * p + 2] == bg.b {
        0u8
    } else {
        data[4 * p + j]
    } by {
        assert((4 * p + j) / 4 == p);
        assert(4 * p + j < data.len());
    }
    assert forall|i: int| 4 * (data.len() / 4) <= i < data.len() implies #[trigger] without_background(
        data,
        bg,
    )[i] == data[i] by {
        assert(i / 4 >= data.len() / 4);
    }
}

/// The texture data of a font image: its RGBA rows turned upside down, with
/// the explicit background, if any, made transparent.
pub fn font_texture_data(width: u32, height: u32, rgba: Vec<u8>, bg: Option<Rgb8>) -> (data: Vec<u8>)
    requires
        rgba@.len() == 4 * width * height,
    ensures
        data@ == texture_data(rgba@, width as int, height as int, bg),
{
    let mut data = flip_vertical_rgba(width, height, rgba);
    match bg {
        Some(c) => remove_background(&mut data, c),
        None => {},
    }
    data
}

/// RGBA data with every whole pixel whose red, green and blue are all below
/// `min_val` made transparent (its alpha set to zero).
pub open spec fn dark_made_transparent(data: Seq<u8>, min_val: u8) -> Seq<u8> {
    Seq::new(
        data.len(),
        |i: int|
            {
                let p = i / 4;
                if i % 4 == 3 && 4 * p + 3 < data.len() && data[4 * p] < min_val && data[4 * p + 1]
                    < min_val && data[4 * p + 2] < min_val {
                    0u8
                } else {
                    data[i]
                }
            },
    )
}

/// The darkness below which an embedded font's pixels count as background.
pub const MIN_VAL: u8 = 10;

/// Makes the near-black pixels of an embedded font image transparent.
pub fn make_dark_transparent(data: &mut Vec<u8>)
    ensures
        final(data)@ == dark_made_transparent(old(data)@, MIN_VAL),
{
    let ghost d0 = data@;
    let len = data.len() / 4;
    let mut i: usize = 0;
    while i < len
        invariant
            len == d0.len() / 4,
            data@.len() == d0.len(),
            i <= len,
            forall|k: int|
                0 <= k < d0.len() ==> #[trigger] data@[k] == if k / 4 < i {
                    dark_made_transparent(d0, MIN_VAL)[k]
                } else {
                    d0[k]
                },
        decreases len - i,
    {
        proof {
            assert(data.len() == data@.len());
        }
        if data[i * 4] < MIN_VAL && data[i * 4 + 1] < MIN_VAL && data[i * 4 + 2] < MIN_VAL {
            data.set(i * 4 + 3, 0);
        }
        proof {
            assert forall|k: int| 0 <= k < d0.len() implies #[trigger] data@[k] == if k / 4 < i
                + 1 {
                dark_made_transparent(d0, MIN_VAL)[k]
            } else {
                d0[k]
            } by {
                if i * 4 <= k < i * 4 + 4 {
                    assert(k / 4 == i);
                    assert(k % 4 == k - 4 * i);
                } else if k < i * 4 {
                    assert(k / 4 < i);
                } else {
                    assert(k / 4 > i);
                }
            }
        }
        i = i + 1;
    }
    proof {
        assert forall|k: int| 0 <= k < d0.len() implies #[trigger] data@[k]
            == dark_made_transparent(d0, MIN_VAL)[k] by {
            if k / 4 >= len {
                assert(4 * (k / 4) + 3 >= d0.len());
            }
        }
        assert(data@ == dark_made_transparent(d0, MIN_VAL));
    }
}

} // verus!
