//! Grid arithmetic shared by the back-ends: where a glyph sits in its font
//! texture, where a console cell sits on the screen, and how the window is
//! divided into gutters and drawing area.
use vstd::prelude::*;

verus! {

/// The glyph grid of a font texture, as the renderers index it: `columns`
/// glyphs per row, `rows` rows, row numbers counted from the bottom of the
/// texture.
#[derive(Clone, Copy, PartialEq, Eq, Debug, Structural)]
pub struct FontScaler {
    pub columns: u16,
    pub rows: u16,
}

impl FontScaler {
    /// The grid of a font whose texture holds `glyphs.0` x `glyphs.1` glyphs,
    /// each count kept to 16 bits.
    pub fn new(glyphs: (u32, u32)) -> (s: FontScaler)
        ensures
            s.columns == glyphs.0 as u16,
            s.rows == glyphs.1 as u16,
    {
        FontScaler { columns: glyphs.0 as u16, rows: glyphs.1 as u16 }
    }

    /// The texture cell of glyph `glyph`: its column, and the row number of
    /// the cell's top edge, counted from the bottom (the bottom edge is one row
    /// lower).
    pub fn glyph_position(&self, glyph: u16) -> (cell: (u16, u16))
        requires
            self.columns > 0,
            glyph / self.columns < self.rows,
        ensures
            cell.0 == glyph % self.columns,
            cell.1 == self.rows - glyph / self.columns,
    {
        let glyph_x = glyph % self.columns;
        let glyph_y = self.rows - (glyph / self.columns);
        (glyph_x, glyph_y)
    }
}

/// The cell that `glyph_position` gives names the glyph again: counting rows
/// from the top, glyph = row * columns + column.
pub proof fn glyph_cell_names_glyph(s: FontScaler, glyph: u16)
    requires
        s.columns > 0,
        glyph / s.columns < s.rows,
    ensures
        glyph == (s.rows - (s.rows - glyph / s.columns)) * s.columns + glyph % s.columns,
        glyph % s.columns < s.columns,
{
    vstd::arithmetic::div_mod::lemma_fundamental_div_mod(glyph as int, s.columns as int);
    vstd::arithmetic::mul::lemma_mul_is_commutative(s.columns as int, glyph as int / s.columns as int);
    vstd::arithmetic::div_mod::lemma_mod_bound(glyph as int, s.columns as int);
}

/// Column and row (from the bottom) of cell `idx` of a sparse console `width`
/// cells wide.
pub fn sparse_tile_position(idx: usize, width: usize) -> (xy: (usize, usize))
    requires
        width > 0,
    ensures
        xy.0 == idx % width,
        xy.1 == idx / width,
        xy.1 * width + xy.0 == idx,
{
    proof {
        vstd::arithmetic::div_mod::lemma_fundamental_div_mod(idx as int, width as int);
        vstd::arithmetic::mul::lemma_mul_is_commutative(width as int, idx as int / width as int);
    }
    (idx % width, idx / width)
}

/// Index, in a simple console's cell list (bottom row first), of the tile-map
/// cell (x, y) counted from the top, on a console `size.0` x `size.1` cells.
pub fn flipped_tile_index(size: (u32, u32), x: u32, y: u32) -> (idx: usize)
    requires
        y < size.1,
        ((size.1 - 1 - y) * size.0 + x) <= u32::MAX,
    ensures
        idx == (size.1 - 1 - y) * size.0 + x,
{
    let flipped_y = (size.1 - 1) - y;
    assert(flipped_y * size.0 <= u32::MAX);
    ((flipped_y * size.0) + x) as usize
}

/// The tile-map cell, counted from the top, that shows sparse glyph `idx` of a
/// console `size.0` x `size.1` cells.
pub fn sparse_tile_point(size: (u32, u32), idx: u32) -> (p: (u32, u32))
    requires
        size.0 > 0,
        idx / size.0 < size.1,
    ensures
        p.0 == idx % size.0,
        p.1 == size.1 - idx / size.0 - 1,
{
    let x = idx % size.0;
    let y = size.1 - (idx / size.0);
    (x, y - 1)
}

/// A rectangle by its corners.
#[derive(Clone, Copy, PartialEq, Eq, Debug, Structural)]
pub struct Rect {
    pub x1: i32,
    pub y1: i32,
    pub x2: i32,
    pub y2: i32,
}

/// A sprite's destination with its y axis turned upside down on a console
/// `height` cells tall.
pub fn flip_destination(destination: Rect, height: u32) -> (r: Rect)
    requires
        height <= i32::MAX,
        i32::MIN <= height - destination.y1 <= i32::MAX,
        i32::MIN <= height - destination.y2 <= i32::MAX,
    ensures
        r == (Rect {
            y1: (height - destination.y2) as i32,
            y2: (height - destination.y1) as i32,
            ..destination
        }),
{
    let mut sd = destination;
    sd.y2 = height as i32 - destination.y1;
    sd.y1 = height as i32 - destination.y2;
    sd
}

/// The 256 glyph cells of a 16 x 16 font sheet, row by row: the pixel position
/// of each cell's corner.
pub fn font_sprite_grid(tile_size: (u32, u32)) -> (cells: Vec<(u32, u32)>)
    requires
        tile_size.0 * 16 <= u32::MAX,
        tile_size.1 * 16 <= u32::MAX,
    ensures
        cells@.len() == 256,
        forall|i: int|
            0 <= i < 256 ==> (#[trigger] cells@[i]).0 == (i % 16) * tile_size.0 && cells@[i].1 == (i
                / 16) * tile_size.1,
{
    let mut cells: Vec<(u32, u32)> = Vec::new();
    let mut y: u32 = 0;
    while y < 16
        invariant
            tile_size.0 * 16 <= u32::MAX,
            tile_size.1 * 16 <= u32::MAX,
            y <= 16,
            cells@.len() == 16 * y,
            forall|i: int|
                0 <= i < cells@.len() ==> (#[trigger] cells@[i]).0 == (i % 16) * tile_size.0
                    && cells@[i].1 == (i / 16) * tile_size.1,
        decreases 16 - y,
    {
        let mut x: u32 = 0;
        while x < 16
            invariant
                tile_size.0 * 16 <= u32::MAX,
                tile_size.1 * 16 <= u32::MAX,
                y < 16,
                x <= 16,
                cells@.len() == 16 * y + x,
                forall|i: int|
                    0 <= i < cells@.len() ==> (#[trigger] cells@[i]).0 == (i % 16) * tile_size.0
                        && cells@[i].1 == (i / 16) * tile_size.1,
            decreases 16 - x,
        {
            assert(x * tile_size.0 <= tile_size.0 * 16) by (nonlinear_arith)
                requires
                    x < 16,
            ;
            assert(y * tile_size.1 <= tile_size.1 * 16) by (nonlinear_arith)
                requires
                    y < 16,
            ;
            let ghost i = cells@.len() as int;
            cells.push((x * tile_size.0, y * tile_size.1));
            proof {
                vstd::arithmetic::div_mod::lemma_fundamental_div_mod_converse(i, 16, y as int, x as int);
            }
            x = x + 1;
        }
        y = y + 1;
    }
    cells
}

/// Console size, in characters, for a window of `pixels` logical pixels with
/// glyphs of `font_size` pixels.
pub fn chars_for_pixels(pixels: (u32, u32), font_size: (u32, u32)) -> (chars: (u32, u32))
    requires
        font_size.0 > 0,
        font_size.1 > 0,
    ensures
        chars.0 == pixels.0 / font_size.0,
        chars.1 == pixels.1 / font_size.1,
{
    (pixels.0 / font_size.0, pixels.1 / font_size.1)
}

/// How the window is divided: a gutter around the drawing area, split evenly
/// with any odd pixel going to the right and bottom, in physical pixels.
/// `resized` records a change of size that the consoles' rebuild has not yet
/// taken.
#[derive(Clone, Copy, Debug)]
pub struct ScreenScaler {
    pub resized: bool,
    pub desired_gutter: u32,
    pub physical_size: (u32, u32),
    pub gutter_left: u32,
    pub gutter_right: u32,
    pub gutter_top: u32,
    pub gutter_bottom: u32,
    pub available_width: u32,
    pub available_height: u32,
}

/// The scaler's gutters and drawing area are those of a total gutter of
/// `total_gutter` pixels.
pub open spec fn gutters_of(s: ScreenScaler, total_gutter: u32) -> bool {
    &&& s.gutter_left == total_gutter / 2 && s.gutter_top == total_gutter / 2
    &&& s.gutter_right == total_gutter - total_gutter / 2
    &&& s.gutter_bottom == total_gutter - total_gutter / 2
    &&& s.available_width == s.physical_size.0 - total_gutter
    &&& s.available_height == s.physical_size.1 - total_gutter
}

impl ScreenScaler {
    /// No gutter and no size.
    pub fn default() -> (s: ScreenScaler)
        ensures
            s == (ScreenScaler {
                resized: false,
                desired_gutter: 0,
                physical_size: (0, 0),
                gutter_left: 0,
                gutter_right: 0,
                gutter_top: 0,
                gutter_bottom: 0,
                available_width: 0,
                available_height: 0,
            }),
    {
        ScreenScaler {
            resized: false,
            desired_gutter: 0,
            physical_size: (0, 0),
            gutter_left: 0,
            gutter_right: 0,
            gutter_top: 0,
            gutter_bottom: 0,
            available_width: 0,
            available_height: 0,
        }
    }

    /// The window size to ask for: the drawing size plus one desired gutter in
    /// each direction.
    pub fn new_window_size(&self) -> (size: (u32, u32))
        requires
            self.physical_size.0 + self.desired_gutter <= u32::MAX,
            self.physical_size.1 + self.desired_gutter <= u32::MAX,
        ensures
            size == ((self.physical_size.0 + self.desired_gutter) as u32, (self.physical_size.1
                + self.desired_gutter) as u32),
    {
        (self.physical_size.0 + self.desired_gutter, self.physical_size.1 + self.desired_gutter)
    }

    /// Splits a total gutter of `total_gutter` pixels (the desired gutter at the
    /// current scale) around the drawing area.
    pub fn recalculate_coordinates(&mut self, total_gutter: u32)
        requires
            total_gutter <= old(self).physical_size.0,
            total_gutter <= old(self).physical_size.1,
        ensures
            gutters_of(*final(self), total_gutter),
            final(self).desired_gutter == old(self).desired_gutter,
            final(self).physical_size == old(self).physical_size,
            final(self).resized == old(self).resized,
    {
        let half_gutter = total_gutter / 2;
        if total_gutter % 2 == 0 {
            self.gutter_left = half_gutter;
            self.gutter_right = half_gutter;
            self.gutter_top = half_gutter;
            self.gutter_bottom = half_gutter;
        } else {
            self.gutter_left = half_gutter;
            self.gutter_right = half_gutter + 1;
            self.gutter_top = half_gutter;
            self.gutter_bottom = half_gutter + 1;
        }
        self.available_width = self.physical_size.0 - total_gutter;
        self.available_height = self.physical_size.1 - total_gutter;
    }

    /// A scaler for a `desired_width` x `desired_height` drawing area, whose
    /// desired gutter comes to `total_gutter` pixels at the starting scale.
    pub fn new(desired_gutter: u32, desired_width: u32, desired_height: u32, total_gutter: u32) -> (s:
        ScreenScaler)
        requires
            total_gutter <= desired_width,
            total_gutter <= desired_height,
        ensures
            s.desired_gutter == desired_gutter,
            s.physical_size == (desired_width, desired_height),
            gutters_of(s, total_gutter),
            !s.resized,
    {
        let mut result = ScreenScaler {
            resized: false,
            desired_gutter,
            physical_size: (desired_width, desired_height),
            gutter_left: 0,
            gutter_right: 0,
            gutter_top: 0,
            gutter_bottom: 0,
            available_width: 0,
            available_height: 0,
        };
        result.recalculate_coordinates(total_gutter);
        result
    }

    /// Resizes the drawing area to `width` x `height` physical pixels, and
    /// records the resize for the consoles' next rebuild.
    pub fn change_physical_size(&mut self, width: u32, height: u32, total_gutter: u32)
        requires
            total_gutter <= width,
            total_gutter <= height,
        ensures
            final(self).physical_size == (width, height),
            final(self).desired_gutter == old(self).desired_gutter,
            gutters_of(*final(self), total_gutter),
            final(self).resized,
    {
        self.physical_size = (width, height);
        self.recalculate_coordinates(total_gutter);
        self.resized = true;
    }

    /// Whether a resize is pending; the record is cleared, so that each resize
    /// is taken once.
    pub fn get_resized_and_reset(&mut self) -> (r: bool)
        ensures
            r == old(self).resized,
            *final(self) == (ScreenScaler { resized: false, ..*old(self) }),
    {
        let r = self.resized;
        self.resized = false;
        r
    }

    /// The pixel at the top-left corner of the drawing area.
    pub fn top_left_pixel(&self) -> (p: (u32, u32))
        ensures
            p == (self.gutter_left, self.gutter_top),
    {
        (self.gutter_left, self.gutter_top)
    }

    /// The pixel at the bottom-right corner of the drawing area.
    pub fn bottom_right_pixel(&self) -> (p: (u32, u32))
        requires
            self.gutter_right <= self.physical_size.0,
            self.gutter_bottom <= self.physical_size.1,
        ensures
            p == ((self.physical_size.0 - self.gutter_right) as u32, (self.physical_size.1
                - self.gutter_bottom) as u32),
    {
        (self.physical_size.0 - self.gutter_right, self.physical_size.1 - self.gutter_bottom)
    }
}

/// The gutters and the drawing area fill the window exactly, in both
/// directions.
pub proof fn gutters_fill_window(s: ScreenScaler, total_gutter: u32)
    requires
        gutters_of(s, total_gutter),
        total_gutter <= s.physical_size.0,
        total_gutter <= s.physical_size.1,
    ensures
        s.gutter_left + s.available_width + s.gutter_right == s.physical_size.0,
        s.gutter_top + s.available_height + s.gutter_bottom == s.physical_size.1,
        s.gutter_left <= s.gutter_right <= s.gutter_left + 1,
{
}


/// Size, in characters, of a text terminal showing `width_pixels` x
/// `height_pixels` pixels of 8x8 glyphs; each pixel count is first kept to 16
/// bits.
pub fn terminal_chars(width_pixels: u32, height_pixels: u32) -> (size: (u16, u16))
    ensures
        size.0 == (width_pixels as u16) / 8,
        size.1 == (height_pixels as u16) / 8,
{
    (width_pixels as u16 / 8, height_pixels as u16 / 8)
}

} // verus!
