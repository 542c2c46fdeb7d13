use bracket_terminal::grid::{
    chars_for_pixels, flip_destination, flipped_tile_index, font_sprite_grid, sparse_tile_point,
    sparse_tile_position, terminal_chars, FontScaler, Rect, ScreenScaler,
};

#[test]
fn glyph_positions_in_a_16_by_16_font() {
    let s = FontScaler::new((16, 16));
    assert_eq!(s.glyph_position(0), (0, 16));
    assert_eq!(s.glyph_position(65), (1, 12));
    assert_eq!(s.glyph_position(255), (15, 1));
}

#[test]
fn font_scaler_keeps_16_bits() {
    let s = FontScaler::new((65536 + 3, 2));
    assert_eq!((s.columns, s.rows), (3, 2));
}

#[test]
fn console_cell_positions() {
    assert_eq!(sparse_tile_position(83, 80), (3, 1));
    assert_eq!(flipped_tile_index((80, 50), 2, 0), 49 * 80 + 2);
    assert_eq!(sparse_tile_point((80, 50), 83), (3, 48));
    assert_eq!(chars_for_pixels((1280, 800), (8, 16)), (160, 50));
    assert_eq!(terminal_chars(640, 400), (80, 50));
}

#[test]
fn sprite_destination_is_flipped() {
    let r = flip_destination(Rect { x1: 1, y1: 2, x2: 5, y2: 10 }, 100);
    assert_eq!(r, Rect { x1: 1, y1: 90, x2: 5, y2: 98 });
}

#[test]
fn font_sheet_cells() {
    let cells = font_sprite_grid((8, 16));
    assert_eq!(cells.len(), 256);
    assert_eq!(cells[0], (0, 0));
    assert_eq!(cells[17], (8, 16));
    assert_eq!(cells[255], (120, 240));
}

#[test]
fn gutters_split_with_odd_pixel_right_and_bottom() {
    let s = ScreenScaler::new(5, 100, 80, 5);
    assert_eq!((s.gutter_left, s.gutter_right, s.gutter_top, s.gutter_bottom), (2, 3, 2, 3));
    assert_eq!((s.available_width, s.available_height), (95, 75));
    assert_eq!(s.new_window_size(), (105, 85));
    assert_eq!(s.top_left_pixel(), (2, 2));
    assert_eq!(s.bottom_right_pixel(), (97, 77));
    assert!(!s.resized);
    let mut s = s;
    s.change_physical_size(200, 100, 4);
    assert!(s.resized);
    assert!(s.get_resized_and_reset());
    assert!(!s.resized);
    assert!(!s.get_resized_and_reset());
    assert_eq!((s.gutter_left, s.gutter_right, s.available_width, s.available_height), (2, 2, 196, 96));
    let d = ScreenScaler::default();
    assert_eq!((d.physical_size, d.available_width), ((0, 0), 0));
}
