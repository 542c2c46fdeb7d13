use bracket_terminal::backing::{
    check_console_backing, rebuild_consoles, render_consoles, BackingKind, ConsoleBacking,
    ConsoleKind, ConsoleLayer, DrawCall, RebuildCall,
};
use bracket_terminal::grid::ScreenScaler;
use bracket_terminal::zorder::ZTile;

fn layer(kind: ConsoleKind, width: u32, height: u32, font_index: usize, shader_index: usize) -> ConsoleLayer {
    ConsoleLayer {
        kind,
        width,
        height,
        font_index,
        shader_index,
        is_dirty: true,
        needs_resize_internal: false,
        z_items: Vec::new(),
        sprite_sheet: 0,
    }
}

#[test]
fn backings_are_made_once_per_console() {
    let consoles = vec![
        layer(ConsoleKind::Simple, 80, 50, 0, 0),
        layer(ConsoleKind::Sparse, 40, 25, 1, 1),
        layer(ConsoleKind::Flexi, 10, 10, 0, 4),
        layer(ConsoleKind::Sprite, 640, 480, 0, 5),
    ];
    let mut backings = Vec::new();
    check_console_backing(&mut backings, &consoles);
    assert_eq!(
        backings,
        vec![
            ConsoleBacking {
                kind: BackingKind::Simple,
                width: 80,
                height: 50,
                vertex_len: 52 * 80 * 50,
                index_len: 6 * 80 * 50,
            },
            ConsoleBacking { kind: BackingKind::Sparse, width: 40, height: 25, vertex_len: 0, index_len: 0 },
            ConsoleBacking { kind: BackingKind::Fancy, width: 10, height: 10, vertex_len: 0, index_len: 0 },
            ConsoleBacking { kind: BackingKind::Sprite, width: 640, height: 480, vertex_len: 0, index_len: 0 },
        ]
    );
    // Existing backings are kept as they are.
    let more = vec![layer(ConsoleKind::Simple, 1, 1, 0, 0)];
    check_console_backing(&mut backings, &more);
    assert_eq!(backings.len(), 4);
}

#[test]
fn dirty_consoles_are_rebuilt_and_sorted() {
    let mut consoles = vec![
        layer(ConsoleKind::Simple, 80, 50, 0, 0),
        layer(ConsoleKind::Sparse, 80, 50, 1, 1),
        layer(ConsoleKind::Flexi, 80, 50, 1, 4),
        layer(ConsoleKind::Sprite, 80, 50, 0, 5),
    ];
    consoles[0].needs_resize_internal = true;
    consoles[1].is_dirty = false;
    consoles[2].z_items = vec![ZTile { z_order: 2, id: 0 }, ZTile { z_order: 1, id: 1 }];
    consoles[3].sprite_sheet = 1;
    let mut backings = Vec::new();
    check_console_backing(&mut backings, &consoles);
    let fonts = vec![(16u32, 16u32), (32u32, 8u32)];
    let mut scaler = ScreenScaler::new(0, 640, 400, 0);
    let calls = rebuild_consoles(&mut scaler, &backings, &mut consoles, &fonts, 2);
    assert_eq!(
        calls,
        vec![
            RebuildCall::Simple {
                backing: 0,
                font_index: 0,
                glyph_columns: 16,
                glyph_rows: 16,
                needs_resize: true,
            },
            RebuildCall::Fancy { backing: 2, font_index: 1, glyph_columns: 32, glyph_rows: 8 },
            RebuildCall::Sprite { backing: 3, sprite_sheet: 1 },
        ]
    );
    assert!(!consoles[0].needs_resize_internal);
    assert_eq!(consoles[2].z_items[0].id, 1);
    // The window's resize flag reaches sparse consoles too.
    consoles[1].is_dirty = true;
    scaler.change_physical_size(800, 600, 0);
    let calls = rebuild_consoles(&mut scaler, &backings, &mut consoles, &fonts, 2);
    assert!(!scaler.resized);
    assert_eq!(
        calls[1],
        RebuildCall::Sparse {
            backing: 1,
            font_index: 1,
            glyph_columns: 32,
            glyph_rows: 8,
            needs_resize: true,
        }
    );
}

#[test]
fn every_backing_is_drawn_with_its_consoles_font_and_shader() {
    let mut consoles = vec![
        layer(ConsoleKind::Simple, 80, 50, 2, 0),
        layer(ConsoleKind::Sprite, 80, 50, 0, 5),
    ];
    consoles[1].sprite_sheet = 3;
    let mut backings = Vec::new();
    check_console_backing(&mut backings, &consoles);
    let draws = render_consoles(&backings, &consoles);
    assert_eq!(
        draws,
        vec![
            DrawCall::Glyphs { backing: 0, font_index: 2, shader_index: 0 },
            DrawCall::Sprites { backing: 1, sprite_sheet: 3, shader_index: 5 },
        ]
    );
}

#[test]
fn a_resize_is_taken_by_one_rebuild_only() {
    let mut consoles = vec![layer(ConsoleKind::Sparse, 80, 50, 0, 0)];
    let mut backings = Vec::new();
    check_console_backing(&mut backings, &consoles);
    let fonts = vec![(16u32, 16u32)];
    let mut scaler = ScreenScaler::new(0, 640, 400, 0);
    scaler.change_physical_size(800, 600, 0);
    let first = rebuild_consoles(&mut scaler, &backings, &mut consoles, &fonts, 0);
    assert_eq!(
        first,
        vec![RebuildCall::Sparse { backing: 0, font_index: 0, glyph_columns: 16, glyph_rows: 16, needs_resize: true }]
    );
    let second = rebuild_consoles(&mut scaler, &backings, &mut consoles, &fonts, 0);
    assert_eq!(
        second,
        vec![RebuildCall::Sparse { backing: 0, font_index: 0, glyph_columns: 16, glyph_rows: 16, needs_resize: false }]
    );
}

#[test]
fn checking_backings_twice_keeps_them() {
    let consoles = vec![layer(ConsoleKind::Simple, 2, 3, 0, 0), layer(ConsoleKind::Flexi, 4, 4, 0, 1)];
    let mut backings = Vec::new();
    check_console_backing(&mut backings, &consoles);
    let once = backings.clone();
    check_console_backing(&mut backings, &consoles);
    assert_eq!(backings, once);
}
