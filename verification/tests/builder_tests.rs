use bracket_terminal::builder::{
    BTermBuilder, BuilderError, CharacterTranslationMode, ConsoleType, InitHints, Rgb8,
};

type Builder = BTermBuilder<u8>;

#[test]
fn new_and_default_builders_are_empty_80x50() {
    let b = Builder::new();
    assert_eq!((b.width, b.height, b.tile_width, b.tile_height), (80, 50, 8, 8));
    assert_eq!(b.resource_path, "resources");
    assert!(b.title.is_none() && b.fonts.is_empty() && b.consoles.is_empty());
    assert_eq!(b.platform_hints, InitHints::new());
    let d: Builder = Default::default();
    assert_eq!((d.width, d.height), (80, 50));
}

#[test]
fn simple_and_vga_starting_points() {
    let b = Builder::simple80x50();
    assert_eq!(b.fonts.len(), 1);
    assert_eq!(b.fonts[0].path, "terminal8x8.png");
    assert_eq!(b.consoles[0].console_type, ConsoleType::SimpleConsole);
    assert_eq!((b.consoles[0].width, b.consoles[0].height), (80, 50));
    let v = Builder::vga(100, 40);
    assert_eq!((v.tile_width, v.tile_height), (8, 16));
    assert_eq!(v.fonts[0].path, "vga8x16.png");
    assert_eq!(v.fonts[0].dimensions, (8, 8));
    assert_eq!(v.consoles[0].font, "vga8x16.png");
    assert_eq!(v.consoles[0].translator, CharacterTranslationMode::Codepage437);
}

#[test]
fn simple_rejects_sizes_that_do_not_fit_u32() {
    assert!(matches!(Builder::simple(-1, 10), Err(BuilderError::NotConvertibleToU32)));
    assert!(matches!(Builder::simple(10, 1 << 33), Err(BuilderError::NotConvertibleToU32)));
    let b = Builder::simple(120, 70).unwrap();
    assert_eq!((b.width, b.height), (120, 70));
}

#[test]
fn build_plans_window_fonts_and_consoles() {
    let b = Builder::new()
        .with_dimensions(20, 10)
        .with_tile_dimensions(16, 16)
        .with_title("Roguelike")
        .with_resource_path("assets")
        .with_font("a.png", 8, 8)
        .with_font_bg("b.png", 16, 16, Rgb8 { r: 0, g: 0, b: 0 })
        .with_font("a.png", 12, 12)
        .with_simple_console(20, 10, "a.png")
        .with_sparse_console(20, 10, "b.png")
        .with_sprite_console(320, 160)
        .with_sprite_sheet(7)
        .with_vsync(false)
        .with_advanced_input(true);
    let plan = b.build();
    assert_eq!((plan.width_pixels, plan.height_pixels), (320, 160));
    assert_eq!(plan.title, "Roguelike");
    assert_eq!(plan.fonts.len(), 3);
    assert_eq!(plan.fonts[0].path, "assets/a.png");
    assert_eq!(plan.fonts[1].path, "assets/b.png");
    assert_eq!(plan.fonts[1].explicit_background, Some(Rgb8 { r: 0, g: 0, b: 0 }));
    // The later registration of a.png wins.
    assert_eq!(plan.consoles[0].font_slot, 2);
    assert_eq!(plan.consoles[1].font_slot, 1);
    assert_eq!(plan.consoles[2].console_type, ConsoleType::SpriteConsole);
    assert_eq!(plan.sprite_sheets, vec![7]);
    assert!(!plan.platform_hints.vsync);
    assert!(plan.advanced_input);
}

#[test]
fn build_without_title_uses_default_title() {
    let plan = Builder::simple80x50().build();
    assert_eq!(plan.title, "BTerm Window");
    assert_eq!((plan.width_pixels, plan.height_pixels), (640, 400));
    assert_eq!(plan.fonts[0].path, "resources/terminal8x8.png");
}

#[test]
fn hint_setters_change_only_their_hint() {
    let b = Builder::new().with_fullscreen(true).with_frame_sleep_ms(16).with_automatic_console_resize(true);
    assert!(b.platform_hints.fullscreen);
    assert!(b.platform_hints.vsync);
    assert_eq!(b.platform_hints.frame_sleep_ms, Some(16));
    assert!(b.platform_hints.resize_scaling);
    let b = b.with_simple8x8();
    assert_eq!(b.consoles[0].font, "terminal8x8.png");
    assert!(b.fonts.is_empty());
}
