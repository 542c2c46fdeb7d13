//! The builder that collects a terminal's settings, fonts and console layers,
//! and turns them into the ordered plan from which the context is made.
//!
//! Builders are chained: each `with_...` call returns the builder with one
//! setting changed or one font, console or sprite sheet appended.
use vstd::prelude::*;

verus! {

/// An 8-bit RGB colour: a font's explicit background, the colour that is made
/// transparent when the font's texture is loaded.
#[derive(Clone, Copy, PartialEq, Eq, Debug, Structural)]
pub struct Rgb8 {
    pub r: u8,
    pub g: u8,
    pub b: u8,
}

/// How a console translates characters to glyphs.
#[derive(Clone, Copy, PartialEq, Eq, Debug, Structural)]
pub enum CharacterTranslationMode {
    Codepage437,
    Unicode,
}

/// Platform hints handed to the back-end's initialisation. The frame-rate cap
/// is held as the wait per frame in whole milliseconds.
#[derive(Clone, Copy, PartialEq, Eq, Debug, Structural)]
pub struct InitHints {
    pub vsync: bool,
    pub fullscreen: bool,
    pub frame_sleep_ms: Option<u64>,
    pub resize_scaling: bool,
}

impl InitHints {
    /// Vsync on, windowed, no frame cap, consoles scaled on resize.
    pub fn new() -> (h: InitHints)
        ensures
            h == default_hints(),
    {
        InitHints { vsync: true, fullscreen: false, frame_sleep_ms: None, resize_scaling: false }
    }
}

pub open spec fn default_hints() -> InitHints {
    InitHints { vsync: true, fullscreen: false, frame_sleep_ms: None, resize_scaling: false }
}

/// A font to be loaded: its file, its glyph size in pixels, and its explicit
/// background colour, if any.
pub struct BuilderFont {
    pub path: String,
    pub dimensions: (u32, u32),
    pub explicit_background: Option<Rgb8>,
}

/// The kind of a console layer to be made.
#[derive(Clone, Copy, PartialEq, Eq, Debug, Structural)]
pub enum ConsoleType {
    SimpleConsole,
    SparseConsole,
    /// A sparse console drawn without backgrounds.
    SparseConsoleNoBg,
    FancyConsole,
    SpriteConsole,
}

/// A console layer to be made. Sprite consoles use no font; their `font` is
/// empty and their translator is code page 437.
pub struct BuilderConsole {
    pub console_type: ConsoleType,
    pub width: u32,
    pub height: u32,
    pub font: String,
    pub translator: CharacterTranslationMode,
}

/// Collects everything needed to make a terminal. `S` is the sprite sheet type,
/// which the builder passes through untouched.
pub struct BTermBuilder<S> {
    pub width: u32,
    pub height: u32,
    pub title: Option<String>,
    pub resource_path: String,
    pub fonts: Vec<BuilderFont>,
    pub consoles: Vec<BuilderConsole>,
    pub tile_width: u32,
    pub tile_height: u32,
    pub platform_hints: InitHints,
    pub advanced_input: bool,
    pub sprite_sheets: Vec<S>,
}

/// Why a builder could not be made.
#[derive(Clone, Copy, PartialEq, Eq, Debug, Structural)]
pub enum BuilderError {
    /// A dimension was negative or larger than `u32::MAX`.
    NotConvertibleToU32,
}

pub open spec fn fits_u32(v: i64) -> bool {
    0 <= v <= u32::MAX
}

/// A builder holds no fonts, consoles or sprite sheets, has no title, looks for
/// resources in "resources", uses default hints, and has no event queue.
pub open spec fn is_empty_setup<S>(b: BTermBuilder<S>) -> bool {
    &&& b.title is None
    &&& b.resource_path@ == "resources"@
    &&& b.fonts@.len() == 0
    &&& b.consoles@.len() == 0
    &&& b.sprite_sheets@.len() == 0
    &&& b.platform_hints == default_hints()
    &&& !b.advanced_input
}

/// A builder of the given console size and tile size, otherwise empty.
pub open spec fn is_fresh<S>(b: BTermBuilder<S>, w: u32, h: u32, tw: u32, th: u32) -> bool {
    &&& is_empty_setup(b)
    &&& b.width == w && b.height == h
    &&& b.tile_width == tw && b.tile_height == th
}

/// `b` holds exactly one font, of the given file and an 8x8 glyph size, and one
/// code page 437 simple console of the given size in that font.
pub open spec fn is_single_layer<S>(b: BTermBuilder<S>, w: u32, h: u32, tw: u32, th: u32, font: Seq<char>) -> bool {
    &&& b.title is None
    &&& b.resource_path@ == "resources"@
    &&& b.sprite_sheets@.len() == 0
    &&& b.platform_hints == default_hints()
    &&& !b.advanced_input
    &&& b.width == w && b.height == h
    &&& b.tile_width == tw && b.tile_height == th
    &&& b.fonts@.len() == 1
    &&& b.fonts@[0].path@ == font
    &&& b.fonts@[0].dimensions == (8u32, 8u32)
    &&& b.fonts@[0].explicit_background is None
    &&& b.consoles@.len() == 1
    &&& b.consoles@[0].console_type == ConsoleType::SimpleConsole
    &&& b.consoles@[0].width == w && b.consoles@[0].height == h
    &&& b.consoles@[0].font@ == font
    &&& b.consoles@[0].translator == CharacterTranslationMode::Codepage437
}

/// `new` differs from `old` in nothing but what `same_except` leaves out.
pub open spec fn same_settings<S>(new: BTermBuilder<S>, old: BTermBuilder<S>) -> bool {
    &&& new.width == old.width && new.height == old.height
    &&& new.title == old.title
    &&& new.resource_path == old.resource_path
    &&& new.tile_width == old.tile_width && new.tile_height == old.tile_height
    &&& new.platform_hints == old.platform_hints
    &&& new.advanced_input == old.advanced_input
}

/// `new` holds the same fonts, consoles and sprite sheets as `old`.
pub open spec fn same_lists<S>(new: BTermBuilder<S>, old: BTermBuilder<S>) -> bool {
    &&& new.fonts == old.fonts
    &&& new.consoles == old.consoles
    &&& new.sprite_sheets == old.sprite_sheets
}

fn resources_path() -> (s: String)
    ensures
        s@ == "resources"@,
{
    "resources".to_owned()
}

fn empty_builder<S>(width: u32, height: u32, tile_width: u32, tile_height: u32) -> (b: BTermBuilder<S>)
    ensures
        is_fresh(b, width, height, tile_width, tile_height),
{
    BTermBuilder {
        width,
        height,
        title: None,
        resource_path: resources_path(),
        fonts: Vec::new(),
        consoles: Vec::new(),
        tile_width,
        tile_height,
        platform_hints: InitHints::new(),
        advanced_input: false,
        sprite_sheets: Vec::new(),
    }
}

fn single_layer<S>(width: u32, height: u32, tile_width: u32, tile_height: u32, font: &str) -> (b: BTermBuilder<S>)
    ensures
        is_single_layer(b, width, height, tile_width, tile_height, font@),
{
    let mut cb = empty_builder(width, height, tile_width, tile_height);
    cb.fonts.push(BuilderFont { path: font.to_owned(), dimensions: (8, 8), explicit_background: None });
    cb.consoles.push(
        BuilderConsole {
            console_type: ConsoleType::SimpleConsole,
            width,
            height,
            font: font.to_owned(),
            translator: CharacterTranslationMode::Codepage437,
        },
    );
    cb
}

impl<S> Default for BTermBuilder<S> {
    /// An 80x50 console of 8x8 tiles, with nothing registered.
    fn default() -> (b: BTermBuilder<S>)
        ensures
            is_fresh(b, 80, 50, 8, 8),
    {
        empty_builder(80, 50, 8, 8)
    }
}

impl<S> BTermBuilder<S> {
    /// An unconfigured starting point: 80x50 of 8x8 tiles, nothing registered.
    pub fn new() -> (b: Self)
        ensures
            is_fresh(b, 80, 50, 8, 8),
    {
        empty_builder(80, 50, 8, 8)
    }

    /// An 80x50 simple console in the 8x8 terminal font.
    pub fn simple80x50() -> (b: Self)
        ensures
            is_single_layer(b, 80, 50, 8, 8, "terminal8x8.png"@),
    {
        single_layer(80, 50, 8, 8, "terminal8x8.png")
    }

    /// A simple console of the given size in the 8x8 terminal font; fails when
    /// a dimension does not fit a `u32`.
    pub fn simple(width: i64, height: i64) -> (res: Result<Self, BuilderError>)
        ensures
            fits_u32(width) && fits_u32(height) <==> res is Ok,
            res matches Ok(b) ==> is_single_layer(
                b,
                width as u32,
                height as u32,
                8,
                8,
                "terminal8x8.png"@,
            ),
            res matches Err(e) ==> e == BuilderError::NotConvertibleToU32,
    {
        if width < 0 || width > u32::MAX as i64 || height < 0 || height > u32::MAX as i64 {
            return Err(BuilderError::NotConvertibleToU32);
        }
        Ok(single_layer(width as u32, height as u32, 8, 8, "terminal8x8.png"))
    }

    /// An 80x50 simple console in the 8x16 VGA font.
    pub fn vga80x50() -> (b: Self)
        ensures
            is_single_layer(b, 80, 50, 8, 16, "vga8x16.png"@),
    {
        single_layer(80, 50, 8, 16, "vga8x16.png")
    }

    /// A simple console of the given size in the 8x16 VGA font.
    pub fn vga(width: i64, height: i64) -> (b: Self)
        requires
            fits_u32(width),
            fits_u32(height),
        ensures
            is_single_layer(b, width as u32, height as u32, 8, 16, "vga8x16.png"@),
    {
        single_layer(width as u32, height as u32, 8, 16, "vga8x16.png")
    }

    /// Sets the size, in tiles, used to size the window.
    pub fn with_dimensions(self, width: i64, height: i64) -> (b: Self)
        requires
            fits_u32(width),
            fits_u32(height),
        ensures
            b.width == width && b.height == height,
            b.title == self.title && b.resource_path == self.resource_path,
            b.tile_width == self.tile_width && b.tile_height == self.tile_height,
            b.platform_hints == self.platform_hints && b.advanced_input == self.advanced_input,
            same_lists(b, self),
    {
        let mut s = self;
        s.width = width as u32;
        s.height = height as u32;
        s
    }

    /// Sets the tile size used to size the window.
    pub fn with_tile_dimensions(self, width: i64, height: i64) -> (b: Self)
        requires
            fits_u32(width),
            fits_u32(height),
        ensures
            b.tile_width == width && b.tile_height == height,
            b.width == self.width && b.height == self.height,
            b.title == self.title && b.resource_path == self.resource_path,
            b.platform_hints == self.platform_hints && b.advanced_input == self.advanced_input,
            same_lists(b, self),
    {
        let mut s = self;
        s.tile_width = width as u32;
        s.tile_height = height as u32;
        s
    }

    /// Sets the window title.
    pub fn with_title(self, title: &str) -> (b: Self)
        ensures
            b.title matches Some(t) && t@ == title@,
            b.width == self.width && b.height == self.height,
            b.resource_path == self.resource_path,
            b.tile_width == self.tile_width && b.tile_height == self.tile_height,
            b.platform_hints == self.platform_hints && b.advanced_input == self.advanced_input,
            same_lists(b, self),
    {
        let mut s = self;
        s.title = Some(title.to_owned());
        s
    }

    /// Sets the directory in which fonts are looked for.
    pub fn with_resource_path(self, path: &str) -> (b: Self)
        ensures
            b.resource_path@ == path@,
            b.width == self.width && b.height == self.height,
            b.title == self.title,
            b.tile_width == self.tile_width && b.tile_height == self.tile_height,
            b.platform_hints == self.platform_hints && b.advanced_input == self.advanced_input,
            same_lists(b, self),
    {
        let mut s = self;
        s.resource_path = path.to_owned();
        s
    }

    /// Registers a font with the given glyph size.
    pub fn with_font(self, font_path: &str, width: i64, height: i64) -> (b: Self)
        requires
            fits_u32(width),
            fits_u32(height),
        ensures
            same_settings(b, self),
            b.consoles == self.consoles && b.sprite_sheets == self.sprite_sheets,
            b.fonts@.len() == self.fonts@.len() + 1,
            forall|i: int| 0 <= i < self.fonts@.len() ==> b.fonts@[i] == self.fonts@[i],
            b.fonts@.last().path@ == font_path@,
            b.fonts@.last().dimensions == (width as u32, height as u32),
            b.fonts@.last().explicit_background is None,
    {
        let mut s = self;
        s.fonts.push(
            BuilderFont {
                path: font_path.to_owned(),
                dimensions: (width as u32, height as u32),
                explicit_background: None,
            },
        );
        s
    }

    /// Registers a font with the given glyph size whose `background` colour is
    /// to be made transparent.
    pub fn with_font_bg(self, font_path: &str, width: i64, height: i64, background: Rgb8) -> (b: Self)
        requires
            fits_u32(width),
            fits_u32(height),
        ensures
            same_settings(b, self),
            b.consoles == self.consoles && b.sprite_sheets == self.sprite_sheets,
            b.fonts@.len() == self.fonts@.len() + 1,
            forall|i: int| 0 <= i < self.fonts@.len() ==> b.fonts@[i] == self.fonts@[i],
            b.fonts@.last().path@ == font_path@,
            b.fonts@.last().dimensions == (width as u32, height as u32),
            b.fonts@.last().explicit_background == Some(background),
    {
        let mut s = self;
        s.fonts.push(
            BuilderFont {
                path: font_path.to_owned(),
                dimensions: (width as u32, height as u32),
                explicit_background: Some(background),
            },
        );
        s
    }

    fn push_console(self, console_type: ConsoleType, width: u32, height: u32, font: &str) -> (b: Self)
        ensures
            same_settings(b, self),
            b.fonts == self.fonts && b.sprite_sheets == self.sprite_sheets,
            b.consoles@.len() == self.consoles@.len() + 1,
            forall|i: int| 0 <= i < self.consoles@.len() ==> b.consoles@[i] == self.consoles@[i],
            b.consoles@.last().console_type == console_type,
            b.consoles@.last().width == width && b.consoles@.last().height == height,
            b.consoles@.last().font@ == font@,
            b.consoles@.last().translator == CharacterTranslationMode::Codepage437,
    {
        let mut s = self;
        s.consoles.push(
            BuilderConsole {
                console_type,
                width,
                height,
                font: font.to_owned(),
                translator: CharacterTranslationMode::Codepage437,
            },
        );
        s
    }

    /// Adds a simple console layer drawn in the named font.
    pub fn with_simple_console(self, width: i64, height: i64, font: &str) -> (b: Self)
        requires
            fits_u32(width),
            fits_u32(height),
        ensures
            same_settings(b, self),
            b.fonts == self.fonts && b.sprite_sheets == self.sprite_sheets,
            b.consoles@.len() == self.consoles@.len() + 1,
            forall|i: int| 0 <= i < self.consoles@.len() ==> b.consoles@[i] == self.consoles@[i],
            b.consoles@.last().console_type == ConsoleType::SimpleConsole,
            b.consoles@.last().width == width && b.consoles@.last().height == height,
            b.consoles@.last().font@ == font@,
            b.consoles@.last().translator == CharacterTranslationMode::Codepage437,
    {
        self.push_console(ConsoleType::SimpleConsole, width as u32, height as u32, font)
    }

    /// Adds a simple console of the builder's size in the 8x8 terminal font,
    /// without registering that font.
    pub fn with_simple8x8(self) -> (b: Self)
        ensures
            same_settings(b, self),
            b.fonts == self.fonts && b.sprite_sheets == self.sprite_sheets,
            b.consoles@.len() == self.consoles@.len() + 1,
            forall|i: int| 0 <= i < self.consoles@.len() ==> b.consoles@[i] == self.consoles@[i],
            b.consoles@.last().console_type == ConsoleType::SimpleConsole,
            b.consoles@.last().width == self.width && b.consoles@.last().height == self.height,
            b.consoles@.last().font@ == "terminal8x8.png"@,
            b.consoles@.last().translator == CharacterTranslationMode::Codepage437,
    {
        let w = self.width;
        let h = self.height;
        self.push_console(ConsoleType::SimpleConsole, w, h, "terminal8x8.png")
    }

    /// Adds a sparse console layer drawn in the named font.
    pub fn with_sparse_console(self, width: i64, height: i64, font: &str) -> (b: Self)
        requires
            fits_u32(width),
            fits_u32(height),
        ensures
            same_settings(b, self),
            b.fonts == self.fonts && b.sprite_sheets == self.sprite_sheets,
            b.consoles@.len() == self.consoles@.len() + 1,
            forall|i: int| 0 <= i < self.consoles@.len() ==> b.consoles@[i] == self.consoles@[i],
            b.consoles@.last().console_type == ConsoleType::SparseConsole,
            b.consoles@.last().width == width && b.consoles@.last().height == height,
            b.consoles@.last().font@ == font@,
            b.consoles@.last().translator == CharacterTranslationMode::Codepage437,
    {
        self.push_console(ConsoleType::SparseConsole, width as u32, height as u32, font)
    }

    /// Adds a sparse console layer, drawn without backgrounds, in the named
    /// font.
    pub fn with_sparse_console_no_bg(self, width: i64, height: i64, font: &str) -> (b: Self)
        requires
            fits_u32(width),
            fits_u32(height),
        ensures
            same_settings(b, self),
            b.fonts == self.fonts && b.sprite_sheets == self.sprite_sheets,
            b.consoles@.len() == self.consoles@.len() + 1,
            forall|i: int| 0 <= i < self.consoles@.len() ==> b.consoles@[i] == self.consoles@[i],
            b.consoles@.last().console_type == ConsoleType::SparseConsoleNoBg,
            b.consoles@.last().width == width && b.consoles@.last().height == height,
            b.consoles@.last().font@ == font@,
            b.consoles@.last().translator == CharacterTranslationMode::Codepage437,
    {
        self.push_console(ConsoleType::SparseConsoleNoBg, width as u32, height as u32, font)
    }

    /// Adds a fancy console layer (free glyph positions, rotation, scale) drawn
    /// in the named font.
    pub fn with_fancy_console(self, width: i64, height: i64, font: &str) -> (b: Self)
        requires
            fits_u32(width),
            fits_u32(height),
        ensures
            same_settings(b, self),
            b.fonts == self.fonts && b.sprite_sheets == self.sprite_sheets,
            b.consoles@.len() == self.consoles@.len() + 1,
            forall|i: int| 0 <= i < self.consoles@.len() ==> b.consoles@[i] == self.consoles@[i],
            b.consoles@.last().console_type == ConsoleType::FancyConsole,
            b.consoles@.last().width == width && b.consoles@.last().height == height,
            b.consoles@.last().font@ == font@,
            b.consoles@.last().translator == CharacterTranslationMode::Codepage437,
    {
        self.push_console(ConsoleType::FancyConsole, width as u32, height as u32, font)
    }

    /// Adds a sprite console layer.
    pub fn with_sprite_console(self, width: i64, height: i64) -> (b: Self)
        requires
            fits_u32(width),
            fits_u32(height),
        ensures
            same_settings(b, self),
            b.fonts == self.fonts && b.sprite_sheets == self.sprite_sheets,
            b.consoles@.len() == self.consoles@.len() + 1,
            forall|i: int| 0 <= i < self.consoles@.len() ==> b.consoles@[i] == self.consoles@[i],
            b.consoles@.last().console_type == ConsoleType::SpriteConsole,
            b.consoles@.last().width == width && b.consoles@.last().height == height,
            b.consoles@.last().font@ == ""@,
    {
        self.push_console(ConsoleType::SpriteConsole, width as u32, height as u32, "")
    }

    /// Sets the vsync hint.
    pub fn with_vsync(self, vsync: bool) -> (b: Self)
        ensures
            b.platform_hints == (InitHints { vsync, ..self.platform_hints }),
            b.width == self.width && b.height == self.height,
            b.title == self.title && b.resource_path == self.resource_path,
            b.tile_width == self.tile_width && b.tile_height == self.tile_height,
            b.advanced_input == self.advanced_input,
            same_lists(b, self),
    {
        let mut s = self;
        s.platform_hints.vsync = vsync;
        s
    }

    /// Sets the full-screen hint.
    pub fn with_fullscreen(self, fullscreen: bool) -> (b: Self)
        ensures
            b.platform_hints == (InitHints { fullscreen, ..self.platform_hints }),
            b.width == self.width && b.height == self.height,
            b.title == self.title && b.resource_path == self.resource_path,
            b.tile_width == self.tile_width && b.tile_height == self.tile_height,
            b.advanced_input == self.advanced_input,
            same_lists(b, self),
    {
        let mut s = self;
        s.platform_hints.fullscreen = fullscreen;
        s
    }

    /// Replaces all the platform hints.
    pub fn with_platform_specific(self, hints: InitHints) -> (b: Self)
        ensures
            b.platform_hints == hints,
            b.width == self.width && b.height == self.height,
            b.title == self.title && b.resource_path == self.resource_path,
            b.tile_width == self.tile_width && b.tile_height == self.tile_height,
            b.advanced_input == self.advanced_input,
            same_lists(b, self),
    {
        let mut s = self;
        s.platform_hints = hints;
        s
    }

    /// Caps the frame rate by waiting `frame_sleep_ms` milliseconds per frame.
    pub fn with_frame_sleep_ms(self, frame_sleep_ms: u64) -> (b: Self)
        ensures
            b.platform_hints == (InitHints {
                frame_sleep_ms: Some(frame_sleep_ms),
                ..self.platform_hints
            }),
            b.width == self.width && b.height == self.height,
            b.title == self.title && b.resource_path == self.resource_path,
            b.tile_width == self.tile_width && b.tile_height == self.tile_height,
            b.advanced_input == self.advanced_input,
            same_lists(b, self),
    {
        let mut s = self;
        s.platform_hints.frame_sleep_ms = Some(frame_sleep_ms);
        s
    }

    /// Turns the input event queue on or off.
    pub fn with_advanced_input(self, advanced_input: bool) -> (b: Self)
        ensures
            b.advanced_input == advanced_input,
            b.width == self.width && b.height == self.height,
            b.title == self.title && b.resource_path == self.resource_path,
            b.tile_width == self.tile_width && b.tile_height == self.tile_height,
            b.platform_hints == self.platform_hints,
            same_lists(b, self),
    {
        let mut s = self;
        s.advanced_input = advanced_input;
        s
    }

    /// Makes a window resize change the consoles' size instead of scaling them.
    pub fn with_automatic_console_resize(self, resize_scaling: bool) -> (b: Self)
        ensures
            b.platform_hints == (InitHints { resize_scaling, ..self.platform_hints }),
            b.width == self.width && b.height == self.height,
            b.title == self.title && b.resource_path == self.resource_path,
            b.tile_width == self.tile_width && b.tile_height == self.tile_height,
            b.advanced_input == self.advanced_input,
            same_lists(b, self),
    {
        let mut s = self;
        s.platform_hints.resize_scaling = resize_scaling;
        s
    }

    /// Registers a sprite sheet.
    pub fn with_sprite_sheet(self, ss: S) -> (b: Self)
        ensures
            same_settings(b, self),
            b.fonts == self.fonts && b.consoles == self.consoles,
            b.sprite_sheets@ == self.sprite_sheets@.push(ss),
    {
        let mut s = self;
        s.sprite_sheets.push(ss);
        s
    }
}


/// A font to load, in registration order: its full path, glyph size and
/// explicit background.
pub struct FontLoad {
    pub path: String,
    pub dimensions: (u32, u32),
    pub explicit_background: Option<Rgb8>,
}

/// A console to make and register, in registration order. `font_slot` is the
/// position, in the plan's font list, of the font the console is drawn with
/// (zero for a sprite console, which uses none).
#[derive(Clone, Copy, PartialEq, Eq, Debug, Structural)]
pub struct ConsoleRegistration {
    pub console_type: ConsoleType,
    pub width: u32,
    pub height: u32,
    pub font_slot: usize,
    pub translator: CharacterTranslationMode,
}

/// Everything the context is made from, in the order it is registered: the
/// window, then the fonts, then the sprite sheets, then the consoles, then the
/// event queue switch.
pub struct BuildPlan<S> {
    pub width_pixels: u32,
    pub height_pixels: u32,
    pub title: String,
    pub platform_hints: InitHints,
    pub fonts: Vec<FontLoad>,
    pub sprite_sheets: Vec<S>,
    pub consoles: Vec<ConsoleRegistration>,
    pub advanced_input: bool,
}

/// Position of the last font registered under `name`, or -1 when there is none:
/// fonts are looked up by path, and a later registration of a path replaces an
/// earlier one.
pub open spec fn font_slot(fonts: Seq<BuilderFont>, name: Seq<char>) -> int
    decreases fonts.len(),
{
    if fonts.len() == 0 {
        -1
    } else if fonts.last().path@ == name {
        fonts.len() - 1
    } else {
        font_slot(fonts.drop_last(), name)
    }
}

/// Every console that is drawn with a font names a registered font.
pub open spec fn fonts_cover_consoles<S>(b: BTermBuilder<S>) -> bool {
    forall|i: int|
        0 <= i < b.consoles@.len() && (#[trigger] b.consoles@[i]).console_type
            != ConsoleType::SpriteConsole ==> font_slot(b.fonts@, b.consoles@[i].font@) >= 0
}

/// The window of the built context fits a `u32` in both directions.
pub open spec fn window_fits<S>(b: BTermBuilder<S>) -> bool {
    &&& b.width * b.tile_width <= u32::MAX
    &&& b.height * b.tile_height <= u32::MAX
}

/// The full path of a resource file.
pub open spec fn resource_file(dir: Seq<char>, name: Seq<char>) -> Seq<char> {
    dir + "/"@ + name
}

proof fn lemma_font_slot_bounds(fonts: Seq<BuilderFont>, name: Seq<char>)
    ensures
        -1 <= font_slot(fonts, name) < fonts.len(),
        font_slot(fonts, name) >= 0 ==> fonts[font_slot(fonts, name)].path@ == name,
    decreases fonts.len(),
{
    if fonts.len() > 0 {
        lemma_font_slot_bounds(fonts.drop_last(), name);
    }
}

/// Finds the last font registered under `name`.
fn find_font_slot(fonts: &Vec<BuilderFont>, name: &String) -> (slot: Option<usize>)
    ensures
        slot matches Some(k) ==> k == font_slot(fonts@, name@),
        slot is None ==> font_slot(fonts@, name@) == -1,
{
    let mut k: usize = fonts.len();
    assert(fonts@.subrange(0, k as int) == fonts@);
    while k > 0
        invariant
            k <= fonts@.len(),
            font_slot(fonts@, name@) == font_slot(fonts@.subrange(0, k as int), name@),
        decreases k,
    {
        let ghost prefix = fonts@.subrange(0, k as int);
        assert(prefix.drop_last() == fonts@.subrange(0, k - 1));
        assert(prefix.last() == fonts@[k - 1]);
        if fonts[k - 1].path == *name {
            return Some(k - 1);
        }
        k = k - 1;
    }
    assert(fonts@.subrange(0, 0).len() == 0);
    None
}

impl<S> BTermBuilder<S> {
    /// Turns the settings into the plan from which the context is made: the
    /// window measures the console size times the tile size, titled "BTerm
    /// Window" unless a title was set; each font is loaded from
    /// `resource_path/file`; each console is registered with the last font
    /// registered under its font's file.
    pub fn build(self) -> (plan: BuildPlan<S>)
        requires
            window_fits(self),
            fonts_cover_consoles(self),
        ensures
            plan.width_pixels == self.width * self.tile_width,
            plan.height_pixels == self.height * self.tile_height,
            plan.title@ == match self.title {
                Some(t) => t@,
                None => "BTerm Window"@,
            },
            plan.platform_hints == self.platform_hints,
            plan.advanced_input == self.advanced_input,
            plan.sprite_sheets@ == self.sprite_sheets@,
            plan.fonts@.len() == self.fonts@.len(),
            forall|i: int|
                0 <= i < self.fonts@.len() ==> {
                    let f = #[trigger] self.fonts@[i];
                    &&& plan.fonts@[i].path@ == resource_file(self.resource_path@, f.path@)
                    &&& plan.fonts@[i].dimensions == f.dimensions
                    &&& plan.fonts@[i].explicit_background == f.explicit_background
                },
            plan.consoles@.len() == self.consoles@.len(),
            forall|i: int|
                0 <= i < self.consoles@.len() ==> {
                    let c = #[trigger] self.consoles@[i];
                    &&& plan.consoles@[i].console_type == c.console_type
                    &&& plan.consoles@[i].width == c.width
                    &&& plan.consoles@[i].height == c.height
                    &&& plan.consoles@[i].translator == c.translator
                    &&& plan.consoles@[i].font_slot == if c.console_type
                        == ConsoleType::SpriteConsole {
                        0
                    } else {
                        font_slot(self.fonts@, c.font@)
                    }
                },
    {
        let width_pixels = self.width * self.tile_width;
        let height_pixels = self.height * self.tile_height;
        let title = match self.title {
            Some(t) => t,
            None => "BTerm Window".to_owned(),
        };
        let mut fonts: Vec<FontLoad> = Vec::new();
        let mut i: usize = 0;
        while i < self.fonts.len()
            invariant
                i <= self.fonts@.len(),
                fonts@.len() == i,
                forall|j: int|
                    0 <= j < i ==> {
                        let f = #[trigger] self.fonts@[j];
                        &&& fonts@[j].path@ == resource_file(self.resource_path@, f.path@)
                        &&& fonts@[j].dimensions == f.dimensions
                        &&& fonts@[j].explicit_background == f.explicit_background
                    },
            decreases self.fonts@.len() - i,
        {
            let f = &self.fonts[i];
            let mut path = self.resource_path.clone();
            path.append("/");
            path.append(f.path.as_str());
            fonts.push(
                FontLoad {
                    path,
                    dimensions: f.dimensions,
                    explicit_background: f.explicit_background,
                },
            );
            i = i + 1;
        }
        let mut consoles: Vec<ConsoleRegistration> = Vec::new();
        let mut k: usize = 0;
        while k < self.consoles.len()
            invariant
                fonts_cover_consoles(self),
                k <= self.consoles@.len(),
                consoles@.len() == k,
                forall|j: int|
                    0 <= j < k ==> {
                        let c = #[trigger] self.consoles@[j];
                        &&& consoles@[j].console_type == c.console_type
                        &&& consoles@[j].width == c.width
                        &&& consoles@[j].height == c.height
                        &&& consoles@[j].translator == c.translator
                        &&& consoles@[j].font_slot == if c.console_type
                            == ConsoleType::SpriteConsole {
                            0
                        } else {
                            font_slot(self.fonts@, c.font@)
                        }
                    },
            decreases self.consoles@.len() - k,
        {
            let c = &self.consoles[k];
            let slot: usize = match c.console_type {
                ConsoleType::SpriteConsole => 0,
                _ => {
                    assert(font_slot(self.fonts@, self.consoles@[k as int].font@) >= 0);
                    match find_font_slot(&self.fonts, &c.font) {
                        Some(s) => s,
                        None => {
                            assert(false);
                            0
                        },
                    }
                },
            };
            consoles.push(
                ConsoleRegistration {
                    console_type: c.console_type,
                    width: c.width,
                    height: c.height,
                    font_slot: slot,
                    translator: c.translator,
                },
            );
            k = k + 1;
        }
        BuildPlan {
            width_pixels,
            height_pixels,
            title,
            platform_hints: self.platform_hints,
            fonts,
            sprite_sheets: self.sprite_sheets,
            consoles,
            advanced_input: self.advanced_input,
        }
    }
}


impl<S> BTermBuilder<S> {
    /// Whether every console drawn with a font names a registered font, as
    /// `build` requires.
    pub fn consoles_have_fonts(&self) -> (r: bool)
        ensures
            r == fonts_cover_consoles(*self),
    {
        let mut i: usize = 0;
        while i < self.consoles.len()
            invariant
                i <= self.consoles@.len(),
                forall|j: int|
                    0 <= j < i && (#[trigger] self.consoles@[j]).console_type
                        != ConsoleType::SpriteConsole ==> font_slot(self.fonts@, self.consoles@[j].font@)
                        >= 0,
            decreases self.consoles@.len() - i,
        {
            let c = &self.consoles[i];
            match c.console_type {
                ConsoleType::SpriteConsole => {},
                _ => {
                    if find_font_slot(&self.fonts, &c.font).is_none() {
                        return false;
                    }
                },
            }
            i = i + 1;
        }
        true
    }
}

} // verus!
