//! Console backings of the GPU back-ends.
//!
//! Each console layer is drawn through a backing: a vertex buffer of the kind
//! that fits the console. Once per frame the back-end makes sure that backings
//! exist, rebuilds the backings of dirty consoles, and draws every backing with
//! its console's font (or sprite sheet) and shader. The functions here decide
//! all of that; the back-end carries out the GPU work that each decision names.
use vstd::prelude::*;
use crate::zorder::{ZTile, sort_by_z_order, stable_z_sort_of};
use crate::quad::simple_capacities;
use crate::grid::ScreenScaler;

verus! {

/// The kind of a console layer.
#[derive(Clone, Copy, PartialEq, Eq, Debug, Structural)]
pub enum ConsoleKind {
    Simple,
    Sparse,
    /// A fancy console: glyphs with free positions, rotation and scale.
    Flexi,
    Sprite,
    /// A console type that the GPU back-ends do not know.
    Other,
}

/// The kind of a backing.
#[derive(Clone, Copy, PartialEq, Eq, Debug, Structural)]
pub enum BackingKind {
    Simple,
    Sparse,
    Fancy,
    Sprite,
}

/// A backing as the decisions see it: its kind, the console size it was made
/// for, and the lengths its vertex buffer (in floats) and index buffer were
/// made with.
#[derive(Clone, Copy, PartialEq, Eq, Debug, Structural)]
pub struct ConsoleBacking {
    pub kind: BackingKind,
    pub width: usize,
    pub height: usize,
    pub vertex_len: usize,
    pub index_len: usize,
}

/// What the back-end reads of a console layer. `z_items` holds the glyphs of a
/// fancy console or the sprites of a sprite console, by z order and list
/// position.
pub struct ConsoleLayer {
    pub kind: ConsoleKind,
    pub width: u32,
    pub height: u32,
    pub font_index: usize,
    pub shader_index: usize,
    pub is_dirty: bool,
    pub needs_resize_internal: bool,
    pub z_items: Vec<ZTile>,
    pub sprite_sheet: usize,
}

/// The backing kind that draws a console kind, if any.
pub open spec fn backing_kind_for(kind: ConsoleKind) -> Option<BackingKind> {
    match kind {
        ConsoleKind::Simple => Some(BackingKind::Simple),
        ConsoleKind::Sparse => Some(BackingKind::Sparse),
        ConsoleKind::Flexi => Some(BackingKind::Fancy),
        ConsoleKind::Sprite => Some(BackingKind::Sprite),
        ConsoleKind::Other => None,
    }
}

/// The buffer lengths a new backing of a console is made with: a simple
/// console's buffers are filled out to thirteen floats per vertex, four
/// vertices and six indices per cell; the other backings start empty.
pub open spec fn initial_buffer_lens(c: ConsoleLayer) -> (usize, usize) {
    if c.kind == ConsoleKind::Simple {
        ((52 * c.width * c.height) as usize, (6 * c.width * c.height) as usize)
    } else {
        (0, 0)
    }
}

/// A simple console's buffer lengths fit in memory sizes.
pub open spec fn buffers_fit(c: ConsoleLayer) -> bool {
    c.kind == ConsoleKind::Simple ==> 13 * c.width * c.height * 4 <= usize::MAX
}

/// The backing made for a console.
pub open spec fn backing_for(c: ConsoleLayer) -> ConsoleBacking {
    ConsoleBacking {
        kind: backing_kind_for(c.kind).unwrap(),
        width: c.width as usize,
        height: c.height as usize,
        vertex_len: initial_buffer_lens(c).0,
        index_len: initial_buffer_lens(c).1,
    }
}

/// The backings after a check: one per console, made for it, when there were
/// none; otherwise the backings as they were.
pub open spec fn backings_after_check(
    backings: Seq<ConsoleBacking>,
    consoles: Seq<ConsoleLayer>,
) -> Seq<ConsoleBacking> {
    if backings.len() == 0 {
        Seq::new(consoles.len(), |i: int| backing_for(consoles[i]))
    } else {
        backings
    }
}

/// Checking the backings a second time against the same consoles changes
/// nothing: the same number of backings, each the same.
pub proof fn backing_check_is_idempotent(backings: Seq<ConsoleBacking>, consoles: Seq<ConsoleLayer>)
    ensures
        backings_after_check(backings_after_check(backings, consoles), consoles)
            == backings_after_check(backings, consoles),
{
    let once = backings_after_check(backings, consoles);
    if backings.len() == 0 && consoles.len() == 0 {
        assert(once =~= Seq::<ConsoleBacking>::empty());
        assert(backings_after_check(once, consoles) =~= once);
    }
}

/// Makes the backings when there are none yet: one per console, in console
/// order, of the kind that draws the console and sized to it, with buffers of
/// the lengths `initial_buffer_lens` gives. When backings exist nothing
/// changes.
pub fn check_console_backing(backings: &mut Vec<ConsoleBacking>, consoles: &Vec<ConsoleLayer>)
    requires
        old(backings)@.len() == 0 ==> forall|i: int|
            0 <= i < consoles@.len() ==> (#[trigger] consoles@[i]).kind != ConsoleKind::Other
                && buffers_fit(consoles@[i]),
    ensures
        old(backings)@.len() == 0 ==> final(backings)@.len() == consoles@.len() && forall|i: int|
            0 <= i < consoles@.len() ==> #[trigger] final(backings)@[i] == backing_for(
                consoles@[i],
            ),
        old(backings)@.len() != 0 ==> final(backings)@ == old(backings)@,
        final(backings)@ == backings_after_check(old(backings)@, consoles@),
{
    if backings.len() == 0 {
        let mut i: usize = 0;
        while i < consoles.len()
            invariant
                old(backings)@.len() == 0,
                forall|j: int|
                    0 <= j < consoles@.len() ==> (#[trigger] consoles@[j]).kind != ConsoleKind::Other
                        && buffers_fit(consoles@[j]),
                i <= consoles@.len(),
                backings@.len() == i,
                forall|j: int| 0 <= j < i ==> #[trigger] backings@[j] == backing_for(consoles@[j]),
            decreases consoles@.len() - i,
        {
            let c = &consoles[i];
            let kind = match c.kind {
                ConsoleKind::Simple => BackingKind::Simple,
                ConsoleKind::Sparse => BackingKind::Sparse,
                ConsoleKind::Flexi => BackingKind::Fancy,
                ConsoleKind::Sprite => BackingKind::Sprite,
                ConsoleKind::Other => {
                    assert(false);
                    BackingKind::Simple
                },
            };
            let (vertex_len, index_len) = if c.kind == ConsoleKind::Simple {
                assert(13 * c.width * c.height * 4 == 13 * (c.width as usize) * (c.height as usize) * 4);
                let caps = simple_capacities(c.width as usize, c.height as usize);
                assert(52 * c.width * c.height == 13 * c.width * c.height * 4) by (nonlinear_arith);
                caps
            } else {
                (0, 0)
            };
            backings.push(
                ConsoleBacking {
                    kind,
                    width: c.width as usize,
                    height: c.height as usize,
                    vertex_len,
                    index_len,
                },
            );
            i = i + 1;
        }
    }
}

/// A rebuild that the back-end must carry out on backing `backing`.
#[derive(Clone, Copy, PartialEq, Eq, Debug, Structural)]
pub enum RebuildCall {
    /// Rebuild a simple console's vertices with the font's glyph grid.
    Simple { backing: usize, font_index: usize, glyph_columns: u32, glyph_rows: u32, needs_resize: bool },
    /// Rebuild a sparse console's vertices.
    Sparse { backing: usize, font_index: usize, glyph_columns: u32, glyph_rows: u32, needs_resize: bool },
    /// Rebuild a fancy console's vertices, its glyphs in the sorted order.
    Fancy { backing: usize, font_index: usize, glyph_columns: u32, glyph_rows: u32 },
    /// Rebuild a sprite console's vertices from its sprite sheet, its sprites in
    /// the sorted order.
    Sprite { backing: usize, sprite_sheet: usize },
}

/// The console that backing `i` draws matches the backing's kind, and the
/// indices it carries are in range.
pub open spec fn rebuild_ready(
    b: ConsoleBacking,
    c: ConsoleLayer,
    n_fonts: int,
    n_sprite_sheets: int,
) -> bool {
    &&& backing_kind_for(c.kind) == Some(b.kind)
    &&& c.font_index < n_fonts
    &&& (c.is_dirty && b.kind == BackingKind::Sprite ==> c.sprite_sheet < n_sprite_sheets)
}

/// The rebuild that backing `i` needs this frame, if any.
pub open spec fn rebuild_call_for(
    i: int,
    b: ConsoleBacking,
    c: ConsoleLayer,
    glyphs: (u32, u32),
    must_resize: bool,
) -> Option<RebuildCall> {
    if !c.is_dirty {
        None
    } else {
        match b.kind {
            BackingKind::Simple => Some(
                RebuildCall::Simple {
                    backing: i as usize,
                    font_index: c.font_index,
                    glyph_columns: glyphs.0,
                    glyph_rows: glyphs.1,
                    needs_resize: c.needs_resize_internal || must_resize,
                },
            ),
            BackingKind::Sparse => Some(
                RebuildCall::Sparse {
                    backing: i as usize,
                    font_index: c.font_index,
                    glyph_columns: glyphs.0,
                    glyph_rows: glyphs.1,
                    needs_resize: must_resize,
                },
            ),
            BackingKind::Fancy => Some(
                RebuildCall::Fancy {
                    backing: i as usize,
                    font_index: c.font_index,
                    glyph_columns: glyphs.0,
                    glyph_rows: glyphs.1,
                },
            ),
            BackingKind::Sprite => Some(
                RebuildCall::Sprite { backing: i as usize, sprite_sheet: c.sprite_sheet },
            ),
        }
    }
}

/// The rebuilds for the first `n` backings, in backing order.
pub open spec fn rebuild_calls(
    backings: Seq<ConsoleBacking>,
    consoles: Seq<ConsoleLayer>,
    font_glyphs: Seq<(u32, u32)>,
    must_resize: bool,
    n: nat,
) -> Seq<RebuildCall>
    decreases n,
{
    if n == 0 {
        seq![]
    } else {
        let i = n - 1;
        let c = consoles[i];
        let prev = rebuild_calls(backings, consoles, font_glyphs, must_resize, (n - 1) as nat);
        match rebuild_call_for(i, backings[i], c, font_glyphs[c.font_index as int], must_resize) {
            Some(call) => prev.push(call),
            None => prev,
        }
    }
}

/// Every rebuild of a simple backing asks for a resize exactly when its console
/// asked for one or the window was resized, and every rebuild of a sparse
/// backing exactly when the window was resized; each rebuild is for a dirty
/// console among the first `n` backings, with that console's font. Each dirty
/// simple or sparse console among them gets such a rebuild.
pub proof fn rebuilds_honour_resizes(
    backings: Seq<ConsoleBacking>,
    consoles: Seq<ConsoleLayer>,
    font_glyphs: Seq<(u32, u32)>,
    must_resize: bool,
    n: nat,
)
    requires
        n <= backings.len(),
        n <= consoles.len(),
        n <= usize::MAX,
    ensures
        forall|k: int|
            0 <= k < rebuild_calls(backings, consoles, font_glyphs, must_resize, n).len() ==> {
                let call = #[trigger] rebuild_calls(backings, consoles, font_glyphs, must_resize, n)[k];
                &&& call matches RebuildCall::Simple { backing, font_index, needs_resize, .. } ==> {
                    &&& backing < n
                    &&& consoles[backing as int].is_dirty
                    &&& backings[backing as int].kind == BackingKind::Simple
                    &&& font_index == consoles[backing as int].font_index
                    &&& needs_resize == (consoles[backing as int].needs_resize_internal || must_resize)
                }
                &&& call matches RebuildCall::Sparse { backing, font_index, needs_resize, .. } ==> {
                    &&& backing < n
                    &&& consoles[backing as int].is_dirty
                    &&& backings[backing as int].kind == BackingKind::Sparse
                    &&& font_index == consoles[backing as int].font_index
                    &&& needs_resize == must_resize
                }
            },
        forall|i: int|
            0 <= i < n && (#[trigger] consoles[i]).is_dirty && backings[i].kind == BackingKind::Simple
                ==> rebuild_calls(backings, consoles, font_glyphs, must_resize, n).contains(
                RebuildCall::Simple {
                    backing: i as usize,
                    font_index: consoles[i].font_index,
                    glyph_columns: font_glyphs[consoles[i].font_index as int].0,
                    glyph_rows: font_glyphs[consoles[i].font_index as int].1,
                    needs_resize: consoles[i].needs_resize_internal || must_resize,
                },
            ),
        forall|i: int|
            0 <= i < n && (#[trigger] consoles[i]).is_dirty && backings[i].kind == BackingKind::Sparse
                ==> rebuild_calls(backings, consoles, font_glyphs, must_resize, n).contains(
                RebuildCall::Sparse {
                    backing: i as usize,
                    font_index: consoles[i].font_index,
                    glyph_columns: font_glyphs[consoles[i].font_index as int].0,
                    glyph_rows: font_glyphs[consoles[i].font_index as int].1,
                    needs_resize: must_resize,
                },
            ),
    decreases n,
{
    if n > 0 {
        let m = (n - 1) as nat;
        rebuilds_honour_resizes(backings, consoles, font_glyphs, must_resize, m);
        let prev = rebuild_calls(backings, consoles, font_glyphs, must_resize, m);
        let cur = rebuild_calls(backings, consoles, font_glyphs, must_resize, n);
        let c = consoles[m as int];
        let r = rebuild_call_for(m as int, backings[m as int], c, font_glyphs[c.font_index as int], must_resize);
        assert(cur == match r {
            Some(call) => prev.push(call),
            None => prev,
        });
        assert forall|k: int| 0 <= k < prev.len() implies cur[k] == prev[k] by {}
        assert forall|i: int|
            0 <= i < m && (#[trigger] consoles[i]).is_dirty && backings[i].kind == BackingKind::Simple
                implies cur.contains(
            RebuildCall::Simple {
                backing: i as usize,
                font_index: consoles[i].font_index,
                glyph_columns: font_glyphs[consoles[i].font_index as int].0,
                glyph_rows: font_glyphs[consoles[i].font_index as int].1,
                needs_resize: consoles[i].needs_resize_internal || must_resize,
            },
        ) by {
            let x = RebuildCall::Simple {
                backing: i as usize,
                font_index: consoles[i].font_index,
                glyph_columns: font_glyphs[consoles[i].font_index as int].0,
                glyph_rows: font_glyphs[consoles[i].font_index as int].1,
                needs_resize: consoles[i].needs_resize_internal || must_resize,
            };
            assert(prev.contains(x));
            let j = choose|j: int| 0 <= j < prev.len() && prev[j] == x;
            assert(cur[j] == x);
        }
        assert forall|i: int|
            0 <= i < m && (#[trigger] consoles[i]).is_dirty && backings[i].kind == BackingKind::Sparse
                implies cur.contains(
            RebuildCall::Sparse {
                backing: i as usize,
                font_index: consoles[i].font_index,
                glyph_columns: font_glyphs[consoles[i].font_index as int].0,
                glyph_rows: font_glyphs[consoles[i].font_index as int].1,
                needs_resize: must_resize,
            },
        ) by {
            let x = RebuildCall::Sparse {
                backing: i as usize,
                font_index: consoles[i].font_index,
                glyph_columns: font_glyphs[consoles[i].font_index as int].0,
                glyph_rows: font_glyphs[consoles[i].font_index as int].1,
                needs_resize: must_resize,
            };
            assert(prev.contains(x));
            let j = choose|j: int| 0 <= j < prev.len() && prev[j] == x;
            assert(cur[j] == x);
        }
        if r is Some {
            assert(cur[prev.len() as int] == r->0);
            if c.is_dirty && backings[m as int].kind == BackingKind::Simple {
                assert(cur.contains(r->0));
            }
            if c.is_dirty && backings[m as int].kind == BackingKind::Sparse {
                assert(cur.contains(r->0));
            }
        }
    }
}

/// Decides this frame's rebuilds. Backing `i` draws console `i`;
/// `font_glyphs[f]` is the glyph grid (columns, rows) of font `f`. Every dirty
/// console is rebuilt, and has its resize request cleared; the glyphs of a dirty
/// fancy console and the sprites of a dirty sprite console are first put in
/// ascending z order. The scaler's pending resize is taken (and cleared) once,
/// and simple and sparse rebuilds honour it.
pub fn rebuild_consoles(
    scaler: &mut ScreenScaler,
    backings: &Vec<ConsoleBacking>,
    consoles: &mut Vec<ConsoleLayer>,
    font_glyphs: &Vec<(u32, u32)>,
    n_sprite_sheets: usize,
) -> (calls: Vec<RebuildCall>)
    requires
        old(consoles)@.len() >= backings@.len(),
        forall|i: int|
            0 <= i < backings@.len() ==> rebuild_ready(
                #[trigger] backings@[i],
                old(consoles)@[i],
                font_glyphs@.len() as int,
                n_sprite_sheets as int,
            ),
    ensures
        calls@ == rebuild_calls(
            backings@,
            old(consoles)@,
            font_glyphs@,
            old(scaler).resized,
            backings@.len(),
        ),
        *final(scaler) == (ScreenScaler { resized: false, ..*old(scaler) }),
        forall|k: int|
            0 <= k < calls@.len() ==> ((#[trigger] calls@[k]) matches RebuildCall::Simple {
                backing,
                needs_resize,
                ..
            } ==> needs_resize == (old(consoles)@[backing as int].needs_resize_internal || old(
                scaler,
            ).resized)),
        forall|k: int|
            0 <= k < calls@.len() ==> ((#[trigger] calls@[k]) matches RebuildCall::Sparse {
                needs_resize,
                ..
            } ==> needs_resize == old(scaler).resized),
        forall|i: int|
            0 <= i < backings@.len() && (#[trigger] old(consoles)@[i]).is_dirty && backings@[i].kind
                == BackingKind::Simple ==> calls@.contains(
                RebuildCall::Simple {
                    backing: i as usize,
                    font_index: old(consoles)@[i].font_index,
                    glyph_columns: font_glyphs@[old(consoles)@[i].font_index as int].0,
                    glyph_rows: font_glyphs@[old(consoles)@[i].font_index as int].1,
                    needs_resize: old(consoles)@[i].needs_resize_internal || old(scaler).resized,
                },
            ),
        forall|i: int|
            0 <= i < backings@.len() && (#[trigger] old(consoles)@[i]).is_dirty && backings@[i].kind
                == BackingKind::Sparse ==> calls@.contains(
                RebuildCall::Sparse {
                    backing: i as usize,
                    font_index: old(consoles)@[i].font_index,
                    glyph_columns: font_glyphs@[old(consoles)@[i].font_index as int].0,
                    glyph_rows: font_glyphs@[old(consoles)@[i].font_index as int].1,
                    needs_resize: old(scaler).resized,
                },
            ),
        final(consoles)@.len() == old(consoles)@.len(),
        forall|i: int|
            0 <= i < old(consoles)@.len() ==> {
                let c0 = #[trigger] old(consoles)@[i];
                let c1 = final(consoles)@[i];
                &&& c1.kind == c0.kind && c1.width == c0.width && c1.height == c0.height
                &&& c1.font_index == c0.font_index && c1.shader_index == c0.shader_index
                &&& c1.is_dirty == c0.is_dirty && c1.sprite_sheet == c0.sprite_sheet
                &&& if i < backings@.len() && c0.is_dirty {
                    &&& !c1.needs_resize_internal
                    &&& if c0.kind == ConsoleKind::Flexi || c0.kind == ConsoleKind::Sprite {
                        stable_z_sort_of(c1.z_items@, c0.z_items@)
                    } else {
                        c1.z_items == c0.z_items
                    }
                } else {
                    c1.needs_resize_internal == c0.needs_resize_internal && c1.z_items
                        == c0.z_items
                }
            },
{
    let must_resize = scaler.get_resized_and_reset();
    let ghost cs0 = consoles@;
    let mut calls: Vec<RebuildCall> = Vec::new();
    let mut i: usize = 0;
    while i < backings.len()
        invariant
            cs0.len() >= backings@.len(),
            forall|j: int|
                0 <= j < backings@.len() ==> rebuild_ready(
                    #[trigger] backings@[j],
                    cs0[j],
                    font_glyphs@.len() as int,
                    n_sprite_sheets as int,
                ),
            i <= backings@.len(),
            consoles@.len() == cs0.len(),
            calls@ == rebuild_calls(backings@, cs0, font_glyphs@, must_resize, i as nat),
            forall|j: int|
                0 <= j < cs0.len() ==> {
                    let c0 = #[trigger] cs0[j];
                    let c1 = consoles@[j];
                    &&& c1.kind == c0.kind && c1.width == c0.width && c1.height == c0.height
                    &&& c1.font_index == c0.font_index && c1.shader_index == c0.shader_index
                    &&& c1.is_dirty == c0.is_dirty && c1.sprite_sheet == c0.sprite_sheet
                    &&& if j < i && c0.is_dirty {
                        &&& !c1.needs_resize_internal
                        &&& if c0.kind == ConsoleKind::Flexi || c0.kind == ConsoleKind::Sprite {
                            stable_z_sort_of(c1.z_items@, c0.z_items@)
                        } else {
                            c1.z_items == c0.z_items
                        }
                    } else {
                        c1.needs_resize_internal == c0.needs_resize_internal && c1.z_items
                            == c0.z_items
                    }
                },
        decreases backings@.len() - i,
    {
        assert(rebuild_ready(backings@[i as int], cs0[i as int], font_glyphs@.len() as int, n_sprite_sheets as int));
        let font_index = consoles[i].font_index;
        let glyphs = font_glyphs[font_index];
        let b = backings[i];
        if consoles[i].is_dirty {
            match b.kind {
                BackingKind::Simple => {
                    let needs_resize = consoles[i].needs_resize_internal || must_resize;
                    calls.push(
                        RebuildCall::Simple {
                            backing: i,
                            font_index,
                            glyph_columns: glyphs.0,
                            glyph_rows: glyphs.1,
                            needs_resize,
                        },
                    );
                },
                BackingKind::Sparse => {
                    calls.push(
                        RebuildCall::Sparse {
                            backing: i,
                            font_index,
                            glyph_columns: glyphs.0,
                            glyph_rows: glyphs.1,
                            needs_resize: must_resize,
                        },
                    );
                },
                BackingKind::Fancy => {
                    sort_by_z_order(&mut consoles[i].z_items);
                    calls.push(
                        RebuildCall::Fancy {
                            backing: i,
                            font_index,
                            glyph_columns: glyphs.0,
                            glyph_rows: glyphs.1,
                        },
                    );
                },
                BackingKind::Sprite => {
                    sort_by_z_order(&mut consoles[i].z_items);
                    calls.push(
                        RebuildCall::Sprite { backing: i, sprite_sheet: consoles[i].sprite_sheet },
                    );
                },
            }
            consoles[i].needs_resize_internal = false;
        }
        i = i + 1;
    }
    proof {
        rebuilds_honour_resizes(backings@, cs0, font_glyphs@, must_resize, backings@.len());
    }
    calls
}

/// A draw that the back-end must carry out for backing `backing`.
#[derive(Clone, Copy, PartialEq, Eq, Debug, Structural)]
pub enum DrawCall {
    /// Draw a glyph backing with a font's texture and a shader.
    Glyphs { backing: usize, font_index: usize, shader_index: usize },
    /// Draw a sprite backing with a sprite sheet's texture and a shader.
    Sprites { backing: usize, sprite_sheet: usize, shader_index: usize },
}

/// The draw of backing `i`.
pub open spec fn draw_call_for(i: int, b: ConsoleBacking, c: ConsoleLayer) -> DrawCall {
    if b.kind == BackingKind::Sprite {
        DrawCall::Sprites {
            backing: i as usize,
            sprite_sheet: c.sprite_sheet,
            shader_index: c.shader_index,
        }
    } else {
        DrawCall::Glyphs { backing: i as usize, font_index: c.font_index, shader_index: c.shader_index }
    }
}

/// Decides this frame's draws: one per backing, in backing order; backing `i`
/// is drawn with console `i`'s font (its sprite sheet, for a sprite backing)
/// and shader. The back-end stops at the first draw that fails.
pub fn render_consoles(backings: &Vec<ConsoleBacking>, consoles: &Vec<ConsoleLayer>) -> (draws: Vec<
    DrawCall,
>)
    requires
        consoles@.len() >= backings@.len(),
        forall|i: int|
            0 <= i < backings@.len() && (#[trigger] backings@[i]).kind == BackingKind::Sprite
                ==> consoles@[i].kind == ConsoleKind::Sprite,
    ensures
        draws@.len() == backings@.len(),
        forall|i: int|
            0 <= i < backings@.len() ==> #[trigger] draws@[i] == draw_call_for(
                i,
                backings@[i],
                consoles@[i],
            ),
{
    let mut draws: Vec<DrawCall> = Vec::new();
    let mut i: usize = 0;
    while i < backings.len()
        invariant
            consoles@.len() >= backings@.len(),
            i <= backings@.len(),
            draws@.len() == i,
            forall|j: int|
                0 <= j < i ==> #[trigger] draws@[j] == draw_call_for(j, backings@[j], consoles@[j]),
        decreases backings@.len() - i,
    {
        let c = &consoles[i];
        let call = match backings[i].kind {
            BackingKind::Sprite => DrawCall::Sprites {
                backing: i,
                sprite_sheet: c.sprite_sheet,
                shader_index: c.shader_index,
            },
            _ => DrawCall::Glyphs { backing: i, font_index: c.font_index, shader_index: c.shader_index },
        };
        draws.push(call);
        i = i + 1;
    }
    draws
}


/// Whether every backing's console matches it and carries indices in range, as
/// `rebuild_consoles` requires.
pub fn backings_ready(
    backings: &Vec<ConsoleBacking>,
    consoles: &Vec<ConsoleLayer>,
    n_fonts: usize,
    n_sprite_sheets: usize,
) -> (r: bool)
    ensures
        r == (consoles@.len() >= backings@.len() && forall|i: int|
            0 <= i < backings@.len() ==> rebuild_ready(
                #[trigger] backings@[i],
                consoles@[i],
                n_fonts as int,
                n_sprite_sheets as int,
            )),
{
    if consoles.len() < backings.len() {
        return false;
    }
    let mut i: usize = 0;
    while i < backings.len()
        invariant
            consoles@.len() >= backings@.len(),
            i <= backings@.len(),
            forall|j: int|
                0 <= j < i ==> rebuild_ready(
                    #[trigger] backings@[j],
                    consoles@[j],
                    n_fonts as int,
                    n_sprite_sheets as int,
                ),
        decreases backings@.len() - i,
    {
        let b = backings[i];
        let c = &consoles[i];
        let kind_ok = match c.kind {
            ConsoleKind::Simple => b.kind == BackingKind::Simple,
            ConsoleKind::Sparse => b.kind == BackingKind::Sparse,
            ConsoleKind::Flexi => b.kind == BackingKind::Fancy,
            ConsoleKind::Sprite => b.kind == BackingKind::Sprite,
            ConsoleKind::Other => false,
        };
        if !kind_ok || c.font_index >= n_fonts {
            return false;
        }
        if c.is_dirty && b.kind == BackingKind::Sprite && c.sprite_sheet >= n_sprite_sheets {
            return false;
        }
        i = i + 1;
    }
    true
}

} // verus!
