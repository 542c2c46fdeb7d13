//! The terminal back-end's screen mirror.
//!
//! A text-terminal back-end keeps a copy of what it last sent to the terminal:
//! one cell per character position, row-major, `width` cells per row. A full
//! redraw paints every dirty console over a blank mirror and emits the terminal
//! commands that draw it; a partial redraw paints the consoles over the current
//! mirror, remembers which cells a console changed, and then emits commands for
//! those cells only.
//!
//! Colours are carried as 8-bit RGBA quadruples, the form in which they reach
//! the terminal.
use vstd::prelude::*;
use crate::seqs::lemma_row_major;

verus! {

/// An 8-bit RGBA colour.
#[derive(Clone, Copy, PartialEq, Eq, Debug, Structural)]
pub struct Rgba8 {
    pub r: u8,
    pub g: u8,
    pub b: u8,
    pub a: u8,
}

/// The colour that a redraw assumes before its first colour change: all zero.
pub open spec fn no_color() -> Rgba8 {
    Rgba8 { r: 0, g: 0, b: 0, a: 0 }
}

impl Rgba8 {
    /// All four channels zero, the starting colour of every redraw pass.
    pub fn transparent_black() -> (c: Rgba8)
        ensures
            c == no_color(),
    {
        Rgba8 { r: 0, g: 0, b: 0, a: 0 }
    }
}

/// One character cell: its glyph and its two colours.
#[derive(Clone, Copy, PartialEq, Eq, Debug, Structural)]
pub struct OutputBuffer {
    pub glyph: char,
    pub fg: Rgba8,
    pub bg: Rgba8,
}

/// The blank cell: a space, white on transparent black.
pub open spec fn blank_cell() -> OutputBuffer {
    OutputBuffer {
        glyph: ' ',
        fg: Rgba8 { r: 255, g: 255, b: 255, a: 255 },
        bg: Rgba8 { r: 0, g: 0, b: 0, a: 0 },
    }
}

impl Default for OutputBuffer {
    fn default() -> (c: OutputBuffer)
        ensures
            c == blank_cell(),
    {
        OutputBuffer {
            glyph: ' ',
            fg: Rgba8 { r: 255, g: 255, b: 255, a: 255 },
            bg: Rgba8 { r: 0, g: 0, b: 0, a: 0 },
        }
    }
}

/// A glyph of a sparse console, placed at cell `idx` of that console.
#[derive(Clone, Copy, PartialEq, Eq, Debug, Structural)]
pub struct SparseCell {
    pub idx: usize,
    pub glyph: char,
    pub fg: Rgba8,
    pub bg: Rgba8,
}

/// Which kind of console a layer is; only simple and sparse consoles are drawn
/// on a text terminal.
#[derive(Clone, Copy, PartialEq, Eq, Debug, Structural)]
pub enum TermConsoleKind {
    Simple,
    Sparse,
    Other,
}

/// What a text terminal back-end reads of a console layer. A simple console
/// holds `width * height` cells in `tiles`, bottom row first; a sparse console
/// holds its glyphs in `sparse_tiles`.
pub struct TermConsole {
    pub kind: TermConsoleKind,
    pub width: u32,
    pub height: u32,
    pub tiles: Vec<OutputBuffer>,
    pub sparse_tiles: Vec<SparseCell>,
    pub is_dirty: bool,
}

/// A terminal command, as the redraws emit them.
#[derive(Clone, Copy, PartialEq, Eq, Debug, Structural)]
pub enum TermCommand {
    /// Move the cursor to (column, row).
    MoveTo(u16, u16),
    SetForeground(Rgba8),
    SetBackground(Rgba8),
    /// Print one character at the cursor and advance the cursor one column.
    Print(char),
}

// ---------------------------------------------------------------------------
// Where console cells land in the mirror.
/// The terminal row that row `y` of a console of height `height` is drawn on
/// (console rows count from the bottom, terminal rows from the top).
pub open spec fn flip_row(height: u32, y: u16) -> int {
    (height as u16) - (y + 1)
}

/// Column of a sparse glyph inside its console.
pub open spec fn sparse_x(width: u32, idx: usize) -> u16 {
    ((idx as u32) % width) as u16
}

/// Row (from the bottom) of a sparse glyph inside its console.
pub open spec fn sparse_y(width: u32, idx: usize) -> u16 {
    ((idx as u32) / width) as u16
}

/// Mirror position of cell `k` (row-major from the bottom row) of a simple
/// console, on a terminal `tw` columns wide.
pub open spec fn simple_pos(c: TermConsole, tw: int, k: int) -> int {
    (c.height - 1 - k / (c.width as int)) * tw + k % (c.width as int)
}

/// Mirror position of a sparse glyph: the row is scaled by the terminal's
/// height `th`, as the back-end computes it.
pub open spec fn sparse_pos(c: TermConsole, th: int, t: SparseCell) -> int {
    flip_row(c.height, sparse_y(c.width, t.idx)) * th + sparse_x(c.width, t.idx)
}

/// A dirty simple console can be drawn into a mirror of `len` cells on a
/// terminal `tw` columns wide without leaving the mirror or the cell list.
pub open spec fn simple_fits(c: TermConsole, tw: int, len: int) -> bool {
    &&& c.height <= u16::MAX
    &&& c.tiles@.len() >= c.width * c.height
    &&& (c.width > 0 && c.height > 0 ==> (c.height - 1) * tw + c.width <= len)
}

/// Every glyph of a dirty sparse console lands inside the mirror, with all the
/// 16-bit arithmetic of its position in range.
pub open spec fn sparse_fits(c: TermConsole, th: int, len: int) -> bool {
    &&& c.sparse_tiles@.len() > 0 ==> c.width > 0
    &&& forall|i: int|
        #![trigger c.sparse_tiles@[i]]
        0 <= i < c.sparse_tiles@.len() ==> {
            let t = c.sparse_tiles@[i];
            &&& sparse_y(c.width, t.idx) + 1 <= (c.height as u16)
            &&& sparse_pos(c, th, t) <= u16::MAX
            &&& sparse_pos(c, th, t) < len
        }
}

/// The console can be drawn on a `tw` x `th` terminal whose mirror has `len`
/// cells.
pub open spec fn console_fits(c: TermConsole, tw: int, th: int, len: int) -> bool {
    c.is_dirty ==> match c.kind {
        TermConsoleKind::Simple => simple_fits(c, tw, len),
        TermConsoleKind::Sparse => sparse_fits(c, th, len),
        TermConsoleKind::Other => true,
    }
}

pub open spec fn all_fit(cs: Seq<TermConsole>, tw: int, th: int) -> bool {
    forall|i: int| #![trigger cs[i]] 0 <= i < cs.len() ==> console_fits(cs[i], tw, th, tw * th)
}

// ---------------------------------------------------------------------------
// Painting.
/// The mirror after the first `n` cells of a simple console are written.
pub open spec fn paint_simple(buf: Seq<OutputBuffer>, c: TermConsole, tw: int, n: nat) -> Seq<
    OutputBuffer,
>
    decreases n,
{
    if n == 0 {
        buf
    } else {
        paint_simple(buf, c, tw, (n - 1) as nat).update(
            simple_pos(c, tw, n - 1),
            c.tiles@[n - 1],
        )
    }
}

/// The cell a sparse glyph writes.
pub open spec fn sparse_cell(t: SparseCell) -> OutputBuffer {
    OutputBuffer { glyph: t.glyph, fg: t.fg, bg: t.bg }
}

/// The mirror after the first `n` glyphs of a sparse console are written.
pub open spec fn paint_sparse(buf: Seq<OutputBuffer>, c: TermConsole, th: int, n: nat) -> Seq<
    OutputBuffer,
>
    decreases n,
{
    if n == 0 {
        buf
    } else {
        let t = c.sparse_tiles@[n - 1];
        paint_sparse(buf, c, th, (n - 1) as nat).update(sparse_pos(c, th, t), sparse_cell(t))
    }
}

/// The mirror after a console is drawn: only dirty simple and sparse consoles
/// write to it.
pub open spec fn paint_console(buf: Seq<OutputBuffer>, c: TermConsole, tw: int, th: int) -> Seq<
    OutputBuffer,
> {
    if !c.is_dirty {
        buf
    } else {
        match c.kind {
            TermConsoleKind::Simple => paint_simple(buf, c, tw, (c.width * c.height) as nat),
            TermConsoleKind::Sparse => paint_sparse(buf, c, th, c.sparse_tiles@.len()),
            TermConsoleKind::Other => buf,
        }
    }
}

/// The mirror after the first `n` consoles are drawn, in order.
pub open spec fn paint_all(buf: Seq<OutputBuffer>, cs: Seq<TermConsole>, tw: int, th: int, n: nat) -> Seq<
    OutputBuffer,
>
    decreases n,
{
    if n == 0 {
        buf
    } else {
        paint_console(paint_all(buf, cs, tw, th, (n - 1) as nat), cs[n - 1], tw, th)
    }
}

/// A mirror of `n` blank cells.
pub open spec fn blank_screen(n: nat) -> Seq<OutputBuffer> {
    Seq::new(n, |i: int| blank_cell())
}

/// A console after a redraw has drawn it: drawn consoles are no longer dirty.
pub open spec fn after_draw(c: TermConsole) -> TermConsole {
    if c.is_dirty && c.kind != TermConsoleKind::Other {
        TermConsole { is_dirty: false, ..c }
    } else {
        c
    }
}

// ---------------------------------------------------------------------------
// Commands of a full redraw.
/// Colour change commands: one when the colour differs from the one in force.
pub open spec fn color_cmds(prev_fg: Rgba8, prev_bg: Rgba8, fg: Rgba8, bg: Rgba8) -> Seq<
    TermCommand,
> {
    (if fg != prev_fg {
        seq![TermCommand::SetForeground(fg)]
    } else {
        seq![]
    }) + (if bg != prev_bg {
        seq![TermCommand::SetBackground(bg)]
    } else {
        seq![]
    })
}

/// Commands that draw cell `k` of a simple console: the colour changes against
/// the previous cell of the console (against no colour for the first), then the
/// glyph.
pub open spec fn simple_cell_cmds(c: TermConsole, k: int) -> Seq<TermCommand> {
    let t = c.tiles@[k];
    let prev_fg = if k == 0 {
        no_color()
    } else {
        c.tiles@[k - 1].fg
    };
    let prev_bg = if k == 0 {
        no_color()
    } else {
        c.tiles@[k - 1].bg
    };
    color_cmds(prev_fg, prev_bg, t.fg, t.bg).push(TermCommand::Print(t.glyph))
}

/// Commands for the first `n` cells of row `y` of a simple console.
pub open spec fn simple_row_cmds(c: TermConsole, y: int, n: nat) -> Seq<TermCommand>
    decreases n,
{
    if n == 0 {
        seq![]
    } else {
        simple_row_cmds(c, y, (n - 1) as nat) + simple_cell_cmds(
            c,
            y * c.width + n - 1,
        )
    }
}

/// Commands for the first `ny` rows of a simple console: each row starts with a
/// cursor move to the start of its terminal row.
pub open spec fn simple_cmds(c: TermConsole, ny: nat) -> Seq<TermCommand>
    decreases ny,
{
    if ny == 0 {
        seq![]
    } else {
        simple_cmds(c, (ny - 1) as nat) + seq![
            TermCommand::MoveTo(0, flip_row(c.height, (ny - 1) as u16) as u16),
        ] + simple_row_cmds(c, ny - 1, c.width as nat)
    }
}

/// Commands for one sparse glyph: move there, set both colours, print.
pub open spec fn sparse_glyph_cmds(c: TermConsole, t: SparseCell) -> Seq<TermCommand> {
    seq![
        TermCommand::MoveTo(
            sparse_x(c.width, t.idx),
            flip_row(c.height, sparse_y(c.width, t.idx)) as u16,
        ),
        TermCommand::SetForeground(t.fg),
        TermCommand::SetBackground(t.bg),
        TermCommand::Print(t.glyph),
    ]
}

/// Commands for the first `n` glyphs of a sparse console.
pub open spec fn sparse_cmds(c: TermConsole, n: nat) -> Seq<TermCommand>
    decreases n,
{
    if n == 0 {
        seq![]
    } else {
        sparse_cmds(c, (n - 1) as nat) + sparse_glyph_cmds(c, c.sparse_tiles@[n - 1])
    }
}

/// Commands with which a full redraw draws one console.
pub open spec fn console_cmds(c: TermConsole) -> Seq<TermCommand> {
    if !c.is_dirty {
        seq![]
    } else {
        match c.kind {
            TermConsoleKind::Simple => simple_cmds(c, c.height as nat),
            TermConsoleKind::Sparse => sparse_cmds(c, c.sparse_tiles@.len()),
            TermConsoleKind::Other => seq![],
        }
    }
}

/// Commands with which a full redraw draws the first `n` consoles.
pub open spec fn full_cmds(cs: Seq<TermConsole>, n: nat) -> Seq<TermCommand>
    decreases n,
{
    if n == 0 {
        seq![]
    } else {
        full_cmds(cs, (n - 1) as nat) + console_cmds(cs[n - 1])
    }
}


// ---------------------------------------------------------------------------
// Partial redraw: which cells changed, and the commands that redraw them.
/// Mirror positions, in write order, at which the first `n` cells of a simple
/// console changed the mirror.
pub open spec fn diff_simple(buf: Seq<OutputBuffer>, c: TermConsole, tw: int, n: nat) -> Seq<usize>
    decreases n,
{
    if n == 0 {
        seq![]
    } else {
        let before = paint_simple(buf, c, tw, (n - 1) as nat);
        let p = simple_pos(c, tw, n - 1);
        diff_simple(buf, c, tw, (n - 1) as nat) + if before[p] != c.tiles@[n - 1] {
            seq![p as usize]
        } else {
            seq![]
        }
    }
}

/// Mirror positions, in write order, at which the first `n` glyphs of a sparse
/// console changed the mirror.
pub open spec fn diff_sparse(buf: Seq<OutputBuffer>, c: TermConsole, th: int, n: nat) -> Seq<usize>
    decreases n,
{
    if n == 0 {
        seq![]
    } else {
        let before = paint_sparse(buf, c, th, (n - 1) as nat);
        let t = c.sparse_tiles@[n - 1];
        let p = sparse_pos(c, th, t);
        diff_sparse(buf, c, th, (n - 1) as nat) + if before[p] != sparse_cell(t) {
            seq![p as usize]
        } else {
            seq![]
        }
    }
}

/// Positions at which drawing one console changed the mirror.
pub open spec fn diff_console(buf: Seq<OutputBuffer>, c: TermConsole, tw: int, th: int) -> Seq<usize> {
    if !c.is_dirty {
        seq![]
    } else {
        match c.kind {
            TermConsoleKind::Simple => diff_simple(buf, c, tw, (c.width * c.height) as nat),
            TermConsoleKind::Sparse => diff_sparse(buf, c, th, c.sparse_tiles@.len()),
            TermConsoleKind::Other => seq![],
        }
    }
}

/// Positions at which drawing the first `n` consoles changed the mirror.
pub open spec fn diff_all(buf: Seq<OutputBuffer>, cs: Seq<TermConsole>, tw: int, th: int, n: nat) -> Seq<
    usize,
>
    decreases n,
{
    if n == 0 {
        seq![]
    } else {
        diff_all(buf, cs, tw, th, (n - 1) as nat) + diff_console(
            paint_all(buf, cs, tw, th, (n - 1) as nat),
            cs[n - 1],
            tw,
            th,
        )
    }
}

/// Commands that redraw the first `n` changed cells: move to the cell, change
/// the colours that differ from the previous redrawn cell (from no colour for
/// the first), print the glyph the mirror now holds there.
pub open spec fn dirty_cmds(screen: Seq<OutputBuffer>, dirty: Seq<usize>, tw: int, n: nat) -> Seq<
    TermCommand,
>
    decreases n,
{
    if n == 0 {
        seq![]
    } else {
        let idx = dirty[n - 1];
        let t = screen[idx as int];
        let prev_fg = if n == 1 {
            no_color()
        } else {
            screen[dirty[n - 2] as int].fg
        };
        let prev_bg = if n == 1 {
            no_color()
        } else {
            screen[dirty[n - 2] as int].bg
        };
        dirty_cmds(screen, dirty, tw, (n - 1) as nat) + seq![
            TermCommand::MoveTo((idx % (tw as usize)) as u16, (idx / (tw as usize)) as u16),
        ] + color_cmds(prev_fg, prev_bg, t.fg, t.bg).push(TermCommand::Print(t.glyph))
    }
}

// ---------------------------------------------------------------------------
proof fn lemma_row_bound(row: int, rows: int, tw: int, x: int, w: int, len: int)
    requires
        0 <= row < rows,
        0 <= x < w,
        0 <= tw,
        (rows - 1) * tw + w <= len,
    ensures
        0 <= row * tw + x < len,
        row * tw <= len,
{
    vstd::arithmetic::mul::lemma_mul_inequality(row, rows - 1, tw);
    vstd::arithmetic::mul::lemma_mul_nonnegative(row, tw);
}

/// Draws a simple console into the mirror, appending the commands that draw it.
fn draw_simple(
    buffer: &mut Vec<OutputBuffer>,
    cmds: &mut Vec<TermCommand>,
    c: &TermConsole,
    width: u16,
)
    requires
        simple_fits(*c, width as int, old(buffer)@.len() as int),
    ensures
        final(buffer)@.len() == old(buffer)@.len(),
        final(buffer)@ == paint_simple(old(buffer)@, *c, width as int, (c.width * c.height) as nat),
        final(cmds)@ == old(cmds)@ + simple_cmds(*c, c.height as nat),
{
    let ghost buf0 = buffer@;
    let ghost cmds0 = cmds@;
    let ghost w = c.width as int;
    let mut idx: usize = 0;
    let mut last_fg = Rgba8::transparent_black();
    let mut last_bg = Rgba8::transparent_black();
    let mut y: u32 = 0;
    while y < c.height
        invariant
            simple_fits(*c, width as int, buf0.len() as int),
            y <= c.height,
            idx as int == y * w,
            w == c.width,
            buffer@.len() == buf0.len(),
            buffer@ == paint_simple(buf0, *c, width as int, idx as nat),
            cmds@ == cmds0 + simple_cmds(*c, y as nat),
            idx == 0 ==> last_fg == no_color() && last_bg == no_color(),
            idx > 0 ==> last_fg == c.tiles@[idx - 1].fg && last_bg == c.tiles@[idx - 1].bg,
        decreases c.height - y,
    {
        proof {
            vstd::arithmetic::mul::lemma_mul_inequality(y as int + 1, c.height as int, w);
            vstd::arithmetic::mul::lemma_mul_is_distributive_add_other_way(w, y as int, 1);
        }
        let row: u16 = (c.height as u16) - ((y as u16) + 1);
        let ghost cmds_row = cmds@.push(TermCommand::MoveTo(0, row));
        cmds.push(TermCommand::MoveTo(0, row));
        assert(cmds@ == cmds0 + simple_cmds(*c, y as nat) + seq![TermCommand::MoveTo(0, row)]);
        assert(row as int * width as int <= 65535 * 65535) by (nonlinear_arith)
            requires
                row <= 65535,
                width <= 65535,
        ;
        let mut buf_idx: usize = row as usize * width as usize;
        let mut x: u32 = 0;
        while x < c.width
            invariant
                simple_fits(*c, width as int, buf0.len() as int),
                y < c.height,
                x <= c.width,
                w == c.width,
                row as int == c.height - 1 - y,
                idx as int == y * w + x,
                buf_idx as int == row * width + x,
                buffer@.len() == buf0.len(),
                buffer@ == paint_simple(buf0, *c, width as int, idx as nat),
                cmds@ == cmds0 + simple_cmds(*c, y as nat) + seq![TermCommand::MoveTo(0, row)]
                    + simple_row_cmds(*c, y as int, x as nat),
                idx == 0 ==> last_fg == no_color() && last_bg == no_color(),
                idx > 0 ==> last_fg == c.tiles@[idx - 1].fg && last_bg == c.tiles@[idx - 1].bg,
            decreases c.width - x,
        {
            proof {
                lemma_row_major(y as int, x as int, w);
                lemma_row_bound(row as int, c.height as int, width as int, x as int, w, buf0.len() as int);
                vstd::arithmetic::mul::lemma_mul_inequality(y as int + 1, c.height as int, w);
                vstd::arithmetic::mul::lemma_mul_is_distributive_add_other_way(w, y as int, 1);
                vstd::arithmetic::mul::lemma_mul_is_commutative(w, c.height as int);
                assert(c.tiles.len() == c.tiles@.len());
                assert(buffer.len() == buffer@.len());
            }
            let ghost before = cmds@;
            let t = c.tiles[idx];
            if t.fg != last_fg {
                cmds.push(TermCommand::SetForeground(t.fg));
                last_fg = t.fg;
            }
            if t.bg != last_bg {
                cmds.push(TermCommand::SetBackground(t.bg));
                last_bg = t.bg;
            }
            cmds.push(TermCommand::Print(t.glyph));
            assert(cmds@ == before + simple_cell_cmds(*c, idx as int));
            buffer.set(buf_idx, t);
            idx = idx + 1;
            buf_idx = buf_idx + 1;
            x = x + 1;
        }
        y = y + 1;
    }
    proof {
        vstd::arithmetic::mul::lemma_mul_is_commutative(w, c.height as int);
    }
}

/// Draws a sparse console into the mirror, appending the commands that draw it.
fn draw_sparse(
    buffer: &mut Vec<OutputBuffer>,
    cmds: &mut Vec<TermCommand>,
    c: &TermConsole,
    height: u16,
)
    requires
        sparse_fits(*c, height as int, old(buffer)@.len() as int),
    ensures
        final(buffer)@.len() == old(buffer)@.len(),
        final(buffer)@ == paint_sparse(old(buffer)@, *c, height as int, c.sparse_tiles@.len()),
        final(cmds)@ == old(cmds)@ + sparse_cmds(*c, c.sparse_tiles@.len()),
{
    let ghost buf0 = buffer@;
    let ghost cmds0 = cmds@;
    let mut i: usize = 0;
    while i < c.sparse_tiles.len()
        invariant
            sparse_fits(*c, height as int, buf0.len() as int),
            i <= c.sparse_tiles@.len(),
            buffer@.len() == buf0.len(),
            buffer@ == paint_sparse(buf0, *c, height as int, i as nat),
            cmds@ == cmds0 + sparse_cmds(*c, i as nat),
        decreases c.sparse_tiles@.len() - i,
    {
        let t = c.sparse_tiles[i];
        let x: u32 = (t.idx as u32) % c.width;
        let y: u32 = (t.idx as u32) / c.width;
        let row: u16 = (c.height as u16) - ((y as u16) + 1);
        cmds.push(TermCommand::MoveTo(x as u16, row));
        cmds.push(TermCommand::SetForeground(t.fg));
        cmds.push(TermCommand::SetBackground(t.bg));
        cmds.push(TermCommand::Print(t.glyph));
        let buf_idx: usize = ((row * height) + (x as u16)) as usize;
        buffer.set(buf_idx, OutputBuffer { glyph: t.glyph, fg: t.fg, bg: t.bg });
        i = i + 1;
    }
}

} // verus!

verus! {

/// Redraws every dirty simple and sparse console on a `width` x `height`
/// terminal from scratch. Returns the new screen mirror and the terminal
/// commands that draw it; each drawn console is marked clean.
pub fn full_redraw(width: u16, height: u16, consoles: &mut Vec<TermConsole>) -> (res: (
    Vec<OutputBuffer>,
    Vec<TermCommand>,
))
    requires
        all_fit(old(consoles)@, width as int, height as int),
    ensures
        res.0@ == paint_all(
            blank_screen((width * height) as nat),
            old(consoles)@,
            width as int,
            height as int,
            old(consoles)@.len(),
        ),
        res.1@ == full_cmds(old(consoles)@, old(consoles)@.len()),
        final(consoles)@.len() == old(consoles)@.len(),
        forall|i: int|
            0 <= i < old(consoles)@.len() ==> final(consoles)@[i] == after_draw(
                #[trigger] old(consoles)@[i],
            ),
{
    assert(height as int * width as int <= 65535 * 65535) by (nonlinear_arith)
        requires
            height <= 65535,
            width <= 65535,
    ;
    proof {
        vstd::arithmetic::mul::lemma_mul_is_commutative(height as int, width as int);
    }
    let n: usize = height as usize * width as usize;
    let mut buffer: Vec<OutputBuffer> = Vec::new();
    let mut k: usize = 0;
    while k < n
        invariant
            k <= n,
            buffer@ == blank_screen(k as nat),
        decreases n - k,
    {
        buffer.push(OutputBuffer::default());
        k = k + 1;
        assert(buffer@ == blank_screen(k as nat));
    }
    let mut cmds: Vec<TermCommand> = Vec::new();
    let ghost cs0 = consoles@;
    let ghost blank = buffer@;
    let mut i: usize = 0;
    while i < consoles.len()
        invariant
            all_fit(cs0, width as int, height as int),
            consoles@.len() == cs0.len(),
            i <= cs0.len(),
            n == width * height,
            buffer@.len() == n,
            blank == blank_screen(n as nat),
            buffer@ == paint_all(blank, cs0, width as int, height as int, i as nat),
            cmds@ == full_cmds(cs0, i as nat),
            forall|j: int| 0 <= j < i ==> consoles@[j] == after_draw(#[trigger] cs0[j]),
            forall|j: int| i <= j < cs0.len() ==> #[trigger] consoles@[j] == cs0[j],
        decreases cs0.len() - i,
    {
        assert(console_fits(cs0[i as int], width as int, height as int, width * height));
        if consoles[i].is_dirty {
            match consoles[i].kind {
                TermConsoleKind::Simple => {
                    draw_simple(&mut buffer, &mut cmds, &consoles[i], width);
                    consoles[i].is_dirty = false;
                },
                TermConsoleKind::Sparse => {
                    draw_sparse(&mut buffer, &mut cmds, &consoles[i], height);
                    consoles[i].is_dirty = false;
                },
                TermConsoleKind::Other => {},
            }
        }
        i = i + 1;
    }
    (buffer, cmds)
}

} // verus!

verus! {

/// Paints a simple console over the mirror, recording each position whose cell
/// it changed.
fn diff_simple_into(buffer: &mut Vec<OutputBuffer>, dirty: &mut Vec<usize>, c: &TermConsole, width: u16)
    requires
        forall|k: int| 0 <= k < old(dirty)@.len() ==> (#[trigger] old(dirty)@[k]) < old(buffer)@.len(),
        simple_fits(*c, width as int, old(buffer)@.len() as int),
    ensures
        forall|k: int| 0 <= k < final(dirty)@.len() ==> (#[trigger] final(dirty)@[k]) < old(buffer)@.len(),
        final(buffer)@.len() == old(buffer)@.len(),
        final(buffer)@ == paint_simple(old(buffer)@, *c, width as int, (c.width * c.height) as nat),
        final(dirty)@ == old(dirty)@ + diff_simple(
            old(buffer)@,
            *c,
            width as int,
            (c.width * c.height) as nat,
        ),
{
    let ghost buf0 = buffer@;
    let ghost dirty0 = dirty@;
    let ghost w = c.width as int;
    let mut idx: usize = 0;
    let mut y: u32 = 0;
    while y < c.height
        invariant
            simple_fits(*c, width as int, buf0.len() as int),
            y <= c.height,
            idx as int == y * w,
            w == c.width,
            buffer@.len() == buf0.len(),
            buffer@ == paint_simple(buf0, *c, width as int, idx as nat),
            dirty@ == dirty0 + diff_simple(buf0, *c, width as int, idx as nat),
            forall|k: int| 0 <= k < dirty@.len() ==> (#[trigger] dirty@[k]) < buf0.len(),
        decreases c.height - y,
    {
        proof {
            vstd::arithmetic::mul::lemma_mul_is_distributive_add_other_way(w, y as int, 1);
        }
        let row: u16 = (c.height as u16) - ((y as u16) + 1);
        assert(row as int * width as int <= 65535 * 65535) by (nonlinear_arith)
            requires
                row <= 65535,
                width <= 65535,
        ;
        let mut buf_idx: usize = row as usize * width as usize;
        let mut x: u32 = 0;
        while x < c.width
            invariant
                simple_fits(*c, width as int, buf0.len() as int),
                y < c.height,
                x <= c.width,
                w == c.width,
                row as int == c.height - 1 - y,
                idx as int == y * w + x,
                (y + 1) * w == y * w + w,
                buf_idx as int == row * width + x,
                buffer@.len() == buf0.len(),
                buffer@ == paint_simple(buf0, *c, width as int, idx as nat),
                dirty@ == dirty0 + diff_simple(buf0, *c, width as int, idx as nat),
                forall|k: int| 0 <= k < dirty@.len() ==> (#[trigger] dirty@[k]) < buf0.len(),
            decreases c.width - x,
        {
            proof {
                lemma_row_major(y as int, x as int, w);
                lemma_row_bound(row as int, c.height as int, width as int, x as int, w, buf0.len() as int);
                vstd::arithmetic::mul::lemma_mul_inequality(y as int + 1, c.height as int, w);
                vstd::arithmetic::mul::lemma_mul_is_distributive_add_other_way(w, y as int, 1);
                vstd::arithmetic::mul::lemma_mul_is_commutative(w, c.height as int);
                assert(c.tiles.len() == c.tiles@.len());
                assert(buffer.len() == buffer@.len());
            }
            let t = c.tiles[idx];
            if buffer[buf_idx] != t {
                buffer.set(buf_idx, t);
                dirty.push(buf_idx);
            }
            idx = idx + 1;
            buf_idx = buf_idx + 1;
            x = x + 1;
        }
        y = y + 1;
    }
    proof {
        vstd::arithmetic::mul::lemma_mul_is_commutative(w, c.height as int);
    }
}

/// Paints a sparse console over the mirror, recording each position whose cell
/// it changed.
fn diff_sparse_into(buffer: &mut Vec<OutputBuffer>, dirty: &mut Vec<usize>, c: &TermConsole, height: u16)
    requires
        forall|k: int| 0 <= k < old(dirty)@.len() ==> (#[trigger] old(dirty)@[k]) < old(buffer)@.len(),
        sparse_fits(*c, height as int, old(buffer)@.len() as int),
    ensures
        forall|k: int| 0 <= k < final(dirty)@.len() ==> (#[trigger] final(dirty)@[k]) < old(buffer)@.len(),
        final(buffer)@.len() == old(buffer)@.len(),
        final(buffer)@ == paint_sparse(old(buffer)@, *c, height as int, c.sparse_tiles@.len()),
        final(dirty)@ == old(dirty)@ + diff_sparse(
            old(buffer)@,
            *c,
            height as int,
            c.sparse_tiles@.len(),
        ),
{
    let ghost buf0 = buffer@;
    let ghost dirty0 = dirty@;
    let mut i: usize = 0;
    while i < c.sparse_tiles.len()
        invariant
            sparse_fits(*c, height as int, buf0.len() as int),
            i <= c.sparse_tiles@.len(),
            buffer@.len() == buf0.len(),
            buffer@ == paint_sparse(buf0, *c, height as int, i as nat),
            dirty@ == dirty0 + diff_sparse(buf0, *c, height as int, i as nat),
            forall|k: int| 0 <= k < dirty@.len() ==> (#[trigger] dirty@[k]) < buf0.len(),
        decreases c.sparse_tiles@.len() - i,
    {
        let t = c.sparse_tiles[i];
        let x: u32 = (t.idx as u32) % c.width;
        let y: u32 = (t.idx as u32) / c.width;
        let row: u16 = (c.height as u16) - ((y as u16) + 1);
        let buf_idx: usize = ((row * height) + (x as u16)) as usize;
        let cell = OutputBuffer { glyph: t.glyph, fg: t.fg, bg: t.bg };
        if buffer[buf_idx] != cell {
            buffer.set(buf_idx, cell);
            dirty.push(buf_idx);
        }
        i = i + 1;
    }
}

/// Redraws the dirty simple and sparse consoles over the current screen mirror
/// of a `width` x `height` terminal. The mirror is updated in place; the
/// returned commands redraw exactly the cells that changed, in the order in
/// which they changed. Each drawn console is marked clean.
pub fn partial_redraw(
    width: u16,
    height: u16,
    buffer: &mut Vec<OutputBuffer>,
    consoles: &mut Vec<TermConsole>,
) -> (cmds: Vec<TermCommand>)
    requires
        old(buffer)@.len() == width * height,
        all_fit(old(consoles)@, width as int, height as int),
    ensures
        final(buffer)@ == paint_all(
            old(buffer)@,
            old(consoles)@,
            width as int,
            height as int,
            old(consoles)@.len(),
        ),
        cmds@ == dirty_cmds(
            final(buffer)@,
            diff_all(old(buffer)@, old(consoles)@, width as int, height as int, old(consoles)@.len()),
            width as int,
            diff_all(
                old(buffer)@,
                old(consoles)@,
                width as int,
                height as int,
                old(consoles)@.len(),
            ).len(),
        ),
        final(consoles)@.len() == old(consoles)@.len(),
        forall|i: int|
            0 <= i < old(consoles)@.len() ==> final(consoles)@[i] == after_draw(
                #[trigger] old(consoles)@[i],
            ),
{
    let ghost buf0 = buffer@;
    let ghost cs0 = consoles@;
    let mut dirty: Vec<usize> = Vec::new();
    let mut i: usize = 0;
    while i < consoles.len()
        invariant
            all_fit(cs0, width as int, height as int),
            consoles@.len() == cs0.len(),
            i <= cs0.len(),
            buf0.len() == width * height,
            buffer@.len() == buf0.len(),
            buffer@ == paint_all(buf0, cs0, width as int, height as int, i as nat),
            dirty@ == diff_all(buf0, cs0, width as int, height as int, i as nat),
            forall|k: int| 0 <= k < dirty@.len() ==> (#[trigger] dirty@[k]) < buf0.len(),
            forall|j: int| 0 <= j < i ==> consoles@[j] == after_draw(#[trigger] cs0[j]),
            forall|j: int| i <= j < cs0.len() ==> #[trigger] consoles@[j] == cs0[j],
        decreases cs0.len() - i,
    {
        assert(console_fits(cs0[i as int], width as int, height as int, width * height));
        if consoles[i].is_dirty {
            match consoles[i].kind {
                TermConsoleKind::Simple => {
                    diff_simple_into(buffer, &mut dirty, &consoles[i], width);
                    consoles[i].is_dirty = false;
                },
                TermConsoleKind::Sparse => {
                    diff_sparse_into(buffer, &mut dirty, &consoles[i], height);
                    consoles[i].is_dirty = false;
                },
                TermConsoleKind::Other => {},
            }
        }
        i = i + 1;
    }
    let ghost screen = buffer@;
    let mut cmds: Vec<TermCommand> = Vec::new();
    let mut last_fg = Rgba8::transparent_black();
    let mut last_bg = Rgba8::transparent_black();
    let mut j: usize = 0;
    while j < dirty.len()
        invariant
            screen == buffer@,
            screen.len() == width * height,
            j <= dirty@.len(),
            forall|k: int| 0 <= k < dirty@.len() ==> (#[trigger] dirty@[k]) < screen.len(),
            cmds@ == dirty_cmds(screen, dirty@, width as int, j as nat),
            j == 0 ==> last_fg == no_color() && last_bg == no_color(),
            j > 0 ==> last_fg == screen[dirty@[j - 1] as int].fg && last_bg == screen[dirty@[j
                - 1] as int].bg,
        decreases dirty@.len() - j,
    {
        let idx = dirty[j];
        assert(width > 0 && idx < width * height) by {
            if width == 0 {
                vstd::arithmetic::mul::lemma_mul_basics(height as int);
            }
        }
        proof {
            vstd::arithmetic::div_mod::lemma_div_is_ordered_by_denominator(idx as int, 1, width as int);
            vstd::arithmetic::div_mod::lemma_multiply_divide_lt(idx as int, width as int, height as int);
        }
        let x: usize = idx % (width as usize);
        let y: usize = idx / (width as usize);
        cmds.push(TermCommand::MoveTo(x as u16, y as u16));
        let t = buffer[idx];
        if t.fg != last_fg {
            cmds.push(TermCommand::SetForeground(t.fg));
            last_fg = t.fg;
        }
        if t.bg != last_bg {
            cmds.push(TermCommand::SetBackground(t.bg));
            last_bg = t.bg;
        }
        cmds.push(TermCommand::Print(t.glyph));
        j = j + 1;
    }
    cmds
}

} // verus!

verus! {

// ---------------------------------------------------------------------------
// What the terminal shows after it runs a list of commands.
/// The library's model of a terminal: cursor, current colours and cells.
pub struct TermScreen {
    pub cursor_x: int,
    pub cursor_y: int,
    pub fg: Rgba8,
    pub bg: Rgba8,
    pub cells: Seq<OutputBuffer>,
}

/// A terminal `tw` columns wide running one command. Printing writes the cell
/// under the cursor, when the cursor is on the screen, and moves it one column
/// to the right.
pub open spec fn apply_cmd(s: TermScreen, cmd: TermCommand, tw: int) -> TermScreen {
    match cmd {
        TermCommand::MoveTo(x, y) => TermScreen { cursor_x: x as int, cursor_y: y as int, ..s },
        TermCommand::SetForeground(c) => TermScreen { fg: c, ..s },
        TermCommand::SetBackground(c) => TermScreen { bg: c, ..s },
        TermCommand::Print(ch) => {
            let p = s.cursor_y * tw + s.cursor_x;
            TermScreen {
                cells: if 0 <= s.cursor_x < tw && 0 <= p < s.cells.len() {
                    s.cells.update(p, OutputBuffer { glyph: ch, fg: s.fg, bg: s.bg })
                } else {
                    s.cells
                },
                cursor_x: s.cursor_x + 1,
                ..s
            }
        },
    }
}

/// A terminal `tw` columns wide running a list of commands in order.
pub open spec fn replay(s: TermScreen, cmds: Seq<TermCommand>, tw: int) -> TermScreen
    decreases cmds.len(),
{
    if cmds.len() == 0 {
        s
    } else {
        apply_cmd(replay(s, cmds.drop_last(), tw), cmds.last(), tw)
    }
}

proof fn lemma_replay_append(s: TermScreen, a: Seq<TermCommand>, b: Seq<TermCommand>, tw: int)
    ensures
        replay(s, a + b, tw) == replay(replay(s, a, tw), b, tw),
    decreases b.len(),
{
    if b.len() == 0 {
        assert(a + b == a);
    } else {
        assert((a + b).drop_last() == a + b.drop_last());
        lemma_replay_append(s, a, b.drop_last(), tw);
    }
}

proof fn lemma_simple_pos_in_range(c: TermConsole, tw: int, len: int, k: int)
    requires
        simple_fits(c, tw, len),
        0 <= tw,
        0 <= k < c.width * c.height,
    ensures
        0 <= simple_pos(c, tw, k) < len,
{
    let w = c.width as int;
    let h = c.height as int;
    assert(w > 0) by {
        if w == 0 {
            vstd::arithmetic::mul::lemma_mul_basics(h);
        }
    }
    vstd::arithmetic::mul::lemma_mul_is_commutative(w, h);
    vstd::arithmetic::div_mod::lemma_multiply_divide_lt(k, w, h);
    vstd::arithmetic::div_mod::lemma_div_pos_is_pos(k, w);
    vstd::arithmetic::div_mod::lemma_mod_bound(k, w);
    lemma_row_bound(h - 1 - k / w, h, tw, k % w, w, len);
}

proof fn lemma_paint_simple(buf: Seq<OutputBuffer>, c: TermConsole, tw: int, n: nat)
    requires
        simple_fits(c, tw, buf.len() as int),
        0 <= tw,
        n <= c.width * c.height,
    ensures
        paint_simple(buf, c, tw, n).len() == buf.len(),
        forall|k: int|
            0 <= k < diff_simple(buf, c, tw, n).len() ==> (#[trigger] diff_simple(
                buf,
                c,
                tw,
                n,
            )[k]) < buf.len(),
        forall|p: int|
            0 <= p < buf.len() && #[trigger] paint_simple(buf, c, tw, n)[p] != buf[p]
                ==> diff_simple(buf, c, tw, n).contains(p as usize),
    decreases n,
{
    if n > 0 {
        let m = (n - 1) as nat;
        lemma_paint_simple(buf, c, tw, m);
        lemma_simple_pos_in_range(c, tw, buf.len() as int, m as int);
        let before = paint_simple(buf, c, tw, m);
        let pos = simple_pos(c, tw, m as int);
        let d0 = diff_simple(buf, c, tw, m);
        let d1 = diff_simple(buf, c, tw, n);
        assert forall|k: int| 0 <= k < d1.len() implies (#[trigger] d1[k]) < buf.len() by {
            if k < d0.len() {
                assert(d1[k] == d0[k]);
            }
        }
        assert forall|p: int|
            0 <= p < buf.len() && #[trigger] paint_simple(buf, c, tw, n)[p] != buf[p] implies d1.contains(
            p as usize) by {
            if p != pos {
                assert(paint_simple(buf, c, tw, n)[p] == before[p]);
                let j = choose|j: int| 0 <= j < d0.len() && d0[j] == p as usize;
                assert(d1[j] == d0[j]);
            } else if before[pos] != c.tiles@[m as int] {
                assert(d1[d0.len() as int] == pos as usize);
            } else {
                let j = choose|j: int| 0 <= j < d0.len() && d0[j] == p as usize;
                assert(d1[j] == d0[j]);
            }
        }
    }
}

proof fn lemma_paint_sparse(buf: Seq<OutputBuffer>, c: TermConsole, th: int, n: nat)
    requires
        sparse_fits(c, th, buf.len() as int),
        0 <= th,
        n <= c.sparse_tiles@.len(),
    ensures
        paint_sparse(buf, c, th, n).len() == buf.len(),
        forall|k: int|
            0 <= k < diff_sparse(buf, c, th, n).len() ==> (#[trigger] diff_sparse(
                buf,
                c,
                th,
                n,
            )[k]) < buf.len(),
        forall|p: int|
            0 <= p < buf.len() && #[trigger] paint_sparse(buf, c, th, n)[p] != buf[p]
                ==> diff_sparse(buf, c, th, n).contains(p as usize),
    decreases n,
{
    if n > 0 {
        let m = (n - 1) as nat;
        lemma_paint_sparse(buf, c, th, m);
        let t = c.sparse_tiles@[m as int];
        let before = paint_sparse(buf, c, th, m);
        let pos = sparse_pos(c, th, t);
        let d0 = diff_sparse(buf, c, th, m);
        let d1 = diff_sparse(buf, c, th, n);
        vstd::arithmetic::mul::lemma_mul_nonnegative(flip_row(c.height, sparse_y(c.width, t.idx)), th);
        assert(0 <= pos < buf.len());
        assert forall|k: int| 0 <= k < d1.len() implies (#[trigger] d1[k]) < buf.len() by {
            if k < d0.len() {
                assert(d1[k] == d0[k]);
            }
        }
        assert forall|p: int|
            0 <= p < buf.len() && #[trigger] paint_sparse(buf, c, th, n)[p] != buf[p] implies d1.contains(
            p as usize) by {
            if p != pos {
                assert(paint_sparse(buf, c, th, n)[p] == before[p]);
                let j = choose|j: int| 0 <= j < d0.len() && d0[j] == p as usize;
                assert(d1[j] == d0[j]);
            } else if before[pos] != sparse_cell(t) {
                assert(d1[d0.len() as int] == pos as usize);
            } else {
                let j = choose|j: int| 0 <= j < d0.len() && d0[j] == p as usize;
                assert(d1[j] == d0[j]);
            }
        }
    }
}

proof fn lemma_paint_all(buf: Seq<OutputBuffer>, cs: Seq<TermConsole>, tw: int, th: int, n: nat)
    requires
        buf.len() == tw * th,
        0 <= tw,
        0 <= th,
        all_fit(cs, tw, th),
        n <= cs.len(),
    ensures
        paint_all(buf, cs, tw, th, n).len() == buf.len(),
        forall|k: int|
            0 <= k < diff_all(buf, cs, tw, th, n).len() ==> (#[trigger] diff_all(
                buf,
                cs,
                tw,
                th,
                n,
            )[k]) < buf.len(),
        forall|p: int|
            0 <= p < buf.len() && #[trigger] paint_all(buf, cs, tw, th, n)[p] != buf[p]
                ==> diff_all(buf, cs, tw, th, n).contains(p as usize),
    decreases n,
{
    if n > 0 {
        let m = (n - 1) as nat;
        lemma_paint_all(buf, cs, tw, th, m);
        let mid = paint_all(buf, cs, tw, th, m);
        let c = cs[m as int];
        assert(console_fits(c, tw, th, tw * th));
        let dc = diff_console(mid, c, tw, th);
        if c.is_dirty {
            match c.kind {
                TermConsoleKind::Simple => {
                    lemma_paint_simple(mid, c, tw, (c.width * c.height) as nat);
                },
                TermConsoleKind::Sparse => {
                    lemma_paint_sparse(mid, c, th, c.sparse_tiles@.len());
                },
                TermConsoleKind::Other => {},
            }
        }
        assert(forall|p: int|
            0 <= p < mid.len() && #[trigger] paint_console(mid, c, tw, th)[p] != mid[p]
                ==> dc.contains(p as usize));
        assert(forall|k: int| 0 <= k < dc.len() ==> (#[trigger] dc[k]) < mid.len());
        let d0 = diff_all(buf, cs, tw, th, m);
        let d1 = diff_all(buf, cs, tw, th, n);
        assert(d1 == d0 + dc);
        assert forall|k: int| 0 <= k < d1.len() implies (#[trigger] d1[k]) < buf.len() by {
            if k < d0.len() {
                assert(d1[k] == d0[k]);
            } else {
                assert(d1[k] == dc[k - d0.len()]);
            }
        }
        assert forall|p: int|
            0 <= p < buf.len() && #[trigger] paint_all(buf, cs, tw, th, n)[p] != buf[p] implies d1.contains(
            p as usize) by {
            if mid[p] != buf[p] {
                let j = choose|j: int| 0 <= j < d0.len() && d0[j] == p as usize;
                assert(d1[j] == d0[j]);
            } else {
                assert(paint_console(mid, c, tw, th)[p] != mid[p]);
                let j = choose|j: int| 0 <= j < dc.len() && dc[j] == p as usize;
                assert(d1[d0.len() + j] == dc[j]);
            }
        }
    }
}

} // verus!

verus! {

proof fn lemma_replay_one(s: TermScreen, c: TermCommand, tw: int)
    ensures
        replay(s, seq![c], tw) == apply_cmd(s, c, tw),
{
    reveal_with_fuel(replay, 2);
    assert(seq![c].drop_last() == Seq::<TermCommand>::empty());
}

proof fn lemma_replay_colors(s: TermScreen, prev_fg: Rgba8, prev_bg: Rgba8, fg: Rgba8, bg: Rgba8, tw: int)
    requires
        s.fg == prev_fg,
        s.bg == prev_bg,
    ensures
        ({
            let r = replay(s, color_cmds(prev_fg, prev_bg, fg, bg), tw);
            r == TermScreen { fg: fg, bg: bg, ..s }
        }),
{
    let a: Seq<TermCommand> = if fg != prev_fg {
        seq![TermCommand::SetForeground(fg)]
    } else {
        seq![]
    };
    let b: Seq<TermCommand> = if bg != prev_bg {
        seq![TermCommand::SetBackground(bg)]
    } else {
        seq![]
    };
    lemma_replay_append(s, a, b, tw);
    let s1 = replay(s, a, tw);
    if fg != prev_fg {
        lemma_replay_one(s, TermCommand::SetForeground(fg), tw);
    }
    assert(s1 == TermScreen { fg: fg, ..s });
    if bg != prev_bg {
        lemma_replay_one(s1, TermCommand::SetBackground(bg), tw);
    }
}

proof fn lemma_replay_dirty(
    s0: TermScreen,
    old: Seq<OutputBuffer>,
    new: Seq<OutputBuffer>,
    d: Seq<usize>,
    width: u16,
    height: u16,
    n: nat,
)
    requires
        s0.cells == old,
        s0.fg == no_color(),
        s0.bg == no_color(),
        old.len() == width * height,
        new.len() == old.len(),
        forall|k: int| 0 <= k < d.len() ==> (#[trigger] d[k]) < old.len(),
        n <= d.len(),
    ensures
        ({
            let r = replay(s0, dirty_cmds(new, d, width as int, n), width as int);
            &&& r.cells.len() == old.len()
            &&& n == 0 ==> r.fg == no_color() && r.bg == no_color()
            &&& n > 0 ==> r.fg == new[d[n - 1] as int].fg && r.bg == new[d[n - 1] as int].bg
            &&& forall|p: int|
                0 <= p < old.len() ==> #[trigger] r.cells[p] == if d.take(n as int).contains(
                    p as usize,
                ) {
                    new[p]
                } else {
                    old[p]
                }
        }),
    decreases n,
{
    let tw = width as int;
    assert(width as int * height as int <= 65535 * 65535) by (nonlinear_arith)
        requires
            width <= 65535,
            height <= 65535,
    ;
    if n == 0 {
        assert(d.take(0) == Seq::<usize>::empty());
    } else {
        let m = (n - 1) as nat;
        lemma_replay_dirty(s0, old, new, d, width, height, m);
        let r0 = replay(s0, dirty_cmds(new, d, tw, m), tw);
        let idx = d[m as int];
        let t = new[idx as int];
        assert(width > 0) by {
            if width == 0 {
                vstd::arithmetic::mul::lemma_mul_basics(height as int);
            }
        }
        vstd::arithmetic::div_mod::lemma_fundamental_div_mod(idx as int, tw);
        vstd::arithmetic::div_mod::lemma_mod_bound(idx as int, tw);
        vstd::arithmetic::div_mod::lemma_div_pos_is_pos(idx as int, tw);
        vstd::arithmetic::div_mod::lemma_multiply_divide_lt(idx as int, tw, height as int);
        let x = (idx % (tw as usize)) as u16;
        let y = (idx / (tw as usize)) as u16;
        assert(x as int == idx as int % tw);
        assert(y as int == idx as int / tw);
        let mv = seq![TermCommand::MoveTo(x, y)];
        let prev_fg = if n == 1 {
            no_color()
        } else {
            new[d[n - 2] as int].fg
        };
        let prev_bg = if n == 1 {
            no_color()
        } else {
            new[d[n - 2] as int].bg
        };
        let cc = color_cmds(prev_fg, prev_bg, t.fg, t.bg);
        let pr = seq![TermCommand::Print(t.glyph)];
        assert(dirty_cmds(new, d, tw, n) == dirty_cmds(new, d, tw, m) + mv + (cc + pr));
        lemma_replay_append(s0, dirty_cmds(new, d, tw, m) + mv, cc + pr, tw);
        lemma_replay_append(s0, dirty_cmds(new, d, tw, m), mv, tw);
        lemma_replay_one(r0, TermCommand::MoveTo(x, y), tw);
        let r1 = apply_cmd(r0, TermCommand::MoveTo(x, y), tw);
        lemma_replay_append(r1, cc, pr, tw);
        lemma_replay_colors(r1, prev_fg, prev_bg, t.fg, t.bg, tw);
        let r2 = TermScreen { fg: t.fg, bg: t.bg, ..r1 };
        lemma_replay_one(r2, TermCommand::Print(t.glyph), tw);
        let r3 = apply_cmd(r2, TermCommand::Print(t.glyph), tw);
        vstd::arithmetic::mul::lemma_mul_is_commutative(tw, idx as int / tw);
        assert(r2.cursor_y * tw + r2.cursor_x == idx);
        assert(r3.cells == r0.cells.update(idx as int, t));
        assert(replay(s0, dirty_cmds(new, d, tw, n), tw) == r3);
        assert forall|p: int| 0 <= p < old.len() implies #[trigger] r3.cells[p] == if d.take(
            n as int,
        ).contains(p as usize) {
            new[p]
        } else {
            old[p]
        } by {
            let tn = d.take(n as int);
            let tm = d.take(m as int);
            assert((p as usize) as int == p);
            assert(tn == tm.push(idx));
            assert(tn[m as int] == idx);
            if p == idx {
                assert(tn[m as int] == idx);
            } else {
                if tn.contains(p as usize) {
                    let j = choose|j: int| 0 <= j < tn.len() && tn[j] == p as usize;
                    assert(tm[j] == tn[j]);
                }
                if tm.contains(p as usize) {
                    let j = choose|j: int| 0 <= j < tm.len() && tm[j] == p as usize;
                    assert(tn[j] == tm[j]);
                }
            }
        }
    }
}

/// The colours in force after the first `k` cells of a simple console are
/// drawn: those of cell `k - 1`, or no colour before the first.
pub open spec fn simple_colors_after(c: TermConsole, k: int) -> (Rgba8, Rgba8) {
    if k == 0 {
        (no_color(), no_color())
    } else {
        (c.tiles@[k - 1].fg, c.tiles@[k - 1].bg)
    }
}

proof fn lemma_replay_simple_row(
    s: TermScreen,
    buf: Seq<OutputBuffer>,
    c: TermConsole,
    tw: int,
    y: int,
    n: nat,
)
    requires
        simple_fits(c, tw, buf.len() as int),
        0 <= tw,
        c.width <= tw,
        0 <= y < c.height,
        n <= c.width,
        s.cursor_x == 0,
        s.cursor_y == c.height - 1 - y,
        s.cells == paint_simple(buf, c, tw, (y * c.width) as nat),
        (s.fg, s.bg) == simple_colors_after(c, y * c.width),
    ensures
        ({
            let r = replay(s, simple_row_cmds(c, y, n), tw);
            &&& r.cursor_x == n
            &&& r.cursor_y == s.cursor_y
            &&& r.cells == paint_simple(buf, c, tw, (y * c.width + n) as nat)
            &&& (r.fg, r.bg) == simple_colors_after(c, y * c.width + n)
        }),
    decreases n,
{
    let w = c.width as int;
    vstd::arithmetic::mul::lemma_mul_nonnegative(y, w);
    if n > 0 {
        let m = (n - 1) as nat;
        lemma_replay_simple_row(s, buf, c, tw, y, m);
        let r0 = replay(s, simple_row_cmds(c, y, m), tw);
        let k = y * w + m;
        let t = c.tiles@[k];
        let prev = simple_colors_after(c, k);
        lemma_replay_append(s, simple_row_cmds(c, y, m), simple_cell_cmds(c, k), tw);
        let cc = color_cmds(prev.0, prev.1, t.fg, t.bg);
        assert(simple_cell_cmds(c, k) == cc + seq![TermCommand::Print(t.glyph)]);
        lemma_replay_append(r0, cc, seq![TermCommand::Print(t.glyph)], tw);
        lemma_replay_colors(r0, prev.0, prev.1, t.fg, t.bg, tw);
        let r1 = replay(r0, cc, tw);
        lemma_replay_one(r1, TermCommand::Print(t.glyph), tw);
        lemma_row_major(y, m as int, w);
        vstd::arithmetic::mul::lemma_mul_inequality(y + 1, c.height as int, w);
        vstd::arithmetic::mul::lemma_mul_is_distributive_add_other_way(w, y, 1);
        vstd::arithmetic::mul::lemma_mul_is_commutative(w, c.height as int);
        lemma_simple_pos_in_range(c, tw, buf.len() as int, k);
        lemma_paint_simple(buf, c, tw, k as nat);
        assert(simple_pos(c, tw, k) == (c.height - 1 - y) * tw + m);
        assert(OutputBuffer { glyph: t.glyph, fg: t.fg, bg: t.bg } == t);
    }
}

proof fn lemma_replay_simple_rows(s: TermScreen, buf: Seq<OutputBuffer>, c: TermConsole, tw: int, ny: nat)
    requires
        simple_fits(c, tw, buf.len() as int),
        0 <= tw,
        c.width <= tw,
        ny <= c.height,
        s.cells == buf,
        s.fg == no_color(),
        s.bg == no_color(),
    ensures
        ({
            let r = replay(s, simple_cmds(c, ny), tw);
            &&& r.cells == paint_simple(buf, c, tw, (ny * c.width) as nat)
            &&& (r.fg, r.bg) == simple_colors_after(c, ny * c.width)
        }),
    decreases ny,
{
    let w = c.width as int;
    if ny == 0 {
        assert(0 * w == 0);
    } else {
        let y = ny - 1;
        lemma_replay_simple_rows(s, buf, c, tw, y as nat);
        let r0 = replay(s, simple_cmds(c, y as nat), tw);
        let mv = TermCommand::MoveTo(0, flip_row(c.height, y as u16) as u16);
        lemma_replay_append(s, simple_cmds(c, y as nat) + seq![mv], simple_row_cmds(c, y, c.width as nat), tw);
        lemma_replay_append(s, simple_cmds(c, y as nat), seq![mv], tw);
        lemma_replay_one(r0, mv, tw);
        let r1 = apply_cmd(r0, mv, tw);
        assert(r1.cursor_y == c.height - 1 - y);
        vstd::arithmetic::mul::lemma_mul_is_distributive_add_other_way(w, y, 1);
        vstd::arithmetic::mul::lemma_mul_is_commutative(w, y);
        vstd::arithmetic::mul::lemma_mul_is_commutative(w, ny as int);
        lemma_replay_simple_row(r1, buf, c, tw, y, c.width as nat);
    }
}

proof fn lemma_replay_sparse(s: TermScreen, buf: Seq<OutputBuffer>, c: TermConsole, tw: int, n: nat)
    requires
        sparse_fits(c, tw, buf.len() as int),
        0 <= tw,
        c.width <= tw,
        n <= c.sparse_tiles@.len(),
        s.cells == buf,
    ensures
        replay(s, sparse_cmds(c, n), tw).cells == paint_sparse(buf, c, tw, n),
        n > 0 ==> replay(s, sparse_cmds(c, n), tw).cells.len() == buf.len(),
    decreases n,
{
    if n > 0 {
        let m = (n - 1) as nat;
        lemma_replay_sparse(s, buf, c, tw, m);
        lemma_paint_sparse(buf, c, tw, m);
        let r0 = replay(s, sparse_cmds(c, m), tw);
        let t = c.sparse_tiles@[m as int];
        let x = sparse_x(c.width, t.idx);
        let row = flip_row(c.height, sparse_y(c.width, t.idx));
        let a = TermCommand::MoveTo(x, row as u16);
        let b = TermCommand::SetForeground(t.fg);
        let d = TermCommand::SetBackground(t.bg);
        let e = TermCommand::Print(t.glyph);
        assert(sparse_glyph_cmds(c, t) == seq![a] + seq![b] + seq![d] + seq![e]);
        lemma_replay_append(s, sparse_cmds(c, m), sparse_glyph_cmds(c, t), tw);
        lemma_replay_append(r0, seq![a] + seq![b] + seq![d], seq![e], tw);
        lemma_replay_append(r0, seq![a] + seq![b], seq![d], tw);
        lemma_replay_append(r0, seq![a], seq![b], tw);
        lemma_replay_one(r0, a, tw);
        let r1 = apply_cmd(r0, a, tw);
        lemma_replay_one(r1, b, tw);
        let r2 = apply_cmd(r1, b, tw);
        lemma_replay_one(r2, d, tw);
        let r3 = apply_cmd(r2, d, tw);
        lemma_replay_one(r3, e, tw);
        assert(0 <= row);
        assert(x < c.width) by {
            vstd::arithmetic::div_mod::lemma_mod_bound(t.idx as u32 as int, c.width as int);
        }
        vstd::arithmetic::mul::lemma_mul_nonnegative(row, tw);
        assert(sparse_pos(c, tw, t) == r3.cursor_y * tw + r3.cursor_x);
        assert(OutputBuffer { glyph: t.glyph, fg: t.fg, bg: t.bg } == sparse_cell(t));
    }
}

/// Replaying the commands of a full redraw of one dirty sparse console, no
/// wider than a square terminal, on a terminal that shows blank cells, leaves
/// the terminal showing exactly the mirror that the full redraw returns, each
/// glyph in its own colours. (On a terminal that is not square the glyph rows
/// of the mirror are scaled by the terminal's height, and the mirror does not
/// match the screen.)
pub proof fn full_redraw_of_sparse_console_shows_its_mirror(
    c: TermConsole,
    width: u16,
    height: u16,
    s: TermScreen,
)
    requires
        c.kind == TermConsoleKind::Sparse,
        c.is_dirty,
        width == height,
        all_fit(seq![c], width as int, height as int),
        c.width <= width,
        s.cells == blank_screen((width * height) as nat),
    ensures
        replay(s, full_cmds(seq![c], 1), width as int).cells == paint_all(
            blank_screen((width * height) as nat),
            seq![c],
            width as int,
            height as int,
            1,
        ),
{
    let cs = seq![c];
    assert(cs[0] == c);
    assert(console_fits(cs[0], width as int, height as int, width * height));
    let buf = blank_screen((width * height) as nat);
    assert(full_cmds(cs, 0) == Seq::<TermCommand>::empty());
    assert(console_cmds(c) == sparse_cmds(c, c.sparse_tiles@.len()));
    assert(full_cmds(cs, 1) == full_cmds(cs, 0) + console_cmds(cs[0]));
    assert(full_cmds(cs, 1) =~= sparse_cmds(c, c.sparse_tiles@.len()));
    assert(paint_all(buf, cs, width as int, height as int, 0) == buf);
    assert(paint_all(buf, cs, width as int, height as int, 1) == paint_console(buf, c, width as int, height as int));
    lemma_replay_sparse(s, buf, c, width as int, c.sparse_tiles@.len());
}

/// Replaying the commands of a full redraw of one dirty simple console, no
/// wider than the terminal, on a terminal that shows blank cells with no
/// colour in force, leaves the terminal showing exactly the mirror that the
/// full redraw returns: every cell printed with its own glyph, foreground and
/// background.
pub proof fn full_redraw_shows_its_mirror(c: TermConsole, width: u16, height: u16, s: TermScreen)
    requires
        c.kind == TermConsoleKind::Simple,
        c.is_dirty,
        all_fit(seq![c], width as int, height as int),
        c.width <= width,
        s.cells == blank_screen((width * height) as nat),
        s.fg == no_color(),
        s.bg == no_color(),
    ensures
        replay(s, full_cmds(seq![c], 1), width as int).cells == paint_all(
            blank_screen((width * height) as nat),
            seq![c],
            width as int,
            height as int,
            1,
        ),
{
    let cs = seq![c];
    assert(cs[0] == c);
    assert(console_fits(cs[0], width as int, height as int, width * height));
    let buf = blank_screen((width * height) as nat);
    assert(full_cmds(cs, 0) == Seq::<TermCommand>::empty());
    assert(console_cmds(c) == simple_cmds(c, c.height as nat));
    assert(full_cmds(cs, 1) == full_cmds(cs, 0) + console_cmds(cs[0]));
    assert(full_cmds(cs, 1) =~= simple_cmds(c, c.height as nat));
    assert(paint_all(buf, cs, width as int, height as int, 0) == buf);
    assert(paint_all(buf, cs, width as int, height as int, 1) == paint_console(buf, c, width as int, height as int));
    lemma_replay_simple_rows(s, buf, c, width as int, c.height as nat);
    vstd::arithmetic::mul::lemma_mul_is_commutative(c.height as int, c.width as int);
}

/// Replaying the commands of a partial redraw on a terminal that shows the old
/// mirror, with the colours that a redraw starts from (all zero) in force,
/// leaves the terminal showing the new mirror.
pub proof fn partial_redraw_reproduces_mirror(
    buf: Seq<OutputBuffer>,
    cs: Seq<TermConsole>,
    width: u16,
    height: u16,
    cursor_x: int,
    cursor_y: int,
)
    requires
        buf.len() == width * height,
        all_fit(cs, width as int, height as int),
    ensures
        ({
            let new = paint_all(buf, cs, width as int, height as int, cs.len());
            let d = diff_all(buf, cs, width as int, height as int, cs.len());
            let s0 = TermScreen {
                cursor_x: cursor_x,
                cursor_y: cursor_y,
                fg: no_color(),
                bg: no_color(),
                cells: buf,
            };
            replay(s0, dirty_cmds(new, d, width as int, d.len()), width as int).cells == new
        }),
{
    let tw = width as int;
    let th = height as int;
    let new = paint_all(buf, cs, tw, th, cs.len());
    let d = diff_all(buf, cs, tw, th, cs.len());
    let s0 = TermScreen {
        cursor_x: cursor_x,
        cursor_y: cursor_y,
        fg: no_color(),
        bg: no_color(),
        cells: buf,
    };
    lemma_paint_all(buf, cs, tw, th, cs.len());
    lemma_replay_dirty(s0, buf, new, d, width, height, d.len());
    let r = replay(s0, dirty_cmds(new, d, tw, d.len()), tw);
    assert(d.take(d.len() as int) == d);
    assert forall|p: int| 0 <= p < buf.len() implies r.cells[p] == new[p] by {
        if !d.contains(p as usize) {
            assert(new[p] == buf[p]);
        }
    }
    assert(r.cells == new);
}

} // verus!

verus! {

proof fn lemma_clean_paint(buf: Seq<OutputBuffer>, cs: Seq<TermConsole>, tw: int, th: int, n: nat)
    requires
        n <= cs.len(),
        forall|i: int| 0 <= i < cs.len() ==> !(#[trigger] cs[i]).is_dirty || cs[i].kind
            == TermConsoleKind::Other,
    ensures
        paint_all(buf, cs, tw, th, n) == buf,
        diff_all(buf, cs, tw, th, n) == Seq::<usize>::empty(),
    decreases n,
{
    if n > 0 {
        lemma_clean_paint(buf, cs, tw, th, (n - 1) as nat);
        assert(!cs[n - 1].is_dirty || cs[n - 1].kind == TermConsoleKind::Other);
    }
}

/// Once a full redraw has drawn the consoles, a partial redraw of the same
/// consoles changes nothing and emits no command.
pub proof fn partial_after_full_redraw_is_empty(
    buf: Seq<OutputBuffer>,
    cs: Seq<TermConsole>,
    width: u16,
    height: u16,
)
    ensures
        ({
            let drawn = cs.map_values(|c: TermConsole| after_draw(c));
            let d = diff_all(buf, drawn, width as int, height as int, drawn.len());
            &&& paint_all(buf, drawn, width as int, height as int, drawn.len()) == buf
            &&& d.len() == 0
            &&& dirty_cmds(buf, d, width as int, d.len()) == Seq::<TermCommand>::empty()
        }),
{
    let drawn = cs.map_values(|c: TermConsole| after_draw(c));
    assert forall|i: int| 0 <= i < drawn.len() implies !(#[trigger] drawn[i]).is_dirty
        || drawn[i].kind == TermConsoleKind::Other by {
        assert(drawn[i] == after_draw(cs[i]));
    }
    lemma_clean_paint(buf, drawn, width as int, height as int, drawn.len());
}

} // verus!

verus! {

/// Whether a dirty simple console fits, as `simple_fits` says.
fn simple_console_fits(c: &TermConsole, tw: u16, len: usize) -> (r: bool)
    ensures
        r == simple_fits(*c, tw as int, len as int),
{
    if c.height > 65535 {
        return false;
    }
    assert(c.width as int * c.height as int <= 0xffff_ffff * 65535) by (nonlinear_arith)
        requires
            c.width <= 0xffff_ffff,
            c.height <= 65535,
    ;
    let cells: u64 = c.width as u64 * c.height as u64;
    if (c.tiles.len() as u64) < cells {
        return false;
    }
    if c.width > 0 && c.height > 0 {
        assert((c.height - 1) * tw <= 65535 * 65535) by (nonlinear_arith)
            requires
                c.height <= 65535,
                tw <= 65535,
                c.height >= 1,
        ;
        let last: u64 = (c.height as u64 - 1) * tw as u64 + c.width as u64;
        last <= len as u64
    } else {
        true
    }
}

/// Whether a dirty sparse console fits, as `sparse_fits` says.
fn sparse_console_fits(c: &TermConsole, th: u16, len: usize) -> (r: bool)
    ensures
        r == sparse_fits(*c, th as int, len as int),
{
    if c.sparse_tiles.len() > 0 && c.width == 0 {
        return false;
    }
    let mut i: usize = 0;
    while i < c.sparse_tiles.len()
        invariant
            i <= c.sparse_tiles@.len(),
            c.sparse_tiles@.len() > 0 ==> c.width > 0,
            forall|j: int|
                #![trigger c.sparse_tiles@[j]]
                0 <= j < i ==> {
                    let t = c.sparse_tiles@[j];
                    &&& sparse_y(c.width, t.idx) + 1 <= (c.height as u16)
                    &&& sparse_pos(*c, th as int, t) <= u16::MAX
                    &&& sparse_pos(*c, th as int, t) < len
                },
        decreases c.sparse_tiles@.len() - i,
    {
        let t = c.sparse_tiles[i];
        let x: u16 = ((t.idx as u32) % c.width) as u16;
        let y: u16 = ((t.idx as u32) / c.width) as u16;
        let h: u16 = c.height as u16;
        if y as u32 + 1 > h as u32 {
            return false;
        }
        let row: u32 = h as u32 - (y as u32 + 1);
        assert(row * th <= 65535 * 65535) by (nonlinear_arith)
            requires
                row <= 65535,
                th <= 65535,
        ;
        let pos: u64 = row as u64 * th as u64 + x as u64;
        if pos > 65535 || pos >= len as u64 {
            return false;
        }
        i = i + 1;
    }
    true
}

/// Whether every console can be drawn on a `width` x `height` terminal, as the
/// redraws require.
pub fn consoles_fit(width: u16, height: u16, consoles: &Vec<TermConsole>) -> (r: bool)
    ensures
        r == all_fit(consoles@, width as int, height as int),
{
    assert(height as int * width as int <= 65535 * 65535) by (nonlinear_arith)
        requires
            height <= 65535,
            width <= 65535,
    ;
    proof {
        vstd::arithmetic::mul::lemma_mul_is_commutative(height as int, width as int);
    }
    let len: usize = height as usize * width as usize;
    let mut i: usize = 0;
    while i < consoles.len()
        invariant
            i <= consoles@.len(),
            len == width * height,
            forall|j: int|
                #![trigger consoles@[j]]
                0 <= j < i ==> console_fits(consoles@[j], width as int, height as int, width * height),
        decreases consoles@.len() - i,
    {
        let c = &consoles[i];
        if c.is_dirty {
            let ok = match c.kind {
                TermConsoleKind::Simple => simple_console_fits(c, width, len),
                TermConsoleKind::Sparse => sparse_console_fits(c, height, len),
                TermConsoleKind::Other => true,
            };
            if !ok {
                return false;
            }
        }
        i = i + 1;
    }
    true
}

} // verus!
