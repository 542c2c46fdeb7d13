//! The curses back-end's screen mirror.
//!
//! Like the other terminal back-end, it keeps a mirror of the screen, row-major,
//! and redraws either everything or the cells that changed. Curses draws with
//! colour pairs: the back-end looks up the palette entry nearest to each new
//! foreground and background colour, and a pair numbers a background and
//! foreground entry as `background * 16 + foreground`. Every console is drawn,
//! dirty or not.
use vstd::prelude::*;
use crate::seqs::lemma_row_major;
use crate::term::{OutputBuffer, Rgba8, SparseCell, TermConsole, TermConsoleKind, blank_screen, no_color};

verus! {

/// A curses command, as the redraws emit them.
#[derive(Clone, Copy, PartialEq, Eq, Debug, Structural)]
pub enum CursesCommand {
    /// Clear the window.
    Clear,
    /// Start a run of cells: the current palette entries are both 0 again.
    ResetPalette,
    /// Look up the palette entry nearest to this colour for the foreground.
    SetForeground(Rgba8),
    /// Look up the palette entry nearest to this colour for the background.
    SetBackground(Rgba8),
    /// Select the colour pair of the current entries.
    AttrSet,
    /// Put a character at (row, column).
    MvAddCh(i32, i32, char),
    /// Show what was drawn.
    Refresh,
}

/// The colour pair of a background and a foreground palette entry, as the
/// curses attribute wants it; fails when the pair number is negative.
pub fn color_pair(cp_bg: i16, cp_fg: i16) -> (pair: Option<u32>)
    requires
        i16::MIN <= cp_bg * 16 <= i16::MAX,
        i16::MIN <= cp_bg * 16 + cp_fg <= i16::MAX,
    ensures
        cp_bg * 16 + cp_fg >= 0 ==> pair == Some((cp_bg * 16 + cp_fg) as u32),
        cp_bg * 16 + cp_fg < 0 ==> pair is None,
{
    let pair: i16 = (cp_bg * 16) + cp_fg;
    if pair >= 0 {
        Some(pair as u32)
    } else {
        None
    }
}

/// Terminal row of console row `y` (console rows count from the bottom).
pub open spec fn curses_row(c: TermConsole, y: int) -> int {
    c.height - (y + 1)
}

/// Column of a sparse glyph in its console.
pub open spec fn glyph_x(c: TermConsole, t: SparseCell) -> int {
    ((t.idx as u32) % c.width) as int
}

/// Row (from the bottom) of a sparse glyph in its console.
pub open spec fn glyph_y(c: TermConsole, t: SparseCell) -> int {
    ((t.idx as u32) / c.width) as int
}

/// Mirror position of cell `k` of a simple console, rows `stride` cells apart.
pub open spec fn simple_at(c: TermConsole, stride: int, k: int) -> int {
    curses_row(c, k / (c.width as int)) * stride + k % (c.width as int)
}

/// Mirror position of a sparse glyph, rows `stride` cells apart.
pub open spec fn sparse_at(c: TermConsole, stride: int, t: SparseCell) -> int {
    curses_row(c, glyph_y(c, t)) * stride + glyph_x(c, t)
}

/// A console can be drawn with rows `stride` cells apart into a mirror of
/// `len` cells.
pub open spec fn curses_fits(c: TermConsole, stride: int, len: int) -> bool {
    &&& c.height <= i32::MAX
    &&& c.width <= i32::MAX
    &&& 0 <= stride
    &&& match c.kind {
        TermConsoleKind::Simple => {
            &&& c.tiles@.len() >= c.width * c.height
            &&& (c.width > 0 && c.height > 0 ==> (c.height - 1) * stride + c.width <= len)
        },
        TermConsoleKind::Sparse => {
            &&& c.sparse_tiles@.len() > 0 ==> c.width > 0
            &&& forall|i: int|
                #![trigger c.sparse_tiles@[i]]
                0 <= i < c.sparse_tiles@.len() ==> {
                    let t = c.sparse_tiles@[i];
                    &&& glyph_y(c, t) < c.height
                    &&& sparse_at(c, stride, t) < len
                }
        },
        TermConsoleKind::Other => true,
    }
}

pub open spec fn all_curses_fit(cs: Seq<TermConsole>, stride: int, len: int) -> bool {
    forall|i: int| #![trigger cs[i]] 0 <= i < cs.len() ==> curses_fits(cs[i], stride, len)
}

/// The mirror after the first `n` cells of a simple console are written.
pub open spec fn paint_simple_at(buf: Seq<OutputBuffer>, c: TermConsole, stride: int, n: nat) -> Seq<
    OutputBuffer,
>
    decreases n,
{
    if n == 0 {
        buf
    } else {
        paint_simple_at(buf, c, stride, (n - 1) as nat).update(simple_at(c, stride, n - 1), c.tiles@[n - 1])
    }
}

/// The mirror after the first `n` glyphs of a sparse console are written.
pub open spec fn paint_sparse_at(buf: Seq<OutputBuffer>, c: TermConsole, stride: int, n: nat) -> Seq<
    OutputBuffer,
>
    decreases n,
{
    if n == 0 {
        buf
    } else {
        let t = c.sparse_tiles@[n - 1];
        paint_sparse_at(buf, c, stride, (n - 1) as nat).update(
            sparse_at(c, stride, t),
            OutputBuffer { glyph: t.glyph, fg: t.fg, bg: t.bg },
        )
    }
}

/// The mirror after a console is drawn.
pub open spec fn paint_console_at(buf: Seq<OutputBuffer>, c: TermConsole, stride: int) -> Seq<OutputBuffer> {
    match c.kind {
        TermConsoleKind::Simple => paint_simple_at(buf, c, stride, (c.width * c.height) as nat),
        TermConsoleKind::Sparse => paint_sparse_at(buf, c, stride, c.sparse_tiles@.len()),
        TermConsoleKind::Other => buf,
    }
}

/// The mirror after the first `n` consoles are drawn, in order.
pub open spec fn paint_all_at(buf: Seq<OutputBuffer>, cs: Seq<TermConsole>, stride: int, n: nat) -> Seq<
    OutputBuffer,
>
    decreases n,
{
    if n == 0 {
        buf
    } else {
        paint_console_at(paint_all_at(buf, cs, stride, (n - 1) as nat), cs[n - 1], stride)
    }
}

/// Palette look-ups for a cell: a new look-up for each colour that differs
/// from the one before, then the pair.
pub open spec fn lookup_cmds(prev_fg: Rgba8, prev_bg: Rgba8, fg: Rgba8, bg: Rgba8) -> Seq<CursesCommand> {
    (if fg != prev_fg {
        seq![CursesCommand::SetForeground(fg)]
    } else {
        seq![]
    }) + (if bg != prev_bg {
        seq![CursesCommand::SetBackground(bg)]
    } else {
        seq![]
    }) + seq![CursesCommand::AttrSet]
}

/// Commands that draw cell `k` of a simple console at terminal (row, column).
pub open spec fn simple_cell_curses(c: TermConsole, k: int, row: int, col: int) -> Seq<CursesCommand> {
    let t = c.tiles@[k];
    let prev_fg = if k == 0 {
        no_color()
    } else {
        c.tiles@[k - 1].fg
    };
    let prev_bg = if k == 0 {
        no_color()
    } else {
        c.tiles@[k - 1].bg
    };
    lookup_cmds(prev_fg, prev_bg, t.fg, t.bg).push(
        CursesCommand::MvAddCh(row as i32, col as i32, t.glyph),
    )
}

/// Commands that draw the first `n` cells of a simple console.
pub open spec fn simple_curses_cmds(c: TermConsole, n: nat) -> Seq<CursesCommand>
    decreases n,
{
    if n == 0 {
        seq![]
    } else {
        let k = n - 1;
        simple_curses_cmds(c, (n - 1) as nat) + simple_cell_curses(
            c,
            k,
            curses_row(c, k / (c.width as int)),
            k % (c.width as int),
        )
    }
}

/// Commands that draw sparse glyph `i` of a console.
pub open spec fn sparse_glyph_curses(c: TermConsole, i: int) -> Seq<CursesCommand> {
    let t = c.sparse_tiles@[i];
    let prev_fg = if i == 0 {
        no_color()
    } else {
        c.sparse_tiles@[i - 1].fg
    };
    let prev_bg = if i == 0 {
        no_color()
    } else {
        c.sparse_tiles@[i - 1].bg
    };
    lookup_cmds(prev_fg, prev_bg, t.fg, t.bg).push(
        CursesCommand::MvAddCh(curses_row(c, glyph_y(c, t)) as i32, glyph_x(c, t) as i32, t.glyph),
    )
}

/// Commands that draw the first `n` glyphs of a sparse console.
pub open spec fn sparse_curses_cmds(c: TermConsole, n: nat) -> Seq<CursesCommand>
    decreases n,
{
    if n == 0 {
        seq![]
    } else {
        sparse_curses_cmds(c, (n - 1) as nat) + sparse_glyph_curses(c, n - 1)
    }
}

/// Commands that draw one console from scratch.
pub open spec fn console_curses_cmds(c: TermConsole) -> Seq<CursesCommand> {
    match c.kind {
        TermConsoleKind::Simple => seq![CursesCommand::ResetPalette] + simple_curses_cmds(
            c,
            (c.width * c.height) as nat,
        ),
        TermConsoleKind::Sparse => seq![CursesCommand::ResetPalette] + sparse_curses_cmds(
            c,
            c.sparse_tiles@.len(),
        ),
        TermConsoleKind::Other => seq![],
    }
}

/// Commands that draw the first `n` consoles from scratch.
pub open spec fn full_curses_cmds(cs: Seq<TermConsole>, n: nat) -> Seq<CursesCommand>
    decreases n,
{
    if n == 0 {
        seq![]
    } else {
        full_curses_cmds(cs, (n - 1) as nat) + console_curses_cmds(cs[n - 1])
    }
}

// ---------------------------------------------------------------------------
// What a run of curses commands puts on the screen.
/// One character put on the screen: where, which, and the colours of the pair
/// it was put with.
pub struct CursesDraw {
    pub row: i32,
    pub col: i32,
    pub glyph: char,
    pub fg: Rgba8,
    pub bg: Rgba8,
}

/// The library's model of curses while commands run: the colours whose
/// palette entries are looked up (entry 0, after a reset, stands for no
/// colour), the colours of the pair selected, and the characters put so far.
pub struct CursesPen {
    pub fg: Rgba8,
    pub bg: Rgba8,
    pub pair_fg: Rgba8,
    pub pair_bg: Rgba8,
    pub draws: Seq<CursesDraw>,
}

/// Curses running one command.
pub open spec fn curses_step(p: CursesPen, cmd: CursesCommand) -> CursesPen {
    match cmd {
        CursesCommand::ResetPalette => CursesPen { fg: no_color(), bg: no_color(), ..p },
        CursesCommand::SetForeground(c) => CursesPen { fg: c, ..p },
        CursesCommand::SetBackground(c) => CursesPen { bg: c, ..p },
        CursesCommand::AttrSet => CursesPen { pair_fg: p.fg, pair_bg: p.bg, ..p },
        CursesCommand::MvAddCh(row, col, glyph) => CursesPen {
            draws: p.draws.push(CursesDraw { row, col, glyph, fg: p.pair_fg, bg: p.pair_bg }),
            ..p
        },
        _ => p,
    }
}

/// Curses running a list of commands in order.
pub open spec fn curses_replay(p: CursesPen, cmds: Seq<CursesCommand>) -> CursesPen
    decreases cmds.len(),
{
    if cmds.len() == 0 {
        p
    } else {
        curses_step(curses_replay(p, cmds.drop_last()), cmds.last())
    }
}

/// The characters a console should show, in drawing order: each cell of a
/// simple console (row by row from the bottom) or each glyph of a sparse
/// console, at its place and in its own colours.
pub open spec fn console_draws(c: TermConsole) -> Seq<CursesDraw> {
    match c.kind {
        TermConsoleKind::Simple => Seq::new(
            (c.width * c.height) as nat,
            |k: int|
                CursesDraw {
                    row: curses_row(c, k / (c.width as int)) as i32,
                    col: (k % (c.width as int)) as i32,
                    glyph: c.tiles@[k].glyph,
                    fg: c.tiles@[k].fg,
                    bg: c.tiles@[k].bg,
                },
        ),
        TermConsoleKind::Sparse => Seq::new(
            c.sparse_tiles@.len(),
            |i: int|
                {
                    let t = c.sparse_tiles@[i];
                    CursesDraw {
                        row: curses_row(c, glyph_y(c, t)) as i32,
                        col: glyph_x(c, t) as i32,
                        glyph: t.glyph,
                        fg: t.fg,
                        bg: t.bg,
                    }
                },
        ),
        TermConsoleKind::Other => seq![],
    }
}

/// The characters the first `n` consoles should show, console after console.
pub open spec fn all_draws(cs: Seq<TermConsole>, n: nat) -> Seq<CursesDraw>
    decreases n,
{
    if n == 0 {
        seq![]
    } else {
        all_draws(cs, (n - 1) as nat) + console_draws(cs[n - 1])
    }
}

proof fn lemma_curses_replay_append(p: CursesPen, a: Seq<CursesCommand>, b: Seq<CursesCommand>)
    ensures
        curses_replay(p, a + b) == curses_replay(curses_replay(p, a), b),
    decreases b.len(),
{
    if b.len() == 0 {
        assert(a + b == a);
    } else {
        assert((a + b).drop_last() == a + b.drop_last());
        lemma_curses_replay_append(p, a, b.drop_last());
    }
}

proof fn lemma_curses_replay_one(p: CursesPen, c: CursesCommand)
    ensures
        curses_replay(p, seq![c]) == curses_step(p, c),
{
    reveal_with_fuel(curses_replay, 2);
    assert(seq![c].drop_last() == Seq::<CursesCommand>::empty());
}

/// Replaying the look-ups of a cell selects the pair of its own colours.
proof fn lemma_curses_lookup(p: CursesPen, prev_fg: Rgba8, prev_bg: Rgba8, fg: Rgba8, bg: Rgba8)
    requires
        p.fg == prev_fg,
        p.bg == prev_bg,
    ensures
        curses_replay(p, lookup_cmds(prev_fg, prev_bg, fg, bg)) == (CursesPen {
            fg,
            bg,
            pair_fg: fg,
            pair_bg: bg,
            ..p
        }),
{
    let a: Seq<CursesCommand> = if fg != prev_fg {
        seq![CursesCommand::SetForeground(fg)]
    } else {
        seq![]
    };
    let b: Seq<CursesCommand> = if bg != prev_bg {
        seq![CursesCommand::SetBackground(bg)]
    } else {
        seq![]
    };
    assert(lookup_cmds(prev_fg, prev_bg, fg, bg) == a + b + seq![CursesCommand::AttrSet]);
    lemma_curses_replay_append(p, a + b, seq![CursesCommand::AttrSet]);
    lemma_curses_replay_append(p, a, b);
    let p1 = curses_replay(p, a);
    if fg != prev_fg {
        lemma_curses_replay_one(p, CursesCommand::SetForeground(fg));
    }
    assert(p1 == CursesPen { fg, ..p });
    let p2 = curses_replay(p1, b);
    if bg != prev_bg {
        lemma_curses_replay_one(p1, CursesCommand::SetBackground(bg));
    }
    assert(p2 == CursesPen { fg, bg, ..p });
    lemma_curses_replay_one(p2, CursesCommand::AttrSet);
}

/// The colours whose look-ups are in force after `k` cells of a console are
/// drawn: those of the `k`th cell, or no colour before the first.
pub open spec fn colors_after(k: int, fg: Rgba8, bg: Rgba8) -> (Rgba8, Rgba8) {
    if k == 0 {
        (no_color(), no_color())
    } else {
        (fg, bg)
    }
}

proof fn lemma_simple_curses_replay(p: CursesPen, c: TermConsole, n: nat)
    requires
        c.kind == TermConsoleKind::Simple,
        n <= c.width * c.height,
        p.fg == no_color(),
        p.bg == no_color(),
    ensures
        ({
            let r = curses_replay(p, simple_curses_cmds(c, n));
            &&& r.draws == p.draws + console_draws(c).take(n as int)
            &&& n > 0 ==> r.fg == c.tiles@[n - 1].fg && r.bg == c.tiles@[n - 1].bg
            &&& n == 0 ==> r.fg == no_color() && r.bg == no_color()
        }),
    decreases n,
{
    if n == 0 {
        assert(console_draws(c).take(0) =~= Seq::<CursesDraw>::empty());
        assert(p.draws + Seq::<CursesDraw>::empty() =~= p.draws);
    } else {
        let k = n - 1;
        lemma_simple_curses_replay(p, c, k as nat);
        let r0 = curses_replay(p, simple_curses_cmds(c, k as nat));
        let t = c.tiles@[k];
        let row = curses_row(c, k / (c.width as int));
        let col = k % (c.width as int);
        let prev_fg = if k == 0 { no_color() } else { c.tiles@[k - 1].fg };
        let prev_bg = if k == 0 { no_color() } else { c.tiles@[k - 1].bg };
        let look = lookup_cmds(prev_fg, prev_bg, t.fg, t.bg);
        let mv = CursesCommand::MvAddCh(row as i32, col as i32, t.glyph);
        assert(simple_cell_curses(c, k, row, col) == look + seq![mv]);
        assert(simple_curses_cmds(c, n) == simple_curses_cmds(c, k as nat) + (look + seq![mv]));
        lemma_curses_replay_append(p, simple_curses_cmds(c, k as nat), look + seq![mv]);
        lemma_curses_replay_append(r0, look, seq![mv]);
        lemma_curses_lookup(r0, prev_fg, prev_bg, t.fg, t.bg);
        let r1 = curses_replay(r0, look);
        lemma_curses_replay_one(r1, mv);
        let d = CursesDraw { row: row as i32, col: col as i32, glyph: t.glyph, fg: t.fg, bg: t.bg };
        assert(console_draws(c)[k] == d);
        assert(console_draws(c).take(n as int) =~= console_draws(c).take(k).push(d));
        assert(p.draws + console_draws(c).take(n as int) =~= (p.draws + console_draws(c).take(k)).push(d));
    }
}

proof fn lemma_sparse_curses_replay(p: CursesPen, c: TermConsole, n: nat)
    requires
        c.kind == TermConsoleKind::Sparse,
        n <= c.sparse_tiles@.len(),
        p.fg == no_color(),
        p.bg == no_color(),
    ensures
        ({
            let r = curses_replay(p, sparse_curses_cmds(c, n));
            &&& r.draws == p.draws + console_draws(c).take(n as int)
            &&& n > 0 ==> r.fg == c.sparse_tiles@[n - 1].fg && r.bg == c.sparse_tiles@[n - 1].bg
            &&& n == 0 ==> r.fg == no_color() && r.bg == no_color()
        }),
    decreases n,
{
    if n == 0 {
        assert(console_draws(c).take(0) =~= Seq::<CursesDraw>::empty());
        assert(p.draws + Seq::<CursesDraw>::empty() =~= p.draws);
    } else {
        let k = n - 1;
        lemma_sparse_curses_replay(p, c, k as nat);
        let r0 = curses_replay(p, sparse_curses_cmds(c, k as nat));
        let t = c.sparse_tiles@[k];
        let prev_fg = if k == 0 { no_color() } else { c.sparse_tiles@[k - 1].fg };
        let prev_bg = if k == 0 { no_color() } else { c.sparse_tiles@[k - 1].bg };
        let look = lookup_cmds(prev_fg, prev_bg, t.fg, t.bg);
        let mv = CursesCommand::MvAddCh(curses_row(c, glyph_y(c, t)) as i32, glyph_x(c, t) as i32, t.glyph);
        assert(sparse_glyph_curses(c, k) == look + seq![mv]);
        assert(sparse_curses_cmds(c, n) == sparse_curses_cmds(c, k as nat) + (look + seq![mv]));
        lemma_curses_replay_append(p, sparse_curses_cmds(c, k as nat), look + seq![mv]);
        lemma_curses_replay_append(r0, look, seq![mv]);
        lemma_curses_lookup(r0, prev_fg, prev_bg, t.fg, t.bg);
        let r1 = curses_replay(r0, look);
        lemma_curses_replay_one(r1, mv);
        let d = CursesDraw {
            row: curses_row(c, glyph_y(c, t)) as i32,
            col: glyph_x(c, t) as i32,
            glyph: t.glyph,
            fg: t.fg,
            bg: t.bg,
        };
        assert(console_draws(c)[k] == d);
        assert(console_draws(c).take(n as int) =~= console_draws(c).take(k).push(d));
        assert(p.draws + console_draws(c).take(n as int) =~= (p.draws + console_draws(c).take(k)).push(d));
    }
}

/// Running the commands of a full curses redraw puts every cell of every
/// console on the screen, console after console, at its place and with the
/// pair of that cell's own foreground and background colours, whatever the
/// state curses was in before.
pub proof fn full_curses_redraw_draws_each_cell_in_its_colors(p: CursesPen, cs: Seq<TermConsole>, n: nat)
    requires
        n <= cs.len(),
    ensures
        curses_replay(p, full_curses_cmds(cs, n)).draws == p.draws + all_draws(cs, n),
    decreases n,
{
    if n == 0 {
        assert(p.draws + Seq::<CursesDraw>::empty() =~= p.draws);
    } else {
        let m = (n - 1) as nat;
        full_curses_redraw_draws_each_cell_in_its_colors(p, cs, m);
        let c = cs[m as int];
        let r0 = curses_replay(p, full_curses_cmds(cs, m));
        lemma_curses_replay_append(p, full_curses_cmds(cs, m), console_curses_cmds(c));
        match c.kind {
            TermConsoleKind::Simple => {
                let body = simple_curses_cmds(c, (c.width * c.height) as nat);
                lemma_curses_replay_append(r0, seq![CursesCommand::ResetPalette], body);
                lemma_curses_replay_one(r0, CursesCommand::ResetPalette);
                let r1 = curses_step(r0, CursesCommand::ResetPalette);
                lemma_simple_curses_replay(r1, c, (c.width * c.height) as nat);
                assert(console_draws(c).take((c.width * c.height) as int) =~= console_draws(c));
            },
            TermConsoleKind::Sparse => {
                let body = sparse_curses_cmds(c, c.sparse_tiles@.len());
                lemma_curses_replay_append(r0, seq![CursesCommand::ResetPalette], body);
                lemma_curses_replay_one(r0, CursesCommand::ResetPalette);
                let r1 = curses_step(r0, CursesCommand::ResetPalette);
                lemma_sparse_curses_replay(r1, c, c.sparse_tiles@.len());
                assert(console_draws(c).take(c.sparse_tiles@.len() as int) =~= console_draws(c));
            },
            TermConsoleKind::Other => {
                assert(console_curses_cmds(c) == Seq::<CursesCommand>::empty());
                assert(full_curses_cmds(cs, n) =~= full_curses_cmds(cs, m));
                assert(all_draws(cs, n) =~= all_draws(cs, m));
            },
        }
        assert(p.draws + all_draws(cs, n) =~= p.draws + all_draws(cs, m) + console_draws(c));
    }
}

/// The commands of a full curses redraw (clear, every console, refresh) put
/// every cell of every console on the screen at its place in the pair of its
/// own colours, and nothing else.
pub proof fn curses_full_redraw_shows_every_cell(p: CursesPen, cs: Seq<TermConsole>)
    ensures
        curses_replay(
            p,
            seq![CursesCommand::Clear] + full_curses_cmds(cs, cs.len()) + seq![CursesCommand::Refresh],
        ).draws == p.draws + all_draws(cs, cs.len()),
{
    let body = full_curses_cmds(cs, cs.len());
    lemma_curses_replay_append(p, seq![CursesCommand::Clear] + body, seq![CursesCommand::Refresh]);
    lemma_curses_replay_append(p, seq![CursesCommand::Clear], body);
    lemma_curses_replay_one(p, CursesCommand::Clear);
    let p1 = curses_step(p, CursesCommand::Clear);
    assert(p1 == p);
    full_curses_redraw_draws_each_cell_in_its_colors(p, cs, cs.len());
    let p2 = curses_replay(p1, body);
    lemma_curses_replay_one(p2, CursesCommand::Refresh);
}

proof fn lemma_cell_position(c: TermConsole, stride: int, len: int, k: int)
    requires
        c.kind == TermConsoleKind::Simple,
        curses_fits(c, stride, len),
        0 <= k < c.width * c.height,
    ensures
        0 <= k / (c.width as int) < c.height,
        0 <= k % (c.width as int) < c.width,
        0 <= simple_at(c, stride, k) < len,
{
    let w = c.width as int;
    let h = c.height as int;
    assert(w > 0) by {
        if w == 0 {
            vstd::arithmetic::mul::lemma_mul_basics(h);
        }
    }
    vstd::arithmetic::mul::lemma_mul_is_commutative(w, h);
    vstd::arithmetic::div_mod::lemma_multiply_divide_lt(k, w, h);
    vstd::arithmetic::div_mod::lemma_div_pos_is_pos(k, w);
    vstd::arithmetic::div_mod::lemma_mod_bound(k, w);
    let row = h - 1 - k / w;
    vstd::arithmetic::mul::lemma_mul_inequality(row, h - 1, stride);
    vstd::arithmetic::mul::lemma_mul_nonnegative(row, stride);
}

fn draw_simple_curses(
    buffer: &mut Vec<OutputBuffer>,
    cmds: &mut Vec<CursesCommand>,
    c: &TermConsole,
    stride: usize,
)
    requires
        c.kind == TermConsoleKind::Simple,
        curses_fits(*c, stride as int, old(buffer)@.len() as int),
    ensures
        final(buffer)@.len() == old(buffer)@.len(),
        final(buffer)@ == paint_simple_at(old(buffer)@, *c, stride as int, (c.width * c.height) as nat),
        final(cmds)@ == old(cmds)@ + simple_curses_cmds(*c, (c.width * c.height) as nat),
{
    let ghost buf0 = buffer@;
    let ghost cmds0 = cmds@;
    let ghost w = c.width as int;
    let mut last_fg = Rgba8::transparent_black();
    let mut last_bg = Rgba8::transparent_black();
    let mut idx: usize = 0;
    let mut y: u32 = 0;
    while y < c.height
        invariant
            c.kind == TermConsoleKind::Simple,
            curses_fits(*c, stride as int, buf0.len() as int),
            y <= c.height,
            w == c.width,
            idx as int == y * w,
            buffer@.len() == buf0.len(),
            buffer@ == paint_simple_at(buf0, *c, stride as int, idx as nat),
            cmds@ == cmds0 + simple_curses_cmds(*c, idx as nat),
            idx == 0 ==> last_fg == no_color() && last_bg == no_color(),
            idx > 0 ==> last_fg == c.tiles@[idx - 1].fg && last_bg == c.tiles@[idx - 1].bg,
        decreases c.height - y,
    {
        proof {
            vstd::arithmetic::mul::lemma_mul_is_distributive_add_other_way(w, y as int, 1);
        }
        let mut x: u32 = 0;
        while x < c.width
            invariant
                c.kind == TermConsoleKind::Simple,
                curses_fits(*c, stride as int, buf0.len() as int),
                y < c.height,
                x <= c.width,
                w == c.width,
                idx as int == y * w + x,
                (y + 1) * w == y * w + w,
                buffer@.len() == buf0.len(),
                buffer@ == paint_simple_at(buf0, *c, stride as int, idx as nat),
                cmds@ == cmds0 + simple_curses_cmds(*c, idx as nat),
                idx == 0 ==> last_fg == no_color() && last_bg == no_color(),
                idx > 0 ==> last_fg == c.tiles@[idx - 1].fg && last_bg == c.tiles@[idx - 1].bg,
            decreases c.width - x,
        {
            proof {
                lemma_row_major(y as int, x as int, w);
                vstd::arithmetic::mul::lemma_mul_inequality(y as int + 1, c.height as int, w);
                vstd::arithmetic::mul::lemma_mul_is_commutative(w, c.height as int);
                lemma_cell_position(*c, stride as int, buf0.len() as int, idx as int);
                assert(c.tiles.len() == c.tiles@.len());
                assert(buffer.len() == buffer@.len());
            }
            let ghost before = cmds@;
            let t = c.tiles[idx];
            if t.fg != last_fg {
                cmds.push(CursesCommand::SetForeground(t.fg));
                last_fg = t.fg;
            }
            if t.bg != last_bg {
                cmds.push(CursesCommand::SetBackground(t.bg));
                last_bg = t.bg;
            }
            cmds.push(CursesCommand::AttrSet);
            let ty: i32 = c.height as i32 - (y as i32 + 1);
            cmds.push(CursesCommand::MvAddCh(ty, x as i32, t.glyph));
            assert(cmds@ == before + simple_cell_curses(*c, idx as int, ty as int, x as int));
            let buf_idx: usize = (ty as usize * stride) + x as usize;
            buffer.set(buf_idx, t);
            idx = idx + 1;
            x = x + 1;
        }
        y = y + 1;
    }
    proof {
        vstd::arithmetic::mul::lemma_mul_is_commutative(w, c.height as int);
    }
}

fn draw_sparse_curses(
    buffer: &mut Vec<OutputBuffer>,
    cmds: &mut Vec<CursesCommand>,
    c: &TermConsole,
    stride: usize,
)
    requires
        c.kind == TermConsoleKind::Sparse,
        curses_fits(*c, stride as int, old(buffer)@.len() as int),
    ensures
        final(buffer)@.len() == old(buffer)@.len(),
        final(buffer)@ == paint_sparse_at(old(buffer)@, *c, stride as int, c.sparse_tiles@.len()),
        final(cmds)@ == old(cmds)@ + sparse_curses_cmds(*c, c.sparse_tiles@.len()),
{
    let ghost buf0 = buffer@;
    let ghost cmds0 = cmds@;
    let mut last_fg = Rgba8::transparent_black();
    let mut last_bg = Rgba8::transparent_black();
    let mut i: usize = 0;
    while i < c.sparse_tiles.len()
        invariant
            c.kind == TermConsoleKind::Sparse,
            curses_fits(*c, stride as int, buf0.len() as int),
            i <= c.sparse_tiles@.len(),
            buffer@.len() == buf0.len(),
            buffer@ == paint_sparse_at(buf0, *c, stride as int, i as nat),
            cmds@ == cmds0 + sparse_curses_cmds(*c, i as nat),
            i == 0 ==> last_fg == no_color() && last_bg == no_color(),
            i > 0 ==> last_fg == c.sparse_tiles@[i - 1].fg && last_bg == c.sparse_tiles@[i - 1].bg,
        decreases c.sparse_tiles@.len() - i,
    {
        let t = c.sparse_tiles[i];
        let x: u32 = (t.idx as u32) % c.width;
        let y: u32 = (t.idx as u32) / c.width;
        let ghost before = cmds@;
        if t.fg != last_fg {
            cmds.push(CursesCommand::SetForeground(t.fg));
            last_fg = t.fg;
        }
        if t.bg != last_bg {
            cmds.push(CursesCommand::SetBackground(t.bg));
            last_bg = t.bg;
        }
        cmds.push(CursesCommand::AttrSet);
        let ty: i32 = c.height as i32 - (y as i32 + 1);
        cmds.push(CursesCommand::MvAddCh(ty, x as i32, t.glyph));
        assert(cmds@ == before + sparse_glyph_curses(*c, i as int));
        proof {
            vstd::arithmetic::mul::lemma_mul_nonnegative(ty as int, stride as int);
            assert(buffer.len() == buffer@.len());
        }
        let buf_idx: usize = (ty as usize * stride) + x as usize;
        buffer.set(buf_idx, OutputBuffer { glyph: t.glyph, fg: t.fg, bg: t.bg });
        i = i + 1;
    }
}

/// Redraws every simple and sparse console on a curses window of `height` rows
/// and `width` columns from scratch. Returns the new mirror, whose rows are
/// placed `height` cells apart as this back-end computes them, and the
/// commands: clear, each console (starting from palette entries 0), refresh.
pub fn curses_full_redraw(height: usize, width: usize, consoles: &Vec<TermConsole>) -> (res: (
    Vec<OutputBuffer>,
    Vec<CursesCommand>,
))
    requires
        height * width <= usize::MAX,
        all_curses_fit(consoles@, height as int, height * width),
    ensures
        res.0@ == paint_all_at(blank_screen((height * width) as nat), consoles@, height as int, consoles@.len()),
        res.1@ == seq![CursesCommand::Clear] + full_curses_cmds(consoles@, consoles@.len()) + seq![
            CursesCommand::Refresh,
        ],
{
    let n: usize = height * width;
    let mut buffer: Vec<OutputBuffer> = Vec::new();
    let mut k: usize = 0;
    while k < n
        invariant
            k <= n,
            buffer@ == blank_screen(k as nat),
        decreases n - k,
    {
        buffer.push(OutputBuffer::default());
        k = k + 1;
        assert(buffer@ == blank_screen(k as nat));
    }
    let mut cmds: Vec<CursesCommand> = Vec::new();
    cmds.push(CursesCommand::Clear);
    let ghost blank = buffer@;
    let mut i: usize = 0;
    while i < consoles.len()
        invariant
            all_curses_fit(consoles@, height as int, height * width),
            i <= consoles@.len(),
            n == height * width,
            buffer@.len() == n,
            blank == blank_screen(n as nat),
            buffer@ == paint_all_at(blank, consoles@, height as int, i as nat),
            cmds@ == seq![CursesCommand::Clear] + full_curses_cmds(consoles@, i as nat),
        decreases consoles@.len() - i,
    {
        assert(curses_fits(consoles@[i as int], height as int, height * width));
        let ghost before = cmds@;
        match consoles[i].kind {
            TermConsoleKind::Simple => {
                cmds.push(CursesCommand::ResetPalette);
                draw_simple_curses(&mut buffer, &mut cmds, &consoles[i], height);
            },
            TermConsoleKind::Sparse => {
                cmds.push(CursesCommand::ResetPalette);
                draw_sparse_curses(&mut buffer, &mut cmds, &consoles[i], height);
            },
            TermConsoleKind::Other => {},
        }
        assert(cmds@ == before + console_curses_cmds(consoles@[i as int]));
        i = i + 1;
    }
    cmds.push(CursesCommand::Refresh);
    (buffer, cmds)
}

} // verus!

verus! {

/// Mirror positions, in write order, at which the first `n` cells of a simple
/// console changed the mirror.
pub open spec fn diff_simple_at(buf: Seq<OutputBuffer>, c: TermConsole, stride: int, n: nat) -> Seq<usize>
    decreases n,
{
    if n == 0 {
        seq![]
    } else {
        let before = paint_simple_at(buf, c, stride, (n - 1) as nat);
        let p = simple_at(c, stride, n - 1);
        diff_simple_at(buf, c, stride, (n - 1) as nat) + if before[p] != c.tiles@[n - 1] {
            seq![p as usize]
        } else {
            seq![]
        }
    }
}

/// Mirror positions, in write order, at which the first `n` glyphs of a sparse
/// console changed the mirror.
pub open spec fn diff_sparse_at(buf: Seq<OutputBuffer>, c: TermConsole, stride: int, n: nat) -> Seq<usize>
    decreases n,
{
    if n == 0 {
        seq![]
    } else {
        let before = paint_sparse_at(buf, c, stride, (n - 1) as nat);
        let t = c.sparse_tiles@[n - 1];
        let p = sparse_at(c, stride, t);
        diff_sparse_at(buf, c, stride, (n - 1) as nat) + if before[p] != (OutputBuffer {
            glyph: t.glyph,
            fg: t.fg,
            bg: t.bg,
        }) {
            seq![p as usize]
        } else {
            seq![]
        }
    }
}

/// Positions at which drawing one console changed the mirror.
pub open spec fn diff_console_at(buf: Seq<OutputBuffer>, c: TermConsole, stride: int) -> Seq<usize> {
    match c.kind {
        TermConsoleKind::Simple => diff_simple_at(buf, c, stride, (c.width * c.height) as nat),
        TermConsoleKind::Sparse => diff_sparse_at(buf, c, stride, c.sparse_tiles@.len()),
        TermConsoleKind::Other => seq![],
    }
}

/// Positions at which drawing the first `n` consoles changed the mirror.
pub open spec fn diff_all_at(buf: Seq<OutputBuffer>, cs: Seq<TermConsole>, stride: int, n: nat) -> Seq<
    usize,
>
    decreases n,
{
    if n == 0 {
        seq![]
    } else {
        diff_all_at(buf, cs, stride, (n - 1) as nat) + diff_console_at(
            paint_all_at(buf, cs, stride, (n - 1) as nat),
            cs[n - 1],
            stride,
        )
    }
}

/// Commands that redraw the first `n` changed cells: palette look-ups for the
/// colours that differ from the previous redrawn cell, the pair, and the
/// character the mirror now holds, at (row, column) of a window `width` wide.
pub open spec fn dirty_curses_cmds(screen: Seq<OutputBuffer>, dirty: Seq<usize>, width: int, n: nat) -> Seq<
    CursesCommand,
>
    decreases n,
{
    if n == 0 {
        seq![]
    } else {
        let idx = dirty[n - 1];
        let t = screen[idx as int];
        let prev_fg = if n == 1 {
            no_color()
        } else {
            screen[dirty[n - 2] as int].fg
        };
        let prev_bg = if n == 1 {
            no_color()
        } else {
            screen[dirty[n - 2] as int].bg
        };
        dirty_curses_cmds(screen, dirty, width, (n - 1) as nat) + lookup_cmds(
            prev_fg,
            prev_bg,
            t.fg,
            t.bg,
        ).push(CursesCommand::MvAddCh((idx / (width as usize)) as i32, (idx % (width as usize)) as i32, t.glyph))
    }
}

/// The characters a partial redraw should put: each changed cell, in order,
/// at its (row, column) in a window `width` wide, as the mirror now holds it.
pub open spec fn dirty_draws(screen: Seq<OutputBuffer>, dirty: Seq<usize>, width: int, n: nat) -> Seq<
    CursesDraw,
> {
    Seq::new(
        n,
        |k: int|
            {
                let idx = dirty[k];
                let t = screen[idx as int];
                CursesDraw {
                    row: (idx / (width as usize)) as i32,
                    col: (idx % (width as usize)) as i32,
                    glyph: t.glyph,
                    fg: t.fg,
                    bg: t.bg,
                }
            },
    )
}

proof fn lemma_dirty_curses_replay(
    p: CursesPen,
    screen: Seq<OutputBuffer>,
    dirty: Seq<usize>,
    width: int,
    n: nat,
)
    requires
        n <= dirty.len(),
        p.fg == no_color(),
        p.bg == no_color(),
    ensures
        ({
            let r = curses_replay(p, dirty_curses_cmds(screen, dirty, width, n));
            &&& r.draws == p.draws + dirty_draws(screen, dirty, width, n)
            &&& n > 0 ==> r.fg == screen[dirty[n - 1] as int].fg && r.bg == screen[dirty[n
                - 1] as int].bg
        }),
    decreases n,
{
    if n == 0 {
        assert(dirty_draws(screen, dirty, width, 0) =~= Seq::<CursesDraw>::empty());
        assert(p.draws + Seq::<CursesDraw>::empty() =~= p.draws);
    } else {
        let m = (n - 1) as nat;
        lemma_dirty_curses_replay(p, screen, dirty, width, m);
        let r0 = curses_replay(p, dirty_curses_cmds(screen, dirty, width, m));
        let idx = dirty[m as int];
        let t = screen[idx as int];
        let prev_fg = if n == 1 { no_color() } else { screen[dirty[n - 2] as int].fg };
        let prev_bg = if n == 1 { no_color() } else { screen[dirty[n - 2] as int].bg };
        let look = lookup_cmds(prev_fg, prev_bg, t.fg, t.bg);
        let mv = CursesCommand::MvAddCh((idx / (width as usize)) as i32, (idx % (width as usize)) as i32, t.glyph);
        assert(dirty_curses_cmds(screen, dirty, width, n) == dirty_curses_cmds(screen, dirty, width, m)
            + (look + seq![mv]));
        lemma_curses_replay_append(p, dirty_curses_cmds(screen, dirty, width, m), look + seq![mv]);
        lemma_curses_replay_append(r0, look, seq![mv]);
        lemma_curses_lookup(r0, prev_fg, prev_bg, t.fg, t.bg);
        let r1 = curses_replay(r0, look);
        lemma_curses_replay_one(r1, mv);
        let d = CursesDraw {
            row: (idx / (width as usize)) as i32,
            col: (idx % (width as usize)) as i32,
            glyph: t.glyph,
            fg: t.fg,
            bg: t.bg,
        };
        assert(dirty_draws(screen, dirty, width, n) =~= dirty_draws(screen, dirty, width, m).push(d));
        assert(p.draws + dirty_draws(screen, dirty, width, n) =~= (p.draws + dirty_draws(
            screen,
            dirty,
            width,
            m,
        )).push(d));
    }
}

/// The commands of a partial curses redraw put each changed cell, in the
/// order the cells changed, at its place with the character the mirror now
/// holds there and in the pair of that cell's own colours, whatever the state
/// curses was in before.
pub proof fn curses_partial_redraw_shows_changed_cells(
    p: CursesPen,
    screen: Seq<OutputBuffer>,
    dirty: Seq<usize>,
    width: int,
)
    ensures
        curses_replay(
            p,
            seq![CursesCommand::ResetPalette] + dirty_curses_cmds(screen, dirty, width, dirty.len())
                + seq![CursesCommand::Refresh],
        ).draws == p.draws + dirty_draws(screen, dirty, width, dirty.len()),
{
    let body = dirty_curses_cmds(screen, dirty, width, dirty.len());
    lemma_curses_replay_append(p, seq![CursesCommand::ResetPalette] + body, seq![CursesCommand::Refresh]);
    lemma_curses_replay_append(p, seq![CursesCommand::ResetPalette], body);
    lemma_curses_replay_one(p, CursesCommand::ResetPalette);
    let p1 = curses_step(p, CursesCommand::ResetPalette);
    lemma_dirty_curses_replay(p1, screen, dirty, width, dirty.len());
    let p2 = curses_replay(p1, body);
    lemma_curses_replay_one(p2, CursesCommand::Refresh);
}

fn diff_simple_curses(buffer: &mut Vec<OutputBuffer>, dirty: &mut Vec<usize>, c: &TermConsole, stride: usize)
    requires
        c.kind == TermConsoleKind::Simple,
        curses_fits(*c, stride as int, old(buffer)@.len() as int),
        forall|k: int| 0 <= k < old(dirty)@.len() ==> (#[trigger] old(dirty)@[k]) < old(buffer)@.len(),
    ensures
        forall|k: int| 0 <= k < final(dirty)@.len() ==> (#[trigger] final(dirty)@[k]) < old(buffer)@.len(),
        final(buffer)@.len() == old(buffer)@.len(),
        final(buffer)@ == paint_simple_at(old(buffer)@, *c, stride as int, (c.width * c.height) as nat),
        final(dirty)@ == old(dirty)@ + diff_simple_at(
            old(buffer)@,
            *c,
            stride as int,
            (c.width * c.height) as nat,
        ),
{
    let ghost buf0 = buffer@;
    let ghost dirty0 = dirty@;
    let ghost w = c.width as int;
    let mut idx: usize = 0;
    let mut y: u32 = 0;
    while y < c.height
        invariant
            c.kind == TermConsoleKind::Simple,
            curses_fits(*c, stride as int, buf0.len() as int),
            y <= c.height,
            w == c.width,
            idx as int == y * w,
            buffer@.len() == buf0.len(),
            buffer@ == paint_simple_at(buf0, *c, stride as int, idx as nat),
            dirty@ == dirty0 + diff_simple_at(buf0, *c, stride as int, idx as nat),
            forall|k: int| 0 <= k < dirty@.len() ==> (#[trigger] dirty@[k]) < buf0.len(),
        decreases c.height - y,
    {
        proof {
            vstd::arithmetic::mul::lemma_mul_is_distributive_add_other_way(w, y as int, 1);
        }
        let mut x: u32 = 0;
        while x < c.width
            invariant
                c.kind == TermConsoleKind::Simple,
                curses_fits(*c, stride as int, buf0.len() as int),
                y < c.height,
                x <= c.width,
                w == c.width,
                idx as int == y * w + x,
                (y + 1) * w == y * w + w,
                buffer@.len() == buf0.len(),
                buffer@ == paint_simple_at(buf0, *c, stride as int, idx as nat),
                dirty@ == dirty0 + diff_simple_at(buf0, *c, stride as int, idx as nat),
                forall|k: int| 0 <= k < dirty@.len() ==> (#[trigger] dirty@[k]) < buf0.len(),
            decreases c.width - x,
        {
            proof {
                lemma_row_major(y as int, x as int, w);
                vstd::arithmetic::mul::lemma_mul_inequality(y as int + 1, c.height as int, w);
                vstd::arithmetic::mul::lemma_mul_is_commutative(w, c.height as int);
                lemma_cell_position(*c, stride as int, buf0.len() as int, idx as int);
                assert(c.tiles.len() == c.tiles@.len());
                assert(buffer.len() == buffer@.len());
            }
            let t = c.tiles[idx];
            let ty: i32 = c.height as i32 - (y as i32 + 1);
            let buf_idx: usize = (ty as usize * stride) + x as usize;
            if buffer[buf_idx] != t {
                buffer.set(buf_idx, t);
                dirty.push(buf_idx);
            }
            idx = idx + 1;
            x = x + 1;
        }
        y = y + 1;
    }
    proof {
        vstd::arithmetic::mul::lemma_mul_is_commutative(w, c.height as int);
    }
}

fn diff_sparse_curses(buffer: &mut Vec<OutputBuffer>, dirty: &mut Vec<usize>, c: &TermConsole, stride: usize)
    requires
        c.kind == TermConsoleKind::Sparse,
        curses_fits(*c, stride as int, old(buffer)@.len() as int),
        forall|k: int| 0 <= k < old(dirty)@.len() ==> (#[trigger] old(dirty)@[k]) < old(buffer)@.len(),
    ensures
        forall|k: int| 0 <= k < final(dirty)@.len() ==> (#[trigger] final(dirty)@[k]) < old(buffer)@.len(),
        final(buffer)@.len() == old(buffer)@.len(),
        final(buffer)@ == paint_sparse_at(old(buffer)@, *c, stride as int, c.sparse_tiles@.len()),
        final(dirty)@ == old(dirty)@ + diff_sparse_at(
            old(buffer)@,
            *c,
            stride as int,
            c.sparse_tiles@.len(),
        ),
{
    let ghost buf0 = buffer@;
    let ghost dirty0 = dirty@;
    let mut i: usize = 0;
    while i < c.sparse_tiles.len()
        invariant
            c.kind == TermConsoleKind::Sparse,
            curses_fits(*c, stride as int, buf0.len() as int),
            i <= c.sparse_tiles@.len(),
            buffer@.len() == buf0.len(),
            buffer@ == paint_sparse_at(buf0, *c, stride as int, i as nat),
            dirty@ == dirty0 + diff_sparse_at(buf0, *c, stride as int, i as nat),
            forall|k: int| 0 <= k < dirty@.len() ==> (#[trigger] dirty@[k]) < buf0.len(),
        decreases c.sparse_tiles@.len() - i,
    {
        let t = c.sparse_tiles[i];
        let x: u32 = (t.idx as u32) % c.width;
        let y: u32 = (t.idx as u32) / c.width;
        let ty: i32 = c.height as i32 - (y as i32 + 1);
        proof {
            vstd::arithmetic::mul::lemma_mul_nonnegative(ty as int, stride as int);
            assert(buffer.len() == buffer@.len());
        }
        let buf_idx: usize = (ty as usize * stride) + x as usize;
        let cell = OutputBuffer { glyph: t.glyph, fg: t.fg, bg: t.bg };
        if buffer[buf_idx] != cell {
            buffer.set(buf_idx, cell);
            dirty.push(buf_idx);
        }
        i = i + 1;
    }
}

/// Redraws the simple and sparse consoles over the current mirror of a curses
/// window of `height` rows and `width` columns. The mirror is updated in place;
/// the commands redraw exactly the cells that changed, in the order in which
/// they changed, between a palette reset and a refresh.
pub fn curses_partial_redraw(
    height: usize,
    width: usize,
    buffer: &mut Vec<OutputBuffer>,
    consoles: &Vec<TermConsole>,
) -> (cmds: Vec<CursesCommand>)
    requires
        old(buffer)@.len() == height * width,
        width <= i32::MAX,
        height <= i32::MAX,
        all_curses_fit(consoles@, width as int, height * width),
    ensures
        final(buffer)@ == paint_all_at(old(buffer)@, consoles@, width as int, consoles@.len()),
        cmds@ == seq![CursesCommand::ResetPalette] + dirty_curses_cmds(
            final(buffer)@,
            diff_all_at(old(buffer)@, consoles@, width as int, consoles@.len()),
            width as int,
            diff_all_at(old(buffer)@, consoles@, width as int, consoles@.len()).len(),
        ) + seq![CursesCommand::Refresh],
{
    let ghost buf0 = buffer@;
    let mut dirty: Vec<usize> = Vec::new();
    let mut i: usize = 0;
    while i < consoles.len()
        invariant
            all_curses_fit(consoles@, width as int, height * width),
            i <= consoles@.len(),
            buf0.len() == height * width,
            buffer@.len() == buf0.len(),
            buffer@ == paint_all_at(buf0, consoles@, width as int, i as nat),
            dirty@ == diff_all_at(buf0, consoles@, width as int, i as nat),
            forall|k: int| 0 <= k < dirty@.len() ==> (#[trigger] dirty@[k]) < buf0.len(),
        decreases consoles@.len() - i,
    {
        assert(curses_fits(consoles@[i as int], width as int, height * width));
        match consoles[i].kind {
            TermConsoleKind::Simple => {
                diff_simple_curses(buffer, &mut dirty, &consoles[i], width);
            },
            TermConsoleKind::Sparse => {
                diff_sparse_curses(buffer, &mut dirty, &consoles[i], width);
            },
            TermConsoleKind::Other => {},
        }
        i = i + 1;
    }
    let ghost screen = buffer@;
    let mut cmds: Vec<CursesCommand> = Vec::new();
    cmds.push(CursesCommand::ResetPalette);
    let mut last_fg = Rgba8::transparent_black();
    let mut last_bg = Rgba8::transparent_black();
    let mut j: usize = 0;
    while j < dirty.len()
        invariant
            screen == buffer@,
            screen.len() == height * width,
            width <= i32::MAX,
            height <= i32::MAX,
            j <= dirty@.len(),
            forall|k: int| 0 <= k < dirty@.len() ==> (#[trigger] dirty@[k]) < screen.len(),
            cmds@ == seq![CursesCommand::ResetPalette] + dirty_curses_cmds(screen, dirty@, width as int, j as nat),
            j == 0 ==> last_fg == no_color() && last_bg == no_color(),
            j > 0 ==> last_fg == screen[dirty@[j - 1] as int].fg && last_bg == screen[dirty@[j
                - 1] as int].bg,
        decreases dirty@.len() - j,
    {
        let idx = dirty[j];
        assert(width > 0 && idx < height * width) by {
            if width == 0 {
                vstd::arithmetic::mul::lemma_mul_basics(height as int);
            }
        }
        proof {
            vstd::arithmetic::mul::lemma_mul_is_commutative(height as int, width as int);
            vstd::arithmetic::div_mod::lemma_multiply_divide_lt(idx as int, width as int, height as int);
            vstd::arithmetic::div_mod::lemma_mod_bound(idx as int, width as int);
        }
        let x: usize = idx % width;
        let y: usize = idx / width;
        let t = buffer[idx];
        let ghost before = cmds@;
        if t.fg != last_fg {
            cmds.push(CursesCommand::SetForeground(t.fg));
            last_fg = t.fg;
        }
        if t.bg != last_bg {
            cmds.push(CursesCommand::SetBackground(t.bg));
            last_bg = t.bg;
        }
        cmds.push(CursesCommand::AttrSet);
        cmds.push(CursesCommand::MvAddCh(y as i32, x as i32, t.glyph));
        j = j + 1;
    }
    cmds.push(CursesCommand::Refresh);
    cmds
}


/// The colour pairs set up at start: for every background entry `bg` and
/// foreground entry `fg` of the 16-colour palette, pair `bg * 16 + fg`, in
/// that order. Each entry is (pair, foreground, background).
pub fn color_pair_table() -> (pairs: Vec<(i16, i16, i16)>)
    ensures
        pairs@.len() == 256,
        forall|n: int|
            0 <= n < 256 ==> (#[trigger] pairs@[n]).0 == n && pairs@[n].1 == n % 16 && pairs@[n].2
                == n / 16,
{
    let mut pairs: Vec<(i16, i16, i16)> = Vec::new();
    let mut counter: i16 = 0;
    let mut bg: i16 = 0;
    while bg < 16
        invariant
            0 <= bg <= 16,
            counter == 16 * bg,
            pairs@.len() == counter,
            forall|n: int|
                0 <= n < pairs@.len() ==> (#[trigger] pairs@[n]).0 == n && pairs@[n].1 == n % 16
                    && pairs@[n].2 == n / 16,
        decreases 16 - bg,
    {
        let mut fg: i16 = 0;
        while fg < 16
            invariant
                0 <= bg < 16,
                0 <= fg <= 16,
                counter == 16 * bg + fg,
                pairs@.len() == counter,
                forall|n: int|
                    0 <= n < pairs@.len() ==> (#[trigger] pairs@[n]).0 == n && pairs@[n].1 == n
                        % 16 && pairs@[n].2 == n / 16,
            decreases 16 - fg,
        {
            proof {
                vstd::arithmetic::div_mod::lemma_fundamental_div_mod_converse(
                    counter as int,
                    16,
                    bg as int,
                    fg as int,
                );
            }
            pairs.push((counter, fg, bg));
            counter = counter + 1;
            fg = fg + 1;
        }
        bg = bg + 1;
    }
    pairs
}

/// The pair that `color_pair` names for two palette entries is the pair that
/// the start-up table set up with those entries.
pub proof fn color_pair_matches_table(cp_bg: i16, cp_fg: i16)
    requires
        0 <= cp_bg < 16,
        0 <= cp_fg < 16,
    ensures
        ({
            let n = cp_bg * 16 + cp_fg;
            &&& 0 <= n < 256
            &&& n % 16 == cp_fg
            &&& n / 16 == cp_bg
        }),
{
    vstd::arithmetic::div_mod::lemma_fundamental_div_mod_converse(
        cp_bg * 16 + cp_fg,
        16,
        cp_bg as int,
        cp_fg as int,
    );
}

} // verus!
