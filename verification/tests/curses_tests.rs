use bracket_terminal::curses::{
    color_pair, color_pair_table, curses_full_redraw, curses_partial_redraw, CursesCommand,
};
use bracket_terminal::term::{OutputBuffer, Rgba8, SparseCell, TermConsole, TermConsoleKind};

fn c(glyph: char, fg: Rgba8, bg: Rgba8) -> OutputBuffer {
    OutputBuffer { glyph, fg, bg }
}

#[test]
fn colour_pairs() {
    assert_eq!(color_pair(2, 3), Some(35));
    assert_eq!(color_pair(0, -1), None);
    let table = color_pair_table();
    assert_eq!(table.len(), 256);
    assert_eq!(table[35], (35, 3, 2));
}

#[test]
fn curses_full_then_partial() {
    let w = Rgba8 { r: 255, g: 255, b: 255, a: 255 };
    let k = Rgba8 { r: 0, g: 0, b: 0, a: 255 };
    let console = TermConsole {
        kind: TermConsoleKind::Simple,
        width: 2,
        height: 1,
        tiles: vec![c('h', w, k), c('i', w, k)],
        sparse_tiles: Vec::new(),
        is_dirty: false,
    };
    let mut consoles = vec![console];
    let (mut buffer, cmds) = curses_full_redraw(2, 3, &consoles);
    assert_eq!(
        cmds,
        vec![
            CursesCommand::Clear,
            CursesCommand::ResetPalette,
            CursesCommand::SetForeground(w),
            CursesCommand::SetBackground(k),
            CursesCommand::AttrSet,
            CursesCommand::MvAddCh(0, 0, 'h'),
            CursesCommand::AttrSet,
            CursesCommand::MvAddCh(0, 1, 'i'),
            CursesCommand::Refresh,
        ]
    );
    assert_eq!(buffer[0], c('h', w, k));
    assert_eq!(buffer[1], c('i', w, k));
    // Nothing changed: only the reset and the refresh.
    let cmds = curses_partial_redraw(2, 3, &mut buffer, &consoles);
    assert_eq!(cmds, vec![CursesCommand::ResetPalette, CursesCommand::Refresh]);
    consoles[0].tiles[0] = c('H', k, w);
    let cmds = curses_partial_redraw(2, 3, &mut buffer, &consoles);
    assert_eq!(
        cmds,
        vec![
            CursesCommand::ResetPalette,
            CursesCommand::SetForeground(k),
            CursesCommand::SetBackground(w),
            CursesCommand::AttrSet,
            CursesCommand::MvAddCh(0, 0, 'H'),
            CursesCommand::Refresh,
        ]
    );
}

#[test]
fn curses_sparse_glyph() {
    let g = Rgba8 { r: 0, g: 200, b: 0, a: 255 };
    let z = Rgba8 { r: 0, g: 0, b: 0, a: 0 };
    let console = TermConsole {
        kind: TermConsoleKind::Sparse,
        width: 4,
        height: 2,
        tiles: Vec::new(),
        sparse_tiles: vec![SparseCell { idx: 1, glyph: '*', fg: g, bg: z }],
        is_dirty: true,
    };
    let (buffer, cmds) = curses_full_redraw(2, 4, &vec![console]);
    // Bottom console row is terminal row 1; rows are placed `height` apart.
    assert_eq!(buffer[1 * 2 + 1], c('*', g, z));
    assert_eq!(cmds[cmds.len() - 2], CursesCommand::MvAddCh(1, 1, '*'));
}
