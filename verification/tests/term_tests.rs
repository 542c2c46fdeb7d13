use bracket_terminal::term::{
    full_redraw, partial_redraw, OutputBuffer, Rgba8, SparseCell, TermCommand, TermConsole,
    TermConsoleKind,
};

fn rgba(r: u8, g: u8, b: u8, a: u8) -> Rgba8 {
    Rgba8 { r, g, b, a }
}

fn cell(glyph: char, fg: Rgba8, bg: Rgba8) -> OutputBuffer {
    OutputBuffer { glyph, fg, bg }
}

fn simple(width: u32, height: u32, tiles: Vec<OutputBuffer>) -> TermConsole {
    TermConsole {
        kind: TermConsoleKind::Simple,
        width,
        height,
        tiles,
        sparse_tiles: Vec::new(),
        is_dirty: true,
    }
}

fn sparse(width: u32, height: u32, tiles: Vec<SparseCell>) -> TermConsole {
    TermConsole {
        kind: TermConsoleKind::Sparse,
        width,
        height,
        tiles: Vec::new(),
        sparse_tiles: tiles,
        is_dirty: true,
    }
}

/// A terminal that runs commands the way the library models it.
fn replay(screen: &mut Vec<OutputBuffer>, width: usize, cmds: &[TermCommand]) {
    let mut cursor = (0usize, 0usize);
    let mut fg = rgba(0, 0, 0, 0);
    let mut bg = rgba(0, 0, 0, 0);
    for c in cmds {
        match *c {
            TermCommand::MoveTo(x, y) => cursor = (x as usize, y as usize),
            TermCommand::SetForeground(col) => fg = col,
            TermCommand::SetBackground(col) => bg = col,
            TermCommand::Print(ch) => {
                let p = cursor.1 * width + cursor.0;
                if cursor.0 < width && p < screen.len() {
                    screen[p] = cell(ch, fg, bg);
                }
                cursor.0 += 1;
            }
        }
    }
}

#[test]
fn blank_cell_is_white_space_on_transparent_black() {
    let c = OutputBuffer::default();
    assert_eq!(c.glyph, ' ');
    assert_eq!(c.fg, rgba(255, 255, 255, 255));
    assert_eq!(c.bg, rgba(0, 0, 0, 0));
}

#[test]
fn full_redraw_paints_simple_console_bottom_row_first() {
    let red = rgba(255, 0, 0, 255);
    let blue = rgba(0, 0, 255, 255);
    let black = rgba(0, 0, 0, 255);
    // Bottom row "ab", top row "cd".
    let tiles = vec![
        cell('a', red, black),
        cell('b', red, black),
        cell('c', blue, black),
        cell('d', blue, black),
    ];
    let mut consoles = vec![simple(2, 2, tiles)];
    let (buffer, cmds) = full_redraw(3, 2, &mut consoles);
    assert_eq!(buffer.len(), 6);
    assert_eq!(buffer[0], cell('c', blue, black));
    assert_eq!(buffer[1], cell('d', blue, black));
    assert_eq!(buffer[2], OutputBuffer::default());
    assert_eq!(buffer[3], cell('a', red, black));
    assert_eq!(buffer[4], cell('b', red, black));
    assert_eq!(buffer[5], OutputBuffer::default());
    assert_eq!(
        cmds,
        vec![
            TermCommand::MoveTo(0, 1),
            TermCommand::SetForeground(red),
            TermCommand::SetBackground(black),
            TermCommand::Print('a'),
            TermCommand::Print('b'),
            TermCommand::MoveTo(0, 0),
            TermCommand::SetForeground(blue),
            TermCommand::Print('c'),
            TermCommand::Print('d'),
        ]
    );
    assert!(!consoles[0].is_dirty);
}

#[test]
fn full_redraw_skips_clean_and_unknown_consoles() {
    let mut c = simple(1, 1, vec![cell('x', rgba(1, 2, 3, 4), rgba(5, 6, 7, 8))]);
    c.is_dirty = false;
    let other = TermConsole {
        kind: TermConsoleKind::Other,
        width: 1,
        height: 1,
        tiles: Vec::new(),
        sparse_tiles: Vec::new(),
        is_dirty: true,
    };
    let mut consoles = vec![c, other];
    let (buffer, cmds) = full_redraw(2, 2, &mut consoles);
    assert!(buffer.iter().all(|b| *b == OutputBuffer::default()));
    assert!(cmds.is_empty());
    assert!(consoles[1].is_dirty);
}

#[test]
fn full_redraw_sparse_console_scales_rows_by_terminal_height() {
    let g = rgba(0, 255, 0, 255);
    let k = rgba(0, 0, 0, 0);
    // Console 3 wide, 2 high; glyph 4 is column 1 of row 1 (from the bottom),
    // i.e. the top terminal row.
    let mut consoles = vec![sparse(3, 2, vec![SparseCell { idx: 4, glyph: '@', fg: g, bg: k }])];
    let (buffer, cmds) = full_redraw(4, 2, &mut consoles);
    // Row 0 * height 2 + column 1.
    assert_eq!(buffer[1], cell('@', g, k));
    assert_eq!(
        cmds,
        vec![
            TermCommand::MoveTo(1, 0),
            TermCommand::SetForeground(g),
            TermCommand::SetBackground(k),
            TermCommand::Print('@'),
        ]
    );
    // A glyph on the bottom row lands at row 1 * height, here the same as the
    // terminal width would give only when the terminal is square.
    let mut consoles = vec![sparse(3, 2, vec![SparseCell { idx: 2, glyph: '#', fg: g, bg: k }])];
    let (buffer, _) = full_redraw(4, 2, &mut consoles);
    assert_eq!(buffer[1 * 2 + 2], cell('#', g, k));
}

#[test]
fn partial_redraw_emits_only_changed_cells() {
    let w = rgba(255, 255, 255, 255);
    let k = rgba(0, 0, 0, 255);
    let tiles = vec![cell('a', w, k), cell('b', w, k)];
    let mut consoles = vec![simple(2, 1, tiles)];
    let (mut buffer, _) = full_redraw(2, 1, &mut consoles);
    // Nothing dirty: nothing to do.
    let before = buffer.clone();
    let cmds = partial_redraw(2, 1, &mut buffer, &mut consoles);
    assert!(cmds.is_empty());
    assert_eq!(buffer, before);
    // Change one cell and mark the console dirty.
    consoles[0].tiles[1] = cell('z', w, k);
    consoles[0].is_dirty = true;
    let cmds = partial_redraw(2, 1, &mut buffer, &mut consoles);
    assert_eq!(
        cmds,
        vec![
            TermCommand::MoveTo(1, 0),
            TermCommand::SetForeground(w),
            TermCommand::SetBackground(k),
            TermCommand::Print('z'),
        ]
    );
    assert_eq!(buffer[1], cell('z', w, k));
    assert!(!consoles[0].is_dirty);
}

#[test]
fn partial_redraw_commands_reproduce_the_mirror() {
    let a = rgba(10, 20, 30, 255);
    let b = rgba(40, 50, 60, 255);
    let z = rgba(0, 0, 0, 0);
    let old: Vec<OutputBuffer> = (0..12).map(|_| OutputBuffer::default()).collect();
    let mut buffer = old.clone();
    let mut consoles = vec![
        simple(3, 2, vec![cell('1', a, z), cell('2', b, z), cell('3', a, b), cell('4', z, z), cell('5', a, a), cell('6', b, b)]),
        sparse(4, 3, vec![SparseCell { idx: 5, glyph: 'S', fg: b, bg: a }]),
    ];
    let cmds = partial_redraw(4, 3, &mut buffer, &mut consoles);
    let mut screen = old.clone();
    replay(&mut screen, 4, &cmds);
    assert_eq!(screen, buffer);
}
