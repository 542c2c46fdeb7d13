use bracket_terminal::input::{
    button_state_map, curses_mouse_frame, key_frame, key_state_map, mouse_button_index,
    CursesClick, InputButton, KeyDown, KeyEvent, MouseButton,
};

fn ev(code: u32) -> KeyEvent {
    KeyEvent { code, trackable: true }
}

#[test]
fn key_frame_reports_new_and_released_keys() {
    let mut held = vec![1, 2];
    let frame = key_frame(&mut held, &vec![ev(2), ev(3), ev(3)]);
    assert_eq!(frame.new_keys, vec![3]);
    assert_eq!(frame.released, vec![1]);
    assert_eq!(held, vec![2, 3]);
    // The held keys are exactly those reported this frame.
    let frame = key_frame(&mut held, &vec![]);
    assert!(frame.new_keys.is_empty());
    assert_eq!(frame.released, vec![2, 3]);
    assert!(held.is_empty());
}

#[test]
fn untrackable_keys_are_reported_every_time() {
    let mut held = vec![];
    let events = vec![KeyEvent { code: 9, trackable: false }, KeyEvent { code: 9, trackable: false }];
    let frame = key_frame(&mut held, &events);
    assert_eq!(frame.new_keys, vec![9, 9]);
    assert!(held.is_empty());
    assert!(frame.released.is_empty());
}

#[test]
fn mouse_buttons_are_numbered() {
    assert_eq!(mouse_button_index(MouseButton::Left), 0);
    assert_eq!(mouse_button_index(MouseButton::Right), 1);
    assert_eq!(mouse_button_index(MouseButton::Middle), 2);
    assert_eq!(mouse_button_index(MouseButton::Other(4)), 7);
}

#[test]
fn button_state_map_compares_down_with_pressed() {
    let pressed = vec![0, 2];
    let down = vec![
        InputButton::Mouse(MouseButton::Left),
        InputButton::NotMouse,
        InputButton::Mouse(MouseButton::Right),
    ];
    let (newly_pressed, released) = button_state_map(&pressed, &down);
    assert_eq!(newly_pressed, vec![1]);
    assert_eq!(released, vec![2]);
}

#[test]
fn key_state_map_compares_keys_and_scan_codes() {
    let pressed_scans = vec![30];
    let previous = vec![KeyDown { key: 1, scan: 30 }, KeyDown { key: 2, scan: 31 }];
    let now = vec![KeyDown { key: 1, scan: 30 }, KeyDown { key: 3, scan: 32 }, KeyDown { key: 3, scan: 32 }];
    let (newly_pressed, released) = key_state_map(&pressed_scans, &previous, &now);
    assert_eq!(newly_pressed, vec![KeyDown { key: 3, scan: 32 }]);
    assert_eq!(released, vec![KeyDown { key: 2, scan: 31 }]);
}

#[test]
fn curses_mouse_releases_only_the_left_button() {
    let mut held = vec![];
    let f = curses_mouse_frame(&mut held, &vec![CursesClick { button1: true, button2: false, button3: true }]);
    assert_eq!(f.pressed, vec![0, 1]);
    assert!(!f.left_released);
    assert_eq!(held, vec![0, 1]);
    let f = curses_mouse_frame(&mut held, &vec![]);
    assert!(f.pressed.is_empty());
    assert!(f.left_released);
    assert_eq!(held, vec![1]);
}

#[test]
fn key_frames_follow_the_keys_read_each_frame() {
    let mut held: Vec<u32> = Vec::new();
    let f1 = key_frame(&mut held, &vec![ev(1), ev(2), ev(1)]);
    assert_eq!(f1.new_keys, vec![1, 2]);
    assert!(f1.released.is_empty());
    assert_eq!(held, vec![1, 2]);
    let f2 = key_frame(&mut held, &vec![ev(2), ev(3)]);
    assert_eq!(f2.new_keys, vec![3]);
    assert_eq!(f2.released, vec![1]);
    assert_eq!(held, vec![2, 3]);
    let f3 = key_frame(&mut held, &vec![]);
    assert!(f3.new_keys.is_empty());
    assert_eq!(f3.released, vec![2, 3]);
    assert!(held.is_empty());
}
