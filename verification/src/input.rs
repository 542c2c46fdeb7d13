//! Keyboard and mouse bookkeeping of the back-ends.
//!
//! Terminal back-ends only learn that a key is down from the events of the
//! current frame; a key that was held and is not reported again has been
//! released. Window back-ends learn the set of keys and buttons that are down
//! and compare it with the set the terminal believes to be pressed.
use vstd::prelude::*;
use crate::seqs::{lemma_filter_empty, lemma_filter_push};

verus! {

/// A key event of one frame. `trackable` says whether the key is remembered as
/// held once pressed (a terminal back-end only remembers keys it can report as
/// key presses).
#[derive(Clone, Copy, PartialEq, Eq, Debug, Structural)]
pub struct KeyEvent {
    pub code: u32,
    pub trackable: bool,
}

/// The codes of a list of key events.
pub open spec fn codes(events: Seq<KeyEvent>) -> Seq<u32> {
    events.map_values(|e: KeyEvent| e.code)
}

/// Keys that some event of the frame reported.
pub open spec fn reported_in(events: Seq<KeyEvent>) -> spec_fn(u32) -> bool {
    |k: u32| codes(events).contains(k)
}

/// Keys that no event of the frame reported.
pub open spec fn not_reported_in(events: Seq<KeyEvent>) -> spec_fn(u32) -> bool {
    |k: u32| !codes(events).contains(k)
}

/// The keys held after the first `n` events of a frame, starting from `held`:
/// a trackable key that is not yet held is added at the end.
pub open spec fn held_after(held: Seq<u32>, events: Seq<KeyEvent>, n: nat) -> Seq<u32>
    decreases n,
{
    if n == 0 {
        held
    } else {
        let h = held_after(held, events, (n - 1) as nat);
        let e = events[n - 1];
        if !h.contains(e.code) && e.trackable {
            h.push(e.code)
        } else {
            h
        }
    }
}

/// The first `n` events, as the codes of those that came while their key was
/// not held: each of them is reported as a new key.
pub open spec fn new_keys(held: Seq<u32>, events: Seq<KeyEvent>, n: nat) -> Seq<u32>
    decreases n,
{
    if n == 0 {
        seq![]
    } else {
        let prev = new_keys(held, events, (n - 1) as nat);
        let e = events[n - 1];
        if !held_after(held, events, (n - 1) as nat).contains(e.code) {
            prev.push(e.code)
        } else {
            prev
        }
    }
}

/// What a frame of key events did: keys newly reported, and keys released.
pub struct KeyFrame {
    pub new_keys: Vec<u32>,
    pub released: Vec<u32>,
}

/// Processes one frame of key events against the keys held so far. Every event
/// whose key is not held is reported as new, and a trackable one becomes held;
/// afterwards every held key that no event of the frame reported is released
/// and forgotten.
pub fn key_frame(held: &mut Vec<u32>, events: &Vec<KeyEvent>) -> (res: KeyFrame)
    ensures
        res.new_keys@ == new_keys(old(held)@, events@, events@.len()),
        res.released@ == held_after(old(held)@, events@, events@.len()).filter(
            not_reported_in(events@),
        ),
        final(held)@ == held_after(old(held)@, events@, events@.len()).filter(
            reported_in(events@),
        ),
{
    let ghost held0 = held@;
    let mut new_keys_out: Vec<u32> = Vec::new();
    let mut i: usize = 0;
    while i < events.len()
        invariant
            i <= events@.len(),
            held@ == held_after(held0, events@, i as nat),
            new_keys_out@ == new_keys(held0, events@, i as nat),
        decreases events@.len() - i,
    {
        let e = events[i];
        if !vec_contains(held, e.code) {
            new_keys_out.push(e.code);
            if e.trackable {
                held.push(e.code);
            }
        }
        i = i + 1;
    }
    let ghost all = held@;
    let ghost in_frame = reported_in(events@);
    let ghost not_in_frame = not_reported_in(events@);
    let mut kept: Vec<u32> = Vec::new();
    let mut released: Vec<u32> = Vec::new();
    let mut j: usize = 0;
    proof {
        assert(all.take(0) == Seq::<u32>::empty());
        lemma_filter_empty(in_frame);
        lemma_filter_empty(not_in_frame);
    }
    while j < held.len()
        invariant
            held@ == all,
            in_frame == reported_in(events@),
            not_in_frame == not_reported_in(events@),
            j <= all.len(),
            kept@ == all.take(j as int).filter(in_frame),
            released@ == all.take(j as int).filter(not_in_frame),
        decreases all.len() - j,
    {
        let k = held[j];
        proof {
            assert(all.take(j + 1) == all.take(j as int).push(k));
            lemma_filter_push(all.take(j as int), k, in_frame);
            lemma_filter_push(all.take(j as int), k, not_in_frame);
        }
        if codes_contain(events, k) {
            kept.push(k);
        } else {
            released.push(k);
        }
        j = j + 1;
    }
    proof {
        assert(all.take(all.len() as int) == all);
    }
    *held = kept;
    KeyFrame { new_keys: new_keys_out, released }
}

fn vec_contains(v: &Vec<u32>, x: u32) -> (r: bool)
    ensures
        r == v@.contains(x),
{
    let mut i: usize = 0;
    while i < v.len()
        invariant
            i <= v@.len(),
            forall|j: int| 0 <= j < i ==> v@[j] != x,
        decreases v@.len() - i,
    {
        if v[i] == x {
            return true;
        }
        i = i + 1;
    }
    false
}

fn codes_contain(events: &Vec<KeyEvent>, x: u32) -> (r: bool)
    ensures
        r == codes(events@).contains(x),
{
    let mut i: usize = 0;
    while i < events.len()
        invariant
            i <= events@.len(),
            forall|j: int| 0 <= j < i ==> events@[j].code != x,
        decreases events@.len() - i,
    {
        if events[i].code == x {
            assert(codes(events@)[i as int] == x);
            return true;
        }
        i = i + 1;
    }
    assert forall|j: int| 0 <= j < codes(events@).len() implies codes(events@)[j] != x by {
        assert(codes(events@)[j] == events@[j].code);
    }
    false
}


proof fn lemma_held_after(held: Seq<u32>, events: Seq<KeyEvent>, n: nat)
    requires
        n <= events.len(),
    ensures
        forall|k: u32|
            #[trigger] held_after(held, events, n).contains(k) <==> (held.contains(k) || exists|i: int|
                0 <= i < n && events[i].trackable && events[i].code == k),
    decreases n,
{
    if n > 0 {
        let m = (n - 1) as nat;
        lemma_held_after(held, events, m);
        let h = held_after(held, events, m);
        let e = events[m as int];
        assert forall|k: u32| #[trigger] held_after(held, events, n).contains(k) <==> (held.contains(k)
            || exists|i: int| 0 <= i < n && events[i].trackable && events[i].code == k) by {
            if !h.contains(e.code) && e.trackable {
                assert(held_after(held, events, n) == h.push(e.code));
                if h.push(e.code).contains(k) && k != e.code {
                    let j = choose|j: int| 0 <= j < h.len() + 1 && h.push(e.code)[j] == k;
                    assert(h[j] == k);
                }
                if h.contains(k) {
                    let j = choose|j: int| 0 <= j < h.len() && h[j] == k;
                    assert(h.push(e.code)[j] == k);
                }
                if k == e.code {
                    assert(h.push(e.code)[h.len() as int] == k);
                }
            }
            if exists|i: int| 0 <= i < n && events[i].trackable && events[i].code == k {
                let i = choose|i: int| 0 <= i < n && events[i].trackable && events[i].code == k;
                if i < m {
                } else {
                    assert(i == m);
                }
            }
        }
    }
}

/// After a frame in which every key is trackable, the keys held are exactly the
/// keys that the frame's events reported.
pub proof fn key_frame_holds_reported_keys(held: Seq<u32>, events: Seq<KeyEvent>)
    requires
        forall|i: int| 0 <= i < events.len() ==> (#[trigger] events[i]).trackable,
    ensures
        forall|k: u32|
            #[trigger] held_after(held, events, events.len()).filter(reported_in(events)).contains(k)
                <==> codes(events).contains(k),
{
    broadcast use vstd::seq_lib::group_filter_ensures;

    let h = held_after(held, events, events.len());
    lemma_held_after(held, events, events.len());
    assert forall|k: u32| #[trigger] h.filter(reported_in(events)).contains(k) <==> codes(
        events,
    ).contains(k) by {
        if h.filter(reported_in(events)).contains(k) {
            h.lemma_filter_contains_rev(reported_in(events), k);
            let j = choose|j: int|
                0 <= j < h.filter(reported_in(events)).len() && h.filter(reported_in(events))[j]
                    == k;
            assert(reported_in(events)(h.filter(reported_in(events))[j]));
        }
        if codes(events).contains(k) {
            let i = choose|i: int| 0 <= i < codes(events).len() && codes(events)[i] == k;
            assert(events[i].code == k);
            assert(h.contains(k));
            let j = choose|j: int| 0 <= j < h.len() && h[j] == k;
            assert(reported_in(events)(h[j]));
        }
    }
}

/// A key released in a frame was held before the frame and was not reported in
/// it.
pub proof fn key_frame_releases_only_held_keys(held: Seq<u32>, events: Seq<KeyEvent>)
    ensures
        forall|k: u32|
            #[trigger] held_after(held, events, events.len()).filter(
                not_reported_in(events),
            ).contains(k) ==> held.contains(k) && !codes(events).contains(k),
{
    broadcast use vstd::seq_lib::group_filter_ensures;

    let h = held_after(held, events, events.len());
    lemma_held_after(held, events, events.len());
    assert forall|k: u32| #[trigger] h.filter(not_reported_in(events)).contains(k) implies held.contains(
        k,
    ) && !codes(events).contains(k) by {
        h.lemma_filter_contains_rev(not_reported_in(events), k);
        let j = choose|j: int|
            0 <= j < h.filter(not_reported_in(events)).len() && h.filter(not_reported_in(events))[j]
                == k;
        assert(not_reported_in(events)(h.filter(not_reported_in(events))[j]));
        if !held.contains(k) {
            let i = choose|i: int| 0 <= i < events.len() && events[i].trackable && events[i].code == k;
            assert(codes(events)[i] == k);
        }
    }
}


/// Every event of the frame is for a trackable key.
pub open spec fn all_trackable(events: Seq<KeyEvent>) -> bool {
    forall|i: int| 0 <= i < events.len() ==> (#[trigger] events[i]).trackable
}

proof fn lemma_new_keys(held: Seq<u32>, events: Seq<KeyEvent>, n: nat)
    requires
        n <= events.len(),
        all_trackable(events),
    ensures
        forall|k: u32|
            #[trigger] new_keys(held, events, n).contains(k) <==> (!held.contains(k) && exists|i: int|
                0 <= i < n && events[i].code == k),
    decreases n,
{
    if n > 0 {
        let m = (n - 1) as nat;
        lemma_new_keys(held, events, m);
        lemma_held_after(held, events, m);
        let h = held_after(held, events, m);
        let prev = new_keys(held, events, m);
        let e = events[m as int];
        assert(e.trackable);
        assert forall|k: u32| #[trigger] new_keys(held, events, n).contains(k) <==> (!held.contains(k)
            && exists|i: int| 0 <= i < n && events[i].code == k) by {
            if !h.contains(e.code) {
                assert(new_keys(held, events, n) == prev.push(e.code));
                if prev.push(e.code).contains(k) && k != e.code {
                    let j = choose|j: int| 0 <= j < prev.len() + 1 && prev.push(e.code)[j] == k;
                    assert(prev[j] == k);
                }
                if prev.contains(k) {
                    let j = choose|j: int| 0 <= j < prev.len() && prev[j] == k;
                    assert(prev.push(e.code)[j] == k);
                }
                if k == e.code {
                    assert(prev.push(e.code)[prev.len() as int] == k);
                }
            } else {
                if k == e.code && !held.contains(k) {
                    let i = choose|i: int| 0 <= i < m && events[i].trackable && events[i].code == k;
                    assert(0 <= i < m && events[i].code == k);
                }
            }
            if exists|i: int| 0 <= i < n && events[i].code == k {
                let i = choose|i: int| 0 <= i < n && events[i].code == k;
                if i < m {
                } else {
                    assert(i == m);
                    if h.contains(k) && !held.contains(k) {
                        let i2 = choose|i2: int|
                            0 <= i2 < m && events[i2].trackable && events[i2].code == k;
                        assert(0 <= i2 < m && events[i2].code == k);
                    }
                }
            }
        }
    }
}

/// In a frame in which every key is trackable, the keys reported as new are
/// exactly the keys read in the frame that were not held, and the keys
/// released are exactly the held keys that the frame did not read.
pub proof fn key_frame_reports_changes(held: Seq<u32>, events: Seq<KeyEvent>)
    requires
        all_trackable(events),
    ensures
        forall|k: u32|
            #[trigger] new_keys(held, events, events.len()).contains(k) <==> (codes(events).contains(
                k,
            ) && !held.contains(k)),
        forall|k: u32|
            #[trigger] held_after(held, events, events.len()).filter(
                not_reported_in(events),
            ).contains(k) <==> (held.contains(k) && !codes(events).contains(k)),
{
    broadcast use vstd::seq_lib::group_filter_ensures;

    lemma_new_keys(held, events, events.len());
    lemma_held_after(held, events, events.len());
    key_frame_releases_only_held_keys(held, events);
    let h = held_after(held, events, events.len());
    assert forall|k: u32| #[trigger] new_keys(held, events, events.len()).contains(k) <==> (codes(
        events,
    ).contains(k) && !held.contains(k)) by {
        if codes(events).contains(k) {
            let i = choose|i: int| 0 <= i < codes(events).len() && codes(events)[i] == k;
            assert(events[i].code == k);
        }
        if exists|i: int| 0 <= i < events.len() && events[i].code == k {
            let i = choose|i: int| 0 <= i < events.len() && events[i].code == k;
            assert(codes(events)[i] == k);
        }
    }
    assert forall|k: u32| held.contains(k) && !codes(events).contains(k) implies #[trigger] h.filter(
        not_reported_in(events),
    ).contains(k) by {
        assert(h.contains(k));
        let j = choose|j: int| 0 <= j < h.len() && h[j] == k;
        assert(not_reported_in(events)(h[j]));
    }
}

/// The keys held after each of the first `n` frames, starting from `held`:
/// what `key_frame` leaves held, frame after frame.
pub open spec fn held_after_frames(held: Seq<u32>, frames: Seq<Seq<KeyEvent>>, n: nat) -> Seq<u32>
    decreases n,
{
    if n == 0 {
        held
    } else {
        let f = frames[n - 1];
        held_after(held_after_frames(held, frames, (n - 1) as nat), f, f.len()).filter(
            reported_in(f),
        )
    }
}

/// Whether key `k` was read in frame `m`, frames counted from 1 (before the
/// first frame no key was read).
pub open spec fn read_in_frame(frames: Seq<Seq<KeyEvent>>, m: int, k: u32) -> bool {
    1 <= m && codes(frames[m - 1]).contains(k)
}

/// Over successive frames in which every key is trackable, starting with no
/// key held: after frame `n` the keys held are exactly the keys read in frame
/// `n`; frame `n` reports as new exactly the keys read in it and not in frame
/// `n - 1`, and releases exactly the keys read in frame `n - 1` and not in
/// frame `n`.
pub proof fn key_frames_follow_the_keys_read(frames: Seq<Seq<KeyEvent>>, n: nat)
    requires
        1 <= n <= frames.len(),
        forall|i: int| 0 <= i < frames.len() ==> all_trackable(#[trigger] frames[i]),
    ensures
        forall|k: u32|
            #[trigger] held_after_frames(seq![], frames, n).contains(k) <==> read_in_frame(
                frames,
                n as int,
                k,
            ),
        forall|k: u32|
            #[trigger] new_keys(
                held_after_frames(seq![], frames, (n - 1) as nat),
                frames[n - 1],
                frames[n - 1].len(),
            ).contains(k) <==> (read_in_frame(frames, n as int, k) && !read_in_frame(
                frames,
                n - 1,
                k,
            )),
        forall|k: u32|
            #[trigger] held_after(
                held_after_frames(seq![], frames, (n - 1) as nat),
                frames[n - 1],
                frames[n - 1].len(),
            ).filter(not_reported_in(frames[n - 1])).contains(k) <==> (read_in_frame(
                frames,
                n - 1,
                k,
            ) && !read_in_frame(frames, n as int, k)),
    decreases n,
{
    let prev = held_after_frames(seq![], frames, (n - 1) as nat);
    let f = frames[n - 1];
    assert(all_trackable(f));
    if n == 1 {
        assert(prev == Seq::<u32>::empty());
        assert forall|k: u32| !prev.contains(k) <==> !read_in_frame(frames, 0, k) by {}
    } else {
        key_frames_follow_the_keys_read(frames, (n - 1) as nat);
    }
    assert(forall|k: u32| prev.contains(k) <==> read_in_frame(frames, n - 1, k));
    key_frame_holds_reported_keys(prev, f);
    key_frame_reports_changes(prev, f);
    assert(held_after_frames(seq![], frames, n) == held_after(prev, f, f.len()).filter(
        reported_in(f),
    ));
}

/// A mouse button as the windowing layer reports it.
#[derive(Clone, Copy, PartialEq, Eq, Debug, Structural)]
pub enum MouseButton {
    Left,
    Right,
    Middle,
    Other(u16),
}

/// The terminal's number for a mouse button: left 0, right 1, middle 2, and
/// extra button `n` as `3 + n`.
pub open spec fn button_number(b: MouseButton) -> nat {
    match b {
        MouseButton::Left => 0,
        MouseButton::Right => 1,
        MouseButton::Middle => 2,
        MouseButton::Other(n) => (3 + n) as nat,
    }
}

/// Numbers a mouse button.
pub fn mouse_button_index(b: MouseButton) -> (i: usize)
    ensures
        i == button_number(b),
{
    match b {
        MouseButton::Left => 0,
        MouseButton::Right => 1,
        MouseButton::Middle => 2,
        MouseButton::Other(n) => 3 + n as usize,
    }
}

/// A button that an input handler reports as down: a mouse button or some
/// other button.
#[derive(Clone, Copy, PartialEq, Eq, Debug, Structural)]
pub enum InputButton {
    Mouse(MouseButton),
    NotMouse,
}

/// The number that stands for a button that is not a mouse button.
pub const NOT_A_MOUSE_BUTTON: usize = 65536;

/// The number of a reported button.
pub open spec fn button_code(b: InputButton) -> usize {
    match b {
        InputButton::Mouse(m) => button_number(m) as usize,
        InputButton::NotMouse => NOT_A_MOUSE_BUTTON,
    }
}

/// The numbers of a list of reported buttons.
pub open spec fn button_codes(down: Seq<InputButton>) -> Seq<usize> {
    down.map_values(|b: InputButton| button_code(b))
}

/// Mouse buttons, among those numbered, that the terminal does not have
/// pressed.
pub open spec fn newly_pressed_filter(pressed: Seq<usize>) -> spec_fn(usize) -> bool {
    |b: usize| b != NOT_A_MOUSE_BUTTON && !pressed.contains(b)
}

/// Buttons the terminal has pressed that are not among those down.
pub open spec fn released_filter(down: Seq<usize>) -> spec_fn(usize) -> bool {
    |b: usize| !down.contains(b)
}

fn usize_vec_contains(v: &Vec<usize>, x: usize) -> (r: bool)
    ensures
        r == v@.contains(x),
{
    let mut i: usize = 0;
    while i < v.len()
        invariant
            i <= v@.len(),
            forall|j: int| 0 <= j < i ==> v@[j] != x,
        decreases v@.len() - i,
    {
        if v[i] == x {
            return true;
        }
        i = i + 1;
    }
    false
}

/// Compares the buttons that are down with the buttons the terminal has
/// pressed. Returns the newly pressed mouse buttons, in the order reported,
/// and the newly released ones, in the terminal's order.
pub fn button_state_map(pressed: &Vec<usize>, down: &Vec<InputButton>) -> (res: (Vec<usize>, Vec<usize>))
    ensures
        res.0@ == button_codes(down@).filter(newly_pressed_filter(pressed@)),
        res.1@ == pressed@.filter(released_filter(button_codes(down@))),
{
    let ghost codes_down = button_codes(down@);
    let mut down_codes: Vec<usize> = Vec::new();
    let mut newly_pressed: Vec<usize> = Vec::new();
    let mut i: usize = 0;
    proof {
        lemma_filter_empty(newly_pressed_filter(pressed@));
        assert(codes_down.take(0) == Seq::<usize>::empty());
    }
    while i < down.len()
        invariant
            codes_down == button_codes(down@),
            i <= down@.len(),
            down_codes@ == codes_down.take(i as int),
            newly_pressed@ == codes_down.take(i as int).filter(newly_pressed_filter(pressed@)),
        decreases down@.len() - i,
    {
        let code: usize = match down[i] {
            InputButton::Mouse(m) => mouse_button_index(m),
            InputButton::NotMouse => NOT_A_MOUSE_BUTTON,
        };
        proof {
            assert(codes_down[i as int] == code);
            assert(codes_down.take(i + 1) == codes_down.take(i as int).push(code));
            lemma_filter_push(codes_down.take(i as int), code, newly_pressed_filter(pressed@));
        }
        if code != NOT_A_MOUSE_BUTTON && !usize_vec_contains(pressed, code) {
            newly_pressed.push(code);
        }
        down_codes.push(code);
        i = i + 1;
    }
    proof {
        assert(codes_down.take(down@.len() as int) == codes_down);
    }
    let mut released: Vec<usize> = Vec::new();
    let mut j: usize = 0;
    proof {
        lemma_filter_empty(released_filter(codes_down));
        assert(pressed@.take(0) == Seq::<usize>::empty());
    }
    while j < pressed.len()
        invariant
            down_codes@ == codes_down,
            j <= pressed@.len(),
            released@ == pressed@.take(j as int).filter(released_filter(codes_down)),
        decreases pressed@.len() - j,
    {
        let b = pressed[j];
        proof {
            assert(pressed@.take(j + 1) == pressed@.take(j as int).push(b));
            lemma_filter_push(pressed@.take(j as int), b, released_filter(codes_down));
        }
        if !usize_vec_contains(&down_codes, b) {
            released.push(b);
        }
        j = j + 1;
    }
    proof {
        assert(pressed@.take(pressed@.len() as int) == pressed@);
    }
    (newly_pressed, released)
}

/// A key that is down: its key code and its scan code.
#[derive(Clone, Copy, PartialEq, Eq, Debug, Structural)]
pub struct KeyDown {
    pub key: u32,
    pub scan: u32,
}

/// The first `n` keys of a list, each kept only at its first occurrence.
pub open spec fn distinct_keys(keys: Seq<KeyDown>, n: nat) -> Seq<KeyDown>
    decreases n,
{
    if n == 0 {
        seq![]
    } else {
        let prev = distinct_keys(keys, (n - 1) as nat);
        if prev.contains(keys[n - 1]) {
            prev
        } else {
            prev.push(keys[n - 1])
        }
    }
}

/// Keys whose scan code the terminal does not have pressed.
pub open spec fn scan_not_pressed(scans: Seq<u32>) -> spec_fn(KeyDown) -> bool {
    |k: KeyDown| !scans.contains(k.scan)
}

/// Keys not among those down.
pub open spec fn not_down(keys: Seq<KeyDown>) -> spec_fn(KeyDown) -> bool {
    |k: KeyDown| !keys.contains(k)
}

fn key_vec_contains(v: &Vec<KeyDown>, x: KeyDown) -> (r: bool)
    ensures
        r == v@.contains(x),
{
    let mut i: usize = 0;
    while i < v.len()
        invariant
            i <= v@.len(),
            forall|j: int| 0 <= j < i ==> v@[j] != x,
        decreases v@.len() - i,
    {
        if v[i] == x {
            return true;
        }
        i = i + 1;
    }
    false
}

/// Compares the keys that are down (`keys_now`) with the scan codes the
/// terminal has pressed and with the keys it held down last frame. Returns the
/// newly pressed keys (each once, in the order first reported) and the newly
/// released keys (in last frame's order).
pub fn key_state_map(
    pressed_scan_codes: &Vec<u32>,
    keys_down: &Vec<KeyDown>,
    keys_now: &Vec<KeyDown>,
) -> (res: (Vec<KeyDown>, Vec<KeyDown>))
    ensures
        res.0@ == distinct_keys(keys_now@, keys_now@.len()).filter(
            scan_not_pressed(pressed_scan_codes@),
        ),
        res.1@ == keys_down@.filter(not_down(keys_now@)),
{
    let mut distinct: Vec<KeyDown> = Vec::new();
    let mut i: usize = 0;
    while i < keys_now.len()
        invariant
            i <= keys_now@.len(),
            distinct@ == distinct_keys(keys_now@, i as nat),
        decreases keys_now@.len() - i,
    {
        let k = keys_now[i];
        if !key_vec_contains(&distinct, k) {
            distinct.push(k);
        }
        i = i + 1;
    }
    let ghost d = distinct@;
    let mut newly_pressed: Vec<KeyDown> = Vec::new();
    let mut j: usize = 0;
    proof {
        lemma_filter_empty(scan_not_pressed(pressed_scan_codes@));
        assert(d.take(0) == Seq::<KeyDown>::empty());
    }
    while j < distinct.len()
        invariant
            distinct@ == d,
            j <= d.len(),
            newly_pressed@ == d.take(j as int).filter(scan_not_pressed(pressed_scan_codes@)),
        decreases d.len() - j,
    {
        let k = distinct[j];
        proof {
            assert(d.take(j + 1) == d.take(j as int).push(k));
            lemma_filter_push(d.take(j as int), k, scan_not_pressed(pressed_scan_codes@));
        }
        if !vec_contains(pressed_scan_codes, k.scan) {
            newly_pressed.push(k);
        }
        j = j + 1;
    }
    proof {
        assert(d.take(d.len() as int) == d);
    }
    let mut released: Vec<KeyDown> = Vec::new();
    let mut m: usize = 0;
    proof {
        lemma_filter_empty(not_down(keys_now@));
        assert(keys_down@.take(0) == Seq::<KeyDown>::empty());
    }
    while m < keys_down.len()
        invariant
            m <= keys_down@.len(),
            released@ == keys_down@.take(m as int).filter(not_down(keys_now@)),
        decreases keys_down@.len() - m,
    {
        let k = keys_down[m];
        proof {
            assert(keys_down@.take(m + 1) == keys_down@.take(m as int).push(k));
            lemma_filter_push(keys_down@.take(m as int), k, not_down(keys_now@));
        }
        if !key_vec_contains(keys_now, k) {
            released.push(k);
        }
        m = m + 1;
    }
    proof {
        assert(keys_down@.take(keys_down@.len() as int) == keys_down@);
    }
    (newly_pressed, released)
}

/// Which of the three buttons a curses mouse event reports clicked.
#[derive(Clone, Copy, PartialEq, Eq, Debug, Structural)]
pub struct CursesClick {
    pub button1: bool,
    pub button2: bool,
    pub button3: bool,
}

/// The terminal's numbers of the buttons a click reports, in the order they
/// are looked at: button 1 is 0, button 2 is 2, button 3 is 1.
pub open spec fn click_buttons(c: CursesClick) -> Seq<usize> {
    (if c.button1 {
        seq![0usize]
    } else {
        seq![]
    }) + (if c.button2 {
        seq![2usize]
    } else {
        seq![]
    }) + (if c.button3 {
        seq![1usize]
    } else {
        seq![]
    })
}

/// The buttons reported by the first `n` clicks, in order.
pub open spec fn clicked(clicks: Seq<CursesClick>, n: nat) -> Seq<usize>
    decreases n,
{
    if n == 0 {
        seq![]
    } else {
        clicked(clicks, (n - 1) as nat) + click_buttons(clicks[n - 1])
    }
}

/// The buttons pressed after `n` of the clicked buttons: a clicked button that
/// is not held becomes held.
pub open spec fn held_buttons(held: Seq<usize>, bs: Seq<usize>, n: nat) -> Seq<usize>
    decreases n,
{
    if n == 0 {
        held
    } else {
        let h = held_buttons(held, bs, (n - 1) as nat);
        if h.contains(bs[n - 1]) {
            h
        } else {
            h.push(bs[n - 1])
        }
    }
}

/// The clicked buttons, of the first `n`, that were not held when clicked: the
/// presses reported.
pub open spec fn button_presses(held: Seq<usize>, bs: Seq<usize>, n: nat) -> Seq<usize>
    decreases n,
{
    if n == 0 {
        seq![]
    } else {
        let prev = button_presses(held, bs, (n - 1) as nat);
        if held_buttons(held, bs, (n - 1) as nat).contains(bs[n - 1]) {
            prev
        } else {
            prev.push(bs[n - 1])
        }
    }
}

/// What a frame of curses mouse events did: the presses reported, and whether
/// the left button (0) was released.
pub struct MouseFrame {
    pub pressed: Vec<usize>,
    pub left_released: bool,
}

fn press_button(held: &mut Vec<usize>, pressed: &mut Vec<usize>, b: usize) -> (newly: bool)
    ensures
        newly == !old(held)@.contains(b),
        final(held)@ == if newly {
            old(held)@.push(b)
        } else {
            old(held)@
        },
        final(pressed)@ == if newly {
            old(pressed)@.push(b)
        } else {
            old(pressed)@
        },
{
    if !usize_vec_contains(held, b) {
        held.push(b);
        pressed.push(b);
        true
    } else {
        false
    }
}

fn remove_usize(v: &mut Vec<usize>, x: usize)
    ensures
        final(v)@ == old(v)@.filter(|y: usize| y != x),
{
    let ghost v0 = v@;
    let ghost p = |y: usize| y != x;
    let mut out: Vec<usize> = Vec::new();
    let mut i: usize = 0;
    proof {
        lemma_filter_empty(p);
        assert(v0.take(0) == Seq::<usize>::empty());
    }
    while i < v.len()
        invariant
            v@ == v0,
            p == (|y: usize| y != x),
            i <= v0.len(),
            out@ == v0.take(i as int).filter(p),
        decreases v0.len() - i,
    {
        let y = v[i];
        proof {
            assert(v0.take(i + 1) == v0.take(i as int).push(y));
            lemma_filter_push(v0.take(i as int), y, p);
        }
        if y != x {
            out.push(y);
        }
        i = i + 1;
    }
    proof {
        assert(v0.take(v0.len() as int) == v0);
    }
    *v = out;
}

/// Processes one frame of curses mouse events against the buttons held. A
/// clicked button that is not held is pressed and becomes held. The left
/// button is released when it is held and this frame did not press it; the
/// other buttons stay held.
pub fn curses_mouse_frame(held: &mut Vec<usize>, clicks: &Vec<CursesClick>) -> (res: MouseFrame)
    ensures
        ({
            let bs = clicked(clicks@, clicks@.len());
            let h = held_buttons(old(held)@, bs, bs.len());
            let presses = button_presses(old(held)@, bs, bs.len());
            &&& res.pressed@ == presses
            &&& res.left_released == (!presses.contains(0usize) && h.contains(0usize))
            &&& final(held)@ == if res.left_released {
                h.filter(|y: usize| y != 0usize)
            } else {
                h
            }
        }),
{
    let mut bs: Vec<usize> = Vec::new();
    let mut i: usize = 0;
    while i < clicks.len()
        invariant
            i <= clicks@.len(),
            bs@ == clicked(clicks@, i as nat),
        decreases clicks@.len() - i,
    {
        let c = clicks[i];
        let ghost before = bs@;
        if c.button1 {
            bs.push(0);
        }
        if c.button2 {
            bs.push(2);
        }
        if c.button3 {
            bs.push(1);
        }
        assert(bs@ == before + click_buttons(c));
        i = i + 1;
    }
    let ghost held0 = held@;
    let mut pressed: Vec<usize> = Vec::new();
    let mut k: usize = 0;
    while k < bs.len()
        invariant
            k <= bs@.len(),
            held@ == held_buttons(held0, bs@, k as nat),
            pressed@ == button_presses(held0, bs@, k as nat),
        decreases bs@.len() - k,
    {
        press_button(held, &mut pressed, bs[k]);
        k = k + 1;
    }
    let left_released = !usize_vec_contains(&pressed, 0) && usize_vec_contains(held, 0);
    if left_released {
        remove_usize(held, 0);
    }
    MouseFrame { pressed, left_released }
}

/// Whether a click reports the button numbered `b`: curses' button 1 is the
/// left button, button 2 the middle one and button 3 the right one.
pub open spec fn click_reports(c: CursesClick, b: usize) -> bool {
    ||| c.button1 && b == button_number(MouseButton::Left)
    ||| c.button2 && b == button_number(MouseButton::Middle)
    ||| c.button3 && b == button_number(MouseButton::Right)
}

proof fn lemma_clicked_contains(clicks: Seq<CursesClick>, n: nat)
    requires
        n <= clicks.len(),
    ensures
        forall|b: usize|
            #[trigger] clicked(clicks, n).contains(b) <==> exists|i: int|
                0 <= i < n && click_reports(clicks[i], b),
    decreases n,
{
    if n > 0 {
        let m = (n - 1) as nat;
        lemma_clicked_contains(clicks, m);
        let prev = clicked(clicks, m);
        let c = clicks[m as int];
        let cb = click_buttons(c);
        assert(clicked(clicks, n) == prev + cb);
        assert forall|b: usize| #[trigger] cb.contains(b) <==> click_reports(c, b) by {
            let s1: Seq<usize> = if c.button1 { seq![0usize] } else { seq![] };
            let s2: Seq<usize> = if c.button2 { seq![2usize] } else { seq![] };
            let s3: Seq<usize> = if c.button3 { seq![1usize] } else { seq![] };
            assert(cb == s1 + s2 + s3);
            if cb.contains(b) {
                let j = choose|j: int| 0 <= j < cb.len() && cb[j] == b;
                if j < s1.len() {
                    assert(s1[j] == b);
                } else if j < s1.len() + s2.len() {
                    assert(s2[j - s1.len()] == b);
                } else {
                    assert(s3[j - s1.len() - s2.len()] == b);
                }
            }
            if click_reports(c, b) {
                if c.button1 && b == 0 {
                    assert(cb[0] == b);
                } else if c.button2 && b == 2 {
                    assert(cb[s1.len() as int] == b);
                } else {
                    assert(cb[(s1.len() + s2.len()) as int] == b);
                }
            }
        }
        assert forall|b: usize| #[trigger] clicked(clicks, n).contains(b) <==> exists|i: int|
            0 <= i < n && click_reports(clicks[i], b) by {
            let all = prev + cb;
            if all.contains(b) {
                let j = choose|j: int| 0 <= j < all.len() && all[j] == b;
                if j < prev.len() {
                    assert(prev[j] == b);
                    assert(prev.contains(b));
                    let i = choose|i: int| 0 <= i < m && click_reports(clicks[i], b);
                    assert(0 <= i < n && click_reports(clicks[i], b));
                } else {
                    assert(cb[j - prev.len()] == b);
                    assert(cb.contains(b));
                    assert(click_reports(clicks[m as int], b));
                }
            }
            if exists|i: int| 0 <= i < n && click_reports(clicks[i], b) {
                let i = choose|i: int| 0 <= i < n && click_reports(clicks[i], b);
                if i < m {
                    assert(prev.contains(b));
                    let j = choose|j: int| 0 <= j < prev.len() && prev[j] == b;
                    assert(all[j] == b);
                } else {
                    assert(i == m);
                    assert(cb.contains(b));
                    let j = choose|j: int| 0 <= j < cb.len() && cb[j] == b;
                    assert(all[prev.len() + j] == b);
                }
            }
        }
    }
}

proof fn lemma_button_presses(held: Seq<usize>, bs: Seq<usize>, n: nat)
    requires
        n <= bs.len(),
    ensures
        forall|b: usize|
            #[trigger] held_buttons(held, bs, n).contains(b) <==> (held.contains(b) || exists|j: int|
                0 <= j < n && bs[j] == b),
        forall|b: usize|
            #[trigger] button_presses(held, bs, n).contains(b) <==> (!held.contains(b) && exists|
                j: int,
            | 0 <= j < n && bs[j] == b),
    decreases n,
{
    if n > 0 {
        let m = (n - 1) as nat;
        lemma_button_presses(held, bs, m);
        let h = held_buttons(held, bs, m);
        let prev = button_presses(held, bs, m);
        let e = bs[m as int];
        assert forall|b: usize| #[trigger] held_buttons(held, bs, n).contains(b) <==> (held.contains(b)
            || exists|j: int| 0 <= j < n && bs[j] == b) by {
            if !h.contains(e) {
                assert(held_buttons(held, bs, n) == h.push(e));
                if h.push(e).contains(b) && b != e {
                    let j = choose|j: int| 0 <= j < h.len() + 1 && h.push(e)[j] == b;
                    assert(h[j] == b);
                }
                if h.contains(b) {
                    let j = choose|j: int| 0 <= j < h.len() && h[j] == b;
                    assert(h.push(e)[j] == b);
                }
                if b == e {
                    assert(h.push(e)[h.len() as int] == b);
                }
            }
            if exists|j: int| 0 <= j < n && bs[j] == b {
                let j = choose|j: int| 0 <= j < n && bs[j] == b;
                if j < m {
                } else {
                    assert(j == m);
                }
            }
        }
        assert forall|b: usize| #[trigger] button_presses(held, bs, n).contains(b) <==> (!held.contains(
            b,
        ) && exists|j: int| 0 <= j < n && bs[j] == b) by {
            if !h.contains(e) {
                assert(button_presses(held, bs, n) == prev.push(e));
                if prev.push(e).contains(b) && b != e {
                    let j = choose|j: int| 0 <= j < prev.len() + 1 && prev.push(e)[j] == b;
                    assert(prev[j] == b);
                }
                if prev.contains(b) {
                    let j = choose|j: int| 0 <= j < prev.len() && prev[j] == b;
                    assert(prev.push(e)[j] == b);
                }
                if b == e {
                    assert(prev.push(e)[prev.len() as int] == b);
                }
            } else {
                if b == e && !held.contains(b) {
                    let j = choose|j: int| 0 <= j < m && bs[j] == b;
                    assert(0 <= j < m && bs[j] == b);
                }
            }
            if exists|j: int| 0 <= j < n && bs[j] == b {
                let j = choose|j: int| 0 <= j < n && bs[j] == b;
                if j < m {
                } else {
                    assert(j == m);
                    if h.contains(b) && !held.contains(b) {
                        let j2 = choose|j2: int| 0 <= j2 < m && bs[j2] == b;
                        assert(0 <= j2 < m && bs[j2] == b);
                    }
                }
            }
        }
    }
}

/// The three curses buttons are the left, middle and right mouse buttons, each
/// with its own number; in a frame of curses clicks, a button is reported
/// pressed exactly when it was not held and some click of the frame reports
/// it, and it is then held.
pub proof fn curses_clicks_press_their_buttons(held: Seq<usize>, clicks: Seq<CursesClick>)
    ensures
        button_number(MouseButton::Left) != button_number(MouseButton::Middle),
        button_number(MouseButton::Left) != button_number(MouseButton::Right),
        button_number(MouseButton::Middle) != button_number(MouseButton::Right),
        forall|b: usize|
            #[trigger] button_presses(
                held,
                clicked(clicks, clicks.len()),
                clicked(clicks, clicks.len()).len(),
            ).contains(b) <==> (!held.contains(b) && exists|i: int|
                0 <= i < clicks.len() && click_reports(clicks[i], b)),
        forall|b: usize|
            #[trigger] held_buttons(
                held,
                clicked(clicks, clicks.len()),
                clicked(clicks, clicks.len()).len(),
            ).contains(b) <==> (held.contains(b) || exists|i: int|
                0 <= i < clicks.len() && click_reports(clicks[i], b)),
{
    let bs = clicked(clicks, clicks.len());
    lemma_clicked_contains(clicks, clicks.len());
    lemma_button_presses(held, bs, bs.len());
    assert forall|b: usize| #[trigger] button_presses(held, bs, bs.len()).contains(b) <==> (
    !held.contains(b) && exists|i: int| 0 <= i < clicks.len() && click_reports(clicks[i], b)) by {
        assert(clicked(clicks, clicks.len()).contains(b) <==> exists|i: int|
            0 <= i < clicks.len() && click_reports(clicks[i], b));
        if exists|j: int| 0 <= j < bs.len() && bs[j] == b {
            let j = choose|j: int| 0 <= j < bs.len() && bs[j] == b;
            assert(bs.contains(b));
        }
        if bs.contains(b) {
            let j = choose|j: int| 0 <= j < bs.len() && bs[j] == b;
            assert(exists|j: int| 0 <= j < bs.len() && bs[j] == b);
        }
    }
    assert forall|b: usize| #[trigger] held_buttons(held, bs, bs.len()).contains(b) <==> (
    held.contains(b) || exists|i: int| 0 <= i < clicks.len() && click_reports(clicks[i], b)) by {
        assert(clicked(clicks, clicks.len()).contains(b) <==> exists|i: int|
            0 <= i < clicks.len() && click_reports(clicks[i], b));
        if exists|j: int| 0 <= j < bs.len() && bs[j] == b {
            let j = choose|j: int| 0 <= j < bs.len() && bs[j] == b;
            assert(bs.contains(b));
        }
        if bs.contains(b) {
            let j = choose|j: int| 0 <= j < bs.len() && bs[j] == b;
            assert(exists|j: int| 0 <= j < bs.len() && bs[j] == b);
        }
    }
}

} // verus!
