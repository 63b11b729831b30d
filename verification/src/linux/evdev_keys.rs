//! The kernel's key codes, as evdev reports them, and the keysyms Parrot
//! stores for them.
use vstd::prelude::*;
use crate::linux::hotkeys::keys::{
    XK_ALT_L, XK_ALT_R, XK_CONTROL_L, XK_CONTROL_R, XK_DELETE, XK_DOWN, XK_ESCAPE, XK_F1, XK_LEFT,
    XK_META_L, XK_META_R, XK_RETURN, XK_RIGHT, XK_SHIFT_L, XK_SHIFT_R, XK_SPACE, XK_TAB, XK_UP,
};
use crate::linux::hotkeys::engine::{evaluation, HotkeyEngine};
use crate::linux::hotkeys::keys::{is_modifier_key_spec, normalize_key};
use crate::linux::hotkeys::types::{HotkeyAction, KeyEventKind};
use crate::linux::shortcut_capture::{
    capture_error, capture_key_set, captured_shortcut, key_down_result, shortcut_from_linux_key_codes, CaptureState,
};
use crate::protocol::{ShortcutMode, ShortcutSettings};

verus! {

pub const KEY_SPACE: u16 = 57;
pub const KEY_TAB: u16 = 15;
pub const KEY_ENTER: u16 = 28;
pub const KEY_ESC: u16 = 1;
pub const KEY_DELETE: u16 = 111;
pub const KEY_LEFT: u16 = 105;
pub const KEY_RIGHT: u16 = 106;
pub const KEY_UP: u16 = 103;
pub const KEY_DOWN: u16 = 108;
pub const KEY_LEFTCTRL: u16 = 29;
pub const KEY_RIGHTCTRL: u16 = 97;
pub const KEY_LEFTALT: u16 = 56;
pub const KEY_RIGHTALT: u16 = 100;
pub const KEY_LEFTSHIFT: u16 = 42;
pub const KEY_RIGHTSHIFT: u16 = 54;
pub const KEY_LEFTMETA: u16 = 125;
pub const KEY_RIGHTMETA: u16 = 126;
pub const KEY_F1: u16 = 59;
pub const KEY_F2: u16 = 60;
pub const KEY_F3: u16 = 61;
pub const KEY_F4: u16 = 62;
pub const KEY_F5: u16 = 63;
pub const KEY_F6: u16 = 64;
pub const KEY_F7: u16 = 65;
pub const KEY_F8: u16 = 66;
pub const KEY_F9: u16 = 67;
pub const KEY_F10: u16 = 68;
pub const KEY_F11: u16 = 87;
pub const KEY_F12: u16 = 88;
pub const KEY_A: u16 = 30;
pub const KEY_B: u16 = 48;
pub const KEY_C: u16 = 46;
pub const KEY_D: u16 = 32;
pub const KEY_E: u16 = 18;
pub const KEY_F: u16 = 33;
pub const KEY_G: u16 = 34;
pub const KEY_H: u16 = 35;
pub const KEY_I: u16 = 23;
pub const KEY_J: u16 = 36;
pub const KEY_K: u16 = 37;
pub const KEY_L: u16 = 38;
pub const KEY_M: u16 = 50;
pub const KEY_N: u16 = 49;
pub const KEY_O: u16 = 24;
pub const KEY_P: u16 = 25;
pub const KEY_Q: u16 = 16;
pub const KEY_R: u16 = 19;
pub const KEY_S: u16 = 31;
pub const KEY_T: u16 = 20;
pub const KEY_U: u16 = 22;
pub const KEY_V: u16 = 47;
pub const KEY_W: u16 = 17;
pub const KEY_X: u16 = 45;
pub const KEY_Y: u16 = 21;
pub const KEY_Z: u16 = 44;
pub const KEY_0: u16 = 11;
pub const KEY_1: u16 = 2;
pub const KEY_2: u16 = 3;
pub const KEY_3: u16 = 4;
pub const KEY_4: u16 = 5;
pub const KEY_5: u16 = 6;
pub const KEY_6: u16 = 7;
pub const KEY_7: u16 = 8;
pub const KEY_8: u16 = 9;
pub const KEY_9: u16 = 10;

/// Each key Parrot understands from evdev, with the keysym it stands for.
pub const EVDEV_KEYSYMS: [(u16, u32); 65] = [
    (KEY_SPACE, XK_SPACE),
    (KEY_TAB, XK_TAB),
    (KEY_ENTER, XK_RETURN),
    (KEY_ESC, XK_ESCAPE),
    (KEY_DELETE, XK_DELETE),
    (KEY_LEFT, XK_LEFT),
    (KEY_RIGHT, XK_RIGHT),
    (KEY_UP, XK_UP),
    (KEY_DOWN, XK_DOWN),
    (KEY_LEFTCTRL, XK_CONTROL_L),
    (KEY_RIGHTCTRL, XK_CONTROL_R),
    (KEY_LEFTALT, XK_ALT_L),
    (KEY_RIGHTALT, XK_ALT_R),
    (KEY_LEFTSHIFT, XK_SHIFT_L),
    (KEY_RIGHTSHIFT, XK_SHIFT_R),
    (KEY_LEFTMETA, XK_META_L),
    (KEY_RIGHTMETA, XK_META_R),
    (KEY_F1, XK_F1),
    (KEY_F2, 0xffbf),
    (KEY_F3, 0xffc0),
    (KEY_F4, 0xffc1),
    (KEY_F5, 0xffc2),
    (KEY_F6, 0xffc3),
    (KEY_F7, 0xffc4),
    (KEY_F8, 0xffc5),
    (KEY_F9, 0xffc6),
    (KEY_F10, 0xffc7),
    (KEY_F11, 0xffc8),
    (KEY_F12, 0xffc9),
    (KEY_A, 97),
    (KEY_B, 98),
    (KEY_C, 99),
    (KEY_D, 100),
    (KEY_E, 101),
    (KEY_F, 102),
    (KEY_G, 103),
    (KEY_H, 104),
    (KEY_I, 105),
    (KEY_J, 106),
    (KEY_K, 107),
    (KEY_L, 108),
    (KEY_M, 109),
    (KEY_N, 110),
    (KEY_O, 111),
    (KEY_P, 112),
    (KEY_Q, 113),
    (KEY_R, 114),
    (KEY_S, 115),
    (KEY_T, 116),
    (KEY_U, 117),
    (KEY_V, 118),
    (KEY_W, 119),
    (KEY_X, 120),
    (KEY_Y, 121),
    (KEY_Z, 122),
    (KEY_0, 48),
    (KEY_1, 49),
    (KEY_2, 50),
    (KEY_3, 51),
    (KEY_4, 52),
    (KEY_5, 53),
    (KEY_6, 54),
    (KEY_7, 55),
    (KEY_8, 56),
    (KEY_9, 57),
];

/// The keysym listed first for `code` in `table`.
pub open spec fn lookup(table: Seq<(u16, u32)>, code: u16) -> Option<u32>
    decreases table.len(),
{
    if table.len() == 0 {
        None
    } else if table[0].0 == code {
        Some(table[0].1)
    } else {
        lookup(table.drop_first(), code)
    }
}

pub open spec fn evdev_keysym(code: u16) -> Option<u32> {
    lookup(EVDEV_KEYSYMS@, code)
}

pub fn evdev_key_to_linux_key(code: u16) -> (r: Option<u32>)
    ensures
        r == evdev_keysym(code),
{
    let table = EVDEV_KEYSYMS;
    let mut i: usize = 0;
    assert(table@.skip(0) =~= table@);
    while i < table.len()
        invariant
            table@ == EVDEV_KEYSYMS@,
            i <= table@.len(),
            lookup(table@, code) == lookup(table@.skip(i as int), code),
        decreases table.len() - i,
    {
        assert(table@.skip(i as int).drop_first() =~= table@.skip(i + 1));
        if table[i].0 == code {
            return Some(table[i].1);
        }
        i = i + 1;
    }
    None
}

/// The keysyms of the keys that have one, in order.
pub open spec fn mapped_keys(codes: Seq<u16>) -> Seq<u32>
    decreases codes.len(),
{
    if codes.len() == 0 {
        Seq::empty()
    } else {
        mapped_keys(codes.drop_last()) + match evdev_keysym(codes.last()) {
            Some(k) => seq![k],
            None => Seq::empty(),
        }
    }
}

pub fn evdev_keys_to_linux_keys(codes: &Vec<u16>) -> (r: Vec<u32>)
    ensures
        r@ == mapped_keys(codes@),
{
    let mut keys: Vec<u32> = Vec::new();
    let mut i: usize = 0;
    while i < codes.len()
        invariant
            i <= codes@.len(),
            keys@ == mapped_keys(codes@.take(i as int)),
        decreases codes.len() - i,
    {
        assert(codes@.take(i + 1).drop_last() =~= codes@.take(i as int));
        match evdev_key_to_linux_key(codes[i]) {
            Some(k) => keys.push(k),
            None => {},
        }
        i = i + 1;
    }
    assert(codes@.take(codes@.len() as int) =~= codes@);
    keys
}

/// The shortcut captured from the evdev keys held: the keys with a keysym,
/// captured as the X11 path captures keysyms.
pub fn shortcut_from_evdev_keys(codes: Vec<u16>, mode: ShortcutMode) -> (r: Result<ShortcutSettings, String>)
    ensures
        match capture_error(capture_key_set(mapped_keys(codes@))) {
            Some(m) => r matches Err(e) && e@ == m,
            None => r matches Ok(sh) && captured_shortcut(capture_key_set(mapped_keys(codes@)), mode, sh),
        },
{
    let keys = evdev_keys_to_linux_keys(&codes);
    shortcut_from_linux_key_codes(keys, mode)
}

/// What an evdev key event's value means: 0 a release, 1 a press; other
/// values (repeats) are ignored.
pub open spec fn key_event_kind_spec(value: i32) -> Option<KeyEventKind> {
    if value == 0 {
        Some(KeyEventKind::Up)
    } else if value == 1 {
        Some(KeyEventKind::Down)
    } else {
        None
    }
}

pub fn key_event_kind(value: i32) -> (r: Option<KeyEventKind>)
    ensures
        r == key_event_kind_spec(value),
{
    if value == 0 {
        Some(KeyEventKind::Up)
    } else if value == 1 {
        Some(KeyEventKind::Down)
    } else {
        None
    }
}

/// Feeds a key event read from an evdev device to the hotkey engine and gives
/// the actions it produces; repeats and keys Parrot does not map change nothing.
pub fn handle_evdev_key_event(engine: &mut HotkeyEngine, code: u16, value: i32) -> (actions: Vec<HotkeyAction>)
    requires
        old(engine).wf(),
    ensures
        final(engine).wf(),
        match (key_event_kind_spec(value), evdev_keysym(code)) {
            (Some(kind), Some(key)) => {
                let pressed = if kind == KeyEventKind::Down {
                    old(engine).pressed_spec().insert(normalize_key(key))
                } else {
                    old(engine).pressed_spec().remove(normalize_key(key))
                };
                let step = evaluation(
                    old(engine).bindings_spec(),
                    old(engine).states_spec(),
                    pressed,
                    old(engine).cancellation_spec(),
                    normalize_key(key),
                    kind,
                );
                &&& final(engine).bindings_spec() == old(engine).bindings_spec()
                &&& final(engine).cancellation_spec() == old(engine).cancellation_spec()
                &&& final(engine).pressed_spec() == pressed
                &&& final(engine).states_spec() == step.0
                &&& actions@ == step.1
            },
            _ => *final(engine) == *old(engine) && actions@.len() == 0,
        },
{
    let kind = match key_event_kind(value) {
        Some(k) => k,
        None => return Vec::new(),
    };
    let key = match evdev_key_to_linux_key(code) {
        Some(k) => k,
        None => return Vec::new(),
    };
    let outcome = engine.handle_key_event(key, kind);
    outcome.actions
}

/// Feeds a key event read from an evdev device to a shortcut capture; repeats
/// and keys Parrot does not map change nothing.
pub fn capture_evdev_key_event(state: &mut CaptureState, code: u16, value: i32) -> (r: Result<Option<ShortcutSettings>, String>)
    requires
        old(state).wf(),
    ensures
        final(state).wf(),
        final(state).mode_spec() == old(state).mode_spec(),
        match (key_event_kind_spec(value), evdev_keysym(code)) {
            (Some(KeyEventKind::Down), Some(key)) => {
                let k = normalize_key(key);
                &&& final(state).modifiers_spec() == (if k != XK_ESCAPE && is_modifier_key_spec(k) {
                    old(state).modifiers_spec().insert(k)
                } else {
                    old(state).modifiers_spec()
                })
                &&& key_down_result(old(state).modifiers_spec(), old(state).mode_spec(), k, r)
            },
            (Some(KeyEventKind::Up), Some(key)) => {
                &&& final(state).modifiers_spec() == old(state).modifiers_spec().remove(normalize_key(key))
                &&& r matches Ok(None)
            },
            _ => final(state).modifiers_spec() == old(state).modifiers_spec() && r matches Ok(None),
        },
{
    let kind = match key_event_kind(value) {
        Some(k) => k,
        None => return Ok(None),
    };
    let key = match evdev_key_to_linux_key(code) {
        Some(k) => k,
        None => return Ok(None),
    };
    match kind {
        KeyEventKind::Down => state.handle_key_down(key),
        KeyEventKind::Up => state.handle_key_up(key),
    }
}

/// The modifier keys whose release a paste waits for.
pub const MODIFIER_KEYS: [u16; 8] = [
    KEY_LEFTCTRL,
    KEY_RIGHTCTRL,
    KEY_LEFTALT,
    KEY_RIGHTALT,
    KEY_LEFTSHIFT,
    KEY_RIGHTSHIFT,
    KEY_LEFTMETA,
    KEY_RIGHTMETA,
];

/// Whether any modifier key is among the keys held down.
pub fn any_modifier_held(held: &Vec<u16>) -> (r: bool)
    ensures
        r == exists|i: int| 0 <= i < held@.len() && MODIFIER_KEYS@.contains(#[trigger] held@[i]),
{
    let modifiers = MODIFIER_KEYS;
    let mut i: usize = 0;
    while i < held.len()
        invariant
            modifiers@ == MODIFIER_KEYS@,
            i <= held@.len(),
            forall|k: int| 0 <= k < i ==> !MODIFIER_KEYS@.contains(#[trigger] held@[k]),
        decreases held.len() - i,
    {
        let mut j: usize = 0;
        while j < modifiers.len()
            invariant
                modifiers@ == MODIFIER_KEYS@,
                i < held@.len(),
                j <= modifiers@.len(),
                forall|m: int| 0 <= m < j ==> modifiers@[m] != held@[i as int],
            decreases modifiers.len() - j,
        {
            if modifiers[j] == held[i] {
                assert(MODIFIER_KEYS@.contains(held@[i as int]));
                return true;
            }
            j = j + 1;
        }
        i = i + 1;
    }
    false
}

/// An input device is taken for a keyboard when it has a space bar and a
/// letter A or an F9 key.
pub fn looks_like_keyboard(supported: &Vec<u16>) -> (r: bool)
    ensures
        r == (supported@.contains(KEY_SPACE) && (supported@.contains(KEY_A) || supported@.contains(KEY_F9))),
{
    let mut space = false;
    let mut a = false;
    let mut f9 = false;
    let mut i: usize = 0;
    while i < supported.len()
        invariant
            i <= supported@.len(),
            space == supported@.take(i as int).contains(KEY_SPACE),
            a == supported@.take(i as int).contains(KEY_A),
            f9 == supported@.take(i as int).contains(KEY_F9),
        decreases supported.len() - i,
    {
        let k = supported[i];
        proof {
            let t = supported@.take(i as int);
            let t2 = supported@.take(i + 1);
            assert(t2 =~= t.push(k));
            assert forall|x: u16| t2.contains(x) <==> (t.contains(x) || x == k) by {
                if t2.contains(x) {
                    let m = choose|m: int| 0 <= m < t2.len() && t2[m] == x;
                    if m < t.len() {
                        assert(t[m] == x);
                    }
                }
                if t.contains(x) {
                    let m = choose|m: int| 0 <= m < t.len() && t[m] == x;
                    assert(t2[m] == x);
                }
                if x == k {
                    assert(t2[i as int] == x);
                }
            }
        }
        if k == KEY_SPACE {
            space = true;
        }
        if k == KEY_A {
            a = true;
        }
        if k == KEY_F9 {
            f9 = true;
        }
        i = i + 1;
    }
    assert(supported@.take(supported@.len() as int) =~= supported@);
    space && (a || f9)
}

pub const EVDEV_PERMISSION_MESSAGE: &'static str = "No readable Linux keyboard input devices were found. Add your user to the input group, log out, and log back in.";

} // verus!
