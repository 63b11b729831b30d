use vstd::prelude::*;
use vstd::std_specs::iter::IteratorSpec;
use std::collections::HashSet;
use crate::text::string_from_chars;

verus! {

broadcast use vstd::std_specs::hash::group_hash_axioms;

pub const XK_SPACE: u32 = 0x20;
pub const XK_TAB: u32 = 0xff09;
pub const XK_RETURN: u32 = 0xff0d;
pub const XK_ESCAPE: u32 = 0xff1b;
pub const XK_LEFT: u32 = 0xff51;
pub const XK_UP: u32 = 0xff52;
pub const XK_RIGHT: u32 = 0xff53;
pub const XK_DOWN: u32 = 0xff54;
pub const XK_SHIFT_L: u32 = 0xffe1;
pub const XK_SHIFT_R: u32 = 0xffe2;
pub const XK_CONTROL_L: u32 = 0xffe3;
pub const XK_CONTROL_R: u32 = 0xffe4;
pub const XK_ALT_L: u32 = 0xffe9;
pub const XK_ALT_R: u32 = 0xffea;
pub const XK_META_L: u32 = 0xffeb;
pub const XK_META_R: u32 = 0xffec;
pub const XK_DELETE: u32 = 0xffff;
pub const XK_F1: u32 = 0xffbe;
pub const XK_F24: u32 = 0xffd5;

/// A configured key as the engine compares it: right modifiers as left ones,
/// upper-case letters as lower-case ones.
pub open spec fn normalize_key(key: u32) -> u32 {
    if key == XK_CONTROL_R {
        XK_CONTROL_L
    } else if key == XK_ALT_R {
        XK_ALT_L
    } else if key == XK_SHIFT_R {
        XK_SHIFT_L
    } else if key == XK_META_R {
        XK_META_L
    } else if 65 <= key <= 90 {
        (key + 32) as u32
    } else {
        key
    }
}

pub fn normalize_configured_key(key: u32) -> (r: u32)
    ensures
        r == normalize_key(key),
{
    if key == XK_CONTROL_R {
        XK_CONTROL_L
    } else if key == XK_ALT_R {
        XK_ALT_L
    } else if key == XK_SHIFT_R {
        XK_SHIFT_L
    } else if key == XK_META_R {
        XK_META_L
    } else if 65 <= key && key <= 90 {
        key + 32
    } else {
        key
    }
}

pub fn normalize_observed_key(key: u32) -> (r: u32)
    ensures
        r == normalize_key(key),
{
    normalize_configured_key(key)
}

pub fn normalize_configured_key_for_capture(key: u32) -> (r: u32)
    ensures
        r == normalize_key(key),
{
    normalize_configured_key(key)
}

/// Two configured keys name the same key once normalized.
pub fn linux_keys_overlap(a: u32, b: u32) -> (r: bool)
    ensures
        r == (normalize_key(a) == normalize_key(b)),
{
    normalize_configured_key(a) == normalize_configured_key(b)
}

/// The keys that count as held: the pressed keys, plus each left modifier
/// whose left or right key is pressed.
pub open spec fn active_keys_spec(pressed: Set<u32>) -> Set<u32> {
    pressed.union(
        Set::new(
            |k: u32|
                (k == XK_CONTROL_L && pressed.contains(XK_CONTROL_R)) || (k == XK_ALT_L
                    && pressed.contains(XK_ALT_R)) || (k == XK_SHIFT_L && pressed.contains(
                    XK_SHIFT_R,
                )) || (k == XK_META_L && pressed.contains(XK_META_R)),
        ),
    )
}

/// A required key is held: itself, or for a left modifier, its right key.
pub open spec fn required_key_held(required: u32, active: Set<u32>) -> bool {
    ||| active.contains(required)
    ||| required == XK_CONTROL_L && active.contains(XK_CONTROL_R)
    ||| required == XK_ALT_L && active.contains(XK_ALT_R)
    ||| required == XK_SHIFT_L && active.contains(XK_SHIFT_R)
    ||| required == XK_META_L && active.contains(XK_META_R)
}

/// Every required key is held.
pub open spec fn required_keys_active_spec(required: Seq<u32>, active: Set<u32>) -> bool {
    forall|i: int| 0 <= i < required.len() ==> required_key_held(#[trigger] required[i], active)
}

fn contains_key(set: &HashSet<u32>, key: u32) -> (r: bool)
    ensures
        r == set@.contains(key),
{
    set.contains(&key)
}

/// A copy of a set of keys.
pub fn copy_key_set(keys: &HashSet<u32>) -> (r: HashSet<u32>)
    ensures
        r@ == keys@,
{
    let mut out: HashSet<u32> = HashSet::new();
    let iter = keys.iter();
    let ghost all = iter.remaining().unref();
    assert(all.to_set() == keys@);
    for x in it: iter
        invariant
            forall|k: u32| out@.contains(k) <==> exists|j: int| 0 <= j < it.index() && all[j] == k,
            it.seq().unref() == all,
    {
        out.insert(*x);
        assert(all[it.index() as int] == *x);
    }
    proof {
        assert forall|k: u32| out@.contains(k) <==> keys@.contains(k) by {
            if out@.contains(k) {
                let j = choose|j: int| 0 <= j < all.len() && all[j] == k;
                assert(all.to_set().contains(all[j]));
            }
            if keys@.contains(k) {
                assert(all.to_set().contains(k));
            }
        }
        assert(out@ =~= keys@);
    }
    out
}

pub fn active_linux_keys(pressed_actual_keys: &HashSet<u32>) -> (r: HashSet<u32>)
    ensures
        r@ == active_keys_spec(pressed_actual_keys@),
{
    let mut active = copy_key_set(pressed_actual_keys);
    if contains_key(&active, XK_CONTROL_L) || contains_key(&active, XK_CONTROL_R) {
        active.insert(XK_CONTROL_L);
    }
    if contains_key(&active, XK_ALT_L) || contains_key(&active, XK_ALT_R) {
        active.insert(XK_ALT_L);
    }
    if contains_key(&active, XK_SHIFT_L) || contains_key(&active, XK_SHIFT_R) {
        active.insert(XK_SHIFT_L);
    }
    if contains_key(&active, XK_META_L) || contains_key(&active, XK_META_R) {
        active.insert(XK_META_L);
    }
    proof {
        assert(active@ =~= active_keys_spec(pressed_actual_keys@));
    }
    active
}


pub fn required_keys_active(required_keys: &[u32], active_keys: &HashSet<u32>) -> (r: bool)
    ensures
        r == required_keys_active_spec(required_keys@, active_keys@),
{
    let mut i: usize = 0;
    while i < required_keys.len()
        invariant
            i <= required_keys@.len(),
            forall|j: int| 0 <= j < i ==> required_key_held(#[trigger] required_keys@[j], active_keys@),
        decreases required_keys.len() - i,
    {
        let required = required_keys[i];
        let held = if contains_key(active_keys, required) {
            true
        } else if required == XK_CONTROL_L {
            contains_key(active_keys, XK_CONTROL_R)
        } else if required == XK_ALT_L {
            contains_key(active_keys, XK_ALT_R)
        } else if required == XK_SHIFT_L {
            contains_key(active_keys, XK_SHIFT_R)
        } else if required == XK_META_L {
            contains_key(active_keys, XK_META_R)
        } else {
            false
        };
        if !held {
            assert(!required_key_held(required_keys@[i as int], active_keys@));
            return false;
        }
        i = i + 1;
    }
    true
}

pub open spec fn is_modifier_key_spec(key: u32) -> bool {
    key == XK_CONTROL_L || key == XK_CONTROL_R || key == XK_ALT_L || key == XK_ALT_R || key
        == XK_SHIFT_L || key == XK_SHIFT_R || key == XK_META_L || key == XK_META_R
}

pub fn is_modifier_key(key: u32) -> (r: bool)
    ensures
        r == is_modifier_key_spec(key),
{
    key == XK_CONTROL_L || key == XK_CONTROL_R || key == XK_ALT_L || key == XK_ALT_R || key
        == XK_SHIFT_L || key == XK_SHIFT_R || key == XK_META_L || key == XK_META_R
}

/// Ctrl, Alt, Shift, Meta, then every other key.
pub open spec fn linux_key_rank(key: u32) -> u8 {
    let k = normalize_key(key);
    if k == XK_CONTROL_L {
        0
    } else if k == XK_ALT_L {
        1
    } else if k == XK_SHIFT_L {
        2
    } else if k == XK_META_L {
        3
    } else {
        4
    }
}

pub fn linux_key_sort_key(key: u32) -> (r: (u8, u32))
    ensures
        r == (linux_key_rank(key), key),
{
    let k = normalize_configured_key(key);
    let rank: u8 = if k == XK_CONTROL_L {
        0
    } else if k == XK_ALT_L {
        1
    } else if k == XK_SHIFT_L {
        2
    } else if k == XK_META_L {
        3
    } else {
        4
    };
    (rank, key)
}

pub open spec fn is_ascii_alphanumeric_key_spec(key: u32) -> bool {
    (48 <= key <= 57) || (97 <= key <= 122) || (65 <= key <= 90)
}

pub fn is_ascii_alphanumeric_key(key: u32) -> (r: bool)
    ensures
        r == is_ascii_alphanumeric_key_spec(key),
{
    (48 <= key && key <= 57) || (97 <= key && key <= 122) || (65 <= key && key <= 90)
}

/// The label of a key: that of its normalized key (see the settings labels).
pub open spec fn linux_key_label_spec(key: u32) -> Seq<char> {
    crate::settings::linux_key_label_spec(normalize_key(key))
}

pub fn linux_key_label(key: u32) -> (r: String)
    ensures
        r@ == linux_key_label_spec(key),
{
    let label = crate::settings::linux_key_label_chars(normalize_configured_key(key));
    string_from_chars(&label)
}

} // verus!
