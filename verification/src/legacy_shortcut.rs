use vstd::prelude::*;
use crate::language::ascii_lowercase_chars;
use crate::protocol::{
    ShortcutChord, ShortcutKey, ShortcutMode, ShortcutModifier, ShortcutPlatformCodes,
    ShortcutSettings,
};
use crate::text::{ascii_lower_seq, chars_eq, chars_of, string_from_chars, sub_chars, trim_chars, trim_seq};

verus! {

/// The chord modifier a macOS key code stands for.
pub open spec fn macos_modifier(code: u16) -> Option<ShortcutModifier> {
    if code == 55 || code == 54 {
        Some(ShortcutModifier::Command)
    } else if code == 59 || code == 62 {
        Some(ShortcutModifier::Control)
    } else if code == 58 || code == 61 {
        Some(ShortcutModifier::Option)
    } else if code == 56 || code == 60 {
        Some(ShortcutModifier::Shift)
    } else if code == 63 {
        Some(ShortcutModifier::Fn)
    } else {
        None
    }
}

/// The chord key a macOS key code stands for.
pub open spec fn macos_key(code: u16) -> Option<ShortcutKey> {
    if code == 49 {
        Some(ShortcutKey::Space)
    } else if code == 36 || code == 76 {
        Some(ShortcutKey::Return)
    } else if code == 48 {
        Some(ShortcutKey::Tab)
    } else if code == 53 {
        Some(ShortcutKey::Escape)
    } else if code == 51 || code == 117 {
        Some(ShortcutKey::Delete)
    } else if code == 123 {
        Some(ShortcutKey::ArrowLeft)
    } else if code == 124 {
        Some(ShortcutKey::ArrowRight)
    } else if code == 125 {
        Some(ShortcutKey::ArrowDown)
    } else if code == 126 {
        Some(ShortcutKey::ArrowUp)
    } else if 122 <= code <= 135 {
        Some(ShortcutKey::Function((code - 121) as u8))
    } else {
        None
    }
}

/// The modifiers of the codes, in order.
pub open spec fn code_modifiers(codes: Seq<u16>) -> Seq<ShortcutModifier>
    decreases codes.len(),
{
    if codes.len() == 0 {
        Seq::empty()
    } else {
        match macos_modifier(codes.last()) {
            Some(m) => code_modifiers(codes.drop_last()).push(m),
            None => code_modifiers(codes.drop_last()),
        }
    }
}

/// The key of the last code that names one.
pub open spec fn code_key(codes: Seq<u16>) -> Option<ShortcutKey>
    decreases codes.len(),
{
    if codes.len() == 0 {
        None
    } else if macos_modifier(codes.last()) is None && macos_key(codes.last()) is Some {
        macos_key(codes.last())
    } else {
        code_key(codes.drop_last())
    }
}

fn macos_modifier_for(code: u16) -> (r: Option<ShortcutModifier>)
    ensures
        r == macos_modifier(code),
{
    if code == 55 || code == 54 {
        Some(ShortcutModifier::Command)
    } else if code == 59 || code == 62 {
        Some(ShortcutModifier::Control)
    } else if code == 58 || code == 61 {
        Some(ShortcutModifier::Option)
    } else if code == 56 || code == 60 {
        Some(ShortcutModifier::Shift)
    } else if code == 63 {
        Some(ShortcutModifier::Fn)
    } else {
        None
    }
}

fn macos_key_for(code: u16) -> (r: Option<ShortcutKey>)
    ensures
        r == macos_key(code),
{
    if code == 49 {
        Some(ShortcutKey::Space)
    } else if code == 36 || code == 76 {
        Some(ShortcutKey::Return)
    } else if code == 48 {
        Some(ShortcutKey::Tab)
    } else if code == 53 {
        Some(ShortcutKey::Escape)
    } else if code == 51 || code == 117 {
        Some(ShortcutKey::Delete)
    } else if code == 123 {
        Some(ShortcutKey::ArrowLeft)
    } else if code == 124 {
        Some(ShortcutKey::ArrowRight)
    } else if code == 125 {
        Some(ShortcutKey::ArrowDown)
    } else if code == 126 {
        Some(ShortcutKey::ArrowUp)
    } else if 122 <= code && code <= 135 {
        Some(ShortcutKey::Function((code - 121) as u8))
    } else {
        None
    }
}

// ---------------------------------------------------------------------------
// Display names
// ---------------------------------------------------------------------------

/// The index of the first '+', or the length.
pub open spec fn plus_end(s: Seq<char>) -> int
    decreases s.len(),
{
    if s.len() == 0 || s[0] == '+' {
        0
    } else {
        1 + plus_end(s.drop_first())
    }
}

pub proof fn lemma_plus_end(s: Seq<char>)
    ensures
        0 <= plus_end(s) <= s.len(),
        plus_end(s) < s.len() ==> s[plus_end(s)] == '+',
        forall|j: int| 0 <= j < plus_end(s) ==> s[j] != '+',
    decreases s.len(),
{
    if s.len() > 0 && s[0] != '+' {
        lemma_plus_end(s.drop_first());
        assert forall|j: int| 0 <= j < plus_end(s) implies s[j] != '+' by {
            if j > 0 {
                assert(s[j] == s.drop_first()[j - 1]);
            }
        }
    }
}

/// The '+'-separated parts of a name, trimmed, without empty ones.
pub open spec fn name_parts(s: Seq<char>) -> Seq<Seq<char>>
    decreases s.len(),
{
    let e = plus_end(s);
    let part = trim_seq(s.take(e));
    let rest = if e < s.len() {
        proof {
            lemma_plus_end(s);
        }
        name_parts(s.skip(e + 1))
    } else {
        Seq::empty()
    };
    if part.len() == 0 {
        rest
    } else {
        seq![part] + rest
    }
}

/// A part's meaning: a modifier, a key, or nothing.
pub open spec fn part_modifier(lower: Seq<char>) -> Option<ShortcutModifier> {
    if lower == "cmd"@ || lower == "command"@ {
        Some(ShortcutModifier::Command)
    } else if lower == "control"@ || lower == "ctrl"@ {
        Some(ShortcutModifier::Control)
    } else if lower == "option"@ {
        Some(ShortcutModifier::Option)
    } else if lower == "alt"@ {
        Some(ShortcutModifier::Alt)
    } else if lower == "shift"@ {
        Some(ShortcutModifier::Shift)
    } else if lower == "fn"@ {
        Some(ShortcutModifier::Fn)
    } else {
        None
    }
}

/// The key a (lower-cased) part names: a named key, or a single ASCII character.
pub open spec fn part_key_is(lower: Seq<char>, k: Option<ShortcutKey>) -> bool {
    if part_modifier(lower) is Some {
        k is None
    } else if lower == "space"@ {
        k == Some(ShortcutKey::Space)
    } else if lower == "return"@ || lower == "enter"@ {
        k == Some(ShortcutKey::Return)
    } else if lower == "tab"@ {
        k == Some(ShortcutKey::Tab)
    } else if lower == "escape"@ || lower == "esc"@ {
        k == Some(ShortcutKey::Escape)
    } else if lower.len() == 1 && (lower[0] as u32) < 128 {
        k matches Some(ShortcutKey::Character(c)) && c@ == lower
    } else {
        k is None
    }
}

pub open spec fn parts_modifiers(parts: Seq<Seq<char>>) -> Seq<ShortcutModifier>
    decreases parts.len(),
{
    if parts.len() == 0 {
        Seq::empty()
    } else {
        match part_modifier(ascii_lower_seq(parts.last())) {
            Some(m) => parts_modifiers(parts.drop_last()).push(m),
            None => parts_modifiers(parts.drop_last()),
        }
    }
}

/// The last part that names a key gives the chord's key.
pub open spec fn parts_key_is(parts: Seq<Seq<char>>, k: Option<ShortcutKey>) -> bool
    decreases parts.len(),
{
    if parts.len() == 0 {
        k is None
    } else if exists|x: ShortcutKey| part_key_is(ascii_lower_seq(parts.last()), Some(x)) {
        part_key_is(ascii_lower_seq(parts.last()), k)
    } else {
        parts_key_is(parts.drop_last(), k)
    }
}

/// The chord a legacy display name describes.
pub open spec fn name_chord_is(name: Seq<char>, r: Option<ShortcutChord>) -> bool {
    let parts = name_parts(name);
    if parts.len() == 0 {
        r is None
    } else {
        r matches Some(c) && c.modifiers@ == parts_modifiers(parts) && parts_key_is(parts, c.key)
    }
}


fn is_word(v: &Vec<char>, w: &str) -> (r: bool)
    ensures
        r == (v@ == w@),
{
    chars_eq(v, &chars_of(w))
}

fn part_modifier_for(lower: &Vec<char>) -> (r: Option<ShortcutModifier>)
    ensures
        r == part_modifier(lower@),
{
    if is_word(lower, "cmd") || is_word(lower, "command") {
        Some(ShortcutModifier::Command)
    } else if is_word(lower, "control") || is_word(lower, "ctrl") {
        Some(ShortcutModifier::Control)
    } else if is_word(lower, "option") {
        Some(ShortcutModifier::Option)
    } else if is_word(lower, "alt") {
        Some(ShortcutModifier::Alt)
    } else if is_word(lower, "shift") {
        Some(ShortcutModifier::Shift)
    } else if is_word(lower, "fn") {
        Some(ShortcutModifier::Fn)
    } else {
        None
    }
}

fn part_key_for(lower: &Vec<char>) -> (r: Option<ShortcutKey>)
    ensures
        part_key_is(lower@, r),
        r is None ==> !exists|x: ShortcutKey| part_key_is(lower@, Some(x)),
{
    if part_modifier_for(lower).is_some() {
        return None;
    }
    if is_word(lower, "space") {
        Some(ShortcutKey::Space)
    } else if is_word(lower, "return") || is_word(lower, "enter") {
        Some(ShortcutKey::Return)
    } else if is_word(lower, "tab") {
        Some(ShortcutKey::Tab)
    } else if is_word(lower, "escape") || is_word(lower, "esc") {
        Some(ShortcutKey::Escape)
    } else if lower.len() == 1 && (lower[0] as u32) < 128 {
        Some(ShortcutKey::Character(string_from_chars(lower)))
    } else {
        None
    }
}

pub fn display_name_to_chord(display_name: &str) -> (r: Option<ShortcutChord>)
    ensures
        name_chord_is(display_name@, r),
{
    let v = chars_of(display_name);
    let n = v.len();
    let ghost all = name_parts(v@);
    let ghost mut done: Seq<Seq<char>> = Seq::empty();
    let mut modifiers: Vec<ShortcutModifier> = Vec::new();
    let mut key: Option<ShortcutKey> = None;
    let mut count: usize = 0;
    let mut start: usize = 0;
    let mut finished = false;
    assert(v@.skip(0) =~= v@);
    while !finished
        invariant
            n == v@.len(),
            all == name_parts(v@),
            start <= n,
            all == done + (if finished { Seq::<Seq<char>>::empty() } else { name_parts(v@.skip(start as int)) }),
            modifiers@ == parts_modifiers(done),
            parts_key_is(done, key),
            count == done.len(),
            count <= start,
        decreases n - start + (if finished { 0int } else { 1int }),
    {
        let ghost s = v@.skip(start as int);
        let mut end = start;
        while end < n && v[end] != '+'
            invariant
                start <= end <= n,
                n == v@.len(),
                forall|j: int| start <= j < end ==> v@[j] != '+',
            decreases n - end,
        {
            end = end + 1;
        }
        proof {
            lemma_plus_end(s);
            let e = plus_end(s);
            if e < end - start {
                assert(s[e] == v@[start + e]);
            }
            if e > end - start {
                assert(s[end - start] == v@[end as int]);
            }
            assert(e == end - start);
            assert(s.take(e) =~= v@.subrange(start as int, end as int));
            if end < n {
                assert(s.skip(e + 1) =~= v@.skip(end + 1));
            }
        }
        let raw = sub_chars(v.as_slice(), start, end);
        let part = trim_chars(raw.as_slice());
        if part.len() > 0 {
            let lower = ascii_lowercase_chars(&part);
            let ghost old_done = done;
            proof {
                done = done.push(part@);
                assert(done.drop_last() =~= old_done);
                assert(done.last() == part@);
            }
            match part_modifier_for(&lower) {
                Some(m) => modifiers.push(m),
                None => {},
            }
            let found = part_key_for(&lower);
            match found {
                Some(k) => {
                    proof {
                        assert(part_key_is(lower@, Some(k)));
                    }
                    key = Some(k);
                },
                None => {},
            }
            count = count + 1;
            proof {
                assert(ascii_lower_seq(done.last()) == lower@);
                assert(parts_modifiers(done) == match part_modifier(lower@) {
                    Some(m) => parts_modifiers(old_done).push(m),
                    None => parts_modifiers(old_done),
                });
            }
        }
        if end >= n {
            finished = true;
            start = n;
        } else {
            start = end + 1;
        }
    }
    if count == 0 {
        return None;
    }
    Some(ShortcutChord { modifiers, key })
}


/// The chord stored key codes and a display name describe: from the codes'
/// modifiers and key, or, when they name none, from the name.
pub open spec fn inferred_chord_is(codes: Seq<u16>, name: Seq<char>, r: Option<ShortcutChord>) -> bool {
    if codes.len() == 0 {
        r is None
    } else if code_modifiers(codes).len() == 0 && code_key(codes) is None {
        name_chord_is(name, r)
    } else {
        r matches Some(c) && c.modifiers@ == code_modifiers(codes) && c.key == code_key(codes)
    }
}

pub fn infer_shortcut_chord(key_codes: &[u16], display_name: &str) -> (r: Option<ShortcutChord>)
    ensures
        inferred_chord_is(key_codes@, display_name@, r),
{
    if key_codes.len() == 0 {
        return None;
    }
    let mut modifiers: Vec<ShortcutModifier> = Vec::new();
    let mut key: Option<ShortcutKey> = None;
    let mut i: usize = 0;
    while i < key_codes.len()
        invariant
            i <= key_codes@.len(),
            modifiers@ == code_modifiers(key_codes@.take(i as int)),
            key == code_key(key_codes@.take(i as int)),
        decreases key_codes.len() - i,
    {
        assert(key_codes@.take(i + 1).drop_last() =~= key_codes@.take(i as int));
        assert(key_codes@.take(i + 1).last() == key_codes@[i as int]);
        match macos_modifier_for(key_codes[i]) {
            Some(m) => modifiers.push(m),
            None => {
                match macos_key_for(key_codes[i]) {
                    Some(k) => {
                        key = Some(k);
                    },
                    None => {},
                }
            },
        }
        i = i + 1;
    }
    assert(key_codes@.take(key_codes@.len() as int) =~= key_codes@);
    if modifiers.len() == 0 && key.is_none() {
        return display_name_to_chord(display_name);
    }
    Some(ShortcutChord { modifiers, key })
}

/// A stored shortcut as read: top-level macOS key codes move into the platform
/// codes when those have none, and a missing chord is inferred.
pub open spec fn stored_shortcut_is(
    display_name: Seq<char>,
    macos_key_codes: Seq<u16>,
    mode: ShortcutMode,
    enabled: bool,
    double_tap_toggle: bool,
    chord: Option<ShortcutChord>,
    platform_codes: ShortcutPlatformCodes,
    r: ShortcutSettings,
) -> bool {
    let macos = if platform_codes.macos_key_codes is None && macos_key_codes.len() > 0 {
        Some(macos_key_codes)
    } else {
        match platform_codes.macos_key_codes {
            Some(v) => Some(v@),
            None => None,
        }
    };
    let codes = match macos {
        Some(v) => v,
        None => Seq::empty(),
    };
    &&& r.display_name@ == display_name
    &&& r.mode == mode
    &&& r.enabled == enabled
    &&& r.double_tap_toggle == double_tap_toggle
    &&& match r.platform_codes.macos_key_codes {
        Some(v) => macos == Some(v@),
        None => macos is None,
    }
    &&& r.platform_codes.windows_virtual_keys == platform_codes.windows_virtual_keys
    &&& r.platform_codes.linux_key_codes == platform_codes.linux_key_codes
    &&& match chord {
        Some(c) => r.chord == Some(c),
        None => inferred_chord_is(codes, display_name, r.chord),
    }
}

pub fn shortcut_from_stored_fields(
    display_name: String,
    macos_key_codes: Vec<u16>,
    mode: ShortcutMode,
    enabled: bool,
    double_tap_toggle: bool,
    chord: Option<ShortcutChord>,
    platform_codes: ShortcutPlatformCodes,
) -> (r: ShortcutSettings)
    ensures
        stored_shortcut_is(display_name@, macos_key_codes@, mode, enabled, double_tap_toggle, chord, platform_codes, r),
{
    let mut platform_codes = platform_codes;
    if platform_codes.macos_key_codes.is_none() && macos_key_codes.len() > 0 {
        platform_codes.macos_key_codes = Some(macos_key_codes);
    }
    let chord = match chord {
        Some(c) => Some(c),
        None => {
            let inferred = match &platform_codes.macos_key_codes {
                Some(codes) => infer_shortcut_chord(codes.as_slice(), display_name.as_str()),
                None => {
                    let empty: Vec<u16> = Vec::new();
                    infer_shortcut_chord(empty.as_slice(), display_name.as_str())
                },
            };
            inferred
        },
    };
    ShortcutSettings { display_name, mode, enabled, double_tap_toggle, chord, platform_codes }
}

} // verus!
