use vstd::prelude::*;
use vstd::std_specs::iter::IteratorSpec;
use std::collections::HashSet;
use crate::protocol::{
    ShortcutChord, ShortcutKey, ShortcutMode, ShortcutModifier, ShortcutPlatformCodes,
    ShortcutSettings,
};
use crate::settings::join_plus;
use crate::sorting::{lemma_sorted_dedup_unique, ord_injective, sort_dedup_by_ord, sorted_dedup_by};
use crate::text::{ascii_char, chars_of, decimal_chars, decimal_seq, extend_chars, str_eq, string_from_chars};
use super::hotkeys::keys::{
    is_ascii_alphanumeric_key, is_ascii_alphanumeric_key_spec, is_modifier_key,
    is_modifier_key_spec, linux_key_label, linux_key_label_spec, linux_key_sort_key,
    normalize_configured_key_for_capture, normalize_key, XK_ALT_L, XK_ALT_R, XK_CONTROL_L,
    XK_CONTROL_R, XK_DELETE, XK_DOWN, XK_ESCAPE, XK_F1, XK_F24, XK_LEFT, XK_META_L, XK_META_R,
    XK_RETURN, XK_RIGHT, XK_SHIFT_L, XK_SHIFT_R, XK_SPACE, XK_TAB, XK_UP,
};
use super::hotkeys::validation::{linux_key_ord, nonzero_normalized};

verus! {

broadcast use vstd::std_specs::hash::group_hash_axioms;

#[derive(Debug, Clone, Copy, PartialEq, Eq, Structural)]
pub enum ShortcutCaptureTarget {
    PushToTalk,
    HandsFree,
}

impl ShortcutCaptureTarget {
    pub fn mode(self) -> (r: ShortcutMode)
        ensures
            r == (match self {
                ShortcutCaptureTarget::PushToTalk => ShortcutMode::Hold,
                ShortcutCaptureTarget::HandsFree => ShortcutMode::Toggle,
            }),
    {
        match self {
            ShortcutCaptureTarget::PushToTalk => ShortcutMode::Hold,
            ShortcutCaptureTarget::HandsFree => ShortcutMode::Toggle,
        }
    }

    /// The target a settings field name stands for.
    pub fn from_field_name(value: &str) -> (r: Result<ShortcutCaptureTarget, String>)
        ensures
            value@ == "pushToTalkShortcut"@ ==> r == Ok::<ShortcutCaptureTarget, String>(ShortcutCaptureTarget::PushToTalk),
            value@ == "handsFreeShortcut"@ ==> r == Ok::<ShortcutCaptureTarget, String>(ShortcutCaptureTarget::HandsFree),
            value@ != "pushToTalkShortcut"@ && value@ != "handsFreeShortcut"@ ==> (r matches Err(e) && e@
                == "Unknown shortcut capture target: "@ + value@),
    {
        proof {
            reveal_strlit("pushToTalkShortcut");
            reveal_strlit("handsFreeShortcut");
            assert("pushToTalkShortcut"@[0] != "handsFreeShortcut"@[0]);
        }
        if str_eq(value, "pushToTalkShortcut") {
            Ok(ShortcutCaptureTarget::PushToTalk)
        } else if str_eq(value, "handsFreeShortcut") {
            Ok(ShortcutCaptureTarget::HandsFree)
        } else {
            let mut message = chars_of("Unknown shortcut capture target: ");
            extend_chars(&mut message, &chars_of(value));
            Err(string_from_chars(&message))
        }
    }
}

#[derive(Debug, Clone, Copy, PartialEq, Eq, Structural)]
pub enum CaptureKeyKind {
    Modifier,
    Function,
    Other,
}

pub const CANCELLED_MESSAGE: &'static str = "Shortcut capture cancelled.";
pub const UNSUPPORTED_KEY_MESSAGE: &'static str = "That key is not supported yet. Try a letter, number, Space, arrow key, or function key.";
pub const NEED_MODIFIER_MESSAGE: &'static str = "Use at least one modifier, like Ctrl, Alt, Shift, or Meta.";
pub const MISSING_KEYS_MESSAGE: &'static str = "Shortcut is missing Linux key codes.";
pub const ONE_KEY_MESSAGE: &'static str = "Choose one non-modifier key for the shortcut.";
pub const NEED_KEY_MESSAGE: &'static str = "Linux shortcuts need a function key or a modifier plus another key.";

/// What kind of key a captured key is, if it can be part of a shortcut.
pub open spec fn key_kind(key: u32) -> Option<CaptureKeyKind> {
    if is_modifier_key_spec(key) {
        Some(CaptureKeyKind::Modifier)
    } else if key == XK_SPACE || key == XK_RETURN || key == XK_TAB || key == XK_DELETE || key == XK_LEFT
        || key == XK_RIGHT || key == XK_UP || key == XK_DOWN {
        Some(CaptureKeyKind::Other)
    } else if is_ascii_alphanumeric_key_spec(key) {
        Some(CaptureKeyKind::Other)
    } else if XK_F1 <= key <= XK_F24 {
        Some(CaptureKeyKind::Function)
    } else {
        None
    }
}

pub fn supported_key_kind(key: u32) -> (r: Option<CaptureKeyKind>)
    ensures
        r == key_kind(key),
{
    if is_modifier_key(key) {
        return Some(CaptureKeyKind::Modifier);
    }
    if key == XK_SPACE || key == XK_RETURN || key == XK_TAB || key == XK_DELETE || key == XK_LEFT
        || key == XK_RIGHT || key == XK_UP || key == XK_DOWN {
        Some(CaptureKeyKind::Other)
    } else if is_ascii_alphanumeric_key(key) {
        Some(CaptureKeyKind::Other)
    } else if XK_F1 <= key && key <= XK_F24 {
        Some(CaptureKeyKind::Function)
    } else {
        None
    }
}

/// The keys of a capture: the non-zero keys, normalized (a key normalizes to
/// zero only when it is zero).
pub open spec fn capture_key_set(keys: Seq<u32>) -> Set<u32> {
    nonzero_normalized(keys).to_set()
}

/// `keys` holds the keys of `s`, each once, in key order.
pub open spec fn ordered_set(keys: Seq<u32>, s: Set<u32>) -> bool {
    &&& forall|i: int, j: int| 0 <= i < j < keys.len() ==> linux_key_ord(#[trigger] keys[i]) < linux_key_ord(#[trigger] keys[j])
    &&& forall|x: u32| keys.contains(x) <==> s.contains(x)
}

/// The keys of `s` in key order.
pub open spec fn ordered_keys(s: Set<u32>) -> Seq<u32> {
    choose|k: Seq<u32>| #[trigger] ordered_set(k, s)
}

/// The modifier keys among `keys`, in order.
pub open spec fn modifiers_of(keys: Seq<u32>) -> Seq<u32>
    decreases keys.len(),
{
    if keys.len() == 0 {
        Seq::empty()
    } else if is_modifier_key_spec(keys.last()) {
        modifiers_of(keys.drop_last()).push(keys.last())
    } else {
        modifiers_of(keys.drop_last())
    }
}

/// The other keys among `keys`, in order.
pub open spec fn others_of(keys: Seq<u32>) -> Seq<u32>
    decreases keys.len(),
{
    if keys.len() == 0 {
        Seq::empty()
    } else if !is_modifier_key_spec(keys.last()) {
        others_of(keys.drop_last()).push(keys.last())
    } else {
        others_of(keys.drop_last())
    }
}

/// Why the keys `s` cannot make a shortcut, if they cannot.
pub open spec fn capture_error(s: Set<u32>) -> Option<Seq<char>> {
    let keys = ordered_keys(s);
    let others = others_of(keys);
    if keys.len() == 0 {
        Some(MISSING_KEYS_MESSAGE@)
    } else if others.len() > 1 {
        Some(ONE_KEY_MESSAGE@)
    } else if others.len() == 0 {
        Some(NEED_KEY_MESSAGE@)
    } else if key_kind(others[0]) != Some(CaptureKeyKind::Function) && modifiers_of(keys).len() == 0 {
        Some(NEED_MODIFIER_MESSAGE@)
    } else {
        None
    }
}

pub open spec fn chord_modifier(key: u32) -> Option<ShortcutModifier> {
    if key == XK_CONTROL_L || key == XK_CONTROL_R {
        Some(ShortcutModifier::Control)
    } else if key == XK_ALT_L || key == XK_ALT_R {
        Some(ShortcutModifier::Alt)
    } else if key == XK_SHIFT_L || key == XK_SHIFT_R {
        Some(ShortcutModifier::Shift)
    } else if key == XK_META_L || key == XK_META_R {
        Some(ShortcutModifier::Meta)
    } else {
        None
    }
}

/// The chord modifiers of modifier keys, each once, in order of first appearance.
pub open spec fn chord_modifiers(keys: Seq<u32>) -> Seq<ShortcutModifier>
    decreases keys.len(),
{
    if keys.len() == 0 {
        Seq::empty()
    } else {
        let rest = chord_modifiers(keys.drop_last());
        match chord_modifier(keys.last()) {
            Some(m) => if rest.contains(m) {
                rest
            } else {
                rest.push(m)
            },
            None => rest,
        }
    }
}

/// The shortcut key a Linux key stands for.
pub open spec fn shortcut_key_is(r: Option<ShortcutKey>, key: u32) -> bool {
    if key == XK_SPACE {
        r == Some(ShortcutKey::Space)
    } else if key == XK_RETURN {
        r == Some(ShortcutKey::Return)
    } else if key == XK_TAB {
        r == Some(ShortcutKey::Tab)
    } else if key == XK_DELETE {
        r == Some(ShortcutKey::Delete)
    } else if key == XK_LEFT {
        r == Some(ShortcutKey::ArrowLeft)
    } else if key == XK_RIGHT {
        r == Some(ShortcutKey::ArrowRight)
    } else if key == XK_UP {
        r == Some(ShortcutKey::ArrowUp)
    } else if key == XK_DOWN {
        r == Some(ShortcutKey::ArrowDown)
    } else if XK_F1 <= key <= XK_F24 {
        r == Some(ShortcutKey::Function((key - XK_F1 + 1) as u8))
    } else if is_ascii_alphanumeric_key_spec(key) {
        r matches Some(ShortcutKey::Character(s)) && s@ == seq![key as char]
    } else {
        r is None
    }
}

/// The shortcut captured from the keys `s` (when `capture_error(s)` is none).
pub open spec fn captured_shortcut(s: Set<u32>, mode: ShortcutMode, r: ShortcutSettings) -> bool {
    let keys = ordered_keys(s);
    &&& r.display_name@ == join_plus(keys.map_values(|k: u32| linux_key_label_spec(k)))
    &&& r.mode == mode
    &&& r.enabled
    &&& !r.double_tap_toggle
    &&& r.chord matches Some(c) && c.modifiers@ == chord_modifiers(modifiers_of(keys)) && shortcut_key_is(c.key, others_of(keys)[0])
    &&& r.platform_codes.macos_key_codes is None
    &&& r.platform_codes.windows_virtual_keys is None
    &&& r.platform_codes.linux_key_codes matches Some(v) && v@ == keys
}


pub open spec fn key_order_ord() -> spec_fn(u32) -> u64 {
    |x: u32| linux_key_ord(x)
}

/// Two orderings of the same keys are the same sequence.
pub proof fn lemma_ordered_unique(k1: Seq<u32>, k2: Seq<u32>, s: Set<u32>)
    requires
        ordered_set(k1, s),
        ordered_set(k2, s),
    ensures
        k1 == k2,
{
    let ord = key_order_ord();
    assert(sorted_dedup_by(k1, k1, ord));
    assert(sorted_dedup_by(k2, k1, ord));
    lemma_sorted_dedup_unique(k1, k2, k1, ord);
}

/// The keys of `raw`, each once, in key order.
fn ordered_from(raw: &Vec<u32>) -> (r: Vec<u32>)
    ensures
        ordered_set(r@, raw@.to_set()),
        r@ == ordered_keys(raw@.to_set()),
{
    let mut ords: Vec<u64> = Vec::new();
    let mut i: usize = 0;
    while i < raw.len()
        invariant
            i <= raw@.len(),
            ords@.len() == i,
            forall|j: int| 0 <= j < i ==> ords@[j] == linux_key_ord(#[trigger] raw@[j]),
        decreases raw.len() - i,
    {
        let (rank, _) = linux_key_sort_key(raw[i]);
        ords.push(rank as u64 * 4294967296 + raw[i] as u64);
        i = i + 1;
    }
    let ghost ord = key_order_ord();
    assert(ord_injective(ord)) by {
        assert forall|a: u32, b: u32| #[trigger] ord(a) == #[trigger] ord(b) implies a == b by {}
    }
    let sorted = sort_dedup_by_ord(raw, &ords, Ghost(ord));
    proof {
        assert forall|x: u32| sorted@.contains(x) <==> raw@.to_set().contains(x) by {}
        assert(ordered_set(sorted@, raw@.to_set()));
        let c = ordered_keys(raw@.to_set());
        lemma_ordered_unique(sorted@, c, raw@.to_set());
    }
    sorted
}

fn split_keys(keys: &Vec<u32>) -> (r: (Vec<u32>, Vec<u32>))
    ensures
        r.0@ == modifiers_of(keys@),
        r.1@ == others_of(keys@),
{
    let mut mods: Vec<u32> = Vec::new();
    let mut others: Vec<u32> = Vec::new();
    let mut i: usize = 0;
    while i < keys.len()
        invariant
            i <= keys@.len(),
            mods@ == modifiers_of(keys@.take(i as int)),
            others@ == others_of(keys@.take(i as int)),
        decreases keys.len() - i,
    {
        assert(keys@.take(i + 1).drop_last() =~= keys@.take(i as int));
        if is_modifier_key(keys[i]) {
            mods.push(keys[i]);
        } else {
            others.push(keys[i]);
        }
        i = i + 1;
    }
    assert(keys@.take(keys@.len() as int) =~= keys@);
    (mods, others)
}

fn chord_modifier_for_key(key: u32) -> (r: Option<ShortcutModifier>)
    ensures
        r == chord_modifier(key),
{
    if key == XK_CONTROL_L || key == XK_CONTROL_R {
        Some(ShortcutModifier::Control)
    } else if key == XK_ALT_L || key == XK_ALT_R {
        Some(ShortcutModifier::Alt)
    } else if key == XK_SHIFT_L || key == XK_SHIFT_R {
        Some(ShortcutModifier::Shift)
    } else if key == XK_META_L || key == XK_META_R {
        Some(ShortcutModifier::Meta)
    } else {
        None
    }
}

fn contains_modifier(v: &Vec<ShortcutModifier>, m: ShortcutModifier) -> (r: bool)
    ensures
        r == v@.contains(m),
{
    let mut i: usize = 0;
    while i < v.len()
        invariant
            i <= v@.len(),
            forall|j: int| 0 <= j < i ==> v@[j] != m,
        decreases v.len() - i,
    {
        if v[i] == m {
            assert(v@[i as int] == m);
            return true;
        }
        i = i + 1;
    }
    false
}

pub fn chord_modifiers_for_keys(keys: &[u32]) -> (r: Vec<ShortcutModifier>)
    ensures
        r@ == chord_modifiers(keys@),
{
    let mut modifiers: Vec<ShortcutModifier> = Vec::new();
    let mut i: usize = 0;
    while i < keys.len()
        invariant
            i <= keys@.len(),
            modifiers@ == chord_modifiers(keys@.take(i as int)),
        decreases keys.len() - i,
    {
        assert(keys@.take(i + 1).drop_last() =~= keys@.take(i as int));
        match chord_modifier_for_key(keys[i]) {
            Some(m) => {
                if !contains_modifier(&modifiers, m) {
                    modifiers.push(m);
                }
            },
            None => {},
        }
        i = i + 1;
    }
    assert(keys@.take(keys@.len() as int) =~= keys@);
    modifiers
}

pub fn shortcut_key_for_linux_key(key: u32) -> (r: Option<ShortcutKey>)
    ensures
        shortcut_key_is(r, key),
{
    if key == XK_SPACE {
        Some(ShortcutKey::Space)
    } else if key == XK_RETURN {
        Some(ShortcutKey::Return)
    } else if key == XK_TAB {
        Some(ShortcutKey::Tab)
    } else if key == XK_DELETE {
        Some(ShortcutKey::Delete)
    } else if key == XK_LEFT {
        Some(ShortcutKey::ArrowLeft)
    } else if key == XK_RIGHT {
        Some(ShortcutKey::ArrowRight)
    } else if key == XK_UP {
        Some(ShortcutKey::ArrowUp)
    } else if key == XK_DOWN {
        Some(ShortcutKey::ArrowDown)
    } else if XK_F1 <= key && key <= XK_F24 {
        Some(ShortcutKey::Function((key - XK_F1 + 1) as u8))
    } else if is_ascii_alphanumeric_key(key) {
        let v = vec![ascii_char(key)];
        assert(v@ =~= seq![key as char]);
        Some(ShortcutKey::Character(string_from_chars(&v)))
    } else {
        None
    }
}

pub fn display_name_for_keys(keys: &[u32]) -> (r: String)
    ensures
        r@ == join_plus(keys@.map_values(|k: u32| linux_key_label_spec(k))),
{
    let sep = chars_of(" + ");
    let mut out: Vec<char> = Vec::new();
    let mut i: usize = 0;
    while i < keys.len()
        invariant
            i <= keys@.len(),
            sep@ == " + "@,
            out@ == join_plus(keys@.take(i as int).map_values(|k: u32| linux_key_label_spec(k))),
        decreases keys.len() - i,
    {
        let label = linux_key_label(keys[i]);
        if i > 0 {
            extend_chars(&mut out, &sep);
        }
        extend_chars(&mut out, &chars_of(label.as_str()));
        i = i + 1;
        proof {
            let parts = keys@.take(i as int).map_values(|k: u32| linux_key_label_spec(k));
            assert(parts.drop_last() =~= keys@.take(i - 1).map_values(|k: u32| linux_key_label_spec(k)));
            if i == 1 {
                assert(out@ =~= parts[0]);
            }
        }
    }
    assert(keys@.take(keys@.len() as int) =~= keys@);
    string_from_chars(&out)
}

fn error_text(message: &str) -> (r: Result<ShortcutSettings, String>)
    ensures
        r matches Err(e) && e@ == message@,
{
    Err(String::from_str(message))
}

pub fn shortcut_from_linux_key_codes(keys: Vec<u32>, mode: ShortcutMode) -> (r: Result<ShortcutSettings, String>)
    ensures
        match capture_error(capture_key_set(keys@)) {
            Some(m) => r matches Err(e) && e@ == m,
            None => r matches Ok(sh) && captured_shortcut(capture_key_set(keys@), mode, sh),
        },
{
    let mut raw: Vec<u32> = Vec::new();
    let mut i: usize = 0;
    while i < keys.len()
        invariant
            i <= keys@.len(),
            raw@ == nonzero_normalized(keys@.take(i as int)),
        decreases keys.len() - i,
    {
        assert(keys@.take(i + 1).drop_last() =~= keys@.take(i as int));
        let k = normalize_configured_key_for_capture(keys[i]);
        if k != 0 {
            raw.push(k);
        }
        i = i + 1;
    }
    assert(keys@.take(keys@.len() as int) =~= keys@);
    let ordered = ordered_from(&raw);
    let ghost set = capture_key_set(keys@);
    assert(ordered@ == ordered_keys(set));
    if ordered.len() == 0 {
        return error_text(MISSING_KEYS_MESSAGE);
    }
    let (mods, others) = split_keys(&ordered);
    if others.len() > 1 {
        return error_text(ONE_KEY_MESSAGE);
    }
    if others.len() == 0 {
        return error_text(NEED_KEY_MESSAGE);
    }
    let kind = supported_key_kind(others[0]);
    if kind != Some(CaptureKeyKind::Function) && mods.len() == 0 {
        return error_text(NEED_MODIFIER_MESSAGE);
    }
    let display_name = display_name_for_keys(ordered.as_slice());
    let chord = ShortcutChord {
        modifiers: chord_modifiers_for_keys(mods.as_slice()),
        key: shortcut_key_for_linux_key(others[0]),
    };
    Ok(ShortcutSettings {
        display_name,
        mode,
        enabled: true,
        double_tap_toggle: false,
        chord: Some(chord),
        platform_codes: ShortcutPlatformCodes {
            macos_key_codes: None,
            windows_virtual_keys: None,
            linux_key_codes: Some(ordered),
        },
    })
}


// ---------------------------------------------------------------------------
// Capture state
// ---------------------------------------------------------------------------

/// The modifiers held while a shortcut is being captured.
#[derive(Debug)]
pub struct CaptureState {
    mode: ShortcutMode,
    current_modifiers: HashSet<u32>,
}

/// A key as capture keeps it: normalized, and not zero.
pub open spec fn kept_key(x: u32) -> bool {
    x != 0 && normalize_key(x) == x
}

proof fn lemma_kept_keys_unchanged(s: Seq<u32>)
    requires
        forall|i: int| 0 <= i < s.len() ==> kept_key(#[trigger] s[i]),
    ensures
        nonzero_normalized(s) == s,
    decreases s.len(),
{
    if s.len() > 0 {
        lemma_kept_keys_unchanged(s.drop_last());
        assert(kept_key(s[s.len() - 1]));
        assert(s.drop_last().push(s.last()) =~= s);
    }
}

/// What a key press during capture gives: cancel on Escape, nothing for a
/// modifier, else the shortcut of the held modifiers and the key.
pub open spec fn key_down_result(mods: Set<u32>, mode: ShortcutMode, k: u32, r: Result<Option<ShortcutSettings>, String>) -> bool {
    if k == XK_ESCAPE {
        r matches Err(e) && e@ == CANCELLED_MESSAGE@
    } else if is_modifier_key_spec(k) {
        r matches Ok(None)
    } else if key_kind(k) is None {
        r matches Err(e) && e@ == UNSUPPORTED_KEY_MESSAGE@
    } else if mods.is_empty() && key_kind(k) != Some(CaptureKeyKind::Function) {
        r matches Err(e) && e@ == NEED_MODIFIER_MESSAGE@
    } else {
        match capture_error(mods.insert(k)) {
            Some(m) => r matches Err(e) && e@ == m,
            None => r matches Ok(Some(sh)) && captured_shortcut(mods.insert(k), mode, sh),
        }
    }
}

impl CaptureState {
    pub closed spec fn mode_spec(&self) -> ShortcutMode {
        self.mode
    }

    pub closed spec fn modifiers_spec(&self) -> Set<u32> {
        self.current_modifiers@
    }

    /// Only normalized modifier keys are held.
    pub closed spec fn wf(&self) -> bool {
        forall|x: u32| self.current_modifiers@.contains(x) ==> is_modifier_key_spec(x) && kept_key(x)
    }

    pub fn new(mode: ShortcutMode) -> (r: CaptureState)
        ensures
            r.wf(),
            r.mode_spec() == mode,
            r.modifiers_spec() == Set::<u32>::empty(),
    {
        CaptureState { mode, current_modifiers: HashSet::new() }
    }

    pub fn handle_key_down(&mut self, key: u32) -> (r: Result<Option<ShortcutSettings>, String>)
        requires
            old(self).wf(),
        ensures
            final(self).wf(),
            final(self).mode_spec() == old(self).mode_spec(),
            final(self).modifiers_spec() == (if normalize_key(key) != XK_ESCAPE && is_modifier_key_spec(normalize_key(key)) {
                old(self).modifiers_spec().insert(normalize_key(key))
            } else {
                old(self).modifiers_spec()
            }),
            key_down_result(old(self).modifiers_spec(), old(self).mode_spec(), normalize_key(key), r),
    {
        let key = normalize_configured_key_for_capture(key);
        if key == XK_ESCAPE {
            return Err(String::from_str(CANCELLED_MESSAGE));
        }
        if is_modifier_key(key) {
            self.current_modifiers.insert(key);
            return Ok(None);
        }
        let kind = match supported_key_kind(key) {
            Some(k) => k,
            None => return Err(String::from_str(UNSUPPORTED_KEY_MESSAGE)),
        };
        if self.current_modifiers.is_empty() && kind != CaptureKeyKind::Function {
            return Err(String::from_str(NEED_MODIFIER_MESSAGE));
        }
        let mut keys = ordered_modifiers(&self.current_modifiers);
        let ghost mods = keys@;
        keys.push(key);
        proof {
            assert forall|i: int| 0 <= i < keys@.len() implies kept_key(#[trigger] keys@[i]) by {
                if i < mods.len() {
                    assert(mods.contains(mods[i]));
                }
            }
            lemma_kept_keys_unchanged(keys@);
            assert(keys@.to_set() =~= self.current_modifiers@.insert(key)) by {
                assert forall|x: u32| keys@.to_set().contains(x) <==> self.current_modifiers@.insert(key).contains(x) by {
                    if keys@.to_set().contains(x) {
                        let j = choose|j: int| 0 <= j < keys@.len() && keys@[j] == x;
                        if j < mods.len() {
                            assert(mods.contains(x));
                        }
                    }
                    if self.current_modifiers@.contains(x) {
                        let j = choose|j: int| 0 <= j < mods.len() && mods[j] == x;
                        assert(keys@[j] == x);
                    }
                    if x == key {
                        assert(keys@[mods.len() as int] == x);
                    }
                }
            }
            assert(capture_key_set(keys@) == self.current_modifiers@.insert(key));
        }
        match shortcut_from_linux_key_codes(keys, self.mode) {
            Ok(shortcut) => Ok(Some(shortcut)),
            Err(e) => Err(e),
        }
    }

    pub fn handle_key_up(&mut self, key: u32) -> (r: Result<Option<ShortcutSettings>, String>)
        requires
            old(self).wf(),
        ensures
            final(self).wf(),
            final(self).mode_spec() == old(self).mode_spec(),
            final(self).modifiers_spec() == old(self).modifiers_spec().remove(normalize_key(key)),
            r matches Ok(None),
    {
        let key = normalize_configured_key_for_capture(key);
        if !is_modifier_key(key) {
            proof {
                assert(self.current_modifiers@.remove(key) =~= self.current_modifiers@);
            }
            return Ok(None);
        }
        self.current_modifiers.remove(&key);
        Ok(None)
    }
}

/// The held modifiers in key order.
fn ordered_modifiers(modifiers: &HashSet<u32>) -> (r: Vec<u32>)
    ensures
        ordered_set(r@, modifiers@),
{
    let mut raw: Vec<u32> = Vec::new();
    let iter = modifiers.iter();
    let ghost all = iter.remaining().unref();
    assert(all.to_set() == modifiers@);
    for x in it: iter
        invariant
            raw@ == all.take(it.index() as int),
            it.seq().unref() == all,
    {
        raw.push(*x);
        assert(all[it.index() as int] == *x);
        assert(raw@ =~= all.take(it.index() + 1));
    }
    assert(raw@ =~= all);
    ordered_from(&raw)
}


/// The message for a GlobalShortcuts portal too old to show the shortcut picker.
pub fn unsupported_wayland_shortcut_configuration_message(portal_version: u32) -> (r: String)
    ensures
        r@ == "This Wayland desktop has GlobalShortcuts portal version "@ + decimal_seq(portal_version as nat)
            + ". It can run registered shortcuts, but it cannot show Parrot's shortcut picker. Use Parrot's Linux shortcut setup for your compositor, or enable the evdev fallback."@,
{
    let mut out = chars_of("This Wayland desktop has GlobalShortcuts portal version ");
    extend_chars(&mut out, &decimal_chars(portal_version as u64));
    extend_chars(&mut out, &chars_of(". It can run registered shortcuts, but it cannot show Parrot's shortcut picker. Use Parrot's Linux shortcut setup for your compositor, or enable the evdev fallback."));
    string_from_chars(&out)
}

// ---------------------------------------------------------------------------
// Captured shortcuts against validation
// ---------------------------------------------------------------------------

/// Every finite set of keys has an ordering.
pub proof fn lemma_ordered_keys_exist(s: Set<u32>)
    requires
        s.finite(),
    ensures
        ordered_set(ordered_keys(s), s),
    decreases s.len(),
{
    if s.len() == 0 {
        assert(s =~= Set::<u32>::empty());
        let k = Seq::<u32>::empty();
        assert(ordered_set(k, s));
    } else {
        let leq = |a: u32, b: u32| linux_key_ord(a) <= linux_key_ord(b);
        assert(ord_injective(key_order_ord())) by {
            assert forall|a: u32, b: u32| #[trigger] key_order_ord()(a) == #[trigger] key_order_ord()(b)
                implies a == b by {}
        }
        assert(vstd::relations::total_ordering(leq)) by {
            assert forall|a: u32, b: u32| #[trigger] leq(a, b) && #[trigger] leq(b, a) implies a == b by {
                assert(key_order_ord()(a) == key_order_ord()(b));
            }
        }
        s.find_unique_maximal_ensures(leq);
        let m = s.find_unique_maximal(leq);
        let rest = s.remove(m);
        lemma_ordered_keys_exist(rest);
        let k = ordered_keys(rest);
        let k2 = k.push(m);
        assert forall|i: int, j: int| 0 <= i < j < k2.len() implies linux_key_ord(#[trigger] k2[i])
            < linux_key_ord(#[trigger] k2[j]) by {
            if j < k.len() {
                assert(k2[i] == k[i] && k2[j] == k[j]);
            } else {
                assert(k2[j] == m);
                assert(k2[i] == k[i]);
                assert(k.contains(k[i]));
                assert(rest.contains(k[i]));
                if leq(m, k[i]) {
                    assert(leq(k[i], m));
                    assert(key_order_ord()(k[i]) == key_order_ord()(m));
                }
            }
        }
        assert forall|x: u32| k2.contains(x) <==> s.contains(x) by {
            if k2.contains(x) {
                let i = choose|i: int| 0 <= i < k2.len() && k2[i] == x;
                if i < k.len() {
                    assert(k.contains(k[i]));
                }
            }
            if s.contains(x) && x != m {
                assert(rest.contains(x));
                assert(k.contains(x));
                let i = choose|i: int| 0 <= i < k.len() && k[i] == x;
                assert(k2[i] == x);
            }
            if x == m {
                assert(k2[k.len() as int] == m);
            }
        }
        assert(ordered_set(k2, s));
    }
}

proof fn lemma_nonzero_normalized_members(raw: Seq<u32>, x: u32)
    requires
        nonzero_normalized(raw).contains(x),
    ensures
        x != 0,
        normalize_key(x) == x,
    decreases raw.len(),
{
    let rest = nonzero_normalized(raw.drop_last());
    if rest.contains(x) {
        lemma_nonzero_normalized_members(raw.drop_last(), x);
    } else {
        let i = choose|i: int| 0 <= i < nonzero_normalized(raw).len() && nonzero_normalized(raw)[i] == x;
        assert(i == rest.len());
    }
}

proof fn lemma_nonzero_normalized_fixed(keys: Seq<u32>)
    requires
        forall|i: int| 0 <= i < keys.len() ==> #[trigger] keys[i] != 0 && normalize_key(keys[i]) == keys[i],
    ensures
        nonzero_normalized(keys) == keys,
    decreases keys.len(),
{
    if keys.len() > 0 {
        lemma_nonzero_normalized_fixed(keys.drop_last());
        assert(keys.drop_last().push(keys.last()) =~= keys);
    }
}

proof fn lemma_others_are_not_modifiers(keys: Seq<u32>)
    requires
        others_of(keys).len() > 0,
    ensures
        exists|i: int| 0 <= i < keys.len() && !is_modifier_key_spec(#[trigger] keys[i]),
    decreases keys.len(),
{
    if !is_modifier_key_spec(keys.last()) {
        assert(!is_modifier_key_spec(keys[keys.len() - 1]));
    } else {
        lemma_others_are_not_modifiers(keys.drop_last());
        let i = choose|i: int| 0 <= i < keys.drop_last().len() && !is_modifier_key_spec(#[trigger] keys.drop_last()[i]);
        assert(keys[i] == keys.drop_last()[i]);
    }
}

/// A shortcut that the capture builds from held keys passes the same
/// validation as a configured one, unless Escape was among the keys (Escape
/// is reserved for cancelling).
pub proof fn law_captured_shortcut_is_valid(raw: Seq<u32>, mode: ShortcutMode, r: ShortcutSettings)
    requires
        capture_error(capture_key_set(raw)) is None,
        captured_shortcut(capture_key_set(raw), mode, r),
        !capture_key_set(raw).contains(XK_ESCAPE),
    ensures
        crate::linux::hotkeys::validation::validate_shortcut_spec(r) == Ok::<(), Seq<char>>(()),
{
    let s = capture_key_set(raw);
    assert(s.finite());
    lemma_ordered_keys_exist(s);
    let keys = ordered_keys(s);
    assert forall|i: int| 0 <= i < keys.len() implies #[trigger] keys[i] != 0 && normalize_key(keys[i]) == keys[i] by {
        assert(keys.contains(keys[i]));
        assert(s.contains(keys[i]));
        lemma_nonzero_normalized_members(raw, keys[i]);
    }
    lemma_nonzero_normalized_fixed(keys);
    let configured = crate::linux::hotkeys::validation::configured_keys(r);
    assert(configured == keys);
    let ord = key_order_ord();
    assert(sorted_dedup_by(keys, keys, ord));
    let required = crate::linux::hotkeys::validation::required_keys_spec(r);
    assert(crate::linux::hotkeys::validation::in_key_order(keys, configured));
    assert(sorted_dedup_by(required, keys, ord));
    lemma_sorted_dedup_unique(required, keys, keys, ord);
    assert(required == keys);
    assert(!keys.contains(0)) by {
        if keys.contains(0) {
            let i = choose|i: int| 0 <= i < keys.len() && keys[i] == 0;
            assert(keys[i] != 0);
        }
    }
    assert(!keys.contains(XK_ESCAPE)) by {
        if keys.contains(XK_ESCAPE) {
            assert(s.contains(XK_ESCAPE));
        }
    }
    lemma_others_are_not_modifiers(keys);
}

} // verus!
