use vstd::prelude::*;
use vstd::std_specs::iter::IteratorSpec;
use std::collections::HashSet;
use crate::protocol::{
    ShortcutChord, ShortcutKey, ShortcutMode, ShortcutModifier, ShortcutPlatformCodes,
    ShortcutSettings,
};
use crate::settings::join_plus;
use crate::sorting::{lemma_sorted_dedup_unique, ord_injective, sort_dedup_u16_by_ord, sorted_dedup_by, widen};
use crate::text::{chars_of, extend_chars, str_eq, string_from_chars};
use super::hotkeys::{nonzero_keys, vk_ord};
use super::windows_keys::{
    display_label_for_vk, is_character_vk, is_generic_modifier, is_generic_modifier_spec,
    is_modifier_virtual_key, is_modifier_virtual_key_spec, shortcut_key_for_vk, virtual_key_sort_key,
    vk_character, vk_label, vk_shortcut_key, VK_0, VK_9, VK_A, VK_ALT, VK_BACK, VK_CONTROL,
    VK_DELETE, VK_DOWN, VK_ESCAPE, VK_F1, VK_F24, VK_LALT, VK_LCONTROL, VK_LEFT, VK_LSHIFT, VK_LWIN,
    VK_RALT, VK_RCONTROL, VK_RETURN, VK_RIGHT, VK_RSHIFT, VK_RWIN, VK_SHIFT, VK_SPACE, VK_TAB, VK_UP,
    VK_Z,
};

verus! {

broadcast use vstd::std_specs::hash::group_hash_axioms;

#[derive(Debug, Clone, Copy, PartialEq, Eq, Structural)]
pub enum ShortcutCaptureTarget {
    PushToTalk,
    HandsFree,
}

impl ShortcutCaptureTarget {
    pub fn mode(self) -> (r: ShortcutMode)
        ensures
            r == (match self {
                ShortcutCaptureTarget::PushToTalk => ShortcutMode::Hold,
                ShortcutCaptureTarget::HandsFree => ShortcutMode::Toggle,
            }),
    {
        match self {
            ShortcutCaptureTarget::PushToTalk => ShortcutMode::Hold,
            ShortcutCaptureTarget::HandsFree => ShortcutMode::Toggle,
        }
    }

    /// The target a settings field name stands for.
    pub fn from_field_name(value: &str) -> (r: Result<ShortcutCaptureTarget, String>)
        ensures
            value@ == "pushToTalkShortcut"@ ==> r == Ok::<ShortcutCaptureTarget, String>(ShortcutCaptureTarget::PushToTalk),
            value@ == "handsFreeShortcut"@ ==> r == Ok::<ShortcutCaptureTarget, String>(ShortcutCaptureTarget::HandsFree),
            value@ != "pushToTalkShortcut"@ && value@ != "handsFreeShortcut"@ ==> (r matches Err(e) && e@
                == "Unknown shortcut capture target: "@ + value@),
    {
        proof {
            reveal_strlit("pushToTalkShortcut");
            reveal_strlit("handsFreeShortcut");
            assert("pushToTalkShortcut"@[0] != "handsFreeShortcut"@[0]);
        }
        if str_eq(value, "pushToTalkShortcut") {
            Ok(ShortcutCaptureTarget::PushToTalk)
        } else if str_eq(value, "handsFreeShortcut") {
            Ok(ShortcutCaptureTarget::HandsFree)
        } else {
            let mut message = chars_of("Unknown shortcut capture target: ");
            extend_chars(&mut message, &chars_of(value));
            Err(string_from_chars(&message))
        }
    }
}

#[derive(Debug, Clone, Copy, PartialEq, Eq, Structural)]
pub enum CaptureKeyKind {
    Modifier,
    Function,
    Other,
}

pub const CANCELLED_MESSAGE: &'static str = "Shortcut capture cancelled.";
pub const UNSUPPORTED_KEY_MESSAGE: &'static str = "That key is not supported yet. Try a letter, number, Space, arrow key, or function key.";
pub const NEED_MODIFIER_MESSAGE: &'static str = "Use at least one modifier, like Ctrl, Alt, Shift, or Windows.";
pub const MISSING_KEYS_MESSAGE: &'static str = "Shortcut is missing Windows virtual keys.";
pub const ONE_KEY_MESSAGE: &'static str = "Choose one non-modifier key for the shortcut.";
pub const SINGLE_MODIFIER_MESSAGE: &'static str = "Choose a single modifier, or hold a modifier and press another key.";
pub const HANDS_FREE_KEY_MESSAGE: &'static str = "Hands-free mode needs a modifier plus key or a function key.";

/// A modifier key, left, right or generic.
pub open spec fn is_capture_modifier_spec(vk: u16) -> bool {
    is_modifier_virtual_key_spec(vk) || is_generic_modifier_spec(vk)
}

pub fn is_capture_modifier(vk: u16) -> (r: bool)
    ensures
        r == is_capture_modifier_spec(vk),
{
    is_modifier_virtual_key(vk) || is_generic_modifier(vk)
}

pub open spec fn key_kind(vk: u16) -> Option<CaptureKeyKind> {
    if is_capture_modifier_spec(vk) {
        Some(CaptureKeyKind::Modifier)
    } else if vk == VK_SPACE || vk == VK_RETURN || vk == VK_TAB || vk == VK_BACK || vk == VK_DELETE
        || vk == VK_LEFT || vk == VK_RIGHT || vk == VK_UP || vk == VK_DOWN {
        Some(CaptureKeyKind::Other)
    } else if (VK_0 <= vk <= VK_9) || (VK_A <= vk <= VK_Z) {
        Some(CaptureKeyKind::Other)
    } else if VK_F1 <= vk <= VK_F24 {
        Some(CaptureKeyKind::Function)
    } else {
        None
    }
}

pub fn supported_key_kind(vk: u16) -> (r: Option<CaptureKeyKind>)
    ensures
        r == key_kind(vk),
{
    if is_capture_modifier(vk) {
        return Some(CaptureKeyKind::Modifier);
    }
    if vk == VK_SPACE || vk == VK_RETURN || vk == VK_TAB || vk == VK_BACK || vk == VK_DELETE
        || vk == VK_LEFT || vk == VK_RIGHT || vk == VK_UP || vk == VK_DOWN {
        Some(CaptureKeyKind::Other)
    } else if (VK_0 <= vk && vk <= VK_9) || (VK_A <= vk && vk <= VK_Z) {
        Some(CaptureKeyKind::Other)
    } else if VK_F1 <= vk && vk <= VK_F24 {
        Some(CaptureKeyKind::Function)
    } else {
        None
    }
}

/// The keys of a capture: the non-zero keys.
pub open spec fn capture_key_set(keys: Seq<u16>) -> Set<u16> {
    nonzero_keys(keys).to_set()
}

pub open spec fn key_order_ord() -> spec_fn(u32) -> u64 {
    |x: u32| vk_ord(x)
}

/// `keys` holds the keys of `s`, each once, in key order.
pub open spec fn ordered_set(keys: Seq<u16>, s: Set<u16>) -> bool {
    &&& forall|i: int, j: int| 0 <= i < j < keys.len() ==> vk_ord(#[trigger] keys[i] as u32) < vk_ord(#[trigger] keys[j] as u32)
    &&& forall|x: u16| keys.contains(x) <==> s.contains(x)
}

pub open spec fn ordered_keys(s: Set<u16>) -> Seq<u16> {
    choose|k: Seq<u16>| #[trigger] ordered_set(k, s)
}

pub open spec fn modifiers_of(keys: Seq<u16>) -> Seq<u16>
    decreases keys.len(),
{
    if keys.len() == 0 {
        Seq::empty()
    } else if is_capture_modifier_spec(keys.last()) {
        modifiers_of(keys.drop_last()).push(keys.last())
    } else {
        modifiers_of(keys.drop_last())
    }
}

pub open spec fn others_of(keys: Seq<u16>) -> Seq<u16>
    decreases keys.len(),
{
    if keys.len() == 0 {
        Seq::empty()
    } else if !is_capture_modifier_spec(keys.last()) {
        others_of(keys.drop_last()).push(keys.last())
    } else {
        others_of(keys.drop_last())
    }
}

/// Why the keys `s` cannot make a shortcut in `mode`, if they cannot.
pub open spec fn capture_error(s: Set<u16>, mode: ShortcutMode) -> Option<Seq<char>> {
    let keys = ordered_keys(s);
    let mods = modifiers_of(keys);
    let others = others_of(keys);
    if keys.len() == 0 {
        Some(MISSING_KEYS_MESSAGE@)
    } else if others.len() > 1 {
        Some(ONE_KEY_MESSAGE@)
    } else if others.len() == 0 && mods.len() != 1 {
        Some(SINGLE_MODIFIER_MESSAGE@)
    } else if mode == ShortcutMode::Toggle && others.len() == 0 {
        Some(HANDS_FREE_KEY_MESSAGE@)
    } else if others.len() != 0 && key_kind(others[0]) != Some(CaptureKeyKind::Function) && mods.len() == 0 {
        Some(NEED_MODIFIER_MESSAGE@)
    } else {
        None
    }
}

pub open spec fn chord_modifier(vk: u16) -> Option<ShortcutModifier> {
    if vk == VK_CONTROL || vk == VK_LCONTROL || vk == VK_RCONTROL {
        Some(ShortcutModifier::Control)
    } else if vk == VK_ALT || vk == VK_LALT || vk == VK_RALT {
        Some(ShortcutModifier::Alt)
    } else if vk == VK_SHIFT || vk == VK_LSHIFT || vk == VK_RSHIFT {
        Some(ShortcutModifier::Shift)
    } else if vk == VK_LWIN || vk == VK_RWIN {
        Some(ShortcutModifier::Meta)
    } else {
        None
    }
}

pub open spec fn chord_modifiers(keys: Seq<u16>) -> Seq<ShortcutModifier>
    decreases keys.len(),
{
    if keys.len() == 0 {
        Seq::empty()
    } else {
        let rest = chord_modifiers(keys.drop_last());
        match chord_modifier(keys.last()) {
            Some(m) => if rest.contains(m) {
                rest
            } else {
                rest.push(m)
            },
            None => rest,
        }
    }
}

/// The shortcut key a virtual key stands for (see `shortcut_key_for_vk`).
pub open spec fn shortcut_key_is(r: Option<ShortcutKey>, vk: u16) -> bool {
    if is_character_vk(vk) {
        r matches Some(ShortcutKey::Character(s)) && s@ == vk_character(vk)
    } else {
        r == vk_shortcut_key(vk)
    }
}

pub open spec fn captured_shortcut(s: Set<u16>, mode: ShortcutMode, r: ShortcutSettings) -> bool {
    let keys = ordered_keys(s);
    let others = others_of(keys);
    &&& r.display_name@ == join_plus(keys.map_values(|k: u16| vk_label(k)))
    &&& r.mode == mode
    &&& r.enabled
    &&& !r.double_tap_toggle
    &&& r.chord matches Some(c) && c.modifiers@ == chord_modifiers(modifiers_of(keys)) && (if others.len() == 0 {
        c.key is None
    } else {
        shortcut_key_is(c.key, others[0])
    })
    &&& r.platform_codes.macos_key_codes is None
    &&& r.platform_codes.linux_key_codes is None
    &&& r.platform_codes.windows_virtual_keys matches Some(v) && v@ == keys
}

proof fn lemma_widen_contains(k: Seq<u16>, x: u16)
    ensures
        widen(k).contains(x as u32) <==> k.contains(x),
{
    if k.contains(x) {
        let i = choose|i: int| 0 <= i < k.len() && k[i] == x;
        assert(widen(k)[i] == x as u32);
    }
    if widen(k).contains(x as u32) {
        let i = choose|i: int| 0 <= i < widen(k).len() && widen(k)[i] == x as u32;
        assert(widen(k)[i] == k[i] as u32);
    }
}

proof fn lemma_widen_injective(a: Seq<u16>, b: Seq<u16>)
    requires
        widen(a) == widen(b),
    ensures
        a == b,
{
    assert(a.len() == widen(a).len());
    assert forall|i: int| 0 <= i < a.len() implies a[i] == b[i] by {
        assert(widen(a)[i] == widen(b)[i]);
        assert(widen(a)[i] == a[i] as u32);
        assert(widen(b)[i] == b[i] as u32);
    }
    assert(a =~= b);
}

proof fn lemma_ordered_is_sorted_dedup(k: Seq<u16>, s: Set<u16>, raw: Seq<u16>)
    requires
        ordered_set(k, s),
        forall|x: u16| raw.contains(x) <==> s.contains(x),
    ensures
        sorted_dedup_by(widen(k), widen(raw), key_order_ord()),
{
    let ord = key_order_ord();
    assert forall|i: int, j: int| 0 <= i < j < widen(k).len() implies ord(#[trigger] widen(k)[i]) < ord(#[trigger] widen(k)[j]) by {
        assert(widen(k)[i] == k[i] as u32);
        assert(widen(k)[j] == k[j] as u32);
    }
    assert forall|y: u32| widen(k).contains(y) <==> widen(raw).contains(y) by {
        if widen(k).contains(y) {
            let i = choose|i: int| 0 <= i < widen(k).len() && widen(k)[i] == y;
            assert(widen(k)[i] == k[i] as u32);
            lemma_widen_contains(raw, k[i]);
            assert(k.contains(k[i]));
        }
        if widen(raw).contains(y) {
            let i = choose|i: int| 0 <= i < widen(raw).len() && widen(raw)[i] == y;
            assert(widen(raw)[i] == raw[i] as u32);
            lemma_widen_contains(k, raw[i]);
            assert(raw.contains(raw[i]));
        }
    }
}

pub proof fn lemma_ordered_unique(k1: Seq<u16>, k2: Seq<u16>, s: Set<u16>)
    requires
        ordered_set(k1, s),
        ordered_set(k2, s),
    ensures
        k1 == k2,
{
    lemma_ordered_is_sorted_dedup(k1, s, k1);
    lemma_ordered_is_sorted_dedup(k2, s, k1);
    lemma_sorted_dedup_unique(widen(k1), widen(k2), widen(k1), key_order_ord());
    lemma_widen_injective(k1, k2);
}

fn ordered_from(raw: &Vec<u16>) -> (r: Vec<u16>)
    ensures
        ordered_set(r@, raw@.to_set()),
        r@ == ordered_keys(raw@.to_set()),
{
    let mut ords: Vec<u64> = Vec::new();
    let mut i: usize = 0;
    while i < raw.len()
        invariant
            i <= raw@.len(),
            ords@.len() == i,
            forall|j: int| 0 <= j < i ==> ords@[j] == vk_ord(#[trigger] raw@[j] as u32),
        decreases raw.len() - i,
    {
        let (rank, _) = virtual_key_sort_key(raw[i]);
        ords.push(rank as u64 * 4294967296 + raw[i] as u64);
        i = i + 1;
    }
    let ghost ord = key_order_ord();
    assert(ord_injective(ord)) by {
        assert forall|a: u32, b: u32| #[trigger] ord(a) == #[trigger] ord(b) implies a == b by {}
    }
    let sorted = sort_dedup_u16_by_ord(raw, &ords, Ghost(ord));
    proof {
        assert forall|i: int, j: int| 0 <= i < j < sorted@.len() implies vk_ord(#[trigger] sorted@[i] as u32) < vk_ord(#[trigger] sorted@[j] as u32) by {
            assert(widen(sorted@)[i] == sorted@[i] as u32);
            assert(widen(sorted@)[j] == sorted@[j] as u32);
        }
        assert forall|x: u16| sorted@.contains(x) <==> raw@.to_set().contains(x) by {
            lemma_widen_contains(sorted@, x);
            lemma_widen_contains(raw@, x);
        }
        assert(ordered_set(sorted@, raw@.to_set()));
        let c = ordered_keys(raw@.to_set());
        lemma_ordered_unique(sorted@, c, raw@.to_set());
    }
    sorted
}

fn split_keys(keys: &Vec<u16>) -> (r: (Vec<u16>, Vec<u16>))
    ensures
        r.0@ == modifiers_of(keys@),
        r.1@ == others_of(keys@),
{
    let mut mods: Vec<u16> = Vec::new();
    let mut others: Vec<u16> = Vec::new();
    let mut i: usize = 0;
    while i < keys.len()
        invariant
            i <= keys@.len(),
            mods@ == modifiers_of(keys@.take(i as int)),
            others@ == others_of(keys@.take(i as int)),
        decreases keys.len() - i,
    {
        assert(keys@.take(i + 1).drop_last() =~= keys@.take(i as int));
        if is_capture_modifier(keys[i]) {
            mods.push(keys[i]);
        } else {
            others.push(keys[i]);
        }
        i = i + 1;
    }
    assert(keys@.take(keys@.len() as int) =~= keys@);
    (mods, others)
}

fn chord_modifier_for_key(vk: u16) -> (r: Option<ShortcutModifier>)
    ensures
        r == chord_modifier(vk),
{
    if vk == VK_CONTROL || vk == VK_LCONTROL || vk == VK_RCONTROL {
        Some(ShortcutModifier::Control)
    } else if vk == VK_ALT || vk == VK_LALT || vk == VK_RALT {
        Some(ShortcutModifier::Alt)
    } else if vk == VK_SHIFT || vk == VK_LSHIFT || vk == VK_RSHIFT {
        Some(ShortcutModifier::Shift)
    } else if vk == VK_LWIN || vk == VK_RWIN {
        Some(ShortcutModifier::Meta)
    } else {
        None
    }
}

fn contains_modifier(v: &Vec<ShortcutModifier>, m: ShortcutModifier) -> (r: bool)
    ensures
        r == v@.contains(m),
{
    let mut i: usize = 0;
    while i < v.len()
        invariant
            i <= v@.len(),
            forall|j: int| 0 <= j < i ==> v@[j] != m,
        decreases v.len() - i,
    {
        if v[i] == m {
            assert(v@[i as int] == m);
            return true;
        }
        i = i + 1;
    }
    false
}

pub fn chord_modifiers_for_keys(keys: &[u16]) -> (r: Vec<ShortcutModifier>)
    ensures
        r@ == chord_modifiers(keys@),
{
    let mut modifiers: Vec<ShortcutModifier> = Vec::new();
    let mut i: usize = 0;
    while i < keys.len()
        invariant
            i <= keys@.len(),
            modifiers@ == chord_modifiers(keys@.take(i as int)),
        decreases keys.len() - i,
    {
        assert(keys@.take(i + 1).drop_last() =~= keys@.take(i as int));
        match chord_modifier_for_key(keys[i]) {
            Some(m) => {
                if !contains_modifier(&modifiers, m) {
                    modifiers.push(m);
                }
            },
            None => {},
        }
        i = i + 1;
    }
    assert(keys@.take(keys@.len() as int) =~= keys@);
    modifiers
}

pub fn display_name_for_keys(keys: &[u16]) -> (r: String)
    ensures
        r@ == join_plus(keys@.map_values(|k: u16| vk_label(k))),
{
    let sep = chars_of(" + ");
    let mut out: Vec<char> = Vec::new();
    let mut i: usize = 0;
    while i < keys.len()
        invariant
            i <= keys@.len(),
            sep@ == " + "@,
            out@ == join_plus(keys@.take(i as int).map_values(|k: u16| vk_label(k))),
        decreases keys.len() - i,
    {
        let label = display_label_for_vk(keys[i]);
        if i > 0 {
            extend_chars(&mut out, &sep);
        }
        extend_chars(&mut out, &chars_of(label.as_str()));
        i = i + 1;
        proof {
            let parts = keys@.take(i as int).map_values(|k: u16| vk_label(k));
            assert(parts.drop_last() =~= keys@.take(i - 1).map_values(|k: u16| vk_label(k)));
            if i == 1 {
                assert(out@ =~= parts[0]);
            }
        }
    }
    assert(keys@.take(keys@.len() as int) =~= keys@);
    string_from_chars(&out)
}

fn error_text(message: &str) -> (r: Result<ShortcutSettings, String>)
    ensures
        r matches Err(e) && e@ == message@,
{
    Err(String::from_str(message))
}

pub fn shortcut_from_windows_virtual_keys(keys: Vec<u16>, mode: ShortcutMode) -> (r: Result<ShortcutSettings, String>)
    ensures
        match capture_error(capture_key_set(keys@), mode) {
            Some(m) => r matches Err(e) && e@ == m,
            None => r matches Ok(sh) && captured_shortcut(capture_key_set(keys@), mode, sh),
        },
{
    let mut raw: Vec<u16> = Vec::new();
    let mut i: usize = 0;
    while i < keys.len()
        invariant
            i <= keys@.len(),
            raw@ == nonzero_keys(keys@.take(i as int)),
        decreases keys.len() - i,
    {
        assert(keys@.take(i + 1).drop_last() =~= keys@.take(i as int));
        if keys[i] != 0 {
            raw.push(keys[i]);
        }
        i = i + 1;
    }
    assert(keys@.take(keys@.len() as int) =~= keys@);
    let ordered = ordered_from(&raw);
    if ordered.len() == 0 {
        return error_text(MISSING_KEYS_MESSAGE);
    }
    let (mods, others) = split_keys(&ordered);
    if others.len() > 1 {
        return error_text(ONE_KEY_MESSAGE);
    }
    if others.len() == 0 && mods.len() != 1 {
        return error_text(SINGLE_MODIFIER_MESSAGE);
    }
    if mode == ShortcutMode::Toggle && others.len() == 0 {
        return error_text(HANDS_FREE_KEY_MESSAGE);
    }
    if others.len() != 0 {
        let kind = supported_key_kind(others[0]);
        if kind != Some(CaptureKeyKind::Function) && mods.len() == 0 {
            return error_text(NEED_MODIFIER_MESSAGE);
        }
    }
    let display_name = display_name_for_keys(ordered.as_slice());
    let key = if others.len() == 0 {
        None
    } else {
        shortcut_key_for_vk(others[0])
    };
    let chord = ShortcutChord { modifiers: chord_modifiers_for_keys(mods.as_slice()), key };
    Ok(ShortcutSettings {
        display_name,
        mode,
        enabled: true,
        double_tap_toggle: false,
        chord: Some(chord),
        platform_codes: ShortcutPlatformCodes {
            macos_key_codes: None,
            windows_virtual_keys: Some(ordered),
            linux_key_codes: None,
        },
    })
}


// ---------------------------------------------------------------------------
// Capture state
// ---------------------------------------------------------------------------

/// The modifiers held while a shortcut is being captured, the most held at once
/// during the current chord, and whether another key was pressed during it.
#[derive(Debug)]
pub struct CaptureState {
    mode: ShortcutMode,
    current_modifiers: HashSet<u16>,
    max_modifier_count_during_chord: usize,
    saw_non_modifier_during_chord: bool,
}

/// What capturing the keys `s` gives: the error, or the shortcut.
pub open spec fn capture_outcome(s: Set<u16>, mode: ShortcutMode, r: Result<Option<ShortcutSettings>, String>) -> bool {
    match capture_error(s, mode) {
        Some(m) => r matches Err(e) && e@ == m,
        None => r matches Ok(Some(sh)) && captured_shortcut(s, mode, sh),
    }
}

/// What a key press during capture gives: cancel on Escape, nothing for a
/// modifier, else the shortcut of the held modifiers and the key.
pub open spec fn key_down_result(mods: Set<u16>, mode: ShortcutMode, vk: u16, r: Result<Option<ShortcutSettings>, String>) -> bool {
    if vk == VK_ESCAPE {
        r matches Err(e) && e@ == CANCELLED_MESSAGE@
    } else if is_capture_modifier_spec(vk) {
        r matches Ok(None)
    } else if key_kind(vk) is None {
        r matches Err(e) && e@ == UNSUPPORTED_KEY_MESSAGE@
    } else if mods.is_empty() && key_kind(vk) != Some(CaptureKeyKind::Function) {
        r matches Err(e) && e@ == NEED_MODIFIER_MESSAGE@
    } else {
        capture_outcome(mods.insert(vk), mode, r)
    }
}

/// A lone modifier held and released, in hold mode, with nothing else pressed
/// during the chord: the shortcut is that modifier.
pub open spec fn saves_single_modifier(mode: ShortcutMode, mods: Set<u16>, max_count: usize, saw_other: bool, vk: u16) -> bool {
    &&& is_capture_modifier_spec(vk)
    &&& mode == ShortcutMode::Hold
    &&& mods.len() == 1
    &&& mods.remove(vk).is_empty()
    &&& max_count == 1
    &&& !saw_other
}

impl CaptureState {
    pub closed spec fn mode_spec(&self) -> ShortcutMode {
        self.mode
    }

    pub closed spec fn modifiers_spec(&self) -> Set<u16> {
        self.current_modifiers@
    }

    pub closed spec fn max_count_spec(&self) -> usize {
        self.max_modifier_count_during_chord
    }

    pub closed spec fn saw_other_spec(&self) -> bool {
        self.saw_non_modifier_during_chord
    }

    /// Only modifier keys are held.
    pub closed spec fn wf(&self) -> bool {
        forall|x: u16| self.current_modifiers@.contains(x) ==> is_capture_modifier_spec(x)
    }

    pub fn new(mode: ShortcutMode) -> (r: CaptureState)
        ensures
            r.wf(),
            r.mode_spec() == mode,
            r.modifiers_spec() == Set::<u16>::empty(),
            r.max_count_spec() == 0,
            !r.saw_other_spec(),
    {
        CaptureState {
            mode,
            current_modifiers: HashSet::new(),
            max_modifier_count_during_chord: 0,
            saw_non_modifier_during_chord: false,
        }
    }

    pub fn handle_key_down(&mut self, vk: u16) -> (r: Result<Option<ShortcutSettings>, String>)
        requires
            old(self).wf(),
        ensures
            final(self).wf(),
            final(self).mode_spec() == old(self).mode_spec(),
            key_down_result(old(self).modifiers_spec(), old(self).mode_spec(), vk, r),
            vk == VK_ESCAPE ==> final(self).modifiers_spec() == old(self).modifiers_spec()
                && final(self).max_count_spec() == old(self).max_count_spec()
                && final(self).saw_other_spec() == old(self).saw_other_spec(),
            vk != VK_ESCAPE && is_capture_modifier_spec(vk) ==> final(self).modifiers_spec() == old(self).modifiers_spec().insert(vk)
                && final(self).max_count_spec() == (if old(self).max_count_spec() >= final(self).modifiers_spec().len() {
                    old(self).max_count_spec() as int
                } else {
                    final(self).modifiers_spec().len() as int
                })
                && final(self).saw_other_spec() == old(self).saw_other_spec(),
            vk != VK_ESCAPE && !is_capture_modifier_spec(vk) ==> final(self).modifiers_spec() == old(self).modifiers_spec()
                && final(self).max_count_spec() == old(self).max_count_spec()
                && final(self).saw_other_spec(),
    {
        if vk == VK_ESCAPE {
            return Err(String::from_str(CANCELLED_MESSAGE));
        }
        if is_capture_modifier(vk) {
            self.current_modifiers.insert(vk);
            let count = self.current_modifiers.len();
            if count > self.max_modifier_count_during_chord {
                self.max_modifier_count_during_chord = count;
            }
            return Ok(None);
        }
        self.saw_non_modifier_during_chord = true;
        let kind = match supported_key_kind(vk) {
            Some(k) => k,
            None => return Err(String::from_str(UNSUPPORTED_KEY_MESSAGE)),
        };
        if self.current_modifiers.is_empty() && kind != CaptureKeyKind::Function {
            return Err(String::from_str(NEED_MODIFIER_MESSAGE));
        }
        let mut keys = ordered_modifiers(&self.current_modifiers);
        let ghost mods = keys@;
        keys.push(vk);
        proof {
            assert(vk != 0);
            assert forall|i: int| 0 <= i < keys@.len() implies #[trigger] keys@[i] != 0 by {
                if i < mods.len() {
                    assert(mods.contains(mods[i]));
                    assert(self.current_modifiers@.contains(mods[i]));
                    assert(is_capture_modifier_spec(mods[i]));
                    assert(keys@[i] == mods[i]);
                }
            }
            lemma_nonzero_unchanged(keys@);
            assert(keys@.to_set() =~= self.current_modifiers@.insert(vk)) by {
                assert forall|x: u16| keys@.to_set().contains(x) <==> self.current_modifiers@.insert(vk).contains(x) by {
                    if keys@.to_set().contains(x) {
                        let j = choose|j: int| 0 <= j < keys@.len() && keys@[j] == x;
                        if j < mods.len() {
                            assert(mods.contains(x));
                        }
                    }
                    if self.current_modifiers@.contains(x) {
                        let j = choose|j: int| 0 <= j < mods.len() && mods[j] == x;
                        assert(keys@[j] == x);
                    }
                    if x == vk {
                        assert(keys@[mods.len() as int] == x);
                    }
                }
            }
            assert(capture_key_set(keys@) == self.current_modifiers@.insert(vk));
        }
        match shortcut_from_windows_virtual_keys(keys, self.mode) {
            Ok(shortcut) => Ok(Some(shortcut)),
            Err(e) => Err(e),
        }
    }

    pub fn handle_key_up(&mut self, vk: u16) -> (r: Result<Option<ShortcutSettings>, String>)
        requires
            old(self).wf(),
        ensures
            final(self).wf(),
            final(self).mode_spec() == old(self).mode_spec(),
            final(self).modifiers_spec() == (if is_capture_modifier_spec(vk) {
                old(self).modifiers_spec().remove(vk)
            } else {
                old(self).modifiers_spec()
            }),
            if saves_single_modifier(old(self).mode_spec(), old(self).modifiers_spec(), old(self).max_count_spec(), old(self).saw_other_spec(), vk) {
                &&& capture_outcome(set![vk], old(self).mode_spec(), r)
                &&& final(self).max_count_spec() == old(self).max_count_spec()
                &&& final(self).saw_other_spec() == old(self).saw_other_spec()
            } else {
                &&& r matches Ok(None)
                &&& if is_capture_modifier_spec(vk) && final(self).modifiers_spec().is_empty() {
                    final(self).max_count_spec() == 0 && !final(self).saw_other_spec()
                } else {
                    final(self).max_count_spec() == old(self).max_count_spec()
                        && final(self).saw_other_spec() == old(self).saw_other_spec()
                }
            },
    {
        if !is_capture_modifier(vk) {
            return Ok(None);
        }
        let previous_count = self.current_modifiers.len();
        self.current_modifiers.remove(&vk);
        if self.mode == ShortcutMode::Hold && previous_count == 1 && self.current_modifiers.is_empty()
            && self.max_modifier_count_during_chord == 1 && !self.saw_non_modifier_during_chord {
            let keys = vec![vk];
            proof {
                assert(keys@ =~= seq![vk]);
                assert(vk != 0);
                assert(nonzero_keys(keys@) =~= seq![vk]) by {
                    assert(keys@.drop_last() =~= Seq::<u16>::empty());
                    assert(nonzero_keys(Seq::<u16>::empty()) == Seq::<u16>::empty());
                    assert(keys@.last() == vk);
                    assert(Seq::<u16>::empty().push(vk) =~= seq![vk]);
                }
                assert(seq![vk].to_set() =~= set![vk]) by {
                    assert forall|x: u16| seq![vk].to_set().contains(x) <==> set![vk].contains(x) by {
                        if x == vk {
                            assert(seq![vk][0] == vk);
                        }
                    }
                }
            }
            return match shortcut_from_windows_virtual_keys(keys, self.mode) {
                Ok(shortcut) => Ok(Some(shortcut)),
                Err(e) => Err(e),
            };
        }
        if self.current_modifiers.is_empty() {
            self.max_modifier_count_during_chord = 0;
            self.saw_non_modifier_during_chord = false;
        }
        Ok(None)
    }
}

proof fn lemma_nonzero_unchanged(s: Seq<u16>)
    requires
        forall|i: int| 0 <= i < s.len() ==> #[trigger] s[i] != 0,
    ensures
        nonzero_keys(s) == s,
    decreases s.len(),
{
    if s.len() > 0 {
        lemma_nonzero_unchanged(s.drop_last());
        assert(s[s.len() - 1] != 0);
        assert(s.drop_last().push(s.last()) =~= s);
    }
}

/// The held modifiers in key order.
fn ordered_modifiers(modifiers: &HashSet<u16>) -> (r: Vec<u16>)
    ensures
        ordered_set(r@, modifiers@),
{
    let mut raw: Vec<u16> = Vec::new();
    let iter = modifiers.iter();
    let ghost all = iter.remaining().unref();
    assert(all.to_set() == modifiers@);
    for x in it: iter
        invariant
            raw@ == all.take(it.index() as int),
            it.seq().unref() == all,
    {
        raw.push(*x);
        assert(all[it.index() as int] == *x);
        assert(raw@ =~= all.take(it.index() + 1));
    }
    assert(raw@ =~= all);
    ordered_from(&raw)
}

// ---------------------------------------------------------------------------
// Captured shortcuts against validation
// ---------------------------------------------------------------------------

/// Every finite set of virtual keys has an ordering.
pub proof fn lemma_ordered_keys_exist(s: Set<u16>)
    requires
        s.finite(),
    ensures
        ordered_set(ordered_keys(s), s),
    decreases s.len(),
{
    if s.len() == 0 {
        assert(s =~= Set::<u16>::empty());
        let k = Seq::<u16>::empty();
        assert(ordered_set(k, s));
    } else {
        let leq = |a: u16, b: u16| vk_ord(a as u32) <= vk_ord(b as u32);
        assert(vstd::relations::total_ordering(leq)) by {
            assert forall|a: u16, b: u16| #[trigger] leq(a, b) && #[trigger] leq(b, a) implies a == b by {}
        }
        s.find_unique_maximal_ensures(leq);
        let m = s.find_unique_maximal(leq);
        let rest = s.remove(m);
        lemma_ordered_keys_exist(rest);
        let k = ordered_keys(rest);
        let k2 = k.push(m);
        assert forall|i: int, j: int| 0 <= i < j < k2.len() implies vk_ord(#[trigger] k2[i] as u32)
            < vk_ord(#[trigger] k2[j] as u32) by {
            if j < k.len() {
                assert(k2[i] == k[i] && k2[j] == k[j]);
            } else {
                assert(k2[j] == m);
                assert(k2[i] == k[i]);
                assert(k.contains(k[i]));
                assert(rest.contains(k[i]));
                if leq(m, k[i]) {
                    assert(leq(k[i], m));
                }
            }
        }
        assert forall|x: u16| k2.contains(x) <==> s.contains(x) by {
            if k2.contains(x) {
                let i = choose|i: int| 0 <= i < k2.len() && k2[i] == x;
                if i < k.len() {
                    assert(k.contains(k[i]));
                }
            }
            if s.contains(x) && x != m {
                assert(rest.contains(x));
                assert(k.contains(x));
                let i = choose|i: int| 0 <= i < k.len() && k[i] == x;
                assert(k2[i] == x);
            }
            if x == m {
                assert(k2[k.len() as int] == m);
            }
        }
        assert(ordered_set(k2, s));
    }
}

proof fn lemma_nonzero_members(raw: Seq<u16>, x: u16)
    requires
        nonzero_keys(raw).contains(x),
    ensures
        x != 0,
    decreases raw.len(),
{
    let rest = nonzero_keys(raw.drop_last());
    if rest.contains(x) {
        lemma_nonzero_members(raw.drop_last(), x);
    } else {
        let i = choose|i: int| 0 <= i < nonzero_keys(raw).len() && nonzero_keys(raw)[i] == x;
        assert(i == rest.len());
    }
}

proof fn lemma_nonzero_fixed(keys: Seq<u16>)
    requires
        forall|i: int| 0 <= i < keys.len() ==> #[trigger] keys[i] != 0,
    ensures
        nonzero_keys(keys) == keys,
    decreases keys.len(),
{
    if keys.len() > 0 {
        lemma_nonzero_fixed(keys.drop_last());
        assert(keys.drop_last().push(keys.last()) =~= keys);
    }
}

/// The modifiers and the other keys split the keys between them.
proof fn lemma_split_counts(keys: Seq<u16>)
    ensures
        modifiers_of(keys).len() + others_of(keys).len() == keys.len(),
        others_of(keys).len() == 0 ==> forall|i: int| 0 <= i < keys.len() ==> is_capture_modifier_spec(#[trigger] keys[i]),
        others_of(keys).len() > 0 ==> exists|i: int| 0 <= i < keys.len() && !is_capture_modifier_spec(#[trigger] keys[i]),
    decreases keys.len(),
{
    if keys.len() > 0 {
        let init = keys.drop_last();
        lemma_split_counts(init);
        if others_of(keys).len() == 0 {
            assert forall|i: int| 0 <= i < keys.len() implies is_capture_modifier_spec(#[trigger] keys[i]) by {
                if i < init.len() {
                    assert(keys[i] == init[i]);
                }
            }
        }
        if others_of(keys).len() > 0 {
            if !is_capture_modifier_spec(keys.last()) {
                assert(!is_capture_modifier_spec(keys[keys.len() - 1]));
            } else {
                let i = choose|i: int| 0 <= i < init.len() && !is_capture_modifier_spec(#[trigger] init[i]);
                assert(keys[i] == init[i]);
            }
        }
    }
}

/// A shortcut that the capture builds from held keys passes the same
/// validation as a configured one, unless Escape was among the keys (Escape
/// is reserved for cancelling).
pub proof fn law_captured_shortcut_is_valid(raw: Seq<u16>, mode: ShortcutMode, r: ShortcutSettings)
    requires
        capture_error(capture_key_set(raw), mode) is None,
        captured_shortcut(capture_key_set(raw), mode, r),
        !capture_key_set(raw).contains(VK_ESCAPE),
    ensures
        super::hotkeys::validate_shortcut_spec(r) == Ok::<(), Seq<char>>(()),
{
    let s = capture_key_set(raw);
    assert(s.finite());
    lemma_ordered_keys_exist(s);
    let keys = ordered_keys(s);
    assert forall|i: int| 0 <= i < keys.len() implies #[trigger] keys[i] != 0 by {
        assert(keys.contains(keys[i]));
        assert(s.contains(keys[i]));
        lemma_nonzero_members(raw, keys[i]);
    }
    lemma_nonzero_fixed(keys);
    let configured = super::hotkeys::configured_keys(r);
    assert(configured == keys);
    let required = super::hotkeys::required_keys_spec(r);
    lemma_ordered_is_sorted_dedup(keys, s, keys);
    assert(super::hotkeys::in_key_order(keys, configured));
    assert(super::hotkeys::in_key_order(required, configured));
    lemma_sorted_dedup_unique(widen(required), widen(keys), widen(keys), key_order_ord());
    lemma_widen_injective(required, keys);
    assert(!keys.contains(0)) by {
        if keys.contains(0) {
            let i = choose|i: int| 0 <= i < keys.len() && keys[i] == 0;
            assert(keys[i] != 0);
        }
    }
    assert(!keys.contains(VK_ESCAPE)) by {
        if keys.contains(VK_ESCAPE) {
            assert(s.contains(VK_ESCAPE));
        }
    }
    lemma_split_counts(keys);
    if others_of(keys).len() > 0 {
        let i = choose|i: int| 0 <= i < keys.len() && !is_capture_modifier_spec(#[trigger] keys[i]);
        assert(!super::hotkeys::is_any_modifier(keys[i]));
    }
}

} // verus!
