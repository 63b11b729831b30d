use vstd::prelude::*;
use vstd::string::*;
use crate::text::str_eq;

verus! {

pub const DEFAULT_CLEANUP_MODEL_ID: &'static str = "cleanup";
pub const GEMMA_CLEANUP_MODEL_ID: &'static str = "cleanup-gemma-4-e2b";

#[derive(Debug, Clone, PartialEq, Eq)]
pub struct DictionaryEntry {
    pub id: String,
    pub term: String,
}

#[derive(Debug, Clone, Copy, PartialEq, Eq, Structural)]
pub enum DictationLanguageMode {
    English,
    Detect,
    Specific,
}

#[derive(Debug, Clone, Copy, PartialEq, Eq, Structural)]
pub enum ShortcutMode {
    Hold,
    Toggle,
}

#[derive(Debug, Clone, Copy, PartialEq, Eq, Structural)]
pub enum ShortcutModifier {
    Command,
    Control,
    Option,
    Alt,
    Shift,
    Fn,
    Meta,
}

#[derive(Debug, Clone, PartialEq, Eq)]
pub enum ShortcutKey {
    Space,
    Return,
    Tab,
    Escape,
    Character(String),
    Function(u8),
    ArrowLeft,
    ArrowRight,
    ArrowUp,
    ArrowDown,
    Delete,
}

#[derive(Debug, Clone, PartialEq, Eq, Default)]
pub struct ShortcutChord {
    pub modifiers: Vec<ShortcutModifier>,
    pub key: Option<ShortcutKey>,
}

#[derive(Debug, Clone, PartialEq, Eq, Default)]
pub struct ShortcutPlatformCodes {
    pub macos_key_codes: Option<Vec<u16>>,
    pub windows_virtual_keys: Option<Vec<u16>>,
    pub linux_key_codes: Option<Vec<u32>>,
}

#[derive(Debug, Clone, PartialEq, Eq)]
pub struct ShortcutSettings {
    pub display_name: String,
    pub mode: ShortcutMode,
    pub enabled: bool,
    pub double_tap_toggle: bool,
    pub chord: Option<ShortcutChord>,
    pub platform_codes: ShortcutPlatformCodes,
}

// ---------------------------------------------------------------------------
// Views of shortcut values
// ---------------------------------------------------------------------------

/// The key codes an optional list holds; none is the empty list.
pub open spec fn codes<T>(o: Option<Vec<T>>) -> Seq<T> {
    match o {
        Some(v) => v@,
        None => Seq::empty(),
    }
}

/// Two keys are the same key (a character key by its text).
pub open spec fn key_same(a: ShortcutKey, b: ShortcutKey) -> bool {
    match (a, b) {
        (ShortcutKey::Character(x), ShortcutKey::Character(y)) => x@ == y@,
        (ShortcutKey::Character(_), _) => false,
        (_, ShortcutKey::Character(_)) => false,
        _ => a == b,
    }
}

pub open spec fn opt_key_same(a: Option<ShortcutKey>, b: Option<ShortcutKey>) -> bool {
    match (a, b) {
        (Some(x), Some(y)) => key_same(x, y),
        (None, None) => true,
        _ => false,
    }
}

pub open spec fn chord_same(a: ShortcutChord, b: ShortcutChord) -> bool {
    a.modifiers@ == b.modifiers@ && opt_key_same(a.key, b.key)
}

pub open spec fn opt_chord_same(a: Option<ShortcutChord>, b: Option<ShortcutChord>) -> bool {
    match (a, b) {
        (Some(x), Some(y)) => chord_same(x, y),
        (None, None) => true,
        _ => false,
    }
}

pub open spec fn opt_codes_same<T>(a: Option<Vec<T>>, b: Option<Vec<T>>) -> bool {
    match (a, b) {
        (Some(x), Some(y)) => x@ == y@,
        (None, None) => true,
        _ => false,
    }
}

pub open spec fn platform_codes_same(a: ShortcutPlatformCodes, b: ShortcutPlatformCodes) -> bool {
    &&& opt_codes_same(a.macos_key_codes, b.macos_key_codes)
    &&& opt_codes_same(a.windows_virtual_keys, b.windows_virtual_keys)
    &&& opt_codes_same(a.linux_key_codes, b.linux_key_codes)
}

/// Two shortcut settings hold the same values (what the derived `==` compares).
pub open spec fn shortcut_same(a: ShortcutSettings, b: ShortcutSettings) -> bool {
    &&& a.display_name@ == b.display_name@
    &&& a.mode == b.mode
    &&& a.enabled == b.enabled
    &&& a.double_tap_toggle == b.double_tap_toggle
    &&& opt_chord_same(a.chord, b.chord)
    &&& platform_codes_same(a.platform_codes, b.platform_codes)
}

pub fn copy_u16s(v: &Vec<u16>) -> (r: Vec<u16>)
    ensures
        r@ == v@,
{
    let mut r: Vec<u16> = Vec::new();
    let mut i: usize = 0;
    while i < v.len()
        invariant
            i <= v.len(),
            r@ == v@.take(i as int),
        decreases v.len() - i,
    {
        r.push(v[i]);
        i = i + 1;
        assert(r@ =~= v@.take(i as int));
    }
    assert(r@ =~= v@);
    r
}

pub fn copy_u32s(v: &Vec<u32>) -> (r: Vec<u32>)
    ensures
        r@ == v@,
{
    let mut r: Vec<u32> = Vec::new();
    let mut i: usize = 0;
    while i < v.len()
        invariant
            i <= v.len(),
            r@ == v@.take(i as int),
        decreases v.len() - i,
    {
        r.push(v[i]);
        i = i + 1;
        assert(r@ =~= v@.take(i as int));
    }
    assert(r@ =~= v@);
    r
}

pub fn copy_modifiers(v: &Vec<ShortcutModifier>) -> (r: Vec<ShortcutModifier>)
    ensures
        r@ == v@,
{
    let mut r: Vec<ShortcutModifier> = Vec::new();
    let mut i: usize = 0;
    while i < v.len()
        invariant
            i <= v.len(),
            r@ == v@.take(i as int),
        decreases v.len() - i,
    {
        r.push(v[i]);
        i = i + 1;
        assert(r@ =~= v@.take(i as int));
    }
    assert(r@ =~= v@);
    r
}

pub fn u16s_eq(a: &[u16], b: &[u16]) -> (r: bool)
    ensures
        r == (a@ == b@),
{
    if a.len() != b.len() {
        return false;
    }
    let mut i: usize = 0;
    while i < a.len()
        invariant
            a.len() == b.len(),
            i <= a.len(),
            a@.take(i as int) == b@.take(i as int),
        decreases a.len() - i,
    {
        if a[i] != b[i] {
            assert(a@[i as int] != b@[i as int]);
            return false;
        }
        i = i + 1;
        assert(a@.take(i as int) =~= b@.take(i as int));
    }
    assert(a@ =~= a@.take(a.len() as int));
    assert(b@ =~= b@.take(b.len() as int));
    true
}

pub fn u32s_eq(a: &[u32], b: &[u32]) -> (r: bool)
    ensures
        r == (a@ == b@),
{
    if a.len() != b.len() {
        return false;
    }
    let mut i: usize = 0;
    while i < a.len()
        invariant
            a.len() == b.len(),
            i <= a.len(),
            a@.take(i as int) == b@.take(i as int),
        decreases a.len() - i,
    {
        if a[i] != b[i] {
            assert(a@[i as int] != b@[i as int]);
            return false;
        }
        i = i + 1;
        assert(a@.take(i as int) =~= b@.take(i as int));
    }
    assert(a@ =~= a@.take(a.len() as int));
    assert(b@ =~= b@.take(b.len() as int));
    true
}

pub fn modifiers_eq(a: &[ShortcutModifier], b: &[ShortcutModifier]) -> (r: bool)
    ensures
        r == (a@ == b@),
{
    if a.len() != b.len() {
        return false;
    }
    let mut i: usize = 0;
    while i < a.len()
        invariant
            a.len() == b.len(),
            i <= a.len(),
            a@.take(i as int) == b@.take(i as int),
        decreases a.len() - i,
    {
        if a[i] != b[i] {
            assert(a@[i as int] != b@[i as int]);
            return false;
        }
        i = i + 1;
        assert(a@.take(i as int) =~= b@.take(i as int));
    }
    assert(a@ =~= a@.take(a.len() as int));
    assert(b@ =~= b@.take(b.len() as int));
    true
}

impl ShortcutKey {
    pub fn copy(&self) -> (r: ShortcutKey)
        ensures
            key_same(r, *self),
    {
        match self {
            ShortcutKey::Space => ShortcutKey::Space,
            ShortcutKey::Return => ShortcutKey::Return,
            ShortcutKey::Tab => ShortcutKey::Tab,
            ShortcutKey::Escape => ShortcutKey::Escape,
            ShortcutKey::Character(s) => ShortcutKey::Character(s.clone()),
            ShortcutKey::Function(n) => ShortcutKey::Function(*n),
            ShortcutKey::ArrowLeft => ShortcutKey::ArrowLeft,
            ShortcutKey::ArrowRight => ShortcutKey::ArrowRight,
            ShortcutKey::ArrowUp => ShortcutKey::ArrowUp,
            ShortcutKey::ArrowDown => ShortcutKey::ArrowDown,
            ShortcutKey::Delete => ShortcutKey::Delete,
        }
    }

    pub fn same_as(&self, other: &ShortcutKey) -> (r: bool)
        ensures
            r == key_same(*self, *other),
    {
        match (self, other) {
            (ShortcutKey::Character(x), ShortcutKey::Character(y)) => str_eq(x.as_str(), y.as_str()),
            (ShortcutKey::Character(_), _) => false,
            (_, ShortcutKey::Character(_)) => false,
            (ShortcutKey::Space, ShortcutKey::Space) => true,
            (ShortcutKey::Return, ShortcutKey::Return) => true,
            (ShortcutKey::Tab, ShortcutKey::Tab) => true,
            (ShortcutKey::Escape, ShortcutKey::Escape) => true,
            (ShortcutKey::Function(a), ShortcutKey::Function(b)) => *a == *b,
            (ShortcutKey::ArrowLeft, ShortcutKey::ArrowLeft) => true,
            (ShortcutKey::ArrowRight, ShortcutKey::ArrowRight) => true,
            (ShortcutKey::ArrowUp, ShortcutKey::ArrowUp) => true,
            (ShortcutKey::ArrowDown, ShortcutKey::ArrowDown) => true,
            (ShortcutKey::Delete, ShortcutKey::Delete) => true,
            _ => false,
        }
    }
}

pub fn copy_opt_key(k: &Option<ShortcutKey>) -> (r: Option<ShortcutKey>)
    ensures
        opt_key_same(r, *k),
{
    match k {
        Some(k) => Some(k.copy()),
        None => None,
    }
}

pub fn opt_key_eq(a: &Option<ShortcutKey>, b: &Option<ShortcutKey>) -> (r: bool)
    ensures
        r == opt_key_same(*a, *b),
{
    match (a, b) {
        (Some(x), Some(y)) => x.same_as(y),
        (None, None) => true,
        _ => false,
    }
}

impl ShortcutChord {
    pub fn copy(&self) -> (r: ShortcutChord)
        ensures
            chord_same(r, *self),
    {
        ShortcutChord { modifiers: copy_modifiers(&self.modifiers), key: copy_opt_key(&self.key) }
    }
}

pub fn copy_opt_chord(c: &Option<ShortcutChord>) -> (r: Option<ShortcutChord>)
    ensures
        opt_chord_same(r, *c),
{
    match c {
        Some(c) => Some(c.copy()),
        None => None,
    }
}

pub fn opt_chord_eq(a: &Option<ShortcutChord>, b: &Option<ShortcutChord>) -> (r: bool)
    ensures
        r == opt_chord_same(*a, *b),
{
    match (a, b) {
        (Some(x), Some(y)) => modifiers_eq(x.modifiers.as_slice(), y.modifiers.as_slice())
            && opt_key_eq(&x.key, &y.key),
        (None, None) => true,
        _ => false,
    }
}

pub fn copy_opt_u16s(o: &Option<Vec<u16>>) -> (r: Option<Vec<u16>>)
    ensures
        opt_codes_same(r, *o),
{
    match o {
        Some(v) => Some(copy_u16s(v)),
        None => None,
    }
}

pub fn copy_opt_u32s(o: &Option<Vec<u32>>) -> (r: Option<Vec<u32>>)
    ensures
        opt_codes_same(r, *o),
{
    match o {
        Some(v) => Some(copy_u32s(v)),
        None => None,
    }
}

pub fn opt_u16s_eq(a: &Option<Vec<u16>>, b: &Option<Vec<u16>>) -> (r: bool)
    ensures
        r == opt_codes_same(*a, *b),
{
    match (a, b) {
        (Some(x), Some(y)) => u16s_eq(x.as_slice(), y.as_slice()),
        (None, None) => true,
        _ => false,
    }
}

pub fn opt_u32s_eq(a: &Option<Vec<u32>>, b: &Option<Vec<u32>>) -> (r: bool)
    ensures
        r == opt_codes_same(*a, *b),
{
    match (a, b) {
        (Some(x), Some(y)) => u32s_eq(x.as_slice(), y.as_slice()),
        (None, None) => true,
        _ => false,
    }
}

impl ShortcutPlatformCodes {
    pub fn copy(&self) -> (r: ShortcutPlatformCodes)
        ensures
            platform_codes_same(r, *self),
    {
        ShortcutPlatformCodes {
            macos_key_codes: copy_opt_u16s(&self.macos_key_codes),
            windows_virtual_keys: copy_opt_u16s(&self.windows_virtual_keys),
            linux_key_codes: copy_opt_u32s(&self.linux_key_codes),
        }
    }
}

impl ShortcutSettings {
    pub fn copy(&self) -> (r: ShortcutSettings)
        ensures
            shortcut_same(r, *self),
    {
        ShortcutSettings {
            display_name: self.display_name.clone(),
            mode: self.mode,
            enabled: self.enabled,
            double_tap_toggle: self.double_tap_toggle,
            chord: copy_opt_chord(&self.chord),
            platform_codes: self.platform_codes.copy(),
        }
    }

    /// Whether `self` and `other` hold the same values.
    pub fn same_as(&self, other: &ShortcutSettings) -> (r: bool)
        ensures
            r == shortcut_same(*self, *other),
    {
        str_eq(self.display_name.as_str(), other.display_name.as_str()) && self.mode == other.mode
            && self.enabled == other.enabled && self.double_tap_toggle == other.double_tap_toggle
            && opt_chord_eq(&self.chord, &other.chord) && opt_u16s_eq(
            &self.platform_codes.macos_key_codes,
            &other.platform_codes.macos_key_codes,
        ) && opt_u16s_eq(
            &self.platform_codes.windows_virtual_keys,
            &other.platform_codes.windows_virtual_keys,
        ) && opt_u32s_eq(&self.platform_codes.linux_key_codes, &other.platform_codes.linux_key_codes)
    }

    /// The macOS key codes (empty when there are none).
    pub fn macos_key_codes(&self) -> (r: &[u16])
        ensures
            r@ == codes(self.platform_codes.macos_key_codes),
    {
        match &self.platform_codes.macos_key_codes {
            Some(v) => v.as_slice(),
            None => &[],
        }
    }

    /// The Windows virtual keys (empty when there are none).
    pub fn windows_virtual_keys(&self) -> (r: &[u16])
        ensures
            r@ == codes(self.platform_codes.windows_virtual_keys),
    {
        match &self.platform_codes.windows_virtual_keys {
            Some(v) => v.as_slice(),
            None => &[],
        }
    }

    /// The Linux key codes (empty when there are none).
    pub fn linux_key_codes(&self) -> (r: &[u32])
        ensures
            r@ == codes(self.platform_codes.linux_key_codes),
    {
        match &self.platform_codes.linux_key_codes {
            Some(v) => v.as_slice(),
            None => &[],
        }
    }
}

pub fn default_shortcut_enabled() -> (r: bool)
    ensures
        r,
{
    true
}

/// A shortcut with the given name, mode, chord and codes, enabled and without double tap.
pub open spec fn shortcut_is(
    s: ShortcutSettings,
    name: Seq<char>,
    mode: ShortcutMode,
    modifiers: Seq<ShortcutModifier>,
    key: Option<ShortcutKey>,
    macos: Option<Seq<u16>>,
    windows: Option<Seq<u16>>,
    linux: Option<Seq<u32>>,
) -> bool {
    &&& s.display_name@ == name
    &&& s.mode == mode
    &&& s.enabled
    &&& !s.double_tap_toggle
    &&& s.chord matches Some(c) && c.modifiers@ == modifiers && opt_key_same(c.key, key)
    &&& match (s.platform_codes.macos_key_codes, macos) {
        (Some(v), Some(w)) => v@ == w,
        (None, None) => true,
        _ => false,
    }
    &&& match (s.platform_codes.windows_virtual_keys, windows) {
        (Some(v), Some(w)) => v@ == w,
        (None, None) => true,
        _ => false,
    }
    &&& match (s.platform_codes.linux_key_codes, linux) {
        (Some(v), Some(w)) => v@ == w,
        (None, None) => true,
        _ => false,
    }
}

/// The macOS push-to-talk default: Fn held.
pub open spec fn is_default_push_to_talk(s: ShortcutSettings) -> bool {
    shortcut_is(
        s,
        "Fn"@,
        ShortcutMode::Hold,
        seq![ShortcutModifier::Fn],
        None,
        Some(seq![63u16]),
        None,
        None,
    )
}

/// The macOS hands-free default: Control + Space toggled.
pub open spec fn is_default_hands_free(s: ShortcutSettings) -> bool {
    shortcut_is(
        s,
        "Control + Space"@,
        ShortcutMode::Toggle,
        seq![ShortcutModifier::Control],
        Some(ShortcutKey::Space),
        Some(seq![59u16, 49u16]),
        None,
        None,
    )
}

/// The Windows push-to-talk default: Right Ctrl held.
pub open spec fn is_default_windows_push_to_talk(s: ShortcutSettings) -> bool {
    shortcut_is(
        s,
        "Right Ctrl"@,
        ShortcutMode::Hold,
        seq![ShortcutModifier::Control],
        None,
        None,
        Some(seq![163u16]),
        None,
    )
}

/// The Windows hands-free default: Left Ctrl + Space toggled.
pub open spec fn is_default_windows_hands_free(s: ShortcutSettings) -> bool {
    shortcut_is(
        s,
        "Left Ctrl + Space"@,
        ShortcutMode::Toggle,
        seq![ShortcutModifier::Control],
        Some(ShortcutKey::Space),
        None,
        Some(seq![162u16, 32u16]),
        None,
    )
}

/// The Linux push-to-talk default: F9 held.
pub open spec fn is_default_linux_push_to_talk(s: ShortcutSettings) -> bool {
    shortcut_is(
        s,
        "F9"@,
        ShortcutMode::Hold,
        Seq::empty(),
        Some(ShortcutKey::Function(9)),
        None,
        None,
        Some(seq![0xffc6u32]),
    )
}

/// The Linux hands-free default: Ctrl + Space toggled.
pub open spec fn is_default_linux_hands_free(s: ShortcutSettings) -> bool {
    shortcut_is(
        s,
        "Ctrl + Space"@,
        ShortcutMode::Toggle,
        seq![ShortcutModifier::Control],
        Some(ShortcutKey::Space),
        None,
        None,
        Some(seq![0xffe3u32, 0x20u32]),
    )
}

pub fn default_push_to_talk_shortcut() -> (r: ShortcutSettings)
    ensures
        is_default_push_to_talk(r),
{
    let m = vec![ShortcutModifier::Fn];
    assert(m@ == seq![ShortcutModifier::Fn]);
    let k = vec![63u16];
    assert(k@ == seq![63u16]);
    let name = String::from_str("Fn");
    assert(name@ == "Fn"@);
    ShortcutSettings {
        display_name: name,
        mode: ShortcutMode::Hold,
        enabled: true,
        double_tap_toggle: false,
        chord: Some(ShortcutChord { modifiers: m, key: None }),
        platform_codes: ShortcutPlatformCodes {
            macos_key_codes: Some(k),
            windows_virtual_keys: None,
            linux_key_codes: None,
        },
    }
}

pub fn default_hands_free_shortcut() -> (r: ShortcutSettings)
    ensures
        is_default_hands_free(r),
{
    let m: Vec<ShortcutModifier> = vec![ShortcutModifier::Control];
    assert(m@ =~= seq![ShortcutModifier::Control]);
    let mac = vec![59u16, 49u16];
    assert(mac@ =~= seq![59u16, 49u16]);
    let name = String::from_str("Control + Space");
    ShortcutSettings {
        display_name: name,
        mode: ShortcutMode::Toggle,
        enabled: true,
        double_tap_toggle: false,
        chord: Some(ShortcutChord { modifiers: m, key: Some(ShortcutKey::Space) }),
        platform_codes: ShortcutPlatformCodes {
            macos_key_codes: Some(mac),
            windows_virtual_keys: None,
            linux_key_codes: None,
        },
    }
}

pub fn default_windows_push_to_talk_shortcut() -> (r: ShortcutSettings)
    ensures
        is_default_windows_push_to_talk(r),
{
    let m: Vec<ShortcutModifier> = vec![ShortcutModifier::Control];
    assert(m@ =~= seq![ShortcutModifier::Control]);
    let win = vec![163u16];
    assert(win@ =~= seq![163u16]);
    let name = String::from_str("Right Ctrl");
    ShortcutSettings {
        display_name: name,
        mode: ShortcutMode::Hold,
        enabled: true,
        double_tap_toggle: false,
        chord: Some(ShortcutChord { modifiers: m, key: None }),
        platform_codes: ShortcutPlatformCodes {
            macos_key_codes: None,
            windows_virtual_keys: Some(win),
            linux_key_codes: None,
        },
    }
}

pub fn default_windows_hands_free_shortcut() -> (r: ShortcutSettings)
    ensures
        is_default_windows_hands_free(r),
{
    let m: Vec<ShortcutModifier> = vec![ShortcutModifier::Control];
    assert(m@ =~= seq![ShortcutModifier::Control]);
    let win = vec![162u16, 32u16];
    assert(win@ =~= seq![162u16, 32u16]);
    let name = String::from_str("Left Ctrl + Space");
    ShortcutSettings {
        display_name: name,
        mode: ShortcutMode::Toggle,
        enabled: true,
        double_tap_toggle: false,
        chord: Some(ShortcutChord { modifiers: m, key: Some(ShortcutKey::Space) }),
        platform_codes: ShortcutPlatformCodes {
            macos_key_codes: None,
            windows_virtual_keys: Some(win),
            linux_key_codes: None,
        },
    }
}

pub fn default_linux_push_to_talk_shortcut() -> (r: ShortcutSettings)
    ensures
        is_default_linux_push_to_talk(r),
{
    let m: Vec<ShortcutModifier> = Vec::new();
    assert(m@ =~= Seq::empty());
    let lin = vec![0xffc6u32];
    assert(lin@ =~= seq![0xffc6u32]);
    let name = String::from_str("F9");
    ShortcutSettings {
        display_name: name,
        mode: ShortcutMode::Hold,
        enabled: true,
        double_tap_toggle: false,
        chord: Some(ShortcutChord { modifiers: m, key: Some(ShortcutKey::Function(9)) }),
        platform_codes: ShortcutPlatformCodes {
            macos_key_codes: None,
            windows_virtual_keys: None,
            linux_key_codes: Some(lin),
        },
    }
}

pub fn default_linux_hands_free_shortcut() -> (r: ShortcutSettings)
    ensures
        is_default_linux_hands_free(r),
{
    let m: Vec<ShortcutModifier> = vec![ShortcutModifier::Control];
    assert(m@ =~= seq![ShortcutModifier::Control]);
    let lin = vec![0xffe3u32, 0x20u32];
    assert(lin@ =~= seq![0xffe3u32, 0x20u32]);
    let name = String::from_str("Ctrl + Space");
    ShortcutSettings {
        display_name: name,
        mode: ShortcutMode::Toggle,
        enabled: true,
        double_tap_toggle: false,
        chord: Some(ShortcutChord { modifiers: m, key: Some(ShortcutKey::Space) }),
        platform_codes: ShortcutPlatformCodes {
            macos_key_codes: None,
            windows_virtual_keys: None,
            linux_key_codes: Some(lin),
        },
    }
}

pub fn default_cleanup_model_id() -> (r: String)
    ensures
        r@ == DEFAULT_CLEANUP_MODEL_ID@,
{
    String::from_str(DEFAULT_CLEANUP_MODEL_ID)
}


#[derive(Debug, Clone, PartialEq, Eq)]
pub struct AppSettings {
    pub selected_input_uid: Option<String>,
    pub push_to_talk_shortcut: ShortcutSettings,
    pub hands_free_shortcut: ShortcutSettings,
    pub dictation_language_mode: DictationLanguageMode,
    pub dictation_language_code: Option<String>,
    pub cleanup_model_id: String,
    pub cleanup_enabled: bool,
    pub cleanup_prompt: String,
    pub dictionary_entries: Vec<DictionaryEntry>,
    pub play_sounds: bool,
    pub paste_into_recording_start_window: bool,
    pub history_enabled: bool,
    pub launch_at_login: bool,
    pub onboarding_completed: bool,
    pub input_monitoring_permission_shown_in_onboarding: bool,
}

/// The settings a new installation starts with.
pub open spec fn is_default_app_settings(s: AppSettings) -> bool {
    &&& s.selected_input_uid is None
    &&& is_default_push_to_talk(s.push_to_talk_shortcut)
    &&& is_default_hands_free(s.hands_free_shortcut)
    &&& s.dictation_language_mode == DictationLanguageMode::English
    &&& s.dictation_language_code is None
    &&& s.cleanup_model_id@ == DEFAULT_CLEANUP_MODEL_ID@
    &&& s.cleanup_enabled
    &&& s.cleanup_prompt@ == Seq::<char>::empty()
    &&& s.dictionary_entries@.len() == 0
    &&& s.play_sounds
    &&& !s.paste_into_recording_start_window
    &&& !s.history_enabled
    &&& !s.launch_at_login
    &&& !s.onboarding_completed
    &&& !s.input_monitoring_permission_shown_in_onboarding
}

impl Default for AppSettings {
    fn default() -> (r: AppSettings)
        ensures
            is_default_app_settings(r),
    {
        AppSettings {
            selected_input_uid: None,
            push_to_talk_shortcut: default_push_to_talk_shortcut(),
            hands_free_shortcut: default_hands_free_shortcut(),
            dictation_language_mode: DictationLanguageMode::English,
            dictation_language_code: None,
            cleanup_model_id: default_cleanup_model_id(),
            cleanup_enabled: true,
            cleanup_prompt: String::new(),
            dictionary_entries: Vec::new(),
            play_sounds: true,
            paste_into_recording_start_window: false,
            history_enabled: false,
            launch_at_login: false,
            onboarding_completed: false,
            input_monitoring_permission_shown_in_onboarding: false,
        }
    }
}

#[derive(Debug, Clone, Copy, PartialEq, Eq, Structural)]
pub enum PermissionState {
    Granted,
    Denied,
    NotDetermined,
    Unknown,
}

#[derive(Debug, Clone, Copy, PartialEq, Eq, Structural)]
pub enum PermissionKind {
    Microphone,
    Accessibility,
    InputMonitoring,
    GlobalShortcut,
    Paste,
    FocusedTextContext,
}

/// Which Linux shortcut backend a snapshot reports.
#[derive(Debug, Clone, Copy, PartialEq, Eq, Structural)]
pub enum LinuxHotkeyBackendKind {
    X11,
    Compositor,
    Portal,
    Evdev,
    NeedsSetup,
    Unsupported,
}

#[derive(Debug, Clone, PartialEq, Eq)]
pub struct PermissionRequirement {
    pub kind: PermissionKind,
    pub title: String,
    pub description: String,
    pub state: PermissionState,
    pub required: bool,
    pub requestable: bool,
    pub opens_settings: bool,
}

#[derive(Debug, Clone, PartialEq, Eq)]
pub struct PermissionSnapshot {
    pub requirements: Vec<PermissionRequirement>,
    pub all_required_granted: bool,
    pub microphone: Option<PermissionState>,
    pub accessibility: Option<PermissionState>,
    pub input_monitoring: Option<PermissionState>,
    pub all_granted: Option<bool>,
    pub linux_hotkey_backend: Option<LinuxHotkeyBackendKind>,
}

/// Every requirement marked required is granted.
pub open spec fn all_required_granted_spec(reqs: Seq<PermissionRequirement>) -> bool {
    forall|i: int| 0 <= i < reqs.len() && #[trigger] reqs[i].required ==> reqs[i].state
        == PermissionState::Granted
}

pub fn required_all_granted(reqs: &Vec<PermissionRequirement>) -> (r: bool)
    ensures
        r == all_required_granted_spec(reqs@),
{
    let mut i: usize = 0;
    while i < reqs.len()
        invariant
            i <= reqs.len(),
            forall|k: int| 0 <= k < i && #[trigger] reqs@[k].required ==> reqs@[k].state
                == PermissionState::Granted,
        decreases reqs.len() - i,
    {
        if reqs[i].required && reqs[i].state != PermissionState::Granted {
            assert(reqs@[i as int].required);
            return false;
        }
        i = i + 1;
    }
    true
}

pub open spec fn state_or_unknown(s: Option<PermissionState>) -> PermissionState {
    match s {
        Some(x) => x,
        None => PermissionState::Unknown,
    }
}

/// The macOS readiness test: microphone and accessibility granted.
pub open spec fn macos_ready(s: PermissionSnapshot) -> bool {
    s.microphone == Some(PermissionState::Granted) && s.accessibility == Some(
        PermissionState::Granted,
    )
}

pub open spec fn requirement_is(
    r: PermissionRequirement,
    kind: PermissionKind,
    title: Seq<char>,
    state: PermissionState,
    required: bool,
    requestable: bool,
    opens_settings: bool,
) -> bool {
    &&& r.kind == kind
    &&& r.title@ == title
    &&& r.state == state
    &&& r.required == required
    &&& r.requestable == requestable
    &&& r.opens_settings == opens_settings
}

/// The requirements a macOS snapshot lists when it lists none itself.
pub open spec fn macos_requirements_for(s: PermissionSnapshot, reqs: Seq<PermissionRequirement>) -> bool {
    let monitored = match s.input_monitoring {
        Some(PermissionState::Granted) => true,
        Some(PermissionState::Denied) => true,
        Some(PermissionState::NotDetermined) => true,
        _ => false,
    };
    &&& reqs.len() == if monitored { 3int } else { 2int }
    &&& requirement_is(reqs[0], PermissionKind::Microphone, "Microphone"@, state_or_unknown(s.microphone), true, true, true)
    &&& requirement_is(reqs[1], PermissionKind::Accessibility, "Accessibility"@, state_or_unknown(s.accessibility), true, true, true)
    &&& monitored ==> requirement_is(reqs[2], PermissionKind::InputMonitoring, "Input Monitoring"@, state_or_unknown(s.input_monitoring), false, true, true)
}

fn requirement(
    kind: PermissionKind,
    title: &str,
    description: &str,
    state: PermissionState,
    required: bool,
    requestable: bool,
    opens_settings: bool,
) -> (r: PermissionRequirement)
    ensures
        requirement_is(r, kind, title@, state, required, requestable, opens_settings),
        r.description@ == description@,
{
    PermissionRequirement {
        kind,
        title: String::from_str(title),
        description: String::from_str(description),
        state,
        required,
        requestable,
        opens_settings,
    }
}

fn unwrap_state(s: Option<PermissionState>) -> (r: PermissionState)
    ensures
        r == state_or_unknown(s),
{
    match s {
        Some(x) => x,
        None => PermissionState::Unknown,
    }
}

impl PermissionSnapshot {
    pub fn macos_compat_ready(&self) -> (r: bool)
        ensures
            r == macos_ready(*self),
    {
        self.microphone == Some(PermissionState::Granted) && self.accessibility == Some(
            PermissionState::Granted,
        )
    }

    /// Fills in the macOS requirements when the snapshot lists none, and
    /// recomputes the readiness flags from the requirements.
    pub fn ensure_macos_compat_requirements(&mut self)
        ensures
            old(self).requirements@.len() == 0 ==> macos_requirements_for(*old(self), final(self).requirements@),
            old(self).requirements@.len() != 0 ==> final(self).requirements@ == old(self).requirements@,
            final(self).all_required_granted == all_required_granted_spec(final(self).requirements@),
            final(self).all_granted == Some(macos_ready(*old(self))),
            final(self).microphone == old(self).microphone,
            final(self).accessibility == old(self).accessibility,
            final(self).input_monitoring == old(self).input_monitoring,
            final(self).linux_hotkey_backend == old(self).linux_hotkey_backend,
    {
        if self.requirements.len() == 0 {
            let mut reqs: Vec<PermissionRequirement> = Vec::new();
            reqs.push(requirement(
                PermissionKind::Microphone,
                "Microphone",
                "Record your voice locally for dictation.",
                unwrap_state(self.microphone),
                true,
                true,
                true,
            ));
            reqs.push(requirement(
                PermissionKind::Accessibility,
                "Accessibility",
                "Consume the Parrot shortcut event and paste the finished text.",
                unwrap_state(self.accessibility),
                true,
                true,
                true,
            ));
            match self.input_monitoring {
                Some(m) => {
                    if m == PermissionState::Granted || m == PermissionState::Denied || m
                        == PermissionState::NotDetermined {
                        reqs.push(requirement(
                            PermissionKind::InputMonitoring,
                            "Input Monitoring",
                            "Some Macs require this so Parrot Core can listen for your shortcut while you use other apps.",
                            m,
                            false,
                            true,
                            true,
                        ));
                    }
                },
                None => {},
            }
            self.requirements = reqs;
        }
        self.all_required_granted = required_all_granted(&self.requirements);
        self.all_granted = Some(self.macos_compat_ready());
    }
}

impl Default for PermissionSnapshot {
    fn default() -> (r: PermissionSnapshot)
        ensures
            r.requirements@.len() == 0,
            !r.all_required_granted,
            r.microphone == Some(PermissionState::Unknown),
            r.accessibility == Some(PermissionState::Unknown),
            r.input_monitoring == Some(PermissionState::Unknown),
            r.all_granted == Some(false),
            r.linux_hotkey_backend is None,
    {
        PermissionSnapshot {
            requirements: Vec::new(),
            all_required_granted: false,
            microphone: Some(PermissionState::Unknown),
            accessibility: Some(PermissionState::Unknown),
            input_monitoring: Some(PermissionState::Unknown),
            all_granted: Some(false),
            linux_hotkey_backend: None,
        }
    }
}

#[derive(Debug, Clone, PartialEq, Eq)]
pub struct AudioDevice {
    pub uid: String,
    pub name: String,
    pub is_default: bool,
}

#[derive(Debug, Clone, Copy, PartialEq, Eq, Structural)]
pub enum ModelRole {
    Speech,
    Cleanup,
}

#[derive(Debug, Clone, PartialEq, Eq)]
pub struct ModelStatus {
    pub id: String,
    pub role: ModelRole,
    pub display_name: String,
    pub subtitle: String,
    pub expected_bytes: i64,
    pub local_bytes: i64,
    pub progress_bytes: i64,
    pub progress_total_bytes: i64,
    pub downloaded: bool,
    pub downloading: bool,
    pub required: bool,
    pub error: Option<String>,
}

#[derive(Debug, Clone, PartialEq, Eq)]
pub struct NativeCorePaths {
    pub app_data_dir: String,
    pub models_dir: String,
    pub speech_models_dir: String,
    pub cleanup_models_dir: String,
    pub resources_dir: String,
    pub shared_resources_dir: String,
    pub temp_dir: String,
}

#[derive(Debug, Clone, Copy, PartialEq, Eq, Hash, Structural)]
pub enum NativeCoreMethod {
    Initialize,
    PermissionStatuses,
    RequestPermission,
    UpdateSettings,
    WarmModels,
    ModelStatuses,
    DownloadModel,
    DeleteModel,
    ListAudioDevices,
    StartRecording,
    StopRecording,
    StartHotkeyMonitor,
    StopHotkeyMonitor,
    CaptureShortcut,
    StartHotkeyRecording,
    StopHotkeyRecording,
    ToggleHotkeyRecording,
    CancelHotkeyRecording,
}

/// The wire name of each method.
pub open spec fn method_wire_name(m: NativeCoreMethod) -> Seq<char> {
    match m {
        NativeCoreMethod::Initialize => "initialize"@,
        NativeCoreMethod::PermissionStatuses => "permissionStatuses"@,
        NativeCoreMethod::RequestPermission => "requestPermission"@,
        NativeCoreMethod::UpdateSettings => "updateSettings"@,
        NativeCoreMethod::WarmModels => "warmModels"@,
        NativeCoreMethod::ModelStatuses => "modelStatuses"@,
        NativeCoreMethod::DownloadModel => "downloadModel"@,
        NativeCoreMethod::DeleteModel => "deleteModel"@,
        NativeCoreMethod::ListAudioDevices => "listAudioDevices"@,
        NativeCoreMethod::StartRecording => "startRecording"@,
        NativeCoreMethod::StopRecording => "stopRecording"@,
        NativeCoreMethod::StartHotkeyMonitor => "startHotkeyMonitor"@,
        NativeCoreMethod::StopHotkeyMonitor => "stopHotkeyMonitor"@,
        NativeCoreMethod::CaptureShortcut => "captureShortcut"@,
        NativeCoreMethod::StartHotkeyRecording => "startHotkeyRecording"@,
        NativeCoreMethod::StopHotkeyRecording => "stopHotkeyRecording"@,
        NativeCoreMethod::ToggleHotkeyRecording => "toggleHotkeyRecording"@,
        NativeCoreMethod::CancelHotkeyRecording => "cancelHotkeyRecording"@,
    }
}

impl NativeCoreMethod {
    pub fn as_str(self) -> (r: &'static str)
        ensures
            r@ == method_wire_name(self),
    {
        match self {
            NativeCoreMethod::Initialize => "initialize",
            NativeCoreMethod::PermissionStatuses => "permissionStatuses",
            NativeCoreMethod::RequestPermission => "requestPermission",
            NativeCoreMethod::UpdateSettings => "updateSettings",
            NativeCoreMethod::WarmModels => "warmModels",
            NativeCoreMethod::ModelStatuses => "modelStatuses",
            NativeCoreMethod::DownloadModel => "downloadModel",
            NativeCoreMethod::DeleteModel => "deleteModel",
            NativeCoreMethod::ListAudioDevices => "listAudioDevices",
            NativeCoreMethod::StartRecording => "startRecording",
            NativeCoreMethod::StopRecording => "stopRecording",
            NativeCoreMethod::StartHotkeyMonitor => "startHotkeyMonitor",
            NativeCoreMethod::StopHotkeyMonitor => "stopHotkeyMonitor",
            NativeCoreMethod::CaptureShortcut => "captureShortcut",
            NativeCoreMethod::StartHotkeyRecording => "startHotkeyRecording",
            NativeCoreMethod::StopHotkeyRecording => "stopHotkeyRecording",
            NativeCoreMethod::ToggleHotkeyRecording => "toggleHotkeyRecording",
            NativeCoreMethod::CancelHotkeyRecording => "cancelHotkeyRecording",
        }
    }
}

/// The method a wire name stands for, if any.
pub open spec fn method_for_wire_name(name: Seq<char>) -> Option<NativeCoreMethod> {
    if name == "initialize"@ {
        Some(NativeCoreMethod::Initialize)
    } else if name == "permissionStatuses"@ {
        Some(NativeCoreMethod::PermissionStatuses)
    } else if name == "requestPermission"@ {
        Some(NativeCoreMethod::RequestPermission)
    } else if name == "updateSettings"@ {
        Some(NativeCoreMethod::UpdateSettings)
    } else if name == "warmModels"@ {
        Some(NativeCoreMethod::WarmModels)
    } else if name == "modelStatuses"@ {
        Some(NativeCoreMethod::ModelStatuses)
    } else if name == "downloadModel"@ {
        Some(NativeCoreMethod::DownloadModel)
    } else if name == "deleteModel"@ {
        Some(NativeCoreMethod::DeleteModel)
    } else if name == "listAudioDevices"@ {
        Some(NativeCoreMethod::ListAudioDevices)
    } else if name == "startRecording"@ {
        Some(NativeCoreMethod::StartRecording)
    } else if name == "stopRecording"@ {
        Some(NativeCoreMethod::StopRecording)
    } else if name == "startHotkeyMonitor"@ {
        Some(NativeCoreMethod::StartHotkeyMonitor)
    } else if name == "stopHotkeyMonitor"@ {
        Some(NativeCoreMethod::StopHotkeyMonitor)
    } else if name == "captureShortcut"@ {
        Some(NativeCoreMethod::CaptureShortcut)
    } else if name == "startHotkeyRecording"@ {
        Some(NativeCoreMethod::StartHotkeyRecording)
    } else if name == "stopHotkeyRecording"@ {
        Some(NativeCoreMethod::StopHotkeyRecording)
    } else if name == "toggleHotkeyRecording"@ {
        Some(NativeCoreMethod::ToggleHotkeyRecording)
    } else if name == "cancelHotkeyRecording"@ {
        Some(NativeCoreMethod::CancelHotkeyRecording)
    } else {
        None
    }
}

impl NativeCoreMethod {
    /// The method a request names; none for a name the protocol lacks.
    pub fn from_wire_name(name: &str) -> (r: Option<NativeCoreMethod>)
        ensures
            r == method_for_wire_name(name@),
    {
        if crate::text::str_eq(name, "initialize") {
            Some(NativeCoreMethod::Initialize)
        } else if crate::text::str_eq(name, "permissionStatuses") {
            Some(NativeCoreMethod::PermissionStatuses)
        } else if crate::text::str_eq(name, "requestPermission") {
            Some(NativeCoreMethod::RequestPermission)
        } else if crate::text::str_eq(name, "updateSettings") {
            Some(NativeCoreMethod::UpdateSettings)
        } else if crate::text::str_eq(name, "warmModels") {
            Some(NativeCoreMethod::WarmModels)
        } else if crate::text::str_eq(name, "modelStatuses") {
            Some(NativeCoreMethod::ModelStatuses)
        } else if crate::text::str_eq(name, "downloadModel") {
            Some(NativeCoreMethod::DownloadModel)
        } else if crate::text::str_eq(name, "deleteModel") {
            Some(NativeCoreMethod::DeleteModel)
        } else if crate::text::str_eq(name, "listAudioDevices") {
            Some(NativeCoreMethod::ListAudioDevices)
        } else if crate::text::str_eq(name, "startRecording") {
            Some(NativeCoreMethod::StartRecording)
        } else if crate::text::str_eq(name, "stopRecording") {
            Some(NativeCoreMethod::StopRecording)
        } else if crate::text::str_eq(name, "startHotkeyMonitor") {
            Some(NativeCoreMethod::StartHotkeyMonitor)
        } else if crate::text::str_eq(name, "stopHotkeyMonitor") {
            Some(NativeCoreMethod::StopHotkeyMonitor)
        } else if crate::text::str_eq(name, "captureShortcut") {
            Some(NativeCoreMethod::CaptureShortcut)
        } else if crate::text::str_eq(name, "startHotkeyRecording") {
            Some(NativeCoreMethod::StartHotkeyRecording)
        } else if crate::text::str_eq(name, "stopHotkeyRecording") {
            Some(NativeCoreMethod::StopHotkeyRecording)
        } else if crate::text::str_eq(name, "toggleHotkeyRecording") {
            Some(NativeCoreMethod::ToggleHotkeyRecording)
        } else if crate::text::str_eq(name, "cancelHotkeyRecording") {
            Some(NativeCoreMethod::CancelHotkeyRecording)
        } else {
            None
        }
    }
}

/// Every method's wire name reads back as that method: the names are
/// distinct, so a request always reaches the method it names.
pub proof fn law_wire_names_round_trip(m: NativeCoreMethod)
    ensures
        method_for_wire_name(method_wire_name(m)) == Some(m),
{
        reveal_strlit("initialize");
        reveal_strlit("permissionStatuses");
        reveal_strlit("requestPermission");
        reveal_strlit("updateSettings");
        reveal_strlit("warmModels");
        reveal_strlit("modelStatuses");
        reveal_strlit("downloadModel");
        reveal_strlit("deleteModel");
        reveal_strlit("listAudioDevices");
        reveal_strlit("startRecording");
        reveal_strlit("stopRecording");
        reveal_strlit("startHotkeyMonitor");
        reveal_strlit("stopHotkeyMonitor");
        reveal_strlit("captureShortcut");
        reveal_strlit("startHotkeyRecording");
        reveal_strlit("stopHotkeyRecording");
        reveal_strlit("toggleHotkeyRecording");
        reveal_strlit("cancelHotkeyRecording");
    match m {
        NativeCoreMethod::Initialize => {

        },
        NativeCoreMethod::PermissionStatuses => {
            assert("permissionStatuses"@[0] != "initialize"@[0]);
        },
        NativeCoreMethod::RequestPermission => {
            assert("requestPermission"@[0] != "initialize"@[0]);
            assert("requestPermission"@[0] != "permissionStatuses"@[0]);
        },
        NativeCoreMethod::UpdateSettings => {
            assert("updateSettings"@[0] != "initialize"@[0]);
            assert("updateSettings"@[0] != "permissionStatuses"@[0]);
            assert("updateSettings"@[0] != "requestPermission"@[0]);
        },
        NativeCoreMethod::WarmModels => {
            assert("warmModels"@[0] != "initialize"@[0]);
            assert("warmModels"@[0] != "permissionStatuses"@[0]);
            assert("warmModels"@[0] != "requestPermission"@[0]);
            assert("warmModels"@[0] != "updateSettings"@[0]);
        },
        NativeCoreMethod::ModelStatuses => {
            assert("modelStatuses"@[0] != "initialize"@[0]);
            assert("modelStatuses"@[0] != "permissionStatuses"@[0]);
            assert("modelStatuses"@[0] != "requestPermission"@[0]);
            assert("modelStatuses"@[0] != "updateSettings"@[0]);
            assert("modelStatuses"@[0] != "warmModels"@[0]);
        },
        NativeCoreMethod::DownloadModel => {
            assert("downloadModel"@[0] != "initialize"@[0]);
            assert("downloadModel"@[0] != "permissionStatuses"@[0]);
            assert("downloadModel"@[0] != "requestPermission"@[0]);
            assert("downloadModel"@[0] != "updateSettings"@[0]);
            assert("downloadModel"@[0] != "warmModels"@[0]);
            assert("downloadModel"@[0] != "modelStatuses"@[0]);
        },
        NativeCoreMethod::DeleteModel => {
            assert("deleteModel"@[0] != "initialize"@[0]);
            assert("deleteModel"@[0] != "permissionStatuses"@[0]);
            assert("deleteModel"@[0] != "requestPermission"@[0]);
            assert("deleteModel"@[0] != "updateSettings"@[0]);
            assert("deleteModel"@[0] != "warmModels"@[0]);
            assert("deleteModel"@[0] != "modelStatuses"@[0]);
            assert("deleteModel"@[1] != "downloadModel"@[1]);
        },
        NativeCoreMethod::ListAudioDevices => {
            assert("listAudioDevices"@[0] != "initialize"@[0]);
            assert("listAudioDevices"@[0] != "permissionStatuses"@[0]);
            assert("listAudioDevices"@[0] != "requestPermission"@[0]);
            assert("listAudioDevices"@[0] != "updateSettings"@[0]);
            assert("listAudioDevices"@[0] != "warmModels"@[0]);
            assert("listAudioDevices"@[0] != "modelStatuses"@[0]);
            assert("listAudioDevices"@[0] != "downloadModel"@[0]);
            assert("listAudioDevices"@[0] != "deleteModel"@[0]);
        },
        NativeCoreMethod::StartRecording => {
            assert("startRecording"@[0] != "initialize"@[0]);
            assert("startRecording"@[0] != "permissionStatuses"@[0]);
            assert("startRecording"@[0] != "requestPermission"@[0]);
            assert("startRecording"@[0] != "updateSettings"@[0]);
            assert("startRecording"@[0] != "warmModels"@[0]);
            assert("startRecording"@[0] != "modelStatuses"@[0]);
            assert("startRecording"@[0] != "downloadModel"@[0]);
            assert("startRecording"@[0] != "deleteModel"@[0]);
            assert("startRecording"@[0] != "listAudioDevices"@[0]);
        },
        NativeCoreMethod::StopRecording => {
            assert("stopRecording"@[0] != "initialize"@[0]);
            assert("stopRecording"@[0] != "permissionStatuses"@[0]);
            assert("stopRecording"@[0] != "requestPermission"@[0]);
            assert("stopRecording"@[0] != "updateSettings"@[0]);
            assert("stopRecording"@[0] != "warmModels"@[0]);
            assert("stopRecording"@[0] != "modelStatuses"@[0]);
            assert("stopRecording"@[0] != "downloadModel"@[0]);
            assert("stopRecording"@[0] != "deleteModel"@[0]);
            assert("stopRecording"@[0] != "listAudioDevices"@[0]);
            assert("stopRecording"@[2] != "startRecording"@[2]);
        },
        NativeCoreMethod::StartHotkeyMonitor => {
            assert("startHotkeyMonitor"@[0] != "initialize"@[0]);
            assert("startHotkeyMonitor"@[0] != "permissionStatuses"@[0]);
            assert("startHotkeyMonitor"@[0] != "requestPermission"@[0]);
            assert("startHotkeyMonitor"@[0] != "updateSettings"@[0]);
            assert("startHotkeyMonitor"@[0] != "warmModels"@[0]);
            assert("startHotkeyMonitor"@[0] != "modelStatuses"@[0]);
            assert("startHotkeyMonitor"@[0] != "downloadModel"@[0]);
            assert("startHotkeyMonitor"@[0] != "deleteModel"@[0]);
            assert("startHotkeyMonitor"@[0] != "listAudioDevices"@[0]);
            assert("startHotkeyMonitor"@[5] != "startRecording"@[5]);
            assert("startHotkeyMonitor"@[2] != "stopRecording"@[2]);
        },
        NativeCoreMethod::StopHotkeyMonitor => {
            assert("stopHotkeyMonitor"@[0] != "initialize"@[0]);
            assert("stopHotkeyMonitor"@[0] != "permissionStatuses"@[0]);
            assert("stopHotkeyMonitor"@[0] != "requestPermission"@[0]);
            assert("stopHotkeyMonitor"@[0] != "updateSettings"@[0]);
            assert("stopHotkeyMonitor"@[0] != "warmModels"@[0]);
            assert("stopHotkeyMonitor"@[0] != "modelStatuses"@[0]);
            assert("stopHotkeyMonitor"@[0] != "downloadModel"@[0]);
            assert("stopHotkeyMonitor"@[0] != "deleteModel"@[0]);
            assert("stopHotkeyMonitor"@[0] != "listAudioDevices"@[0]);
            assert("stopHotkeyMonitor"@[2] != "startRecording"@[2]);
            assert("stopHotkeyMonitor"@[4] != "stopRecording"@[4]);
            assert("stopHotkeyMonitor"@[2] != "startHotkeyMonitor"@[2]);
        },
        NativeCoreMethod::CaptureShortcut => {
            assert("captureShortcut"@[0] != "initialize"@[0]);
            assert("captureShortcut"@[0] != "permissionStatuses"@[0]);
            assert("captureShortcut"@[0] != "requestPermission"@[0]);
            assert("captureShortcut"@[0] != "updateSettings"@[0]);
            assert("captureShortcut"@[0] != "warmModels"@[0]);
            assert("captureShortcut"@[0] != "modelStatuses"@[0]);
            assert("captureShortcut"@[0] != "downloadModel"@[0]);
            assert("captureShortcut"@[0] != "deleteModel"@[0]);
            assert("captureShortcut"@[0] != "listAudioDevices"@[0]);
            assert("captureShortcut"@[0] != "startRecording"@[0]);
            assert("captureShortcut"@[0] != "stopRecording"@[0]);
            assert("captureShortcut"@[0] != "startHotkeyMonitor"@[0]);
            assert("captureShortcut"@[0] != "stopHotkeyMonitor"@[0]);
        },
        NativeCoreMethod::StartHotkeyRecording => {
            assert("startHotkeyRecording"@[0] != "initialize"@[0]);
            assert("startHotkeyRecording"@[0] != "permissionStatuses"@[0]);
            assert("startHotkeyRecording"@[0] != "requestPermission"@[0]);
            assert("startHotkeyRecording"@[0] != "updateSettings"@[0]);
            assert("startHotkeyRecording"@[0] != "warmModels"@[0]);
            assert("startHotkeyRecording"@[0] != "modelStatuses"@[0]);
            assert("startHotkeyRecording"@[0] != "downloadModel"@[0]);
            assert("startHotkeyRecording"@[0] != "deleteModel"@[0]);
            assert("startHotkeyRecording"@[0] != "listAudioDevices"@[0]);
            assert("startHotkeyRecording"@[5] != "startRecording"@[5]);
            assert("startHotkeyRecording"@[2] != "stopRecording"@[2]);
            assert("startHotkeyRecording"@[11] != "startHotkeyMonitor"@[11]);
            assert("startHotkeyRecording"@[2] != "stopHotkeyMonitor"@[2]);
            assert("startHotkeyRecording"@[0] != "captureShortcut"@[0]);
        },
        NativeCoreMethod::StopHotkeyRecording => {
            assert("stopHotkeyRecording"@[0] != "initialize"@[0]);
            assert("stopHotkeyRecording"@[0] != "permissionStatuses"@[0]);
            assert("stopHotkeyRecording"@[0] != "requestPermission"@[0]);
            assert("stopHotkeyRecording"@[0] != "updateSettings"@[0]);
            assert("stopHotkeyRecording"@[0] != "warmModels"@[0]);
            assert("stopHotkeyRecording"@[0] != "modelStatuses"@[0]);
            assert("stopHotkeyRecording"@[0] != "downloadModel"@[0]);
            assert("stopHotkeyRecording"@[0] != "deleteModel"@[0]);
            assert("stopHotkeyRecording"@[0] != "listAudioDevices"@[0]);
            assert("stopHotkeyRecording"@[2] != "startRecording"@[2]);
            assert("stopHotkeyRecording"@[4] != "stopRecording"@[4]);
            assert("stopHotkeyRecording"@[2] != "startHotkeyMonitor"@[2]);
            assert("stopHotkeyRecording"@[10] != "stopHotkeyMonitor"@[10]);
            assert("stopHotkeyRecording"@[0] != "captureShortcut"@[0]);
            assert("stopHotkeyRecording"@[2] != "startHotkeyRecording"@[2]);
        },
        NativeCoreMethod::ToggleHotkeyRecording => {
            assert("toggleHotkeyRecording"@[0] != "initialize"@[0]);
            assert("toggleHotkeyRecording"@[0] != "permissionStatuses"@[0]);
            assert("toggleHotkeyRecording"@[0] != "requestPermission"@[0]);
            assert("toggleHotkeyRecording"@[0] != "updateSettings"@[0]);
            assert("toggleHotkeyRecording"@[0] != "warmModels"@[0]);
            assert("toggleHotkeyRecording"@[0] != "modelStatuses"@[0]);
            assert("toggleHotkeyRecording"@[0] != "downloadModel"@[0]);
            assert("toggleHotkeyRecording"@[0] != "deleteModel"@[0]);
            assert("toggleHotkeyRecording"@[0] != "listAudioDevices"@[0]);
            assert("toggleHotkeyRecording"@[0] != "startRecording"@[0]);
            assert("toggleHotkeyRecording"@[0] != "stopRecording"@[0]);
            assert("toggleHotkeyRecording"@[0] != "startHotkeyMonitor"@[0]);
            assert("toggleHotkeyRecording"@[0] != "stopHotkeyMonitor"@[0]);
            assert("toggleHotkeyRecording"@[0] != "captureShortcut"@[0]);
            assert("toggleHotkeyRecording"@[0] != "startHotkeyRecording"@[0]);
            assert("toggleHotkeyRecording"@[0] != "stopHotkeyRecording"@[0]);
        },
        NativeCoreMethod::CancelHotkeyRecording => {
            assert("cancelHotkeyRecording"@[0] != "initialize"@[0]);
            assert("cancelHotkeyRecording"@[0] != "permissionStatuses"@[0]);
            assert("cancelHotkeyRecording"@[0] != "requestPermission"@[0]);
            assert("cancelHotkeyRecording"@[0] != "updateSettings"@[0]);
            assert("cancelHotkeyRecording"@[0] != "warmModels"@[0]);
            assert("cancelHotkeyRecording"@[0] != "modelStatuses"@[0]);
            assert("cancelHotkeyRecording"@[0] != "downloadModel"@[0]);
            assert("cancelHotkeyRecording"@[0] != "deleteModel"@[0]);
            assert("cancelHotkeyRecording"@[0] != "listAudioDevices"@[0]);
            assert("cancelHotkeyRecording"@[0] != "startRecording"@[0]);
            assert("cancelHotkeyRecording"@[0] != "stopRecording"@[0]);
            assert("cancelHotkeyRecording"@[0] != "startHotkeyMonitor"@[0]);
            assert("cancelHotkeyRecording"@[0] != "stopHotkeyMonitor"@[0]);
            assert("cancelHotkeyRecording"@[2] != "captureShortcut"@[2]);
            assert("cancelHotkeyRecording"@[0] != "startHotkeyRecording"@[0]);
            assert("cancelHotkeyRecording"@[0] != "stopHotkeyRecording"@[0]);
            assert("cancelHotkeyRecording"@[0] != "toggleHotkeyRecording"@[0]);
        },
    }
}

#[derive(Debug, Clone, Copy, PartialEq, Eq, Hash, Structural)]
pub enum SoundEvent {
    RecordingStart,
    RecordingSuccess,
    RecordingCancel,
    RecordingError,
}


pub const NATIVE_CORE_EVENT_RECORDING_STARTED: &'static str = "parrot:recording-started";
pub const NATIVE_CORE_EVENT_RECORDING_PROCESSING: &'static str = "parrot:recording-processing";
pub const NATIVE_CORE_EVENT_RECORDING_FINISHED: &'static str = "parrot:recording-finished";
pub const NATIVE_CORE_EVENT_RECORDING_FAILED: &'static str = "parrot:recording-failed";
pub const NATIVE_CORE_EVENT_RECORDING_CANCELLED: &'static str = "parrot:recording-cancelled";
pub const NATIVE_CORE_EVENT_HOTKEY_MONITOR_FAILED: &'static str = "parrot:hotkey-monitor-failed";

} // verus!
