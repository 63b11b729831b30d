use vstd::prelude::*;
use crate::protocol::{codes, ShortcutMode, ShortcutSettings};
use crate::sorting::{lemma_sorted_dedup_unique, ord_injective, sort_dedup_by_ord, sorted_dedup_by};
use super::keys::{
    is_modifier_key, is_modifier_key_spec, linux_key_rank, linux_key_sort_key, linux_keys_overlap,
    normalize_configured_key, normalize_key, XK_ESCAPE,
};

verus! {

/// The configured key codes, normalized, without zeros.
pub open spec fn nonzero_normalized(s: Seq<u32>) -> Seq<u32>
    decreases s.len(),
{
    if s.len() == 0 {
        Seq::empty()
    } else {
        let rest = nonzero_normalized(s.drop_last());
        let k = normalize_key(s.last());
        if k != 0 {
            rest.push(k)
        } else {
            rest
        }
    }
}

/// The order of required keys: Ctrl, Alt, Shift, Meta, then the rest, each by code.
pub open spec fn linux_key_ord(k: u32) -> u64 {
    (linux_key_rank(k) * 4294967296 + k) as u64
}

pub open spec fn configured_keys(s: ShortcutSettings) -> Seq<u32> {
    nonzero_normalized(codes(s.platform_codes.linux_key_codes))
}

/// The shortcut names at least one key.
pub open spec fn has_required_keys(s: ShortcutSettings) -> bool {
    configured_keys(s).len() > 0
}

/// `keys` holds the keys of `raw`, each once, in key order.
pub open spec fn in_key_order(keys: Seq<u32>, raw: Seq<u32>) -> bool {
    sorted_dedup_by(keys, raw, |x: u32| linux_key_ord(x))
}

/// The keys a shortcut requires: its configured keys, each once, in key order.
pub open spec fn required_keys_spec(s: ShortcutSettings) -> Seq<u32> {
    choose|k: Seq<u32>| #[trigger] in_key_order(k, configured_keys(s))
}

pub fn shortcut_required_keys(shortcut: &ShortcutSettings) -> (r: Option<Vec<u32>>)
    ensures
        r is Some <==> has_required_keys(*shortcut),
        r matches Some(keys) ==> keys@ == required_keys_spec(*shortcut) && in_key_order(keys@, configured_keys(*shortcut)),
{
    let codes = shortcut.linux_key_codes();
    let mut keys: Vec<u32> = Vec::new();
    let mut ords: Vec<u64> = Vec::new();
    let mut i: usize = 0;
    while i < codes.len()
        invariant
            i <= codes@.len(),
            keys@ == nonzero_normalized(codes@.take(i as int)),
            ords@.len() == keys@.len(),
            forall|j: int| 0 <= j < keys@.len() ==> ords@[j] == linux_key_ord(#[trigger] keys@[j]),
        decreases codes.len() - i,
    {
        let k = normalize_configured_key(codes[i]);
        assert(codes@.take(i + 1).drop_last() =~= codes@.take(i as int));
        if k != 0 {
            let (rank, _) = linux_key_sort_key(k);
            keys.push(k);
            ords.push(rank as u64 * 4294967296 + k as u64);
        }
        i = i + 1;
    }
    assert(codes@.take(codes@.len() as int) =~= codes@);
    if keys.len() == 0 {
        return None;
    }
    let ghost ord = |x: u32| linux_key_ord(x);
    assert(ord_injective(ord)) by {
        assert forall|a: u32, b: u32| #[trigger] ord(a) == #[trigger] ord(b) implies a == b by {}
    }
    let sorted = sort_dedup_by_ord(&keys, &ords, Ghost(ord));
    proof {
        assert(in_key_order(sorted@, configured_keys(*shortcut)));
        let c = required_keys_spec(*shortcut);
        assert(sorted_dedup_by(c, configured_keys(*shortcut), ord));
        lemma_sorted_dedup_unique(sorted@, c, keys@, ord);
    }
    Some(sorted)
}

pub const MISSING_KEYS_MESSAGE: &'static str = "Shortcut is missing Linux key codes.";
pub const INVALID_KEY_MESSAGE: &'static str = "Shortcut contains an invalid Linux key code.";
pub const ESCAPE_RESERVED_MESSAGE: &'static str = "Escape is reserved for cancelling dictation.";
pub const MODIFIER_ONLY_MESSAGE: &'static str = "Linux shortcuts need a function key or a modifier plus another key.";
pub const DUPLICATE_SHORTCUT_MESSAGE: &'static str = "Push to talk and hands-free mode need different shortcuts.";

/// An outcome by its view: `Ok` or the error's text.
pub open spec fn result_view(r: Result<(), String>) -> Result<(), Seq<char>> {
    match r {
        Ok(()) => Ok(()),
        Err(e) => Err(e@),
    }
}

/// Why a shortcut is refused, if it is: checked on its required keys.
pub open spec fn validate_shortcut_spec(s: ShortcutSettings) -> Result<(), Seq<char>> {
    let keys = required_keys_spec(s);
    if !s.enabled {
        Ok(())
    } else if !has_required_keys(s) {
        Err(MISSING_KEYS_MESSAGE@)
    } else if keys.contains(0) {
        Err(INVALID_KEY_MESSAGE@)
    } else if keys.contains(XK_ESCAPE) {
        Err(ESCAPE_RESERVED_MESSAGE@)
    } else if forall|i: int| 0 <= i < keys.len() ==> is_modifier_key_spec(#[trigger] keys[i]) {
        Err(MODIFIER_ONLY_MESSAGE@)
    } else {
        Ok(())
    }
}

/// An enabled Linux shortcut whose required keys are all modifiers is refused:
/// it needs a function key or a modifier plus another key.
pub proof fn law_modifier_only_shortcuts_refused(s: ShortcutSettings)
    requires
        s.enabled,
        has_required_keys(s),
        forall|i: int| 0 <= i < required_keys_spec(s).len() ==> is_modifier_key_spec(#[trigger] required_keys_spec(s)[i]),
    ensures
        validate_shortcut_spec(s) == Err::<(), Seq<char>>(MODIFIER_ONLY_MESSAGE@),
{
    let keys = required_keys_spec(s);
    assert(!keys.contains(0));
    assert(!keys.contains(XK_ESCAPE));
}

fn contains_code(keys: &[u32], code: u32) -> (r: bool)
    ensures
        r == keys@.contains(code),
{
    let mut i: usize = 0;
    while i < keys.len()
        invariant
            i <= keys@.len(),
            forall|j: int| 0 <= j < i ==> keys@[j] != code,
        decreases keys.len() - i,
    {
        if keys[i] == code {
            assert(keys@[i as int] == code);
            return true;
        }
        i = i + 1;
    }
    false
}

fn all_modifiers(keys: &[u32]) -> (r: bool)
    ensures
        r == forall|i: int| 0 <= i < keys@.len() ==> is_modifier_key_spec(#[trigger] keys@[i]),
{
    let mut i: usize = 0;
    while i < keys.len()
        invariant
            i <= keys@.len(),
            forall|j: int| 0 <= j < i ==> is_modifier_key_spec(#[trigger] keys@[j]),
        decreases keys.len() - i,
    {
        if !is_modifier_key(keys[i]) {
            return false;
        }
        i = i + 1;
    }
    true
}

pub fn validate_shortcut(shortcut: &ShortcutSettings) -> (r: Result<(), String>)
    ensures
        result_view(r) == validate_shortcut_spec(*shortcut),
{
    if !shortcut.enabled {
        return Ok(());
    }
    let keys = match shortcut_required_keys(shortcut) {
        Some(k) => k,
        None => return Err(String::from_str(MISSING_KEYS_MESSAGE)),
    };
    proof {
        let raw = configured_keys(*shortcut);
        assert(raw.contains(raw[0]));
        assert(in_key_order(keys@, raw));
        assert(keys@.contains(raw[0]));
    }
    if keys.len() == 0 {
        return Err(String::from_str(MISSING_KEYS_MESSAGE));
    }
    if contains_code(&keys, 0) {
        return Err(String::from_str(INVALID_KEY_MESSAGE));
    }
    if contains_code(&keys, XK_ESCAPE) {
        return Err(String::from_str(ESCAPE_RESERVED_MESSAGE));
    }
    if all_modifiers(&keys) {
        return Err(String::from_str(MODIFIER_ONLY_MESSAGE));
    }
    Ok(())
}

/// The key overlaps a key of `b`.
pub open spec fn overlaps_some(k: u32, b: Seq<u32>) -> bool {
    exists|j: int| 0 <= j < b.len() && normalize_key(k) == normalize_key(#[trigger] b[j])
}

/// Each key of `a` overlaps a key of `b`.
pub open spec fn all_overlap(a: Seq<u32>, b: Seq<u32>) -> bool {
    forall|i: int| 0 <= i < a.len() ==> #[trigger] overlaps_some(a[i], b)
}

/// Two shortcuts require the same number of keys, each overlapping one of the other's.
pub open spec fn shortcuts_conflict_spec(a: ShortcutSettings, b: ShortcutSettings) -> bool {
    let ka = required_keys_spec(a);
    let kb = required_keys_spec(b);
    &&& has_required_keys(a)
    &&& has_required_keys(b)
    &&& ka.len() == kb.len()
    &&& all_overlap(ka, kb)
    &&& all_overlap(kb, ka)
}

fn all_overlap_exec(a: &[u32], b: &[u32]) -> (r: bool)
    ensures
        r == all_overlap(a@, b@),
{
    let mut i: usize = 0;
    while i < a.len()
        invariant
            i <= a@.len(),
            forall|x: int| 0 <= x < i ==> #[trigger] overlaps_some(a@[x], b@),
        decreases a.len() - i,
    {
        let mut found = false;
        let mut j: usize = 0;
        while j < b.len()
            invariant
                i < a@.len(),
                j <= b@.len(),
                found == exists|y: int| 0 <= y < j && normalize_key(a@[i as int]) == normalize_key(b@[y]),
            decreases b.len() - j,
        {
            if linux_keys_overlap(a[i], b[j]) {
                found = true;
            }
            j = j + 1;
        }
        if !found {
            assert(!overlaps_some(a@[i as int], b@));
            return false;
        }
        i = i + 1;
    }
    true
}

pub fn shortcuts_conflict(a: &ShortcutSettings, b: &ShortcutSettings) -> (r: bool)
    ensures
        r == shortcuts_conflict_spec(*a, *b),
{
    let a_keys = match shortcut_required_keys(a) {
        Some(k) => k,
        None => return false,
    };
    let b_keys = match shortcut_required_keys(b) {
        Some(k) => k,
        None => return false,
    };
    if a_keys.len() != b_keys.len() {
        return false;
    }
    all_overlap_exec(&a_keys, &b_keys) && all_overlap_exec(&b_keys, &a_keys)
}

/// Why a pair of shortcuts is refused, if it is.
pub open spec fn validate_shortcut_pair_spec(push: ShortcutSettings, hands: ShortcutSettings) -> Result<(), Seq<char>> {
    if validate_shortcut_spec(push) is Err {
        validate_shortcut_spec(push)
    } else if validate_shortcut_spec(hands) is Err {
        validate_shortcut_spec(hands)
    } else if push.enabled && hands.enabled && shortcuts_conflict_spec(push, hands) {
        Err(DUPLICATE_SHORTCUT_MESSAGE@)
    } else {
        Ok(())
    }
}

pub fn validate_shortcut_pair(push_to_talk: &ShortcutSettings, hands_free: &ShortcutSettings) -> (r: Result<(), String>)
    ensures
        result_view(r) == validate_shortcut_pair_spec(*push_to_talk, *hands_free),
{
    let first = validate_shortcut(push_to_talk);
    if first.is_err() {
        return first;
    }
    let second = validate_shortcut(hands_free);
    if second.is_err() {
        return second;
    }
    if push_to_talk.enabled && hands_free.enabled && shortcuts_conflict(push_to_talk, hands_free) {
        return Err(String::from_str(DUPLICATE_SHORTCUT_MESSAGE));
    }
    Ok(())
}

} // verus!
