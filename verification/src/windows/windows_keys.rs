use vstd::prelude::*;
use crate::protocol::ShortcutKey;
use crate::text::{ascii_char, chars_of, concat_chars, decimal_chars, decimal_seq, string_from_chars};

verus! {

pub const VK_BACK: u16 = 0x08;
pub const VK_TAB: u16 = 0x09;
pub const VK_RETURN: u16 = 0x0D;
pub const VK_SHIFT: u16 = 0x10;
pub const VK_CONTROL: u16 = 0x11;
pub const VK_ALT: u16 = 0x12;
pub const VK_ESCAPE: u16 = 0x1B;
pub const VK_SPACE: u16 = 0x20;
pub const VK_LEFT: u16 = 0x25;
pub const VK_UP: u16 = 0x26;
pub const VK_RIGHT: u16 = 0x27;
pub const VK_DOWN: u16 = 0x28;
pub const VK_DELETE: u16 = 0x2E;
pub const VK_0: u16 = 0x30;
pub const VK_9: u16 = 0x39;
pub const VK_A: u16 = 0x41;
pub const VK_Z: u16 = 0x5A;
pub const VK_LWIN: u16 = 0x5B;
pub const VK_RWIN: u16 = 0x5C;
pub const VK_F1: u16 = 0x70;
pub const VK_F24: u16 = 0x87;
pub const VK_LSHIFT: u16 = 0xA0;
pub const VK_RSHIFT: u16 = 0xA1;
pub const VK_LCONTROL: u16 = 0xA2;
pub const VK_RCONTROL: u16 = 0xA3;
pub const VK_LALT: u16 = 0xA4;
pub const VK_RALT: u16 = 0xA5;

/// The order of modifiers in a shortcut: Ctrl, Alt, Shift, Windows, generic first.
pub open spec fn modifier_order() -> Seq<u16> {
    seq![
        VK_CONTROL,
        VK_LCONTROL,
        VK_RCONTROL,
        VK_ALT,
        VK_LALT,
        VK_RALT,
        VK_SHIFT,
        VK_LSHIFT,
        VK_RSHIFT,
        VK_LWIN,
        VK_RWIN,
    ]
}

pub open spec fn is_modifier_virtual_key_spec(vk: u16) -> bool {
    vk == VK_LCONTROL || vk == VK_RCONTROL || vk == VK_LALT || vk == VK_RALT || vk == VK_LSHIFT
        || vk == VK_RSHIFT || vk == VK_LWIN || vk == VK_RWIN
}

pub fn is_modifier_virtual_key(vk: u16) -> (r: bool)
    ensures
        r == is_modifier_virtual_key_spec(vk),
{
    vk == VK_LCONTROL || vk == VK_RCONTROL || vk == VK_LALT || vk == VK_RALT || vk == VK_LSHIFT
        || vk == VK_RSHIFT || vk == VK_LWIN || vk == VK_RWIN
}

pub open spec fn is_generic_modifier_spec(vk: u16) -> bool {
    vk == VK_CONTROL || vk == VK_ALT || vk == VK_SHIFT
}

pub fn is_generic_modifier(vk: u16) -> (r: bool)
    ensures
        r == is_generic_modifier_spec(vk),
{
    vk == VK_CONTROL || vk == VK_ALT || vk == VK_SHIFT
}

/// The generic modifier a modifier key stands for (the left Windows key for both Windows keys).
pub open spec fn generic_modifier_spec(vk: u16) -> Option<u16> {
    if vk == VK_CONTROL || vk == VK_LCONTROL || vk == VK_RCONTROL {
        Some(VK_CONTROL)
    } else if vk == VK_ALT || vk == VK_LALT || vk == VK_RALT {
        Some(VK_ALT)
    } else if vk == VK_SHIFT || vk == VK_LSHIFT || vk == VK_RSHIFT {
        Some(VK_SHIFT)
    } else if vk == VK_LWIN || vk == VK_RWIN {
        Some(VK_LWIN)
    } else {
        None
    }
}

pub fn generic_modifier_for(vk: u16) -> (r: Option<u16>)
    ensures
        r == generic_modifier_spec(vk),
{
    if vk == VK_CONTROL || vk == VK_LCONTROL || vk == VK_RCONTROL {
        Some(VK_CONTROL)
    } else if vk == VK_ALT || vk == VK_LALT || vk == VK_RALT {
        Some(VK_ALT)
    } else if vk == VK_SHIFT || vk == VK_LSHIFT || vk == VK_RSHIFT {
        Some(VK_SHIFT)
    } else if vk == VK_LWIN || vk == VK_RWIN {
        Some(VK_LWIN)
    } else {
        None
    }
}

/// A modifier's place in `modifier_order`, or 11 for every other key.
pub open spec fn vk_rank(vk: u16) -> int {
    if vk == VK_CONTROL {
        0
    } else if vk == VK_LCONTROL {
        1
    } else if vk == VK_RCONTROL {
        2
    } else if vk == VK_ALT {
        3
    } else if vk == VK_LALT {
        4
    } else if vk == VK_RALT {
        5
    } else if vk == VK_SHIFT {
        6
    } else if vk == VK_LSHIFT {
        7
    } else if vk == VK_RSHIFT {
        8
    } else if vk == VK_LWIN {
        9
    } else if vk == VK_RWIN {
        10
    } else {
        11
    }
}

/// The rank is the key's index in `modifier_order`, or its length.
pub proof fn lemma_vk_rank_is_position(vk: u16)
    ensures
        modifier_order().contains(vk) ==> 0 <= vk_rank(vk) < 11 && modifier_order()[vk_rank(vk)] == vk,
        !modifier_order().contains(vk) <==> vk_rank(vk) == 11,
{
    if vk_rank(vk) < 11 {
        assert(modifier_order()[vk_rank(vk)] == vk);
    } else if modifier_order().contains(vk) {
        let i = choose|i: int| 0 <= i < 11 && modifier_order()[i] == vk;
        assert(modifier_order()[i] == vk);
    }
}

pub fn virtual_key_sort_key(vk: u16) -> (r: (usize, u16))
    ensures
        r.0 == vk_rank(vk),
        r.1 == vk,
{
    let order: Vec<u16> = vec![
        VK_CONTROL,
        VK_LCONTROL,
        VK_RCONTROL,
        VK_ALT,
        VK_LALT,
        VK_RALT,
        VK_SHIFT,
        VK_LSHIFT,
        VK_RSHIFT,
        VK_LWIN,
        VK_RWIN,
    ];
    assert(order@ =~= modifier_order());
    let mut i: usize = 0;
    while i < order.len()
        invariant
            order@ == modifier_order(),
            i <= order@.len(),
            forall|j: int| 0 <= j < i ==> order@[j] != vk,
        decreases order.len() - i,
    {
        if order[i] == vk {
            proof {
                lemma_vk_rank_is_position(vk);
                assert(modifier_order().contains(vk));
            }
            return (i, vk);
        }
        i = i + 1;
    }
    proof {
        lemma_vk_rank_is_position(vk);
    }
    (order.len(), vk)
}

/// The label of a virtual key in a shortcut's display name.
pub open spec fn vk_label(vk: u16) -> Seq<char> {
    if vk == VK_CONTROL {
        "Ctrl"@
    } else if vk == VK_LCONTROL {
        "Left Ctrl"@
    } else if vk == VK_RCONTROL {
        "Right Ctrl"@
    } else if vk == VK_ALT {
        "Alt"@
    } else if vk == VK_LALT {
        "Left Alt"@
    } else if vk == VK_RALT {
        "Right Alt"@
    } else if vk == VK_SHIFT {
        "Shift"@
    } else if vk == VK_LSHIFT {
        "Left Shift"@
    } else if vk == VK_RSHIFT {
        "Right Shift"@
    } else if vk == VK_LWIN {
        "Windows"@
    } else if vk == VK_RWIN {
        "Right Windows"@
    } else if vk == VK_SPACE {
        "Space"@
    } else if vk == VK_RETURN {
        "Enter"@
    } else if vk == VK_TAB {
        "Tab"@
    } else if vk == VK_ESCAPE {
        "Escape"@
    } else if vk == VK_BACK || vk == VK_DELETE {
        "Delete"@
    } else if vk == VK_LEFT {
        "Left Arrow"@
    } else if vk == VK_RIGHT {
        "Right Arrow"@
    } else if vk == VK_UP {
        "Up Arrow"@
    } else if vk == VK_DOWN {
        "Down Arrow"@
    } else if (VK_0 <= vk <= VK_9) || (VK_A <= vk <= VK_Z) {
        seq![vk as char]
    } else if VK_F1 <= vk <= VK_F24 {
        "F"@ + decimal_seq((vk - VK_F1 + 1) as nat)
    } else {
        "VK "@ + decimal_seq(vk as nat)
    }
}

pub fn display_label_for_vk(vk: u16) -> (r: String)
    ensures
        r@ == vk_label(vk),
{
    let label: Vec<char> = if vk == VK_CONTROL {
        chars_of("Ctrl")
    } else if vk == VK_LCONTROL {
        chars_of("Left Ctrl")
    } else if vk == VK_RCONTROL {
        chars_of("Right Ctrl")
    } else if vk == VK_ALT {
        chars_of("Alt")
    } else if vk == VK_LALT {
        chars_of("Left Alt")
    } else if vk == VK_RALT {
        chars_of("Right Alt")
    } else if vk == VK_SHIFT {
        chars_of("Shift")
    } else if vk == VK_LSHIFT {
        chars_of("Left Shift")
    } else if vk == VK_RSHIFT {
        chars_of("Right Shift")
    } else if vk == VK_LWIN {
        chars_of("Windows")
    } else if vk == VK_RWIN {
        chars_of("Right Windows")
    } else if vk == VK_SPACE {
        chars_of("Space")
    } else if vk == VK_RETURN {
        chars_of("Enter")
    } else if vk == VK_TAB {
        chars_of("Tab")
    } else if vk == VK_ESCAPE {
        chars_of("Escape")
    } else if vk == VK_BACK || vk == VK_DELETE {
        chars_of("Delete")
    } else if vk == VK_LEFT {
        chars_of("Left Arrow")
    } else if vk == VK_RIGHT {
        chars_of("Right Arrow")
    } else if vk == VK_UP {
        chars_of("Up Arrow")
    } else if vk == VK_DOWN {
        chars_of("Down Arrow")
    } else if (VK_0 <= vk && vk <= VK_9) || (VK_A <= vk && vk <= VK_Z) {
        let v = vec![ascii_char(vk as u32)];
        assert(v@ =~= seq![vk as char]);
        v
    } else if VK_F1 <= vk && vk <= VK_F24 {
        concat_chars(&chars_of("F"), &decimal_chars((vk - VK_F1 + 1) as u64))
    } else {
        concat_chars(&chars_of("VK "), &decimal_chars(vk as u64))
    };
    string_from_chars(&label)
}

/// The shortcut key a virtual key stands for: letters and digits as lower-case
/// characters; none for modifiers and keys without a name.
pub open spec fn vk_shortcut_key(vk: u16) -> Option<ShortcutKey> {
    if vk == VK_SPACE {
        Some(ShortcutKey::Space)
    } else if vk == VK_RETURN {
        Some(ShortcutKey::Return)
    } else if vk == VK_TAB {
        Some(ShortcutKey::Tab)
    } else if vk == VK_ESCAPE {
        Some(ShortcutKey::Escape)
    } else if vk == VK_BACK || vk == VK_DELETE {
        Some(ShortcutKey::Delete)
    } else if vk == VK_LEFT {
        Some(ShortcutKey::ArrowLeft)
    } else if vk == VK_RIGHT {
        Some(ShortcutKey::ArrowRight)
    } else if vk == VK_UP {
        Some(ShortcutKey::ArrowUp)
    } else if vk == VK_DOWN {
        Some(ShortcutKey::ArrowDown)
    } else if VK_F1 <= vk <= VK_F24 {
        Some(ShortcutKey::Function((vk - VK_F1 + 1) as u8))
    } else {
        None
    }
}

/// The character a letter or digit key stands for, lower-cased.
pub open spec fn vk_character(vk: u16) -> Seq<char> {
    if VK_A <= vk <= VK_Z {
        seq![(vk + 32) as char]
    } else {
        seq![vk as char]
    }
}

pub open spec fn is_character_vk(vk: u16) -> bool {
    (VK_0 <= vk <= VK_9) || (VK_A <= vk <= VK_Z)
}

pub fn shortcut_key_for_vk(vk: u16) -> (r: Option<ShortcutKey>)
    ensures
        is_character_vk(vk) ==> (r matches Some(ShortcutKey::Character(s)) && s@ == vk_character(vk)),
        !is_character_vk(vk) ==> r == vk_shortcut_key(vk),
{
    if (VK_0 <= vk && vk <= VK_9) || (VK_A <= vk && vk <= VK_Z) {
        let c = if VK_A <= vk {
            ascii_char((vk + 32) as u32)
        } else {
            ascii_char(vk as u32)
        };
        let v = vec![c];
        assert(v@ =~= vk_character(vk));
        return Some(ShortcutKey::Character(string_from_chars(&v)));
    }
    if vk == VK_SPACE {
        Some(ShortcutKey::Space)
    } else if vk == VK_RETURN {
        Some(ShortcutKey::Return)
    } else if vk == VK_TAB {
        Some(ShortcutKey::Tab)
    } else if vk == VK_ESCAPE {
        Some(ShortcutKey::Escape)
    } else if vk == VK_BACK || vk == VK_DELETE {
        Some(ShortcutKey::Delete)
    } else if vk == VK_LEFT {
        Some(ShortcutKey::ArrowLeft)
    } else if vk == VK_RIGHT {
        Some(ShortcutKey::ArrowRight)
    } else if vk == VK_UP {
        Some(ShortcutKey::ArrowUp)
    } else if vk == VK_DOWN {
        Some(ShortcutKey::ArrowDown)
    } else if VK_F1 <= vk && vk <= VK_F24 {
        Some(ShortcutKey::Function((vk - VK_F1 + 1) as u8))
    } else {
        None
    }
}

} // verus!
