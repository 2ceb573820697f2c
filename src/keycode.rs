//! From a Unicode code point to the keycodes of a layout, and from a keycode
//! to the physical key and the modifier bits that HID reports carry.
use vstd::prelude::*;

use crate::layout::{Layout, ENTER_KEYCODE, RIGHT_ALT_MODIFIER, RIGHT_CTRL_MODIFIER, SHIFT_MODIFIER, TAB_KEYCODE};

verus! {

pub const UNICODE_ENTER: u32 = 10;

pub const UNICODE_TAB: u32 = 9;

/// A control character `u` is typed as Ctrl held with the key of `u + 0x40`.
pub const CONTROL_CHARACTER_OFFSET: u32 = 0x40;

/// Space, the first character of a layout's keycode table.
pub const UNICODE_FIRST_ASCII: u32 = 0x20;

/// DEL, the last character of a layout's keycode table.
pub const UNICODE_LAST_ASCII: u32 = 0x7F;

/// The low bits of a keycode that name the physical key.
pub const KEY_MASK: u16 = 0x3F;

/// HID usage of the extra ISO key next to the left Shift.
pub const NON_US_KEY: u8 = 100;

/// How a code point is typed under a layout.
pub enum Keycode {
    /// Each keycode pressed in turn while the modifier is held.
    ModifierKeySequence(u16, Vec<u16>),
    /// One key, with the modifiers its keycode asks for.
    RegularKey(u16),
    /// The layout cannot type the code point.
    InvalidCharacter,
}

/// The keycode that types `u` on its own: Enter, Tab, or a printable ASCII
/// character (DEL included).
pub open spec fn direct_keycode(layout: Layout, u: u32) -> Option<u16> {
    if u == UNICODE_ENTER {
        Some(ENTER_KEYCODE & layout.keycode_mask)
    } else if u == UNICODE_TAB {
        Some(TAB_KEYCODE & layout.keycode_mask)
    } else if UNICODE_FIRST_ASCII <= u <= UNICODE_LAST_ASCII {
        Some(layout.keycodes@[u - UNICODE_FIRST_ASCII])
    } else {
        None
    }
}

/// For a control character other than Enter and Tab, the keycode of the
/// character that Ctrl turns into it.
pub open spec fn control_keycode(layout: Layout, u: u32) -> Option<u16> {
    if u != UNICODE_ENTER && u != UNICODE_TAB && u < UNICODE_FIRST_ASCII {
        Some(layout.keycodes@[u + CONTROL_CHARACTER_OFFSET - UNICODE_FIRST_ASCII])
    } else {
        None
    }
}

/// The dead key to press before `keycode`: the first accent class, in the
/// order acute, cedilla, diaeresis, grave, circumflex, tilde, whose bits equal
/// the keycode under the layout's dead-key mask.
pub open spec fn dead_key_for(layout: Layout, keycode: u16) -> Option<u16> {
    match layout.dead_keys_mask {
        None => None,
        Some(mask) => {
            let bits = keycode & mask;
            let d = layout.deadkeys;
            if d.acute_accent_bits == Some(bits) {
                d.deadkey_accute_accent
            } else if d.cedilla_bits == Some(bits) {
                d.deadkey_cedilla
            } else if d.diaeresis_bits == Some(bits) {
                d.deadkey_diaeresis
            } else if d.grave_accent_bits == Some(bits) {
                d.deadkey_grave_accent
            } else if d.circumflex_bits == Some(bits) {
                d.deadkey_circumflex
            } else if d.tilde_bits == Some(bits) {
                d.deadkey_tilde
            } else {
                None
            }
        },
    }
}

/// `constant` when the keycode has a bit of `mask` set, else nothing.
pub open spec fn modifier_if(keycode: u16, mask: Option<u16>, constant: u16) -> u16 {
    match mask {
        Some(m) => if keycode & m != 0 {
            constant
        } else {
            0
        },
        None => 0,
    }
}

/// The HID modifier byte for `keycode`: Shift, right Alt and right Ctrl, each
/// when the keycode has a bit of the layout's mask for it.
pub open spec fn modifier_for(layout: Layout, keycode: u16) -> u8 {
    (modifier_if(keycode, Some(layout.shift_mask), SHIFT_MODIFIER) | modifier_if(
        keycode,
        layout.alt_mask,
        RIGHT_ALT_MODIFIER,
    ) | modifier_if(keycode, layout.ctrl_mask, RIGHT_CTRL_MODIFIER)) as u8
}

/// The HID key for `keycode`: its low six bits, or the extra ISO key when
/// those bits are the layout's `non_us` value.
pub open spec fn key_for(layout: Layout, keycode: u16) -> u8 {
    let key = keycode & KEY_MASK;
    if layout.non_us == Some(key) {
        NON_US_KEY
    } else {
        key as u8
    }
}

/// How code point `unicode` is typed: Enter, Tab and printable ASCII as one
/// key; other control characters as right Ctrl held with the key of the
/// printable character 0x40 above; anything else not at all.
pub fn keycode_for_unicode(layout: &Layout, unicode: u32) -> (r: Keycode)
    requires
        layout.wf(),
    ensures
        direct_keycode(*layout, unicode) matches Some(k) ==> r == Keycode::RegularKey(k),
        control_keycode(*layout, unicode) matches Some(k) ==> (r matches Keycode::ModifierKeySequence(
            m,
            s,
        ) && m == RIGHT_CTRL_MODIFIER && s@ == seq![k]),
        direct_keycode(*layout, unicode) is None && control_keycode(*layout, unicode) is None
            ==> r is InvalidCharacter,
{
    if unicode == UNICODE_ENTER {
        Keycode::RegularKey(ENTER_KEYCODE & layout.keycode_mask)
    } else if unicode == UNICODE_TAB {
        Keycode::RegularKey(TAB_KEYCODE & layout.keycode_mask)
    } else if unicode < UNICODE_FIRST_ASCII {
        let idx = ((unicode + CONTROL_CHARACTER_OFFSET) - UNICODE_FIRST_ASCII) as usize;
        let keycodes = vec![layout.keycodes[idx]];
        Keycode::ModifierKeySequence(RIGHT_CTRL_MODIFIER, keycodes)
    } else if unicode >= UNICODE_FIRST_ASCII && unicode <= UNICODE_LAST_ASCII {
        let idx = (unicode - UNICODE_FIRST_ASCII) as usize;
        Keycode::RegularKey(layout.keycodes[idx])
    } else {
        Keycode::InvalidCharacter
    }
}

/// The dead key to press and release before the key of `keycode`, if any.
pub fn deadkey_for_keycode(layout: &Layout, keycode: u16) -> (r: Option<u16>)
    ensures
        r == dead_key_for(*layout, keycode),
{
    match layout.dead_keys_mask {
        None => None,
        Some(dkm) => {
            let keycode = keycode & dkm;
            if let Some(acute_accent_bits) = layout.deadkeys.acute_accent_bits {
                if keycode == acute_accent_bits {
                    return layout.deadkeys.deadkey_accute_accent;
                }
            }
            if let Some(cedilla_bits) = layout.deadkeys.cedilla_bits {
                if keycode == cedilla_bits {
                    return layout.deadkeys.deadkey_cedilla;
                }
            }
            if let Some(diaeresis_bits) = layout.deadkeys.diaeresis_bits {
                if keycode == diaeresis_bits {
                    return layout.deadkeys.deadkey_diaeresis;
                }
            }
            if let Some(grave_accent_bits) = layout.deadkeys.grave_accent_bits {
                if keycode == grave_accent_bits {
                    return layout.deadkeys.deadkey_grave_accent;
                }
            }
            if let Some(circumflex_bits) = layout.deadkeys.circumflex_bits {
                if keycode == circumflex_bits {
                    return layout.deadkeys.deadkey_circumflex;
                }
            }
            if let Some(tilde_bits) = layout.deadkeys.tilde_bits {
                if keycode == tilde_bits {
                    return layout.deadkeys.deadkey_tilde;
                }
            }
            None
        },
    }
}

/// The HID modifier byte that `keycode` needs.
pub fn modifier_for_keycode(layout: &Layout, keycode: u16) -> (r: u8)
    ensures
        r == modifier_for(*layout, keycode),
{
    let mut modifier: u16 = 0;
    if keycode & layout.shift_mask > 0 {
        modifier = modifier | SHIFT_MODIFIER;
    }
    if let Some(alt_mask) = layout.alt_mask {
        if keycode & alt_mask > 0 {
            modifier = modifier | RIGHT_ALT_MODIFIER;
        }
    }
    if let Some(ctrl_mask) = layout.ctrl_mask {
        if keycode & ctrl_mask > 0 {
            modifier = modifier | RIGHT_CTRL_MODIFIER;
        }
    }
    proof {
        let s = modifier_if(keycode, Some(layout.shift_mask), SHIFT_MODIFIER);
        let a = modifier_if(keycode, layout.alt_mask, RIGHT_ALT_MODIFIER);
        let c = modifier_if(keycode, layout.ctrl_mask, RIGHT_CTRL_MODIFIER);
        assert(modifier == (s | a) | c) by {
            assert(0u16 | s == s) by (bit_vector);
            assert(s | 0u16 == s) by (bit_vector);
            assert((s | a) | 0u16 == s | a) by (bit_vector);
        }
    }
    #[verifier::truncate]
    (modifier as u8)
}

/// The HID key that `keycode` is typed with.
pub fn key_for_keycode(layout: &Layout, keycode: u16) -> (r: u8)
    ensures
        r == key_for(*layout, keycode),
{
    let key = keycode & KEY_MASK;
    assert(key <= 0x3F) by (bit_vector)
        requires
            key == keycode & 0x3Fu16,
    ;
    match layout.non_us {
        Some(non_us) => {
            if key == non_us {
                NON_US_KEY
            } else {
                key as u8
            }
        },
        None => key as u8,
    }
}

} // verus!
