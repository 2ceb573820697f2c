//! Text to key events, and key events to HID boot-keyboard reports.
use vstd::prelude::*;

use bytes::Bytes;

use crate::keycode::{
    control_keycode, dead_key_for, deadkey_for_keycode, direct_keycode, key_for, key_for_keycode,
    keycode_for_unicode, modifier_for, modifier_for_keycode, Keycode, UNICODE_LAST_ASCII,
};
use crate::layout::{Layout, LayoutTable, RIGHT_CTRL_MODIFIER};
use crate::report_buffer::{
    buffer_contents, buffer_freeze, buffer_put_slice, buffer_put_u8, buffer_with_capacity,
    bytes_contents,
};

verus! {

/// The number of bytes in a keyboard HID report.
pub const HID_PACKET_LEN: usize = 8;

/// Why text could not be turned into key events.
#[derive(Debug, PartialEq, Eq)]
pub enum Error {
    /// The table has no layout under this key.
    InvalidLayoutKey(String),
    /// The layout cannot type this character.
    InvalidCharacter(char),
}

/// What follows the report that presses a key.
#[derive(Debug, Clone, Copy, PartialEq, Eq, Structural)]
pub enum Release {
    /// A report that releases the key and every modifier.
    All,
    /// A report that releases the key and keeps the modifier held.
    Keys,
    /// Nothing: the event itself releases everything.
    Nothing,
}

/// One key event: the HID key and modifier byte to press, and how to release them.
#[derive(Debug, Clone, Copy, PartialEq, Eq, Structural)]
pub struct KeyMod {
    /// HID usage of the key.
    pub key: u8,
    /// HID modifier byte held with the key.
    pub modifier: u8,
    pub release: Release,
}

/// Pressing and releasing the key of `keycode`, with the modifiers it needs.
pub open spec fn pressed(layout: Layout, keycode: u16) -> KeyMod {
    KeyMod {
        key: key_for(layout, keycode),
        modifier: modifier_for(layout, keycode),
        release: Release::All,
    }
}

/// The key of `keycode` with right Ctrl held, then one event that releases both.
pub open spec fn control_key_mods(keycode: u16) -> Seq<KeyMod> {
    seq![
        KeyMod { key: keycode as u8, modifier: RIGHT_CTRL_MODIFIER as u8, release: Release::Keys },
        KeyMod { key: 0, modifier: 0, release: Release::Nothing },
    ]
}

/// The key of `keycode`, after its dead key if it needs one.
pub open spec fn regular_key_mods(layout: Layout, keycode: u16) -> Seq<KeyMod> {
    match dead_key_for(layout, keycode) {
        Some(dead) => seq![pressed(layout, dead), pressed(layout, keycode)],
        None => seq![pressed(layout, keycode)],
    }
}

/// A character that every layout can type: Enter, Tab, the other control
/// characters, and printable ASCII up to DEL.
pub open spec fn is_typeable(c: char) -> bool {
    (c as u32) <= UNICODE_LAST_ASCII
}

pub open spec fn all_typeable(s: Seq<char>) -> bool {
    forall|i: int| 0 <= i < s.len() ==> is_typeable(#[trigger] s[i])
}

/// `c` is the first character of `s` that cannot be typed.
pub open spec fn first_untypeable(s: Seq<char>, c: char) -> bool {
    exists|i: int|
        0 <= i < s.len() && #[trigger] s[i] == c && !is_typeable(c) && all_typeable(s.take(i))
}

/// The key events that type `c` under `layout`.
pub open spec fn key_mods_for_char(layout: Layout, c: char) -> Seq<KeyMod> {
    let u = c as u32;
    match control_keycode(layout, u) {
        Some(k) => control_key_mods(k),
        None => match direct_keycode(layout, u) {
            Some(k) => regular_key_mods(layout, k),
            None => seq![],
        },
    }
}

/// The key events that type `s` under `layout`, character after character.
pub open spec fn key_mods_for_text(layout: Layout, s: Seq<char>) -> Seq<KeyMod>
    decreases s.len(),
{
    if s.len() == 0 {
        seq![]
    } else {
        key_mods_for_text(layout, s.drop_last()) + key_mods_for_char(layout, s.last())
    }
}

/// Text `s` can be typed with the layout stored under `key`.
pub open spec fn can_type(table: &LayoutTable, key: Seq<char>, s: Seq<char>) -> bool {
    table.layout_for(key) is Some && all_typeable(s)
}

/// The error for text `s` and layout key `key`, when `can_type` fails.
pub open spec fn error_for(table: &LayoutTable, key: Seq<char>, s: Seq<char>, e: Error) -> bool {
    match table.layout_for(key) {
        None => e matches Error::InvalidLayoutKey(k) && k@ == key,
        Some(_) => e matches Error::InvalidCharacter(c) && first_untypeable(s, c),
    }
}

/// `r` is what resolving `s` under the layout stored at `key` gives.
pub open spec fn resolves_to(
    table: &LayoutTable,
    key: Seq<char>,
    s: Seq<char>,
    r: Result<Vec<KeyMod>, Error>,
) -> bool {
    match r {
        Ok(v) => can_type(table, key, s) && v@ == key_mods_for_text(table.layout_for(key)->0, s),
        Err(e) => !can_type(table, key, s) && error_for(table, key, s, e),
    }
}

/// A HID boot-keyboard report: modifier byte, reserved byte, one key, five
/// unused key slots.
pub open spec fn report(modifier: u8, key: u8) -> Seq<u8> {
    seq![modifier, 0u8, key, 0u8, 0u8, 0u8, 0u8, 0u8]
}

/// The reports for one key event: the press, then its release.
pub open spec fn reports_for_key_mod(km: KeyMod) -> Seq<u8> {
    report(km.modifier, km.key) + match km.release {
        Release::All => report(0, 0),
        Release::Keys => report(km.modifier, 0),
        Release::Nothing => Seq::<u8>::empty(),
    }
}

/// The reports for a sequence of key events, in order.
pub open spec fn reports_for(kms: Seq<KeyMod>) -> Seq<u8>
    decreases kms.len(),
{
    if kms.len() == 0 {
        seq![]
    } else {
        reports_for(kms.drop_last()) + reports_for_key_mod(kms.last())
    }
}

/// `r` is what encoding `s` under the layout stored at `key` gives.
pub open spec fn encodes_to(
    table: &LayoutTable,
    key: Seq<char>,
    s: Seq<char>,
    r: Result<Bytes, Error>,
) -> bool {
    match r {
        Ok(b) => can_type(table, key, s) && bytes_contents(b) == reports_for(
            key_mods_for_text(table.layout_for(key)->0, s),
        ),
        Err(e) => !can_type(table, key, s) && error_for(table, key, s, e),
    }
}

proof fn lemma_key_mods_for_text_len(layout: Layout, s: Seq<char>)
    ensures
        key_mods_for_text(layout, s).len() <= 2 * s.len(),
    decreases s.len(),
{
    if s.len() > 0 {
        lemma_key_mods_for_text_len(layout, s.drop_last());
    }
}

/// The reports for key events are whole HID reports, at most two per event.
pub proof fn lemma_reports_for_len(kms: Seq<KeyMod>)
    ensures
        reports_for(kms).len() <= 16 * kms.len(),
        reports_for(kms).len() % 8 == 0,
    decreases kms.len(),
{
    if kms.len() > 0 {
        lemma_reports_for_len(kms.drop_last());
    }
}

/// Get a list of the key and modifier pairs required to type the given string on a keyboard with
/// the specified layout.
pub fn string_to_keys_and_modifiers(table: &LayoutTable, layout_key: &str, string: &str) -> (r:
    Result<Vec<KeyMod>, Error>)
    requires
        table.wf(),
    ensures
        resolves_to(table, layout_key@, string@, r),
{
    let layout = match table.get(layout_key) {
        Some(layout) => layout,
        None => return Err(Error::InvalidLayoutKey(layout_key.to_owned())),
    };
    let ghost text = string@;
    let mut keys_and_modifiers: Vec<KeyMod> = Vec::with_capacity(string.len());

    for c in it: string.chars()
        invariant
            layout.wf(),
            table.layout_for(layout_key@) == Some(*layout),
            text == string@,
            it.seq() == text,
            keys_and_modifiers@ == key_mods_for_text(*layout, text.take(it.index() as int)),
            all_typeable(text.take(it.index() as int)),
    {
        let ghost i = it.index() as int;
        let ghost before = keys_and_modifiers@;
        assert(text[i] == c);
        match keycode_for_unicode(layout, c as u32) {
            Keycode::ModifierKeySequence(modifier, sequence) => {
                let mut j: usize = 0;
                while j < sequence.len()
                    invariant
                        j <= sequence@.len(),
                        keys_and_modifiers@ == before + Seq::new(
                            j as nat,
                            |t: int|
                                KeyMod {
                                    key: sequence@[t] as u8,
                                    modifier: modifier as u8,
                                    release: Release::Keys,
                                },
                        ),
                    decreases sequence@.len() - j,
                {
                    let keycode = sequence[j];
                    keys_and_modifiers.push(
                        KeyMod {
                            key: #[verifier::truncate] (keycode as u8),
                            modifier: #[verifier::truncate] (modifier as u8),
                            release: Release::Keys,
                        },
                    );
                    j = j + 1;
                }
                // The held modifier is released together with the key.
                keys_and_modifiers.push(KeyMod { key: 0, modifier: 0, release: Release::Nothing });
            },
            Keycode::RegularKey(keycode) => {
                if let Some(dead_keycode) = deadkey_for_keycode(layout, keycode) {
                    let key = key_for_keycode(layout, dead_keycode);
                    let modifier = modifier_for_keycode(layout, dead_keycode);
                    keys_and_modifiers.push(KeyMod { key, modifier, release: Release::All });
                }
                let key = key_for_keycode(layout, keycode);
                let modifier = modifier_for_keycode(layout, keycode);
                keys_and_modifiers.push(KeyMod { key, modifier, release: Release::All });
            },
            Keycode::InvalidCharacter => {
                proof {
                    assert(!is_typeable(text[i]));
                    assert(first_untypeable(text, c));
                }
                return Err(Error::InvalidCharacter(c));
            },
        }
        proof {
            assert(text.take(i + 1).drop_last() =~= text.take(i));
            assert(keys_and_modifiers@ =~= before + key_mods_for_char(*layout, c));
        }
    }
    proof {
        assert(text.take(text.len() as int) =~= text);
    }
    Ok(keys_and_modifiers)
}

/// Create the sequence of HID packets required to type the given string, impersonating a keyboard
/// with the specified layout. These packets can be written directly to a HID device file.
///
/// Each character takes at most four reports of eight bytes, and the whole
/// stream has to fit in one allocation.
pub fn string_to_hid_packets(table: &LayoutTable, layout_key: &str, string: &str) -> (r: Result<
    Bytes,
    Error,
>)
    requires
        table.wf(),
        32 * string@.len() <= isize::MAX,
    ensures
        encodes_to(table, layout_key@, string@, r),
        r matches Ok(b) ==> bytes_contents(b).len() % (HID_PACKET_LEN as nat) == 0,
{
    let keys_and_modifiers = match string_to_keys_and_modifiers(table, layout_key, string) {
        Ok(keys_and_modifiers) => keys_and_modifiers,
        Err(e) => return Err(e),
    };
    let ghost kms = keys_and_modifiers@;
    proof {
        lemma_key_mods_for_text_len(table.layout_for(layout_key@)->0, string@);
    }
    let n = keys_and_modifiers.len();
    let mut packet_bytes = buffer_with_capacity(HID_PACKET_LEN * n * 2);
    // The five unused key slots that end every report.
    let suffix: [u8; 5] = [0u8; 5];
    // A report with no key and no modifier pressed.
    let release_all: [u8; 8] = [0u8; 8];
    assert(suffix@ == seq![0u8, 0u8, 0u8, 0u8, 0u8]);
    assert(release_all@ == report(0, 0));

    let mut i: usize = 0;
    while i < n
        invariant
            n == kms.len(),
            16 * n <= isize::MAX,
            i <= n,
            keys_and_modifiers@ == kms,
            suffix@ == seq![0u8, 0u8, 0u8, 0u8, 0u8],
            release_all@ == report(0, 0),
            buffer_contents(packet_bytes) == reports_for(kms.take(i as int)),
        decreases n - i,
    {
        let KeyMod { key, modifier, release } = keys_and_modifiers[i];
        proof {
            lemma_reports_for_len(kms.take(i as int));
        }
        buffer_put_u8(&mut packet_bytes, modifier);
        buffer_put_u8(&mut packet_bytes, 0u8);
        buffer_put_u8(&mut packet_bytes, key);
        buffer_put_slice(&mut packet_bytes, suffix.as_slice());
        match release {
            Release::All => buffer_put_slice(&mut packet_bytes, release_all.as_slice()),
            Release::Keys => {
                buffer_put_u8(&mut packet_bytes, modifier);
                buffer_put_u8(&mut packet_bytes, 0u8);
                buffer_put_u8(&mut packet_bytes, 0u8);
                buffer_put_slice(&mut packet_bytes, suffix.as_slice());
            },
            Release::Nothing => {},
        }
        proof {
            assert(kms.take(i + 1).drop_last() =~= kms.take(i as int));
            assert(buffer_contents(packet_bytes) =~= reports_for(kms.take(i + 1)));
        }
        i = i + 1;
    }
    proof {
        assert(kms.take(n as int) =~= kms);
        lemma_reports_for_len(kms);
    }
    Ok(buffer_freeze(packet_bytes))
}

} // verus!
