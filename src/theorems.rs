//! Facts about what the encoder produces, stated over the specifications of
//! `string_to_keys_and_modifiers` and `string_to_hid_packets`.
use vstd::prelude::*;

use bytes::Bytes;

use crate::encoder::{
    all_typeable, can_type, encodes_to, first_untypeable, is_typeable, key_mods_for_char,
    key_mods_for_text, pressed, resolves_to, Error, KeyMod, Release,
};
use crate::keycode::dead_key_for;
use crate::layout::{LayoutTable, RIGHT_CTRL_MODIFIER};

verus! {

proof fn lemma_single_char_text(layout: crate::layout::Layout, c: char)
    ensures
        key_mods_for_text(layout, seq![c]) == key_mods_for_char(layout, c),
{
    assert(seq![c].drop_last() =~= Seq::<char>::empty());
    assert(seq![c].last() == c);
    assert(key_mods_for_text(layout, Seq::<char>::empty()) == Seq::<KeyMod>::empty());
    assert(key_mods_for_text(layout, seq![c]) =~= key_mods_for_char(layout, c));
}

/// A printable ASCII character, space to `~`, is typed by one event that
/// presses the key the layout lists for it, with the modifiers that keycode
/// asks for, preceded by one dead-key event exactly when the layout composes
/// the character from a dead key.
pub proof fn lemma_printable_char_events(table: &LayoutTable, key: Seq<char>, c: char)
    requires
        table.layout_for(key) is Some,
        0x20 <= c as u32 <= 0x7E,
    ensures
        ({
            let layout = table.layout_for(key)->0;
            let keycode = layout.keycodes@[c as u32 - 0x20];
            let events = key_mods_for_text(layout, seq![c]);
            &&& can_type(table, key, seq![c])
            &&& events.len() == if dead_key_for(layout, keycode) is Some {
                2int
            } else {
                1int
            }
            &&& events.last() == pressed(layout, keycode)
            &&& dead_key_for(layout, keycode) matches Some(dead) ==> events[0] == pressed(
                layout,
                dead,
            )
        }),
{
    lemma_single_char_text(table.layout_for(key)->0, c);
    assert(is_typeable(seq![c][0]));
}

/// A control character other than Tab and Enter is typed as two events: the
/// key of the character that Ctrl turns into it, with right Ctrl held and only
/// the key released, then one event that releases key and modifier together.
pub proof fn lemma_control_char_events(table: &LayoutTable, key: Seq<char>, c: char)
    requires
        table.layout_for(key) is Some,
        (c as u32) < 0x20,
        c != '\t',
        c != '\n',
    ensures
        ({
            let layout = table.layout_for(key)->0;
            &&& can_type(table, key, seq![c])
            &&& key_mods_for_text(layout, seq![c]) == seq![
                KeyMod {
                    key: layout.keycodes@[c as u32 + 0x20] as u8,
                    modifier: RIGHT_CTRL_MODIFIER as u8,
                    release: Release::Keys,
                },
                KeyMod { key: 0, modifier: 0, release: Release::Nothing },
            ]
        }),
{
    lemma_single_char_text(table.layout_for(key)->0, c);
    assert(is_typeable(seq![c][0]));
}

/// Resolving depends on nothing but the table, the layout key and the text:
/// two results that both meet the contract of `string_to_keys_and_modifiers`
/// for the same arguments hold the same events or the same error.
pub proof fn lemma_resolve_is_deterministic(
    table: &LayoutTable,
    key: Seq<char>,
    s: Seq<char>,
    r1: Result<Vec<KeyMod>, Error>,
    r2: Result<Vec<KeyMod>, Error>,
)
    requires
        resolves_to(table, key, s, r1),
        resolves_to(table, key, s, r2),
    ensures
        match (r1, r2) {
            (Ok(a), Ok(b)) => a@ == b@,
            (Err(Error::InvalidLayoutKey(a)), Err(Error::InvalidLayoutKey(b))) => a@ == b@,
            (Err(Error::InvalidCharacter(a)), Err(Error::InvalidCharacter(b))) => a == b,
            _ => false,
        },
{
    if let (Err(Error::InvalidCharacter(a)), Err(Error::InvalidCharacter(b))) = (r1, r2) {
        assert(first_untypeable(s, a) && first_untypeable(s, b));
        let i = choose|i: int|
            0 <= i < s.len() && #[trigger] s[i] == a && !is_typeable(a) && all_typeable(s.take(i));
        let j = choose|j: int|
            0 <= j < s.len() && #[trigger] s[j] == b && !is_typeable(b) && all_typeable(s.take(j));
        if i < j {
            assert(s.take(j)[i] == s[i]);
        } else if j < i {
            assert(s.take(i)[j] == s[j]);
        }
    }
}

/// A layout key that the table does not hold gives `InvalidLayoutKey` with
/// that key, whatever the text, both for key events and for HID reports.
pub proof fn lemma_unknown_layout_key(
    table: &LayoutTable,
    key: Seq<char>,
    s: Seq<char>,
    events: Result<Vec<KeyMod>, Error>,
    reports: Result<Bytes, Error>,
)
    requires
        table.layout_for(key) is None,
        resolves_to(table, key, s, events),
        encodes_to(table, key, s, reports),
    ensures
        events matches Err(Error::InvalidLayoutKey(k)) && k@ == key,
        reports matches Err(Error::InvalidLayoutKey(k)) && k@ == key,
{
}

/// U+0080, the first code point past ASCII, cannot be typed under any layout:
/// where it comes before every other such character of the text, key events
/// and HID reports both fail with `InvalidCharacter('\u{80}')`.
pub proof fn lemma_first_code_point_past_ascii(
    table: &LayoutTable,
    key: Seq<char>,
    s: Seq<char>,
    i: int,
    events: Result<Vec<KeyMod>, Error>,
    reports: Result<Bytes, Error>,
)
    requires
        table.layout_for(key) is Some,
        0 <= i < s.len(),
        s[i] == '\u{80}',
        all_typeable(s.take(i)),
        resolves_to(table, key, s, events),
        encodes_to(table, key, s, reports),
    ensures
        events matches Err(Error::InvalidCharacter(c)) && c == '\u{80}',
        reports matches Err(Error::InvalidCharacter(c)) && c == '\u{80}',
{
    assert(!is_typeable(s[i]));
    assert(first_untypeable(s, '\u{80}'));
    if let Err(Error::InvalidCharacter(c)) = events {
        let j = choose|j: int|
            0 <= j < s.len() && #[trigger] s[j] == c && !is_typeable(c) && all_typeable(s.take(j));
        if j < i {
            assert(s.take(i)[j] == s[j]);
        } else if i < j {
            assert(s.take(j)[i] == s[i]);
        }
    }
    if let Err(Error::InvalidCharacter(c)) = reports {
        let j = choose|j: int|
            0 <= j < s.len() && #[trigger] s[j] == c && !is_typeable(c) && all_typeable(s.take(j));
        if j < i {
            assert(s.take(i)[j] == s[j]);
        } else if i < j {
            assert(s.take(j)[i] == s[i]);
        }
    }
}

} // verus!
