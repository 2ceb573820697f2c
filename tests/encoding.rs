use keyboard_layouts::{
    string_to_hid_packets, string_to_keys_and_modifiers, DeadKeys, Error, KeyMod, Layout,
    LayoutTable, Release, HID_PACKET_LEN,
};

const SHIFT: u16 = 0x40;
const ALTGR: u16 = 0x80;
const RCTRL: u16 = 0x100;

/// HID usages of the US English keyboard for ASCII 0x20 through 0x7F, with
/// the Shift bit where the character needs it.
fn us_keycodes() -> Vec<u16> {
    let punct: [(char, u16); 33] = [
        (' ', 44),
        ('!', 30 | SHIFT),
        ('"', 52 | SHIFT),
        ('#', 32 | SHIFT),
        ('$', 33 | SHIFT),
        ('%', 34 | SHIFT),
        ('&', 36 | SHIFT),
        ('\'', 52),
        ('(', 38 | SHIFT),
        (')', 39 | SHIFT),
        ('*', 37 | SHIFT),
        ('+', 46 | SHIFT),
        (',', 54),
        ('-', 45),
        ('.', 55),
        ('/', 56),
        (':', 51 | SHIFT),
        (';', 51),
        ('<', 54 | SHIFT),
        ('=', 46),
        ('>', 55 | SHIFT),
        ('?', 56 | SHIFT),
        ('@', 31 | SHIFT),
        ('[', 47),
        ('\\', 49),
        (']', 48),
        ('^', 35 | SHIFT),
        ('_', 45 | SHIFT),
        ('`', 53),
        ('{', 47 | SHIFT),
        ('|', 49 | SHIFT),
        ('}', 48 | SHIFT),
        ('~', 53 | SHIFT),
    ];
    let mut keycodes = vec![0u16; 96];
    for (c, k) in punct.iter() {
        keycodes[*c as usize - 0x20] = *k;
    }
    keycodes['0' as usize - 0x20] = 39;
    for d in 1..10u16 {
        keycodes[('0' as usize + d as usize) - 0x20] = 29 + d;
    }
    for l in 0..26u16 {
        keycodes[('a' as usize + l as usize) - 0x20] = 4 + l;
        keycodes[('A' as usize + l as usize) - 0x20] = (4 + l) | SHIFT;
    }
    keycodes[0x7F - 0x20] = 42;
    keycodes
}

fn no_dead_keys() -> DeadKeys {
    DeadKeys::new(None, None, None, None, None, None, None, None, None, None, None, None)
}

fn us_layout() -> Layout {
    Layout::new("US ENGLISH", SHIFT, None, None, None, None, 0x7F, us_keycodes(), no_dead_keys())
}

/// A layout where `^` and `` ` `` are typed through dead keys followed by
/// space, and `'` through an acute dead key.
fn dead_key_layout() -> Layout {
    let mut keycodes = us_keycodes();
    keycodes['^' as usize - 0x20] = 0x0100 | 44;
    keycodes['`' as usize - 0x20] = 0x0300 | 44;
    keycodes['\'' as usize - 0x20] = 0x0200 | 44;
    let deadkeys = DeadKeys::new(
        Some(0x0200),
        Some(46),
        None,
        None,
        None,
        None,
        Some(0x0300),
        Some(46 | SHIFT),
        Some(0x0100),
        Some(53),
        None,
        None,
    );
    Layout::new("GERMAN", SHIFT, Some(ALTGR), None, None, Some(0x0700), 0x07FF, keycodes, deadkeys)
}

fn table() -> LayoutTable {
    let mut table = LayoutTable::new();
    table.insert("LAYOUT_US_ENGLISH".to_string(), us_layout());
    table.insert("LAYOUT_GERMAN".to_string(), dead_key_layout());
    table
}

fn report(modifier: u8, key: u8) -> Vec<u8> {
    vec![modifier, 0, key, 0, 0, 0, 0, 0]
}

fn km(key: u8, modifier: u8, release: Release) -> KeyMod {
    KeyMod { key, modifier, release }
}

#[test]
fn hi_is_four_reports() {
    let packets = string_to_hid_packets(&table(), "LAYOUT_US_ENGLISH", "Hi").unwrap();
    let mut expected = Vec::new();
    expected.extend(report(0x02, 11));
    expected.extend(report(0, 0));
    expected.extend(report(0, 12));
    expected.extend(report(0, 0));
    assert_eq!(packets.len(), 32);
    assert_eq!(&packets[..], &expected[..]);
}

#[test]
fn dead_key_character_is_dead_key_then_base_key() {
    let table = table();
    let events = string_to_keys_and_modifiers(&table, "LAYOUT_GERMAN", "^").unwrap();
    assert_eq!(events, vec![km(53, 0, Release::All), km(44, 0, Release::All)]);
    let packets = string_to_hid_packets(&table, "LAYOUT_GERMAN", "^").unwrap();
    let mut expected = Vec::new();
    expected.extend(report(0, 53));
    expected.extend(report(0, 0));
    expected.extend(report(0, 44));
    expected.extend(report(0, 0));
    assert_eq!(&packets[..], &expected[..]);
}

#[test]
fn dead_key_keeps_its_own_modifier() {
    let events = string_to_keys_and_modifiers(&table(), "LAYOUT_GERMAN", "`a").unwrap();
    assert_eq!(
        events,
        vec![km(46, 0x02, Release::All), km(44, 0, Release::All), km(4, 0, Release::All)]
    );
}

#[test]
fn accented_character_past_ascii_is_rejected() {
    let r = string_to_keys_and_modifiers(&table(), "LAYOUT_GERMAN", "\u{e9}");
    assert_eq!(r, Err(Error::InvalidCharacter('\u{e9}')));
}

#[test]
fn control_character_is_ctrl_held_key() {
    let table = table();
    let events = string_to_keys_and_modifiers(&table, "LAYOUT_US_ENGLISH", "\u{1}").unwrap();
    // Ctrl+A: the raw keycode of 'A', Shift bit included, with right Ctrl.
    assert_eq!(events, vec![km(0x44, 0x10, Release::Keys), km(0, 0, Release::Nothing)]);
    let packets = string_to_hid_packets(&table, "LAYOUT_US_ENGLISH", "\u{1}").unwrap();
    let mut expected = Vec::new();
    expected.extend(report(0x10, 0x44));
    expected.extend(report(0x10, 0));
    expected.extend(report(0, 0));
    assert_eq!(&packets[..], &expected[..]);
}

#[test]
fn every_other_control_character_gives_two_events() {
    let table = table();
    let keycodes = us_keycodes();
    for u in 0u32..0x20 {
        if u == 9 || u == 10 {
            continue;
        }
        let c = char::from_u32(u).unwrap();
        let events =
            string_to_keys_and_modifiers(&table, "LAYOUT_US_ENGLISH", &c.to_string()).unwrap();
        let wrapped = keycodes[(u + 0x20) as usize] as u8;
        assert_eq!(events, vec![km(wrapped, 0x10, Release::Keys), km(0, 0, Release::Nothing)]);
    }
}

#[test]
fn enter_and_tab_are_their_own_keys() {
    let table = table();
    let events = string_to_keys_and_modifiers(&table, "LAYOUT_US_ENGLISH", "\n\t").unwrap();
    assert_eq!(events, vec![km(40, 0, Release::All), km(43, 0, Release::All)]);
}

#[test]
fn delete_uses_last_table_entry() {
    let events = string_to_keys_and_modifiers(&table(), "LAYOUT_US_ENGLISH", "\u{7f}").unwrap();
    assert_eq!(events, vec![km(42, 0, Release::All)]);
}

#[test]
fn printable_ascii_is_one_event_from_the_table() {
    let table = table();
    let keycodes = us_keycodes();
    for u in 0x20u32..=0x7E {
        let c = char::from_u32(u).unwrap();
        let events =
            string_to_keys_and_modifiers(&table, "LAYOUT_US_ENGLISH", &c.to_string()).unwrap();
        let k = keycodes[(u - 0x20) as usize];
        let modifier = if k & SHIFT != 0 { 0x02 } else { 0 };
        assert_eq!(events, vec![km((k & 0x3F) as u8, modifier, Release::All)]);
    }
}

#[test]
fn printable_ascii_under_dead_key_layout() {
    let table = table();
    for u in 0x20u32..=0x7E {
        let c = char::from_u32(u).unwrap();
        let events = string_to_keys_and_modifiers(&table, "LAYOUT_GERMAN", &c.to_string()).unwrap();
        let composed = c == '^' || c == '`' || c == '\'';
        assert_eq!(events.len(), if composed { 2 } else { 1 });
        assert_eq!(events.last().unwrap().release, Release::All);
    }
}

#[test]
fn encoded_length_is_whole_reports() {
    let table = table();
    for text in ["", "a", "Hi", "\u{1}", "a\u{3}b\n", "^`'x", "The quick brown fox!\t"] {
        for key in ["LAYOUT_US_ENGLISH", "LAYOUT_GERMAN"] {
            let packets = string_to_hid_packets(&table, key, text).unwrap();
            assert_eq!(packets.len() % HID_PACKET_LEN, 0);
        }
    }
}

#[test]
fn resolving_twice_gives_the_same_events() {
    let table = table();
    for text in ["Hello, World", "^a\u{2}", "\u{80}", ""] {
        let first = string_to_keys_and_modifiers(&table, "LAYOUT_GERMAN", text);
        let second = string_to_keys_and_modifiers(&table, "LAYOUT_GERMAN", text);
        assert_eq!(first, second);
    }
}

#[test]
fn unknown_layout_key_is_rejected_whatever_the_text() {
    let table = table();
    for text in ["", "abc", "\u{80}", "\u{1}"] {
        assert_eq!(
            string_to_keys_and_modifiers(&table, "NOT_A_LAYOUT", text),
            Err(Error::InvalidLayoutKey("NOT_A_LAYOUT".to_string()))
        );
        assert_eq!(
            string_to_hid_packets(&table, "NOT_A_LAYOUT", text),
            Err(Error::InvalidLayoutKey("NOT_A_LAYOUT".to_string()))
        );
    }
}

#[test]
fn first_code_point_past_ascii_is_rejected() {
    let table = table();
    for key in ["LAYOUT_US_ENGLISH", "LAYOUT_GERMAN"] {
        assert_eq!(
            string_to_keys_and_modifiers(&table, key, "\u{80}"),
            Err(Error::InvalidCharacter('\u{80}'))
        );
        assert_eq!(
            string_to_hid_packets(&table, key, "ab\u{80}c\u{e9}"),
            Err(Error::InvalidCharacter('\u{80}'))
        );
    }
}

#[test]
fn first_untypeable_character_is_reported() {
    let r = string_to_keys_and_modifiers(&table(), "LAYOUT_US_ENGLISH", "x\u{e9}\u{80}");
    assert_eq!(r, Err(Error::InvalidCharacter('\u{e9}')));
}

#[test]
fn empty_text_gives_nothing() {
    let table = table();
    assert_eq!(string_to_keys_and_modifiers(&table, "LAYOUT_US_ENGLISH", ""), Ok(vec![]));
    assert!(string_to_hid_packets(&table, "LAYOUT_US_ENGLISH", "").unwrap().is_empty());
}

#[test]
fn non_us_key_becomes_iso_key() {
    let mut table = LayoutTable::new();
    let layout =
        Layout::new("UK", SHIFT, None, None, Some(49), None, 0x7F, us_keycodes(), no_dead_keys());
    table.insert("LAYOUT_UNITED_KINGDOM".to_string(), layout);
    let events = string_to_keys_and_modifiers(&table, "LAYOUT_UNITED_KINGDOM", "\\|]").unwrap();
    assert_eq!(
        events,
        vec![km(100, 0, Release::All), km(100, 0x02, Release::All), km(48, 0, Release::All)]
    );
}

#[test]
fn altgr_and_ctrl_bits_set_right_modifiers() {
    let mut keycodes = us_keycodes();
    keycodes['@' as usize - 0x20] = 20 | ALTGR;
    keycodes['{' as usize - 0x20] = 36 | ALTGR | SHIFT;
    keycodes['}' as usize - 0x20] = 39 | RCTRL;
    let layout = Layout::new(
        "TEST",
        SHIFT,
        Some(ALTGR),
        Some(RCTRL),
        None,
        None,
        0x07FF,
        keycodes,
        no_dead_keys(),
    );
    let mut table = LayoutTable::new();
    table.insert("LAYOUT_TEST".to_string(), layout);
    let events = string_to_keys_and_modifiers(&table, "LAYOUT_TEST", "@{}").unwrap();
    assert_eq!(
        events,
        vec![km(20, 0x40, Release::All), km(36, 0x42, Release::All), km(39, 0x10, Release::All)]
    );
    let packets = string_to_hid_packets(&table, "LAYOUT_TEST", "@").unwrap();
    let mut expected = Vec::new();
    expected.extend(report(0x40, 20));
    expected.extend(report(0, 0));
    assert_eq!(&packets[..], &expected[..]);
}

#[test]
fn first_matching_accent_class_wins() {
    let mut keycodes = us_keycodes();
    keycodes['~' as usize - 0x20] = 0x0100 | 44;
    let deadkeys = DeadKeys::new(
        Some(0x0100),
        Some(46),
        Some(0x0100),
        Some(47),
        None,
        None,
        None,
        None,
        None,
        None,
        Some(0x0100),
        Some(48),
    );
    let layout =
        Layout::new("TEST", SHIFT, None, None, None, Some(0x0700), 0x07FF, keycodes, deadkeys);
    let mut table = LayoutTable::new();
    table.insert("LAYOUT_TEST".to_string(), layout);
    let events = string_to_keys_and_modifiers(&table, "LAYOUT_TEST", "~").unwrap();
    assert_eq!(events, vec![km(46, 0, Release::All), km(44, 0, Release::All)]);
}

#[test]
fn accent_class_without_dead_key_adds_nothing() {
    let mut keycodes = us_keycodes();
    keycodes['~' as usize - 0x20] = 0x0400 | 53;
    let deadkeys =
        DeadKeys::new(None, None, None, None, None, None, None, None, None, None, Some(0x0400), None);
    let layout =
        Layout::new("TEST", SHIFT, None, None, None, Some(0x0700), 0x07FF, keycodes, deadkeys);
    let mut table = LayoutTable::new();
    table.insert("LAYOUT_TEST".to_string(), layout);
    let events = string_to_keys_and_modifiers(&table, "LAYOUT_TEST", "~").unwrap();
    assert_eq!(events, vec![km(53, 0, Release::All)]);
}

#[test]
fn tilde_dead_key_is_used_last() {
    let mut keycodes = us_keycodes();
    keycodes['~' as usize - 0x20] = 0x0600 | 17;
    let deadkeys = DeadKeys::new(
        Some(0x0100),
        Some(46),
        Some(0x0200),
        Some(47),
        Some(0x0300),
        Some(48),
        Some(0x0400),
        Some(49),
        Some(0x0500),
        Some(50),
        Some(0x0600),
        Some(53 | SHIFT),
    );
    let layout =
        Layout::new("TEST", SHIFT, None, None, None, Some(0x0700), 0x07FF, keycodes, deadkeys);
    let mut table = LayoutTable::new();
    table.insert("LAYOUT_TEST".to_string(), layout);
    let events = string_to_keys_and_modifiers(&table, "LAYOUT_TEST", "~").unwrap();
    assert_eq!(events, vec![km(53, 0x02, Release::All), km(17, 0, Release::All)]);
}
