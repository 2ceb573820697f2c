//! Per-layout data: modifier masks, the keycode of each printable ASCII
//! character, and the dead keys used to compose accented characters.
use vstd::prelude::*;

verus! {

/// Number of printable ASCII characters (space through DEL) that a layout
/// gives a keycode for.
pub const N_ASCII_KEYCODES: usize = 96;

/// Keycode of the Enter key, before the layout's keycode mask is applied.
pub const ENTER_KEYCODE: u16 = 0xF028;

/// Keycode of the Tab key, before the layout's keycode mask is applied.
pub const TAB_KEYCODE: u16 = 0xF02B;

/// Modifier constant for Shift; its low byte is the HID modifier bit.
pub const SHIFT_MODIFIER: u16 = 0xE002;

/// Modifier constant for right Alt (AltGr); its low byte is the HID modifier bit.
pub const RIGHT_ALT_MODIFIER: u16 = 0xE040;

/// Modifier constant for right Ctrl; its low byte is the HID modifier bit.
pub const RIGHT_CTRL_MODIFIER: u16 = 0xE010;

/// The dead-key accent classes of a layout. For each class, the bits that
/// mark a keycode as needing that accent, and the keycode of the dead key
/// that produces it.
pub struct DeadKeys {
    pub acute_accent_bits: Option<u16>,
    pub deadkey_accute_accent: Option<u16>,
    pub cedilla_bits: Option<u16>,
    pub deadkey_cedilla: Option<u16>,
    pub diaeresis_bits: Option<u16>,
    pub deadkey_diaeresis: Option<u16>,
    pub grave_accent_bits: Option<u16>,
    pub deadkey_grave_accent: Option<u16>,
    pub circumflex_bits: Option<u16>,
    pub deadkey_circumflex: Option<u16>,
    pub tilde_bits: Option<u16>,
    pub deadkey_tilde: Option<u16>,
}

/// One keyboard layout: the masks that tell which modifiers a keycode needs,
/// and the keycodes of the printable ASCII characters, space first.
pub struct Layout {
    pub layout_name: &'static str,
    pub shift_mask: u16,
    pub alt_mask: Option<u16>,
    pub ctrl_mask: Option<u16>,
    pub non_us: Option<u16>,
    pub dead_keys_mask: Option<u16>,
    pub keycode_mask: u16,
    pub keycodes: Vec<u16>,
    pub deadkeys: DeadKeys,
}

impl DeadKeys {
    pub fn new(
        acute_accent_bits: Option<u16>,
        deadkey_accute_accent: Option<u16>,
        cedilla_bits: Option<u16>,
        deadkey_cedilla: Option<u16>,
        diaeresis_bits: Option<u16>,
        deadkey_diaeresis: Option<u16>,
        grave_accent_bits: Option<u16>,
        deadkey_grave_accent: Option<u16>,
        circumflex_bits: Option<u16>,
        deadkey_circumflex: Option<u16>,
        tilde_bits: Option<u16>,
        deadkey_tilde: Option<u16>,
    ) -> (r: DeadKeys)
        ensures
            r.acute_accent_bits == acute_accent_bits,
            r.deadkey_accute_accent == deadkey_accute_accent,
            r.cedilla_bits == cedilla_bits,
            r.deadkey_cedilla == deadkey_cedilla,
            r.diaeresis_bits == diaeresis_bits,
            r.deadkey_diaeresis == deadkey_diaeresis,
            r.grave_accent_bits == grave_accent_bits,
            r.deadkey_grave_accent == deadkey_grave_accent,
            r.circumflex_bits == circumflex_bits,
            r.deadkey_circumflex == deadkey_circumflex,
            r.tilde_bits == tilde_bits,
            r.deadkey_tilde == deadkey_tilde,
    {
        DeadKeys {
            acute_accent_bits,
            deadkey_accute_accent,
            cedilla_bits,
            deadkey_cedilla,
            diaeresis_bits,
            deadkey_diaeresis,
            grave_accent_bits,
            deadkey_grave_accent,
            circumflex_bits,
            deadkey_circumflex,
            tilde_bits,
            deadkey_tilde,
        }
    }
}

impl Layout {
    /// A layout is usable when it gives a keycode for every printable ASCII
    /// character.
    pub open spec fn wf(&self) -> bool {
        self.keycodes@.len() == N_ASCII_KEYCODES
    }

    pub fn new(
        layout_name: &'static str,
        shift_mask: u16,
        alt_mask: Option<u16>,
        ctrl_mask: Option<u16>,
        non_us: Option<u16>,
        dead_keys_mask: Option<u16>,
        keycode_mask: u16,
        keycodes: Vec<u16>,
        deadkeys: DeadKeys,
    ) -> (r: Layout)
        requires
            keycodes@.len() == N_ASCII_KEYCODES,
        ensures
            r.wf(),
            r.layout_name == layout_name,
            r.shift_mask == shift_mask,
            r.alt_mask == alt_mask,
            r.ctrl_mask == ctrl_mask,
            r.non_us == non_us,
            r.dead_keys_mask == dead_keys_mask,
            r.keycode_mask == keycode_mask,
            r.keycodes@ == keycodes@,
            r.deadkeys == deadkeys,
    {
        Layout {
            layout_name,
            shift_mask,
            alt_mask,
            ctrl_mask,
            non_us,
            dead_keys_mask,
            keycode_mask,
            keycodes,
            deadkeys,
        }
    }
}

/// No key occurs twice among `entries`.
spec fn keys_unique(entries: Seq<(String, Layout)>) -> bool {
    forall|i: int, j: int|
        0 <= i < j < entries.len() ==> (#[trigger] entries[i]).0@ != (#[trigger] entries[j]).0@
}

/// The layout stored under `key` among `entries`.
spec fn layout_in(entries: Seq<(String, Layout)>, key: Seq<char>) -> Option<Layout> {
    if exists|i: int| 0 <= i < entries.len() && #[trigger] entries[i].0@ == key {
        let i = choose|i: int| 0 <= i < entries.len() && #[trigger] entries[i].0@ == key;
        Some(entries[i].1)
    } else {
        None
    }
}

proof fn lemma_layout_at(entries: Seq<(String, Layout)>, i: int, key: Seq<char>)
    requires
        keys_unique(entries),
        0 <= i < entries.len(),
        entries[i].0@ == key,
    ensures
        layout_in(entries, key) == Some(entries[i].1),
{
    let c = choose|c: int| 0 <= c < entries.len() && #[trigger] entries[c].0@ == key;
    assert(entries[c].0@ == key);
    if c < i {
        assert(entries[c].0@ != entries[i].0@);
    } else if i < c {
        assert(entries[i].0@ != entries[c].0@);
    }
}

/// Lookups of keys other than `key` see the same layouts in `a` and `b`,
/// where `b` differs from `a` only in an entry stored under `key`, or in
/// one added under `key`.
proof fn lemma_other_keys_kept(
    a: Seq<(String, Layout)>,
    b: Seq<(String, Layout)>,
    key: Seq<char>,
    k: Seq<char>,
)
    requires
        keys_unique(a),
        keys_unique(b),
        a.len() <= b.len(),
        k != key,
        forall|j: int| 0 <= j < a.len() && a[j].0@ != key ==> #[trigger] b[j] == a[j],
        forall|j: int| 0 <= j < b.len() && #[trigger] b[j].0@ != key ==> j < a.len(),
        forall|j: int| 0 <= j < a.len() ==> #[trigger] b[j].0@ == a[j].0@,
    ensures
        layout_in(b, k) == layout_in(a, k),
{
    if exists|j: int| 0 <= j < a.len() && #[trigger] a[j].0@ == k {
        let j = choose|j: int| 0 <= j < a.len() && #[trigger] a[j].0@ == k;
        lemma_layout_at(a, j, k);
        assert(a[j].0@ != key);
        assert(b[j] == a[j]);
        lemma_layout_at(b, j, k);
    } else if exists|j: int| 0 <= j < b.len() && #[trigger] b[j].0@ == k {
        let j = choose|j: int| 0 <= j < b.len() && #[trigger] b[j].0@ == k;
        assert(j < a.len());
        assert(b[j].0@ == a[j].0@);
    }
}

/// The layouts known to the encoder, each under its own key
/// (for instance `LAYOUT_US_ENGLISH`). Built once with `new` and `insert`,
/// which keep it well formed, then only read.
pub struct LayoutTable {
    entries: Vec<(String, Layout)>,
}

impl LayoutTable {
    /// Every stored layout is usable, and no key is stored twice.
    pub closed spec fn wf(&self) -> bool {
        &&& forall|i: int| 0 <= i < self.entries@.len() ==> (#[trigger] self.entries@[i]).1.wf()
        &&& keys_unique(self.entries@)
    }

    /// The keys of the table, in the order in which they were first inserted.
    pub closed spec fn keys(&self) -> Seq<Seq<char>> {
        self.entries@.map_values(|e: (String, Layout)| e.0@)
    }

    /// The layout stored under `key`, if any.
    pub closed spec fn layout_for(&self, key: Seq<char>) -> Option<Layout> {
        layout_in(self.entries@, key)
    }

    pub fn new() -> (r: LayoutTable)
        ensures
            r.wf(),
            r.keys() == Seq::<Seq<char>>::empty(),
            forall|k: Seq<char>| r.layout_for(k) is None,
    {
        LayoutTable { entries: Vec::new() }
    }

    /// Stores `layout` under `key`, replacing the layout that was there.
    pub fn insert(&mut self, key: String, layout: Layout)
        requires
            old(self).wf(),
            layout.wf(),
        ensures
            final(self).wf(),
            final(self).layout_for(key@) == Some(layout),
            forall|k: Seq<char>| k != key@ ==> final(self).layout_for(k) == old(self).layout_for(k),
            old(self).keys().contains(key@) ==> final(self).keys() == old(self).keys(),
            !old(self).keys().contains(key@) ==> final(self).keys() == old(self).keys().push(key@),
    {
        let ghost before = self.entries@;
        let ghost wanted = key@;
        let n = self.entries.len();
        let mut i: usize = 0;
        while i < n
            invariant
                self.entries@ == before,
                old(self).entries@ == before,
                self.wf(),
                layout.wf(),
                wanted == key@,
                n == before.len(),
                i <= n,
                forall|j: int| 0 <= j < i ==> (#[trigger] before[j]).0@ != wanted,
            decreases n - i,
        {
            let same = self.entries[i].0.eq(&key);
            assert(same == (self.entries@[i as int].0@ == key@));
            assert(same == (before[i as int].0@ == wanted));
            if same {
                self.entries.set(i, (key, layout));
                proof {
                    let after = self.entries@;
                    assert(keys_unique(after)) by {
                        assert forall|a: int, b: int| 0 <= a < b < after.len() implies
                            (#[trigger] after[a]).0@ != (#[trigger] after[b]).0@ by {
                            assert(after[a].0@ == before[a].0@);
                            assert(after[b].0@ == before[b].0@);
                        }
                    }
                    lemma_layout_at(after, i as int, wanted);
                    assert forall|k: Seq<char>| k != wanted implies
                        #[trigger] layout_in(after, k) == layout_in(before, k) by {
                        lemma_other_keys_kept(before, after, wanted, k);
                    }
                    assert(before.map_values(|e: (String, Layout)| e.0@)
                        =~= after.map_values(|e: (String, Layout)| e.0@));
                    assert(before.map_values(|e: (String, Layout)| e.0@)[i as int] == wanted);
                }
                return;
            }
            i = i + 1;
        }
        self.entries.push((key, layout));
        proof {
            let after = self.entries@;
            assert(after[n as int].0@ == wanted);
            assert(keys_unique(after)) by {
                assert forall|a: int, b: int| 0 <= a < b < after.len() implies
                    (#[trigger] after[a]).0@ != (#[trigger] after[b]).0@ by {
                    if b == n {
                        assert(before[a].0@ != wanted);
                    } else {
                        assert(after[a] == before[a]);
                        assert(after[b] == before[b]);
                    }
                }
            }
            lemma_layout_at(after, n as int, wanted);
            assert forall|k: Seq<char>| k != wanted implies
                #[trigger] layout_in(after, k) == layout_in(before, k) by {
                lemma_other_keys_kept(before, after, wanted, k);
            }
            let old_keys = before.map_values(|e: (String, Layout)| e.0@);
            assert(after.map_values(|e: (String, Layout)| e.0@) =~= old_keys.push(wanted));
            assert(!old_keys.contains(wanted)) by {
                if old_keys.contains(wanted) {
                    let j = choose|j: int| 0 <= j < old_keys.len() && old_keys[j] == wanted;
                    assert(before[j].0@ != wanted);
                }
            }
        }
    }

    /// The layout stored under `key`.
    pub fn get(&self, key: &str) -> (r: Option<&Layout>)
        requires
            self.wf(),
        ensures
            r matches Some(l) ==> *l == self.layout_for(key@)->0 && l.wf(),
            r is None <==> self.layout_for(key@) is None,
    {
        let wanted = key.to_owned();
        let n = self.entries.len();
        let mut i: usize = 0;
        while i < n
            invariant
                self.wf(),
                n == self.entries@.len(),
                i <= n,
                wanted@ == key@,
                forall|j: int| 0 <= j < i ==> (#[trigger] self.entries@[j]).0@ != key@,
            decreases n - i,
        {
            if self.entries[i].0 == wanted {
                proof {
                    lemma_layout_at(self.entries@, i as int, key@);
                }
                return Some(&self.entries[i].1);
            }
            i = i + 1;
        }
        None
    }
}

/// Get a list of the supported keyboard layouts, in the order in which they
/// were added to the table.
pub fn available_layouts(table: &LayoutTable) -> (r: Vec<&str>)
    ensures
        r@.len() == table.keys().len(),
        forall|i: int| 0 <= i < r@.len() ==> (#[trigger] r@[i])@ == table.keys()[i],
{
    let n = table.entries.len();
    let mut names: Vec<&str> = Vec::with_capacity(n);
    let mut i: usize = 0;
    while i < n
        invariant
            n == table.entries@.len(),
            i <= n,
            names@.len() == i,
            forall|j: int| 0 <= j < i ==> (#[trigger] names@[j])@ == table.entries@[j].0@,
        decreases n - i,
    {
        names.push(table.entries[i].0.as_str());
        i = i + 1;
    }
    names
}

} // verus!
