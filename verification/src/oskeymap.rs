//! Keycode labels under the operating system's keyboard layout: which
//! character each printable QMK keycode produces, unshifted for plain keycodes
//! and shifted for the Shift aliases that Oryx uses for symbols.

use vstd::prelude::*;
use crate::text::{
    chars_of, control, hex_char, is_control, printable, same_text, starts_with, to_uppercase,
    uppercase,
};

verus! {

/// How many plain printable keycodes there are.
pub const KEY_COUNT: usize = 48;

/// How many Shift-alias keycodes there are.
pub const ALIAS_COUNT: usize = 21;

/// How many keycodes get a label: the plain ones, then the aliases.
pub const KEYCODE_COUNT: usize = 69;

/// Position in the key table of the first key that an alias stands for (`KC_1`).
pub const FIRST_ALIAS_BASE: usize = 26;

/// Printable keys: QMK keycode name, evdev keycode (Linux), scan code set 1 (Windows).
pub open spec fn key_table() -> Seq<(Seq<char>, u32, u16)> {
    seq![
        ("KC_A"@, 30u32, 0x1Eu16),
        ("KC_B"@, 48u32, 0x30u16),
        ("KC_C"@, 46u32, 0x2Eu16),
        ("KC_D"@, 32u32, 0x20u16),
        ("KC_E"@, 18u32, 0x12u16),
        ("KC_F"@, 33u32, 0x21u16),
        ("KC_G"@, 34u32, 0x22u16),
        ("KC_H"@, 35u32, 0x23u16),
        ("KC_I"@, 23u32, 0x17u16),
        ("KC_J"@, 36u32, 0x24u16),
        ("KC_K"@, 37u32, 0x25u16),
        ("KC_L"@, 38u32, 0x26u16),
        ("KC_M"@, 50u32, 0x32u16),
        ("KC_N"@, 49u32, 0x31u16),
        ("KC_O"@, 24u32, 0x18u16),
        ("KC_P"@, 25u32, 0x19u16),
        ("KC_Q"@, 16u32, 0x10u16),
        ("KC_R"@, 19u32, 0x13u16),
        ("KC_S"@, 31u32, 0x1Fu16),
        ("KC_T"@, 20u32, 0x14u16),
        ("KC_U"@, 22u32, 0x16u16),
        ("KC_V"@, 47u32, 0x2Fu16),
        ("KC_W"@, 17u32, 0x11u16),
        ("KC_X"@, 45u32, 0x2Du16),
        ("KC_Y"@, 21u32, 0x15u16),
        ("KC_Z"@, 44u32, 0x2Cu16),
        ("KC_1"@, 2u32, 0x02u16),
        ("KC_2"@, 3u32, 0x03u16),
        ("KC_3"@, 4u32, 0x04u16),
        ("KC_4"@, 5u32, 0x05u16),
        ("KC_5"@, 6u32, 0x06u16),
        ("KC_6"@, 7u32, 0x07u16),
        ("KC_7"@, 8u32, 0x08u16),
        ("KC_8"@, 9u32, 0x09u16),
        ("KC_9"@, 10u32, 0x0Au16),
        ("KC_0"@, 11u32, 0x0Bu16),
        ("KC_MINUS"@, 12u32, 0x0Cu16),
        ("KC_EQUAL"@, 13u32, 0x0Du16),
        ("KC_LBRC"@, 26u32, 0x1Au16),
        ("KC_RBRC"@, 27u32, 0x1Bu16),
        ("KC_BSLS"@, 43u32, 0x2Bu16),
        ("KC_SCLN"@, 39u32, 0x27u16),
        ("KC_QUOTE"@, 40u32, 0x28u16),
        ("KC_GRAVE"@, 41u32, 0x29u16),
        ("KC_COMMA"@, 51u32, 0x33u16),
        ("KC_DOT"@, 52u32, 0x34u16),
        ("KC_SLASH"@, 53u32, 0x35u16),
        ("KC_NONUS_BSLS"@, 86u32, 0x56u16),
    ]
}

/// Shift-alias keycodes and the key whose shifted character labels them.
pub open spec fn alias_table() -> Seq<(Seq<char>, Seq<char>)> {
    seq![
        ("KC_EXLM"@, "KC_1"@),
        ("KC_AT"@, "KC_2"@),
        ("KC_HASH"@, "KC_3"@),
        ("KC_DLR"@, "KC_4"@),
        ("KC_PERC"@, "KC_5"@),
        ("KC_CIRC"@, "KC_6"@),
        ("KC_AMPR"@, "KC_7"@),
        ("KC_ASTR"@, "KC_8"@),
        ("KC_LPRN"@, "KC_9"@),
        ("KC_RPRN"@, "KC_0"@),
        ("KC_UNDS"@, "KC_MINUS"@),
        ("KC_PLUS"@, "KC_EQUAL"@),
        ("KC_LCBR"@, "KC_LBRC"@),
        ("KC_RCBR"@, "KC_RBRC"@),
        ("KC_PIPE"@, "KC_BSLS"@),
        ("KC_COLN"@, "KC_SCLN"@),
        ("KC_DQUO"@, "KC_QUOTE"@),
        ("KC_TILD"@, "KC_GRAVE"@),
        ("KC_LABK"@, "KC_COMMA"@),
        ("KC_RABK"@, "KC_DOT"@),
        ("KC_QUES"@, "KC_SLASH"@),
    ]
}

/// The position in the key table of the key that alias `j` stands for.
pub open spec fn alias_base(j: int) -> int {
    FIRST_ALIAS_BASE + j
}

/// The name of keycode `k`: the plain keys, then the aliases.
pub open spec fn keycode_name(k: int) -> Seq<char> {
    if k < KEY_COUNT {
        key_table()[k].0
    } else {
        alias_table()[k - KEY_COUNT].0
    }
}

/// Alias `j` stands for the key at `alias_base(j)`: the names agree.
pub proof fn lemma_alias_bases(j: int)
    requires
        0 <= j < ALIAS_COUNT,
    ensures
        key_table()[alias_base(j)].0 == alias_table()[j].1,
{
    let names = key_table().subrange(FIRST_ALIAS_BASE as int, KEY_COUNT - 1).map_values(
        |e: (Seq<char>, u32, u16)| e.0,
    );
    let bases = alias_table().map_values(|e: (Seq<char>, Seq<char>)| e.1);
    assert(names =~= bases);
    assert(names[j] == bases[j]);
}

/// The printable keys, in table order.
pub fn keys() -> (v: Vec<(&'static str, u32, u16)>)
    ensures
        v.deep_view() == key_table(),
{
    let v = vec![
        ("KC_A", 30, 0x1E),
        ("KC_B", 48, 0x30),
        ("KC_C", 46, 0x2E),
        ("KC_D", 32, 0x20),
        ("KC_E", 18, 0x12),
        ("KC_F", 33, 0x21),
        ("KC_G", 34, 0x22),
        ("KC_H", 35, 0x23),
        ("KC_I", 23, 0x17),
        ("KC_J", 36, 0x24),
        ("KC_K", 37, 0x25),
        ("KC_L", 38, 0x26),
        ("KC_M", 50, 0x32),
        ("KC_N", 49, 0x31),
        ("KC_O", 24, 0x18),
        ("KC_P", 25, 0x19),
        ("KC_Q", 16, 0x10),
        ("KC_R", 19, 0x13),
        ("KC_S", 31, 0x1F),
        ("KC_T", 20, 0x14),
        ("KC_U", 22, 0x16),
        ("KC_V", 47, 0x2F),
        ("KC_W", 17, 0x11),
        ("KC_X", 45, 0x2D),
        ("KC_Y", 21, 0x15),
        ("KC_Z", 44, 0x2C),
        ("KC_1", 2, 0x02),
        ("KC_2", 3, 0x03),
        ("KC_3", 4, 0x04),
        ("KC_4", 5, 0x05),
        ("KC_5", 6, 0x06),
        ("KC_6", 7, 0x07),
        ("KC_7", 8, 0x08),
        ("KC_8", 9, 0x09),
        ("KC_9", 10, 0x0A),
        ("KC_0", 11, 0x0B),
        ("KC_MINUS", 12, 0x0C),
        ("KC_EQUAL", 13, 0x0D),
        ("KC_LBRC", 26, 0x1A),
        ("KC_RBRC", 27, 0x1B),
        ("KC_BSLS", 43, 0x2B),
        ("KC_SCLN", 39, 0x27),
        ("KC_QUOTE", 40, 0x28),
        ("KC_GRAVE", 41, 0x29),
        ("KC_COMMA", 51, 0x33),
        ("KC_DOT", 52, 0x34),
        ("KC_SLASH", 53, 0x35),
        ("KC_NONUS_BSLS", 86, 0x56),
    ];
    assert(v.deep_view() =~= key_table());
    v
}

/// The Shift aliases and the keys they stand for, in table order.
pub fn shift_aliases() -> (v: Vec<(&'static str, &'static str)>)
    ensures
        v.deep_view() == alias_table(),
{
    let v = vec![
        ("KC_EXLM", "KC_1"),
        ("KC_AT", "KC_2"),
        ("KC_HASH", "KC_3"),
        ("KC_DLR", "KC_4"),
        ("KC_PERC", "KC_5"),
        ("KC_CIRC", "KC_6"),
        ("KC_AMPR", "KC_7"),
        ("KC_ASTR", "KC_8"),
        ("KC_LPRN", "KC_9"),
        ("KC_RPRN", "KC_0"),
        ("KC_UNDS", "KC_MINUS"),
        ("KC_PLUS", "KC_EQUAL"),
        ("KC_LCBR", "KC_LBRC"),
        ("KC_RCBR", "KC_RBRC"),
        ("KC_PIPE", "KC_BSLS"),
        ("KC_COLN", "KC_SCLN"),
        ("KC_DQUO", "KC_QUOTE"),
        ("KC_TILD", "KC_GRAVE"),
        ("KC_LABK", "KC_COMMA"),
        ("KC_RABK", "KC_DOT"),
        ("KC_QUES", "KC_SLASH"),
    ];
    assert(v.deep_view() =~= alias_table());
    v
}


/// The keycode names in label-map order: the plain keys, then the aliases.
pub fn keycode_names() -> (v: Vec<&'static str>)
    ensures
        v@.len() == KEYCODE_COUNT,
        forall|k: int| 0 <= k < KEYCODE_COUNT ==> #[trigger] v.deep_view()[k] == keycode_name(k),
{
    let plain = keys();
    let aliases = shift_aliases();
    assert(key_table().len() == KEY_COUNT);
    assert(alias_table().len() == ALIAS_COUNT);
    assert(plain.deep_view().len() == plain@.len());
    assert(aliases.deep_view().len() == aliases@.len());
    let mut v: Vec<&'static str> = Vec::new();
    let mut i: usize = 0;
    while i < KEY_COUNT
        invariant
            plain.deep_view() == key_table(),
            plain@.len() == KEY_COUNT,
            i <= KEY_COUNT,
            v@.len() == i,
            forall|k: int| 0 <= k < i ==> #[trigger] v.deep_view()[k] == keycode_name(k),
        decreases KEY_COUNT - i,
    {
        let ghost before = v@;
        let ghost before_deep = v.deep_view();
        v.push(plain[i].0);
        assert(plain.deep_view()[i as int] == plain@[i as int].deep_view());
        assert(v.deep_view()[i as int] == v@[i as int].deep_view());
        assert forall|k: int| 0 <= k <= i implies #[trigger] v.deep_view()[k] == keycode_name(k) by {
            if k < i {
                assert(v@[k] == before[k]);
                assert(v.deep_view()[k] == v@[k].deep_view());
                assert(before_deep[k] == before[k].deep_view());
            }
        }
        i = i + 1;
    }
    let mut j: usize = 0;
    while j < ALIAS_COUNT
        invariant
            aliases.deep_view() == alias_table(),
            aliases@.len() == ALIAS_COUNT,
            j <= ALIAS_COUNT,
            v@.len() == KEY_COUNT + j,
            forall|k: int| 0 <= k < KEY_COUNT + j ==> #[trigger] v.deep_view()[k] == keycode_name(k),
        decreases ALIAS_COUNT - j,
    {
        let ghost before = v@;
        let ghost before_deep = v.deep_view();
        v.push(aliases[j].0);
        assert(aliases.deep_view()[j as int] == aliases@[j as int].deep_view());
        assert(v.deep_view()[KEY_COUNT + j] == v@[KEY_COUNT + j].deep_view());
        assert forall|k: int| 0 <= k <= KEY_COUNT + j implies #[trigger] v.deep_view()[k]
            == keycode_name(k) by {
            if k < KEY_COUNT + j {
                assert(v@[k] == before[k]);
                assert(v.deep_view()[k] == v@[k].deep_view());
                assert(before_deep[k] == before[k].deep_view());
            }
        }
        j = j + 1;
    }
    v
}

/// The glyph shown for a dead key, which produces no character on its own,
/// by the keysym name that follows `dead_`.
pub open spec fn dead_key_glyph_of(name: Seq<char>) -> Option<Seq<char>> {
    if name == "circumflex"@ {
        Some("^"@)
    } else if name == "diaeresis"@ {
        Some("¨"@)
    } else if name == "grave"@ {
        Some("`"@)
    } else if name == "acute"@ {
        Some("´"@)
    } else if name == "tilde"@ {
        Some("~"@)
    } else if name == "cedilla"@ {
        Some("¸"@)
    } else if name == "caron"@ {
        Some("ˇ"@)
    } else if name == "macron"@ {
        Some("¯"@)
    } else if name == "breve"@ {
        Some("˘"@)
    } else if name == "abovering"@ {
        Some("˚"@)
    } else if name == "abovedot"@ {
        Some("˙"@)
    } else if name == "doubleacute"@ {
        Some("˝"@)
    } else if name == "ogonek"@ {
        Some("˛"@)
    } else {
        None
    }
}

/// Glyphs for dead keys, which produce no character on their own.
pub fn dead_key_glyph(name: &str) -> (r: Option<&'static str>)
    ensures
        r.deep_view() == dead_key_glyph_of(name@),
{
    if same_text(name, "circumflex") {
        Some("^")
    } else if same_text(name, "diaeresis") {
        Some("¨")
    } else if same_text(name, "grave") {
        Some("`")
    } else if same_text(name, "acute") {
        Some("´")
    } else if same_text(name, "tilde") {
        Some("~")
    } else if same_text(name, "cedilla") {
        Some("¸")
    } else if same_text(name, "caron") {
        Some("ˇ")
    } else if same_text(name, "macron") {
        Some("¯")
    } else if same_text(name, "breve") {
        Some("˘")
    } else if same_text(name, "abovering") {
        Some("˚")
    } else if same_text(name, "abovedot") {
        Some("˙")
    } else if same_text(name, "doubleacute") {
        Some("˝")
    } else if same_text(name, "ogonek") {
        Some("˛")
    } else {
        None
    }
}

/// The prefix of the keysym names of dead keys.
pub open spec fn dead_prefix() -> Seq<char> {
    "dead_"@
}

/// The label of a key under an X keyboard layout, from the UTF-8 text the
/// key produces and the name of its keysym: the text where it is non-empty
/// and holds no control character, else the glyph of a dead key, else nothing.
pub open spec fn key_label_of(text: Seq<char>, keysym_name: Seq<char>) -> Seq<char> {
    if text.len() > 0 && printable(text) {
        text
    } else if dead_prefix().len() <= keysym_name.len() && keysym_name.take(
        dead_prefix().len() as int,
    ) == dead_prefix() {
        match dead_key_glyph_of(keysym_name.skip(dead_prefix().len() as int)) {
            Some(g) => g,
            None => Seq::empty(),
        }
    } else {
        Seq::empty()
    }
}

/// The X keycode of a key given by its evdev keycode (X keycodes are offset by 8).
pub fn x_keycode(evdev: u32) -> (r: u32)
    requires
        evdev + 8 <= u32::MAX,
    ensures
        r == evdev + 8,
{
    evdev + 8
}

/// Whether a string holds no control character.
fn is_printable(s: &str) -> (r: bool)
    ensures
        r == printable(s@),
{
    let v = chars_of(s);
    let mut i: usize = 0;
    while i < v.len()
        invariant
            v@ == s@,
            i <= v@.len(),
            forall|k: int| 0 <= k < i ==> !control(#[trigger] v@[k]),
        decreases v@.len() - i,
    {
        if is_control(v[i]) {
            return false;
        }
        i = i + 1;
    }
    true
}

/// The label of a key under an X keyboard layout (see `key_label_of`).
pub fn key_label(text: String, keysym_name: &str) -> (r: String)
    ensures
        r@ == key_label_of(text@, keysym_name@),
{
    if text.as_str().unicode_len() > 0 && is_printable(text.as_str()) {
        return text;
    }
    if starts_with(keysym_name, "dead_") {
        let n = keysym_name.unicode_len();
        proof {
            reveal_strlit("dead_");
        }
        let rest = keysym_name.substring_char(5, n);
        assert(rest@ =~= keysym_name@.skip(dead_prefix().len() as int));
        match dead_key_glyph(rest) {
            Some(g) => String::from_str(g),
            None => String::new(),
        }
    } else {
        String::new()
    }
}

/// The label a plain key displays from the characters it produces unshifted
/// and shifted: uppercase only where Shift produces the uppercase of the
/// unshifted character and something other than it (a letter key), else the
/// unshifted character (so the AZERTY `é` key, whose Shift gives `2`, shows `é`).
pub open spec fn plain_label(unshifted: Seq<char>, shifted: Seq<char>) -> Seq<char> {
    let upper = uppercase(unshifted);
    if shifted == upper && shifted != unshifted {
        upper
    } else {
        unshifted
    }
}

/// The label of keycode `k` given, for each key of the key table, the
/// characters it produces unshifted and shifted: a plain key shows its
/// `plain_label` where it produces something unshifted; an alias shows the
/// shifted character of its key where there is one; other keycodes get none.
pub open spec fn keycode_label(chars: Seq<(Seq<char>, Seq<char>)>, k: int) -> Option<Seq<char>> {
    if k < KEY_COUNT {
        if chars[k].0.len() > 0 {
            Some(plain_label(chars[k].0, chars[k].1))
        } else {
            None
        }
    } else {
        let shifted = chars[alias_base(k - KEY_COUNT)].1;
        if shifted.len() > 0 {
            Some(shifted)
        } else {
            None
        }
    }
}

/// Assembles the keycode labels (indexed as `keycode_name`) from the
/// characters each key of the key table produces unshifted and shifted.
pub fn build_map(chars: &Vec<(String, String)>) -> (r: Vec<Option<String>>)
    requires
        chars@.len() == KEY_COUNT,
    ensures
        r@.len() == KEYCODE_COUNT,
        forall|k: int|
            0 <= k < KEYCODE_COUNT ==> #[trigger] r.deep_view()[k] == keycode_label(
                chars.deep_view(),
                k,
            ),
        forall|k: int|
            0 <= k < KEYCODE_COUNT && #[trigger] r.deep_view()[k] is Some ==> r.deep_view()[k]->0.len()
                > 0,
{
    let mut r: Vec<Option<String>> = Vec::new();
    let mut i: usize = 0;
    while i < KEY_COUNT
        invariant
            chars@.len() == KEY_COUNT,
            i <= KEY_COUNT,
            r@.len() == i,
            forall|k: int|
                0 <= k < i ==> #[trigger] r.deep_view()[k] == keycode_label(chars.deep_view(), k),
            forall|k: int|
                0 <= k < i && #[trigger] r.deep_view()[k] is Some ==> r.deep_view()[k]->0.len() > 0,
        decreases KEY_COUNT - i,
    {
        let ghost before = r@;
        let ghost before_deep = r.deep_view();
        let unshifted = &chars[i].0;
        let shifted = &chars[i].1;
        assert(chars.deep_view()[i as int] == (unshifted@, shifted@));
        if unshifted.as_str().unicode_len() == 0 {
            r.push(None);
        } else {
            let upper = to_uppercase(unshifted.as_str());
            if *shifted == upper && *shifted != *unshifted {
                r.push(Some(upper));
            } else {
                r.push(Some(unshifted.clone()));
            }
        }
        assert(r.deep_view()[i as int] == keycode_label(chars.deep_view(), i as int));
        assert forall|k: int| 0 <= k < i implies #[trigger] r.deep_view()[k] == keycode_label(
            chars.deep_view(),
            k,
        ) by {
            assert(r@[k] == before[k]);
            assert(r.deep_view()[k] == r@[k].deep_view());
            assert(before_deep[k] == before[k].deep_view());
        }
        assert forall|k: int| 0 <= k <= i && #[trigger] r.deep_view()[k] is Some implies r.deep_view()[k]->0.len() > 0 by {
            if k < i {
                assert(r@[k] == before[k]);
                assert(r.deep_view()[k] == r@[k].deep_view());
                assert(before_deep[k] == before[k].deep_view());
            }
        }
        i = i + 1;
    }
    let mut j: usize = 0;
    while j < ALIAS_COUNT
        invariant
            chars@.len() == KEY_COUNT,
            j <= ALIAS_COUNT,
            r@.len() == KEY_COUNT + j,
            forall|k: int|
                0 <= k < KEY_COUNT + j ==> #[trigger] r.deep_view()[k] == keycode_label(
                    chars.deep_view(),
                    k,
                ),
            forall|k: int|
                0 <= k < KEY_COUNT + j && #[trigger] r.deep_view()[k] is Some ==> r.deep_view()[k]->0.len() > 0,
        decreases ALIAS_COUNT - j,
    {
        let ghost before = r@;
        let ghost before_deep = r.deep_view();
        let shifted = &chars[FIRST_ALIAS_BASE + j].1;
        assert(chars.deep_view()[FIRST_ALIAS_BASE + j].1 == shifted@);
        if shifted.as_str().unicode_len() == 0 {
            r.push(None);
        } else {
            r.push(Some(shifted.clone()));
        }
        assert(r.deep_view()[KEY_COUNT + j] == keycode_label(chars.deep_view(), KEY_COUNT + j));
        assert forall|k: int| 0 <= k < KEY_COUNT + j implies #[trigger] r.deep_view()[k]
            == keycode_label(chars.deep_view(), k) by {
            assert(r@[k] == before[k]);
            assert(r.deep_view()[k] == r@[k].deep_view());
            assert(before_deep[k] == before[k].deep_view());
        }
        assert forall|k: int| 0 <= k <= KEY_COUNT + j && #[trigger] r.deep_view()[k] is Some implies r.deep_view()[k]->0.len() > 0 by {
            if k < KEY_COUNT + j {
                assert(r@[k] == before[k]);
                assert(r.deep_view()[k] == r@[k].deep_view());
                assert(before_deep[k] == before[k].deep_view());
            }
        }
        j = j + 1;
    }
    r
}

/// A keyboard layout's name and the label of each keycode under it
/// (indexed as `keycode_name`; `None` where the keycode shows no label).
#[derive(Debug, PartialEq, Eq)]
pub struct LayoutMap {
    pub name: String,
    pub map: Vec<Option<String>>,
}

impl View for LayoutMap {
    type V = (Seq<char>, Seq<Option<Seq<char>>>);

    open spec fn view(&self) -> Self::V {
        (self.name@, self.map.deep_view())
    }
}

/// Whether two optional labels are the same.
fn same_label(a: &Option<String>, b: &Option<String>) -> (r: bool)
    ensures
        r == (a.deep_view() == b.deep_view()),
{
    match (a, b) {
        (Some(x), Some(y)) => *x == *y,
        (None, None) => true,
        _ => false,
    }
}

/// Whether two layout maps have the same name and labels.
pub fn same_layout(a: &LayoutMap, b: &LayoutMap) -> (r: bool)
    ensures
        r == (a@ == b@),
{
    if a.name != b.name {
        return false;
    }
    if a.map.len() != b.map.len() {
        assert(a.map.deep_view().len() != b.map.deep_view().len());
        return false;
    }
    let n = a.map.len();
    let mut i: usize = 0;
    while i < n
        invariant
            n == a.map@.len(),
            n == b.map@.len(),
            i <= n,
            forall|k: int| 0 <= k < i ==> a.map.deep_view()[k] == b.map.deep_view()[k],
        decreases n - i,
    {
        if !same_label(&a.map[i], &b.map[i]) {
            assert(a.map.deep_view()[i as int] != b.map.deep_view()[i as int]);
            return false;
        }
        i = i + 1;
    }
    assert(a.map.deep_view() =~= b.map.deep_view());
    true
}

/// Whether the layout just read must be published: it differs from the last
/// one published, or none was.
pub fn layout_changed(last: &Option<LayoutMap>, current: &LayoutMap) -> (r: bool)
    ensures
        r == !(last matches Some(l) && l@ == current@),
{
    match last {
        Some(l) => !same_layout(l, current),
        None => true,
    }
}

/// Reads the active keyboard layout on a platform with no way to read it:
/// there is none.
pub fn current_layout() -> (r: Option<LayoutMap>)
    ensures
        r is None,
{
    None
}

/// UTF-16 code units decoded as `String::from_utf16_lossy` decodes them: a
/// unit outside U+D800..U+DFFF is its own character; a high surrogate
/// (U+D800..U+DBFF) followed by a low one (U+DC00..U+DFFF) is the character
/// they encode together; any other surrogate is U+FFFD.
pub open spec fn utf16_lossy(units: Seq<u16>) -> Seq<char>
    decreases units.len(),
{
    if units.len() == 0 {
        Seq::empty()
    } else if units[0] < 0xD800 || units[0] > 0xDFFF {
        seq![units[0] as char] + utf16_lossy(units.drop_first())
    } else if units[0] <= 0xDBFF && units.len() >= 2 && 0xDC00 <= units[1] <= 0xDFFF {
        seq![
            (0x10000 + (units[0] - 0xD800) * 0x400 + (units[1] - 0xDC00)) as char,
        ] + utf16_lossy(units.subrange(2, units.len() as int))
    } else {
        seq!['\u{FFFD}'] + utf16_lossy(units.drop_first())
    }
}

/// Calls `String::from_utf16_lossy`, which decodes as `utf16_lossy` says.
#[verifier::external_body]
fn from_utf16_lossy(units: &[u16]) -> (r: String)
    ensures
        r@ == utf16_lossy(units@),
{
    String::from_utf16_lossy(units)
}

/// The label of a key under a Windows keyboard layout, from what mapping its
/// scan code gave (`virtual_key`, 0 for none) and what `ToUnicodeEx` reported
/// (`written` code units in `units`, negative for a dead key): nothing for an
/// unmapped key; a dead key's first code unit; else the characters written
/// where none of them is a control character; else nothing.
pub open spec fn windows_key_label_of(virtual_key: u32, written: i32, units: Seq<u16>) -> Seq<char> {
    if virtual_key == 0 {
        Seq::empty()
    } else if written < 0 {
        utf16_lossy(units.take(1))
    } else if written > 0 && printable(utf16_lossy(units.take(written as int))) {
        utf16_lossy(units.take(written as int))
    } else {
        Seq::empty()
    }
}

/// The label of a key under a Windows keyboard layout (see `windows_key_label_of`).
pub fn windows_key_label(virtual_key: u32, written: i32, units: &[u16]) -> (r: String)
    requires
        1 <= units@.len(),
        written <= units@.len(),
    ensures
        r@ == windows_key_label_of(virtual_key, written, units@),
{
    if virtual_key == 0 {
        return String::new();
    }
    if written < 0 {
        let first = vstd::slice::slice_subrange(units, 0, 1);
        assert(first@ =~= units@.take(1));
        return from_utf16_lossy(first);
    }
    if written > 0 {
        let part = vstd::slice::slice_subrange(units, 0, written as usize);
        assert(part@ =~= units@.take(written as int));
        let s = from_utf16_lossy(part);
        if is_printable(s.as_str()) {
            return s;
        }
    }
    String::new()
}

/// The locale id of a Windows keyboard layout handle: its low 16 bits.
pub fn locale_id(layout_handle: usize) -> (r: u32)
    ensures
        r == layout_handle % 0x10000,
{
    let low = layout_handle & 0xFFFF;
    assert(layout_handle & 0xFFFF == layout_handle % 0x10000) by (bit_vector);
    low as u32
}

/// The lowercase hexadecimal representation of a natural number, without leading zeros.
pub open spec fn hex(n: nat) -> Seq<char>
    decreases n,
{
    if n < 16 {
        seq![hex_char(n)]
    } else {
        hex(n / 16).push(hex_char(n % 16))
    }
}

/// `hex(n)` padded with leading zeros to at least four characters.
pub open spec fn hex4(n: nat) -> Seq<char> {
    let h = hex(n);
    Seq::new((if h.len() < 4 { 4 - h.len() } else { 0 }) as nat, |i: int| '0') + h
}

/// Appends the lowercase hexadecimal representation of `n` to `out`.
fn push_hex(out: &mut String, n: u32)
    ensures
        final(out)@ == old(out)@ + hex(n as nat),
    decreases n,
{
    if n >= 16 {
        push_hex(out, n / 16);
    }
    let d = (n % 16) as usize;
    let digits = "0123456789abcdef";
    proof {
        reveal_strlit("0123456789abcdef");
    }
    out.append(digits.substring_char(d, d + 1));
    proof {
        assert(digits@.subrange(d as int, d + 1) =~= seq![hex_char(d as nat)]);
    }
}

proof fn lemma_hex_len(n: nat)
    ensures
        hex(n).len() >= 1,
        n < 0x10 ==> hex(n).len() == 1,
        0x10 <= n < 0x100 ==> hex(n).len() == 2,
        0x100 <= n < 0x1000 ==> hex(n).len() == 3,
        0x1000 <= n ==> hex(n).len() >= 4,
    decreases n,
{
    if n >= 16 {
        lemma_hex_len(n / 16);
    }
}

/// The name shown for a Windows keyboard layout: the locale name that
/// `LCIDToLocaleName` wrote (`written` code units, counting the closing nul)
/// where it wrote one, else the locale id in hexadecimal, four digits at least.
pub open spec fn locale_label_of(locale: u32, written: i32, units: Seq<u16>) -> Seq<char> {
    if written > 1 {
        utf16_lossy(units.take(written - 1))
    } else {
        hex4(locale as nat)
    }
}

/// The name shown for a Windows keyboard layout (see `locale_label_of`).
pub fn locale_label(locale: u32, written: i32, units: &[u16]) -> (r: String)
    requires
        written <= units@.len() + 1,
    ensures
        r@ == locale_label_of(locale, written, units@),
{
    if written > 1 {
        let part = vstd::slice::slice_subrange(units, 0, (written - 1) as usize);
        assert(part@ =~= units@.take(written - 1));
        return from_utf16_lossy(part);
    }
    let mut out = String::new();
    proof {
        lemma_hex_len(locale as nat);
        reveal_strlit("0");
    }
    if locale < 0x1000 {
        out.append("0");
    }
    if locale < 0x100 {
        out.append("0");
    }
    if locale < 0x10 {
        out.append("0");
    }
    push_hex(&mut out, locale);
    assert(out@ =~= hex4(locale as nat));
    out
}

/// A key shows its uppercase only where Shift produces exactly that
/// uppercase and something other than the key's own character; otherwise it
/// shows its own character.
pub proof fn law_uppercase_only_from_shift(unshifted: Seq<char>, shifted: Seq<char>)
    ensures
        plain_label(unshifted, shifted) == unshifted || (shifted == uppercase(unshifted)
            && shifted != unshifted && plain_label(unshifted, shifted) == shifted),
        shifted != uppercase(unshifted) ==> plain_label(unshifted, shifted) == unshifted,
{
}

/// An alias shows what its key produces shifted, whatever that key shows.
pub proof fn law_alias_shows_shifted(chars: Seq<(Seq<char>, Seq<char>)>, j: int)
    requires
        chars.len() == KEY_COUNT,
        0 <= j < ALIAS_COUNT,
        chars[alias_base(j)].1.len() > 0,
    ensures
        keycode_label(chars, KEY_COUNT + j) == Some(chars[alias_base(j)].1),
        key_table()[alias_base(j)].0 == alias_table()[j].1,
{
    lemma_alias_bases(j);
}

/// The key of the key table whose characters give keycode `k` its label:
/// the key itself for a plain keycode, the key an alias stands for otherwise.
pub open spec fn label_source(k: int) -> int {
    if k < KEY_COUNT {
        k
    } else {
        alias_base(k - KEY_COUNT)
    }
}

/// Each label depends only on the characters of its own key (or, for an
/// alias, of the key it stands for): inputs that agree there give the same
/// label.
pub proof fn law_label_from_own_key(
    c1: Seq<(Seq<char>, Seq<char>)>,
    c2: Seq<(Seq<char>, Seq<char>)>,
    k: int,
)
    requires
        c1.len() == KEY_COUNT,
        c2.len() == KEY_COUNT,
        0 <= k < KEYCODE_COUNT,
        c1[label_source(k)] == c2[label_source(k)],
    ensures
        keycode_label(c1, k) == keycode_label(c2, k),
{
}

/// Whether a key produces anything at all (a key the layout reader did not
/// report produces nothing, unshifted or shifted).
pub open spec fn produces(entry: (Seq<char>, Seq<char>)) -> bool {
    entry.0.len() > 0 || entry.1.len() > 0
}

/// The characters of two readings of disjoint sets of keys, put together.
pub open spec fn merge_chars(
    c1: Seq<(Seq<char>, Seq<char>)>,
    c2: Seq<(Seq<char>, Seq<char>)>,
) -> Seq<(Seq<char>, Seq<char>)> {
    Seq::new(c1.len(), |i: int| if produces(c1[i]) { c1[i] } else { c2[i] })
}

/// Labels split over disjoint sets of keys: the labels of two readings put
/// together are the labels of each, and no keycode gets a label from both.
pub proof fn law_labels_of_merged_keys(
    c1: Seq<(Seq<char>, Seq<char>)>,
    c2: Seq<(Seq<char>, Seq<char>)>,
    k: int,
)
    requires
        c1.len() == KEY_COUNT,
        c2.len() == KEY_COUNT,
        forall|i: int| 0 <= i < KEY_COUNT ==> !(produces(#[trigger] c1[i]) && produces(c2[i])),
        0 <= k < KEYCODE_COUNT,
    ensures
        !(keycode_label(c1, k) is Some && keycode_label(c2, k) is Some),
        keycode_label(merge_chars(c1, c2), k) == (match keycode_label(c1, k) {
            Some(l) => Some(l),
            None => keycode_label(c2, k),
        }),
{
    let i = label_source(k);
    let m = merge_chars(c1, c2);
    assert(m[i] == (if produces(c1[i]) { c1[i] } else { c2[i] }));
    if !produces(c1[i]) {
        assert(c1[i].0.len() == 0 && c1[i].1.len() == 0);
    }
    if !produces(c2[i]) {
        assert(c2[i].0.len() == 0 && c2[i].1.len() == 0);
    }
}

/// A key shows the uppercase of its character wherever Shift produces
/// exactly that uppercase and something other than the character itself,
/// whatever script the character is in (the German `ü` key shows `Ü`).
pub proof fn law_uppercase_from_shift(unshifted: Seq<char>, shifted: Seq<char>)
    requires
        shifted == uppercase(unshifted),
        shifted != unshifted,
    ensures
        plain_label(unshifted, shifted) == shifted,
{
}

/// A plain key whose Shift gives the uppercase of its own (non-empty)
/// character, and not the character again, is labelled with what Shift gives.
pub proof fn law_key_shows_shifted_uppercase(chars: Seq<(Seq<char>, Seq<char>)>, k: int)
    requires
        chars.len() == KEY_COUNT,
        0 <= k < KEY_COUNT,
        chars[k].0.len() > 0,
        chars[k].1 == uppercase(chars[k].0),
        chars[k].1 != chars[k].0,
    ensures
        keycode_label(chars, k) == Some(chars[k].1),
{
}

/// The key table holds the standard codes, laid out as the keyboard is: the
/// letter rows `QWERTYUIOP`, `ASDFGHJKL` and `ZXCVBNM` and the digit row
/// `1234567890` each have consecutive codes from 16, 30, 44 and 2; and for
/// every key the Linux evdev keycode equals the set-1 scan code.
pub proof fn law_key_codes()
    ensures
        key_table()[16] == ("KC_Q"@, 16u32, 0x10u16),
        key_table()[22] == ("KC_W"@, 17u32, 0x11u16),
        key_table()[4] == ("KC_E"@, 18u32, 0x12u16),
        key_table()[17] == ("KC_R"@, 19u32, 0x13u16),
        key_table()[19] == ("KC_T"@, 20u32, 0x14u16),
        key_table()[24] == ("KC_Y"@, 21u32, 0x15u16),
        key_table()[20] == ("KC_U"@, 22u32, 0x16u16),
        key_table()[8] == ("KC_I"@, 23u32, 0x17u16),
        key_table()[14] == ("KC_O"@, 24u32, 0x18u16),
        key_table()[15] == ("KC_P"@, 25u32, 0x19u16),
        key_table()[0] == ("KC_A"@, 30u32, 0x1Eu16),
        key_table()[18] == ("KC_S"@, 31u32, 0x1Fu16),
        key_table()[3] == ("KC_D"@, 32u32, 0x20u16),
        key_table()[5] == ("KC_F"@, 33u32, 0x21u16),
        key_table()[6] == ("KC_G"@, 34u32, 0x22u16),
        key_table()[7] == ("KC_H"@, 35u32, 0x23u16),
        key_table()[9] == ("KC_J"@, 36u32, 0x24u16),
        key_table()[10] == ("KC_K"@, 37u32, 0x25u16),
        key_table()[11] == ("KC_L"@, 38u32, 0x26u16),
        key_table()[25] == ("KC_Z"@, 44u32, 0x2Cu16),
        key_table()[23] == ("KC_X"@, 45u32, 0x2Du16),
        key_table()[2] == ("KC_C"@, 46u32, 0x2Eu16),
        key_table()[21] == ("KC_V"@, 47u32, 0x2Fu16),
        key_table()[1] == ("KC_B"@, 48u32, 0x30u16),
        key_table()[13] == ("KC_N"@, 49u32, 0x31u16),
        key_table()[12] == ("KC_M"@, 50u32, 0x32u16),
        key_table()[26] == ("KC_1"@, 2u32, 0x02u16),
        key_table()[27] == ("KC_2"@, 3u32, 0x03u16),
        key_table()[28] == ("KC_3"@, 4u32, 0x04u16),
        key_table()[29] == ("KC_4"@, 5u32, 0x05u16),
        key_table()[30] == ("KC_5"@, 6u32, 0x06u16),
        key_table()[31] == ("KC_6"@, 7u32, 0x07u16),
        key_table()[32] == ("KC_7"@, 8u32, 0x08u16),
        key_table()[33] == ("KC_8"@, 9u32, 0x09u16),
        key_table()[34] == ("KC_9"@, 10u32, 0x0Au16),
        key_table()[35] == ("KC_0"@, 11u32, 0x0Bu16),
        key_table()[36] == ("KC_MINUS"@, 12u32, 0x0Cu16),
        key_table()[37] == ("KC_EQUAL"@, 13u32, 0x0Du16),
        key_table()[38] == ("KC_LBRC"@, 26u32, 0x1Au16),
        key_table()[39] == ("KC_RBRC"@, 27u32, 0x1Bu16),
        key_table()[41] == ("KC_SCLN"@, 39u32, 0x27u16),
        key_table()[42] == ("KC_QUOTE"@, 40u32, 0x28u16),
        key_table()[43] == ("KC_GRAVE"@, 41u32, 0x29u16),
        key_table()[40] == ("KC_BSLS"@, 43u32, 0x2Bu16),
        key_table()[44] == ("KC_COMMA"@, 51u32, 0x33u16),
        key_table()[45] == ("KC_DOT"@, 52u32, 0x34u16),
        key_table()[46] == ("KC_SLASH"@, 53u32, 0x35u16),
        key_table()[47] == ("KC_NONUS_BSLS"@, 86u32, 0x56u16),
        forall|i: int| 0 <= i < KEY_COUNT ==> #[trigger] key_table()[i].1 == key_table()[i].2 as u32,
{
    assert(key_table().len() == KEY_COUNT);
    let evdev = key_table().map_values(|e: (Seq<char>, u32, u16)| e.1);
    let scan = key_table().map_values(|e: (Seq<char>, u32, u16)| e.2 as u32);
    assert(evdev =~= scan);
    assert forall|i: int| 0 <= i < KEY_COUNT implies #[trigger] key_table()[i].1 == key_table()[i].2 as u32 by {
        assert(evdev[i] == scan[i]);
    }
}

/// Each Shift alias is named for the shifted character of the key it stands
/// for: `KC_EXLM` for `KC_1`, …, `KC_LCBR` for `KC_LBRC`, `KC_RCBR` for
/// `KC_RBRC`, …, `KC_QUES` for `KC_SLASH`.
pub proof fn law_alias_names()
    ensures
        alias_table()[0] == ("KC_EXLM"@, "KC_1"@),
        alias_table()[1] == ("KC_AT"@, "KC_2"@),
        alias_table()[2] == ("KC_HASH"@, "KC_3"@),
        alias_table()[3] == ("KC_DLR"@, "KC_4"@),
        alias_table()[4] == ("KC_PERC"@, "KC_5"@),
        alias_table()[5] == ("KC_CIRC"@, "KC_6"@),
        alias_table()[6] == ("KC_AMPR"@, "KC_7"@),
        alias_table()[7] == ("KC_ASTR"@, "KC_8"@),
        alias_table()[8] == ("KC_LPRN"@, "KC_9"@),
        alias_table()[9] == ("KC_RPRN"@, "KC_0"@),
        alias_table()[10] == ("KC_UNDS"@, "KC_MINUS"@),
        alias_table()[11] == ("KC_PLUS"@, "KC_EQUAL"@),
        alias_table()[12] == ("KC_LCBR"@, "KC_LBRC"@),
        alias_table()[13] == ("KC_RCBR"@, "KC_RBRC"@),
        alias_table()[14] == ("KC_PIPE"@, "KC_BSLS"@),
        alias_table()[15] == ("KC_COLN"@, "KC_SCLN"@),
        alias_table()[16] == ("KC_DQUO"@, "KC_QUOTE"@),
        alias_table()[17] == ("KC_TILD"@, "KC_GRAVE"@),
        alias_table()[18] == ("KC_LABK"@, "KC_COMMA"@),
        alias_table()[19] == ("KC_RABK"@, "KC_DOT"@),
        alias_table()[20] == ("KC_QUES"@, "KC_SLASH"@),
{
}

} // verus!
