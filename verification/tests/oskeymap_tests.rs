use ergodox_display::oskeymap::{
    build_map, current_layout, keycode_names, dead_key_glyph, key_label, keys, layout_changed, locale_id,
    locale_label, same_layout, shift_aliases, windows_key_label, LayoutMap, ALIAS_COUNT,
    FIRST_ALIAS_BASE, KEYCODE_COUNT, KEY_COUNT,
};

fn qwerty_chars() -> Vec<(String, String)> {
    let shifted_digits = ["!", "@", "#", "$", "%", "^", "&", "*", "(", ")"];
    keys()
        .iter()
        .map(|(name, _, _)| {
            let suffix = &name[3..];
            if suffix.len() == 1 && suffix.chars().all(|c| c.is_ascii_uppercase()) {
                (suffix.to_lowercase(), suffix.to_string())
            } else if suffix.len() == 1 && suffix.chars().all(|c| c.is_ascii_digit()) {
                let d: usize = suffix.parse().unwrap();
                let idx = if d == 0 { 9 } else { d - 1 };
                (suffix.to_string(), shifted_digits[idx].to_string())
            } else {
                (String::new(), String::new())
            }
        })
        .collect()
}

fn index_of(name: &str) -> usize {
    keycode_names().iter().position(|n| *n == name).unwrap()
}

#[test]
fn tables_have_expected_sizes() {
    assert_eq!(keys().len(), KEY_COUNT);
    assert_eq!(shift_aliases().len(), ALIAS_COUNT);
    assert_eq!(KEY_COUNT + ALIAS_COUNT, KEYCODE_COUNT);
    assert_eq!(keys()[0], ("KC_A", 30, 0x1E));
    assert_eq!(keys()[47], ("KC_NONUS_BSLS", 86, 0x56));
    let names = keycode_names();
    assert_eq!(names.len(), KEYCODE_COUNT);
    assert_eq!(names[0], "KC_A");
    assert_eq!(names[KEY_COUNT], "KC_EXLM");
    assert_eq!(names[KEYCODE_COUNT - 1], "KC_QUES");
    for (j, (_, base)) in shift_aliases().iter().enumerate() {
        assert_eq!(keys()[FIRST_ALIAS_BASE + j].0, *base);
    }
}

#[test]
fn letters_show_uppercase() {
    let map = build_map(&qwerty_chars());
    assert_eq!(map.len(), KEYCODE_COUNT);
    assert_eq!(map[index_of("KC_A")], Some("A".to_string()));
    assert_eq!(map[index_of("KC_Z")], Some("Z".to_string()));
}

#[test]
fn digits_show_themselves_and_aliases_show_shifted() {
    let map = build_map(&qwerty_chars());
    assert_eq!(map[index_of("KC_1")], Some("1".to_string()));
    assert_eq!(map[index_of("KC_EXLM")], Some("!".to_string()));
    assert_eq!(map[index_of("KC_RPRN")], Some(")".to_string()));
}

#[test]
fn keys_without_characters_get_no_label() {
    let map = build_map(&qwerty_chars());
    assert_eq!(map[index_of("KC_MINUS")], None);
    assert_eq!(map[index_of("KC_UNDS")], None);
}

#[test]
fn azerty_e_acute_key_keeps_its_character() {
    let mut chars = qwerty_chars();
    chars[index_of("KC_2")] = ("é".to_string(), "2".to_string());
    let map = build_map(&chars);
    assert_eq!(map[index_of("KC_2")], Some("é".to_string()));
    assert_eq!(map[index_of("KC_AT")], Some("2".to_string()));
}

#[test]
fn shift_giving_same_character_is_not_uppercase() {
    let mut chars = qwerty_chars();
    chars[index_of("KC_Q")] = ("q".to_string(), "q".to_string());
    chars[index_of("KC_W")] = ("ß".to_string(), "SS".to_string());
    chars[index_of("KC_E")] = ("1".to_string(), "1".to_string());
    let map = build_map(&chars);
    assert_eq!(map[index_of("KC_Q")], Some("q".to_string()));
    assert_eq!(map[index_of("KC_W")], Some("SS".to_string()));
    assert_eq!(map[index_of("KC_E")], Some("1".to_string()));
}

#[test]
fn dead_key_glyphs() {
    assert_eq!(dead_key_glyph("circumflex"), Some("^"));
    assert_eq!(dead_key_glyph("diaeresis"), Some("¨"));
    assert_eq!(dead_key_glyph("grave"), Some("`"));
    assert_eq!(dead_key_glyph("acute"), Some("´"));
    assert_eq!(dead_key_glyph("tilde"), Some("~"));
    assert_eq!(dead_key_glyph("cedilla"), Some("¸"));
    assert_eq!(dead_key_glyph("caron"), Some("ˇ"));
    assert_eq!(dead_key_glyph("macron"), Some("¯"));
    assert_eq!(dead_key_glyph("breve"), Some("˘"));
    assert_eq!(dead_key_glyph("abovering"), Some("˚"));
    assert_eq!(dead_key_glyph("abovedot"), Some("˙"));
    assert_eq!(dead_key_glyph("doubleacute"), Some("˝"));
    assert_eq!(dead_key_glyph("ogonek"), Some("˛"));
    assert_eq!(dead_key_glyph("stroke"), None);
    assert_eq!(dead_key_glyph(""), None);
    assert_eq!(dead_key_glyph("Circumflex"), None);
}

#[test]
fn x_key_labels() {
    assert_eq!(key_label("a".to_string(), "a"), "a");
    assert_eq!(key_label("é".to_string(), "eacute"), "é");
    assert_eq!(key_label(String::new(), "dead_circumflex"), "^");
    assert_eq!(key_label("\u{8}".to_string(), "BackSpace"), "");
    assert_eq!(key_label("\r".to_string(), "dead_acute"), "´");
    assert_eq!(key_label(String::new(), "dead_stroke"), "");
    assert_eq!(key_label(String::new(), "dead"), "");
    assert_eq!(key_label(String::new(), "NoSymbol"), "");
}

#[test]
fn windows_key_labels() {
    let buf = |s: &str| {
        let mut b = [0u16; 8];
        for (i, u) in s.encode_utf16().enumerate() {
            b[i] = u;
        }
        b
    };
    assert_eq!(windows_key_label(0, 1, &buf("a")), "");
    assert_eq!(windows_key_label(0x41, 1, &buf("a")), "a");
    assert_eq!(windows_key_label(0x41, 2, &buf("ab")), "ab");
    assert_eq!(windows_key_label(0xDE, -1, &buf("^x")), "^");
    assert_eq!(windows_key_label(0x08, 1, &buf("\u{8}")), "");
    assert_eq!(windows_key_label(0x41, 0, &buf("a")), "");
    assert_eq!(windows_key_label(0x41, 2, &buf("😀")), "😀");
    let lone = [0xD800u16, 0x41, 0, 0, 0, 0, 0, 0];
    assert_eq!(windows_key_label(0x41, 2, &lone), "\u{FFFD}A");
    let low = [0xDC00u16, 0, 0, 0, 0, 0, 0, 0];
    assert_eq!(windows_key_label(0x41, -1, &low), "\u{FFFD}");
    assert_eq!(windows_key_label(0x41, 1, &[0x85u16, 0, 0, 0, 0, 0, 0, 0]), "");
    assert_eq!(windows_key_label(0x41, 1, &[0xA0u16, 0, 0, 0, 0, 0, 0, 0]), "\u{a0}");
}

#[test]
fn windows_locale_labels() {
    let mut name = [0u16; 85];
    for (i, u) in "fr-FR".encode_utf16().enumerate() {
        name[i] = u;
    }
    assert_eq!(locale_label(0x040C, 6, &name), "fr-FR");
    assert_eq!(locale_label(0x040C, 0, &name), "040c");
    assert_eq!(locale_label(0x7, 1, &name), "0007");
    assert_eq!(locale_label(0xABCD, 0, &name), "abcd");
    assert_eq!(locale_label(0x12345, 0, &name), "12345");
    assert_eq!(locale_id(0x0409_0409), 0x0409);
    assert_eq!(locale_id(0xF0020409), 0x0409);
}

fn layout(name: &str, map: Vec<Option<&str>>) -> LayoutMap {
    LayoutMap { name: name.to_string(), map: map.into_iter().map(|l| l.map(|s| s.to_string())).collect() }
}

#[test]
fn layout_change_detection() {
    let us = layout("us", vec![Some("A"), None]);
    let us_again = layout("us", vec![Some("A"), None]);
    let fr = layout("fr", vec![Some("A"), None]);
    let us_other = layout("us", vec![Some("Q"), None]);
    let us_shorter = layout("us", vec![Some("A")]);
    assert!(layout_changed(&None, &us));
    assert!(!layout_changed(&Some(us_again), &us));
    assert!(layout_changed(&Some(fr), &us));
    assert!(layout_changed(&Some(us_other), &us));
    assert!(layout_changed(&Some(us_shorter), &us));
    assert!(same_layout(&us, &layout("us", vec![Some("A"), None])));
}

#[test]
fn no_layout_reader_here() {
    assert!(current_layout().is_none());
}

#[test]
fn labels_of_disjoint_readings_combine() {
    let full = qwerty_chars();
    let mut letters = full.clone();
    let mut others = full.clone();
    for i in 0..KEY_COUNT {
        if i < 26 {
            others[i] = (String::new(), String::new());
        } else {
            letters[i] = (String::new(), String::new());
        }
    }
    let (a, b, all) = (build_map(&letters), build_map(&others), build_map(&full));
    for k in 0..KEYCODE_COUNT {
        assert!(a[k].is_none() || b[k].is_none());
        assert_eq!(all[k], a[k].clone().or(b[k].clone()));
    }
}
