use patch_notes::text::{ascii_lowercase, char_is_whitespace, clean_champion_name, clean_champion_name_for_image, clean_text, trim_str};

#[test]
fn clean_text_collapses_and_trims() {
    assert_eq!(clean_text("  Hello\n\tworld  "), "Hello world");
    assert_eq!(clean_text("a\n\n\nb\t\tc"), "a b c");
    assert_eq!(clean_text("no change"), "no change");
}

#[test]
fn clean_text_of_blank_text_is_empty() {
    assert_eq!(clean_text(""), "");
    assert_eq!(clean_text(" \n\t "), "");
}

#[test]
fn clean_text_treats_unicode_spaces_as_whitespace() {
    assert_eq!(clean_text("a\u{A0}\u{2003}b"), "a b");
}

#[test]
fn clean_text_is_idempotent_on_examples() {
    for s in ["  x  y ", "\tKai'Sa\nhas  been\n", "", "one"] {
        let once = clean_text(s);
        assert_eq!(clean_text(&once), once);
    }
}

#[test]
fn clean_text_output_is_tidy() {
    let out = clean_text(" \t Lorem\n\n ipsum \u{A0} dolor\t");
    assert_eq!(out, "Lorem ipsum dolor");
    assert!(!out.starts_with(char::is_whitespace));
    assert!(!out.ends_with(char::is_whitespace));
    assert!(!out.contains("  "));
}

#[test]
fn trim_str_matches_std_trim() {
    for s in ["  a b  ", "\n\tx", "", "   ", "\u{3000}wide\u{3000}"] {
        assert_eq!(trim_str(s), s.trim());
    }
}

#[test]
fn clean_champion_name_lowers_after_dropped_characters() {
    assert_eq!(clean_champion_name("Kai'Sa"), "Kaisa");
    assert_eq!(clean_champion_name("Dr. Mundo"), "Drmundo");
    assert_eq!(clean_champion_name("Miss Fortune"), "Missfortune");
    assert_eq!(clean_champion_name("Nunu & Willump"), "Nunuwillump");
    assert_eq!(clean_champion_name("Ahri"), "Ahri");
    assert_eq!(clean_champion_name(""), "");
    assert_eq!(clean_champion_name("'Ahri"), "ahri");
}

#[test]
fn clean_champion_name_for_image_keeps_case() {
    assert_eq!(clean_champion_name_for_image("Kai'Sa"), "KaiSa");
    assert_eq!(clean_champion_name_for_image("Dr. Mundo"), "DrMundo");
    assert_eq!(clean_champion_name_for_image("Nunu & Willump"), "NunuWillump");
    assert_eq!(clean_champion_name_for_image("..."), "");
}

#[test]
fn name_keys_agree_up_to_ascii_case() {
    for s in ["Kai'Sa", "Dr. Mundo", "Bel'Veth", "Renata Glasc", "K'Sante"] {
        assert_eq!(
            clean_champion_name(s).to_ascii_lowercase(),
            clean_champion_name_for_image(s).to_ascii_lowercase()
        );
    }
}

#[test]
fn name_keys_keep_non_ascii_letters() {
    assert_eq!(clean_champion_name("Ébène Çà"), "ÉbèneÇà");
    assert_eq!(clean_champion_name_for_image("Ébène Çà"), "ÉbèneÇà");
}

#[test]
fn ascii_lowercase_only_touches_ascii_capitals() {
    assert_eq!(ascii_lowercase('A'), 'a');
    assert_eq!(ascii_lowercase('Z'), 'z');
    assert_eq!(ascii_lowercase('a'), 'a');
    assert_eq!(ascii_lowercase('É'), 'É');
    assert_eq!(ascii_lowercase('1'), '1');
}

#[test]
fn whitespace_set_is_that_of_std() {
    for c in (0u32..=0x10FFFF).filter_map(char::from_u32) {
        assert_eq!(char_is_whitespace(c), c.is_whitespace(), "{:?}", c);
    }
}

#[test]
fn ascii_alphanumerics_are_letters_and_digits() {
    for c in (0u8..=0x7F).map(char::from) {
        assert_eq!(c.is_alphanumeric(), c.is_ascii_alphanumeric(), "{:?}", c);
    }
}

#[test]
fn clean_champion_name_is_idempotent_on_examples() {
    for s in ["Kai'Sa", "Dr. Mundo", "'a'b'C", "Nunu & Willump", "", "Ébène Çà"] {
        let once = clean_champion_name(s);
        assert_eq!(clean_champion_name(&once), once);
    }
}
