use bridgehead::services::id_management::legacy_id_mapping;
use bridgehead::utils::{
    capitalize_first_letter, concat2, concat3, copy_texts, enabled, find_char, join_texts, lines,
    lowercase, pattern_at, replace_char, replace_text, same_text, secret_from_rng, split_text,
    trim_char, upper_char, uppercase, CHARSET, CHARSET_LEN,
};

#[test]
fn enabled_is_true() {
    assert!(enabled());
}

#[test]
fn capitalize_first_letter_of_ascii_word() {
    assert_eq!(capitalize_first_letter("teststandort"), "Teststandort");
    assert_eq!(capitalize_first_letter("Tum"), "Tum");
    assert_eq!(capitalize_first_letter("9lives"), "9lives");
}

#[test]
fn capitalize_first_letter_of_empty_text() {
    assert_eq!(capitalize_first_letter(""), "");
}

#[test]
fn capitalize_first_letter_beyond_ascii() {
    assert_eq!(capitalize_first_letter("ärzte"), "Ärzte");
    assert_eq!(capitalize_first_letter("ßa"), "SSa");
}

#[test]
fn upper_char_follows_the_standard_library() {
    assert_eq!(upper_char('a'), "A");
    assert_eq!(upper_char('-'), "-");
    assert_eq!(upper_char('ß'), "SS");
}

#[test]
fn uppercase_maps_every_character() {
    assert_eq!(uppercase("ccp-beam-proxy"), "CCP-BEAM-PROXY");
    assert_eq!(uppercase("straße"), "STRASSE");
    assert_eq!(uppercase(""), "");
}

#[test]
fn lowercase_of_ascii_and_beyond() {
    assert_eq!(lowercase("UKFR"), "ukfr");
    assert_eq!(lowercase("MiXed-09"), "mixed-09");
    assert_eq!(lowercase("ÄRZTE"), "ärzte");
}

#[test]
fn replace_char_replaces_every_occurrence() {
    assert_eq!(replace_char("a-b-c", '-', '_'), "a_b_c");
    assert_eq!(replace_char("abc", '-', '_'), "abc");
}

#[test]
fn same_text_compares_whole_texts() {
    assert!(same_text("abc", "abc"));
    assert!(!same_text("abc", "abd"));
    assert!(!same_text("abc", "ab"));
    assert!(same_text("", ""));
}

#[test]
fn concat_joins_in_order() {
    assert_eq!(concat2("ab", "cd"), "abcd");
    assert_eq!(concat3("a", "", "c"), "ac");
}

#[test]
fn copy_texts_keeps_all_texts() {
    let v = vec!["a".to_string(), "bc".to_string()];
    assert_eq!(copy_texts(&v), v);
}

#[test]
fn find_char_finds_the_first() {
    assert_eq!(find_char("a.b.c", '.'), Some(1));
    assert_eq!(find_char("abc", '.'), None);
    assert_eq!(find_char("", '.'), None);
}

#[test]
fn split_text_keeps_empty_pieces() {
    assert_eq!(split_text("a-b", '-'), vec!["a", "b"]);
    assert_eq!(split_text("", '-'), vec![""]);
    assert_eq!(split_text("-a--", '-'), vec!["", "a", "", ""]);
}

#[test]
fn lines_drop_the_line_ends() {
    assert_eq!(lines("a\nb\n"), vec!["a", "b"]);
    assert_eq!(lines("a\r\nb"), vec!["a", "b"]);
    assert_eq!(lines(""), Vec::<String>::new());
    assert_eq!(lines("\n\nx"), vec!["", "", "x"]);
    assert_eq!(lines("a\nb\r"), vec!["a", "b\r"]);
}

#[test]
fn lines_agree_with_the_standard_library() {
    for text in ["a\nb\n", "a\r\nb", "", "\n\nx", "a\nb\r", "one", "one\r\n\r\n"] {
        let want: Vec<String> = text.lines().map(|l| l.to_string()).collect();
        assert_eq!(lines(text), want);
    }
}

#[test]
fn trim_char_strips_both_ends() {
    assert_eq!(trim_char("\"abc\"", '"'), "abc");
    assert_eq!(trim_char("\"\"a\"b\"", '"'), "a\"b");
    assert_eq!(trim_char("\"\"", '"'), "");
    assert_eq!(trim_char("abc", '"'), "abc");
}

#[test]
fn join_texts_puts_the_separator_between() {
    let parts = vec!["a".to_string(), "b".to_string(), "c".to_string()];
    assert_eq!(join_texts(&parts, ", "), "a, b, c");
    assert_eq!(join_texts(&vec!["a".to_string()], ","), "a");
    assert_eq!(join_texts(&Vec::new(), ","), "");
}

#[test]
fn secret_from_rng_spells_the_draws() {
    assert_eq!(CHARSET.chars().count(), CHARSET_LEN);
    assert_eq!(secret_from_rng(&vec![0, 25, 26, 51, 52, 61, 62, 71]), "AZaz09)~");
    assert_eq!(secret_from_rng(&Vec::new()), "");
}

#[test]
fn charset_is_safe_between_double_quotes() {
    for c in CHARSET.chars() {
        assert!(c != '"' && c != '\\' && c != '$' && c != '`');
    }
}

#[test]
fn legacy_id_mapping_of_known_sites() {
    assert_eq!(legacy_id_mapping("muenchen-tum"), "MuenchenTUM");
    assert_eq!(legacy_id_mapping("muenchen-lmu"), "MuenchenLMU");
    assert_eq!(legacy_id_mapping("dktk-test"), "Teststandort");
    assert_eq!(legacy_id_mapping("berlin"), "Berlin");
    assert_eq!(legacy_id_mapping("frankfurt-main"), "FrankfurtMain");
}

#[test]
fn pattern_at_looks_at_one_position() {
    assert!(pattern_at("Dktk Test", 5, "Test"));
    assert!(!pattern_at("Dktk Test", 4, "Test"));
    assert!(!pattern_at("Dktk Test", 6, "Test"));
    assert!(pattern_at("abc", 3, ""));
    assert!(!pattern_at("abc", 4, ""));
}

#[test]
fn replace_text_replaces_from_left_to_right() {
    assert_eq!(replace_text("Muenchen Tum", "Tum", "TUM"), "Muenchen TUM");
    assert_eq!(replace_text("aaa", "aa", "b"), "ba");
    assert_eq!(replace_text("abab", "ab", ""), "");
    assert_eq!(replace_text("abc", "x", "y"), "abc");
    assert_eq!(replace_text("", "x", "y"), "");
    assert_eq!(replace_text("abc", "", "-"), "abc".replace("", "-"));
    assert_eq!(replace_text("abc", "", "-"), "-a-b-c-");
    assert_eq!(replace_text("", "", "x"), "x");
}

#[test]
fn replace_text_agrees_with_the_standard_library() {
    let texts = ["", "a", "aaaa", "Dktk Test", "Tum Tum", "xTumx", "ätumä", "a b  c"];
    let patterns = ["a", "aa", "Tum", " ", "Dktk Test", "ä"];
    for text in texts {
        for from in patterns {
            for to in ["", "TUM", "aa"] {
                assert_eq!(replace_text(text, from, to), text.replace(from, to));
            }
        }
    }
}

#[test]
fn trim_char_agrees_with_the_standard_library() {
    for text in ["", "\"", "\"\"", "\"a\"", "a\"b", "\"\"a\"\"\"", "abc"] {
        assert_eq!(trim_char(text, '"'), text.trim_matches('"'));
    }
}
