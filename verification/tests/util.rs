use cursor_drop::util::{sanitize_filename, shell_quote};

#[test]
fn shell_quote_escapes() {
    assert_eq!(shell_quote("/a/b"), "\"/a/b\"");
    assert_eq!(shell_quote("a\"b"), "\"a\\\"b\"");
    assert_eq!(shell_quote("with space"), "\"with space\"");
}

#[test]
fn sanitize_collapses_and_filters() {
    assert_eq!(sanitize_filename("my file.png"), "my_file.png");
    assert_eq!(sanitize_filename("a   b"), "a_b");
    assert_eq!(sanitize_filename("we!@#ird$.txt"), "weird.txt");
    assert_eq!(sanitize_filename("keep-dash_under.ext"), "keep-dash_under.ext");
}

#[test]
fn shell_quote_of_nothing_and_of_quotes() {
    assert_eq!(shell_quote(""), "\"\"");
    assert_eq!(shell_quote("\"\""), "\"\\\"\\\"\"");
    assert_eq!(shell_quote("a\\b"), "\"a\\b\"");
}

#[test]
fn sanitize_counts_runs_of_space_apart() {
    assert_eq!(sanitize_filename(" a \t\u{3000} b "), "_a_b_");
    assert_eq!(sanitize_filename("a _ b"), "a___b");
    assert_eq!(sanitize_filename("a !b"), "a_b");
    assert_eq!(sanitize_filename("a ! b"), "a__b");
    assert_eq!(sanitize_filename(""), "");
}

#[test]
fn sanitize_keeps_letters_beyond_ascii() {
    assert_eq!(sanitize_filename("한글 파일.png"), "한글_파일.png");
    assert_eq!(sanitize_filename("é½٣"), "é½٣");
    assert_eq!(sanitize_filename("€—·\u{200b}"), "");
}

#[test]
fn sanitize_twice_is_sanitize_once() {
    for name in ["my file.png", "a/b\\c'd\"e", " \u{85}x\u{2028}y", "한글 — 파일"] {
        let once = sanitize_filename(name);
        assert_eq!(sanitize_filename(&once), once);
        assert!(!once.chars().any(|c| c.is_whitespace() || "'\"/\\$`".contains(c)));
    }
}

#[test]
fn white_space_is_what_std_says() {
    for u in 0..=0x10ffffu32 {
        if let Some(c) = char::from_u32(u) {
            let listed = matches!(u, 0x09..=0x0d | 0x20 | 0x85 | 0xa0 | 0x1680
                | 0x2000..=0x200a | 0x2028 | 0x2029 | 0x202f | 0x205f | 0x3000);
            assert_eq!(c.is_whitespace(), listed);
            if u < 0x80 {
                assert_eq!(c.is_alphanumeric(), c.is_ascii_alphanumeric());
            }
        }
    }
}

#[test]
fn a_name_is_kept_exactly_where_all_its_characters_may_stand() {
    for name in ["", "a.b_c-9", "한글.png", "é½٣"] {
        assert_eq!(sanitize_filename(name), name);
    }
    for name in ["a b", "a/b", "x\u{a0}", "€", "_ _"] {
        assert_ne!(sanitize_filename(name), name);
    }
}

#[test]
fn nothing_is_both_a_letter_and_white_space() {
    for u in 0..=0x10ffffu32 {
        if let Some(c) = char::from_u32(u) {
            assert!(!(c.is_alphanumeric() && c.is_whitespace()));
        }
    }
}
