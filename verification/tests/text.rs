use qbot_with_typ::text::{
    chars_of, decimal_text, find_char, head_word, join_texts, same_text, split_text, starts_with,
    trim, trim_end, trim_start, trim_start_matches, white_space, zero_padded_text,
};

#[test]
fn white_space_is_that_of_unicode() {
    for n in 0..=0x10ffffu32 {
        if let Some(c) = char::from_u32(n) {
            assert_eq!(white_space(c), c.is_whitespace());
        }
    }
}

#[test]
fn trimming_is_that_of_strings() {
    for s in ["", " ", "a", " a ", "\t\u{3000}中 文\u{85}\n", "\u{200b}x"] {
        assert_eq!(trim(s), s.trim());
        assert_eq!(trim_start(s), s.trim_start());
        assert_eq!(trim_end(s), s.trim_end());
    }
}

#[test]
fn splitting_is_that_of_strings() {
    for s in ["", ",", "a,b", ",a,,b,", "中,文"] {
        let expected: Vec<String> = s.split(',').map(str::to_string).collect();
        assert_eq!(split_text(s, ','), expected);
        assert_eq!(join_texts(&expected, ","), s);
    }
    assert_eq!(join_texts(&Vec::new(), "; "), "");
}

#[test]
fn positions_count_characters() {
    assert_eq!(find_char("中文,x", ','), 2);
    assert_eq!(find_char("中文", ','), 2);
    assert_eq!(chars_of("中a"), vec!['中', 'a']);
}

#[test]
fn prefixes_are_taken_off_again_and_again() {
    assert!(starts_with("/typd x", "/typd"));
    assert!(!starts_with("/typ", "/typd"));
    assert!(starts_with("abc", ""));
    assert!(same_text("中", "中") && !same_text("a", "b"));
    for s in ["/typd/typd x", "x/typd", "/typd", ""] {
        assert_eq!(trim_start_matches(s, "/typd"), s.trim_start_matches("/typd"));
    }
}

#[test]
fn first_words_are_those_of_strings() {
    for s in ["", "  ", "a b", "\u{3000}中\u{a0}文", "word"] {
        assert_eq!(head_word(s), s.split_whitespace().next().unwrap_or(""));
    }
}

#[test]
fn numbers_are_written_as_usual() {
    for n in [0, 7, 9, 10, 11, 99, 100, 1234567890, u64::MAX] {
        assert_eq!(decimal_text(n), n.to_string());
        for width in [0, 1, 5, 25] {
            assert_eq!(zero_padded_text(n, width), format!("{n:0width$}"));
        }
    }
}
