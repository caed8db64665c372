use qbot_with_typ::tag_shorthand::{
    format_tag_with_arg, is_tag_shorthand_token, is_tag_shorthand_token_char,
    parse_tag_shorthand_line, rewrite_tag_shorthand, split_first_line,
};

#[test]
fn parse_tag_requires_trailing_comma_for_single_token() {
    assert_eq!(parse_tag_shorthand_line("lxgw"), None);
    assert_eq!(
        parse_tag_shorthand_line("lxgw,"),
        Some(vec!["lxgw".to_string()])
    );
}

#[test]
fn parse_tag_allows_multiple_tokens_without_trailing_comma() {
    assert_eq!(
        parse_tag_shorthand_line("a1, bbb"),
        Some(vec!["a1".to_string(), "bbb".to_string()])
    );
}

#[test]
fn parse_tag_rejects_internal_empty_segment() {
    assert_eq!(parse_tag_shorthand_line("a1,,bbb"), None);
}

#[test]
fn split_first_line_handles_crlf() {
    assert_eq!(
        split_first_line("a1, bbb\r\n= Title"),
        ("a1, bbb", Some("= Title"))
    );
}

#[test]
fn rewrite_tag_shorthand_expands_comma_list() {
    assert_eq!(
        rewrite_tag_shorthand("  a1, bbb, c-d,14pt "),
        "#show: tag.with(\"a1\", \"bbb\", \"c-d\", 14pt)"
    );
}

#[test]
fn rewrite_tag_shorthand_preserves_following_lines() {
    assert_eq!(
        rewrite_tag_shorthand("a1, bbb\n= Title"),
        "#show: tag.with(\"a1\", \"bbb\")\n= Title"
    );
}

#[test]
fn rewrite_tag_shorthand_preserves_trailing_newline_after_tag_line() {
    assert_eq!(
        rewrite_tag_shorthand("a1, bbb\n"),
        "#show: tag.with(\"a1\", \"bbb\")\n"
    );
}

#[test]
fn rewrite_tag_shorthand_handles_crlf_after_tag_line() {
    assert_eq!(
        rewrite_tag_shorthand("a1, bbb\r\n= Title"),
        "#show: tag.with(\"a1\", \"bbb\")\n= Title"
    );
}

#[test]
fn rewrite_tag_shorthand_preserves_utf8_body() {
    let input = "a1, bbb\n中文*加粗*与_强调_";
    assert_eq!(
        rewrite_tag_shorthand(input),
        "#show: tag.with(\"a1\", \"bbb\")\n中文*加粗*与_强调_"
    );
}

#[test]
fn rewrite_tag_shorthand_skips_non_matching_first_line() {
    let input = "$E = mc^2$";
    assert_eq!(rewrite_tag_shorthand(input), input);
}

/// A blank first line: the lines after it are not read as tags.
#[test]
fn rewrite_tag_shorthand_blank_first_line_then_comma_line_is_not_tag() {
    let input = "\n\nlxgw, a4h\n= Title";
    assert_eq!(rewrite_tag_shorthand(input), input);
}

#[test]
fn rewrite_tag_shorthand_blank_line_then_word_is_not_tag() {
    let input = "\n\nlxgw\n= Title";
    assert_eq!(rewrite_tag_shorthand(input), input);
}

/// Only the first line holds tags; the body may hold commas.
#[test]
fn rewrite_tag_shorthand_body_line_may_contain_comma() {
    assert_eq!(
        rewrite_tag_shorthand("lxgw,\nHello, world"),
        "#show: tag.with(\"lxgw\")\nHello, world"
    );
}

#[test]
fn rewrite_tag_shorthand_expands_single_tag_with_trailing_comma() {
    assert_eq!(
        rewrite_tag_shorthand("lxgw,\n= Title"),
        "#show: tag.with(\"lxgw\")\n= Title"
    );
}

#[test]
fn rewrite_tag_shorthand_skips_utf8_on_first_line() {
    let input = "中文, bbb\n= Title";
    assert_eq!(rewrite_tag_shorthand(input), input);
}

#[test]
fn rewrite_tag_shorthand_expands_decimal_length() {
    assert_eq!(
        rewrite_tag_shorthand("lxgw, 1.5pt\n= Title"),
        "#show: tag.with(\"lxgw\", 1.5pt)\n= Title"
    );
}

#[test]
fn rewrite_tag_shorthand_skips_token_with_quote() {
    let input = "a\"1, bbb";
    assert_eq!(rewrite_tag_shorthand(input), input);
}

#[test]
fn rewrite_tag_shorthand_skips_token_with_backslash() {
    let input = r"a\1, bbb";
    assert_eq!(rewrite_tag_shorthand(input), input);
}

#[test]
fn rewrite_tag_shorthand_skips_token_with_typst_syntax_char() {
    let input = "a1, #foo";
    assert_eq!(rewrite_tag_shorthand(input), input);
}

#[test]
fn rewrite_tag_shorthand_skips_empty_segment() {
    let input = "a1,,bbb";
    assert_eq!(rewrite_tag_shorthand(input), input);
}

#[test]
fn token_chars_are_ascii_alphanumerics_and_three_marks() {
    for n in 0..=0x10ffffu32 {
        if let Some(c) = char::from_u32(n) {
            let expected = c.is_ascii_alphanumeric() || matches!(c, '-' | '_' | '.');
            assert_eq!(is_tag_shorthand_token_char(c), expected);
        }
    }
}

#[test]
fn tokens_are_not_empty() {
    assert!(!is_tag_shorthand_token(""));
    assert!(is_tag_shorthand_token("a-b_c.9"));
    assert!(!is_tag_shorthand_token("a b"));
}

#[test]
fn args_beginning_with_a_digit_are_not_quoted() {
    assert_eq!(format_tag_with_arg("14pt"), "14pt");
    assert_eq!(format_tag_with_arg("pt14"), "\"pt14\"");
    assert_eq!(format_tag_with_arg(".5em"), "\".5em\"");
}

#[test]
fn first_line_without_break_has_no_rest() {
    assert_eq!(split_first_line("abc"), ("abc", None));
    assert_eq!(split_first_line("abc\r"), ("abc\r", None));
    assert_eq!(split_first_line("\n"), ("", Some("")));
    assert_eq!(split_first_line("a\r\r\nb\nc"), ("a\r", Some("b\nc")));
}

#[test]
fn commas_alone_are_no_tags() {
    assert_eq!(parse_tag_shorthand_line(","), None);
    assert_eq!(parse_tag_shorthand_line(" , "), None);
    assert_eq!(parse_tag_shorthand_line(",a"), None);
    assert_eq!(parse_tag_shorthand_line("a,,"), None);
    assert_eq!(parse_tag_shorthand_line(""), None);
}

#[test]
fn unicode_white_space_around_tags_is_trimmed() {
    assert_eq!(
        parse_tag_shorthand_line("\u{3000}a\u{a0},\u{2003}b\u{2028},\u{3000}"),
        Some(vec!["a".to_string(), "b".to_string()])
    );
}

#[test]
fn rewriting_twice_is_rewriting_once() {
    for source in ["a1, bbb\n= Title", "lxgw,", "x", "", "1.5pt, a\r\nb, c"] {
        let once = rewrite_tag_shorthand(source);
        assert_eq!(rewrite_tag_shorthand(&once), once);
    }
}

#[test]
fn body_survives_rewriting() {
    for source in ["a1, bbb\n= Title\nx, y\n", "lxgw,\r\n\r\nb", "no tags\nbody"] {
        let out = rewrite_tag_shorthand(source);
        assert_eq!(split_first_line(&out).1, split_first_line(source).1);
    }
}

#[test]
fn joined_tags_are_read_back() {
    let tags = ["a", "b-c", "9pt", "x_y.z"];
    let expected: Vec<String> = tags.iter().map(|t| t.to_string()).collect();
    assert_eq!(parse_tag_shorthand_line(&tags.join(", ")), Some(expected.clone()));
    assert_eq!(parse_tag_shorthand_line(&(tags.join(", ") + ",")), Some(expected));
}

#[test]
fn lone_tag_is_followed_by_a_comma() {
    let lone = Some(vec!["lxgw".to_string()]);
    for line in ["lxgw,", " lxgw , ", "lxgw,\t\u{3000}"] {
        assert_eq!(parse_tag_shorthand_line(line), lone);
        assert!(line.trim_end().ends_with(','));
    }
    for line in [",lxgw", " , lxgw", "lxgw", ",", ", ,"] {
        assert_eq!(parse_tag_shorthand_line(line), None);
    }
}
