use slack_deputy::text::{
    chars_of, comma_items, contains, first_chars, is_before, join, number_text, one_line, opt_copy, opt_owned,
    opt_ref, opt_same, pad, same, split, split_once, trim, trim_end_matches, trim_matches, without,
};

#[test]
fn texts_are_compared_by_their_characters() {
    assert!(same("投稿", "投稿"));
    assert!(!same("post", "Post"));
    assert!(!same("", " "));
    assert!(opt_same(&Some("U1".to_string()), "U1"));
    assert!(!opt_same(&Some("U1".to_string()), "U2"));
    assert!(!opt_same(&None, ""));
}

#[test]
fn optional_texts_are_copied() {
    assert_eq!(opt_owned(Some("a")), Some("a".to_string()));
    assert_eq!(opt_owned(None), None);
    assert_eq!(opt_ref(&Some("b".to_string())), Some("b"));
    assert_eq!(opt_ref(&None), None);
    assert_eq!(opt_copy(&Some("c".to_string())), Some("c".to_string()));
    assert_eq!(opt_copy(&None), None);
    assert_eq!(chars_of("a無視"), vec!['a', '無', '視']);
}

#[test]
fn trim_drops_unicode_white_space_at_both_ends() {
    assert_eq!(trim("  a b \t\r\n"), "a b");
    assert_eq!(trim("\u{3000}返信\u{a0}\u{2028}"), "返信");
    assert_eq!(trim("\u{85}\u{1680}\u{200a}\u{205f}"), "");
    // A zero-width space is no white space.
    assert_eq!(trim("\u{200b}"), "\u{200b}");
    assert_eq!(trim(""), "");
}

#[test]
fn trimming_agrees_with_the_standard_library_on_every_character_up_to_u_ffff() {
    let mut code: u32 = 0;
    while code <= 0xffff {
        if let Some(c) = char::from_u32(code) {
            let s = format!("{c}x{c}");
            assert_eq!(trim(&s), s.trim(), "U+{code:04x}");
        }
        code += 1;
    }
}

#[test]
fn given_characters_are_trimmed() {
    assert_eq!(trim_end_matches("http://h:1//", '/'), "http://h:1");
    assert_eq!(trim_end_matches("////", '/'), "");
    assert_eq!(trim_end_matches("/a", '/'), "/a");
    assert_eq!(trim_matches("\"\"q\"", '"'), "q");
    assert_eq!(trim_matches("a\"b", '"'), "a\"b");
}

#[test]
fn split_keeps_empty_parts() {
    assert_eq!(split("a,,b,", ','), vec!["a", "", "b", ""]);
    assert_eq!(split("", ','), vec![""]);
    assert_eq!(split("ab", ','), vec!["ab"]);
}

#[test]
fn split_once_parts_at_the_first_hit() {
    assert_eq!(split_once("k=v=w", '='), Some(("k", "v=w")));
    assert_eq!(split_once("=v", '='), Some(("", "v")));
    assert_eq!(split_once("kv", '='), None);
}

#[test]
fn contains_finds_a_part_anywhere() {
    assert!(contains("hey <@U1> there", "<@U1>"));
    assert!(!contains("hey <@U1", "<@U1>"));
    assert!(contains("aab", "ab"));
    assert!(contains("", ""));
    assert!(!contains("", "x"));
}

#[test]
fn without_drops_every_hit() {
    assert_eq!(without("1700000000.000100", '.'), "1700000000000100");
    assert_eq!(without("...", '.'), "");
    assert_eq!(without("abc", '.'), "abc");
}

#[test]
fn line_breaks_become_blanks() {
    assert_eq!(one_line("a\nb\r\nc"), "a b  c");
    assert_eq!(one_line("投\t稿"), "投\t稿");
    assert_eq!(one_line(""), "");
}

#[test]
fn comma_items_are_trimmed_and_not_empty() {
    assert_eq!(comma_items(" a , ,b,, c d "), vec!["a", "b", "c d"]);
    assert!(comma_items(" , ,").is_empty());
    assert!(comma_items("").is_empty());
}

#[test]
fn join_puts_the_separator_between() {
    assert_eq!(join(&vec!["a".to_string(), "b".to_string()], "\n\n"), "a\n\nb");
    assert_eq!(join(&vec!["a".to_string()], "\n\n"), "a");
    assert_eq!(join(&Vec::new(), ","), "");
}

#[test]
fn first_chars_counts_characters() {
    assert_eq!(first_chars("承認済み", 2), "承認");
    assert_eq!(first_chars("ab", 5), "ab");
    assert_eq!(first_chars("ab", 0), "");
}

#[test]
fn pad_fills_on_the_right() {
    assert_eq!(pad("message", 12), "message     ");
    assert_eq!(pad("承認", 4), "承認  ");
    assert_eq!(pad("confirmation!", 12), "confirmation!");
}

#[test]
fn numbers_are_written_in_decimal() {
    assert_eq!(number_text(0), "0");
    assert_eq!(number_text(42), "42");
    assert_eq!(number_text(-7), "-7");
    assert_eq!(number_text(i64::MAX), i64::MAX.to_string());
    assert_eq!(number_text(i64::MIN), i64::MIN.to_string());
}

#[test]
fn texts_are_ordered_by_code_point() {
    assert!(is_before("1.0", "1.1"));
    assert!(is_before("1", "1.0"));
    assert!(!is_before("1.0", "1.0"));
    assert!(is_before("10", "9"));
    assert!(is_before("\u{ffff}", "\u{10000}"));
    assert!(!is_before("b", "a"));
}
