use kubeinit::text;

#[test]
fn trimming_removes_white_space_at_both_ends() {
    assert_eq!(text::trim("  a b\t\r\n"), "a b");
    assert_eq!(text::trim("\u{3000}x\u{a0}"), "x");
    assert_eq!(text::trim(" \n "), "");
    assert_eq!(text::trim(""), "");
}

#[test]
fn trimmed_texts_stay_as_they_are() {
    for s in ["", " a ", "\ta\nb\n", "a"] {
        let once = text::trim(s);
        assert_eq!(text::trim(&once), once);
        assert_eq!(once, s.trim());
    }
}

#[test]
fn white_space_is_what_std_takes_it_for() {
    for n in 0..0x3100u32 {
        if let Some(c) = char::from_u32(n) {
            assert_eq!(text::white(c), c.is_whitespace());
        }
    }
}

#[test]
fn words_are_split_at_runs_of_white_space() {
    assert_eq!(
        text::split_words("  default via 10.0.0.1\tdev eth0 \n"),
        vec!["default", "via", "10.0.0.1", "dev", "eth0"]
    );
    assert_eq!(text::split_words(" \n"), Vec::<String>::new());
}

#[test]
fn lines_end_at_newlines_with_or_without_a_return() {
    for s in ["", "a", "a\n", "a\n\nb", "a\r\nb\r\n", "\n", "a\rb\r", "a\r"] {
        let lines: Vec<String> = s.lines().map(|line| line.to_string()).collect();
        assert_eq!(text::split_lines(s), lines);
    }
}

#[test]
fn pieces_are_split_at_every_occurrence() {
    assert_eq!(text::split_at_char("10.0.0.1", '.'), vec!["10", "0", "0", "1"]);
    assert_eq!(text::split_at_char("", '/'), vec![""]);
    assert_eq!(text::split_at_char("/a/", '/'), vec!["", "a", ""]);
}

#[test]
fn the_word_behind_a_word_is_found() {
    let words = text::split_words("a --token t --token u --last");
    assert_eq!(text::find_word_after(&words, "--token"), Some("t"));
    assert_eq!(text::find_word_after(&words, "--last"), None);
    assert_eq!(text::find_word_after(&words, "--none"), None);
}

#[test]
fn parts_are_found_anywhere() {
    assert!(text::contains("br_netfilter 32768 0", "br_netfilter"));
    assert!(text::contains("abc", "c"));
    assert!(text::contains("abc", ""));
    assert!(text::contains("", ""));
    assert!(!text::contains("abc", "abcd"));
    assert!(!text::contains("", "a"));
}

#[test]
fn every_occurrence_is_replaced_from_the_left() {
    assert_eq!(text::replace("a{v}b{v}", "{v}", "1"), "a1b1");
    assert_eq!(text::replace("aaa", "aa", "b"), "ba");
    assert_eq!(text::replace("aab", "ab", "a"), "aa");
    assert_eq!(text::replace("abc", "x", "y"), "abc");
    assert_eq!(text::replace("", "x", "y"), "");
}

#[test]
fn copies_at_the_ends_are_stripped() {
    assert_eq!(text::strip_leading("vv1.2v", 'v'), "1.2v");
    assert_eq!(text::strip_leading("1.2", 'v'), "1.2");
    assert_eq!(text::strip_trailing("/usr/local/bin", "/bin"), "/usr/local");
    assert_eq!(text::strip_trailing("/x/bin/bin", "/bin"), "/x");
    assert_eq!(text::strip_trailing("/opt", "/bin"), "/opt");
}

#[test]
fn texts_are_padded_by_characters() {
    assert_eq!(text::pad("ab", 4), "ab  ");
    assert_eq!(text::pad("äö", 3), "äö ");
    assert_eq!(text::pad("abcd", 2), "abcd");
}

#[test]
fn numbers_are_written_in_decimal() {
    for n in [0, 7, 10, 1000, 65534, u32::MAX] {
        assert_eq!(text::decimal_text(n), n.to_string());
    }
}
