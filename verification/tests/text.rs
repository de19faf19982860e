use rlm_repl::text::bytes::{len_in_bytes, take_bytes};
use rlm_repl::text::chars::{chars_of, text_of};
use rlm_repl::text::lines::{join, split_lines};
use rlm_repl::text::number::push_decimal;
use rlm_repl::text::search::{starts_with, trim};

#[test]
fn lines_split_as_in_std() {
    for s in [
        "",
        "\n",
        "\r\n",
        "a",
        "a\n",
        "a\nb",
        "a\r\nb\r\n",
        "a\r",
        "a\r\r\nb",
        "\n\nx\n\n",
        "é\n…\r\n",
    ] {
        let expected: Vec<String> = s.lines().map(|l| l.to_string()).collect();
        assert_eq!(split_lines(s), expected);
    }
}

#[test]
fn lines_rejoin_to_the_text() {
    let s = "one\n\n  two\nthree";
    assert_eq!(join(&split_lines(s), "\n"), s);
    // A final line feed is lost, and so is a carriage return before a line feed.
    assert_eq!(join(&split_lines("a\n"), "\n"), "a");
    assert_eq!(join(&split_lines("a\r\nb"), "\n"), "a\nb");
}

#[test]
fn joined_lines_split_to_the_lines() {
    let parts = vec!["a".to_string(), String::new(), "b c".to_string()];
    assert_eq!(split_lines(&join(&parts, "\n")), parts);
    let empty: Vec<String> = Vec::new();
    assert_eq!(join(&empty, "\n"), "");
    assert_eq!(join(&parts, ", "), "a, , b c");
}

#[test]
fn decimals_are_numerals() {
    for n in [0u64, 7, 10, 99, 100, 120, 8192, u64::MAX] {
        let mut s = String::from("n=");
        push_decimal(&mut s, n);
        assert_eq!(s, format!("n={n}"));
    }
}

#[test]
fn prefixes_are_found() {
    assert!(starts_with("abc", ""));
    assert!(starts_with("abc", "ab"));
    assert!(!starts_with("abc", "abcd"));
    assert!(!starts_with("abc", "b"));
    assert!(!starts_with("", "a"));
    assert!(starts_with("", ""));
    assert!(starts_with("é…x", "é…"));
}

#[test]
fn trim_takes_white_space_as_in_std() {
    for s in ["", " ", "\n a b \t", "\u{85}x\u{a0}", "\u{2003}y z\u{3000}\r\n", "\u{200b}q", "plain"] {
        assert_eq!(trim(s), s.trim());
    }
    for u in 0u32..0x3100 {
        if let Some(c) = char::from_u32(u) {
            let s = format!("{c}x{c}");
            assert_eq!(trim(&s), s.trim());
        }
    }
}

#[test]
fn byte_lengths_are_those_of_utf8() {
    assert_eq!(len_in_bytes(""), 0);
    assert_eq!(len_in_bytes("aé…😀"), 1 + 2 + 3 + 4);
}

#[test]
fn the_longest_fitting_prefix_is_taken() {
    assert_eq!(take_bytes("aé…😀", 0), "");
    assert_eq!(take_bytes("aé…😀", 2), "a");
    assert_eq!(take_bytes("aé…😀", 3), "aé");
    assert_eq!(take_bytes("aé…😀", 9), "aé…");
    assert_eq!(take_bytes("aé…😀", 10), "aé…😀");
    assert_eq!(take_bytes("abc", 100), "abc");
}

#[test]
fn characters_come_and_go() {
    let cs = chars_of("aé😀");
    assert_eq!(cs, vec!['a', 'é', '😀']);
    assert_eq!(text_of(&cs, 1, 3), "é😀");
    assert_eq!(text_of(&cs, 2, 2), "");
}
