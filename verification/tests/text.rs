use mcp_irc_client::text::{
    begins, blank, chars_of, decimal_of, joined, lines_of, parse_u16, same_text, search,
    search_last, space, starts, words_of,
};

#[test]
fn white_space_is_that_of_unicode() {
    let mut n: u32 = 0;
    while n <= 0x10ffff {
        if let Some(c) = char::from_u32(n) {
            assert_eq!(space(c), c.is_whitespace(), "{:x}", n);
        }
        n += 1;
    }
}

#[test]
fn blank_texts() {
    assert!(blank(""));
    assert!(blank(" \t\u{3000}"));
    assert!(!blank(" x "));
}

#[test]
fn searching_forwards_and_backwards() {
    assert_eq!(search("a :b :c", " :"), Some(1));
    assert_eq!(search("\u{e9}\u{e9}!", "!"), Some(2));
    assert_eq!(search("abc", "abcd"), None);
    assert_eq!(search("abc", ""), Some(0));
    assert_eq!(search("", "x"), None);
    assert_eq!(search_last("a:b:c", ':'), Some(3));
    assert_eq!(search_last("abc", ':'), None);
}

#[test]
fn beginnings() {
    assert!(begins("notifications/x", "notifications/"));
    assert!(!begins("notifications", "notifications/"));
    assert!(begins("x", ""));
    assert!(starts("#c", '#'));
    assert!(!starts("", '#'));
}

#[test]
fn words_are_those_of_split_whitespace() {
    for s in ["", " ", "a", " a  b ", "a\tb\nc", "\u{2003}x\u{2003}y", "one two"] {
        let expected: Vec<String> = s.split_whitespace().map(|w| w.to_string()).collect();
        assert_eq!(words_of(s), expected);
    }
}

#[test]
fn lines_end_at_carriage_returns_and_line_feeds() {
    for s in ["", "a", "a\n", "a\nb", "a\r\nb\r\n", "\n", "\n\nx", "a\rb", "a\r", "\r\n\r\n"] {
        let expected: Vec<String> = s.split(['\r', '\n']).map(|l| l.to_string()).collect();
        assert_eq!(lines_of(s), expected);
    }
}

#[test]
fn joining_texts() {
    let parts = vec!["a".to_string(), "".to_string(), "b".to_string()];
    assert_eq!(joined(&parts, "; "), "a; ; b");
    assert_eq!(joined(&Vec::new(), "; "), "");
    assert_eq!(joined(&vec!["a".to_string()], "; "), "a");
}

#[test]
fn decimal_numerals() {
    assert_eq!(decimal_of(0), "0");
    assert_eq!(decimal_of(10), "10");
    assert_eq!(decimal_of(65535), "65535");
    assert_eq!(decimal_of(usize::MAX), usize::MAX.to_string());
}

#[test]
fn numbers_of_sixteen_bits() {
    let cases = [
        "", "+", "-1", "-0", "0", "007", "+6667", "++1", "65535", "65536", "99999999999999", " 1", "1 ",
        "1_0", "x", "6667x", "\u{661}",
    ];
    for s in cases {
        assert_eq!(parse_u16(s), s.parse::<u16>().ok(), "{}", s);
    }
}

#[test]
fn characters_and_sameness() {
    assert_eq!(chars_of("h\u{e9}"), vec!['h', '\u{e9}']);
    assert!(same_text("x", "x"));
    assert!(!same_text("x", "X"));
}
