use invidious::text::{
    chars_of, contains_text, decimal, find, is_whitespace, join, lines, split_once, text_between, trim,
};

#[test]
fn whitespace_is_that_of_unicode() {
    for c in '\u{0}'..=char::MAX {
        assert_eq!(is_whitespace(c), c.is_whitespace(), "{:?}", c);
    }
}

#[test]
fn trimming_agrees_with_std() {
    for text in [
        "", " ", " a", "a ", "  a b  ", "\t\n a\u{3000}", "\u{a0}\u{2028}x\u{1680}", "\u{200b}a\u{200b}",
        "abc", " \u{85} ",
    ] {
        assert_eq!(trim(text), text.trim());
        assert_eq!(trim(&trim(text)), text.trim());
    }
}

#[test]
fn lines_agree_with_std() {
    let alphabet = ['a', '\r', '\n'];
    let mut texts = vec![String::new()];
    let mut from = 0;
    for _ in 0..6 {
        let to = texts.len();
        for i in from..to {
            for c in alphabet {
                let mut longer = texts[i].clone();
                longer.push(c);
                texts.push(longer);
            }
        }
        from = to;
    }
    for text in &texts {
        let expected: Vec<&str> = text.lines().collect();
        assert_eq!(lines(text), expected, "{:?}", text);
    }
}

#[test]
fn lines_of_two_parts_are_theirs() {
    assert_eq!(lines("a\r\n\nb"), vec!["a", "", "b"]);
    assert_eq!(lines("a\r\n"), vec!["a"]);
    assert_eq!(lines("\nb"), vec!["", "b"]);
    assert_eq!(lines("a\r"), vec!["a\r"]);
}

#[test]
fn splitting_agrees_with_std() {
    for text in ["", "a", " - ", "a - b", "a - b - c", "a-b", "a  -  b", "- ", "ü - ß", " -  - "] {
        let expected = text
            .split_once(" - ")
            .map(|(a, b)| (a.to_owned(), b.to_owned()));
        assert_eq!(split_once(text, " - "), expected);
    }
    assert_eq!(split_once("abc", ""), Some((String::new(), "abc".to_owned())));
}

#[test]
fn searching_agrees_with_std() {
    for text in ["", "a", "aab", "abab", "üaß"] {
        for needle in ["", "a", "ab", "b", "ß", "abab", "ababa"] {
            assert_eq!(contains_text(text, needle), text.contains(needle));
        }
    }
    assert_eq!(find(&chars_of("xüü"), &chars_of("ü")), Some(1));
    assert_eq!(find(&chars_of("x"), &chars_of("xx")), None);
}

#[test]
fn numbers_are_written_in_decimal() {
    for n in [0, 7, 9, 10, 11, 99, 100, 1024, u64::MAX] {
        assert_eq!(decimal(n), n.to_string());
        assert_eq!(decimal(n).parse(), Ok(n));
    }
}

#[test]
fn texts_are_cut_and_joined() {
    let chars = chars_of("añb");
    assert_eq!(chars, vec!['a', 'ñ', 'b']);
    assert_eq!(text_between(&chars, 1, 3), "ñb");
    assert_eq!(text_between(&chars, 1, 1), "");
    assert_eq!(join("a", "b"), "ab");
}
