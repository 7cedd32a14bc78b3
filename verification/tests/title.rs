use invidious::title::{parse_artist_title, split_artist_title};

const WORDS: [&str; 11] = [
    "official", "lyrics", "music", "audio", "video", "hd", "visualizer", "remastered", "4k", "edit", "version",
];

fn same_letter(c: char, letter: char) -> bool {
    c == letter
        || c.is_ascii_uppercase() && c.to_ascii_lowercase() == letter
        || letter == 's' && c == '\u{17f}'
        || letter == 'k' && c == '\u{212a}'
}

fn has_word(inner: &[char]) -> bool {
    WORDS.iter().any(|word| {
        let word: Vec<char> = word.chars().collect();
        inner
            .windows(word.len())
            .any(|w| w.iter().zip(&word).all(|(c, l)| same_letter(*c, *l)))
    })
}

fn is_remark(s: &[char]) -> bool {
    let white = |part: &[char]| part.iter().all(|c| c.is_whitespace());
    (0..s.len()).any(|open| {
        s[open] == '('
            && white(&s[..open])
            && (open + 1..s.len()).any(|close| {
                s[close] == ')'
                    && white(&s[close + 1..])
                    && !s[open + 1..close].contains(&')')
                    && has_word(&s[open + 1..close])
            })
    })
}

fn without_remark(text: &str) -> String {
    let chars: Vec<char> = text.chars().collect();
    let start = (0..chars.len())
        .find(|i| is_remark(&chars[*i..]))
        .unwrap_or(chars.len());
    chars[..start].iter().collect()
}

fn expected(raw: &str) -> (String, String) {
    let without = without_remark(raw);
    let cleaned = without.trim();
    match cleaned.split_once(" - ") {
        Some((artist, title)) => (artist.trim().to_owned(), title.trim().to_owned()),
        None => (String::new(), cleaned.to_owned()),
    }
}

fn pair(artist: &str, title: &str) -> (String, String) {
    (artist.to_owned(), title.to_owned())
}

#[test]
fn artist_and_title_are_told_apart() {
    assert_eq!(parse_artist_title("ABBA - Waterloo"), pair("ABBA", "Waterloo"));
    assert_eq!(
        parse_artist_title("ABBA - Waterloo (Official Video)"),
        pair("ABBA", "Waterloo")
    );
    assert_eq!(
        parse_artist_title("  A  -  B - C \t(Remastered 2011)\n"),
        pair("A", "B - C")
    );
    assert_eq!(parse_artist_title("Waterloo"), pair("", "Waterloo"));
    assert_eq!(parse_artist_title("Waterloo (4K)"), pair("", "Waterloo"));
    assert_eq!(parse_artist_title(""), pair("", ""));
    assert_eq!(parse_artist_title(" - x"), pair("", "- x"));
    assert_eq!(parse_artist_title("x - "), pair("", "x -"));
    assert_eq!(parse_artist_title("A-B"), pair("", "A-B"));
}

#[test]
fn only_a_known_remark_at_the_end_goes() {
    assert_eq!(parse_artist_title("A - B (live)"), pair("A", "B (live)"));
    assert_eq!(
        parse_artist_title("A - B (official video) [x]"),
        pair("A", "B (official video) [x]")
    );
    assert_eq!(
        parse_artist_title("A - B (live) (official video)"),
        pair("A", "B (live)")
    );
    assert_eq!(
        parse_artist_title("A - B (x (lyrics) y)"),
        pair("A", "B (x (lyrics) y)")
    );
    assert_eq!(parse_artist_title("A - B (x (lyrics)"), pair("A", "B"));
    assert_eq!(
        parse_artist_title("A - B (hd) (audio)"),
        pair("A", "B (hd)")
    );
    assert_eq!(parse_artist_title("(video)"), pair("", ""));
}

#[test]
fn the_case_of_a_remark_does_not_count() {
    for word in WORDS {
        let raw = format!("A - B (x{}y)", word.to_uppercase());
        assert_eq!(parse_artist_title(&raw), pair("A", "B"));
    }
    assert_eq!(parse_artist_title("A - B (4\u{212a})"), pair("A", "B"));
    assert_eq!(parse_artist_title("A - B (mu\u{17f}ic)"), pair("A", "B"));
    assert_eq!(parse_artist_title("A - B (v\u{131}deo)"), pair("A", "B (v\u{131}deo)"));
    assert_eq!(parse_artist_title("A - B (v\u{130}deo)"), pair("A", "B (v\u{130}deo)"));
}

#[test]
fn every_space_of_unicode_goes_with_a_remark() {
    for c in '\u{0}'..='\u{3100}' {
        if c.is_whitespace() {
            let raw = format!("A - B{c}(hd){c}");
            assert_eq!(parse_artist_title(&raw), pair("A", "B"));
        }
    }
    for c in ['\u{180e}', '\u{200b}', '\u{2060}', '\u{feff}'] {
        let raw = format!("A - B (hd){c}");
        assert_eq!(parse_artist_title(&raw), expected(&raw));
        assert_eq!(parse_artist_title(&raw).1, format!("B (hd){c}"));
    }
}

#[test]
fn short_titles_agree_with_the_definition() {
    let pieces = ["(", ")", "hd", "\n", "x"];
    let mut texts = vec![String::new()];
    let mut from = 0;
    for _ in 0..5 {
        let to = texts.len();
        for i in from..to {
            for piece in pieces {
                texts.push(format!("{}{}", texts[i], piece));
            }
        }
        from = to;
    }
    for text in &texts {
        let raw = format!("A - {text}");
        assert_eq!(parse_artist_title(&raw), expected(&raw), "{:?}", raw);
    }
}

#[test]
fn cleaned_titles_are_split_at_the_first_dash() {
    assert_eq!(split_artist_title("a - b - c".to_owned()), pair("a", "b - c"));
    assert_eq!(split_artist_title("  -  ".to_owned()), pair("", ""));
    assert_eq!(split_artist_title(" a ".to_owned()), pair("", " a "));
}
