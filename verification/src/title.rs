//! The artist and the title that the tags of a download will hold.
use vstd::prelude::*;

use crate::text::{
    contains, find_from, is_white, lemma_find_from, occurs_at, split_at_first, split_once, trim, trimmed,
};

verus! {

/// The pattern of a remark in brackets at the end of a video's title.
pub const TITLE_SUFFIX: &'static str =
    r"(?i)\s*\([^)]*(?:official|lyrics|music|audio|video|hd|visualizer|remastered|4k|edit|version)[^)]*\)\s*$";

/// The words by which a remark is known.
pub open spec fn remark_words() -> Seq<Seq<char>> {
    seq![
        "official"@,
        "lyrics"@,
        "music"@,
        "audio"@,
        "video"@,
        "hd"@,
        "visualizer"@,
        "remastered"@,
        "4k"@,
        "edit"@,
        "version"@,
    ]
}

/// Whether a character is `letter`, an ASCII digit or lowercase letter, but for its case.
/// The long s and the Kelvin sign are cases of `s` and `k`.
pub open spec fn same_letter(c: char, letter: char) -> bool {
    ||| c == letter
    ||| 'a' <= letter <= 'z' && c as int == letter as int - 32
    ||| letter == 's' && c == '\u{17f}'
    ||| letter == 'k' && c == '\u{212a}'
}

/// Whether `word` stands in `s` at index `i`, but for its case.
pub open spec fn word_at(s: Seq<char>, word: Seq<char>, i: int) -> bool {
    &&& 0 <= i
    &&& i + word.len() <= s.len()
    &&& forall|k: int| 0 <= k < word.len() ==> same_letter(s[i + k], #[trigger] word[k])
}

/// Whether one of the words stands somewhere in `s`.
pub open spec fn has_remark_word(s: Seq<char>) -> bool {
    exists|w: int, i: int|
        0 <= w < remark_words().len() && #[trigger] word_at(s, remark_words()[w], i)
}

/// Whether `s` is a remark with its brackets at `open` and `close`: but for them and what
/// is between them it is white space, and between them are one of the words and no closing
/// bracket.
pub open spec fn remark_between(s: Seq<char>, open: int, close: int) -> bool {
    &&& 0 <= open < close < s.len()
    &&& s[open] == '('
    &&& s[close] == ')'
    &&& forall|i: int| 0 <= i < open ==> is_white(s[i])
    &&& forall|i: int| close < i < s.len() ==> is_white(s[i])
    &&& forall|i: int| open < i < close ==> s[i] != ')'
    &&& has_remark_word(s.subrange(open + 1, close))
}

/// Whether `s` is a remark.
pub open spec fn is_remark(s: Seq<char>) -> bool {
    exists|open: int, close: int| remark_between(s, open, close)
}

/// The least index, from `i` on, at which a remark begins that reaches to the end of `s`;
/// the length of `s` where there is none.
pub open spec fn remark_start(s: Seq<char>, i: int) -> int
    decreases s.len() - i,
{
    if i >= s.len() {
        s.len() as int
    } else if is_remark(s.skip(i)) {
        i
    } else {
        remark_start(s, i + 1)
    }
}

/// A text without the remark at its end.
pub open spec fn without_remark(s: Seq<char>) -> Seq<char> {
    s.take(remark_start(s, 0))
}

/// `Regex::new` and `Regex::replace` with an empty replacement. The pattern is the one that
/// is known to compile. It is anchored at the end of the text, so the leftmost match is the
/// remark that begins first and reaches to the end; without a match the text is returned.
#[verifier::external_body]
fn remove_match(pattern: &str, text: &str) -> (rest: String)
    requires
        pattern@ == TITLE_SUFFIX@,
    ensures
        rest@ == without_remark(text@),
{
    regex::Regex::new(pattern).unwrap().replace(text, "").into_owned()
}

/// A title as it is split into artist and title: without the remark at its end and without
/// white space around it.
pub open spec fn cleaned_title(raw: Seq<char>) -> Seq<char> {
    trimmed(without_remark(raw))
}

/// What stands before and after the first ` - `, without white space around it; where there
/// is no ` - ` the artist is empty.
pub open spec fn split_title(cleaned: Seq<char>) -> (Seq<char>, Seq<char>) {
    match split_at_first(cleaned, " - "@) {
        Some((artist, title)) => (trimmed(artist), trimmed(title)),
        None => (Seq::empty(), cleaned),
    }
}

/// The artist and the title that a video's title tells.
pub open spec fn artist_and_title(raw: Seq<char>) -> (Seq<char>, Seq<char>) {
    split_title(cleaned_title(raw))
}

/// The artist and the title in a cleaned title.
pub fn split_artist_title(cleaned: String) -> (parts: (String, String))
    ensures
        (parts.0@, parts.1@) == split_title(cleaned@),
{
    match split_once(cleaned.as_str(), " - ") {
        Some((artist, title)) => (trim(artist.as_str()), trim(title.as_str())),
        None => (String::new(), cleaned),
    }
}

/// The artist and the title that a video's title tells.
pub fn parse_artist_title(raw: &str) -> (parts: (String, String))
    ensures
        (parts.0@, parts.1@) == artist_and_title(raw@),
{
    let cleaned = trim(remove_match(TITLE_SUFFIX, raw).as_str());
    split_artist_title(cleaned)
}

proof fn lemma_remark_start(s: Seq<char>, i: int)
    requires
        0 <= i <= s.len(),
    ensures
        i <= remark_start(s, i) <= s.len(),
        remark_start(s, i) < s.len() ==> is_remark(s.skip(remark_start(s, i))),
        forall|j: int| i <= j < remark_start(s, i) ==> !is_remark(#[trigger] s.skip(j)),
    decreases s.len() - i,
{
    if i < s.len() && !is_remark(s.skip(i)) {
        lemma_remark_start(s, i + 1);
    }
}

/// A title without a closing bracket has no remark, and is left as it is.
pub proof fn law_no_bracket_no_remark(raw: Seq<char>)
    requires
        !raw.contains(')'),
    ensures
        without_remark(raw) == raw,
{
    lemma_remark_start(raw, 0);
    let i = remark_start(raw, 0);
    if i < raw.len() {
        let s = raw.skip(i);
        let (open, close) = choose|open: int, close: int| remark_between(s, open, close);
        assert(raw[i + close] == ')');
    }
    assert(raw.take(raw.len() as int) == raw);
}

/// No remark begins inside a text that has no opening bracket and does not end with white
/// space, whatever follows it.
proof fn lemma_no_remark_inside(base: Seq<char>, after: Seq<char>, i: int)
    requires
        !base.contains('('),
        !is_white(base.last()),
        0 <= i < base.len(),
    ensures
        !is_remark((base + after).skip(i)),
{
    let s = (base + after).skip(i);
    let last = base.len() - 1 - i;
    assert(s[last] == base.last());
    assert forall|open: int, close: int| !remark_between(s, open, close) by {
        if remark_between(s, open, close) {
            assert(open <= last);
            assert(s[open] == base[i + open]);
        }
    }
}

/// Exactly the remark goes: a text that has no opening bracket and does not end with white
/// space, followed by a remark, gives that text.
pub proof fn law_remark_is_removed(base: Seq<char>, remark: Seq<char>)
    requires
        !base.contains('('),
        base.len() > 0 ==> !is_white(base.last()),
        is_remark(remark),
    ensures
        without_remark(base + remark) == base,
{
    let raw = base + remark;
    assert(remark.len() > 0) by {
        let (open, close) = choose|open: int, close: int| remark_between(remark, open, close);
        assert(remark_between(remark, open, close));
    }
    assert(remark_start(raw, 0) == base.len()) by {
        lemma_remark_start(raw, 0);
        let i = remark_start(raw, 0);
        if i < base.len() {
            lemma_no_remark_inside(base, remark, i);
        }
        assert(raw.skip(base.len() as int) == remark);
    }
    assert(raw.take(base.len() as int) == base);
}

/// What goes is the longest remark at the end, and nothing where there is none: the rest of
/// the text stays as it is.
pub proof fn law_longest_remark_goes(raw: Seq<char>) -> (kept: int)
    ensures
        0 <= kept <= raw.len(),
        without_remark(raw) == raw.take(kept),
        kept < raw.len() ==> is_remark(raw.skip(kept)),
        forall|j: int| 0 <= j < kept ==> !is_remark(#[trigger] raw.skip(j)),
{
    lemma_remark_start(raw, 0);
    remark_start(raw, 0)
}

/// One of the words in brackets is a remark, whatever stands beside it there but for closing
/// brackets, and whatever white space is around it.
pub proof fn law_word_in_brackets_is_remark(
    before: Seq<char>,
    left: Seq<char>,
    word: int,
    right: Seq<char>,
    after: Seq<char>,
)
    requires
        0 <= word < remark_words().len(),
        !(left + remark_words()[word] + right).contains(')'),
        forall|i: int| 0 <= i < before.len() ==> is_white(#[trigger] before[i]),
        forall|i: int| 0 <= i < after.len() ==> is_white(#[trigger] after[i]),
    ensures
        is_remark(
            before + seq!['('] + (left + remark_words()[word] + right) + seq![')'] + after,
        ),
{
    let inner = left + remark_words()[word] + right;
    let s = before + seq!['('] + inner + seq![')'] + after;
    let open = before.len() as int;
    let close = open + 1 + inner.len();
    assert(s.subrange(open + 1, close) == inner);
    assert(word_at(inner, remark_words()[word], left.len() as int));
    assert(has_remark_word(inner));
    assert forall|i: int| open < i < close implies s[i] != ')' by {
        assert(s[i] == inner[i - open - 1]);
        assert(inner.contains(inner[i - open - 1]));
    }
    assert forall|i: int| 0 <= i < open implies is_white(s[i]) by {
        assert(s[i] == before[i]);
    }
    assert forall|i: int| close < i < s.len() implies is_white(s[i]) by {
        assert(s[i] == after[i - close - 1]);
    }
    assert(remark_between(s, open, close));
}

/// A title is cleaned of the longest remark at its end, where there is one, and of the white
/// space around what is left, and of nothing else.
pub proof fn law_remark_and_white_space_go(
    before: Seq<char>,
    core: Seq<char>,
    after: Seq<char>,
    remark: Seq<char>,
)
    requires
        forall|i: int| 0 <= i < before.len() ==> is_white(#[trigger] before[i]),
        forall|i: int| 0 <= i < after.len() ==> is_white(#[trigger] after[i]),
        core.len() > 0 ==> !is_white(core[0]) && !is_white(core.last()),
        remark.len() == 0 || is_remark(remark),
        forall|j: int|
            0 <= j < (before + core + after).len() ==> !is_remark(
                #[trigger] (before + core + after + remark).skip(j),
            ),
    ensures
        cleaned_title(before + core + after + remark) == core,
{
    let rest = before + core + after;
    let raw = rest + remark;
    let kept = law_longest_remark_goes(raw);
    assert(raw.skip(rest.len() as int) == remark);
    assert(kept == rest.len());
    assert(raw.take(kept) == rest);
    crate::text::law_trimmed_between_white(before, core, after);
}

/// A title with a remark at its end is cleaned of it and of the white space around what is
/// left, and of nothing else.
pub proof fn law_title_before_remark(before: Seq<char>, core: Seq<char>, remark: Seq<char>)
    requires
        forall|i: int| 0 <= i < before.len() ==> is_white(#[trigger] before[i]),
        core.len() > 0,
        !is_white(core[0]) && !is_white(core.last()),
        !core.contains('('),
        is_remark(remark),
    ensures
        cleaned_title(before + core + remark) == core,
{
    let base = before + core;
    assert forall|i: int| 0 <= i < base.len() implies base[i] != '(' by {
        if i < before.len() {
            assert(is_white(before[i]));
        } else {
            assert(base[i] == core[i - before.len()]);
            assert(core.contains(core[i - before.len()]));
        }
    }
    assert(base.last() == core.last());
    law_remark_is_removed(base, remark);
    crate::text::law_trimmed_between_white(before, core, Seq::empty());
    assert(base + Seq::<char>::empty() == base);
}

/// Where ` - ` stands in a cleaned title, the artist is all that stands before the first one
/// and the title all that stands after it, but for the white space around each.
pub proof fn law_both_sides_of_first_dash(
    around_artist: (Seq<char>, Seq<char>),
    artist: Seq<char>,
    around_title: (Seq<char>, Seq<char>),
    title: Seq<char>,
)
    requires
        forall|i: int| 0 <= i < around_artist.0.len() ==> is_white(#[trigger] around_artist.0[i]),
        forall|i: int| 0 <= i < around_artist.1.len() ==> is_white(#[trigger] around_artist.1[i]),
        forall|i: int| 0 <= i < around_title.0.len() ==> is_white(#[trigger] around_title.0[i]),
        forall|i: int| 0 <= i < around_title.1.len() ==> is_white(#[trigger] around_title.1[i]),
        artist.len() > 0 ==> !is_white(artist[0]) && !is_white(artist.last()),
        title.len() > 0 ==> !is_white(title[0]) && !is_white(title.last()),
        ({
            let left = around_artist.0 + artist + around_artist.1;
            let right = around_title.0 + title + around_title.1;
            forall|a: Seq<char>, b: Seq<char>|
                left + " - "@ + right == #[trigger] (a + " - "@ + b) ==> left.len() <= a.len()
        }),
    ensures
        split_title(
            (around_artist.0 + artist + around_artist.1) + " - "@ + (around_title.0 + title
                + around_title.1),
        ) == (artist, title),
{
    let left = around_artist.0 + artist + around_artist.1;
    let right = around_title.0 + title + around_title.1;
    let cleaned = left + " - "@ + right;
    crate::text::law_split_at_first(cleaned, " - "@);
    let (before, after) = split_at_first(cleaned, " - "@)->0;
    assert(split_at_first(cleaned, " - "@) is Some);
    assert(before.len() == left.len());
    assert(before == cleaned.take(before.len() as int));
    assert(left == cleaned.take(left.len() as int));
    assert(after == cleaned.skip((before.len() + " - "@.len()) as int));
    assert(right == cleaned.skip((left.len() + " - "@.len()) as int));
    crate::text::law_trimmed_between_white(around_artist.0, artist, around_artist.1);
    crate::text::law_trimmed_between_white(around_title.0, title, around_title.1);
}

/// A cleaned title that cannot be parted at a ` - ` is the title, and there is no artist.
pub proof fn law_no_dash_no_artist(cleaned: Seq<char>)
    requires
        forall|a: Seq<char>, b: Seq<char>| cleaned != #[trigger] (a + " - "@ + b),
    ensures
        split_title(cleaned) == (Seq::<char>::empty(), cleaned),
{
    crate::text::law_split_at_first(cleaned, " - "@);
}

/// What a video's title tells is on the two sides of the first ` - ` in its cleaned form, and
/// depends on nothing else of it.
pub proof fn law_cleaned_title_tells(
    raw: Seq<char>,
    around_artist: (Seq<char>, Seq<char>),
    artist: Seq<char>,
    around_title: (Seq<char>, Seq<char>),
    title: Seq<char>,
)
    requires
        forall|i: int| 0 <= i < around_artist.0.len() ==> is_white(#[trigger] around_artist.0[i]),
        forall|i: int| 0 <= i < around_artist.1.len() ==> is_white(#[trigger] around_artist.1[i]),
        forall|i: int| 0 <= i < around_title.0.len() ==> is_white(#[trigger] around_title.0[i]),
        forall|i: int| 0 <= i < around_title.1.len() ==> is_white(#[trigger] around_title.1[i]),
        artist.len() > 0 ==> !is_white(artist[0]) && !is_white(artist.last()),
        title.len() > 0 ==> !is_white(title[0]) && !is_white(title.last()),
        cleaned_title(raw) == (around_artist.0 + artist + around_artist.1) + " - "@ + (
        around_title.0 + title + around_title.1),
        forall|a: Seq<char>, b: Seq<char>|
            cleaned_title(raw) == #[trigger] (a + " - "@ + b) ==> (around_artist.0 + artist
                + around_artist.1).len() <= a.len(),
    ensures
        artist_and_title(raw) == (artist, title),
{
    law_both_sides_of_first_dash(around_artist, artist, around_title, title);
}

/// A video's title that is an artist, ` - ` and a title, with or without a remark at its end,
/// tells exactly these two.
pub proof fn law_artist_and_title_are_told(artist: Seq<char>, title: Seq<char>, remark: Seq<char>)
    requires
        artist.len() > 0 && !is_white(artist[0]) && !is_white(artist.last()),
        title.len() > 0 && !is_white(title[0]) && !is_white(title.last()),
        forall|a: Seq<char>, b: Seq<char>|
            artist + " - "@ + title == #[trigger] (a + " - "@ + b) ==> artist.len() <= a.len(),
        !artist.contains('(') && !title.contains('('),
        remark.len() == 0 || is_remark(remark),
    ensures
        artist_and_title(artist + " - "@ + title + remark) == (artist, title),
{
    reveal_strlit(" - ");
    let core = artist + " - "@ + title;
    let empty = Seq::<char>::empty();
    assert(core[0] == artist[0] && core.last() == title.last());
    assert forall|i: int| 0 <= i < core.len() implies core[i] != '(' by {
        if i < artist.len() {
            assert(artist.contains(artist[i]));
        } else if i >= artist.len() + 3 {
            assert(core[i] == title[i - artist.len() - 3]);
            assert(title.contains(title[i - artist.len() - 3]));
        }
    }
    assert(cleaned_title(core + remark) == core) by {
        assert(empty + core == core);
        if remark.len() == 0 {
            assert(empty + core + empty + remark == core + remark);
            assert forall|j: int| 0 <= j < (empty + core + empty).len() implies !is_remark(
                #[trigger] (empty + core + empty + remark).skip(j),
            ) by {
                lemma_no_remark_inside(core, remark, j);
            }
            law_remark_and_white_space_go(empty, core, empty, remark);
        } else {
            law_title_before_remark(empty, core, remark);
        }
    }
    assert(empty + artist + empty == artist);
    assert(empty + title + empty == title);
    law_both_sides_of_first_dash((empty, empty), artist, (empty, empty), title);
}

/// The artist and the title have no white space around them.
pub proof fn law_parts_are_trimmed(raw: Seq<char>)
    ensures
        trimmed(artist_and_title(raw).0) == artist_and_title(raw).0,
        trimmed(artist_and_title(raw).1) == artist_and_title(raw).1,
{
    let cleaned = cleaned_title(raw);
    crate::text::law_trimmed_twice(without_remark(raw));
    if let Some((artist, title)) = split_at_first(cleaned, " - "@) {
        crate::text::law_trimmed_twice(artist);
        crate::text::law_trimmed_twice(title);
    }
}

/// The title is split at the first ` - `: none stands in the artist. Where the cleaned title
/// has none, the artist is empty and the title is the whole of it.
pub proof fn law_split_at_first_dash(raw: Seq<char>)
    ensures
        !contains(artist_and_title(raw).0, " - "@),
        !contains(cleaned_title(raw), " - "@) ==> artist_and_title(raw) == (
            Seq::<char>::empty(),
            cleaned_title(raw),
        ),
{
    reveal_strlit(" - ");
    let dash = " - "@;
    let cleaned = cleaned_title(raw);
    lemma_find_from(cleaned, dash, 0);
    match find_from(cleaned, dash, 0) {
        Some(k) => {
            let before = cleaned.take(k);
            let (from, to) = crate::text::law_trimmed_is_inner_part(before);
            let artist = trimmed(before);
            if contains(artist, dash) {
                let i = choose|i: int| occurs_at(artist, dash, i);
                assert(cleaned.subrange(from + i, from + i + dash.len()) == artist.subrange(
                    i,
                    i + dash.len(),
                ));
                assert(occurs_at(cleaned, dash, from + i));
            }
            assert(occurs_at(cleaned, dash, k));
        },
        None => {},
    }
}

} // verus!
