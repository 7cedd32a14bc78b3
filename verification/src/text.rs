//! Operations on text, stated over sequences of characters.
use vstd::prelude::*;

verus! {

/// `String::push` appends the given character to the end of the string.
pub assume_specification[ String::push ](text: &mut String, c: char)
    ensures
        final(text)@ == old(text)@.push(c),
;

/// The lowercase letter of an ASCII capital; every other character is itself.
pub open spec fn ascii_lower(c: char) -> char {
    if 'A' <= c <= 'Z' {
        (c as u32 + 32) as char
    } else {
        c
    }
}

/// Whether every character of a text is ASCII.
pub open spec fn all_ascii(text: Seq<char>) -> bool {
    forall|i: int| 0 <= i < text.len() ==> (#[trigger] text[i] as u32) < 128
}

/// A text with each of its ASCII capitals as its lowercase letter.
pub open spec fn ascii_lowercase(text: Seq<char>) -> Seq<char> {
    text.map_values(|c: char| ascii_lower(c))
}

/// A text with each of its ASCII lowercase letters as its capital.
pub open spec fn ascii_uppercase(text: Seq<char>) -> Seq<char> {
    text.map_values(
        |c: char|
            if 'a' <= c <= 'z' {
                (c as u32 - 32) as char
            } else {
                c
            },
    )
}

/// What `str::to_lowercase` makes of a text that is not all ASCII and has no ASCII capital.
pub uninterp spec fn unicode_lowercase(text: Seq<char>) -> Seq<char>;

/// A text in lowercase.
pub open spec fn lowercase(text: Seq<char>) -> Seq<char> {
    if all_ascii(text) {
        ascii_lowercase(text)
    } else {
        unicode_lowercase(ascii_lowercase(text))
    }
}

/// A text and the same text with its ASCII letters as capitals are the same in lowercase.
pub proof fn law_uppercase_in_lowercase(text: Seq<char>)
    ensures
        lowercase(ascii_uppercase(text)) == lowercase(text),
{
    let upper = ascii_uppercase(text);
    assert forall|i: int| 0 <= i < text.len() implies ((#[trigger] upper[i] as u32) < 128) == ((
    text[i] as u32) < 128) && ascii_lower(upper[i]) == ascii_lower(text[i]) by {}
    assert(ascii_lowercase(upper) == ascii_lowercase(text));
    assert(all_ascii(upper) == all_ascii(text)) by {
        if all_ascii(upper) {
            assert forall|i: int| 0 <= i < text.len() implies (#[trigger] text[i] as u32) < 128 by {
                assert((upper[i] as u32) < 128);
            }
        }
    }
}

/// In an ASCII text each capital becomes the letter 32 places on and everything else stays,
/// each in its place.
pub proof fn law_ascii_in_lowercase(text: Seq<char>, i: int)
    requires
        forall|j: int| 0 <= j < text.len() ==> (#[trigger] text[j] as u32) < 128,
        0 <= i < text.len(),
    ensures
        lowercase(text).len() == text.len(),
        'A' <= text[i] <= 'Z' ==> lowercase(text)[i] as int == text[i] as int + 32,
        !('A' <= text[i] <= 'Z') ==> lowercase(text)[i] == text[i],
{
}

/// A text with a character that is not ASCII is given to the Unicode rules whole, and where
/// it has no ASCII capital as it stands.
pub proof fn law_unicode_in_lowercase(text: Seq<char>, i: int)
    requires
        0 <= i < text.len(),
        text[i] as u32 >= 128,
        forall|j: int| 0 <= j < text.len() ==> !('A' <= #[trigger] text[j] <= 'Z'),
    ensures
        lowercase(text) == unicode_lowercase(text),
        lowercase(ascii_uppercase(text)) == unicode_lowercase(text),
{
    assert(ascii_lowercase(text) == text);
    law_uppercase_in_lowercase(text);
}

/// `str::to_lowercase`. Each ASCII capital becomes its lowercase letter whatever else the
/// text holds, so a text and the same text without ASCII capitals give the same; an ASCII
/// text has nothing else that changes. What becomes of the other characters depends on the
/// text alone and is named `unicode_lowercase`.
#[verifier::external_body]
pub(crate) fn to_lowercase(text: &str) -> (lower: String)
    ensures
        all_ascii(text@) ==> lower@ == ascii_lowercase(text@),
        !all_ascii(text@) ==> lower@ == unicode_lowercase(ascii_lowercase(text@)),
{
    text.to_lowercase()
}

/// What `String::from_utf8_lossy` makes of bytes that hold no line feed and are not valid
/// UTF-8.
pub uninterp spec fn repaired_utf8(bytes: Seq<u8>) -> Seq<char>;

/// Bytes without a line feed read as UTF-8, with faulty parts replaced.
pub open spec fn lossy_line(bytes: Seq<u8>) -> Seq<char> {
    if vstd::utf8::valid_utf8(bytes) {
        vstd::utf8::decode_utf8(bytes)
    } else {
        repaired_utf8(bytes)
    }
}

/// The number of bytes before the first line feed.
pub open spec fn feed_index(bytes: Seq<u8>) -> nat
    decreases bytes.len(),
{
    if bytes.len() == 0 || bytes[0] == 10 {
        0
    } else {
        1 + feed_index(bytes.drop_first())
    }
}

/// Bytes read as UTF-8, with faulty parts replaced. A line feed is never part of a fault, so
/// what is before it and what is after it are each read by itself.
pub open spec fn utf8_lossy(bytes: Seq<u8>) -> Seq<char>
    decreases bytes.len(),
{
    if feed_index(bytes) >= bytes.len() {
        lossy_line(bytes)
    } else {
        lossy_line(bytes.take(feed_index(bytes) as int)) + seq!['\n'] + utf8_lossy(
            bytes.skip(feed_index(bytes) as int + 1),
        )
    }
}

/// `String::from_utf8_lossy`. Valid UTF-8 gives the text that it encodes, and only faulty
/// parts are replaced: a line feed is valid by itself and in no longer sequence, so it stays
/// and parts the bytes. Of faulty bytes with no line feed the result depends on the bytes
/// alone and is named `repaired_utf8`.
#[verifier::external_body]
pub(crate) fn from_utf8_lossy(bytes: &[u8]) -> (text: String)
    ensures
        text@ == utf8_lossy(bytes@),
        feed_index(bytes@) == bytes@.len() && !vstd::utf8::valid_utf8(bytes@) ==> text@
            == repaired_utf8(bytes@),
{
    String::from_utf8_lossy(bytes).into_owned()
}

proof fn lemma_feed_index(bytes: Seq<u8>)
    ensures
        feed_index(bytes) <= bytes.len(),
        forall|i: int| 0 <= i < feed_index(bytes) ==> bytes[i] != 10,
        feed_index(bytes) < bytes.len() ==> bytes[feed_index(bytes) as int] == 10,
    decreases bytes.len(),
{
    if bytes.len() > 0 && bytes[0] != 10 {
        let rest = bytes.drop_first();
        lemma_feed_index(rest);
        assert forall|i: int| 0 <= i < feed_index(bytes) implies bytes[i] != 10 by {
            if i > 0 {
                assert(rest[i - 1] == bytes[i]);
            }
        }
    }
}

proof fn lemma_feed_index_at(line: Seq<u8>, rest: Seq<u8>)
    requires
        forall|i: int| 0 <= i < line.len() ==> line[i] != 10,
    ensures
        feed_index(line + seq![10u8] + rest) == line.len(),
    decreases line.len(),
{
    let whole = line + seq![10u8] + rest;
    if line.len() > 0 {
        assert(whole.drop_first() == line.drop_first() + seq![10u8] + rest);
        lemma_feed_index_at(line.drop_first(), rest);
    } else {
        assert(whole[0] == 10);
    }
}

/// Reading a line, a line feed and a rest gives the line, the line feed and the rest.
proof fn lemma_lossy_first_line(line: Seq<u8>, rest: Seq<u8>)
    requires
        forall|i: int| 0 <= i < line.len() ==> line[i] != 10,
    ensures
        utf8_lossy(line + seq![10u8] + rest) == lossy_line(line) + seq!['\n'] + utf8_lossy(rest),
{
    let whole = line + seq![10u8] + rest;
    lemma_feed_index_at(line, rest);
    assert(whole.take(line.len() as int) == line);
    assert(whole.skip((line.len() + 1) as int) == rest);
}

/// Bytes on either side of a line feed are read by themselves, faulty or not.
pub proof fn law_lossy_around_line_feed(first: Seq<u8>, second: Seq<u8>)
    ensures
        utf8_lossy(first + seq![10u8] + second) == utf8_lossy(first) + seq!['\n'] + utf8_lossy(
            second,
        ),
    decreases first.len(),
{
    lemma_feed_index(first);
    let e = feed_index(first) as int;
    if e == first.len() {
        lemma_lossy_first_line(first, second);
    } else {
        let line = first.take(e);
        let rest = first.skip(e + 1);
        law_lossy_around_line_feed(rest, second);
        assert(first + seq![10u8] + second == line + seq![10u8] + (rest + seq![10u8] + second));
        lemma_lossy_first_line(line, rest + seq![10u8] + second);
        assert(lossy_line(line) + seq!['\n'] + (utf8_lossy(rest) + seq!['\n'] + utf8_lossy(second))
            == (lossy_line(line) + seq!['\n'] + utf8_lossy(rest)) + seq!['\n'] + utf8_lossy(second));
    }
}

/// Valid UTF-8 is read as the text that it encodes.
pub proof fn law_valid_utf8_is_decoded(bytes: Seq<u8>)
    requires
        vstd::utf8::valid_utf8(bytes),
    ensures
        utf8_lossy(bytes) == vstd::utf8::decode_utf8(bytes),
    decreases bytes.len(),
{
    lemma_feed_index(bytes);
    let e = feed_index(bytes) as int;
    if e < bytes.len() {
        let tail = bytes.subrange(e, bytes.len() as int);
        let rest = bytes.skip(e + 1);
        assert(!vstd::utf8::is_continuation_byte(bytes[e])) by {
            assert(bytes[e] == 10);
        }
        vstd::utf8::is_char_boundary_iff_not_is_continuation_byte(bytes, e);
        vstd::utf8::valid_utf8_split(bytes, e);
        vstd::utf8::decode_utf8_split(bytes, e);
        assert(bytes.subrange(0, e) == bytes.take(e));
        assert(tail[0] == 10);
        assert(vstd::utf8::pop_first_scalar(tail) == rest);
        assert(vstd::utf8::decode_first_scalar(tail) == 10) by {
            assert(10u8 & 0x7f == 10) by (bit_vector);
        }
        assert(vstd::utf8::decode_utf8(tail) == seq!['\n'] + vstd::utf8::decode_utf8(rest));
        law_valid_utf8_is_decoded(rest);
    }
}

/// Faulty bytes of one line are repaired as a whole.
pub proof fn law_faulty_line_is_repaired(bytes: Seq<u8>)
    requires
        forall|i: int| 0 <= i < bytes.len() ==> bytes[i] != 10,
        !vstd::utf8::valid_utf8(bytes),
    ensures
        utf8_lossy(bytes) == repaired_utf8(bytes),
{
    lemma_feed_index(bytes);
}

/// The characters of a text.
pub fn chars_of(text: &str) -> (chars: Vec<char>)
    ensures
        chars@ == text@,
{
    let mut chars: Vec<char> = Vec::new();
    for c in it: text.chars()
        invariant
            it.seq() == text@,
            chars@ == text@.take(it.index()),
    {
        chars.push(c);
    }
    assert(text@.take(text@.len() as int) == text@);
    chars
}

/// The text of the characters from `from` up to `to`.
pub fn text_between(chars: &Vec<char>, from: usize, to: usize) -> (text: String)
    requires
        from <= to <= chars@.len(),
    ensures
        text@ == chars@.subrange(from as int, to as int),
{
    let mut text = String::new();
    let mut i: usize = from;
    while i < to
        invariant
            from <= i <= to <= chars@.len(),
            text@ == chars@.subrange(from as int, i as int),
        decreases to - i,
    {
        text.push(chars[i]);
        i = i + 1;
        assert(chars@.subrange(from as int, i as int) == chars@.subrange(from as int, i - 1).push(
            chars@[i - 1],
        ));
    }
    text
}

/// Whether a character has the Unicode property White_Space.
pub open spec fn is_white(c: char) -> bool {
    let n = c as u32;
    ||| 0x9 <= n <= 0xd
    ||| n == 0x20
    ||| n == 0x85
    ||| n == 0xa0
    ||| n == 0x1680
    ||| 0x2000 <= n <= 0x200a
    ||| n == 0x2028
    ||| n == 0x2029
    ||| n == 0x202f
    ||| n == 0x205f
    ||| n == 0x3000
}

/// Tells whether a character is white space.
pub fn is_whitespace(c: char) -> (white: bool)
    ensures
        white == is_white(c),
{
    let n: u32 = c as u32;
    (0x9 <= n && n <= 0xd) || n == 0x20 || n == 0x85 || n == 0xa0 || n == 0x1680 || (0x2000 <= n
        && n <= 0x200a) || n == 0x2028 || n == 0x2029 || n == 0x202f || n == 0x205f || n == 0x3000
}

/// A text without its leading white space.
pub open spec fn trim_start(s: Seq<char>) -> Seq<char>
    decreases s.len(),
{
    if s.len() > 0 && is_white(s[0]) {
        trim_start(s.drop_first())
    } else {
        s
    }
}

/// A text without its trailing white space.
pub open spec fn trim_end(s: Seq<char>) -> Seq<char>
    decreases s.len(),
{
    if s.len() > 0 && is_white(s.last()) {
        trim_end(s.drop_last())
    } else {
        s
    }
}

/// A text without its leading and trailing white space.
pub open spec fn trimmed(s: Seq<char>) -> Seq<char> {
    trim_end(trim_start(s))
}

proof fn lemma_trim_start(s: Seq<char>) -> (from: int)
    ensures
        0 <= from <= s.len(),
        trim_start(s) == s.skip(from),
        forall|i: int| 0 <= i < from ==> is_white(s[i]),
        from < s.len() ==> !is_white(s[from]),
    decreases s.len(),
{
    if s.len() > 0 && is_white(s[0]) {
        let rest = s.drop_first();
        let from = lemma_trim_start(rest);
        assert(rest.skip(from) == s.skip(from + 1));
        assert forall|i: int| 0 <= i < from + 1 implies is_white(s[i]) by {
            if i > 0 {
                assert(rest[i - 1] == s[i]);
            }
        }
        from + 1
    } else {
        assert(s.skip(0) == s);
        0
    }
}

proof fn lemma_trim_end(s: Seq<char>) -> (to: int)
    ensures
        0 <= to <= s.len(),
        trim_end(s) == s.take(to),
        forall|i: int| to <= i < s.len() ==> is_white(s[i]),
        to > 0 ==> !is_white(s[to - 1]),
    decreases s.len(),
{
    if s.len() > 0 && is_white(s.last()) {
        let to = lemma_trim_end(s.drop_last());
        assert(s.drop_last().take(to) == s.take(to));
        assert forall|i: int| to <= i < s.len() implies is_white(s[i]) by {
            if i < s.len() - 1 {
                assert(s.drop_last()[i] == s[i]);
            }
        }
        to
    } else {
        assert(s.take(s.len() as int) == s);
        s.len() as int
    }
}

/// Trimming takes a part of the text: what it leaves out on either side is white space, and
/// what it keeps neither begins nor ends with white space.
pub proof fn law_trimmed_is_inner_part(s: Seq<char>) -> (bounds: (int, int))
    ensures
        0 <= bounds.0 <= bounds.1 <= s.len(),
        trimmed(s) == s.subrange(bounds.0, bounds.1),
        forall|i: int| 0 <= i < bounds.0 ==> is_white(s[i]),
        forall|i: int| bounds.1 <= i < s.len() ==> is_white(s[i]),
        trimmed(s).len() > 0 ==> !is_white(trimmed(s)[0]) && !is_white(trimmed(s).last()),
{
    let from = lemma_trim_start(s);
    let inner = s.skip(from);
    let to = lemma_trim_end(inner);
    assert(inner.take(to) == s.subrange(from, from + to));
    assert forall|i: int| from + to <= i < s.len() implies is_white(s[i]) by {
        assert(inner[i - from] == s[i]);
    }
    (from, from + to)
}

/// Trimming a trimmed text changes nothing.
pub proof fn law_trimmed_twice(s: Seq<char>)
    ensures
        trimmed(trimmed(s)) == trimmed(s),
{
    law_trimmed_is_inner_part(s);
}

/// White space on either side goes, and all that stands between it stays: a text that
/// neither begins nor ends with white space is what is left of it.
pub proof fn law_trimmed_between_white(before: Seq<char>, core: Seq<char>, after: Seq<char>)
    requires
        forall|i: int| 0 <= i < before.len() ==> is_white(#[trigger] before[i]),
        forall|i: int| 0 <= i < after.len() ==> is_white(#[trigger] after[i]),
        core.len() > 0 ==> !is_white(core[0]) && !is_white(core.last()),
    ensures
        trimmed(before + core + after) == core,
{
    let s = before + core + after;
    let (from, to) = law_trimmed_is_inner_part(s);
    let first = before.len() as int;
    let end = first + core.len();
    if core.len() == 0 {
        assert forall|i: int| 0 <= i < s.len() implies is_white(#[trigger] s[i]) by {
            if i < first {
                assert(s[i] == before[i]);
            } else {
                assert(s[i] == after[i - first]);
            }
        }
        if from < to {
            assert(trimmed(s)[0] == s[from]);
        }
    } else {
        assert(s[first] == core[0]);
        assert(s[end - 1] == core.last());
        assert(from <= first && end <= to);
        assert(trimmed(s)[0] == s[from] && trimmed(s).last() == s[to - 1]);
        if from < first {
            assert(s[from] == before[from]);
        }
        if to > end {
            assert(s[to - 1] == after[to - 1 - end]);
        }
    }
    assert(trimmed(s) == core);
}

/// Removes leading and trailing white space.
pub fn trim(text: &str) -> (inner: String)
    ensures
        inner@ == trimmed(text@),
{
    let chars = chars_of(text);
    let mut from: usize = 0;
    assert(chars@.skip(0) == chars@);
    while from < chars.len() && is_whitespace(chars[from])
        invariant
            from <= chars@.len(),
            trim_start(chars@) == trim_start(chars@.skip(from as int)),
        decreases chars@.len() - from,
    {
        assert(chars@.skip(from as int).drop_first() == chars@.skip(from + 1));
        from = from + 1;
    }
    let mut to: usize = chars.len();
    assert(chars@.skip(from as int) == chars@.subrange(from as int, to as int));
    while from < to && is_whitespace(chars[to - 1])
        invariant
            from <= to <= chars@.len(),
            trim_end(trim_start(chars@)) == trim_end(chars@.subrange(from as int, to as int)),
        decreases to,
    {
        assert(chars@.subrange(from as int, to as int).drop_last() == chars@.subrange(
            from as int,
            to - 1,
        ));
        to = to - 1;
    }
    text_between(&chars, from, to)
}

/// Whether `pattern` stands in `s` at index `i`.
pub open spec fn occurs_at(s: Seq<char>, pattern: Seq<char>, i: int) -> bool {
    0 <= i && i + pattern.len() <= s.len() && s.subrange(i, i + pattern.len()) == pattern
}

/// Whether `pattern` stands somewhere in `s`.
pub open spec fn contains(s: Seq<char>, pattern: Seq<char>) -> bool {
    exists|i: int| occurs_at(s, pattern, i)
}

/// The least index, from `i` on, at which `pattern` stands in `s`.
pub open spec fn find_from(s: Seq<char>, pattern: Seq<char>, i: int) -> Option<int>
    decreases s.len() + 1 - i,
{
    if i + pattern.len() > s.len() || i > s.len() {
        None
    } else if occurs_at(s, pattern, i) {
        Some(i)
    } else {
        find_from(s, pattern, i + 1)
    }
}

/// What stands before and after the first `separator` in `s`.
pub open spec fn split_at_first(s: Seq<char>, separator: Seq<char>) -> Option<
    (Seq<char>, Seq<char>),
> {
    match find_from(s, separator, 0) {
        Some(i) => Some((s.take(i), s.skip(i + separator.len()))),
        None => None,
    }
}

/// The found index is the least one at which the pattern stands; none is found only where
/// it stands nowhere.
pub proof fn lemma_find_from(s: Seq<char>, pattern: Seq<char>, i: int)
    requires
        0 <= i,
    ensures
        match find_from(s, pattern, i) {
            Some(k) => i <= k && occurs_at(s, pattern, k) && forall|j: int|
                i <= j < k ==> !occurs_at(s, pattern, j),
            None => forall|j: int| i <= j ==> !occurs_at(s, pattern, j),
        },
    decreases s.len() + 1 - i,
{
    if i + pattern.len() <= s.len() && i <= s.len() && !occurs_at(s, pattern, i) {
        lemma_find_from(s, pattern, i + 1);
    }
}

/// What stands in a part of a text stands in the text.
proof fn lemma_occurs_in_part(x: Seq<char>, y: Seq<char>, z: Seq<char>, i: int, j: int)
    requires
        occurs_at(x, y, i),
        occurs_at(y, z, j),
    ensures
        occurs_at(x, z, i + j),
{
    let there = x.subrange(i + j, i + j + z.len());
    assert forall|k: int| 0 <= k < z.len() implies there[k] == z[k] by {
        assert(x.subrange(i, i + y.len())[j + k] == y[j + k]);
        assert(y.subrange(j, j + z.len())[k] == z[k]);
    }
    assert(there == z);
}

/// Every text contains itself and the empty text; what stands in a part of a text stands in
/// the text; texts that contain each other are the same.
pub proof fn law_contains_orders_texts(x: Seq<char>, y: Seq<char>, z: Seq<char>)
    ensures
        contains(x, x),
        contains(x, Seq::<char>::empty()),
        contains(x, y) && contains(y, z) ==> contains(x, z),
        contains(x, y) && contains(y, x) ==> x == y,
{
    assert(contains(x, x)) by {
        assert(x.subrange(0, x.len() as int) == x);
        assert(occurs_at(x, x, 0));
    }
    assert(contains(x, Seq::<char>::empty())) by {
        assert(x.subrange(0, 0) == Seq::<char>::empty());
        assert(occurs_at(x, Seq::<char>::empty(), 0));
    }
    assert(contains(x, y) && contains(y, z) ==> contains(x, z)) by {
        if contains(x, y) && contains(y, z) {
            let i = choose|i: int| occurs_at(x, y, i);
            let j = choose|j: int| occurs_at(y, z, j);
            lemma_occurs_in_part(x, y, z, i, j);
        }
    }
    assert(contains(x, y) && contains(y, x) ==> x == y) by {
        if contains(x, y) && contains(y, x) {
            let i = choose|i: int| occurs_at(x, y, i);
            let j = choose|j: int| occurs_at(y, x, j);
            assert(occurs_at(x, y, i) && occurs_at(y, x, j));
            assert(i == 0 && x.len() == y.len());
            assert(x.subrange(0, x.len() as int) == x);
        }
    }
}

/// A text contains exactly what it is made of between a beginning and an end.
pub proof fn law_contained_is_between(s: Seq<char>, pattern: Seq<char>)
    ensures
        contains(s, pattern) <==> exists|before: Seq<char>, after: Seq<char>|
            s == #[trigger] (before + pattern + after),
{
    if contains(s, pattern) {
        let i = choose|i: int| occurs_at(s, pattern, i);
        let before = s.take(i);
        let after = s.skip(i + pattern.len());
        assert(s =~= before + pattern + after) by {
            assert forall|k: int| 0 <= k < pattern.len() implies s[i + k] == pattern[k] by {
                assert(s.subrange(i, i + pattern.len())[k] == pattern[k]);
            }
        }
    }
    assert forall|before: Seq<char>, after: Seq<char>|
        s == #[trigger] (before + pattern + after) implies contains(s, pattern) by {
        lemma_occurs_between(before, pattern, after);
    }
}

proof fn lemma_occurs_between(before: Seq<char>, pattern: Seq<char>, after: Seq<char>)
    ensures
        occurs_at(before + pattern + after, pattern, before.len() as int),
{
    let s = before + pattern + after;
    assert(s.subrange(before.len() as int, (before.len() + pattern.len()) as int) == pattern);
}

/// A text is split where the separator stands first: nothing of it is lost but that
/// separator, and in no other way can the text be parted at one with less before it. It is
/// not split exactly where it has none.
pub proof fn law_split_at_first(s: Seq<char>, separator: Seq<char>)
    ensures
        match split_at_first(s, separator) {
            Some((before, after)) => s == before + separator + after && forall|
                a: Seq<char>,
                b: Seq<char>,
            |
                s == #[trigger] (a + separator + b) ==> before.len() <= a.len(),
            None => forall|a: Seq<char>, b: Seq<char>| s != #[trigger] (a + separator + b),
        },
{
    lemma_find_from(s, separator, 0);
    if let Some((before, after)) = split_at_first(s, separator) {
        let k = before.len() as int;
        assert(s =~= before + separator + after) by {
            assert forall|j: int| 0 <= j < separator.len() implies s[k + j] == separator[j] by {
                assert(s.subrange(k, k + separator.len())[j] == separator[j]);
            }
        }
    }
    assert forall|a: Seq<char>, b: Seq<char>| s == #[trigger] (a + separator + b) implies occurs_at(
        s,
        separator,
        a.len() as int,
    ) by {
        lemma_occurs_between(a, separator, b);
    }
}

/// Tells whether `pattern` stands in `chars` at `at`.
fn stands_at(chars: &Vec<char>, pattern: &Vec<char>, at: usize) -> (stands: bool)
    requires
        at + pattern@.len() <= chars@.len(),
    ensures
        stands == occurs_at(chars@, pattern@, at as int),
{
    let mut k: usize = 0;
    let total: usize = chars.len();
    while k < pattern.len()
        invariant
            k <= pattern@.len(),
            at + pattern@.len() <= chars@.len() == total,
            forall|j: int| 0 <= j < k ==> chars@[at + j] == pattern@[j],
        decreases pattern@.len() - k,
    {
        if chars[at + k] != pattern[k] {
            assert(chars@.subrange(at as int, at + pattern@.len())[k as int] != pattern@[k as int]);
            return false;
        }
        k = k + 1;
    }
    assert(chars@.subrange(at as int, at + pattern@.len()) == pattern@);
    true
}

/// The first index at which `pattern` stands in `chars`.
pub fn find(chars: &Vec<char>, pattern: &Vec<char>) -> (index: Option<usize>)
    ensures
        match index {
            Some(i) => find_from(chars@, pattern@, 0) == Some(i as int),
            None => find_from(chars@, pattern@, 0) is None,
        },
{
    let mut i: usize = 0;
    while i <= chars.len() && pattern.len() <= chars.len() - i
        invariant
            i <= chars@.len() + 1,
            find_from(chars@, pattern@, 0) == find_from(chars@, pattern@, i as int),
        decreases chars@.len() + 1 - i,
    {
        if stands_at(chars, pattern, i) {
            return Some(i);
        }
        if i == chars.len() {
            assert(find_from(chars@, pattern@, i + 1) is None);
            return None;
        }
        i = i + 1;
    }
    None
}

/// Tells whether `needle` stands somewhere in `haystack`.
pub fn contains_text(haystack: &str, needle: &str) -> (found: bool)
    ensures
        found == contains(haystack@, needle@),
{
    let chars = chars_of(haystack);
    let pattern = chars_of(needle);
    proof {
        lemma_find_from(chars@, pattern@, 0);
    }
    find(&chars, &pattern).is_some()
}

/// Splits a text at the first `separator`.
pub fn split_once(text: &str, separator: &str) -> (parts: Option<(String, String)>)
    ensures
        match parts {
            Some((before, after)) => split_at_first(text@, separator@) == Some((before@, after@)),
            None => split_at_first(text@, separator@) is None,
        },
{
    let chars = chars_of(text);
    let pattern = chars_of(separator);
    proof {
        lemma_find_from(chars@, pattern@, 0);
    }
    match find(&chars, &pattern) {
        Some(i) => {
            let total: usize = chars.len();
            let before = text_between(&chars, 0, i);
            let after = text_between(&chars, i + pattern.len(), total);
            assert(before@ == text@.take(i as int));
            assert(after@ == text@.skip(i + pattern@.len()));
            Some((before, after))
        },
        None => None,
    }
}

/// A line without the carriage return that ends it.
pub open spec fn strip_return(line: Seq<char>) -> Seq<char> {
    if line.len() > 0 && line.last() == '\r' {
        line.drop_last()
    } else {
        line
    }
}

/// The number of characters before the first line feed.
pub open spec fn line_end(s: Seq<char>) -> int
    decreases s.len(),
{
    if s.len() == 0 || s[0] == '\n' {
        0
    } else {
        1 + line_end(s.drop_first())
    }
}

/// The lines of a text: each ends with a line feed, or a carriage return and a line feed,
/// which are not part of it; the last one may lack its line feed.
pub open spec fn lines_of(s: Seq<char>) -> Seq<Seq<char>>
    decreases s.len(),
{
    proof {
        lemma_line_end(s);
    }
    if s.len() == 0 {
        Seq::empty()
    } else if line_end(s) >= s.len() {
        seq![s]
    } else {
        seq![strip_return(s.take(line_end(s)))] + lines_of(s.skip(line_end(s) + 1))
    }
}

/// The views of a list of texts.
pub open spec fn texts(list: Seq<String>) -> Seq<Seq<char>> {
    list.map_values(|t: String| t@)
}

/// `line_end` counts the characters before the first line feed.
pub proof fn lemma_line_end(s: Seq<char>)
    ensures
        0 <= line_end(s) <= s.len(),
        forall|i: int| 0 <= i < line_end(s) ==> s[i] != '\n',
        line_end(s) < s.len() ==> s[line_end(s)] == '\n',
    decreases s.len(),
{
    if s.len() > 0 && s[0] != '\n' {
        lemma_line_end(s.drop_first());
        assert forall|i: int| 0 <= i < line_end(s) implies s[i] != '\n' by {
            if i > 0 {
                assert(s.drop_first()[i - 1] == s[i]);
            }
        }
    }
}

/// A line feed after characters that are none ends the first line.
proof fn lemma_line_end_at(line: Seq<char>, rest: Seq<char>)
    requires
        forall|i: int| 0 <= i < line.len() ==> line[i] != '\n',
    ensures
        line_end(line + seq!['\n'] + rest) == line.len(),
        line_end(line) == line.len(),
    decreases line.len(),
{
    let whole = line + seq!['\n'] + rest;
    if line.len() > 0 {
        assert(whole.drop_first() == line.drop_first() + seq!['\n'] + rest);
        lemma_line_end_at(line.drop_first(), rest);
    } else {
        assert(whole[0] == '\n');
    }
}

/// The lines of a line, its line feed and a rest are that line and the lines of the rest.
proof fn lemma_first_line(line: Seq<char>, rest: Seq<char>)
    requires
        forall|i: int| 0 <= i < line.len() ==> line[i] != '\n',
    ensures
        lines_of(line + seq!['\n'] + rest) == seq![strip_return(line)] + lines_of(rest),
{
    let whole = line + seq!['\n'] + rest;
    lemma_line_end_at(line, rest);
    assert(whole.take(line.len() as int) == line);
    assert(whole.skip((line.len() + 1) as int) == rest);
}

/// A text without a line feed is one line as it stands, and no line where it is empty. A line
/// feed ends a line, a carriage return right before it goes with it, and what follows has
/// its own lines.
pub proof fn law_line_by_line(line: Seq<char>, rest: Seq<char>)
    requires
        forall|i: int| 0 <= i < line.len() ==> line[i] != '\n',
    ensures
        line.len() == 0 ==> lines_of(line) == Seq::<Seq<char>>::empty(),
        line.len() > 0 ==> lines_of(line) == seq![line],
        line.len() == 0 || line.last() != '\r' ==> lines_of(line + seq!['\n'] + rest) == seq![line]
            + lines_of(rest),
        lines_of(line + seq!['\r', '\n'] + rest) == seq![line] + lines_of(rest),
{
    lemma_line_end_at(line, rest);
    lemma_first_line(line, rest);
    let returned = line.push('\r');
    lemma_first_line(returned, rest);
    assert(returned.drop_last() == line);
    assert(returned + seq!['\n'] + rest == line + seq!['\r', '\n'] + rest);
}

/// A text with a line feed at its end has the same lines whatever text follows, and what
/// follows has its own lines.
pub proof fn law_lines_of_parts(first: Seq<char>, second: Seq<char>)
    ensures
        lines_of(first + seq!['\n'] + second) == lines_of(first + seq!['\n']) + lines_of(second),
    decreases first.len(),
{
    lemma_line_end(first);
    let e = line_end(first);
    let empty = Seq::<char>::empty();
    if e == first.len() {
        lemma_first_line(first, second);
        lemma_first_line(first, empty);
        assert(first + seq!['\n'] + empty == first + seq!['\n']);
        assert(seq![strip_return(first)] + lines_of(empty) == seq![strip_return(first)]);
    } else {
        let line = first.take(e);
        let rest = first.skip(e + 1);
        law_lines_of_parts(rest, second);
        assert(first + seq!['\n'] + second == line + seq!['\n'] + (rest + seq!['\n'] + second));
        assert(first + seq!['\n'] == line + seq!['\n'] + (rest + seq!['\n']));
        lemma_first_line(line, rest + seq!['\n'] + second);
        lemma_first_line(line, rest + seq!['\n']);
        assert(seq![strip_return(line)] + (lines_of(rest + seq!['\n']) + lines_of(second)) == (
        seq![strip_return(line)] + lines_of(rest + seq!['\n'])) + lines_of(second));
    }
}

/// A line feed after a text ends its last line, with the carriage return that may end it, or
/// is an empty line after a text that is empty or ends with a line feed.
pub proof fn law_lines_with_line_feed(text: Seq<char>)
    ensures
        text.len() == 0 || text.last() == '\n' ==> lines_of(text + seq!['\n']) == lines_of(
            text,
        ).push(Seq::<char>::empty()),
        text.len() > 0 && text.last() != '\n' ==> lines_of(text).len() > 0 && lines_of(
            text + seq!['\n'],
        ) == lines_of(text).drop_last().push(strip_return(lines_of(text).last())),
    decreases text.len(),
{
    lemma_line_end(text);
    let e = line_end(text);
    let empty = Seq::<char>::empty();
    if e == text.len() {
        lemma_first_line(text, empty);
        assert(text + seq!['\n'] + empty == text + seq!['\n']);
        assert(lines_of(empty) == Seq::<Seq<char>>::empty());
        assert(seq![strip_return(text)] + lines_of(empty) == seq![strip_return(text)]);
        if text.len() == 0 {
            assert(text == empty);
            assert(lines_of(text).push(empty) == seq![text]);
        } else {
            assert(text.last() == text[text.len() - 1]);
            assert(lines_of(text) == seq![text]);
            assert(lines_of(text).drop_last().push(strip_return(text)) == seq![strip_return(text)]);
        }
    } else {
        let line = text.take(e);
        let rest = text.skip(e + 1);
        let first = seq![strip_return(line)];
        assert(text == line + seq!['\n'] + rest);
        assert(text + seq!['\n'] == line + seq!['\n'] + (rest + seq!['\n']));
        lemma_first_line(line, rest);
        lemma_first_line(line, rest + seq!['\n']);
        law_lines_with_line_feed(rest);
        if rest.len() == 0 || rest.last() == '\n' {
            assert(text.last() == '\n');
            assert(first + lines_of(rest).push(empty) == (first + lines_of(rest)).push(empty));
        } else {
            assert(rest.last() == text.last());
            let last = lines_of(rest).last();
            assert((first + lines_of(rest)).last() == last);
            assert(first + lines_of(rest).drop_last().push(strip_return(last)) == (first + lines_of(
                rest,
            )).drop_last().push(strip_return(last)));
        }
    }
}

/// The lines of a text.
pub fn lines(text: &str) -> (list: Vec<String>)
    ensures
        texts(list@) == lines_of(text@),
{
    let mut list: Vec<String> = Vec::new();
    let mut line = String::new();
    // Whether a carriage return was read after `line` and is not yet part of it.
    let mut held: bool = false;
    let ghost mut open = Seq::<char>::empty();
    assert(open + text@.skip(0) == text@);
    assert(texts(list@) + lines_of(text@) == lines_of(text@));
    for c in it: text.chars()
        invariant
            it.seq() == text@,
            forall|i: int| 0 <= i < open.len() ==> open[i] != '\n',
            open == (if held {
                line@.push('\r')
            } else {
                line@
            }),
            !held ==> strip_return(line@) == line@,
            lines_of(text@) == texts(list@) + lines_of(open + text@.skip(it.index())),
    {
        let ghost k = it.index();
        let ghost rest = text@.skip(k + 1);
        let ghost before = open;
        let ghost done = texts(list@);
        assert(text@.skip(k) == seq![c] + rest);
        if c == '\n' {
            proof {
                lemma_first_line(before, rest);
                assert(before + text@.skip(k) == before + seq!['\n'] + rest);
                if held {
                    assert(before.drop_last() == line@);
                }
            }
            list.push(line);
            line = String::new();
            held = false;
            proof {
                open = Seq::empty();
                assert(texts(list@) == done.push(strip_return(before)));
                assert(open + rest == rest);
                assert(done + (seq![strip_return(before)] + lines_of(rest)) == done.push(
                    strip_return(before),
                ) + lines_of(rest));
            }
        } else {
            if held {
                line.push('\r');
            }
            if c == '\r' {
                held = true;
            } else {
                line.push(c);
                held = false;
            }
            proof {
                open = before.push(c);
                assert(before + text@.skip(k) == open + rest);
            }
        }
    }
    assert(open + text@.skip(text@.len() as int) == open);
    proof {
        lemma_line_end_at(open, Seq::empty());
    }
    let ghost done = texts(list@);
    if held {
        line.push('\r');
    }
    if !line.as_str().is_empty() {
        list.push(line);
        assert(texts(list@) == done + seq![open]);
    } else {
        assert(done + Seq::<Seq<char>>::empty() == done);
    }
    list
}

/// The decimal digit of a number below ten.
pub open spec fn digit(n: int) -> char {
    (48 + n) as char
}

/// The decimal notation of a number.
pub open spec fn decimal_of(n: nat) -> Seq<char>
    decreases n,
{
    if n < 10 {
        seq![digit(n as int)]
    } else {
        decimal_of(n / 10).push(digit((n % 10) as int))
    }
}

/// The number that decimal digits tell.
pub open spec fn number_of(digits: Seq<char>) -> int
    decreases digits.len(),
{
    if digits.len() == 0 {
        0
    } else {
        number_of(digits.drop_last()) * 10 + (digits.last() as int - 48)
    }
}

/// The decimal notation of a number tells that number, in digits alone and with no zero in
/// front of others.
pub proof fn law_decimal_reads_back(n: nat)
    ensures
        number_of(decimal_of(n)) == n,
        forall|i: int| 0 <= i < decimal_of(n).len() ==> '0' <= #[trigger] decimal_of(n)[i] <= '9',
        decimal_of(n).len() > 1 ==> decimal_of(n)[0] != '0',
        decimal_of(n).len() > 0,
    decreases n,
{
    let text = decimal_of(n);
    if n < 10 {
        assert(text.drop_last() == Seq::<char>::empty());
        assert(number_of(text.drop_last()) == 0);
    } else {
        law_decimal_reads_back(n / 10);
        assert(text.drop_last() == decimal_of(n / 10));
        if decimal_of(n / 10).len() == 1 && decimal_of(n / 10)[0] == '0' {
            assert(decimal_of(n / 10).drop_last() == Seq::<char>::empty());
            assert(number_of(decimal_of(n / 10)) == 0) by {
                reveal_with_fuel(number_of, 2);
            }
        }
    }
}

/// Writing one digit more behind a number is what makes the notation of ten times the number
/// and that digit.
pub proof fn law_decimal_digit_by_digit(n: nat, d: nat)
    requires
        d < 10,
    ensures
        decimal_of(d) == seq![(48 + d) as char],
        n > 0 ==> decimal_of(10 * n + d) == decimal_of(n).push((48 + d) as char),
{
    if n > 0 {
        assert((10 * n + d) / 10 == n);
        assert((10 * n + d) % 10 == d);
    }
}

/// The views of a list of texts are those of its texts, one by one.
pub proof fn law_texts_one_by_one(list: Seq<String>, i: int)
    requires
        0 <= i < list.len(),
    ensures
        texts(list).len() == list.len(),
        texts(list)[i] == list[i]@,
{
}

/// The decimal notation of a number.
pub fn decimal(n: u64) -> (text: String)
    ensures
        text@ == decimal_of(n as nat),
    decreases n,
{
    let c: char = (48 + (n % 10) as u8) as char;
    if n < 10 {
        let mut text = String::new();
        text.push(c);
        assert(text@ == decimal_of(n as nat));
        text
    } else {
        let mut text = decimal(n / 10);
        text.push(c);
        text
    }
}

/// Texts joined end to end.
pub fn join(first: &str, second: &str) -> (text: String)
    ensures
        text@ == first@ + second@,
{
    let mut text = first.to_owned();
    text.append(second);
    text
}

} // verus!
