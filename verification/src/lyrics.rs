//! Whether the desktop shell will show lyrics for a search result.
//!
//! The shell asks LRCLIB with the artist and the title in a file's tags, and where that
//! misses it searches `NetEase`. [`LyricsStep`] follows the same chain: it tells what to ask
//! next and takes the answer.
use vstd::prelude::*;

use crate::json::{json_of_bytes, parse_json_bytes, Json, JsonView};
use crate::request::{is_success, pair, BytesReply, Request, RequestView};
use crate::text::{
    ascii_uppercase, contains, contains_text, decimal, decimal_of, is_white, join,
    law_contained_is_between, law_contains_orders_texts, law_trimmed_is_inner_part,
    law_uppercase_in_lowercase, lowercase, to_lowercase, trim, trimmed,
};
use crate::title::{artist_and_title, cleaned_title, parse_artist_title};
use crate::video::YoutubeVideo;

verus! {

/// Whether `needle` stands in `haystack`, both in lowercase.
pub open spec fn contains_caseless(haystack: Seq<char>, needle: Seq<char>) -> bool {
    contains(lowercase(haystack), lowercase(needle))
}

/// Tells whether `needle` stands in `haystack`, both in lowercase.
pub fn contains_ci(haystack: &str, needle: &str) -> (found: bool)
    ensures
        found == contains_caseless(haystack@, needle@),
{
    let lower_haystack = to_lowercase(haystack);
    let lower_needle = to_lowercase(needle);
    contains_text(lower_haystack.as_str(), lower_needle.as_str())
}

/// Every text contains itself and the empty text; what stands in a part of a text stands in
/// the text; texts that contain each other are the same in lowercase.
pub proof fn law_contains_caseless_orders_texts(x: Seq<char>, y: Seq<char>, z: Seq<char>)
    ensures
        contains_caseless(x, x),
        contains_caseless(x, Seq::<char>::empty()),
        contains_caseless(x, y) && contains_caseless(y, z) ==> contains_caseless(x, z),
        contains_caseless(x, y) && contains_caseless(y, x) ==> lowercase(x) == lowercase(y),
{
    let nothing = Seq::<char>::empty();
    assert(lowercase(nothing) == nothing);
    law_contains_orders_texts(lowercase(x), lowercase(y), lowercase(z));
}

/// The case of ASCII letters has no say, neither of what contains nor of what is contained.
pub proof fn law_ascii_case_has_no_say(x: Seq<char>, y: Seq<char>)
    ensures
        contains_caseless(ascii_uppercase(x), y) == contains_caseless(x, y),
        contains_caseless(y, ascii_uppercase(x)) == contains_caseless(y, x),
{
    law_uppercase_in_lowercase(x);
}

/// A text contains exactly what its lowercase is made of between a beginning and an end.
pub proof fn law_contained_caseless_is_between(x: Seq<char>, y: Seq<char>)
    ensures
        contains_caseless(x, y) <==> exists|before: Seq<char>, after: Seq<char>|
            lowercase(x) == #[trigger] (before + lowercase(y) + after),
{
    law_contained_is_between(lowercase(x), lowercase(y));
}

/// Whether the name of one artist stands in that of the other, case aside.
pub open spec fn artists_match(one: Seq<char>, other: Seq<char>) -> bool {
    contains_caseless(one, other) || contains_caseless(other, one)
}

/// Names match in both directions, and every name matches itself. A name matches whatever
/// name it stands in, and no name matches unless one stands in the other.
pub proof fn law_artists_match_both_ways(one: Seq<char>, other: Seq<char>)
    ensures
        artists_match(one, other) == artists_match(other, one),
        artists_match(one, one),
        contains_caseless(one, other) ==> artists_match(one, other),
        artists_match(one, other) ==> contains_caseless(one, other) || contains_caseless(
            other,
            one,
        ),
{
    law_contains_caseless_orders_texts(one, one, one);
}

/// The document in an answer with a status of success.
pub open spec fn reply_json(reply: BytesReply) -> Option<JsonView> {
    match reply {
        BytesReply::Received { status, body } => if is_success(status) {
            json_of_bytes(body@)
        } else {
            None
        },
        BytesReply::Lost => None,
    }
}

/// Whether something is written in a text.
pub open spec fn is_written(text: Option<Seq<char>>) -> bool {
    match text {
        Some(t) => trimmed(t).len() > 0,
        None => false,
    }
}

/// Whether a document of LRCLIB holds synced lyrics.
pub open spec fn has_synced_lyrics(record: JsonView) -> bool {
    is_written(record.text_field("syncedLyrics"@))
}

/// Whether LRCLIB has synced lyrics: it answered with a document that holds some.
pub open spec fn lrclib_found(answer: Option<JsonView>) -> bool {
    match answer {
        Some(record) => has_synced_lyrics(record),
        None => false,
    }
}

/// The name of a song's first artist.
pub open spec fn first_artist(song: JsonView) -> Option<Seq<char>> {
    match song.field("artists"@) {
        Some(JsonView::List(artists)) => if artists.len() > 0 {
            artists[0].text_field("name"@)
        } else {
            None
        },
        _ => None,
    }
}

/// Whether the name of a song's first artist matches.
pub open spec fn song_matches(artist: Seq<char>, song: JsonView) -> bool {
    match first_artist(song) {
        Some(name) => artists_match(artist, name),
        None => false,
    }
}

/// The id of the first song that matches, where that song has one.
pub open spec fn first_matching_song(artist: Seq<char>, songs: Seq<JsonView>) -> Option<u64>
    decreases songs.len(),
{
    if songs.len() == 0 {
        None
    } else if song_matches(artist, songs[0]) {
        songs[0].unsigned_field("id"@)
    } else {
        first_matching_song(artist, songs.drop_first())
    }
}

/// The id of the first song that matches among those that a search found.
pub open spec fn chosen_song(artist: Seq<char>, found: JsonView) -> Option<u64> {
    match found.field("result"@) {
        Some(result) => match result.field("songs"@) {
            Some(JsonView::List(songs)) => first_matching_song(artist, songs),
            _ => None,
        },
        None => None,
    }
}

/// The id of the first song that matches, where the search was answered with a document
/// that lists it and that song has one.
pub open spec fn netease_choice(artist: Seq<char>, answer: Option<JsonView>) -> Option<u64> {
    match answer {
        Some(found) => chosen_song(artist, found),
        None => None,
    }
}

/// Whether a document about a song holds its lyric.
pub open spec fn has_lyric(record: JsonView) -> bool {
    match record.field("lrc"@) {
        Some(lrc) => is_written(lrc.text_field("lyric"@)),
        None => false,
    }
}

/// Whether `NetEase` has the lyric of a song: it answered with a document that holds it.
pub open spec fn netease_lyric_found(answer: Option<JsonView>) -> bool {
    match answer {
        Some(record) => has_lyric(record),
        None => false,
    }
}

/// Whether `NetEase` has a lyric: the search gives a song of the artist, and the answer
/// about that song holds its lyric.
pub open spec fn netease_found(
    artist: Seq<char>,
    search: Option<JsonView>,
    lyric: Option<JsonView>,
) -> bool {
    netease_choice(artist, search) is Some && netease_lyric_found(lyric)
}

/// The first song whose first artist matches is kept, and it alone: its id is chosen, and
/// nothing is where it has none.
pub proof fn law_first_match_is_chosen(artist: Seq<char>, songs: Seq<JsonView>, i: int)
    requires
        0 <= i < songs.len(),
        song_matches(artist, songs[i]),
        forall|j: int| 0 <= j < i ==> !song_matches(artist, #[trigger] songs[j]),
    ensures
        first_matching_song(artist, songs) == songs[i].unsigned_field("id"@),
    decreases songs.len(),
{
    if i > 0 {
        let rest = songs.drop_first();
        assert(!song_matches(artist, songs[0]));
        assert forall|j: int| 0 <= j < i - 1 implies !song_matches(artist, #[trigger] rest[j]) by {
            assert(rest[j] == songs[j + 1]);
        }
        law_first_match_is_chosen(artist, rest, i - 1);
    }
}

/// Where no song matches, none is chosen.
pub proof fn law_no_match_no_song(artist: Seq<char>, songs: Seq<JsonView>)
    requires
        forall|j: int| 0 <= j < songs.len() ==> !song_matches(artist, #[trigger] songs[j]),
    ensures
        first_matching_song(artist, songs) is None,
    decreases songs.len(),
{
    if songs.len() > 0 {
        let rest = songs.drop_first();
        assert forall|j: int| 0 <= j < rest.len() implies !song_matches(
            artist,
            #[trigger] rest[j],
        ) by {
            assert(rest[j] == songs[j + 1]);
        }
        law_no_match_no_song(artist, rest);
    }
}

proof fn lemma_same_song_in_lowercase(one: Seq<char>, other: Seq<char>, songs: Seq<JsonView>)
    requires
        lowercase(one) == lowercase(other),
    ensures
        first_matching_song(one, songs) == first_matching_song(other, songs),
    decreases songs.len(),
{
    if songs.len() > 0 {
        lemma_same_song_in_lowercase(one, other, songs.drop_first());
    }
}

/// Artists that are the same in lowercase get the same song for the same answer, and the
/// same outcome for the same answers.
pub proof fn law_same_choice_in_lowercase(
    one: Seq<char>,
    other: Seq<char>,
    search: Option<JsonView>,
    lyric: Option<JsonView>,
)
    requires
        lowercase(one) == lowercase(other),
    ensures
        netease_choice(one, search) == netease_choice(other, search),
        netease_found(one, search, lyric) == netease_found(other, search, lyric),
{
    if let Some(found) = search {
        if let Some(result) = found.field("result"@) {
            if let Some(JsonView::List(songs)) = result.field("songs"@) {
                lemma_same_song_in_lowercase(one, other, songs);
            }
        }
    }
}

/// The case of the ASCII letters of an artist has no say in what `NetEase` has.
pub proof fn law_artist_case_has_no_say(
    artist: Seq<char>,
    search: Option<JsonView>,
    lyric: Option<JsonView>,
)
    ensures
        netease_choice(ascii_uppercase(artist), search) == netease_choice(artist, search),
        netease_found(ascii_uppercase(artist), search, lyric) == netease_found(
            artist,
            search,
            lyric,
        ),
{
    law_uppercase_in_lowercase(artist);
    law_same_choice_in_lowercase(ascii_uppercase(artist), artist, search, lyric);
}

/// An answer holds a document exactly where its status is one of success, from 200 to 299,
/// and its bytes are a document.
pub proof fn law_success_gives_the_document(reply: BytesReply, document: JsonView)
    ensures
        reply_json(reply) == Some(document) <==> {
            &&& reply matches BytesReply::Received { status, body }
            &&& 200 <= status <= 299
            &&& json_of_bytes(body@) == Some(document)
        },
{
}

/// Something is written in a text exactly where it has a character that is not white space.
pub proof fn law_written_is_not_blank(text: Seq<char>)
    ensures
        is_written(Some(text)) <==> exists|k: int| 0 <= k < text.len() && !is_white(
            #[trigger] text[k],
        ),
        !is_written(None),
{
    let (from, to) = law_trimmed_is_inner_part(text);
    if from < to {
        assert(trimmed(text)[0] == text[from]);
    }
}

/// LRCLIB has synced lyrics exactly where it answered with a record that has a text under
/// `syncedLyrics`, and a character in it is not white space.
pub proof fn law_synced_lyrics_are_written(answer: Option<JsonView>)
    ensures
        lrclib_found(answer) <==> answer is Some && exists|text: Seq<char>, k: int|
            answer->0.field("syncedLyrics"@) == Some(JsonView::Text(text)) && 0 <= k < text.len()
                && !is_white(#[trigger] text[k]),
        answer matches Some(record) ==> has_synced_lyrics(record) == lrclib_found(answer),
{
    if let Some(record) = answer {
        if let Some(JsonView::Text(text)) = record.field("syncedLyrics"@) {
            law_written_is_not_blank(text);
        }
    }
}

/// Records that have the same under `syncedLyrics` have synced lyrics or not alike, whatever
/// else they hold.
pub proof fn law_other_fields_of_record_have_no_say(one: JsonView, other: JsonView)
    requires
        one.field("syncedLyrics"@) == other.field("syncedLyrics"@),
    ensures
        has_synced_lyrics(one) == has_synced_lyrics(other),
        lrclib_found(Some(one)) == lrclib_found(Some(other)),
{
    law_synced_lyrics_are_written(Some(one));
    law_synced_lyrics_are_written(Some(other));
}

/// `NetEase` has the lyric of a song exactly where it answered with a record that has a text
/// under `lyric` in what stands under `lrc`, and a character in it is not white space.
pub proof fn law_lyric_is_written(answer: Option<JsonView>)
    ensures
        netease_lyric_found(answer) <==> answer is Some && answer->0.field("lrc"@) is Some
            && exists|text: Seq<char>, k: int|
            answer->0.field("lrc"@)->0.field("lyric"@) == Some(JsonView::Text(text)) && 0 <= k
                < text.len() && !is_white(#[trigger] text[k]),
        answer matches Some(record) ==> has_lyric(record) == netease_lyric_found(answer),
{
    if let Some(record) = answer {
        if let Some(lrc) = record.field("lrc"@) {
            if let Some(JsonView::Text(text)) = lrc.field("lyric"@) {
                law_written_is_not_blank(text);
            }
        }
    }
}

/// A song matches by the name of its first artist alone: one of that name and the artist
/// stands in the other, case aside.
pub proof fn law_song_matches_by_first_artist(artist: Seq<char>, song: JsonView)
    ensures
        song_matches(artist, song) <==> {
            &&& song.field("artists"@) matches Some(JsonView::List(artists))
            &&& artists.len() > 0
            &&& artists[0].field("name"@) matches Some(JsonView::Text(name))
            &&& contains_caseless(artist, name) || contains_caseless(name, artist)
        },
{
}

/// Of the songs that a search lists, the first that matches is chosen, and its id is all that
/// is taken from it.
pub proof fn law_listed_song_is_chosen(
    artist: Seq<char>,
    found: JsonView,
    result: JsonView,
    songs: Seq<JsonView>,
    i: int,
)
    requires
        found.field("result"@) == Some(result),
        result.field("songs"@) == Some(JsonView::List(songs)),
        0 <= i < songs.len(),
        song_matches(artist, songs[i]),
        forall|j: int| 0 <= j < i ==> !song_matches(artist, #[trigger] songs[j]),
    ensures
        chosen_song(artist, found) == songs[i].unsigned_field("id"@),
        netease_choice(artist, Some(found)) == songs[i].unsigned_field("id"@),
{
    law_first_match_is_chosen(artist, songs, i);
}

/// Nothing is chosen where the search was not answered, lists no songs, or lists none that
/// matches.
pub proof fn law_no_listed_song_is_chosen(artist: Seq<char>, answer: Option<JsonView>)
    requires
        match answer {
            Some(found) => match found.field("result"@) {
                Some(result) => match result.field("songs"@) {
                    Some(JsonView::List(songs)) => forall|j: int|
                        0 <= j < songs.len() ==> !song_matches(artist, #[trigger] songs[j]),
                    _ => true,
                },
                None => true,
            },
            None => true,
        },
    ensures
        netease_choice(artist, answer) is None,
        answer matches Some(found) ==> chosen_song(artist, found) is None,
{
    if let Some(found) = answer {
        if let Some(result) = found.field("result"@) {
            if let Some(JsonView::List(songs)) = result.field("songs"@) {
                law_no_match_no_song(artist, songs);
            }
        }
    }
}

/// The document in an answer with a status of success.
fn read_bytes_reply(reply: &BytesReply) -> (json: Option<Json>)
    ensures
        match json {
            Some(j) => reply_json(*reply) == Some(j@),
            None => reply_json(*reply) is None,
        },
{
    match reply {
        BytesReply::Received { status, body } => {
            if 200 <= *status && *status < 300 {
                parse_json_bytes(body.as_slice())
            } else {
                None
            }
        },
        BytesReply::Lost => None,
    }
}

/// Tells whether something is written in a text.
fn written(text: Option<&str>) -> (written: bool)
    ensures
        written == is_written(
            match text {
                Some(t) => Some(t@),
                None => None,
            },
        ),
{
    match text {
        Some(t) => {
            let inner = trim(t);
            !inner.as_str().is_empty()
        },
        None => false,
    }
}

/// Tells whether a document of LRCLIB holds synced lyrics.
pub fn record_has_synced_lyrics(record: &Json) -> (found: bool)
    ensures
        found == has_synced_lyrics(record@),
{
    written(record.text_field("syncedLyrics"))
}

/// Tells whether an answer of LRCLIB holds synced lyrics.
pub fn lrclib_has_synced(reply: &BytesReply) -> (found: bool)
    ensures
        found == lrclib_found(reply_json(*reply)),
{
    match read_bytes_reply(reply) {
        Some(record) => record_has_synced_lyrics(&record),
        None => false,
    }
}

/// Tells whether the name of a song's first artist matches.
fn is_song_of(artist: &str, song: &Json) -> (matching: bool)
    ensures
        matching == song_matches(artist@, song@),
{
    let artists = match song.get("artists") {
        Some(value) => match value.as_array() {
            Some(list) => list,
            None => return false,
        },
        None => return false,
    };
    if artists.is_empty() {
        return false;
    }
    match artists[0].text_field("name") {
        Some(name) => contains_ci(artist, name) || contains_ci(name, artist),
        None => false,
    }
}

/// The id of the first song that matches among those that a search found.
pub fn choose_song(artist: &str, found: &Json) -> (id: Option<u64>)
    ensures
        id == chosen_song(artist@, found@),
{
    let result = match found.get("result") {
        Some(value) => value,
        None => return None,
    };
    let listed = match result.get("songs") {
        Some(value) => value,
        None => return None,
    };
    match listed.as_array() {
        Some(songs) => {
            let ghost all = listed@->List_0;
            let mut i: usize = 0;
            assert(all.skip(0) == all);
            while i < songs.len()
                invariant
                    i <= songs@.len() == all.len(),
                    *listed == Json::List(*songs),
                    all == listed@->List_0,
                    chosen_song(artist@, found@) == first_matching_song(artist@, all),
                    first_matching_song(artist@, all) == first_matching_song(
                        artist@,
                        all.skip(i as int),
                    ),
                decreases songs@.len() - i,
            {
                assert(all.skip(i as int)[0] == songs@[i as int]@);
                assert(all.skip(i as int).drop_first() == all.skip(i + 1));
                if is_song_of(artist, &songs[i]) {
                    return songs[i].unsigned_field("id");
                }
                i = i + 1;
            }
            None
        },
        None => None,
    }
}

/// The id of the first song that matches in the answer to a search.
pub fn netease_song(artist: &str, reply: &BytesReply) -> (id: Option<u64>)
    ensures
        id == netease_choice(artist@, reply_json(*reply)),
{
    match read_bytes_reply(reply) {
        Some(found) => choose_song(artist, &found),
        None => None,
    }
}

/// Tells whether a document about a song holds its lyric.
pub fn record_has_lyric(record: &Json) -> (found: bool)
    ensures
        found == has_lyric(record@),
{
    match record.get("lrc") {
        Some(lrc) => written(lrc.text_field("lyric")),
        None => false,
    }
}

/// Tells whether an answer about a song holds its lyric.
pub fn netease_has_lyric(reply: &BytesReply) -> (found: bool)
    ensures
        found == netease_lyric_found(reply_json(*reply)),
{
    match read_bytes_reply(reply) {
        Some(record) => record_has_lyric(&record),
        None => false,
    }
}

/// Tells whether `NetEase` has a lyric: `search` is the answer to the search, `lyric` the
/// answer about the song that is chosen from it; where none is chosen, `lyric` is not looked
/// at.
pub fn netease_has(artist: &str, search: &BytesReply, lyric: &BytesReply) -> (found: bool)
    ensures
        found == netease_found(artist@, reply_json(*search), reply_json(*lyric)),
{
    match netease_song(artist, search) {
        Some(_) => netease_has_lyric(lyric),
        None => false,
    }
}

/// What LRCLIB is asked.
pub open spec fn lrclib_request(artist: Seq<char>, title: Seq<char>) -> RequestView {
    RequestView {
        url: "https://lrclib.net/api/get"@,
        query: seq![("artist_name"@, artist), ("track_name"@, title)],
    }
}

/// What `NetEase` is asked to search.
pub open spec fn netease_search_request(artist: Seq<char>, title: Seq<char>) -> RequestView {
    RequestView {
        url: "https://music.163.com/api/search/get"@,
        query: seq![("s"@, title + " "@ + artist), ("type"@, "1"@), ("limit"@, "5"@)],
    }
}

/// What `NetEase` is asked about a song.
pub open spec fn netease_lyric_request(id: u64) -> RequestView {
    RequestView {
        url: "https://music.163.com/api/song/lyric"@,
        query: seq![("id"@, decimal_of(id as nat)), ("lv"@, "1"@), ("kv"@, "1"@), ("tv"@, "-1"@)],
    }
}

/// The questions hold the whole artist and the whole title, and the id in decimal notation;
/// the rest of each is the same for all.
pub proof fn law_requests_hold_what_is_asked(
    artist: Seq<char>,
    title: Seq<char>,
    other_artist: Seq<char>,
    other_title: Seq<char>,
    id: u64,
    other_id: u64,
)
    ensures
        ({
            let request = lrclib_request(artist, title);
            let other = lrclib_request(other_artist, other_title);
            &&& request.url == other.url
            &&& request.query.len() == other.query.len() == 2
            &&& request.query[0] == (other.query[0].0, artist)
            &&& request.query[1] == (other.query[1].0, title)
        }),
        ({
            let request = netease_search_request(artist, title);
            let other = netease_search_request(other_artist, other_title);
            &&& request.url == other.url
            &&& request.query.len() == other.query.len() == 3
            &&& request.query[0] == (other.query[0].0, title + seq![' '] + artist)
            &&& request.query.skip(1) == other.query.skip(1)
        }),
        ({
            let request = netease_lyric_request(id);
            let other = netease_lyric_request(other_id);
            &&& request.url == other.url
            &&& request.query.len() == other.query.len() == 4
            &&& request.query[0] == (other.query[0].0, decimal_of(id as nat))
            &&& crate::text::number_of(request.query[0].1) == id
            &&& request.query.skip(1) == other.query.skip(1)
        }),
{
    reveal_strlit(" ");
    assert(" "@ == seq![' ']);
    crate::text::law_decimal_reads_back(id as nat);
    assert(netease_search_request(artist, title).query.skip(1) == netease_search_request(
        other_artist,
        other_title,
    ).query.skip(1));
    assert(netease_lyric_request(id).query.skip(1) == netease_lyric_request(other_id).query.skip(
        1,
    ));
}

/// Which service a question goes to.
#[derive(Clone, Copy, PartialEq, Eq, Debug, Structural)]
pub enum LyricsService {
    Lrclib,
    Netease,
}

/// A question to a lyrics service.
#[derive(PartialEq, Eq, Debug)]
pub enum LyricsQuestion {
    /// LRCLIB is asked for an artist and a title.
    Lrclib { artist: String, title: String },
    /// `NetEase` is searched for an artist and a title.
    Search { artist: String, title: String },
    /// `NetEase` is asked for the lyric of a song.
    Lyric { id: u64 },
}

/// The mathematical value of a [`LyricsQuestion`].
pub enum QuestionView {
    Lrclib { artist: Seq<char>, title: Seq<char> },
    Search { artist: Seq<char>, title: Seq<char> },
    Lyric { id: u64 },
}

/// Where the lookup of a search result stands.
#[derive(PartialEq, Eq, Debug)]
pub enum LyricsStep {
    /// The shell will show lyrics, or it will not.
    Decided(bool),
    /// This has to be asked.
    Ask(LyricsQuestion),
}

/// The mathematical value of a [`LyricsStep`].
pub enum StepView {
    Decided(bool),
    Ask(QuestionView),
}

impl View for LyricsQuestion {
    type V = QuestionView;

    open spec fn view(&self) -> QuestionView {
        match *self {
            LyricsQuestion::Lrclib { artist, title } => QuestionView::Lrclib {
                artist: artist@,
                title: title@,
            },
            LyricsQuestion::Search { artist, title } => QuestionView::Search {
                artist: artist@,
                title: title@,
            },
            LyricsQuestion::Lyric { id } => QuestionView::Lyric { id },
        }
    }
}

impl View for LyricsStep {
    type V = StepView;

    open spec fn view(&self) -> StepView {
        match *self {
            LyricsStep::Decided(viable) => StepView::Decided(viable),
            LyricsStep::Ask(question) => StepView::Ask(question@),
        }
    }
}

impl QuestionView {
    /// The service that is asked.
    pub open spec fn service(self) -> LyricsService {
        match self {
            QuestionView::Lrclib { .. } => LyricsService::Lrclib,
            _ => LyricsService::Netease,
        }
    }

    /// The request that asks.
    pub open spec fn request(self) -> RequestView {
        match self {
            QuestionView::Lrclib { artist, title } => lrclib_request(artist, title),
            QuestionView::Search { artist, title } => netease_search_request(artist, title),
            QuestionView::Lyric { id } => netease_lyric_request(id),
        }
    }

    /// The step that follows an answer, which is a document or nothing.
    pub open spec fn answered(self, answer: Option<JsonView>) -> StepView {
        match self {
            QuestionView::Lrclib { artist, title } => if lrclib_found(answer) {
                StepView::Decided(true)
            } else {
                StepView::Ask(QuestionView::Search { artist, title })
            },
            QuestionView::Search { artist, title } => match netease_choice(artist, answer) {
                Some(id) => StepView::Ask(QuestionView::Lyric { id }),
                None => StepView::Decided(false),
            },
            QuestionView::Lyric { id } => StepView::Decided(netease_lyric_found(answer)),
        }
    }
}

/// The step with which the lookup of a title starts.
pub open spec fn first_step(raw_title: Seq<char>) -> StepView {
    let (artist, title) = artist_and_title(raw_title);
    if artist.len() == 0 || title.len() == 0 {
        StepView::Decided(false)
    } else {
        StepView::Ask(QuestionView::Lrclib { artist, title })
    }
}

/// Whether the shell will show lyrics for a title: it tells an artist and a title, and
/// LRCLIB has synced lyrics, or `NetEase` finds a song of the artist and has its lyric.
pub open spec fn viable(
    raw_title: Seq<char>,
    lrclib: Option<JsonView>,
    search: Option<JsonView>,
    lyric: Option<JsonView>,
) -> bool {
    let (artist, title) = artist_and_title(raw_title);
    &&& artist.len() > 0
    &&& title.len() > 0
    &&& lrclib_found(lrclib) || netease_found(artist, search, lyric)
}

/// Each answer leads on: found on LRCLIB, all is decided, and missed there, `NetEase` is
/// searched for the same artist and title; a song that is chosen is asked about, and without
/// one, or with the answer about it, all is decided. LRCLIB gets its own questions only.
pub proof fn law_each_answer_leads_on(
    artist: Seq<char>,
    title: Seq<char>,
    id: u64,
    answer: Option<JsonView>,
)
    ensures
        ({
            let lrclib = QuestionView::Lrclib { artist, title };
            let search = QuestionView::Search { artist, title };
            let lyric = QuestionView::Lyric { id };
            &&& lrclib.service() is Lrclib
            &&& search.service() is Netease
            &&& lyric.service() is Netease
            &&& lrclib.request() == lrclib_request(artist, title)
            &&& search.request() == netease_search_request(artist, title)
            &&& lyric.request() == netease_lyric_request(id)
            &&& lrclib.answered(answer) == StepView::Decided(true) <==> lrclib_found(answer)
            &&& lrclib.answered(answer) == StepView::Ask(search) <==> !lrclib_found(answer)
            &&& search.answered(answer) == StepView::Ask(lyric) <==> netease_choice(artist, answer)
                == Some(id)
            &&& search.answered(answer) == StepView::Decided(false) <==> netease_choice(
                artist,
                answer,
            ) is None
            &&& lyric.answered(answer) == StepView::Decided(netease_lyric_found(answer))
        }),
{
}

/// The views of questions and steps keep all that they hold.
pub proof fn law_views_keep_question_and_step(question: LyricsQuestion, step: LyricsStep)
    ensures
        question matches LyricsQuestion::Lrclib { artist, title } ==> question@
            == (QuestionView::Lrclib { artist: artist@, title: title@ }),
        question matches LyricsQuestion::Search { artist, title } ==> question@
            == (QuestionView::Search { artist: artist@, title: title@ }),
        question matches LyricsQuestion::Lyric { id } ==> question@ == (QuestionView::Lyric { id }),
        step matches LyricsStep::Decided(viable) ==> step@ == StepView::Decided(viable),
        step matches LyricsStep::Ask(asked) ==> step@ == StepView::Ask(asked@),
{
}

/// A title that tells no artist or no title is not viable, and nothing is asked for it. For
/// any other LRCLIB is asked for exactly what it tells; what LRCLIB has is enough, and where it
/// has nothing `NetEase` decides: a song of the artist and its lyric.
pub proof fn law_lrclib_then_netease(
    raw_title: Seq<char>,
    lrclib: Option<JsonView>,
    search: Option<JsonView>,
    lyric: Option<JsonView>,
)
    ensures
        ({
            let artist = artist_and_title(raw_title).0;
            let title = artist_and_title(raw_title).1;
            let shown = viable(raw_title, lrclib, search, lyric);
            if artist.len() > 0 && title.len() > 0 {
                &&& first_step(raw_title) == StepView::Ask(QuestionView::Lrclib { artist, title })
                &&& lrclib_found(lrclib) ==> shown
                &&& !lrclib_found(lrclib) ==> (shown <==> netease_choice(artist, search) is Some
                    && netease_lyric_found(lyric))
                &&& netease_found(artist, search, lyric) <==> netease_choice(artist, search) is Some
                    && netease_lyric_found(lyric)
            } else {
                &&& first_step(raw_title) == StepView::Decided(false)
                &&& !shown
            }
        }),
{
}

/// `NetEase` has a lyric exactly where a song of the artist is chosen and its lyric is found,
/// for every artist.
pub proof fn law_netease_needs_song_and_lyric(
    artist: Seq<char>,
    search: Option<JsonView>,
    lyric: Option<JsonView>,
)
    ensures
        netease_found(artist, search, lyric) <==> netease_choice(artist, search) is Some
            && netease_lyric_found(lyric),
{
}

/// A video whose title is an artist, ` - ` and a title, with or without a remark, is viable
/// once LRCLIB answers with a record in which something is written under `syncedLyrics`,
/// whatever else stands there and whatever `NetEase` answers.
pub proof fn law_synced_record_is_enough(
    artist: Seq<char>,
    title: Seq<char>,
    remark: Seq<char>,
    record: JsonView,
    text: Seq<char>,
    k: int,
    search: Option<JsonView>,
    lyric: Option<JsonView>,
)
    requires
        artist.len() > 0 && !is_white(artist[0]) && !is_white(artist.last()),
        title.len() > 0 && !is_white(title[0]) && !is_white(title.last()),
        forall|a: Seq<char>, b: Seq<char>|
            artist + " - "@ + title == #[trigger] (a + " - "@ + b) ==> artist.len() <= a.len(),
        !artist.contains('(') && !title.contains('('),
        remark.len() == 0 || crate::title::is_remark(remark),
        record.field("syncedLyrics"@) == Some(JsonView::Text(text)),
        0 <= k < text.len(),
        !is_white(text[k]),
    ensures
        viable(artist + " - "@ + title + remark, Some(record), search, lyric),
        first_step(artist + " - "@ + title + remark) == StepView::Ask(
            QuestionView::Lrclib { artist, title },
        ),
        (QuestionView::Lrclib { artist, title }).answered(Some(record)) == StepView::Decided(true),
{
    crate::title::law_artist_and_title_are_told(artist, title, remark);
    law_synced_lyrics_are_written(Some(record));
}

/// Where the lookup stands once at most `rounds` questions were asked of servers that answer
/// each request as `answers` tells.
pub open spec fn asked(
    answers: spec_fn(RequestView) -> Option<JsonView>,
    step: StepView,
    rounds: nat,
) -> StepView
    decreases rounds,
{
    match step {
        StepView::Ask(question) if rounds > 0 => asked(
            answers,
            question.answered(answers(question.request())),
            (rounds - 1) as nat,
        ),
        _ => step,
    }
}

/// The lookup ends after at most three questions, and decides as `is_lyrics_viable` does on
/// the answers to them.
pub proof fn law_three_questions_decide(
    answers: spec_fn(RequestView) -> Option<JsonView>,
    raw_title: Seq<char>,
)
    ensures
        ({
            let (artist, title) = artist_and_title(raw_title);
            let search = answers(netease_search_request(artist, title));
            let lyric = match netease_choice(artist, search) {
                Some(id) => answers(netease_lyric_request(id)),
                None => None,
            };
            asked(answers, first_step(raw_title), 3) == StepView::Decided(
                viable(raw_title, answers(lrclib_request(artist, title)), search, lyric),
            )
        }),
{
    reveal_with_fuel(asked, 4);
}

/// A title that tells no artist is not viable, whatever the servers answer, and nothing is
/// asked for it.
pub proof fn law_no_artist_no_lyrics(
    raw_title: Seq<char>,
    lrclib: Option<JsonView>,
    search: Option<JsonView>,
    lyric: Option<JsonView>,
)
    requires
        !contains(cleaned_title(raw_title), " - "@),
    ensures
        !viable(raw_title, lrclib, search, lyric),
        first_step(raw_title) == StepView::Decided(false),
{
    crate::title::law_split_at_first_dash(raw_title);
}

/// Synced lyrics on LRCLIB are enough: `NetEase` is not asked, and what it would answer
/// changes nothing.
pub proof fn law_lrclib_is_enough(
    raw_title: Seq<char>,
    lrclib: Option<JsonView>,
    search: Option<JsonView>,
    lyric: Option<JsonView>,
)
    requires
        first_step(raw_title) is Ask,
        lrclib_found(lrclib),
    ensures
        first_step(raw_title)->Ask_0.answered(lrclib) == StepView::Decided(true),
        viable(raw_title, lrclib, search, lyric),
{
}

impl LyricsStep {
    /// Starts the lookup of a search result.
    pub fn start(item: &YoutubeVideo) -> (step: LyricsStep)
        ensures
            step@ == first_step(item@.title),
    {
        let (artist, title) = parse_artist_title(item.title.as_str());
        if artist.as_str().is_empty() || title.as_str().is_empty() {
            LyricsStep::Decided(false)
        } else {
            LyricsStep::Ask(LyricsQuestion::Lrclib { artist, title })
        }
    }
}

impl LyricsQuestion {
    /// The service that is asked.
    pub fn service(&self) -> (service: LyricsService)
        ensures
            service == self@.service(),
    {
        match self {
            LyricsQuestion::Lrclib { .. } => LyricsService::Lrclib,
            _ => LyricsService::Netease,
        }
    }

    /// The request that asks.
    pub fn request(&self) -> (request: Request)
        ensures
            request@ == self@.request(),
    {
        match self {
            LyricsQuestion::Lrclib { artist, title } => {
                let query = vec![
                    pair("artist_name", artist.as_str()),
                    pair("track_name", title.as_str()),
                ];
                let request = Request { url: "https://lrclib.net/api/get".to_owned(), query };
                assert(request@ == lrclib_request(artist@, title@));
                request
            },
            LyricsQuestion::Search { artist, title } => {
                let spaced = join(title.as_str(), " ");
                let words = join(spaced.as_str(), artist.as_str());
                let query = vec![
                    pair("s", words.as_str()),
                    pair("type", "1"),
                    pair("limit", "5"),
                ];
                let request = Request {
                    url: "https://music.163.com/api/search/get".to_owned(),
                    query,
                };
                assert(request@ == netease_search_request(artist@, title@));
                request
            },
            LyricsQuestion::Lyric { id } => {
                let number = decimal(*id);
                let query = vec![
                    pair("id", number.as_str()),
                    pair("lv", "1"),
                    pair("kv", "1"),
                    pair("tv", "-1"),
                ];
                let request = Request {
                    url: "https://music.163.com/api/song/lyric".to_owned(),
                    query,
                };
                assert(request@ == netease_lyric_request(*id));
                request
            },
        }
    }

    /// Takes the document that answers the question, or nothing, and tells the next step.
    pub fn answer_document(self, answer: Option<Json>) -> (step: LyricsStep)
        ensures
            step@ == self@.answered(
                match answer {
                    Some(document) => Some(document@),
                    None => None,
                },
            ),
    {
        match self {
            LyricsQuestion::Lrclib { artist, title } => {
                let found = match answer {
                    Some(record) => record_has_synced_lyrics(&record),
                    None => false,
                };
                if found {
                    LyricsStep::Decided(true)
                } else {
                    LyricsStep::Ask(LyricsQuestion::Search { artist, title })
                }
            },
            LyricsQuestion::Search { artist, title: _ } => {
                let chosen = match answer {
                    Some(found) => choose_song(artist.as_str(), &found),
                    None => None,
                };
                match chosen {
                    Some(id) => LyricsStep::Ask(LyricsQuestion::Lyric { id }),
                    None => LyricsStep::Decided(false),
                }
            },
            LyricsQuestion::Lyric { id: _ } => match answer {
                Some(record) => LyricsStep::Decided(record_has_lyric(&record)),
                None => LyricsStep::Decided(false),
            },
        }
    }

    /// Takes the answer to the question and tells the next step.
    pub fn answer(self, reply: &BytesReply) -> (step: LyricsStep)
        ensures
            step@ == self@.answered(reply_json(*reply)),
    {
        self.answer_document(read_bytes_reply(reply))
    }
}

/// Tells whether the shell will show lyrics for a search result, from the answer of LRCLIB,
/// the answer to the search on `NetEase`, and the answer about the song chosen from it. An
/// answer that is not needed is not looked at.
#[must_use]
pub fn is_lyrics_viable(
    item: &YoutubeVideo,
    lrclib: &BytesReply,
    search: &BytesReply,
    lyric: &BytesReply,
) -> (found: bool)
    ensures
        found == viable(
            item@.title,
            reply_json(*lrclib),
            reply_json(*search),
            reply_json(*lyric),
        ),
{
    let (artist, title) = parse_artist_title(item.title.as_str());
    if artist.as_str().is_empty() || title.as_str().is_empty() {
        return false;
    }
    lrclib_has_synced(lrclib) || netease_has(artist.as_str(), search, lyric)
}

} // verus!
