use invidious::json::parse_json;
use invidious::lyrics::{
    choose_song, contains_ci, is_lyrics_viable, lrclib_has_synced, netease_has, netease_has_lyric, netease_song,
    record_has_lyric, record_has_synced_lyrics, LyricsQuestion, LyricsService, LyricsStep,
};
use invidious::request::{lrclib_client, netease_client, BytesReply};
use invidious::video::YoutubeVideo;

const SYNCED: &str = r#"{"syncedLyrics": "[00:01.00] la"}"#;
const UNSYNCED: &str = r#"{"syncedLyrics": null, "plainLyrics": "la"}"#;
const SONGS: &str = r#"{"result": {"songs": [
    {"id": 1, "artists": [{"name": "Other"}]},
    {"id": 2, "artists": []},
    {"id": 3},
    {"id": 4, "artists": [{"name": 7}]},
    {"id": 5, "artists": [{"name": "abba & friends"}, {"name": "X"}]},
    {"id": 6, "artists": [{"name": "ABBA"}]}
]}}"#;
const LYRIC: &str = r#"{"lrc": {"lyric": "[00:01] la"}}"#;

fn item(title: &str) -> YoutubeVideo {
    YoutubeVideo {
        title: title.to_owned(),
        length_seconds: 1,
        video_id: "v".to_owned(),
    }
}

fn ok(body: &str) -> BytesReply {
    reply(200, body)
}

fn reply(status: u16, body: &str) -> BytesReply {
    BytesReply::Received {
        status,
        body: body.as_bytes().to_vec(),
    }
}

fn lrclib_question() -> LyricsQuestion {
    LyricsQuestion::Lrclib {
        artist: "ABBA".to_owned(),
        title: "Waterloo".to_owned(),
    }
}

fn search_question() -> LyricsQuestion {
    LyricsQuestion::Search {
        artist: "ABBA".to_owned(),
        title: "Waterloo".to_owned(),
    }
}

fn pairs(query: &[(&str, &str)]) -> Vec<(String, String)> {
    query
        .iter()
        .map(|(a, b)| ((*a).to_owned(), (*b).to_owned()))
        .collect()
}

#[test]
fn case_does_not_count() {
    assert!(contains_ci("Die Ärzte", "ÄRZTE"));
    assert!(contains_ci("ABBA", "bb"));
    assert!(contains_ci("abba", "ABBA"));
    assert!(contains_ci("x", ""));
    assert!(contains_ci("", ""));
    assert!(!contains_ci("", "x"));
    assert!(!contains_ci("ABBA", "abbas"));
    assert!(contains_ci("ΟΔΟΣ", "οδος"));
}

#[test]
fn synced_lyrics_must_be_written() {
    assert!(lrclib_has_synced(&ok(SYNCED)));
    assert!(!lrclib_has_synced(&ok(UNSYNCED)));
    assert!(!lrclib_has_synced(&ok(r#"{"syncedLyrics": " \n　"}"#)));
    assert!(!lrclib_has_synced(&ok(r#"{"syncedLyrics": 5}"#)));
    assert!(!lrclib_has_synced(&ok("{}")));
    assert!(!lrclib_has_synced(&ok("[]")));
    assert!(!lrclib_has_synced(&ok("not json")));
    assert!(!lrclib_has_synced(&BytesReply::Lost));
    assert!(record_has_synced_lyrics(&parse_json(SYNCED).unwrap()));
}

#[test]
fn a_status_of_success_is_needed() {
    for status in [200, 201, 204, 299] {
        assert!(lrclib_has_synced(&reply(status, SYNCED)));
        assert!(netease_has_lyric(&reply(status, LYRIC)));
    }
    for status in [100, 199, 300, 404, 500] {
        assert!(!lrclib_has_synced(&reply(status, SYNCED)));
        assert!(!netease_has_lyric(&reply(status, LYRIC)));
        assert_eq!(netease_song("ABBA", &reply(status, SONGS)), None);
    }
}

#[test]
fn the_first_matching_song_is_chosen() {
    assert_eq!(netease_song("ABBA", &ok(SONGS)), Some(5));
    assert_eq!(netease_song("the other ones", &ok(SONGS)), Some(1));
    assert_eq!(netease_song("nobody", &ok(SONGS)), None);
    assert_eq!(netease_song("ABBA", &ok(r#"{"result": {}}"#)), None);
    assert_eq!(netease_song("ABBA", &ok(r#"{"result": {"songs": {}}}"#)), None);
    assert_eq!(netease_song("ABBA", &ok("{}")), None);
    assert_eq!(netease_song("ABBA", &BytesReply::Lost), None);
    assert_eq!(choose_song("ABBA", &parse_json(SONGS).unwrap()), Some(5));
    let unnamed = r#"{"result": {"songs": [{"id": 9, "artists": [{"name": ""}]}]}}"#;
    assert_eq!(netease_song("ABBA", &ok(unnamed)), Some(9));
}

#[test]
fn a_matching_song_without_id_ends_the_search() {
    let songs = r#"{"result": {"songs": [
        {"id": "x1", "artists": [{"name": "Queen"}]},
        {"id": 2, "artists": [{"name": "Queen"}]}
    ]}}"#;
    assert_eq!(netease_song("Queen", &ok(songs)), None);
    assert!(!netease_has("Queen", &ok(songs), &ok(LYRIC)));
    let question = LyricsQuestion::Search {
        artist: "Queen".to_owned(),
        title: "T".to_owned(),
    };
    assert_eq!(question.answer(&ok(songs)), LyricsStep::Decided(false));
}

#[test]
fn containing_orders_texts() {
    let texts = ["", "a", "A", "ab", "AB", "xaB", "Straße", "straßE", "ΟΔΟΣ", "xΣ", "xΣy", "aΣ b", "İz"];
    for x in texts {
        assert!(contains_ci(x, x));
        assert!(contains_ci(x, ""));
        for y in texts {
            if contains_ci(x, y) && contains_ci(y, x) {
                assert_eq!(x.to_lowercase(), y.to_lowercase());
            }
            assert_eq!(contains_ci(&x.to_ascii_uppercase(), y), contains_ci(x, y));
            assert_eq!(contains_ci(y, &x.to_ascii_uppercase()), contains_ci(y, x));
            for z in texts {
                assert!(!(contains_ci(x, y) && contains_ci(y, z)) || contains_ci(x, z));
            }
        }
    }
}

#[test]
fn the_case_of_an_artist_has_no_say() {
    for artist in ["abba", "Abba", "ABBA", "aBBa"] {
        assert_eq!(netease_song(artist, &ok(SONGS)), Some(5));
        assert!(netease_has(artist, &ok(SONGS), &ok(LYRIC)));
    }
    let songs = r#"{"result": {"songs": [{"id": 9, "artists": [{"name": "Die Ärzte"}]}]}}"#;
    for artist in ["Ärzte", "ÄRZTE", "ärzte", "die Ärzte"] {
        assert_eq!(netease_song(artist, &ok(songs)), Some(9));
    }
    assert_eq!(netease_song("Arzte", &ok(songs)), None);
}

#[test]
fn artists_match_in_both_directions() {
    let found = |name: &str| {
        let body = format!(r#"{{"result": {{"songs": [{{"id": 1, "artists": [{{"name": "{name}"}}]}}]}}}}"#);
        ok(&body)
    };
    assert_eq!(netease_song("queen", &found("QUEEN & BOWIE")), Some(1));
    assert_eq!(netease_song("Queen & Bowie", &found("queen")), Some(1));
    assert_eq!(netease_song("Queen", &found("Queen")), Some(1));
    assert_eq!(netease_song("Queen", &found("Kween")), None);
}

#[test]
fn a_lyric_must_be_written() {
    assert!(netease_has_lyric(&ok(LYRIC)));
    assert!(!netease_has_lyric(&ok(r#"{"lrc": {"lyric": "  "}}"#)));
    assert!(!netease_has_lyric(&ok(r#"{"lrc": {}}"#)));
    assert!(!netease_has_lyric(&ok(r#"{"nolyric": true}"#)));
    assert!(!netease_has_lyric(&BytesReply::Lost));
    assert!(record_has_lyric(&parse_json(LYRIC).unwrap()));
}

#[test]
fn netease_needs_a_song_and_its_lyric() {
    assert!(netease_has("ABBA", &ok(SONGS), &ok(LYRIC)));
    assert!(!netease_has("nobody", &ok(SONGS), &ok(LYRIC)));
    assert!(!netease_has("ABBA", &ok(SONGS), &BytesReply::Lost));
}

#[test]
fn lyrics_come_from_either_service() {
    let lost = BytesReply::Lost;
    let song = item("ABBA - Waterloo (Official Video)");
    assert!(is_lyrics_viable(&song, &ok(SYNCED), &lost, &lost));
    assert!(is_lyrics_viable(&song, &lost, &ok(SONGS), &ok(LYRIC)));
    assert!(is_lyrics_viable(&song, &ok(UNSYNCED), &ok(SONGS), &ok(LYRIC)));
    assert!(!is_lyrics_viable(&song, &lost, &ok(SONGS), &lost));
    assert!(!is_lyrics_viable(&song, &lost, &lost, &ok(LYRIC)));
    assert!(!is_lyrics_viable(&song, &lost, &lost, &lost));
}

#[test]
fn a_title_without_artist_is_not_viable() {
    for title in ["Waterloo", " - Waterloo", "ABBA - ", "ABBA - (lyrics)", "ABBA-Waterloo", ""] {
        let song = item(title);
        assert!(!is_lyrics_viable(&song, &ok(SYNCED), &ok(SONGS), &ok(LYRIC)));
        assert_eq!(LyricsStep::start(&song), LyricsStep::Decided(false));
    }
}

#[test]
fn lrclib_is_asked_first_and_is_enough() {
    let step = LyricsStep::start(&item("ABBA - Waterloo (Official Video)"));
    assert_eq!(step, LyricsStep::Ask(lrclib_question()));
    assert_eq!(lrclib_question().answer(&ok(SYNCED)), LyricsStep::Decided(true));
    assert_eq!(
        lrclib_question().answer(&ok(UNSYNCED)),
        LyricsStep::Ask(search_question())
    );
    assert_eq!(
        lrclib_question().answer(&BytesReply::Lost),
        LyricsStep::Ask(search_question())
    );
}

#[test]
fn netease_is_searched_and_asked() {
    assert_eq!(
        search_question().answer(&ok(SONGS)),
        LyricsStep::Ask(LyricsQuestion::Lyric { id: 5 })
    );
    assert_eq!(search_question().answer(&ok("{}")), LyricsStep::Decided(false));
    assert_eq!(search_question().answer(&BytesReply::Lost), LyricsStep::Decided(false));
    let lyric = || LyricsQuestion::Lyric { id: 5 };
    assert_eq!(lyric().answer(&ok(LYRIC)), LyricsStep::Decided(true));
    assert_eq!(lyric().answer(&ok("{}")), LyricsStep::Decided(false));
    assert_eq!(lyric().answer(&BytesReply::Lost), LyricsStep::Decided(false));
    assert_eq!(
        lyric().answer_document(parse_json(LYRIC)),
        LyricsStep::Decided(true)
    );
    assert_eq!(lyric().answer_document(None), LyricsStep::Decided(false));
}

#[test]
fn questions_are_sent_as_requests() {
    let first = lrclib_question().request();
    assert_eq!(first.url, "https://lrclib.net/api/get");
    assert_eq!(
        first.query,
        pairs(&[("artist_name", "ABBA"), ("track_name", "Waterloo")])
    );
    let search = search_question().request();
    assert_eq!(search.url, "https://music.163.com/api/search/get");
    assert_eq!(
        search.query,
        pairs(&[("s", "Waterloo ABBA"), ("type", "1"), ("limit", "5")])
    );
    let lyric = LyricsQuestion::Lyric { id: u64::MAX }.request();
    assert_eq!(lyric.url, "https://music.163.com/api/song/lyric");
    assert_eq!(
        lyric.query,
        pairs(&[("id", "18446744073709551615"), ("lv", "1"), ("kv", "1"), ("tv", "-1")])
    );
    assert_eq!(lrclib_question().service(), LyricsService::Lrclib);
    assert_eq!(search_question().service(), LyricsService::Netease);
    assert_eq!(LyricsQuestion::Lyric { id: 1 }.service(), LyricsService::Netease);
}

#[test]
fn three_questions_decide_as_the_answers_do() {
    let lost = || BytesReply::Lost;
    let replies = [
        (ok(SYNCED), lost(), lost()),
        (lost(), ok(SONGS), ok(LYRIC)),
        (lost(), ok(SONGS), lost()),
        (ok(UNSYNCED), lost(), ok(LYRIC)),
        (ok(SYNCED), ok(SONGS), ok(LYRIC)),
    ];
    for title in ["ABBA - Waterloo", "Waterloo"] {
        let song = item(title);
        for (lrclib, search, lyric) in &replies {
            let mut step = LyricsStep::start(&song);
            for _ in 0..3 {
                step = match step {
                    LyricsStep::Ask(question) => {
                        let answer = match &question {
                            LyricsQuestion::Lrclib { .. } => lrclib,
                            LyricsQuestion::Search { .. } => search,
                            LyricsQuestion::Lyric { .. } => lyric,
                        };
                        question.answer(answer)
                    }
                    decided => decided,
                };
            }
            let viable = is_lyrics_viable(&song, lrclib, search, lyric);
            assert_eq!(step, LyricsStep::Decided(viable));
        }
    }
}

#[test]
fn clients_name_themselves() {
    let lrclib = lrclib_client();
    assert_eq!(lrclib.timeout_seconds, 10);
    assert_eq!(
        lrclib.headers,
        pairs(&[("user-agent", "termusic (https://github.com/tramhao/termusic)")])
    );
    let netease = netease_client();
    assert_eq!(netease.timeout_seconds, 10);
    assert_eq!(
        netease.headers,
        pairs(&[
            (
                "user-agent",
                "Mozilla/5.0 (X11; Linux x86_64; rv:130.0) Gecko/20100101 Firefox/130.0"
            ),
            ("referer", "https://music.163.com/"),
            ("accept", "application/json, text/plain, */*"),
        ])
    );
}
