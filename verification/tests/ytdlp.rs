use invidious::error::SearchError;
use invidious::json::{Json, JsonNumber};
use invidious::video::YoutubeVideo;
use invidious::ytdlp::{
    parse_ytdlp_entry, parse_ytdlp_output, search_arguments, ytdlp_results, ytdlp_search, ProgramRun,
};

fn video(title: &str, length_seconds: u64, video_id: &str) -> YoutubeVideo {
    YoutubeVideo {
        title: title.to_owned(),
        length_seconds,
        video_id: video_id.to_owned(),
    }
}

fn ended(success: bool, stdout: &[u8], stderr: &[u8]) -> ProgramRun {
    ProgramRun::Ended {
        success,
        stdout: stdout.to_vec(),
        stderr: stderr.to_vec(),
    }
}

#[test]
fn the_program_is_told_what_to_search() {
    assert_eq!(
        search_arguments("a: b", 20),
        vec!["--dump-json", "--flat-playlist", "ytsearch20:a: b"]
    );
    assert_eq!(search_arguments("", 0)[2], "ytsearch0:");
}

#[test]
fn lines_without_a_result_are_passed_over() {
    let output = [
        "{\"id\": \"1\", \"title\": \"A\", \"duration\": 61.9}\n",
        "\n",
        "WARNING: slow\n",
        "{\"id\": \"2\"}\r\n",
        "{\"title\": \"B\"}\n",
        "{\"id\": 3, \"title\": \"C\"}\n",
        "[]\n",
        "{\"id\": \"4\", \"title\": \"D\", \"duration\": null}\r\n",
        "{\"id\": \"5\", \"title\": \"E\"}",
    ]
    .join("");
    let output = output.as_str();
    let expected = vec![video("A", 61, "1"), video("D", 0, "4"), video("E", 0, "5")];
    assert_eq!(parse_ytdlp_output(output), expected);
    assert_eq!(
        ytdlp_search("q", ended(true, output.as_bytes(), b"ignored")),
        Ok(expected)
    );
}

#[test]
fn a_duration_loses_its_fraction() {
    let lengths = [
        ("0", 0),
        ("59", 59),
        ("59.999", 59),
        ("-1", 0),
        ("\"12\"", 0),
        ("1e40", u64::MAX),
        ("9007199254740992", 9_007_199_254_740_992),
    ];
    for (written, seconds) in lengths {
        let line = format!("{{\"id\": \"i\", \"title\": \"t\", \"duration\": {written}}}");
        assert_eq!(parse_ytdlp_output(&line), vec![video("t", seconds, "i")]);
    }
}

#[test]
fn outputs_are_read_line_by_line() {
    let first = "{\"id\": \"1\", \"title\": \"A\"}\n";
    let second = "{\"id\": \"2\", \"title\": \"B\"}";
    let mut expected = parse_ytdlp_output(first);
    expected.extend(parse_ytdlp_output(second));
    assert_eq!(parse_ytdlp_output(&format!("{first}{second}")), expected);
    assert_eq!(expected.len(), 2);
}

#[test]
fn outputs_with_a_line_feed_between_give_both() {
    let entry = |id: &str| format!("{{\"id\": \"{id}\", \"title\": \"t\"}}");
    let firsts = [
        entry("1"),
        entry("1") + "\n",
        entry("1") + "\r\n",
        entry("1") + "\nnoise",
        entry("1") + "\r",
        entry("1") + "\n\r",
        entry("1") + " \t\r",
    ];
    for first in firsts {
        let second = entry("2") + "\n" + &entry("2");
        let search = |output: &str| ytdlp_search("q", ended(true, output.as_bytes(), b""));
        let mut expected = search(&first).unwrap();
        expected.extend(search(&second).unwrap());
        assert_eq!(expected.len(), 3);
        assert_eq!(search(&format!("{first}\n{second}")), Ok(expected));
    }
}

#[test]
fn faults_end_with_their_line() {
    let first = b"{\"id\": \"1\", \"title\": \"\xe2\x82\"}\n\xf0\x9f";
    let second = b"\xac\xff\n{\"id\": \"2\", \"title\": \"\xe2\x82\xac\xc3\"}";
    let search = |output: &[u8]| ytdlp_search("q", ended(true, output, b""));
    let mut expected = search(first).unwrap();
    assert_eq!(expected, vec![video("\u{fffd}", 0, "1")]);
    expected.extend(search(second).unwrap());
    assert_eq!(expected[1], video("€\u{fffd}", 0, "2"));
    let both = [&first[..], &second[..]].join(&b'\n');
    assert_eq!(search(&both), Ok(expected));
    let noise = [&first[..], b"no result"].join(&b'\n');
    assert_eq!(search(&noise), search(first));
    assert_eq!(
        ytdlp_search("q", ended(false, b"", b"\xe2\x82\n\x82\xac\n")),
        Err(SearchError::Failed("\u{fffd}\n\u{fffd}\u{fffd}\n".to_owned()))
    );
}

#[test]
fn an_entry_is_read() {
    let field = |key: &str, value: Json| (key.to_owned(), value);
    let entry = Json::Object(vec![
        field("id", Json::Text("i".to_owned())),
        field("title", Json::Text("t".to_owned())),
        field(
            "duration",
            Json::Number(JsonNumber {
                unsigned: None,
                truncated: Some(8),
            }),
        ),
    ]);
    assert_eq!(parse_ytdlp_entry(&entry), Some(video("t", 8, "i")));
    assert_eq!(parse_ytdlp_entry(&Json::Null), None);
}

#[test]
fn a_search_without_results_fails() {
    let nothing = Err(SearchError::NothingFound("q".to_owned()));
    assert_eq!(ytdlp_search("q", ended(true, b"", b"")), nothing);
    assert_eq!(ytdlp_search("q", ended(true, b"{}\nnull\n", b"")), nothing);
    assert_eq!(ytdlp_results("q", vec![]), nothing);
    assert_eq!(
        ytdlp_results("q", vec![video("t", 1, "i")]),
        Ok(vec![video("t", 1, "i")])
    );
}

#[test]
fn a_program_that_fails_is_told_of() {
    assert_eq!(
        ytdlp_search("q", ProgramRun::NotRun("not found".to_owned())),
        Err(SearchError::NotRun("not found".to_owned()))
    );
    assert_eq!(
        ytdlp_search("q", ended(false, b"{\"id\":\"i\",\"title\":\"t\"}", "ungültig".as_bytes())),
        Err(SearchError::Failed("ungültig".to_owned()))
    );
    assert_eq!(
        ytdlp_search("q", ended(false, b"", b"a\xffb")),
        Err(SearchError::Failed("a\u{fffd}b".to_owned()))
    );
}

#[test]
fn faulty_bytes_in_a_title_are_replaced() {
    let output = b"{\"id\": \"i\", \"title\": \"\xc3\xa9\xff\"}";
    assert_eq!(
        ytdlp_search("q", ended(true, output, b"")),
        Ok(vec![video("é\u{fffd}", 0, "i")])
    );
}
