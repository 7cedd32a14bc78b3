use invidious::error::SearchError;
use invidious::instance::{Instance, INVIDIOUS_INSTANCE_LIST};
use invidious::json::{parse_json, Json, JsonNumber};
use invidious::request::{invidious_client, Request, TextReply};
use invidious::video::{suggestions_in, videos_in, YoutubeVideo};

const ANSWER: &str = r#"[
    {"type": "video", "title": "One", "videoId": "id1", "lengthSeconds": 61},
    {"title": "no id", "lengthSeconds": 5},
    {"title": "no length", "videoId": "x"},
    {"videoId": "no title", "lengthSeconds": 5},
    {"title": "fraction", "videoId": "x", "lengthSeconds": 5.5},
    {"title": 7, "videoId": "x", "lengthSeconds": 5},
    "text", null, [],
    {"title": "Two", "videoId": "id2", "lengthSeconds": 0}
]"#;

fn video(title: &str, length_seconds: u64, video_id: &str) -> YoutubeVideo {
    YoutubeVideo {
        title: title.to_owned(),
        length_seconds,
        video_id: video_id.to_owned(),
    }
}

fn both() -> Vec<YoutubeVideo> {
    vec![video("One", 61, "id1"), video("Two", 0, "id2")]
}

fn ok(text: &str) -> TextReply {
    status(200, text)
}

fn status(status: u16, text: &str) -> TextReply {
    TextReply::Received {
        status,
        body: Ok(text.to_owned()),
    }
}

fn unread() -> TextReply {
    TextReply::Received {
        status: 200,
        body: Err("broken pipe".to_owned()),
    }
}

fn unsent() -> TextReply {
    TextReply::Unsent("no route".to_owned())
}

fn instance(domain: Option<&str>, query: Option<&str>) -> Instance {
    Instance {
        domain: domain.map(str::to_owned),
        query: query.map(str::to_owned),
    }
}

fn request(url: &str, query: &[(&str, &str)]) -> Request {
    Request {
        url: url.to_owned(),
        query: query
            .iter()
            .map(|(a, b)| ((*a).to_owned(), (*b).to_owned()))
            .collect(),
    }
}

#[test]
fn complete_items_are_kept_in_their_order() {
    assert_eq!(Instance::parse_youtube_options(ANSWER), Some(both()));
    assert_eq!(Instance::parse_youtube_options("[]"), Some(vec![]));
    assert_eq!(Instance::parse_youtube_options(r#"["a", ["b"]]"#), Some(vec![]));
}

#[test]
fn what_is_no_list_gives_nothing() {
    for text in ["", "{}", "null", "\"[]\"", r#"{"error": "down"}"#, "[", "<html>"] {
        assert_eq!(Instance::parse_youtube_options(text), None);
    }
    assert_eq!(videos_in(&Json::Object(vec![])), None);
    assert_eq!(videos_in(&Json::List(vec![Json::Null])), Some(vec![]));
}

#[test]
fn an_item_gives_title_id_and_length() {
    let item = Json::Object(vec![
        ("title".to_owned(), Json::Text("T".to_owned())),
        ("videoId".to_owned(), Json::Text("V".to_owned())),
        (
            "lengthSeconds".to_owned(),
            Json::Number(JsonNumber {
                unsigned: Some(3),
                truncated: None,
            }),
        ),
    ]);
    assert_eq!(
        Instance::parse_youtube_item(&item),
        Some(("T".to_owned(), "V".to_owned(), 3))
    );
    assert_eq!(Instance::parse_youtube_item(&parse_json("{}").unwrap()), None);
}

#[test]
fn every_server_is_asked_for_the_first_page() {
    let requests = Instance::search_requests("a b");
    assert_eq!(requests.len(), 7);
    for (i, (domain, sent)) in requests.iter().enumerate() {
        assert_eq!(domain, INVIDIOUS_INSTANCE_LIST[i]);
        let expected = request(
            &format!("{domain}/api/v1/search"),
            &[("q", "a b"), ("page", "1"), ("type", "video"), ("sort_by", "relevance")],
        );
        assert_eq!(*sent, expected);
    }
    assert_eq!(requests[3].1.url, "https://inv.nadeko.net/api/v1/search");
}

#[test]
fn a_server_gives_something_with_status_200_and_a_list() {
    let d = "https://d";
    assert_eq!(Instance::server_arrival(d, ok(ANSWER)), Some((d.to_owned(), both())));
    assert_eq!(Instance::server_arrival(d, ok("[]")), Some((d.to_owned(), vec![])));
    assert_eq!(Instance::server_arrival(d, status(201, ANSWER)), None);
    assert_eq!(Instance::server_arrival(d, status(500, ANSWER)), None);
    assert_eq!(Instance::server_arrival(d, ok("{}")), None);
    assert_eq!(Instance::server_arrival(d, unread()), None);
    assert_eq!(Instance::server_arrival(d, unsent()), None);
    assert!(Instance::settles(&Some((String::new(), vec![]))));
    assert!(!Instance::settles(&None));
}

#[test]
fn the_first_server_wins() {
    let arrivals = vec![
        None,
        Some(("https://a".to_owned(), both())),
        Some(("https://b".to_owned(), vec![video("Other", 1, "o")])),
    ];
    let (found, videos) = Instance::new("q", arrivals).unwrap();
    assert_eq!(found.domain.as_deref(), Some("https://a"));
    assert_eq!(found.query.as_deref(), Some("q"));
    assert_eq!(videos, both());
    assert_eq!(
        found.search_request(2),
        Ok(request("https://a/api/v1/search", &[("q", "q"), ("page", "2")]))
    );
}

#[test]
fn without_results_all_servers_are_down() {
    let down = Err(SearchError::AllServersDown);
    assert_eq!(Instance::new("q", vec![]).map(|r| r.1), down);
    assert_eq!(Instance::new("q", vec![None, None]).map(|r| r.1), down);
    let empty_first = vec![
        Some(("https://a".to_owned(), vec![])),
        Some(("https://b".to_owned(), both())),
    ];
    assert_eq!(Instance::new("q", empty_first).map(|r| r.1), down);
}

#[test]
fn pages_are_asked_of_the_server() {
    let found = instance(Some("https://d"), Some("x&y"));
    assert_eq!(
        found.search_request(4_294_967_295),
        Ok(request(
            "https://d/api/v1/search",
            &[("q", "x&y"), ("page", "4294967295")]
        ))
    );
    assert_eq!(
        instance(None, None).search_request(1),
        Err(SearchError::NoServer)
    );
    assert_eq!(
        instance(Some("https://d"), None).search_request(1),
        Err(SearchError::NoQuery)
    );
}

#[test]
fn a_page_is_read() {
    let found = instance(Some("https://d"), Some("q"));
    assert_eq!(found.get_search_query(1, ok(ANSWER)), Ok(both()));
    assert_eq!(found.get_search_query(1, ok("[]")), Ok(vec![]));
    assert_eq!(found.get_search_query(1, ok("{}")), Err(SearchError::NoList));
    assert_eq!(found.get_search_query(1, ok("")), Err(SearchError::NoList));
    for code in [199, 201, 204, 301, 404, 500] {
        assert_eq!(
            found.get_search_query(1, status(code, ANSWER)),
            Err(SearchError::Rejected)
        );
    }
    assert_eq!(
        found.get_search_query(1, unread()),
        Err(SearchError::Unread("broken pipe".to_owned()))
    );
    assert_eq!(
        found.get_search_query(1, unsent()),
        Err(SearchError::Unsent("no route".to_owned()))
    );
    assert_eq!(
        instance(None, Some("q")).get_search_query(1, ok(ANSWER)),
        Err(SearchError::NoServer)
    );
    assert_eq!(
        instance(Some("d"), None).get_search_query(1, ok(ANSWER)),
        Err(SearchError::NoQuery)
    );
}

#[test]
fn suggestions_need_no_server() {
    let found = instance(None, None);
    assert_eq!(
        found.suggestions_request("ab"),
        request(
            "http://suggestqueries.google.com/complete/search?client=firefox&ds=yt&q=ab",
            &[]
        )
    );
    assert_eq!(
        found.get_suggestions(ok(r#"["ab", ["abc", "abd"]]"#)),
        Ok(vec![video("abc", 0, ""), video("abd", 0, "")])
    );
    assert_eq!(found.get_suggestions(ok(ANSWER)), Ok(both()));
    assert_eq!(
        found.get_suggestions(unread()),
        Err(SearchError::Unread("broken pipe".to_owned()))
    );
}

#[test]
fn suggestions_are_those_of_the_autocomplete() {
    let found = Instance::default();
    let titles = |text: &str| {
        found
            .get_suggestions(ok(text))
            .map(|list| list.into_iter().map(|v| v.title).collect::<Vec<String>>())
    };
    assert_eq!(
        titles(r#"["que", ["queen", "queen live"]]"#),
        Ok(vec!["queen".to_owned(), "queen live".to_owned()])
    );
    assert_eq!(
        titles(r#"["que", ["queen", 1, null, "queen live"], [], {}]"#),
        Ok(vec!["queen".to_owned(), "queen live".to_owned()])
    );
    assert_eq!(titles(r#"["que", []]"#), Ok(vec![]));
    assert_eq!(titles(r#"["que"]"#), Ok(vec![]));
    assert_eq!(titles("[]"), Ok(vec![]));
    assert_eq!(titles("{}"), Err(SearchError::NoList));
    assert_eq!(titles("queen"), Err(SearchError::NoList));
    assert_eq!(
        found.get_suggestions(status(404, r#"["que", ["queen"]]"#)),
        Err(SearchError::Rejected)
    );
    assert_eq!(
        found.get_suggestions(unsent()),
        Err(SearchError::Unsent("no route".to_owned()))
    );
    let document = parse_json(r#"["que", ["queen"]]"#).unwrap();
    assert_eq!(suggestions_in(&document), Some(vec![video("queen", 0, "")]));
    assert_eq!(suggestions_in(&Json::Null), None);
}

#[test]
fn an_answer_is_of_the_autocomplete_by_its_prefix() {
    let found = Instance::default();
    let item = r#"{"title": "One", "videoId": "id1", "lengthSeconds": 61}"#;
    let one = vec![video("One", 61, "id1")];
    assert_eq!(found.get_suggestions(ok(&format!("[{item}, []]"))), Ok(one.clone()));
    assert_eq!(found.get_suggestions(ok(&format!("[{item}, [\"queen\"]]"))), Ok(one.clone()));
    assert_eq!(found.get_suggestions(ok(&format!("[\"que\", {item}]"))), Ok(one));
    assert_eq!(
        found.get_suggestions(ok(&format!("[\"que\", [\"queen\"], {item}]"))),
        Ok(vec![video("queen", 0, "")])
    );
}

#[test]
fn trending_music_is_read() {
    let found = instance(Some("https://d"), None);
    assert_eq!(
        found.trending_request("FR"),
        Ok(request("https://d/api/v1/trending?type=music&region=FR", &[]))
    );
    assert_eq!(found.get_trending_music("FR", ok(ANSWER)), Ok(both()));
    assert_eq!(
        found.get_trending_music("FR", unread()),
        Err(SearchError::Rejected)
    );
    assert_eq!(
        found.get_trending_music("FR", status(503, "")),
        Err(SearchError::Rejected)
    );
    assert_eq!(found.get_trending_music("FR", ok("1")), Err(SearchError::NoList));
    assert_eq!(
        found.get_trending_music("FR", unsent()),
        Err(SearchError::Unsent("no route".to_owned()))
    );
    assert_eq!(
        instance(None, None).get_trending_music("FR", ok(ANSWER)),
        Err(SearchError::NoServer)
    );
    assert_eq!(
        instance(None, None).trending_request("FR"),
        Err(SearchError::NoServer)
    );
}

#[test]
fn instances_are_equal_by_their_servers() {
    assert_eq!(instance(Some("d"), Some("a")), instance(Some("d"), None));
    assert_ne!(instance(Some("d"), Some("a")), instance(Some("e"), Some("a")));
    assert_ne!(instance(None, None), instance(Some(""), None));
    assert_eq!(instance(None, None), instance(None, Some("a")));
    assert_eq!(Instance::default(), instance(Some(""), None));
    assert_eq!(Instance::default().query.as_deref(), Some(""));
    assert_eq!(Instance::default().clone(), Instance::default());
}

#[test]
fn the_client_waits_five_seconds() {
    let settings = invidious_client();
    assert_eq!(settings.timeout_seconds, 5);
    assert!(settings.headers.is_empty());
}

#[test]
fn errors_are_told() {
    let told = [
        (SearchError::AllServersDown, "All invidious servers are down. Try again later."),
        (SearchError::NoServer, "No server available"),
        (SearchError::NoQuery, "No query string found"),
        (SearchError::Unsent("e".to_owned()), "e"),
        (SearchError::Unread("e".to_owned()), "Error during search: e"),
        (SearchError::Rejected, "Error during search"),
        (SearchError::NoList, "None Error"),
        (SearchError::NotRun("e".to_owned()), "Failed to run yt-dlp: e"),
        (SearchError::Failed("e".to_owned()), "yt-dlp search failed: e"),
        (
            SearchError::NothingFound("q".to_owned()),
            "yt-dlp returned no results for query: q",
        ),
    ];
    for (error, message) in told {
        assert_eq!(error.message(), message);
    }
}
