//! What is sent to a server, and what comes back.
use vstd::prelude::*;

verus! {

/// A GET request: its address, and the pairs that are encoded into its query string.
#[derive(PartialEq, Eq, Debug)]
pub struct Request {
    pub url: String,
    pub query: Vec<(String, String)>,
}

/// The mathematical value of a [`Request`].
#[verifier::ext_equal]
pub struct RequestView {
    pub url: Seq<char>,
    pub query: Seq<(Seq<char>, Seq<char>)>,
}

/// The views of a list of pairs.
pub open spec fn pairs_view(pairs: Seq<(String, String)>) -> Seq<(Seq<char>, Seq<char>)> {
    pairs.map_values(|p: (String, String)| (p.0@, p.1@))
}

impl View for Request {
    type V = RequestView;

    open spec fn view(&self) -> RequestView {
        RequestView { url: self.url@, query: pairs_view(self.query@) }
    }
}

/// The view of a request shows its address and every pair in its place.
pub proof fn law_view_shows_all_pairs(request: Request, i: int)
    requires
        0 <= i < request.query@.len(),
    ensures
        request@.url == request.url@,
        request@.query.len() == request.query@.len(),
        request@.query[i] == (request.query@[i].0@, request.query@[i].1@),
{
}

/// An answer read as text.
#[derive(PartialEq, Eq, Debug)]
pub enum TextReply {
    /// The request could not be sent, and why.
    Unsent(String),
    /// A status came back, and the text or why it could not be read.
    Received { status: u16, body: Result<String, String> },
}

/// An answer read as bytes.
#[derive(PartialEq, Eq, Debug)]
pub enum BytesReply {
    /// The request could not be sent, or its answer could not be read.
    Lost,
    /// A status and bytes came back.
    Received { status: u16, body: Vec<u8> },
}

/// Whether a status tells of success.
pub open spec fn is_success(status: u16) -> bool {
    200 <= status < 300
}

/// A pair of texts.
pub fn pair(name: &str, value: &str) -> (both: (String, String))
    ensures
        both.0@ == name@,
        both.1@ == value@,
{
    (name.to_owned(), value.to_owned())
}

/// How a client that sends requests is set up.
#[derive(PartialEq, Eq, Debug)]
pub struct ClientSettings {
    /// The headers that go with every request.
    pub headers: Vec<(String, String)>,
    /// The longest time that a request may take.
    pub timeout_seconds: u64,
}

/// The client for Invidious servers sets no headers and waits five seconds.
pub fn invidious_client() -> (settings: ClientSettings)
    ensures
        pairs_view(settings.headers@) == Seq::<(Seq<char>, Seq<char>)>::empty(),
        settings.timeout_seconds == 5,
{
    let settings = ClientSettings { headers: Vec::new(), timeout_seconds: 5 };
    assert(pairs_view(settings.headers@) == Seq::<(Seq<char>, Seq<char>)>::empty());
    settings
}

/// The client for LRCLIB names the program and waits ten seconds.
pub fn lrclib_client() -> (settings: ClientSettings)
    ensures
        pairs_view(settings.headers@) == seq![
            ("user-agent"@, "termusic (https://github.com/tramhao/termusic)"@),
        ],
        settings.timeout_seconds == 10,
{
    let headers = vec![pair("user-agent", "termusic (https://github.com/tramhao/termusic)")];
    assert(pairs_view(headers@) == seq![
        ("user-agent"@, "termusic (https://github.com/tramhao/termusic)"@),
    ]);
    ClientSettings { headers, timeout_seconds: 10 }
}

/// The client for `NetEase` looks like a browser on its page and waits ten seconds.
pub fn netease_client() -> (settings: ClientSettings)
    ensures
        pairs_view(settings.headers@) == seq![
            (
                "user-agent"@,
                "Mozilla/5.0 (X11; Linux x86_64; rv:130.0) Gecko/20100101 Firefox/130.0"@,
            ),
            ("referer"@, "https://music.163.com/"@),
            ("accept"@, "application/json, text/plain, */*"@),
        ],
        settings.timeout_seconds == 10,
{
    let headers = vec![
        pair(
            "user-agent",
            "Mozilla/5.0 (X11; Linux x86_64; rv:130.0) Gecko/20100101 Firefox/130.0",
        ),
        pair("referer", "https://music.163.com/"),
        pair("accept", "application/json, text/plain, */*"),
    ];
    assert(pairs_view(headers@) == seq![
        (
            "user-agent"@,
            "Mozilla/5.0 (X11; Linux x86_64; rv:130.0) Gecko/20100101 Firefox/130.0"@,
        ),
        ("referer"@, "https://music.163.com/"@),
        ("accept"@, "application/json, text/plain, */*"@),
    ]);
    ClientSettings { headers, timeout_seconds: 10 }
}

} // verus!
