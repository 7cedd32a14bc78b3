//! Searches on Invidious servers.
use vstd::prelude::*;
use vstd::std_specs::cmp::PartialEqSpec;

use crate::error::{SearchError, SearchErrorView};
use crate::json::parse_json;
use crate::request::{pair, Request, RequestView, TextReply};
use crate::text::{decimal, decimal_of, join};
use crate::video::{
    invidious_videos_of_text, suggested_videos_of_text, suggestions_in, videos_in, videos_view,
    VideoView, YoutubeVideo,
};

verus! {

/// The servers that a search asks.
pub const INVIDIOUS_INSTANCE_LIST: [&'static str; 7] = [
    "https://inv.bp.projectsegfau.lt",
    "https://invidious.projectsegfau.lt",
    "https://y.com.sb",
    "https://inv.nadeko.net",
    "https://invidious.nerdvpn.de",
    "https://yewtu.be",
    "https://yt.artemislena.eu",
];

/// A search: the server that answered it, and its query. Two are equal when their servers
/// are.
#[derive(Clone, Debug)]
pub struct Instance {
    pub domain: Option<String>,
    pub query: Option<String>,
}

/// The mathematical value of an [`Instance`].
pub struct InstanceView {
    pub domain: Option<Seq<char>>,
    pub query: Option<Seq<char>>,
}

/// The view of a text that may be missing.
pub open spec fn text_view(text: Option<String>) -> Option<Seq<char>> {
    match text {
        Some(t) => Some(t@),
        None => None,
    }
}

impl View for Instance {
    type V = InstanceView;

    open spec fn view(&self) -> InstanceView {
        InstanceView { domain: text_view(self.domain), query: text_view(self.query) }
    }
}

impl PartialEq for Instance {
    fn eq(&self, other: &Self) -> (same: bool) {
        match (&self.domain, &other.domain) {
            (Some(a), Some(b)) => *a == *b,
            (None, None) => true,
            _ => false,
        }
    }
}

impl vstd::std_specs::cmp::PartialEqSpecImpl for Instance {
    open spec fn obeys_eq_spec() -> bool {
        true
    }

    open spec fn eq_spec(&self, other: &Self) -> bool {
        self@.domain == other@.domain
    }
}

impl Eq for Instance {

}

/// Instances are equal by their servers alone, and that is an equivalence.
pub proof fn law_equal_by_server(a: Instance, b: Instance, c: Instance)
    ensures
        a.eq_spec(&b) == (a@.domain == b@.domain),
        a.eq_spec(&a),
        a.eq_spec(&b) ==> b.eq_spec(&a),
        a.eq_spec(&b) && b.eq_spec(&c) ==> a.eq_spec(&c),
{
}

impl Default for Instance {
    fn default() -> (instance: Self)
        ensures
            instance@ == (InstanceView {
                domain: Some(Seq::<char>::empty()),
                query: Some(Seq::<char>::empty()),
            }),
    {
        Instance { domain: Some(String::new()), query: Some(String::new()) }
    }
}

/// The request that starts a search on a server: the first page of the videos that match
/// the query best.
pub open spec fn first_search(domain: Seq<char>, query: Seq<char>) -> RequestView {
    RequestView {
        url: domain + "/api/v1/search"@,
        query: seq![
            ("q"@, query),
            ("page"@, "1"@),
            ("type"@, "video"@),
            ("sort_by"@, "relevance"@),
        ],
    }
}

/// The requests that start a search, each with the server that it goes to.
pub open spec fn first_searches(query: Seq<char>) -> Seq<(Seq<char>, RequestView)> {
    INVIDIOUS_INSTANCE_LIST@.map_values(
        |domain: &'static str| (domain@, first_search(domain@, query)),
    )
}

/// What a server gives for the request that starts a search: its results, where it answers
/// with status 200 and a list.
pub open spec fn server_results(domain: Seq<char>, reply: TextReply) -> Option<
    (Seq<char>, Seq<VideoView>),
> {
    match reply {
        TextReply::Received { status: 200, body: Ok(text) } => match invidious_videos_of_text(
            text@,
        ) {
            Some(videos) => Some((domain, videos)),
            None => None,
        },
        _ => None,
    }
}

/// What one server gave, or nothing.
pub type Arrival = Option<(String, Vec<YoutubeVideo>)>;

/// The mathematical value of an [`Arrival`].
pub open spec fn arrival_view(arrival: Arrival) -> Option<(Seq<char>, Seq<VideoView>)> {
    match arrival {
        Some((domain, videos)) => Some((domain@, videos_view(videos@))),
        None => None,
    }
}

/// The views of a list of arrivals.
pub open spec fn arrivals_view(arrivals: Seq<Arrival>) -> Seq<
    Option<(Seq<char>, Seq<VideoView>)>,
> {
    arrivals.map_values(|a: Arrival| arrival_view(a))
}

/// The first arrival that is something.
pub open spec fn first_arrival(arrivals: Seq<Option<(Seq<char>, Seq<VideoView>)>>) -> Option<
    (Seq<char>, Seq<VideoView>),
>
    decreases arrivals.len(),
{
    if arrivals.len() == 0 {
        None
    } else if arrivals[0] is Some {
        arrivals[0]
    } else {
        first_arrival(arrivals.drop_first())
    }
}

/// What a search gives: the first server that gave something wins, and its results must not
/// be empty.
pub open spec fn search_outcome(
    query: Seq<char>,
    arrivals: Seq<Option<(Seq<char>, Seq<VideoView>)>>,
) -> Result<(InstanceView, Seq<VideoView>), SearchErrorView> {
    match first_arrival(arrivals) {
        Some((domain, videos)) => if videos.len() == 0 {
            Err(SearchErrorView::AllServersDown)
        } else {
            Ok((InstanceView { domain: Some(domain), query: Some(query) }, videos))
        },
        None => Err(SearchErrorView::AllServersDown),
    }
}

/// Only the first server that gives something counts: what fails before it and what arrives
/// after it changes nothing.
pub proof fn law_first_server_wins(
    query: Seq<char>,
    failed: Seq<Option<(Seq<char>, Seq<VideoView>)>>,
    winner: (Seq<char>, Seq<VideoView>),
    later: Seq<Option<(Seq<char>, Seq<VideoView>)>>,
)
    requires
        forall|i: int| 0 <= i < failed.len() ==> failed[i] is None,
    ensures
        search_outcome(query, failed + seq![Some(winner)] + later) == search_outcome(
            query,
            seq![Some(winner)],
        ),
    decreases failed.len(),
{
    let all = failed + seq![Some(winner)] + later;
    if failed.len() == 0 {
        assert(all[0] == Some(winner));
        assert(seq![Some(winner)][0] == Some(winner));
    } else {
        assert(all[0] == failed[0]);
        assert(all.drop_first() == failed.drop_first() + seq![Some(winner)] + later);
        law_first_server_wins(query, failed.drop_first(), winner, later);
    }
}

/// A search succeeds exactly where the first server that gives something gives a result: then
/// it leaves that server and the query, and gives all the results of that server. What fails
/// before it and what arrives after it has no say.
pub proof fn law_search_gives_what_the_first_server_gives(
    query: Seq<char>,
    failed: Seq<Option<(Seq<char>, Seq<VideoView>)>>,
    domain: Seq<char>,
    videos: Seq<VideoView>,
    later: Seq<Option<(Seq<char>, Seq<VideoView>)>>,
)
    requires
        forall|i: int| 0 <= i < failed.len() ==> failed[i] is None,
    ensures
        ({
            let outcome = search_outcome(query, failed + seq![Some((domain, videos))] + later);
            if videos.len() > 0 {
                &&& outcome is Ok
                &&& outcome->Ok_0.0.domain == Some(domain)
                &&& outcome->Ok_0.0.query == Some(query)
                &&& outcome->Ok_0.1 == videos
            } else {
                outcome == Err::<(InstanceView, Seq<VideoView>), SearchErrorView>(
                    SearchErrorView::AllServersDown,
                )
            }
        }),
{
    law_first_server_wins(query, failed, (domain, videos), later);
    assert(seq![Some((domain, videos))][0] == Some((domain, videos)));
}

/// The views of arrivals, results and requests show all of what they are views of.
pub proof fn law_views_show_all(
    instance: Instance,
    arrivals: Seq<Arrival>,
    i: int,
    results: Result<Vec<YoutubeVideo>, SearchError>,
    request: Result<Request, SearchError>,
)
    ensures
        instance.domain matches Some(t) ==> instance@.domain == Some(t@),
        instance.domain is None ==> instance@.domain is None,
        instance.query matches Some(t) ==> instance@.query == Some(t@),
        instance.query is None ==> instance@.query is None,
        arrivals_view(arrivals).len() == arrivals.len(),
        0 <= i < arrivals.len() ==> match arrivals[i] {
            Some((domain, videos)) => arrivals_view(arrivals)[i] == Some(
                (domain@, videos_view(videos@)),
            ) && arrival_view(arrivals[i]) == Some((domain@, videos_view(videos@))),
            None => arrivals_view(arrivals)[i] is None && arrival_view(arrivals[i]) is None,
        },
        results matches Ok(videos) ==> results_view(results) == Ok::<
            Seq<VideoView>,
            SearchErrorView,
        >(videos_view(videos@)),
        results matches Err(e) ==> results_view(results) == Err::<Seq<VideoView>, SearchErrorView>(
            e@,
        ),
        request matches Ok(r) ==> request_view(request) == Ok::<RequestView, SearchErrorView>(r@),
        request matches Err(e) ==> request_view(request) == Err::<RequestView, SearchErrorView>(
            e@,
        ),
{
}

/// The request that starts a search goes to the server and asks for the whole query; the rest
/// of it is the same for every server and query.
pub proof fn law_first_search_asks_server_for_query(
    domain: Seq<char>,
    query: Seq<char>,
    other_domain: Seq<char>,
    other_query: Seq<char>,
)
    ensures
        ({
            let request = first_search(domain, query);
            let other = first_search(other_domain, other_query);
            &&& request.url == domain + other.url.skip(other_domain.len() as int)
            &&& request.query.len() == other.query.len() == 4
            &&& request.query[0] == (other.query[0].0, query)
            &&& request.query.skip(1) == other.query.skip(1)
        }),
{
    let other = first_search(other_domain, other_query);
    assert(other.url.skip(other_domain.len() as int) == "/api/v1/search"@);
    assert(first_search(domain, query).query.skip(1) == other.query.skip(1));
}

/// Every server of the list is asked, in the order of the list, each with its own request.
pub proof fn law_every_server_is_asked(query: Seq<char>, i: int)
    requires
        0 <= i < INVIDIOUS_INSTANCE_LIST@.len(),
    ensures
        first_searches(query).len() == INVIDIOUS_INSTANCE_LIST@.len(),
        first_searches(query)[i].0 == INVIDIOUS_INSTANCE_LIST@[i]@,
        first_searches(query)[i].1 == first_search(INVIDIOUS_INSTANCE_LIST@[i]@, query),
{
}

/// Whatever the query, these seven servers are asked and no others.
pub proof fn law_seven_servers_are_asked(query: Seq<char>)
    ensures
        first_searches(query).len() == 7,
        first_searches(query)[0].0 == "https://inv.bp.projectsegfau.lt"@,
        first_searches(query)[1].0 == "https://invidious.projectsegfau.lt"@,
        first_searches(query)[2].0 == "https://y.com.sb"@,
        first_searches(query)[3].0 == "https://inv.nadeko.net"@,
        first_searches(query)[4].0 == "https://invidious.nerdvpn.de"@,
        first_searches(query)[5].0 == "https://yewtu.be"@,
        first_searches(query)[6].0 == "https://yt.artemislena.eu"@,
{
}

/// A server gives something exactly where it answers with status 200 and a text that is a
/// list: then it gives itself and all results in that text.
pub proof fn law_server_gives_its_list(
    domain: Seq<char>,
    reply: TextReply,
    named: Seq<char>,
    videos: Seq<VideoView>,
)
    ensures
        server_results(domain, reply) == Some((named, videos)) <==> {
            &&& named == domain
            &&& reply matches TextReply::Received { status, body: Ok(text) }
            &&& status == 200
            &&& invidious_videos_of_text(text@) == Some(videos)
        },
{
}

/// A search on which every server fails tells that all servers are down.
pub proof fn law_no_server_no_search(
    query: Seq<char>,
    arrivals: Seq<Option<(Seq<char>, Seq<VideoView>)>>,
)
    requires
        forall|i: int| 0 <= i < arrivals.len() ==> arrivals[i] is None,
    ensures
        search_outcome(query, arrivals) == Err::<(InstanceView, Seq<VideoView>), SearchErrorView>(
            SearchErrorView::AllServersDown,
        ),
    decreases arrivals.len(),
{
    if arrivals.len() > 0 {
        law_no_server_no_search(query, arrivals.drop_first());
    }
}

/// A search that succeeds gives results, and leaves an instance that asks for further pages
/// on the winning server with the same query.
pub proof fn law_search_goes_on(
    query: Seq<char>,
    arrivals: Seq<Option<(Seq<char>, Seq<VideoView>)>>,
    page: u32,
)
    requires
        search_outcome(query, arrivals) is Ok,
    ensures
        first_arrival(arrivals) matches Some((domain, videos)) && videos.len() > 0
            && search_outcome(query, arrivals)->Ok_0.1 == videos && page_request(
            search_outcome(query, arrivals)->Ok_0.0,
            page,
        ) == Ok::<RequestView, SearchErrorView>(
            RequestView {
                url: domain + "/api/v1/search"@,
                query: seq![("q"@, query), ("page"@, decimal_of(page as nat))],
            },
        ),
{
}

/// The request for a page of the search.
pub open spec fn page_request(instance: InstanceView, page: u32) -> Result<
    RequestView,
    SearchErrorView,
> {
    match (instance.domain, instance.query) {
        (None, _) => Err(SearchErrorView::NoServer),
        (Some(_), None) => Err(SearchErrorView::NoQuery),
        (Some(domain), Some(query)) => Ok(
            RequestView {
                url: domain + "/api/v1/search"@,
                query: seq![("q"@, query), ("page"@, decimal_of(page as nat))],
            },
        ),
    }
}

/// The request for suggestions that begin with a prefix.
pub open spec fn suggestions_request_view(prefix: Seq<char>) -> RequestView {
    RequestView {
        url: "http://suggestqueries.google.com/complete/search?client=firefox&ds=yt&q="@ + prefix,
        query: Seq::empty(),
    }
}

/// The request for the music that trends in a region.
pub open spec fn trending_request_view(instance: InstanceView, region: Seq<char>) -> Result<
    RequestView,
    SearchErrorView,
> {
    match instance.domain {
        Some(domain) => Ok(
            RequestView {
                url: domain + "/api/v1/trending?type=music&region="@ + region,
                query: Seq::empty(),
            },
        ),
        None => Err(SearchErrorView::NoServer),
    }
}

/// The results in an answer that is a list.
pub open spec fn listed(videos: Option<Seq<VideoView>>) -> Result<Seq<VideoView>, SearchErrorView> {
    match videos {
        Some(list) => Ok(list),
        None => Err(SearchErrorView::NoList),
    }
}

/// The text of an answer: it has status 200 and could be read.
pub open spec fn reply_text(reply: TextReply) -> Result<Seq<char>, SearchErrorView> {
    match reply {
        TextReply::Unsent(e) => Err(SearchErrorView::Unsent(e@)),
        TextReply::Received { status, body } => if status != 200 {
            Err(SearchErrorView::Rejected)
        } else {
            match body {
                Ok(text) => Ok(text@),
                Err(e) => Err(SearchErrorView::Unread(e@)),
            }
        },
    }
}

/// The results in an answer of a server: it has status 200 and its text is a list.
pub open spec fn reply_results(reply: TextReply) -> Result<Seq<VideoView>, SearchErrorView> {
    match reply_text(reply) {
        Ok(text) => listed(invidious_videos_of_text(text)),
        Err(e) => Err(e),
    }
}

/// The results in an answer of the search autocomplete: it has status 200 and its text is a
/// list.
pub open spec fn suggestion_results(reply: TextReply) -> Result<Seq<VideoView>, SearchErrorView> {
    match reply_text(reply) {
        Ok(text) => listed(suggested_videos_of_text(text)),
        Err(e) => Err(e),
    }
}

/// The results in an answer about trending music, for which the reason why it could not be
/// read is not told.
pub open spec fn trending_results(reply: TextReply) -> Result<Seq<VideoView>, SearchErrorView> {
    match reply_results(reply) {
        Err(SearchErrorView::Unread(_)) => Err(SearchErrorView::Rejected),
        results => results,
    }
}

/// What a page of a search gives: where it can be asked for, what the answer gives.
pub open spec fn page_results(instance: InstanceView, page: u32, reply: TextReply) -> Result<
    Seq<VideoView>,
    SearchErrorView,
> {
    match page_request(instance, page) {
        Ok(_) => reply_results(reply),
        Err(e) => Err(e),
    }
}

/// What trending music gives: where it can be asked for, what the answer gives.
pub open spec fn trending_music(
    instance: InstanceView,
    region: Seq<char>,
    reply: TextReply,
) -> Result<Seq<VideoView>, SearchErrorView> {
    match trending_request_view(instance, region) {
        Ok(_) => trending_results(reply),
        Err(e) => Err(e),
    }
}

/// Only an answer with status 200 whose text is a list gives results, and it gives all in that
/// list: for a page, for suggestions and for trending music alike.
pub proof fn law_answer_gives_its_list(reply: TextReply, videos: Seq<VideoView>)
    ensures
        reply_results(reply) == Ok::<Seq<VideoView>, SearchErrorView>(videos) <==> {
            &&& reply matches TextReply::Received { status, body: Ok(text) }
            &&& status == 200
            &&& invidious_videos_of_text(text@) == Some(videos)
        },
        trending_results(reply) == Ok::<Seq<VideoView>, SearchErrorView>(videos) <==> {
            &&& reply matches TextReply::Received { status, body: Ok(text) }
            &&& status == 200
            &&& invidious_videos_of_text(text@) == Some(videos)
        },
        suggestion_results(reply) == Ok::<Seq<VideoView>, SearchErrorView>(videos) <==> {
            &&& reply matches TextReply::Received { status, body: Ok(text) }
            &&& status == 200
            &&& suggested_videos_of_text(text@) == Some(videos)
        },
{
}

/// Why an answer gives no results: it could not be asked for, its status is not 200, its text
/// could not be read or is no list, and the first of these is told, with the reason where
/// there is one. Of trending music the reason why a text could not be read is not told.
pub proof fn law_failed_answer_tells_why(reply: TextReply)
    ensures
        reply matches TextReply::Unsent(e) ==> {
            let why = Err::<Seq<VideoView>, SearchErrorView>(SearchErrorView::Unsent(e@));
            reply_results(reply) == why && suggestion_results(reply) == why && trending_results(
                reply,
            ) == why
        },
        reply matches TextReply::Received { status, body } && status != 200 ==> {
            let why = Err::<Seq<VideoView>, SearchErrorView>(SearchErrorView::Rejected);
            reply_results(reply) == why && suggestion_results(reply) == why && trending_results(
                reply,
            ) == why
        },
        reply matches TextReply::Received { status: 200, body: Err(e) } ==> {
            let why = Err::<Seq<VideoView>, SearchErrorView>(SearchErrorView::Unread(e@));
            reply_results(reply) == why && suggestion_results(reply) == why && trending_results(
                reply,
            ) == Err::<Seq<VideoView>, SearchErrorView>(SearchErrorView::Rejected)
        },
        reply matches TextReply::Received { status: 200, body: Ok(text) } ==> {
            let why = Err::<Seq<VideoView>, SearchErrorView>(SearchErrorView::NoList);
            &&& invidious_videos_of_text(text@) is None ==> reply_results(reply) == why
                && trending_results(reply) == why
            &&& suggested_videos_of_text(text@) is None ==> suggestion_results(reply) == why
        },
{
}

/// A page needs a server and a query, and trending music a server; without them that is told
/// whatever the answer, and with them the answer alone decides.
pub proof fn law_what_can_be_asked_for(
    domain: Seq<char>,
    query: Option<Seq<char>>,
    page: u32,
    region: Seq<char>,
    reply: TextReply,
)
    ensures
        ({
            let without = InstanceView { domain: None, query };
            let with = InstanceView { domain: Some(domain), query };
            &&& page_results(without, page, reply) == Err::<Seq<VideoView>, SearchErrorView>(
                SearchErrorView::NoServer,
            )
            &&& page_request(without, page) == Err::<RequestView, SearchErrorView>(
                SearchErrorView::NoServer,
            )
            &&& trending_music(without, region, reply) == Err::<Seq<VideoView>, SearchErrorView>(
                SearchErrorView::NoServer,
            )
            &&& trending_request_view(without, region) == Err::<RequestView, SearchErrorView>(
                SearchErrorView::NoServer,
            )
            &&& trending_music(with, region, reply) == trending_results(reply)
            &&& query is None ==> page_results(with, page, reply) == Err::<
                Seq<VideoView>,
                SearchErrorView,
            >(SearchErrorView::NoQuery)
            &&& query is None ==> page_request(with, page) == Err::<RequestView, SearchErrorView>(
                SearchErrorView::NoQuery,
            )
            &&& query is Some ==> page_results(with, page, reply) == reply_results(reply)
        }),
{
}

/// The requests for suggestions and for trending music hold the whole prefix, and the server
/// and the whole region; the rest of them is the same for all, and they have no pairs. The
/// query has no say in what trends.
pub proof fn law_requests_hold_what_is_asked_for(
    domain: Seq<char>,
    query: Option<Seq<char>>,
    region: Seq<char>,
    prefix: Seq<char>,
)
    ensures
        suggestions_request_view(prefix).url == suggestions_request_view(Seq::empty()).url + prefix,
        suggestions_request_view(prefix).query.len() == 0,
        ({
            let nowhere = Some(Seq::<char>::empty());
            let bare = trending_request_view(
                InstanceView { domain: nowhere, query: None },
                Seq::empty(),
            );
            let asked = trending_request_view(
                InstanceView { domain: Some(domain), query },
                region,
            );
            &&& bare is Ok
            &&& asked is Ok
            &&& asked->Ok_0.url == domain + bare->Ok_0.url + region
            &&& asked->Ok_0.query.len() == 0
        }),
{
    let empty = Seq::<char>::empty();
    assert(suggestions_request_view(empty).url + prefix == suggestions_request_view(prefix).url);
    assert(empty + "/api/v1/trending?type=music&region="@ + empty
        == "/api/v1/trending?type=music&region="@);
}

/// The mathematical value of what a search gives.
pub open spec fn results_view(results: Result<Vec<YoutubeVideo>, SearchError>) -> Result<
    Seq<VideoView>,
    SearchErrorView,
> {
    match results {
        Ok(videos) => Ok(videos_view(videos@)),
        Err(e) => Err(e@),
    }
}

/// The mathematical value of a request or why there is none.
pub open spec fn request_view(request: Result<Request, SearchError>) -> Result<
    RequestView,
    SearchErrorView,
> {
    match request {
        Ok(r) => Ok(r@),
        Err(e) => Err(e@),
    }
}

/// The text of an answer.
fn read_text(reply: TextReply) -> (text: Result<String, SearchError>)
    ensures
        match text {
            Ok(t) => reply_text(reply) == Ok::<Seq<char>, SearchErrorView>(t@),
            Err(e) => reply_text(reply) == Err::<Seq<char>, SearchErrorView>(e@),
        },
{
    match reply {
        TextReply::Unsent(e) => Err(SearchError::Unsent(e)),
        TextReply::Received { status, body } => {
            if status != 200 {
                return Err(SearchError::Rejected);
            }
            match body {
                Ok(text) => Ok(text),
                Err(e) => Err(SearchError::Unread(e)),
            }
        },
    }
}

/// The results in an answer of a server.
fn read_reply(reply: TextReply) -> (results: Result<Vec<YoutubeVideo>, SearchError>)
    ensures
        results_view(results) == reply_results(reply),
{
    match read_text(reply) {
        Ok(text) => match Instance::parse_youtube_options(text.as_str()) {
            Some(videos) => Ok(videos),
            None => Err(SearchError::NoList),
        },
        Err(e) => Err(e),
    }
}

impl Instance {
    /// The requests that start a search, each with the server that it goes to. They may be
    /// sent at the same time.
    pub fn search_requests(query: &str) -> (requests: Vec<(String, Request)>)
        ensures
            requests@.map_values(|r: (String, Request)| (r.0@, r.1@)) == first_searches(query@),
    {
        let mut requests: Vec<(String, Request)> = Vec::new();
        let mut i: usize = 0;
        while i < 7
            invariant
                i <= 7,
                requests@.len() == i,
                forall|j: int|
                    0 <= j < i ==> (#[trigger] requests@[j]).0@ == INVIDIOUS_INSTANCE_LIST@[j]@
                        && requests@[j].1@ == first_search(INVIDIOUS_INSTANCE_LIST@[j]@, query@),
            decreases 7 - i,
        {
            let domain = INVIDIOUS_INSTANCE_LIST[i];
            let pairs = vec![
                pair("q", query),
                pair("page", "1"),
                pair("type", "video"),
                pair("sort_by", "relevance"),
            ];
            let request = Request { url: join(domain, "/api/v1/search"), query: pairs };
            assert(request@ == first_search(domain@, query@));
            requests.push((domain.to_owned(), request));
            i = i + 1;
        }
        assert(requests@.map_values(|r: (String, Request)| (r.0@, r.1@)) == first_searches(query@));
        requests
    }

    /// What a server gives for the request that starts a search.
    pub fn server_arrival(domain: &str, reply: TextReply) -> (arrival: Arrival)
        ensures
            arrival_view(arrival) == server_results(domain@, reply),
    {
        match reply {
            TextReply::Received { status, body: Ok(text) } => {
                if status != 200 {
                    return None;
                }
                match Self::parse_youtube_options(text.as_str()) {
                    Some(videos) => Some((domain.to_owned(), videos)),
                    None => None,
                }
            },
            _ => None,
        }
    }

    /// Whether an arrival ends the wait for further ones.
    pub fn settles(arrival: &Arrival) -> (settled: bool)
        ensures
            settled == (arrival_view(*arrival) is Some),
    {
        arrival.is_some()
    }

    /// A search: the servers are asked at the same time and the first that gives something
    /// wins. `arrivals` are what the servers gave, in the order in which it came.
    pub fn new(query: &str, arrivals: Vec<Arrival>) -> (outcome: Result<
        (Self, Vec<YoutubeVideo>),
        SearchError,
    >)
        ensures
            match outcome {
                Ok((instance, videos)) => search_outcome(query@, arrivals_view(arrivals@)) == Ok::<
                    (InstanceView, Seq<VideoView>),
                    SearchErrorView,
                >((instance@, videos_view(videos@))),
                Err(e) => search_outcome(query@, arrivals_view(arrivals@)) == Err::<
                    (InstanceView, Seq<VideoView>),
                    SearchErrorView,
                >(e@),
            },
    {
        let ghost all = arrivals@;
        let ghost views = arrivals_view(all);
        assert(views.skip(0) == views);
        for arrival in it: arrivals
            invariant
                it.seq() == all,
                all == arrivals@,
                views == arrivals_view(all),
                first_arrival(views) == first_arrival(views.skip(it.index())),
        {
            let ghost k = it.index();
            assert(views.skip(k)[0] == arrival_view(arrival));
            assert(views.skip(k).drop_first() == views.skip(k + 1));
            if let Some((domain, videos)) = arrival {
                if videos.is_empty() {
                    return Err(SearchError::AllServersDown);
                }
                let instance = Instance { domain: Some(domain), query: Some(query.to_owned()) };
                return Ok((instance, videos));
            }
        }
        Err(SearchError::AllServersDown)
    }

    /// The request for a page of the search.
    pub fn search_request(&self, page: u32) -> (request: Result<Request, SearchError>)
        ensures
            request_view(request) == page_request(self@, page),
    {
        match (&self.domain, &self.query) {
            (None, _) => Err(SearchError::NoServer),
            (Some(_), None) => Err(SearchError::NoQuery),
            (Some(domain), Some(query)) => {
                let number = decimal(page as u64);
                let pairs = vec![pair("q", query.as_str()), pair("page", number.as_str())];
                let request = Request { url: join(domain.as_str(), "/api/v1/search"), query: pairs };
                assert(request@.query == seq![
                    ("q"@, query@),
                    ("page"@, decimal_of(page as nat)),
                ]);
                Ok(request)
            },
        }
    }

    /// The results on a page of the search. `reply` is the answer to the request for it;
    /// where there is no such request, `reply` is not looked at.
    pub fn get_search_query(&self, page: u32, reply: TextReply) -> (results: Result<
        Vec<YoutubeVideo>,
        SearchError,
    >)
        ensures
            results_view(results) == page_results(self@, page, reply),
    {
        match self.search_request(page) {
            Ok(_) => read_reply(reply),
            Err(e) => Err(e),
        }
    }

    /// The request for suggestions that begin with a prefix.
    pub fn suggestions_request(&self, prefix: &str) -> (request: Request)
        ensures
            request@ == suggestions_request_view(prefix@),
    {
        let request = Request {
            url: join(
                "http://suggestqueries.google.com/complete/search?client=firefox&ds=yt&q=",
                prefix,
            ),
            query: Vec::new(),
        };
        assert(request@.query == Seq::<(Seq<char>, Seq<char>)>::empty());
        request
    }

    /// Suggestions that begin with a prefix, as the search autocomplete gives them. `reply`
    /// is the answer to the request for them.
    pub fn get_suggestions(&self, reply: TextReply) -> (results: Result<
        Vec<YoutubeVideo>,
        SearchError,
    >)
        ensures
            results_view(results) == suggestion_results(reply),
    {
        match read_text(reply) {
            Ok(text) => match parse_json(text.as_str()) {
                Some(answer) => match suggestions_in(&answer) {
                    Some(videos) => Ok(videos),
                    None => Err(SearchError::NoList),
                },
                None => Err(SearchError::NoList),
            },
            Err(e) => Err(e),
        }
    }

    /// The request for the music that trends in a region (an ISO 3166 country code).
    pub fn trending_request(&self, region: &str) -> (request: Result<Request, SearchError>)
        ensures
            request_view(request) == trending_request_view(self@, region@),
    {
        match &self.domain {
            Some(domain) => {
                let base = join(domain.as_str(), "/api/v1/trending?type=music&region=");
                let request = Request { url: join(base.as_str(), region), query: Vec::new() };
                assert(request@.query == Seq::<(Seq<char>, Seq<char>)>::empty());
                Ok(request)
            },
            None => Err(SearchError::NoServer),
        }
    }

    /// The music that trends in a region. `reply` is the answer to the request for it; where
    /// there is no such request, `reply` is not looked at.
    pub fn get_trending_music(&self, region: &str, reply: TextReply) -> (results: Result<
        Vec<YoutubeVideo>,
        SearchError,
    >)
        ensures
            results_view(results) == trending_music(self@, region@, reply),
    {
        match self.trending_request(region) {
            Ok(_) => match read_reply(reply) {
                Err(SearchError::Unread(_)) => Err(SearchError::Rejected),
                results => results,
            },
            Err(e) => Err(e),
        }
    }

    /// The results in the text of an answer; none where it is no list.
    pub fn parse_youtube_options(data: &str) -> (videos: Option<Vec<YoutubeVideo>>)
        ensures
            match videos {
                Some(list) => invidious_videos_of_text(data@) == Some(videos_view(list@)),
                None => invidious_videos_of_text(data@) is None,
            },
    {
        match parse_json(data) {
            Some(answer) => videos_in(&answer),
            None => None,
        }
    }
}

} // verus!
