//! Why a search gives no results.
use vstd::prelude::*;

use crate::text::join;

verus! {

/// Why a search gives no results.
#[derive(PartialEq, Eq, Debug)]
pub enum SearchError {
    /// No Invidious server gave an answer, or the first answer held no results.
    AllServersDown,
    /// The instance has no server.
    NoServer,
    /// The instance has no query.
    NoQuery,
    /// The request could not be sent.
    Unsent(String),
    /// The server's answer could not be read.
    Unread(String),
    /// The server did not answer with success.
    Rejected,
    /// The server's answer is no list.
    NoList,
    /// The yt-dlp program could not be run.
    NotRun(String),
    /// The yt-dlp program failed; this is what it wrote to its error stream.
    Failed(String),
    /// The yt-dlp program found nothing for this query.
    NothingFound(String),
}

/// The mathematical value of a [`SearchError`].
pub enum SearchErrorView {
    AllServersDown,
    NoServer,
    NoQuery,
    Unsent(Seq<char>),
    Unread(Seq<char>),
    Rejected,
    NoList,
    NotRun(Seq<char>),
    Failed(Seq<char>),
    NothingFound(Seq<char>),
}

impl View for SearchError {
    type V = SearchErrorView;

    open spec fn view(&self) -> SearchErrorView {
        match *self {
            SearchError::AllServersDown => SearchErrorView::AllServersDown,
            SearchError::NoServer => SearchErrorView::NoServer,
            SearchError::NoQuery => SearchErrorView::NoQuery,
            SearchError::Unsent(e) => SearchErrorView::Unsent(e@),
            SearchError::Unread(e) => SearchErrorView::Unread(e@),
            SearchError::Rejected => SearchErrorView::Rejected,
            SearchError::NoList => SearchErrorView::NoList,
            SearchError::NotRun(e) => SearchErrorView::NotRun(e@),
            SearchError::Failed(e) => SearchErrorView::Failed(e@),
            SearchError::NothingFound(q) => SearchErrorView::NothingFound(q@),
        }
    }
}

impl SearchErrorView {
    /// What a user is told of the error.
    pub open spec fn message(self) -> Seq<char> {
        match self {
            SearchErrorView::AllServersDown => "All invidious servers are down. Try again later."@,
            SearchErrorView::NoServer => "No server available"@,
            SearchErrorView::NoQuery => "No query string found"@,
            SearchErrorView::Unsent(e) => e,
            SearchErrorView::Unread(e) => "Error during search: "@ + e,
            SearchErrorView::Rejected => "Error during search"@,
            SearchErrorView::NoList => "None Error"@,
            SearchErrorView::NotRun(e) => "Failed to run yt-dlp: "@ + e,
            SearchErrorView::Failed(e) => "yt-dlp search failed: "@ + e,
            SearchErrorView::NothingFound(q) => "yt-dlp returned no results for query: "@ + q,
        }
    }
}

/// What is told of an error ends with the whole reason or query that it holds, behind words
/// that are the same for all of its kind; the reason why nothing was sent is told alone.
pub proof fn law_message_tells_the_reason(reason: Seq<char>)
    ensures
        SearchErrorView::Unsent(reason).message() == reason,
        SearchErrorView::Unread(reason).message() == SearchErrorView::Unread(
            Seq::empty(),
        ).message() + reason,
        SearchErrorView::NotRun(reason).message() == SearchErrorView::NotRun(
            Seq::empty(),
        ).message() + reason,
        SearchErrorView::Failed(reason).message() == SearchErrorView::Failed(
            Seq::empty(),
        ).message() + reason,
        SearchErrorView::NothingFound(reason).message() == SearchErrorView::NothingFound(
            Seq::empty(),
        ).message() + reason,
{
    let empty = Seq::<char>::empty();
    assert("Error during search: "@ + empty == "Error during search: "@);
    assert("Failed to run yt-dlp: "@ + empty == "Failed to run yt-dlp: "@);
    assert("yt-dlp search failed: "@ + empty == "yt-dlp search failed: "@);
    assert("yt-dlp returned no results for query: "@ + empty
        == "yt-dlp returned no results for query: "@);
}

/// The view of an error keeps its kind and the whole reason or query.
pub proof fn law_view_keeps_the_reason(error: SearchError)
    ensures
        error matches SearchError::Unsent(e) ==> error@ == SearchErrorView::Unsent(e@),
        error matches SearchError::Unread(e) ==> error@ == SearchErrorView::Unread(e@),
        error matches SearchError::NotRun(e) ==> error@ == SearchErrorView::NotRun(e@),
        error matches SearchError::Failed(e) ==> error@ == SearchErrorView::Failed(e@),
        error matches SearchError::NothingFound(q) ==> error@ == SearchErrorView::NothingFound(q@),
        error is AllServersDown <==> error@ is AllServersDown,
        error is NoServer <==> error@ is NoServer,
        error is NoQuery <==> error@ is NoQuery,
        error is Rejected <==> error@ is Rejected,
        error is NoList <==> error@ is NoList,
{
}

impl SearchError {
    /// What a user is told of the error.
    pub fn message(&self) -> (text: String)
        ensures
            text@ == self@.message(),
    {
        match self {
            SearchError::AllServersDown => "All invidious servers are down. Try again later.".to_owned(),
            SearchError::NoServer => "No server available".to_owned(),
            SearchError::NoQuery => "No query string found".to_owned(),
            SearchError::Unsent(e) => e.clone(),
            SearchError::Unread(e) => join("Error during search: ", e.as_str()),
            SearchError::Rejected => "Error during search".to_owned(),
            SearchError::NoList => "None Error".to_owned(),
            SearchError::NotRun(e) => join("Failed to run yt-dlp: ", e.as_str()),
            SearchError::Failed(e) => join("yt-dlp search failed: ", e.as_str()),
            SearchError::NothingFound(q) => join(
                "yt-dlp returned no results for query: ",
                q.as_str(),
            ),
        }
    }
}

} // verus!
