//! Searches with the yt-dlp program, for when no Invidious server answers.
use vstd::prelude::*;

use crate::error::{SearchError, SearchErrorView};
use crate::instance::results_view;
use crate::json::{document, parse_json, without_json_white, Json, JsonView, EXACT_LIMIT};
use crate::text::{
    decimal, decimal_of, from_utf8_lossy, join, law_lines_with_line_feed,
    law_lossy_around_line_feed, lines, lines_of, strip_return, texts, utf8_lossy,
};
use crate::video::{law_picked_of_one, law_picked_of_parts, picked, videos_view, VideoView, YoutubeVideo};

verus! {

/// What came of running a program.
#[derive(PartialEq, Eq, Debug)]
pub enum ProgramRun {
    /// It could not be run, and why.
    NotRun(String),
    /// It ended, with success or not, and this is what it wrote.
    Ended { success: bool, stdout: Vec<u8>, stderr: Vec<u8> },
}

/// The arguments with which yt-dlp searches.
pub open spec fn search_arguments_view(query: Seq<char>, limit: u32) -> Seq<Seq<char>> {
    seq![
        "--dump-json"@,
        "--flat-playlist"@,
        "ytsearch"@ + decimal_of(limit as nat) + ":"@ + query,
    ]
}

/// The result that a document of yt-dlp stands for: it has the text fields `id` and
/// `title`; its length is the number `duration` without its fraction, and 0 where there is
/// no such number.
pub open spec fn ytdlp_video(entry: JsonView) -> Option<VideoView> {
    match (entry.text_field("id"@), entry.text_field("title"@)) {
        (Some(video_id), Some(title)) => Some(
            VideoView { title, length_seconds: duration_seconds(entry), video_id },
        ),
        _ => None,
    }
}

/// The number `duration` without its fraction, and 0 where there is no such number.
pub open spec fn duration_seconds(entry: JsonView) -> u64 {
    match entry.field("duration"@) {
        Some(value) => match value.truncated() {
            Some(seconds) => seconds,
            None => 0,
        },
        None => 0,
    }
}

/// The result on a line of yt-dlp's output.
pub open spec fn line_video(line: Seq<char>) -> Option<VideoView> {
    if line.len() == 0 {
        None
    } else {
        match document(line) {
            Some(entry) => ytdlp_video(entry),
            None => None,
        }
    }
}

/// The results in yt-dlp's output, one on a line; other lines are passed over.
pub open spec fn output_videos(output: Seq<char>) -> Seq<VideoView> {
    picked(lines_of(output), |line: Seq<char>| line_video(line))
}

/// Results are given where there are any.
pub open spec fn found_or_nothing(query: Seq<char>, videos: Seq<VideoView>) -> Result<
    Seq<VideoView>,
    SearchErrorView,
> {
    if videos.len() == 0 {
        Err(SearchErrorView::NothingFound(query))
    } else {
        Ok(videos)
    }
}

/// What a search with yt-dlp gives.
pub open spec fn ytdlp_outcome(query: Seq<char>, run: ProgramRun) -> Result<
    Seq<VideoView>,
    SearchErrorView,
> {
    match run {
        ProgramRun::NotRun(e) => Err(SearchErrorView::NotRun(e@)),
        ProgramRun::Ended { success, stdout, stderr } => if !success {
            Err(SearchErrorView::Failed(utf8_lossy(stderr@)))
        } else {
            found_or_nothing(query, output_videos(utf8_lossy(stdout@)))
        },
    }
}

/// A carriage return at the end of a line changes nothing in what is read on it.
proof fn lemma_line_without_return(line: Seq<char>)
    ensures
        line_video(strip_return(line)) == line_video(line),
{
    if line.len() > 0 && line.last() == '\r' {
        assert(without_json_white(line) == without_json_white(line.drop_last()));
    }
}

/// Each line of the output is read by itself: the results of two outputs with a line feed
/// between are those of the one, then those of the other, however the first ends.
pub proof fn law_output_of_parts(first: Seq<char>, second: Seq<char>)
    ensures
        output_videos(first + seq!['\n'] + second) == output_videos(first) + output_videos(second),
{
    let pick = |line: Seq<char>| line_video(line);
    let alone = lines_of(first);
    let ended = lines_of(first + seq!['\n']);
    law_output_after_line_feed(first, second);
    law_lines_with_line_feed(first);
    assert(picked(ended, pick) == picked(alone, pick)) by {
        if first.len() == 0 || first.last() == '\n' {
            assert(ended.drop_last() == alone);
            assert(pick(ended.last()) is None);
        } else {
            assert(ended.drop_last() == alone.drop_last());
            lemma_line_without_return(alone.last());
            assert(pick(ended.last()) == pick(alone.last()));
        }
    }
}

/// Each line of the output is read by itself: the results of two outputs end to end, the
/// first ended by a line feed, are those of the one, then those of the other.
pub proof fn law_output_after_line_feed(first: Seq<char>, second: Seq<char>)
    ensures
        output_videos(first + seq!['\n'] + second) == output_videos(first + seq!['\n'])
            + output_videos(second),
{
    crate::text::law_lines_of_parts(first, second);
    law_picked_of_parts(
        lines_of(first + seq!['\n']),
        lines_of(second),
        |line: Seq<char>| line_video(line),
    );
}

/// The results of a search; none where it fails.
pub open spec fn results_of(outcome: Result<Seq<VideoView>, SearchErrorView>) -> Seq<VideoView> {
    match outcome {
        Ok(videos) => videos,
        Err(_) => Seq::empty(),
    }
}

/// Where yt-dlp succeeds and its output is the bytes of two outputs with a line feed between,
/// whatever bytes these are, the search gives the results of both, in their order and none
/// left out; it fails only where neither has a result.
pub proof fn law_search_of_parts(
    query: Seq<char>,
    first: ProgramRun,
    second: ProgramRun,
    both: ProgramRun,
)
    requires
        first is Ended && second is Ended && both is Ended,
        first->success && second->success && both->success,
        both->stdout@ == first->stdout@ + seq![10u8] + second->stdout@,
    ensures
        ytdlp_outcome(query, both) == found_or_nothing(
            query,
            results_of(ytdlp_outcome(query, first)) + results_of(ytdlp_outcome(query, second)),
        ),
{
    let a = output_videos(utf8_lossy(first->stdout@));
    let b = output_videos(utf8_lossy(second->stdout@));
    law_lossy_around_line_feed(first->stdout@, second->stdout@);
    law_output_of_parts(utf8_lossy(first->stdout@), utf8_lossy(second->stdout@));
    assert(results_of(ytdlp_outcome(query, first)) == a);
    assert(results_of(ytdlp_outcome(query, second)) == b);
}

/// An entry makes a result exactly where a text stands under `id` and a text under `title`:
/// these are the result's id and title, and its length is the number under `duration` without
/// its fraction, or 0 where no number stands there.
pub proof fn law_entry_is_its_three_fields(entry: JsonView, video: VideoView)
    ensures
        ytdlp_video(entry) == Some(video) <==> {
            &&& entry.field("id"@) == Some(JsonView::Text(video.video_id))
            &&& entry.field("title"@) == Some(JsonView::Text(video.title))
            &&& match entry.field("duration"@) {
                Some(JsonView::Number(n)) => n.truncated == Some(video.length_seconds)
                    || n.truncated is None && video.length_seconds == 0,
                _ => video.length_seconds == 0,
            }
        },
{
}

/// Entries that have the same under `id`, `title` and `duration` make the same result,
/// whatever else they hold.
pub proof fn law_other_fields_of_entry_have_no_say(one: JsonView, other: JsonView)
    requires
        one.field("id"@) == other.field("id"@),
        one.field("title"@) == other.field("title"@),
        one.field("duration"@) == other.field("duration"@),
    ensures
        ytdlp_video(one) == ytdlp_video(other),
{
}

/// An output without a line feed gives the result of the entry that it holds, and nothing
/// where it holds no entry that makes one.
pub proof fn law_output_of_one_line(line: Seq<char>)
    requires
        forall|i: int| 0 <= i < line.len() ==> line[i] != '\n',
    ensures
        match document(line) {
            Some(entry) => match ytdlp_video(entry) {
                Some(video) => output_videos(line) == seq![video],
                None => output_videos(line).len() == 0,
            },
            None => output_videos(line).len() == 0,
        },
{
    crate::text::law_line_by_line(line, Seq::empty());
    law_picked_of_one(line, |line: Seq<char>| line_video(line));
}

/// A search fails with the reason where the program could not be run, and with what the
/// program wrote to its error stream where it did not succeed. Where it succeeded, what it
/// wrote there has no say: all results in its output are given, and the search fails with its
/// query only where there are none.
pub proof fn law_run_decides_search(query: Seq<char>, run: ProgramRun)
    ensures
        run matches ProgramRun::NotRun(e) ==> ytdlp_outcome(query, run) == Err::<
            Seq<VideoView>,
            SearchErrorView,
        >(SearchErrorView::NotRun(e@)),
        run matches ProgramRun::Ended { success: false, stdout, stderr } ==> ytdlp_outcome(
            query,
            run,
        ) == Err::<Seq<VideoView>, SearchErrorView>(
            SearchErrorView::Failed(utf8_lossy(stderr@)),
        ),
        run matches ProgramRun::Ended { success: true, stdout, stderr } ==> {
            let videos = output_videos(utf8_lossy(stdout@));
            if videos.len() > 0 {
                ytdlp_outcome(query, run) == Ok::<Seq<VideoView>, SearchErrorView>(videos)
            } else {
                ytdlp_outcome(query, run) == Err::<Seq<VideoView>, SearchErrorView>(
                    SearchErrorView::NothingFound(query),
                )
            }
        },
{
}

/// The results that a search has are all given, and having none is the only way in which it
/// comes to nothing.
pub proof fn law_results_are_given(query: Seq<char>, videos: Seq<VideoView>)
    ensures
        videos.len() > 0 ==> found_or_nothing(query, videos) == Ok::<
            Seq<VideoView>,
            SearchErrorView,
        >(videos),
        videos.len() == 0 ==> found_or_nothing(query, videos) == Err::<
            Seq<VideoView>,
            SearchErrorView,
        >(SearchErrorView::NothingFound(query)),
        results_of(found_or_nothing(query, videos)) == videos,
{
    if videos.len() == 0 {
        assert(videos == Seq::<VideoView>::empty());
    }
}

/// The search is one argument, which ends with the whole query and has the limit before it in
/// decimal notation; the other arguments depend on neither.
pub proof fn law_arguments_tell_query_and_limit(
    query: Seq<char>,
    limit: u32,
    other_query: Seq<char>,
    other_limit: u32,
)
    ensures
        ({
            let arguments = search_arguments_view(query, limit);
            let others = search_arguments_view(other_query, other_limit);
            let search = arguments[2];
            let end = search.len() - query.len() - 1;
            &&& arguments.len() == 3
            &&& arguments[0] == others[0]
            &&& arguments[1] == others[1]
            &&& search.len() > query.len() + 8
            &&& search.take(8) == others[2].take(8)
            &&& search.subrange(8, end) == decimal_of(limit as nat)
            &&& crate::text::number_of(search.subrange(8, end)) == limit
            &&& search[end] == ':'
            &&& search.skip(end + 1) == query
        }),
{
    reveal_strlit("ytsearch");
    reveal_strlit(":");
    let number = decimal_of(limit as nat);
    crate::text::law_decimal_reads_back(limit as nat);
    let search = search_arguments_view(query, limit)[2];
    let other = search_arguments_view(other_query, other_limit)[2];
    let end = search.len() - query.len() - 1;
    assert(search.take(8) == "ytsearch"@);
    assert(other.take(8) == "ytsearch"@);
    assert(search.subrange(8, end) == number);
    assert(search.skip(end + 1) == query);
}

/// A whole number of seconds that a double holds exactly is kept as it is.
pub proof fn law_whole_duration_is_kept(entry: JsonView, seconds: u64)
    requires
        entry.well_formed(),
        entry.unsigned_field("duration"@) == Some(seconds),
        seconds <= EXACT_LIMIT,
    ensures
        duration_seconds(entry) == seconds,
{
    crate::json::lemma_field_is_well_formed(entry, "duration"@);
}

/// The arguments with which yt-dlp searches for at most `limit` results.
pub fn search_arguments(query: &str, limit: u32) -> (arguments: Vec<String>)
    ensures
        texts(arguments@) == search_arguments_view(query@, limit),
{
    let number = decimal(limit as u64);
    let counted = join("ytsearch", number.as_str());
    let prefix = join(counted.as_str(), ":");
    let search = join(prefix.as_str(), query);
    let arguments = vec!["--dump-json".to_owned(), "--flat-playlist".to_owned(), search];
    assert(texts(arguments@) == search_arguments_view(query@, limit));
    arguments
}

/// The result that a document of yt-dlp stands for.
pub fn parse_ytdlp_entry(entry: &Json) -> (video: Option<YoutubeVideo>)
    ensures
        match video {
            Some(v) => ytdlp_video(entry@) == Some(v@),
            None => ytdlp_video(entry@) is None,
        },
{
    let video_id = match entry.text_field("id") {
        Some(id) => id.to_owned(),
        None => return None,
    };
    let title = match entry.text_field("title") {
        Some(t) => t.to_owned(),
        None => return None,
    };
    let length_seconds: u64 = match entry.get("duration") {
        Some(value) => match value.as_truncated() {
            Some(seconds) => seconds,
            None => 0,
        },
        None => 0,
    };
    Some(YoutubeVideo { title, length_seconds, video_id })
}

/// The result on a line of yt-dlp's output.
fn parse_ytdlp_line(line: &str) -> (video: Option<YoutubeVideo>)
    ensures
        match video {
            Some(v) => line_video(line@) == Some(v@),
            None => line_video(line@) is None,
        },
{
    if line.is_empty() {
        return None;
    }
    match parse_json(line) {
        Some(entry) => parse_ytdlp_entry(&entry),
        None => None,
    }
}

/// The results in yt-dlp's output.
pub fn parse_ytdlp_output(output: &str) -> (videos: Vec<YoutubeVideo>)
    ensures
        videos_view(videos@) == output_videos(output@),
{
    let all = lines(output);
    let ghost pick = |line: Seq<char>| line_video(line);
    let mut videos: Vec<YoutubeVideo> = Vec::new();
    let mut i: usize = 0;
    assert(videos_view(videos@) == picked(texts(all@).take(0), pick));
    while i < all.len()
        invariant
            i <= all@.len(),
            pick == (|line: Seq<char>| line_video(line)),
            videos_view(videos@) == picked(texts(all@).take(i as int), pick),
        decreases all@.len() - i,
    {
        let ghost before = videos_view(videos@);
        assert(texts(all@)[i as int] == all@[i as int]@);
        assert(texts(all@).take(i + 1).drop_last() == texts(all@).take(i as int));
        if let Some(video) = parse_ytdlp_line(all[i].as_str()) {
            videos.push(video);
            assert(videos_view(videos@) == before.push(video@));
        }
        i = i + 1;
    }
    assert(texts(all@).take(all@.len() as int) == texts(all@));
    videos
}

/// What a search with yt-dlp gives, from the results in its output.
pub fn ytdlp_results(query: &str, videos: Vec<YoutubeVideo>) -> (results: Result<
    Vec<YoutubeVideo>,
    SearchError,
>)
    ensures
        results_view(results) == found_or_nothing(query@, videos_view(videos@)),
{
    assert(videos@.len() == videos_view(videos@).len());
    if videos.is_empty() {
        Err(SearchError::NothingFound(query.to_owned()))
    } else {
        Ok(videos)
    }
}

/// Searches with yt-dlp. `run` is what came of running it with the arguments that
/// `search_arguments` gives.
pub fn ytdlp_search(query: &str, run: ProgramRun) -> (results: Result<
    Vec<YoutubeVideo>,
    SearchError,
>)
    ensures
        results_view(results) == ytdlp_outcome(query@, run),
{
    match run {
        ProgramRun::NotRun(e) => Err(SearchError::NotRun(e)),
        ProgramRun::Ended { success, stdout, stderr } => {
            if !success {
                return Err(SearchError::Failed(from_utf8_lossy(stderr.as_slice())));
            }
            let output = from_utf8_lossy(stdout.as_slice());
            let videos = parse_ytdlp_output(output.as_str());
            ytdlp_results(query, videos)
        },
    }
}

} // verus!
