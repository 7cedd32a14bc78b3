//! Marks on search results that tell whether lyrics will be shown for them.
use vstd::prelude::*;

use crate::video::{videos_view, VideoView, YoutubeVideo};

verus! {

/// Put before the title of a result for which the shell will show lyrics.
pub const HAS_LYRICS_MARK: char = '\u{f00c}';

/// Put before the title of a result for which there are no lyrics.
pub const NO_LYRICS_MARK: char = '\u{f073a}';

/// How many results are looked up at the same time, at most.
pub const MAX_FILTER_CONCURRENCY: usize = 6;

/// The mark for whether lyrics were found; where the lookup broke off none were.
pub open spec fn mark_for(found: Option<bool>) -> char {
    if found == Some(true) {
        HAS_LYRICS_MARK
    } else {
        NO_LYRICS_MARK
    }
}

/// A result with its mark and a space before its title.
pub open spec fn marked(video: VideoView, found: Option<bool>) -> VideoView {
    VideoView { title: seq![mark_for(found), ' '] + video.title, ..video }
}

/// The views of results, each with whether lyrics were found for it.
pub open spec fn found_view(items: Seq<(YoutubeVideo, Option<bool>)>) -> Seq<
    (VideoView, Option<bool>),
> {
    items.map_values(|item: (YoutubeVideo, Option<bool>)| (item.0@, item.1))
}

/// All results, marked, in their order.
pub open spec fn annotated(items: Seq<(VideoView, Option<bool>)>) -> Seq<VideoView> {
    items.map_values(|item: (VideoView, Option<bool>)| marked(item.0, item.1))
}

/// How many results will have lyrics.
pub open spec fn viable_count(items: Seq<(VideoView, Option<bool>)>) -> nat
    decreases items.len(),
{
    if items.len() == 0 {
        0
    } else {
        viable_count(items.drop_last()) + if items.last().1 == Some(true) {
            1nat
        } else {
            0nat
        }
    }
}

/// Every result is kept, in its place: its id and its length stay, and its title follows
/// the mark and a space. The mark for lyrics is that of the results for which they were
/// found, and no other's. As many are counted as bear it.
pub proof fn law_all_results_are_kept(items: Seq<(VideoView, Option<bool>)>)
    ensures
        annotated(items).len() == items.len(),
        forall|i: int|
            0 <= i < items.len() ==> {
                let old_video = (#[trigger] items[i]).0;
                let new_video = annotated(items)[i];
                &&& new_video.video_id == old_video.video_id
                &&& new_video.length_seconds == old_video.length_seconds
                &&& new_video.title.skip(2) == old_video.title
                &&& new_video.title[0] == mark_for(items[i].1)
                &&& new_video.title[0] == HAS_LYRICS_MARK <==> items[i].1 == Some(true)
                &&& new_video.title[0] == NO_LYRICS_MARK <==> items[i].1 != Some(true)
                &&& new_video.title[1] == ' '
            },
        viable_count(items) <= items.len(),
        viable_count(items) == annotated(items).filter(
            |video: VideoView| video.title[0] == HAS_LYRICS_MARK,
        ).len(),
    decreases items.len(),
{
    let has_mark = |video: VideoView| video.title[0] == HAS_LYRICS_MARK;
    assert forall|i: int| 0 <= i < items.len() implies {
        let old_video = (#[trigger] items[i]).0;
        let new_video = annotated(items)[i];
        &&& new_video.video_id == old_video.video_id
        &&& new_video.length_seconds == old_video.length_seconds
        &&& new_video.title.skip(2) == old_video.title
        &&& new_video.title[0] == mark_for(items[i].1)
        &&& new_video.title[0] == HAS_LYRICS_MARK <==> items[i].1 == Some(true)
        &&& new_video.title[0] == NO_LYRICS_MARK <==> items[i].1 != Some(true)
        &&& new_video.title[1] == ' '
    } by {
        assert(annotated(items)[i].title.skip(2) == items[i].0.title);
    }
    reveal(Seq::filter);
    if items.len() > 0 {
        let front = items.drop_last();
        law_all_results_are_kept(front);
        assert(annotated(items).drop_last() == annotated(front));
        assert(annotated(items).last() == marked(items.last().0, items.last().1));
        assert(has_mark(annotated(items).last()) == (items.last().1 == Some(true)));
    }
}

/// The views of results show all of them, each with whether lyrics were found for it.
pub proof fn law_views_show_all_items(items: Seq<(YoutubeVideo, Option<bool>)>, i: int)
    requires
        0 <= i < items.len(),
    ensures
        found_view(items).len() == items.len(),
        found_view(items)[i].0 == items[i].0@,
        found_view(items)[i].1 == items[i].1,
{
}

/// Puts the mark and a space before a title.
fn mark_title(mark: char, title: &str) -> (text: String)
    ensures
        text@ == seq![mark, ' '] + title@,
{
    let mut text = String::new();
    text.push(mark);
    text.push(' ');
    assert(text@ == seq![mark, ' ']);
    text.append(title);
    text
}

/// Puts before the title of every result the mark for whether lyrics were found for it. All
/// results are kept. Returns them and how many will have lyrics.
#[must_use]
pub fn annotate_lyrics_availability(items: Vec<(YoutubeVideo, Option<bool>)>) -> (annotation: (
    Vec<YoutubeVideo>,
    usize,
))
    ensures
        videos_view(annotation.0@) == annotated(found_view(items@)),
        annotation.1 == viable_count(found_view(items@)),
{
    let ghost all = items@;
    let ghost views = found_view(all);
    let total: usize = items.len();
    let mut videos: Vec<YoutubeVideo> = Vec::new();
    let mut count: usize = 0;
    assert(videos_view(videos@) == annotated(views.take(0)));
    for item in it: items
        invariant
            it.seq() == all,
            views == found_view(all),
            total == all.len(),
            count <= it.index() <= total,
            videos_view(videos@) == annotated(views.take(it.index())),
            count == viable_count(views.take(it.index())),
    {
        let ghost k = it.index();
        let ghost before = videos_view(videos@);
        assert(views.take(k + 1).drop_last() == views.take(k));
        assert(views.take(k + 1).last() == (item.0@, item.1));
        let (video, found) = item;
        let mark: char = match found {
            Some(true) => {
                count = count + 1;
                HAS_LYRICS_MARK
            },
            _ => NO_LYRICS_MARK,
        };
        let title = mark_title(mark, video.title.as_str());
        let annotated_video = YoutubeVideo {
            title,
            length_seconds: video.length_seconds,
            video_id: video.video_id,
        };
        videos.push(annotated_video);
        assert(videos_view(videos@) == before.push(marked(item.0@, item.1)));
        assert(annotated(views.take(k + 1)) == annotated(views.take(k)).push(
            marked(item.0@, item.1),
        ));
    }
    assert(views.take(views.len() as int) == views);
    (videos, count)
}

/// Counts the lookups that run, and lets no more than [`MAX_FILTER_CONCURRENCY`] begin.
#[derive(PartialEq, Eq, Debug)]
pub struct FilterSlots {
    in_flight: usize,
}

impl FilterSlots {
    /// How many lookups run.
    pub closed spec fn running(self) -> nat {
        self.in_flight as nat
    }

    /// No more lookups run than may.
    #[verifier::type_invariant]
    spec fn bounded(self) -> bool {
        self.in_flight <= MAX_FILTER_CONCURRENCY
    }

    /// No lookup runs.
    pub fn new() -> (slots: Self)
        ensures
            slots.running() == 0,
    {
        FilterSlots { in_flight: 0 }
    }

    /// How many lookups run.
    pub fn in_flight(&self) -> (count: usize)
        ensures
            count == self.running(),
            count <= MAX_FILTER_CONCURRENCY,
    {
        proof {
            use_type_invariant(self);
        }
        self.in_flight
    }

    /// Lets a lookup begin, where one more may run.
    pub fn try_enter(&mut self) -> (entered: bool)
        ensures
            entered == (old(self).running() < MAX_FILTER_CONCURRENCY),
            final(self).running() == old(self).running() + if entered {
                1nat
            } else {
                0nat
            },
            final(self).running() <= MAX_FILTER_CONCURRENCY,
    {
        proof {
            use_type_invariant(&*self);
        }
        if self.in_flight >= MAX_FILTER_CONCURRENCY {
            return false;
        }
        self.in_flight = self.in_flight + 1;
        true
    }

    /// Ends a lookup that runs.
    pub fn leave(&mut self)
        requires
            old(self).running() > 0,
        ensures
            final(self).running() == old(self).running() - 1,
            final(self).running() < MAX_FILTER_CONCURRENCY,
    {
        proof {
            use_type_invariant(&*self);
        }
        self.in_flight = self.in_flight - 1;
    }
}

} // verus!
