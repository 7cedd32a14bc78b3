//! Search results, and how they are read out of JSON documents.
use vstd::prelude::*;

use crate::instance::Instance;
use crate::json::{document, Json, JsonView};

verus! {

/// A search result.
#[derive(Clone, PartialEq, Eq, Debug)]
pub struct YoutubeVideo {
    pub title: String,
    pub length_seconds: u64,
    pub video_id: String,
}

/// The mathematical value of a [`YoutubeVideo`].
#[verifier::ext_equal]
pub struct VideoView {
    pub title: Seq<char>,
    pub length_seconds: u64,
    pub video_id: Seq<char>,
}

impl View for YoutubeVideo {
    type V = VideoView;

    open spec fn view(&self) -> VideoView {
        VideoView {
            title: self.title@,
            length_seconds: self.length_seconds,
            video_id: self.video_id@,
        }
    }
}

/// The views of a list of results.
pub open spec fn videos_view(list: Seq<YoutubeVideo>) -> Seq<VideoView> {
    list.map_values(|v: YoutubeVideo| v@)
}

/// The views of a list of results show all of them, one by one, with all that they hold.
pub proof fn law_views_show_all_results(list: Seq<YoutubeVideo>, i: int)
    requires
        0 <= i < list.len(),
    ensures
        videos_view(list).len() == list.len(),
        videos_view(list)[i].title == list[i].title@,
        videos_view(list)[i].video_id == list[i].video_id@,
        videos_view(list)[i].length_seconds == list[i].length_seconds,
{
}

/// What `pick` makes of the items, in their order, without those of which it makes nothing.
pub open spec fn picked<A>(items: Seq<A>, pick: spec_fn(A) -> Option<VideoView>) -> Seq<VideoView>
    decreases items.len(),
{
    if items.len() == 0 {
        Seq::empty()
    } else {
        match pick(items.last()) {
            Some(video) => picked(items.drop_last(), pick).push(video),
            None => picked(items.drop_last(), pick),
        }
    }
}

/// Each item is picked by itself: what is picked of two lists end to end is what is picked
/// of the one, then of the other.
pub proof fn law_picked_of_parts<A>(
    first: Seq<A>,
    second: Seq<A>,
    pick: spec_fn(A) -> Option<VideoView>,
)
    ensures
        picked(first + second, pick) == picked(first, pick) + picked(second, pick),
    decreases second.len(),
{
    if second.len() == 0 {
        assert(first + second == first);
        assert(picked(first, pick) + picked(second, pick) == picked(first, pick));
    } else {
        assert((first + second).drop_last() == first + second.drop_last());
        law_picked_of_parts(first, second.drop_last(), pick);
        if let Some(video) = pick(second.last()) {
            assert(picked(first, pick) + picked(second.drop_last(), pick).push(video) == (picked(
                first,
                pick,
            ) + picked(second.drop_last(), pick)).push(video));
        }
    }
}

/// Of no item nothing is picked, and of one item what it makes.
pub proof fn law_picked_of_one<A>(item: A, pick: spec_fn(A) -> Option<VideoView>)
    ensures
        picked(Seq::<A>::empty(), pick) == Seq::<VideoView>::empty(),
        pick(item) matches Some(video) ==> picked(seq![item], pick) == seq![video],
        pick(item) is None ==> picked(seq![item], pick) == Seq::<VideoView>::empty(),
{
    assert(seq![item].drop_last() == Seq::<A>::empty());
    assert(seq![item].last() == item);
    assert(picked(seq![item].drop_last(), pick) == Seq::<VideoView>::empty());
    if let Some(video) = pick(item) {
        assert(Seq::<VideoView>::empty().push(video) == seq![video]);
    }
}

/// Nothing is made up and nothing is dropped: every picked result comes from an item, every
/// item that makes a result is there, and there are no more results than items.
pub proof fn law_picked_come_from_items<A>(items: Seq<A>, pick: spec_fn(A) -> Option<VideoView>)
    ensures
        picked(items, pick).len() <= items.len(),
        forall|video: VideoView| #[trigger]
            picked(items, pick).contains(video) <==> exists|i: int|
                0 <= i < items.len() && pick(#[trigger] items[i]) == Some(video),
    decreases items.len(),
{
    if items.len() > 0 {
        let front = items.drop_last();
        law_picked_come_from_items(front, pick);
        assert forall|video: VideoView|
            #![trigger picked(items, pick).contains(video)]
            picked(items, pick).contains(video) <==> exists|i: int|
                0 <= i < items.len() && pick(#[trigger] items[i]) == Some(video) by {
            if picked(items, pick).contains(video) {
                let k = choose|k: int|
                    0 <= k < picked(items, pick).len() && picked(items, pick)[k] == video;
                if k < picked(front, pick).len() {
                    assert(picked(front, pick)[k] == video);
                    assert(picked(front, pick).contains(video));
                    let i = choose|i: int|
                        0 <= i < front.len() && pick(#[trigger] front[i]) == Some(video);
                    assert(items[i] == front[i]);
                } else {
                    assert(pick(items[items.len() - 1]) == Some(video));
                }
            }
            if exists|i: int| 0 <= i < items.len() && pick(#[trigger] items[i]) == Some(video) {
                let i = choose|i: int|
                    0 <= i < items.len() && pick(#[trigger] items[i]) == Some(video);
                if i < front.len() {
                    assert(front[i] == items[i]);
                    assert(picked(front, pick).contains(video));
                    let k = choose|k: int|
                        0 <= k < picked(front, pick).len() && picked(front, pick)[k] == video;
                    assert(picked(items, pick)[k] == video);
                } else {
                    assert(picked(items, pick)[picked(items, pick).len() - 1] == video);
                }
            }
        }
    }
}

/// The result that an item of an Invidious answer stands for: it has the text fields
/// `title` and `videoId` and the unsigned integer field `lengthSeconds`.
pub open spec fn invidious_video(item: JsonView) -> Option<VideoView> {
    match (
        item.text_field("title"@),
        item.text_field("videoId"@),
        item.unsigned_field("lengthSeconds"@),
    ) {
        (Some(title), Some(video_id), Some(length_seconds)) => Some(
            VideoView { title, length_seconds, video_id },
        ),
        _ => None,
    }
}

/// The results in an Invidious answer, which is a list.
pub open spec fn invidious_videos(answer: JsonView) -> Option<Seq<VideoView>> {
    match answer {
        JsonView::List(items) => Some(picked(items, |item: JsonView| invidious_video(item))),
        _ => None,
    }
}

/// The results in the text of an Invidious answer.
pub open spec fn invidious_videos_of_text(text: Seq<char>) -> Option<Seq<VideoView>> {
    match document(text) {
        Some(answer) => invidious_videos(answer),
        None => None,
    }
}

/// The result that a suggestion stands for: a text is its title; nothing tells an id or a
/// length.
pub open spec fn suggested_video(item: JsonView) -> Option<VideoView> {
    match item.text() {
        Some(title) => Some(
            VideoView { title, length_seconds: 0, video_id: Seq::<char>::empty() },
        ),
        None => None,
    }
}

/// The results in an answer of the search autocomplete, which is a list of the prefix, a
/// text, and the list of its suggestions. A list of another shape is read like that of a
/// server.
pub open spec fn suggested_videos(answer: JsonView) -> Option<Seq<VideoView>> {
    match answer {
        JsonView::List(parts) => if parts.len() > 1 && parts[0] is Text && parts[1] is List {
            Some(picked(parts[1]->List_0, |item: JsonView| suggested_video(item)))
        } else {
            invidious_videos(answer)
        },
        _ => None,
    }
}

/// The results in the text of an answer of the search autocomplete.
pub open spec fn suggested_videos_of_text(text: Seq<char>) -> Option<Seq<VideoView>> {
    match document(text) {
        Some(answer) => suggested_videos(answer),
        None => None,
    }
}

/// Where every item makes a result, as many results are picked as there are items, each in
/// the place of its item.
pub proof fn lemma_picked_of_all<A>(items: Seq<A>, pick: spec_fn(A) -> Option<VideoView>)
    requires
        forall|i: int| 0 <= i < items.len() ==> pick(#[trigger] items[i]) is Some,
    ensures
        picked(items, pick).len() == items.len(),
        forall|i: int|
            0 <= i < items.len() ==> pick(#[trigger] items[i]) == Some(picked(items, pick)[i]),
    decreases items.len(),
{
    if items.len() > 0 {
        let front = items.drop_last();
        assert forall|i: int| 0 <= i < front.len() implies pick(#[trigger] front[i]) is Some by {
            assert(front[i] == items[i]);
        }
        lemma_picked_of_all(front, pick);
        assert forall|i: int| 0 <= i < items.len() implies pick(#[trigger] items[i]) == Some(
            picked(items, pick)[i],
        ) by {
            if i < front.len() {
                assert(front[i] == items[i]);
            }
        }
    }
}

/// The suggestions of the search autocomplete are given one by one, in their order, as the
/// titles of the results, which have no length and an empty id.
pub proof fn law_suggestions_are_titles(prefix: JsonView, suggestions: Seq<JsonView>)
    requires
        prefix is Text,
        forall|i: int| 0 <= i < suggestions.len() ==> (#[trigger] suggestions[i]) is Text,
    ensures
        ({
            let given = suggested_videos(JsonView::List(seq![prefix, JsonView::List(suggestions)]));
            &&& given is Some
            &&& given->0.len() == suggestions.len()
            &&& forall|i: int|
                0 <= i < suggestions.len() ==> (#[trigger] suggestions[i])->Text_0
                    == given->0[i].title && given->0[i].length_seconds == 0
                    && given->0[i].video_id.len() == 0
        }),
{
    let pick = |item: JsonView| suggested_video(item);
    assert forall|i: int| 0 <= i < suggestions.len() implies pick(
        #[trigger] suggestions[i],
    ) is Some by {
        assert(suggestions[i] is Text);
    }
    lemma_picked_of_all(suggestions, pick);
    let answer = seq![prefix, JsonView::List(suggestions)];
    assert(answer[1] == JsonView::List(suggestions));
    assert forall|i: int| 0 <= i < suggestions.len() implies (#[trigger] suggestions[i])->Text_0
        == picked(suggestions, pick)[i].title && picked(suggestions, pick)[i].length_seconds == 0
        && picked(suggestions, pick)[i].video_id.len() == 0 by {
        assert(pick(suggestions[i]) == Some(picked(suggestions, pick)[i]));
    }
}

/// An item makes a result exactly where a text stands under `title`, a text under `videoId`
/// and an unsigned integer under `lengthSeconds`, and these three are the result.
pub proof fn law_item_is_its_three_fields(item: JsonView, video: VideoView)
    ensures
        invidious_video(item) == Some(video) <==> {
            &&& item.field("title"@) == Some(JsonView::Text(video.title))
            &&& item.field("videoId"@) == Some(JsonView::Text(video.video_id))
            &&& item.field("lengthSeconds"@) matches Some(JsonView::Number(n))
            &&& n.unsigned == Some(video.length_seconds)
        },
{
}

/// Items that have the same under `title`, `videoId` and `lengthSeconds` make the same
/// result, whatever else they hold.
pub proof fn law_other_fields_of_item_have_no_say(one: JsonView, other: JsonView)
    requires
        one.field("title"@) == other.field("title"@),
        one.field("videoId"@) == other.field("videoId"@),
        one.field("lengthSeconds"@) == other.field("lengthSeconds"@),
    ensures
        invidious_video(one) == invidious_video(other),
        invidious_videos(JsonView::List(seq![one])) == invidious_videos(
            JsonView::List(seq![other]),
        ),
{
    law_answer_of_one_item(one);
    law_answer_of_one_item(other);
}

/// An answer with one item gives the result that the item makes, or an empty list; one with
/// no items an empty list.
pub proof fn law_answer_of_one_item(item: JsonView)
    ensures
        invidious_videos(JsonView::List(Seq::empty())) == Some(Seq::<VideoView>::empty()),
        invidious_video(item) matches Some(video) ==> invidious_videos(JsonView::List(seq![item]))
            == Some(seq![video]),
        invidious_video(item) is None ==> invidious_videos(JsonView::List(seq![item])) == Some(
            Seq::<VideoView>::empty(),
        ),
{
    law_picked_of_one(item, |item: JsonView| invidious_video(item));
}

/// Items are read one by one, and all of them: an answer that lists the items of two lists
/// gives the results of the one, then those of the other.
pub proof fn law_answer_of_parts(first: Seq<JsonView>, second: Seq<JsonView>)
    ensures
        ({
            let one = invidious_videos(JsonView::List(first));
            let other = invidious_videos(JsonView::List(second));
            &&& one is Some
            &&& other is Some
            &&& invidious_videos(JsonView::List(first + second)) == Some(one->0 + other->0)
        }),
{
    law_picked_of_parts(first, second, |item: JsonView| invidious_video(item));
}

/// Where every item is complete, there are as many results as items, and each has the title,
/// the id and the length of its item.
pub proof fn law_complete_items_are_given(items: Seq<JsonView>, i: int)
    requires
        forall|j: int|
            0 <= j < items.len() ==> {
                &&& (#[trigger] items[j]).field("title"@) matches Some(JsonView::Text(_))
                &&& items[j].field("videoId"@) matches Some(JsonView::Text(_))
                &&& items[j].field("lengthSeconds"@) matches Some(JsonView::Number(n))
                &&& n.unsigned is Some
            },
        0 <= i < items.len(),
    ensures
        ({
            let given = invidious_videos(JsonView::List(items));
            &&& given is Some
            &&& given->0.len() == items.len()
            &&& items[i].field("title"@) == Some(JsonView::Text(given->0[i].title))
            &&& items[i].field("videoId"@) == Some(JsonView::Text(given->0[i].video_id))
            &&& items[i].field("lengthSeconds"@) matches Some(JsonView::Number(n))
            &&& n.unsigned == Some(given->0[i].length_seconds)
        }),
{
    let pick = |item: JsonView| invidious_video(item);
    assert forall|j: int| 0 <= j < items.len() implies pick(#[trigger] items[j]) is Some by {
        assert(items[j].field("title"@) is Some);
    }
    lemma_picked_of_all(items, pick);
    assert(pick(items[i]) == Some(picked(items, pick)[i]));
    law_item_is_its_three_fields(items[i], picked(items, pick)[i]);
}

/// The text of an answer gives the results of the list in it, and nothing where it holds
/// none.
pub proof fn law_text_gives_its_list(text: Seq<char>)
    ensures
        document(text) matches Some(JsonView::List(items)) ==> {
            &&& invidious_videos_of_text(text) is Some
            &&& invidious_videos_of_text(text) == invidious_videos(JsonView::List(items))
            &&& suggested_videos_of_text(text) is Some
            &&& suggested_videos_of_text(text) == suggested_videos(JsonView::List(items))
        },
        !(document(text) matches Some(JsonView::List(_))) ==> invidious_videos_of_text(text) is None
            && suggested_videos_of_text(text) is None,
{
}

/// A text among the suggestions makes a result with that title, no length and an empty id,
/// and anything else makes none. What comes after the list of suggestions has no say.
pub proof fn law_suggestion_alone(prefix: Seq<char>, item: JsonView, more: Seq<JsonView>)
    ensures
        ({
            let none = suggested_videos(
                JsonView::List(
                    seq![JsonView::Text(prefix), JsonView::List(Seq::empty())] + more,
                ),
            );
            let given = suggested_videos(
                JsonView::List(
                    seq![JsonView::Text(prefix), JsonView::List(seq![item])] + more,
                ),
            );
            &&& none == Some(Seq::<VideoView>::empty())
            &&& given is Some
            &&& item matches JsonView::Text(title) ==> given->0.len() == 1 && given->0[0].title
                == title && given->0[0].length_seconds == 0 && given->0[0].video_id.len() == 0
            &&& !(item is Text) ==> given->0.len() == 0
        }),
{
    let empty = seq![JsonView::Text(prefix), JsonView::List(Seq::empty())] + more;
    let one = seq![JsonView::Text(prefix), JsonView::List(seq![item])] + more;
    assert(empty[0] == JsonView::Text(prefix) && empty[1] == JsonView::List(Seq::empty()));
    assert(one[0] == JsonView::Text(prefix) && one[1] == JsonView::List(seq![item]));
    law_picked_of_one(item, |item: JsonView| suggested_video(item));
}

/// Suggestions are read one by one, and all of them; neither the prefix nor what comes after
/// their list has a say.
pub proof fn law_suggestions_of_parts(
    prefix: Seq<char>,
    other_prefix: Seq<char>,
    first: Seq<JsonView>,
    second: Seq<JsonView>,
    more: Seq<JsonView>,
)
    ensures
        ({
            let one = suggested_videos(
                JsonView::List(seq![JsonView::Text(other_prefix), JsonView::List(first)]),
            );
            let other = suggested_videos(
                JsonView::List(seq![JsonView::Text(other_prefix), JsonView::List(second)]),
            );
            let both = suggested_videos(
                JsonView::List(
                    seq![JsonView::Text(prefix), JsonView::List(first + second)] + more,
                ),
            );
            &&& one is Some
            &&& other is Some
            &&& both == Some(one->0 + other->0)
        }),
{
    let a = seq![JsonView::Text(other_prefix), JsonView::List(first)];
    let b = seq![JsonView::Text(other_prefix), JsonView::List(second)];
    let both = seq![JsonView::Text(prefix), JsonView::List(first + second)] + more;
    assert(a[0] is Text && a[1] == JsonView::List(first));
    assert(b[0] is Text && b[1] == JsonView::List(second));
    assert(both[0] is Text && both[1] == JsonView::List(first + second));
    law_picked_of_parts(first, second, |item: JsonView| suggested_video(item));
}

/// An answer that does not begin with a text and a list is read like that of a server.
pub proof fn law_answer_of_another_shape(answer: JsonView)
    requires
        !(answer is List && answer->List_0.len() > 1 && answer->List_0[0] is Text
            && answer->List_0[1] is List),
    ensures
        suggested_videos(answer) == invidious_videos(answer),
        !(answer is List) ==> invidious_videos(answer) is None,
{
}

impl Instance {
    /// The title, the video id and the length that an item of an Invidious answer holds.
    pub fn parse_youtube_item(value: &Json) -> (parts: Option<(String, String, u64)>)
        ensures
            match parts {
                Some((title, video_id, length_seconds)) => invidious_video(value@) == Some(
                    VideoView { title: title@, length_seconds, video_id: video_id@ },
                ),
                None => invidious_video(value@) is None,
            },
    {
        let title = match value.text_field("title") {
            Some(text) => text.to_owned(),
            None => return None,
        };
        let video_id = match value.text_field("videoId") {
            Some(text) => text.to_owned(),
            None => return None,
        };
        match value.unsigned_field("lengthSeconds") {
            Some(length_seconds) => Some((title, video_id, length_seconds)),
            None => None,
        }
    }
}

/// The results in an Invidious answer.
pub fn videos_in(answer: &Json) -> (videos: Option<Vec<YoutubeVideo>>)
    ensures
        match videos {
            Some(list) => invidious_videos(answer@) == Some(videos_view(list@)),
            None => invidious_videos(answer@) is None,
        },
{
    match answer.as_array() {
        Some(items) => {
            let ghost all = answer@->List_0;
            let ghost pick = |item: JsonView| invidious_video(item);
            let mut list: Vec<YoutubeVideo> = Vec::new();
            let mut i: usize = 0;
            assert(videos_view(list@) == picked(all.take(0), pick));
            while i < items.len()
                invariant
                    i <= items@.len() == all.len(),
                    *answer == Json::List(*items),
                    all == answer@->List_0,
                    pick == (|item: JsonView| invidious_video(item)),
                    videos_view(list@) == picked(all.take(i as int), pick),
                decreases items@.len() - i,
            {
                let ghost before = videos_view(list@);
                assert(all[i as int] == items@[i as int]@);
                assert(all.take(i + 1).drop_last() == all.take(i as int));
                if let Some((title, video_id, length_seconds)) = Instance::parse_youtube_item(
                    &items[i],
                ) {
                    let video = YoutubeVideo { title, length_seconds, video_id };
                    list.push(video);
                    assert(videos_view(list@) == before.push(video@));
                }
                i = i + 1;
            }
            assert(all.take(all.len() as int) == all);
            Some(list)
        },
        None => None,
    }
}

/// The result that a suggestion stands for.
fn parse_suggestion(item: &Json) -> (video: Option<YoutubeVideo>)
    ensures
        match video {
            Some(v) => suggested_video(item@) == Some(v@),
            None => suggested_video(item@) is None,
        },
{
    match item.as_str() {
        Some(text) => {
            let video = YoutubeVideo {
                title: text.to_owned(),
                length_seconds: 0,
                video_id: String::new(),
            };
            Some(video)
        },
        None => None,
    }
}

/// The results in a list of suggestions.
fn parse_suggestions(listed: &Json, items: &Vec<Json>) -> (list: Vec<YoutubeVideo>)
    requires
        *listed == Json::List(*items),
    ensures
        videos_view(list@) == picked(
            listed@->List_0,
            |item: JsonView| suggested_video(item),
        ),
{
    let ghost all = listed@->List_0;
    let ghost pick = |item: JsonView| suggested_video(item);
    let mut list: Vec<YoutubeVideo> = Vec::new();
    let mut i: usize = 0;
    assert(videos_view(list@) == picked(all.take(0), pick));
    while i < items.len()
        invariant
            i <= items@.len() == all.len(),
            *listed == Json::List(*items),
            all == listed@->List_0,
            pick == (|item: JsonView| suggested_video(item)),
            videos_view(list@) == picked(all.take(i as int), pick),
        decreases items@.len() - i,
    {
        let ghost before = videos_view(list@);
        assert(all[i as int] == items@[i as int]@);
        assert(all.take(i + 1).drop_last() == all.take(i as int));
        if let Some(video) = parse_suggestion(&items[i]) {
            list.push(video);
            assert(videos_view(list@) == before.push(video@));
        }
        i = i + 1;
    }
    assert(all.take(all.len() as int) == all);
    list
}

/// The results in an answer of the search autocomplete.
pub fn suggestions_in(answer: &Json) -> (videos: Option<Vec<YoutubeVideo>>)
    ensures
        match videos {
            Some(list) => suggested_videos(answer@) == Some(videos_view(list@)),
            None => suggested_videos(answer@) is None,
        },
{
    match answer.as_array() {
        Some(parts) => {
            if parts.len() > 1 {
                assert(answer@->List_0[0] == parts@[0]@);
                assert(answer@->List_0[1] == parts@[1]@);
                if parts[0].as_str().is_some() {
                    if let Some(items) = parts[1].as_array() {
                        return Some(parse_suggestions(&parts[1], items));
                    }
                }
            }
            videos_in(answer)
        },
        None => None,
    }
}

} // verus!
