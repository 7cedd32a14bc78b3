use invidious::annotate::{
    annotate_lyrics_availability, FilterSlots, HAS_LYRICS_MARK, MAX_FILTER_CONCURRENCY, NO_LYRICS_MARK,
};
use invidious::video::YoutubeVideo;

fn video(title: &str, length_seconds: u64, video_id: &str) -> YoutubeVideo {
    YoutubeVideo {
        title: title.to_owned(),
        length_seconds,
        video_id: video_id.to_owned(),
    }
}

#[test]
fn every_result_is_marked_and_kept() {
    let items = vec![
        (video("A", 1, "a"), Some(true)),
        (video("B", 2, "b"), Some(false)),
        (video("C", 3, "c"), None),
        (video("", 4, "d"), Some(true)),
    ];
    let (videos, count) = annotate_lyrics_availability(items);
    assert_eq!(
        videos,
        vec![
            video("\u{f00c} A", 1, "a"),
            video("\u{f073a} B", 2, "b"),
            video("\u{f073a} C", 3, "c"),
            video("\u{f00c} ", 4, "d"),
        ]
    );
    assert_eq!(count, 2);
    assert_eq!(annotate_lyrics_availability(vec![]), (vec![], 0));
}

#[test]
fn marks_can_be_taken_off() {
    let (videos, count) = annotate_lyrics_availability(vec![
        (video("ä b", 1, "a"), Some(true)),
        (video("c", 1, "b"), Some(false)),
    ]);
    let bare: Vec<String> = videos.iter().map(|v| v.title.chars().skip(2).collect()).collect();
    assert_eq!(bare, vec!["ä b", "c"]);
    let with_mark = videos
        .iter()
        .filter(|v| v.title.starts_with(HAS_LYRICS_MARK))
        .count();
    assert_eq!(with_mark, count);
    assert!(videos[1].title.starts_with(NO_LYRICS_MARK));
}

#[test]
fn no_more_than_six_lookups_run() {
    assert_eq!(MAX_FILTER_CONCURRENCY, 6);
    let mut slots = FilterSlots::new();
    for i in 0..6 {
        assert_eq!(slots.in_flight(), i);
        assert!(slots.try_enter());
    }
    assert!(!slots.try_enter());
    assert_eq!(slots.in_flight(), 6);
    slots.leave();
    assert_eq!(slots.in_flight(), 5);
    assert!(slots.try_enter());
    assert!(!slots.try_enter());
}
