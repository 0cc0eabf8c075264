use dash_mpd::addressing::{emit_representation, enter_level};
use dash_mpd::fragment::StreamKind;
use dash_mpd::base_url::AbsoluteUrl;
use dash_mpd::error::ErrorKind;
use dash_mpd::fragment::MediaFragment;
use dash_mpd::mpd::{
    AdaptationSet, BaseUrl, Initialization, Representation, SegmentBase, SegmentList,
    SegmentTemplate, SegmentTimeline, SegmentUrl, TimelineEntry,
};

const SECOND: u64 = 1_000_000_000;

fn base(text: &str) -> AbsoluteUrl {
    AbsoluteUrl::parse(text).unwrap()
}

fn urls(list: &[MediaFragment]) -> Vec<String> {
    list.iter().map(|f| f.url.as_str().to_string()).collect()
}

fn ranges(list: &[MediaFragment]) -> Vec<(Option<u64>, Option<u64>)> {
    list.iter().map(|f| (f.start_byte, f.end_byte)).collect()
}

fn representation(id: &str) -> Representation {
    Representation {
        id: Some(id.to_string()),
        ..Default::default()
    }
}

fn template(init: Option<&str>, media: Option<&str>) -> SegmentTemplate {
    SegmentTemplate {
        initialization: init.map(String::from),
        media: media.map(String::from),
        ..Default::default()
    }
}

fn entry(t: Option<u64>, d: u64, r: Option<i64>) -> TimelineEntry {
    TimelineEntry { t, d, r }
}

#[test]
fn template_with_duration_lists_the_segments_of_the_period() {
    let mut r = representation("a1");
    r.segment_template = Some(SegmentTemplate {
        duration: Some(2),
        timescale: Some(1),
        start_number: Some(1),
        ..template(Some("init-$RepresentationID$.mp4"), Some("seg-$Number$.m4s"))
    });
    let a = AdaptationSet { audio: true, ..Default::default() };
    let list =
        emit_representation(&a, &r, &base("http://h/"), 10 * SECOND, StreamKind::Audio)
            .unwrap();
    assert_eq!(
        urls(&list),
        vec![
            "http://h/init-a1.mp4",
            "http://h/seg-1.m4s",
            "http://h/seg-2.m4s",
            "http://h/seg-3.m4s",
            "http://h/seg-4.m4s",
            "http://h/seg-5.m4s",
        ]
    );
    assert!(ranges(&list).iter().all(|r| *r == (None, None)));
}

#[test]
fn template_of_the_adaptation_set_serves_its_representations() {
    let r = Representation { bandwidth: Some(64000), ..representation("v7") };
    let a = AdaptationSet {
        video: true,
        segment_template: Some(SegmentTemplate {
            duration: Some(180000),
            timescale: Some(90000),
            start_number: Some(10),
            ..template(
                Some("$RepresentationID$/$Bandwidth$/init.mp4"),
                Some("$RepresentationID$/$Number%04d$.m4s"),
            )
        }),
        ..Default::default()
    };
    let list =
        emit_representation(&a, &r, &base("http://h/x/"), 5 * SECOND, StreamKind::Video)
            .unwrap();
    assert_eq!(
        urls(&list),
        vec![
            "http://h/x/v7/64000/init.mp4",
            "http://h/x/v7/0010.m4s",
            "http://h/x/v7/0011.m4s",
            "http://h/x/v7/0012.m4s",
        ]
    );
}

#[test]
fn segment_count_is_rounded_up() {
    let count = |period_ns: u64, duration: u64, timescale: u64| {
        let mut r = representation("r");
        r.segment_template = Some(SegmentTemplate {
            duration: Some(duration),
            timescale: Some(timescale),
            ..template(Some("init"), Some("s$Number$"))
        });
        let list = emit_representation(
            &AdaptationSet::default(),
            &r,
            &base("http://h/"),
            period_ns,
            StreamKind::Video,
        )
        .unwrap();
        list.len() - 1
    };
    assert_eq!(count(10 * SECOND, 2, 1), 5);
    assert_eq!(count(10 * SECOND + 1, 2, 1), 6);
    assert_eq!(count(10 * SECOND, 3, 1), 4);
    assert_eq!(count(9 * SECOND, 3, 1), 3);
    assert_eq!(count(SECOND / 2, 48000, 48000), 1);
    assert_eq!(count(0, 2, 1), 0);
    assert_eq!(count(10 * SECOND, 2, 0), 0);
    assert_eq!(count(634_566_000_000, 360_360, 90_000), 159);
}

#[test]
fn representation_that_adds_nothing_is_refused() {
    let mut r = representation("r");
    r.segment_template =
        Some(SegmentTemplate { duration: Some(2), ..template(None, Some("s$Number$")) });
    let e = emit_representation(
        &AdaptationSet::default(),
        &r,
        &base("http://h/"),
        0,
        StreamKind::Video,
    )
    .unwrap_err();
    assert_eq!(e.kind(), ErrorKind::UnhandledMediaStream);
    assert_eq!(e.message(), "no usable addressing mode identified for video representation");
}

#[test]
fn inherited_duration_counts_seconds() {
    let mut r = representation("r");
    r.segment_template = Some(SegmentTemplate {
        timescale: Some(1000),
        ..template(None, Some("s$Number$"))
    });
    let a = AdaptationSet {
        segment_template: Some(SegmentTemplate { duration: Some(4), ..Default::default() }),
        ..Default::default()
    };
    let list =
        emit_representation(&a, &r, &base("http://h/"), 10 * SECOND, StreamKind::Audio)
            .unwrap();
    assert_eq!(urls(&list), vec!["http://h/s1", "http://h/s2", "http://h/s3"]);
}

#[test]
fn duration_of_nothing_gives_way_to_the_inherited_one() {
    let mut r = representation("r");
    r.segment_template = Some(SegmentTemplate {
        duration: Some(0),
        timescale: Some(1000),
        ..template(None, Some("s$Number$"))
    });
    let a = AdaptationSet {
        segment_template: Some(SegmentTemplate { duration: Some(5), ..Default::default() }),
        ..Default::default()
    };
    let list = emit_representation(&a, &r, &base("http://h/"), 10 * SECOND, StreamKind::Audio)
        .unwrap();
    assert_eq!(urls(&list), vec!["http://h/s1", "http://h/s2"]);
}

#[test]
fn template_without_duration_is_refused() {
    let mut r = representation("r");
    r.segment_template = Some(template(Some("i"), Some("s$Number$")));
    let e = emit_representation(
        &AdaptationSet::default(),
        &r,
        &base("http://h/"),
        10 * SECOND,
        StreamKind::Audio,
    )
    .unwrap_err();
    assert_eq!(e.kind(), ErrorKind::UnhandledMediaStream);
    assert_eq!(
        e.message(),
        "Audio representation is missing SegmentTemplate @duration attribute"
    );
    r.segment_template = Some(SegmentTemplate {
        duration: Some(0),
        ..template(Some("i"), Some("s$Number$"))
    });
    let e = emit_representation(
        &AdaptationSet::default(),
        &r,
        &base("http://h/"),
        10 * SECOND,
        StreamKind::Audio,
    )
    .unwrap_err();
    assert_eq!(e.kind(), ErrorKind::UnhandledMediaStream);
}

#[test]
fn numbers_beyond_64_bits_are_refused() {
    let mut r = representation("r");
    r.segment_template = Some(SegmentTemplate {
        duration: Some(1),
        timescale: Some(1),
        start_number: Some(u64::MAX - 1),
        ..template(None, Some("s$Number$"))
    });
    let a = AdaptationSet::default();
    let list =
        emit_representation(&a, &r, &base("http://h/"), 2 * SECOND, StreamKind::Audio)
            .unwrap();
    assert_eq!(
        urls(&list),
        vec!["http://h/s18446744073709551614", "http://h/s18446744073709551615"]
    );
    let e = emit_representation(&a, &r, &base("http://h/"), 3 * SECOND, StreamKind::Audio)
        .unwrap_err();
    assert_eq!(e.kind(), ErrorKind::UnhandledMediaStream);
}

fn timeline_representation(entries: Vec<TimelineEntry>, start: Option<u64>) -> Representation {
    let mut r = representation("r");
    r.segment_template = Some(SegmentTemplate {
        timescale: Some(1),
        start_number: start,
        segment_timeline: Some(SegmentTimeline { segments: entries }),
        ..template(Some("init"), Some("t$Time$-n$Number$"))
    });
    r
}

fn walk(entries: Vec<TimelineEntry>, start: Option<u64>, period_ns: u64) -> Vec<String> {
    let r = timeline_representation(entries, start);
    let list = emit_representation(
        &AdaptationSet::default(),
        &r,
        &base("http://h/"),
        period_ns,
        StreamKind::Video,
    )
    .unwrap();
    assert_eq!(list[0].url.as_str(), "http://h/init");
    urls(&list[1..])
}

#[test]
fn timeline_with_repeats() {
    assert_eq!(
        walk(vec![entry(None, 10, Some(2))], Some(5), 100 * SECOND),
        vec!["http://h/t0-n5", "http://h/t10-n6", "http://h/t20-n7"]
    );
}

#[test]
fn timeline_takes_up_where_the_entry_before_ended() {
    assert_eq!(
        walk(
            vec![entry(None, 10, Some(1)), entry(None, 5, None), entry(Some(100), 7, Some(1))],
            None,
            1000 * SECOND
        ),
        vec![
            "http://h/t0-n1",
            "http://h/t10-n2",
            "http://h/t20-n3",
            "http://h/t100-n4",
            "http://h/t107-n5",
        ]
    );
}

#[test]
fn timeline_starts_an_entry_at_its_own_time() {
    assert_eq!(
        walk(vec![entry(Some(50), 10, None), entry(None, 10, None)], None, 1000 * SECOND),
        vec!["http://h/t50-n1", "http://h/t60-n2"]
    );
}

#[test]
fn timeline_repeats_to_the_end_of_the_period() {
    assert_eq!(
        walk(vec![entry(None, 10, Some(-1))], None, 25 * SECOND),
        vec!["http://h/t0-n1", "http://h/t10-n2", "http://h/t20-n3", "http://h/t30-n4"]
    );
    assert_eq!(
        walk(vec![entry(Some(26), 10, Some(-1))], None, 25 * SECOND),
        vec!["http://h/t26-n1"]
    );
    assert_eq!(
        walk(vec![entry(Some(25), 10, Some(-1))], None, 25 * SECOND),
        vec!["http://h/t25-n1", "http://h/t35-n2"]
    );
}

#[test]
fn timeline_count_is_one_per_entry_and_one_per_repeat() {
    let entries = vec![
        entry(None, 3, Some(4)),
        entry(None, 3, None),
        entry(Some(90), 1, Some(0)),
        entry(None, 2, Some(7)),
    ];
    assert_eq!(walk(entries, None, SECOND).len(), 5 + 1 + 1 + 8);
}

#[test]
fn timeline_without_media_is_refused() {
    let mut r = representation("r");
    r.segment_template = Some(SegmentTemplate {
        segment_timeline: Some(SegmentTimeline { segments: vec![entry(None, 1, None)] }),
        ..template(Some("init"), None)
    });
    let e = emit_representation(
        &AdaptationSet::default(),
        &r,
        &base("http://h/"),
        SECOND,
        StreamKind::Audio,
    )
    .unwrap_err();
    assert_eq!(e.kind(), ErrorKind::UnhandledMediaStream);
    assert_eq!(e.message(), "SegmentTimeline without a media attribute");
}

#[test]
fn timeline_that_cannot_be_walked_is_refused() {
    for entries in [
        vec![entry(None, 0, Some(-1))],
        vec![entry(Some(u64::MAX), 1, Some(1))],
        vec![entry(Some(u64::MAX), 1, None), entry(None, 1, None)],
    ] {
        let r = timeline_representation(entries, None);
        let e = emit_representation(
            &AdaptationSet::default(),
            &r,
            &base("http://h/"),
            SECOND,
            StreamKind::Audio,
        )
        .unwrap_err();
        assert_eq!(e.kind(), ErrorKind::UnhandledMediaStream);
        assert_eq!(e.message(), "SegmentTemplate with more segments than can be numbered");
    }
    assert_eq!(
        walk(vec![entry(Some(u64::MAX), 1, None), entry(Some(3), 1, None)], None, SECOND),
        vec!["http://h/t18446744073709551615-n1", "http://h/t3-n2"]
    );
}

fn segment(media: Option<&str>, range: Option<&str>) -> SegmentUrl {
    SegmentUrl { media: media.map(String::from), media_range: range.map(String::from) }
}

#[test]
fn segment_list_gives_initialization_then_segments() {
    let mut r = representation("r1");
    r.segment_list = Some(SegmentList {
        initialization: Some(Initialization {
            source_url: Some("$RepresentationID$/init.mp4".to_string()),
            range: Some("0-862".to_string()),
        }),
        segment_urls: vec![
            segment(Some("s1.m4s"), Some("863-1000")),
            segment(Some("http://other/s2.m4s"), None),
            segment(None, None),
        ],
    });
    let list = emit_representation(
        &AdaptationSet::default(),
        &r,
        &base("http://h/a/"),
        0,
        StreamKind::Video,
    )
    .unwrap();
    assert_eq!(
        urls(&list),
        vec!["http://h/a/r1/init.mp4", "http://h/a/s1.m4s", "http://other/s2.m4s"]
    );
    assert_eq!(
        ranges(&list),
        vec![(Some(0), Some(862)), (Some(863), Some(1000)), (None, None)]
    );
}

#[test]
fn segment_list_falls_back_on_the_base_url() {
    let mut r = representation("r1");
    r.base_urls = vec![BaseUrl { base: "media.mp4".to_string() }];
    r.segment_list = Some(SegmentList {
        initialization: Some(Initialization { source_url: None, range: Some("0-9".to_string()) }),
        segment_urls: vec![segment(None, Some("10-19")), segment(None, Some("20-29"))],
    });
    let list = emit_representation(
        &AdaptationSet::default(),
        &r,
        &base("http://h/a/"),
        0,
        StreamKind::Video,
    )
    .unwrap();
    assert_eq!(
        urls(&list),
        vec!["http://h/a/media.mp4", "http://h/a/media.mp4", "http://h/a/media.mp4"]
    );
    assert_eq!(
        ranges(&list),
        vec![(Some(0), Some(9)), (Some(10), Some(19)), (Some(20), Some(29))]
    );
}

#[test]
fn segment_lists_of_both_levels_are_listed() {
    let mut r = representation("r1");
    r.segment_list =
        Some(SegmentList { initialization: None, segment_urls: vec![segment(Some("r"), None)] });
    let a = AdaptationSet {
        segment_list: Some(SegmentList {
            initialization: None,
            segment_urls: vec![segment(Some("a"), None)],
        }),
        ..Default::default()
    };
    let list =
        emit_representation(&a, &r, &base("http://h/"), 0, StreamKind::Audio).unwrap();
    assert_eq!(urls(&list), vec!["http://h/a", "http://h/r"]);
}

#[test]
fn malformed_range_is_a_parsing_error() {
    let mut r = representation("r1");
    r.segment_list = Some(SegmentList {
        initialization: None,
        segment_urls: vec![segment(Some("s"), Some("12"))],
    });
    let e = emit_representation(
        &AdaptationSet::default(),
        &r,
        &base("http://h/"),
        0,
        StreamKind::Audio,
    )
    .unwrap_err();
    assert_eq!(e.kind(), ErrorKind::Parsing);
    assert_eq!(e.message(), "invalid range specifier: 12");
}

#[test]
fn segment_base_gives_initialization_then_the_whole_resource() {
    let mut r = representation("r1");
    r.base_urls = vec![BaseUrl { base: "v.mp4".to_string() }];
    r.segment_base = Some(SegmentBase {
        initialization: Some(Initialization {
            source_url: Some("init.mp4".to_string()),
            range: Some("0-99".to_string()),
        }),
        index_range: Some("100-199".to_string()),
    });
    let list = emit_representation(
        &AdaptationSet::default(),
        &r,
        &base("http://h/a/"),
        0,
        StreamKind::Video,
    )
    .unwrap();
    assert_eq!(urls(&list), vec!["http://h/a/init.mp4", "http://h/a/v.mp4"]);
    assert_eq!(ranges(&list), vec![(Some(0), Some(99)), (None, None)]);
    r.segment_base =
        Some(SegmentBase { initialization: None, index_range: Some("100-199".to_string()) });
    let list = emit_representation(
        &AdaptationSet::default(),
        &r,
        &base("http://h/a/"),
        0,
        StreamKind::Video,
    )
    .unwrap();
    assert_eq!(urls(&list), vec!["http://h/a/v.mp4"]);
}

#[test]
fn base_url_alone_is_the_last_resort() {
    let mut r = representation("r1");
    r.base_urls = vec![BaseUrl { base: "whole.webm".to_string() }];
    let a = AdaptationSet::default();
    let list =
        emit_representation(&a, &r, &base("http://h/a/"), 0, StreamKind::Video).unwrap();
    assert_eq!(urls(&list), vec!["http://h/a/whole.webm"]);
    assert_eq!(ranges(&list), vec![(None, None)]);
    let shared = AdaptationSet {
        segment_list: Some(SegmentList {
            initialization: None,
            segment_urls: vec![segment(Some("listed"), None)],
        }),
        ..Default::default()
    };
    let list =
        emit_representation(&shared, &r, &base("http://h/a/"), 0, StreamKind::Video).unwrap();
    assert_eq!(urls(&list), vec!["http://h/a/listed"]);
}

#[test]
fn no_addressing_mode_is_an_error() {
    let r = representation("r1");
    let a = AdaptationSet::default();
    let e = emit_representation(&a, &r, &base("http://h/"), 0, StreamKind::Audio)
        .unwrap_err();
    assert_eq!(e.kind(), ErrorKind::UnhandledMediaStream);
    assert_eq!(e.message(), "no usable addressing mode identified for audio representation");
    let e = emit_representation(&a, &r, &base("http://h/"), 0, StreamKind::Video)
        .unwrap_err();
    assert_eq!(e.message(), "no usable addressing mode identified for video representation");
}

#[test]
fn representation_without_id_is_refused() {
    let mut r = Representation::default();
    r.base_urls = vec![BaseUrl { base: "whole.webm".to_string() }];
    let e = emit_representation(
        &AdaptationSet::default(),
        &r,
        &base("http://h/"),
        0,
        StreamKind::Audio,
    )
    .unwrap_err();
    assert_eq!(e.kind(), ErrorKind::UnhandledMediaStream);
    assert_eq!(e.message(), "Missing @id on Representation node");
}

#[test]
fn base_urls_are_absolute_or_joined() {
    let b = base("http://h/a/b.mpd");
    let none: Vec<BaseUrl> = vec![];
    assert_eq!(enter_level(&b, &none, "x").unwrap().as_str(), "http://h/a/b.mpd");
    let rel = vec![BaseUrl { base: "c/".to_string() }, BaseUrl { base: "ignored/".to_string() }];
    assert_eq!(enter_level(&b, &rel, "x").unwrap().as_str(), "http://h/a/c/");
    let abs = vec![BaseUrl { base: "https://cdn/v/".to_string() }];
    assert_eq!(enter_level(&b, &abs, "x").unwrap().as_str(), "https://cdn/v/");
    let bad = vec![BaseUrl { base: "http://[::1".to_string() }];
    let e = enter_level(&b, &bad, "resolving BaseURL").unwrap_err();
    assert_eq!(e.kind(), ErrorKind::Parsing);
    assert!(e.message().starts_with("resolving BaseURL: "));
}

#[test]
fn every_fragment_has_an_absolute_url() {
    let mut r = representation("r1");
    r.base_urls = vec![BaseUrl { base: "../up/".to_string() }];
    r.segment_list = Some(SegmentList {
        initialization: Some(Initialization { source_url: Some("i".to_string()), range: None }),
        segment_urls: vec![segment(Some("?q=1"), None), segment(Some("/root"), None)],
    });
    let list = emit_representation(
        &AdaptationSet::default(),
        &r,
        &base("http://h/a/b/"),
        0,
        StreamKind::Video,
    )
    .unwrap();
    assert_eq!(urls(&list), vec!["http://h/a/up/i", "http://h/a/up/?q=1", "http://h/root"]);
    for f in &list {
        assert_eq!(AbsoluteUrl::parse(f.url.as_str()).unwrap().as_str(), f.url.as_str());
    }
}
