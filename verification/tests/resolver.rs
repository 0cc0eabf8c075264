use dash_mpd::base_url::AbsoluteUrl;
use dash_mpd::error::ErrorKind;
use dash_mpd::fragment::MediaFragment;
use dash_mpd::mpd::{
    AdaptationSet, BaseUrl, Mpd, Period, Representation, SegmentTemplate,
};
use dash_mpd::resolver::{resolve_manifest, FragmentLists, Step};
use dash_mpd::select::{Preferences, QualityPreference};
use dash_mpd::xlink::{XlinkEntry, XlinkLevel, XlinkNode};

const SECOND: u64 = 1_000_000_000;

fn manifest_url() -> AbsoluteUrl {
    AbsoluteUrl::parse("http://origin/dir/manifest.mpd").unwrap()
}

fn preferences() -> Preferences {
    Preferences {
        quality: QualityPreference::Lowest,
        language: None,
        fetch_audio: true,
        fetch_video: true,
    }
}

fn urls(list: &[MediaFragment]) -> Vec<String> {
    list.iter().map(|f| f.url.as_str().to_string()).collect()
}

fn whole(id: &str, bandwidth: Option<u64>, file: &str) -> Representation {
    Representation {
        id: Some(id.to_string()),
        bandwidth,
        base_urls: vec![BaseUrl { base: file.to_string() }],
        ..Default::default()
    }
}

fn audio_set(lang: Option<&str>, representations: Vec<Representation>) -> AdaptationSet {
    AdaptationSet {
        lang: lang.map(String::from),
        audio: true,
        representations,
        ..Default::default()
    }
}

fn video_set(representations: Vec<Representation>) -> AdaptationSet {
    AdaptationSet { video: true, representations, ..Default::default() }
}

fn ready(
    mpd: &Mpd,
    preferences: &Preferences,
    store: &Vec<XlinkEntry>,
) -> FragmentLists {
    match resolve_manifest(mpd, preferences, &manifest_url(), store).unwrap() {
        Step::Done(lists) => lists,
        Step::Fetch(request) => panic!("unexpected request for {}", request.url.as_str()),
    }
}

#[test]
fn template_with_duration_under_the_base_url_of_the_manifest() {
    let mut r = Representation { id: Some("a1".to_string()), ..Default::default() };
    r.segment_template = Some(SegmentTemplate {
        initialization: Some("init-$RepresentationID$.mp4".to_string()),
        media: Some("seg-$Number$.m4s".to_string()),
        duration: Some(2),
        timescale: Some(1),
        start_number: Some(1),
        segment_timeline: None,
    });
    let mpd = Mpd {
        media_presentation_duration: Some(10 * SECOND),
        base_urls: vec![BaseUrl { base: "http://h/".to_string() }],
        periods: vec![Period { adaptations: vec![audio_set(None, vec![r])], ..Default::default() }],
        ..Default::default()
    };
    let lists = ready(&mpd, &preferences(), &vec![]);
    assert_eq!(
        urls(&lists.audio),
        vec![
            "http://h/init-a1.mp4",
            "http://h/seg-1.m4s",
            "http://h/seg-2.m4s",
            "http://h/seg-3.m4s",
            "http://h/seg-4.m4s",
            "http://h/seg-5.m4s",
        ]
    );
    assert!(lists.video.is_empty());
}

#[test]
fn duration_of_the_period_goes_before_that_of_the_presentation() {
    let mut r = Representation { id: Some("a1".to_string()), ..Default::default() };
    r.segment_template = Some(SegmentTemplate {
        media: Some("seg-$Number$.m4s".to_string()),
        duration: Some(2),
        ..Default::default()
    });
    let mpd = Mpd {
        media_presentation_duration: Some(10 * SECOND),
        periods: vec![Period {
            duration: Some(3 * SECOND),
            adaptations: vec![video_set(vec![r])],
            ..Default::default()
        }],
        ..Default::default()
    };
    let lists = ready(&mpd, &preferences(), &vec![]);
    assert_eq!(
        urls(&lists.video),
        vec!["http://origin/dir/seg-1.m4s", "http://origin/dir/seg-2.m4s"]
    );
}

fn two_languages() -> Mpd {
    Mpd {
        periods: vec![Period {
            adaptations: vec![
                audio_set(Some("fr"), vec![whole("f", None, "fr.mp4")]),
                audio_set(Some("en-GB"), vec![whole("g", None, "en-gb.mp4")]),
                audio_set(Some("en-US"), vec![whole("u", None, "en-us.mp4")]),
                audio_set(None, vec![whole("n", None, "none.mp4")]),
            ],
            ..Default::default()
        }],
        ..Default::default()
    }
}

#[test]
fn language_preference_picks_closest() {
    let mut mpd = two_languages();
    mpd.periods[0].adaptations.truncate(2);
    mpd.periods[0].adaptations.swap(0, 1);
    let p = Preferences { language: Some("en-US".to_string()), ..preferences() };
    assert_eq!(urls(&ready(&mpd, &p, &vec![]).audio), vec!["http://origin/dir/en-gb.mp4"]);
}

#[test]
fn language_preference_takes_the_same_language_first() {
    let mpd = two_languages();
    let p = Preferences { language: Some("en-US".to_string()), ..preferences() };
    assert_eq!(urls(&ready(&mpd, &p, &vec![]).audio), vec!["http://origin/dir/en-us.mp4"]);
    let p = Preferences { language: Some("en-AU".to_string()), ..preferences() };
    assert_eq!(urls(&ready(&mpd, &p, &vec![]).audio), vec!["http://origin/dir/en-gb.mp4"]);
    let p = Preferences { language: Some("de".to_string()), ..preferences() };
    assert_eq!(urls(&ready(&mpd, &p, &vec![]).audio), vec!["http://origin/dir/fr.mp4"]);
    assert_eq!(urls(&ready(&mpd, &preferences(), &vec![]).audio), vec!["http://origin/dir/fr.mp4"]);
}

fn qualities() -> Mpd {
    Mpd {
        periods: vec![Period {
            adaptations: vec![video_set(vec![
                whole("a", Some(500), "500a.mp4"),
                whole("b", Some(100), "100b.mp4"),
                whole("c", None, "none.mp4"),
                whole("d", Some(100), "100d.mp4"),
                whole("e", Some(900), "900e.mp4"),
                whole("f", Some(900), "900f.mp4"),
            ])],
            ..Default::default()
        }],
        ..Default::default()
    }
}

#[test]
fn quality_preference_picks_by_bandwidth() {
    let mpd = qualities();
    assert_eq!(
        urls(&ready(&mpd, &preferences(), &vec![]).video),
        vec!["http://origin/dir/100b.mp4"]
    );
    let p = Preferences { quality: QualityPreference::Highest, ..preferences() };
    assert_eq!(urls(&ready(&mpd, &p, &vec![]).video), vec!["http://origin/dir/900f.mp4"]);
}

#[test]
fn bandwidth_that_is_not_given_counts_as_a_thousand_million_or_as_nothing() {
    let mut mpd = qualities();
    mpd.periods[0].adaptations[0].representations =
        vec![whole("c", None, "none.mp4"), whole("x", Some(2_000_000_000), "big.mp4")];
    assert_eq!(
        urls(&ready(&mpd, &preferences(), &vec![]).video),
        vec!["http://origin/dir/none.mp4"]
    );
    mpd.periods[0].adaptations[0].representations =
        vec![whole("z", Some(0), "zero.mp4"), whole("c", None, "none.mp4")];
    let p = Preferences { quality: QualityPreference::Highest, ..preferences() };
    assert_eq!(urls(&ready(&mpd, &p, &vec![]).video), vec!["http://origin/dir/none.mp4"]);
}

#[test]
fn streams_that_are_not_asked_for_are_left_out() {
    let mpd = Mpd {
        periods: vec![Period {
            adaptations: vec![
                audio_set(None, vec![whole("a", None, "a.mp4")]),
                video_set(vec![whole("v", None, "v.mp4")]),
            ],
            ..Default::default()
        }],
        ..Default::default()
    };
    let both = ready(&mpd, &preferences(), &vec![]);
    assert_eq!(urls(&both.audio), vec!["http://origin/dir/a.mp4"]);
    assert_eq!(urls(&both.video), vec!["http://origin/dir/v.mp4"]);
    let p = Preferences { fetch_audio: false, ..preferences() };
    let video_only = ready(&mpd, &p, &vec![]);
    assert!(video_only.audio.is_empty());
    assert_eq!(urls(&video_only.video), vec!["http://origin/dir/v.mp4"]);
    let p = Preferences { fetch_video: false, ..preferences() };
    let audio_only = ready(&mpd, &p, &vec![]);
    assert!(audio_only.video.is_empty());
    assert_eq!(urls(&audio_only.audio), vec!["http://origin/dir/a.mp4"]);
}

#[test]
fn dynamic_manifest_is_refused() {
    let mpd = Mpd { mpdtype: Some("dynamic".to_string()), ..Default::default() };
    let e = resolve_manifest(&mpd, &preferences(), &manifest_url(), &vec![]).unwrap_err();
    assert_eq!(e.kind(), ErrorKind::UnhandledMediaStream);
    assert_eq!(e.message(), "Don't know how to download dynamic MPD");
    let mpd = Mpd { mpdtype: Some("static".to_string()), ..Default::default() };
    let lists = ready(&mpd, &preferences(), &vec![]);
    assert!(lists.audio.is_empty() && lists.video.is_empty());
}

#[test]
fn video_set_without_representation_is_refused() {
    let mpd = Mpd {
        periods: vec![Period { adaptations: vec![video_set(vec![])], ..Default::default() }],
        ..Default::default()
    };
    let e = resolve_manifest(&mpd, &preferences(), &manifest_url(), &vec![]).unwrap_err();
    assert_eq!(e.kind(), ErrorKind::UnhandledMediaStream);
    assert_eq!(e.message(), "Couldn't find lowest bandwidth video stream in DASH manifest");
    let mpd = Mpd {
        periods: vec![Period { adaptations: vec![audio_set(None, vec![])], ..Default::default() }],
        ..Default::default()
    };
    let lists = ready(&mpd, &preferences(), &vec![]);
    assert!(lists.audio.is_empty());
}

#[test]
fn period_that_resolves_to_zero_gives_no_fragment() {
    let period = |href: Option<&str>, file: &str| Period {
        href: href.map(String::from),
        adaptations: vec![video_set(vec![whole("v", None, file)])],
        ..Default::default()
    };
    let mpd = Mpd {
        periods: vec![period(Some("urn:mpeg:dash:resolve-to-zero:2013"), "gone.mp4")],
        ..Default::default()
    };
    let lists = ready(&mpd, &preferences(), &vec![]);
    assert!(lists.audio.is_empty() && lists.video.is_empty());
    let mpd = Mpd {
        periods: vec![
            period(Some("urn:mpeg:dash:resolve-to-zero:2013"), "gone.mp4"),
            period(Some(""), "empty.mp4"),
            period(None, "kept.mp4"),
        ],
        ..Default::default()
    };
    assert_eq!(
        urls(&ready(&mpd, &preferences(), &vec![]).video),
        vec!["http://origin/dir/kept.mp4"]
    );
}

#[test]
fn remote_period_is_asked_for_and_then_takes_the_place_of_its_host() {
    let mpd = Mpd {
        base_urls: vec![BaseUrl { base: "http://cdn/base/".to_string() }],
        periods: vec![Period {
            href: Some("ads/period.xml".to_string()),
            adaptations: vec![video_set(vec![whole("v", None, "host.mp4")])],
            ..Default::default()
        }],
        ..Default::default()
    };
    let mut store: Vec<XlinkEntry> = vec![];
    let request = match resolve_manifest(&mpd, &preferences(), &manifest_url(), &store).unwrap() {
        Step::Fetch(request) => request,
        Step::Done(_) => panic!("the period should have been asked for"),
    };
    assert_eq!(request.url.as_str(), "http://origin/dir/ads/period.xml");
    assert_eq!(request.level, XlinkLevel::Period);
    store.push(XlinkEntry {
        url: "http://origin/dir/ads/period.xml".to_string(),
        node: XlinkNode::AdaptationSet(video_set(vec![whole("w", None, "wrong-kind.mp4")])),
    });
    assert!(matches!(
        resolve_manifest(&mpd, &preferences(), &manifest_url(), &store).unwrap(),
        Step::Fetch(_)
    ));
    store.push(XlinkEntry {
        url: request.url.as_str().to_string(),
        node: XlinkNode::Period(Period {
            adaptations: vec![video_set(vec![whole("r", None, "remote.mp4")])],
            ..Default::default()
        }),
    });
    assert_eq!(
        urls(&ready(&mpd, &preferences(), &store).video),
        vec!["http://cdn/base/remote.mp4"]
    );
}

#[test]
fn remote_adaptation_sets_and_representations_are_asked_for_in_order() {
    let linked = |href: &str| Representation {
        href: Some(href.to_string()),
        ..whole("host", Some(1), "host.mp4")
    };
    let mpd = Mpd {
        periods: vec![Period {
            adaptations: vec![
                AdaptationSet {
                    href: Some("http://far/audio.xml".to_string()),
                    ..audio_set(None, vec![whole("h", None, "host-audio.mp4")])
                },
                video_set(vec![
                    linked("r1.xml"),
                    Representation {
                        href: Some("urn:mpeg:dash:resolve-to-zero:2013".to_string()),
                        ..whole("zero", Some(1), "never.mp4")
                    },
                    whole("plain", Some(50), "plain.mp4"),
                    linked("r2.xml"),
                ]),
            ],
            ..Default::default()
        }],
        ..Default::default()
    };
    let mut store: Vec<XlinkEntry> = vec![];
    let mut asked: Vec<(String, XlinkLevel)> = vec![];
    let lists = loop {
        match resolve_manifest(&mpd, &preferences(), &manifest_url(), &store).unwrap() {
            Step::Done(lists) => break lists,
            Step::Fetch(request) => {
                let url = request.url.as_str().to_string();
                let node = match request.level {
                    XlinkLevel::AdaptationSet => XlinkNode::AdaptationSet(audio_set(
                        None,
                        vec![whole("ra", None, "remote-audio.mp4")],
                    )),
                    XlinkLevel::Representation if url.ends_with("r1.xml") => {
                        XlinkNode::Representation(whole("r1", Some(70), "r1.mp4"))
                    }
                    XlinkLevel::Representation => {
                        XlinkNode::Representation(whole("r2", Some(20), "r2.mp4"))
                    }
                    XlinkLevel::Period => panic!("no period was linked"),
                };
                asked.push((url.clone(), request.level));
                store.push(XlinkEntry { url, node });
            }
        }
    };
    assert_eq!(
        asked,
        vec![
            ("http://far/audio.xml".to_string(), XlinkLevel::AdaptationSet),
            ("http://origin/dir/r1.xml".to_string(), XlinkLevel::Representation),
            ("http://origin/dir/r2.xml".to_string(), XlinkLevel::Representation),
        ]
    );
    assert_eq!(urls(&lists.audio), vec!["http://origin/dir/remote-audio.mp4"]);
    assert_eq!(urls(&lists.video), vec!["http://origin/dir/r2.mp4"]);
}

#[test]
fn reference_that_is_no_url_is_a_parsing_error() {
    let mpd = Mpd {
        periods: vec![Period { href: Some("http://[::1".to_string()), ..Default::default() }],
        ..Default::default()
    };
    let e = resolve_manifest(&mpd, &preferences(), &manifest_url(), &vec![]).unwrap_err();
    assert_eq!(e.kind(), ErrorKind::Parsing);
}

fn branching(audio_base: &str, audio_file_base: &str) -> Mpd {
    Mpd {
        base_urls: vec![BaseUrl { base: "http://top/".to_string() }],
        periods: vec![Period {
            base_urls: vec![BaseUrl { base: "period/".to_string() }],
            adaptations: vec![
                AdaptationSet {
                    base_urls: vec![BaseUrl { base: audio_base.to_string() }],
                    ..audio_set(None, vec![whole("a", None, audio_file_base)])
                },
                AdaptationSet {
                    base_urls: vec![BaseUrl { base: "video/".to_string() }],
                    ..video_set(vec![whole("v", None, "v.mp4")])
                },
            ],
            ..Default::default()
        }],
        ..Default::default()
    }
}

#[test]
fn base_urls_of_one_stream_do_not_reach_the_other() {
    let first = ready(&branching("audio/", "a.mp4"), &preferences(), &vec![]);
    let second = ready(&branching("http://elsewhere/x/", "../b.mp4"), &preferences(), &vec![]);
    assert_eq!(urls(&first.audio), vec!["http://top/period/audio/a.mp4"]);
    assert_eq!(urls(&second.audio), vec!["http://elsewhere/b.mp4"]);
    assert_eq!(urls(&first.video), vec!["http://top/period/video/v.mp4"]);
    assert_eq!(urls(&first.video), urls(&second.video));
}

#[test]
fn resolving_again_gives_the_same_lists() {
    let mpd = branching("audio/", "a.mp4");
    let first = ready(&mpd, &preferences(), &vec![]);
    let second = ready(&mpd, &preferences(), &vec![]);
    assert_eq!(urls(&first.audio), urls(&second.audio));
    assert_eq!(urls(&first.video), urls(&second.video));
}

#[test]
fn periods_add_to_the_streams_in_order() {
    let period = |file: &str| Period {
        adaptations: vec![video_set(vec![Representation {
            segment_base: Some(Default::default()),
            ..whole("v", None, file)
        }])],
        ..Default::default()
    };
    let mpd = Mpd { periods: vec![period("one.mp4"), period("two.mp4")], ..Default::default() };
    assert_eq!(
        urls(&ready(&mpd, &preferences(), &vec![]).video),
        vec!["http://origin/dir/one.mp4", "http://origin/dir/two.mp4"]
    );
    let mpd = Mpd {
        periods: vec![
            Period {
                adaptations: vec![video_set(vec![whole("v", None, "one.mp4")])],
                ..Default::default()
            },
            Period {
                adaptations: vec![video_set(vec![whole("v", None, "two.mp4")])],
                ..Default::default()
            },
        ],
        ..Default::default()
    };
    assert_eq!(
        urls(&ready(&mpd, &preferences(), &vec![]).video),
        vec!["http://origin/dir/one.mp4", "http://origin/dir/two.mp4"]
    );
}
