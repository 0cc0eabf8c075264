use dash_mpd::fragment::StreamKind;
use dash_mpd::base_url::AbsoluteUrl;
use dash_mpd::error::ErrorKind;
use dash_mpd::fragment::MediaFragment;
use dash_mpd::range::parse_range;
use dash_mpd::transfer::{
    categorize_reqwest_error, content_type_audio_p, content_type_video_p, fetching_message,
    fragment_request_headers, judge_response, manifest_request_headers, plan_assembly,
    progress_percent, range_header, reqwest_error_transient_p, Assembly, CauseFault, Header,
    Milestone, RetryAdvice, Session, TransportFault, Verdict,
};

fn pairs(headers: &[Header]) -> Vec<(String, String)> {
    headers.iter().map(|h| (h.name.clone(), h.value.clone())).collect()
}

fn pair(name: &str, value: &str) -> (String, String) {
    (name.to_string(), value.to_string())
}

fn fragment(url: &str, start: Option<u64>, end: Option<u64>) -> MediaFragment {
    MediaFragment { url: AbsoluteUrl::parse(url).unwrap(), start_byte: start, end_byte: end }
}

fn quiet() -> TransportFault {
    TransportFault {
        timeout: false,
        connect: false,
        request: false,
        body: false,
        cause: None,
        status: None,
    }
}

#[test]
fn manifest_requests_ask_for_dash_xml() {
    assert_eq!(
        pairs(&manifest_request_headers()),
        vec![
            pair("Accept", "application/dash+xml,video/vnd.mpeg.dash.mpd"),
            pair("Accept-Language", "en-US,en"),
            pair("Sec-Fetch-Mode", "navigate"),
        ]
    );
}

#[test]
fn fragment_requests_carry_a_range_where_both_bounds_are_given() {
    let manifest = AbsoluteUrl::parse("http://origin/m.mpd").unwrap();
    let f = fragment("http://h/s1", Some(45), Some(67));
    assert_eq!(range_header(&f).unwrap(), "bytes=45-67");
    assert_eq!(
        pairs(&fragment_request_headers(&f, StreamKind::Audio, &manifest)),
        vec![
            pair("Accept", "audio/*;q=0.9,*/*;q=0.5"),
            pair("Referer", "http://origin/m.mpd"),
            pair("Sec-Fetch-Mode", "navigate"),
            pair("Range", "bytes=45-67"),
        ]
    );
    for f in [
        fragment("http://h/s1", None, None),
        fragment("http://h/s1", Some(1), None),
        fragment("http://h/s1", None, Some(2)),
    ] {
        assert_eq!(range_header(&f), None);
        assert_eq!(
            pairs(&fragment_request_headers(&f, StreamKind::Video, &manifest)),
            vec![
                pair("Accept", "video/*"),
                pair("Referer", "http://origin/m.mpd"),
                pair("Sec-Fetch-Mode", "navigate"),
            ]
        );
    }
    let f = fragment("http://h/s1", Some(0), Some(u64::MAX));
    assert_eq!(range_header(&f).unwrap(), "bytes=0-18446744073709551615");
}

#[test]
fn content_types_of_audio_and_video() {
    let audio = |ct: &str| content_type_audio_p(Some(ct.as_bytes()));
    let video = |ct: &str| content_type_video_p(Some(ct.as_bytes()));
    assert!(audio("audio/mp4"));
    assert!(audio("video/mp4"));
    assert!(audio("application/octet-stream"));
    assert!(audio("application/octet-stream; charset=binary"));
    assert!(!audio("text/html"));
    assert!(!audio("audio"));
    assert!(!audio(" audio/mp4"));
    assert!(!audio(""));
    assert!(!content_type_audio_p(None));
    assert!(video("video/webm"));
    assert!(video("application/octet-stream"));
    assert!(!video("audio/mp4"));
    assert!(!video("Video/mp4"));
    assert!(!content_type_video_p(None));
    assert!(!content_type_video_p(Some(&[0xff, 0xfe])));
}

#[test]
fn verdicts_on_responses() {
    let mp4 = Some("video/mp4".as_bytes());
    let html = Some("text/html".as_bytes());
    let m4a = Some("audio/mp4".as_bytes());
    assert_eq!(judge_response(StreamKind::Video, true, true, mp4), Verdict::Write);
    assert_eq!(judge_response(StreamKind::Video, true, true, m4a), Verdict::Skip);
    assert_eq!(judge_response(StreamKind::Audio, true, true, mp4), Verdict::Write);
    assert_eq!(judge_response(StreamKind::Audio, true, true, html), Verdict::Skip);
    assert_eq!(judge_response(StreamKind::Audio, true, true, None), Verdict::Skip);
    assert_eq!(judge_response(StreamKind::Audio, false, true, html), Verdict::Write);
    assert_eq!(judge_response(StreamKind::Video, false, true, None), Verdict::Write);
    assert_eq!(judge_response(StreamKind::Video, false, false, mp4), Verdict::Failed);
    assert_eq!(judge_response(StreamKind::Video, true, false, mp4), Verdict::Failed);
}

#[test]
fn failures_that_may_pass() {
    assert!(!reqwest_error_transient_p(&quiet()));
    assert!(reqwest_error_transient_p(&TransportFault { timeout: true, ..quiet() }));
    assert!(reqwest_error_transient_p(&TransportFault { connect: true, ..quiet() }));
    let broken = CauseFault { connect: false, timeout: false, incomplete_message: true };
    let fine = CauseFault { connect: false, timeout: false, incomplete_message: false };
    assert!(reqwest_error_transient_p(&TransportFault {
        request: true,
        cause: Some(broken),
        ..quiet()
    }));
    assert!(reqwest_error_transient_p(&TransportFault {
        body: true,
        cause: Some(CauseFault { timeout: true, ..fine }),
        ..quiet()
    }));
    assert!(reqwest_error_transient_p(&TransportFault {
        body: true,
        cause: Some(CauseFault { connect: true, ..fine }),
        ..quiet()
    }));
    assert!(!reqwest_error_transient_p(&TransportFault { cause: Some(broken), ..quiet() }));
    assert!(!reqwest_error_transient_p(&TransportFault {
        request: true,
        cause: Some(fine),
        ..quiet()
    }));
    assert!(!reqwest_error_transient_p(&TransportFault { request: true, ..quiet() }));
    for status in [408u16, 429, 503, 504] {
        let fault = TransportFault { status: Some(status), ..quiet() };
        assert!(reqwest_error_transient_p(&fault));
        assert_eq!(categorize_reqwest_error(&fault), RetryAdvice::RetryAfter(5));
    }
    for status in [400u16, 401, 403, 404, 410, 500, 501, 502, 200] {
        let fault = TransportFault { status: Some(status), ..quiet() };
        assert!(!reqwest_error_transient_p(&fault));
        assert_eq!(categorize_reqwest_error(&fault), RetryAdvice::Permanent);
    }
}

#[test]
fn transient_failures_are_tried_again_and_the_fragment_is_written() {
    let unavailable = TransportFault { status: Some(503), ..quiet() };
    let mut session = Session::new(1, 0);
    let mut attempts = 0;
    let verdict = loop {
        attempts += 1;
        if attempts <= 2 {
            assert_eq!(categorize_reqwest_error(&unavailable), RetryAdvice::RetryAfter(5));
            continue;
        }
        break judge_response(StreamKind::Audio, true, true, Some("audio/mp4".as_bytes()));
    };
    assert_eq!(attempts, 3);
    assert_eq!(verdict, Verdict::Write);
    session.settle(StreamKind::Audio, verdict).unwrap();
    assert!(session.have_audio && !session.have_video);
    assert_eq!(session.failures, 0);
    assert_eq!(session.finish(true, true).unwrap(), Assembly::AudioOnly);
}

#[test]
fn the_eleventh_failed_download_ends_the_session() {
    let mut session = Session::new(20, 0);
    for failed in 1..=10u32 {
        session.begin_fragment();
        session.settle(StreamKind::Audio, Verdict::Failed).unwrap();
        assert_eq!(session.failures, failed);
    }
    session.settle(StreamKind::Audio, Verdict::Skip).unwrap();
    session.settle(StreamKind::Video, Verdict::Write).unwrap();
    assert_eq!(session.failures, 10);
    let e = session.settle(StreamKind::Audio, Verdict::Failed).unwrap_err();
    assert_eq!(e.kind(), ErrorKind::Network);
    assert_eq!(e.message(), "more than 10 HTTP download errors");
}

#[test]
fn progress_is_a_percentage_rounded_up() {
    assert_eq!(progress_percent(0, 3, 5), 0);
    assert_eq!(progress_percent(1, 3, 5), 10);
    assert_eq!(progress_percent(8, 3, 5), 80);
    assert_eq!(progress_percent(1, 1, 0), 34);
    assert_eq!(progress_percent(1, 100, 100), 1);
    assert_eq!(progress_percent(200, 100, 100), 100);
    assert_eq!(progress_percent(998, 998, 0), 100);
    assert_eq!(progress_percent(usize::MAX, 0, 0), 100);
    assert_eq!(progress_percent(usize::MAX, usize::MAX, usize::MAX), 50);
}

#[test]
fn progress_never_goes_down() {
    let mut session = Session::new(7, 6);
    let mut last = 0;
    for begun in 1..=13usize {
        let percent = session.begin_fragment();
        assert_eq!(session.begun, begun);
        assert_eq!(percent, ((100 * begun + 14) / 15) as u32);
        assert!(percent >= last && percent <= 100);
        last = percent;
    }
    assert_eq!(last, 87);
}

#[test]
fn assembly_by_what_the_streams_hold() {
    assert_eq!(plan_assembly(true, true, true, true).unwrap(), Assembly::Mux);
    assert_eq!(plan_assembly(true, false, true, true).unwrap(), Assembly::AudioOnly);
    assert_eq!(plan_assembly(false, true, true, true).unwrap(), Assembly::VideoOnly);
    let e = plan_assembly(false, false, true, true).unwrap_err();
    assert_eq!(e.kind(), ErrorKind::UnhandledMediaStream);
    assert_eq!(e.message(), "no audio or video streams found");
    assert_eq!(
        plan_assembly(false, false, false, true).unwrap_err().message(),
        "no video streams found"
    );
    assert_eq!(
        plan_assembly(false, false, true, false).unwrap_err().message(),
        "no audio streams found"
    );
    assert_eq!(
        plan_assembly(false, false, false, false).unwrap_err().message(),
        "no audio streams found"
    );
}

#[test]
fn milestones_of_a_download() {
    assert_eq!(Milestone::Manifest.percent(), 1);
    assert_eq!(Milestone::Muxing.percent(), 99);
    assert_eq!(Milestone::Done.percent(), 100);
    assert_eq!(Milestone::Manifest.message(), "Fetching DASH manifest");
    assert_eq!(Milestone::Muxing.message(), "Muxing audio and video");
    assert_eq!(Milestone::Done.message(), "Done");
    assert_eq!(fetching_message(StreamKind::Audio), "Fetching audio segments");
    assert_eq!(fetching_message(StreamKind::Video), "Fetching video segments");
}

#[test]
fn what_is_written_of_a_range_is_read_back() {
    for (first, last) in [(45u64, 67u64), (0, 0), (0, u64::MAX), (u64::MAX, 1), (1000, 999)] {
        let f = fragment("http://h/s1", Some(first), Some(last));
        let value = range_header(&f).unwrap();
        let written = value.strip_prefix("bytes=").unwrap();
        assert_eq!(parse_range(written).unwrap(), (first, last));
    }
}
