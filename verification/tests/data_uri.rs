use dash_mpd::fragment::StreamKind;
use dash_mpd::base_url::AbsoluteUrl;
use dash_mpd::data_uri::{check_media_type, decode_data_url};
use dash_mpd::error::ErrorKind;

#[test]
fn data_url_of_the_right_kind_is_decoded() {
    assert_eq!(
        decode_data_url("data:audio/mp4;base64,AAEC/w==", StreamKind::Audio).unwrap(),
        vec![0u8, 1, 2, 255]
    );
    assert_eq!(
        decode_data_url("data:video/mp4,ab%20c", StreamKind::Video).unwrap(),
        b"ab c".to_vec()
    );
    assert_eq!(
        decode_data_url("data:Video/WebM;base64,", StreamKind::Video).unwrap(),
        Vec::<u8>::new()
    );
}

#[test]
fn data_url_of_the_wrong_kind_is_refused() {
    let e = decode_data_url("data:video/mp4;base64,AAEC", StreamKind::Audio).unwrap_err();
    assert_eq!(e.kind(), ErrorKind::UnhandledMediaStream);
    assert_eq!(e.message(), "expecting audio content in data URL");
    let e = decode_data_url("data:,hello", StreamKind::Video).unwrap_err();
    assert_eq!(e.kind(), ErrorKind::UnhandledMediaStream);
    assert_eq!(e.message(), "expecting video content in data URL");
}

#[test]
fn malformed_data_url_is_a_parsing_error() {
    let e = decode_data_url("http://h/a.mp4", StreamKind::Audio).unwrap_err();
    assert_eq!(e.kind(), ErrorKind::Parsing);
    assert_eq!(e.message(), "parsing data URL");
    let e = decode_data_url("data:audio/mp4;base64", StreamKind::Audio).unwrap_err();
    assert_eq!(e.kind(), ErrorKind::Parsing);
    assert_eq!(e.message(), "parsing data URL");
    let e = decode_data_url("data:audio/mp4;base64,A", StreamKind::Audio).unwrap_err();
    assert_eq!(e.kind(), ErrorKind::Parsing);
    assert_eq!(e.message(), "decoding data URL");
}

#[test]
fn media_type_is_checked_against_the_stream() {
    assert!(check_media_type(Some("audio"), StreamKind::Audio).is_ok());
    assert!(check_media_type(Some("video"), StreamKind::Video).is_ok());
    assert_eq!(
        check_media_type(Some("video"), StreamKind::Audio).unwrap_err().kind(),
        ErrorKind::UnhandledMediaStream
    );
    assert_eq!(
        check_media_type(Some("Audio"), StreamKind::Audio).unwrap_err().kind(),
        ErrorKind::UnhandledMediaStream
    );
    assert_eq!(check_media_type(None, StreamKind::Video).unwrap_err().kind(), ErrorKind::Parsing);
}

#[test]
fn data_urls_are_told_by_their_scheme() {
    assert!(AbsoluteUrl::parse("data:audio/mp4;base64,AAEC").unwrap().is_data());
    assert!(AbsoluteUrl::parse("DATA:audio/mp4;base64,AAEC").unwrap().is_data());
    assert!(!AbsoluteUrl::parse("http://h/data:x").unwrap().is_data());
}
