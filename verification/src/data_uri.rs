//! Fragments that carry their content in a `data:` URL.

use crate::error::{DashMpdError, ErrorKind};
use crate::fragment::StreamKind;
use crate::text::same_text;
use data_url::DataUrl;
use vstd::prelude::*;

verus! {

/// The top-level media type that `data_url::DataUrl::process` finds in
/// `url`, or `None` where it refuses the text.
pub uninterp spec fn data_url_type(url: Seq<char>) -> Option<Seq<char>>;

/// The body that `data_url::DataUrl::decode_to_vec` decodes from `url`, or
/// `None` where the text is refused or the body is not valid base64.
pub uninterp spec fn data_url_body(url: Seq<char>) -> Option<Seq<u8>>;

/// Calls `data_url::DataUrl::process` and copies the top-level type of the
/// media type that it finds. Trusted: the result is what `data_url_type`
/// names.
#[verifier::external_body]
fn media_type_in(url: &str) -> (found: Option<String>)
    ensures
        found is Some <==> data_url_type(url@) is Some,
        found is Some ==> found->0@ == data_url_type(url@)->0,
{
    match DataUrl::process(url) {
        Ok(parsed) => Some(parsed.mime_type().type_.clone()),
        Err(_) => None,
    }
}

/// Calls `data_url::DataUrl::process`, then `decode_to_vec` on what it
/// gives, and hands out the body. Trusted: the result is what
/// `data_url_body` names.
#[verifier::external_body]
fn body_in(url: &str) -> (found: Option<Vec<u8>>)
    ensures
        found is Some <==> data_url_body(url@) is Some,
        found is Some ==> found->0@ == data_url_body(url@)->0,
{
    match DataUrl::process(url) {
        Ok(parsed) => match parsed.decode_to_vec() {
            Ok((body, _)) => Some(body),
            Err(_) => None,
        },
        Err(_) => None,
    }
}

/// The top-level media type of the content of a stream.
pub open spec fn media_type_of(stream: StreamKind) -> Seq<char> {
    match stream {
        StreamKind::Audio => "audio"@,
        StreamKind::Video => "video"@,
    }
}

/// What the media type found in a data URL means for a stream: without a
/// type the URL is malformed; a type other than that of the stream is
/// content of the wrong kind.
pub open spec fn media_type_fault(found: Option<Seq<char>>, stream: StreamKind) -> Option<ErrorKind> {
    match found {
        None => Some(ErrorKind::Parsing),
        Some(media_type) => if media_type == media_type_of(stream) {
            None
        } else {
            Some(ErrorKind::UnhandledMediaStream)
        },
    }
}

/// The text of an optional string slice.
pub open spec fn slice_text(s: Option<&str>) -> Option<Seq<char>> {
    match s {
        Some(t) => Some(t@),
        None => None,
    }
}

/// Checks the media type found in a data URL against the stream that the
/// URL belongs to.
pub fn check_media_type(found: Option<&str>, stream: StreamKind) -> (result: Result<(), DashMpdError>)
    ensures
        match result {
            Ok(()) => media_type_fault(slice_text(found), stream) is None,
            Err(error) => media_type_fault(slice_text(found), stream) == Some(error.spec_kind()),
        },
        result is Err && found is None ==> result->Err_0.spec_message() == "parsing data URL"@,
        result is Err && found is Some ==> result->Err_0.spec_message() == (match stream {
            StreamKind::Audio => "expecting audio content in data URL"@,
            StreamKind::Video => "expecting video content in data URL"@,
        }),
{
    match found {
        None => Err(DashMpdError::parsing("parsing data URL")),
        Some(media_type) => match stream {
            StreamKind::Audio => if same_text(media_type, "audio") {
                Ok(())
            } else {
                Err(DashMpdError::unhandled("expecting audio content in data URL"))
            },
            StreamKind::Video => if same_text(media_type, "video") {
                Ok(())
            } else {
                Err(DashMpdError::unhandled("expecting video content in data URL"))
            },
        },
    }
}

/// The content of a data URL that stands for a fragment of a stream: its
/// decoded body, where its media type is that of the stream.
pub open spec fn data_content(url: Seq<char>, stream: StreamKind) -> Result<Seq<u8>, ErrorKind> {
    match media_type_fault(data_url_type(url), stream) {
        Some(kind) => Err(kind),
        None => match data_url_body(url) {
            Some(body) => Ok(body),
            None => Err(ErrorKind::Parsing),
        },
    }
}

/// Decodes the content of a data URL that stands for a fragment of a
/// stream.
pub fn decode_data_url(url: &str, stream: StreamKind) -> (result: Result<Vec<u8>, DashMpdError>)
    ensures
        match result {
            Ok(body) => data_content(url@, stream) == Ok::<Seq<u8>, ErrorKind>(body@),
            Err(error) => data_content(url@, stream) == Err::<Seq<u8>, ErrorKind>(
                error.spec_kind(),
            ),
        },
{
    let found = media_type_in(url);
    let media_type: Option<&str> = match &found {
        Some(t) => Some(t.as_str()),
        None => None,
    };
    match check_media_type(media_type, stream) {
        Err(error) => Err(error),
        Ok(()) => match body_in(url) {
            Some(body) => Ok(body),
            None => Err(DashMpdError::parsing("decoding data URL")),
        },
    }
}

} // verus!
