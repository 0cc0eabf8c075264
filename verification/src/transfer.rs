//! Fetching the fragments: what to ask for, what to make of the answer, and
//! when to give up.

use crate::addressing::{ceil_div, lemma_ceil_div_bounds};
use crate::base_url::AbsoluteUrl;
use crate::decimal::{decimal_digits, decimal_of};
use crate::error::{DashMpdError, ErrorKind};
use crate::fragment::{FragmentView, MediaFragment, StreamKind};
use crate::text::{append_chars, chars_of, string_of};
use vstd::prelude::*;
use vstd::string::StringExecFns;

verus! {

/// A header of an HTTP request.
#[derive(Debug)]
pub struct Header {
    pub name: String,
    pub value: String,
}

/// A header of an HTTP request as plain values.
pub struct HeaderView {
    pub name: Seq<char>,
    pub value: Seq<char>,
}

impl View for Header {
    type V = HeaderView;

    open spec fn view(&self) -> HeaderView {
        HeaderView { name: self.name@, value: self.value@ }
    }
}

/// The headers of a list as plain values.
pub open spec fn header_views(headers: Seq<Header>) -> Seq<HeaderView> {
    Seq::new(headers.len(), |i: int| headers[i]@)
}

fn header(name: &str, value: &str) -> (h: Header)
    ensures
        h@ == (HeaderView { name: name@, value: value@ }),
{
    Header { name: String::from_str(name), value: String::from_str(value) }
}

/// The headers of a request for a manifest, or for a document that stands
/// in place of a part of one.
pub open spec fn manifest_headers() -> Seq<HeaderView> {
    seq![
        HeaderView { name: "Accept"@, value: "application/dash+xml,video/vnd.mpeg.dash.mpd"@ },
        HeaderView { name: "Accept-Language"@, value: "en-US,en"@ },
        HeaderView { name: "Sec-Fetch-Mode"@, value: "navigate"@ },
    ]
}

/// The headers to send with a request for a manifest.
pub fn manifest_request_headers() -> (headers: Vec<Header>)
    ensures
        header_views(headers@) == manifest_headers(),
{
    let mut headers: Vec<Header> = Vec::new();
    headers.push(header("Accept", "application/dash+xml,video/vnd.mpeg.dash.mpd"));
    headers.push(header("Accept-Language", "en-US,en"));
    headers.push(header("Sec-Fetch-Mode", "navigate"));
    assert(header_views(headers@) =~= manifest_headers());
    headers
}

/// What a request for a fragment of a stream says it accepts.
pub open spec fn accepted_types(stream: StreamKind) -> Seq<char> {
    match stream {
        StreamKind::Audio => "audio/*;q=0.9,*/*;q=0.5"@,
        StreamKind::Video => "video/*"@,
    }
}

/// The value of the `Range` header for a fragment: `bytes=first-last` where
/// the fragment gives both bounds, and no header otherwise.
pub open spec fn range_value(fragment: FragmentView) -> Option<Seq<char>> {
    match (fragment.start_byte, fragment.end_byte) {
        (Some(first), Some(last)) => Some(
            "bytes="@ + decimal_digits(first as nat) + seq!['-'] + decimal_digits(last as nat),
        ),
        _ => None,
    }
}

/// The headers of a request for a fragment: what is accepted, the manifest
/// as referer, the fetch mode and, where the fragment gives both bounds, the
/// range of bytes.
pub open spec fn fragment_headers(fragment: FragmentView, stream: StreamKind, referer: Seq<char>) -> Seq<
    HeaderView,
> {
    let fixed = seq![
        HeaderView { name: "Accept"@, value: accepted_types(stream) },
        HeaderView { name: "Referer"@, value: referer },
        HeaderView { name: "Sec-Fetch-Mode"@, value: "navigate"@ },
    ];
    match range_value(fragment) {
        Some(range) => fixed.push(HeaderView { name: "Range"@, value: range }),
        None => fixed,
    }
}

/// The value of the `Range` header for a fragment, if it is to have one.
pub fn range_header(fragment: &MediaFragment) -> (value: Option<String>)
    ensures
        match value {
            Some(text) => range_value(fragment@) == Some(text@),
            None => range_value(fragment@) is None,
        },
{
    match (fragment.start_byte, fragment.end_byte) {
        (Some(first), Some(last)) => {
            let mut text = chars_of("bytes=");
            append_chars(&mut text, &decimal_of(first));
            text.push('-');
            append_chars(&mut text, &decimal_of(last));
            assert(text@ =~= "bytes="@ + decimal_digits(first as nat) + seq!['-'] + decimal_digits(
                last as nat,
            ));
            Some(string_of(&text))
        },
        _ => None,
    }
}

/// The headers to send with the request for a fragment of a stream.
/// `manifest_url` is the URL that the manifest was fetched from.
pub fn fragment_request_headers(
    fragment: &MediaFragment,
    stream: StreamKind,
    manifest_url: &AbsoluteUrl,
) -> (headers: Vec<Header>)
    ensures
        header_views(headers@) == fragment_headers(fragment@, stream, manifest_url@),
{
    let accept = match stream {
        StreamKind::Audio => "audio/*;q=0.9,*/*;q=0.5",
        StreamKind::Video => "video/*",
    };
    let mut headers: Vec<Header> = Vec::new();
    headers.push(header("Accept", accept));
    headers.push(header("Referer", manifest_url.as_str()));
    headers.push(header("Sec-Fetch-Mode", "navigate"));
    match range_header(fragment) {
        Some(range) => {
            headers.push(Header { name: String::from_str("Range"), value: range });
        },
        None => {},
    }
    assert(header_views(headers@) =~= fragment_headers(fragment@, stream, manifest_url@));
    headers
}

/// The bytes begin with the characters of `text`, each as one byte.
pub open spec fn begins_with_text(bytes: Seq<u8>, text: Seq<char>) -> bool {
    &&& text.len() <= bytes.len()
    &&& forall|i: int| 0 <= i < text.len() ==> bytes[i] as char == text[i]
}

fn bytes_begin_with(bytes: &[u8], text: &str) -> (begins: bool)
    ensures
        begins == begins_with_text(bytes@, text@),
{
    let wanted = chars_of(text);
    if wanted.len() > bytes.len() {
        return false;
    }
    let mut i: usize = 0;
    while i < wanted.len()
        invariant
            i <= wanted.len(),
            wanted.len() <= bytes.len(),
            wanted@ == text@,
            forall|k: int| 0 <= k < i ==> bytes@[k] as char == text@[k],
        decreases wanted.len() - i,
    {
        if bytes[i] as char != wanted[i] {
            return false;
        }
        i += 1;
    }
    true
}

/// A content type that is taken for audio: `audio/`, `video/` (which some
/// servers send for audio in an MP4 container) or `application/octet-stream`.
pub open spec fn is_audio_type(content_type: Option<Seq<u8>>) -> bool {
    match content_type {
        Some(bytes) => begins_with_text(bytes, "audio/"@) || begins_with_text(bytes, "video/"@)
            || begins_with_text(bytes, "application/octet-stream"@),
        None => false,
    }
}

/// A content type that is taken for video: `video/` or
/// `application/octet-stream`.
pub open spec fn is_video_type(content_type: Option<Seq<u8>>) -> bool {
    match content_type {
        Some(bytes) => begins_with_text(bytes, "video/"@) || begins_with_text(
            bytes,
            "application/octet-stream"@,
        ),
        None => false,
    }
}

/// The bytes of an optional slice.
pub open spec fn bytes_of(content_type: Option<&[u8]>) -> Option<Seq<u8>> {
    match content_type {
        Some(bytes) => Some(bytes@),
        None => None,
    }
}

/// Whether the `content-type` header of a response is one that is taken for
/// audio. A response without the header is not.
pub fn content_type_audio_p(content_type: Option<&[u8]>) -> (audio: bool)
    ensures
        audio == is_audio_type(bytes_of(content_type)),
{
    match content_type {
        Some(bytes) => bytes_begin_with(bytes, "audio/") || bytes_begin_with(bytes, "video/")
            || bytes_begin_with(bytes, "application/octet-stream"),
        None => false,
    }
}

/// Whether the `content-type` header of a response is one that is taken for
/// video. A response without the header is not.
pub fn content_type_video_p(content_type: Option<&[u8]>) -> (video: bool)
    ensures
        video == is_video_type(bytes_of(content_type)),
{
    match content_type {
        Some(bytes) => bytes_begin_with(bytes, "video/") || bytes_begin_with(
            bytes,
            "application/octet-stream",
        ),
        None => false,
    }
}

/// What is known of the error underneath a failed request.
#[derive(Clone, Copy, Debug, PartialEq, Eq, Structural)]
pub struct CauseFault {
    pub connect: bool,
    pub timeout: bool,
    pub incomplete_message: bool,
}

/// What is known of a failed request.
#[derive(Clone, Copy, Debug, PartialEq, Eq, Structural)]
pub struct TransportFault {
    pub timeout: bool,
    pub connect: bool,
    pub request: bool,
    pub body: bool,
    /// The transport error underneath, where there is one.
    pub cause: Option<CauseFault>,
    /// The HTTP status, where the server answered.
    pub status: Option<u16>,
}

/// A failure that may pass: a timeout; a failure to connect; a failure of
/// the request or of its body over a connection that failed, timed out or
/// broke off; or one of the statuses 408, 429, 503 and 504.
pub open spec fn is_transient(fault: TransportFault) -> bool {
    ||| fault.timeout
    ||| fault.connect
    ||| ((fault.request || fault.body) && fault.cause is Some && (fault.cause->0.connect
        || fault.cause->0.timeout || fault.cause->0.incomplete_message))
    ||| (fault.status is Some && (fault.status->0 == 408 || fault.status->0 == 429
        || fault.status->0 == 503 || fault.status->0 == 504))
}

/// Whether a failed request is worth another try.
pub fn reqwest_error_transient_p(e: &TransportFault) -> (transient: bool)
    ensures
        transient == is_transient(*e),
{
    if e.timeout || e.connect {
        return true;
    }
    if e.request || e.body {
        match e.cause {
            Some(cause) => {
                if cause.connect || cause.timeout || cause.incomplete_message {
                    return true;
                }
            },
            None => {},
        }
    }
    match e.status {
        Some(s) => s == 408 || s == 429 || s == 503 || s == 504,
        None => false,
    }
}

/// What to do about a failed request.
#[derive(Clone, Copy, Debug, PartialEq, Eq, Structural)]
pub enum RetryAdvice {
    /// Try again, this many seconds from now at the earliest.
    RetryAfter(u64),
    /// Give the request up.
    Permanent,
}

/// Says what to do about a failed request: a failure that may pass is tried
/// again after five seconds, any other is given up.
pub fn categorize_reqwest_error(e: &TransportFault) -> (advice: RetryAdvice)
    ensures
        advice == (if is_transient(*e) {
            RetryAdvice::RetryAfter(5)
        } else {
            RetryAdvice::Permanent
        }),
{
    if reqwest_error_transient_p(e) {
        RetryAdvice::RetryAfter(5)
    } else {
        RetryAdvice::Permanent
    }
}

/// What to do with the answer to the request for a fragment.
#[derive(Clone, Copy, Debug, PartialEq, Eq, Structural)]
pub enum Verdict {
    /// Add the body to the stream.
    Write,
    /// Leave the fragment out: its content type is not that of the stream.
    Skip,
    /// Leave the fragment out and count a failed download.
    Failed,
}

/// The verdict on an answer: a failure where the status is not one of
/// success; else, where content types are checked and this one is not that
/// of the stream, a skip; else the body is written.
pub open spec fn verdict_on(
    stream: StreamKind,
    content_type_checks: bool,
    success: bool,
    content_type: Option<Seq<u8>>,
) -> Verdict {
    if !success {
        Verdict::Failed
    } else if !content_type_checks || (match stream {
        StreamKind::Audio => is_audio_type(content_type),
        StreamKind::Video => is_video_type(content_type),
    }) {
        Verdict::Write
    } else {
        Verdict::Skip
    }
}

/// Says what to do with the answer to the request for a fragment of a
/// stream. `success` says that the status is one of success; `content_type`
/// is the `content-type` header, where the answer has one.
pub fn judge_response(
    stream: StreamKind,
    content_type_checks: bool,
    success: bool,
    content_type: Option<&[u8]>,
) -> (verdict: Verdict)
    ensures
        verdict == verdict_on(stream, content_type_checks, success, bytes_of(content_type)),
{
    if !success {
        return Verdict::Failed;
    }
    if !content_type_checks {
        return Verdict::Write;
    }
    let fitting = match stream {
        StreamKind::Audio => content_type_audio_p(content_type),
        StreamKind::Video => content_type_video_p(content_type),
    };
    if fitting {
        Verdict::Write
    } else {
        Verdict::Skip
    }
}

/// How far a download has come, as a percentage: a hundred times the
/// fragments begun, over the fragments of both streams and two more steps
/// (the manifest before them, the muxing after them), rounded up, and never
/// more than a hundred.
pub open spec fn percent_done(begun: int, audio: int, video: int) -> int {
    let exact = ceil_div(100 * begun, audio + video + 2);
    if exact > 100 {
        100
    } else {
        exact
    }
}

/// While no more fragments are begun than there are, the percentage is the
/// exact quotient, rounded up.
pub proof fn lemma_percent_exact(begun: int, audio: int, video: int)
    requires
        0 <= begun <= audio + video,
        0 <= audio,
        0 <= video,
    ensures
        percent_done(begun, audio, video) == ceil_div(100 * begun, audio + video + 2),
        0 <= percent_done(begun, audio, video) <= 100,
{
    let total = audio + video + 2;
    let c = ceil_div(100 * begun, total);
    lemma_ceil_div_bounds(100 * begun, total);
    if c > 100 {
        assert((c - 1) * total >= 100 * total) by (nonlinear_arith)
            requires
                c > 100,
                total > 0,
        ;
    }
}

/// The percentage never goes down as fragments are begun.
pub proof fn lemma_percent_monotonic(earlier: int, later: int, audio: int, video: int)
    requires
        0 <= earlier <= later,
        0 <= audio,
        0 <= video,
    ensures
        percent_done(earlier, audio, video) <= percent_done(later, audio, video),
{
    let total = audio + video + 2;
    let a = ceil_div(100 * earlier, total);
    let b = ceil_div(100 * later, total);
    lemma_ceil_div_bounds(100 * earlier, total);
    lemma_ceil_div_bounds(100 * later, total);
    if a > b {
        assert((a - 1) * total >= b * total) by (nonlinear_arith)
            requires
                a - 1 >= b,
                total > 0,
        ;
    }
}

/// The percentage to report when the fragment number `begun` is begun, of
/// `audio` audio and `video` video fragments.
pub fn progress_percent(begun: usize, audio: usize, video: usize) -> (percent: u32)
    ensures
        percent as int == percent_done(begun as int, audio as int, video as int),
        percent <= 100,
{
    let total: u128 = (audio as u128) + (video as u128) + 2;
    let scaled: u128 = 100 * (begun as u128);
    let quotient: u128 = scaled / total;
    let exact: u128 = if scaled % total == 0 {
        quotient
    } else {
        assert(quotient * 2 <= scaled) by (nonlinear_arith)
            requires
                quotient == scaled / total,
                total >= 2,
                scaled >= 0,
        ;
        quotient + 1
    };
    if exact > 100 {
        100
    } else {
        exact as u32
    }
}

/// The steps of a download that are reported besides its fragments.
#[derive(Clone, Copy, Debug, PartialEq, Eq, Structural)]
pub enum Milestone {
    /// The manifest is being fetched.
    Manifest,
    /// The two streams are being muxed.
    Muxing,
    /// The download is done.
    Done,
}

impl Milestone {
    /// The percentage that is reported at this step: 1 for the manifest, 99
    /// for the muxing, 100 at the end.
    pub open spec fn spec_percent(self) -> u32 {
        match self {
            Milestone::Manifest => 1,
            Milestone::Muxing => 99,
            Milestone::Done => 100,
        }
    }

    /// The percentage that is reported at this step.
    #[verifier::when_used_as_spec(spec_percent)]
    pub fn percent(self) -> (percent: u32)
        ensures
            percent == self.spec_percent(),
            percent <= 100,
    {
        match self {
            Milestone::Manifest => 1,
            Milestone::Muxing => 99,
            Milestone::Done => 100,
        }
    }

    /// What is said of the download at this step.
    pub fn message(self) -> (message: &'static str)
        ensures
            message@ == (match self {
                Milestone::Manifest => "Fetching DASH manifest"@,
                Milestone::Muxing => "Muxing audio and video"@,
                Milestone::Done => "Done"@,
            }),
    {
        match self {
            Milestone::Manifest => "Fetching DASH manifest",
            Milestone::Muxing => "Muxing audio and video",
            Milestone::Done => "Done",
        }
    }
}

/// What is said of the download while the fragments of a stream are fetched.
pub fn fetching_message(stream: StreamKind) -> (message: &'static str)
    ensures
        message@ == (match stream {
            StreamKind::Audio => "Fetching audio segments"@,
            StreamKind::Video => "Fetching video segments"@,
        }),
{
    match stream {
        StreamKind::Audio => "Fetching audio segments",
        StreamKind::Video => "Fetching video segments",
    }
}

/// How many failed downloads a session bears.
pub const MAX_DOWNLOAD_ERRORS: u32 = 10;

/// What to do with the streams once every fragment has been dealt with.
#[derive(Clone, Copy, Debug, PartialEq, Eq, Structural)]
pub enum Assembly {
    /// Mux the audio and the video stream into the output.
    Mux,
    /// Copy the audio stream to the output.
    AudioOnly,
    /// Copy the video stream to the output.
    VideoOnly,
}

/// The state of a download while its fragments are fetched.
#[derive(Clone, Copy, Debug)]
pub struct Session {
    /// How many audio fragments there are to fetch.
    pub audio: usize,
    /// How many video fragments there are to fetch.
    pub video: usize,
    /// How many fragments have been begun.
    pub begun: usize,
    /// How many downloads have failed.
    pub failures: u32,
    /// Whether anything has been written to the audio stream.
    pub have_audio: bool,
    /// Whether anything has been written to the video stream.
    pub have_video: bool,
}

impl Session {
    /// The session of a download that has begun no fragment yet.
    pub fn new(audio: usize, video: usize) -> (session: Session)
        ensures
            session == (Session {
                audio,
                video,
                begun: 0,
                failures: 0,
                have_audio: false,
                have_video: false,
            }),
    {
        Session { audio, video, begun: 0, failures: 0, have_audio: false, have_video: false }
    }

    /// Begins the next fragment and gives the percentage to report for it.
    /// The percentage is no smaller than the one before.
    pub fn begin_fragment(&mut self) -> (percent: u32)
        ensures
            final(self).begun == (if old(self).begun < usize::MAX {
                old(self).begun + 1
            } else {
                old(self).begun as int
            }),
            *final(self) == (Session { begun: final(self).begun, ..*old(self) }),
            percent as int == percent_done(
                final(self).begun as int,
                old(self).audio as int,
                old(self).video as int,
            ),
            percent_done(old(self).begun as int, old(self).audio as int, old(self).video as int)
                <= percent <= 100,
    {
        proof {
            lemma_percent_monotonic(
                self.begun as int,
                if self.begun < usize::MAX {
                    self.begun + 1
                } else {
                    self.begun as int
                },
                self.audio as int,
                self.video as int,
            );
        }
        if self.begun < usize::MAX {
            self.begun = self.begun + 1;
        }
        progress_percent(self.begun, self.audio, self.video)
    }

    /// Takes note of what became of a fragment of a stream. A fragment that
    /// was written makes the stream one that has content; a failed download
    /// is counted, and the one after the tenth is a network error that ends
    /// the download.
    pub fn settle(&mut self, stream: StreamKind, verdict: Verdict) -> (result: Result<
        (),
        DashMpdError,
    >)
        ensures
            final(self).audio == old(self).audio,
            final(self).video == old(self).video,
            final(self).begun == old(self).begun,
            final(self).have_audio == (old(self).have_audio || (verdict == Verdict::Write && stream
                == StreamKind::Audio)),
            final(self).have_video == (old(self).have_video || (verdict == Verdict::Write && stream
                == StreamKind::Video)),
            final(self).failures == (if verdict == Verdict::Failed && old(self).failures
                < u32::MAX {
                old(self).failures + 1
            } else {
                old(self).failures as int
            }),
            result is Err <==> verdict == Verdict::Failed && old(self).failures
                >= MAX_DOWNLOAD_ERRORS,
            result is Err ==> result->Err_0.spec_kind() == ErrorKind::Network
                && result->Err_0.spec_message() == "more than 10 HTTP download errors"@,
    {
        match verdict {
            Verdict::Write => {
                match stream {
                    StreamKind::Audio => {
                        self.have_audio = true;
                    },
                    StreamKind::Video => {
                        self.have_video = true;
                    },
                }
                Ok(())
            },
            Verdict::Skip => Ok(()),
            Verdict::Failed => {
                if self.failures < u32::MAX {
                    self.failures = self.failures + 1;
                }
                if self.failures > MAX_DOWNLOAD_ERRORS {
                    Err(DashMpdError::network("more than 10 HTTP download errors"))
                } else {
                    Ok(())
                }
            },
        }
    }

    /// Says what to do with the streams at the end: to mux them where both
    /// have content, to copy the one that has, and that it is an error for
    /// neither to have any.
    pub fn finish(&self, fetch_audio: bool, fetch_video: bool) -> (result: Result<
        Assembly,
        DashMpdError,
    >)
        ensures
            result is Err <==> !self.have_audio && !self.have_video,
            result is Ok ==> result->Ok_0 == assembly_of(self.have_audio, self.have_video),
            result is Err ==> result->Err_0.spec_kind() == ErrorKind::UnhandledMediaStream
                && result->Err_0.spec_message() == nothing_found(fetch_audio, fetch_video),
    {
        plan_assembly(self.have_audio, self.have_video, fetch_audio, fetch_video)
    }
}

/// What to do with the streams, of which one at least has content: to mux
/// them where both have, else to copy the one that has.
pub open spec fn assembly_of(have_audio: bool, have_video: bool) -> Assembly {
    if have_audio && have_video {
        Assembly::Mux
    } else if have_audio {
        Assembly::AudioOnly
    } else {
        Assembly::VideoOnly
    }
}

/// What the error says when no stream has content, by what was asked for.
pub open spec fn nothing_found(fetch_audio: bool, fetch_video: bool) -> Seq<char> {
    if fetch_video {
        if fetch_audio {
            "no audio or video streams found"@
        } else {
            "no video streams found"@
        }
    } else {
        "no audio streams found"@
    }
}

/// Says what to do with the streams once every fragment has been dealt
/// with: to mux them where both have content, to copy the one that has, and
/// that it is an error for neither to have any.
pub fn plan_assembly(have_audio: bool, have_video: bool, fetch_audio: bool, fetch_video: bool) -> (result:
    Result<Assembly, DashMpdError>)
    ensures
        result is Err <==> !have_audio && !have_video,
        result is Ok ==> result->Ok_0 == assembly_of(have_audio, have_video),
        result is Err ==> result->Err_0.spec_kind() == ErrorKind::UnhandledMediaStream
            && result->Err_0.spec_message() == nothing_found(fetch_audio, fetch_video),
{
    if have_audio && have_video {
        Ok(Assembly::Mux)
    } else if have_audio {
        Ok(Assembly::AudioOnly)
    } else if have_video {
        Ok(Assembly::VideoOnly)
    } else if fetch_video {
        if fetch_audio {
            Err(DashMpdError::unhandled("no audio or video streams found"))
        } else {
            Err(DashMpdError::unhandled("no video streams found"))
        }
    } else {
        Err(DashMpdError::unhandled("no audio streams found"))
    }
}

} // verus!
