//! The errors of a download.

use crate::fragment::StreamKind;
use vstd::prelude::*;
use vstd::string::StringExecFns;

verus! {

/// What went wrong, without the explanation.
#[derive(Clone, Copy, Debug, PartialEq, Eq, Structural)]
pub enum ErrorKind {
    /// An HTTP, DNS, TLS or timeout failure that retrying did not cure.
    Network,
    /// A malformed range, URL, data URL or template.
    Parsing,
    /// A failure of the local file system.
    Io,
    /// A manifest that asks for something this client does not do.
    UnhandledMediaStream,
}

/// An error of a download: its kind, and a text that explains it.
#[derive(Debug)]
pub enum DashMpdError {
    Network(String),
    Parsing(String),
    Io(String),
    UnhandledMediaStream(String),
}

impl DashMpdError {
    /// The kind of this error.
    pub open spec fn spec_kind(&self) -> ErrorKind {
        match self {
            DashMpdError::Network(_) => ErrorKind::Network,
            DashMpdError::Parsing(_) => ErrorKind::Parsing,
            DashMpdError::Io(_) => ErrorKind::Io,
            DashMpdError::UnhandledMediaStream(_) => ErrorKind::UnhandledMediaStream,
        }
    }

    /// The text that explains this error.
    pub open spec fn spec_message(&self) -> Seq<char> {
        match self {
            DashMpdError::Network(m) => m@,
            DashMpdError::Parsing(m) => m@,
            DashMpdError::Io(m) => m@,
            DashMpdError::UnhandledMediaStream(m) => m@,
        }
    }

    /// The kind of this error.
    #[verifier::when_used_as_spec(spec_kind)]
    pub fn kind(&self) -> (kind: ErrorKind)
        ensures
            kind == self.spec_kind(),
    {
        match self {
            DashMpdError::Network(_) => ErrorKind::Network,
            DashMpdError::Parsing(_) => ErrorKind::Parsing,
            DashMpdError::Io(_) => ErrorKind::Io,
            DashMpdError::UnhandledMediaStream(_) => ErrorKind::UnhandledMediaStream,
        }
    }

    /// The text that explains this error.
    pub fn message(&self) -> (message: &str)
        ensures
            message@ == self.spec_message(),
    {
        match self {
            DashMpdError::Network(m) => m.as_str(),
            DashMpdError::Parsing(m) => m.as_str(),
            DashMpdError::Io(m) => m.as_str(),
            DashMpdError::UnhandledMediaStream(m) => m.as_str(),
        }
    }

    /// An error of kind `UnhandledMediaStream` with the given text.
    pub fn unhandled(message: &str) -> (error: DashMpdError)
        ensures
            error.spec_kind() == ErrorKind::UnhandledMediaStream,
            error.spec_message() == message@,
    {
        DashMpdError::UnhandledMediaStream(String::from_str(message))
    }

    /// An error of kind `Parsing` with the given text.
    pub fn parsing(message: &str) -> (error: DashMpdError)
        ensures
            error.spec_kind() == ErrorKind::Parsing,
            error.spec_message() == message@,
    {
        DashMpdError::Parsing(String::from_str(message))
    }

    /// An error of kind `Network` with the given text.
    pub fn network(message: &str) -> (error: DashMpdError)
        ensures
            error.spec_kind() == ErrorKind::Network,
            error.spec_message() == message@,
    {
        DashMpdError::Network(String::from_str(message))
    }
}

/// The text of an error that wraps another: what was being done, a colon and
/// a space, then what the underlying error said.
pub open spec fn explained(why: Seq<char>, detail: Seq<char>) -> Seq<char> {
    why + ": "@ + detail
}

fn explain(why: &str, detail: &str) -> (text: String)
    ensures
        text@ == explained(why@, detail@),
{
    let mut text = String::from_str(why);
    text.append(": ");
    text.append(detail);
    text
}

/// A network error: `why` says what was being done, `detail` what the
/// underlying error said.
pub fn network_error(why: &str, detail: &str) -> (error: DashMpdError)
    ensures
        error.spec_kind() == ErrorKind::Network,
        error.spec_message() == explained(why@, detail@),
{
    DashMpdError::Network(explain(why, detail))
}

/// A parsing error: `why` says what was being done, `detail` what the
/// underlying error said.
pub fn parse_error(why: &str, detail: &str) -> (error: DashMpdError)
    ensures
        error.spec_kind() == ErrorKind::Parsing,
        error.spec_message() == explained(why@, detail@),
{
    DashMpdError::Parsing(explain(why, detail))
}


/// Why a manifest cannot be resolved.
pub enum Fault {
    /// A range specifier is malformed; the text says which part of it.
    Range(Seq<char>),
    /// A URL cannot be parsed, or a reference cannot be joined to its base.
    Url,
    /// The chosen representation has no identifier.
    MissingId,
    /// A template has a timeline and no media template.
    TimelineWithoutMedia,
    /// A template of the stream has neither a timeline nor a duration.
    MissingDuration(StreamKind),
    /// The segments of a template cannot all be given a start time and a
    /// number of 64 bits.
    Uncountable,
    /// No addressing mode gives the stream a fragment.
    NoAddressingMode(StreamKind),
    /// The video adaptation set has no representation to choose.
    NoVideoRepresentation,
    /// The manifest is of the dynamic type.
    Dynamic,
}

impl Fault {
    /// The kind of the error that reports the fault.
    pub open spec fn kind(self) -> ErrorKind {
        match self {
            Fault::Range(_) => ErrorKind::Parsing,
            Fault::Url => ErrorKind::Parsing,
            _ => ErrorKind::UnhandledMediaStream,
        }
    }

    /// The text of the error that reports the fault, as far as it is fixed:
    /// for a URL, the text goes on with what the URL parser said.
    pub open spec fn message(self) -> Option<Seq<char>> {
        match self {
            Fault::Range(text) => Some(text),
            Fault::Url => None,
            Fault::MissingId => Some("Missing @id on Representation node"@),
            Fault::TimelineWithoutMedia => Some("SegmentTimeline without a media attribute"@),
            Fault::MissingDuration(StreamKind::Audio) => Some(
                "Audio representation is missing SegmentTemplate @duration attribute"@,
            ),
            Fault::MissingDuration(StreamKind::Video) => Some(
                "Video representation is missing SegmentTemplate @duration attribute"@,
            ),
            Fault::Uncountable => Some("SegmentTemplate with more segments than can be numbered"@),
            Fault::NoAddressingMode(StreamKind::Audio) => Some(
                "no usable addressing mode identified for audio representation"@,
            ),
            Fault::NoAddressingMode(StreamKind::Video) => Some(
                "no usable addressing mode identified for video representation"@,
            ),
            Fault::NoVideoRepresentation => Some(
                "Couldn't find lowest bandwidth video stream in DASH manifest"@,
            ),
            Fault::Dynamic => Some("Don't know how to download dynamic MPD"@),
        }
    }
}

/// The error reports the fault: it is of the kind of the fault, and its
/// text is that of the fault where that is fixed.
pub open spec fn reports(error: DashMpdError, fault: Fault) -> bool {
    &&& error.spec_kind() == fault.kind()
    &&& match fault.message() {
        Some(text) => error.spec_message() == text,
        None => true,
    }
}

} // verus!
