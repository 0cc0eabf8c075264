//! Absolute URLs, and the base URL in force at each level of a manifest.

use crate::error::{explained, parse_error, DashMpdError, ErrorKind};
use crate::text::{chars_of, has_prefix, starts_with};
use url::Url;
use vstd::prelude::*;

verus! {

/// `url::ParseError`, the error of the URL parser, of which nothing is
/// known here but that it is one.
#[verifier::external_type_specification]
#[verifier::external_body]
pub struct ExParseError(url::ParseError);

/// What `url::Url::parse` makes of `input`: the serialization of the URL that
/// it parses to, or `None` where it refuses the text.
pub uninterp spec fn url_parse(input: Seq<char>) -> Option<Seq<char>>;

/// What `url::Url::join` makes of `reference` on the URL that `base` parses
/// to: the serialization of the joined URL, or `None` where `base` does not
/// parse or the reference is refused.
pub uninterp spec fn url_join(base: Seq<char>, reference: Seq<char>) -> Option<Seq<char>>;

/// `text` is the serialization of a URL: what the URL parser made of some
/// text, or of some reference on some base. A URL that the parser makes is
/// absolute: it has a scheme and stands without a base.
pub open spec fn is_absolute_text(text: Seq<char>) -> bool {
    ||| exists|input: Seq<char>| url_parse(input) == Some(text)
    ||| exists|base: Seq<char>, reference: Seq<char>| url_join(base, reference) == Some(text)
}

/// Calls `url::Url::parse` and serializes the URL that comes back. Trusted:
/// the call succeeds exactly where `url_parse` says, with that
/// serialization.
#[verifier::external_body]
fn parse_with_url_crate(input: &str) -> (parsed: Result<String, url::ParseError>)
    ensures
        parsed is Ok <==> url_parse(input@) is Some,
        parsed is Ok ==> url_parse(input@) == Some(parsed->Ok_0@),
{
    Url::parse(input).map(String::from)
}

/// Parses `base` with `url::Url::parse`, calls `url::Url::join` on it with
/// `reference`, and serializes the URL that comes back. Trusted: the calls
/// succeed exactly where `url_join` says, with that serialization.
#[verifier::external_body]
fn join_with_url_crate(base: &str, reference: &str) -> (joined: Result<String, url::ParseError>)
    ensures
        joined is Ok <==> url_join(base@, reference@) is Some,
        joined is Ok ==> url_join(base@, reference@) == Some(joined->Ok_0@),
{
    match Url::parse(base) {
        Ok(url) => url.join(reference).map(String::from),
        Err(error) => Err(error),
    }
}

/// The text that `url::ParseError` shows for `error`. Trusted, with nothing
/// claimed of the text.
#[verifier::external_body]
fn text_of_url_error(error: &url::ParseError) -> (text: String) {
    error.to_string()
}

/// The parsing error for a URL that was refused: `why` says what was being
/// done with it.
pub fn url_error(why: &str, error: &url::ParseError) -> (wrapped: DashMpdError)
    ensures
        wrapped.spec_kind() == ErrorKind::Parsing,
        exists|detail: Seq<char>| wrapped.spec_message() == explained(why@, detail),
{
    let detail = text_of_url_error(error);
    parse_error(why, detail.as_str())
}

/// `s` begins with `http://`, `https://` or `file://`.
pub open spec fn has_absolute_scheme(s: Seq<char>) -> bool {
    has_prefix(s, "http://"@) || has_prefix(s, "https://"@) || has_prefix(s, "file://"@)
}

/// Whether `s` is written as an absolute URL: whether it begins with
/// `http://`, `https://` or `file://`.
pub fn is_absolute_url(s: &str) -> (absolute: bool)
    ensures
        absolute == has_absolute_scheme(s@),
{
    let v = chars_of(s);
    starts_with(&v, &chars_of("http://")) || starts_with(&v, &chars_of("https://")) || starts_with(
        &v,
        &chars_of("file://"),
    )
}

/// An absolute URL, held as its serialization. Every value of this type
/// was made by the URL parser.
#[derive(Debug)]
pub struct AbsoluteUrl {
    text: String,
}

impl View for AbsoluteUrl {
    type V = Seq<char>;

    closed spec fn view(&self) -> Seq<char> {
        self.text@
    }
}

/// What a reference means against a base: an absolute reference is parsed
/// on its own, any other is joined to the base.
pub open spec fn url_resolve(base: Seq<char>, reference: Seq<char>) -> Option<Seq<char>> {
    if has_absolute_scheme(reference) {
        url_parse(reference)
    } else {
        url_join(base, reference)
    }
}

impl AbsoluteUrl {
    #[verifier::type_invariant]
    spec fn well_formed(self) -> bool {
        is_absolute_text(self.text@)
    }


    /// Parses an absolute URL.
    pub fn parse(input: &str) -> (parsed: Result<AbsoluteUrl, url::ParseError>)
        ensures
            parsed is Ok <==> url_parse(input@) is Some,
            parsed is Ok ==> url_parse(input@) == Some(parsed->Ok_0@),
            parsed is Ok ==> is_absolute_text(parsed->Ok_0@),
    {
        match parse_with_url_crate(input) {
            Ok(text) => Ok(AbsoluteUrl { text }),
            Err(error) => Err(error),
        }
    }

    /// Joins `reference` to this URL, as a browser resolves a link on a page.
    pub fn join(&self, reference: &str) -> (joined: Result<AbsoluteUrl, url::ParseError>)
        ensures
            joined is Ok <==> url_join(self@, reference@) is Some,
            joined is Ok ==> url_join(self@, reference@) == Some(joined->Ok_0@),
            joined is Ok ==> is_absolute_text(joined->Ok_0@),
    {
        match join_with_url_crate(self.text.as_str(), reference) {
            Ok(text) => Ok(AbsoluteUrl { text }),
            Err(error) => Err(error),
        }
    }

    /// The URL that `reference` names when met under this URL: the reference
    /// itself where it is written as an absolute URL, else the reference
    /// joined to this URL.
    pub fn resolve(&self, reference: &str) -> (resolved: Result<AbsoluteUrl, url::ParseError>)
        ensures
            resolved is Ok <==> url_resolve(self@, reference@) is Some,
            resolved is Ok ==> url_resolve(self@, reference@) == Some(resolved->Ok_0@),
            resolved is Ok ==> is_absolute_text(resolved->Ok_0@),
    {
        if is_absolute_url(reference) {
            AbsoluteUrl::parse(reference)
        } else {
            self.join(reference)
        }
    }

    /// The serialization of this URL.
    pub fn as_str(&self) -> (text: &str)
        ensures
            text@ == self@,
            is_absolute_text(self@),
    {
        proof {
            use_type_invariant(self);
        }
        self.text.as_str()
    }

    /// A copy of this URL.
    pub fn duplicate(&self) -> (copy: AbsoluteUrl)
        ensures
            copy@ == self@,
            is_absolute_text(copy@),
    {
        proof {
            use_type_invariant(self);
        }
        AbsoluteUrl { text: self.text.clone() }
    }

    /// Whether this is a `data:` URL, which carries its content in itself.
    pub fn is_data(&self) -> (data: bool)
        ensures
            data == has_prefix(self@, "data:"@),
    {
        starts_with(&chars_of(self.text.as_str()), &chars_of("data:"))
    }
}

} // verus!
