//! XLink references: manifest elements that stand for a remote document.

use crate::base_url::{is_absolute_text, url_error, url_resolve, AbsoluteUrl};
use crate::error::{DashMpdError, ErrorKind};
use crate::mpd::{AdaptationSet, Period, Representation};
use crate::text::{chars_of, same_chars, same_text};
use vstd::prelude::*;

verus! {

/// An `xlink:href` names a remote document to fetch where it is neither empty
/// nor the marker that resolves to nothing.
pub open spec fn is_fetchable_href(href: Seq<char>) -> bool {
    href.len() > 0 && href != "urn:mpeg:dash:resolve-to-zero:2013"@
}

/// Whether the element that carries this `xlink:href` is to be replaced by a
/// remote document. An empty reference, and the one that resolves to nothing,
/// ask for no request.
pub fn fetchable_xlink_href(href: &str) -> (fetchable: bool)
    ensures
        fetchable == is_fetchable_href(href@),
{
    proof {
        reveal_strlit("");
        if href@.len() == 0 {
            assert(href@ =~= ""@);
        }
    }
    !same_text(href, "") && !same_text(href, "urn:mpeg:dash:resolve-to-zero:2013")
}


/// The kinds of element that can stand for a remote document.
#[derive(Clone, Copy, Debug, PartialEq, Eq, Structural)]
pub enum XlinkLevel {
    Period,
    AdaptationSet,
    Representation,
}

/// An element that was fetched to stand in place of one that referred to it.
#[derive(Clone, Debug)]
pub enum XlinkNode {
    Period(Period),
    AdaptationSet(AdaptationSet),
    Representation(Representation),
}

impl XlinkNode {
    /// The kind of this element.
    pub open spec fn spec_level(&self) -> XlinkLevel {
        match self {
            XlinkNode::Period(_) => XlinkLevel::Period,
            XlinkNode::AdaptationSet(_) => XlinkLevel::AdaptationSet,
            XlinkNode::Representation(_) => XlinkLevel::Representation,
        }
    }

    /// The kind of this element.
    #[verifier::when_used_as_spec(spec_level)]
    pub fn level(&self) -> (level: XlinkLevel)
        ensures
            level == self.spec_level(),
    {
        match self {
            XlinkNode::Period(_) => XlinkLevel::Period,
            XlinkNode::AdaptationSet(_) => XlinkLevel::AdaptationSet,
            XlinkNode::Representation(_) => XlinkLevel::Representation,
        }
    }
}

/// A remote document that has been fetched: the URL it was fetched from and
/// the element that it holds.
#[derive(Clone, Debug)]
pub struct XlinkEntry {
    pub url: String,
    pub node: XlinkNode,
}

/// A request for a remote document: where it is and what it has to hold.
#[derive(Debug)]
pub struct XlinkRequest {
    pub url: AbsoluteUrl,
    pub level: XlinkLevel,
}

/// What an element is, by its `xlink:href`.
pub enum Link {
    /// Without an `xlink:href` the element stands for itself.
    Inline,
    /// The reference resolves to nothing: the element is as if absent.
    Absent,
    /// The element is to be replaced by the document at this URL.
    Remote(Seq<char>),
    /// The reference cannot be made into a URL.
    Broken,
}

/// What the element with this `xlink:href` is. A reference is taken under
/// the URL of the manifest, whatever base URL is in force where it stands.
pub open spec fn link_of(href: Option<String>, manifest_url: Seq<char>) -> Link {
    match href {
        None => Link::Inline,
        Some(h) => if !is_fetchable_href(h@) {
            Link::Absent
        } else {
            match url_resolve(manifest_url, h@) {
                Some(url) => Link::Remote(url),
                None => Link::Broken,
            }
        },
    }
}

/// What an element is, by its `xlink:href`, as the resolver holds it.
#[derive(Debug)]
pub enum LinkTarget {
    Inline,
    Absent,
    Remote(AbsoluteUrl),
}

/// Says what the element with this `xlink:href` is; a reference that cannot
/// be made into a URL is a parsing error.
pub fn classify_link(href: &Option<String>, manifest_url: &AbsoluteUrl) -> (result: Result<
    LinkTarget,
    DashMpdError,
>)
    ensures
        match result {
            Ok(LinkTarget::Inline) => link_of(*href, manifest_url@) == Link::Inline,
            Ok(LinkTarget::Absent) => link_of(*href, manifest_url@) == Link::Absent,
            Ok(LinkTarget::Remote(url)) => link_of(*href, manifest_url@) == Link::Remote(url@)
                && is_absolute_text(url@),
            Err(error) => link_of(*href, manifest_url@) == Link::Broken && error.spec_kind()
                == ErrorKind::Parsing,
        },
{
    match href {
        None => Ok(LinkTarget::Inline),
        Some(h) => {
            if !fetchable_xlink_href(h.as_str()) {
                Ok(LinkTarget::Absent)
            } else {
                match manifest_url.resolve(h.as_str()) {
                    Ok(url) => Ok(LinkTarget::Remote(url)),
                    Err(error) => Err(url_error("resolving XLink URL", &error)),
                }
            }
        },
    }
}

/// The first element of the given kind, from position `from` on, that was
/// fetched from `url`.
pub open spec fn stored_from(store: Seq<XlinkEntry>, url: Seq<char>, level: XlinkLevel, from: int) -> Option<
    XlinkNode,
>
    decreases store.len() - from,
{
    if from < 0 || from >= store.len() {
        None
    } else if store[from].url@ == url && store[from].node.spec_level() == level {
        Some(store[from].node)
    } else {
        stored_from(store, url, level, from + 1)
    }
}

/// The first element of the given kind that was fetched from `url`.
pub open spec fn stored_node(store: Seq<XlinkEntry>, url: Seq<char>, level: XlinkLevel) -> Option<
    XlinkNode,
> {
    stored_from(store, url, level, 0)
}

/// What is found in the store has the kind that was asked for.
pub proof fn lemma_stored_level(store: Seq<XlinkEntry>, url: Seq<char>, level: XlinkLevel, from: int)
    ensures
        stored_from(store, url, level, from) is Some ==> stored_from(
            store,
            url,
            level,
            from,
        )->0.spec_level() == level,
    decreases store.len() - from,
{
    if 0 <= from < store.len() {
        lemma_stored_level(store, url, level, from + 1);
    }
}

/// Looks up the element of the given kind that was fetched from `url`.
pub fn find_node<'a>(store: &'a Vec<XlinkEntry>, url: &str, level: XlinkLevel) -> (found: Option<
    &'a XlinkNode,
>)
    ensures
        match found {
            Some(node) => stored_node(store@, url@, level) == Some(*node) && node.spec_level()
                == level,
            None => stored_node(store@, url@, level) is None,
        },
{
    let wanted = chars_of(url);
    let mut i: usize = 0;
    while i < store.len()
        invariant
            i <= store.len(),
            wanted@ == url@,
            stored_node(store@, url@, level) == stored_from(store@, url@, level, i as int),
        decreases store.len() - i,
    {
        let here = chars_of(store[i].url.as_str());
        if same_chars(&here, &wanted) && store[i].node.level() == level {
            return Some(&store[i].node);
        }
        i += 1;
    }
    None
}

} // verus!
