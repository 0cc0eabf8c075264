//! Media fragments: the units of a download.

use crate::base_url::{is_absolute_text, url_join, AbsoluteUrl};
use crate::error::Fault;
use vstd::prelude::*;

verus! {

/// The two streams of a download.
#[derive(Clone, Copy, Debug, PartialEq, Eq, Structural)]
pub enum StreamKind {
    Audio,
    Video,
}

/// One thing to fetch: a URL and, where both bounds are given, the bytes of
/// that resource to ask for.
#[derive(Debug)]
pub struct MediaFragment {
    pub url: AbsoluteUrl,
    pub start_byte: Option<u64>,
    pub end_byte: Option<u64>,
}

/// A media fragment as plain values.
pub struct FragmentView {
    pub url: Seq<char>,
    pub start_byte: Option<u64>,
    pub end_byte: Option<u64>,
}

impl View for MediaFragment {
    type V = FragmentView;

    open spec fn view(&self) -> FragmentView {
        FragmentView { url: self.url@, start_byte: self.start_byte, end_byte: self.end_byte }
    }
}

/// The fragments of a list as plain values.
pub open spec fn fragment_views(fragments: Seq<MediaFragment>) -> Seq<FragmentView> {
    Seq::new(fragments.len(), |i: int| fragments[i]@)
}

/// Every fragment of the list has an absolute URL.
pub open spec fn all_absolute(fragments: Seq<MediaFragment>) -> bool {
    forall|i: int| 0 <= i < fragments.len() ==> is_absolute_text(#[trigger] fragments[i].url@)
}

/// A fragment for the whole resource at `url`.
pub open spec fn whole(url: Seq<char>) -> FragmentView {
    FragmentView { url, start_byte: None, end_byte: None }
}

/// A fragment for the resource at `url`, or for the bytes of it that `range`
/// gives.
pub open spec fn ranged(url: Seq<char>, range: Option<(u64, u64)>) -> FragmentView {
    match range {
        Some((first, last)) => FragmentView { url, start_byte: Some(first), end_byte: Some(last) },
        None => whole(url),
    }
}

/// The fragments for the paths of a list, each joined to `base`, or `None`
/// where one of them cannot be joined.
pub open spec fn joined_all(base: Seq<char>, paths: Seq<Seq<char>>) -> Option<Seq<FragmentView>> {
    if forall|i: int| 0 <= i < paths.len() ==> url_join(base, #[trigger] paths[i]) is Some {
        Some(Seq::new(paths.len(), |i: int| whole(url_join(base, paths[i])->0)))
    } else {
        None
    }
}

/// What a step of the resolution gives: fragments, or the fault that ends
/// it.
pub type Fragments = Result<Seq<FragmentView>, Fault>;

/// The fragments of `first`, then those of `second`; the first error wins.
pub open spec fn then_fragments(first: Fragments, second: Fragments) -> Fragments {
    match first {
        Err(fault) => Err(fault),
        Ok(head) => match second {
            Err(fault) => Err(fault),
            Ok(tail) => Ok(head + tail),
        },
    }
}

impl MediaFragment {
    /// A fragment for the whole resource at `url`.
    pub fn whole(url: AbsoluteUrl) -> (fragment: MediaFragment)
        ensures
            fragment@ == whole(url@),
            fragment.url == url,
    {
        MediaFragment { url, start_byte: None, end_byte: None }
    }

    /// A fragment for the resource at `url`, or for the bytes of it that
    /// `range` gives.
    pub fn ranged(url: AbsoluteUrl, range: Option<(u64, u64)>) -> (fragment: MediaFragment)
        ensures
            fragment@ == ranged(url@, range),
            fragment.url == url,
    {
        match range {
            Some((first, last)) => MediaFragment {
                url,
                start_byte: Some(first),
                end_byte: Some(last),
            },
            None => MediaFragment { url, start_byte: None, end_byte: None },
        }
    }
}

/// Moves the fragments of `tail` to the end of `list`.
pub fn append_fragments(list: &mut Vec<MediaFragment>, tail: Vec<MediaFragment>)
    ensures
        final(list)@ == old(list)@ + tail@,
        fragment_views(final(list)@) == fragment_views(old(list)@) + fragment_views(tail@),
        all_absolute(old(list)@) && all_absolute(tail@) ==> all_absolute(final(list)@),
{
    let ghost moved = tail@;
    let mut tail = tail;
    list.append(&mut tail);
    assert(fragment_views(list@) =~= fragment_views(old(list)@) + fragment_views(moved));
}

} // verus!
