//! The parts of a parsed MPD manifest that the download reads.

use vstd::prelude::*;

verus! {

/// A `BaseURL` element.
#[derive(Clone, Debug, Default)]
pub struct BaseUrl {
    pub base: String,
}

/// An `Initialization` element: where the initialization segment is, and
/// which bytes of that resource it is.
#[derive(Clone, Debug, Default)]
pub struct Initialization {
    pub source_url: Option<String>,
    pub range: Option<String>,
}

/// A `SegmentURL` element of a `SegmentList`.
#[derive(Clone, Debug, Default)]
pub struct SegmentUrl {
    pub media: Option<String>,
    pub media_range: Option<String>,
}

/// A `SegmentList` element: the segments, one by one.
#[derive(Clone, Debug, Default)]
pub struct SegmentList {
    pub initialization: Option<Initialization>,
    pub segment_urls: Vec<SegmentUrl>,
}

/// A `SegmentBase` element: one resource that holds its own index.
#[derive(Clone, Debug, Default)]
pub struct SegmentBase {
    pub initialization: Option<Initialization>,
    pub index_range: Option<String>,
}

/// An `S` element of a `SegmentTimeline`: a segment that starts at `t` (where
/// given) and lasts `d`, followed by `r` more of the same length. A negative
/// `r` repeats the segment to the end of the period.
#[derive(Clone, Copy, Debug, Default)]
pub struct TimelineEntry {
    pub t: Option<u64>,
    pub d: u64,
    pub r: Option<i64>,
}

/// A `SegmentTimeline` element.
#[derive(Clone, Debug, Default)]
pub struct SegmentTimeline {
    pub segments: Vec<TimelineEntry>,
}

/// A `SegmentTemplate` element. `duration` counts units of which `timescale`
/// make a second.
#[derive(Clone, Debug, Default)]
pub struct SegmentTemplate {
    pub initialization: Option<String>,
    pub media: Option<String>,
    pub duration: Option<u64>,
    pub timescale: Option<u64>,
    pub start_number: Option<u64>,
    pub segment_timeline: Option<SegmentTimeline>,
}

/// A `Representation` element: one encoding of the content.
#[derive(Clone, Debug, Default)]
pub struct Representation {
    pub id: Option<String>,
    pub bandwidth: Option<u64>,
    pub href: Option<String>,
    pub base_urls: Vec<BaseUrl>,
    pub segment_template: Option<SegmentTemplate>,
    pub segment_list: Option<SegmentList>,
    pub segment_base: Option<SegmentBase>,
}

/// An `AdaptationSet` element: interchangeable encodings of one component.
/// `audio` and `video` say what the parser took the component for.
#[derive(Clone, Debug, Default)]
pub struct AdaptationSet {
    pub lang: Option<String>,
    pub audio: bool,
    pub video: bool,
    pub href: Option<String>,
    pub base_urls: Vec<BaseUrl>,
    pub segment_template: Option<SegmentTemplate>,
    pub segment_list: Option<SegmentList>,
    pub representations: Vec<Representation>,
}

/// A `Period` element. `duration` is in nanoseconds.
#[derive(Clone, Debug, Default)]
pub struct Period {
    pub duration: Option<u64>,
    pub href: Option<String>,
    pub base_urls: Vec<BaseUrl>,
    pub adaptations: Vec<AdaptationSet>,
}

/// The manifest. `media_presentation_duration` is in nanoseconds.
#[derive(Clone, Debug, Default)]
pub struct Mpd {
    pub mpdtype: Option<String>,
    pub media_presentation_duration: Option<u64>,
    pub locations: Vec<String>,
    pub base_urls: Vec<BaseUrl>,
    pub periods: Vec<Period>,
}

/// The first `BaseURL` of a list, the only one that is consulted.
pub open spec fn first_base(base_urls: Seq<BaseUrl>) -> Option<Seq<char>> {
    if base_urls.len() > 0 {
        Some(base_urls[0].base@)
    } else {
        None
    }
}

} // verus!
