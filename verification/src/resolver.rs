//! From a manifest to the fragments of its audio and video streams: the
//! periods in order, XLink references followed, one adaptation set and one
//! representation chosen for each stream.

use crate::addressing::{emit_representation, enter_level, representation_fragments, scoped_base};
use crate::base_url::{is_absolute_text, AbsoluteUrl};
use crate::error::{reports, DashMpdError, Fault};
use crate::fragment::{
    all_absolute, append_fragments, fragment_views, FragmentView, MediaFragment, StreamKind,
};
use crate::mpd::{AdaptationSet, Mpd, Period, Representation};
use crate::select::{
    audio_choice, audio_keys, lang_of, representation_choice, select_audio_adaptation,
    select_representation, select_video_adaptation, text_of, video_choice, video_keys,
    Preferences, QualityPreference,
};
use crate::text::same_text;
use crate::xlink::{
    classify_link, find_node, lemma_stored_level, link_of, stored_node, Link, LinkTarget,
    XlinkEntry, XlinkLevel, XlinkNode, XlinkRequest,
};
use vstd::prelude::*;

verus! {

/// How far a resolution has come: to its end, to a remote document that has
/// to be fetched first, or to an error.
pub enum Outcome<T> {
    Done(T),
    Fetch(Seq<char>, XlinkLevel),
    Fail(Fault),
}

/// How far a resolution has come, as the resolver holds it: to its end, or
/// to a remote document that has to be fetched first.
#[derive(Debug)]
pub enum Step<T> {
    Done(T),
    Fetch(XlinkRequest),
}

/// The fragments of the two streams, in the order in which to fetch them.
#[derive(Debug)]
pub struct FragmentLists {
    pub audio: Vec<MediaFragment>,
    pub video: Vec<MediaFragment>,
}

/// The fragments of the two streams as plain values.
pub struct StreamLists {
    pub audio: Seq<FragmentView>,
    pub video: Seq<FragmentView>,
}

impl View for FragmentLists {
    type V = StreamLists;

    open spec fn view(&self) -> StreamLists {
        StreamLists { audio: fragment_views(self.audio@), video: fragment_views(self.video@) }
    }
}

/// What a manifest resolves to: the fragments of its two streams, or a
/// request for a remote document without which they cannot be listed.
pub type Resolution = Step<FragmentLists>;

/// The period that stands where `host` stands: `host` itself, the period
/// that was fetched in its place, or none.
pub open spec fn linked_period(host: Period, manifest_url: Seq<char>, store: Seq<XlinkEntry>) -> Outcome<
    Option<Period>,
> {
    match link_of(host.href, manifest_url) {
        Link::Inline => Outcome::Done(Some(host)),
        Link::Absent => Outcome::Done(None),
        Link::Broken => Outcome::Fail(Fault::Url),
        Link::Remote(url) => match stored_node(store, url, XlinkLevel::Period) {
            Some(XlinkNode::Period(period)) => Outcome::Done(Some(period)),
            _ => Outcome::Fetch(url, XlinkLevel::Period),
        },
    }
}

/// The adaptation set that stands where `host` stands.
pub open spec fn linked_adaptation(
    host: AdaptationSet,
    manifest_url: Seq<char>,
    store: Seq<XlinkEntry>,
) -> Outcome<Option<AdaptationSet>> {
    match link_of(host.href, manifest_url) {
        Link::Inline => Outcome::Done(Some(host)),
        Link::Absent => Outcome::Done(None),
        Link::Broken => Outcome::Fail(Fault::Url),
        Link::Remote(url) => match stored_node(store, url, XlinkLevel::AdaptationSet) {
            Some(XlinkNode::AdaptationSet(adaptation)) => Outcome::Done(Some(adaptation)),
            _ => Outcome::Fetch(url, XlinkLevel::AdaptationSet),
        },
    }
}

/// The representations among which one is chosen: `chosen`, then, for each
/// representation from position `i` on, the one that stands in its place,
/// where one does.
pub open spec fn candidates_from(
    representations: Seq<Representation>,
    i: int,
    manifest_url: Seq<char>,
    store: Seq<XlinkEntry>,
    chosen: Seq<Representation>,
) -> Outcome<Seq<Representation>>
    decreases representations.len() - i,
{
    if i < 0 || i >= representations.len() {
        Outcome::Done(chosen)
    } else {
        match link_of(representations[i].href, manifest_url) {
            Link::Inline => candidates_from(
                representations,
                i + 1,
                manifest_url,
                store,
                chosen.push(representations[i]),
            ),
            Link::Absent => candidates_from(representations, i + 1, manifest_url, store, chosen),
            Link::Broken => Outcome::Fail(Fault::Url),
            Link::Remote(url) => match stored_node(store, url, XlinkLevel::Representation) {
                Some(XlinkNode::Representation(representation)) => candidates_from(
                    representations,
                    i + 1,
                    manifest_url,
                    store,
                    chosen.push(representation),
                ),
                _ => Outcome::Fetch(url, XlinkLevel::Representation),
            },
        }
    }
}

/// The representations of an adaptation set among which one is chosen.
pub open spec fn candidates(
    adaptation: AdaptationSet,
    manifest_url: Seq<char>,
    store: Seq<XlinkEntry>,
) -> Outcome<Seq<Representation>> {
    candidates_from(adaptation.representations@, 0, manifest_url, store, Seq::empty())
}

/// The bandwidths of a list of representations.
pub open spec fn bandwidths(representations: Seq<Representation>) -> Seq<Option<u64>> {
    Seq::new(representations.len(), |i: int| representations[i].bandwidth)
}

/// The adaptation set of a period that is chosen for a stream.
pub open spec fn stream_choice(
    adaptations: Seq<AdaptationSet>,
    stream: StreamKind,
    language: Option<Seq<char>>,
) -> Option<int> {
    match stream {
        StreamKind::Audio => audio_choice(adaptations, language),
        StreamKind::Video => video_choice(adaptations),
    }
}

/// The fragments of a representation, as a step of the resolution.
pub open spec fn fragments_outcome(fragments: Result<Seq<FragmentView>, Fault>) -> Outcome<
    Seq<FragmentView>,
> {
    match fragments {
        Ok(list) => Outcome::Done(list),
        Err(fault) => Outcome::Fail(fault),
    }
}

/// The fragments that the chosen representation of an adaptation set adds
/// to its stream. An audio stream can do without a representation; for a
/// video stream it is an error to find none.
pub open spec fn adaptation_outcome(
    adaptation: AdaptationSet,
    stream: StreamKind,
    quality: QualityPreference,
    period_base: Seq<char>,
    manifest_url: Seq<char>,
    store: Seq<XlinkEntry>,
    period_ns: u64,
) -> Outcome<Seq<FragmentView>> {
    match scoped_base(period_base, adaptation.base_urls@) {
        None => Outcome::Fail(Fault::Url),
        Some(base) => match candidates(adaptation, manifest_url, store) {
            Outcome::Fail(fault) => Outcome::Fail(fault),
            Outcome::Fetch(url, level) => Outcome::Fetch(url, level),
            Outcome::Done(found) => match representation_choice(bandwidths(found), quality) {
                Some(r) => fragments_outcome(
                    representation_fragments(
                        adaptation,
                        found[r],
                        base,
                        period_ns,
                        stream,
                    ),
                ),
                None => match stream {
                    StreamKind::Audio => Outcome::Done(Seq::empty()),
                    StreamKind::Video => Outcome::Fail(Fault::NoVideoRepresentation),
                },
            },
        },
    }
}

/// The fragments that a period adds to a stream: those of one
/// representation of the adaptation set chosen for the stream, with the
/// base URL of the period branching at that adaptation set.
pub open spec fn stream_outcome(
    period: Period,
    stream: StreamKind,
    preferences: Preferences,
    period_base: Seq<char>,
    manifest_url: Seq<char>,
    store: Seq<XlinkEntry>,
    period_ns: u64,
) -> Outcome<Seq<FragmentView>> {
    match stream_choice(period.adaptations@, stream, text_of(preferences.language)) {
        None => Outcome::Done(Seq::empty()),
        Some(i) => match linked_adaptation(period.adaptations@[i], manifest_url, store) {
            Outcome::Fail(fault) => Outcome::Fail(fault),
            Outcome::Fetch(url, level) => Outcome::Fetch(url, level),
            Outcome::Done(None) => Outcome::Done(Seq::empty()),
            Outcome::Done(Some(adaptation)) => adaptation_outcome(
                adaptation,
                stream,
                preferences.quality,
                period_base,
                manifest_url,
                store,
                period_ns,
            ),
        },
    }
}

/// How long a period lasts, in nanoseconds: its own duration, or that of
/// the presentation, or nothing.
pub open spec fn period_length(period: Period, mpd: Mpd) -> u64 {
    match period.duration {
        Some(d) => d,
        None => match mpd.media_presentation_duration {
            Some(d) => d,
            None => 0,
        },
    }
}

/// The lists of the two streams once a period that is present has added its
/// fragments to them: the audio stream first, then the video stream, each
/// only where it is asked for.
pub open spec fn present_period_outcome(
    period: Period,
    mpd: Mpd,
    preferences: Preferences,
    top_base: Seq<char>,
    manifest_url: Seq<char>,
    store: Seq<XlinkEntry>,
    lists: StreamLists,
) -> Outcome<StreamLists> {
    let period_ns = period_length(period, mpd);
    match scoped_base(top_base, period.base_urls@) {
        None => Outcome::Fail(Fault::Url),
        Some(period_base) => {
            let audio = if preferences.fetch_audio {
                stream_outcome(
                    period,
                    StreamKind::Audio,
                    preferences,
                    period_base,
                    manifest_url,
                    store,
                    period_ns,
                )
            } else {
                Outcome::Done(Seq::empty())
            };
            match audio {
                Outcome::Fail(fault) => Outcome::Fail(fault),
                Outcome::Fetch(url, level) => Outcome::Fetch(url, level),
                Outcome::Done(more_audio) => {
                    let video = if preferences.fetch_video {
                        stream_outcome(
                            period,
                            StreamKind::Video,
                            preferences,
                            period_base,
                            manifest_url,
                            store,
                            period_ns,
                        )
                    } else {
                        Outcome::Done(Seq::empty())
                    };
                    match video {
                        Outcome::Fail(fault) => Outcome::Fail(fault),
                        Outcome::Fetch(url, level) => Outcome::Fetch(url, level),
                        Outcome::Done(more_video) => Outcome::Done(
                            StreamLists {
                                audio: lists.audio + more_audio,
                                video: lists.video + more_video,
                            },
                        ),
                    }
                },
            }
        },
    }
}

/// The lists of the two streams once the period at `host` has added its
/// fragments to them. A period that resolves to nothing adds none.
pub open spec fn period_outcome(
    host: Period,
    mpd: Mpd,
    preferences: Preferences,
    top_base: Seq<char>,
    manifest_url: Seq<char>,
    store: Seq<XlinkEntry>,
    lists: StreamLists,
) -> Outcome<StreamLists> {
    match linked_period(host, manifest_url, store) {
        Outcome::Fail(fault) => Outcome::Fail(fault),
        Outcome::Fetch(url, level) => Outcome::Fetch(url, level),
        Outcome::Done(None) => Outcome::Done(lists),
        Outcome::Done(Some(period)) => present_period_outcome(
            period,
            mpd,
            preferences,
            top_base,
            manifest_url,
            store,
            lists,
        ),
    }
}

/// The lists of the two streams once the periods from position `i` on have
/// added their fragments to them, in order.
pub open spec fn periods_from(
    mpd: Mpd,
    i: int,
    preferences: Preferences,
    top_base: Seq<char>,
    manifest_url: Seq<char>,
    store: Seq<XlinkEntry>,
    lists: StreamLists,
) -> Outcome<StreamLists>
    decreases mpd.periods.len() - i,
{
    if i < 0 || i >= mpd.periods.len() {
        Outcome::Done(lists)
    } else {
        match period_outcome(
            mpd.periods@[i],
            mpd,
            preferences,
            top_base,
            manifest_url,
            store,
            lists,
        ) {
            Outcome::Fail(fault) => Outcome::Fail(fault),
            Outcome::Fetch(url, level) => Outcome::Fetch(url, level),
            Outcome::Done(more) => periods_from(
                mpd,
                i + 1,
                preferences,
                top_base,
                manifest_url,
                store,
                more,
            ),
        }
    }
}

/// Where a manifest says that it is to be fetched from instead: its first
/// `Location`, where it has one.
pub open spec fn relocation(mpd: Mpd) -> Option<Seq<char>> {
    if mpd.locations@.len() > 0 {
        Some(mpd.locations@[0]@)
    } else {
        None
    }
}

/// The manifest is of the dynamic type, which is not downloaded.
pub open spec fn is_dynamic(mpd: Mpd) -> bool {
    mpd.mpdtype is Some && mpd.mpdtype->0@ == "dynamic"@
}

/// What a manifest resolves to. `manifest_url` is the URL that the manifest
/// was fetched from, after redirections; `store` holds the remote documents
/// fetched so far.
pub open spec fn resolution(
    mpd: Mpd,
    preferences: Preferences,
    manifest_url: Seq<char>,
    store: Seq<XlinkEntry>,
) -> Outcome<StreamLists> {
    if is_dynamic(mpd) {
        Outcome::Fail(Fault::Dynamic)
    } else {
        match scoped_base(manifest_url, mpd.base_urls@) {
            None => Outcome::Fail(Fault::Url),
            Some(top_base) => periods_from(
                mpd,
                0,
                preferences,
                top_base,
                manifest_url,
                store,
                StreamLists { audio: Seq::empty(), video: Seq::empty() },
            ),
        }
    }
}


/// The step agrees with what was expected of it: the same fragments, all of
/// them with an absolute URL; a request for the same document; or an error
/// that reports the same fault.
pub open spec fn fragments_step_is(
    result: Result<Step<Vec<MediaFragment>>, DashMpdError>,
    expected: Outcome<Seq<FragmentView>>,
) -> bool {
    match result {
        Ok(Step::Done(list)) => expected == Outcome::Done(fragment_views(list@)) && all_absolute(
            list@,
        ),
        Ok(Step::Fetch(request)) => expected == Outcome::<Seq<FragmentView>>::Fetch(
            request.url@,
            request.level,
        ) && is_absolute_text(request.url@),
        Err(error) => expected is Fail && reports(error, expected->Fail_0),
    }
}

/// The resolution agrees with what was expected of it: the same two lists
/// of fragments, all of them with an absolute URL; a request for the same
/// document; or an error that reports the same fault.
pub open spec fn resolution_is(
    result: Result<Resolution, DashMpdError>,
    expected: Outcome<StreamLists>,
) -> bool {
    match result {
        Ok(Step::Done(lists)) => expected == Outcome::Done(lists@) && all_absolute(lists.audio@)
            && all_absolute(lists.video@),
        Ok(Step::Fetch(request)) => expected == Outcome::<StreamLists>::Fetch(
            request.url@,
            request.level,
        ) && is_absolute_text(request.url@),
        Err(error) => expected is Fail && reports(error, expected->Fail_0),
    }
}

/// The representations that a list of references points to.
pub open spec fn deref_all(list: Seq<&Representation>) -> Seq<Representation> {
    Seq::new(list.len(), |i: int| *list[i])
}

fn follow_period<'a>(host: &'a Period, manifest_url: &AbsoluteUrl, store: &'a Vec<XlinkEntry>) -> (result:
    Result<Step<Option<&'a Period>>, DashMpdError>)
    ensures
        match result {
            Ok(Step::Done(Some(period))) => linked_period(*host, manifest_url@, store@)
                == Outcome::Done(Some(*period)),
            Ok(Step::Done(None)) => linked_period(*host, manifest_url@, store@) == Outcome::Done(
                None::<Period>,
            ),
            Ok(Step::Fetch(request)) => linked_period(*host, manifest_url@, store@)
                == Outcome::<Option<Period>>::Fetch(request.url@, request.level) && is_absolute_text(
                request.url@,
            ),
            Err(error) => linked_period(*host, manifest_url@, store@) == Outcome::<
                Option<Period>,
            >::Fail(Fault::Url) && reports(error, Fault::Url),
        },
{
    match classify_link(&host.href, manifest_url) {
        Err(error) => Err(error),
        Ok(LinkTarget::Inline) => Ok(Step::Done(Some(host))),
        Ok(LinkTarget::Absent) => Ok(Step::Done(None)),
        Ok(LinkTarget::Remote(url)) => match find_node(store, url.as_str(), XlinkLevel::Period) {
            Some(XlinkNode::Period(period)) => Ok(Step::Done(Some(period))),
            _ => Ok(Step::Fetch(XlinkRequest { url, level: XlinkLevel::Period })),
        },
    }
}

fn follow_adaptation<'a>(
    host: &'a AdaptationSet,
    manifest_url: &AbsoluteUrl,
    store: &'a Vec<XlinkEntry>,
) -> (result: Result<Step<Option<&'a AdaptationSet>>, DashMpdError>)
    ensures
        match result {
            Ok(Step::Done(Some(adaptation))) => linked_adaptation(*host, manifest_url@, store@)
                == Outcome::Done(Some(*adaptation)),
            Ok(Step::Done(None)) => linked_adaptation(*host, manifest_url@, store@)
                == Outcome::Done(None::<AdaptationSet>),
            Ok(Step::Fetch(request)) => linked_adaptation(*host, manifest_url@, store@)
                == Outcome::<Option<AdaptationSet>>::Fetch(request.url@, request.level)
                && is_absolute_text(request.url@),
            Err(error) => linked_adaptation(*host, manifest_url@, store@) == Outcome::<
                Option<AdaptationSet>,
            >::Fail(Fault::Url) && reports(error, Fault::Url),
        },
{
    match classify_link(&host.href, manifest_url) {
        Err(error) => Err(error),
        Ok(LinkTarget::Inline) => Ok(Step::Done(Some(host))),
        Ok(LinkTarget::Absent) => Ok(Step::Done(None)),
        Ok(LinkTarget::Remote(url)) => match find_node(
            store,
            url.as_str(),
            XlinkLevel::AdaptationSet,
        ) {
            Some(XlinkNode::AdaptationSet(adaptation)) => Ok(Step::Done(Some(adaptation))),
            _ => Ok(Step::Fetch(XlinkRequest { url, level: XlinkLevel::AdaptationSet })),
        },
    }
}

fn gather_candidates<'a>(
    adaptation: &'a AdaptationSet,
    manifest_url: &AbsoluteUrl,
    store: &'a Vec<XlinkEntry>,
) -> (result: Result<Step<Vec<&'a Representation>>, DashMpdError>)
    ensures
        match result {
            Ok(Step::Done(list)) => candidates(*adaptation, manifest_url@, store@) == Outcome::Done(
                deref_all(list@),
            ),
            Ok(Step::Fetch(request)) => candidates(*adaptation, manifest_url@, store@)
                == Outcome::<Seq<Representation>>::Fetch(request.url@, request.level)
                && is_absolute_text(request.url@),
            Err(error) => candidates(*adaptation, manifest_url@, store@) == Outcome::<
                Seq<Representation>,
            >::Fail(Fault::Url) && reports(error, Fault::Url),
        },
{
    let mut chosen: Vec<&'a Representation> = Vec::new();
    let mut i: usize = 0;
    assert(deref_all(chosen@) =~= Seq::<Representation>::empty());
    while i < adaptation.representations.len()
        invariant
            i <= adaptation.representations.len(),
            candidates(*adaptation, manifest_url@, store@) == candidates_from(
                adaptation.representations@,
                i as int,
                manifest_url@,
                store@,
                deref_all(chosen@),
            ),
        decreases adaptation.representations.len() - i,
    {
        let host = &adaptation.representations[i];
        let ghost before = deref_all(chosen@);
        match classify_link(&host.href, manifest_url) {
            Err(error) => {
                return Err(error);
            },
            Ok(LinkTarget::Inline) => {
                chosen.push(host);
                assert(deref_all(chosen@) =~= before.push(*host));
            },
            Ok(LinkTarget::Absent) => {},
            Ok(LinkTarget::Remote(url)) => {
                match find_node(store, url.as_str(), XlinkLevel::Representation) {
                    Some(XlinkNode::Representation(representation)) => {
                        chosen.push(representation);
                        assert(deref_all(chosen@) =~= before.push(*representation));
                    },
                    _ => {
                        return Ok(
                            Step::Fetch(XlinkRequest { url, level: XlinkLevel::Representation }),
                        );
                    },
                }
            },
        }
        i += 1;
    }
    Ok(Step::Done(chosen))
}

fn bandwidths_of(list: &Vec<&Representation>) -> (found: Vec<Option<u64>>)
    ensures
        found@ == bandwidths(deref_all(list@)),
{
    let mut found: Vec<Option<u64>> = Vec::new();
    let mut i: usize = 0;
    while i < list.len()
        invariant
            i <= list.len(),
            found@ == bandwidths(deref_all(list@)).take(i as int),
        decreases list.len() - i,
    {
        found.push(list[i].bandwidth);
        assert(found@ =~= bandwidths(deref_all(list@)).take(i + 1));
        i += 1;
    }
    assert(found@ =~= bandwidths(deref_all(list@)));
    found
}

fn no_fragments() -> (list: Vec<MediaFragment>)
    ensures
        fragment_views(list@) == Seq::<FragmentView>::empty(),
        all_absolute(list@),
{
    let list: Vec<MediaFragment> = Vec::new();
    assert(fragment_views(list@) =~= Seq::<FragmentView>::empty());
    list
}

fn resolve_adaptation(
    adaptation: &AdaptationSet,
    stream: StreamKind,
    quality: QualityPreference,
    period_base: &AbsoluteUrl,
    manifest_url: &AbsoluteUrl,
    store: &Vec<XlinkEntry>,
    period_ns: u64,
) -> (result: Result<Step<Vec<MediaFragment>>, DashMpdError>)
    ensures
        fragments_step_is(
            result,
            adaptation_outcome(
                *adaptation,
                stream,
                quality,
                period_base@,
                manifest_url@,
                store@,
                period_ns,
            ),
        ),
{
    let base = match enter_level(period_base, &adaptation.base_urls, "resolving AdaptationSet BaseURL") {
        Ok(url) => url,
        Err(error) => {
            return Err(error);
        },
    };
    let found = match gather_candidates(adaptation, manifest_url, store) {
        Err(error) => {
            return Err(error);
        },
        Ok(Step::Fetch(request)) => {
            return Ok(Step::Fetch(request));
        },
        Ok(Step::Done(found)) => found,
    };
    let keys = bandwidths_of(&found);
    match select_representation(&keys, quality) {
        Some(r) => {
            match emit_representation(adaptation, found[r], &base, period_ns, stream) {
                Ok(list) => Ok(Step::Done(list)),
                Err(error) => Err(error),
            }
        },
        None => match stream {
            StreamKind::Audio => Ok(Step::Done(no_fragments())),
            StreamKind::Video => Err(
                DashMpdError::unhandled(
                    "Couldn't find lowest bandwidth video stream in DASH manifest",
                ),
            ),
        },
    }
}

fn resolve_stream(
    period: &Period,
    stream: StreamKind,
    preferences: &Preferences,
    period_base: &AbsoluteUrl,
    manifest_url: &AbsoluteUrl,
    store: &Vec<XlinkEntry>,
    period_ns: u64,
) -> (result: Result<Step<Vec<MediaFragment>>, DashMpdError>)
    ensures
        fragments_step_is(
            result,
            stream_outcome(
                *period,
                stream,
                *preferences,
                period_base@,
                manifest_url@,
                store@,
                period_ns,
            ),
        ),
{
    let choice = match stream {
        StreamKind::Audio => select_audio_adaptation(&period.adaptations, &preferences.language),
        StreamKind::Video => select_video_adaptation(&period.adaptations),
    };
    match choice {
        None => Ok(Step::Done(no_fragments())),
        Some(i) => match follow_adaptation(&period.adaptations[i], manifest_url, store) {
            Err(error) => Err(error),
            Ok(Step::Fetch(request)) => Ok(Step::Fetch(request)),
            Ok(Step::Done(None)) => Ok(Step::Done(no_fragments())),
            Ok(Step::Done(Some(adaptation))) => resolve_adaptation(
                adaptation,
                stream,
                preferences.quality,
                period_base,
                manifest_url,
                store,
                period_ns,
            ),
        },
    }
}

fn length_of(period: &Period, mpd: &Mpd) -> (length: u64)
    ensures
        length == period_length(*period, *mpd),
{
    match period.duration {
        Some(d) => d,
        None => match mpd.media_presentation_duration {
            Some(d) => d,
            None => 0,
        },
    }
}

fn resolve_present_period(
    period: &Period,
    mpd: &Mpd,
    preferences: &Preferences,
    top_base: &AbsoluteUrl,
    manifest_url: &AbsoluteUrl,
    store: &Vec<XlinkEntry>,
    lists: FragmentLists,
) -> (result: Result<Resolution, DashMpdError>)
    requires
        all_absolute(lists.audio@),
        all_absolute(lists.video@),
    ensures
        resolution_is(
            result,
            present_period_outcome(
                *period,
                *mpd,
                *preferences,
                top_base@,
                manifest_url@,
                store@,
                lists@,
            ),
        ),
{
    let mut lists = lists;
    let period_ns = length_of(period, mpd);
    let period_base = match enter_level(top_base, &period.base_urls, "resolving Period BaseURL") {
        Ok(url) => url,
        Err(error) => {
            return Err(error);
        },
    };
    if preferences.fetch_audio {
        match resolve_stream(
            period,
            StreamKind::Audio,
            preferences,
            &period_base,
            manifest_url,
            store,
            period_ns,
        ) {
            Err(error) => {
                return Err(error);
            },
            Ok(Step::Fetch(request)) => {
                return Ok(Step::Fetch(request));
            },
            Ok(Step::Done(more)) => {
                append_fragments(&mut lists.audio, more);
            },
        }
    } else {
        assert(fragment_views(lists.audio@) + Seq::<FragmentView>::empty() =~= fragment_views(
            lists.audio@,
        ));
    }
    if preferences.fetch_video {
        match resolve_stream(
            period,
            StreamKind::Video,
            preferences,
            &period_base,
            manifest_url,
            store,
            period_ns,
        ) {
            Err(error) => {
                return Err(error);
            },
            Ok(Step::Fetch(request)) => {
                return Ok(Step::Fetch(request));
            },
            Ok(Step::Done(more)) => {
                append_fragments(&mut lists.video, more);
            },
        }
    } else {
        assert(fragment_views(lists.video@) + Seq::<FragmentView>::empty() =~= fragment_views(
            lists.video@,
        ));
    }
    Ok(Step::Done(lists))
}

fn resolve_period(
    host: &Period,
    mpd: &Mpd,
    preferences: &Preferences,
    top_base: &AbsoluteUrl,
    manifest_url: &AbsoluteUrl,
    store: &Vec<XlinkEntry>,
    lists: FragmentLists,
) -> (result: Result<Resolution, DashMpdError>)
    requires
        all_absolute(lists.audio@),
        all_absolute(lists.video@),
    ensures
        resolution_is(
            result,
            period_outcome(*host, *mpd, *preferences, top_base@, manifest_url@, store@, lists@),
        ),
{
    match follow_period(host, manifest_url, store) {
        Err(error) => Err(error),
        Ok(Step::Fetch(request)) => Ok(Step::Fetch(request)),
        Ok(Step::Done(None)) => Ok(Step::Done(lists)),
        Ok(Step::Done(Some(period))) => resolve_present_period(
            period,
            mpd,
            preferences,
            top_base,
            manifest_url,
            store,
            lists,
        ),
    }
}

/// Says where a manifest is to be fetched from instead, if it names such a
/// place: its first `Location`.
pub fn manifest_location(mpd: &Mpd) -> (location: Option<&str>)
    ensures
        match location {
            Some(url) => relocation(*mpd) == Some(url@),
            None => relocation(*mpd) is None,
        },
{
    if mpd.locations.len() > 0 {
        Some(mpd.locations[0].as_str())
    } else {
        None
    }
}

/// Lists the fragments of the audio and of the video stream of a manifest,
/// in the order in which to fetch them, or asks for the remote document
/// without which they cannot be listed. `manifest_url` is the URL that the
/// manifest was fetched from, after redirections; `store` holds the remote
/// documents fetched so far. A dynamic manifest is refused.
///
/// The caller fetches the document that is asked for, adds it to the store
/// under the URL of the request, and calls again.
pub fn resolve_manifest(
    mpd: &Mpd,
    preferences: &Preferences,
    manifest_url: &AbsoluteUrl,
    store: &Vec<XlinkEntry>,
) -> (result: Result<Resolution, DashMpdError>)
    ensures
        resolution_is(result, resolution(*mpd, *preferences, manifest_url@, store@)),
        result matches Ok(Step::Done(lists)) ==> all_absolute(lists.audio@) && all_absolute(
            lists.video@,
        ),
{
    let dynamic = match &mpd.mpdtype {
        Some(kind) => same_text(kind.as_str(), "dynamic"),
        None => false,
    };
    if dynamic {
        return Err(DashMpdError::unhandled("Don't know how to download dynamic MPD"));
    }
    let top_base = match enter_level(manifest_url, &mpd.base_urls, "resolving BaseURL") {
        Ok(url) => url,
        Err(error) => {
            return Err(error);
        },
    };
    let mut lists = FragmentLists { audio: no_fragments(), video: no_fragments() };
    let mut i: usize = 0;
    while i < mpd.periods.len()
        invariant
            i <= mpd.periods.len(),
            !is_dynamic(*mpd),
            scoped_base(manifest_url@, mpd.base_urls@) == Some(top_base@),
            all_absolute(lists.audio@),
            all_absolute(lists.video@),
            resolution(*mpd, *preferences, manifest_url@, store@) == periods_from(
                *mpd,
                i as int,
                *preferences,
                top_base@,
                manifest_url@,
                store@,
                lists@,
            ),
        decreases mpd.periods.len() - i,
    {
        match resolve_period(&mpd.periods[i], mpd, preferences, &top_base, manifest_url, store, lists) {
            Err(error) => {
                return Err(error);
            },
            Ok(Step::Fetch(request)) => {
                return Ok(Step::Fetch(request));
            },
            Ok(Step::Done(more)) => {
                lists = more;
            },
        }
        i += 1;
    }
    Ok(Step::Done(lists))
}


/// Resolving the same manifest again gives the same: two results that both
/// agree with what the manifest resolves to are the same lists of
/// fragments, the same request, or errors of the same kind, with the same
/// text where the text of the fault is fixed.
pub proof fn lemma_resolution_determined(
    mpd: Mpd,
    preferences: Preferences,
    manifest_url: Seq<char>,
    store: Seq<XlinkEntry>,
    first: Result<Resolution, DashMpdError>,
    second: Result<Resolution, DashMpdError>,
)
    requires
        resolution_is(first, resolution(mpd, preferences, manifest_url, store)),
        resolution_is(second, resolution(mpd, preferences, manifest_url, store)),
    ensures
        match (first, second) {
            (Ok(Step::Done(a)), Ok(Step::Done(b))) => a@ == b@,
            (Ok(Step::Fetch(a)), Ok(Step::Fetch(b))) => a.url@ == b.url@ && a.level == b.level,
            (Err(a), Err(b)) => a.spec_kind() == b.spec_kind() && (resolution(
                mpd,
                preferences,
                manifest_url,
                store,
            )->Fail_0.message() is Some ==> a.spec_message() == b.spec_message()),
            _ => false,
        },
{
}

/// The adaptation sets of two periods are the same but for the one at
/// position `j`.
pub open spec fn same_but_at(p: Period, q: Period, j: int) -> bool {
    &&& p.adaptations@.len() == q.adaptations@.len()
    &&& 0 <= j < p.adaptations@.len()
    &&& forall|k: int|
        0 <= k < p.adaptations@.len() && k != j ==> #[trigger] p.adaptations@[k]
            == q.adaptations@[k]
}

/// What a period adds to the video stream does not depend on an adaptation
/// set that is not the one chosen for video: whatever changes in such a set,
/// its `BaseURL`s or those of its representations among the rest, the video
/// fragments stay the same. Only its being a video set or not must stay.
pub proof fn lemma_video_branch_apart(
    p: Period,
    q: Period,
    j: int,
    preferences: Preferences,
    period_base: Seq<char>,
    manifest_url: Seq<char>,
    store: Seq<XlinkEntry>,
    period_ns: u64,
)
    requires
        same_but_at(p, q, j),
        p.adaptations@[j].video == q.adaptations@[j].video,
        video_choice(p.adaptations@) != Some(j),
    ensures
        stream_outcome(
            p,
            StreamKind::Video,
            preferences,
            period_base,
            manifest_url,
            store,
            period_ns,
        ) == stream_outcome(
            q,
            StreamKind::Video,
            preferences,
            period_base,
            manifest_url,
            store,
            period_ns,
        ),
{
    assert(video_keys(p.adaptations@) =~= video_keys(q.adaptations@));
}

/// What a period adds to the audio stream does not depend on an adaptation
/// set that is not the one chosen for audio: whatever changes in such a set,
/// its `BaseURL`s or those of its representations among the rest, the audio
/// fragments stay the same. Only its being an audio set or not, and its
/// language, must stay.
pub proof fn lemma_audio_branch_apart(
    p: Period,
    q: Period,
    j: int,
    preferences: Preferences,
    period_base: Seq<char>,
    manifest_url: Seq<char>,
    store: Seq<XlinkEntry>,
    period_ns: u64,
)
    requires
        same_but_at(p, q, j),
        p.adaptations@[j].audio == q.adaptations@[j].audio,
        lang_of(p.adaptations@[j]) == lang_of(q.adaptations@[j]),
        audio_choice(p.adaptations@, text_of(preferences.language)) != Some(j),
    ensures
        stream_outcome(
            p,
            StreamKind::Audio,
            preferences,
            period_base,
            manifest_url,
            store,
            period_ns,
        ) == stream_outcome(
            q,
            StreamKind::Audio,
            preferences,
            period_base,
            manifest_url,
            store,
            period_ns,
        ),
{
    let language = text_of(preferences.language);
    assert(audio_keys(p.adaptations@, language) =~= audio_keys(q.adaptations@, language));
}


/// The outcome asks for nothing that the store holds.
pub open spec fn asks_only_for_missing<T>(outcome: Outcome<T>, store: Seq<XlinkEntry>) -> bool {
    match outcome {
        Outcome::Fetch(url, level) => stored_node(store, url, level) is None,
        _ => true,
    }
}

proof fn lemma_candidates_ask_for_missing(
    representations: Seq<Representation>,
    i: int,
    manifest_url: Seq<char>,
    store: Seq<XlinkEntry>,
    chosen: Seq<Representation>,
)
    ensures
        asks_only_for_missing(
            candidates_from(representations, i, manifest_url, store, chosen),
            store,
        ),
    decreases representations.len() - i,
{
    if 0 <= i < representations.len() {
        match link_of(representations[i].href, manifest_url) {
            Link::Inline => {
                lemma_candidates_ask_for_missing(
                    representations,
                    i + 1,
                    manifest_url,
                    store,
                    chosen.push(representations[i]),
                );
            },
            Link::Absent => {
                lemma_candidates_ask_for_missing(
                    representations,
                    i + 1,
                    manifest_url,
                    store,
                    chosen,
                );
            },
            Link::Broken => {},
            Link::Remote(url) => {
                lemma_stored_level(store, url, XlinkLevel::Representation, 0);
                match stored_node(store, url, XlinkLevel::Representation) {
                    Some(XlinkNode::Representation(representation)) => {
                        lemma_candidates_ask_for_missing(
                            representations,
                            i + 1,
                            manifest_url,
                            store,
                            chosen.push(representation),
                        );
                    },
                    _ => {},
                }
            },
        }
    }
}

proof fn lemma_stream_asks_for_missing(
    period: Period,
    stream: StreamKind,
    preferences: Preferences,
    period_base: Seq<char>,
    manifest_url: Seq<char>,
    store: Seq<XlinkEntry>,
    period_ns: u64,
)
    ensures
        asks_only_for_missing(
            stream_outcome(
                period,
                stream,
                preferences,
                period_base,
                manifest_url,
                store,
                period_ns,
            ),
            store,
        ),
{
    match stream_choice(period.adaptations@, stream, text_of(preferences.language)) {
        None => {},
        Some(i) => {
            let host = period.adaptations@[i];
            match link_of(host.href, manifest_url) {
                Link::Remote(url) => {
                    lemma_stored_level(store, url, XlinkLevel::AdaptationSet, 0);
                },
                _ => {},
            }
            match linked_adaptation(host, manifest_url, store) {
                Outcome::Done(Some(adaptation)) => {
                    lemma_candidates_ask_for_missing(
                        adaptation.representations@,
                        0,
                        manifest_url,
                        store,
                        Seq::empty(),
                    );
                },
                _ => {},
            }
        },
    }
}

proof fn lemma_period_asks_for_missing(
    host: Period,
    mpd: Mpd,
    preferences: Preferences,
    top_base: Seq<char>,
    manifest_url: Seq<char>,
    store: Seq<XlinkEntry>,
    lists: StreamLists,
)
    ensures
        asks_only_for_missing(
            period_outcome(host, mpd, preferences, top_base, manifest_url, store, lists),
            store,
        ),
{
    match link_of(host.href, manifest_url) {
        Link::Remote(url) => {
            lemma_stored_level(store, url, XlinkLevel::Period, 0);
        },
        _ => {},
    }
    match linked_period(host, manifest_url, store) {
        Outcome::Done(Some(period)) => {
            let period_ns = period_length(period, mpd);
            match scoped_base(top_base, period.base_urls@) {
                Some(period_base) => {
                    lemma_stream_asks_for_missing(
                        period,
                        StreamKind::Audio,
                        preferences,
                        period_base,
                        manifest_url,
                        store,
                        period_ns,
                    );
                    lemma_stream_asks_for_missing(
                        period,
                        StreamKind::Video,
                        preferences,
                        period_base,
                        manifest_url,
                        store,
                        period_ns,
                    );
                },
                None => {},
            }
        },
        _ => {},
    }
}

proof fn lemma_periods_ask_for_missing(
    mpd: Mpd,
    i: int,
    preferences: Preferences,
    top_base: Seq<char>,
    manifest_url: Seq<char>,
    store: Seq<XlinkEntry>,
    lists: StreamLists,
)
    ensures
        asks_only_for_missing(
            periods_from(mpd, i, preferences, top_base, manifest_url, store, lists),
            store,
        ),
    decreases mpd.periods.len() - i,
{
    if 0 <= i < mpd.periods.len() {
        lemma_period_asks_for_missing(
            mpd.periods@[i],
            mpd,
            preferences,
            top_base,
            manifest_url,
            store,
            lists,
        );
        match period_outcome(
            mpd.periods@[i],
            mpd,
            preferences,
            top_base,
            manifest_url,
            store,
            lists,
        ) {
            Outcome::Done(more) => {
                lemma_periods_ask_for_missing(
                    mpd,
                    i + 1,
                    preferences,
                    top_base,
                    manifest_url,
                    store,
                    more,
                );
            },
            _ => {},
        }
    }
}

/// A manifest never asks for a document that the store holds: once the
/// document of a request has been added to the store, under the URL and
/// with the kind of the request, the same request is not made again.
pub proof fn lemma_request_is_needed(
    mpd: Mpd,
    preferences: Preferences,
    manifest_url: Seq<char>,
    store: Seq<XlinkEntry>,
)
    ensures
        asks_only_for_missing(resolution(mpd, preferences, manifest_url, store), store),
{
    if !is_dynamic(mpd) {
        match scoped_base(manifest_url, mpd.base_urls@) {
            Some(top_base) => {
                lemma_periods_ask_for_missing(
                    mpd,
                    0,
                    preferences,
                    top_base,
                    manifest_url,
                    store,
                    StreamLists { audio: Seq::empty(), video: Seq::empty() },
                );
            },
            None => {},
        }
    }
}

} // verus!
