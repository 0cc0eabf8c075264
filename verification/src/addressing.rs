//! The addressing modes of DASH: from a chosen representation to the ordered
//! list of its fragments.

use crate::base_url::{is_absolute_text, url_error, url_join, url_resolve, AbsoluteUrl};
use crate::decimal::{decimal_digits, decimal_of};
use crate::error::{reports, DashMpdError, ErrorKind, Fault};
use crate::fragment::{
    all_absolute, append_fragments, fragment_views, joined_all, ranged, then_fragments, whole,
    FragmentView, Fragments, MediaFragment, StreamKind,
};
use crate::mpd::{
    first_base, AdaptationSet, BaseUrl, Initialization, Representation, SegmentBase, SegmentList,
    SegmentTemplate, SegmentUrl, TimelineEntry,
};
use crate::range::{parse_range, parsed_range};
use crate::select::text_of;
use crate::template::{resolve_url_template, resolved_template, TemplateVar, TemplateVars};
use crate::text::string_of;
use crate::timeline::{
    after_span, counted_from, entry_points, lemma_timeline_count, period_end, period_end_tick,
    repeat_sum, span_of, timeline_fits, timeline_points, walk_from, TimelinePoint,
};
use vstd::prelude::*;

verus! {

/// The result agrees with what was expected of it: the same fragments, all
/// of them with an absolute URL, or an error that reports the same fault.
pub open spec fn fragments_are(
    result: Result<Vec<MediaFragment>, DashMpdError>,
    expected: Fragments,
) -> bool {
    match result {
        Ok(list) => expected == Ok::<Seq<FragmentView>, Fault>(fragment_views(list@))
            && all_absolute(list@),
        Err(error) => expected is Err && reports(error, expected->Err_0),
    }
}

/// No fragment.
pub open spec fn no_fragment() -> Fragments {
    Ok(Seq::empty())
}

/// One fragment.
pub open spec fn one_fragment(fragment: FragmentView) -> Fragments {
    Ok(seq![fragment])
}

/// The fragment for the whole resource that `url` names, or a fault where
/// there is no such URL.
pub open spec fn whole_or_error(url: Option<Seq<char>>) -> Fragments {
    match url {
        Some(u) => one_fragment(whole(u)),
        None => Err(Fault::Url),
    }
}

/// The byte range that an optional range specifier gives.
pub open spec fn optional_range(range: Option<String>) -> Result<Option<(u64, u64)>, Fault> {
    match range {
        None => Ok(None),
        Some(text) => match parsed_range(text@) {
            Ok(bounds) => Ok(Some(bounds)),
            Err(message) => Err(Fault::Range(message)),
        },
    }
}

fn read_optional_range(range: &Option<String>) -> (result: Result<Option<(u64, u64)>, DashMpdError>)
    ensures
        match result {
            Ok(bounds) => optional_range(*range) == Ok::<Option<(u64, u64)>, Fault>(bounds),
            Err(error) => optional_range(*range) is Err && reports(
                error,
                optional_range(*range)->Err_0,
            ),
        },
{
    match range {
        None => Ok(None),
        Some(text) => match parse_range(text.as_str()) {
            Ok(bounds) => Ok(Some(bounds)),
            Err(error) => Err(error),
        },
    }
}

/// The variables that every template of a representation can use: its
/// identifier and, where it gives one, its bandwidth.
pub open spec fn representation_vars(id: Seq<char>, bandwidth: Option<u64>) -> Map<
    TemplateVar,
    Seq<char>,
> {
    let with_id = Map::<TemplateVar, Seq<char>>::empty().insert(TemplateVar::RepresentationID, id);
    match bandwidth {
        Some(b) => with_id.insert(TemplateVar::Bandwidth, decimal_digits(b as nat)),
        None => with_id,
    }
}

/// The variables of one segment of a timeline: its start time and its number.
pub open spec fn point_vars(point: TimelinePoint) -> Map<TemplateVar, Seq<char>> {
    Map::<TemplateVar, Seq<char>>::empty().insert(
        TemplateVar::Time,
        decimal_digits(point.time as nat),
    ).insert(TemplateVar::Number, decimal_digits(point.number as nat))
}

/// The variable of one numbered segment.
pub open spec fn number_vars(number: int) -> Map<TemplateVar, Seq<char>> {
    Map::<TemplateVar, Seq<char>>::empty().insert(
        TemplateVar::Number,
        decimal_digits(number as nat),
    )
}

/// The fragment of an `Initialization` element. Its URL is its `sourceURL`,
/// with the placeholders expanded, under `base`; without a `sourceURL` it is
/// `base` itself where `or_base` says so, and there is no fragment otherwise.
/// The range, where one is given, is read first.
pub open spec fn initialization_fragment(
    init: Initialization,
    base: Seq<char>,
    vars: Map<TemplateVar, Seq<char>>,
    or_base: bool,
) -> Fragments {
    match optional_range(init.range) {
        Err(fault) => Err(fault),
        Ok(range) => match init.source_url {
            Some(source) => match url_resolve(base, resolved_template(source@, vars)) {
                Some(url) => one_fragment(ranged(url, range)),
                None => Err(Fault::Url),
            },
            None => if or_base {
                one_fragment(ranged(base, range))
            } else {
                no_fragment()
            },
        },
    }
}

/// The fragment of an optional `Initialization` element.
pub open spec fn optional_initialization(
    init: Option<Initialization>,
    base: Seq<char>,
    vars: Map<TemplateVar, Seq<char>>,
    or_base: bool,
) -> Fragments {
    match init {
        Some(i) => initialization_fragment(i, base, vars, or_base),
        None => no_fragment(),
    }
}

/// The fragment of a `SegmentURL` element: its `media` joined to `base`, or,
/// without `media`, the `BaseURL` of its level under `base`; no fragment
/// where it has neither. The range, where one is given, is read first.
pub open spec fn segment_url_fragment(
    segment: SegmentUrl,
    base: Seq<char>,
    fallback: Option<Seq<char>>,
) -> Fragments {
    match optional_range(segment.media_range) {
        Err(fault) => Err(fault),
        Ok(range) => match segment.media {
            Some(media) => match url_join(base, media@) {
                Some(url) => one_fragment(ranged(url, range)),
                None => Err(Fault::Url),
            },
            None => match fallback {
                Some(own_base) => match url_resolve(base, own_base) {
                    Some(url) => one_fragment(ranged(url, range)),
                    None => Err(Fault::Url),
                },
                None => no_fragment(),
            },
        },
    }
}

/// The fragments of the `SegmentURL` elements from position `i` on.
pub open spec fn segment_urls_from(
    segments: Seq<SegmentUrl>,
    i: int,
    base: Seq<char>,
    fallback: Option<Seq<char>>,
) -> Fragments
    decreases segments.len() - i,
{
    if i < 0 || i >= segments.len() {
        no_fragment()
    } else {
        then_fragments(
            segment_url_fragment(segments[i], base, fallback),
            segment_urls_from(segments, i + 1, base, fallback),
        )
    }
}

/// The fragments of a `SegmentList`: that of its initialization, then those
/// of its segments in order.
pub open spec fn segment_list_fragments(
    list: SegmentList,
    base: Seq<char>,
    vars: Map<TemplateVar, Seq<char>>,
    fallback: Option<Seq<char>>,
) -> Fragments {
    then_fragments(
        optional_initialization(list.initialization, base, vars, true),
        segment_urls_from(list.segment_urls@, 0, base, fallback),
    )
}

/// The fragments of a `SegmentBase`: that of its initialization where it has
/// a `sourceURL`, then the whole resource at `base`.
pub open spec fn segment_base_fragments(
    segment_base: SegmentBase,
    base: Seq<char>,
    vars: Map<TemplateVar, Seq<char>>,
) -> Fragments {
    then_fragments(
        optional_initialization(segment_base.initialization, base, vars, false),
        one_fragment(whole(base)),
    )
}

/// The first of two optional texts that is given.
pub open spec fn first_given(own: Option<String>, outer: Option<String>) -> Option<Seq<char>> {
    match own {
        Some(text) => Some(text@),
        None => text_of(outer),
    }
}

/// The first of two optional numbers that is given, or 1.
pub open spec fn first_number(own: Option<u64>, outer: Option<u64>) -> u64 {
    match own {
        Some(n) => n,
        None => match outer {
            Some(n) => n,
            None => 1,
        },
    }
}

/// The `SegmentTemplate` in force for a representation: its own where it has
/// one, else that of its adaptation set.
pub open spec fn effective_template(
    adaptation: AdaptationSet,
    representation: Representation,
) -> Option<SegmentTemplate> {
    match representation.segment_template {
        Some(template) => Some(template),
        None => adaptation.segment_template,
    }
}

/// What a template in force has from the template of the adaptation set
/// where it does not say it itself.
pub struct TemplateSettings {
    pub initialization: Option<Seq<char>>,
    pub media: Option<Seq<char>>,
    pub timescale: u64,
    pub start_number: u64,
    pub own_duration: Option<u64>,
    pub outer_duration: Option<u64>,
}

/// The settings of the template `own` under the template `outer` of the
/// adaptation set.
pub open spec fn template_settings(own: SegmentTemplate, outer: Option<SegmentTemplate>) -> TemplateSettings {
    match outer {
        Some(o) => TemplateSettings {
            initialization: first_given(own.initialization, o.initialization),
            media: first_given(own.media, o.media),
            timescale: first_number(own.timescale, o.timescale),
            start_number: first_number(own.start_number, o.start_number),
            own_duration: own.duration,
            outer_duration: o.duration,
        },
        None => TemplateSettings {
            initialization: text_of(own.initialization),
            media: text_of(own.media),
            timescale: first_number(own.timescale, None),
            start_number: first_number(own.start_number, None),
            own_duration: own.duration,
            outer_duration: None,
        },
    }
}

/// The initialization fragment of a template: its `initialization`, with the
/// placeholders expanded, joined to `base`.
pub open spec fn template_initialization(
    initialization: Option<Seq<char>>,
    base: Seq<char>,
    vars: Map<TemplateVar, Seq<char>>,
) -> Fragments {
    match initialization {
        None => no_fragment(),
        Some(init) => whole_or_error(url_join(base, resolved_template(init, vars))),
    }
}

/// The path of each segment of a timeline: the media template with the start
/// time and the number of the segment.
pub open spec fn point_paths(media: Seq<char>, points: Seq<TimelinePoint>) -> Seq<Seq<char>> {
    Seq::new(points.len(), |k: int| resolved_template(media, point_vars(points[k])))
}

/// The media fragments of a template with a timeline, for the media template
/// `media` in which the variables of the representation are already expanded.
pub open spec fn timeline_media(
    entries: Seq<TimelineEntry>,
    media: Seq<char>,
    base: Seq<char>,
    start_number: u64,
    end: int,
) -> Fragments {
    match timeline_points(entries, start_number, end) {
        None => Err(Fault::Uncountable),
        Some(points) => match joined_all(base, point_paths(media, points)) {
            Some(fragments) => Ok(fragments),
            None => Err(Fault::Url),
        },
    }
}

/// `x` divided by `y`, rounded up.
pub open spec fn ceil_div(x: int, y: int) -> int {
    if x % y == 0 {
        x / y
    } else {
        x / y + 1
    }
}

/// How many segments of a template without a timeline make up a period of
/// `period_ns` nanoseconds: the length of the period divided by that of a
/// segment, rounded up. A segment lasts the template's own `duration`, in
/// units of the timescale, where that is given and positive; else the
/// `duration` of the adaptation set's template, in seconds, where that is
/// given and positive. `None` where neither gives a positive duration.
pub open spec fn segment_count(period_ns: u64, settings: TemplateSettings) -> Option<int> {
    if settings.own_duration is Some && settings.own_duration->0 > 0 {
        Some(
            ceil_div(
                period_ns as int * settings.timescale as int,
                settings.own_duration->0 as int * 1_000_000_000,
            ),
        )
    } else if settings.outer_duration is Some && settings.outer_duration->0 > 0 {
        Some(ceil_div(period_ns as int, settings.outer_duration->0 as int * 1_000_000_000))
    } else {
        None
    }
}

/// The path of each numbered segment: the media template with the number.
pub open spec fn number_paths(media: Seq<char>, start_number: u64, count: int) -> Seq<Seq<char>> {
    Seq::new(count as nat, |k: int| resolved_template(media, number_vars(start_number + k)))
}

/// The media fragments of a template without a timeline, for the media
/// template `media` in which the variables of the representation are already
/// expanded.
pub open spec fn numbered_media(
    media: Seq<char>,
    base: Seq<char>,
    period_ns: u64,
    settings: TemplateSettings,
    stream: StreamKind,
) -> Fragments {
    match segment_count(period_ns, settings) {
        None => Err(Fault::MissingDuration(stream)),
        Some(count) => if count > 0 && settings.start_number + count - 1 > u64::MAX {
            Err(Fault::Uncountable)
        } else {
            match joined_all(base, number_paths(media, settings.start_number, count)) {
                Some(fragments) => Ok(fragments),
                None => Err(Fault::Url),
            }
        },
    }
}

/// The media fragments of a template. With a timeline the media template is
/// required; without one, a template that has no media template gives no
/// media fragment.
pub open spec fn template_media(
    own: SegmentTemplate,
    settings: TemplateSettings,
    base: Seq<char>,
    vars: Map<TemplateVar, Seq<char>>,
    period_ns: u64,
    stream: StreamKind,
) -> Fragments {
    match own.segment_timeline {
        Some(timeline) => match settings.media {
            None => Err(Fault::TimelineWithoutMedia),
            Some(media) => timeline_media(
                timeline.segments@,
                resolved_template(media, vars),
                base,
                settings.start_number,
                period_end_tick(period_ns, settings.timescale),
            ),
        },
        None => match settings.media {
            None => no_fragment(),
            Some(media) => numbered_media(
                resolved_template(media, vars),
                base,
                period_ns,
                settings,
                stream,
            ),
        },
    }
}

/// The fragments of a template: the initialization fragment, then the media
/// fragments.
pub open spec fn template_fragments(
    own: SegmentTemplate,
    outer: Option<SegmentTemplate>,
    base: Seq<char>,
    vars: Map<TemplateVar, Seq<char>>,
    period_ns: u64,
    stream: StreamKind,
) -> Fragments {
    let settings = template_settings(own, outer);
    then_fragments(
        template_initialization(settings.initialization, base, vars),
        template_media(own, settings, base, vars, period_ns, stream),
    )
}

/// The base URL in force below a level: the first `BaseURL` of the level
/// under the base in force above it, or that base where the level has none.
pub open spec fn scoped_base(base: Seq<char>, base_urls: Seq<BaseUrl>) -> Option<Seq<char>> {
    match first_base(base_urls) {
        Some(own) => url_resolve(base, own),
        None => Some(base),
    }
}

/// The fragments of a representation by its own addressing mode, the first
/// that applies of: its `SegmentList`; a `SegmentTemplate`, its own or that
/// of the adaptation set; its `SegmentBase`; and, where `nothing_yet` says
/// that nothing has been listed for it so far, its `BaseURL` alone.
pub open spec fn addressed_fragments(
    adaptation: AdaptationSet,
    representation: Representation,
    base: Seq<char>,
    vars: Map<TemplateVar, Seq<char>>,
    period_ns: u64,
    nothing_yet: bool,
    stream: StreamKind,
) -> Fragments {
    if representation.segment_list is Some {
        segment_list_fragments(
            representation.segment_list->0,
            base,
            vars,
            first_base(representation.base_urls@),
        )
    } else if effective_template(adaptation, representation) is Some {
        template_fragments(
            effective_template(adaptation, representation)->0,
            adaptation.segment_template,
            base,
            vars,
            period_ns,
            stream,
        )
    } else if representation.segment_base is Some {
        segment_base_fragments(representation.segment_base->0, base, vars)
    } else if nothing_yet && representation.base_urls.len() > 0 {
        whole_or_error(url_resolve(base, representation.base_urls[0].base@))
    } else {
        no_fragment()
    }
}

/// The fragments of the `SegmentList` of the adaptation set, which come
/// before those of the representation.
pub open spec fn shared_list_fragments(
    adaptation: AdaptationSet,
    base: Seq<char>,
    vars: Map<TemplateVar, Seq<char>>,
) -> Fragments {
    match adaptation.segment_list {
        Some(list) => segment_list_fragments(list, base, vars, first_base(adaptation.base_urls@)),
        None => no_fragment(),
    }
}

/// The fragments that a chosen representation adds to its stream. `base` is
/// the base URL in force in the adaptation set, `period_ns` the length of the
/// period in nanoseconds. It is an error for the representation to add no
/// fragment at all.
pub open spec fn representation_fragments(
    adaptation: AdaptationSet,
    representation: Representation,
    base: Seq<char>,
    period_ns: u64,
    stream: StreamKind,
) -> Fragments {
    match scoped_base(base, representation.base_urls@) {
        None => Err(Fault::Url),
        Some(own_base) => match representation.id {
            None => Err(Fault::MissingId),
            Some(id) => {
                let vars = representation_vars(id@, representation.bandwidth);
                match shared_list_fragments(adaptation, own_base, vars) {
                    Err(fault) => Err(fault),
                    Ok(shared) => match addressed_fragments(
                        adaptation,
                        representation,
                        own_base,
                        vars,
                        period_ns,
                        shared.len() == 0,
                        stream,
                    ) {
                        Err(fault) => Err(fault),
                        Ok(own) => if shared.len() + own.len() == 0 {
                            Err(Fault::NoAddressingMode(stream))
                        } else {
                            Ok(shared + own)
                        },
                    },
                }
            },
        },
    }
}


/// `x` divided by `y`, rounded up, is the least number of times that `y`
/// covers `x`.
pub proof fn lemma_ceil_div_bounds(x: int, y: int)
    requires
        0 <= x,
        0 < y,
    ensures
        0 <= ceil_div(x, y),
        x <= ceil_div(x, y) * y,
        (ceil_div(x, y) - 1) * y < x || x == 0,
        x == 0 ==> ceil_div(x, y) == 0,
{
    let q = x / y;
    let r = x % y;
    assert(x == q * y + r && 0 <= r < y && 0 <= q) by (nonlinear_arith)
        requires
            0 <= x,
            0 < y,
            q == x / y,
            r == x % y,
    ;
    if r == 0 {
        assert((q - 1) * y < x || x == 0) by (nonlinear_arith)
            requires
                x == q * y,
                0 < y,
        ;
    } else {
        assert(x <= (q + 1) * y) by (nonlinear_arith)
            requires
                x == q * y + r,
                r < y,
        ;
        assert(q * y < x) by (nonlinear_arith)
            requires
                x == q * y + r,
                0 < r,
        ;
    }
}

/// The initialization fragment of a template comes before its media
/// fragments: where the template names an initialization and its fragments
/// can be listed, the first of them is that initialization, joined to the
/// base, and the rest are the media fragments.
pub proof fn lemma_initialization_first(
    own: SegmentTemplate,
    outer: Option<SegmentTemplate>,
    base: Seq<char>,
    vars: Map<TemplateVar, Seq<char>>,
    period_ns: u64,
    stream: StreamKind,
)
    requires
        template_settings(own, outer).initialization is Some,
        template_fragments(own, outer, base, vars, period_ns, stream) is Ok,
    ensures
        ({
            let settings = template_settings(own, outer);
            let all = template_fragments(own, outer, base, vars, period_ns, stream)->Ok_0;
            let media = template_media(own, settings, base, vars, period_ns, stream);
            let init = url_join(base, resolved_template(settings.initialization->0, vars));
            &&& init is Some
            &&& media is Ok
            &&& all == seq![whole(init->0)] + media->Ok_0
        }),
{
}

/// A timeline none of whose entries repeats to the end of the period gives
/// one media fragment for each entry and one more for each of its repeats.
pub proof fn lemma_timeline_fragment_count(
    entries: Seq<TimelineEntry>,
    media: Seq<char>,
    base: Seq<char>,
    start_number: u64,
    end: int,
)
    requires
        counted_from(entries, 0),
        timeline_media(entries, media, base, start_number, end) is Ok,
    ensures
        timeline_media(entries, media, base, start_number, end)->Ok_0.len() == repeat_sum(
            entries,
            0,
        ),
{
    lemma_timeline_count(entries, start_number, end);
}

/// A template without a timeline gives as many media fragments as segments
/// make up the period: the length of the period over that of a segment,
/// rounded up.
pub proof fn lemma_numbered_fragment_count(
    media: Seq<char>,
    base: Seq<char>,
    period_ns: u64,
    settings: TemplateSettings,
    stream: StreamKind,
)
    requires
        numbered_media(media, base, period_ns, settings, stream) is Ok,
    ensures
        segment_count(period_ns, settings) is Some,
        numbered_media(media, base, period_ns, settings, stream)->Ok_0.len() == segment_count(
            period_ns,
            settings,
        )->0,
{
    if settings.own_duration is Some && settings.own_duration->0 > 0 {
        assert(0 <= period_ns as int * settings.timescale as int) by (nonlinear_arith)
            requires
                0 <= period_ns as int,
                0 <= settings.timescale as int,
        ;
        lemma_ceil_div_bounds(
            period_ns as int * settings.timescale as int,
            settings.own_duration->0 as int * 1_000_000_000,
        );
    } else {
        lemma_ceil_div_bounds(
            period_ns as int,
            settings.outer_duration->0 as int * 1_000_000_000,
        );
    }
}

/// The number of segments of a template that gives their length itself is
/// the least number of segments that cover the period. The period lasts
/// `period_ns` nanoseconds, a segment `d` units of which `timescale` make a
/// second.
pub proof fn lemma_segment_count_covers(period_ns: u64, settings: TemplateSettings)
    requires
        settings.own_duration is Some,
        settings.own_duration->0 > 0,
    ensures
        segment_count(period_ns, settings) is Some,
        ({
            let count = segment_count(period_ns, settings)->0;
            let d = settings.own_duration->0 as int;
            let length = period_ns as int * settings.timescale as int;
            &&& 0 <= count
            &&& length <= count * (d * 1_000_000_000)
            &&& (count - 1) * (d * 1_000_000_000) < length || length == 0
        }),
{
    assert(0 <= period_ns as int * settings.timescale as int) by (nonlinear_arith)
        requires
            0 <= period_ns as int,
            0 <= settings.timescale as int,
    ;
    lemma_ceil_div_bounds(
        period_ns as int * settings.timescale as int,
        settings.own_duration->0 as int * 1_000_000_000,
    );
}

/// The fragments of a list are joined so far: each is the whole resource at
/// the URL that the path of its position gives under `base`.
pub open spec fn joined_so_far(list: Seq<MediaFragment>, base: Seq<char>, paths: Seq<Seq<char>>) -> bool {
    &&& list.len() <= paths.len()
    &&& forall|k: int|
        0 <= k < list.len() ==> url_join(base, paths[k]) is Some && (#[trigger] list[k])@ == whole(
            url_join(base, paths[k])->0,
        )
    &&& all_absolute(list)
}

proof fn lemma_joined_complete(list: Seq<MediaFragment>, base: Seq<char>, paths: Seq<Seq<char>>)
    requires
        joined_so_far(list, base, paths),
        list.len() == paths.len(),
    ensures
        joined_all(base, paths) == Some(fragment_views(list)),
{
    assert forall|i: int| 0 <= i < paths.len() implies url_join(base, #[trigger] paths[i]) is Some by {
        let f = list[i];
    }
    assert(joined_all(base, paths)->0 =~= fragment_views(list)) by {
        assert forall|i: int| 0 <= i < paths.len() implies whole(url_join(base, paths[i])->0)
            == fragment_views(list)[i] by {
            let f = list[i];
        }
    }
}

proof fn lemma_joined_fails(base: Seq<char>, paths: Seq<Seq<char>>, k: int)
    requires
        0 <= k < paths.len(),
        url_join(base, paths[k]) is None,
    ensures
        joined_all(base, paths) is None,
{
}

/// Putting fragments before a sequence of steps is putting them before its
/// first step.
pub proof fn lemma_then_assoc(head: Seq<FragmentView>, step: Fragments, rest: Fragments)
    ensures
        then_fragments(Ok(head), then_fragments(step, rest)) == (match step {
            Ok(found) => then_fragments(Ok(head + found), rest),
            Err(fault) => Err(fault),
        }),
{
    match step {
        Ok(found) => match rest {
            Ok(tail) => {
                assert(head + (found + tail) =~= (head + found) + tail);
            },
            Err(_) => {},
        },
        Err(_) => {},
    }
}

fn resolve_under(base: &AbsoluteUrl, reference: &str, why: &str) -> (result: Result<
    AbsoluteUrl,
    DashMpdError,
>)
    ensures
        match result {
            Ok(url) => url_resolve(base@, reference@) == Some(url@) && is_absolute_text(url@),
            Err(error) => url_resolve(base@, reference@) is None && error.spec_kind()
                == ErrorKind::Parsing,
        },
{
    match base.resolve(reference) {
        Ok(url) => Ok(url),
        Err(error) => Err(url_error(why, &error)),
    }
}

fn join_under(base: &AbsoluteUrl, reference: &str, why: &str) -> (result: Result<
    AbsoluteUrl,
    DashMpdError,
>)
    ensures
        match result {
            Ok(url) => url_join(base@, reference@) == Some(url@) && is_absolute_text(url@),
            Err(error) => url_join(base@, reference@) is None && error.spec_kind()
                == ErrorKind::Parsing,
        },
{
    match base.join(reference) {
        Ok(url) => Ok(url),
        Err(error) => Err(url_error(why, &error)),
    }
}

/// The base URL in force below a level of the manifest: the first `BaseURL`
/// of the level, taken under the base in force above it, or that base itself
/// where the level has no `BaseURL`.
pub fn enter_level(base: &AbsoluteUrl, base_urls: &Vec<BaseUrl>, why: &str) -> (result: Result<
    AbsoluteUrl,
    DashMpdError,
>)
    ensures
        match result {
            Ok(url) => scoped_base(base@, base_urls@) == Some(url@) && is_absolute_text(url@),
            Err(error) => scoped_base(base@, base_urls@) is None && error.spec_kind()
                == ErrorKind::Parsing,
        },
{
    if base_urls.len() > 0 {
        resolve_under(base, base_urls[0].base.as_str(), why)
    } else {
        Ok(base.duplicate())
    }
}

fn first_base_of(base_urls: &Vec<BaseUrl>) -> (first: Option<&String>)
    ensures
        match first {
            Some(text) => first_base(base_urls@) == Some(text@),
            None => first_base(base_urls@) is None,
        },
{
    if base_urls.len() > 0 {
        Some(&base_urls[0].base)
    } else {
        None
    }
}

fn only(fragment: MediaFragment) -> (list: Vec<MediaFragment>)
    requires
        is_absolute_text(fragment.url@),
    ensures
        fragment_views(list@) == seq![fragment@],
        all_absolute(list@),
        list@.len() == 1,
{
    let mut list: Vec<MediaFragment> = Vec::new();
    list.push(fragment);
    assert(fragment_views(list@) =~= seq![fragment@]);
    list
}

fn none_yet() -> (list: Vec<MediaFragment>)
    ensures
        fragment_views(list@) == Seq::<FragmentView>::empty(),
        all_absolute(list@),
        list@.len() == 0,
{
    let list: Vec<MediaFragment> = Vec::new();
    assert(fragment_views(list@) =~= Seq::<FragmentView>::empty());
    list
}

fn emit_initialization(
    init: &Initialization,
    base: &AbsoluteUrl,
    vars: &TemplateVars,
    or_base: bool,
) -> (result: Result<Vec<MediaFragment>, DashMpdError>)
    ensures
        fragments_are(result, initialization_fragment(*init, base@, vars@, or_base)),
{
    let range = match read_optional_range(&init.range) {
        Ok(range) => range,
        Err(error) => {
            return Err(error);
        },
    };
    match &init.source_url {
        Some(source) => {
            let path = resolve_url_template(source.as_str(), vars);
            match resolve_under(base, path.as_str(), "resolving sourceURL") {
                Ok(url) => Ok(only(MediaFragment::ranged(url, range))),
                Err(error) => Err(error),
            }
        },
        None => {
            if or_base {
                Ok(only(MediaFragment::ranged(base.duplicate(), range)))
            } else {
                Ok(none_yet())
            }
        },
    }
}

fn emit_optional_initialization(
    init: &Option<Initialization>,
    base: &AbsoluteUrl,
    vars: &TemplateVars,
    or_base: bool,
) -> (result: Result<Vec<MediaFragment>, DashMpdError>)
    ensures
        fragments_are(result, optional_initialization(*init, base@, vars@, or_base)),
{
    match init {
        Some(i) => emit_initialization(i, base, vars, or_base),
        None => Ok(none_yet()),
    }
}

fn emit_segment_url(segment: &SegmentUrl, base: &AbsoluteUrl, fallback: Option<&String>) -> (result:
    Result<Vec<MediaFragment>, DashMpdError>)
    ensures
        fragments_are(result, segment_url_fragment(*segment, base@, match fallback {
            Some(text) => Some(text@),
            None => None,
        })),
{
    let range = match read_optional_range(&segment.media_range) {
        Ok(range) => range,
        Err(error) => {
            return Err(error);
        },
    };
    match &segment.media {
        Some(media) => match join_under(base, media.as_str(), "joining media with BaseURL") {
            Ok(url) => Ok(only(MediaFragment::ranged(url, range))),
            Err(error) => Err(error),
        },
        None => match fallback {
            Some(own_base) => match resolve_under(base, own_base.as_str(), "resolving BaseURL") {
                Ok(url) => Ok(only(MediaFragment::ranged(url, range))),
                Err(error) => Err(error),
            },
            None => Ok(none_yet()),
        },
    }
}

fn emit_segment_list(
    list: &SegmentList,
    base: &AbsoluteUrl,
    vars: &TemplateVars,
    fallback: Option<&String>,
) -> (result: Result<Vec<MediaFragment>, DashMpdError>)
    ensures
        fragments_are(result, segment_list_fragments(*list, base@, vars@, match fallback {
            Some(text) => Some(text@),
            None => None,
        })),
{
    let ghost fallback_text: Option<Seq<char>> = match fallback {
        Some(text) => Some(text@),
        None => None,
    };
    let ghost steps = segment_urls_from(list.segment_urls@, 0, base@, fallback_text);
    let mut out = match emit_optional_initialization(&list.initialization, base, vars, true) {
        Ok(found) => found,
        Err(error) => {
            return Err(error);
        },
    };
    let ghost total = segment_list_fragments(*list, base@, vars@, fallback_text);
    let mut i: usize = 0;
    while i < list.segment_urls.len()
        invariant
            i <= list.segment_urls.len(),
            fallback_text == (match fallback {
                Some(text) => Some(text@),
                None => None,
            }),
            total == segment_list_fragments(*list, base@, vars@, fallback_text),
            total == then_fragments(
                Ok(fragment_views(out@)),
                segment_urls_from(list.segment_urls@, i as int, base@, fallback_text),
            ),
            all_absolute(out@),
        decreases list.segment_urls.len() - i,
    {
        proof {
            lemma_then_assoc(
                fragment_views(out@),
                segment_url_fragment(list.segment_urls@[i as int], base@, fallback_text),
                segment_urls_from(list.segment_urls@, i + 1, base@, fallback_text),
            );
        }
        match emit_segment_url(&list.segment_urls[i], base, fallback) {
            Ok(found) => {
                append_fragments(&mut out, found);
            },
            Err(error) => {
                return Err(error);
            },
        }
        i += 1;
    }
    proof {
        assert(fragment_views(out@) + Seq::<FragmentView>::empty() =~= fragment_views(out@));
    }
    Ok(out)
}

fn emit_segment_base(segment_base: &SegmentBase, base: &AbsoluteUrl, vars: &TemplateVars) -> (result:
    Result<Vec<MediaFragment>, DashMpdError>)
    ensures
        fragments_are(result, segment_base_fragments(*segment_base, base@, vars@)),
{
    let mut out = match emit_optional_initialization(
        &segment_base.initialization,
        base,
        vars,
        false,
    ) {
        Ok(found) => found,
        Err(error) => {
            return Err(error);
        },
    };
    append_fragments(&mut out, only(MediaFragment::whole(base.duplicate())));
    Ok(out)
}

/// The settings of a template in force, as the resolver holds them.
pub struct TemplateConfig<'a> {
    pub initialization: Option<&'a String>,
    pub media: Option<&'a String>,
    pub timescale: u64,
    pub start_number: u64,
    pub own_duration: Option<u64>,
    pub outer_duration: Option<u64>,
}

impl<'a> View for TemplateConfig<'a> {
    type V = TemplateSettings;

    open spec fn view(&self) -> TemplateSettings {
        TemplateSettings {
            initialization: match self.initialization {
                Some(text) => Some(text@),
                None => None,
            },
            media: match self.media {
                Some(text) => Some(text@),
                None => None,
            },
            timescale: self.timescale,
            start_number: self.start_number,
            own_duration: self.own_duration,
            outer_duration: self.outer_duration,
        }
    }
}

fn given_first<'a>(own: &'a Option<String>, outer: Option<&'a String>) -> (first: Option<&'a String>)
    ensures
        match first {
            Some(text) => Some(text@),
            None => None,
        } == (match *own {
            Some(text) => Some(text@),
            None => match outer {
                Some(text) => Some(text@),
                None => None,
            },
        }),
{
    match own {
        Some(text) => Some(text),
        None => outer,
    }
}

fn number_first(own: Option<u64>, outer: Option<u64>) -> (first: u64)
    ensures
        first == first_number(own, outer),
{
    match own {
        Some(n) => n,
        None => match outer {
            Some(n) => n,
            None => 1,
        },
    }
}

/// The settings of the template `own` under the template `outer` of the
/// adaptation set: what `own` does not say, `outer` says for it.
pub fn configure_template<'a>(own: &'a SegmentTemplate, outer: &'a Option<SegmentTemplate>) -> (config:
    TemplateConfig<'a>)
    ensures
        config@ == template_settings(*own, *outer),
{
    match outer {
        Some(o) => TemplateConfig {
            initialization: given_first(&own.initialization, o.initialization.as_ref()),
            media: given_first(&own.media, o.media.as_ref()),
            timescale: number_first(own.timescale, o.timescale),
            start_number: number_first(own.start_number, o.start_number),
            own_duration: own.duration,
            outer_duration: o.duration,
        },
        None => TemplateConfig {
            initialization: own.initialization.as_ref(),
            media: own.media.as_ref(),
            timescale: number_first(own.timescale, None),
            start_number: number_first(own.start_number, None),
            own_duration: own.duration,
            outer_duration: None,
        },
    }
}

fn emit_template_initialization(
    initialization: Option<&String>,
    base: &AbsoluteUrl,
    vars: &TemplateVars,
) -> (result: Result<Vec<MediaFragment>, DashMpdError>)
    ensures
        fragments_are(result, template_initialization(match initialization {
            Some(text) => Some(text@),
            None => None,
        }, base@, vars@)),
{
    match initialization {
        None => Ok(none_yet()),
        Some(init) => {
            let path = resolve_url_template(init.as_str(), vars);
            match join_under(base, path.as_str(), "joining init with BaseURL") {
                Ok(url) => Ok(only(MediaFragment::whole(url))),
                Err(error) => Err(error),
            }
        },
    }
}

fn joined_fragment(base: &AbsoluteUrl, path: &str) -> (result: Result<MediaFragment, DashMpdError>)
    ensures
        match result {
            Ok(fragment) => url_join(base@, path@) is Some && fragment@ == whole(
                url_join(base@, path@)->0,
            ) && is_absolute_text(fragment.url@),
            Err(error) => url_join(base@, path@) is None && error.spec_kind() == ErrorKind::Parsing,
        },
{
    match join_under(base, path, "joining media with BaseURL") {
        Ok(url) => Ok(MediaFragment::whole(url)),
        Err(error) => Err(error),
    }
}

fn timeline_path(media: &str, time: u64, number: u64) -> (path: String)
    ensures
        path@ == resolved_template(
            media@,
            point_vars(TimelinePoint { time: time as int, number: number as int }),
        ),
{
    let mut vars = TemplateVars::new();
    vars.set(TemplateVar::Time, string_of(&decimal_of(time)));
    vars.set(TemplateVar::Number, string_of(&decimal_of(number)));
    resolve_url_template(media, &vars)
}

fn numbered_path(media: &str, number: u64) -> (path: String)
    ensures
        path@ == resolved_template(media@, number_vars(number as int)),
{
    let mut vars = TemplateVars::new();
    vars.set(TemplateVar::Number, string_of(&decimal_of(number)));
    resolve_url_template(media, &vars)
}

fn emit_timeline_media(
    entries: &Vec<TimelineEntry>,
    media: &str,
    base: &AbsoluteUrl,
    start_number: u64,
    end: u128,
) -> (result: Result<Vec<MediaFragment>, DashMpdError>)
    ensures
        fragments_are(result, timeline_media(entries@, media@, base@, start_number, end as int)),
{
    if !timeline_fits(entries, start_number, end) {
        return Err(DashMpdError::unhandled("SegmentTemplate with more segments than can be numbered"));
    }
    let ghost total = timeline_points(entries@, start_number, end as int)->0;
    let ghost paths = point_paths(media@, total);
    let mut list: Vec<MediaFragment> = Vec::new();
    let mut time: u128 = 0;
    let mut number: u128 = start_number as u128;
    let ghost mut done: Seq<TimelinePoint> = Seq::empty();
    let mut i: usize = 0;
    proof {
        assert(done + walk_from(entries@, 0, 0, start_number as int, end as int)->0 =~= total);
    }
    while i < entries.len()
        invariant
            i <= entries.len(),
            timeline_points(entries@, start_number, end as int) == Some(total),
            paths == point_paths(media@, total),
            walk_from(entries@, i as int, time as int, number as int, end as int) is Some,
            total == done + walk_from(
                entries@,
                i as int,
                time as int,
                number as int,
                end as int,
            )->0,
            list@.len() == done.len(),
            joined_so_far(list@, base@, paths),
        decreases entries.len() - i,
    {
        let entry = &entries[i];
        let ghost d = entry.d as int;
        match span_of(entry, time, number, end) {
            None => {
                return Err(DashMpdError::unhandled("SegmentTemplate with more segments than can be numbered"));
            },
            Some((start, n)) => {
                let ghost block = entry_points(start as int, d, number as int, n as int);
                let ghost rest = walk_from(
                    entries@,
                    i + 1,
                    start + (n + 1) * d,
                    number + n + 1,
                    end as int,
                )->0;
                let ghost before = done.len() as int;
                proof {
                    assert(walk_from(entries@, i as int, time as int, number as int, end as int)->0
                        == block + rest);
                    assert(total =~= (done + block) + rest);
                    assert(forall|j: int|
                        0 <= j <= n ==> total[before + j] == #[trigger] block[j]);
                    assert(paths.len() == total.len());
                }
                let mut t: u64 = start;
                let mut num: u64 = number as u64;
                let mut j: u64 = 0;
                proof {
                    assert(start + 0 * d == start) by (nonlinear_arith);
                    assert(block[0] == TimelinePoint { time: t as int, number: num as int });
                }
                let path = timeline_path(media, t, num);
                match joined_fragment(base, path.as_str()) {
                    Ok(fragment) => {
                        list.push(fragment);
                    },
                    Err(error) => {
                        proof {
                            lemma_joined_fails(base@, paths, before);
                        }
                        return Err(error);
                    },
                }
                while j < n
                    invariant
                        j <= n,
                        d == entry.d as int,
                        t as int == start + j * d,
                        num as int == number + j,
                        start + n * d <= u64::MAX,
                        number + n <= u64::MAX,
                        before + n + 1 <= total.len(),
                        timeline_points(entries@, start_number, end as int) == Some(total),
                        paths == point_paths(media@, total),
                        block == entry_points(start as int, d, number as int, n as int),
                        forall|k: int| 0 <= k <= n ==> total[before + k] == #[trigger] block[k],
                        list@.len() == before + j + 1,
                        joined_so_far(list@, base@, paths),
                    decreases n - j,
                {
                    proof {
                        assert(start + (j + 1) * d == start + j * d + d) by (nonlinear_arith);
                        assert((j + 1) * d <= n * d) by (nonlinear_arith)
                            requires
                                j + 1 <= n,
                                0 <= d,
                        ;
                    }
                    j += 1;
                    t = t + entry.d;
                    num = num + 1;
                    proof {
                        assert(block[j as int] == TimelinePoint {
                            time: t as int,
                            number: num as int,
                        });
                    }
                    let path = timeline_path(media, t, num);
                    match joined_fragment(base, path.as_str()) {
                        Ok(fragment) => {
                            list.push(fragment);
                        },
                        Err(error) => {
                            proof {
                                lemma_joined_fails(base@, paths, before + j);
                            }
                            return Err(error);
                        },
                    }
                }
                proof {
                    done = done + block;
                }
                let next = after_span(entry, start, n, number);
                time = next.0;
                number = next.1;
            },
        }
        i += 1;
    }
    proof {
        assert(done =~= total);
        lemma_joined_complete(list@, base@, paths);
    }
    Ok(list)
}

fn positive(duration: Option<u64>) -> (given: Option<u64>)
    ensures
        given == (if duration is Some && duration->0 > 0 {
            duration
        } else {
            None
        }),
{
    match duration {
        Some(d) => if d > 0 {
            Some(d)
        } else {
            None
        },
        None => None,
    }
}

fn count_segments(period_ns: u64, config: &TemplateConfig) -> (count: Option<u128>)
    ensures
        match count {
            Some(c) => segment_count(period_ns, config@) == Some(c as int),
            None => segment_count(period_ns, config@) is None,
        },
{
    let (x, d): (u128, u64) = match positive(config.own_duration) {
        Some(d) => {
            assert(period_ns as int * config.timescale as int <= 0xffff_ffff_ffff_ffff
                * 0xffff_ffff_ffff_ffff) by (nonlinear_arith)
                requires
                    0 <= period_ns as int <= 0xffff_ffff_ffff_ffff,
                    0 <= config.timescale as int <= 0xffff_ffff_ffff_ffff,
            ;
            assert(0 <= period_ns as int * config.timescale as int) by (nonlinear_arith)
                requires
                    0 <= period_ns as int,
                    0 <= config.timescale as int,
            ;
            ((period_ns as u128) * (config.timescale as u128), d)
        },
        None => match positive(config.outer_duration) {
            Some(d) => (period_ns as u128, d),
            None => {
                return None;
            },
        },
    };
    let y: u128 = (d as u128) * 1_000_000_000;
    let q: u128 = x / y;
    if x % y == 0 {
        Some(q)
    } else {
        assert(q * 2 <= x) by (nonlinear_arith)
            requires
                q == x / y,
                y >= 2,
                x >= 0,
        ;
        Some(q + 1)
    }
}

fn emit_numbered_media(
    media: &str,
    base: &AbsoluteUrl,
    period_ns: u64,
    config: &TemplateConfig,
    stream: StreamKind,
) -> (result: Result<Vec<MediaFragment>, DashMpdError>)
    ensures
        fragments_are(result, numbered_media(media@, base@, period_ns, config@, stream)),
{
    let count: u128 = match count_segments(period_ns, config) {
        Some(c) => c,
        None => {
            return Err(
                match stream {
                    StreamKind::Audio => DashMpdError::unhandled(
                        "Audio representation is missing SegmentTemplate @duration attribute",
                    ),
                    StreamKind::Video => DashMpdError::unhandled(
                        "Video representation is missing SegmentTemplate @duration attribute",
                    ),
                },
            );
        },
    };
    let first: u128 = config.start_number as u128;
    if count > 0 && count - 1 > u64::MAX as u128 - first {
        return Err(
            DashMpdError::unhandled("SegmentTemplate with more segments than can be numbered"),
        );
    }
    let ghost paths = number_paths(media@, config.start_number, count as int);
    let mut list: Vec<MediaFragment> = Vec::new();
    let mut k: u128 = 0;
    while k < count
        invariant
            k <= count,
            first == config.start_number as u128,
            count > 0 ==> first + count - 1 <= u64::MAX,
            segment_count(period_ns, config@) == Some(count as int),
            paths == number_paths(media@, config.start_number, count as int),
            list@.len() == k,
            joined_so_far(list@, base@, paths),
        decreases count - k,
    {
        let number: u64 = (first + k) as u64;
        let path = numbered_path(media, number);
        match joined_fragment(base, path.as_str()) {
            Ok(fragment) => {
                list.push(fragment);
            },
            Err(error) => {
                proof {
                    lemma_joined_fails(base@, paths, k as int);
                }
                return Err(error);
            },
        }
        k += 1;
    }
    proof {
        lemma_joined_complete(list@, base@, paths);
    }
    Ok(list)
}

fn emit_template_media(
    own: &SegmentTemplate,
    config: &TemplateConfig,
    base: &AbsoluteUrl,
    vars: &TemplateVars,
    period_ns: u64,
    stream: StreamKind,
) -> (result: Result<Vec<MediaFragment>, DashMpdError>)
    ensures
        fragments_are(result, template_media(*own, config@, base@, vars@, period_ns, stream)),
{
    match &own.segment_timeline {
        Some(timeline) => match config.media {
            None => Err(DashMpdError::unhandled("SegmentTimeline without a media attribute")),
            Some(media) => {
                let path = resolve_url_template(media.as_str(), vars);
                let end = period_end(period_ns, config.timescale);
                emit_timeline_media(
                    &timeline.segments,
                    path.as_str(),
                    base,
                    config.start_number,
                    end,
                )
            },
        },
        None => match config.media {
            None => Ok(none_yet()),
            Some(media) => {
                let path = resolve_url_template(media.as_str(), vars);
                emit_numbered_media(path.as_str(), base, period_ns, config, stream)
            },
        },
    }
}

fn emit_template(
    own: &SegmentTemplate,
    outer: &Option<SegmentTemplate>,
    base: &AbsoluteUrl,
    vars: &TemplateVars,
    period_ns: u64,
    stream: StreamKind,
) -> (result: Result<Vec<MediaFragment>, DashMpdError>)
    ensures
        fragments_are(result, template_fragments(*own, *outer, base@, vars@, period_ns, stream)),
{
    let config = configure_template(own, outer);
    let mut out = match emit_template_initialization(config.initialization, base, vars) {
        Ok(found) => found,
        Err(error) => {
            return Err(error);
        },
    };
    match emit_template_media(own, &config, base, vars, period_ns, stream) {
        Ok(found) => {
            append_fragments(&mut out, found);
            Ok(out)
        },
        Err(error) => Err(error),
    }
}

fn emit_addressed(
    adaptation: &AdaptationSet,
    representation: &Representation,
    base: &AbsoluteUrl,
    vars: &TemplateVars,
    period_ns: u64,
    nothing_yet: bool,
    stream: StreamKind,
) -> (result: Result<Vec<MediaFragment>, DashMpdError>)
    ensures
        fragments_are(
            result,
            addressed_fragments(
                *adaptation,
                *representation,
                base@,
                vars@,
                period_ns,
                nothing_yet,
                stream,
            ),
        ),
{
    if let Some(list) = &representation.segment_list {
        return emit_segment_list(list, base, vars, first_base_of(&representation.base_urls));
    }
    if let Some(own) = &representation.segment_template {
        return emit_template(own, &adaptation.segment_template, base, vars, period_ns, stream);
    }
    if let Some(own) = &adaptation.segment_template {
        return emit_template(own, &adaptation.segment_template, base, vars, period_ns, stream);
    }
    if let Some(segment_base) = &representation.segment_base {
        return emit_segment_base(segment_base, base, vars);
    }
    if nothing_yet && representation.base_urls.len() > 0 {
        return match resolve_under(
            base,
            representation.base_urls[0].base.as_str(),
            "resolving Representation BaseURL",
        ) {
            Ok(url) => Ok(only(MediaFragment::whole(url))),
            Err(error) => Err(error),
        };
    }
    Ok(none_yet())
}

fn variables_of(id: &String, bandwidth: Option<u64>) -> (vars: TemplateVars)
    ensures
        vars@ == representation_vars(id@, bandwidth),
{
    let mut vars = TemplateVars::new();
    vars.set(TemplateVar::RepresentationID, id.clone());
    match bandwidth {
        Some(b) => {
            vars.set(TemplateVar::Bandwidth, string_of(&decimal_of(b)));
        },
        None => {},
    }
    vars
}

/// Lists the fragments that a chosen representation adds to its stream, by
/// the first addressing mode that applies to it. `base` is the base URL in
/// force in its adaptation set, `period_ns` the length of the period in
/// nanoseconds. A representation that has no fragment to add is an error.
/// Every fragment that is listed has an absolute URL.
pub fn emit_representation(
    adaptation: &AdaptationSet,
    representation: &Representation,
    base: &AbsoluteUrl,
    period_ns: u64,
    stream: StreamKind,
) -> (result: Result<Vec<MediaFragment>, DashMpdError>)
    ensures
        fragments_are(
            result,
            representation_fragments(
                *adaptation,
                *representation,
                base@,
                period_ns,
                stream,
            ),
        ),
        result is Ok ==> all_absolute(result->Ok_0@),
{
    let own_base = match enter_level(base, &representation.base_urls, "resolving Representation BaseURL") {
        Ok(url) => url,
        Err(error) => {
            return Err(error);
        },
    };
    let id = match &representation.id {
        Some(id) => id,
        None => {
            return Err(DashMpdError::unhandled("Missing @id on Representation node"));
        },
    };
    let vars = variables_of(id, representation.bandwidth);
    let mut out = match &adaptation.segment_list {
        Some(list) => match emit_segment_list(
            list,
            &own_base,
            &vars,
            first_base_of(&adaptation.base_urls),
        ) {
            Ok(found) => found,
            Err(error) => {
                return Err(error);
            },
        },
        None => none_yet(),
    };
    let nothing_yet = out.len() == 0;
    match emit_addressed(
        adaptation,
        representation,
        &own_base,
        &vars,
        period_ns,
        nothing_yet,
        stream,
    ) {
        Ok(found) => {
            append_fragments(&mut out, found);
        },
        Err(error) => {
            return Err(error);
        },
    }
    if out.len() == 0 {
        return Err(
            match stream {
                StreamKind::Audio => DashMpdError::unhandled(
                    "no usable addressing mode identified for audio representation",
                ),
                StreamKind::Video => DashMpdError::unhandled(
                    "no usable addressing mode identified for video representation",
                ),
            },
        );
    }
    Ok(out)
}

} // verus!
