//! Walking a `SegmentTimeline`: the start time and the number of each of its
//! segments.

use crate::mpd::TimelineEntry;
use vstd::prelude::*;

verus! {

/// A segment of a timeline: when it starts, in units of the timescale, and
/// its number.
pub struct TimelinePoint {
    pub time: int,
    pub number: int,
}

/// The last instant of a period, in units of the timescale, rounded down.
/// The period lasts `period_ns` nanoseconds; `timescale` units make a second.
pub open spec fn period_end_tick(period_ns: u64, timescale: u64) -> int {
    (period_ns as int * timescale as int) / 1_000_000_000
}

/// When the first segment of an entry starts: at its `t` where it has one,
/// else where the entry before it ended.
pub open spec fn entry_start(entry: TimelineEntry, carried: int) -> int {
    match entry.t {
        Some(t) => t as int,
        None => carried,
    }
}

/// How many segments follow the first segment of an entry. A negative `r`
/// repeats the segment until one starts after the end of the period; `None`
/// where that never happens, because the segments have no length.
pub open spec fn repeats(entry: TimelineEntry, start: int, end: int) -> Option<int> {
    match entry.r {
        None => Some(0),
        Some(r) => if r >= 0 {
            Some(r as int)
        } else if start > end {
            Some(0)
        } else if entry.d == 0 {
            None
        } else {
            Some((end - start) / (entry.d as int) + 1)
        },
    }
}

/// The segments of one entry: `n + 1` of them, each `d` after the one before,
/// numbered from `number` on.
pub open spec fn entry_points(start: int, d: int, number: int, n: int) -> Seq<TimelinePoint> {
    Seq::new((n + 1) as nat, |j: int| TimelinePoint { time: start + j * d, number: number + j })
}

/// The first segment of an entry and how many follow it.
pub struct Span {
    pub start: int,
    pub repeats: int,
}

/// The span of an entry, or `None` where its segments never end or where a
/// start time or a number of one of them does not fit in 64 bits.
pub open spec fn entry_span(entry: TimelineEntry, carried: int, number: int, end: int) -> Option<
    Span,
> {
    let start = entry_start(entry, carried);
    match repeats(entry, start, end) {
        None => None,
        Some(n) => if start + n * entry.d > u64::MAX || number + n > u64::MAX {
            None
        } else {
            Some(Span { start, repeats: n })
        },
    }
}

/// The segments of the entries from position `i` on, where the entry before
/// ended at `time` and the next number is `number`.
pub open spec fn walk_from(entries: Seq<TimelineEntry>, i: int, time: int, number: int, end: int) -> Option<
    Seq<TimelinePoint>,
>
    decreases entries.len() - i,
{
    if i < 0 || i >= entries.len() {
        Some(Seq::empty())
    } else {
        match entry_span(entries[i], time, number, end) {
            None => None,
            Some(span) => {
                let d = entries[i].d as int;
                match walk_from(
                    entries,
                    i + 1,
                    span.start + (span.repeats + 1) * d,
                    number + span.repeats + 1,
                    end,
                ) {
                    None => None,
                    Some(rest) => Some(entry_points(span.start, d, number, span.repeats) + rest),
                }
            },
        }
    }
}

/// The segments of a timeline, in order. The walk starts at time 0 and at
/// number `start_number`; `end` is the last instant of the period.
pub open spec fn timeline_points(entries: Seq<TimelineEntry>, start_number: u64, end: int) -> Option<
    Seq<TimelinePoint>,
> {
    walk_from(entries, 0, 0, start_number as int, end)
}

/// No entry from position `i` on repeats to the end of the period.
pub open spec fn counted_from(entries: Seq<TimelineEntry>, i: int) -> bool {
    forall|k: int|
        i <= k < entries.len() ==> (#[trigger] entries[k]).r is None || entries[k].r->0 >= 0
}

/// One segment for each entry from position `i` on, and one more for each of
/// its repeats.
pub open spec fn repeat_sum(entries: Seq<TimelineEntry>, i: int) -> int
    decreases entries.len() - i,
{
    if i < 0 || i >= entries.len() {
        0
    } else {
        1 + (match entries[i].r {
            Some(r) => if r >= 0 {
                r as int
            } else {
                0
            },
            None => 0,
        }) + repeat_sum(entries, i + 1)
    }
}

/// Where no entry repeats to the end of the period, a timeline has one
/// segment for each entry and one more for each repeat.
pub proof fn lemma_walk_count(
    entries: Seq<TimelineEntry>,
    i: int,
    time: int,
    number: int,
    end: int,
)
    requires
        0 <= i,
        counted_from(entries, i),
        walk_from(entries, i, time, number, end) is Some,
    ensures
        walk_from(entries, i, time, number, end)->0.len() == repeat_sum(entries, i),
    decreases entries.len() - i,
{
    if i < entries.len() {
        let span = entry_span(entries[i], time, number, end)->0;
        let d = entries[i].d as int;
        assert(entries[i].r is None || entries[i].r->0 >= 0);
        lemma_walk_count(
            entries,
            i + 1,
            span.start + (span.repeats + 1) * d,
            number + span.repeats + 1,
            end,
        );
    }
}

/// A timeline whose entries do not repeat to the end of the period has
/// `repeat_sum` segments.
pub proof fn lemma_timeline_count(entries: Seq<TimelineEntry>, start_number: u64, end: int)
    requires
        counted_from(entries, 0),
        timeline_points(entries, start_number, end) is Some,
    ensures
        timeline_points(entries, start_number, end)->0.len() == repeat_sum(entries, 0),
{
    lemma_walk_count(entries, 0, 0, start_number as int, end);
}

/// The last instant of a period, in units of the timescale, rounded down.
pub fn period_end(period_ns: u64, timescale: u64) -> (end: u128)
    ensures
        end as int == period_end_tick(period_ns, timescale),
{
    assert(period_ns as int * timescale as int <= 0xffff_ffff_ffff_ffff * 0xffff_ffff_ffff_ffff)
        by (nonlinear_arith)
        requires
            0 <= period_ns as int <= 0xffff_ffff_ffff_ffff,
            0 <= timescale as int <= 0xffff_ffff_ffff_ffff,
    ;
    assert(0 <= period_ns as int * timescale as int) by (nonlinear_arith)
        requires
            0 <= period_ns as int,
            0 <= timescale as int,
    ;
    let product: u128 = (period_ns as u128) * (timescale as u128);
    product / 1_000_000_000
}

/// The start of the first segment of an entry and the number of its repeats,
/// as far as every segment of the entry can be written down.
pub fn span_of(entry: &TimelineEntry, carried: u128, number: u128, end: u128) -> (span: Option<
    (u64, u64),
>)
    ensures
        match span {
            Some((start, n)) => entry_span(*entry, carried as int, number as int, end as int)
                == Some(Span { start: start as int, repeats: n as int }) && start + n * entry.d
                <= u64::MAX && number + n <= u64::MAX,
            None => entry_span(*entry, carried as int, number as int, end as int) is None,
        },
{
    let start_wide: u128 = match entry.t {
        Some(t) => t as u128,
        None => carried,
    };
    let ghost start_int = entry_start(*entry, carried as int);
    let ghost d_int = entry.d as int;
    assert(start_wide as int == start_int);
    proof {
        match repeats(*entry, start_int, end as int) {
            Some(n) => {
                assert(n >= 0) by {
                    if entry.r is Some && entry.r->0 < 0 && start_int <= end as int && entry.d
                        != 0 {
                        assert((end as int - start_int) / d_int >= 0) by (nonlinear_arith)
                            requires
                                end as int - start_int >= 0,
                                d_int > 0,
                        ;
                    }
                }
                assert(n * d_int >= 0) by (nonlinear_arith)
                    requires
                        n >= 0,
                        d_int >= 0,
                ;
            },
            None => {},
        }
    }
    if start_wide > u64::MAX as u128 || number > u64::MAX as u128 {
        return None;
    }
    let start: u64 = start_wide as u64;
    let n: u64 = match entry.r {
        None => 0,
        Some(r) => {
            if r >= 0 {
                r as u64
            } else if start_wide > end {
                0
            } else if entry.d == 0 {
                return None;
            } else {
                let q: u128 = (end - start_wide) / (entry.d as u128);
                if q >= u64::MAX as u128 {
                    proof {
                        assert((q + 1) * d_int >= q + 1) by (nonlinear_arith)
                            requires
                                q + 1 >= 0,
                                d_int >= 1,
                        ;
                    }
                    return None;
                }
                (q + 1) as u64
            }
        },
    };
    assert(repeats(*entry, start_int, end as int) == Some(n as int));
    assert(n as int * d_int <= 0xffff_ffff_ffff_ffff * 0xffff_ffff_ffff_ffff) by (nonlinear_arith)
        requires
            0 <= n as int <= 0xffff_ffff_ffff_ffff,
            0 <= d_int <= 0xffff_ffff_ffff_ffff,
    ;
    assert(0 <= n as int * d_int) by (nonlinear_arith)
        requires
            0 <= n as int,
            0 <= d_int,
    ;
    let reach: u128 = (n as u128) * (entry.d as u128);
    if start_wide + reach > u64::MAX as u128 {
        return None;
    }
    if number + (n as u128) > u64::MAX as u128 {
        return None;
    }
    Some((start, n))
}

/// Where the entry after this one starts if it names no time of its own,
/// and the number of its first segment.
pub(crate) fn after_span(entry: &TimelineEntry, start: u64, n: u64, number: u128) -> (next: (u128, u128))
    requires
        number + n <= u64::MAX,
    ensures
        next.0 as int == start + (n + 1) * entry.d,
        next.1 as int == number + n + 1,
{
    let ghost d_int = entry.d as int;
    assert((n + 1) * d_int <= 0x1_0000_0000_0000_0000 * 0xffff_ffff_ffff_ffff) by (nonlinear_arith)
        requires
            0 <= n + 1 <= 0x1_0000_0000_0000_0000,
            0 <= d_int <= 0xffff_ffff_ffff_ffff,
    ;
    assert(0 <= (n + 1) * d_int) by (nonlinear_arith)
        requires
            0 <= n + 1,
            0 <= d_int,
    ;
    let steps: u128 = (n as u128) + 1;
    let length: u128 = steps * (entry.d as u128);
    ((start as u128) + length, number + (n as u128) + 1)
}

/// Whether the timeline can be walked: whether every segment of it has a
/// start time and a number that fit in 64 bits, and no entry repeats without
/// end.
pub fn timeline_fits(entries: &Vec<TimelineEntry>, start_number: u64, end: u128) -> (fits: bool)
    ensures
        fits == timeline_points(entries@, start_number, end as int) is Some,
{
    let mut time: u128 = 0;
    let mut number: u128 = start_number as u128;
    let mut i: usize = 0;
    while i < entries.len()
        invariant
            i <= entries.len(),
            timeline_points(entries@, start_number, end as int) is Some <==> walk_from(
                entries@,
                i as int,
                time as int,
                number as int,
                end as int,
            ) is Some,
        decreases entries.len() - i,
    {
        match span_of(&entries[i], time, number, end) {
            None => {
                return false;
            },
            Some((start, n)) => {
                let next = after_span(&entries[i], start, n, number);
                time = next.0;
                number = next.1;
            },
        }
        i += 1;
    }
    true
}

} // verus!
