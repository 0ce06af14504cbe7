//! The timeline of a view: entries as blocks between the times of two labels,
//! laid out in lanes so that no two blocks overlap.

use vstd::prelude::*;

use crate::arith;
use crate::components;
use crate::decimal;
use crate::golayout;
use crate::graphql_client::{Entry, LabelSchema, Labeling, Member, ViewTimeline};
use crate::json;
use crate::json::JsonV;
use crate::query_eval;
use crate::text;

verus! {

/// The kind of an axis.
#[derive(Debug, Clone, Copy, PartialEq, Eq, Structural)]
pub enum Family {
    /// Dates, with or without a time.
    DateTime,
    /// Times of day: the axis is one day.
    TimeOfDay,
}

/// Whether a value type has a date.
pub open spec fn is_dated(vt: Seq<char>) -> bool {
    vt == "date"@ || vt == "datetime"@
}

/// The axis that two value types share.
pub open spec fn family_of(start_vt: Seq<char>, end_vt: Seq<char>) -> Option<Family> {
    if is_dated(start_vt) && is_dated(end_vt) {
        Some(Family::DateTime)
    } else if start_vt == "time"@ && end_vt == "time"@ {
        Some(Family::TimeOfDay)
    } else {
        None
    }
}

/// The axis that two value types share; none where one has a date and the
/// other has not, or one is no time.
pub fn family(start_vt: &str, end_vt: &str) -> (r: Option<Family>)
    ensures
        r == family_of(start_vt@, end_vt@),
{
    let start_dated = text::same(start_vt, "date") || text::same(start_vt, "datetime");
    let end_dated = text::same(end_vt, "date") || text::same(end_vt, "datetime");
    if start_dated && end_dated {
        Some(Family::DateTime)
    } else if text::same(start_vt, "time") && text::same(end_vt, "time") {
        Some(Family::TimeOfDay)
    } else {
        None
    }
}

/// An entry with its times, in seconds.
#[derive(Debug, Clone, Copy, PartialEq, Eq, Structural)]
pub struct Span {
    pub idx: usize,
    pub start: i64,
    pub end: i64,
}

/// A block on the timeline.
#[derive(Debug, Clone, Copy, PartialEq, Eq, Structural)]
pub struct Placed {
    /// The position of the entry.
    pub idx: usize,
    pub start: i64,
    pub end: i64,
    /// The lane, counted from the top.
    pub lane: usize,
}

/// A timeline laid out.
#[derive(Debug, Clone)]
pub struct Plan {
    pub family: Family,
    /// The ends of the axis, in seconds.
    pub lo: i64,
    pub hi: i64,
    /// The distance of ticks, in seconds.
    pub step: i64,
    pub placed: Vec<Placed>,
    pub lanes: usize,
    /// The positions of the entries without times.
    pub unscheduled: Vec<usize>,
}

// ---------------------------------------------------------------------------
// Times of entries
// ---------------------------------------------------------------------------

/// The position of the first definition of a label, or their number.
pub open spec fn schema_at(schemas: Seq<LabelSchema>, name: Seq<char>) -> int
    decreases schemas.len(),
{
    if schemas.len() == 0 || schemas[0].name@ == name {
        0
    } else {
        1 + schema_at(schemas.skip(1), name)
    }
}

/// The first definition of a label.
pub fn find_schema<'a>(schemas: &'a [LabelSchema], name: &str) -> (r: Option<&'a LabelSchema>)
    ensures
        match r {
            Some(s) => 0 <= schema_at(schemas@, name@) < schemas@.len() && *s == schemas@[schema_at(
                schemas@,
                name@,
            )],
            None => schema_at(schemas@, name@) == schemas@.len(),
        },
{
    let mut i: usize = 0;
    assert(schemas@.skip(0) =~= schemas@);
    while i < schemas.len()
        invariant
            i <= schemas@.len(),
            schema_at(schemas@, name@) == i + schema_at(schemas@.skip(i as int), name@),
        decreases schemas@.len() - i,
    {
        let ghost rest = schemas@.skip(i as int);
        assert(rest[0] == schemas@[i as int]);
        assert(rest.skip(1) =~= schemas@.skip(i + 1));
        if text::same(schemas[i].name.as_str(), name) {
            return Some(&schemas[i]);
        }
        i += 1;
    }
    None
}

/// The layout of the times of a label.
pub open spec fn layout_of_schema(s: LabelSchema) -> Seq<char> {
    golayout::resolved(text::opt_view(s.format), golayout::default_go_of(s.value_type@))
}

/// An optional string as a slice.
pub fn opt_slice(o: &Option<String>) -> (r: Option<&str>)
    ensures
        text::opt_str(r) == text::opt_view(*o),
{
    match o {
        Some(s) => Some(s.as_str()),
        None => None,
    }
}

/// The layout of the times of a label.
pub fn layout_of(s: &LabelSchema) -> (r: String)
    ensures
        r@ == layout_of_schema(*s),
{
    golayout::resolve(opt_slice(&s.format), golayout::default_go(s.value_type.as_str()))
}

/// The value of a label of an entry: its own, else one that it is given by
/// other labels.
pub open spec fn effective_value(own: Seq<Labeling>, derived: Seq<Labeling>, name: Seq<char>) -> Option<
    JsonV,
> {
    match query_eval::label_named(own, name) {
        Some(v) => Some(v),
        None => query_eval::label_named(derived, name),
    }
}

/// The value of a label of an entry.
pub fn label_value<'a>(entry: &'a Entry, derived: &'a [Labeling], name: &str) -> (r: Option<
    &'a json::Json,
>)
    ensures
        json::opt_json(r) == effective_value(entry.labels@, derived@, name@),
{
    match query_eval::find_label(entry.labels.as_slice(), name) {
        Some(v) => Some(v),
        None => query_eval::find_label(derived, name),
    }
}

/// The seconds of a time label of an entry.
pub open spec fn label_seconds(own: Seq<Labeling>, derived: Seq<Labeling>, s: LabelSchema) -> Option<
    int,
> {
    match json::opt_str_of(effective_value(own, derived, s.name@)) {
        Some(raw) => match golayout::parsed(layout_of_schema(s), raw) {
            Some(t) => Some(golayout::moment_seconds(t)),
            None => None,
        },
        None => None,
    }
}

/// The seconds between which an entry lies: an end before the start counts as
/// the start.
pub open spec fn span_of(
    own: Seq<Labeling>,
    derived: Seq<Labeling>,
    start: LabelSchema,
    end: LabelSchema,
) -> Option<(int, int)> {
    match (label_seconds(own, derived, start), label_seconds(own, derived, end)) {
        (Some(a), Some(b)) => Some(
            (
                a,
                if b < a {
                    a
                } else {
                    b
                },
            ),
        ),
        _ => None,
    }
}

/// A moment that was read from a text is at most ten thousand years away.
pub proof fn read_moment_is_near(layout: Seq<char>, s: Seq<char>)
    requires
        golayout::parsed(layout, s) is Some,
    ensures
        -100_000_000_000 < golayout::moment_seconds(golayout::parsed(layout, s)->0)
            < 1_000_000_000_000,
{
    golayout::parsed_in_range(layout, s);
    let t = golayout::parsed(layout, s)->0;
    let y = t.year as int;
    assert(golayout::days_in_years(y) <= 366 * y);
    assert(golayout::days_in_years(y) >= 0);
    assert(golayout::days_in_years(y - 1) <= 366 * y);
    assert(golayout::days_in_years(y - 1) >= -366);
}

/// Reads the seconds of a time label of an entry.
fn read_seconds(entry: &Entry, derived: &[Labeling], s: &LabelSchema) -> (r: Option<i64>)
    ensures
        match r {
            Some(n) => label_seconds(entry.labels@, derived@, *s) == Some(n as int)
                && -100_000_000_000 < n < 1_000_000_000_000,
            None => label_seconds(entry.labels@, derived@, *s) is None,
        },
{
    match label_value(entry, derived, s.name.as_str()) {
        Some(v) => match v.as_str() {
            Some(raw) => {
                let layout = layout_of(s);
                match golayout::parse(layout.as_str(), raw) {
                    Some(t) => {
                        proof {
                            read_moment_is_near(layout@, raw@);
                        }
                        Some(golayout::to_seconds(t))
                    },
                    None => None,
                }
            },
            None => None,
        },
        None => None,
    }
}

/// Reads the seconds between which an entry lies.
fn span(entry: &Entry, derived: &[Labeling], start: &LabelSchema, end: &LabelSchema) -> (r: Option<
    (i64, i64),
>)
    ensures
        match r {
            Some((a, b)) => span_of(entry.labels@, derived@, *start, *end) == Some(
                (a as int, b as int),
            ) && -100_000_000_000 < a <= b < 1_000_000_000_000,
            None => span_of(entry.labels@, derived@, *start, *end) is None,
        },
{
    match (read_seconds(entry, derived, start), read_seconds(entry, derived, end)) {
        (Some(a), Some(b)) => if b < a {
            Some((a, a))
        } else {
            Some((a, b))
        },
        _ => None,
    }
}

/// What the labels of each entry give it, for the first `n` entries.
pub open spec fn spans_of(
    entries: Seq<Entry>,
    derived: Seq<Vec<Labeling>>,
    start: LabelSchema,
    end: LabelSchema,
    n: int,
) -> Seq<Span>
    decreases n,
{
    if n <= 0 {
        seq![]
    } else {
        let rest = spans_of(entries, derived, start, end, n - 1);
        match span_of(entries[n - 1].labels@, derived[n - 1]@, start, end) {
            Some((a, b)) => rest.push(Span { idx: (n - 1) as usize, start: a as i64, end: b as i64 }),
            None => rest,
        }
    }
}

/// The positions of the entries without times among the first `n`.
pub open spec fn without_times(
    entries: Seq<Entry>,
    derived: Seq<Vec<Labeling>>,
    start: LabelSchema,
    end: LabelSchema,
    n: int,
) -> Seq<int>
    decreases n,
{
    if n <= 0 {
        seq![]
    } else {
        let rest = without_times(entries, derived, start, end, n - 1);
        if span_of(entries[n - 1].labels@, derived[n - 1]@, start, end) is Some {
            rest
        } else {
            rest.push(n - 1)
        }
    }
}

// ---------------------------------------------------------------------------
// Order
// ---------------------------------------------------------------------------

/// Whether one span comes before another, or is the same: by start, then by
/// end, then by position.
pub open spec fn comes_first(a: Span, b: Span) -> bool {
    a.start < b.start || (a.start == b.start && (a.end < b.end || (a.end == b.end && a.idx
        <= b.idx)))
}

/// A span put at its place behind those that come before it.
pub open spec fn inserted(s: Seq<Span>, x: Span) -> Seq<Span>
    decreases s.len(),
{
    if s.len() == 0 || comes_first(s.last(), x) {
        s.push(x)
    } else {
        inserted(s.drop_last(), x).push(s.last())
    }
}

/// Spans in order of time.
pub open spec fn in_time_order(s: Seq<Span>) -> Seq<Span>
    decreases s.len(),
{
    if s.len() == 0 {
        seq![]
    } else {
        inserted(in_time_order(s.drop_last()), s.last())
    }
}

/// Where a span is put.
proof fn inserted_at(s: Seq<Span>, x: Span, p: int)
    requires
        0 <= p <= s.len(),
        p > 0 ==> comes_first(s[p - 1], x),
        forall|k: int| p <= k < s.len() ==> !comes_first(#[trigger] s[k], x),
    ensures
        inserted(s, x) == s.insert(p, x),
    decreases s.len(),
{
    if p == s.len() {
        assert(s.insert(p, x) =~= s.push(x));
    } else {
        let d = s.drop_last();
        assert(!comes_first(s[s.len() - 1], x));
        assert forall|k: int| p <= k < d.len() implies !comes_first(#[trigger] d[k], x) by {
            assert(d[k] == s[k]);
        }
        inserted_at(d, x, p);
        assert(d.insert(p, x).push(s.last()) =~= s.insert(p, x));
    }
}

/// Puts a span at its place.
fn insert_span(v: &mut Vec<Span>, x: Span)
    ensures
        final(v)@ == inserted(old(v)@, x),
{
    let mut p: usize = v.len();
    while p > 0 && !(v[p - 1].start < x.start || (v[p - 1].start == x.start && (v[p - 1].end
        < x.end || (v[p - 1].end == x.end && v[p - 1].idx <= x.idx))))
        invariant
            p <= v@.len(),
            v@ == old(v)@,
            forall|k: int| p <= k < v@.len() ==> !comes_first(#[trigger] v@[k], x),
        decreases p,
    {
        p -= 1;
    }
    proof {
        inserted_at(v@, x, p as int);
    }
    v.insert(p, x);
}

/// Sorts spans by time.
fn sort_spans(s: &Vec<Span>) -> (r: Vec<Span>)
    ensures
        r@ == in_time_order(s@),
{
    let mut out: Vec<Span> = Vec::new();
    let mut i: usize = 0;
    while i < s.len()
        invariant
            i <= s@.len(),
            out@ == in_time_order(s@.take(i as int)),
        decreases s@.len() - i,
    {
        assert(s@.take(i + 1).drop_last() =~= s@.take(i as int));
        insert_span(&mut out, s[i]);
        i += 1;
    }
    assert(s@.take(i as int) =~= s@);
    out
}

// ---------------------------------------------------------------------------
// Lanes
// ---------------------------------------------------------------------------

/// The first lane that is free from a time on, or their number.
pub open spec fn free_lane(ends: Seq<int>, a: int) -> int
    decreases ends.len(),
{
    if ends.len() == 0 || a >= ends[0] {
        0
    } else {
        1 + free_lane(ends.skip(1), a)
    }
}

/// The time until which a block takes its lane: at least a second.
pub open spec fn taken_until(x: Span) -> int {
    if x.end > x.start {
        x.end as int
    } else {
        x.start + 1
    }
}

/// The times until which the lanes are taken after blocks were placed one by
/// one, each in the first lane free for it.
pub open spec fn lane_ends(s: Seq<Span>) -> Seq<int>
    decreases s.len(),
{
    if s.len() == 0 {
        seq![]
    } else {
        let before = lane_ends(s.drop_last());
        let k = free_lane(before, s.last().start as int);
        if 0 <= k < before.len() {
            before.update(k, taken_until(s.last()))
        } else {
            before.push(taken_until(s.last()))
        }
    }
}

/// The lane of a block.
pub open spec fn lane_of(s: Seq<Span>, i: int) -> int {
    free_lane(lane_ends(s.take(i)), s[i].start as int)
}

/// What [`free_lane`] finds.
pub proof fn free_lane_props(ends: Seq<int>, a: int)
    ensures
        0 <= free_lane(ends, a) <= ends.len(),
        free_lane(ends, a) < ends.len() ==> a >= ends[free_lane(ends, a)],
        forall|k: int| 0 <= k < free_lane(ends, a) ==> a < #[trigger] ends[k],
    decreases ends.len(),
{
    if ends.len() > 0 && a < ends[0] {
        let t = ends.skip(1);
        free_lane_props(t, a);
        assert forall|k: int| 0 <= k < free_lane(ends, a) implies a < #[trigger] ends[k] by {
            if k > 0 {
                assert(ends[k] == t[k - 1]);
            }
        }
    }
}

/// [`free_lane`] is the only position with its property.
proof fn free_lane_is(ends: Seq<int>, a: int, n: int)
    requires
        0 <= n <= ends.len(),
        n < ends.len() ==> a >= ends[n],
        forall|k: int| 0 <= k < n ==> a < #[trigger] ends[k],
    ensures
        free_lane(ends, a) == n,
{
    free_lane_props(ends, a);
    let m = free_lane(ends, a);
    if m < n {
        assert(a < ends[m]);
    } else if n < m {
        assert(a < ends[n]);
    }
}

/// The times of lanes as mathematical integers.
pub open spec fn lane_view(v: Seq<i64>) -> Seq<int> {
    Seq::new(v.len(), |i: int| v[i] as int)
}

/// Places blocks one by one, each in the first lane free for it; says how many
/// lanes there are.
fn assign_lanes(s: &Vec<Span>) -> (r: (Vec<Placed>, usize))
    requires
        forall|i: int| 0 <= i < s@.len() ==> (#[trigger] s@[i]).start < i64::MAX,
    ensures
        r.0@.len() == s@.len(),
        forall|i: int|
            0 <= i < s@.len() ==> (#[trigger] r.0@[i]) == (Placed {
                idx: s@[i].idx,
                start: s@[i].start,
                end: s@[i].end,
                lane: lane_of(s@, i) as usize,
            }) && r.0@[i].lane == lane_of(s@, i),
        r.1 == lane_ends(s@).len(),
{
    let mut ends: Vec<i64> = Vec::new();
    let mut placed: Vec<Placed> = Vec::new();
    let mut i: usize = 0;
    assert(lane_view(ends@) =~= lane_ends(s@.take(0)));
    while i < s.len()
        invariant
            i <= s@.len(),
            forall|i: int| 0 <= i < s@.len() ==> (#[trigger] s@[i]).start < i64::MAX,
            lane_view(ends@) == lane_ends(s@.take(i as int)),
            placed@.len() == i,
            forall|k: int|
                0 <= k < i ==> (#[trigger] placed@[k]) == (Placed {
                    idx: s@[k].idx,
                    start: s@[k].start,
                    end: s@[k].end,
                    lane: lane_of(s@, k) as usize,
                }) && placed@[k].lane == lane_of(s@, k),
        decreases s@.len() - i,
    {
        let x: Span = s[i];
        let ghost before = lane_view(ends@);
        let mut k: usize = 0;
        while k < ends.len() && x.start < ends[k]
            invariant
                k <= ends@.len(),
                before == lane_view(ends@),
                forall|j: int| 0 <= j < k ==> x.start < #[trigger] before[j],
            decreases ends@.len() - k,
        {
            assert(before[k as int] == ends@[k as int]);
            k += 1;
        }
        proof {
            if k < ends.len() {
                assert(before[k as int] == ends@[k as int]);
            }
            free_lane_is(before, x.start as int, k as int);
            assert(s@.take(i + 1).drop_last() =~= s@.take(i as int));
        }
        let until: i64 = if x.end > x.start {
            x.end
        } else {
            x.start + 1
        };
        if k < ends.len() {
            ends.set(k, until);
        } else {
            ends.push(until);
        }
        assert(lane_view(ends@) =~= lane_ends(s@.take(i + 1)));
        placed.push(Placed { idx: x.idx, start: x.start, end: x.end, lane: k });
        i += 1;
    }
    assert(s@.take(i as int) =~= s@);
    assert(lane_view(ends@).len() == ends@.len());
    (placed, ends.len())
}

// ---------------------------------------------------------------------------
// Axis
// ---------------------------------------------------------------------------

/// The earliest start; zero without spans.
pub open spec fn first_start(s: Seq<Span>) -> int
    decreases s.len(),
{
    if s.len() == 0 {
        0
    } else if s.len() == 1 || s.last().start < first_start(s.drop_last()) {
        s.last().start as int
    } else {
        first_start(s.drop_last())
    }
}

/// The latest end; zero without spans.
pub open spec fn last_end(s: Seq<Span>) -> int
    decreases s.len(),
{
    if s.len() == 0 {
        0
    } else if s.len() == 1 || s.last().end > last_end(s.drop_last()) {
        s.last().end as int
    } else {
        last_end(s.drop_last())
    }
}

/// The ends of an axis of dates: they take in all spans, and at least a day
/// around the middle.
pub open spec fn date_axis(s: Seq<Span>) -> (int, int) {
    let lo = first_start(s);
    let hi = last_end(s);
    if hi - lo < 86_400 {
        let mid = lo + (hi - lo) / 2;
        (mid - 43_200, mid + 43_200)
    } else {
        (lo, hi)
    }
}

/// The ends of an axis.
pub open spec fn axis(f: Family, s: Seq<Span>) -> (int, int) {
    match f {
        Family::TimeOfDay => (0, 86_400),
        Family::DateTime => date_axis(s),
    }
}

/// Whether spans lie within ten thousand years and end no earlier than they
/// start.
pub open spec fn near(s: Seq<Span>) -> bool {
    forall|i: int|
        0 <= i < s.len() ==> -100_000_000_000 < (#[trigger] s[i]).start <= s[i].end
            < 1_000_000_000_000
}

/// The earliest start and the latest end take in every span.
pub proof fn bounds_take_in(s: Seq<Span>)
    requires
        near(s),
    ensures
        forall|i: int|
            0 <= i < s.len() ==> first_start(s) <= (#[trigger] s[i]).start && s[i].end <= last_end(
                s,
            ),
        -100_000_000_000 < first_start(s) < 1_000_000_000_000,
        -100_000_000_000 < last_end(s) < 1_000_000_000_000,
        first_start(s) <= last_end(s),
    decreases s.len(),
{
    if s.len() > 0 {
        let d = s.drop_last();
        assert forall|i: int| 0 <= i < d.len() implies -100_000_000_000 < (#[trigger] d[i]).start
            <= d[i].end < 1_000_000_000_000 by {
            assert(d[i] == s[i]);
        }
        bounds_take_in(d);
        assert(s[s.len() - 1] == s.last());
        assert forall|i: int| 0 <= i < s.len() implies first_start(s) <= (#[trigger] s[i]).start
            && s[i].end <= last_end(s) by {
            if i < d.len() {
                assert(d[i] == s[i]);
            }
        }
    }
}

/// The ends of an axis of dates.
fn date_bounds(s: &Vec<Span>) -> (r: (i64, i64))
    requires
        near(s@),
    ensures
        (r.0 as int, r.1 as int) == date_axis(s@),
        -200_000_000_000 < r.0,
        r.1 < 2_000_000_000_000,
        r.0 + 86_400 <= r.1,
{
    let mut lo: i64 = 0;
    let mut hi: i64 = 0;
    let mut i: usize = 0;
    while i < s.len()
        invariant
            i <= s@.len(),
            near(s@),
            lo == first_start(s@.take(i as int)),
            hi == last_end(s@.take(i as int)),
        decreases s@.len() - i,
    {
        assert(s@.take(i + 1).drop_last() =~= s@.take(i as int));
        if i == 0 || s[i].start < lo {
            lo = s[i].start;
        }
        if i == 0 || s[i].end > hi {
            hi = s[i].end;
        }
        i += 1;
    }
    proof {
        assert(s@.take(i as int) =~= s@);
        bounds_take_in(s@);
    }
    if hi - lo < 86_400 {
        let mid: i64 = lo + (hi - lo) / 2;
        (mid - 43_200, mid + 43_200)
    } else {
        (lo, hi)
    }
}

/// The most ticks that an axis is meant to have.
pub const MAX_TICKS: i64 = 40;

/// The distances of ticks to choose from, the smallest first.
pub open spec fn steps_of(f: Family) -> Seq<int> {
    match f {
        Family::TimeOfDay => seq![
        300,
        600,
        900,
        1_800,
        3_600,
        7_200,
        10_800,
        21_600,
        43_200,
        ],
        Family::DateTime => seq![
        3_600,
        21_600,
        43_200,
        86_400,
        172_800,
        604_800,
        1_209_600,
        2_592_000,
        7_776_000,
        15_552_000,
        31_536_000,
        63_072_000,
        157_680_000,
        315_360_000,
        788_400_000,
        1_576_800_000,
        ],
    }
}

/// The first of the distances that leads to few enough ticks wherever the axis
/// begins, or else the last.
pub open spec fn first_step(steps: Seq<int>, span: int) -> int
    decreases steps.len(),
{
    if steps.len() <= 1 || span <= MAX_TICKS * steps[0] {
        steps[0]
    } else {
        first_step(steps.skip(1), span)
    }
}

/// The distances of ticks to choose from.
fn steps_for(f: Family) -> (r: Vec<i64>)
    ensures
        lane_view(r@) == steps_of(f),
        r@.len() > 0,
        forall|i: int| 0 <= i < r@.len() ==> 0 < #[trigger] r@[i] <= 1_576_800_000,
{
    match f {
        Family::TimeOfDay => {
            let v: Vec<i64> = vec![
                300,
                600,
                900,
                1_800,
                3_600,
                7_200,
                10_800,
                21_600,
                43_200,
            ];
            assert(lane_view(v@) =~= steps_of(f));
            v
        },
        Family::DateTime => {
            let v: Vec<i64> = vec![
                3_600,
                21_600,
                43_200,
                86_400,
                172_800,
                604_800,
                1_209_600,
                2_592_000,
                7_776_000,
                15_552_000,
                31_536_000,
                63_072_000,
                157_680_000,
                315_360_000,
                788_400_000,
                1_576_800_000,
            ];
            assert(lane_view(v@) =~= steps_of(f));
            v
        },
    }
}

/// The distance of the ticks of an axis.
pub fn tick_step(span: i64, f: Family) -> (r: i64)
    ensures
        r == first_step(steps_of(f), span as int),
        0 < r <= 1_576_800_000,
{
    let steps = steps_for(f);
    let ghost all = steps_of(f);
    let mut i: usize = 0;
    assert(all.skip(0) =~= all);
    while i < steps.len() - 1 && span > MAX_TICKS * steps[i]
        invariant
            i < steps.len(),
            all == lane_view(steps@),
            forall|i: int| 0 <= i < steps@.len() ==> 0 < #[trigger] steps@[i] <= 1_576_800_000,
            first_step(all, span as int) == first_step(all.skip(i as int), span as int),
        decreases steps@.len() - i,
    {
        let ghost rest = all.skip(i as int);
        assert(rest[0] == steps@[i as int]);
        assert(rest.skip(1) =~= all.skip(i + 1));
        i += 1;
    }
    assert(all.skip(i as int)[0] == steps@[i as int]);
    steps[i]
}

/// The number of multiples of `step` above `lo` and up to `hi`.
pub open spec fn tick_count(lo: int, hi: int, step: int) -> nat {
    let n = hi / step - lo / step;
    if n > 0 {
        n as nat
    } else {
        0
    }
}

/// The multiples of `step` above `lo` and up to `hi`, the smallest first.
pub open spec fn ticks_of(lo: int, hi: int, step: int) -> Seq<int> {
    Seq::new(tick_count(lo, hi, step), |i: int| (lo / step + 1 + i) * step)
}

/// The places of the ticks of an axis.
pub fn ticks(lo: i64, hi: i64, step: i64) -> (r: Vec<i64>)
    requires
        step > 0,
        lo + step <= i64::MAX,
        hi + step <= i64::MAX,
    ensures
        lane_view(r@) == ticks_of(lo as int, hi as int, step as int),
{
    let mut out: Vec<i64> = Vec::new();
    let q: i64 = arith::floor_div(lo, step);
    proof {
        vstd::arithmetic::div_mod::lemma_fundamental_div_mod(lo as int, step as int);
        assert((q + 1) * step == q * step + step) by (nonlinear_arith);
        assert(q * step == step * q) by (nonlinear_arith);
        assert(q < i64::MAX) by (nonlinear_arith)
            requires
                q == i64::MAX ==> q * step + step <= i64::MAX,
                step > 0,
                q <= i64::MAX,
        ;
    }
    let mut t: i64 = (q + 1) * step;
    let ghost all = ticks_of(lo as int, hi as int, step as int);
    assert(lane_view(out@) =~= all.take(0));
    proof {
        tick_in_range(lo as int, hi as int, step as int, 0);
    }
    while t <= hi
        invariant
            step > 0,
            hi + step <= i64::MAX,
            q == lo as int / step as int,
            all == ticks_of(lo as int, hi as int, step as int),
            out@.len() <= all.len(),
            t == (q + 1 + out@.len()) * step,
            lane_view(out@) == all.take(out@.len() as int),
            (t <= hi) == (out@.len() < all.len()),
        decreases all.len() - out@.len(),
    {
        let ghost k = out@.len() as int;
        out.push(t);
        assert(lane_view(out@) =~= all.take(k + 1));
        proof {
            assert((q + 1 + k) * step + step == (q + 1 + (k + 1)) * step) by (nonlinear_arith);
            tick_in_range(lo as int, hi as int, step as int, k + 1);
        }
        t = t + step;
    }
    assert(all.take(out@.len() as int) =~= all);
    out
}

/// A multiple lies up to the end exactly where its number is below the count.
proof fn tick_in_range(lo: int, hi: int, step: int, k: int)
    requires
        step > 0,
        k >= 0,
    ensures
        ((lo / step + 1 + k) * step <= hi) == (k < tick_count(lo, hi, step)),
{
    let m = lo / step + 1 + k;
    let h = hi / step;
    vstd::arithmetic::div_mod::lemma_fundamental_div_mod(hi, step);
    assert((m * step <= hi) == (m <= h)) by (nonlinear_arith)
        requires
            step > 0,
            hi == step * h + hi % step,
            0 <= hi % step < step,
    ;
}

// ---------------------------------------------------------------------------
// Plan
// ---------------------------------------------------------------------------

/// Whether a plan is the one of spans: blocks in order of time, each in the
/// first free lane, on an axis that takes them in.
pub open spec fn lays_out(p: Plan, f: Family, spans: Seq<Span>) -> bool {
    let sorted = in_time_order(spans);
    &&& p.family == f
    &&& (p.lo as int, p.hi as int) == axis(f, sorted)
    &&& p.step == first_step(steps_of(f), p.hi - p.lo)
    &&& p.placed@.len() == sorted.len()
    &&& forall|i: int|
        0 <= i < sorted.len() ==> (#[trigger] p.placed@[i]).idx == sorted[i].idx
            && p.placed@[i].start == sorted[i].start && p.placed@[i].end == sorted[i].end
            && p.placed@[i].lane == lane_of(sorted, i)
    &&& p.lanes == lane_ends(sorted).len()
}

/// What an inserted span leaves: the span and those before.
pub proof fn inserted_elements(s: Seq<Span>, x: Span)
    ensures
        inserted(s, x).len() == s.len() + 1,
        inserted(s, x).contains(x),
        forall|y: Span| #[trigger] inserted(s, x).contains(y) ==> y == x || s.contains(y),
        forall|y: Span| #[trigger] s.contains(y) ==> inserted(s, x).contains(y),
    decreases s.len(),
{
    let r = inserted(s, x);
    if s.len() == 0 || comes_first(s.last(), x) {
        assert(r[s.len() as int] == x);
        assert forall|y: Span| #[trigger] r.contains(y) implies y == x || s.contains(y) by {
            let i = choose|i: int| 0 <= i < r.len() && r[i] == y;
            if i < s.len() {
                assert(s[i] == y);
            }
        }
        assert forall|y: Span| #[trigger] s.contains(y) implies r.contains(y) by {
            let i = choose|i: int| 0 <= i < s.len() && s[i] == y;
            assert(r[i] == y);
        }
    } else {
        let d = s.drop_last();
        inserted_elements(d, x);
        let rd = inserted(d, x);
        assert(rd.contains(x));
        let ix = choose|i: int| 0 <= i < rd.len() && rd[i] == x;
        assert(r[ix] == x);
        assert forall|y: Span| #[trigger] r.contains(y) implies y == x || s.contains(y) by {
            let i = choose|i: int| 0 <= i < r.len() && r[i] == y;
            if i < rd.len() {
                assert(rd[i] == y);
                assert(rd.contains(y));
                if y != x {
                    let k = choose|k: int| 0 <= k < d.len() && d[k] == y;
                    assert(s[k] == y);
                }
            } else {
                assert(s[s.len() - 1] == y);
            }
        }
        assert forall|y: Span| #[trigger] s.contains(y) implies r.contains(y) by {
            let i = choose|i: int| 0 <= i < s.len() && s[i] == y;
            if i < d.len() {
                assert(d[i] == y);
                assert(d.contains(y));
                let k = choose|k: int| 0 <= k < rd.len() && rd[k] == y;
                assert(r[k] == y);
            } else {
                assert(r[rd.len() as int] == y);
            }
        }
    }
}

/// Sorting keeps the spans.
pub proof fn sorting_keeps_spans(s: Seq<Span>)
    ensures
        in_time_order(s).len() == s.len(),
        forall|y: Span| #[trigger] in_time_order(s).contains(y) <==> s.contains(y),
    decreases s.len(),
{
    if s.len() > 0 {
        let d = s.drop_last();
        sorting_keeps_spans(d);
        inserted_elements(in_time_order(d), s.last());
        let r = in_time_order(s);
        assert forall|y: Span| #[trigger] r.contains(y) implies s.contains(y) by {
            if y == s.last() {
                assert(s[s.len() - 1] == y);
            } else {
                assert(in_time_order(d).contains(y));
                let k = choose|k: int| 0 <= k < d.len() && d[k] == y;
                assert(s[k] == y);
            }
        }
        assert forall|y: Span| s.contains(y) implies #[trigger] r.contains(y) by {
            let i = choose|i: int| 0 <= i < s.len() && s[i] == y;
            if i < d.len() {
                assert(d[i] == y);
                assert(d.contains(y));
                assert(in_time_order(d).contains(y));
            } else {
                assert(y == s.last());
            }
        }
    } else {
        assert(in_time_order(s) =~= s);
    }
}

/// Lays out spans on an axis.
fn lay_out(f: Family, spans: &Vec<Span>, unscheduled: Vec<usize>) -> (r: Plan)
    requires
        near(spans@),
    ensures
        lays_out(r, f, spans@),
        r.unscheduled@ == unscheduled@,
{
    let sorted = sort_spans(spans);
    proof {
        sorting_keeps_spans(spans@);
        assert forall|i: int| 0 <= i < sorted@.len() implies -100_000_000_000 < (
        #[trigger] sorted@[i]).start <= sorted@[i].end < 1_000_000_000_000 by {
            let y = sorted@[i];
            assert(in_time_order(spans@).contains(y));
            let k = choose|k: int| 0 <= k < spans@.len() && spans@[k] == y;
            assert(spans@[k] == y);
        }
    }
    let (placed, lanes) = assign_lanes(&sorted);
    let (lo, hi): (i64, i64) = match f {
        Family::TimeOfDay => (0, 86_400),
        Family::DateTime => date_bounds(&sorted),
    };
    let step: i64 = tick_step(hi - lo, f);
    Plan { family: f, lo, hi, step, placed, lanes, unscheduled }
}

/// Whether a plan is the one of a configuration: the entries with times laid out
/// on the axis that the two labels share, and the others listed.
pub open spec fn plan_is(
    entries: Seq<Entry>,
    derived: Seq<Vec<Labeling>>,
    schemas: Seq<LabelSchema>,
    cfg: ViewTimeline,
    r: Option<Plan>,
) -> bool {
    let a = schema_at(schemas, cfg.start@);
    let b = schema_at(schemas, cfg.end@);
    if 0 <= a < schemas.len() && 0 <= b < schemas.len() {
        match (family_of(schemas[a].value_type@, schemas[b].value_type@), r) {
            (Some(f), Some(p)) => {
                &&& lays_out(
                    p,
                    f,
                    spans_of(entries, derived, schemas[a], schemas[b], entries.len() as int),
                )
                &&& components::positions(p.unscheduled@) == without_times(
                    entries,
                    derived,
                    schemas[a],
                    schemas[b],
                    entries.len() as int,
                )
            },
            (None, None) => true,
            _ => false,
        }
    } else {
        r is None
    }
}

/// Lays out the timeline of entries. `derived` holds for each entry the labels
/// that other labels give it. There is no plan where a label of the
/// configuration is not defined, or the two have no axis in common.
pub fn plan(
    entries: &[Entry],
    derived: &[Vec<Labeling>],
    schemas: &[LabelSchema],
    cfg: &ViewTimeline,
) -> (r: Option<Plan>)
    requires
        derived@.len() == entries@.len(),
    ensures
        plan_is(entries@, derived@, schemas@, *cfg, r),
{
    let start_s = match find_schema(schemas, cfg.start.as_str()) {
        Some(s) => s,
        None => {
            return None;
        },
    };
    let end_s = match find_schema(schemas, cfg.end.as_str()) {
        Some(s) => s,
        None => {
            return None;
        },
    };
    let f = match family(start_s.value_type.as_str(), end_s.value_type.as_str()) {
        Some(f) => f,
        None => {
            return None;
        },
    };
    let mut spans: Vec<Span> = Vec::new();
    let mut unscheduled: Vec<usize> = Vec::new();
    let mut i: usize = 0;
    assert(components::positions(unscheduled@) =~= seq![]);
    while i < entries.len()
        invariant
            i <= entries@.len(),
            derived@.len() == entries@.len(),
            spans@ == spans_of(entries@, derived@, *start_s, *end_s, i as int),
            near(spans@),
            components::positions(unscheduled@) == without_times(
                entries@,
                derived@,
                *start_s,
                *end_s,
                i as int,
            ),
        decreases entries@.len() - i,
    {
        match span(&entries[i], derived[i].as_slice(), start_s, end_s) {
            Some((a, b)) => {
                let ghost before = spans@;
                spans.push(Span { idx: i, start: a, end: b });
                assert forall|k: int| 0 <= k < spans@.len() implies -100_000_000_000 < (
                #[trigger] spans@[k]).start <= spans@[k].end < 1_000_000_000_000 by {
                    if k < before.len() {
                        assert(spans@[k] == before[k]);
                    }
                }
            },
            None => {
                let ghost before = unscheduled@;
                unscheduled.push(i);
                assert(components::positions(unscheduled@) =~= components::positions(before).push(
                    i as int,
                ));
            },
        }
        i += 1;
    }
    Some(lay_out(f, &spans, unscheduled))
}

/// The text of a tick: a clock time on an axis of one day, else a date, with a
/// clock time where ticks are closer than a day.
pub open spec fn tick_text(t: golayout::YmdHms, step: int, f: Family) -> Seq<char> {
    let date = components::date_text(t.year as int, t.month as int, t.day as int);
    let clock = components::clock_text(t.hour as int, t.minute as int);
    match f {
        Family::TimeOfDay => clock,
        Family::DateTime => if step < 86_400 {
            date + " "@ + clock
        } else {
            date
        },
    }
}

/// The text of a tick.
pub fn tick_label(secs: i64, step: i64, f: Family) -> (r: String)
    requires
        golayout::year_fits(secs as int),
    ensures
        exists|t: golayout::YmdHms|
            golayout::calendar_moment(t) && golayout::moment_seconds(t) == secs && r@ == tick_text(
                t,
                step as int,
                f,
            ),
{
    let t = golayout::from_seconds(secs);
    let clock = components::write_clock(t.hour as i64, t.minute as i64);
    match f {
        Family::TimeOfDay => clock,
        Family::DateTime => {
            let date = components::write_date(t.year as i64, t.month as i64, t.day as i64);
            if step < 86_400 {
                text::concat3(date.as_str(), " ", clock.as_str())
            } else {
                date
            }
        },
    }
}

/// The colour of a block: the standard colours in turn, without the grey.
pub fn block_color(i: usize) -> (r: &'static str)
    ensures
        r@ == components::PRESET_COLORS@[i as int % 9]@,
{
    let all = components::PRESET_COLORS;
    all[i % 9]
}

/// The name of the person of an entry.
pub open spec fn person_of(
    own: Seq<Labeling>,
    derived: Seq<Labeling>,
    name: Seq<char>,
    members: Seq<Member>,
) -> Option<Seq<char>> {
    match json::opt_str_of(effective_value(own, derived, name)) {
        Some(id) => Some(components::name_of_account(members, id)),
        None => None,
    }
}

/// What is selected after a click: nothing where it was selected already.
pub open spec fn toggled(selected: Seq<char>, code: Seq<char>) -> Seq<char> {
    if selected == code {
        ""@
    } else {
        code
    }
}

/// The name of the person of an entry: the member that the label names, else
/// the account that it holds.
pub fn person_name(entry: &Entry, derived: &[Labeling], name: &str, members: &[Member]) -> (r:
    Option<String>)
    ensures
        text::opt_view(r) == person_of(entry.labels@, derived@, name@, members@),
{
    match label_value(entry, derived, name) {
        Some(v) => match v.as_str() {
            Some(id) => Some(components::account_label(members, id)),
            None => None,
        },
        None => None,
    }
}

/// What is selected after a click on a block: nothing where it was selected
/// already.
pub fn toggle_selected(selected: &str, code: &str) -> (r: String)
    ensures
        r@ == toggled(selected@, code@),
{
    if text::same(selected, code) {
        "".to_owned()
    } else {
        code.to_owned()
    }
}

/// The heading of the entries without times.
pub fn unscheduled_text(n: usize) -> (r: String)
    ensures
        r@ == "未排期（"@ + decimal::numeral(n as int) + "）"@,
{
    let mut out = "未排期（".to_owned();
    decimal::push_decimal(&mut out, n as u64);
    out.push_str("）");
    out
}

/// What is said where there are more entries than the timeline shows.
pub fn truncated_text(n: usize, most: usize) -> (r: Option<String>)
    ensures
        text::opt_view(r) == (if n >= most {
            Some("条目较多，仅展示前 "@ + decimal::numeral(most as int) + " 条"@)
        } else {
            None
        }),
{
    if n >= most {
        let mut out = "条目较多，仅展示前 ".to_owned();
        decimal::push_decimal(&mut out, most as u64);
        out.push_str(" 条");
        Some(out)
    } else {
        None
    }
}

// ---------------------------------------------------------------------------
// Laws
// ---------------------------------------------------------------------------

/// The lanes of blocks, one by one.
pub proof fn lanes_hold_ends(s: Seq<Span>, n: int)
    requires
        0 <= n <= s.len(),
    ensures
        forall|i: int|
            0 <= i < n ==> 0 <= #[trigger] lane_of(s, i) < lane_ends(s.take(n)).len()
                && taken_until(s[i]) <= lane_ends(s.take(n))[lane_of(s, i)],
    decreases n,
{
    if n > 0 {
        lanes_hold_ends(s, n - 1);
        let prev = lane_ends(s.take(n - 1));
        let now = lane_ends(s.take(n));
        assert(s.take(n).drop_last() =~= s.take(n - 1));
        let x = s[n - 1];
        assert(s.take(n).last() == x);
        let k = free_lane(prev, x.start as int);
        free_lane_props(prev, x.start as int);
        assert(k == lane_of(s, n - 1));
        assert forall|i: int| 0 <= i < n implies 0 <= #[trigger] lane_of(s, i) < now.len()
            && taken_until(s[i]) <= now[lane_of(s, i)] by {
            if i < n - 1 {
                let l = lane_of(s, i);
                if l == k {
                    assert(prev[k] <= x.start);
                }
            }
        }
    }
}

/// Two blocks of a lane do not overlap: the later one starts no earlier than
/// the other ends, nor at the second at which it starts.
pub proof fn lanes_do_not_overlap(s: Seq<Span>, i: int, j: int)
    requires
        0 <= i < j < s.len(),
        lane_of(s, i) == lane_of(s, j),
    ensures
        s[j].start >= s[i].end,
        s[j].start > s[i].start,
{
    lanes_hold_ends(s, j);
    let ends = lane_ends(s.take(j));
    free_lane_props(ends, s[j].start as int);
    assert(0 <= lane_of(s, i) < ends.len());
}

/// Whether a block takes its lane at an instant.
pub open spec fn taken_at(x: Span, at: int) -> bool {
    x.start <= at < taken_until(x)
}

/// Whether blocks, each given once by its position, share an instant.
pub open spec fn share(s: Seq<Span>, ids: Seq<int>, at: int) -> bool {
    &&& ids.no_duplicates()
    &&& forall|k: int|
        0 <= k < ids.len() ==> 0 <= #[trigger] ids[k] < s.len() && taken_at(s[ids[k]], at)
}

/// There are as many lanes as are needed and no more: their number is the
/// largest number of blocks that share an instant.
pub proof fn lanes_are_needed(spans: Seq<Span>)
    ensures
        forall|ids: Seq<int>, at: int| #[trigger]
            share(in_time_order(spans), ids, at) ==> ids.len() <= lane_ends(
                in_time_order(spans),
            ).len(),
        exists|ids: Seq<int>, at: int| #[trigger]
            share(in_time_order(spans), ids, at) && ids.len() == lane_ends(
                in_time_order(spans),
            ).len(),
{
    let s = in_time_order(spans);
    sorted_by_time(spans);
    assert forall|ids: Seq<int>, at: int| #[trigger] share(s, ids, at) implies ids.len()
        <= lane_ends(s).len() by {
        sharing_fits(s, ids, at);
    }
    assert forall|i: int, j: int| 0 <= i < j < s.len() implies (#[trigger] s[i]).start <= (
    #[trigger] s[j]).start by {
        assert(comes_first(s[i], s[j]));
    }
    assert(s.take(s.len() as int) =~= s);
    lanes_are_shared(s, s.len() as int);
}

/// Blocks that share an instant are in different lanes.
proof fn sharing_fits(s: Seq<Span>, ids: Seq<int>, at: int)
    requires
        share(s, ids, at),
    ensures
        ids.len() <= lane_ends(s).len(),
{
    let n = lane_ends(s).len();
    let lanes = Seq::new(ids.len(), |k: int| lane_of(s, ids[k]));
    assert(s.take(s.len() as int) =~= s);
    lanes_hold_ends(s, s.len() as int);
    assert forall|k: int| 0 <= k < ids.len() implies 0 <= #[trigger] lanes[k] < n by {
        assert(0 <= ids[k] < s.len());
        assert(0 <= lane_of(s, ids[k]) < n);
    }
    assert forall|j: int, k: int| 0 <= j < k < ids.len() implies lanes[j] != lanes[k] by {
        assert(ids[j] != ids[k]);
        assert(taken_at(s[ids[j]], at) && taken_at(s[ids[k]], at));
        if lanes[j] == lanes[k] {
            if ids[j] < ids[k] {
                lanes_do_not_overlap(s, ids[j], ids[k]);
            } else {
                lanes_do_not_overlap(s, ids[k], ids[j]);
            }
        }
    }
    lanes.unique_seq_to_set();
    let all = vstd::set_lib::set_int_range(0, n as int);
    vstd::set_lib::lemma_int_range(0, n as int);
    assert(lanes.to_set().subset_of(all)) by {
        assert forall|l: int| lanes.to_set().contains(l) implies all.contains(l) by {
            let k = choose|k: int| 0 <= k < lanes.len() && lanes[k] == l;
            assert(0 <= lanes[k] < n);
        }
    }
    vstd::set_lib::lemma_len_subset(lanes.to_set(), all);
}

/// Each lane is taken until the end of a block in it.
pub proof fn lanes_end_with_blocks(s: Seq<Span>, n: int, l: int) -> (i: int)
    requires
        0 <= n <= s.len(),
        0 <= l < lane_ends(s.take(n)).len(),
    ensures
        0 <= i < n,
        lane_of(s, i) == l,
        taken_until(s[i]) == lane_ends(s.take(n))[l],
    decreases n,
{
    assert(s.take(n).len() == n);
    if n == 0 {
        assert(lane_ends(s.take(0)).len() == 0);
        0
    } else {
        let prev = lane_ends(s.take(n - 1));
        assert(s.take(n).drop_last() =~= s.take(n - 1));
        let x = s[n - 1];
        assert(s.take(n).last() == x);
        let k = free_lane(prev, x.start as int);
        free_lane_props(prev, x.start as int);
        if l == k {
            n - 1
        } else {
            lanes_end_with_blocks(s, n - 1, l)
        }
    }
}

/// Blocks in order share an instant, as many as there are lanes.
proof fn lanes_are_shared(s: Seq<Span>, n: int)
    requires
        0 <= n <= s.len(),
        forall|i: int, j: int|
            0 <= i < j < s.len() ==> (#[trigger] s[i]).start <= (#[trigger] s[j]).start,
    ensures
        exists|ids: Seq<int>, at: int| #[trigger]
            share(s, ids, at) && ids.len() == lane_ends(s.take(n)).len(),
    decreases n,
{
    assert(s.take(n).len() == n);
    if n == 0 {
        assert(share(s, Seq::<int>::empty(), 0));
        assert(lane_ends(s.take(0)).len() == 0);
    } else {
        lanes_are_shared(s, n - 1);
        let prev = lane_ends(s.take(n - 1));
        assert(s.take(n).drop_last() =~= s.take(n - 1));
        let x = s[n - 1];
        assert(s.take(n).last() == x);
        let k = free_lane(prev, x.start as int);
        free_lane_props(prev, x.start as int);
        if k < prev.len() {
            assert(lane_ends(s.take(n)).len() == prev.len());
        } else {
            let at = x.start as int;
            let before = last_blocks(s, n - 1, prev.len());
            let ids = before.push(n - 1);
            assert forall|j: int| 0 <= j < ids.len() implies 0 <= #[trigger] ids[j] < s.len()
                && taken_at(s[ids[j]], at) by {
                if j < before.len() {
                    assert(ids[j] == before[j]);
                    assert(at < prev[j]);
                    assert(taken_until(s[before[j]]) == prev[j]);
                    assert(s[before[j]].start <= s[n - 1].start);
                }
            }
            assert forall|i: int, j: int| 0 <= i < j < ids.len() implies ids[i] != ids[j] by {
                assert(lane_of(s, before[i]) == i);
                if j < before.len() {
                    assert(lane_of(s, before[j]) == j);
                }
            }
            assert(ids.no_duplicates());
            assert(share(s, ids, at));
        }
    }
}

/// The blocks with which the first lanes end.
proof fn last_blocks(s: Seq<Span>, n: int, m: nat) -> (ids: Seq<int>)
    requires
        0 <= n <= s.len(),
        m <= lane_ends(s.take(n)).len(),
    ensures
        ids.len() == m,
        forall|l: int|
            0 <= l < m ==> 0 <= #[trigger] ids[l] < n && lane_of(s, ids[l]) == l && taken_until(
                s[ids[l]],
            ) == lane_ends(s.take(n))[l],
    decreases m,
{
    if m == 0 {
        seq![]
    } else {
        let before = last_blocks(s, n, (m - 1) as nat);
        let i = lanes_end_with_blocks(s, n, m - 1);
        let ids = before.push(i);
        assert forall|l: int| 0 <= l < m implies 0 <= #[trigger] ids[l] < n && lane_of(s, ids[l])
            == l && taken_until(s[ids[l]]) == lane_ends(s.take(n))[l] by {
            if l < m - 1 {
                assert(ids[l] == before[l]);
            }
        }
        ids
    }
}

/// Sorted spans are in order of time.
pub proof fn sorted_by_time(s: Seq<Span>)
    ensures
        forall|i: int, j: int|
            0 <= i < j < in_time_order(s).len() ==> comes_first(
                #[trigger] in_time_order(s)[i],
                #[trigger] in_time_order(s)[j],
            ),
    decreases s.len(),
{
    if s.len() > 0 {
        sorted_by_time(s.drop_last());
        insert_keeps_order(in_time_order(s.drop_last()), s.last());
    }
}

/// Inserting a span keeps the order.
proof fn insert_keeps_order(s: Seq<Span>, x: Span)
    requires
        forall|i: int, j: int|
            0 <= i < j < s.len() ==> comes_first(#[trigger] s[i], #[trigger] s[j]),
    ensures
        forall|i: int, j: int|
            0 <= i < j < inserted(s, x).len() ==> comes_first(
                #[trigger] inserted(s, x)[i],
                #[trigger] inserted(s, x)[j],
            ),
    decreases s.len(),
{
    let r = inserted(s, x);
    if s.len() == 0 || comes_first(s.last(), x) {
        assert forall|i: int, j: int| 0 <= i < j < r.len() implies comes_first(
            #[trigger] r[i],
            #[trigger] r[j],
        ) by {
            if j == s.len() {
                if i < s.len() - 1 {
                    assert(comes_first(s[i], s[s.len() - 1]));
                }
            } else {
                assert(comes_first(s[i], s[j]));
            }
        }
    } else {
        let d = s.drop_last();
        assert forall|i: int, j: int| 0 <= i < j < d.len() implies comes_first(
            #[trigger] d[i],
            #[trigger] d[j],
        ) by {
            assert(comes_first(s[i], s[j]));
        }
        insert_keeps_order(d, x);
        inserted_elements(d, x);
        let rd = inserted(d, x);
        assert forall|i: int, j: int| 0 <= i < j < r.len() implies comes_first(
            #[trigger] r[i],
            #[trigger] r[j],
        ) by {
            if j < rd.len() {
                assert(comes_first(rd[i], rd[j]));
            } else {
                let y = rd[i];
                assert(rd.contains(y));
                if y != x {
                    let k = choose|k: int| 0 <= k < d.len() && d[k] == y;
                    assert(comes_first(s[k], s[s.len() - 1]));
                }
            }
        }
    }
}

/// Each entry is either placed once or listed as unscheduled once.
pub proof fn every_entry_has_a_place(
    entries: Seq<Entry>,
    derived: Seq<Vec<Labeling>>,
    start: LabelSchema,
    end: LabelSchema,
    n: int,
)
    requires
        0 <= n <= entries.len(),
        n <= usize::MAX,
    ensures
        spans_of(entries, derived, start, end, n).len() + without_times(
            entries,
            derived,
            start,
            end,
            n,
        ).len() == n,
        forall|i: int|
            0 <= i < spans_of(entries, derived, start, end, n).len() ==> 0 <= (
            #[trigger] spans_of(entries, derived, start, end, n)[i]).idx < n && !without_times(
                entries,
                derived,
                start,
                end,
                n,
            ).contains(spans_of(entries, derived, start, end, n)[i].idx as int),
        forall|i: int, j: int|
            0 <= i < j < spans_of(entries, derived, start, end, n).len() ==> (
            #[trigger] spans_of(entries, derived, start, end, n)[i]).idx < (
            #[trigger] spans_of(entries, derived, start, end, n)[j]).idx,
        forall|i: int|
            0 <= i < without_times(entries, derived, start, end, n).len() ==> 0
                <= #[trigger] without_times(entries, derived, start, end, n)[i] < n,
    decreases n,
{
    if n > 0 {
        every_entry_has_a_place(entries, derived, start, end, n - 1);
        let sp = spans_of(entries, derived, start, end, n);
        let un = without_times(entries, derived, start, end, n);
        let sp1 = spans_of(entries, derived, start, end, n - 1);
        let un1 = without_times(entries, derived, start, end, n - 1);
        assert forall|i: int| 0 <= i < sp.len() implies 0 <= (#[trigger] sp[i]).idx < n
            && !un.contains(sp[i].idx as int) by {
            if i < sp1.len() {
                assert(sp[i] == sp1[i]);
                if un.contains(sp[i].idx as int) {
                    let k = choose|k: int| 0 <= k < un.len() && un[k] == sp[i].idx as int;
                    if k < un1.len() {
                        assert(un1[k] == un[k]);
                        assert(un1.contains(sp[i].idx as int));
                    }
                }
            } else if un.contains(sp[i].idx as int) {
                let k = choose|k: int| 0 <= k < un.len() && un[k] == sp[i].idx as int;
                assert(un1[k] == un[k]);
            }
        }
    }
}

/// An axis of dates takes in every block, and is at least a day long.
pub proof fn date_axis_takes_in(s: Seq<Span>)
    requires
        near(s),
    ensures
        forall|i: int|
            0 <= i < s.len() ==> date_axis(s).0 <= (#[trigger] s[i]).start && s[i].end
                <= date_axis(s).1,
        date_axis(s).1 - date_axis(s).0 >= 86_400,
{
    bounds_take_in(s);
}

/// Ticks are multiples of their distance, in order, above the lower end and up
/// to the upper one, and all of those.
pub proof fn ticks_are_multiples(lo: int, hi: int, step: int)
    requires
        step > 0,
    ensures
        forall|i: int|
            0 <= i < ticks_of(lo, hi, step).len() ==> lo < #[trigger] ticks_of(lo, hi, step)[i]
                <= hi && ticks_of(lo, hi, step)[i] % step == 0,
        forall|t: int| lo < t <= hi && t % step == 0 ==> #[trigger] ticks_of(lo, hi, step).contains(t),
{
    let all = ticks_of(lo, hi, step);
    let q = lo / step;
    vstd::arithmetic::div_mod::lemma_fundamental_div_mod(lo, step);
    assert forall|i: int| 0 <= i < all.len() implies lo < #[trigger] all[i] <= hi && all[i] % step
        == 0 by {
        tick_in_range(lo, hi, step, i);
        vstd::arithmetic::div_mod::lemma_mod_multiples_basic(q + 1 + i, step);
        assert((q + 1 + i) * step > lo) by (nonlinear_arith)
            requires
                lo == step * q + lo % step,
                lo % step < step,
                i >= 0,
                step > 0,
        ;
    }
    assert forall|t: int| lo < t <= hi && t % step == 0 implies #[trigger] all.contains(t) by {
        let m = t / step;
        vstd::arithmetic::div_mod::lemma_fundamental_div_mod(t, step);
        let i = m - q - 1;
        assert(m > q) by (nonlinear_arith)
            requires
                t == step * m,
                lo == step * q + lo % step,
                0 <= lo % step,
                lo < t,
                step > 0,
        ;
        assert((q + 1 + i) * step == t) by (nonlinear_arith)
            requires
                q + 1 + i == m,
                t == step * m,
        ;
        tick_in_range(lo, hi, step, i);
        assert(all[i] == t);
    }
}

/// A block is never grey.
pub proof fn block_color_is_not_grey(i: usize)
    ensures
        components::PRESET_COLORS@[i as int % 9]@ != "#6b7280"@,
{
    reveal_strlit("#ef4444");
    reveal_strlit("#f97316");
    reveal_strlit("#eab308");
    reveal_strlit("#22c55e");
    reveal_strlit("#14b8a6");
    reveal_strlit("#3b82f6");
    reveal_strlit("#6366f1");
    reveal_strlit("#a855f7");
    reveal_strlit("#ec4899");
    reveal_strlit("#6b7280");
    let c = components::PRESET_COLORS@[i as int % 9]@;
    assert(c[1] != '6' || c[2] != 'b');
    assert("#6b7280"@[1] == '6' && "#6b7280"@[2] == 'b');
}

/// No distance leads to more ticks than fit an axis of so many distances.
proof fn ticks_fit(lo: int, hi: int, step: int)
    requires
        lo <= hi,
        step > 0,
        hi - lo <= MAX_TICKS * step,
    ensures
        tick_count(lo, hi, step) <= MAX_TICKS,
{
    let (a, b) = (lo / step, hi / step);
    vstd::arithmetic::div_mod::lemma_fundamental_div_mod(lo, step);
    vstd::arithmetic::div_mod::lemma_fundamental_div_mod(hi, step);
    assert(b - a <= MAX_TICKS) by (nonlinear_arith)
        requires
            step > 0,
            lo == step * a + lo % step,
            hi == step * b + hi % step,
            0 <= lo % step < step,
            0 <= hi % step < step,
            hi - lo <= MAX_TICKS * step,
    ;
}

/// An axis has no more ticks than are wanted, wherever some distance keeps them
/// down; and no smaller distance would keep them down wherever an axis of that
/// length begins.
pub proof fn few_ticks(lo: int, hi: int, f: Family)
    requires
        lo <= hi,
        hi - lo <= MAX_TICKS * steps_of(f).last(),
    ensures
        tick_count(lo, hi, first_step(steps_of(f), hi - lo)) <= MAX_TICKS,
        ticks_of(lo, hi, first_step(steps_of(f), hi - lo)).len() <= MAX_TICKS,
        steps_of(f).contains(first_step(steps_of(f), hi - lo)),
        forall|s: int| #[trigger]
            steps_of(f).contains(s) && s < first_step(steps_of(f), hi - lo) ==> exists|l: int|
                #[trigger] tick_count(l, l + (hi - lo), s) > MAX_TICKS,
{
    let steps = steps_of(f);
    let span = hi - lo;
    first_step_props(steps, span);
    let step = first_step(steps, span);
    ticks_fit(lo, hi, step);
    assert forall|s: int| #[trigger] steps.contains(s) && s < step implies exists|l: int|
        #[trigger] tick_count(l, l + span, s) > MAX_TICKS by {
        let j = choose|j: int| 0 <= j < steps.len() && steps[j] == s;
        many_ticks(span, s);
    }
}

/// A distance that an axis is too long for leads to too many ticks where the
/// axis begins just below one.
proof fn many_ticks(span: int, step: int)
    requires
        step > 0,
        span > MAX_TICKS * step,
    ensures
        tick_count(-1, -1 + span, step) > MAX_TICKS,
{
    let h = (span - 1) / step;
    vstd::arithmetic::div_mod::lemma_fundamental_div_mod(span - 1, step);
    vstd::arithmetic::div_mod::lemma_fundamental_div_mod(-1, step);
    let l = (-1int) / step;
    assert(l == -1) by (nonlinear_arith)
        requires
            step > 0,
            -1 == step * l + (-1int) % step,
            0 <= (-1int) % step < step,
    ;
    assert(h >= MAX_TICKS) by (nonlinear_arith)
        requires
            step > 0,
            span - 1 >= MAX_TICKS * step,
            span - 1 == step * h + (span - 1) % step,
            0 <= (span - 1) % step < step,
    ;
}

/// The chosen distance keeps the number of ticks down, and is the first that
/// does.
proof fn first_step_props(steps: Seq<int>, span: int)
    requires
        steps.len() > 0,
        forall|i: int| 0 <= i < steps.len() ==> #[trigger] steps[i] > 0,
        forall|i: int, j: int|
            0 <= i < j < steps.len() ==> #[trigger] steps[i] < #[trigger] steps[j],
        span <= MAX_TICKS * steps.last(),
    ensures
        steps.contains(first_step(steps, span)),
        first_step(steps, span) > 0,
        span <= MAX_TICKS * first_step(steps, span),
        forall|i: int|
            0 <= i < steps.len() && #[trigger] steps[i] < first_step(steps, span) ==> span
                > MAX_TICKS * steps[i],
    decreases steps.len(),
{
    if steps.len() > 1 && !(span <= MAX_TICKS * steps[0]) {
        let t = steps.skip(1);
        assert forall|i: int| 0 <= i < t.len() implies #[trigger] t[i] > 0 by {
            assert(t[i] == steps[i + 1]);
        }
        assert(t.last() == steps.last());
        first_step_props(t, span);
        let k = choose|k: int| 0 <= k < t.len() && t[k] == first_step(t, span);
        assert(steps[k + 1] == first_step(steps, span));
        assert forall|i: int|
            0 <= i < steps.len() && #[trigger] steps[i] < first_step(steps, span) implies span
            > MAX_TICKS * steps[i] by {
            if i > 0 {
                assert(t[i - 1] == steps[i]);
            }
        }
    } else {
        assert(steps[0] == first_step(steps, span));
    }
}

} // verus!
