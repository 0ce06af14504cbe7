//! What a timeline shows, stated on its entries, labels and blocks.

use vstd::prelude::*;

use crate::components;
use crate::decimal;
use crate::golayout;
use crate::golayout::YmdHms;
use crate::graphql_client::{Entry, LabelSchema, Labeling, Member, ViewTimeline};
use crate::json::JsonV;
use crate::layout_laws;
use crate::query_eval;
use crate::query_laws;
use crate::text;
use crate::timeline;
use crate::timeline::{Family, Placed, Plan, Span};

verus! {

/// Whether a definition is the first of its name.
pub open spec fn defines(schemas: Seq<LabelSchema>, i: int, name: Seq<char>) -> bool {
    &&& 0 <= i < schemas.len()
    &&& schemas[i].name@ == name
    &&& forall|j: int| 0 <= j < i ==> (#[trigger] schemas[j]).name@ != name
}

/// Whether no definition has a name.
pub open spec fn undefined(schemas: Seq<LabelSchema>, name: Seq<char>) -> bool {
    forall|j: int| 0 <= j < schemas.len() ==> (#[trigger] schemas[j]).name@ != name
}

/// Whether a value type has a date.
pub open spec fn dated(vt: Seq<char>) -> bool {
    vt == "date"@ || vt == "datetime"@
}

/// Whether the times of a label are written by a layout: the default of its type
/// where it has no format, else the layout of the pattern that the format is.
pub open spec fn written_by(s: LabelSchema, layout: Seq<char>) -> bool {
    match s.format {
        None => {
            ||| s.value_type@ == "date"@ && layout == "2006-01-02"@
            ||| s.value_type@ == "time"@ && layout == "15:04:05"@
            ||| s.value_type@ == "datetime"@ && layout == "2006-01-02 15:04:05"@
        },
        Some(f) => {
            &&& f@.len() > 0
            &&& !text::is_white(f@[0])
            &&& !text::is_white(f@.last())
            &&& if layout_laws::holds_digit(f@) {
                layout == f@
            } else {
                golayout::go_of(f@) == Some(layout)
            }
        },
    }
}

/// Whether an entry has a value for a label: the first of its own labels of that
/// name, or where it has none, the first that other labels give it.
pub open spec fn has_value(
    own: Seq<Labeling>,
    derived: Seq<Labeling>,
    name: Seq<char>,
    v: JsonV,
) -> bool {
    ||| exists|i: int| #[trigger] query_laws::first_named(own, i, name) && own[i].value@ == v
    ||| {
        &&& query_laws::none_named(own, name)
        &&& exists|i: int|
            #[trigger] query_laws::first_named(derived, i, name) && derived[i].value@ == v
    }
}

/// Whether an entry has no value for a label.
pub open spec fn has_no_value(own: Seq<Labeling>, derived: Seq<Labeling>, name: Seq<char>) -> bool {
    query_laws::none_named(own, name) && query_laws::none_named(derived, name)
}

/// The first definition of a name is the one that counts.
pub proof fn schema_is(schemas: Seq<LabelSchema>, i: int, name: Seq<char>)
    requires
        defines(schemas, i, name) || (undefined(schemas, name) && i == schemas.len()),
    ensures
        timeline::schema_at(schemas, name) == i,
    decreases i,
{
    if i > 0 {
        let t = schemas.skip(1);
        assert(schemas[0].name@ != name);
        if i < schemas.len() {
            assert(t[i - 1] == schemas[i]);
        }
        assert forall|j: int| 0 <= j < i - 1 implies (#[trigger] t[j]).name@ != name by {
            assert(t[j] == schemas[j + 1]);
        }
        if i == schemas.len() {
            assert(undefined(t, name) || defines(t, i - 1, name));
        }
        schema_is(t, i - 1, name);
    }
}

proof fn value_is(own: Seq<Labeling>, derived: Seq<Labeling>, name: Seq<char>, v: JsonV)
    ensures
        has_value(own, derived, name, v) ==> timeline::effective_value(own, derived, name) == Some(v),
        has_no_value(own, derived, name) ==> timeline::effective_value(own, derived, name) is None,
{
    if has_no_value(own, derived, name) {
        query_laws::label_missing(own, name);
        query_laws::label_missing(derived, name);
    }
    if has_value(own, derived, name, v) {
        if exists|i: int| #[trigger] query_laws::first_named(own, i, name) && own[i].value@ == v {
            let i = choose|i: int|
                #[trigger] query_laws::first_named(own, i, name) && own[i].value@ == v;
            query_laws::label_found(own, i, name);
        } else {
            query_laws::label_missing(own, name);
            let i = choose|i: int|
                #[trigger] query_laws::first_named(derived, i, name) && derived[i].value@ == v;
            query_laws::label_found(derived, i, name);
        }
    }
}

proof fn layout_is(s: LabelSchema, layout: Seq<char>)
    requires
        written_by(s, layout),
    ensures
        timeline::layout_of_schema(s) == layout,
{
    layout_laws::defaults_of_types();
    if let Some(f) = s.format {
        let e = Seq::<char>::empty();
        layout_laws::formats_are_resolved(
            e,
            f@,
            e,
            golayout::default_go_of(s.value_type@),
            golayout::default_pattern_of(s.value_type@),
        );
        assert(e + f@ + e =~= f@);
    }
}

/// A timeline is there exactly where both labels are defined and both have a
/// date, or both are times of day; it has the axis of these.
pub proof fn timelines_need_matching_labels(
    entries: Seq<Entry>,
    derived: Seq<Vec<Labeling>>,
    schemas: Seq<LabelSchema>,
    cfg: ViewTimeline,
    r: Option<Plan>,
    a: int,
    b: int,
)
    requires
        timeline::plan_is(entries, derived, schemas, cfg, r),
    ensures
        undefined(schemas, cfg.start@) || undefined(schemas, cfg.end@) ==> r is None,
        defines(schemas, a, cfg.start@) && defines(schemas, b, cfg.end@) ==> {
            let (s, t) = (schemas[a].value_type@, schemas[b].value_type@);
            &&& dated(s) && dated(t) ==> (r matches Some(p) && p.family == Family::DateTime)
            &&& s == "time"@ && t == "time"@ ==> (r matches Some(p) && p.family
                == Family::TimeOfDay)
            &&& !(dated(s) && dated(t)) && !(s == "time"@ && t == "time"@) ==> r is None
        },
{
    reveal_strlit("date");
    reveal_strlit("time");
    reveal_strlit("datetime");
    assert("date"@[0] == 'd' && "time"@[0] == 't' && "datetime"@[0] == 'd');
    if undefined(schemas, cfg.start@) {
        schema_is(schemas, schemas.len() as int, cfg.start@);
    }
    if undefined(schemas, cfg.end@) {
        schema_is(schemas, schemas.len() as int, cfg.end@);
    }
    if defines(schemas, a, cfg.start@) && defines(schemas, b, cfg.end@) {
        schema_is(schemas, a, cfg.start@);
        schema_is(schemas, b, cfg.end@);
    }
}

/// The block of an entry that has times is among those that are placed.
proof fn span_is_placed(p: Plan, f: Family, spans: Seq<Span>, x: Span)
    requires
        timeline::lays_out(p, f, spans),
        spans.contains(x),
    ensures
        exists|k: int|
            0 <= k < p.placed@.len() && (#[trigger] p.placed@[k]).idx == x.idx && p.placed@[k].start
                == x.start && p.placed@[k].end == x.end,
{
    timeline::sorting_keeps_spans(spans);
    let sorted = timeline::in_time_order(spans);
    assert(sorted.contains(x));
    let k = choose|k: int| 0 <= k < sorted.len() && sorted[k] == x;
    assert(p.placed@[k].idx == x.idx);
}

/// What is placed are entries with times.
proof fn placed_is_span(p: Plan, f: Family, spans: Seq<Span>, k: int) -> (x: Span)
    requires
        timeline::lays_out(p, f, spans),
        0 <= k < p.placed@.len(),
    ensures
        spans.contains(x),
        p.placed@[k].idx == x.idx,
        p.placed@[k].start == x.start,
        p.placed@[k].end == x.end,
{
    timeline::sorting_keeps_spans(spans);
    let sorted = timeline::in_time_order(spans);
    let x = sorted[k];
    assert(sorted.contains(x));
    assert(p.placed@[k].idx == x.idx);
    x
}

/// The times of an entry are in the list of spans.
proof fn entry_has_span(
    entries: Seq<Entry>,
    derived: Seq<Vec<Labeling>>,
    start: LabelSchema,
    end: LabelSchema,
    i: int,
    n: int,
)
    requires
        0 <= i < n <= entries.len(),
    ensures
        ({
            let spans = timeline::spans_of(entries, derived, start, end, n);
            match timeline::span_of(entries[i].labels@, derived[i]@, start, end) {
                Some((a, b)) => spans.contains(
                    Span { idx: i as usize, start: a as i64, end: b as i64 },
                ),
                None => timeline::without_times(entries, derived, start, end, n).contains(i),
            }
        }),
    decreases n,
{
    let spans = timeline::spans_of(entries, derived, start, end, n);
    let un = timeline::without_times(entries, derived, start, end, n);
    if i == n - 1 {
        match timeline::span_of(entries[i].labels@, derived[i]@, start, end) {
            Some((a, b)) => {
                assert(spans[spans.len() - 1] == (Span {
                    idx: i as usize,
                    start: a as i64,
                    end: b as i64,
                }));
            },
            None => {
                assert(un[un.len() - 1] == i);
            },
        }
    } else {
        entry_has_span(entries, derived, start, end, i, n - 1);
        let spans1 = timeline::spans_of(entries, derived, start, end, n - 1);
        let un1 = timeline::without_times(entries, derived, start, end, n - 1);
        match timeline::span_of(entries[i].labels@, derived[i]@, start, end) {
            Some((a, b)) => {
                let x = Span { idx: i as usize, start: a as i64, end: b as i64 };
                let k = choose|k: int| 0 <= k < spans1.len() && spans1[k] == x;
                assert(spans[k] == x);
            },
            None => {
                let k = choose|k: int| 0 <= k < un1.len() && un1[k] == i;
                assert(un[k] == i);
            },
        }
    }
}

/// Whether an entry is listed as one without times.
pub open spec fn is_listed(p: Plan, i: int) -> bool {
    exists|k: int| 0 <= k < p.unscheduled@.len() && #[trigger] p.unscheduled@[k] == i
}

/// Whether an entry is placed as a block between two times.
pub open spec fn is_placed(p: Plan, i: int, from: int, to: int) -> bool {
    exists|k: int|
        0 <= k < p.placed@.len() && (#[trigger] p.placed@[k]).idx == i && p.placed@[k].start == from
            && p.placed@[k].end == to
}

/// An entry whose two labels hold texts that their layouts read gets a block
/// between the seconds of the two moments, an end before the start counting as
/// the start; it is not listed.
pub proof fn entries_with_times_are_placed(
    entries: Seq<Entry>,
    derived: Seq<Vec<Labeling>>,
    schemas: Seq<LabelSchema>,
    cfg: ViewTimeline,
    p: Plan,
    a: int,
    b: int,
    i: int,
    from_layout: Seq<char>,
    to_layout: Seq<char>,
    x: Seq<char>,
    y: Seq<char>,
    t: YmdHms,
    u: YmdHms,
)
    requires
        timeline::plan_is(entries, derived, schemas, cfg, Some(p)),
        entries.len() <= usize::MAX,
        defines(schemas, a, cfg.start@),
        defines(schemas, b, cfg.end@),
        written_by(schemas[a], from_layout),
        written_by(schemas[b], to_layout),
        0 <= i < entries.len(),
        has_value(entries[i].labels@, derived[i]@, cfg.start@, JsonV::Text(x)),
        has_value(entries[i].labels@, derived[i]@, cfg.end@, JsonV::Text(y)),
        golayout::parsed(from_layout, x) == Some(t),
        golayout::parsed(to_layout, y) == Some(u),
    ensures
        ({
            let (from, to) = (golayout::moment_seconds(t), golayout::moment_seconds(u));
            is_placed(
                p,
                i,
                from,
                if to < from {
                    from
                } else {
                    to
                },
            )
        }),
        !is_listed(p, i),
{
    schema_is(schemas, a, cfg.start@);
    schema_is(schemas, b, cfg.end@);
    layout_is(schemas[a], from_layout);
    layout_is(schemas[b], to_layout);
    value_is(entries[i].labels@, derived[i]@, cfg.start@, JsonV::Text(x));
    value_is(entries[i].labels@, derived[i]@, cfg.end@, JsonV::Text(y));
    timeline::read_moment_is_near(from_layout, x);
    timeline::read_moment_is_near(to_layout, y);
    let n = entries.len() as int;
    entry_has_span(entries, derived, schemas[a], schemas[b], i, n);
    let spans = timeline::spans_of(entries, derived, schemas[a], schemas[b], n);
    let (from, to) = (golayout::moment_seconds(t), golayout::moment_seconds(u));
    let end = if to < from {
        from
    } else {
        to
    };
    let s = Span { idx: i as usize, start: from as i64, end: end as i64 };
    span_is_placed(p, p.family, spans, s);
    timeline::every_entry_has_a_place(entries, derived, schemas[a], schemas[b], n);
    let un = timeline::without_times(entries, derived, schemas[a], schemas[b], n);
    if is_listed(p, i) {
        let k = choose|k: int| 0 <= k < p.unscheduled@.len() && #[trigger] p.unscheduled@[k] == i;
        assert(components::positions(p.unscheduled@)[k] == i);
        assert(un.contains(i));
        let j = choose|j: int| 0 <= j < spans.len() && spans[j] == s;
        assert(!un.contains(spans[j].idx as int));
    }
}

/// In particular, by a format that is a pattern: what the layout of the pattern
/// writes for two moments is read back, as far as the layout has their fields.
pub proof fn written_moments_are_placed(
    entries: Seq<Entry>,
    derived: Seq<Vec<Labeling>>,
    schemas: Seq<LabelSchema>,
    cfg: ViewTimeline,
    p: Plan,
    a: int,
    b: int,
    i: int,
    layout: Seq<char>,
    t: YmdHms,
    u: YmdHms,
)
    requires
        timeline::plan_is(entries, derived, schemas, cfg, Some(p)),
        entries.len() <= usize::MAX,
        defines(schemas, a, cfg.start@),
        defines(schemas, b, cfg.end@),
        written_by(schemas[a], layout),
        written_by(schemas[b], layout),
        0 <= i < entries.len(),
        has_value(
            entries[i].labels@,
            derived[i]@,
            cfg.start@,
            JsonV::Text(layout_laws::written(layout, t)),
        ),
        has_value(
            entries[i].labels@,
            derived[i]@,
            cfg.end@,
            JsonV::Text(layout_laws::written(layout, u)),
        ),
        golayout::proper_time(t),
        golayout::proper_time(u),
        layout_laws::told_apart(golayout::layout_pieces(layout)),
        golayout::mentions(golayout::layout_pieces(layout), golayout::Tok::Year2) ==> 2000 <= t.year
            <= 2099 && 2000 <= u.year <= 2099,
        golayout::mentions(golayout::layout_pieces(layout), golayout::Tok::Hour12)
            ==> layout_laws::has_half(golayout::layout_pieces(layout)),
    ensures
        ({
            let ps = golayout::layout_pieces(layout);
            let from = golayout::moment_seconds(layout_laws::told(ps, t));
            let to = golayout::moment_seconds(layout_laws::told(ps, u));
            is_placed(
                p,
                i,
                from,
                if to < from {
                    from
                } else {
                    to
                },
            )
        }),
        !is_listed(p, i),
{
    layout_laws::written_times_are_read_back(layout, t);
    layout_laws::written_times_are_read_back(layout, u);
    let ps = golayout::layout_pieces(layout);
    entries_with_times_are_placed(
        entries,
        derived,
        schemas,
        cfg,
        p,
        a,
        b,
        i,
        layout,
        layout,
        layout_laws::written(layout, t),
        layout_laws::written(layout, u),
        layout_laws::told(ps, t),
        layout_laws::told(ps, u),
    );
}

/// In particular, dates in the format `YYYY/MM/DD` are those that they name.
pub proof fn slashed_dates_are_placed(
    entries: Seq<Entry>,
    derived: Seq<Vec<Labeling>>,
    schemas: Seq<LabelSchema>,
    cfg: ViewTimeline,
    p: Plan,
    a: int,
    b: int,
    i: int,
    t: YmdHms,
    u: YmdHms,
)
    requires
        timeline::plan_is(entries, derived, schemas, cfg, Some(p)),
        entries.len() <= usize::MAX,
        defines(schemas, a, cfg.start@),
        defines(schemas, b, cfg.end@),
        text::opt_view(schemas[a].format) == Some("YYYY/MM/DD"@),
        text::opt_view(schemas[b].format) == Some("YYYY/MM/DD"@),
        0 <= i < entries.len(),
        has_value(
            entries[i].labels@,
            derived[i]@,
            cfg.start@,
            JsonV::Text(layout_laws::written("2006/01/02"@, t)),
        ),
        has_value(
            entries[i].labels@,
            derived[i]@,
            cfg.end@,
            JsonV::Text(layout_laws::written("2006/01/02"@, u)),
        ),
        golayout::proper_time(t),
        golayout::proper_time(u),
    ensures
        ({
            let from = 86_400 * golayout::civil_days(t.year as int, t.month as int, t.day as int);
            let to = 86_400 * golayout::civil_days(u.year as int, u.month as int, u.day as int);
            is_placed(
                p,
                i,
                from,
                if to < from {
                    from
                } else {
                    to
                },
            )
        }),
{
    reveal_strlit("YYYY/MM/DD");
    let f = "YYYY/MM/DD"@;
    layout_laws::defaults_of_types();
    assert(!layout_laws::holds_digit(f));
    assert(written_by(schemas[a], "2006/01/02"@));
    assert(written_by(schemas[b], "2006/01/02"@));
    layout_laws::slashed_dates_are_read_back(t);
    layout_laws::slashed_dates_are_read_back(u);
    entries_with_times_are_placed(
        entries,
        derived,
        schemas,
        cfg,
        p,
        a,
        b,
        i,
        "2006/01/02"@,
        "2006/01/02"@,
        layout_laws::written("2006/01/02"@, t),
        layout_laws::written("2006/01/02"@, u),
        (YmdHms { hour: 0, minute: 0, second: 0, ..t }),
        (YmdHms { hour: 0, minute: 0, second: 0, ..u }),
    );
}

/// An entry one of whose two labels is missing, is no string, or holds a text
/// that its layout does not read, is listed and gets no block.
pub proof fn entries_without_times_are_listed(
    entries: Seq<Entry>,
    derived: Seq<Vec<Labeling>>,
    schemas: Seq<LabelSchema>,
    cfg: ViewTimeline,
    p: Plan,
    a: int,
    b: int,
    i: int,
    name: Seq<char>,
    c: int,
    layout: Seq<char>,
    v: JsonV,
)
    requires
        timeline::plan_is(entries, derived, schemas, cfg, Some(p)),
        entries.len() <= usize::MAX,
        defines(schemas, a, cfg.start@),
        defines(schemas, b, cfg.end@),
        name == cfg.start@ && c == a || name == cfg.end@ && c == b,
        written_by(schemas[c], layout),
        0 <= i < entries.len(),
        has_no_value(entries[i].labels@, derived[i]@, name) || (has_value(
            entries[i].labels@,
            derived[i]@,
            name,
            v,
        ) && (!(v is Text) || golayout::parsed(layout, v->Text_0) is None)),
    ensures
        is_listed(p, i),
        forall|from: int, to: int| !#[trigger] is_placed(p, i, from, to),
{
    schema_is(schemas, a, cfg.start@);
    schema_is(schemas, b, cfg.end@);
    layout_is(schemas[c], layout);
    value_is(entries[i].labels@, derived[i]@, name, v);
    let n = entries.len() as int;
    assert(timeline::label_seconds(entries[i].labels@, derived[i]@, schemas[c]) is None);
    assert(timeline::span_of(entries[i].labels@, derived[i]@, schemas[a], schemas[b]) is None);
    entry_has_span(entries, derived, schemas[a], schemas[b], i, n);
    let un = timeline::without_times(entries, derived, schemas[a], schemas[b], n);
    let spans = timeline::spans_of(entries, derived, schemas[a], schemas[b], n);
    let k = choose|k: int| 0 <= k < un.len() && un[k] == i;
    assert(components::positions(p.unscheduled@)[k] == i);
    assert(p.unscheduled@[k] == i);
    timeline::every_entry_has_a_place(entries, derived, schemas[a], schemas[b], n);
    assert forall|from: int, to: int| !#[trigger] is_placed(p, i, from, to) by {
        if is_placed(p, i, from, to) {
            let m = choose|m: int|
                0 <= m < p.placed@.len() && (#[trigger] p.placed@[m]).idx == i && p.placed@[m].start
                    == from && p.placed@[m].end == to;
            let x = placed_is_span(p, p.family, spans, m);
            let j = choose|j: int| 0 <= j < spans.len() && spans[j] == x;
            assert(!un.contains(spans[j].idx as int));
        }
    }
}

/// Each entry has one block at most, and what is placed or listed are entries.
pub proof fn entries_have_one_block(
    entries: Seq<Entry>,
    derived: Seq<Vec<Labeling>>,
    schemas: Seq<LabelSchema>,
    cfg: ViewTimeline,
    p: Plan,
    a: int,
    b: int,
)
    requires
        timeline::plan_is(entries, derived, schemas, cfg, Some(p)),
        entries.len() <= usize::MAX,
        defines(schemas, a, cfg.start@),
        defines(schemas, b, cfg.end@),
    ensures
        p.placed@.len() + p.unscheduled@.len() == entries.len(),
        forall|j: int| 0 <= j < p.placed@.len() ==> (#[trigger] p.placed@[j]).idx < entries.len(),
        forall|j: int, k: int|
            0 <= j < k < p.placed@.len() ==> (#[trigger] p.placed@[j]).idx != (
            #[trigger] p.placed@[k]).idx,
        forall|j: int|
            0 <= j < p.unscheduled@.len() ==> #[trigger] p.unscheduled@[j] < entries.len(),
{
    schema_is(schemas, a, cfg.start@);
    schema_is(schemas, b, cfg.end@);
    let n = entries.len() as int;
    timeline::every_entry_has_a_place(entries, derived, schemas[a], schemas[b], n);
    let spans = timeline::spans_of(entries, derived, schemas[a], schemas[b], n);
    let un = timeline::without_times(entries, derived, schemas[a], schemas[b], n);
    let sorted = timeline::in_time_order(spans);
    timeline::sorting_keeps_spans(spans);
    assert(components::positions(p.unscheduled@).len() == p.unscheduled@.len());
    assert forall|j: int| 0 <= j < p.placed@.len() implies (#[trigger] p.placed@[j]).idx
        < entries.len() by {
        let x = placed_is_span(p, p.family, spans, j);
        let m = choose|m: int| 0 <= m < spans.len() && spans[m] == x;
        assert(spans[m].idx < n);
    }
    assert forall|j: int| 0 <= j < p.unscheduled@.len() implies #[trigger] p.unscheduled@[j]
        < entries.len() by {
        assert(components::positions(p.unscheduled@)[j] == p.unscheduled@[j]);
        assert(0 <= un[j] < n);
    }
    one_each(spans);
    assert forall|j: int, k: int| 0 <= j < k < p.placed@.len() implies (#[trigger] p.placed@[j]).idx
        != (#[trigger] p.placed@[k]).idx by {
        assert(sorted[j].idx != sorted[k].idx);
    }
}

/// Sorting spans of different entries leaves them apart.
proof fn one_each(spans: Seq<Span>)
    requires
        forall|i: int, j: int|
            0 <= i < j < spans.len() ==> (#[trigger] spans[i]).idx < (#[trigger] spans[j]).idx,
    ensures
        forall|i: int, j: int|
            0 <= i < j < timeline::in_time_order(spans).len() ==> (
            #[trigger] timeline::in_time_order(spans)[i]).idx != (#[trigger] timeline::in_time_order(
                spans,
            )[j]).idx,
    decreases spans.len(),
{
    if spans.len() > 0 {
        let d = spans.drop_last();
        assert forall|i: int, j: int| 0 <= i < j < d.len() implies (#[trigger] d[i]).idx < (
        #[trigger] d[j]).idx by {
            assert(d[i] == spans[i] && d[j] == spans[j]);
        }
        one_each(d);
        timeline::sorting_keeps_spans(d);
        let s = timeline::in_time_order(d);
        let x = spans.last();
        assert forall|i: int| 0 <= i < s.len() implies (#[trigger] s[i]).idx != x.idx by {
            assert(s.contains(s[i]));
            let k = choose|k: int| 0 <= k < d.len() && d[k] == s[i];
            assert(spans[k].idx < spans[spans.len() - 1].idx);
        }
        inserted_apart(s, x);
    }
}

proof fn inserted_apart(s: Seq<Span>, x: Span)
    requires
        forall|i: int, j: int|
            0 <= i < j < s.len() ==> (#[trigger] s[i]).idx != (#[trigger] s[j]).idx,
        forall|i: int| 0 <= i < s.len() ==> (#[trigger] s[i]).idx != x.idx,
    ensures
        timeline::inserted(s, x).len() == s.len() + 1,
        forall|i: int, j: int|
            0 <= i < j < timeline::inserted(s, x).len() ==> (#[trigger] timeline::inserted(
                s,
                x,
            )[i]).idx != (#[trigger] timeline::inserted(s, x)[j]).idx,
        forall|y: Span|
            #[trigger] timeline::inserted(s, x).contains(y) ==> y == x || s.contains(y),
    decreases s.len(),
{
    let r = timeline::inserted(s, x);
    timeline::inserted_elements(s, x);
    if s.len() > 0 && !timeline::comes_first(s.last(), x) {
        let d = s.drop_last();
        inserted_apart(d, x);
        let rd = timeline::inserted(d, x);
        assert forall|i: int, j: int| 0 <= i < j < r.len() implies (#[trigger] r[i]).idx != (
        #[trigger] r[j]).idx by {
            if j < rd.len() {
                assert(rd[i].idx != rd[j].idx);
            } else {
                assert(rd.contains(rd[i]));
                if rd[i] != x {
                    let k = choose|k: int| 0 <= k < d.len() && d[k] == rd[i];
                    assert(s[k].idx != s[s.len() - 1].idx);
                } else {
                    assert(s[s.len() - 1].idx != x.idx);
                }
            }
        }
    }
}

/// The time until which a block takes its lane: its end, or a second where it
/// has no length.
pub open spec fn taken_to(b: Placed) -> int {
    if b.end > b.start {
        b.end as int
    } else {
        b.start + 1
    }
}

/// Whether a lane is taken when a block starts: one before it in the lane is not
/// over.
pub open spec fn is_taken(p: Plan, j: int, l: int) -> bool {
    exists|i: int|
        0 <= i < j && (#[trigger] p.placed@[i]).lane == l && taken_to(p.placed@[i])
            > p.placed@[j].start
}

/// Blocks are in order of their starts, ends and entries. Two blocks of a lane
/// do not overlap. A block is in the first lane that is free: in every lane
/// above it a block before it is not over when it starts. There are as many
/// lanes as that takes.
pub proof fn blocks_are_in_free_lanes(p: Plan, f: Family, spans: Seq<Span>)
    requires
        timeline::lays_out(p, f, spans),
    ensures
        forall|i: int, j: int|
            0 <= i < j < p.placed@.len() ==> {
                let (x, y) = (#[trigger] p.placed@[i], #[trigger] p.placed@[j]);
                &&& x.start < y.start || x.start == y.start && (x.end < y.end || x.end == y.end
                    && x.idx <= y.idx)
                &&& x.lane == y.lane ==> y.start >= taken_to(x)
            },
        forall|j: int, l: int|
            0 <= j < p.placed@.len() && 0 <= l < p.placed@[j].lane ==> #[trigger] is_taken(p, j, l),
        forall|j: int| 0 <= j < p.placed@.len() ==> (#[trigger] p.placed@[j]).lane < p.lanes,
        p.lanes > 0 ==> exists|j: int|
            0 <= j < p.placed@.len() && (#[trigger] p.placed@[j]).lane == p.lanes - 1,
{
    let s = timeline::in_time_order(spans);
    timeline::sorted_by_time(spans);
    let n = s.len() as int;
    assert(s.take(n) =~= s);
    timeline::lanes_hold_ends(s, n);
    assert forall|i: int, j: int| 0 <= i < j < p.placed@.len() implies {
        let (x, y) = (#[trigger] p.placed@[i], #[trigger] p.placed@[j]);
        &&& x.start < y.start || x.start == y.start && (x.end < y.end || x.end == y.end && x.idx
            <= y.idx)
        &&& x.lane == y.lane ==> y.start >= taken_to(x)
    } by {
        assert(timeline::comes_first(s[i], s[j]));
        if p.placed@[i].lane == p.placed@[j].lane {
            timeline::lanes_do_not_overlap(s, i, j);
        }
    }
    assert forall|j: int, l: int|
        0 <= j < p.placed@.len() && 0 <= l < p.placed@[j].lane implies #[trigger] is_taken(
        p,
        j,
        l,
    ) by {
        let ends = timeline::lane_ends(s.take(j));
        timeline::free_lane_props(ends, s[j].start as int);
        assert(l < timeline::lane_of(s, j) <= ends.len());
        assert((s[j].start as int) < ends[l]);
        let i = timeline::lanes_end_with_blocks(s, j, l);
        assert(p.placed@[i].lane == l);
    }
    assert forall|j: int| 0 <= j < p.placed@.len() implies (#[trigger] p.placed@[j]).lane
        < p.lanes by {
        assert(0 <= timeline::lane_of(s, j) < timeline::lane_ends(s).len());
    }
    if p.lanes > 0 {
        let i = timeline::lanes_end_with_blocks(s, n, p.lanes - 1);
        assert(p.placed@[i].lane == p.lanes - 1);
    }
}

/// The axis of times of day is one day. The axis of dates goes from the earliest
/// start to the latest end, and where these are less than a day apart it is a
/// day around their middle.
pub proof fn axes_take_in_all_blocks(p: Plan, f: Family, spans: Seq<Span>)
    requires
        timeline::lays_out(p, f, spans),
        timeline::near(spans),
    ensures
        p.family == f,
        f == Family::TimeOfDay ==> p.lo == 0 && p.hi == 86_400,
        f == Family::DateTime ==> {
            &&& p.hi - p.lo >= 86_400
            &&& forall|i: int|
                0 <= i < p.placed@.len() ==> p.lo <= (#[trigger] p.placed@[i]).start
                    && p.placed@[i].end <= p.hi
            &&& p.hi - p.lo > 86_400 ==> (exists|i: int|
                0 <= i < p.placed@.len() && (#[trigger] p.placed@[i]).start == p.lo) && (exists|
                i: int,
            |
                0 <= i < p.placed@.len() && (#[trigger] p.placed@[i]).end == p.hi)
            &&& p.placed@.len() == 1 && p.placed@[0].end - p.placed@[0].start < 86_400 ==> p.lo
                + 43_200 == p.placed@[0].start + (p.placed@[0].end - p.placed@[0].start) / 2
        },
{
    let s = timeline::in_time_order(spans);
    timeline::sorting_keeps_spans(spans);
    assert(timeline::near(s)) by {
        assert forall|i: int| 0 <= i < s.len() implies -100_000_000_000 < (#[trigger] s[i]).start
            <= s[i].end < 1_000_000_000_000 by {
            assert(s.contains(s[i]));
            let k = choose|k: int| 0 <= k < spans.len() && spans[k] == s[i];
            assert(spans[k].start <= spans[k].end);
        }
    }
    if f == Family::DateTime {
        timeline::date_axis_takes_in(s);
        assert forall|i: int| 0 <= i < p.placed@.len() implies p.lo <= (
        #[trigger] p.placed@[i]).start && p.placed@[i].end <= p.hi by {
            assert(timeline::date_axis(s).0 <= s[i].start);
        }
        if p.hi - p.lo > 86_400 {
            let i = earliest(s);
            let j = latest(s);
            assert(p.placed@[i].start == p.lo);
            assert(p.placed@[j].end == p.hi);
        }
        if p.placed@.len() == 1 {
            assert(s.len() == 1);
            assert(s.last() == s[0]);
            assert(p.placed@[0].start == s[0].start);
        }
    }
}

proof fn earliest(s: Seq<Span>) -> (i: int)
    requires
        s.len() > 0,
    ensures
        0 <= i < s.len(),
        s[i].start == timeline::first_start(s),
    decreases s.len(),
{
    if s.len() == 1 || s.last().start < timeline::first_start(s.drop_last()) {
        s.len() - 1
    } else {
        earliest(s.drop_last())
    }
}

proof fn latest(s: Seq<Span>) -> (i: int)
    requires
        s.len() > 0,
    ensures
        0 <= i < s.len(),
        s[i].end == timeline::last_end(s),
    decreases s.len(),
{
    if s.len() == 1 || s.last().end > timeline::last_end(s.drop_last()) {
        s.len() - 1
    } else {
        latest(s.drop_last())
    }
}

/// The distance of the ticks is one of a few, small first; there are at most
/// forty ticks wherever one of them leads to no more.
pub proof fn ticks_are_few(p: Plan, f: Family, spans: Seq<Span>)
    requires
        timeline::lays_out(p, f, spans),
        p.lo <= p.hi,
        p.hi - p.lo <= 40 * if f == Family::DateTime {
            1_576_800_000int
        } else {
            43_200int
        },
    ensures
        timeline::ticks_of(p.lo as int, p.hi as int, p.step as int).len() <= 40,
        p.step == timeline::first_step(timeline::steps_of(f), p.hi - p.lo),
        f == Family::DateTime && p.hi - p.lo <= 144_000 ==> p.step == 3_600,
        f == Family::TimeOfDay && 72_000 < p.hi - p.lo <= 144_000 ==> p.step == 3_600,
        f == Family::DateTime ==> p.step >= 3_600 && (p.step >= 86_400 ==> p.step % 86_400 == 0),
        p.step >= 300,
{
    timeline::few_ticks(p.lo as int, p.hi as int, f);
    let steps = timeline::steps_of(f);
    let step = p.step as int;
    assert(steps.contains(step));
    let k = choose|k: int| 0 <= k < steps.len() && steps[k] == step;
    reveal_with_fuel(timeline::first_step, 6);
    let s1 = steps.skip(1);
    assert(s1[0] == steps[1]);
    assert(s1.skip(1)[0] == steps[2]);
    assert(s1.skip(1).skip(1)[0] == steps[3]);
    assert(s1.skip(1).skip(1).skip(1)[0] == steps[4]);
}

/// The name on a block is that of the first member with the account that the
/// label holds, or the account itself where no member has it; a label that is
/// missing or no string gives none.
pub proof fn people_are_named(
    e: Entry,
    derived: Seq<Labeling>,
    name: Seq<char>,
    members: Seq<Member>,
    v: JsonV,
    id: Seq<char>,
    i: int,
)
    ensures
        has_value(e.labels@, derived, name, v) ==> timeline::effective_value(e.labels@, derived, name)
            == Some(v),
        has_no_value(e.labels@, derived, name) ==> timeline::effective_value(
            e.labels@,
            derived,
            name,
        ) is None,
        0 <= i < members.len() && members[i].account_id@ == id && (forall|j: int|
            0 <= j < i ==> (#[trigger] members[j]).account_id@ != id)
            ==> components::name_of_account(members, id) == (if text::all_white(members[i].name@) {
            members[i].email@
        } else {
            members[i].name@
        }),
        (forall|j: int| 0 <= j < members.len() ==> (#[trigger] members[j]).account_id@ != id)
            ==> components::name_of_account(members, id) == id,
{
    value_is(e.labels@, derived, name, v);
    if 0 <= i < members.len() && members[i].account_id@ == id && (forall|j: int|
        0 <= j < i ==> (#[trigger] members[j]).account_id@ != id) {
        member_is(members, id, i);
        text::blank_is_white(members[i].name@);
    }
    if forall|j: int| 0 <= j < members.len() ==> (#[trigger] members[j]).account_id@ != id {
        nobody_is(members, id);
    }
}

proof fn member_is(members: Seq<Member>, id: Seq<char>, i: int)
    requires
        0 <= i < members.len(),
        members[i].account_id@ == id,
        forall|j: int| 0 <= j < i ==> (#[trigger] members[j]).account_id@ != id,
    ensures
        components::name_of_account(members, id) == components::account_name(
            members[i].name@,
            members[i].email@,
        ),
    decreases i,
{
    if i > 0 {
        let t = members.skip(1);
        assert(members[0].account_id@ != id);
        assert(t[i - 1] == members[i]);
        assert forall|j: int| 0 <= j < i - 1 implies (#[trigger] t[j]).account_id@ != id by {
            assert(t[j] == members[j + 1]);
        }
        member_is(t, id, i - 1);
    }
}

proof fn nobody_is(members: Seq<Member>, id: Seq<char>)
    requires
        forall|j: int| 0 <= j < members.len() ==> (#[trigger] members[j]).account_id@ != id,
    ensures
        components::name_of_account(members, id) == id,
    decreases members.len(),
{
    if members.len() > 0 {
        let t = members.skip(1);
        assert(members[0].account_id@ != id);
        assert forall|j: int| 0 <= j < t.len() implies (#[trigger] t[j]).account_id@ != id by {
            assert(t[j] == members[j + 1]);
        }
        nobody_is(t, id);
    }
}

/// A tick is written with the digits of its moment: the clock on an axis of one
/// day, else the date, with the clock where ticks are closer than a day.
pub proof fn ticks_are_written(t: YmdHms, step: int)
    requires
        golayout::proper_time(t),
    ensures
        ({
            let w = timeline::tick_text(t, step, Family::TimeOfDay);
            &&& w.len() == 5
            &&& layout_laws::digits_of(w.take(2), t.hour as int, 2)
            &&& w[2] == ':'
            &&& layout_laws::digits_of(w.skip(3), t.minute as int, 2)
        }),
        ({
            let w = timeline::tick_text(t, step, Family::DateTime);
            &&& w.len() == if step < 86_400 {
                16nat
            } else {
                10nat
            }
            &&& layout_laws::digits_of(w.take(4), t.year as int, 4)
            &&& w[4] == '-'
            &&& layout_laws::digits_of(w.subrange(5, 7), t.month as int, 2)
            &&& w[7] == '-'
            &&& layout_laws::digits_of(w.subrange(8, 10), t.day as int, 2)
            &&& step < 86_400 ==> w[10] == ' ' && w.skip(11) == timeline::tick_text(
                t,
                step,
                Family::TimeOfDay,
            )
        }),
{
    reveal_strlit("-");
    reveal_strlit(":");
    reveal_strlit(" ");
    golayout::padded_digits(t.year as int, 4);
    golayout::padded_digits(t.month as int, 2);
    golayout::padded_digits(t.day as int, 2);
    golayout::padded_digits(t.hour as int, 2);
    golayout::padded_digits(t.minute as int, 2);
    let c = timeline::tick_text(t, step, Family::TimeOfDay);
    assert(c.take(2) =~= decimal::padded(t.hour as int, 2));
    assert(c.skip(3) =~= decimal::padded(t.minute as int, 2));
    let w = timeline::tick_text(t, step, Family::DateTime);
    assert(w.take(4) =~= decimal::padded(t.year as int, 4));
    assert(w.subrange(5, 7) =~= decimal::padded(t.month as int, 2));
    assert(w.subrange(8, 10) =~= decimal::padded(t.day as int, 2));
    if step < 86_400 {
        assert(w.skip(11) =~= c);
    }
}

/// The distances of the ticks on an axis of dates: an hour, a quarter, a half
/// and a whole day, two days, one week and two, a month, a quarter and half a
/// year, and so on in years; the first that leads to forty ticks at most.
pub proof fn distances_of_dates(n: int)
    ensures
        n <= 40 * 3_600 ==> timeline::first_step(timeline::steps_of(Family::DateTime), n) == 3_600,
        40 * 3_600 < n && n <= 40 * 21_600 ==> timeline::first_step(timeline::steps_of(Family::DateTime), n) == 21_600,
        40 * 21_600 < n && n <= 40 * 43_200 ==> timeline::first_step(timeline::steps_of(Family::DateTime), n) == 43_200,
        40 * 43_200 < n && n <= 40 * 86_400 ==> timeline::first_step(timeline::steps_of(Family::DateTime), n) == 86_400,
        40 * 86_400 < n && n <= 40 * 172_800 ==> timeline::first_step(timeline::steps_of(Family::DateTime), n) == 172_800,
        40 * 172_800 < n && n <= 40 * 604_800 ==> timeline::first_step(timeline::steps_of(Family::DateTime), n) == 604_800,
        40 * 604_800 < n && n <= 40 * 1_209_600 ==> timeline::first_step(timeline::steps_of(Family::DateTime), n) == 1_209_600,
        40 * 1_209_600 < n && n <= 40 * 2_592_000 ==> timeline::first_step(timeline::steps_of(Family::DateTime), n) == 2_592_000,
        40 * 2_592_000 < n && n <= 40 * 7_776_000 ==> timeline::first_step(timeline::steps_of(Family::DateTime), n) == 7_776_000,
        40 * 7_776_000 < n && n <= 40 * 15_552_000 ==> timeline::first_step(timeline::steps_of(Family::DateTime), n) == 15_552_000,
        40 * 15_552_000 < n && n <= 40 * 31_536_000 ==> timeline::first_step(timeline::steps_of(Family::DateTime), n) == 31_536_000,
        40 * 31_536_000 < n && n <= 40 * 63_072_000 ==> timeline::first_step(timeline::steps_of(Family::DateTime), n) == 63_072_000,
        40 * 63_072_000 < n && n <= 40 * 157_680_000 ==> timeline::first_step(timeline::steps_of(Family::DateTime), n) == 157_680_000,
        40 * 157_680_000 < n && n <= 40 * 315_360_000 ==> timeline::first_step(timeline::steps_of(Family::DateTime), n) == 315_360_000,
        40 * 315_360_000 < n && n <= 40 * 788_400_000 ==> timeline::first_step(timeline::steps_of(Family::DateTime), n) == 788_400_000,
        40 * 788_400_000 < n && n <= 40 * 1_576_800_000 ==> timeline::first_step(timeline::steps_of(Family::DateTime), n) == 1_576_800_000,
{
    reveal_with_fuel(timeline::first_step, 17);
    let s0 = timeline::steps_of(Family::DateTime);
    let s1 = s0.skip(1);
    let s2 = s1.skip(1);
    let s3 = s2.skip(1);
    let s4 = s3.skip(1);
    let s5 = s4.skip(1);
    let s6 = s5.skip(1);
    let s7 = s6.skip(1);
    let s8 = s7.skip(1);
    let s9 = s8.skip(1);
    let s10 = s9.skip(1);
    let s11 = s10.skip(1);
    let s12 = s11.skip(1);
    let s13 = s12.skip(1);
    let s14 = s13.skip(1);
    let s15 = s14.skip(1);
    assert(s0[0] == 3_600 && s0.len() == 16);
    assert(s1[0] == 21_600 && s1.len() == 15);
    assert(s2[0] == 43_200 && s2.len() == 14);
    assert(s3[0] == 86_400 && s3.len() == 13);
    assert(s4[0] == 172_800 && s4.len() == 12);
    assert(s5[0] == 604_800 && s5.len() == 11);
    assert(s6[0] == 1_209_600 && s6.len() == 10);
    assert(s7[0] == 2_592_000 && s7.len() == 9);
    assert(s8[0] == 7_776_000 && s8.len() == 8);
    assert(s9[0] == 15_552_000 && s9.len() == 7);
    assert(s10[0] == 31_536_000 && s10.len() == 6);
    assert(s11[0] == 63_072_000 && s11.len() == 5);
    assert(s12[0] == 157_680_000 && s12.len() == 4);
    assert(s13[0] == 315_360_000 && s13.len() == 3);
    assert(s14[0] == 788_400_000 && s14.len() == 2);
    assert(s15[0] == 1_576_800_000 && s15.len() == 1);
}

/// The distances of the ticks on an axis of one day: from five minutes to half a
/// day; the first that leads to forty ticks at most.
pub proof fn distances_of_clocks(n: int)
    ensures
        n <= 40 * 300 ==> timeline::first_step(timeline::steps_of(Family::TimeOfDay), n) == 300,
        40 * 300 < n && n <= 40 * 600 ==> timeline::first_step(timeline::steps_of(Family::TimeOfDay), n) == 600,
        40 * 600 < n && n <= 40 * 900 ==> timeline::first_step(timeline::steps_of(Family::TimeOfDay), n) == 900,
        40 * 900 < n && n <= 40 * 1_800 ==> timeline::first_step(timeline::steps_of(Family::TimeOfDay), n) == 1_800,
        40 * 1_800 < n && n <= 40 * 3_600 ==> timeline::first_step(timeline::steps_of(Family::TimeOfDay), n) == 3_600,
        40 * 3_600 < n && n <= 40 * 7_200 ==> timeline::first_step(timeline::steps_of(Family::TimeOfDay), n) == 7_200,
        40 * 7_200 < n && n <= 40 * 10_800 ==> timeline::first_step(timeline::steps_of(Family::TimeOfDay), n) == 10_800,
        40 * 10_800 < n && n <= 40 * 21_600 ==> timeline::first_step(timeline::steps_of(Family::TimeOfDay), n) == 21_600,
        40 * 21_600 < n && n <= 40 * 43_200 ==> timeline::first_step(timeline::steps_of(Family::TimeOfDay), n) == 43_200,
{
    reveal_with_fuel(timeline::first_step, 10);
    let s0 = timeline::steps_of(Family::TimeOfDay);
    let s1 = s0.skip(1);
    let s2 = s1.skip(1);
    let s3 = s2.skip(1);
    let s4 = s3.skip(1);
    let s5 = s4.skip(1);
    let s6 = s5.skip(1);
    let s7 = s6.skip(1);
    let s8 = s7.skip(1);
    assert(s0[0] == 300 && s0.len() == 9);
    assert(s1[0] == 600 && s1.len() == 8);
    assert(s2[0] == 900 && s2.len() == 7);
    assert(s3[0] == 1_800 && s3.len() == 6);
    assert(s4[0] == 3_600 && s4.len() == 5);
    assert(s5[0] == 7_200 && s5.len() == 4);
    assert(s6[0] == 10_800 && s6.len() == 3);
    assert(s7[0] == 21_600 && s7.len() == 2);
    assert(s8[0] == 43_200 && s8.len() == 1);
}

/// The label of a block's person is the first of its own, else the first that
/// other labels give it.
pub proof fn own_values_come_first(
    own: Seq<Labeling>,
    derived: Seq<Labeling>,
    name: Seq<char>,
    i: int,
    j: int,
)
    ensures
        query_laws::first_named(own, i, name) ==> timeline::effective_value(own, derived, name)
            == Some(own[i].value@),
        query_laws::none_named(own, name) && query_laws::first_named(derived, j, name)
            ==> timeline::effective_value(own, derived, name) == Some(derived[j].value@),
{
    if query_laws::first_named(own, i, name) {
        value_is(own, derived, name, own[i].value@);
    }
    if query_laws::none_named(own, name) && query_laws::first_named(derived, j, name) {
        value_is(own, derived, name, derived[j].value@);
    }
}

/// The person of a block is the member that its label names, its own label
/// before one that others give it; a label that is missing or no string names
/// nobody.
pub proof fn persons_are_named(
    own: Seq<Labeling>,
    derived: Seq<Labeling>,
    name: Seq<char>,
    members: Seq<Member>,
    id: Seq<char>,
    v: JsonV,
)
    ensures
        has_value(own, derived, name, JsonV::Text(id)) ==> timeline::person_of(
            own,
            derived,
            name,
            members,
        ) == Some(components::name_of_account(members, id)),
        has_value(own, derived, name, v) && !(v is Text) ==> timeline::person_of(
            own,
            derived,
            name,
            members,
        ) is None,
        has_no_value(own, derived, name) ==> timeline::person_of(own, derived, name, members)
            is None,
{
    value_is(own, derived, name, JsonV::Text(id));
    value_is(own, derived, name, v);
}

/// A click selects a block, and a click on the selected one selects none.
pub proof fn clicks_select_blocks(selected: Seq<char>, code: Seq<char>)
    ensures
        selected != code ==> timeline::toggled(selected, code) == code,
        timeline::toggled(code, code).len() == 0,
{
    reveal_strlit("");
}

} // verus!
