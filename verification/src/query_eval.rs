//! Evaluation of queries on entries, and the colours that rules give.
//!
//! A query is a JSON tree: `{"and": [..]}`, `{"or": [..]}`, `{"not": ..}` or
//! `{"cond": {"field": .., "op": .., "value": ..}}`.

use vstd::prelude::*;

use crate::decimal;
use crate::golayout;
use crate::graphql_client::{AccountBrief, Entry, Labeling};
use crate::json;
use crate::json::{Json, JsonV};
use crate::selection;
use crate::text;

verus! {

// ---------------------------------------------------------------------------
// Points in time
// ---------------------------------------------------------------------------

/// The first position from which a text goes on with a `T` or a space.
pub open spec fn date_end(s: Seq<char>) -> int
    decreases s.len(),
{
    if s.len() == 0 || s[0] == 'T' || s[0] == ' ' {
        0
    } else {
        1 + date_end(s.skip(1))
    }
}

/// The first position of a `Z`, a `+` or a `-`.
pub open spec fn zone_start(s: Seq<char>) -> int
    decreases s.len(),
{
    if s.len() == 0 || s[0] == 'Z' || s[0] == '+' || s[0] == '-' {
        0
    } else {
        1 + zone_start(s.skip(1))
    }
}

/// The integer between two byte offsets of a text.
pub open spec fn int_in(s: Seq<char>, from: int, to: int) -> Option<int> {
    match text::byte_slice(s, from, to) {
        Some(t) => decimal::int_of(t),
        None => None,
    }
}

/// The integer between two byte offsets, zero where there is none.
pub open spec fn int_or_zero(s: Seq<char>, from: int, to: int) -> int {
    match int_in(s, from, to) {
        Some(n) => n,
        None => 0,
    }
}

/// The seconds by which the zone written after a clock time lies ahead of UTC.
pub open spec fn zone_offset(tail: Seq<char>) -> int {
    let z = zone_start(tail);
    if 0 <= z < tail.len() && (tail[z] == '+' || tail[z] == '-') {
        let off = tail.skip(z + 1);
        let val = int_or_zero(off, 0, 2) * 3600 + int_or_zero(off, 3, 5) * 60;
        if tail[z] == '+' {
            val
        } else {
            -val
        }
    } else {
        0
    }
}

/// The seconds from midnight UTC of a clock time `hh:mm:ss` with a zone. The
/// seconds may be missing. None where the hours or minutes are missing, where a
/// part is too large, or where the ninth byte lies inside a character.
pub open spec fn clock_seconds(rest: Seq<char>) -> Option<int> {
    match (int_in(rest, 0, 2), int_in(rest, 3, 5), text::capped_boundary(rest, 8)) {
        (Some(hh), Some(mm), Some(k)) => {
            let ss = int_or_zero(rest, 6, 8);
            if hh > 23 || mm > 59 || ss > 60 {
                None
            } else {
                Some(hh * 3600 + mm * 60 + ss - zone_offset(rest.skip(k)))
            }
        },
        _ => None,
    }
}

/// The days from 1970-01-01 to a date written `year-month-day`.
pub open spec fn date_days(date: Seq<char>) -> Option<int> {
    let parts = text::split_at_char(date, '-');
    if parts.len() != 3 {
        None
    } else {
        match (decimal::int_of(parts[0]), decimal::int_of(parts[1]), decimal::int_of(parts[2])) {
            (Some(y), Some(m), Some(d)) => if 1 <= m <= 12 && 1 <= d <= 31 {
                Some(golayout::civil_days(y, m, d))
            } else {
                None
            },
            _ => None,
        }
    }
}

/// The seconds from 1970-01-01 UTC to a point in time, written as a date or as
/// a date and a clock time; a date stands for its midnight.
pub open spec fn ts_of(s: Seq<char>) -> Option<int> {
    let t = text::trimmed(s);
    let e = date_end(t);
    match date_days(t.take(e)) {
        Some(days) => if e >= t.len() {
            Some(days * 86_400)
        } else {
            match clock_seconds(t.skip(e + 1)) {
                Some(secs) => Some(days * 86_400 + secs),
                None => None,
            }
        },
        None => None,
    }
}

/// What [`date_end`] finds.
pub proof fn date_end_is(s: Seq<char>, n: int)
    requires
        0 <= n <= s.len(),
        n < s.len() ==> s[n] == 'T' || s[n] == ' ',
        forall|k: int| 0 <= k < n ==> #[trigger] s[k] != 'T' && s[k] != ' ',
    ensures
        date_end(s) == n,
    decreases n,
{
    if n > 0 {
        let t = s.skip(1);
        assert(s[0] != 'T' && s[0] != ' ');
        assert forall|k: int| 0 <= k < n - 1 implies #[trigger] t[k] != 'T' && t[k] != ' ' by {
            assert(t[k] == s[k + 1]);
        }
        if n < s.len() {
            assert(t[n - 1] == s[n]);
        }
        date_end_is(t, n - 1);
    }
}

/// What [`zone_start`] finds.
pub proof fn zone_start_is(s: Seq<char>, n: int)
    requires
        0 <= n <= s.len(),
        n < s.len() ==> s[n] == 'Z' || s[n] == '+' || s[n] == '-',
        forall|k: int|
            0 <= k < n ==> #[trigger] s[k] != 'Z' && s[k] != '+' && s[k] != '-',
    ensures
        zone_start(s) == n,
    decreases n,
{
    if n > 0 {
        let t = s.skip(1);
        assert(s[0] != 'Z' && s[0] != '+' && s[0] != '-');
        assert forall|k: int| 0 <= k < n - 1 implies #[trigger] t[k] != 'Z' && t[k] != '+' && t[k]
            != '-' by {
            assert(t[k] == s[k + 1]);
        }
        if n < s.len() {
            assert(t[n - 1] == s[n]);
        }
        zone_start_is(t, n - 1);
    }
}

/// The integer between two byte offsets of the characters from `from` on.
fn int_at(v: &Vec<char>, from: usize, a: usize, b: usize) -> (r: Option<i64>)
    requires
        from <= v@.len(),
        a <= b,
    ensures
        match r {
            Some(n) => int_in(v@.skip(from as int), a as int, b as int) == Some(n as int),
            None => int_in(v@.skip(from as int), a as int, b as int) is None,
        },
{
    match text::slice_bytes(v, from, a, b) {
        Some(s) => decimal::parse_int(s.as_str()),
        None => None,
    }
}

/// The integer between two byte offsets, zero where there is none.
fn int_at_or_zero(v: &Vec<char>, from: usize, a: usize, b: usize) -> (r: i64)
    requires
        from <= v@.len(),
        a <= b,
    ensures
        r == int_or_zero(v@.skip(from as int), a as int, b as int),
{
    match int_at(v, from, a, b) {
        Some(n) => n,
        None => 0,
    }
}

/// Reads the zone after a clock time.
fn read_zone(v: &Vec<char>, from: usize) -> (r: i128)
    requires
        from <= v@.len(),
    ensures
        r == zone_offset(v@.skip(from as int)),
        -0x1_0000_0000_0000_0000_0000 < r < 0x1_0000_0000_0000_0000_0000,
{
    let ghost tail = v@.skip(from as int);
    let mut z: usize = from;
    while z < v.len() && v[z] != 'Z' && v[z] != '+' && v[z] != '-'
        invariant
            from <= z <= v@.len(),
            tail == v@.skip(from as int),
            forall|k: int|
                0 <= k < z - from ==> #[trigger] tail[k] != 'Z' && tail[k] != '+' && tail[k] != '-',
        decreases v@.len() - z,
    {
        assert(tail[z - from] == v@[z as int]);
        z += 1;
    }
    proof {
        if z < v.len() {
            assert(tail[z - from] == v@[z as int]);
        }
        zone_start_is(tail, z - from);
    }
    if z < v.len() && v[z] != 'Z' {
        assert(tail.skip(z - from + 1) =~= v@.skip(z + 1));
        let oh: i64 = int_at_or_zero(v, z + 1, 0, 2);
        let om: i64 = int_at_or_zero(v, z + 1, 3, 5);
        let val: i128 = oh as i128 * 3600 + om as i128 * 60;
        if v[z] == '+' {
            val
        } else {
            -val
        }
    } else {
        0
    }
}

/// Reads a clock time.
fn read_clock(v: &Vec<char>, from: usize) -> (r: Option<i128>)
    requires
        from <= v@.len(),
    ensures
        match r {
            Some(n) => clock_seconds(v@.skip(from as int)) == Some(n as int) && -0x2_0000_0000_0000_0000_0000
                < n < 0x2_0000_0000_0000_0000_0000,
            None => clock_seconds(v@.skip(from as int)) is None,
        },
{
    let ghost rest = v@.skip(from as int);
    match (int_at(v, from, 0, 2), int_at(v, from, 3, 5), text::cap_boundary(v, from, 8)) {
        (Some(hh), Some(mm), Some(k)) => {
            let ss: i64 = int_at_or_zero(v, from, 6, 8);
            if hh > 23 || mm > 59 || ss > 60 {
                return None;
            }
            assert(rest.skip(k as int) =~= v@.skip(from + k));
            let zone: i128 = read_zone(v, from + k);
            Some(hh as i128 * 3600 + mm as i128 * 60 + ss as i128 - zone)
        },
        _ => None,
    }
}

/// Dividing a year by the periods of leap years after a shift by 400-year
/// cycles.
proof fn shifted_year(y: int, cycles: int)
    ensures
        (y + 400 * cycles) / 4 == y / 4 + 100 * cycles,
        (y + 400 * cycles) / 100 == y / 100 + 4 * cycles,
        (y + 400 * cycles) / 400 == y / 400 + cycles,
{
}

/// The days from 1970-01-01 to a date of the Gregorian calendar, for any year
/// of 64 bits.
fn wide_days(y: i64, m: i64, d: i64) -> (r: i128)
    requires
        1 <= m <= 12,
        1 <= d <= 31,
    ensures
        r == golayout::civil_days(y as int, m as int, d as int),
        -0x1_0000_0000_0000_0000_0000 < r < 0x1_0000_0000_0000_0000_0000,
{
    // Years are shifted by 400-year cycles to be positive; such a cycle has
    // 146 097 days.
    let cycles: i128 = 0x1000_0000_0000_0000;
    let y1: i128 = if m <= 2 {
        y as i128 - 1
    } else {
        y as i128
    };
    let y2: i128 = y1 + 400 * cycles;
    let by4: i128 = y2 / 4;
    let by100: i128 = y2 / 100;
    let by400: i128 = y2 / 400;
    proof {
        shifted_year(y1 as int, cycles as int);
    }
    let from_march: i128 = if m > 2 {
        m as i128 - 3
    } else {
        m as i128 + 9
    };
    let days: i128 = 365 * y2 + by4 - by100 + by400 + (153 * from_march + 2) / 5 + d as i128 - 1
        - 719_468;
    days - 146_097 * cycles
}

/// Reads a date.
fn read_date(date: &str) -> (r: Option<i128>)
    ensures
        match r {
            Some(n) => date_days(date@) == Some(n as int) && -0x1_0000_0000_0000_0000_0000 < n
                < 0x1_0000_0000_0000_0000_0000,
            None => date_days(date@) is None,
        },
{
    let parts = text::split(date, '-');
    let ghost ps = text::split_at_char(date@, '-');
    assert(parts@.len() == ps.len());
    if parts.len() != 3 {
        return None;
    }
    assert(ps[0] == parts@[0]@ && ps[1] == parts@[1]@ && ps[2] == parts@[2]@);
    match (
        decimal::parse_int(parts[0].as_str()),
        decimal::parse_int(parts[1].as_str()),
        decimal::parse_int(parts[2].as_str()),
    ) {
        (Some(y), Some(m), Some(d)) => if 1 <= m && m <= 12 && 1 <= d && d <= 31 {
            Some(wide_days(y, m, d))
        } else {
            None
        },
        _ => None,
    }
}

/// Reads a point in time as seconds from 1970-01-01 UTC.
pub fn parse_ts(s: &str) -> (r: Option<i128>)
    ensures
        match r {
            Some(n) => ts_of(s@) == Some(n as int),
            None => ts_of(s@) is None,
        },
{
    let t = text::trim(s);
    let v = text::chars_of(t.as_str());
    let mut e: usize = 0;
    while e < v.len() && v[e] != 'T' && v[e] != ' '
        invariant
            e <= v@.len(),
            forall|k: int| 0 <= k < e ==> #[trigger] v@[k] != 'T' && v@[k] != ' ',
        decreases v@.len() - e,
    {
        e += 1;
    }
    proof {
        date_end_is(v@, e as int);
    }
    let date = text::string_of(&v, 0, e);
    assert(date@ =~= v@.take(e as int));
    match read_date(date.as_str()) {
        Some(days) => if e == v.len() {
            Some(days * 86_400)
        } else {
            match read_clock(&v, e + 1) {
                Some(secs) => Some(days * 86_400 + secs),
                None => None,
            }
        },
        None => None,
    }
}

// ---------------------------------------------------------------------------
// Values
// ---------------------------------------------------------------------------

/// The text of a truth value.
pub open spec fn bool_text(b: bool) -> Seq<char> {
    if b {
        "true"@
    } else {
        "false"@
    }
}

/// The text by which a scalar value is compared; arrays and objects have none.
pub open spec fn scalar_text(j: JsonV) -> Option<Seq<char>> {
    match j {
        JsonV::Text(s) => Some(s),
        JsonV::Bool(b) => Some(bool_text(b)),
        JsonV::Number(n) => Some(n.text()),
        JsonV::Null => Some("null"@),
        _ => None,
    }
}

/// The text by which a scalar value is compared.
pub fn scalar_string(j: &Json) -> (r: Option<String>)
    ensures
        text::opt_view(r) == scalar_text(j@),
{
    match j {
        Json::Text(s) => Some(s.clone()),
        Json::Bool(b) => if *b {
            Some("true".to_owned())
        } else {
            Some("false".to_owned())
        },
        Json::Number(n) => Some(n.text()),
        Json::Null => Some("null".to_owned()),
        _ => None,
    }
}

/// Whether a value, or an item of it where it is an array, has a text.
pub open spec fn elem_is(j: JsonV, w: Seq<char>) -> bool {
    match j {
        JsonV::Array(a) => exists|i: int|
            0 <= i < a.len() && scalar_text(#[trigger] a[i]) == Some(w),
        _ => scalar_text(j) == Some(w),
    }
}

/// Whether the lower-case form of a text contains another text.
pub open spec fn has_folded(s: Seq<char>, needle: Seq<char>) -> bool {
    text::occurs(text::lowercase(s), needle)
}

/// Whether a value has a text that contains another, up to case.
pub open spec fn scalar_has(j: JsonV, needle: Seq<char>) -> bool {
    scalar_text(j) matches Some(t) && has_folded(t, needle)
}

/// Whether a value, or an item of it where it is an array, has a text that
/// contains another, up to case.
pub open spec fn elem_has(j: JsonV, needle: Seq<char>) -> bool {
    match j {
        JsonV::Array(a) => exists|i: int| 0 <= i < a.len() && scalar_has(#[trigger] a[i], needle),
        _ => scalar_has(j, needle),
    }
}

/// Whether a scalar value has a text.
fn scalar_is(j: &Json, w: &str) -> (r: bool)
    ensures
        r == (scalar_text(j@) == Some(w@)),
{
    match scalar_string(j) {
        Some(t) => text::same(t.as_str(), w),
        None => false,
    }
}

/// Whether the lower-case form of a text contains another text.
pub fn contains_ci(hay: &str, needle_lower: &str) -> (r: bool)
    ensures
        r == has_folded(hay@, needle_lower@),
{
    text::contains(hay.to_lowercase().as_str(), needle_lower)
}

/// Tests [`elem_is`].
fn any_elem_is(j: &Json, w: &str) -> (r: bool)
    ensures
        r == elem_is(j@, w@),
{
    match j.as_array() {
        Some(a) => {
            let ghost items = json::items_view(a@);
            let mut i: usize = 0;
            while i < a.len()
                invariant
                    i <= a@.len(),
                    items == json::items_view(a@),
                    j@ == JsonV::Array(items),
                    forall|k: int| 0 <= k < i ==> scalar_text(#[trigger] items[k]) != Some(w@),
                decreases a@.len() - i,
            {
                let hit = scalar_is(&a[i], w);
                assert(items[i as int] == a@[i as int]@);
                if hit {
                    return true;
                }
                i += 1;
            }
            false
        },
        None => scalar_is(j, w),
    }
}

/// Tests [`scalar_has`].
fn scalar_contains(j: &Json, needle: &str) -> (r: bool)
    ensures
        r == scalar_has(j@, needle@),
{
    match scalar_string(j) {
        Some(t) => contains_ci(t.as_str(), needle),
        None => false,
    }
}

/// Tests [`elem_has`].
fn any_elem_has(j: &Json, needle: &str) -> (r: bool)
    ensures
        r == elem_has(j@, needle@),
{
    match j.as_array() {
        Some(a) => {
            let ghost items = json::items_view(a@);
            let mut i: usize = 0;
            while i < a.len()
                invariant
                    i <= a@.len(),
                    items == json::items_view(a@),
                    j@ == JsonV::Array(items),
                    forall|k: int| 0 <= k < i ==> !scalar_has(#[trigger] items[k], needle@),
                decreases a@.len() - i,
            {
                let hit = scalar_contains(&a[i], needle);
                assert(items[i as int] == a@[i as int]@);
                assert(hit == scalar_has(j@->Array_0[i as int], needle@));
                if hit {
                    return true;
                }
                i += 1;
            }
            false
        },
        None => scalar_contains(j, needle),
    }
}

/// Two quantities in the order that an operator asks for: `gt`, `ge`, `lt`, or
/// else `le`.
pub open spec fn in_order(op: Seq<char>, a: int, b: int) -> bool {
    if op == "gt"@ {
        a > b
    } else if op == "ge"@ {
        a >= b
    } else if op == "lt"@ {
        a < b
    } else {
        a <= b
    }
}

/// Whether an operator asks for an order.
pub open spec fn is_order_op(op: Seq<char>) -> bool {
    op == "gt"@ || op == "ge"@ || op == "lt"@ || op == "le"@
}

/// Tests [`is_order_op`].
fn order_op(op: &str) -> (r: bool)
    ensures
        r == is_order_op(op@),
{
    text::same(op, "gt") || text::same(op, "ge") || text::same(op, "lt") || text::same(op, "le")
}

/// Tests [`in_order`].
fn ordered(op: &str, a: i128, b: i128) -> (r: bool)
    ensures
        r == in_order(op@, a as int, b as int),
{
    if text::same(op, "gt") {
        a > b
    } else if text::same(op, "ge") {
        a >= b
    } else if text::same(op, "lt") {
        a < b
    } else {
        a <= b
    }
}

/// The text that a wanted value is compared by: that of a scalar, else JSON.
pub open spec fn want_text(w: JsonV) -> Seq<char> {
    match scalar_text(w) {
        Some(t) => t,
        None => json::json_text(w),
    }
}

/// Whether a value equals a wanted one: as numbers where both are, else by
/// text.
pub open spec fn value_equals(got: JsonV, w: JsonV) -> bool {
    match (json::num_key(got), json::num_key(w)) {
        (Some(a), Some(b)) => a == b,
        _ => elem_is(got, want_text(w)),
    }
}

/// Whether a value is one candidate of a list.
pub open spec fn candidate_hit(got: JsonV, x: JsonV) -> bool {
    match (json::num_key(got), json::num_key(x)) {
        (Some(a), Some(b)) => a == b,
        _ => scalar_text(x) matches Some(t) && elem_is(got, t),
    }
}

/// Whether a value is one of a list of candidates.
pub open spec fn any_candidate(got: JsonV, list: Seq<JsonV>) -> bool {
    exists|i: int| 0 <= i < list.len() && candidate_hit(got, #[trigger] list[i])
}

/// The point in time of a string value.
pub open spec fn value_ts(j: JsonV) -> Option<int> {
    match json::str_of(j) {
        Some(s) => ts_of(s),
        None => None,
    }
}

/// Whether a value lies in the order that an operator asks for: as numbers
/// where both are, else as points in time where both are.
pub open spec fn value_ordered(got: JsonV, op: Seq<char>, w: JsonV) -> bool {
    match (json::num_key(got), json::num_key(w)) {
        (Some(a), Some(b)) => in_order(op, a, b),
        _ => match (value_ts(got), value_ts(w)) {
            (Some(a), Some(b)) => in_order(op, a, b),
            _ => false,
        },
    }
}

/// Whether a value meets a condition. Without a wanted value, with one of the
/// wrong kind, and with an operator that is not known, it does not.
pub open spec fn value_matches(got: JsonV, op: Seq<char>, want: Option<JsonV>) -> bool {
    match want {
        None => false,
        Some(w) => if op == "eq"@ {
            value_equals(got, w)
        } else if op == "ne"@ {
            !value_equals(got, w)
        } else if op == "contains"@ || op == "notContains"@ {
            match json::str_of(w) {
                Some(b) => (got is Text || got is Array) && (elem_has(got, text::lowercase(b)) == (op
                    == "contains"@)),
                None => false,
            }
        } else if op == "in"@ || op == "notIn"@ {
            match json::items_of(w) {
                Some(list) => any_candidate(got, list) == (op == "in"@),
                None => false,
            }
        } else if is_order_op(op) {
            value_ordered(got, op, w)
        } else {
            false
        },
    }
}

/// Tests [`value_equals`].
fn equal_value(got: &Json, w: &Json) -> (r: bool)
    ensures
        r == value_equals(got@, w@),
{
    match (got.order_key(), w.order_key()) {
        (Some(a), Some(b)) => a == b,
        _ => {
            let t = match scalar_string(w) {
                Some(t) => t,
                None => json::write(w),
            };
            any_elem_is(got, t.as_str())
        },
    }
}

/// Tests [`candidate_hit`].
fn hits_candidate(got: &Json, x: &Json) -> (r: bool)
    ensures
        r == candidate_hit(got@, x@),
{
    match (got.order_key(), x.order_key()) {
        (Some(a), Some(b)) => a == b,
        _ => match scalar_string(x) {
            Some(t) => any_elem_is(got, t.as_str()),
            None => false,
        },
    }
}

/// Tests [`any_candidate`].
fn among(got: &Json, list: &Vec<Json>) -> (r: bool)
    ensures
        r == any_candidate(got@, json::items_view(list@)),
{
    let ghost items = json::items_view(list@);
    let mut i: usize = 0;
    while i < list.len()
        invariant
            i <= list@.len(),
            items == json::items_view(list@),
            forall|k: int| 0 <= k < i ==> !candidate_hit(got@, #[trigger] items[k]),
        decreases list@.len() - i,
    {
        let hit = hits_candidate(got, &list[i]);
        assert(items[i as int] == list@[i as int]@);
        if hit {
            return true;
        }
        i += 1;
    }
    false
}

/// The point in time of a string value.
fn time_of(j: &Json) -> (r: Option<i128>)
    ensures
        match r {
            Some(n) => value_ts(j@) == Some(n as int),
            None => value_ts(j@) is None,
        },
{
    match j.as_str() {
        Some(s) => parse_ts(s),
        None => None,
    }
}

/// Tests [`value_ordered`].
fn ordered_value(got: &Json, op: &str, w: &Json) -> (r: bool)
    ensures
        r == value_ordered(got@, op@, w@),
{
    match (got.order_key(), w.order_key()) {
        (Some(a), Some(b)) => ordered(op, a as i128, b as i128),
        _ => match (time_of(got), time_of(w)) {
            (Some(a), Some(b)) => ordered(op, a, b),
            _ => false,
        },
    }
}

/// Tests whether a value meets a condition.
pub fn match_value(got: &Json, op: &str, want: Option<&Json>) -> (r: bool)
    ensures
        r == value_matches(got@, op@, json::opt_json(want)),
{
    let w = match want {
        Some(w) => w,
        None => {
            return false;
        },
    };
    if text::same(op, "eq") {
        equal_value(got, w)
    } else if text::same(op, "ne") {
        !equal_value(got, w)
    } else if text::same(op, "contains") || text::same(op, "notContains") {
        match w.as_str() {
            Some(b) => {
                let searchable = match got {
                    Json::Text(_) => true,
                    Json::Array(_) => true,
                    _ => false,
                };
                if !searchable {
                    return false;
                }
                let needle = b.to_lowercase();
                any_elem_has(got, needle.as_str()) == text::same(op, "contains")
            },
            None => false,
        }
    } else if text::same(op, "in") || text::same(op, "notIn") {
        match w.as_array() {
            Some(list) => among(got, list) == text::same(op, "in"),
            None => false,
        }
    } else if order_op(op) {
        ordered_value(got, op, w)
    } else {
        false
    }
}

// ---------------------------------------------------------------------------
// Fields
// ---------------------------------------------------------------------------

/// Whether an account has a name or an e-mail address, up to the case of ASCII
/// letters.
pub open spec fn account_is(a: AccountBrief, w: Seq<char>) -> bool {
    text::same_letters(a.name@, w) || text::same_letters(a.email@, w)
}

/// Whether the name or the e-mail address of an account contains a text, up to
/// case.
pub open spec fn account_has(a: AccountBrief, w: Seq<char>) -> bool {
    has_folded(a.name@, text::lowercase(w)) || has_folded(a.email@, text::lowercase(w))
}

/// Whether an account is one of a list of strings; other items do not count.
pub open spec fn account_in(a: AccountBrief, list: Seq<JsonV>) -> bool {
    exists|i: int|
        0 <= i < list.len() && (json::str_of(#[trigger] list[i]) matches Some(w) && account_is(a, w))
}

/// Whether an account meets a condition; a missing one never does.
pub open spec fn account_matches(
    acct: Option<AccountBrief>,
    op: Seq<char>,
    want: Option<JsonV>,
) -> bool {
    match acct {
        None => false,
        Some(a) => if op == "eq"@ || op == "ne"@ {
            match json::opt_str_of(want) {
                Some(w) => account_is(a, w) == (op == "eq"@),
                None => false,
            }
        } else if op == "contains"@ || op == "notContains"@ {
            match json::opt_str_of(want) {
                Some(w) => account_has(a, w) == (op == "contains"@),
                None => false,
            }
        } else if op == "in"@ || op == "notIn"@ {
            match json::opt_items_of(want) {
                Some(list) => account_in(a, list) == (op == "in"@),
                None => false,
            }
        } else {
            false
        },
    }
}

/// Whether a point in time meets a condition; one that cannot be read never
/// does.
pub open spec fn time_matches(got: Seq<char>, op: Seq<char>, want: Option<JsonV>) -> bool {
    match json::opt_str_of(want) {
        Some(s) => match (ts_of(got), ts_of(s)) {
            (Some(a), Some(b)) => if op == "eq"@ {
                a == b
            } else if op == "ne"@ {
                a != b
            } else {
                is_order_op(op) && in_order(op, a, b)
            },
            _ => false,
        },
        None => false,
    }
}

/// The first label with a name.
pub open spec fn label_named(ls: Seq<Labeling>, name: Seq<char>) -> Option<JsonV>
    decreases ls.len(),
{
    if ls.len() == 0 {
        None
    } else if ls[0].label_name@ == name {
        Some(ls[0].value@)
    } else {
        label_named(ls.skip(1), name)
    }
}

/// Whether the labels of an entry meet a condition on one of them.
pub open spec fn label_matches(
    name: Seq<char>,
    op: Seq<char>,
    want: Option<JsonV>,
    ls: Seq<Labeling>,
) -> bool {
    if op == "present"@ {
        label_named(ls, name) is Some
    } else if op == "absent"@ {
        label_named(ls, name) is None
    } else {
        match label_named(ls, name) {
            Some(v) => value_matches(v, op, want),
            None => false,
        }
    }
}

/// The text of a label value that a full-text search looks into.
pub open spec fn searched_text(j: JsonV) -> Option<Seq<char>> {
    match j {
        JsonV::Text(_) | JsonV::Number(_) | JsonV::Bool(_) => scalar_text(j),
        _ => None,
    }
}

/// Whether a label value contains a text, up to case.
pub open spec fn label_has(j: JsonV, needle: Seq<char>) -> bool {
    searched_text(j) matches Some(t) && has_folded(t, needle)
}

/// Whether an entry or one of its labels contains a text, up to case.
pub open spec fn entry_has(e: Entry, ls: Seq<Labeling>, kw: Seq<char>) -> bool {
    let needle = text::lowercase(kw);
    ||| has_folded(e.code@, needle)
    ||| has_folded(e.title@, needle)
    ||| has_folded(e.detail@, needle)
    ||| exists|i: int| 0 <= i < ls.len() && label_has((#[trigger] ls[i]).value@, needle)
}

/// Whether an entry meets a full-text condition.
pub open spec fn text_matches(
    op: Seq<char>,
    want: Option<JsonV>,
    e: Entry,
    ls: Seq<Labeling>,
) -> bool {
    match json::opt_str_of(want) {
        Some(kw) => if op == "contains"@ {
            entry_has(e, ls, kw)
        } else if op == "notContains"@ {
            !entry_has(e, ls, kw)
        } else {
            false
        },
        None => false,
    }
}

/// Whether an entry meets a condition on a field of its own.
pub open spec fn field_matches(
    field: Seq<char>,
    op: Seq<char>,
    want: Option<JsonV>,
    e: Entry,
    ls: Seq<Labeling>,
) -> bool {
    if field == "updatedAt"@ {
        time_matches(e.updated_at@, op, want)
    } else if field == "createdAt"@ {
        time_matches(e.created_at@, op, want)
    } else if field == "code"@ {
        value_matches(JsonV::Text(e.code@), op, want)
    } else if field == "title"@ {
        value_matches(JsonV::Text(e.title@), op, want)
    } else if field == "detail"@ {
        value_matches(JsonV::Text(e.detail@), op, want)
    } else if field == "createdBy"@ {
        account_matches(e.created_by_account, op, want)
    } else if field == "updatedBy"@ {
        account_matches(e.updated_by_account, op, want)
    } else if field == "text"@ {
        text_matches(op, want, e, ls)
    } else {
        false
    }
}

/// The operator of a condition, empty where there is none.
pub open spec fn cond_op(c: JsonV) -> Seq<char> {
    match json::opt_str_of(json::member(c, "op"@)) {
        Some(op) => op,
        None => ""@,
    }
}

/// Whether an entry meets a condition.
pub open spec fn cond_holds(c: JsonV, e: Entry, ls: Seq<Labeling>) -> bool {
    let want = json::member(c, "value"@);
    match json::member(c, "field"@) {
        None => false,
        Some(field) => match json::opt_str_of(json::member(field, "label"@)) {
            Some(name) => label_matches(name, cond_op(c), want, ls),
            None => match json::str_of(field) {
                Some(f) => field_matches(f, cond_op(c), want, e, ls),
                None => false,
            },
        },
    }
}

/// Whether an entry meets a query.
pub open spec fn query_holds(q: JsonV, e: Entry, ls: Seq<Labeling>) -> bool
    decreases q,
{
    proof {
        json::member_smaller(q, "and"@);
        json::member_smaller(q, "or"@);
        json::member_smaller(q, "not"@);
    }
    match json::member(q, "and"@) {
        Some(JsonV::Array(list)) => forall|i: int|
            0 <= i < list.len() ==> query_holds(#[trigger] list[i], e, ls),
        _ => match json::member(q, "or"@) {
            Some(JsonV::Array(list)) => exists|i: int|
                0 <= i < list.len() && query_holds(#[trigger] list[i], e, ls),
            _ => match json::member(q, "not"@) {
                Some(inner) => !query_holds(inner, e, ls),
                None => match json::member(q, "cond"@) {
                    Some(c) => cond_holds(c, e, ls),
                    None => false,
                },
            },
        },
    }
}

/// Whether two texts are equal up to the case of ASCII letters.
fn same_folded(a: &str, b: &str) -> (r: bool)
    ensures
        r == text::same_letters(a@, b@),
{
    text::same(text::to_lower(a).as_str(), text::to_lower(b).as_str())
}

/// Tests [`account_is`].
fn is_account(a: &AccountBrief, w: &str) -> (r: bool)
    ensures
        r == account_is(*a, w@),
{
    same_folded(a.name.as_str(), w) || same_folded(a.email.as_str(), w)
}

/// Tests [`account_has`].
fn in_account(a: &AccountBrief, w: &str) -> (r: bool)
    ensures
        r == account_has(*a, w@),
{
    let needle = w.to_lowercase();
    contains_ci(a.name.as_str(), needle.as_str()) || contains_ci(a.email.as_str(), needle.as_str())
}

/// Tests [`account_in`].
fn account_among(a: &AccountBrief, list: &Vec<Json>) -> (r: bool)
    ensures
        r == account_in(*a, json::items_view(list@)),
{
    let ghost items = json::items_view(list@);
    let mut i: usize = 0;
    while i < list.len()
        invariant
            i <= list@.len(),
            items == json::items_view(list@),
            forall|k: int|
                0 <= k < i ==> !(json::str_of(#[trigger] items[k]) matches Some(w) && account_is(*a, w)),
        decreases list@.len() - i,
    {
        let hit = match list[i].as_str() {
            Some(w) => is_account(a, w),
            None => false,
        };
        assert(items[i as int] == list@[i as int]@);
        assert(hit == (json::str_of(items[i as int]) matches Some(w) && account_is(*a, w)));
        if hit {
            return true;
        }
        i += 1;
    }
    false
}

/// The text of an optional value that is a string.
fn want_str(want: Option<&Json>) -> (r: Option<&str>)
    ensures
        text::opt_str(r) == json::opt_str_of(json::opt_json(want)),
{
    match want {
        Some(w) => w.as_str(),
        None => None,
    }
}

/// Tests whether an account meets a condition.
fn match_account(acct: &Option<AccountBrief>, op: &str, want: Option<&Json>) -> (r: bool)
    ensures
        r == account_matches(*acct, op@, json::opt_json(want)),
{
    match acct {
        None => false,
        Some(a) => if text::same(op, "eq") || text::same(op, "ne") {
            match want_str(want) {
                Some(w) => is_account(a, w) == text::same(op, "eq"),
                None => false,
            }
        } else if text::same(op, "contains") || text::same(op, "notContains") {
            match want_str(want) {
                Some(w) => in_account(a, w) == text::same(op, "contains"),
                None => false,
            }
        } else if text::same(op, "in") || text::same(op, "notIn") {
            match want {
                Some(w) => match w.as_array() {
                    Some(list) => account_among(a, list) == text::same(op, "in"),
                    None => false,
                },
                None => false,
            }
        } else {
            false
        },
    }
}

/// Tests whether a point in time meets a condition.
fn match_time(got: &str, op: &str, want: Option<&Json>) -> (r: bool)
    ensures
        r == time_matches(got@, op@, json::opt_json(want)),
{
    match want_str(want) {
        Some(s) => match (parse_ts(got), parse_ts(s)) {
            (Some(a), Some(b)) => if text::same(op, "eq") {
                a == b
            } else if text::same(op, "ne") {
                a != b
            } else {
                order_op(op) && ordered(op, a, b)
            },
            _ => false,
        },
        None => false,
    }
}

/// The value of the first label with a name.
pub fn find_label<'a>(labels: &'a [Labeling], name: &str) -> (r: Option<&'a Json>)
    ensures
        json::opt_json(r) == label_named(labels@, name@),
{
    let mut i: usize = 0;
    assert(labels@.skip(0) =~= labels@);
    while i < labels.len()
        invariant
            i <= labels@.len(),
            label_named(labels@, name@) == label_named(labels@.skip(i as int), name@),
        decreases labels@.len() - i,
    {
        let ghost rest = labels@.skip(i as int);
        assert(rest[0] == labels@[i as int]);
        assert(rest.skip(1) =~= labels@.skip(i + 1));
        if text::same(labels[i].label_name.as_str(), name) {
            return Some(&labels[i].value);
        }
        i += 1;
    }
    None
}

/// Tests whether labels meet a condition on one of them.
fn match_label(name: &str, op: &str, want: Option<&Json>, labels: &[Labeling]) -> (r: bool)
    ensures
        r == label_matches(name@, op@, json::opt_json(want), labels@),
{
    let found = find_label(labels, name);
    if text::same(op, "present") {
        found.is_some()
    } else if text::same(op, "absent") {
        found.is_none()
    } else {
        match found {
            Some(v) => match_value(v, op, want),
            None => false,
        }
    }
}

/// Tests [`label_has`].
fn label_contains(j: &Json, needle: &str) -> (r: bool)
    ensures
        r == label_has(j@, needle@),
{
    match j {
        Json::Text(_) | Json::Number(_) | Json::Bool(_) => scalar_contains(j, needle),
        _ => false,
    }
}

/// Tests [`entry_has`].
fn entry_contains(e: &Entry, labels: &[Labeling], kw: &str) -> (r: bool)
    ensures
        r == entry_has(*e, labels@, kw@),
{
    let needle = kw.to_lowercase();
    if contains_ci(e.code.as_str(), needle.as_str()) || contains_ci(
        e.title.as_str(),
        needle.as_str(),
    ) || contains_ci(e.detail.as_str(), needle.as_str()) {
        return true;
    }
    let mut i: usize = 0;
    while i < labels.len()
        invariant
            i <= labels@.len(),
            needle@ == text::lowercase(kw@),
            forall|k: int| 0 <= k < i ==> !label_has((#[trigger] labels@[k]).value@, needle@),
        decreases labels@.len() - i,
    {
        if label_contains(&labels[i].value, needle.as_str()) {
            assert(label_has(labels@[i as int].value@, needle@));
            return true;
        }
        i += 1;
    }
    false
}

/// Tests whether an entry meets a full-text condition.
fn match_text(op: &str, want: Option<&Json>, e: &Entry, labels: &[Labeling]) -> (r: bool)
    ensures
        r == text_matches(op@, json::opt_json(want), *e, labels@),
{
    match want_str(want) {
        Some(kw) => if text::same(op, "contains") {
            entry_contains(e, labels, kw)
        } else if text::same(op, "notContains") {
            !entry_contains(e, labels, kw)
        } else {
            false
        },
        None => false,
    }
}

/// Tests whether an entry meets a condition on a field of its own.
fn match_field(
    field: &str,
    op: &str,
    want: Option<&Json>,
    e: &Entry,
    labels: &[Labeling],
) -> (r: bool)
    ensures
        r == field_matches(field@, op@, json::opt_json(want), *e, labels@),
{
    if text::same(field, "updatedAt") {
        match_time(e.updated_at.as_str(), op, want)
    } else if text::same(field, "createdAt") {
        match_time(e.created_at.as_str(), op, want)
    } else if text::same(field, "code") {
        match_value(&json::of_str(e.code.as_str()), op, want)
    } else if text::same(field, "title") {
        match_value(&json::of_str(e.title.as_str()), op, want)
    } else if text::same(field, "detail") {
        match_value(&json::of_str(e.detail.as_str()), op, want)
    } else if text::same(field, "createdBy") {
        match_account(&e.created_by_account, op, want)
    } else if text::same(field, "updatedBy") {
        match_account(&e.updated_by_account, op, want)
    } else if text::same(field, "text") {
        match_text(op, want, e, labels)
    } else {
        false
    }
}

/// Tests whether an entry meets a condition.
fn eval_cond(cond: &Json, e: &Entry, labels: &[Labeling]) -> (r: bool)
    ensures
        r == cond_holds(cond@, *e, labels@),
{
    let field = match cond.get("field") {
        Some(f) => f,
        None => {
            return false;
        },
    };
    let op = match want_str(cond.get("op")) {
        Some(op) => op,
        None => "",
    };
    let want = cond.get("value");
    match want_str(field.get("label")) {
        Some(name) => match_label(name, op, want, labels),
        None => match field.as_str() {
            Some(f) => match_field(f, op, want, e, labels),
            None => false,
        },
    }
}

/// Tests whether an entry with its labels meets a query.
pub fn eval(query: &Json, entry: &Entry, labels: &[Labeling]) -> (r: bool)
    ensures
        r == query_holds(query@, *entry, labels@),
    decreases query@,
{
    proof {
        json::member_smaller(query@, "and"@);
        json::member_smaller(query@, "or"@);
        json::member_smaller(query@, "not"@);
    }
    if let Some(a) = query.get("and") {
        if let Some(list) = a.as_array() {
            let ghost items = json::items_view(list@);
            let mut i: usize = 0;
            while i < list.len()
                invariant
                    i <= list@.len(),
                    items == json::items_view(list@),
                    a@ == JsonV::Array(items),
                    json::member(query@, "and"@) == Some(a@),
                    decreases_to!(query@ => a@),
                    forall|k: int| 0 <= k < i ==> query_holds(#[trigger] items[k], *entry, labels@),
                decreases list@.len() - i,
            {
                assert(items[i as int] == list@[i as int]@);
                proof {
                    json::element_smaller(a@, items, i as int);
                }
                if !eval(&list[i], entry, labels) {
                    assert(!query_holds(a@->Array_0[i as int], *entry, labels@));
                    return false;
                }
                i += 1;
            }
            return true;
        }
    }
    if let Some(a) = query.get("or") {
        if let Some(list) = a.as_array() {
            let ghost items = json::items_view(list@);
            let mut i: usize = 0;
            while i < list.len()
                invariant
                    i <= list@.len(),
                    items == json::items_view(list@),
                    a@ == JsonV::Array(items),
                    !(json::member(query@, "and"@) matches Some(JsonV::Array(_))),
                    json::member(query@, "or"@) == Some(a@),
                    decreases_to!(query@ => a@),
                    forall|k: int| 0 <= k < i ==> !query_holds(#[trigger] items[k], *entry, labels@),
                decreases list@.len() - i,
            {
                assert(items[i as int] == list@[i as int]@);
                proof {
                    json::element_smaller(a@, items, i as int);
                }
                if eval(&list[i], entry, labels) {
                    assert(query_holds(a@->Array_0[i as int], *entry, labels@));
                    return true;
                }
                i += 1;
            }
            return false;
        }
    }
    if let Some(inner) = query.get("not") {
        return !eval(inner, entry, labels);
    }
    if let Some(cond) = query.get("cond") {
        return eval_cond(cond, entry, labels);
    }
    false
}

// ---------------------------------------------------------------------------
// Labels of a query
// ---------------------------------------------------------------------------

/// The label that a condition is on, where it is on one.
pub open spec fn cond_label(c: JsonV) -> Option<Seq<char>> {
    match json::member(c, "field"@) {
        Some(field) => json::opt_str_of(json::member(field, "label"@)),
        None => None,
    }
}

/// The labels that the conditions of a query are on, in order, one for each such
/// condition.
pub open spec fn cond_labels(q: JsonV) -> Seq<Seq<char>>
    decreases q,
{
    proof {
        json::member_smaller(q, "and"@);
        json::member_smaller(q, "or"@);
        json::member_smaller(q, "not"@);
    }
    match json::member(q, "and"@) {
        Some(JsonV::Array(list)) => all_cond_labels(list),
        _ => match json::member(q, "or"@) {
            Some(JsonV::Array(list)) => all_cond_labels(list),
            _ => match json::member(q, "not"@) {
                Some(inner) => cond_labels(inner),
                None => match json::member(q, "cond"@) {
                    Some(c) => match cond_label(c) {
                        Some(name) => seq![name],
                        None => seq![],
                    },
                    None => seq![],
                },
            },
        },
    }
}

/// The labels that the conditions of queries are on, in order.
pub open spec fn all_cond_labels(list: Seq<JsonV>) -> Seq<Seq<char>>
    decreases list,
{
    if list.len() == 0 {
        seq![]
    } else {
        all_cond_labels(list.drop_last()) + cond_labels(list.last())
    }
}

/// The labels that a query names, in the order of its conditions, each once.
pub open spec fn named_labels(q: JsonV) -> Seq<Seq<char>> {
    selection::with_all(seq![], cond_labels(q))
}

/// Adds the labels that a query names to a list, each once.
fn add_label_names(q: &Json, out: &mut Vec<String>)
    ensures
        text::contents(final(out)@) == selection::with_all(
            text::contents(old(out)@),
            cond_labels(q@),
        ),
    decreases q@,
{
    proof {
        json::member_smaller(q@, "and"@);
        json::member_smaller(q@, "or"@);
        json::member_smaller(q@, "not"@);
    }
    if let Some(a) = q.get("and") {
        if let Some(list) = a.as_array() {
            return add_all_label_names(a, list, out);
        }
    }
    if let Some(a) = q.get("or") {
        if let Some(list) = a.as_array() {
            return add_all_label_names(a, list, out);
        }
    }
    if let Some(inner) = q.get("not") {
        return add_label_names(inner, out);
    }
    if let Some(c) = q.get("cond") {
        if let Some(field) = c.get("field") {
            if let Some(name) = want_str(field.get("label")) {
                let ghost first = text::contents(out@);
                let ghost before = out@;
                proof {
                    assert(seq![name@].drop_last() =~= seq![]);
                    assert(selection::with_all(first, seq![]) == first);
                    assert(selection::with_all(first, seq![name@]) == selection::with(
                        first,
                        name@,
                    ));
                }
                if !text::holds(out, name) {
                    out.push(name.to_owned());
                    assert(text::contents(out@) =~= text::contents(before).push(name@));
                }
            }
        }
    }
}

/// Adds the labels that the items of an array name to a list, each once.
fn add_all_label_names(a: &Json, list: &Vec<Json>, out: &mut Vec<String>)
    requires
        a@ == JsonV::Array(json::items_view(list@)),
    ensures
        text::contents(final(out)@) == selection::with_all(
            text::contents(old(out)@),
            all_cond_labels(json::items_view(list@)),
        ),
    decreases a@,
{
    let ghost items = json::items_view(list@);
    let ghost first = text::contents(out@);
    let mut i: usize = 0;
    assert(items.take(0) =~= seq![]);
    while i < list.len()
        invariant
            i <= list@.len(),
            items == json::items_view(list@),
            a@ == JsonV::Array(items),
            text::contents(out@) == selection::with_all(
                first,
                all_cond_labels(items.take(i as int)),
            ),
        decreases list@.len() - i,
    {
        assert(items[i as int] == list@[i as int]@);
        proof {
            json::element_smaller(a@, items, i as int);
            assert(items.take(i + 1).drop_last() =~= items.take(i as int));
            assert(items.take(i + 1).last() == items[i as int]);
            selection::with_all_in_parts(
                first,
                all_cond_labels(items.take(i as int)),
                cond_labels(items[i as int]),
            );
        }
        add_label_names(&list[i], out);
        i += 1;
    }
    assert(items.take(i as int) =~= items);
}

/// The labels that a query names, in the order of its conditions, each once.
pub fn query_label_names(q: &Json) -> (r: Vec<String>)
    ensures
        text::contents(r@) == named_labels(q@),
{
    let mut out: Vec<String> = Vec::new();
    assert(text::contents(out@) =~= seq![]);
    add_label_names(q, &mut out);
    out
}

// ---------------------------------------------------------------------------
// Colours
// ---------------------------------------------------------------------------

/// Whether a number lies in the half-open range of a colour rule; an end that
/// is no number is open.
pub open spec fn in_range(k: int, rule: JsonV) -> bool {
    let lo = json::member(rule, "min"@);
    let hi = json::member(rule, "max"@);
    &&& (lo matches Some(l) ==> (json::num_key(l) matches Some(m) ==> k >= m))
    &&& (hi matches Some(h) ==> (json::num_key(h) matches Some(m) ==> k < m))
}

/// Whether a value equals another, or one of its items does where it is an
/// array.
pub open spec fn value_or_item_is(value: JsonV, exact: JsonV) -> bool {
    match value {
        JsonV::Array(a) => exists|i: int|
            0 <= i < a.len() && json::same_json(#[trigger] a[i], exact),
        _ => json::same_json(exact, value),
    }
}

/// Whether a colour rule applies to a value: an exact value decides alone,
/// else the range does, which only numbers lie in.
pub open spec fn rule_applies(rule: JsonV, value: JsonV) -> bool {
    match json::member(rule, "value"@) {
        Some(exact) => if exact == JsonV::Null {
            json::num_key(value) matches Some(k) && in_range(k, rule)
        } else {
            value_or_item_is(value, exact)
        },
        None => json::num_key(value) matches Some(k) && in_range(k, rule),
    }
}

/// The colour of a rule.
pub open spec fn rule_color(rule: JsonV) -> Option<Seq<char>> {
    json::opt_str_of(json::member(rule, "color"@))
}

/// The colour of the first rule that applies to a value and has one.
pub open spec fn first_value_color(rules: Seq<JsonV>, value: JsonV) -> Option<Seq<char>>
    decreases rules.len(),
{
    if rules.len() == 0 {
        None
    } else if rule_applies(rules[0], value) && rule_color(rules[0]) is Some {
        rule_color(rules[0])
    } else {
        first_value_color(rules.skip(1), value)
    }
}

/// The colour of a label: that of the first rule that applies, else its own.
pub open spec fn label_color(
    base: Option<JsonV>,
    value_colors: JsonV,
    value: JsonV,
) -> Option<Seq<char>> {
    let by_rule = match json::items_of(value_colors) {
        Some(rules) => first_value_color(rules, value),
        None => None,
    };
    match by_rule {
        Some(c) => Some(c),
        None => json::opt_str_of(base),
    }
}

/// The key of a number that stands at a key of a rule.
fn bound(rule: &Json, key: &str) -> (r: Option<i64>)
    ensures
        match r {
            Some(k) => json::member(rule@, key@) matches Some(v) && json::num_key(v) == Some(
                k as int,
            ),
            None => json::member(rule@, key@) matches Some(v) ==> json::num_key(v) is None,
        },
{
    match rule.get(key) {
        Some(v) => v.order_key(),
        None => None,
    }
}

/// Tests whether a number lies in the range of a rule.
fn within(value: &Json, rule: &Json) -> (r: bool)
    ensures
        r == (json::num_key(value@) matches Some(k) && in_range(k, rule@)),
{
    match value.order_key() {
        Some(k) => {
            let above = match bound(rule, "min") {
                Some(lo) => k >= lo,
                None => true,
            };
            let below = match bound(rule, "max") {
                Some(hi) => k < hi,
                None => true,
            };
            above && below
        },
        None => false,
    }
}

/// Tests [`value_or_item_is`].
fn equals_or_holds(value: &Json, exact: &Json) -> (r: bool)
    ensures
        r == value_or_item_is(value@, exact@),
{
    match value.as_array() {
        Some(a) => {
            let ghost items = json::items_view(a@);
            let mut i: usize = 0;
            while i < a.len()
                invariant
                    i <= a@.len(),
                    items == json::items_view(a@),
                    value@ == JsonV::Array(items),
                    forall|k: int| 0 <= k < i ==> !json::same_json(#[trigger] items[k], exact@),
                decreases a@.len() - i,
            {
                let hit = json::same(&a[i], exact);
                assert(items[i as int] == a@[i as int]@);
                assert(hit == json::same_json(value@->Array_0[i as int], exact@));
                if hit {
                    return true;
                }
                i += 1;
            }
            false
        },
        None => json::same(exact, value),
    }
}

/// Tests whether a colour rule applies to a value.
fn applies(rule: &Json, value: &Json) -> (r: bool)
    ensures
        r == rule_applies(rule@, value@),
{
    match rule.get("value") {
        Some(exact) => if exact.is_null() {
            within(value, rule)
        } else {
            equals_or_holds(value, exact)
        },
        None => within(value, rule),
    }
}

/// An optional text as a string.
fn owned(s: Option<&str>) -> (r: Option<String>)
    ensures
        text::opt_view(r) == text::opt_str(s),
{
    match s {
        Some(t) => Some(t.to_owned()),
        None => None,
    }
}

/// The colour that a label with a value is shown in.
pub fn resolve_label_color(base: Option<&Json>, value_colors: &Json, value: &Json) -> (r: Option<
    String,
>)
    ensures
        text::opt_view(r) == label_color(json::opt_json(base), value_colors@, value@),
{
    if let Some(list) = value_colors.as_array() {
        let ghost rules = json::items_view(list@);
        let mut i: usize = 0;
        assert(rules.skip(0) =~= rules);
        while i < list.len()
            invariant
                i <= list@.len(),
                rules == json::items_view(list@),
                value_colors@ == JsonV::Array(rules),
                first_value_color(rules, value@) == first_value_color(
                    rules.skip(i as int),
                    value@,
                ),
            decreases list@.len() - i,
        {
            let ghost rest = rules.skip(i as int);
            assert(rest[0] == list@[i as int]@);
            assert(rest.skip(1) =~= rules.skip(i + 1));
            if applies(&list[i], value) {
                if let Some(c) = want_str(list[i].get("color")) {
                    return Some(c.to_owned());
                }
            }
            i += 1;
        }
        assert(rules.skip(i as int) =~= seq![]);
    }
    owned(want_str(base))
}

/// Whether the query of a title rule holds; a rule without one never does.
pub open spec fn title_rule_holds(rule: JsonV, e: Entry, ls: Seq<Labeling>) -> bool {
    json::member(rule, "query"@) matches Some(q) && query_holds(q, e, ls)
}

/// The colour of the first title rule that holds and has one.
pub open spec fn first_title_color(rules: Seq<JsonV>, e: Entry, ls: Seq<Labeling>) -> Option<
    Seq<char>,
>
    decreases rules.len(),
{
    if rules.len() == 0 {
        None
    } else if title_rule_holds(rules[0], e, ls) && rule_color(rules[0]) is Some {
        rule_color(rules[0])
    } else {
        first_title_color(rules.skip(1), e, ls)
    }
}

/// The colour that the title of an entry is shown in; none without a list of
/// rules.
pub open spec fn color_of_title(
    rules: JsonV,
    e: Entry,
    ls: Seq<Labeling>,
) -> Option<Seq<char>> {
    match json::items_of(rules) {
        Some(list) => first_title_color(list, e, ls),
        None => None,
    }
}

/// The colour that the title of an entry is shown in.
pub fn title_color(rules: &Json, entry: &Entry, labels: &[Labeling]) -> (r: Option<String>)
    ensures
        text::opt_view(r) == color_of_title(rules@, *entry, labels@),
{
    let list = match rules.as_array() {
        Some(list) => list,
        None => {
            return None;
        },
    };
    let ghost all = json::items_view(list@);
    let mut i: usize = 0;
    assert(all.skip(0) =~= all);
    while i < list.len()
        invariant
            i <= list@.len(),
            all == json::items_view(list@),
            rules@ == JsonV::Array(all),
            first_title_color(all, *entry, labels@) == first_title_color(
                all.skip(i as int),
                *entry,
                labels@,
            ),
        decreases list@.len() - i,
    {
        let ghost rest = all.skip(i as int);
        assert(rest[0] == list@[i as int]@);
        assert(rest.skip(1) =~= all.skip(i + 1));
        let matched = match list[i].get("query") {
            Some(q) => eval(q, entry, labels),
            None => false,
        };
        if matched {
            if let Some(c) = want_str(list[i].get("color")) {
                return Some(c.to_owned());
            }
        }
        i += 1;
    }
    assert(all.skip(i as int) =~= seq![]);
    None
}

// ---------------------------------------------------------------------------
// Laws
// ---------------------------------------------------------------------------

/// `and` holds where each part does, so without parts always; `or` holds where
/// one part does, so without parts never; `not` turns the answer round. Each
/// stands before the ones after it.
pub proof fn boolean_laws(q: JsonV, e: Entry, ls: Seq<Labeling>)
    ensures
        json::member(q, "and"@) matches Some(JsonV::Array(list)) ==> query_holds(q, e, ls) == (
        forall|i: int| 0 <= i < list.len() ==> query_holds(#[trigger] list[i], e, ls)) && (
        list.len() == 0 ==> query_holds(q, e, ls)),
        !(json::member(q, "and"@) matches Some(JsonV::Array(_))) ==> (json::member(
            q,
            "or"@,
        ) matches Some(JsonV::Array(list)) ==> query_holds(q, e, ls) == (exists|i: int|
            0 <= i < list.len() && query_holds(#[trigger] list[i], e, ls)) && (list.len() == 0
            ==> !query_holds(q, e, ls))),
        !(json::member(q, "and"@) matches Some(JsonV::Array(_))) && !(json::member(
            q,
            "or"@,
        ) matches Some(JsonV::Array(_))) ==> (json::member(q, "not"@) matches Some(inner)
            ==> query_holds(q, e, ls) == !query_holds(inner, e, ls)),
{
}

/// The operators differ from one another.
proof fn operators_differ()
    ensures
        "eq"@ != "ne"@,
        "contains"@ != "eq"@,
        "contains"@ != "ne"@,
        "contains"@ != "notContains"@,
        "notContains"@ != "eq"@,
        "notContains"@ != "ne"@,
        "in"@ != "eq"@,
        "in"@ != "ne"@,
        "in"@ != "contains"@,
        "in"@ != "notContains"@,
        "notIn"@ != "eq"@,
        "notIn"@ != "ne"@,
        "notIn"@ != "contains"@,
        "notIn"@ != "notContains"@,
        "notIn"@ != "in"@,
        "present"@ != "absent"@,
{
    reveal_strlit("eq");
    reveal_strlit("ne");
    reveal_strlit("contains");
    reveal_strlit("notContains");
    reveal_strlit("in");
    reveal_strlit("notIn");
    reveal_strlit("present");
    reveal_strlit("absent");
    assert("contains"@.len() == 8 && "notContains"@.len() == 11 && "notIn"@.len() == 5);
    assert("eq"@.len() == 2 && "ne"@.len() == 2 && "in"@.len() == 2);
    assert("eq"@[0] != "ne"@[0]);
    assert("in"@[0] != "eq"@[0]);
    assert("in"@[0] != "ne"@[0]);
    assert("present"@[0] != "absent"@[0]);
}

/// Operators come in pairs, and the second of a pair is the denial of the
/// first wherever the condition makes sense: with a wanted value for equality,
/// a string wanted of a string or an array for containment, a list for
/// membership. Elsewhere neither holds.
pub proof fn paired_operators(got: JsonV, w: JsonV)
    ensures
        value_matches(got, "ne"@, Some(w)) == !value_matches(got, "eq"@, Some(w)),
        json::str_of(w) is Some && (got is Text || got is Array) ==> value_matches(
            got,
            "notContains"@,
            Some(w),
        ) == !value_matches(got, "contains"@, Some(w)),
        json::str_of(w) is None || !(got is Text || got is Array) ==> !value_matches(
            got,
            "notContains"@,
            Some(w),
        ) && !value_matches(got, "contains"@, Some(w)),
        json::items_of(w) is Some ==> value_matches(got, "notIn"@, Some(w)) == !value_matches(
            got,
            "in"@,
            Some(w),
        ),
        json::items_of(w) is None ==> !value_matches(got, "notIn"@, Some(w)) && !value_matches(
            got,
            "in"@,
            Some(w),
        ),
{
    operators_differ();
}

/// The same pairs on accounts: a missing account meets no condition at all.
pub proof fn paired_account_operators(a: AccountBrief, w: JsonV)
    ensures
        forall|op: Seq<char>| !account_matches(None, op, Some(w)),
        json::str_of(w) is Some ==> account_matches(Some(a), "ne"@, Some(w)) == !account_matches(
            Some(a),
            "eq"@,
            Some(w),
        ) && account_matches(Some(a), "notContains"@, Some(w)) == !account_matches(
            Some(a),
            "contains"@,
            Some(w),
        ),
        json::items_of(w) is Some ==> account_matches(Some(a), "notIn"@, Some(w))
            == !account_matches(Some(a), "in"@, Some(w)),
{
    operators_differ();
}

/// A label that an entry does not have meets only the condition of its
/// absence; presence and absence exclude each other.
pub proof fn missing_label(name: Seq<char>, op: Seq<char>, want: Option<JsonV>, ls: Seq<Labeling>)
    ensures
        label_named(ls, name) is None ==> label_matches(name, op, want, ls) == (op == "absent"@),
        label_matches(name, "present"@, want, ls) == !label_matches(name, "absent"@, want, ls),
{
    operators_differ();
}

/// A date stands for its midnight in UTC: with the clock time `00:00:00Z` it
/// is the same point in time.
pub proof fn date_is_midnight(date: Seq<char>)
    requires
        date_days(date) is Some,
        text::trimmed(date) == date,
        date_end(date) == date.len(),
    ensures
        ts_of(date + "T00:00:00Z"@) == ts_of(date),
        ts_of(date) is Some,
{
    let clock = "T00:00:00Z"@;
    reveal_strlit("T00:00:00Z");
    let s = date + clock;
    assert(date.take(date.len() as int) =~= date);
    clock_zero();
    // Nothing is trimmed: the first character is that of the date, or `T`.
    assert(text::trim_start(s) == s) by {
        if date.len() > 0 {
            text::trim_start_bare(date);
            text::trim_end_bare(text::trim_start(date));
            assert(text::trim_start(date).len() <= date.len());
            assert(text::trim_start(date) =~= date.skip(
                date.len() - text::trim_start(date).len(),
            ));
            assert(s[0] == date[0]);
        }
    }
    assert(text::trimmed(s) == s) by {
        assert(s.last() == 'Z');
    }
    assert(date_end(s) == date.len()) by {
        date_end_props(date);
        assert forall|k: int| 0 <= k < date.len() implies #[trigger] s[k] != 'T' && s[k] != ' ' by {
            assert(s[k] == date[k]);
        }
        assert(s[date.len() as int] == clock[0]);
        date_end_is(s, date.len() as int);
    }
    assert(s.take(date.len() as int) =~= date);
    assert(s.skip((date.len() + 1) as int) =~= clock.skip(1));
}

/// Before [`date_end`] there is neither a `T` nor a space.
proof fn date_end_props(s: Seq<char>)
    ensures
        0 <= date_end(s) <= s.len(),
        forall|k: int| 0 <= k < date_end(s) ==> #[trigger] s[k] != 'T' && s[k] != ' ',
    decreases s.len(),
{
    if s.len() > 0 && s[0] != 'T' && s[0] != ' ' {
        let t = s.skip(1);
        date_end_props(t);
        assert forall|k: int| 0 <= k < date_end(s) implies #[trigger] s[k] != 'T' && s[k]
            != ' ' by {
            if k > 0 {
                assert(s[k] == t[k - 1]);
            }
        }
    }
}

/// Two zeros spell zero.
proof fn two_zeros(s: Seq<char>)
    requires
        s == seq!['0', '0'],
    ensures
        decimal::int_of(s) == Some(0int),
{
    assert(s.drop_last() =~= seq!['0']);
    assert(seq!['0'].drop_last() =~= seq![]);
    reveal_with_fuel(decimal::value, 3);
    assert(decimal::all_digits(s));
}

/// Midnight is no seconds after midnight.
proof fn clock_zero()
    ensures
        clock_seconds("T00:00:00Z"@.skip(1)) == Some(0int),
{
    reveal_strlit("T00:00:00Z");
    let c = "T00:00:00Z"@.skip(1);
    reveal_with_fuel(text::boundary, 10);
    reveal_with_fuel(text::byte_len, 11);
    assert(c.len() == 9);
    assert(text::boundary(c, 0) == Some(0int));
    assert(text::boundary(c, 2) == Some(2int));
    assert(text::boundary(c, 3) == Some(3int));
    assert(text::boundary(c, 5) == Some(5int));
    assert(text::boundary(c, 6) == Some(6int));
    assert(text::boundary(c, 8) == Some(8int));
    text::boundary_props(c, 0);
    assert(c.subrange(0, 2) =~= seq!['0', '0']);
    assert(c.subrange(3, 5) =~= seq!['0', '0']);
    assert(c.subrange(6, 8) =~= seq!['0', '0']);
    two_zeros(c.subrange(0, 2));
    two_zeros(c.subrange(3, 5));
    two_zeros(c.subrange(6, 8));
    let tail = c.skip(8);
    assert(tail.len() == 1 && tail[0] == 'Z');
    assert(zone_start(tail) == 0);
}

/// A query names each label once, and exactly those that some condition is on.
pub proof fn labels_are_named_once(q: JsonV)
    ensures
        named_labels(q).no_duplicates(),
        forall|name: Seq<char>| #[trigger]
            named_labels(q).contains(name) <==> cond_labels(q).contains(name),
{
    selection::ticking_visible_ticks_all(seq![], cond_labels(q));
    selection::joined_once(seq![], cond_labels(q));
}

} // verus!
