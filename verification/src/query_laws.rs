//! What queries and colour rules mean, stated on entries, labels and rules
//! themselves.

use vstd::prelude::*;

use crate::decimal;
use crate::golayout;
use crate::graphql_client::{AccountBrief, Entry, Labeling};
use crate::json;
use crate::json::JsonV;
use crate::number;
use crate::query_eval;
use crate::text;

verus! {

/// Whether a query asks one thing: a condition on a field with an operator and
/// a wanted value, and no `and`, `or` or `not` beside it.
pub open spec fn asks(q: JsonV, field: JsonV, op: Seq<char>, want: Option<JsonV>) -> bool {
    &&& json::member(q, "and"@) is None
    &&& json::member(q, "or"@) is None
    &&& json::member(q, "not"@) is None
    &&& json::member(q, "cond"@) matches Some(c)
    &&& json::member(c, "field"@) == Some(field)
    &&& json::member(c, "op"@) == Some(JsonV::Text(op))
    &&& json::member(c, "value"@) == want
}

/// Whether a text stands in another, the case of letters left aside.
pub open spec fn stands_in(word: Seq<char>, s: Seq<char>) -> bool {
    exists|i: int|
        0 <= i <= text::lowercase(s).len() - text::lowercase(word).len()
            && #[trigger] text::lowercase(s).subrange(i, i + text::lowercase(word).len())
            == text::lowercase(word)
}

/// Whether a label is the first of its name.
pub open spec fn first_named(ls: Seq<Labeling>, i: int, name: Seq<char>) -> bool {
    &&& 0 <= i < ls.len()
    &&& ls[i].label_name@ == name
    &&& forall|j: int| 0 <= j < i ==> (#[trigger] ls[j]).label_name@ != name
}

/// Whether no label has a name.
pub open spec fn none_named(ls: Seq<Labeling>, name: Seq<char>) -> bool {
    forall|j: int| 0 <= j < ls.len() ==> (#[trigger] ls[j]).label_name@ != name
}

/// Whether a value is an integer of at most 53 bits, as an integer or a double.
pub open spec fn is_int(j: JsonV, n: int) -> bool {
    &&& j matches JsonV::Number(x) && number::is_whole(x, n)
    &&& -0x20_0000_0000_0000 < n < 0x20_0000_0000_0000
}

/// Whether an operator is one that compares a value with a wanted one.
pub open spec fn comparing(op: Seq<char>) -> bool {
    op == "eq"@ || op == "ne"@ || op == "contains"@ || op == "notContains"@ || op == "in"@ || op
        == "notIn"@ || op == "gt"@ || op == "ge"@ || op == "lt"@ || op == "le"@
}

/// The words of conditions differ from one another.
proof fn words_differ()
    ensures
        "eq"@ != "ne"@,
        "eq"@ != "in"@,
        "eq"@ != "gt"@,
        "eq"@ != "ge"@,
        "eq"@ != "lt"@,
        "eq"@ != "le"@,
        "ne"@ != "in"@,
        "ne"@ != "gt"@,
        "ne"@ != "ge"@,
        "ne"@ != "lt"@,
        "ne"@ != "le"@,
        "in"@ != "gt"@,
        "in"@ != "ge"@,
        "in"@ != "lt"@,
        "in"@ != "le"@,
        "gt"@ != "ge"@,
        "gt"@ != "lt"@,
        "gt"@ != "le"@,
        "ge"@ != "lt"@,
        "ge"@ != "le"@,
        "lt"@ != "le"@,
        forall|w: Seq<char>|
            #![trigger w.len()]
            w.len() == 2 ==> w != "contains"@ && w != "notContains"@ && w != "notIn"@ && w
                != "present"@ && w != "absent"@,
        "eq"@.len() == 2,
        "ne"@.len() == 2,
        "in"@.len() == 2,
        "gt"@.len() == 2,
        "ge"@.len() == 2,
        "lt"@.len() == 2,
        "le"@.len() == 2,
        "contains"@ != "notContains"@,
        "contains"@ != "notIn"@,
        "contains"@ != "present"@,
        "contains"@ != "absent"@,
        "notContains"@ != "notIn"@,
        "notContains"@ != "present"@,
        "notContains"@ != "absent"@,
        "notIn"@ != "present"@,
        "notIn"@ != "absent"@,
        "present"@ != "absent"@,
{
    reveal_strlit("eq");
    reveal_strlit("ne");
    reveal_strlit("in");
    reveal_strlit("gt");
    reveal_strlit("ge");
    reveal_strlit("lt");
    reveal_strlit("le");
    reveal_strlit("contains");
    reveal_strlit("notContains");
    reveal_strlit("notIn");
    reveal_strlit("present");
    reveal_strlit("absent");
    assert("eq"@[0] == 'e' && "ne"@[0] == 'n' && "in"@[0] == 'i');
    assert("gt"@[0] == 'g' && "ge"@[0] == 'g' && "lt"@[0] == 'l' && "le"@[0] == 'l');
    assert("gt"@[1] == 't' && "ge"@[1] == 'e' && "lt"@[1] == 't' && "le"@[1] == 'e');
    assert("contains"@.len() == 8 && "notContains"@.len() == 11 && "notIn"@.len() == 5);
    assert("present"@.len() == 7 && "absent"@.len() == 6);
}

/// The fields of conditions differ from one another.
proof fn fields_differ()
    ensures
        "text"@ != "updatedAt"@,
        "text"@ != "createdAt"@,
        "text"@ != "code"@,
        "text"@ != "title"@,
        "text"@ != "detail"@,
        "text"@ != "createdBy"@,
        "text"@ != "updatedBy"@,
        "code"@ != "title"@,
        "code"@ != "detail"@,
        "code"@ != "updatedAt"@,
        "code"@ != "createdAt"@,
        "title"@ != "detail"@,
        "title"@ != "updatedAt"@,
        "title"@ != "createdAt"@,
        "detail"@ != "updatedAt"@,
        "detail"@ != "createdAt"@,
        "createdBy"@ != "updatedBy"@,
        "createdBy"@ != "updatedAt"@,
        "createdBy"@ != "createdAt"@,
        "createdBy"@ != "code"@,
        "createdBy"@ != "title"@,
        "createdBy"@ != "detail"@,
        "updatedBy"@ != "updatedAt"@,
        "updatedBy"@ != "createdAt"@,
        "updatedBy"@ != "code"@,
        "updatedBy"@ != "title"@,
        "updatedBy"@ != "detail"@,
        "createdAt"@ != "updatedAt"@,
{
    reveal_strlit("text");
    reveal_strlit("code");
    reveal_strlit("title");
    reveal_strlit("detail");
    reveal_strlit("createdAt");
    reveal_strlit("updatedAt");
    reveal_strlit("createdBy");
    reveal_strlit("updatedBy");
    assert("text"@.len() == 4 && "code"@.len() == 4 && "title"@.len() == 5 && "detail"@.len() == 6);
    assert("createdAt"@.len() == 9 && "updatedAt"@.len() == 9 && "createdBy"@.len() == 9
        && "updatedBy"@.len() == 9);
    assert("text"@[0] == 't' && "code"@[0] == 'c');
    assert("createdAt"@[0] == 'c' && "createdBy"@[0] == 'c' && "updatedAt"@[0] == 'u'
        && "updatedBy"@[0] == 'u');
    assert("createdAt"@[7] == 'A' && "createdBy"@[7] == 'B' && "updatedAt"@[7] == 'A'
        && "updatedBy"@[7] == 'B');
}

/// A text stands in another where the search finds it.
proof fn found_iff(word: Seq<char>, s: Seq<char>)
    ensures
        text::occurs(text::lowercase(s), text::lowercase(word)) == stands_in(word, s),
{
    let (w, t) = (text::lowercase(word), text::lowercase(s));
    if text::occurs(t, w) {
        let i = choose|i: int| #[trigger] text::has_at(t, i, w);
        assert(t.subrange(i, i + w.len()) == w);
    }
    if stands_in(word, s) {
        let i = choose|i: int|
            0 <= i <= t.len() - w.len() && #[trigger] t.subrange(i, i + w.len()) == w;
        assert(text::has_at(t, i, w));
    }
}

// ---------------------------------------------------------------------------
// Full text
// ---------------------------------------------------------------------------

/// Whether a query looks for a word in an entry.
pub open spec fn looks_for(q: JsonV, word: Seq<char>) -> bool {
    asks(q, JsonV::Text("text"@), "contains"@, Some(JsonV::Text(word)))
}

/// A word that stands in the title is found.
pub proof fn title_is_searched(q: JsonV, e: Entry, ls: Seq<Labeling>, word: Seq<char>)
    requires
        looks_for(q, word),
        stands_in(word, e.title@),
    ensures
        query_eval::query_holds(q, e, ls),
{
    fields_differ();
    found_iff(word, e.title@);
}

/// A word that stands in the code is found.
pub proof fn code_is_searched(q: JsonV, e: Entry, ls: Seq<Labeling>, word: Seq<char>)
    requires
        looks_for(q, word),
        stands_in(word, e.code@),
    ensures
        query_eval::query_holds(q, e, ls),
{
    fields_differ();
    found_iff(word, e.code@);
}

/// A word that stands in the detail is found.
pub proof fn detail_is_searched(q: JsonV, e: Entry, ls: Seq<Labeling>, word: Seq<char>)
    requires
        looks_for(q, word),
        stands_in(word, e.detail@),
    ensures
        query_eval::query_holds(q, e, ls),
{
    fields_differ();
    found_iff(word, e.detail@);
}

/// Whether a label value is written with a text: a string with itself, a number
/// with its digits, a truth value with `true` or `false`.
pub open spec fn written_with(v: JsonV, t: Seq<char>) -> bool {
    match v {
        JsonV::Text(s) => t == s,
        JsonV::Number(number::NumV::PosInt(n)) => t == decimal::numeral(n as int),
        JsonV::Number(number::NumV::NegInt(n)) => t == decimal::numeral(n as int),
        JsonV::Number(number::NumV::Float(_, shortest)) => t == shortest,
        JsonV::Bool(b) => t == if b {
            "true"@
        } else {
            "false"@
        },
        _ => false,
    }
}

/// A word that stands in a string, a number or a truth value of some label is
/// found, whichever label it is.
pub proof fn labels_are_searched(
    q: JsonV,
    e: Entry,
    ls: Seq<Labeling>,
    word: Seq<char>,
    i: int,
    t: Seq<char>,
)
    requires
        looks_for(q, word),
        0 <= i < ls.len(),
        written_with(ls[i].value@, t),
        stands_in(word, t),
    ensures
        query_eval::query_holds(q, e, ls),
{
    fields_differ();
    found_iff(word, t);
    assert(query_eval::label_has(ls[i].value@, text::lowercase(word)));
}

/// A word that is found stands in the code, the title, the detail, or in a
/// string, a number or a truth value of a label.
pub proof fn nothing_else_is_searched(q: JsonV, e: Entry, ls: Seq<Labeling>, word: Seq<char>)
    requires
        looks_for(q, word),
        query_eval::query_holds(q, e, ls),
    ensures
        stands_in(word, e.code@) || stands_in(word, e.title@) || stands_in(word, e.detail@) || (
        exists|i: int, t: Seq<char>|
            0 <= i < ls.len() && #[trigger] written_with(ls[i].value@, t) && stands_in(word, t)),
{
    fields_differ();
    found_iff(word, e.code@);
    found_iff(word, e.title@);
    found_iff(word, e.detail@);
    if !stands_in(word, e.code@) && !stands_in(word, e.title@) && !stands_in(word, e.detail@) {
        let n = text::lowercase(word);
        let i = choose|i: int|
            0 <= i < ls.len() && query_eval::label_has((#[trigger] ls[i]).value@, n);
        let t = query_eval::searched_text(ls[i].value@)->0;
        found_iff(word, t);
        assert(written_with(ls[i].value@, t));
    }
}

/// A search that asks for absence holds exactly where the search for the word
/// does not; a search without a word, and one with another operator, never
/// holds.
pub proof fn searches_are_denied(
    q: JsonV,
    denial: JsonV,
    other: JsonV,
    e: Entry,
    ls: Seq<Labeling>,
    word: Seq<char>,
    op: Seq<char>,
    want: Option<JsonV>,
)
    requires
        looks_for(q, word),
        asks(denial, JsonV::Text("text"@), "notContains"@, Some(JsonV::Text(word))),
        asks(other, JsonV::Text("text"@), op, want),
    ensures
        query_eval::query_holds(denial, e, ls) == !query_eval::query_holds(q, e, ls),
        !(want matches Some(JsonV::Text(_))) ==> !query_eval::query_holds(other, e, ls),
        op != "contains"@ && op != "notContains"@ ==> !query_eval::query_holds(other, e, ls),
{
    fields_differ();
    words_differ();
}

// ---------------------------------------------------------------------------
// Labels
// ---------------------------------------------------------------------------

/// The field of a condition on a label.
pub open spec fn on_label(field: JsonV, name: Seq<char>) -> bool {
    json::member(field, "label"@) == Some(JsonV::Text(name))
}

/// The first label of a name is the one that counts.
pub proof fn label_found(ls: Seq<Labeling>, i: int, name: Seq<char>)
    requires
        first_named(ls, i, name),
    ensures
        query_eval::label_named(ls, name) == Some(ls[i].value@),
    decreases i,
{
    if i > 0 {
        let t = ls.skip(1);
        assert(ls[0].label_name@ != name);
        assert(t[i - 1] == ls[i]);
        assert forall|j: int| 0 <= j < i - 1 implies (#[trigger] t[j]).label_name@ != name by {
            assert(t[j] == ls[j + 1]);
        }
        label_found(t, i - 1, name);
    }
}

/// A label that is not there is not found.
pub proof fn label_missing(ls: Seq<Labeling>, name: Seq<char>)
    requires
        none_named(ls, name),
    ensures
        query_eval::label_named(ls, name) is None,
    decreases ls.len(),
{
    if ls.len() > 0 {
        let t = ls.skip(1);
        assert(ls[0].label_name@ != name);
        assert forall|j: int| 0 <= j < t.len() implies (#[trigger] t[j]).label_name@ != name by {
            assert(t[j] == ls[j + 1]);
        }
        label_missing(t, name);
    }
}

/// A label is present where one has its name, and else absent; a label that is
/// not there meets no other condition, and none is met without a wanted value
/// or by an operator that is not known.
pub proof fn labels_are_there_or_not(
    q: JsonV,
    e: Entry,
    ls: Seq<Labeling>,
    field: JsonV,
    name: Seq<char>,
    op: Seq<char>,
    want: Option<JsonV>,
)
    requires
        asks(q, field, op, want),
        on_label(field, name),
    ensures
        op == "present"@ ==> query_eval::query_holds(q, e, ls) == exists|i: int|
            0 <= i < ls.len() && (#[trigger] ls[i]).label_name@ == name,
        op == "absent"@ ==> query_eval::query_holds(q, e, ls) == none_named(ls, name),
        op != "absent"@ && none_named(ls, name) ==> !query_eval::query_holds(q, e, ls),
        op != "present"@ && op != "absent"@ && want is None ==> !query_eval::query_holds(q, e, ls),
        op != "present"@ && op != "absent"@ && !comparing(op) ==> !query_eval::query_holds(
            q,
            e,
            ls,
        ),
{
    words_differ();
    if none_named(ls, name) {
        label_missing(ls, name);
    } else {
        let i = first_index(ls, name, ls.len() as int);
        label_found(ls, i, name);
    }
}

/// The first label of a name that is there.
proof fn first_index(ls: Seq<Labeling>, name: Seq<char>, n: int) -> (i: int)
    requires
        0 <= n <= ls.len(),
        exists|j: int| 0 <= j < n && (#[trigger] ls[j]).label_name@ == name,
    ensures
        first_named(ls, i, name),
    decreases n,
{
    if exists|j: int| 0 <= j < n - 1 && (#[trigger] ls[j]).label_name@ == name {
        first_index(ls, name, n - 1)
    } else {
        let k = choose|j: int| 0 <= j < n && (#[trigger] ls[j]).label_name@ == name;
        assert(k == n - 1);
        k
    }
}

/// A label with an integer is compared with an integer as integers are,
/// whichever of the two is written as a double.
pub proof fn integers_are_compared(
    q: JsonV,
    e: Entry,
    ls: Seq<Labeling>,
    field: JsonV,
    name: Seq<char>,
    i: int,
    op: Seq<char>,
    want: JsonV,
    a: int,
    b: int,
)
    requires
        asks(q, field, op, Some(want)),
        on_label(field, name),
        first_named(ls, i, name),
        is_int(ls[i].value@, a),
        is_int(want, b),
    ensures
        op == "eq"@ ==> query_eval::query_holds(q, e, ls) == (a == b),
        op == "ne"@ ==> query_eval::query_holds(q, e, ls) == (a != b),
        op == "gt"@ ==> query_eval::query_holds(q, e, ls) == (a > b),
        op == "ge"@ ==> query_eval::query_holds(q, e, ls) == (a >= b),
        op == "lt"@ ==> query_eval::query_holds(q, e, ls) == (a < b),
        op == "le"@ ==> query_eval::query_holds(q, e, ls) == (a <= b),
        op == "contains"@ || op == "notContains"@ ==> !query_eval::query_holds(q, e, ls),
        op == "in"@ || op == "notIn"@ ==> !query_eval::query_holds(q, e, ls),
{
    words_differ();
    label_found(ls, i, name);
    number::whole_numbers_in_order(ls[i].value@->Number_0, a, want->Number_0, b);
    number::whole_numbers_in_order(want->Number_0, b, ls[i].value@->Number_0, a);
}

/// Larger integers are still compared in their order: where one is greater, it
/// is never found smaller.
pub proof fn large_integers_keep_their_order(
    q: JsonV,
    e: Entry,
    ls: Seq<Labeling>,
    field: JsonV,
    name: Seq<char>,
    i: int,
    op: Seq<char>,
    a: i64,
    b: i64,
)
    requires
        asks(q, field, op, Some(JsonV::Number(number::int_number(b)))),
        on_label(field, name),
        first_named(ls, i, name),
        ls[i].value@ == JsonV::Number(number::int_number(a)),
    ensures
        op == "ge"@ && a >= b ==> query_eval::query_holds(q, e, ls),
        op == "le"@ && a <= b ==> query_eval::query_holds(q, e, ls),
        op == "gt"@ && a <= b ==> !query_eval::query_holds(q, e, ls),
        op == "lt"@ && a >= b ==> !query_eval::query_holds(q, e, ls),
        op == "eq"@ && a == b ==> query_eval::query_holds(q, e, ls),
{
    words_differ();
    label_found(ls, i, name);
    if a <= b {
        number::int_order(a as int, b as int);
    }
    if b <= a {
        number::int_order(b as int, a as int);
    }
}

/// A label with an integer is one of a list of integers where one of these is
/// equal to it.
pub proof fn integers_are_among(
    q: JsonV,
    denial: JsonV,
    e: Entry,
    ls: Seq<Labeling>,
    field: JsonV,
    name: Seq<char>,
    i: int,
    a: int,
    list: Seq<JsonV>,
    ns: Seq<int>,
)
    requires
        asks(q, field, "in"@, Some(JsonV::Array(list))),
        asks(denial, field, "notIn"@, Some(JsonV::Array(list))),
        on_label(field, name),
        first_named(ls, i, name),
        is_int(ls[i].value@, a),
        ns.len() == list.len(),
        forall|k: int| 0 <= k < list.len() ==> is_int(#[trigger] list[k], ns[k]),
    ensures
        query_eval::query_holds(q, e, ls) == ns.contains(a),
        query_eval::query_holds(denial, e, ls) == !ns.contains(a),
{
    words_differ();
    label_found(ls, i, name);
    let got = ls[i].value@;
    assert forall|k: int| 0 <= k < list.len() implies query_eval::candidate_hit(
        got,
        #[trigger] list[k],
    ) == (ns[k] == a) by {
        assert(is_int(list[k], ns[k]));
        number::whole_numbers_in_order(got->Number_0, a, list[k]->Number_0, ns[k]);
    }
    if ns.contains(a) {
        let k = choose|k: int| 0 <= k < ns.len() && ns[k] == a;
        assert(query_eval::candidate_hit(got, list[k]));
    }
}

/// A label with a string is compared with a string character by character, and
/// searched for it with the case of letters left aside.
pub proof fn strings_are_compared(
    q: JsonV,
    e: Entry,
    ls: Seq<Labeling>,
    field: JsonV,
    name: Seq<char>,
    i: int,
    op: Seq<char>,
    s: Seq<char>,
    w: Seq<char>,
)
    requires
        asks(q, field, op, Some(JsonV::Text(w))),
        on_label(field, name),
        first_named(ls, i, name),
        ls[i].value@ == JsonV::Text(s),
    ensures
        op == "eq"@ ==> query_eval::query_holds(q, e, ls) == (s == w),
        op == "ne"@ ==> query_eval::query_holds(q, e, ls) == (s != w),
        op == "contains"@ ==> query_eval::query_holds(q, e, ls) == stands_in(w, s),
        op == "notContains"@ ==> query_eval::query_holds(q, e, ls) == !stands_in(w, s),
        op == "in"@ || op == "notIn"@ ==> !query_eval::query_holds(q, e, ls),
        query_eval::ts_of(s) is None || query_eval::ts_of(w) is None ==> (op == "gt"@ || op
            == "ge"@ || op == "lt"@ || op == "le"@ ==> !query_eval::query_holds(q, e, ls)),
        query_eval::ts_of(s) matches Some(a) ==> query_eval::ts_of(w) matches Some(b) ==> {
            &&& op == "gt"@ ==> query_eval::query_holds(q, e, ls) == (a > b)
            &&& op == "ge"@ ==> query_eval::query_holds(q, e, ls) == (a >= b)
            &&& op == "lt"@ ==> query_eval::query_holds(q, e, ls) == (a < b)
            &&& op == "le"@ ==> query_eval::query_holds(q, e, ls) == (a <= b)
        },
{
    words_differ();
    label_found(ls, i, name);
    found_iff(w, s);
}

/// A label with a string is one of a list of strings where it is among them.
pub proof fn strings_are_among(
    q: JsonV,
    denial: JsonV,
    e: Entry,
    ls: Seq<Labeling>,
    field: JsonV,
    name: Seq<char>,
    i: int,
    s: Seq<char>,
    list: Seq<Seq<char>>,
    want: Seq<JsonV>,
)
    requires
        asks(q, field, "in"@, Some(JsonV::Array(want))),
        asks(denial, field, "notIn"@, Some(JsonV::Array(want))),
        on_label(field, name),
        first_named(ls, i, name),
        ls[i].value@ == JsonV::Text(s),
        want.len() == list.len(),
        forall|k: int| 0 <= k < list.len() ==> #[trigger] want[k] == JsonV::Text(list[k]),
    ensures
        query_eval::query_holds(q, e, ls) == list.contains(s),
        query_eval::query_holds(denial, e, ls) == !list.contains(s),
{
    words_differ();
    label_found(ls, i, name);
    let got = ls[i].value@;
    assert forall|k: int| 0 <= k < want.len() implies query_eval::candidate_hit(
        got,
        #[trigger] want[k],
    ) == (list[k] == s) by {
        assert(want[k] == JsonV::Text(list[k]));
    }
    if list.contains(s) {
        let k = choose|k: int| 0 <= k < list.len() && list[k] == s;
        assert(query_eval::candidate_hit(got, want[k]));
    }
}

/// A label with several strings equals a string where one of them does, contains
/// it where one of them does, and is one of a list where one of them is.
pub proof fn several_strings_are_compared(
    q: JsonV,
    e: Entry,
    ls: Seq<Labeling>,
    field: JsonV,
    name: Seq<char>,
    i: int,
    op: Seq<char>,
    items: Seq<JsonV>,
    ss: Seq<Seq<char>>,
    w: Seq<char>,
)
    requires
        asks(q, field, op, Some(JsonV::Text(w))),
        on_label(field, name),
        first_named(ls, i, name),
        ls[i].value@ == JsonV::Array(items),
        items.len() == ss.len(),
        forall|k: int| 0 <= k < ss.len() ==> #[trigger] items[k] == JsonV::Text(ss[k]),
    ensures
        op == "eq"@ ==> query_eval::query_holds(q, e, ls) == ss.contains(w),
        op == "ne"@ ==> query_eval::query_holds(q, e, ls) == !ss.contains(w),
        op == "contains"@ ==> query_eval::query_holds(q, e, ls) == exists|k: int|
            0 <= k < ss.len() && stands_in(w, #[trigger] ss[k]),
        op == "notContains"@ ==> query_eval::query_holds(q, e, ls) == !exists|k: int|
            0 <= k < ss.len() && stands_in(w, #[trigger] ss[k]),
{
    words_differ();
    label_found(ls, i, name);
    let got = ls[i].value@;
    let n = text::lowercase(w);
    assert forall|k: int| 0 <= k < items.len() implies (query_eval::scalar_text(
        #[trigger] items[k],
    ) == Some(w)) == (ss[k] == w) && query_eval::scalar_has(items[k], n) == stands_in(w, ss[k]) by {
        assert(items[k] == JsonV::Text(ss[k]));
        found_iff(w, ss[k]);
    }
    if ss.contains(w) {
        let k = choose|k: int| 0 <= k < ss.len() && ss[k] == w;
        assert(query_eval::scalar_text(items[k]) == Some(w));
    }
    if exists|k: int| 0 <= k < ss.len() && stands_in(w, #[trigger] ss[k]) {
        let k = choose|k: int| 0 <= k < ss.len() && stands_in(w, #[trigger] ss[k]);
        assert(query_eval::scalar_has(items[k], n));
    }
    if query_eval::elem_has(got, n) {
        let k = choose|k: int| 0 <= k < items.len() && query_eval::scalar_has(#[trigger] items[k], n);
        assert(stands_in(w, ss[k]));
    }
}

/// A label with several strings is one of a list where they have a string in
/// common.
pub proof fn several_strings_are_among(
    q: JsonV,
    denial: JsonV,
    e: Entry,
    ls: Seq<Labeling>,
    field: JsonV,
    name: Seq<char>,
    i: int,
    items: Seq<JsonV>,
    ss: Seq<Seq<char>>,
    list: Seq<Seq<char>>,
    want: Seq<JsonV>,
)
    requires
        asks(q, field, "in"@, Some(JsonV::Array(want))),
        asks(denial, field, "notIn"@, Some(JsonV::Array(want))),
        on_label(field, name),
        first_named(ls, i, name),
        ls[i].value@ == JsonV::Array(items),
        items.len() == ss.len(),
        forall|k: int| 0 <= k < ss.len() ==> #[trigger] items[k] == JsonV::Text(ss[k]),
        want.len() == list.len(),
        forall|k: int| 0 <= k < list.len() ==> #[trigger] want[k] == JsonV::Text(list[k]),
    ensures
        query_eval::query_holds(q, e, ls) == exists|k: int|
            0 <= k < ss.len() && list.contains(#[trigger] ss[k]),
        query_eval::query_holds(denial, e, ls) == !query_eval::query_holds(q, e, ls),
{
    words_differ();
    label_found(ls, i, name);
    let got = ls[i].value@;
    assert forall|k: int| 0 <= k < want.len() implies query_eval::candidate_hit(
        got,
        #[trigger] want[k],
    ) == ss.contains(list[k]) by {
        assert(want[k] == JsonV::Text(list[k]));
        if ss.contains(list[k]) {
            let m = choose|m: int| 0 <= m < ss.len() && ss[m] == list[k];
            assert(query_eval::scalar_text(items[m]) == Some(list[k]));
        }
        if query_eval::elem_is(got, list[k]) {
            let m = choose|m: int|
                0 <= m < items.len() && query_eval::scalar_text(#[trigger] items[m]) == Some(
                    list[k],
                );
            assert(ss[m] == list[k]);
        }
    }
    if exists|k: int| 0 <= k < ss.len() && list.contains(#[trigger] ss[k]) {
        let k = choose|k: int| 0 <= k < ss.len() && list.contains(#[trigger] ss[k]);
        let m = choose|m: int| 0 <= m < list.len() && list[m] == ss[k];
        assert(ss.contains(list[m]));
        assert(query_eval::candidate_hit(got, want[m]));
    }
    if query_eval::any_candidate(got, want) {
        let m = choose|m: int|
            0 <= m < want.len() && query_eval::candidate_hit(got, #[trigger] want[m]);
        let k = choose|k: int| 0 <= k < ss.len() && ss[k] == list[m];
        assert(list.contains(ss[k]));
    }
}

/// A label with a truth value equals a truth value where both are the same, and
/// a string where this is the word for it; it contains nothing.
pub proof fn truth_values_are_compared(
    q: JsonV,
    e: Entry,
    ls: Seq<Labeling>,
    field: JsonV,
    name: Seq<char>,
    i: int,
    op: Seq<char>,
    b: bool,
    want: JsonV,
)
    requires
        asks(q, field, op, Some(want)),
        on_label(field, name),
        first_named(ls, i, name),
        ls[i].value@ == JsonV::Bool(b),
    ensures
        want matches JsonV::Bool(c) ==> {
            &&& op == "eq"@ ==> query_eval::query_holds(q, e, ls) == (b == c)
            &&& op == "ne"@ ==> query_eval::query_holds(q, e, ls) == (b != c)
        },
        want matches JsonV::Text(w) ==> {
            &&& op == "eq"@ ==> query_eval::query_holds(q, e, ls) == (w == if b {
                "true"@
            } else {
                "false"@
            })
            &&& op == "contains"@ || op == "notContains"@ ==> !query_eval::query_holds(q, e, ls)
        },
        op == "gt"@ || op == "ge"@ || op == "lt"@ || op == "le"@ ==> !query_eval::query_holds(
            q,
            e,
            ls,
        ),
{
    words_differ();
    label_found(ls, i, name);
    reveal_strlit("true");
    reveal_strlit("false");
    assert("true"@.len() == 4 && "false"@.len() == 5);
}

/// A label with an integer equals a string where this is its numeral.
pub proof fn numerals_are_compared(
    q: JsonV,
    e: Entry,
    ls: Seq<Labeling>,
    field: JsonV,
    name: Seq<char>,
    i: int,
    op: Seq<char>,
    n: i64,
    w: Seq<char>,
)
    requires
        asks(q, field, op, Some(JsonV::Text(w))),
        on_label(field, name),
        first_named(ls, i, name),
        ls[i].value@ == JsonV::Number(number::int_number(n)),
    ensures
        op == "eq"@ ==> query_eval::query_holds(q, e, ls) == (w == decimal::numeral(n as int)),
        op == "ne"@ ==> query_eval::query_holds(q, e, ls) == (w != decimal::numeral(n as int)),
        op == "contains"@ || op == "notContains"@ ==> !query_eval::query_holds(q, e, ls),
{
    words_differ();
    label_found(ls, i, name);
}

/// Labels behind the first of a name, and labels of other names, do not count.
pub proof fn other_labels_do_not_count(
    q: JsonV,
    e: Entry,
    f: Entry,
    ls: Seq<Labeling>,
    ks: Seq<Labeling>,
    field: JsonV,
    name: Seq<char>,
    op: Seq<char>,
    want: Option<JsonV>,
    i: int,
    j: int,
)
    requires
        asks(q, field, op, want),
        on_label(field, name),
        first_named(ls, i, name),
        first_named(ks, j, name),
        ls[i].value@ == ks[j].value@,
    ensures
        query_eval::query_holds(q, e, ls) == query_eval::query_holds(q, f, ks),
{
    label_found(ls, i, name);
    label_found(ks, j, name);
}

// ---------------------------------------------------------------------------
// Points in time
// ---------------------------------------------------------------------------

/// Whether a text is a number in digits.
pub open spec fn is_number(s: Seq<char>, n: int) -> bool {
    s.len() > 0 && decimal::all_digits(s) && decimal::value(s) == n && n <= i64::MAX
}

/// A date written with dashes.
pub open spec fn dashed(y: Seq<char>, m: Seq<char>, d: Seq<char>) -> Seq<char> {
    y + seq!['-'] + (m + seq!['-'] + d)
}

/// A clock time written with colons.
pub open spec fn coloned(h: Seq<char>, m: Seq<char>, s: Seq<char>) -> Seq<char> {
    h + seq![':'] + m + seq![':'] + s
}

proof fn number_is_read(s: Seq<char>, n: int)
    requires
        is_number(s, n),
    ensures
        decimal::int_of(s) == Some(n),
        n >= 0,
{
    assert(text::is_digit(s[0]));
    golayout::value_bound(s);
}

/// The days of a date that is written with dashes.
proof fn dashed_is_read(y: Seq<char>, m: Seq<char>, d: Seq<char>, yn: int, mn: int, dn: int)
    requires
        is_number(y, yn),
        is_number(m, mn),
        is_number(d, dn),
    ensures
        query_eval::date_days(dashed(y, m, d)) == (if 1 <= mn <= 12 && 1 <= dn <= 31 {
            Some(golayout::civil_days(yn, mn, dn))
        } else {
            None
        }),
{
    number_is_read(y, yn);
    number_is_read(m, mn);
    number_is_read(d, dn);
    let md = m + seq!['-'] + d;
    no_dash(y);
    no_dash(m);
    no_dash(d);
    text::pieces_between_separators(y, '-', md);
    text::pieces_between_separators(m, '-', d);
    text::pieces_between_separators(d, '-', d);
    assert(text::split_at_char(dashed(y, m, d), '-') =~= seq![y, m, d]);
}

proof fn no_dash(s: Seq<char>)
    requires
        decimal::all_digits(s),
    ensures
        !s.contains('-'),
{
    if s.contains('-') {
        let i = choose|i: int| 0 <= i < s.len() && s[i] == '-';
        assert(text::is_digit(s[i]));
    }
}

/// A date alone stands for its midnight; one whose month or day is out of range
/// is none.
pub proof fn dates_are_midnights(
    y: Seq<char>,
    m: Seq<char>,
    d: Seq<char>,
    yn: int,
    mn: int,
    dn: int,
)
    requires
        is_number(y, yn),
        is_number(m, mn),
        is_number(d, dn),
    ensures
        query_eval::ts_of(dashed(y, m, d)) == (if 1 <= mn <= 12 && 1 <= dn <= 31 {
            Some(86_400 * golayout::civil_days(yn, mn, dn))
        } else {
            None
        }),
{
    dashed_is_read(y, m, d, yn, mn, dn);
    dashed_chars(y, m, d);
    date_alone(dashed(y, m, d));
}

/// A text without a blank or a `T` is a date alone.
proof fn date_alone(s: Seq<char>)
    requires
        s.len() > 0,
        forall|i: int| 0 <= i < s.len() ==> text::is_digit(#[trigger] s[i]) || s[i] == '-',
    ensures
        query_eval::ts_of(s) == (match query_eval::date_days(s) {
            Some(days) => Some(days * 86_400),
            None => None,
        }),
{
    let e = Seq::<char>::empty();
    assert(text::is_digit(s[0]) || s[0] == '-');
    assert(text::is_digit(s[s.len() - 1]) || s[s.len() - 1] == '-');
    text::trimmed_is_the_middle(e, s, e);
    assert(e + s + e =~= s);
    assert forall|k: int| 0 <= k < s.len() implies #[trigger] s[k] != 'T' && s[k] != ' ' by {
        assert(text::is_digit(s[k]) || s[k] == '-');
    }
    query_eval::date_end_is(s, s.len() as int);
    assert(s.take(s.len() as int) =~= s);
}

/// The characters of a date are digits and dashes.
proof fn dashed_chars(y: Seq<char>, m: Seq<char>, d: Seq<char>)
    requires
        decimal::all_digits(y),
        decimal::all_digits(m),
        decimal::all_digits(d),
        y.len() > 0,
        m.len() > 0,
        d.len() > 0,
    ensures
        dashed(y, m, d).len() == y.len() + m.len() + d.len() + 2,
        forall|i: int|
            0 <= i < dashed(y, m, d).len() ==> text::is_digit(#[trigger] dashed(y, m, d)[i])
                || dashed(y, m, d)[i] == '-',
        text::is_digit(dashed(y, m, d)[0]),
        text::is_digit(dashed(y, m, d).last()),
{
    let s = dashed(y, m, d);
    let (a, b) = (y.len() as int, m.len() as int);
    assert forall|i: int| 0 <= i < s.len() implies text::is_digit(#[trigger] s[i]) || s[i] == '-' by {
        if i < a {
            assert(s[i] == y[i]);
        } else if a < i < a + 1 + b {
            assert(s[i] == m[i - a - 1]);
        } else if i > a + 1 + b {
            assert(s[i] == d[i - a - b - 2]);
        }
    }
    assert(s[0] == y[0]);
    assert(s.last() == d[d.len() - 1]);
}

/// Whether a text is a zone: nothing or `Z` for UTC, else the hours and minutes
/// ahead of it or behind it.
pub open spec fn is_zone(z: Seq<char>, offset: int) -> bool {
    ||| z.len() == 0 && offset == 0
    ||| z == seq!['Z'] && offset == 0
    ||| {
        &&& z.len() == 6
        &&& z[0] == '+' || z[0] == '-'
        &&& decimal::all_digits(z.subrange(1, 3))
        &&& z[3] == ':'
        &&& decimal::all_digits(z.subrange(4, 6))
        &&& offset == if z[0] == '+' {
            3_600 * decimal::value(z.subrange(1, 3)) + 60 * decimal::value(z.subrange(4, 6))
        } else {
            -(3_600 * decimal::value(z.subrange(1, 3)) + 60 * decimal::value(z.subrange(4, 6)))
        }
    }
}

/// The seconds by which a zone lies ahead.
proof fn zone_is_read(z: Seq<char>, offset: int)
    requires
        is_zone(z, offset),
    ensures
        query_eval::zone_offset(z) == offset,
        forall|i: int| 0 <= i < z.len() ==> (#[trigger] z[i] as u32) < 0x80,
        z.len() > 0 ==> !text::is_white(z.last()),
{
    if z.len() == 0 {
        query_eval::zone_start_is(z, 0);
    } else if z == seq!['Z'] {
        query_eval::zone_start_is(z, 0);
    } else {
        query_eval::zone_start_is(z, 0);
        let off = z.skip(1);
        let (a, b) = (z.subrange(1, 3), z.subrange(4, 6));
        assert(text::is_digit(a[0]) && text::is_digit(a[1]) && text::is_digit(b[0])
            && text::is_digit(b[1]));
        assert(z[1] == a[0] && z[2] == a[1] && z[4] == b[0] && z[5] == b[1]);
        assert(text::all_ascii(off));
        text::ascii_boundary(off, 0);
        text::ascii_boundary(off, 2);
        text::ascii_boundary(off, 3);
        text::ascii_boundary(off, 5);
        assert(off.subrange(0, 2) =~= a);
        assert(off.subrange(3, 5) =~= b);
        golayout::value_bound(a);
        golayout::value_bound(b);
        number_is_read(a, decimal::value(a));
        number_is_read(b, decimal::value(b));
    }
}

/// A date with a clock time of two digits each, behind a `T` or a space, is the
/// point in time that they make in UTC, the zone counted off; one with a part
/// out of range is none.
pub proof fn clock_times_are_read(
    y: Seq<char>,
    mo: Seq<char>,
    d: Seq<char>,
    sep: char,
    h: Seq<char>,
    mi: Seq<char>,
    s: Seq<char>,
    zone: Seq<char>,
    yn: int,
    mn: int,
    dn: int,
    offset: int,
)
    requires
        is_number(y, yn),
        is_number(mo, mn),
        is_number(d, dn),
        sep == 'T' || sep == ' ',
        h.len() == 2,
        mi.len() == 2,
        s.len() == 2,
        decimal::all_digits(h),
        decimal::all_digits(mi),
        decimal::all_digits(s),
        is_zone(zone, offset),
    ensures
        query_eval::ts_of(dashed(y, mo, d) + seq![sep] + (coloned(h, mi, s) + zone)) == (if 1 <= mn
            <= 12 && 1 <= dn <= 31 && decimal::value(h) <= 23 && decimal::value(mi) <= 59
            && decimal::value(s) <= 60 {
            Some(
                86_400 * golayout::civil_days(yn, mn, dn) + 3_600 * decimal::value(h) + 60
                    * decimal::value(mi) + decimal::value(s) - offset,
            )
        } else {
            None
        }),
{
    let date = dashed(y, mo, d);
    let rest = coloned(h, mi, s) + zone;
    dashed_is_read(y, mo, d, yn, mn, dn);
    dashed_chars(y, mo, d);
    clock_is_read(h, mi, s, zone, offset);
    moments_are_read_in_two(date, sep, rest);
}

/// A point in time is that of its date and its clock time.
proof fn moments_are_read_in_two(date: Seq<char>, sep: char, rest: Seq<char>)
    requires
        sep == 'T' || sep == ' ',
        date.len() > 0,
        rest.len() > 0,
        !text::is_white(rest.last()),
        forall|i: int| 0 <= i < date.len() ==> text::is_digit(#[trigger] date[i]) || date[i] == '-',
    ensures
        query_eval::ts_of(date + seq![sep] + rest) == (match (
            query_eval::date_days(date),
            query_eval::clock_seconds(rest),
        ) {
            (Some(days), Some(secs)) => Some(days * 86_400 + secs),
            _ => None,
        }),
{
    let all = date + seq![sep] + rest;
    let n = date.len() as int;
    assert(all[0] == date[0]);
    assert(all.last() == rest.last());
    text::trimmed_is_the_middle(seq![], all, seq![]);
    assert(seq![] + all + seq![] =~= all);
    assert forall|k: int| 0 <= k < n implies #[trigger] all[k] != 'T' && all[k] != ' ' by {
        assert(all[k] == date[k]);
    }
    assert(all[n] == sep);
    query_eval::date_end_is(all, n);
    assert(all.take(n) =~= date);
    assert(all.skip(n + 1) =~= rest);
}

/// The seconds of a clock time of two digits each, the zone counted off.
proof fn clock_is_read(h: Seq<char>, mi: Seq<char>, s: Seq<char>, zone: Seq<char>, offset: int)
    requires
        h.len() == 2,
        mi.len() == 2,
        s.len() == 2,
        decimal::all_digits(h),
        decimal::all_digits(mi),
        decimal::all_digits(s),
        is_zone(zone, offset),
    ensures
        query_eval::clock_seconds(coloned(h, mi, s) + zone) == (if decimal::value(h) <= 23
            && decimal::value(mi) <= 59 && decimal::value(s) <= 60 {
            Some(
                3_600 * decimal::value(h) + 60 * decimal::value(mi) + decimal::value(s) - offset,
            )
        } else {
            None
        }),
        (coloned(h, mi, s) + zone).len() >= 8,
        !text::is_white((coloned(h, mi, s) + zone).last()),
{
    let rest = coloned(h, mi, s) + zone;
    zone_is_read(zone, offset);
    assert(text::is_digit(h[0]) && text::is_digit(h[1]) && text::is_digit(mi[0]) && text::is_digit(
        mi[1],
    ) && text::is_digit(s[0]) && text::is_digit(s[1]));
    assert(rest.len() == 8 + zone.len());
    assert(rest[0] == h[0] && rest[1] == h[1] && rest[2] == ':' && rest[3] == mi[0] && rest[4]
        == mi[1] && rest[5] == ':' && rest[6] == s[0] && rest[7] == s[1]);
    assert(!text::is_white(rest.last())) by {
        if zone.len() > 0 {
            assert(rest.last() == zone.last());
        } else {
            assert(rest.last() == rest[7]);
        }
    }
    assert(text::all_ascii(rest)) by {
        assert forall|i: int| 0 <= i < rest.len() implies (#[trigger] rest[i] as u32) < 0x80 by {
            if i >= 8 {
                assert(rest[i] == zone[i - 8]);
            }
        }
    }
    text::ascii_boundary(rest, 0);
    text::ascii_boundary(rest, 2);
    text::ascii_boundary(rest, 3);
    text::ascii_boundary(rest, 5);
    text::ascii_boundary(rest, 6);
    text::ascii_boundary(rest, 8);
    text::boundary_props(rest, 8);
    assert(text::capped_boundary(rest, 8) == Some(8int));
    assert(rest.subrange(0, 2) =~= h);
    assert(rest.subrange(3, 5) =~= mi);
    assert(rest.subrange(6, 8) =~= s);
    assert(rest.skip(8) =~= zone);
    golayout::value_bound(h);
    golayout::value_bound(mi);
    golayout::value_bound(s);
    number_is_read(h, decimal::value(h));
    number_is_read(mi, decimal::value(mi));
    number_is_read(s, decimal::value(s));
}

// ---------------------------------------------------------------------------
// Fields of an entry
// ---------------------------------------------------------------------------

/// Conditions on the code, the title and the detail are met as by a string:
/// equal character by character, searched with the case of letters left aside.
pub proof fn own_texts_are_compared(
    q: JsonV,
    e: Entry,
    ls: Seq<Labeling>,
    field: Seq<char>,
    s: Seq<char>,
    op: Seq<char>,
    w: Seq<char>,
)
    requires
        asks(q, JsonV::Text(field), op, Some(JsonV::Text(w))),
        field == "code"@ && s == e.code@ || field == "title"@ && s == e.title@ || field
            == "detail"@ && s == e.detail@,
    ensures
        op == "eq"@ ==> query_eval::query_holds(q, e, ls) == (s == w),
        op == "ne"@ ==> query_eval::query_holds(q, e, ls) == (s != w),
        op == "contains"@ ==> query_eval::query_holds(q, e, ls) == stands_in(w, s),
        op == "notContains"@ ==> query_eval::query_holds(q, e, ls) == !stands_in(w, s),
        !comparing(op) ==> !query_eval::query_holds(q, e, ls),
{
    words_differ();
    fields_differ();
    found_iff(w, s);
}

/// The code, the title and the detail are among strings where one is the same.
pub proof fn own_texts_are_among(
    q: JsonV,
    denial: JsonV,
    e: Entry,
    ls: Seq<Labeling>,
    field: Seq<char>,
    s: Seq<char>,
    list: Seq<Seq<char>>,
    want: Seq<JsonV>,
)
    requires
        asks(q, JsonV::Text(field), "in"@, Some(JsonV::Array(want))),
        asks(denial, JsonV::Text(field), "notIn"@, Some(JsonV::Array(want))),
        field == "code"@ && s == e.code@ || field == "title"@ && s == e.title@ || field
            == "detail"@ && s == e.detail@,
        want.len() == list.len(),
        forall|k: int| 0 <= k < list.len() ==> #[trigger] want[k] == JsonV::Text(list[k]),
    ensures
        query_eval::query_holds(q, e, ls) == list.contains(s),
        query_eval::query_holds(denial, e, ls) == !list.contains(s),
{
    words_differ();
    fields_differ();
    let got = JsonV::Text(s);
    assert forall|k: int| 0 <= k < want.len() implies query_eval::candidate_hit(
        got,
        #[trigger] want[k],
    ) == (list[k] == s) by {
        assert(want[k] == JsonV::Text(list[k]));
    }
    if list.contains(s) {
        let k = choose|k: int| 0 <= k < list.len() && list[k] == s;
        assert(query_eval::candidate_hit(got, want[k]));
    }
}

/// Conditions on the dates of an entry compare points in time; one that cannot
/// be read meets none.
pub proof fn own_times_are_compared(
    q: JsonV,
    e: Entry,
    ls: Seq<Labeling>,
    field: Seq<char>,
    s: Seq<char>,
    op: Seq<char>,
    w: Seq<char>,
)
    requires
        asks(q, JsonV::Text(field), op, Some(JsonV::Text(w))),
        field == "createdAt"@ && s == e.created_at@ || field == "updatedAt"@ && s == e.updated_at@,
    ensures
        query_eval::ts_of(s) is None || query_eval::ts_of(w) is None ==> !query_eval::query_holds(
            q,
            e,
            ls,
        ),
        query_eval::ts_of(s) matches Some(a) ==> query_eval::ts_of(w) matches Some(b) ==> {
            &&& op == "eq"@ ==> query_eval::query_holds(q, e, ls) == (a == b)
            &&& op == "ne"@ ==> query_eval::query_holds(q, e, ls) == (a != b)
            &&& op == "gt"@ ==> query_eval::query_holds(q, e, ls) == (a > b)
            &&& op == "ge"@ ==> query_eval::query_holds(q, e, ls) == (a >= b)
            &&& op == "lt"@ ==> query_eval::query_holds(q, e, ls) == (a < b)
            &&& op == "le"@ ==> query_eval::query_holds(q, e, ls) == (a <= b)
        },
        op == "contains"@ || op == "notContains"@ || op == "in"@ || op == "notIn"@
            ==> !query_eval::query_holds(q, e, ls),
        !comparing(op) ==> !query_eval::query_holds(q, e, ls),
{
    words_differ();
    fields_differ();
}

/// Conditions on who created or last changed an entry are met by the name or by
/// the e-mail address of the account, the case of letters left aside; without
/// an account none is met.
pub proof fn accounts_are_compared(
    q: JsonV,
    e: Entry,
    ls: Seq<Labeling>,
    field: Seq<char>,
    who: Option<AccountBrief>,
    op: Seq<char>,
    w: Seq<char>,
)
    requires
        asks(q, JsonV::Text(field), op, Some(JsonV::Text(w))),
        field == "createdBy"@ && who == e.created_by_account || field == "updatedBy"@ && who
            == e.updated_by_account,
    ensures
        who is None ==> !query_eval::query_holds(q, e, ls),
        who matches Some(a) ==> {
            &&& op == "eq"@ ==> query_eval::query_holds(q, e, ls) == (text::same_word(a.name@, w)
                || text::same_word(a.email@, w))
            &&& op == "ne"@ ==> query_eval::query_holds(q, e, ls) == !(text::same_word(a.name@, w)
                || text::same_word(a.email@, w))
            &&& op == "contains"@ ==> query_eval::query_holds(q, e, ls) == (stands_in(w, a.name@)
                || stands_in(w, a.email@))
            &&& op == "notContains"@ ==> query_eval::query_holds(q, e, ls) == !(stands_in(
                w,
                a.name@,
            ) || stands_in(w, a.email@))
        },
        op != "eq"@ && op != "ne"@ && op != "contains"@ && op != "notContains"@
            ==> !query_eval::query_holds(q, e, ls),
{
    words_differ();
    fields_differ();
    if let Some(a) = who {
        text::same_word_iff(a.name@, w);
        text::same_word_iff(a.email@, w);
        found_iff(w, a.name@);
        found_iff(w, a.email@);
    }
}

/// An account is one of a list where its name or its address is one of the
/// strings in it.
pub proof fn accounts_are_among(
    q: JsonV,
    denial: JsonV,
    e: Entry,
    ls: Seq<Labeling>,
    field: Seq<char>,
    a: AccountBrief,
    list: Seq<JsonV>,
)
    requires
        asks(q, JsonV::Text(field), "in"@, Some(JsonV::Array(list))),
        asks(denial, JsonV::Text(field), "notIn"@, Some(JsonV::Array(list))),
        field == "createdBy"@ && e.created_by_account == Some(a) || field == "updatedBy"@
            && e.updated_by_account == Some(a),
    ensures
        query_eval::query_holds(q, e, ls) == exists|k: int|
            0 <= k < list.len() && (#[trigger] list[k] matches JsonV::Text(w) && (text::same_word(
                a.name@,
                w,
            ) || text::same_word(a.email@, w))),
        query_eval::query_holds(denial, e, ls) == !query_eval::query_holds(q, e, ls),
{
    words_differ();
    fields_differ();
    assert forall|k: int| 0 <= k < list.len() implies (json::str_of(#[trigger] list[k]) matches Some(
        w,
    ) && query_eval::account_is(a, w)) == (list[k] matches JsonV::Text(w) && (text::same_word(a.name@, w)
        || text::same_word(a.email@, w))) by {
        if let JsonV::Text(w) = list[k] {
            text::same_word_iff(a.name@, w);
            text::same_word_iff(a.email@, w);
        }
    }
    if query_eval::account_in(a, list) {
        let k = choose|k: int|
            0 <= k < list.len() && (json::str_of(#[trigger] list[k]) matches Some(w)
                && query_eval::account_is(a, w));
        assert(list[k] matches JsonV::Text(w) && (text::same_word(a.name@, w) || text::same_word(a.email@, w)));
    }
    if exists|k: int|
        0 <= k < list.len() && (#[trigger] list[k] matches JsonV::Text(w) && (text::same_word(a.name@, w)
            || text::same_word(a.email@, w))) {
        let k = choose|k: int|
            0 <= k < list.len() && (#[trigger] list[k] matches JsonV::Text(w) && (text::same_word(
                a.name@,
                w,
            ) || text::same_word(a.email@, w)));
        assert(json::str_of(list[k]) matches Some(w) && query_eval::account_is(a, w));
    }
}

/// A query without parts and without a condition is met by nothing, and so is a
/// condition without a field or on a field that is not known.
pub proof fn nothing_asked(q: JsonV, c: JsonV, e: Entry, ls: Seq<Labeling>)
    requires
        json::member(q, "and"@) is None,
        json::member(q, "or"@) is None,
        json::member(q, "not"@) is None,
    ensures
        json::member(q, "cond"@) is None ==> !query_eval::query_holds(q, e, ls),
        json::member(q, "cond"@) == Some(c) && json::member(c, "field"@) is None
            ==> !query_eval::query_holds(q, e, ls),
        json::member(q, "cond"@) == Some(c) && (json::member(c, "field"@) matches Some(
            JsonV::Text(f),
        ) && f != "text"@ && f != "code"@ && f != "title"@ && f != "detail"@ && f != "createdAt"@
            && f != "updatedAt"@ && f != "createdBy"@ && f != "updatedBy"@)
            ==> !query_eval::query_holds(q, e, ls),
        json::member(q, "cond"@) == Some(c) && (json::member(c, "field"@) matches Some(f)
            && !(f is Text) && !(json::member(f, "label"@) matches Some(JsonV::Text(_))))
            ==> !query_eval::query_holds(q, e, ls),
{
}

// ---------------------------------------------------------------------------
// Colours
// ---------------------------------------------------------------------------

/// Whether a rule is a range of integers with a colour: from the lower end on,
/// below the upper one, either left open where it is missing or null.
pub open spec fn is_range(rule: JsonV, lo: Option<int>, hi: Option<int>, color: Seq<char>) -> bool {
    &&& json::member(rule, "color"@) == Some(JsonV::Text(color))
    &&& json::member(rule, "value"@) is None || json::member(rule, "value"@) == Some(JsonV::Null)
    &&& match lo {
        Some(a) => json::member(rule, "min"@) matches Some(m) && is_int(m, a),
        None => json::member(rule, "min"@) is None || json::member(rule, "min"@) == Some(
            JsonV::Null,
        ),
    }
    &&& match hi {
        Some(b) => json::member(rule, "max"@) matches Some(m) && is_int(m, b),
        None => json::member(rule, "max"@) is None || json::member(rule, "max"@) == Some(
            JsonV::Null,
        ),
    }
}

/// A range gives its colour to exactly the integers from its lower end on and
/// below its upper end; other integers, and values that are no numbers, keep
/// the colour of the label.
pub proof fn ranges_colour_integers(
    base: Seq<char>,
    rule: JsonV,
    lo: Option<int>,
    hi: Option<int>,
    color: Seq<char>,
    value: JsonV,
    v: int,
)
    requires
        is_range(rule, lo, hi, color),
    ensures
        is_int(value, v) ==> query_eval::label_color(
            Some(JsonV::Text(base)),
            JsonV::Array(seq![rule]),
            value,
        ) == Some(
            if (lo matches Some(a) ==> a <= v) && (hi matches Some(b) ==> v < b) {
                color
            } else {
                base
            },
        ),
        !(value is Number) ==> query_eval::label_color(
            Some(JsonV::Text(base)),
            JsonV::Array(seq![rule]),
            value,
        ) == Some(base),
{
    let rules = seq![rule];
    assert(rules.skip(1) =~= seq![]);
    assert(query_eval::first_value_color(rules.skip(1), value) is None);
    if is_int(value, v) {
        let x = value->Number_0;
        if let Some(a) = lo {
            let m = json::member(rule, "min"@)->0->Number_0;
            number::whole_numbers_in_order(x, v, m, a);
        }
        if let Some(b) = hi {
            let m = json::member(rule, "max"@)->0->Number_0;
            number::whole_numbers_in_order(x, v, m, b);
        }
    }
}

/// Whether a rule gives a colour to one value alone.
pub open spec fn is_exact(rule: JsonV, exact: JsonV, color: Seq<char>) -> bool {
    &&& json::member(rule, "color"@) == Some(JsonV::Text(color))
    &&& json::member(rule, "value"@) == Some(exact)
    &&& exact != JsonV::Null
}

/// A rule for a string, an integer or a truth value gives its colour to exactly
/// that value, and to several values where it is one of them. Its ends do not
/// count.
pub proof fn exact_values_are_coloured(
    base: Seq<char>,
    rule: JsonV,
    exact: JsonV,
    color: Seq<char>,
    value: JsonV,
    items: Seq<JsonV>,
)
    requires
        is_exact(rule, exact, color),
        exact is Text || exact is Bool || (exact matches JsonV::Number(n) && !(n is Float)),
    ensures
        !(value is Array) ==> query_eval::label_color(
            Some(JsonV::Text(base)),
            JsonV::Array(seq![rule]),
            value,
        ) == Some(
            if value == exact {
                color
            } else {
                base
            },
        ),
        query_eval::label_color(
            Some(JsonV::Text(base)),
            JsonV::Array(seq![rule]),
            JsonV::Array(items),
        ) == Some(
            if items.contains(exact) {
                color
            } else {
                base
            },
        ),
{
    let rules = seq![rule];
    assert(rules.skip(1) =~= seq![]);
    assert(query_eval::first_value_color(rules.skip(1), value) is None);
    assert(query_eval::first_value_color(rules.skip(1), JsonV::Array(items)) is None);
    assert(json::same_json(exact, value) == (value == exact));
    assert forall|k: int| 0 <= k < items.len() implies json::same_json(#[trigger] items[k], exact)
        == (items[k] == exact) by {
    }
    let many = JsonV::Array(items);
    if query_eval::value_or_item_is(many, exact) {
        let k = choose|k: int|
            0 <= k < many->Array_0.len() && json::same_json(#[trigger] many->Array_0[k], exact);
        assert(items[k] == exact);
    }
    if items.contains(exact) {
        let k = choose|k: int| 0 <= k < items.len() && items[k] == exact;
        assert(json::same_json(many->Array_0[k], exact));
    }
}

/// Of several rules the first that gives a colour on its own gives it; where
/// none does, the label has its own colour, if that is a string. Without a list
/// of rules there is only this.
pub proof fn first_rule_colours(base: Option<JsonV>, rules: Seq<JsonV>, value: JsonV, n: int)
    requires
        0 <= n <= rules.len(),
        forall|k: int|
            0 <= k < n ==> query_eval::label_color(
                None,
                JsonV::Array(seq![#[trigger] rules[k]]),
                value,
            ) is None,
        n < rules.len() ==> query_eval::label_color(None, JsonV::Array(seq![rules[n]]), value)
            is Some,
    ensures
        n < rules.len() ==> query_eval::label_color(base, JsonV::Array(rules), value)
            == query_eval::label_color(None, JsonV::Array(seq![rules[n]]), value),
        n == rules.len() ==> query_eval::label_color(base, JsonV::Array(rules), value) == (
        match base {
            Some(JsonV::Text(c)) => Some(c),
            _ => None,
        }),
        forall|j: JsonV|
            !(j is Array) ==> #[trigger] query_eval::label_color(base, j, value) == (match base {
                Some(JsonV::Text(c)) => Some(c),
                _ => None,
            }),
    decreases rules.len(),
{
    if rules.len() > 0 {
        let r = rules[0];
        let rest = rules.skip(1);
        assert(seq![r].skip(1) =~= seq![]);
        assert(query_eval::first_value_color(seq![r].skip(1), value) is None);
        assert(query_eval::label_color(None, JsonV::Array(seq![r]), value)
            == query_eval::first_value_color(seq![r], value));
        if n > 0 {
            assert(query_eval::label_color(None, JsonV::Array(seq![rules[0]]), value) is None);
            assert forall|k: int| 0 <= k < n - 1 implies query_eval::label_color(
                None,
                JsonV::Array(seq![#[trigger] rest[k]]),
                value,
            ) is None by {
                assert(rest[k] == rules[k + 1]);
            }
            if n < rules.len() {
                assert(rest[n - 1] == rules[n]);
            }
            first_rule_colours(base, rest, value, n - 1);
        }
    }
}

/// A rule without a colour gives none.
pub proof fn rules_without_colour(rule: JsonV, value: JsonV)
    requires
        !(json::member(rule, "color"@) matches Some(JsonV::Text(_))),
    ensures
        query_eval::label_color(None, JsonV::Array(seq![rule]), value) is None,
{
    let rules = seq![rule];
    assert(rules.skip(1) =~= seq![]);
    assert(query_eval::first_value_color(rules.skip(1), value) is None);
}

/// A rule for titles gives its colour to exactly the entries that meet its
/// query; without a query or a colour it gives none. Of several rules the first
/// that gives a colour gives it.
pub proof fn first_rule_colours_titles(
    rules: Seq<JsonV>,
    e: Entry,
    ls: Seq<Labeling>,
    rule: JsonV,
    q: JsonV,
    color: Seq<char>,
    n: int,
)
    requires
        0 <= n <= rules.len(),
        forall|k: int|
            0 <= k < n ==> query_eval::first_title_color(seq![#[trigger] rules[k]], e, ls) is None,
        n < rules.len() ==> query_eval::first_title_color(seq![rules[n]], e, ls) is Some,
    ensures
        json::member(rule, "query"@) == Some(q) && json::member(rule, "color"@) == Some(
            JsonV::Text(color),
        ) ==> query_eval::first_title_color(seq![rule], e, ls) == (if query_eval::query_holds(
            q,
            e,
            ls,
        ) {
            Some(color)
        } else {
            None
        }),
        json::member(rule, "query"@) is None || !(json::member(rule, "color"@) matches Some(
            JsonV::Text(_),
        )) ==> query_eval::first_title_color(seq![rule], e, ls) is None,
        query_eval::first_title_color(rules, e, ls) == (if n < rules.len() {
            query_eval::first_title_color(seq![rules[n]], e, ls)
        } else {
            None
        }),
    decreases rules.len(),
{
    assert(seq![rule].skip(1) =~= seq![]);
    assert(query_eval::first_title_color(seq![rule].skip(1), e, ls) is None);
    if rules.len() > 0 {
        let r = rules[0];
        let rest = rules.skip(1);
        assert(seq![r].skip(1) =~= seq![]);
        assert(query_eval::first_title_color(seq![r].skip(1), e, ls) is None);
        if n > 0 {
            assert(query_eval::first_title_color(seq![rules[0]], e, ls) is None);
            assert forall|k: int| 0 <= k < n - 1 implies query_eval::first_title_color(
                seq![#[trigger] rest[k]],
                e,
                ls,
            ) is None by {
                assert(rest[k] == rules[k + 1]);
            }
            if n < rules.len() {
                assert(rest[n - 1] == rules[n]);
            }
            first_rule_colours_titles(rest, e, ls, rule, q, color, n - 1);
        }
    }
}

// ---------------------------------------------------------------------------
// Queries of queries
// ---------------------------------------------------------------------------

/// Whether a query joins others: it has an `and` of them.
pub open spec fn joins(q: JsonV, list: Seq<JsonV>) -> bool {
    json::member(q, "and"@) == Some(JsonV::Array(list))
}

/// Whether a query offers others: it has an `or` of them, and no `and`.
pub open spec fn offers(q: JsonV, list: Seq<JsonV>) -> bool {
    json::member(q, "and"@) is None && json::member(q, "or"@) == Some(JsonV::Array(list))
}

/// Whether a query denies another: it has a `not` of it, and no `and` or `or`.
pub open spec fn denies(q: JsonV, inner: JsonV) -> bool {
    json::member(q, "and"@) is None && json::member(q, "or"@) is None && json::member(q, "not"@)
        == Some(inner)
}

/// An entry meets joined queries where it meets each, offered ones where it
/// meets one of them, and the denial of one where it does not meet it. Of no
/// queries it meets the joint and not the offer.
pub proof fn queries_are_joined(
    q: JsonV,
    list: Seq<JsonV>,
    inner: JsonV,
    i: int,
    e: Entry,
    ls: Seq<Labeling>,
)
    ensures
        joins(q, list) && query_eval::query_holds(q, e, ls) && 0 <= i < list.len()
            ==> query_eval::query_holds(list[i], e, ls),
        joins(q, list) && !query_eval::query_holds(q, e, ls) ==> exists|k: int|
            0 <= k < list.len() && !query_eval::query_holds(#[trigger] list[k], e, ls),
        joins(q, list) && list.len() == 0 ==> query_eval::query_holds(q, e, ls),
        offers(q, list) && 0 <= i < list.len() && query_eval::query_holds(list[i], e, ls)
            ==> query_eval::query_holds(q, e, ls),
        offers(q, list) && query_eval::query_holds(q, e, ls) ==> exists|k: int|
            0 <= k < list.len() && query_eval::query_holds(#[trigger] list[k], e, ls),
        offers(q, list) && list.len() == 0 ==> !query_eval::query_holds(q, e, ls),
        denies(q, inner) ==> query_eval::query_holds(q, e, ls) != query_eval::query_holds(
            inner,
            e,
            ls,
        ),
{
    if joins(q, list) {
        joint_is(q, list, e, ls);
    }
    if offers(q, list) {
        offer_is(q, list, e, ls);
    }
}

proof fn joint_is(q: JsonV, list: Seq<JsonV>, e: Entry, ls: Seq<Labeling>)
    requires
        joins(q, list),
    ensures
        query_eval::query_holds(q, e, ls) == (forall|k: int|
            0 <= k < list.len() ==> query_eval::query_holds(#[trigger] list[k], e, ls)),
{
    let l = json::member(q, "and"@)->Some_0->Array_0;
    assert(l == list);
    if query_eval::query_holds(q, e, ls) {
        assert(forall|k: int| 0 <= k < l.len() ==> query_eval::query_holds(#[trigger] l[k], e, ls));
    }
    if forall|k: int| 0 <= k < list.len() ==> query_eval::query_holds(#[trigger] list[k], e, ls) {
        assert(query_eval::query_holds(q, e, ls));
    }
}

proof fn offer_is(q: JsonV, list: Seq<JsonV>, e: Entry, ls: Seq<Labeling>)
    requires
        offers(q, list),
    ensures
        query_eval::query_holds(q, e, ls) == (exists|k: int|
            0 <= k < list.len() && query_eval::query_holds(#[trigger] list[k], e, ls)),
{
    let l = json::member(q, "or"@)->Some_0->Array_0;
    assert(l == list);
    if query_eval::query_holds(q, e, ls) {
        assert(exists|k: int| 0 <= k < l.len() && query_eval::query_holds(#[trigger] l[k], e, ls));
    }
    if exists|k: int| 0 <= k < l.len() && query_eval::query_holds(#[trigger] l[k], e, ls) {
        let k = choose|k: int|
            0 <= k < l.len() && query_eval::query_holds(#[trigger] l[k], e, ls);
        assert(query_eval::query_holds(l[k], e, ls));
        assert(query_eval::query_holds(q, e, ls));
    }
}

/// Denying a joint of queries is offering their denials, and the other way
/// round.
pub proof fn denials_are_offered(
    q: JsonV,
    whole: JsonV,
    parts: Seq<JsonV>,
    other: JsonV,
    denied: Seq<JsonV>,
    e: Entry,
    ls: Seq<Labeling>,
)
    requires
        denies(q, whole),
        denied.len() == parts.len(),
        forall|i: int| 0 <= i < parts.len() ==> denies(#[trigger] denied[i], parts[i]),
        joins(whole, parts) && offers(other, denied) || offers(whole, parts) && joins(
            other,
            denied,
        ),
    ensures
        query_eval::query_holds(q, e, ls) == query_eval::query_holds(other, e, ls),
{
    assert forall|i: int| 0 <= i < parts.len() implies query_eval::query_holds(
        #[trigger] denied[i],
        e,
        ls,
    ) != query_eval::query_holds(parts[i], e, ls) by {
        queries_are_joined(denied[i], parts, parts[i], i, e, ls);
    }
    queries_are_joined(q, parts, whole, 0, e, ls);
    if joins(whole, parts) {
        joint_is(whole, parts, e, ls);
        offer_is(other, denied, e, ls);
    } else {
        offer_is(whole, parts, e, ls);
        joint_is(other, denied, e, ls);
    }
    if joins(whole, parts) {
        if query_eval::query_holds(whole, e, ls) {
            if query_eval::query_holds(other, e, ls) {
                let k = choose|k: int|
                    0 <= k < denied.len() && query_eval::query_holds(#[trigger] denied[k], e, ls);
                assert(query_eval::query_holds(parts[k], e, ls));
            }
        } else {
            let k = choose|k: int|
                0 <= k < parts.len() && !query_eval::query_holds(#[trigger] parts[k], e, ls);
            assert(query_eval::query_holds(denied[k], e, ls));
        }
    } else {
        if query_eval::query_holds(whole, e, ls) {
            let k = choose|k: int|
                0 <= k < parts.len() && query_eval::query_holds(#[trigger] parts[k], e, ls);
            assert(!query_eval::query_holds(denied[k], e, ls));
        } else if !query_eval::query_holds(other, e, ls) {
            let k = choose|k: int|
                0 <= k < denied.len() && !query_eval::query_holds(#[trigger] denied[k], e, ls);
            assert(!query_eval::query_holds(parts[k], e, ls));
        }
    }
}

/// The labels that a query names are those of its parts; a condition on a label
/// names it, and one on another field none.
pub proof fn labels_of_parts_are_named(
    q: JsonV,
    list: Seq<JsonV>,
    inner: JsonV,
    field: JsonV,
    op: Seq<char>,
    want: Option<JsonV>,
    name: Seq<char>,
)
    ensures
        joins(q, list) || offers(q, list) ==> (query_eval::named_labels(q).contains(name)
            <==> exists|i: int|
            0 <= i < list.len() && query_eval::named_labels(#[trigger] list[i]).contains(name)),
        denies(q, inner) ==> query_eval::named_labels(q) == query_eval::named_labels(inner),
        asks(q, field, op, want) && on_label(field, name) ==> query_eval::named_labels(q) == seq![
            name,
        ],
        asks(q, field, op, want) && field is Text ==> query_eval::named_labels(q).len() == 0,
{
    query_eval::labels_are_named_once(q);
    if joins(q, list) || offers(q, list) {
        labels_of_all(list, name);
        if exists|i: int|
            0 <= i < list.len() && query_eval::named_labels(#[trigger] list[i]).contains(name) {
            let i = choose|i: int|
                0 <= i < list.len() && query_eval::named_labels(#[trigger] list[i]).contains(name);
            query_eval::labels_are_named_once(list[i]);
            assert(query_eval::cond_labels(list[i]).contains(name));
        }
        if exists|i: int|
            0 <= i < list.len() && query_eval::cond_labels(#[trigger] list[i]).contains(name) {
            let i = choose|i: int|
                0 <= i < list.len() && query_eval::cond_labels(#[trigger] list[i]).contains(name);
            query_eval::labels_are_named_once(list[i]);
            assert(query_eval::named_labels(list[i]).contains(name));
        }
    }
    if asks(q, field, op, want) && on_label(field, name) {
        let one = seq![name];
        assert(query_eval::cond_labels(q) == one);
        let r = query_eval::named_labels(q);
        assert(one.contains(name)) by {
            assert(one[0] == name);
        }
        assert(r.contains(name));
        assert(r =~= one) by {
            let k = choose|k: int| 0 <= k < r.len() && r[k] == name;
            assert forall|j: int| 0 <= j < r.len() implies #[trigger] r[j] == name by {
                assert(r.contains(r[j]));
                assert(one.contains(r[j]));
            }
            if r.len() > 1 {
                assert(r[0] != r[1]);
            }
        }
    }
    if asks(q, field, op, want) && field is Text {
        let r = query_eval::named_labels(q);
        if r.len() > 0 {
            assert(r.contains(r[0]));
            assert(query_eval::cond_labels(q).contains(r[0]));
        }
    }
}

proof fn labels_of_all(list: Seq<JsonV>, name: Seq<char>)
    ensures
        query_eval::all_cond_labels(list).contains(name) <==> exists|i: int|
            0 <= i < list.len() && query_eval::cond_labels(#[trigger] list[i]).contains(name),
    decreases list.len(),
{
    if list.len() > 0 {
        let d = list.drop_last();
        let a = query_eval::all_cond_labels(d);
        let b = query_eval::cond_labels(list.last());
        labels_of_all(d, name);
        if (a + b).contains(name) {
            let k = choose|k: int| 0 <= k < (a + b).len() && (a + b)[k] == name;
            if k < a.len() {
                assert(a[k] == name);
                assert(a.contains(name));
                let i = choose|i: int|
                    0 <= i < d.len() && query_eval::cond_labels(#[trigger] d[i]).contains(name);
                assert(list[i] == d[i]);
            } else {
                assert(b[k - a.len()] == name);
                assert(query_eval::cond_labels(list[list.len() - 1]).contains(name));
            }
        }
        if exists|i: int|
            0 <= i < list.len() && query_eval::cond_labels(#[trigger] list[i]).contains(name) {
            let i = choose|i: int|
                0 <= i < list.len() && query_eval::cond_labels(#[trigger] list[i]).contains(name);
            if i < d.len() {
                assert(d[i] == list[i]);
                assert(a.contains(name));
                let k = choose|k: int| 0 <= k < a.len() && a[k] == name;
                assert((a + b)[k] == name);
            } else {
                let k = choose|k: int| 0 <= k < b.len() && b[k] == name;
                assert((a + b)[a.len() + k] == name);
            }
        }
    }
}

/// Rules for titles colour nothing unless they are a list, and then as its first
/// rule that holds and has a colour.
pub proof fn titles_have_colours(
    rules: JsonV,
    a: Seq<JsonV>,
    rule: JsonV,
    b: Seq<JsonV>,
    q: JsonV,
    color: Seq<char>,
    e: Entry,
    ls: Seq<Labeling>,
)
    requires
        json::member(rule, "query"@) == Some(q),
        json::member(rule, "color"@) == Some(JsonV::Text(color)),
        query_eval::query_holds(q, e, ls),
        forall|i: int|
            0 <= i < a.len() ==> (json::member(#[trigger] a[i], "query"@) matches Some(p)
                ==> !query_eval::query_holds(p, e, ls)),
    ensures
        query_eval::color_of_title(JsonV::Array(a + seq![rule] + b), e, ls) == Some(color),
        query_eval::color_of_title(JsonV::Array(a), e, ls) is None,
        !(rules is Array) ==> query_eval::color_of_title(rules, e, ls) is None,
    decreases a.len(),
{
    let s = a + seq![rule] + b;
    if a.len() == 0 {
        assert(s[0] == rule);
    } else {
        let t = a.skip(1);
        assert forall|i: int| 0 <= i < t.len() implies (json::member(
            #[trigger] t[i],
            "query"@,
        ) matches Some(p) ==> !query_eval::query_holds(p, e, ls)) by {
            assert(t[i] == a[i + 1]);
        }
        titles_have_colours(rules, t, rule, b, q, color, e, ls);
        assert(s[0] == a[0]);
        assert(s.skip(1) =~= t + seq![rule] + b);
        assert(a.skip(1) =~= t);
    }
}

} // verus!
