//! The filter bar: chips for the conditions of a flat query, and the keyword
//! box beside them.

use vstd::prelude::*;

use crate::graphql_client::{Entry, Labeling};
use crate::json;
use crate::json::{Json, JsonV};
use crate::query_eval;
use crate::text;

verus! {

/// A condition on the filter bar.
#[derive(Debug, Clone, PartialEq)]
pub enum CondChip {
    Label { name: String, op: String, value: Json },
    Time { field: String, op: String, value: Json },
    Text { keyword: String },
}

/// The content of a chip.
#[verifier::ext_equal]
pub enum ChipV {
    Label { name: Seq<char>, op: Seq<char>, value: JsonV },
    Time { field: Seq<char>, op: Seq<char>, value: JsonV },
    Text { keyword: Seq<char> },
}

impl CondChip {
    /// The content of a chip.
    pub open spec fn view(&self) -> ChipV {
        match self {
            CondChip::Label { name, op, value } => ChipV::Label {
                name: name@,
                op: op@,
                value: value@,
            },
            CondChip::Time { field, op, value } => ChipV::Time {
                field: field@,
                op: op@,
                value: value@,
            },
            CondChip::Text { keyword } => ChipV::Text { keyword: keyword@ },
        }
    }
}

/// The contents of a list of chips.
pub open spec fn chips_view(cs: Seq<CondChip>) -> Seq<ChipV> {
    Seq::new(cs.len(), |i: int| cs[i]@)
}

/// The conditions that stand side by side in a query: those of its `and`, or
/// the query itself where it is a condition.
pub open spec fn conditions_of(q: JsonV) -> Seq<JsonV> {
    match json::member(q, "and"@) {
        Some(JsonV::Array(list)) => list,
        _ => if json::member(q, "cond"@) is Some {
            seq![q]
        } else {
            seq![]
        },
    }
}

/// The chip of a condition; none where the bar cannot show it.
pub open spec fn chip_of_cond(cond: JsonV) -> Option<ChipV> {
    match json::member(cond, "cond"@) {
        None => None,
        Some(c) => match json::member(c, "field"@) {
            None => None,
            Some(field) => {
                let op = match json::opt_str_of(json::member(c, "op"@)) {
                    Some(op) => op,
                    None => "eq"@,
                };
                let value = match json::member(c, "value"@) {
                    Some(v) => v,
                    None => JsonV::Null,
                };
                match json::opt_str_of(json::member(field, "label"@)) {
                    Some(name) => Some(ChipV::Label { name: name, op: op, value: value }),
                    None => match json::str_of(field) {
                        Some(f) => if f == "text"@ {
                            Some(
                                ChipV::Text {
                                    keyword: match json::str_of(value) {
                                        Some(k) => k,
                                        None => ""@,
                                    },
                                },
                            )
                        } else if f == "updatedAt"@ || f == "createdAt"@ {
                            Some(ChipV::Time { field: f, op: op, value: value })
                        } else {
                            None
                        },
                        None => None,
                    },
                }
            },
        },
    }
}

/// The chips of conditions, those that have none left out.
pub open spec fn chips_of(conds: Seq<JsonV>) -> Seq<ChipV>
    decreases conds.len(),
{
    if conds.len() == 0 {
        seq![]
    } else {
        match chip_of_cond(conds.last()) {
            Some(c) => chips_of(conds.drop_last()).push(c),
            None => chips_of(conds.drop_last()),
        }
    }
}

/// The conditions of a query.
fn conditions(query: &Json) -> (r: Vec<Json>)
    ensures
        json::items_view(r@) == conditions_of(query@),
{
    if let Some(a) = query.get("and") {
        if let Some(list) = a.as_array() {
            let mut out: Vec<Json> = Vec::new();
            let mut i: usize = 0;
            while i < list.len()
                invariant
                    i <= list@.len(),
                    json::items_view(out@) == json::items_view(list@).take(i as int),
                decreases list@.len() - i,
            {
                json::add_item(&mut out, list[i].copy());
                i += 1;
                assert(json::items_view(out@) =~= json::items_view(list@).take(i as int));
            }
            assert(json::items_view(list@).take(i as int) =~= json::items_view(list@));
            return out;
        }
    }
    let mut out: Vec<Json> = Vec::new();
    assert(json::items_view(out@) =~= seq![]);
    if query.get("cond").is_some() {
        json::add_item(&mut out, query.copy());
    }
    out
}

/// The content of an optional chip.
pub open spec fn opt_chip(c: Option<CondChip>) -> Option<ChipV> {
    match c {
        Some(c) => Some(c@),
        None => None,
    }
}

/// The chip of a condition.
fn chip_of(cond: &Json) -> (r: Option<CondChip>)
    ensures
        opt_chip(r) == chip_of_cond(cond@),
{
    let c = match cond.get("cond") {
        Some(c) => c,
        None => {
            return None;
        },
    };
    let field = match c.get("field") {
        Some(f) => f,
        None => {
            return None;
        },
    };
    let op = match c.get("op") {
        Some(v) => match v.as_str() {
            Some(s) => s.to_owned(),
            None => "eq".to_owned(),
        },
        None => "eq".to_owned(),
    };
    let value = match c.get("value") {
        Some(v) => v.copy(),
        None => Json::Null,
    };
    if let Some(l) = field.get("label") {
        if let Some(name) = l.as_str() {
            return Some(CondChip::Label { name: name.to_owned(), op, value });
        }
    }
    match field.as_str() {
        Some(f) => if text::same(f, "text") {
            let keyword = match value.as_str() {
                Some(k) => k.to_owned(),
                None => "".to_owned(),
            };
            Some(CondChip::Text { keyword })
        } else if text::same(f, "updatedAt") || text::same(f, "createdAt") {
            Some(CondChip::Time { field: f.to_owned(), op, value })
        } else {
            None
        },
        None => None,
    }
}

/// The chips that the filter bar shows for a query.
pub fn chips(query: &Json) -> (r: Vec<CondChip>)
    ensures
        chips_view(r@) == chips_of(conditions_of(query@)),
{
    let conds = conditions(query);
    let ghost all = json::items_view(conds@);
    let mut out: Vec<CondChip> = Vec::new();
    let mut i: usize = 0;
    assert(chips_view(out@) =~= seq![]);
    while i < conds.len()
        invariant
            i <= conds@.len(),
            all == json::items_view(conds@),
            chips_view(out@) == chips_of(all.take(i as int)),
        decreases conds@.len() - i,
    {
        let ghost before = out@;
        assert(all.take(i + 1).drop_last() =~= all.take(i as int));
        assert(all.take(i + 1).last() == conds@[i as int]@);
        if let Some(c) = chip_of(&conds[i]) {
            out.push(c);
            assert(chips_view(out@) =~= chips_view(before).push(c@));
        }
        i += 1;
    }
    assert(all.take(i as int) =~= all);
    out
}

/// A condition with a field, an operator and a value.
pub open spec fn cond_json(field: JsonV, op: Seq<char>, value: JsonV) -> JsonV {
    JsonV::Object(
        seq![
            (
                "cond"@,
                JsonV::Object(
                    seq![("field"@, field), ("op"@, JsonV::Text(op)), ("value"@, value)],
                ),
            ),
        ],
    )
}

/// The field of a condition on a label.
pub open spec fn label_field(name: Seq<char>) -> JsonV {
    JsonV::Object(seq![("label"@, JsonV::Text(name))])
}

/// The condition of a chip.
pub open spec fn chip_cond(c: ChipV) -> JsonV {
    match c {
        ChipV::Label { name, op, value } => cond_json(label_field(name), op, value),
        ChipV::Time { field, op, value } => cond_json(JsonV::Text(field), op, value),
        ChipV::Text { keyword } => cond_json(
            JsonV::Text("text"@),
            "contains"@,
            JsonV::Text(keyword),
        ),
    }
}

/// A query with parts that must all hold.
pub open spec fn and_json(parts: Seq<JsonV>) -> JsonV {
    JsonV::Object(seq![("and"@, JsonV::Array(parts))])
}

/// The query of chips.
pub open spec fn chips_query(cs: Seq<ChipV>) -> JsonV {
    and_json(Seq::new(cs.len(), |i: int| chip_cond(cs[i])))
}

/// A condition with a field, an operator and a value.
fn make_cond(field: Json, op: &str, value: Json) -> (r: Json)
    ensures
        r@ == cond_json(field@, op@, value@),
{
    json::object1("cond", json::object3("field", field, "op", json::of_str(op), "value", value))
}

/// The condition of a chip.
fn chip_to_cond(chip: &CondChip) -> (r: Json)
    ensures
        r@ == chip_cond(chip@),
{
    match chip {
        CondChip::Label { name, op, value } => make_cond(
            json::object1("label", json::of_str(name.as_str())),
            op.as_str(),
            value.copy(),
        ),
        CondChip::Time { field, op, value } => make_cond(
            json::of_str(field.as_str()),
            op.as_str(),
            value.copy(),
        ),
        CondChip::Text { keyword } => make_cond(
            json::of_str("text"),
            "contains",
            json::of_str(keyword.as_str()),
        ),
    }
}

/// The query that chips stand for.
pub fn build_query(chips: &[CondChip]) -> (r: Json)
    ensures
        r@ == chips_query(chips_view(chips@)),
{
    let mut out: Vec<Json> = Vec::new();
    let mut i: usize = 0;
    let ghost all = Seq::new(chips@.len(), |i: int| chip_cond(chips_view(chips@)[i]));
    assert(json::items_view(out@) =~= all.take(0));
    while i < chips.len()
        invariant
            i <= chips@.len(),
            all == Seq::new(chips@.len(), |i: int| chip_cond(chips_view(chips@)[i])),
            json::items_view(out@) == all.take(i as int),
        decreases chips@.len() - i,
    {
        json::add_item(&mut out, chip_to_cond(&chips[i]));
        i += 1;
        assert(json::items_view(out@) =~= all.take(i as int));
    }
    assert(all.take(i as int) =~= all);
    assert(all =~= Seq::new(
        chips_view(chips@).len(),
        |i: int| chip_cond(chips_view(chips@)[i]),
    ));
    json::object1("and", json::array(out))
}

/// Whether conditions stand side by side in a query and there is nothing else in
/// it: it is null or empty, or has one member, which is an `and` of conditions
/// or a condition.
pub open spec fn side_by_side(q: JsonV) -> bool {
    match q {
        JsonV::Null => true,
        JsonV::Object(o) => if o.len() == 0 {
            true
        } else if o.len() == 1 {
            match json::member(q, "and"@) {
                Some(JsonV::Array(list)) => forall|i: int|
                    0 <= i < list.len() ==> json::member(#[trigger] list[i], "cond"@) is Some,
                _ => json::member(q, "cond"@) is Some,
            }
        } else {
            false
        },
        _ => false,
    }
}

/// Tests [`side_by_side`].
fn stands_side_by_side(query: &Json) -> (r: bool)
    ensures
        r == side_by_side(query@),
{
    match query {
        Json::Null => true,
        Json::Object(o) => {
            proof {
                json::object_view(*o);
            }
            if o.len() == 0 {
                return true;
            }
            if o.len() != 1 {
                return false;
            }
            if let Some(a) = query.get("and") {
                if let Some(list) = a.as_array() {
                    let ghost items = json::items_view(list@);
                    let mut i: usize = 0;
                    while i < list.len()
                        invariant
                            i <= list@.len(),
                            items == json::items_view(list@),
                            json::member(query@, "and"@) == Some(JsonV::Array(items)),
                            query@ is Object,
                            query@->Object_0.len() == 1,
                            forall|k: int|
                                0 <= k < i ==> json::member(#[trigger] items[k], "cond"@) is Some,
                        decreases list@.len() - i,
                    {
                        assert(items[i as int] == list@[i as int]@);
                        if list[i].get("cond").is_none() {
                            assert(json::member(items[i as int], "cond"@) is None);
                            return false;
                        }
                        i += 1;
                    }
                    return true;
                }
            }
            query.get("cond").is_some()
        },
        _ => false,
    }
}

/// Whether a condition has a chip that it can be made from again.
pub open spec fn chip_is_whole(cond: JsonV) -> bool {
    chip_of_cond(cond) matches Some(k) && chip_cond(k) == cond
}

/// Whether chips can stand for a query without loss: conditions stand side by
/// side in it, and each has a chip that it can be made from again.
pub open spec fn flat(q: JsonV) -> bool {
    &&& side_by_side(q)
    &&& forall|i: int|
        0 <= i < conditions_of(q).len() ==> chip_is_whole(#[trigger] conditions_of(q)[i])
}

/// The field, the operator and the value of a condition that holds these and
/// nothing else.
fn cond_of(cond: &Json) -> (r: Option<(&Json, &str, &Json)>)
    ensures
        match r {
            Some((field, op, value)) => cond@ == cond_json(field@, op@, value@),
            None => forall|field: JsonV, op: Seq<char>, value: JsonV|
                cond@ != #[trigger] cond_json(field, op, value),
        },
{
    let outer = match cond.as_object() {
        Some(o) => o,
        None => {
            return None;
        },
    };
    let ghost om = json::members_view(outer@);
    assert forall|field: JsonV, op: Seq<char>, value: JsonV|
        cond@ == #[trigger] cond_json(field, op, value) implies om.len() == 1 && om[0] == (
        "cond"@,
        JsonV::Object(seq![("field"@, field), ("op"@, JsonV::Text(op)), ("value"@, value)]),
    ) by {
        assert(cond@ == JsonV::Object(om));
    }
    if outer.len() != 1 || !text::same(outer[0].0.as_str(), "cond") {
        return None;
    }
    let inner = match outer[0].1.as_object() {
        Some(o) => o,
        None => {
            return None;
        },
    };
    let ghost im = json::members_view(inner@);
    assert(om[0] == ("cond"@, JsonV::Object(im)));
    if inner.len() != 3 || !text::same(inner[0].0.as_str(), "field") || !text::same(
        inner[1].0.as_str(),
        "op",
    ) || !text::same(inner[2].0.as_str(), "value") {
        assert(im.len() == 3 ==> im[0].0 == inner@[0].0@ && im[1].0 == inner@[1].0@ && im[2].0
            == inner@[2].0@);
        return None;
    }
    assert(im[0] == ("field"@, inner@[0].1@));
    assert(im[1] == ("op"@, inner@[1].1@));
    assert(im[2] == ("value"@, inner@[2].1@));
    match inner[1].1.as_str() {
        Some(op) => {
            assert(im =~= seq![
                ("field"@, inner@[0].1@),
                ("op"@, JsonV::Text(op@)),
                ("value"@, inner@[2].1@),
            ]);
            assert(om =~= seq![("cond"@, JsonV::Object(im))]);
            Some((&inner[0].1, op, &inner[2].1))
        },
        None => None,
    }
}

/// Whether a field is a label and nothing else.
fn names_label(field: &Json) -> (r: bool)
    ensures
        r == exists|name: Seq<char>| field@ == #[trigger] label_field(name),
{
    let o = match field.as_object() {
        Some(o) => o,
        None => {
            return false;
        },
    };
    let ghost m = json::members_view(o@);
    assert forall|name: Seq<char>| field@ == #[trigger] label_field(name) implies m.len() == 1
        && m[0] == ("label"@, JsonV::Text(name)) by {
        assert(field@ == JsonV::Object(m));
    }
    if o.len() != 1 || !text::same(o[0].0.as_str(), "label") {
        return false;
    }
    assert(m[0] == ("label"@, o@[0].1@));
    match o[0].1.as_str() {
        Some(name) => {
            assert(m =~= seq![("label"@, JsonV::Text(name@))]);
            assert(field@ == label_field(name@));
            true
        },
        None => false,
    }
}

/// Tests [`chip_is_whole`].
fn has_whole_chip(cond: &Json) -> (r: bool)
    ensures
        r == chip_is_whole(cond@),
{
    let (field, op, value) = match cond_of(cond) {
        Some(parts) => parts,
        None => {
            proof {
                if let Some(k) = chip_of_cond(cond@) {
                    assert(cond@ != chip_cond(k)) by {
                        match k {
                            ChipV::Label { name, op, value } => {
                                assert(cond@ != cond_json(label_field(name), op, value));
                            },
                            ChipV::Time { field, op, value } => {
                                assert(cond@ != cond_json(JsonV::Text(field), op, value));
                            },
                            ChipV::Text { keyword } => {
                                assert(cond@ != cond_json(
                                    JsonV::Text("text"@),
                                    "contains"@,
                                    JsonV::Text(keyword),
                                ));
                            },
                        }
                    }
                }
            }
            return false;
        },
    };
    proof {
        keys_differ();
        cond_parts(field@, op@, value@);
        conds_differ(field@, op@, value@);
    }
    match field.as_str() {
        Some(f) => if text::same(f, "text") {
            text::same(op, "contains") && value.as_str().is_some()
        } else {
            text::same(f, "updatedAt") || text::same(f, "createdAt")
        },
        None => {
            let r = names_label(field);
            proof {
                if r {
                    let name = choose|name: Seq<char>|
                        field@ == #[trigger] label_field(name);
                    json::member_of_one("label"@, JsonV::Text(name), "label"@);
                }
            }
            r
        },
    }
}

/// Tests whether chips can stand for a query without loss.
pub fn is_flat(query: &Json) -> (r: bool)
    ensures
        r == flat(query@),
{
    if !stands_side_by_side(query) {
        return false;
    }
    let conds = conditions(query);
    let ghost all = json::items_view(conds@);
    let mut i: usize = 0;
    while i < conds.len()
        invariant
            i <= conds@.len(),
            all == json::items_view(conds@),
            all == conditions_of(query@),
            forall|k: int| 0 <= k < i ==> chip_is_whole(#[trigger] all[k]),
        decreases conds@.len() - i,
    {
        assert(all[i as int] == conds@[i as int]@);
        if !has_whole_chip(&conds[i]) {
            assert(!chip_is_whole(all[i as int]));
            return false;
        }
        i += 1;
    }
    true
}

/// Whether a condition is a full-text one.
pub open spec fn is_text_cond(c: JsonV) -> bool {
    chip_of_cond(c) matches Some(ChipV::Text { keyword })
}

/// The conditions that are no full-text ones.
pub open spec fn without_text(conds: Seq<JsonV>) -> Seq<JsonV>
    decreases conds.len(),
{
    if conds.len() == 0 {
        seq![]
    } else if is_text_cond(conds.last()) {
        without_text(conds.drop_last())
    } else {
        without_text(conds.drop_last()).push(conds.last())
    }
}

/// The full-text condition of a keyword.
pub open spec fn text_cond(keyword: Seq<char>) -> JsonV {
    chip_cond(ChipV::Text { keyword: keyword })
}

/// A query with a keyword. Where conditions stand side by side, the full-text
/// ones are replaced by that of the keyword, or removed where there is none;
/// another query is kept whole, with the keyword beside it.
pub open spec fn query_with_text(q: JsonV, keyword: Seq<char>) -> JsonV {
    let kw = text::trimmed(keyword);
    if side_by_side(q) {
        let kept = without_text(conditions_of(q));
        and_json(
            if kw.len() == 0 {
                kept
            } else {
                kept.push(text_cond(kw))
            },
        )
    } else if kw.len() == 0 {
        q
    } else {
        and_json(seq![q, text_cond(kw)])
    }
}

/// Joins a keyword to a query.
pub fn with_text(query: &Json, keyword: &str) -> (r: Json)
    ensures
        r@ == query_with_text(query@, keyword@),
{
    let kw = text::trim(keyword);
    if stands_side_by_side(query) {
        let conds = conditions(query);
        let ghost all = json::items_view(conds@);
        let mut out: Vec<Json> = Vec::new();
        let mut i: usize = 0;
        assert(json::items_view(out@) =~= seq![]);
        while i < conds.len()
            invariant
                i <= conds@.len(),
                all == json::items_view(conds@),
                json::items_view(out@) == without_text(all.take(i as int)),
            decreases conds@.len() - i,
        {
            assert(all.take(i + 1).drop_last() =~= all.take(i as int));
            assert(all.take(i + 1).last() == conds@[i as int]@);
            let is_text = match chip_of(&conds[i]) {
                Some(CondChip::Text { keyword: _ }) => true,
                _ => false,
            };
            if !is_text {
                json::add_item(&mut out, conds[i].copy());
            }
            i += 1;
        }
        assert(all.take(i as int) =~= all);
        if !kw.as_str().is_empty() {
            json::add_item(&mut out, chip_to_cond(&CondChip::Text { keyword: kw }));
        }
        json::object1("and", json::array(out))
    } else if kw.as_str().is_empty() {
        query.copy()
    } else {
        let mut out: Vec<Json> = Vec::new();
        assert(json::items_view(out@) =~= seq![]);
        json::add_item(&mut out, query.copy());
        json::add_item(&mut out, chip_to_cond(&CondChip::Text { keyword: kw }));
        assert(json::items_view(out@) =~= seq![query@, text_cond(kw@)]);
        json::object1("and", json::array(out))
    }
}

// ---------------------------------------------------------------------------
// Laws
// ---------------------------------------------------------------------------

/// The keys and fields of conditions differ from one another.
proof fn keys_differ()
    ensures
        "and"@ != "cond"@,
        "and"@ != "or"@,
        "and"@ != "not"@,
        "field"@ != "op"@,
        "field"@ != "value"@,
        "op"@ != "value"@,
        "text"@ != "updatedAt"@,
        "text"@ != "createdAt"@,
        "text"@ != "code"@,
        "text"@ != "title"@,
        "text"@ != "detail"@,
        "text"@ != "createdBy"@,
        "text"@ != "updatedBy"@,
        "cond"@ != "or"@,
        "cond"@ != "not"@,
{
    reveal_strlit("and");
    reveal_strlit("or");
    reveal_strlit("not");
    reveal_strlit("cond");
    reveal_strlit("field");
    reveal_strlit("op");
    reveal_strlit("value");
    reveal_strlit("text");
    reveal_strlit("updatedAt");
    reveal_strlit("createdAt");
    reveal_strlit("code");
    reveal_strlit("title");
    reveal_strlit("detail");
    reveal_strlit("createdBy");
    reveal_strlit("updatedBy");
    assert("and"@[0] == 'a' && "not"@[0] == 'n' && "cond"@[0] == 'c');
    assert("field"@[0] == 'f' && "op"@[0] == 'o' && "value"@[0] == 'v');
    assert("text"@[1] == 'e' && "title"@[1] == 'i');
    assert("text"@[0] == 't' && "updatedAt"@[0] == 'u' && "createdAt"@[0] == 'c' && "code"@[0]
        == 'c' && "detail"@[0] == 'd' && "createdBy"@[0] == 'c' && "updatedBy"@[0] == 'u');
    assert("or"@.len() == 2 && "and"@.len() == 3 && "cond"@.len() == 4 && "not"@.len() == 3);
}

/// The parts of a condition.
proof fn cond_parts(field: JsonV, op: Seq<char>, value: JsonV)
    ensures
        json::member(cond_json(field, op, value), "cond"@) matches Some(c) && json::member(
            c,
            "field"@,
        ) == Some(field) && json::member(c, "op"@) == Some(JsonV::Text(op)) && json::member(
            c,
            "value"@,
        ) == Some(value),
        json::member(cond_json(field, op, value), "and"@) is None,
        json::member(cond_json(field, op, value), "or"@) is None,
        json::member(cond_json(field, op, value), "not"@) is None,
{
    keys_differ();
    let inner = JsonV::Object(
        seq![("field"@, field), ("op"@, JsonV::Text(op)), ("value"@, value)],
    );
    json::member_of_one("cond"@, inner, "cond"@);
    json::member_of_one("cond"@, inner, "and"@);
    json::member_of_one("cond"@, inner, "or"@);
    json::member_of_one("cond"@, inner, "not"@);
    json::member_of_three("field"@, field, "op"@, JsonV::Text(op), "value"@, value);
}

/// Conditions are equal only where their parts are.
proof fn conds_differ(field: JsonV, op: Seq<char>, value: JsonV)
    ensures
        forall|f: JsonV, o: Seq<char>, v: JsonV|
            #[trigger] cond_json(f, o, v) == cond_json(field, op, value) ==> f == field && o == op
                && v == value,
{
    assert forall|f: JsonV, o: Seq<char>, v: JsonV| #[trigger]
        cond_json(f, o, v) == cond_json(field, op, value) implies f == field && o == op && v
        == value by {
        cond_parts(f, o, v);
        cond_parts(field, op, value);
    }
}

/// The parts of an `and`.
proof fn and_parts(parts: Seq<JsonV>)
    ensures
        json::member(and_json(parts), "and"@) == Some(JsonV::Array(parts)),
        conditions_of(and_json(parts)) == parts,
        side_by_side(and_json(parts)) == (forall|i: int|
            0 <= i < parts.len() ==> json::member(#[trigger] parts[i], "cond"@) is Some),
{
    json::member_of_one("and"@, JsonV::Array(parts), "and"@);
}

/// Whether the bar can show a chip: a time chip is on one of the two dates of
/// an entry.
pub open spec fn showable(c: ChipV) -> bool {
    c matches ChipV::Time { field, op, value } ==> field == "updatedAt"@ || field == "createdAt"@
}

/// A chip is read back from its condition.
proof fn chip_reads_back(c: ChipV)
    requires
        showable(c),
    ensures
        chip_of_cond(chip_cond(c)) == Some(c),
        json::member(chip_cond(c), "cond"@) is Some,
{
    keys_differ();
    match c {
        ChipV::Label { name, op, value } => {
            let field = label_field(name);
            json::member_of_one("label"@, JsonV::Text(name), "label"@);
            cond_parts(field, op, value);
        },
        ChipV::Time { field, op, value } => {
            cond_parts(JsonV::Text(field), op, value);
        },
        ChipV::Text { keyword } => {
            cond_parts(JsonV::Text("text"@), "contains"@, JsonV::Text(keyword));
        },
    }
}

/// Chips of conditions that all have one.
proof fn chips_of_all(cs: Seq<ChipV>, conds: Seq<JsonV>)
    requires
        cs.len() == conds.len(),
        forall|i: int| 0 <= i < cs.len() ==> chip_of_cond(#[trigger] conds[i]) == Some(cs[i]),
    ensures
        chips_of(conds) == cs,
    decreases cs.len(),
{
    if cs.len() > 0 {
        let c2 = cs.drop_last();
        let d2 = conds.drop_last();
        assert forall|i: int| 0 <= i < c2.len() implies chip_of_cond(#[trigger] d2[i]) == Some(
            c2[i],
        ) by {
            assert(d2[i] == conds[i]);
        }
        chips_of_all(c2, d2);
        assert(conds.last() == conds[conds.len() - 1]);
        assert(cs =~= c2.push(cs.last()));
    } else {
        assert(chips_of(conds) =~= cs);
    }
}

/// Chips survive being made into a query: the query is flat, and the bar shows
/// the same chips for it.
pub proof fn chips_survive_query(cs: Seq<ChipV>)
    requires
        forall|i: int| 0 <= i < cs.len() ==> showable(#[trigger] cs[i]),
    ensures
        chips_of(conditions_of(chips_query(cs))) == cs,
        flat(chips_query(cs)),
{
    let conds = Seq::new(cs.len(), |i: int| chip_cond(cs[i]));
    and_parts(conds);
    assert forall|i: int| 0 <= i < cs.len() implies chip_of_cond(#[trigger] conds[i]) == Some(cs[i])
        && json::member(conds[i], "cond"@) is Some by {
        chip_reads_back(cs[i]);
    }
    chips_of_all(cs, conds);
}

/// Chips that are no full-text ones.
pub open spec fn other_chips(cs: Seq<ChipV>) -> Seq<ChipV>
    decreases cs.len(),
{
    if cs.len() == 0 {
        seq![]
    } else if cs.last() is Text {
        other_chips(cs.drop_last())
    } else {
        other_chips(cs.drop_last()).push(cs.last())
    }
}

/// Removing full-text conditions removes full-text chips.
proof fn without_text_chips(conds: Seq<JsonV>)
    ensures
        chips_of(without_text(conds)) == other_chips(chips_of(conds)),
        without_text(without_text(conds)) == without_text(conds),
    decreases conds.len(),
{
    if conds.len() > 0 {
        let d = conds.drop_last();
        without_text_chips(d);
        let kept = without_text(d);
        let all = chips_of(d);
        match chip_of_cond(conds.last()) {
            Some(c) => {
                assert(all.push(c).drop_last() =~= all);
                if !(c is Text) {
                    assert(kept.push(conds.last()).drop_last() =~= kept);
                }
            },
            None => {
                assert(kept.push(conds.last()).drop_last() =~= kept);
            },
        }
    }
}

/// What is kept of conditions is among them.
proof fn without_text_among(conds: Seq<JsonV>)
    ensures
        forall|i: int|
            0 <= i < without_text(conds).len() ==> conds.contains(#[trigger] without_text(conds)[i]),
        forall|i: int|
            0 <= i < conds.len() && !is_text_cond(conds[i]) ==> without_text(conds).contains(
                #[trigger] conds[i],
            ),
    decreases conds.len(),
{
    if conds.len() > 0 {
        let d = conds.drop_last();
        without_text_among(d);
        let kept = without_text(d);
        let now = without_text(conds);
        assert forall|i: int| 0 <= i < now.len() implies conds.contains(#[trigger] now[i]) by {
            if i < kept.len() {
                assert(now[i] == kept[i]);
                let j = choose|j: int| 0 <= j < d.len() && d[j] == kept[i];
                assert(conds[j] == now[i]);
            } else {
                assert(conds[conds.len() - 1] == now[i]);
            }
        }
        assert forall|i: int| 0 <= i < conds.len() && !is_text_cond(conds[i]) implies now.contains(
            #[trigger] conds[i],
        ) by {
            if i < d.len() {
                assert(d[i] == conds[i]);
                let j = choose|j: int| 0 <= j < kept.len() && kept[j] == d[i];
                assert(now[j] == conds[i]);
            } else {
                assert(now[now.len() - 1] == conds[i]);
            }
        }
    }
}

/// The conditions that chips are made from come back from them exactly where
/// each has a whole chip.
proof fn whole_chips(conds: Seq<JsonV>)
    ensures
        chips_of(conds).len() <= conds.len(),
        (forall|i: int| 0 <= i < conds.len() ==> chip_is_whole(#[trigger] conds[i])) == (Seq::new(
            chips_of(conds).len(),
            |i: int| chip_cond(chips_of(conds)[i]),
        ) == conds),
    decreases conds.len(),
{
    let cs = chips_of(conds);
    let back = Seq::new(cs.len(), |i: int| chip_cond(cs[i]));
    if conds.len() > 0 {
        let d = conds.drop_last();
        let ds = chips_of(d);
        let dback = Seq::new(ds.len(), |i: int| chip_cond(ds[i]));
        whole_chips(d);
        let last = conds.last();
        assert(conds =~= d.push(last));
        let whole = forall|i: int| 0 <= i < conds.len() ==> chip_is_whole(#[trigger] conds[i]);
        let dwhole = forall|i: int| 0 <= i < d.len() ==> chip_is_whole(#[trigger] d[i]);
        assert(whole == (dwhole && chip_is_whole(last))) by {
            if whole {
                assert forall|i: int| 0 <= i < d.len() implies chip_is_whole(#[trigger] d[i]) by {
                    assert(chip_is_whole(conds[i]));
                }
                assert(chip_is_whole(conds[conds.len() - 1]));
            }
            if dwhole && chip_is_whole(last) {
                assert forall|i: int| 0 <= i < conds.len() implies chip_is_whole(
                    #[trigger] conds[i],
                ) by {
                    if i < d.len() {
                        assert(chip_is_whole(d[i]));
                    }
                }
            }
        }
        match chip_of_cond(last) {
            Some(k) => {
                assert(back =~= dback.push(chip_cond(k)));
                assert(back.drop_last() =~= dback);
                assert(conds.drop_last() =~= d);
                if back == conds {
                    assert(dback == d);
                    assert(back.last() == conds.last());
                }
            },
            None => {
                assert(back.len() < conds.len());
            },
        }
    } else {
        assert(back =~= conds);
    }
}

/// A query is flat exactly where conditions stand side by side in it and all of
/// them come back, in order, from the chips that the bar shows for it.
pub proof fn flat_query_comes_back(q: JsonV)
    ensures
        flat(q) == (side_by_side(q) && chips_query(chips_of(conditions_of(q))) == and_json(
            conditions_of(q),
        )),
        flat(q) ==> json::member(chips_query(chips_of(conditions_of(q))), "and"@) == Some(
            JsonV::Array(conditions_of(q)),
        ),
{
    let conds = conditions_of(q);
    let cs = chips_of(conds);
    let back = Seq::new(cs.len(), |i: int| chip_cond(cs[i]));
    whole_chips(conds);
    and_parts(conds);
    and_parts(back);
    assert(chips_query(cs) == and_json(back));
}

/// Where conditions stand side by side in a query, they still do when a keyword
/// is joined to it, and the bar then shows its other chips as before and one for
/// the keyword last, or none where the keyword is blank. A flat query stays
/// flat. Joining a second keyword is joining it alone.
pub proof fn keyword_on_flat_query(q: JsonV, keyword: Seq<char>, next: Seq<char>)
    requires
        side_by_side(q),
    ensures
        side_by_side(query_with_text(q, keyword)),
        flat(q) ==> flat(query_with_text(q, keyword)),
        chips_of(conditions_of(query_with_text(q, keyword))) == (if text::is_blank(keyword) {
            other_chips(chips_of(conditions_of(q)))
        } else {
            other_chips(chips_of(conditions_of(q))).push(
                ChipV::Text { keyword: text::trimmed(keyword) },
            )
        }),
        query_with_text(query_with_text(q, keyword), next) == query_with_text(q, next),
{
    let conds = conditions_of(q);
    let kept = without_text(conds);
    let kw = text::trimmed(keyword);
    let c = text_cond(kw);
    let parts = if kw.len() == 0 {
        kept
    } else {
        kept.push(c)
    };
    without_text_chips(conds);
    without_text_among(conds);
    and_parts(parts);
    chip_reads_back(ChipV::Text { keyword: kw });
    assert(forall|i: int|
        0 <= i < conds.len() ==> json::member(#[trigger] conds[i], "cond"@) is Some);
    assert forall|i: int| 0 <= i < parts.len() implies json::member(
        #[trigger] parts[i],
        "cond"@,
    ) is Some by {
        if i < kept.len() {
            assert(parts[i] == kept[i]);
            let j = choose|j: int| 0 <= j < conds.len() && conds[j] == kept[i];
            assert(json::member(conds[j], "cond"@) is Some);
        }
    }
    assert(kept.push(c).drop_last() =~= kept);
    if flat(q) {
        assert forall|i: int| 0 <= i < parts.len() implies chip_is_whole(#[trigger] parts[i]) by {
            if i < kept.len() {
                assert(parts[i] == kept[i]);
                let j = choose|j: int| 0 <= j < conds.len() && conds[j] == kept[i];
                assert(chip_is_whole(conds[j]));
            }
        }
    }
}

/// A query with more than conditions side by side is kept: a blank keyword changes
/// nothing, and with another one an entry meets the result exactly where it
/// meets the query and contains the keyword.
pub proof fn keyword_on_other_query(q: JsonV, keyword: Seq<char>, e: Entry, ls: Seq<Labeling>)
    requires
        !side_by_side(q),
    ensures
        text::is_blank(keyword) ==> query_with_text(q, keyword) == q,
        !text::is_blank(keyword) ==> query_eval::query_holds(query_with_text(q, keyword), e, ls)
            == (query_eval::query_holds(q, e, ls) && query_eval::entry_has(
            e,
            ls,
            text::trimmed(keyword),
        )),
{
    let kw = text::trimmed(keyword);
    if kw.len() > 0 {
        let c = text_cond(kw);
        let parts = seq![q, c];
        and_parts(parts);
        text_cond_holds(kw, e, ls);
        let whole = and_json(parts);
        assert(json::member(whole, "and"@) == Some(JsonV::Array(parts)));
        if query_eval::query_holds(whole, e, ls) {
            assert(query_eval::query_holds(parts[0], e, ls));
            assert(query_eval::query_holds(parts[1], e, ls));
        } else {
            let i = choose|i: int|
                0 <= i < parts.len() && !query_eval::query_holds(#[trigger] parts[i], e, ls);
            assert(i == 0 || i == 1);
        }
    }
}

/// An entry meets a full-text condition exactly where it contains the keyword.
pub proof fn text_cond_holds(kw: Seq<char>, e: Entry, ls: Seq<Labeling>)
    ensures
        query_eval::query_holds(text_cond(kw), e, ls) == query_eval::entry_has(e, ls, kw),
{
    keys_differ();
    cond_parts(JsonV::Text("text"@), "contains"@, JsonV::Text(kw));
}

/// The bar shows a condition on a label with its operator and value, one on one
/// of the two dates of an entry likewise, a full-text one with its keyword, and
/// no other. A missing operator is equality, and a missing value null.
pub proof fn conditions_are_shown(
    q: JsonV,
    c: JsonV,
    field: JsonV,
    op: Seq<char>,
    value: JsonV,
    name: Seq<char>,
    f: Seq<char>,
)
    requires
        json::member(q, "cond"@) == Some(c),
        json::member(c, "field"@) == Some(field),
        json::member(c, "op"@) == Some(JsonV::Text(op)) || json::member(c, "op"@) is None && op
            == "eq"@,
        json::member(c, "value"@) == Some(value) || json::member(c, "value"@) is None && value
            is Null,
    ensures
        json::member(field, "label"@) == Some(JsonV::Text(name)) ==> chip_of_cond(q) == Some(
            ChipV::Label { name: name, op: op, value: value },
        ),
        field == JsonV::Text("createdAt"@) ==> chip_of_cond(q) == Some(
            ChipV::Time { field: "createdAt"@, op: op, value: value },
        ),
        field == JsonV::Text("updatedAt"@) ==> chip_of_cond(q) == Some(
            ChipV::Time { field: "updatedAt"@, op: op, value: value },
        ),
        field == JsonV::Text("text"@) && value == JsonV::Text(name) ==> chip_of_cond(q) == Some(
            ChipV::Text { keyword: name },
        ),
        field == JsonV::Text(f) && f != "text"@ && f != "createdAt"@ && f != "updatedAt"@
            ==> chip_of_cond(q) is None,
{
    keys_differ();
}

/// The chips of conditions are those of each in their order; a condition that
/// has none leaves none.
pub proof fn conditions_are_shown_in_order(x: Seq<JsonV>, y: Seq<JsonV>, c: JsonV)
    ensures
        chips_of(x + y) == chips_of(x) + chips_of(y),
        chips_of(seq![c]) == (match chip_of_cond(c) {
            Some(k) => seq![k],
            None => Seq::<ChipV>::empty(),
        }),
    decreases y.len(),
{
    let one = seq![c];
    assert(one.last() == c);
    assert(one.drop_last() =~= seq![]);
    assert(chips_of(one.drop_last()) =~= seq![]);
    assert(chips_of(one) =~= (match chip_of_cond(c) {
        Some(k) => seq![k],
        None => Seq::<ChipV>::empty(),
    }));
    if y.len() == 0 {
        assert(x + y =~= x);
        assert(chips_of(x) + chips_of(y) =~= chips_of(x));
    } else {
        conditions_are_shown_in_order(x, y.drop_last(), c);
        assert((x + y).drop_last() =~= x + y.drop_last());
        assert((x + y).last() == y.last());
        assert(chips_of(x + y) =~= chips_of(x) + chips_of(y));
    }
}

/// The query of a chip asks what the chip says.
pub proof fn chips_ask_what_they_say(
    name: Seq<char>,
    op: Seq<char>,
    value: JsonV,
    keyword: Seq<char>,
)
    ensures
        crate::query_laws::asks(
            chip_cond(ChipV::Label { name: name, op: op, value: value }),
            label_field(name),
            op,
            Some(value),
        ),
        crate::query_laws::on_label(label_field(name), name),
        crate::query_laws::asks(
            chip_cond(ChipV::Time { field: name, op: op, value: value }),
            JsonV::Text(name),
            op,
            Some(value),
        ),
        crate::query_laws::asks(
            chip_cond(ChipV::Text { keyword: keyword }),
            JsonV::Text("text"@),
            "contains"@,
            Some(JsonV::Text(keyword)),
        ),
{
    cond_parts(label_field(name), op, value);
    json::member_of_one("label"@, JsonV::Text(name), "label"@);
    cond_parts(JsonV::Text(name), op, value);
    cond_parts(JsonV::Text("text"@), "contains"@, JsonV::Text(keyword));
}

/// An entry meets the query of chips where it meets that of each.
pub proof fn chips_must_all_hold(cs: Seq<ChipV>, e: Entry, ls: Seq<Labeling>)
    ensures
        query_eval::query_holds(chips_query(cs), e, ls) <==> forall|i: int|
            0 <= i < cs.len() ==> query_eval::query_holds(chip_cond(#[trigger] cs[i]), e, ls),
{
    let parts = Seq::new(cs.len(), |i: int| chip_cond(cs[i]));
    and_parts(parts);
    if query_eval::query_holds(chips_query(cs), e, ls) {
        assert forall|i: int| 0 <= i < cs.len() implies query_eval::query_holds(
            chip_cond(#[trigger] cs[i]),
            e,
            ls,
        ) by {
            assert(query_eval::query_holds(parts[i], e, ls));
        }
    }
    if forall|i: int|
        0 <= i < cs.len() ==> query_eval::query_holds(chip_cond(#[trigger] cs[i]), e, ls) {
        assert forall|i: int| 0 <= i < parts.len() implies query_eval::query_holds(
            #[trigger] parts[i],
            e,
            ls,
        ) by {
            assert(parts[i] == chip_cond(cs[i]));
        }
    }
}

/// The chips that the bar shows for a flat query that has conditions are met by
/// the entries that meet the query.
pub proof fn flat_queries_keep_their_meaning(q: JsonV, e: Entry, ls: Seq<Labeling>)
    requires
        flat(q),
        conditions_of(q).len() > 0,
    ensures
        query_eval::query_holds(chips_query(chips_of(conditions_of(q))), e, ls)
            == query_eval::query_holds(q, e, ls),
{
    flat_query_comes_back(q);
    let conds = conditions_of(q);
    let back = and_json(conds);
    and_parts(conds);
    if !(json::member(q, "and"@) matches Some(JsonV::Array(_))) {
        assert(conds =~= seq![q]);
        assert(conds[0] == q);
        assert(json::member(back, "and"@) == Some(JsonV::Array(conds)));
        if query_eval::query_holds(q, e, ls) {
            assert forall|i: int| 0 <= i < conds.len() implies query_eval::query_holds(
                #[trigger] conds[i],
                e,
                ls,
            ) by {}
        }
    }
}

/// Joining a keyword to conditions side by side takes out those that are full
/// text and no others, and puts one for the keyword last.
pub proof fn keywords_replace_keywords(
    x: Seq<JsonV>,
    c: JsonV,
    y: Seq<JsonV>,
    keyword: Seq<char>,
)
    ensures
        without_text(x + y) == without_text(x) + without_text(y),
        (chip_of_cond(c) matches Some(k) && k is Text) ==> without_text(seq![c]).len() == 0,
        !(chip_of_cond(c) matches Some(k) && k is Text) ==> without_text(seq![c]) == seq![c],
        !text::all_white(keyword) ==> query_with_text(JsonV::Null, keyword) == JsonV::Object(
            seq![("and"@, JsonV::Array(seq![text_cond(text::trimmed(keyword))]))],
        ),
    decreases y.len(),
{
    text::blank_is_white(keyword);
    let one = seq![c];
    assert(one.last() == c);
    assert(one.drop_last() =~= seq![]);
    assert(without_text(one.drop_last()) =~= seq![]);
    assert(is_text_cond(c) || without_text(one) =~= seq![c]);
    let none = conditions_of(JsonV::Null);
    assert(none =~= seq![]);
    assert(without_text(none) =~= seq![]);
    assert(without_text(none).push(text_cond(text::trimmed(keyword))) =~= seq![
        text_cond(text::trimmed(keyword)),
    ]);
    if y.len() == 0 {
        assert(x + y =~= x);
        assert(without_text(x) + without_text(y) =~= without_text(x));
    } else {
        keywords_replace_keywords(x, c, y.drop_last(), keyword);
        assert((x + y).drop_last() =~= x + y.drop_last());
        assert((x + y).last() == y.last());
        assert(without_text(x + y) =~= without_text(x) + without_text(y));
    }
}

} // verus!
