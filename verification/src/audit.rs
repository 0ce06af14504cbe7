//! The audit log: what a change changed, in one line.

use vstd::prelude::*;

use crate::graphql_client::AuditLog;
use crate::json;
use crate::json::{Json, JsonV};
use crate::text;

verus! {

/// What stands for nothing.
pub const NOTHING: &'static str = "—";

/// A text on one line, cut after forty characters.
pub open spec fn clipped(s: Seq<char>) -> Seq<char> {
    let line = text::replaced(s, '\n', ' ');
    if line.len() <= 40 {
        line
    } else {
        line.take(40).push('…')
    }
}

/// Puts a text on one line and cuts it after forty characters.
fn clip(s: &str) -> (r: String)
    ensures
        r@ == clipped(s@),
{
    let line = text::replace_char(s, '\n', ' ');
    let v = text::chars_of(line.as_str());
    if v.len() <= 40 {
        line
    } else {
        assert(v@.subrange(0, 40) =~= v@.take(40));
        let mut out = text::string_of(&v, 0, 40);
        out.push('…');
        out
    }
}

/// How a value of a snapshot is shown: a string by itself, another value as
/// JSON, and null as nothing.
pub open spec fn shown(j: JsonV) -> Seq<char> {
    match j {
        JsonV::Null => NOTHING@,
        JsonV::Text(s) => clipped(s),
        _ => clipped(json::json_text(j)),
    }
}

/// How a value of a snapshot is shown.
fn show(v: &Json) -> (r: String)
    ensures
        r@ == shown(v@),
{
    match v {
        Json::Null => NOTHING.to_owned(),
        Json::Text(s) => clip(s.as_str()),
        _ => clip(json::write(v).as_str()),
    }
}

/// What a field of a snapshot is called.
pub open spec fn field_name(k: Seq<char>) -> Seq<char> {
    if k == "title"@ {
        "标题"@
    } else if k == "detail"@ {
        "详情"@
    } else if k == "name"@ {
        "名称"@
    } else if k == "slug"@ {
        "地址"@
    } else if k == "description"@ {
        "描述"@
    } else if k == "deleted_at"@ {
        "删除时间"@
    } else if k == "value"@ {
        "值"@
    } else if k == "label_name"@ {
        "标签"@
    } else if k == "value_type"@ {
        "值类型"@
    } else if k == "enum_values"@ {
        "可选值"@
    } else if k == "color"@ {
        "颜色"@
    } else if k == "value_colors"@ {
        "值颜色"@
    } else if k == "query"@ {
        "条件"@
    } else if k == "columns"@ {
        "列"@
    } else if k == "sort"@ {
        "排序"@
    } else if k == "is_shared"@ {
        "共享"@
    } else if k == "title_colors"@ {
        "标题颜色规则"@
    } else if k == "role"@ {
        "角色"@
    } else if k == "account_id"@ {
        "成员"@
    } else {
        k
    }
}

/// What a field of a snapshot is called; one that is not known by its own name.
fn field_label(k: &str) -> (r: String)
    ensures
        r@ == field_name(k@),
{
    if text::same(k, "title") {
        "标题".to_owned()
    } else if text::same(k, "detail") {
        "详情".to_owned()
    } else if text::same(k, "name") {
        "名称".to_owned()
    } else if text::same(k, "slug") {
        "地址".to_owned()
    } else if text::same(k, "description") {
        "描述".to_owned()
    } else if text::same(k, "deleted_at") {
        "删除时间".to_owned()
    } else if text::same(k, "value") {
        "值".to_owned()
    } else if text::same(k, "label_name") {
        "标签".to_owned()
    } else if text::same(k, "value_type") {
        "值类型".to_owned()
    } else if text::same(k, "enum_values") {
        "可选值".to_owned()
    } else if text::same(k, "color") {
        "颜色".to_owned()
    } else if text::same(k, "value_colors") {
        "值颜色".to_owned()
    } else if text::same(k, "query") {
        "条件".to_owned()
    } else if text::same(k, "columns") {
        "列".to_owned()
    } else if text::same(k, "sort") {
        "排序".to_owned()
    } else if text::same(k, "is_shared") {
        "共享".to_owned()
    } else if text::same(k, "title_colors") {
        "标题颜色规则".to_owned()
    } else if text::same(k, "role") {
        "角色".to_owned()
    } else if text::same(k, "account_id") {
        "成员".to_owned()
    } else {
        k.to_owned()
    }
}

/// The keys by which a resource is named, the best first.
pub open spec fn naming_keys() -> Seq<Seq<char>> {
    seq!["title"@, "name"@, "label_name"@, "value"@, "email"@, "account_id"@]
}

/// The name of a resource by the keys from `i` on: the first that shows
/// anything.
pub open spec fn named_by(o: JsonV, keys: Seq<Seq<char>>) -> Seq<char>
    decreases keys.len(),
{
    if keys.len() == 0 {
        "（无标题）"@
    } else {
        match json::member(o, keys[0]) {
            Some(v) => if shown(v) != NOTHING@ {
                shown(v)
            } else {
                named_by(o, keys.skip(1))
            },
            None => named_by(o, keys.skip(1)),
        }
    }
}

/// The name of a resource by the keys of a list.
fn name_by(o: &Json, keys: &Vec<&'static str>) -> (r: String)
    ensures
        r@ == named_by(o@, Seq::new(keys@.len(), |i: int| keys@[i]@)),
{
    let ghost all = Seq::new(keys@.len(), |i: int| keys@[i]@);
    let mut i: usize = 0;
    assert(all.skip(0) =~= all);
    while i < keys.len()
        invariant
            i <= keys@.len(),
            all == Seq::new(keys@.len(), |i: int| keys@[i]@),
            named_by(o@, all) == named_by(o@, all.skip(i as int)),
        decreases keys@.len() - i,
    {
        let ghost rest = all.skip(i as int);
        assert(rest[0] == keys@[i as int]@);
        assert(rest.skip(1) =~= all.skip(i + 1));
        if let Some(v) = o.get(keys[i]) {
            let s = show(v);
            if !text::same(s.as_str(), NOTHING) {
                return s;
            }
        }
        i += 1;
    }
    "（无标题）".to_owned()
}

/// The name of a resource.
fn subject(o: &Json) -> (r: String)
    ensures
        r@ == named_by(o@, naming_keys()),
{
    let keys: Vec<&'static str> = vec!["title", "name", "label_name", "value", "email", "account_id"];
    assert(Seq::new(keys@.len(), |i: int| keys@[i]@) =~= naming_keys());
    name_by(o, &keys)
}

/// The keys of members.
pub open spec fn keys_of(o: Seq<(Seq<char>, JsonV)>) -> Seq<Seq<char>> {
    Seq::new(o.len(), |i: int| o[i].0)
}

/// The keys of members that an object does not have.
pub open spec fn keys_missing(o: Seq<(Seq<char>, JsonV)>, other: JsonV) -> Seq<Seq<char>>
    decreases o.len(),
{
    if o.len() == 0 {
        seq![]
    } else if json::member(other, o.last().0) is Some {
        keys_missing(o.drop_last(), other)
    } else {
        keys_missing(o.drop_last(), other).push(o.last().0)
    }
}

/// The member of an object, null where there is none.
pub open spec fn member_or_null(o: JsonV, key: Seq<char>) -> JsonV {
    match json::member(o, key) {
        Some(v) => v,
        None => JsonV::Null,
    }
}

/// What is said of a field that changed.
pub open spec fn change_text(b: JsonV, a: JsonV, key: Seq<char>) -> Seq<char> {
    field_name(key) + ": "@ + shown(member_or_null(b, key)) + " → "@ + shown(member_or_null(a, key))
}

/// What is said of the fields that changed, in the order of their keys.
pub open spec fn changes(b: JsonV, a: JsonV, keys: Seq<Seq<char>>) -> Seq<Seq<char>>
    decreases keys.len(),
{
    if keys.len() == 0 {
        seq![]
    } else {
        let rest = changes(b, a, keys.drop_last());
        if json::same_json(member_or_null(b, keys.last()), member_or_null(a, keys.last())) {
            rest
        } else {
            rest.push(change_text(b, a, keys.last()))
        }
    }
}

/// What changed between two objects: the fields of the second in its order,
/// then those that only the first has.
pub open spec fn difference(
    b: Seq<(Seq<char>, JsonV)>,
    a: Seq<(Seq<char>, JsonV)>,
) -> Seq<char> {
    let bo = JsonV::Object(b);
    let ao = JsonV::Object(a);
    let parts = changes(bo, ao, keys_of(a) + keys_missing(b, ao));
    if parts.len() == 0 {
        "无字段变化"@
    } else {
        text::joined(parts, "；"@)
    }
}

/// The keys of two objects: those of the second, then those that only the
/// first has.
fn both_keys(b: &Vec<(String, Json)>, a: &Vec<(String, Json)>, ao: &Json) -> (r: Vec<String>)
    requires
        ao@ == JsonV::Object(json::members_view(a@)),
    ensures
        text::contents(r@) == keys_of(json::members_view(a@)) + keys_missing(
            json::members_view(b@),
            ao@,
        ),
{
    let ghost am = json::members_view(a@);
    let ghost bm = json::members_view(b@);
    let mut keys: Vec<String> = Vec::new();
    let mut i: usize = 0;
    while i < a.len()
        invariant
            i <= a@.len(),
            am == json::members_view(a@),
            text::contents(keys@) == keys_of(am).take(i as int),
        decreases a@.len() - i,
    {
        let ghost before = keys@;
        keys.push(a[i].0.clone());
        assert(text::contents(keys@) =~= text::contents(before).push(am[i as int].0));
        i += 1;
        assert(text::contents(keys@) =~= keys_of(am).take(i as int));
    }
    assert(keys_of(am).take(i as int) =~= keys_of(am));
    let mut j: usize = 0;
    assert(text::contents(keys@) =~= keys_of(am) + keys_missing(bm.take(0), ao@));
    while j < b.len()
        invariant
            j <= b@.len(),
            bm == json::members_view(b@),
            text::contents(keys@) == keys_of(am) + keys_missing(bm.take(j as int), ao@),
        decreases b@.len() - j,
    {
        let ghost before = keys@;
        assert(bm.take(j + 1).drop_last() =~= bm.take(j as int));
        assert(bm.take(j + 1).last() == bm[j as int]);
        if ao.get(b[j].0.as_str()).is_none() {
            keys.push(b[j].0.clone());
            assert(text::contents(keys@) =~= text::contents(before).push(bm[j as int].0));
        }
        j += 1;
        assert(text::contents(keys@) =~= keys_of(am) + keys_missing(bm.take(j as int), ao@));
    }
    assert(bm.take(j as int) =~= bm);
    keys
}

/// What is said of one field, where it changed.
fn field_change(b: &Json, a: &Json, key: &str) -> (r: Option<String>)
    ensures
        match r {
            Some(s) => !json::same_json(member_or_null(b@, key@), member_or_null(a@, key@)) && s@
                == change_text(b@, a@, key@),
            None => json::same_json(member_or_null(b@, key@), member_or_null(a@, key@)),
        },
{
    let null = Json::Null;
    let bv = match b.get(key) {
        Some(v) => v,
        None => &null,
    };
    let av = match a.get(key) {
        Some(v) => v,
        None => &null,
    };
    if json::same(bv, av) {
        return None;
    }
    let mut out = field_label(key);
    out.push_str(": ");
    out.push_str(show(bv).as_str());
    out.push_str(" → ");
    out.push_str(show(av).as_str());
    Some(out)
}

/// What changed between two objects.
fn diff(bo: &Json, b: &Vec<(String, Json)>, ao: &Json, a: &Vec<(String, Json)>) -> (r: String)
    requires
        bo@ == JsonV::Object(json::members_view(b@)),
        ao@ == JsonV::Object(json::members_view(a@)),
    ensures
        r@ == difference(json::members_view(b@), json::members_view(a@)),
{
    let keys = both_keys(b, a, ao);
    let ghost all = text::contents(keys@);
    let mut parts: Vec<String> = Vec::new();
    let mut i: usize = 0;
    assert(text::contents(parts@) =~= seq![]);
    while i < keys.len()
        invariant
            i <= keys@.len(),
            all == text::contents(keys@),
            text::contents(parts@) == changes(bo@, ao@, all.take(i as int)),
        decreases keys@.len() - i,
    {
        let ghost before = parts@;
        assert(all.take(i + 1).drop_last() =~= all.take(i as int));
        assert(all.take(i + 1).last() == keys@[i as int]@);
        if let Some(s) = field_change(bo, ao, keys[i].as_str()) {
            parts.push(s);
            assert(text::contents(parts@) =~= text::contents(before).push(s@));
        }
        i += 1;
    }
    assert(all.take(i as int) =~= all);
    assert(text::contents(parts@).len() == parts@.len());
    if parts.len() == 0 {
        "无字段变化".to_owned()
    } else {
        text::join(&parts, "；")
    }
}

/// The members of a snapshot, where it is an object.
pub open spec fn snapshot(j: Option<JsonV>) -> Option<Seq<(Seq<char>, JsonV)>> {
    match j {
        Some(JsonV::Object(o)) => Some(o),
        _ => None,
    }
}

/// One line for a change: what was created or deleted where there is one
/// snapshot, what differs where there are two.
pub open spec fn change_line(before: Option<JsonV>, after: Option<JsonV>) -> Seq<char> {
    match (snapshot(before), snapshot(after)) {
        (None, None) => NOTHING@,
        (None, Some(a)) => "创建「"@ + named_by(JsonV::Object(a), naming_keys()) + "」"@,
        (Some(b), None) => "删除「"@ + named_by(JsonV::Object(b), naming_keys()) + "」"@,
        (Some(b), Some(a)) => difference(b, a),
    }
}

/// One line for a change, from the snapshots before and after it.
pub fn describe_change(before: Option<&Json>, after: Option<&Json>) -> (r: String)
    ensures
        r@ == change_line(json::opt_json(before), json::opt_json(after)),
{
    let b = match before {
        Some(j) => match j.as_object() {
            Some(o) => Some((j, o)),
            None => None,
        },
        None => None,
    };
    let a = match after {
        Some(j) => match j.as_object() {
            Some(o) => Some((j, o)),
            None => None,
        },
        None => None,
    };
    match (b, a) {
        (None, None) => NOTHING.to_owned(),
        (None, Some((aj, _))) => text::concat3("创建「", subject(aj).as_str(), "」"),
        (Some((bj, _)), None) => text::concat3("删除「", subject(bj).as_str(), "」"),
        (Some((bj, bo)), Some((aj, ao))) => diff(bj, bo, aj, ao),
    }
}

/// What a snapshot holds, where its text is JSON.
pub open spec fn read_snapshot(s: Option<Seq<char>>) -> Option<JsonV> {
    match s {
        Some(t) => json::read_content(t),
        None => None,
    }
}

/// Reads a snapshot.
fn parse_snapshot(s: Option<&str>) -> (r: Option<Json>)
    ensures
        match r {
            Some(j) => read_snapshot(text::opt_str(s)) == Some(j@),
            None => read_snapshot(text::opt_str(s)) is None,
        },
{
    match s {
        Some(t) => json::read(t),
        None => None,
    }
}

/// One line for a change, from the texts of the snapshots before and after it.
pub fn audit_change(before: Option<&str>, after: Option<&str>) -> (r: String)
    ensures
        r@ == change_line(
            read_snapshot(text::opt_str(before)),
            read_snapshot(text::opt_str(after)),
        ),
{
    let b = parse_snapshot(before);
    let a = parse_snapshot(after);
    match (&b, &a) {
        (Some(bj), Some(aj)) => describe_change(Some(bj), Some(aj)),
        (Some(bj), None) => describe_change(Some(bj), None),
        (None, Some(aj)) => describe_change(None, Some(aj)),
        (None, None) => describe_change(None, None),
    }
}

/// The positions of the log lines on a resource, in order.
pub open spec fn lines_on(logs: Seq<AuditLog>, code: Seq<char>) -> Seq<int>
    decreases logs.len(),
{
    if logs.len() == 0 {
        seq![]
    } else if logs.last().resource_id@ == code {
        lines_on(logs.drop_last(), code).push(logs.len() - 1)
    } else {
        lines_on(logs.drop_last(), code)
    }
}

/// The log lines on a resource, in order, by their positions.
pub fn lines_of(logs: &[AuditLog], code: &str) -> (r: Vec<usize>)
    ensures
        Seq::new(r@.len(), |i: int| r@[i] as int) == lines_on(logs@, code@),
{
    let mut out: Vec<usize> = Vec::new();
    let mut i: usize = 0;
    assert(Seq::new(out@.len(), |i: int| out@[i] as int) =~= seq![]);
    while i < logs.len()
        invariant
            i <= logs@.len(),
            Seq::new(out@.len(), |i: int| out@[i] as int) == lines_on(logs@.take(i as int), code@),
        decreases logs@.len() - i,
    {
        let ghost before = Seq::new(out@.len(), |i: int| out@[i] as int);
        assert(logs@.take(i + 1).drop_last() =~= logs@.take(i as int));
        if text::same(logs[i].resource_id.as_str(), code) {
            out.push(i);
            assert(Seq::new(out@.len(), |i: int| out@[i] as int) =~= before.push(i as int));
        }
        i += 1;
    }
    assert(logs@.take(i as int) =~= logs@);
    out
}

// ---------------------------------------------------------------------------
// Laws
// ---------------------------------------------------------------------------

/// Whether no object in a value has a key twice.
pub open spec fn keys_once(j: JsonV) -> bool
    decreases j,
{
    match j {
        JsonV::Array(a) => forall|i: int| 0 <= i < a.len() ==> keys_once(#[trigger] a[i]),
        JsonV::Object(o) => {
            &&& forall|i: int| 0 <= i < o.len() ==> keys_once((#[trigger] o[i]).1)
            &&& forall|i: int, k: int|
                0 <= i < k < o.len() ==> (#[trigger] o[i]).0 != (#[trigger] o[k]).0
        },
        _ => true,
    }
}

/// A value equals itself.
pub proof fn same_as_itself(j: JsonV)
    requires
        keys_once(j),
    ensures
        json::same_json(j, j),
    decreases j,
{
    match j {
        JsonV::Array(a) => {
            assert forall|i: int| 0 <= i < a.len() implies json::same_json(#[trigger] a[i], a[i]) by {
                json::element_smaller(j, a, i);
                same_as_itself(a[i]);
            }
        },
        JsonV::Object(o) => {
            assert forall|i: int| 0 <= i < o.len() implies match json::member(
                j,
                (#[trigger] o[i]).0,
            ) {
                Some(v) => json::same_json(o[i].1, v),
                None => false,
            } by {
                json::key_index_is(o, o[i].0, i);
                json::member_smaller(j, o[i].0);
                same_as_itself(o[i].1);
            }
        },
        _ => {},
    }
}

/// Between two snapshots that are the same no change is reported.
pub proof fn no_change_between_same(o: Seq<(Seq<char>, JsonV)>)
    requires
        keys_once(JsonV::Object(o)),
    ensures
        change_line(Some(JsonV::Object(o)), Some(JsonV::Object(o))) == "无字段变化"@,
{
    let j = JsonV::Object(o);
    assert(o.take(o.len() as int) =~= o);
    none_missing(o, o);
    let keys = keys_of(o) + keys_missing(o, j);
    assert(keys =~= keys_of(o));
    assert forall|i: int| 0 <= i < keys.len() implies json::same_json(
        member_or_null(j, #[trigger] keys[i]),
        member_or_null(j, keys[i]),
    ) by {
        json::key_index_is(o, o[i].0, i);
        assert(keys_once(o[i].1));
        same_as_itself(o[i].1);
    }
    nothing_changes(j, j, keys);
}

/// No key of an object is missing in it.
proof fn none_missing(part: Seq<(Seq<char>, JsonV)>, o: Seq<(Seq<char>, JsonV)>)
    requires
        part.len() <= o.len(),
        part == o.take(part.len() as int),
    ensures
        keys_missing(part, JsonV::Object(o)) == Seq::<Seq<char>>::empty(),
    decreases part.len(),
{
    if part.len() > 0 {
        let d = part.drop_last();
        assert(d =~= o.take(d.len() as int));
        none_missing(d, o);
        let key = part.last().0;
        json::key_index_props(o, key);
        assert(o[part.len() - 1].0 == key);
    }
}

/// Where each field is the same, there are no changes.
proof fn nothing_changes(b: JsonV, a: JsonV, keys: Seq<Seq<char>>)
    requires
        forall|i: int|
            0 <= i < keys.len() ==> json::same_json(
                member_or_null(b, #[trigger] keys[i]),
                member_or_null(a, keys[i]),
            ),
    ensures
        changes(b, a, keys) == Seq::<Seq<char>>::empty(),
    decreases keys.len(),
{
    if keys.len() > 0 {
        let d = keys.drop_last();
        assert forall|i: int| 0 <= i < d.len() implies json::same_json(
            member_or_null(b, #[trigger] d[i]),
            member_or_null(a, d[i]),
        ) by {
            assert(d[i] == keys[i]);
        }
        nothing_changes(b, a, d);
        assert(keys.last() == keys[keys.len() - 1]);
    }
}

/// What is shown of a value fits on a line of forty characters and a mark.
pub proof fn shown_is_short(j: JsonV)
    ensures
        shown(j).len() <= 41,
        !shown(j).contains('\n'),
{
    reveal_strlit("—");
    match j {
        JsonV::Null => {
            assert(NOTHING@ == seq!['—']);
        },
        JsonV::Text(s) => {
            clipped_is_short(s);
        },
        _ => {
            clipped_is_short(json::json_text(j));
        },
    }
}

/// What a clipped text is.
proof fn clipped_is_short(s: Seq<char>)
    ensures
        clipped(s).len() <= 41,
        !clipped(s).contains('\n'),
{
    let c = clipped(s);
    let line = text::replaced(s, '\n', ' ');
    assert forall|i: int| 0 <= i < c.len() implies #[trigger] c[i] != '\n' by {
        if i < line.len() && i < 40 {
            assert(c[i] == line[i]);
        }
    }
}

/// What the fields of snapshots are called; one that is not known by its own
/// name.
pub proof fn fields_are_named(k: Seq<char>)
    ensures
        field_name("title"@) == "标题"@,
        field_name("detail"@) == "详情"@,
        field_name("name"@) == "名称"@,
        field_name("slug"@) == "地址"@,
        field_name("description"@) == "描述"@,
        field_name("deleted_at"@) == "删除时间"@,
        field_name("value"@) == "值"@,
        field_name("label_name"@) == "标签"@,
        field_name("value_type"@) == "值类型"@,
        field_name("enum_values"@) == "可选值"@,
        field_name("color"@) == "颜色"@,
        field_name("value_colors"@) == "值颜色"@,
        field_name("query"@) == "条件"@,
        field_name("columns"@) == "列"@,
        field_name("sort"@) == "排序"@,
        field_name("is_shared"@) == "共享"@,
        field_name("title_colors"@) == "标题颜色规则"@,
        field_name("role"@) == "角色"@,
        field_name("account_id"@) == "成员"@,
        (k != "title"@ && k != "detail"@ && k != "name"@ && k != "slug"@ && k != "description"@ && k != "deleted_at"@ && k != "value"@ && k != "label_name"@ && k != "value_type"@ && k != "enum_values"@ && k != "color"@ && k != "value_colors"@ && k != "query"@ && k != "columns"@ && k != "sort"@ && k != "is_shared"@ && k != "title_colors"@ && k != "role"@ && k != "account_id"@) ==> field_name(k) == k,
{
    reveal_strlit("title");
    reveal_strlit("detail");
    reveal_strlit("name");
    reveal_strlit("slug");
    reveal_strlit("description");
    reveal_strlit("deleted_at");
    reveal_strlit("value");
    reveal_strlit("label_name");
    reveal_strlit("value_type");
    reveal_strlit("enum_values");
    reveal_strlit("color");
    reveal_strlit("value_colors");
    reveal_strlit("query");
    reveal_strlit("columns");
    reveal_strlit("sort");
    reveal_strlit("is_shared");
    reveal_strlit("title_colors");
    reveal_strlit("role");
    reveal_strlit("account_id");
    assert("title"@.len() == 5);
    assert("detail"@.len() == 6);
    assert("name"@.len() == 4);
    assert("slug"@.len() == 4);
    assert("description"@.len() == 11);
    assert("deleted_at"@.len() == 10);
    assert("value"@.len() == 5);
    assert("label_name"@.len() == 10);
    assert("value_type"@.len() == 10);
    assert("enum_values"@.len() == 11);
    assert("color"@.len() == 5);
    assert("value_colors"@.len() == 12);
    assert("query"@.len() == 5);
    assert("columns"@.len() == 7);
    assert("sort"@.len() == 4);
    assert("is_shared"@.len() == 9);
    assert("title_colors"@.len() == 12);
    assert("role"@.len() == 4);
    assert("account_id"@.len() == 10);
    assert("account_id"@[0] == 'a');
    assert("color"@[0] == 'c');
    assert("deleted_at"@[0] == 'd');
    assert("description"@[0] == 'd');
    assert("enum_values"@[0] == 'e');
    assert("label_name"@[0] == 'l');
    assert("name"@[0] == 'n');
    assert("query"@[0] == 'q');
    assert("role"@[0] == 'r');
    assert("slug"@[0] == 's');
    assert("slug"@[1] == 'l');
    assert("sort"@[0] == 's');
    assert("sort"@[1] == 'o');
    assert("title"@[0] == 't');
    assert("title_colors"@[0] == 't');
    assert("value"@[0] == 'v');
    assert("value_colors"@[0] == 'v');
    assert("value_type"@[0] == 'v');
}

/// A string of at most forty characters on one line is shown as it is, a longer
/// one by its first forty and a mark; line breaks are shown as blanks, and null
/// as a dash.
pub proof fn values_are_clipped(s: Seq<char>, t: Seq<char>)
    ensures
        s.len() <= 40 && !s.contains('\n') ==> shown(JsonV::Text(s)) == s,
        s.len() == 40 && !s.contains('\n') && t.len() > 0 ==> shown(JsonV::Text(s + t)) == s
            + seq!['…'],
        s.len() + t.len() < 40 && !s.contains('\n') && !t.contains('\n') ==> shown(
            JsonV::Text(s + seq!['\n'] + t),
        ) == s + seq![' '] + t,
        shown(JsonV::Null) == seq!['—'],
{
    reveal_strlit("—");
    assert(NOTHING@ =~= seq!['—']);
    if !s.contains('\n') {
        assert forall|i: int| 0 <= i < s.len() implies s[i] != '\n' by {
            assert(s.contains(s[i]));
        }
        assert(text::replaced(s, '\n', ' ') =~= s);
        if s.len() == 40 {
            let r = text::replaced(s + t, '\n', ' ');
            assert(r.take(40) =~= s);
            assert(r.take(40).push('…') =~= s + seq!['…']);
        }
        if !t.contains('\n') {
            assert forall|i: int| 0 <= i < t.len() implies t[i] != '\n' by {
                assert(t.contains(t[i]));
            }
            assert(text::replaced(s + seq!['\n'] + t, '\n', ' ') =~= s + seq![' '] + t);
        }
    }
}

/// Whether a snapshot has nothing to show under a key.
pub open spec fn shows_nothing(o: Seq<(Seq<char>, JsonV)>, key: Seq<char>) -> bool {
    json::member(JsonV::Object(o), key) is None || json::member(JsonV::Object(o), key) == Some(
        JsonV::Null,
    )
}

/// What was created or deleted is named by the first of its title, name, label,
/// value, address and account that shows anything.
pub proof fn resources_are_named(o: Seq<(Seq<char>, JsonV)>, v: JsonV)
    requires
        shown(v) != NOTHING@,
    ensures
        ({
            let (t, n, l) = ("title"@, "name"@, "label_name"@);
            let (w, e, a) = ("value"@, "email"@, "account_id"@);
            let j = JsonV::Object(o);
            let found = json::member(j, t) == Some(v) || (shows_nothing(o, t) && (json::member(j, n)
                == Some(v) || (shows_nothing(o, n) && (json::member(j, l) == Some(v) || (
            shows_nothing(o, l) && (json::member(j, w) == Some(v) || (shows_nothing(o, w) && (
            json::member(j, e) == Some(v) || (shows_nothing(o, e) && json::member(j, a) == Some(
                v,
            ))))))))));
            &&& found ==> change_line(None, Some(j)) == "创建「"@ + shown(v) + "」"@
            &&& found ==> change_line(Some(j), None) == "删除「"@ + shown(v) + "」"@
            &&& shows_nothing(o, t) && shows_nothing(o, n) && shows_nothing(o, l) && shows_nothing(
                o,
                w,
            ) && shows_nothing(o, e) && shows_nothing(o, a) ==> change_line(None, Some(j))
                == "创建「"@ + "（无标题）"@ + "」"@
        }),
{
    reveal_with_fuel(named_by, 7);
    let keys = naming_keys();
    let k1 = keys.skip(1);
    let k2 = k1.skip(1);
    let k3 = k2.skip(1);
    let k4 = k3.skip(1);
    let k5 = k4.skip(1);
    assert(keys[0] == "title"@ && k1[0] == "name"@ && k2[0] == "label_name"@ && k3[0] == "value"@
        && k4[0] == "email"@ && k5[0] == "account_id"@);
    assert(k5.skip(1).len() == 0);
}

/// Where one field differs between two snapshots, the change is that field, what
/// it was and what it is.
pub proof fn one_change_is_told(
    p: Seq<(Seq<char>, JsonV)>,
    key: Seq<char>,
    x: JsonV,
    y: JsonV,
    q: Seq<(Seq<char>, JsonV)>,
)
    requires
        keys_once(JsonV::Object(p + seq![(key, x)] + q)),
        keys_once(JsonV::Object(p + seq![(key, y)] + q)),
        !json::same_json(x, y),
    ensures
        change_line(
            Some(JsonV::Object(p + seq![(key, x)] + q)),
            Some(JsonV::Object(p + seq![(key, y)] + q)),
        ) == field_name(key) + seq![':', ' '] + shown(x) + seq![' ', '→', ' '] + shown(y),
{
    reveal_strlit(": ");
    reveal_strlit(" → ");
    assert(": "@ =~= seq![':', ' ']);
    assert(" → "@ =~= seq![' ', '→', ' ']);
    let b = p + seq![(key, x)] + q;
    let a = p + seq![(key, y)] + q;
    let (bo, ao) = (JsonV::Object(b), JsonV::Object(a));
    let n = p.len() as int;
    assert forall|i: int| 0 <= i < b.len() implies (#[trigger] b[i]).0 == a[i].0 && (i != n ==> b[i]
        == a[i]) by {}
    same_keys_present(b, a, b.len() as int);
    assert(b.take(b.len() as int) =~= b);
    let keys = keys_of(a) + keys_missing(b, ao);
    assert(keys =~= keys_of(a));
    assert forall|i: int| 0 <= i < keys.len() implies member_or_null(bo, #[trigger] keys[i])
        == b[i].1 && member_or_null(ao, keys[i]) == a[i].1 by {
        json::key_index_is(a, a[i].0, i);
        json::key_index_is(b, b[i].0, i);
    }
    assert forall|i: int| 0 <= i < keys.len() && i != n implies json::same_json(
        member_or_null(bo, #[trigger] keys[i]),
        member_or_null(ao, keys[i]),
    ) by {
        assert(a[i] == b[i]);
        assert(keys_once(a[i].1));
        same_as_itself(a[i].1);
    }
    assert(keys[n] == key);
    changes_at(bo, ao, keys, n);
    let line = change_text(bo, ao, key);
    crate::draft_laws::text_of_one(line, "；"@);
    assert(line =~= field_name(key) + seq![':', ' '] + shown(x) + seq![' ', '→', ' '] + shown(y));
}

proof fn same_keys_present(b: Seq<(Seq<char>, JsonV)>, a: Seq<(Seq<char>, JsonV)>, n: int)
    requires
        a.len() == b.len(),
        forall|i: int| 0 <= i < b.len() ==> (#[trigger] b[i]).0 == a[i].0,
        0 <= n <= b.len(),
    ensures
        keys_missing(b.take(n), JsonV::Object(a)) == Seq::<Seq<char>>::empty(),
    decreases n,
{
    if n > 0 {
        same_keys_present(b, a, n - 1);
        let t = b.take(n);
        assert(t.drop_last() =~= b.take(n - 1));
        let key = t.last().0;
        json::key_index_props(a, key);
        assert(a[n - 1].0 == b[n - 1].0);
    } else {
        assert(keys_missing(b.take(0), JsonV::Object(a)) =~= seq![]);
    }
}

proof fn changes_at(b: JsonV, a: JsonV, keys: Seq<Seq<char>>, n: int)
    requires
        0 <= n < keys.len(),
        !json::same_json(member_or_null(b, keys[n]), member_or_null(a, keys[n])),
        forall|i: int|
            0 <= i < keys.len() && i != n ==> json::same_json(
                member_or_null(b, #[trigger] keys[i]),
                member_or_null(a, keys[i]),
            ),
    ensures
        changes(b, a, keys) == seq![change_text(b, a, keys[n])],
    decreases keys.len(),
{
    let d = keys.drop_last();
    assert forall|i: int| 0 <= i < d.len() && i != n implies json::same_json(
        member_or_null(b, #[trigger] d[i]),
        member_or_null(a, d[i]),
    ) by {
        assert(d[i] == keys[i]);
    }
    if n == keys.len() - 1 {
        nothing_changes(b, a, d);
        assert(changes(b, a, keys) =~= seq![change_text(b, a, keys[n])]);
    } else {
        assert(d[n] == keys[n]);
        changes_at(b, a, d, n);
        assert(keys.last() == keys[keys.len() - 1]);
    }
}

/// The lines on a resource are those with its code, in their order.
pub proof fn lines_are_those_of_the_resource(logs: Seq<AuditLog>, l: AuditLog, code: Seq<char>)
    ensures
        lines_on(seq![], code) == Seq::<int>::empty(),
        lines_on(logs.push(l), code) == (if l.resource_id@ == code {
            lines_on(logs, code).push(logs.len() as int)
        } else {
            lines_on(logs, code)
        }),
{
    assert(lines_on(seq![], code) =~= seq![]);
    assert(logs.push(l).drop_last() =~= logs);
    assert(logs.push(l).last() == l);
}

} // verus!
