//! Labels that are filled in before they are written: those of a new entry and
//! those of a batch.

use vstd::prelude::*;

use crate::components;
use crate::decimal;
use crate::graphql_client::LabelSchema;
use crate::json;
use crate::json::{Json, JsonV};
use crate::number::{NumV, Number};
use crate::query_eval;
use crate::selection;
use crate::text;
use crate::timeline;

verus! {

/// A label that is being filled in.
#[derive(Debug, Clone)]
pub struct DraftLabel {
    pub name: String,
    pub title: String,
    pub value_type: &'static str,
    pub multi: bool,
    pub format: Option<String>,
    pub enum_values: Vec<String>,
    /// What is typed or chosen; empty for nothing.
    pub text: String,
    /// What is ticked of several choices.
    pub many: Vec<String>,
    /// Yes, no, or not answered.
    pub flag: Option<bool>,
}

/// The value type that a draft works with: one that is not known is text.
pub open spec fn draft_type(vt: Seq<char>) -> Seq<char> {
    if vt == "null"@ || vt == "enum"@ || vt == "boolean"@ || vt == "integer"@ || vt == "float"@ || vt
        == "date"@ || vt == "time"@ || vt == "datetime"@ || vt == "currency"@ || vt == "email"@ || vt
        == "account"@ {
        vt
    } else {
        "string"@
    }
}

/// The value type that a draft works with.
fn known_type(vt: &str) -> (r: &'static str)
    ensures
        r@ == draft_type(vt@),
{
    if text::same(vt, "null") {
        "null"
    } else if text::same(vt, "enum") {
        "enum"
    } else if text::same(vt, "boolean") {
        "boolean"
    } else if text::same(vt, "integer") {
        "integer"
    } else if text::same(vt, "float") {
        "float"
    } else if text::same(vt, "date") {
        "date"
    } else if text::same(vt, "time") {
        "time"
    } else if text::same(vt, "datetime") {
        "datetime"
    } else if text::same(vt, "currency") {
        "currency"
    } else if text::same(vt, "email") {
        "email"
    } else if text::same(vt, "account") {
        "account"
    } else {
        "string"
    }
}

/// Whether a value type is a time.
pub open spec fn is_time_type(vt: Seq<char>) -> bool {
    vt == "date"@ || vt == "time"@ || vt == "datetime"@
}

/// Tests [`is_time_type`].
pub fn time_type(vt: &str) -> (r: bool)
    ensures
        r == is_time_type(vt@),
{
    text::same(vt, "date") || text::same(vt, "time") || text::same(vt, "datetime")
}

/// The value that a draft starts from: the default of the label where it is
/// wanted; a label without values has none.
pub open spec fn start_value(s: LabelSchema, preset: bool) -> JsonV {
    if preset && draft_type(s.value_type@) != "null"@ {
        s.default_value@
    } else {
        JsonV::Null
    }
}

/// The text that a draft starts from.
pub open spec fn start_text(s: LabelSchema, preset: bool) -> Seq<char> {
    let vt = draft_type(s.value_type@);
    let t = match start_value(s, preset) {
        JsonV::Null | JsonV::Bool(_) | JsonV::Array(_) => Seq::empty(),
        other => components::value_text(other),
    };
    if is_time_type(vt) && components::native_layout(vt, text::opt_view(s.format)) {
        components::native_of(vt, t)
    } else {
        t
    }
}

/// The choices that a draft starts from.
pub open spec fn start_many(s: LabelSchema, preset: bool) -> Seq<Seq<char>> {
    match start_value(s, preset) {
        JsonV::Array(a) => components::value_texts(a),
        _ => seq![],
    }
}

/// The answer that a draft starts from: a label without values that is wanted
/// is ticked.
pub open spec fn start_flag(s: LabelSchema, preset: bool) -> Option<bool> {
    match start_value(s, preset) {
        JsonV::Bool(b) => Some(b),
        JsonV::Null => if preset && draft_type(s.value_type@) == "null"@ {
            Some(true)
        } else {
            None
        },
        _ => None,
    }
}

/// The texts of the items of an array.
fn item_texts(a: &Vec<Json>) -> (r: Vec<String>)
    ensures
        text::contents(r@) == components::value_texts(json::items_view(a@)),
{
    let ghost items = json::items_view(a@);
    let mut out: Vec<String> = Vec::new();
    let mut i: usize = 0;
    assert(text::contents(out@) =~= seq![]);
    while i < a.len()
        invariant
            i <= a@.len(),
            items == json::items_view(a@),
            text::contents(out@) == components::value_texts(items.take(i as int)),
        decreases a@.len() - i,
    {
        let ghost before = out@;
        assert(items.take(i + 1).drop_last() =~= items.take(i as int));
        assert(items.take(i + 1).last() == a@[i as int]@);
        let t = components::value_to_string(&a[i]);
        out.push(t);
        assert(text::contents(out@) =~= text::contents(before).push(t@));
        i += 1;
    }
    assert(items.take(i as int) =~= items);
    out
}

/// Texts without their blank ones, trimmed, as an array; none where none is
/// left.
pub open spec fn texts_value(list: Seq<Seq<char>>) -> Option<JsonV> {
    if list.len() == 0 {
        None
    } else {
        Some(json::texts(list))
    }
}

/// The value that a draft gives, where it gives one. `number` is what its text
/// spells as a number.
pub open spec fn draft_value(d: DraftLabel, number: Option<NumV>) -> Option<JsonV> {
    let vt = d.value_type@;
    if vt == "null"@ {
        if d.flag == Some(true) {
            Some(JsonV::Null)
        } else {
            None
        }
    } else if vt == "boolean"@ {
        match d.flag {
            Some(b) => Some(JsonV::Bool(b)),
            None => None,
        }
    } else if vt == "enum"@ && d.multi {
        texts_value(text::contents(d.many@))
    } else if vt == "enum"@ {
        if d.text@.len() == 0 {
            None
        } else {
            Some(JsonV::Text(d.text@))
        }
    } else if vt == "account"@ && d.multi {
        texts_value(components::nonblank(text::contents(d.many@)))
    } else if vt == "integer"@ || vt == "float"@ || vt == "currency"@ {
        match number {
            Some(n) => Some(JsonV::Number(n)),
            None => None,
        }
    } else if (vt == "time"@ || vt == "datetime"@) && components::native_layout(
        vt,
        text::opt_view(d.format),
    ) {
        match components::stored_of(vt, d.text@) {
            Some(s) => Some(JsonV::Text(s)),
            None => None,
        }
    } else if text::is_blank(d.text@) {
        None
    } else {
        Some(JsonV::Text(d.text@))
    }
}

/// The content of an optional number.
pub open spec fn opt_num(n: Option<Number>) -> Option<NumV> {
    match n {
        Some(n) => Some(n@),
        None => None,
    }
}

/// The content of an optional owned JSON value.
pub open spec fn opt_value(j: Option<Json>) -> Option<JsonV> {
    match j {
        Some(j) => Some(j@),
        None => None,
    }
}

/// Texts without their blank ones, trimmed.
fn nonblank_texts(list: &Vec<String>) -> (r: Vec<String>)
    ensures
        text::contents(r@) == components::nonblank(text::contents(list@)),
{
    let ghost all = text::contents(list@);
    let mut out: Vec<String> = Vec::new();
    let mut i: usize = 0;
    assert(text::contents(out@) =~= seq![]);
    while i < list.len()
        invariant
            i <= list@.len(),
            all == text::contents(list@),
            text::contents(out@) == components::nonblank(all.take(i as int)),
        decreases list@.len() - i,
    {
        let ghost before = out@;
        assert(all.take(i + 1).drop_last() =~= all.take(i as int));
        assert(all.take(i + 1).last() == list@[i as int]@);
        let t = text::trim(list[i].as_str());
        if !t.as_str().is_empty() {
            out.push(t);
            assert(text::contents(out@) =~= text::contents(before).push(t@));
        }
        i += 1;
    }
    assert(all.take(i as int) =~= all);
    out
}

/// Texts as an array; none where there is none.
fn list_value(list: &Vec<String>) -> (r: Option<Json>)
    ensures
        opt_value(r) == texts_value(text::contents(list@)),
{
    assert(text::contents(list@).len() == list@.len());
    if list.len() == 0 {
        None
    } else {
        Some(json::of_list(list))
    }
}

impl DraftLabel {
    /// A draft of a label. With `preset` it starts from the default value of
    /// the label, else empty.
    pub fn new(s: &LabelSchema, preset: bool) -> (r: DraftLabel)
        ensures
            r.name@ == s.name@,
            r.title@ == s.title@,
            r.value_type@ == draft_type(s.value_type@),
            r.multi == s.multi,
            text::opt_view(r.format) == text::opt_view(s.format),
            text::contents(r.enum_values@) == text::contents(s.enum_values@),
            r.text@ == start_text(*s, preset),
            text::contents(r.many@) == start_many(*s, preset),
            r.flag == start_flag(*s, preset),
    {
        let vt = known_type(s.value_type.as_str());
        let null = text::same(vt, "null");
        let default = if preset && !null {
            s.default_value.copy()
        } else {
            Json::Null
        };
        let mut t = String::new();
        let mut many: Vec<String> = Vec::new();
        let mut flag: Option<bool> = None;
        assert(t@ =~= Seq::<char>::empty());
        assert(text::contents(many@) =~= seq![]);
        match &default {
            Json::Null => {
                if preset && null {
                    flag = Some(true);
                }
            },
            Json::Bool(b) => {
                flag = Some(*b);
            },
            Json::Array(a) => {
                proof {
                    json::array_view(*a);
                }
                many = item_texts(a);
            },
            _ => {
                t = components::value_to_string(&default);
            },
        }
        if time_type(vt) && components::is_native_time_layout(vt, timeline::opt_slice(&s.format)) {
            t = components::to_native(vt, t.as_str());
        }
        DraftLabel {
            name: s.name.clone(),
            title: s.title.clone(),
            value_type: vt,
            multi: s.multi,
            format: text::copy_opt(&s.format),
            enum_values: text::copy_list(&s.enum_values),
            text: t,
            many,
            flag,
        }
    }

    /// A draft that starts empty.
    pub fn from_schema(s: &LabelSchema) -> (r: DraftLabel)
        ensures
            r.name@ == s.name@,
            r.title@ == s.title@,
            r.value_type@ == draft_type(s.value_type@),
            r.multi == s.multi,
            text::opt_view(r.format) == text::opt_view(s.format),
            text::contents(r.enum_values@) == text::contents(s.enum_values@),
            r.text@ == start_text(*s, false),
            text::contents(r.many@) == start_many(*s, false),
            r.flag == start_flag(*s, false),
    {
        DraftLabel::new(s, false)
    }

    /// A draft that starts from the default value of the label.
    pub fn from_schema_preset(s: &LabelSchema) -> (r: DraftLabel)
        ensures
            r.name@ == s.name@,
            r.title@ == s.title@,
            r.value_type@ == draft_type(s.value_type@),
            r.multi == s.multi,
            text::opt_view(r.format) == text::opt_view(s.format),
            text::contents(r.enum_values@) == text::contents(s.enum_values@),
            r.text@ == start_text(*s, true),
            text::contents(r.many@) == start_many(*s, true),
            r.flag == start_flag(*s, true),
    {
        DraftLabel::new(s, true)
    }

    /// The value that a draft gives, given what its text spells as a number.
    pub fn value_given(&self, number: Option<Number>) -> (r: Option<Json>)
        ensures
            opt_value(r) == draft_value(*self, opt_num(number)),
    {
        let vt = self.value_type;
        if text::same(vt, "null") {
            match self.flag {
                Some(true) => Some(Json::Null),
                _ => None,
            }
        } else if text::same(vt, "boolean") {
            match self.flag {
                Some(b) => Some(Json::Bool(b)),
                None => None,
            }
        } else if text::same(vt, "enum") && self.multi {
            list_value(&self.many)
        } else if text::same(vt, "enum") {
            if self.text.as_str().is_empty() {
                None
            } else {
                Some(json::of_str(self.text.as_str()))
            }
        } else if text::same(vt, "account") && self.multi {
            list_value(&nonblank_texts(&self.many))
        } else if text::same(vt, "integer") || text::same(vt, "float") || text::same(
            vt,
            "currency",
        ) {
            match number {
                Some(n) => Some(Json::Number(n)),
                None => None,
            }
        } else if (text::same(vt, "time") || text::same(vt, "datetime"))
            && components::is_native_time_layout(vt, timeline::opt_slice(&self.format)) {
            match components::from_native(vt, self.text.as_str()) {
                Some(s) => Some(Json::Text(s)),
                None => None,
            }
        } else if text::blank(self.text.as_str()) {
            None
        } else {
            Some(json::of_str(self.text.as_str()))
        }
    }

    /// The value that a draft gives; none where it is not filled in, and the
    /// label is not written.
    pub fn to_value(&self) -> (r: Option<Json>)
        ensures
            opt_value(r) == draft_value(
                *self,
                components::number_read(self.value_type@, text::trimmed(self.text@)),
            ),
    {
        let number = components::read_number(
            self.value_type,
            text::trim(self.text.as_str()).as_str(),
        );
        self.value_given(number)
    }
}

/// The number that a draft's text spells.
pub open spec fn draft_number(d: DraftLabel) -> Option<NumV> {
    components::number_read(d.value_type@, text::trimmed(d.text@))
}

/// The labels that a new entry of a view gets: the columns of the view, then
/// the labels that its query names.
pub fn auto_label_names(columns: &Vec<String>, query: &Json) -> (r: Vec<String>)
    ensures
        text::contents(r@) == selection::with_all(
            text::contents(columns@),
            query_eval::named_labels(query@),
        ),
{
    selection::join_lists(columns, &query_eval::query_label_names(query))
}

/// The drafts of a new entry: those of the labels that it gets start from
/// their default values.
pub fn entry_drafts(schemas: &[LabelSchema], auto: &Vec<String>) -> (r: Vec<DraftLabel>)
    ensures
        r@.len() == schemas@.len(),
        forall|i: int|
            0 <= i < schemas@.len() ==> {
                let preset = text::contents(auto@).contains(schemas@[i].name@);
                &&& (#[trigger] r@[i]).name@ == schemas@[i].name@
                &&& r@[i].title@ == schemas@[i].title@
                &&& r@[i].value_type@ == draft_type(schemas@[i].value_type@)
                &&& r@[i].multi == schemas@[i].multi
                &&& text::opt_view(r@[i].format) == text::opt_view(schemas@[i].format)
                &&& text::contents(r@[i].enum_values@) == text::contents(schemas@[i].enum_values@)
                &&& r@[i].text@ == start_text(schemas@[i], preset)
                &&& text::contents(r@[i].many@) == start_many(schemas@[i], preset)
                &&& r@[i].flag == start_flag(schemas@[i], preset)
            },
{
    let mut out: Vec<DraftLabel> = Vec::new();
    let mut i: usize = 0;
    while i < schemas.len()
        invariant
            i <= schemas@.len(),
            out@.len() == i,
            forall|k: int|
                0 <= k < i ==> {
                    let preset = text::contents(auto@).contains(schemas@[k].name@);
                    &&& (#[trigger] out@[k]).name@ == schemas@[k].name@
                    &&& out@[k].title@ == schemas@[k].title@
                    &&& out@[k].value_type@ == draft_type(schemas@[k].value_type@)
                    &&& out@[k].multi == schemas@[k].multi
                    &&& text::opt_view(out@[k].format) == text::opt_view(schemas@[k].format)
                    &&& text::contents(out@[k].enum_values@) == text::contents(
                        schemas@[k].enum_values@,
                    )
                    &&& out@[k].text@ == start_text(schemas@[k], preset)
                    &&& text::contents(out@[k].many@) == start_many(schemas@[k], preset)
                    &&& out@[k].flag == start_flag(schemas@[k], preset)
                },
        decreases schemas@.len() - i,
    {
        let preset = text::holds(auto, schemas[i].name.as_str());
        out.push(DraftLabel::new(&schemas[i], preset));
        i += 1;
    }
    out
}

/// The labels that drafts give a value for, with their values, in order.
pub open spec fn filled(ds: Seq<DraftLabel>) -> Seq<(Seq<char>, JsonV)>
    decreases ds.len(),
{
    if ds.len() == 0 {
        seq![]
    } else {
        match draft_value(ds.last(), draft_number(ds.last())) {
            Some(v) => filled(ds.drop_last()).push((ds.last().name@, v)),
            None => filled(ds.drop_last()),
        }
    }
}

/// The labels to write for a new entry.
pub fn planned(ds: &Vec<DraftLabel>) -> (r: Vec<(String, Json)>)
    ensures
        json::members_view(r@) == filled(ds@),
{
    let mut out: Vec<(String, Json)> = Vec::new();
    let mut i: usize = 0;
    assert(json::members_view(out@) =~= seq![]);
    while i < ds.len()
        invariant
            i <= ds@.len(),
            json::members_view(out@) == filled(ds@.take(i as int)),
        decreases ds@.len() - i,
    {
        assert(ds@.take(i + 1).drop_last() =~= ds@.take(i as int));
        if let Some(v) = ds[i].to_value() {
            json::put(&mut out, ds[i].name.as_str(), v);
        }
        i += 1;
    }
    assert(ds@.take(i as int) =~= ds@);
    out
}

/// Pairs of a name and a value, as they are sent.
pub open spec fn pairs_json(pairs: Seq<(Seq<char>, JsonV)>) -> JsonV {
    JsonV::Array(
        Seq::new(
            pairs.len(),
            |i: int|
                JsonV::Object(
                    seq![("name"@, JsonV::Text(pairs[i].0)), ("value"@, pairs[i].1)],
                ),
        ),
    )
}

/// What a batch writes: the filled labels as pairs; none where nothing is
/// filled in.
pub fn batch_pairs(ds: &Vec<DraftLabel>) -> (r: Option<Json>)
    ensures
        opt_value(r) == (if filled(ds@).len() == 0 {
            None
        } else {
            Some(pairs_json(filled(ds@)))
        }),
{
    let pairs = planned(ds);
    let ghost all = filled(ds@);
    assert(json::members_view(pairs@).len() == pairs@.len());
    if pairs.len() == 0 {
        return None;
    }
    let ghost want = pairs_json(all)->Array_0;
    let mut out: Vec<Json> = Vec::new();
    let mut i: usize = 0;
    assert(json::items_view(out@) =~= want.take(0));
    while i < pairs.len()
        invariant
            i <= pairs@.len(),
            all == json::members_view(pairs@),
            want == pairs_json(all)->Array_0,
            json::items_view(out@) == want.take(i as int),
        decreases pairs@.len() - i,
    {
        let one = json::object2(
            "name",
            json::of_str(pairs[i].0.as_str()),
            "value",
            pairs[i].1.copy(),
        );
        assert(one@ == want[i as int]);
        json::add_item(&mut out, one);
        i += 1;
        assert(json::items_view(out@) =~= want.take(i as int));
    }
    assert(want.take(i as int) =~= want);
    Some(json::array(out))
}

/// What is said where a label of a new entry could not be written.
pub fn label_write_failed(name: &str, e: &str) -> (r: String)
    ensures
        r@ == "条目已创建，但标签「"@ + name@ + "」写入失败："@ + e@,
{
    let mut out = text::concat3("条目已创建，但标签「", name, "」写入失败：");
    out.push_str(e);
    out
}

/// The type of the field that a draft is filled in with.
pub open spec fn field_type(vt: Seq<char>, format: Option<Seq<char>>) -> Seq<char> {
    if is_time_type(vt) && !components::native_layout(vt, format) {
        "text"@
    } else if vt == "string"@ {
        "text"@
    } else if vt == "email"@ {
        "email"@
    } else if vt == "date"@ {
        "date"@
    } else if vt == "time"@ {
        "time"@
    } else if vt == "datetime"@ {
        "datetime-local"@
    } else {
        "number"@
    }
}

/// The type of the field that a draft is filled in with.
pub fn input_type(vt: &str, format: Option<&str>) -> (r: &'static str)
    ensures
        r@ == field_type(vt@, text::opt_str(format)),
{
    if time_type(vt) && !components::is_native_time_layout(vt, format) {
        "text"
    } else if text::same(vt, "string") {
        "text"
    } else if text::same(vt, "email") {
        "email"
    } else if text::same(vt, "date") {
        "date"
    } else if text::same(vt, "time") {
        "time"
    } else if text::same(vt, "datetime") {
        "datetime-local"
    } else {
        "number"
    }
}

/// The control that a draft is filled in with.
#[derive(Debug, Clone, Copy, PartialEq, Eq, Structural)]
pub enum DraftControl {
    /// A label without values is put on or not.
    Mark,
    Several,
    Choice,
    YesNo,
    Account,
    Field,
}

/// The control for a type.
pub open spec fn draft_control_of(vt: Seq<char>, multi: bool) -> DraftControl {
    if vt == "null"@ {
        DraftControl::Mark
    } else if vt == "enum"@ && multi {
        DraftControl::Several
    } else if vt == "enum"@ {
        DraftControl::Choice
    } else if vt == "boolean"@ {
        DraftControl::YesNo
    } else if vt == "account"@ {
        DraftControl::Account
    } else {
        DraftControl::Field
    }
}

/// The control for a type.
pub fn draft_control(vt: &str, multi: bool) -> (r: DraftControl)
    ensures
        r == draft_control_of(vt@, multi),
{
    if text::same(vt, "null") {
        DraftControl::Mark
    } else if text::same(vt, "enum") && multi {
        DraftControl::Several
    } else if text::same(vt, "enum") {
        DraftControl::Choice
    } else if text::same(vt, "boolean") {
        DraftControl::YesNo
    } else if text::same(vt, "account") {
        DraftControl::Account
    } else {
        DraftControl::Field
    }
}

/// The answer that a choice between yes and no gives.
pub fn flag_of(choice: &str) -> (r: Option<bool>)
    ensures
        r == (if choice@ == "true"@ {
            Some(true)
        } else if choice@ == "false"@ {
            Some(false)
        } else {
            None
        }),
{
    if text::same(choice, "true") {
        Some(true)
    } else if text::same(choice, "false") {
        Some(false)
    } else {
        None
    }
}

/// The accounts that the text of a draft stands for.
pub open spec fn accounts_of(s: Seq<char>, multi: bool) -> Seq<Seq<char>> {
    if multi {
        components::nonblank(text::split_at_char(s, ','))
    } else if s.len() == 0 {
        seq![]
    } else {
        seq![s]
    }
}

/// The accounts that the text of a draft stands for.
pub fn chosen_accounts(s: &str, multi: bool) -> (r: Vec<String>)
    ensures
        text::contents(r@) == accounts_of(s@, multi),
{
    if multi {
        return components::list_entries(s, ',');
    }
    let mut out: Vec<String> = Vec::new();
    assert(text::contents(out@) =~= seq![]);
    if !s.is_empty() {
        out.push(s.to_owned());
        assert(text::contents(out@) =~= seq![s@]);
    }
    out
}

/// The text of a draft after accounts were chosen.
pub fn accounts_text(ids: &Vec<String>, multi: bool) -> (r: String)
    ensures
        r@ == (if multi {
            text::joined(text::contents(ids@), ","@)
        } else if ids@.len() > 0 {
            ids@[0]@
        } else {
            ""@
        }),
{
    if multi {
        text::join(ids, ",")
    } else if ids.len() > 0 {
        ids[0].clone()
    } else {
        "".to_owned()
    }
}

/// The labels offered for the timeline: times, or accounts.
pub open spec fn timeline_option(s: LabelSchema, time: bool) -> bool {
    if time {
        is_time_type(s.value_type@)
    } else {
        s.value_type@ == "account"@
    }
}

/// The positions of the labels offered for the timeline.
pub open spec fn timeline_options(schemas: Seq<LabelSchema>, time: bool) -> Seq<int>
    decreases schemas.len(),
{
    if schemas.len() == 0 {
        seq![]
    } else if timeline_option(schemas.last(), time) {
        timeline_options(schemas.drop_last(), time).push(schemas.len() - 1)
    } else {
        timeline_options(schemas.drop_last(), time)
    }
}

/// The labels offered for the timeline, by their positions.
pub fn label_options(schemas: &[LabelSchema], time: bool) -> (r: Vec<usize>)
    ensures
        components::positions(r@) == timeline_options(schemas@, time),
{
    let mut out: Vec<usize> = Vec::new();
    let mut i: usize = 0;
    assert(components::positions(out@) =~= seq![]);
    while i < schemas.len()
        invariant
            i <= schemas@.len(),
            components::positions(out@) == timeline_options(schemas@.take(i as int), time),
        decreases schemas@.len() - i,
    {
        let ghost before = out@;
        assert(schemas@.take(i + 1).drop_last() =~= schemas@.take(i as int));
        let hit = if time {
            time_type(schemas[i].value_type.as_str())
        } else {
            text::same(schemas[i].value_type.as_str(), "account")
        };
        if hit {
            out.push(i);
            assert(components::positions(out@) =~= components::positions(before).push(i as int));
        }
        i += 1;
    }
    assert(schemas@.take(i as int) =~= schemas@);
    out
}

// ---------------------------------------------------------------------------
// Laws
// ---------------------------------------------------------------------------

/// A draft that starts empty writes nothing, whatever its type.
pub proof fn empty_draft_writes_nothing(d: DraftLabel, s: LabelSchema)
    requires
        d.value_type@ == draft_type(s.value_type@),
        d.text@ == start_text(s, false),
        text::contents(d.many@) == start_many(s, false),
        d.flag == start_flag(s, false),
        text::opt_view(d.format) == text::opt_view(s.format),
    ensures
        draft_value(d, draft_number(d)) is None,
{
    let vt = d.value_type@;
    let e = Seq::<char>::empty();
    reveal_strlit("");
    native_of_empty(vt);
    assert(d.text@ == e);
    assert(text::trim_start(e) == e);
    assert(text::trim_end(e) == e);
    assert(decimal::int_of(e) is None);
    assert(components::nonblank(text::contents(d.many@)) =~= seq![]);
}

/// An empty time is empty in a browser's field too.
proof fn native_of_empty(vt: Seq<char>)
    ensures
        components::native_of(vt, Seq::empty()) == Seq::<char>::empty(),
{
    let e = Seq::<char>::empty();
    assert(text::replaced_first(e, ' ', 'T') == e);
    text::boundary_props(e, 16);
    text::boundary_props(e, 5);
}

/// A label without values that a new entry gets is written as null.
pub proof fn preset_mark_is_written(d: DraftLabel, s: LabelSchema)
    requires
        s.value_type@ == "null"@,
        d.value_type@ == draft_type(s.value_type@),
        d.flag == start_flag(s, true),
    ensures
        draft_value(d, draft_number(d)) == Some(JsonV::Null),
{
}

} // verus!
