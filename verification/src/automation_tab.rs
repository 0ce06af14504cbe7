//! Rules that write labels when a label changes, as they are listed and edited.

use vstd::prelude::*;

use crate::draft;
use crate::graphql_client::LabelSchema;
use crate::json;
use crate::json::{Json, JsonV};
use crate::text;
use crate::timeline;

verus! {

/// What is said where a rule has no name.
pub const NAME_MISSING: &'static str = "请填写规则名称";

/// A label that a rule writes.
#[derive(Debug, Clone)]
pub struct RuleWrite {
    pub label_name: String,
    /// `set` or `remove`.
    pub op: String,
    /// Where the value comes from; empty for one that is removed.
    pub value_kind: String,
    pub value: Json,
}

/// A rule.
#[derive(Debug, Clone)]
pub struct AutomationRule {
    pub id: String,
    pub name: String,
    pub enabled: bool,
    pub trigger_expr: String,
    /// Whether the rule writes to the entry that changed.
    pub target_event_source: bool,
    /// Else the expression that finds the entries to write to.
    pub target_expr: String,
    pub writes: Vec<RuleWrite>,
}

/// A label that a rule writes, as it is edited.
#[derive(Debug, Clone)]
pub struct DraftWrite {
    pub label_name: String,
    pub op: String,
    pub value_kind: String,
    pub value: String,
}

/// The content of a label that is edited.
pub struct DraftWriteV {
    pub label_name: Seq<char>,
    pub op: Seq<char>,
    pub value_kind: Seq<char>,
    pub value: Seq<char>,
}

impl View for DraftWrite {
    type V = DraftWriteV;

    open spec fn view(&self) -> DraftWriteV {
        DraftWriteV {
            label_name: self.label_name@,
            op: self.op@,
            value_kind: self.value_kind@,
            value: self.value@,
        }
    }
}

/// The contents of labels that are edited.
pub open spec fn drafts_view(v: Seq<DraftWrite>) -> Seq<DraftWriteV> {
    Seq::new(v.len(), |i: int| v[i]@)
}

/// A new label of a rule: a fixed value is set.
pub open spec fn new_draft(name: Seq<char>) -> DraftWriteV {
    DraftWriteV { label_name: name, op: "set"@, value_kind: "literal"@, value: ""@ }
}

/// Whether fixed values of a type are written as JSON.
pub open spec fn is_json_type(vt: Option<Seq<char>>) -> bool {
    match vt {
        Some(t) => t == "integer"@ || t == "float"@ || t == "boolean"@ || t == "currency"@,
        None => false,
    }
}

/// The value that is sent, given what the text reads as: fixed values of numbers
/// and truth values as what they read as, other fixed values as text; values
/// from elsewhere are null.
pub open spec fn sent_value(
    d: DraftWriteV,
    vt: Option<Seq<char>>,
    parsed: Option<JsonV>,
) -> JsonV {
    if d.value_kind == "literal"@ {
        if is_json_type(vt) {
            match parsed {
                Some(j) => j,
                None => JsonV::Text(d.value),
            }
        } else {
            JsonV::Text(d.value)
        }
    } else {
        JsonV::Null
    }
}

/// What is sent for a label of a rule, given what its text reads as.
pub open spec fn input_of(
    d: DraftWriteV,
    vt: Option<Seq<char>>,
    parsed: Option<JsonV>,
) -> JsonV {
    JsonV::Object(
        seq![
            ("labelName"@, JsonV::Text(d.label_name)),
            ("op"@, JsonV::Text(d.op)),
            ("valueKind"@, JsonV::Text(d.value_kind)),
            ("value"@, sent_value(d, vt, parsed)),
        ],
    )
}

/// Tests [`is_json_type`].
fn json_type(vt: Option<&str>) -> (r: bool)
    ensures
        r == is_json_type(text::opt_str(vt)),
{
    match vt {
        Some(t) => text::same(t, "integer") || text::same(t, "float") || text::same(t, "boolean")
            || text::same(t, "currency"),
        None => false,
    }
}

impl DraftWrite {
    /// A new label of a rule.
    pub fn new(schema: &LabelSchema) -> (r: DraftWrite)
        ensures
            r@ == new_draft(schema.name@),
    {
        DraftWrite {
            label_name: schema.name.clone(),
            op: "set".to_owned(),
            value_kind: "literal".to_owned(),
            value: "".to_owned(),
        }
    }

    /// What is sent, given what the text reads as.
    pub fn input_given(&self, value_type: Option<&str>, parsed: Option<Json>) -> (r: Json)
        ensures
            r@ == input_of(self@, text::opt_str(value_type), draft::opt_value(parsed)),
    {
        let value = if text::same(self.value_kind.as_str(), "literal") {
            if json_type(value_type) {
                match parsed {
                    Some(j) => j,
                    None => json::of_str(self.value.as_str()),
                }
            } else {
                json::of_str(self.value.as_str())
            }
        } else {
            Json::Null
        };
        let mut m: Vec<(String, Json)> = Vec::new();
        json::put(&mut m, "labelName", json::of_str(self.label_name.as_str()));
        json::put(&mut m, "op", json::of_str(self.op.as_str()));
        json::put(&mut m, "valueKind", json::of_str(self.value_kind.as_str()));
        json::put(&mut m, "value", value);
        assert(json::members_view(m@) =~= input_of(
            self@,
            text::opt_str(value_type),
            draft::opt_value(parsed),
        )->Object_0);
        json::object(m)
    }

    /// What is sent.
    pub fn to_input(&self, value_type: Option<&str>) -> (r: Json)
        ensures
            r@ == input_of(
                self@,
                text::opt_str(value_type),
                json::read_content(self.value@),
            ),
            forall|j: JsonV| #[trigger]
                json::plain_text(j) == Some(self.value@) ==> r@ == input_of(
                    self@,
                    text::opt_str(value_type),
                    Some(j),
                ),
    {
        let parsed = json::read(self.value.as_str());
        self.input_given(value_type, parsed)
    }
}

/// The text of a value that is edited.
pub open spec fn edited_text(v: JsonV) -> Seq<char> {
    match v {
        JsonV::Null => ""@,
        JsonV::Text(s) => s,
        other => json::json_text(other),
    }
}

/// A label of a rule as it is edited: one without a source is shown as a fixed
/// value.
pub open spec fn draft_of(w: RuleWrite) -> DraftWriteV {
    DraftWriteV {
        label_name: w.label_name@,
        op: w.op@,
        value_kind: if w.value_kind@.len() == 0 {
            "literal"@
        } else {
            w.value_kind@
        },
        value: edited_text(w.value@),
    }
}

/// A label of a rule as it is edited.
pub fn draft_write(w: &RuleWrite) -> (r: DraftWrite)
    ensures
        r@ == draft_of(*w),
        w.value@ !is Null ==> (json::plain_text(w.value@) matches Some(t) ==> r.value@ == t),
{
    let value = match &w.value {
        Json::Null => "".to_owned(),
        Json::Text(s) => s.clone(),
        other => json::write(other),
    };
    let kind = if w.value_kind.as_str().is_empty() {
        "literal".to_owned()
    } else {
        w.value_kind.clone()
    };
    DraftWrite { label_name: w.label_name.clone(), op: w.op.clone(), value_kind: kind, value }
}

/// The labels of a rule in a line.
pub open spec fn write_texts(ws: Seq<RuleWrite>) -> Seq<Seq<char>> {
    Seq::new(ws.len(), |i: int| ws[i].label_name@ + "("@ + ws[i].op@ + ")"@)
}

/// A rule in a line: where it writes, and which labels.
pub fn rule_summary(rule: &AutomationRule) -> (r: String)
    ensures
        r@ == (if rule.target_event_source {
            "事件源条目"@
        } else {
            "表达式圈定"@
        }) + " → "@ + text::joined(write_texts(rule.writes@), "、"@),
{
    let ghost want = write_texts(rule.writes@);
    let mut parts: Vec<String> = Vec::new();
    let mut i: usize = 0;
    assert(text::contents(parts@) =~= want.take(0));
    while i < rule.writes.len()
        invariant
            i <= rule.writes@.len(),
            want == write_texts(rule.writes@),
            text::contents(parts@) == want.take(i as int),
        decreases rule.writes@.len() - i,
    {
        let ghost before = parts@;
        let mut t = text::concat3(
            rule.writes[i].label_name.as_str(),
            "(",
            rule.writes[i].op.as_str(),
        );
        t.push_str(")");
        assert(t@ =~= want[i as int]);
        parts.push(t);
        assert(text::contents(parts@) =~= text::contents(before).push(t@));
        i += 1;
        assert(text::contents(parts@) =~= want.take(i as int));
    }
    assert(want.take(i as int) =~= want);
    let mut out = if rule.target_event_source {
        "事件源条目".to_owned()
    } else {
        "表达式圈定".to_owned()
    };
    out.push_str(" → ");
    out.push_str(text::join(&parts, "、").as_str());
    out
}

/// The trigger that a new rule starts from: a change of the first label.
pub open spec fn first_trigger(schemas: Seq<LabelSchema>) -> Seq<char> {
    "$label = \""@ + (if schemas.len() > 0 {
        schemas[0].name@
    } else {
        ""@
    }) + "\" AND $new = \"\""@
}

/// The labels that a rule starts from: the first one, if there is any.
pub open spec fn first_drafts(schemas: Seq<LabelSchema>) -> Seq<DraftWriteV> {
    if schemas.len() > 0 {
        seq![new_draft(schemas[0].name@)]
    } else {
        seq![]
    }
}

/// A rule that is being edited.
#[derive(Debug, Clone)]
pub struct RuleForm {
    /// The rule; none for a new one.
    pub editing_id: Option<String>,
    pub name: String,
    pub enabled: bool,
    pub trigger: String,
    pub event_source: bool,
    pub target: String,
    pub writes: Vec<DraftWrite>,
}

/// The content of a form.
pub struct RuleFormV {
    pub editing_id: Option<Seq<char>>,
    pub name: Seq<char>,
    pub enabled: bool,
    pub trigger: Seq<char>,
    pub event_source: bool,
    pub target: Seq<char>,
    pub writes: Seq<DraftWriteV>,
}

impl View for RuleForm {
    type V = RuleFormV;

    open spec fn view(&self) -> RuleFormV {
        RuleFormV {
            editing_id: text::opt_view(self.editing_id),
            name: self.name@,
            enabled: self.enabled,
            trigger: self.trigger@,
            event_source: self.event_source,
            target: self.target@,
            writes: drafts_view(self.writes@),
        }
    }
}

/// The form of a rule.
pub open spec fn form_of(rule: AutomationRule, schemas: Seq<LabelSchema>) -> RuleFormV {
    RuleFormV {
        editing_id: Some(rule.id@),
        name: rule.name@,
        enabled: rule.enabled,
        trigger: rule.trigger_expr@,
        event_source: rule.target_event_source,
        target: rule.target_expr@,
        writes: if rule.writes@.len() == 0 {
            first_drafts(schemas)
        } else {
            Seq::new(rule.writes@.len(), |i: int| draft_of(rule.writes@[i]))
        },
    }
}

/// What is sent for a rule.
#[derive(Debug, Clone)]
pub struct RuleInput {
    pub name: String,
    pub enabled: bool,
    pub trigger: String,
    pub event_source: bool,
    /// None where the rule writes to the entry that changed.
    pub target: Option<String>,
    pub writes: Json,
}

/// The type of a label.
pub open spec fn declared_type(schemas: Seq<LabelSchema>, name: Seq<char>) -> Option<Seq<char>> {
    let i = timeline::schema_at(schemas, name);
    if 0 <= i < schemas.len() {
        Some(schemas[i].value_type@)
    } else {
        None
    }
}

/// What is sent for the labels of a rule.
pub open spec fn inputs_of(ds: Seq<DraftWriteV>, schemas: Seq<LabelSchema>) -> Seq<JsonV> {
    Seq::new(
        ds.len(),
        |i: int|
            input_of(
                ds[i],
                declared_type(schemas, ds[i].label_name),
                json::read_content(ds[i].value),
            ),
    )
}

/// The labels that a rule starts from.
fn start_drafts(schemas: &[LabelSchema]) -> (r: Vec<DraftWrite>)
    ensures
        drafts_view(r@) == first_drafts(schemas@),
{
    let mut out: Vec<DraftWrite> = Vec::new();
    if schemas.len() > 0 {
        out.push(DraftWrite::new(&schemas[0]));
        assert(drafts_view(out@) =~= first_drafts(schemas@));
    } else {
        assert(drafts_view(out@) =~= first_drafts(schemas@));
    }
    out
}

impl RuleForm {
    /// The form of a new rule.
    pub fn open_new(schemas: &[LabelSchema]) -> (r: RuleForm)
        ensures
            r@ == (RuleFormV {
                editing_id: None,
                name: ""@,
                enabled: true,
                trigger: first_trigger(schemas@),
                event_source: true,
                target: ""@,
                writes: first_drafts(schemas@),
            }),
    {
        let first = if schemas.len() > 0 {
            schemas[0].name.clone()
        } else {
            "".to_owned()
        };
        RuleForm {
            editing_id: None,
            name: "".to_owned(),
            enabled: true,
            trigger: text::concat3("$label = \"", first.as_str(), "\" AND $new = \"\""),
            event_source: true,
            target: "".to_owned(),
            writes: start_drafts(schemas),
        }
    }

    /// The form of a rule that is there.
    pub fn open_edit(rule: &AutomationRule, schemas: &[LabelSchema]) -> (r: RuleForm)
        ensures
            r@ == form_of(*rule, schemas@),
    {
        let mut writes: Vec<DraftWrite> = Vec::new();
        if rule.writes.len() == 0 {
            writes = start_drafts(schemas);
        } else {
            let ghost want = form_of(*rule, schemas@).writes;
            let mut i: usize = 0;
            assert(drafts_view(writes@) =~= want.take(0));
            while i < rule.writes.len()
                invariant
                    i <= rule.writes@.len(),
                    rule.writes@.len() > 0,
                    want == form_of(*rule, schemas@).writes,
                    drafts_view(writes@) == want.take(i as int),
                decreases rule.writes@.len() - i,
            {
                let ghost before = writes@;
                let d = draft_write(&rule.writes[i]);
                writes.push(d);
                assert(d@ == want[i as int]);
                assert(drafts_view(writes@) =~= drafts_view(before).push(d@));
                i += 1;
                assert(drafts_view(writes@) =~= want.take(i as int));
            }
            assert(want.take(i as int) =~= want);
        }
        RuleForm {
            editing_id: Some(rule.id.clone()),
            name: rule.name.clone(),
            enabled: rule.enabled,
            trigger: rule.trigger_expr.clone(),
            event_source: rule.target_event_source,
            target: rule.target_expr.clone(),
            writes,
        }
    }

    /// Adds a label to the rule; nothing where no label is defined.
    pub fn add_write(&mut self, schemas: &[LabelSchema])
        ensures
            final(self)@ == (RuleFormV {
                writes: old(self)@.writes + first_drafts(schemas@),
                ..old(self)@
            }),
    {
        let ghost before = self.writes@;
        if schemas.len() > 0 {
            self.writes.push(DraftWrite::new(&schemas[0]));
        }
        assert(drafts_view(self.writes@) =~= drafts_view(before) + first_drafts(schemas@));
    }

    /// Takes the label at a position out of the rule.
    pub fn remove_write(&mut self, i: usize)
        ensures
            final(self)@ == (RuleFormV {
                writes: if i < old(self)@.writes.len() {
                    old(self)@.writes.remove(i as int)
                } else {
                    old(self)@.writes
                },
                ..old(self)@
            }),
    {
        let ghost before = self.writes@;
        if i < self.writes.len() {
            self.writes.remove(i);
            assert(drafts_view(self.writes@) =~= drafts_view(before).remove(i as int));
        }
    }

    /// Appends the name of a label to the trigger.
    pub fn append_name(&mut self, name: &str)
        ensures
            final(self)@ == (RuleFormV {
                trigger: old(self)@.trigger + " "@ + name@,
                ..old(self)@
            }),
    {
        self.trigger = text::concat3(self.trigger.as_str(), " ", name);
    }

    /// What is sent for the rule, or what is said where it has no name.
    pub fn submit(&self, schemas: &[LabelSchema]) -> (r: Result<RuleInput, &'static str>)
        ensures
            match r {
                Ok(input) => {
                    &&& !text::is_blank(self@.name)
                    &&& input.name@ == self@.name
                    &&& input.enabled == self.enabled
                    &&& input.trigger@ == self@.trigger
                    &&& input.event_source == self.event_source
                    &&& text::opt_view(input.target) == (if self.event_source {
                        None
                    } else {
                        Some(self@.target)
                    })
                    &&& input.writes@ == JsonV::Array(inputs_of(self@.writes, schemas@))
                },
                Err(e) => text::is_blank(self@.name) && e@ == NAME_MISSING@,
            },
    {
        if text::blank(self.name.as_str()) {
            return Err(NAME_MISSING);
        }
        let ghost want = inputs_of(self@.writes, schemas@);
        let mut items: Vec<Json> = Vec::new();
        let mut i: usize = 0;
        assert(json::items_view(items@) =~= want.take(0));
        while i < self.writes.len()
            invariant
                i <= self.writes@.len(),
                want == inputs_of(self@.writes, schemas@),
                json::items_view(items@) == want.take(i as int),
            decreases self.writes@.len() - i,
        {
            let w = &self.writes[i];
            let vt = match timeline::find_schema(schemas, w.label_name.as_str()) {
                Some(s) => Some(s.value_type.as_str()),
                None => None,
            };
            let one = w.to_input(vt);
            assert(one@ == want[i as int]);
            json::add_item(&mut items, one);
            i += 1;
            assert(json::items_view(items@) =~= want.take(i as int));
        }
        assert(want.take(i as int) =~= want);
        Ok(
            RuleInput {
                name: self.name.clone(),
                enabled: self.enabled,
                trigger: self.trigger.clone(),
                event_source: self.event_source,
                target: if self.event_source {
                    None
                } else {
                    Some(self.target.clone())
                },
                writes: json::array(items),
            },
        )
    }
}

// ---------------------------------------------------------------------------
// Laws
// ---------------------------------------------------------------------------

/// A fixed text for a label that is not a number or a truth value is sent as it
/// is, whatever it reads as.
pub proof fn texts_are_sent_as_texts(
    d: DraftWriteV,
    vt: Option<Seq<char>>,
    parsed: Option<JsonV>,
)
    requires
        d.value_kind == "literal"@,
        !is_json_type(vt),
    ensures
        sent_value(d, vt, parsed) == JsonV::Text(d.value),
{
}

/// A value that is opened for editing and not changed is sent back as it was: a
/// fixed text, a fixed number or truth value where the text of it reads as that,
/// and the absence of a value that comes from elsewhere.
pub proof fn unedited_write_survives(
    w: RuleWrite,
    vt: Option<Seq<char>>,
    parsed: Option<JsonV>,
)
    requires
        w.value_kind@.len() > 0,
        w.value_kind@ == "literal"@ && !is_json_type(vt) ==> w.value@ is Text,
        w.value_kind@ == "literal"@ && is_json_type(vt) ==> parsed == Some(w.value@) || (
        w.value@ is Text && parsed is None),
        w.value_kind@ != "literal"@ ==> w.value@ is Null,
    ensures
        sent_value(draft_of(w), vt, parsed) == w.value@,
{
}

} // verus!
