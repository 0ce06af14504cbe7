//! The labels of an entry, one row each, and the one that is being added.

use vstd::prelude::*;

use crate::components;
use crate::draft;
use crate::graphql_client::{LabelSchema, Labeling};
use crate::json;
use crate::json::{Json, JsonV};
use crate::number::{NumV, Number};
use crate::query_eval;
use crate::text;
use crate::timeline;

verus! {

/// The name of a row: the title of the label without blanks around it, or the
/// name of the label where there is none.
pub open spec fn row_name(schema: Option<LabelSchema>, name: Seq<char>) -> Seq<char> {
    match schema {
        Some(s) => if text::is_blank(s.title@) {
            name
        } else {
            text::trimmed(s.title@)
        },
        None => name,
    }
}

/// The definition behind an optional reference.
pub open spec fn opt_schema(s: Option<&LabelSchema>) -> Option<LabelSchema> {
    match s {
        Some(s) => Some(*s),
        None => None,
    }
}

/// The name of a row.
pub fn row_title(schema: Option<&LabelSchema>, name: &str) -> (r: String)
    ensures
        r@ == row_name(opt_schema(schema), name@),
{
    match schema {
        Some(s) => {
            let t = text::trim(s.title.as_str());
            if t.as_str().is_empty() {
                name.to_owned()
            } else {
                t
            }
        },
        None => name.to_owned(),
    }
}

/// The color of a row: that of the value, else that of the label.
pub open spec fn color_of_row(schema: Option<LabelSchema>, value: JsonV) -> Option<Seq<char>> {
    match schema {
        Some(s) => query_eval::label_color(
            match s.color {
                Some(c) => Some(JsonV::Text(c@)),
                None => None,
            },
            s.value_colors@,
            value,
        ),
        None => None,
    }
}

/// The color of a row.
pub fn row_color(schema: Option<&LabelSchema>, value: &Json) -> (r: Option<String>)
    ensures
        text::opt_view(r) == color_of_row(opt_schema(schema), value@),
{
    match schema {
        Some(s) => match &s.color {
            Some(c) => {
                let base = json::of_str(c.as_str());
                query_eval::resolve_label_color(Some(&base), &s.value_colors, value)
            },
            None => query_eval::resolve_label_color(None, &s.value_colors, value),
        },
        None => None,
    }
}

/// The style of a row with or without a color.
pub fn row_style(color: Option<&str>) -> (r: String)
    ensures
        r@ == (match text::opt_str(color) {
            Some(c) => "border-color:"@ + c + ";background:color-mix(in srgb, "@ + c
                + " 12%, transparent);color:"@ + c,
            None => ""@,
        }),
{
    match color {
        Some(c) => {
            let mut out = text::concat3("border-color:", c, ";background:color-mix(in srgb, ");
            out.push_str(c);
            out.push_str(" 12%, transparent);color:");
            out.push_str(c);
            out
        },
        None => "".to_owned(),
    }
}

/// Whether labels hold a name.
pub open spec fn has_name(labels: Seq<Labeling>, name: Seq<char>) -> bool {
    exists|i: int| 0 <= i < labels.len() && (#[trigger] labels[i]).label_name@ == name
}

/// Tests [`has_name`].
fn holds_name(labels: &[Labeling], name: &str) -> (r: bool)
    ensures
        r == has_name(labels@, name@),
{
    let mut i: usize = 0;
    while i < labels.len()
        invariant
            i <= labels@.len(),
            forall|k: int| 0 <= k < i ==> (#[trigger] labels@[k]).label_name@ != name@,
        decreases labels@.len() - i,
    {
        if text::same(labels[i].label_name.as_str(), name) {
            return true;
        }
        i += 1;
    }
    false
}

/// Whether a label is offered to be added: it is neither there nor being added.
pub open spec fn is_free(
    s: LabelSchema,
    labels: Seq<Labeling>,
    pending: Option<Seq<char>>,
) -> bool {
    !has_name(labels, s.name@) && pending != Some(s.name@)
}

/// The positions of the labels that are offered.
pub open spec fn free_labels(
    schemas: Seq<LabelSchema>,
    labels: Seq<Labeling>,
    pending: Option<Seq<char>>,
) -> Seq<int>
    decreases schemas.len(),
{
    if schemas.len() == 0 {
        seq![]
    } else if is_free(schemas.last(), labels, pending) {
        free_labels(schemas.drop_last(), labels, pending).push(schemas.len() - 1)
    } else {
        free_labels(schemas.drop_last(), labels, pending)
    }
}

/// The labels that are offered, by their positions.
pub fn available(
    schemas: &[LabelSchema],
    labels: &[Labeling],
    pending: Option<&str>,
) -> (r: Vec<usize>)
    ensures
        components::positions(r@) == free_labels(schemas@, labels@, text::opt_str(pending)),
{
    let mut out: Vec<usize> = Vec::new();
    let mut i: usize = 0;
    assert(components::positions(out@) =~= seq![]);
    while i < schemas.len()
        invariant
            i <= schemas@.len(),
            components::positions(out@) == free_labels(
                schemas@.take(i as int),
                labels@,
                text::opt_str(pending),
            ),
        decreases schemas@.len() - i,
    {
        let ghost before = out@;
        assert(schemas@.take(i + 1).drop_last() =~= schemas@.take(i as int));
        let name = schemas[i].name.as_str();
        let waits = match pending {
            Some(p) => text::same(p, name),
            None => false,
        };
        if !holds_name(labels, name) && !waits {
            out.push(i);
            assert(components::positions(out@) =~= components::positions(before).push(i as int));
        }
        i += 1;
    }
    assert(schemas@.take(i as int) =~= schemas@);
    out
}

/// What choosing a label to be added does.
#[derive(Debug, Clone, Copy, PartialEq, Eq, Structural)]
pub enum Adding {
    Nothing,
    /// The label has no values and is written at once.
    Write,
    /// A row for its value opens.
    Ask,
}

/// What choosing a label does.
pub open spec fn adding_of(schemas: Seq<LabelSchema>, name: Seq<char>) -> Adding {
    let i = timeline::schema_at(schemas, name);
    if name.len() == 0 {
        Adding::Nothing
    } else if 0 <= i < schemas.len() && schemas[i].value_type@ == "null"@ {
        Adding::Write
    } else {
        Adding::Ask
    }
}

/// What choosing a label does.
pub fn adding(schemas: &[LabelSchema], name: &str) -> (r: Adding)
    ensures
        r == adding_of(schemas@, name@),
{
    if name.is_empty() {
        return Adding::Nothing;
    }
    match timeline::find_schema(schemas, name) {
        Some(s) => if text::same(s.value_type.as_str(), "null") {
            Adding::Write
        } else {
            Adding::Ask
        },
        None => Adding::Ask,
    }
}

/// The control that a row has for its value.
#[derive(Debug, Clone, Copy, PartialEq, Eq, Structural)]
pub enum Control {
    /// The label has no definition any more: its value is shown.
    Shown,
    /// The label has no values.
    Bare,
    Choice,
    Check,
    TextField,
    NumberField,
}

/// The control that a row has.
pub open spec fn control_of(schema: Option<LabelSchema>) -> Control {
    match schema {
        None => Control::Shown,
        Some(s) => if s.value_type@ == "null"@ {
            Control::Bare
        } else if s.value_type@ == "enum"@ {
            Control::Choice
        } else if s.value_type@ == "boolean"@ {
            Control::Check
        } else if s.value_type@ == "string"@ {
            Control::TextField
        } else {
            Control::NumberField
        },
    }
}

/// The control that a row has.
pub fn control(schema: Option<&LabelSchema>) -> (r: Control)
    ensures
        r == control_of(opt_schema(schema)),
{
    match schema {
        None => Control::Shown,
        Some(s) => {
            let vt = s.value_type.as_str();
            if text::same(vt, "null") {
                Control::Bare
            } else if text::same(vt, "enum") {
                Control::Choice
            } else if text::same(vt, "boolean") {
                Control::Check
            } else if text::same(vt, "string") {
                Control::TextField
            } else {
                Control::NumberField
            }
        },
    }
}

/// The text of a value in its control; nothing for a row that is being added.
pub fn current_text(value: Option<&Json>) -> (r: String)
    ensures
        r@ == (match json::opt_json(value) {
            Some(v) => components::value_text(v),
            None => ""@,
        }),
{
    match value {
        Some(v) => components::value_to_string(v),
        None => "".to_owned(),
    }
}

/// What setting the field of a row does.
#[derive(Debug, Clone)]
pub enum RowChange {
    /// The field is empty: the label is removed.
    Remove,
    Write(Json),
    /// The field does not spell a number: nothing happens.
    Keep,
}

/// The content of a change.
pub enum RowChangeV {
    Remove,
    Write(JsonV),
    Keep,
}

impl View for RowChange {
    type V = RowChangeV;

    open spec fn view(&self) -> RowChangeV {
        match self {
            RowChange::Remove => RowChangeV::Remove,
            RowChange::Write(j) => RowChangeV::Write(j@),
            RowChange::Keep => RowChangeV::Keep,
        }
    }
}

/// What setting a field does, given the number that it spells.
pub open spec fn change_of(
    value_type: Seq<char>,
    s: Seq<char>,
    number: Option<NumV>,
) -> RowChangeV {
    if s.len() == 0 {
        RowChangeV::Remove
    } else if value_type == "integer"@ || value_type == "float"@ {
        match number {
            Some(n) => RowChangeV::Write(JsonV::Number(n)),
            None => RowChangeV::Keep,
        }
    } else {
        RowChangeV::Write(JsonV::Text(s))
    }
}

/// What setting a field does, given the number that it spells.
pub fn change_given(value_type: &str, s: &str, number: Option<Number>) -> (r: RowChange)
    ensures
        r@ == change_of(value_type@, s@, draft::opt_num(number)),
{
    if s.is_empty() {
        RowChange::Remove
    } else if text::same(value_type, "integer") || text::same(value_type, "float") {
        match number {
            Some(n) => RowChange::Write(Json::Number(n)),
            None => RowChange::Keep,
        }
    } else {
        RowChange::Write(json::of_str(s))
    }
}

/// What setting the field of a row does.
pub fn field_change(value_type: &str, s: &str) -> (r: RowChange)
    ensures
        r@ == change_of(value_type@, s@, components::number_read(value_type@, s@)),
{
    let number = components::read_number(value_type, s);
    change_given(value_type, s, number)
}

/// What choosing an option of a row does; nothing for the empty one.
pub fn option_change(s: &str) -> (r: Option<Json>)
    ensures
        draft::opt_value(r) == (if s@.len() == 0 {
            None
        } else {
            Some(JsonV::Text(s@))
        }),
{
    if s.is_empty() {
        None
    } else {
        Some(json::of_str(s))
    }
}

/// What choosing an option does where the empty one takes the label off.
pub fn choice_change(s: &str) -> (r: RowChange)
    ensures
        r@ == (if s@.len() == 0 {
            RowChangeV::Remove
        } else {
            RowChangeV::Write(JsonV::Text(s@))
        }),
{
    if s.is_empty() {
        RowChange::Remove
    } else {
        RowChange::Write(json::of_str(s))
    }
}

// ---------------------------------------------------------------------------
// Laws
// ---------------------------------------------------------------------------

/// A label is offered at its position if and only if it is neither there nor
/// being added.
pub proof fn offers_are_free(
    schemas: Seq<LabelSchema>,
    labels: Seq<Labeling>,
    pending: Option<Seq<char>>,
    i: int,
)
    requires
        0 <= i < schemas.len(),
    ensures
        free_labels(schemas, labels, pending).contains(i) <==> is_free(schemas[i], labels, pending),
    decreases schemas.len(),
{
    let rest = free_labels(schemas.drop_last(), labels, pending);
    let all = free_labels(schemas, labels, pending);
    let n = schemas.len() - 1;
    free_positions_bound(schemas.drop_last(), labels, pending);
    if i < n {
        offers_are_free(schemas.drop_last(), labels, pending, i);
        if rest.contains(i) {
            let k = choose|k: int| 0 <= k < rest.len() && rest[k] == i;
            assert(all[k] == i);
        }
        if all.contains(i) {
            let k = choose|k: int| 0 <= k < all.len() && all[k] == i;
            assert(k < rest.len());
            assert(rest[k] == i);
        }
    } else if is_free(schemas[i], labels, pending) {
        assert(all[rest.len() as int] == n);
    } else {
        assert(all == rest);
    }
}

/// The positions of [`free_labels`] are positions of the labels.
proof fn free_positions_bound(
    schemas: Seq<LabelSchema>,
    labels: Seq<Labeling>,
    pending: Option<Seq<char>>,
)
    ensures
        forall|k: int|
            0 <= k < free_labels(schemas, labels, pending).len() ==> 0 <= #[trigger] free_labels(
                schemas,
                labels,
                pending,
            )[k] < schemas.len(),
    decreases schemas.len(),
{
    if schemas.len() > 0 {
        let rest = free_labels(schemas.drop_last(), labels, pending);
        free_positions_bound(schemas.drop_last(), labels, pending);
        assert forall|k: int| 0 <= k < free_labels(schemas, labels, pending).len() implies 0
            <= #[trigger] free_labels(schemas, labels, pending)[k] < schemas.len() by {
            if k < rest.len() {
                assert(0 <= rest[k] < schemas.len() - 1);
            }
        }
    }
}

} // verus!
