//! The table of entries: heads, cells and the marks on titles.

use vstd::prelude::*;

use crate::components;
use crate::expr_input;
use crate::graphql_client::{Entry, LabelSchema, Labeling, Member};
use crate::json;
use crate::json::{Json, JsonV};
use crate::query_eval;
use crate::text;
use crate::timeline;

verus! {

/// What stands where there is nothing to show.
pub const DASH: &'static str = "—";

/// A label that an entry has from another one by inheritance.
#[derive(Debug, Clone)]
pub struct Inherited {
    pub name: String,
    pub value: Json,
    /// The label that it comes from.
    pub source: String,
}

/// The name of the head of a column: the title of the label, or its name where
/// it has no definition.
pub open spec fn head_text(schemas: Seq<LabelSchema>, name: Seq<char>) -> Seq<char> {
    let i = timeline::schema_at(schemas, name);
    if 0 <= i < schemas.len() {
        schemas[i].title@
    } else {
        name
    }
}

/// The name of the head of a column.
pub fn column_title(schemas: &[LabelSchema], name: &str) -> (r: String)
    ensures
        r@ == head_text(schemas@, name@),
{
    match timeline::find_schema(schemas, name) {
        Some(s) => s.title.clone(),
        None => name.to_owned(),
    }
}

/// The position of a member by account, or the number of members.
pub open spec fn member_at(members: Seq<Member>, id: Seq<char>) -> int
    decreases members.len(),
{
    if members.len() == 0 || members[0].account_id@ == id {
        0
    } else {
        1 + member_at(members.skip(1), id)
    }
}

/// The name of who created an entry: as the server gives it, else as the members
/// have it, else a dash.
pub open spec fn creator_of(e: Entry, members: Seq<Member>) -> Seq<char> {
    match e.created_by_account {
        Some(a) => a.name@,
        None => {
            let i = member_at(members, e.created_by@);
            if 0 <= i < members.len() {
                components::account_name(members[i].name@, members[i].email@)
            } else {
                DASH@
            }
        },
    }
}

/// The name of who created an entry.
pub fn creator_text(e: &Entry, members: &[Member]) -> (r: String)
    ensures
        r@ == creator_of(*e, members@),
{
    match &e.created_by_account {
        Some(a) => a.name.clone(),
        None => {
            let mut i: usize = 0;
            assert(members@.skip(0) =~= members@);
            while i < members.len()
                invariant
                    i <= members@.len(),
                    e.created_by_account is None,
                    member_at(members@, e.created_by@) == i + member_at(
                        members@.skip(i as int),
                        e.created_by@,
                    ),
                decreases members@.len() - i,
            {
                let ghost rest = members@.skip(i as int);
                assert(rest[0] == members@[i as int]);
                assert(rest.skip(1) =~= members@.skip(i + 1));
                if text::same(members[i].account_id.as_str(), e.created_by.as_str()) {
                    return components::member_label(&members[i]);
                }
                i += 1;
            }
            DASH.to_owned()
        },
    }
}

/// The first inherited label with a name.
pub open spec fn inherited_at(derived: Seq<Inherited>, name: Seq<char>) -> int
    decreases derived.len(),
{
    if derived.len() == 0 || derived[0].name@ == name {
        0
    } else {
        1 + inherited_at(derived.skip(1), name)
    }
}

/// What a cell shows: the label itself, else the inherited one with its source.
pub open spec fn cell_value(
    labels: Seq<Labeling>,
    derived: Seq<Inherited>,
    name: Seq<char>,
) -> Option<(JsonV, Option<Seq<char>>)> {
    match query_eval::label_named(labels, name) {
        Some(v) => Some((v, None)),
        None => {
            let i = inherited_at(derived, name);
            if 0 <= i < derived.len() {
                Some((derived[i].value@, Some(derived[i].source@)))
            } else {
                None
            }
        },
    }
}

/// Whether a cell shows an inherited label.
pub open spec fn is_inherited(
    labels: Seq<Labeling>,
    derived: Seq<Inherited>,
    name: Seq<char>,
) -> bool {
    match cell_value(labels, derived, name) {
        Some((_, source)) => source is Some,
        None => false,
    }
}

/// The first inherited label with a name.
fn find_inherited<'a>(derived: &'a [Inherited], name: &str) -> (r: Option<&'a Inherited>)
    ensures
        match r {
            Some(d) => 0 <= inherited_at(derived@, name@) < derived@.len() && *d
                == derived@[inherited_at(derived@, name@)],
            None => inherited_at(derived@, name@) == derived@.len(),
        },
{
    let mut i: usize = 0;
    assert(derived@.skip(0) =~= derived@);
    while i < derived.len()
        invariant
            i <= derived@.len(),
            inherited_at(derived@, name@) == i + inherited_at(derived@.skip(i as int), name@),
        decreases derived@.len() - i,
    {
        let ghost rest = derived@.skip(i as int);
        assert(rest[0] == derived@[i as int]);
        assert(rest.skip(1) =~= derived@.skip(i + 1));
        if text::same(derived[i].name.as_str(), name) {
            return Some(&derived[i]);
        }
        i += 1;
    }
    None
}

/// The names of values, each with its friendly form.
pub open spec fn friendly_texts(a: Seq<JsonV>) -> Seq<Seq<char>>
    decreases a.len(),
{
    if a.len() == 0 {
        seq![]
    } else {
        friendly_texts(a.drop_last()).push(
            components::enum_value_text(components::value_text(a.last())),
        )
    }
}

/// The names of the accounts of values.
pub open spec fn account_texts(members: Seq<Member>, a: Seq<JsonV>) -> Seq<Seq<char>>
    decreases a.len(),
{
    if a.len() == 0 {
        seq![]
    } else {
        account_texts(members, a.drop_last()).push(
            components::name_of_account(members, components::value_text(a.last())),
        )
    }
}

/// A value as text: several values with their friendly forms.
pub open spec fn raw_text(v: JsonV) -> Seq<char> {
    match v {
        JsonV::Array(a) => text::joined(friendly_texts(a), ", "@),
        other => components::value_text(other),
    }
}

/// The value type of a label, where it is defined.
pub open spec fn type_of(schemas: Seq<LabelSchema>, name: Seq<char>) -> Option<Seq<char>> {
    let i = timeline::schema_at(schemas, name);
    if 0 <= i < schemas.len() {
        Some(schemas[i].value_type@)
    } else {
        None
    }
}

/// The text of a cell: a label without values shows its title, accounts their
/// names, other values their friendly forms.
pub open spec fn shown_value(
    schemas: Seq<LabelSchema>,
    members: Seq<Member>,
    name: Seq<char>,
    v: JsonV,
) -> Seq<char> {
    let vt = type_of(schemas, name);
    if vt == Some("null"@) {
        expr_input::schema_title(schemas[timeline::schema_at(schemas, name)])
    } else if vt == Some("account"@) {
        match v {
            JsonV::Array(a) => text::joined(account_texts(members, a), ", "@),
            _ => components::name_of_account(members, raw_text(v)),
        }
    } else {
        components::enum_value_text(raw_text(v))
    }
}

/// The color of a cell: that of the value, else that of the label.
pub open spec fn cell_color(
    schemas: Seq<LabelSchema>,
    name: Seq<char>,
    v: JsonV,
) -> Option<Seq<char>> {
    let i = timeline::schema_at(schemas, name);
    if 0 <= i < schemas.len() {
        let base = match schemas[i].color {
            Some(c) => Some(JsonV::Text(c@)),
            None => None,
        };
        query_eval::label_color(base, schemas[i].value_colors@, v)
    } else {
        None
    }
}

/// The style of a chip with a color.
pub open spec fn chip_style_text(c: Seq<char>) -> Seq<char> {
    "border-color:"@ + c + ";background:color-mix(in srgb, "@ + c + " 15%, transparent);color:"@ + c
}

/// The style of a chip with a color.
pub fn chip_style(c: &str) -> (r: String)
    ensures
        r@ == chip_style_text(c@),
{
    let mut out = text::concat3("border-color:", c, ";background:color-mix(in srgb, ");
    out.push_str(c);
    out.push_str(" 15%, transparent);color:");
    out.push_str(c);
    out
}

/// The class of a chip of a label, marked where the label is inherited.
pub open spec fn chip_class_text(kind: Seq<char>, inherited: bool) -> Seq<char> {
    let bare = if kind.len() == 0 {
        "chip"@
    } else {
        "chip "@ + kind
    };
    if inherited {
        bare + " inh"@
    } else {
        bare
    }
}

/// The class of a chip of a label.
fn chip_class(kind: &str, inherited: bool) -> (r: String)
    ensures
        r@ == chip_class_text(kind@, inherited),
{
    let mut out = if kind.is_empty() {
        "chip".to_owned()
    } else {
        text::concat2("chip ", kind)
    };
    if inherited {
        out.push_str(" inh");
    }
    out
}

/// What a cell is.
#[derive(Debug, Clone)]
pub enum Cell {
    /// The label is not there.
    Nothing,
    Chip { class: String, style: Option<String>, text: String, hint: Option<String> },
    Plain { text: String, hint: Option<String> },
}

/// The content of a cell.
pub enum CellV {
    Nothing,
    Chip {
        class: Seq<char>,
        style: Option<Seq<char>>,
        text: Seq<char>,
        hint: Option<Seq<char>>,
    },
    Plain { text: Seq<char>, hint: Option<Seq<char>> },
}

impl View for Cell {
    type V = CellV;

    open spec fn view(&self) -> CellV {
        match self {
            Cell::Nothing => CellV::Nothing,
            Cell::Chip { class, style, text, hint } => CellV::Chip {
                class: class@,
                style: text::opt_view(*style),
                text: text@,
                hint: text::opt_view(*hint),
            },
            Cell::Plain { text, hint } => CellV::Plain { text: text@, hint: text::opt_view(*hint) },
        }
    }
}

/// What is said of an inherited label.
pub open spec fn inherited_hint(source: Option<Seq<char>>) -> Option<Seq<char>> {
    match source {
        Some(s) => Some("由「"@ + s + "」继承而来，未直接打在本条上"@),
        None => None,
    }
}

/// A cell: a chip in the color of the value or the label, else a chip by the
/// kind of the value for choices, a bare chip for a label without values, else
/// plain text.
pub open spec fn cell_of(
    schemas: Seq<LabelSchema>,
    members: Seq<Member>,
    labels: Seq<Labeling>,
    derived: Seq<Inherited>,
    name: Seq<char>,
) -> CellV {
    match cell_value(labels, derived, name) {
        None => CellV::Nothing,
        Some((v, source)) => {
            let vt = type_of(schemas, name);
            let shown = shown_value(schemas, members, name, v);
            let hint = inherited_hint(source);
            let inh = source is Some;
            match cell_color(schemas, name, v) {
                Some(c) => CellV::Chip {
                    class: chip_class_text(Seq::empty(), inh),
                    style: Some(chip_style_text(c)),
                    text: shown,
                    hint,
                },
                None => if vt == Some("enum"@) {
                    CellV::Chip {
                        class: chip_class_text(components::chip_class_of(name, raw_text(v)), inh),
                        style: None,
                        text: shown,
                        hint,
                    }
                } else if vt == Some("null"@) {
                    CellV::Chip {
                        class: chip_class_text(Seq::empty(), inh),
                        style: None,
                        text: shown,
                        hint,
                    }
                } else {
                    CellV::Plain { text: shown, hint }
                },
            }
        },
    }
}

/// The friendly forms of values, joined.
fn friendly_list(a: &Vec<Json>) -> (r: String)
    ensures
        r@ == text::joined(friendly_texts(json::items_view(a@)), ", "@),
{
    let ghost items = json::items_view(a@);
    let mut out: Vec<String> = Vec::new();
    let mut i: usize = 0;
    assert(text::contents(out@) =~= seq![]);
    while i < a.len()
        invariant
            i <= a@.len(),
            items == json::items_view(a@),
            text::contents(out@) == friendly_texts(items.take(i as int)),
        decreases a@.len() - i,
    {
        let ghost before = out@;
        assert(items.take(i + 1).drop_last() =~= items.take(i as int));
        assert(items.take(i + 1).last() == a@[i as int]@);
        let t = components::display_enum_value(components::value_to_string(&a[i]).as_str());
        out.push(t);
        assert(text::contents(out@) =~= text::contents(before).push(t@));
        i += 1;
    }
    assert(items.take(i as int) =~= items);
    text::join(&out, ", ")
}

/// The names of the accounts of values, joined.
fn account_list(members: &[Member], a: &Vec<Json>) -> (r: String)
    ensures
        r@ == text::joined(account_texts(members@, json::items_view(a@)), ", "@),
{
    let ghost items = json::items_view(a@);
    let mut out: Vec<String> = Vec::new();
    let mut i: usize = 0;
    assert(text::contents(out@) =~= seq![]);
    while i < a.len()
        invariant
            i <= a@.len(),
            items == json::items_view(a@),
            text::contents(out@) == account_texts(members@, items.take(i as int)),
        decreases a@.len() - i,
    {
        let ghost before = out@;
        assert(items.take(i + 1).drop_last() =~= items.take(i as int));
        assert(items.take(i + 1).last() == a@[i as int]@);
        let t = components::account_label(members, components::value_to_string(&a[i]).as_str());
        out.push(t);
        assert(text::contents(out@) =~= text::contents(before).push(t@));
        i += 1;
    }
    assert(items.take(i as int) =~= items);
    text::join(&out, ", ")
}

/// A value as text.
pub fn value_list_text(v: &Json) -> (r: String)
    ensures
        r@ == raw_text(v@),
{
    match v {
        Json::Array(a) => {
            proof {
                json::array_view(*a);
            }
            friendly_list(a)
        },
        _ => components::value_to_string(v),
    }
}

/// The text of a cell.
fn value_shown(
    schema: Option<&LabelSchema>,
    members: &[Member],
    v: &Json,
    Ghost(schemas): Ghost<Seq<LabelSchema>>,
    Ghost(name): Ghost<Seq<char>>,
) -> (r: String)
    requires
        match schema {
            Some(s) => 0 <= timeline::schema_at(schemas, name) < schemas.len() && *s
                == schemas[timeline::schema_at(schemas, name)],
            None => timeline::schema_at(schemas, name) == schemas.len(),
        },
    ensures
        r@ == shown_value(schemas, members@, name, v@),
{
    if let Some(s) = schema {
        if text::same(s.value_type.as_str(), "null") {
            return expr_input::title_or_name(s);
        }
        if text::same(s.value_type.as_str(), "account") {
            return match v {
                Json::Array(a) => {
                    proof {
                        json::array_view(*a);
                    }
                    account_list(members, a)
                },
                _ => components::account_label(members, value_list_text(v).as_str()),
            };
        }
    }
    components::display_enum_value(value_list_text(v).as_str())
}

/// The color of a cell.
fn color_of_cell(schema: Option<&LabelSchema>, v: &Json) -> (r: Option<String>)
    ensures
        text::opt_view(r) == (match schema {
            Some(s) => query_eval::label_color(
                match s.color {
                    Some(c) => Some(JsonV::Text(c@)),
                    None => None,
                },
                s.value_colors@,
                v@,
            ),
            None => None,
        }),
{
    match schema {
        Some(s) => match &s.color {
            Some(c) => {
                let base = json::of_str(c.as_str());
                query_eval::resolve_label_color(Some(&base), &s.value_colors, v)
            },
            None => query_eval::resolve_label_color(None, &s.value_colors, v),
        },
        None => None,
    }
}

/// The cell of a label of an entry.
pub fn cell(
    schemas: &[LabelSchema],
    members: &[Member],
    labels: &[Labeling],
    derived: &[Inherited],
    name: &str,
) -> (r: Cell)
    ensures
        r@ == cell_of(schemas@, members@, labels@, derived@, name@),
{
    let mut source: Option<String> = None;
    let value = match query_eval::find_label(labels, name) {
        Some(v) => Some(v),
        None => match find_inherited(derived, name) {
            Some(d) => {
                source = Some(d.source.clone());
                Some(&d.value)
            },
            None => None,
        },
    };
    let v = match value {
        Some(v) => v,
        None => {
            return Cell::Nothing;
        },
    };
    let schema = timeline::find_schema(schemas, name);
    let shown = value_shown(schema, members, v, Ghost(schemas@), Ghost(name@));
    let inh = source.is_some();
    let hint = match &source {
        Some(s) => Some(text::concat3("由「", s.as_str(), "」继承而来，未直接打在本条上")),
        None => None,
    };
    proof {
        reveal_strlit("");
        assert(""@ =~= Seq::<char>::empty());
    }
    if let Some(c) = color_of_cell(schema, v) {
        return Cell::Chip {
            class: chip_class("", inh),
            style: Some(chip_style(c.as_str())),
            text: shown,
            hint,
        };
    }
    if let Some(s) = schema {
        if text::same(s.value_type.as_str(), "enum") {
            let kind = components::label_chip_class(name, value_list_text(v).as_str());
            return Cell::Chip { class: chip_class(kind, inh), style: None, text: shown, hint };
        }
        if text::same(s.value_type.as_str(), "null") {
            return Cell::Chip { class: chip_class("", inh), style: None, text: shown, hint };
        }
    }
    Cell::Plain { text: shown, hint }
}

/// The style of a title with or without a color.
pub fn title_style(color: Option<&str>) -> (r: String)
    ensures
        r@ == (match text::opt_str(color) {
            Some(c) => "color:"@ + c,
            None => ""@,
        }),
{
    match color {
        Some(c) => text::concat2("color:", c),
        None => "".to_owned(),
    }
}

/// The number of comments shown beside a title; none where there is none.
pub fn comment_badge(count: Option<i32>) -> (r: Option<i32>)
    ensures
        r == (match count {
            Some(n) => if n > 0 {
                Some(n)
            } else {
                None
            },
            None => None,
        }),
{
    match count {
        Some(n) => if n > 0 {
            Some(n)
        } else {
            None
        },
        None => None,
    }
}

// ---------------------------------------------------------------------------
// Laws
// ---------------------------------------------------------------------------

/// A label on the entry itself hides one that it inherits.
pub proof fn own_label_comes_first(
    labels: Seq<Labeling>,
    derived: Seq<Inherited>,
    name: Seq<char>,
)
    requires
        query_eval::label_named(labels, name) is Some,
    ensures
        cell_value(labels, derived, name) == cell_value(labels, seq![], name),
        !is_inherited(labels, derived, name),
{
}

/// A cell speaks of inheritance if and only if its value is inherited.
pub proof fn hint_tells_inherited(
    schemas: Seq<LabelSchema>,
    members: Seq<Member>,
    labels: Seq<Labeling>,
    derived: Seq<Inherited>,
    name: Seq<char>,
)
    ensures
        match cell_of(schemas, members, labels, derived, name) {
            CellV::Nothing => cell_value(labels, derived, name) is None,
            CellV::Chip { hint, .. } => hint is Some <==> is_inherited(labels, derived, name),
            CellV::Plain { hint, .. } => hint is Some <==> is_inherited(labels, derived, name),
        },
{
}

} // verus!
