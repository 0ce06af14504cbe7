//! What the cells of the table and the rows of the label editor show and do,
//! stated on the labels, their definitions and what was typed.

use vstd::prelude::*;

use crate::components;
use crate::decimal;
use crate::draft_laws;
use crate::entry_table;
use crate::entry_table::{CellV, Inherited};
use crate::expr_input;
use crate::graphql_client::{Entry, LabelSchema, Labeling, Member};
use crate::json::JsonV;
use crate::label_editor;
use crate::label_editor::{Adding, Control, RowChangeV};
use crate::number;
use crate::query_eval;
use crate::query_laws;
use crate::text;
use crate::timeline_laws;

verus! {

// ---------------------------------------------------------------------------
// Cells
// ---------------------------------------------------------------------------

/// Whether an inherited label is the first of its name.
pub open spec fn first_inherited(ds: Seq<Inherited>, i: int, name: Seq<char>) -> bool {
    &&& 0 <= i < ds.len()
    &&& ds[i].name@ == name
    &&& forall|j: int| 0 <= j < i ==> (#[trigger] ds[j]).name@ != name
}

proof fn inherited_is(ds: Seq<Inherited>, i: int, name: Seq<char>)
    requires
        0 <= i <= ds.len(),
        i < ds.len() ==> ds[i].name@ == name,
        forall|j: int| 0 <= j < i ==> (#[trigger] ds[j]).name@ != name,
    ensures
        entry_table::inherited_at(ds, name) == i,
    decreases i,
{
    if i > 0 {
        let t = ds.skip(1);
        assert(ds[0].name@ != name);
        if i < ds.len() {
            assert(t[i - 1] == ds[i]);
        }
        assert forall|j: int| 0 <= j < i - 1 implies (#[trigger] t[j]).name@ != name by {
            assert(t[j] == ds[j + 1]);
        }
        inherited_is(t, i - 1, name);
    }
}

/// What a cell says.
pub open spec fn says(c: CellV, s: Seq<char>, hint: Option<Seq<char>>) -> bool {
    match c {
        CellV::Nothing => false,
        CellV::Chip { class, style, text, hint: h } => text == s && h == hint,
        CellV::Plain { text, hint: h } => text == s && h == hint,
    }
}

/// A cell shows the entry's own label, the first of the name; where it has none,
/// the first inherited one, with a hint of where it comes from; and nothing
/// where there is none.
pub proof fn cells_show_labels(
    schemas: Seq<LabelSchema>,
    members: Seq<Member>,
    labels: Seq<Labeling>,
    derived: Seq<Inherited>,
    name: Seq<char>,
    i: int,
)
    ensures
        query_laws::first_named(labels, i, name) ==> says(
            entry_table::cell_of(schemas, members, labels, derived, name),
            entry_table::shown_value(schemas, members, name, labels[i].value@),
            None,
        ),
        query_laws::none_named(labels, name) && first_inherited(derived, i, name) ==> says(
            entry_table::cell_of(schemas, members, labels, derived, name),
            entry_table::shown_value(schemas, members, name, derived[i].value@),
            Some("由「"@ + derived[i].source@ + "」继承而来，未直接打在本条上"@),
        ),
        query_laws::none_named(labels, name) && (forall|j: int|
            0 <= j < derived.len() ==> (#[trigger] derived[j]).name@ != name)
            ==> entry_table::cell_of(schemas, members, labels, derived, name) is Nothing,
{
    if query_laws::first_named(labels, i, name) {
        query_laws::label_found(labels, i, name);
    }
    if query_laws::none_named(labels, name) {
        query_laws::label_missing(labels, name);
        if first_inherited(derived, i, name) {
            inherited_is(derived, i, name);
        }
        if forall|j: int| 0 <= j < derived.len() ==> (#[trigger] derived[j]).name@ != name {
            inherited_is(derived, derived.len() as int, name);
        }
    }
}

/// The text of a cell: a label without values is shown by its title, or by its
/// name where that is blank; an account by the name of the member with it;
/// another value as it is, in its friendly form. So is the value of a label that
/// is not defined.
pub proof fn cells_show_values(
    schemas: Seq<LabelSchema>,
    members: Seq<Member>,
    name: Seq<char>,
    v: JsonV,
    i: int,
    s: Seq<char>,
    list: Seq<JsonV>,
)
    ensures
        timeline_laws::defines(schemas, i, name) && schemas[i].value_type@ == "null"@
            ==> entry_table::shown_value(schemas, members, name, v) == (if text::all_white(
            schemas[i].title@,
        ) {
            name
        } else {
            schemas[i].title@
        }),
        timeline_laws::defines(schemas, i, name) && schemas[i].value_type@ == "account"@
            ==> entry_table::shown_value(schemas, members, name, JsonV::Text(s))
            == components::name_of_account(members, s),
        timeline_laws::defines(schemas, i, name) && schemas[i].value_type@ != "account"@
            && schemas[i].value_type@ != "null"@ || timeline_laws::undefined(schemas, name) ==> {
            &&& entry_table::shown_value(schemas, members, name, JsonV::Text(s))
                == components::enum_value_text(s)
            &&& !(v is Array) ==> entry_table::shown_value(schemas, members, name, v)
                == components::enum_value_text(components::value_text(v))
        },
        entry_table::account_texts(members, list.push(JsonV::Text(s))) == entry_table::account_texts(
            members,
            list,
        ).push(components::name_of_account(members, s)),
        entry_table::friendly_texts(list.push(JsonV::Text(s))) == entry_table::friendly_texts(
            list,
        ).push(components::enum_value_text(s)),
{
    draft_laws::types_apart();
    if timeline_laws::defines(schemas, i, name) {
        timeline_laws::schema_is(schemas, i, name);
        text::blank_is_white(schemas[i].title@);
    }
    if timeline_laws::undefined(schemas, name) {
        timeline_laws::schema_is(schemas, schemas.len() as int, name);
    }
    let more = list.push(JsonV::Text(s));
    assert(more.drop_last() =~= list);
    assert(more.last() == JsonV::Text(s));
}

/// Several values are shown with a comma and a blank between them: accounts by
/// their names, others in their friendly forms.
pub proof fn cells_show_several_values(
    schemas: Seq<LabelSchema>,
    members: Seq<Member>,
    name: Seq<char>,
    i: int,
    a: Seq<JsonV>,
)
    ensures
        timeline_laws::defines(schemas, i, name) && schemas[i].value_type@ == "account"@
            ==> entry_table::shown_value(schemas, members, name, JsonV::Array(a)) == text::joined(
            entry_table::account_texts(members, a),
            seq![',', ' '],
        ),
        timeline_laws::defines(schemas, i, name) && schemas[i].value_type@ == "enum"@
            ==> entry_table::shown_value(schemas, members, name, JsonV::Array(a))
            == components::enum_value_text(
            text::joined(entry_table::friendly_texts(a), seq![',', ' ']),
        ),
{
    draft_laws::types_apart();
    reveal_strlit(", ");
    assert(", "@ =~= seq![',', ' ']);
    if timeline_laws::defines(schemas, i, name) {
        timeline_laws::schema_is(schemas, i, name);
    }
}

/// A cell has the colour of its value, or of its label where no rule colours the
/// value: it is then a chip in that colour. Without one, a choice is a chip of
/// its class, a label without values a bare chip, and any other plain text.
pub proof fn cells_have_colours(
    schemas: Seq<LabelSchema>,
    members: Seq<Member>,
    labels: Seq<Labeling>,
    derived: Seq<Inherited>,
    name: Seq<char>,
    i: int,
    k: int,
)
    requires
        query_laws::first_named(labels, i, name),
        timeline_laws::defines(schemas, k, name),
    ensures
        ({
            let cell = entry_table::cell_of(schemas, members, labels, derived, name);
            let v = labels[i].value@;
            let s = schemas[k];
            let color = query_eval::label_color(
                match s.color {
                    Some(c) => Some(JsonV::Text(c@)),
                    None => None,
                },
                s.value_colors@,
                v,
            );
            let vt = s.value_type@;
            &&& color matches Some(c) ==> (cell matches CellV::Chip { class, style, text, hint }
                && class == "chip"@ && style == Some(
                "border-color:"@ + c + ";background:color-mix(in srgb, "@ + c
                    + " 15%, transparent);color:"@ + c,
            ))
            &&& color is None && vt == "enum"@ && v is Text ==> (cell matches CellV::Chip {
                class,
                style,
                text,
                hint,
            } && style is None && class == seq!['c', 'h', 'i', 'p', ' '] + components::chip_class_of(
                name,
                v->Text_0,
            ))
            &&& color is None && vt == "null"@ ==> (cell matches CellV::Chip {
                class,
                style,
                text,
                hint,
            } && style is None && class == "chip"@)
            &&& color is None && vt != "enum"@ && vt != "null"@ ==> cell is Plain
        }),
{
    draft_laws::types_apart();
    query_laws::label_found(labels, i, name);
    timeline_laws::schema_is(schemas, k, name);
    reveal_strlit("chip ");
    assert("chip "@ =~= seq!['c', 'h', 'i', 'p', ' ']);
    let v = labels[i].value@;
    if v is Text {
        let c = components::chip_class_of(name, v->Text_0);
        reveal_strlit("c-doing");
        reveal_strlit("c-done");
        reveal_strlit("c-wont");
        reveal_strlit("c-open");
        reveal_strlit("c-p0");
        reveal_strlit("c-p2");
        reveal_strlit("c-p3");
        assert("c-doing"@.len() == 7 && "c-done"@.len() == 6 && "c-wont"@.len() == 6
            && "c-open"@.len() == 6 && "c-p0"@.len() == 4 && "c-p2"@.len() == 4 && "c-p3"@.len()
            == 4);
        assert(c.len() > 0);
    }
}

/// Who created an entry is shown as the server names them, else by the first
/// member with the account, else by a dash.
pub proof fn creators_are_named(e: Entry, members: Seq<Member>, i: int)
    requires
        0 <= i <= members.len(),
        i < members.len() ==> members[i].account_id@ == e.created_by@,
        forall|j: int| 0 <= j < i ==> (#[trigger] members[j]).account_id@ != e.created_by@,
    ensures
        e.created_by_account matches Some(a) ==> entry_table::creator_of(e, members) == a.name@,
        e.created_by_account is None && i < members.len() ==> entry_table::creator_of(e, members)
            == (if text::all_white(members[i].name@) {
            members[i].email@
        } else {
            members[i].name@
        }),
        e.created_by_account is None && i == members.len() ==> entry_table::creator_of(e, members)
            == entry_table::DASH@,
{
    member_is(members, e.created_by@, i);
    if i < members.len() {
        text::blank_is_white(members[i].name@);
    }
}

proof fn member_is(members: Seq<Member>, id: Seq<char>, i: int)
    requires
        0 <= i <= members.len(),
        i < members.len() ==> members[i].account_id@ == id,
        forall|j: int| 0 <= j < i ==> (#[trigger] members[j]).account_id@ != id,
    ensures
        entry_table::member_at(members, id) == i,
    decreases i,
{
    if i > 0 {
        let t = members.skip(1);
        assert(members[0].account_id@ != id);
        if i < members.len() {
            assert(t[i - 1] == members[i]);
        }
        assert forall|j: int| 0 <= j < i - 1 implies (#[trigger] t[j]).account_id@ != id by {
            assert(t[j] == members[j + 1]);
        }
        member_is(t, id, i - 1);
    }
}

/// The head of a column is the title of its label, or its name where that is not
/// defined.
pub proof fn columns_have_titles(schemas: Seq<LabelSchema>, name: Seq<char>, i: int)
    ensures
        timeline_laws::defines(schemas, i, name) ==> entry_table::head_text(schemas, name)
            == schemas[i].title@,
        timeline_laws::undefined(schemas, name) ==> entry_table::head_text(schemas, name) == name,
{
    if timeline_laws::defines(schemas, i, name) {
        timeline_laws::schema_is(schemas, i, name);
    }
    if timeline_laws::undefined(schemas, name) {
        timeline_laws::schema_is(schemas, schemas.len() as int, name);
    }
}

// ---------------------------------------------------------------------------
// Rows of the label editor
// ---------------------------------------------------------------------------

/// What typing in the field of a label does: nothing typed removes the label; a
/// label of numbers is written with the number that was typed, as a number, and
/// kept where none was; any other with the text.
pub proof fn typing_changes_labels(vt: Seq<char>, s: Seq<char>, n: int)
    ensures
        ({
            let c = label_editor::change_of(vt, s, components::number_read(vt, s));
            &&& s.len() == 0 ==> c == RowChangeV::Remove
            &&& vt == "integer"@ && i64::MIN <= n <= i64::MAX && s == decimal::numeral(n) ==> (
            c matches RowChangeV::Write(JsonV::Number(x)) && number::is_whole(x, n))
            &&& vt == "integer"@ && draft_laws::is_stray(s, n) ==> c == RowChangeV::Keep
            &&& vt == "float"@ && s.len() > 0 ==> c == (match components::float_read(s) {
                Some(x) => RowChangeV::Write(JsonV::Number(x)),
                None => RowChangeV::Keep,
            })
            &&& vt != "integer"@ && vt != "float"@ && s.len() > 0 ==> c == RowChangeV::Write(
                JsonV::Text(s),
            )
            &&& (vt == "integer"@ || vt == "float"@) ==> !(c matches RowChangeV::Write(
                JsonV::Text(_),
            ))
        }),
{
    draft_laws::types_apart();
    if i64::MIN <= n <= i64::MAX && s == decimal::numeral(n) {
        decimal::numeral_reads_back(n);
        let p: nat = if n < 0 {
            (-n) as nat
        } else {
            n as nat
        };
        decimal::value_of_decimal(p);
        assert(s.len() > 0);
    }
    if draft_laws::is_stray(s, n) && decimal::int_of(s) is Some {
        if s[0] == '-' || s[0] == '+' {
            assert(s.skip(1)[n - 1] == s[n]);
            assert(text::is_digit(s.skip(1)[n - 1]));
        } else {
            assert(text::is_digit(s[n]));
        }
    }
}

/// A row is called by the title of its label, without the white space around
/// it, and by the name where that is blank or the label is not defined.
pub proof fn rows_are_called_by_titles(
    s: LabelSchema,
    name: Seq<char>,
    a: Seq<char>,
    m: Seq<char>,
    b: Seq<char>,
)
    requires
        text::all_white(a),
        text::all_white(b),
        m.len() > 0 ==> !text::is_white(m[0]) && !text::is_white(m.last()),
        s.title@ == a + m + b,
    ensures
        label_editor::row_name(Some(s), name) == (if m.len() == 0 {
            name
        } else {
            m
        }),
        label_editor::row_name(None, name) == name,
        expr_input::schema_title(s) == (if m.len() == 0 {
            s.name@
        } else {
            s.title@
        }),
{
    text::trimmed_is_the_middle(a, m, b);
}

/// The labels that may be added are those that the entry does not have and that
/// is not being added, in their order.
pub proof fn other_labels_may_be_added(
    schemas: Seq<LabelSchema>,
    s: LabelSchema,
    labels: Seq<Labeling>,
    pending: Option<Seq<char>>,
)
    ensures
        label_editor::free_labels(seq![], labels, pending) == Seq::<int>::empty(),
        label_editor::free_labels(schemas.push(s), labels, pending) == (if query_laws::none_named(
            labels,
            s.name@,
        ) && pending != Some(s.name@) {
            label_editor::free_labels(schemas, labels, pending).push(schemas.len() as int)
        } else {
            label_editor::free_labels(schemas, labels, pending)
        }),
{
    assert(label_editor::free_labels(seq![], labels, pending) =~= seq![]);
    assert(schemas.push(s).drop_last() =~= schemas);
    assert(schemas.push(s).last() == s);
    if label_editor::has_name(labels, s.name@) {
        let i = choose|i: int| 0 <= i < labels.len() && (#[trigger] labels[i]).label_name@ == s.name@;
        assert(labels[i].label_name@ == s.name@);
    }
}

/// A label without values is written as soon as it is chosen, and one with
/// values once there is one. The controls of the types.
pub proof fn choosing_adds_labels(schemas: Seq<LabelSchema>, name: Seq<char>, i: int)
    ensures
        label_editor::adding_of(schemas, seq![]) == Adding::Nothing,
        name.len() > 0 && timeline_laws::defines(schemas, i, name) ==> label_editor::adding_of(
            schemas,
            name,
        ) == (if schemas[i].value_type@ == "null"@ {
            Adding::Write
        } else {
            Adding::Ask
        }),
        0 <= i < schemas.len() ==> {
            let vt = schemas[i].value_type@;
            let c = label_editor::control_of(Some(schemas[i]));
            &&& vt == "null"@ ==> c == Control::Bare
            &&& vt == "enum"@ ==> c == Control::Choice
            &&& vt == "boolean"@ ==> c == Control::Check
            &&& vt == "string"@ ==> c == Control::TextField
            &&& draft_laws::numeric(vt) ==> c == Control::NumberField
        },
        label_editor::control_of(None) == Control::Shown,
{
    draft_laws::types_apart();
    if timeline_laws::defines(schemas, i, name) {
        timeline_laws::schema_is(schemas, i, name);
    }
}

/// A row of the editor has the colour that its value has by the rules of its
/// label, on the colour of the label; none where the label is not defined.
pub proof fn rows_have_colours(s: LabelSchema, c: Seq<char>, v: JsonV)
    ensures
        text::opt_view(s.color) == Some(c) ==> label_editor::color_of_row(Some(s), v)
            == query_eval::label_color(Some(JsonV::Text(c)), s.value_colors@, v),
        s.color is None ==> label_editor::color_of_row(Some(s), v) == query_eval::label_color(
            None,
            s.value_colors@,
            v,
        ),
        label_editor::color_of_row(None, v) is None,
{
}

} // verus!
