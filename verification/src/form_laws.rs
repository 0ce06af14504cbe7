//! What the forms for default values, title colours and rules make of what was
//! typed, stated on the texts of the fields and on the values that are sent.

use vstd::prelude::*;

use crate::automation_tab;
use crate::automation_tab::{AutomationRule, DraftWriteV, RuleWrite};
use crate::components;
use crate::decimal;
use crate::default_value;
use crate::default_value::DefaultControl;
use crate::draft_laws;
use crate::golayout;
use crate::graphql_client::LabelSchema;
use crate::json;
use crate::json::JsonV;
use crate::layout_laws;
use crate::number;
use crate::text;
use crate::timeline_laws;
use crate::title_rules;
use crate::title_rules::TitleRuleV;

verus! {

// ---------------------------------------------------------------------------
// Default values
// ---------------------------------------------------------------------------

/// The default value that a field takes.
pub open spec fn takes(
    vt: Seq<char>,
    multi: bool,
    format: Seq<char>,
    s: Seq<char>,
) -> Option<JsonV> {
    default_value::changed(vt, multi, format, s, components::number_read(vt, s))
}

/// A default of a label of numbers is none for a blank field, the number that
/// was typed, as a number, and stays as it was where none was typed.
pub proof fn default_numbers_are_taken(
    vt: Seq<char>,
    multi: bool,
    format: Seq<char>,
    s: Seq<char>,
    n: int,
)
    requires
        draft_laws::numeric(vt),
    ensures
        text::all_white(s) ==> takes(vt, multi, format, s) == Some(JsonV::Null),
        vt == "integer"@ && i64::MIN <= n <= i64::MAX && s == decimal::numeral(n) ==> (takes(
            vt,
            multi,
            format,
            s,
        ) matches Some(JsonV::Number(x)) && number::is_whole(x, n)),
        vt == "integer"@ && draft_laws::is_stray(s, n) && !text::all_white(s) ==> takes(
            vt,
            multi,
            format,
            s,
        ) is None,
        vt != "integer"@ && !text::all_white(s) ==> takes(vt, multi, format, s) == (
        match components::float_read(s) {
            Some(x) => Some(JsonV::Number(x)),
            None => None,
        }),
        !(takes(vt, multi, format, s) matches Some(JsonV::Text(_))),
{
    draft_laws::types_apart();
    text::blank_is_white(s);
    if i64::MIN <= n <= i64::MAX && s == decimal::numeral(n) {
        decimal::numeral_reads_back(n);
        crate::settings_laws::numerals_are_bare(n);
        assert(!text::is_white(s[0]));
    }
    if draft_laws::is_stray(s, n) && decimal::int_of(s) is Some {
        if s[0] == '-' || s[0] == '+' {
            assert(s.skip(1)[n - 1] == s[n]);
            assert(text::is_digit(s.skip(1)[n - 1]));
        } else {
            assert(text::is_digit(s[n]));
        }
    }
}

/// A default of yes or no is the one chosen, and none where neither is.
pub proof fn default_answers_are_taken(multi: bool, format: Seq<char>, s: Seq<char>)
    ensures
        takes("boolean"@, multi, format, "true"@) == Some(JsonV::Bool(true)),
        takes("boolean"@, multi, format, "false"@) == Some(JsonV::Bool(false)),
        s != "true"@ && s != "false"@ ==> takes("boolean"@, multi, format, s) == Some(JsonV::Null),
        takes("null"@, multi, format, s) is None,
{
    draft_laws::types_apart();
    reveal_strlit("true");
    reveal_strlit("false");
    assert("true"@.len() == 4 && "false"@.len() == 5);
}

/// A default of several choices is the list of those between commas, none where
/// all are blank; of one choice or of text what was typed, none where that is
/// empty; of an account the account.
pub proof fn default_texts_are_taken(vt: Seq<char>, multi: bool, format: Seq<char>, s: Seq<char>)
    ensures
        vt == "enum"@ && multi && components::nonblank(text::split_at_char(s, ',')).len() == 0
            ==> takes(vt, multi, format, s) == Some(JsonV::Null),
        vt == "enum"@ && multi && components::nonblank(text::split_at_char(s, ',')).len() > 0 ==> (
        takes(vt, multi, format, s) matches Some(v) && draft_laws::lists(
            v,
            components::nonblank(text::split_at_char(s, ',')),
        )),
        vt == "enum"@ && !multi || vt == "string"@ || vt == "email"@ ==> takes(vt, multi, format, s)
            == Some(
            if s.len() == 0 {
                JsonV::Null
            } else {
                JsonV::Text(s)
            },
        ),
        vt == "account"@ ==> takes(vt, multi, format, s) == Some(JsonV::Text(s)),
{
    draft_laws::types_apart();
}

/// A default time is what was typed, where it can be read by the layout that the
/// format stands for, and stays as it was where it cannot; a blank field is
/// none.
pub proof fn default_times_are_taken(
    vt: Seq<char>,
    multi: bool,
    format: Seq<char>,
    layout: Seq<char>,
    s: Seq<char>,
)
    requires
        vt == "date"@ || vt == "time"@ || vt == "datetime"@,
        format.len() > 0,
        !text::is_white(format[0]) && !text::is_white(format.last()),
        layout_laws::holds_digit(format) && layout == format || !layout_laws::holds_digit(format)
            && golayout::go_of(format) == Some(layout),
    ensures
        text::all_white(s) ==> takes(vt, multi, format, s) == Some(JsonV::Null),
        !text::all_white(s) && golayout::parsed(layout, s) is Some ==> takes(vt, multi, format, s)
            == Some(JsonV::Text(s)),
        !text::all_white(s) && golayout::parsed(layout, s) is None ==> takes(vt, multi, format, s)
            is None,
{
    draft_laws::types_apart();
    text::blank_is_white(s);
    let e = Seq::<char>::empty();
    layout_laws::formats_are_resolved(
        e,
        format,
        e,
        golayout::default_go_of(vt),
        golayout::default_pattern_of(vt),
    );
    assert(e + format + e =~= format);
}

/// A default is shown as yes or no, as the number, or as the text that it is.
pub proof fn defaults_are_shown(vt: Seq<char>, multi: bool, s: Seq<char>, b: bool, n: u64)
    ensures
        vt == "boolean"@ ==> default_value::shown(vt, multi, JsonV::Bool(b)) == (if b {
            "true"@
        } else {
            "false"@
        }),
        draft_laws::numeric(vt) ==> default_value::shown(
            vt,
            multi,
            JsonV::Number(number::NumV::PosInt(n)),
        ) == decimal::numeral(n as int),
        vt == "string"@ || vt == "email"@ || vt == "enum"@ || vt == "account"@ || vt == "date"@ || vt
            == "time"@ || vt == "datetime"@ ==> default_value::shown(vt, multi, JsonV::Text(s))
            == s,
        draft_laws::numeric(vt) || vt == "boolean"@ ==> default_value::shown(
            vt,
            multi,
            JsonV::Null,
        ).len() == 0,
        vt == "string"@ ==> default_value::control_of(vt, multi) == DefaultControl::Line,
        vt == "account"@ ==> default_value::control_of(vt, multi) == DefaultControl::Account,
        vt == "date"@ || vt == "time"@ || vt == "datetime"@ ==> default_value::control_of(vt, multi)
            == DefaultControl::Time,
{
    draft_laws::types_apart();
    reveal_strlit("");
}

// ---------------------------------------------------------------------------
// Colours of titles
// ---------------------------------------------------------------------------

/// A rule whose expression was edited is read anew: the saving stops at it.
/// Else it is kept with its condition and its colour; one whose expression was
/// emptied, or which has no condition yet, is left out.
pub proof fn rules_are_saved_in_turn(rows: Seq<TitleRuleV>, at: int, out: Seq<JsonV>)
    requires
        0 <= at < rows.len(),
    ensures
        ({
            let row = rows[at];
            let blank = text::all_white(row.expr);
            &&& !blank && row.expr != row.cached_expr ==> title_rules::settled(rows, at, out) == (
                at,
                out,
            )
            &&& blank && row.cached_expr.len() > 0 ==> title_rules::settled(rows, at, out)
                == title_rules::settled(rows, at + 1, out)
            &&& (blank && row.cached_expr.len() == 0 || row.expr == row.cached_expr && !blank)
                && row.cached_ast is Null ==> title_rules::settled(rows, at, out)
                == title_rules::settled(rows, at + 1, out)
            &&& (blank && row.cached_expr.len() == 0 || row.expr == row.cached_expr && !blank) && !(
            row.cached_ast is Null) ==> title_rules::settled(rows, at, out) == title_rules::settled(
                rows,
                at + 1,
                out.push(
                    JsonV::Object(
                        seq![("query"@, row.cached_ast), ("color"@, JsonV::Text(row.color))],
                    ),
                ),
            )
        }),
        title_rules::settled(rows, rows.len() as int, out) == (rows.len() as int, out),
{
    text::blank_is_white(rows[at].expr);
}

/// A rule that was there opens with its colour and its condition, and an
/// expression that arrives fills an empty field alone.
pub proof fn rules_are_opened(
    i: int,
    rule: JsonV,
    color: Seq<char>,
    query: JsonV,
    row: TitleRuleV,
    expr: Seq<char>,
)
    requires
        0 <= i <= u32::MAX,
    ensures
        title_rules::row_of(i, rule).id == i,
        title_rules::row_of(i, rule).expr.len() == 0,
        title_rules::row_of(i, rule).cached_expr.len() == 0,
        json::member(rule, "color"@) == Some(JsonV::Text(color)) ==> title_rules::row_of(
            i,
            rule,
        ).color == color,
        json::member(rule, "query"@) == Some(query) ==> title_rules::row_of(i, rule).cached_ast
            == query,
        json::member(rule, "query"@) is None ==> title_rules::row_of(i, rule).cached_ast is Null,
        row.expr.len() == 0 ==> title_rules::filled_in(row, expr).expr == expr
            && title_rules::filled_in(row, expr).cached_expr == expr,
        row.expr.len() > 0 ==> title_rules::filled_in(row, expr) == row,
        title_rules::filled_in(row, expr).color == row.color,
        title_rules::filled_in(row, expr).cached_ast == row.cached_ast,
{
    reveal_strlit("");
}

// ---------------------------------------------------------------------------
// Rules
// ---------------------------------------------------------------------------

/// A fixed value for a label of numbers, amounts or truth values is sent as what
/// it reads as, and as text where it reads as nothing; for any other label it is
/// sent as text. A value that comes from elsewhere is sent as null.
pub proof fn fixed_values_are_sent(
    d: DraftWriteV,
    vt: Seq<char>,
    parsed: Option<JsonV>,
    schemas: Seq<LabelSchema>,
    i: int,
)
    ensures
        ({
            let j = automation_tab::input_of(d, Some(vt), parsed);
            let told = draft_laws::numeric(vt) || vt == "boolean"@;
            &&& json::member(j, "labelName"@) == Some(JsonV::Text(d.label_name))
            &&& json::member(j, "op"@) == Some(JsonV::Text(d.op))
            &&& json::member(j, "valueKind"@) == Some(JsonV::Text(d.value_kind))
            &&& d.value_kind == "literal"@ && told && parsed is Some ==> json::member(j, "value"@)
                == parsed
            &&& d.value_kind == "literal"@ && (!told || parsed is None) ==> json::member(
                j,
                "value"@,
            ) == Some(JsonV::Text(d.value))
            &&& d.value_kind != "literal"@ ==> json::member(j, "value"@) == Some(JsonV::Null)
        }),
        timeline_laws::defines(schemas, i, d.label_name) ==> automation_tab::declared_type(
            schemas,
            d.label_name,
        ) == Some(schemas[i].value_type@),
        timeline_laws::undefined(schemas, d.label_name) ==> automation_tab::declared_type(
            schemas,
            d.label_name,
        ) is None,
{
    draft_laws::types_apart();
    reveal_strlit("labelName");
    reveal_strlit("op");
    reveal_strlit("valueKind");
    reveal_strlit("value");
    assert("labelName"@.len() == 9 && "labelName"@[0] == 'l' && "op"@.len() == 2
        && "valueKind"@.len() == 9 && "valueKind"@[0] == 'v' && "value"@.len() == 5);
    let o = automation_tab::input_of(d, Some(vt), parsed)->Object_0;
    json::key_index_is(o, "labelName"@, 0);
    json::key_index_is(o, "op"@, 1);
    json::key_index_is(o, "valueKind"@, 2);
    json::key_index_is(o, "value"@, 3);
    if timeline_laws::defines(schemas, i, d.label_name) {
        timeline_laws::schema_is(schemas, i, d.label_name);
    }
    if timeline_laws::undefined(schemas, d.label_name) {
        timeline_laws::schema_is(schemas, schemas.len() as int, d.label_name);
    }
}

/// A rule opens with all that it has; its labels with their names, operations
/// and sources, a missing source as a fixed value, and their values as text.
pub proof fn stored_rules_are_opened(
    rule: AutomationRule,
    schemas: Seq<LabelSchema>,
    w: RuleWrite,
    k: int,
)
    ensures
        ({
            let f = automation_tab::form_of(rule, schemas);
            &&& f.editing_id == Some(rule.id@)
            &&& f.name == rule.name@
            &&& f.enabled == rule.enabled
            &&& f.trigger == rule.trigger_expr@
            &&& f.event_source == rule.target_event_source
            &&& f.target == rule.target_expr@
            &&& rule.writes@.len() > 0 ==> f.writes.len() == rule.writes@.len()
            &&& 0 <= k < rule.writes@.len() ==> f.writes[k].label_name
                == rule.writes@[k].label_name@
            &&& rule.writes@.len() == 0 && schemas.len() > 0 ==> f.writes.len() == 1
                && f.writes[0].label_name == schemas[0].name@ && f.writes[0].op == "set"@
                && f.writes[0].value_kind == "literal"@
        }),
        ({
            let d = automation_tab::draft_of(w);
            &&& d.label_name == w.label_name@
            &&& d.op == w.op@
            &&& w.value_kind@.len() > 0 ==> d.value_kind == w.value_kind@
            &&& w.value_kind@.len() == 0 ==> d.value_kind == "literal"@
            &&& w.value@ is Null ==> d.value.len() == 0
            &&& w.value@ matches JsonV::Text(s) ==> d.value == s
        }),
{
    reveal_strlit("");
}

/// A new rule starts from a change of the first label to nothing yet.
pub proof fn new_rules_start_from_the_first_label(s: LabelSchema, more: Seq<LabelSchema>)
    ensures
        automation_tab::first_trigger(seq![s] + more) == "$label = \""@ + s.name@
            + "\" AND $new = \"\""@,
        automation_tab::first_drafts(seq![s] + more).len() == 1,
        automation_tab::first_drafts(seq![s] + more)[0].label_name == s.name@,
        automation_tab::first_drafts(seq![]).len() == 0,
{
    assert((seq![s] + more)[0] == s);
}

/// The labels of a rule are sent in their order, each by the type of the first
/// definition of its name and by what its text reads as.
pub proof fn rule_labels_are_sent_in_order(
    ds: Seq<DraftWriteV>,
    d: DraftWriteV,
    schemas: Seq<LabelSchema>,
    i: int,
)
    ensures
        automation_tab::inputs_of(seq![], schemas) == Seq::<JsonV>::empty(),
        timeline_laws::defines(schemas, i, d.label_name) ==> automation_tab::inputs_of(
            ds.push(d),
            schemas,
        ) == automation_tab::inputs_of(ds, schemas).push(
            automation_tab::input_of(
                d,
                Some(schemas[i].value_type@),
                json::read_content(d.value),
            ),
        ),
{
    let none = Seq::<DraftWriteV>::empty();
    assert(automation_tab::inputs_of(none, schemas) =~= seq![]);
    if timeline_laws::defines(schemas, i, d.label_name) {
        timeline_laws::schema_is(schemas, i, d.label_name);
        let all = ds.push(d);
        let a = automation_tab::inputs_of(all, schemas);
        let b = automation_tab::inputs_of(ds, schemas);
        assert forall|k: int| 0 <= k < b.len() implies a[k] == b[k] by {
            assert(all[k] == ds[k]);
        }
        assert(a =~= b.push(
            automation_tab::input_of(
                d,
                Some(schemas[i].value_type@),
                json::read_content(d.value),
            ),
        ));
    }
}

/// The labels of a rule are listed by their names, each with its operation in
/// brackets.
pub proof fn rule_labels_are_listed(ws: Seq<RuleWrite>, w: RuleWrite)
    ensures
        automation_tab::write_texts(ws.push(w)) == automation_tab::write_texts(ws).push(
            w.label_name@ + seq!['('] + w.op@ + seq![')'],
        ),
{
    reveal_strlit("(");
    reveal_strlit(")");
    assert("("@ =~= seq!['(']);
    assert(")"@ =~= seq![')']);
    let all = ws.push(w);
    let a = automation_tab::write_texts(all);
    let b = automation_tab::write_texts(ws);
    assert forall|k: int| 0 <= k < b.len() implies a[k] == b[k] by {
        assert(all[k] == ws[k]);
    }
    assert(a =~= b.push(w.label_name@ + seq!['('] + w.op@ + seq![')']));
}

} // verus!
