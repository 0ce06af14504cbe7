//! The fields in which the default value and the format of a label are given.

use vstd::prelude::*;

use crate::components;
use crate::components::CUSTOM_FORMAT;
use crate::draft;
use crate::golayout;
use crate::json;
use crate::json::{Json, JsonV};
use crate::number::{NumV, Number};
use crate::query_eval;
use crate::text;

verus! {

/// The control in which a default value is given.
#[derive(Debug, Clone, Copy, PartialEq, Eq, Structural)]
pub enum DefaultControl {
    /// A label without values has no default.
    Nothing,
    YesNo,
    /// Several choices, written with commas.
    List,
    Choice,
    Numeral,
    Time,
    Account,
    Line,
}

/// The control for a type.
pub open spec fn control_of(vt: Seq<char>, multi: bool) -> DefaultControl {
    if vt == "null"@ {
        DefaultControl::Nothing
    } else if vt == "boolean"@ {
        DefaultControl::YesNo
    } else if vt == "enum"@ && multi {
        DefaultControl::List
    } else if vt == "enum"@ {
        DefaultControl::Choice
    } else if vt == "integer"@ || vt == "float"@ || vt == "currency"@ {
        DefaultControl::Numeral
    } else if draft::is_time_type(vt) {
        DefaultControl::Time
    } else if vt == "account"@ {
        DefaultControl::Account
    } else {
        DefaultControl::Line
    }
}

/// The control for a type.
pub fn control(vt: &str, multi: bool) -> (r: DefaultControl)
    ensures
        r == control_of(vt@, multi),
{
    if text::same(vt, "null") {
        DefaultControl::Nothing
    } else if text::same(vt, "boolean") {
        DefaultControl::YesNo
    } else if text::same(vt, "enum") && multi {
        DefaultControl::List
    } else if text::same(vt, "enum") {
        DefaultControl::Choice
    } else if text::same(vt, "integer") || text::same(vt, "float") || text::same(vt, "currency") {
        DefaultControl::Numeral
    } else if draft::time_type(vt) {
        DefaultControl::Time
    } else if text::same(vt, "account") {
        DefaultControl::Account
    } else {
        DefaultControl::Line
    }
}

/// The layout in which a time is given: that of the label, else the default of
/// its type.
pub open spec fn time_layout(vt: Seq<char>, format: Seq<char>) -> Seq<char> {
    golayout::resolved(Some(format), golayout::default_go_of(vt))
}

/// What is shown in the control for a value.
pub open spec fn shown(vt: Seq<char>, multi: bool, v: JsonV) -> Seq<char> {
    match control_of(vt, multi) {
        DefaultControl::Nothing => "—"@,
        DefaultControl::YesNo => match v {
            JsonV::Bool(b) => query_eval::bool_text(b),
            _ => ""@,
        },
        DefaultControl::Numeral => match v {
            JsonV::Number(n) => n.text(),
            _ => ""@,
        },
        _ => components::value_text(v),
    }
}

/// What is shown in the control for a value.
pub fn show(vt: &str, multi: bool, v: &Json) -> (r: String)
    ensures
        r@ == shown(vt@, multi, v@),
{
    match control(vt, multi) {
        DefaultControl::Nothing => "—".to_owned(),
        DefaultControl::YesNo => components::bool_choice(v),
        DefaultControl::Numeral => components::number_text(v),
        _ => components::value_to_string(v),
    }
}

/// The hint of a field for a time: the pattern that it is given in.
pub fn time_hint(vt: &str, format: &str) -> (r: String)
    ensures
        r@ == golayout::shown_pattern(Some(format@), golayout::default_pattern_of(vt@)),
{
    golayout::display_pattern(Some(format), golayout::default_pattern(vt))
}

/// The new value after the control was used, given the number that the text
/// spells; none where the value stays as it was: the text is no number yet, or
/// does not fit the layout.
pub open spec fn changed(
    vt: Seq<char>,
    multi: bool,
    format: Seq<char>,
    s: Seq<char>,
    number: Option<NumV>,
) -> Option<JsonV> {
    match control_of(vt, multi) {
        DefaultControl::Nothing => None,
        DefaultControl::YesNo => Some(
            if s == "true"@ {
                JsonV::Bool(true)
            } else if s == "false"@ {
                JsonV::Bool(false)
            } else {
                JsonV::Null
            },
        ),
        DefaultControl::List => Some(
            components::texts_or_null(components::nonblank(text::split_at_char(s, ','))),
        ),
        DefaultControl::Numeral => if text::is_blank(s) {
            Some(JsonV::Null)
        } else {
            match number {
                Some(n) => Some(JsonV::Number(n)),
                None => None,
            }
        },
        DefaultControl::Time => if text::is_blank(s) {
            Some(JsonV::Null)
        } else if golayout::parsed(time_layout(vt, format), s) is Some {
            Some(JsonV::Text(s))
        } else {
            None
        },
        DefaultControl::Account => Some(JsonV::Text(s)),
        DefaultControl::Choice | DefaultControl::Line => Some(components::text_or_null(s)),
    }
}

/// The new value after the control was used, given the number that the text
/// spells.
pub fn change_given(vt: &str, multi: bool, format: &str, s: &str, number: Option<Number>) -> (r:
    Option<Json>)
    ensures
        draft::opt_value(r) == changed(vt@, multi, format@, s@, draft::opt_num(number)),
{
    match control(vt, multi) {
        DefaultControl::Nothing => None,
        DefaultControl::YesNo => Some(components::bool_value(s)),
        DefaultControl::List => Some(components::choices_value(s)),
        DefaultControl::Numeral => components::number_change(s, number),
        DefaultControl::Time => {
            let layout = golayout::resolve(Some(format), golayout::default_go(vt));
            components::time_value(layout.as_str(), s)
        },
        DefaultControl::Account => Some(json::of_str(s)),
        DefaultControl::Choice | DefaultControl::Line => Some(components::text_value(s)),
    }
}

/// The new value after the control was used.
pub fn change(vt: &str, multi: bool, format: &str, s: &str) -> (r: Option<Json>)
    ensures
        draft::opt_value(r) == changed(vt@, multi, format@, s@, components::number_read(vt@, s@)),
{
    let number = components::read_number(vt, s);
    change_given(vt, multi, format, s, number)
}

/// The field for the format of times: a choice among the common ones, or a field
/// for one's own.
#[derive(Debug, Clone)]
pub struct FormatField {
    /// Whether one's own format is being given.
    pub custom: bool,
    pub format: String,
}

impl FormatField {
    /// Opens the field on a format: one that is not common is one's own.
    pub fn open(value_type: &str, format: &str) -> (r: FormatField)
        ensures
            r.format@ == format@,
            r.custom == (format@.len() > 0 && !golayout::presets_of(value_type@).contains(format@)),
    {
        FormatField {
            custom: components::is_custom_format(value_type, format),
            format: format.to_owned(),
        }
    }

    /// Takes in a choice: that of one's own format keeps the format.
    pub fn take_choice(&mut self, choice: &str)
        ensures
            choice@ == CUSTOM_FORMAT@ ==> final(self).custom && final(self).format@
                == old(self).format@,
            choice@ != CUSTOM_FORMAT@ ==> final(self).custom == old(self).custom
                && final(self).format@ == choice@,
    {
        if text::same(choice, CUSTOM_FORMAT) {
            self.custom = true;
        } else {
            self.format = choice.to_owned();
        }
    }

    /// Goes back to the common formats, starting from the default.
    pub fn leave_custom(&mut self)
        ensures
            !final(self).custom,
            final(self).format@ == ""@,
    {
        self.custom = false;
        self.format = "".to_owned();
    }
}

/// Whether a color of the palette is the one that is set, whatever the case.
pub fn is_set_color(value: &str, color: &str) -> (r: bool)
    ensures
        r == text::same_letters(value@, color@),
{
    text::same(text::to_lower(value).as_str(), text::to_lower(color).as_str())
}

// ---------------------------------------------------------------------------
// Laws
// ---------------------------------------------------------------------------

/// No common format can be mistaken for the choice of one's own.
pub proof fn no_preset_is_custom(value_type: Seq<char>)
    ensures
        !golayout::presets_of(value_type).contains(CUSTOM_FORMAT@),
{
    reveal_strlit("__custom__");
    golayout::presets_start_with_letters(value_type);
    assert(CUSTOM_FORMAT@[0] == '_');
    assert forall|i: int| 0 <= i < golayout::presets_of(value_type).len() implies #[trigger] golayout::presets_of(
        value_type,
    )[i] != CUSTOM_FORMAT@ by {
        assert(golayout::presets_of(value_type)[i][0] != '_');
    }
}

/// A time that the control takes in is shown again letter for letter.
pub proof fn typed_time_is_shown(
    vt: Seq<char>,
    multi: bool,
    format: Seq<char>,
    s: Seq<char>,
)
    requires
        control_of(vt, multi) == DefaultControl::Time,
        !text::is_blank(s),
        golayout::parsed(time_layout(vt, format), s) is Some,
    ensures
        match changed(vt, multi, format, s, None) {
            Some(v) => shown(vt, multi, v) == s,
            None => false,
        },
{
}

} // verus!
