//! The settings of a workspace: who may change what, labels with their colors
//! and relations, and members.

use vstd::prelude::*;

use crate::components;
use crate::decimal;
use crate::graphql_client::{LabelSchema, Member};
use crate::json;
use crate::json::{Json, JsonV};
use crate::number;
use crate::number::{NumV, Number};
use crate::query_eval;
use crate::text;
use crate::title_rules::RULE_COLOR;

verus! {

// ---------------------------------------------------------------------------
// Who may change what
// ---------------------------------------------------------------------------

/// What is said where nobody is named to be invited.
pub const EMAIL_MISSING: &'static str = "请填写要邀请的邮箱";

/// Whether a role may change settings.
pub open spec fn manages(role: Seq<char>) -> bool {
    role == "owner"@ || role == "maintainer"@
}

/// Tests [`manages`].
pub fn can_manage(role: &str) -> (r: bool)
    ensures
        r == manages(role@),
{
    text::same(role, "owner") || text::same(role, "maintainer")
}

/// Whether a role owns the workspace.
pub fn is_owner(role: &str) -> (r: bool)
    ensures
        r == (role@ == "owner"@),
{
    text::same(role, "owner")
}

/// Whether the workspace may be handed over to an account: by an owner, to
/// somebody else.
pub fn can_transfer(role: &str, me: &str, account: &str) -> (r: bool)
    ensures
        r == (role@ == "owner"@ && account@ != me@),
{
    is_owner(role) && !text::same(account, me)
}

/// Whether a label is one that every workspace has.
pub open spec fn is_builtin_name(name: Seq<char>) -> bool {
    name == "Task"@ || name == "Bug"@
}

/// Tests [`is_builtin_name`].
pub fn is_builtin(schema: &LabelSchema) -> (r: bool)
    ensures
        r == is_builtin_name(schema.name@),
{
    text::same(schema.name.as_str(), "Task") || text::same(schema.name.as_str(), "Bug")
}

/// What may be changed of a label, and which colors it has.
#[derive(Debug, Clone, Copy, PartialEq, Eq, Structural)]
pub struct LabelRights {
    /// The title and the color.
    pub basic: bool,
    /// All else.
    pub all: bool,
    /// Whether its values are numbers that colors go by ranges of.
    pub numeric: bool,
    /// Whether its values have colors.
    pub value_colors: bool,
}

/// What may be changed of a label.
pub open spec fn rights_of(name: Seq<char>, value_type: Seq<char>, may: bool) -> LabelRights {
    let numeric = value_type == "integer"@ || value_type == "float"@;
    LabelRights {
        basic: may,
        all: may && !is_builtin_name(name),
        numeric,
        value_colors: numeric || value_type == "enum"@,
    }
}

/// What may be changed of a label.
pub fn label_rights(schema: &LabelSchema, may: bool) -> (r: LabelRights)
    ensures
        r == rights_of(schema.name@, schema.value_type@, may),
{
    let vt = schema.value_type.as_str();
    let numeric = text::same(vt, "integer") || text::same(vt, "float");
    LabelRights {
        basic: may,
        all: !is_builtin(schema) && may,
        numeric,
        value_colors: numeric || text::same(vt, "enum"),
    }
}

/// The address that is sent with a change of a workspace: none where it stays.
pub open spec fn slug_sent(typed: Seq<char>, current: Seq<char>) -> Option<Seq<char>> {
    if text::trimmed(typed) == current {
        None
    } else {
        Some(typed)
    }
}

/// The address that is sent with a change of a workspace: none where it stays,
/// so that who may not change it can change the rest.
pub fn slug_arg(typed: &str, current: &str) -> (r: Option<String>)
    ensures
        text::opt_view(r) == slug_sent(typed@, current@),
{
    if text::same(text::trim(typed).as_str(), current) {
        None
    } else {
        Some(typed.to_owned())
    }
}

/// The page to go to after a change of a workspace; none where the address
/// stayed.
pub fn moved_to(current: &str, slug: &str) -> (r: Option<String>)
    ensures
        text::opt_view(r) == (if slug@ == current@ {
            None
        } else {
            Some("/"@ + slug@ + "/settings"@)
        }),
{
    if text::same(slug, current) {
        None
    } else {
        Some(text::concat3("/", slug, "/settings"))
    }
}

/// What is said before an invitation is sent; nothing where it may be.
pub fn invite_error(email: &str) -> (r: Option<&'static str>)
    ensures
        text::opt_str(r) == (if text::is_blank(email@) {
            Some(EMAIL_MISSING@)
        } else {
            None
        }),
{
    if text::blank(email) {
        Some(EMAIL_MISSING)
    } else {
        None
    }
}

/// The address of the owner of a view: by the members, else the account itself.
pub open spec fn owner_email(members: Seq<Member>, account: Seq<char>) -> Seq<char>
    decreases members.len(),
{
    if members.len() == 0 {
        account
    } else if members[0].account_id@ == account {
        members[0].email@
    } else {
        owner_email(members.skip(1), account)
    }
}

/// The address of the owner of a view.
pub fn email_of(members: &[Member], account: &str) -> (r: String)
    ensures
        r@ == owner_email(members@, account@),
{
    let mut i: usize = 0;
    assert(members@.skip(0) =~= members@);
    while i < members.len()
        invariant
            i <= members@.len(),
            owner_email(members@, account@) == owner_email(members@.skip(i as int), account@),
        decreases members@.len() - i,
    {
        let ghost rest = members@.skip(i as int);
        assert(rest[0] == members@[i as int]);
        assert(rest.skip(1) =~= members@.skip(i + 1));
        if text::same(members[i].account_id.as_str(), account) {
            return members[i].email.clone();
        }
        i += 1;
    }
    account.to_owned()
}

/// What is said before a workspace is handed over.
pub fn transfer_text(email: &str) -> (r: String)
    ensures
        r@ == "转让后 "@ + email@ + " 成为 Owner，你降为 Maintainer。对方可以再转回给你。"@,
{
    text::concat3("转让后 ", email, " 成为 Owner，你降为 Maintainer。对方可以再转回给你。")
}

/// What is said before a workspace is deleted.
pub fn delete_text(name: &str) -> (r: String)
    ensures
        r@ == "「"@ + name@ + "」会被移入回收站，条目、标签、视图、成员全部保留，可随时恢复。"@,
{
    text::concat3(
        "「",
        name,
        "」会被移入回收站，条目、标签、视图、成员全部保留，可随时恢复。",
    )
}

/// What the button of the relations of a label says.
pub fn links_text(n: usize) -> (r: String)
    ensures
        r@ == (if n > 0 {
            "配置关系（已 "@ + decimal::numeral(n as int) + " 条）"@
        } else {
            "配置关系"@
        }),
{
    if n > 0 {
        let mut out = "配置关系（已 ".to_owned();
        decimal::push_decimal(&mut out, n as u64);
        out.push_str(" 条）");
        out
    } else {
        "配置关系".to_owned()
    }
}

// ---------------------------------------------------------------------------
// Attributes of labels
// ---------------------------------------------------------------------------

/// The choices that a field lists, separated by commas.
pub fn enum_values_of(raw: &str) -> (r: Vec<String>)
    ensures
        text::contents(r@) == components::nonblank(text::split_at_char(raw@, ',')),
{
    components::list_entries(raw, ',')
}

/// An attribute from a field: blanks around it are dropped, and a blank one is
/// none.
pub open spec fn attr_of(s: Seq<char>) -> Option<Seq<char>> {
    if text::is_blank(s) {
        None
    } else {
        Some(text::trimmed(s))
    }
}

/// The attributes of a label as they are sent, every key of them: the server
/// replaces them all.
pub open spec fn attrs_json(
    multi: bool,
    format: Option<Seq<char>>,
    symbol: Option<Seq<char>>,
    unit: Option<Seq<char>>,
    default: JsonV,
    links: JsonV,
) -> JsonV {
    JsonV::Object(
        seq![
            ("multi"@, JsonV::Bool(multi)),
            ("format"@, json::opt_text(format)),
            ("currencySymbol"@, json::opt_text(symbol)),
            ("unit"@, json::opt_text(unit)),
            ("defaultValue"@, default),
            ("links"@, links),
        ],
    )
}

/// An attribute from a field, as it is sent.
fn attr_json(s: &str, wanted: bool) -> (r: Json)
    ensures
        r@ == json::opt_text(
            if wanted {
                attr_of(s@)
            } else {
                None
            },
        ),
{
    let t = text::trim(s);
    if wanted && !t.as_str().is_empty() {
        json::of_str(t.as_str())
    } else {
        Json::Null
    }
}

/// The fields of the attributes of a label.
#[derive(Debug, Clone)]
pub struct AttrFields {
    pub multi: bool,
    pub format: String,
    pub symbol: String,
    pub unit: String,
    pub default: Json,
}

/// The attributes of a label, as they are sent.
fn make_attrs(
    f: &AttrFields,
    multi: bool,
    with_format: bool,
    with_money: bool,
    links: Json,
) -> (r: Json)
    ensures
        r@ == attrs_json(
            multi,
            if with_format {
                attr_of(f.format@)
            } else {
                None
            },
            if with_money {
                attr_of(f.symbol@)
            } else {
                None
            },
            if with_money {
                attr_of(f.unit@)
            } else {
                None
            },
            f.default@,
            links@,
        ),
{
    let ghost l = links@;
    let mut m: Vec<(String, Json)> = Vec::new();
    json::put(&mut m, "multi", Json::Bool(multi));
    json::put(&mut m, "format", attr_json(f.format.as_str(), with_format));
    json::put(&mut m, "currencySymbol", attr_json(f.symbol.as_str(), with_money));
    json::put(&mut m, "unit", attr_json(f.unit.as_str(), with_money));
    json::put(&mut m, "defaultValue", f.default.copy());
    json::put(&mut m, "links", links);
    let r = json::object(m);
    assert(r@->Object_0 =~= attrs_json(
        multi,
        if with_format {
            attr_of(f.format@)
        } else {
            None
        },
        if with_money {
            attr_of(f.symbol@)
        } else {
            None
        },
        if with_money {
            attr_of(f.unit@)
        } else {
            None
        },
        f.default@,
        l,
    )->Object_0);
    r
}

/// The attributes of a new label: only those of its type.
pub open spec fn new_attrs(value_type: Seq<char>, f: AttrFields) -> JsonV {
    let time = value_type == "date"@ || value_type == "time"@ || value_type == "datetime"@;
    let money = value_type == "currency"@;
    attrs_json(
        value_type == "enum"@ && f.multi,
        if time {
            attr_of(f.format@)
        } else {
            None
        },
        if money {
            attr_of(f.symbol@)
        } else {
            None
        },
        if money {
            attr_of(f.unit@)
        } else {
            None
        },
        f.default@,
        JsonV::Array(seq![]),
    )
}

/// The attributes of a new label: only those of its type, whatever was typed
/// while another type was chosen; it has no relations yet.
pub fn new_label_attrs(value_type: &str, f: &AttrFields) -> (r: Json)
    ensures
        r@ == new_attrs(value_type@, *f),
{
    let time = text::same(value_type, "date") || text::same(value_type, "time") || text::same(
        value_type,
        "datetime",
    );
    let money = text::same(value_type, "currency");
    let multi = text::same(value_type, "enum") && f.multi;
    let none = json::array(Vec::new());
    assert(none@->Array_0 =~= seq![]);
    make_attrs(f, multi, time, money, none)
}

/// The attributes of a label that is changed.
pub fn label_attrs_of(f: &AttrFields, links: Json) -> (r: Json)
    ensures
        r@ == attrs_json(
            f.multi,
            attr_of(f.format@),
            attr_of(f.symbol@),
            attr_of(f.unit@),
            f.default@,
            links@,
        ),
{
    make_attrs(f, f.multi, true, true, links)
}

// ---------------------------------------------------------------------------
// Numbers in fields
// ---------------------------------------------------------------------------

/// What `Display` writes for the double that a number is read as.
pub uninterp spec fn double_text(n: NumV) -> Seq<char>;

/// `ToString` on what `serde_json::Number::as_f64` gives: for an integer the
/// double nearest to it, for a double the one that its text spells. What is
/// written is a function of the number.
#[verifier::external_body]
fn write_double(n: &Number) -> (r: String)
    ensures
        r@ == double_text(n@),
{
    let d = match n {
        Number::PosInt(u) => serde_json::Number::from(*u).as_f64(),
        Number::NegInt(i) => serde_json::Number::from(*i).as_f64(),
        Number::Float(_, t) => t.parse().ok(),
    };
    d.map_or(String::new(), |d| d.to_string())
}

/// A number in a field: whole numbers without a fraction.
pub open spec fn num_text(n: NumV) -> Seq<char> {
    match number::whole_value(n) {
        Some(i) => decimal::numeral(i),
        None => double_text(n),
    }
}

/// A number in a field.
pub fn fmt_num(n: &Number) -> (r: String)
    ensures
        r@ == num_text(n@),
{
    match n.whole() {
        Some(i) => decimal::number_text(i),
        None => write_double(n),
    }
}

/// The value that a field spells, given the double that it spells: an integer,
/// else a double, else null.
pub open spec fn num_of(s: Seq<char>, double: Option<NumV>) -> JsonV {
    let t = text::trimmed(s);
    if t.len() == 0 {
        JsonV::Null
    } else {
        match decimal::int_of(t) {
            Some(i) => JsonV::Number(number::int_number(i as i64)),
            None => match double {
                Some(n) => JsonV::Number(n),
                None => JsonV::Null,
            },
        }
    }
}

/// The value that a field spells.
pub open spec fn num_read(s: Seq<char>) -> JsonV {
    num_of(s, components::double_read(text::trimmed(s)))
}

/// The value that a field spells, given the double that it spells.
pub fn num_given(s: &str, double: Option<Number>) -> (r: Json)
    ensures
        r@ == num_of(
            s@,
            match double {
                Some(n) => Some(n@),
                None => None,
            },
        ),
{
    let t = text::trim(s);
    if t.as_str().is_empty() {
        return Json::Null;
    }
    match decimal::parse_int(t.as_str()) {
        Some(i) => Json::Number(number::number_of(i)),
        None => match double {
            Some(n) => Json::Number(n),
            None => Json::Null,
        },
    }
}

/// The value that a field spells.
pub fn num_value(s: &str) -> (r: Json)
    ensures
        r@ == num_read(s@),
{
    proof {
        reveal_strlit("float");
        reveal_strlit("integer");
        assert("float"@.len() != "integer"@.len());
    }
    let double = components::read_number("float", text::trim(s).as_str());
    num_given(s, double)
}

// ---------------------------------------------------------------------------
// Colors of values
// ---------------------------------------------------------------------------

/// A color of values that is being edited.
#[derive(Debug, Clone)]
pub struct VcRow {
    pub id: usize,
    pub color: String,
    pub min: String,
    pub max: String,
    pub value: String,
}

/// The content of a row.
pub struct VcRowV {
    pub id: usize,
    pub color: Seq<char>,
    pub min: Seq<char>,
    pub max: Seq<char>,
    pub value: Seq<char>,
}

impl View for VcRow {
    type V = VcRowV;

    open spec fn view(&self) -> VcRowV {
        VcRowV {
            id: self.id,
            color: self.color@,
            min: self.min@,
            max: self.max@,
            value: self.value@,
        }
    }
}

/// The contents of rows.
pub open spec fn vc_view(rows: Seq<VcRow>) -> Seq<VcRowV> {
    Seq::new(rows.len(), |i: int| rows[i]@)
}

/// The number in a member, as a field shows it; nothing where there is none.
pub open spec fn bound_text(j: JsonV, key: Seq<char>) -> Seq<char> {
    match json::member(j, key) {
        Some(JsonV::Number(n)) => num_text(n),
        _ => ""@,
    }
}

/// The row of a color.
pub open spec fn vc_row_of(i: int, rule: JsonV) -> VcRowV {
    VcRowV {
        id: i as usize,
        color: match json::opt_str_of(json::member(rule, "color"@)) {
            Some(c) => c,
            None => RULE_COLOR@,
        },
        min: bound_text(rule, "min"@),
        max: bound_text(rule, "max"@),
        value: match json::opt_str_of(json::member(rule, "value"@)) {
            Some(v) => v,
            None => ""@,
        },
    }
}

/// The rows of the colors of a label.
pub open spec fn vc_rows_of(colors: JsonV) -> Seq<VcRowV> {
    match json::items_of(colors) {
        Some(a) => Seq::new(a.len(), |i: int| vc_row_of(i, a[i])),
        None => seq![],
    }
}

/// The text in a member.
fn member_text(j: &Json, key: &str, default: &str) -> (r: String)
    ensures
        r@ == (match json::opt_str_of(json::member(j@, key@)) {
            Some(s) => s,
            None => default@,
        }),
{
    match j.get(key) {
        Some(v) => match v.as_str() {
            Some(s) => s.to_owned(),
            None => default.to_owned(),
        },
        None => default.to_owned(),
    }
}

/// The number in a member, as a field shows it.
fn member_bound(j: &Json, key: &str) -> (r: String)
    ensures
        r@ == bound_text(j@, key@),
{
    match j.get(key) {
        Some(Json::Number(n)) => fmt_num(n),
        _ => "".to_owned(),
    }
}

/// The rows of the colors of a label.
pub fn vc_rows(colors: &Json) -> (r: Vec<VcRow>)
    ensures
        vc_view(r@) == vc_rows_of(colors@),
{
    let mut out: Vec<VcRow> = Vec::new();
    match colors.as_array() {
        Some(a) => {
            let ghost want = vc_rows_of(colors@);
            let mut i: usize = 0;
            assert(vc_view(out@) =~= want.take(0));
            while i < a.len()
                invariant
                    i <= a@.len(),
                    json::items_of(colors@) == Some(json::items_view(a@)),
                    want == vc_rows_of(colors@),
                    vc_view(out@) == want.take(i as int),
                decreases a@.len() - i,
            {
                let ghost before = out@;
                let row = VcRow {
                    id: i,
                    color: member_text(&a[i], "color", RULE_COLOR),
                    min: member_bound(&a[i], "min"),
                    max: member_bound(&a[i], "max"),
                    value: member_text(&a[i], "value", ""),
                };
                out.push(row);
                assert(row@ == want[i as int]);
                assert(vc_view(out@) =~= vc_view(before).push(row@));
                i += 1;
                assert(vc_view(out@) =~= want.take(i as int));
            }
            assert(want.take(i as int) =~= want);
        },
        None => {
            assert(vc_view(out@) =~= seq![]);
        },
    }
    out
}

/// A new row: for choices it starts from the first one.
pub fn new_vc_row(id: usize, value_type: &str, enum_values: &Vec<String>) -> (r: VcRow)
    ensures
        r@ == (VcRowV {
            id,
            color: RULE_COLOR@,
            min: ""@,
            max: ""@,
            value: if value_type@ == "enum"@ && enum_values@.len() > 0 {
                enum_values@[0]@
            } else {
                ""@
            },
        }),
{
    let value = if text::same(value_type, "enum") && enum_values.len() > 0 {
        enum_values[0].clone()
    } else {
        "".to_owned()
    };
    VcRow { id, color: RULE_COLOR.to_owned(), min: "".to_owned(), max: "".to_owned(), value }
}

/// What a row is saved as: nothing without a color; choices by their value,
/// else the bounds of a range.
pub open spec fn vc_json(row: VcRowV, value_type: Seq<char>) -> Option<JsonV> {
    if row.color.len() == 0 {
        None
    } else if value_type == "enum"@ {
        Some(
            JsonV::Object(
                seq![
                    ("color"@, JsonV::Text(row.color)),
                    ("max"@, JsonV::Null),
                    ("min"@, JsonV::Null),
                    ("value"@, components::text_or_null(row.value)),
                ],
            ),
        )
    } else {
        Some(
            JsonV::Object(
                seq![
                    ("color"@, JsonV::Text(row.color)),
                    ("max"@, num_read(row.max)),
                    ("min"@, num_read(row.min)),
                    ("value"@, JsonV::Null),
                ],
            ),
        )
    }
}

/// What rows are saved as.
pub open spec fn colors_of(rows: Seq<VcRowV>, value_type: Seq<char>) -> Seq<JsonV>
    decreases rows.len(),
{
    if rows.len() == 0 {
        seq![]
    } else {
        match vc_json(rows.last(), value_type) {
            Some(j) => colors_of(rows.drop_last(), value_type).push(j),
            None => colors_of(rows.drop_last(), value_type),
        }
    }
}

/// An object of four members.
fn object4(
    k1: &str,
    v1: Json,
    k2: &str,
    v2: Json,
    k3: &str,
    v3: Json,
    k4: &str,
    v4: Json,
) -> (r: Json)
    ensures
        r@ == JsonV::Object(seq![(k1@, v1@), (k2@, v2@), (k3@, v3@), (k4@, v4@)]),
{
    let ghost want = seq![(k1@, v1@), (k2@, v2@), (k3@, v3@), (k4@, v4@)];
    let mut m: Vec<(String, Json)> = Vec::new();
    json::put(&mut m, k1, v1);
    json::put(&mut m, k2, v2);
    json::put(&mut m, k3, v3);
    json::put(&mut m, k4, v4);
    assert(json::members_view(m@) =~= want);
    json::object(m)
}

/// What a row is saved as.
fn row_json(row: &VcRow, value_type: &str) -> (r: Option<Json>)
    ensures
        (match r {
            Some(j) => Some(j@),
            None => None,
        }) == vc_json(row@, value_type@),
{
    if row.color.as_str().is_empty() {
        return None;
    }
    let color = json::of_str(row.color.as_str());
    if text::same(value_type, "enum") {
        let value = components::text_value(row.value.as_str());
        Some(object4("color", color, "max", Json::Null, "min", Json::Null, "value", value))
    } else {
        let max = num_value(row.max.as_str());
        let min = num_value(row.min.as_str());
        Some(object4("color", color, "max", max, "min", min, "value", Json::Null))
    }
}

/// What rows are saved as.
pub fn build_value_colors(rows: &Vec<VcRow>, value_type: &str) -> (r: Json)
    ensures
        r@ == JsonV::Array(colors_of(vc_view(rows@), value_type@)),
{
    let ghost all = vc_view(rows@);
    let mut out: Vec<Json> = Vec::new();
    let mut i: usize = 0;
    assert(json::items_view(out@) =~= seq![]);
    while i < rows.len()
        invariant
            i <= rows@.len(),
            all == vc_view(rows@),
            json::items_view(out@) == colors_of(all.take(i as int), value_type@),
        decreases rows@.len() - i,
    {
        assert(all.take(i + 1).drop_last() =~= all.take(i as int));
        assert(all.take(i + 1).last() == rows@[i as int]@);
        if let Some(j) = row_json(&rows[i], value_type) {
            json::add_item(&mut out, j);
        }
        i += 1;
    }
    assert(all.take(i as int) =~= all);
    json::array(out)
}

/// The position of a row, or the number of rows.
pub open spec fn row_at(rows: Seq<VcRowV>, id: usize) -> int
    decreases rows.len(),
{
    if rows.len() == 0 || rows[0].id == id {
        0
    } else {
        1 + row_at(rows.skip(1), id)
    }
}

/// What [`row_at`] finds.
pub proof fn row_at_props(rows: Seq<VcRowV>, id: usize)
    ensures
        0 <= row_at(rows, id) <= rows.len(),
        row_at(rows, id) < rows.len() ==> rows[row_at(rows, id)].id == id,
        forall|k: int| 0 <= k < row_at(rows, id) ==> (#[trigger] rows[k]).id != id,
    decreases rows.len(),
{
    if rows.len() > 0 && rows[0].id != id {
        let t = rows.skip(1);
        row_at_props(t, id);
        assert forall|k: int| 0 <= k < row_at(rows, id) implies (#[trigger] rows[k]).id != id by {
            if k > 0 {
                assert(t[k - 1] == rows[k]);
            }
        }
    }
}

/// [`row_at`] is the only position with its property.
pub proof fn row_at_is(rows: Seq<VcRowV>, id: usize, n: int)
    requires
        0 <= n <= rows.len(),
        n < rows.len() ==> rows[n].id == id,
        forall|k: int| 0 <= k < n ==> (#[trigger] rows[k]).id != id,
    ensures
        row_at(rows, id) == n,
{
    row_at_props(rows, id);
    let m = row_at(rows, id);
    if m < n {
        assert(rows[m].id != id);
    } else if n < m {
        assert(rows[n].id != id);
    }
}

/// The position of a row.
fn find_row(rows: &Vec<VcRow>, id: usize) -> (r: Option<usize>)
    ensures
        match r {
            Some(i) => i == row_at(vc_view(rows@), id) && i < rows.len(),
            None => row_at(vc_view(rows@), id) == rows@.len(),
        },
{
    let ghost all = vc_view(rows@);
    let mut i: usize = 0;
    while i < rows.len()
        invariant
            i <= rows@.len(),
            all == vc_view(rows@),
            forall|k: int| 0 <= k < i ==> (#[trigger] all[k]).id != id,
        decreases rows@.len() - i,
    {
        assert(all[i as int].id == rows@[i as int].id);
        if rows[i].id == id {
            proof {
                row_at_is(all, id, i as int);
            }
            return Some(i);
        }
        i += 1;
    }
    proof {
        row_at_is(all, id, i as int);
    }
    None
}

/// Rows with two neighbours exchanged.
pub open spec fn exchanged(rows: Seq<VcRowV>, i: int) -> Seq<VcRowV> {
    rows.update(i, rows[i + 1]).update(i + 1, rows[i])
}

/// Rows after one was moved up: the first stays.
pub open spec fn moved_up(rows: Seq<VcRowV>, id: usize) -> Seq<VcRowV> {
    let i = row_at(rows, id);
    if 0 < i < rows.len() {
        exchanged(rows, i - 1)
    } else {
        rows
    }
}

/// Rows after one was moved down: the last stays.
pub open spec fn moved_down(rows: Seq<VcRowV>, id: usize) -> Seq<VcRowV> {
    let i = row_at(rows, id);
    if 0 <= i && i + 1 < rows.len() {
        exchanged(rows, i)
    } else {
        rows
    }
}

/// Exchanges two neighbours.
fn exchange(rows: &mut Vec<VcRow>, i: usize)
    requires
        i + 1 < old(rows).len(),
    ensures
        vc_view(final(rows)@) == exchanged(vc_view(old(rows)@), i as int),
{
    let ghost before = rows@;
    let row = rows.remove(i);
    rows.insert(i + 1, row);
    assert(vc_view(rows@) =~= exchanged(vc_view(before), i as int));
}

/// Moves a row up.
pub fn move_up(rows: &mut Vec<VcRow>, id: usize)
    ensures
        vc_view(final(rows)@) == moved_up(vc_view(old(rows)@), id),
{
    if let Some(i) = find_row(rows, id) {
        if i > 0 {
            exchange(rows, i - 1);
        }
    }
}

/// Moves a row down.
pub fn move_down(rows: &mut Vec<VcRow>, id: usize)
    ensures
        vc_view(final(rows)@) == moved_down(vc_view(old(rows)@), id),
{
    if let Some(i) = find_row(rows, id) {
        if i + 1 < rows.len() {
            exchange(rows, i);
        }
    }
}

// ---------------------------------------------------------------------------
// Relations between labels
// ---------------------------------------------------------------------------

/// A relation that is being edited.
#[derive(Debug, Clone)]
pub struct LinkRow {
    pub id: usize,
    /// `inherit` or `override`.
    pub kind: String,
    /// The label at the other end.
    pub other: String,
    pub other_value: String,
    pub own_value: String,
}

/// The content of a row.
pub struct LinkRowV {
    pub id: usize,
    pub kind: Seq<char>,
    pub other: Seq<char>,
    pub other_value: Seq<char>,
    pub own_value: Seq<char>,
}

impl View for LinkRow {
    type V = LinkRowV;

    open spec fn view(&self) -> LinkRowV {
        LinkRowV {
            id: self.id,
            kind: self.kind@,
            other: self.other@,
            other_value: self.other_value@,
            own_value: self.own_value@,
        }
    }
}

/// The contents of rows.
pub open spec fn links_view(rows: Seq<LinkRow>) -> Seq<LinkRowV> {
    Seq::new(rows.len(), |i: int| rows[i]@)
}

/// What a relation needs to know of a label.
#[derive(Debug, Clone)]
pub struct LabelMeta {
    pub name: String,
    pub value_type: String,
    pub enum_values: Vec<String>,
    pub multi: bool,
}

impl LabelMeta {
    /// Whether a relation may speak of the values of a label.
    pub open spec fn valued(self) -> bool {
        self.value_type@ != "null"@
    }

    /// Tests [`LabelMeta::valued`].
    pub fn has_value(&self) -> (r: bool)
        ensures
            r == self.valued(),
    {
        !text::same(self.value_type.as_str(), "null")
    }

    /// What is needed of a label.
    pub fn of(s: &LabelSchema) -> (r: LabelMeta)
        ensures
            describes(r, *s),
    {
        LabelMeta {
            name: s.name.clone(),
            value_type: s.value_type.clone(),
            enum_values: text::copy_list(&s.enum_values),
            multi: s.multi,
        }
    }
}

/// How a value in a relation is given, by the type of its label.
pub open spec fn link_value(s: Seq<char>, value_type: Seq<char>, multi: bool) -> JsonV {
    let t = text::trimmed(s);
    if t.len() == 0 {
        JsonV::Null
    } else if value_type == "boolean"@ {
        if t == "true"@ {
            JsonV::Bool(true)
        } else if t == "false"@ {
            JsonV::Bool(false)
        } else {
            JsonV::Text(t)
        }
    } else if value_type == "integer"@ || value_type == "float"@ || value_type == "currency"@ {
        num_read(t)
    } else if value_type == "enum"@ && multi {
        json::texts(components::nonblank(text::split_at_char(t, ',')))
    } else {
        JsonV::Text(t)
    }
}

/// The type of a label and whether it holds several values; nothing is known of
/// one without a definition.
pub open spec fn meta_type(m: Option<LabelMeta>) -> (Seq<char>, bool) {
    match m {
        Some(m) => (m.value_type@, m.multi),
        None => (""@, false),
    }
}

/// The label behind an optional reference.
pub open spec fn opt_meta(m: Option<&LabelMeta>) -> Option<LabelMeta> {
    match m {
        Some(m) => Some(*m),
        None => None,
    }
}

/// The value in a relation that a field spells.
pub fn link_value_of(s: &str, meta: Option<&LabelMeta>) -> (r: Json)
    ensures
        r@ == link_value(s@, meta_type(opt_meta(meta)).0, meta_type(opt_meta(meta)).1),
{
    let t = text::trim(s);
    let t_str = t.as_str();
    if t_str.is_empty() {
        return Json::Null;
    }
    proof {
        reveal_strlit("");
        reveal_strlit("boolean");
        reveal_strlit("integer");
        reveal_strlit("float");
        reveal_strlit("currency");
        reveal_strlit("enum");
        assert(""@.len() == 0 && "boolean"@.len() > 0 && "integer"@.len() > 0);
        assert("float"@.len() > 0 && "currency"@.len() > 0 && "enum"@.len() > 0);
    }
    if let Some(m) = meta {
        let vt = m.value_type.as_str();
        if text::same(vt, "boolean") {
            return if text::same(t_str, "true") {
                Json::Bool(true)
            } else if text::same(t_str, "false") {
                Json::Bool(false)
            } else {
                json::of_str(t_str)
            };
        }
        if text::same(vt, "integer") || text::same(vt, "float") || text::same(vt, "currency") {
            return num_value(t_str);
        }
        if text::same(vt, "enum") && m.multi {
            let items = components::list_entries(t_str, ',');
            return json::of_list(&items);
        }
    }
    json::of_str(t_str)
}

/// A value of a relation in a field: the values of an array with commas.
pub open spec fn link_text(v: JsonV) -> Seq<char>
    decreases v,
{
    match v {
        JsonV::Null => ""@,
        JsonV::Text(s) => s,
        JsonV::Bool(b) => query_eval::bool_text(b),
        JsonV::Number(n) => num_text(n),
        JsonV::Array(a) => text::joined(link_texts(a), ","@),
        JsonV::Object(_) => json::json_text(v),
    }
}

/// The values of an array in a field.
pub open spec fn link_texts(a: Seq<JsonV>) -> Seq<Seq<char>>
    decreases a,
{
    if a.len() == 0 {
        seq![]
    } else {
        link_texts(a.drop_last()).push(link_text(a.last()))
    }
}

/// A value of a relation in a field.
pub fn link_value_text(v: &Json) -> (r: String)
    ensures
        r@ == link_text(v@),
    decreases v,
{
    match v {
        Json::Null => "".to_owned(),
        Json::Text(s) => s.clone(),
        Json::Bool(b) => if *b {
            "true".to_owned()
        } else {
            "false".to_owned()
        },
        Json::Number(n) => fmt_num(n),
        Json::Array(a) => {
            let mut parts: Vec<String> = Vec::new();
            let mut i: usize = 0;
            let ghost items = json::items_view(a@);
            assert(text::contents(parts@) =~= seq![]);
            while i < a.len()
                invariant
                    i <= a@.len(),
                    *v == Json::Array(*a),
                    items == json::items_view(a@),
                    text::contents(parts@) == link_texts(items.take(i as int)),
                decreases a@.len() - i,
            {
                let ghost before = parts@;
                proof {
                    json::item_smaller(*v, *a, i as int);
                    assert(items.take(i + 1).drop_last() =~= items.take(i as int));
                    assert(items.take(i + 1).last() == a@[i as int]@);
                }
                let t = link_value_text(&a[i]);
                parts.push(t);
                assert(text::contents(parts@) =~= text::contents(before).push(t@));
                i += 1;
            }
            proof {
                json::array_view(*a);
                assert(items.take(i as int) =~= items);
            }
            text::join(&parts, ",")
        },
        Json::Object(_) => json::write(v),
    }
}

/// A member, or null.
pub open spec fn member_or_null(j: JsonV, key: Seq<char>) -> JsonV {
    match json::member(j, key) {
        Some(v) => v,
        None => JsonV::Null,
    }
}

/// The row of a relation; none for one without another end.
pub open spec fn link_row_of(i: int, link: JsonV) -> Option<LinkRowV> {
    match json::opt_str_of(json::member(link, "other"@)) {
        Some(other) => Some(
            LinkRowV {
                id: i as usize,
                kind: match json::opt_str_of(json::member(link, "kind"@)) {
                    Some(k) => k,
                    None => "inherit"@,
                },
                other,
                other_value: link_text(member_or_null(link, "otherValue"@)),
                own_value: link_text(member_or_null(link, "ownValue"@)),
            },
        ),
        None => None,
    }
}

/// The rows of the first relations.
pub open spec fn link_rows_upto(a: Seq<JsonV>, n: int) -> Seq<LinkRowV>
    decreases n,
{
    if n <= 0 || n > a.len() {
        seq![]
    } else {
        match link_row_of(n - 1, a[n - 1]) {
            Some(row) => link_rows_upto(a, n - 1).push(row),
            None => link_rows_upto(a, n - 1),
        }
    }
}

/// The rows of the relations of a label.
pub open spec fn link_rows_of(links: JsonV) -> Seq<LinkRowV> {
    match json::items_of(links) {
        Some(a) => link_rows_upto(a, a.len() as int),
        None => seq![],
    }
}

/// A member as a field shows it.
fn member_value_text(j: &Json, key: &str) -> (r: String)
    ensures
        r@ == link_text(member_or_null(j@, key@)),
{
    match j.get(key) {
        Some(v) => link_value_text(v),
        None => "".to_owned(),
    }
}

/// The row of a relation.
fn make_link_row(i: usize, link: &Json) -> (r: Option<LinkRow>)
    ensures
        (match r {
            Some(row) => Some(row@),
            None => None,
        }) == link_row_of(i as int, link@),
{
    let other = match link.get("other") {
        Some(o) => match o.as_str() {
            Some(s) => s.to_owned(),
            None => {
                return None;
            },
        },
        None => {
            return None;
        },
    };
    Some(
        LinkRow {
            id: i,
            kind: member_text(link, "kind", "inherit"),
            other,
            other_value: member_value_text(link, "otherValue"),
            own_value: member_value_text(link, "ownValue"),
        },
    )
}

/// The rows of the relations of a label.
pub fn links_to_rows(links: &Json) -> (r: Vec<LinkRow>)
    ensures
        links_view(r@) == link_rows_of(links@),
{
    let mut out: Vec<LinkRow> = Vec::new();
    assert(links_view(out@) =~= seq![]);
    if let Some(a) = links.as_array() {
        let ghost items = json::items_view(a@);
        let mut i: usize = 0;
        while i < a.len()
            invariant
                i <= a@.len(),
                items == json::items_view(a@),
                json::items_of(links@) == Some(items),
                links_view(out@) == link_rows_upto(items, i as int),
            decreases a@.len() - i,
        {
            let ghost before = out@;
            assert(items[i as int] == a@[i as int]@);
            if let Some(row) = make_link_row(i, &a[i]) {
                out.push(row);
                assert(links_view(out@) =~= links_view(before).push(row@));
            }
            i += 1;
        }
    }
    out
}

/// A new row.
pub fn new_link_row(id: usize) -> (r: LinkRow)
    ensures
        r@ == (LinkRowV {
            id,
            kind: "inherit"@,
            other: ""@,
            other_value: ""@,
            own_value: ""@,
        }),
{
    LinkRow {
        id,
        kind: "inherit".to_owned(),
        other: "".to_owned(),
        other_value: "".to_owned(),
        own_value: "".to_owned(),
    }
}

/// Chooses the label at the other end; the value at that end is given anew.
pub fn choose_other(row: &mut LinkRow, other: &str)
    ensures
        final(row)@ == (LinkRowV { other: other@, other_value: ""@, ..old(row)@ }),
{
    row.other = other.to_owned();
    row.other_value = "".to_owned();
}

/// The first label with a name.
pub open spec fn named_meta(metas: Seq<LabelMeta>, name: Seq<char>) -> Option<LabelMeta>
    decreases metas.len(),
{
    if metas.len() == 0 {
        None
    } else if metas[0].name@ == name {
        Some(metas[0])
    } else {
        named_meta(metas.skip(1), name)
    }
}

/// The first label with a name, where it has values.
pub open spec fn valued_meta(metas: Seq<LabelMeta>, name: Seq<char>) -> Option<LabelMeta> {
    match named_meta(metas, name) {
        Some(m) => if m.valued() {
            Some(m)
        } else {
            None
        },
        None => None,
    }
}

/// The first label with a name.
fn find_meta<'a>(metas: &'a [LabelMeta], name: &str) -> (r: Option<&'a LabelMeta>)
    ensures
        opt_meta(r) == named_meta(metas@, name@),
{
    let mut i: usize = 0;
    assert(metas@.skip(0) =~= metas@);
    while i < metas.len()
        invariant
            i <= metas@.len(),
            named_meta(metas@, name@) == named_meta(metas@.skip(i as int), name@),
        decreases metas@.len() - i,
    {
        let ghost rest = metas@.skip(i as int);
        assert(rest[0] == metas@[i as int]);
        assert(rest.skip(1) =~= metas@.skip(i + 1));
        if text::same(metas[i].name.as_str(), name) {
            return Some(&metas[i]);
        }
        i += 1;
    }
    None
}

/// The first label with a name, where it has values.
pub fn find_valued<'a>(metas: &'a [LabelMeta], name: &str) -> (r: Option<&'a LabelMeta>)
    ensures
        opt_meta(r) == valued_meta(metas@, name@),
{
    match find_meta(metas, name) {
        Some(m) => if m.has_value() {
            Some(m)
        } else {
            None
        },
        None => None,
    }
}

/// The labels that a relation of a label may lead to: all but itself.
pub open spec fn other_schemas(schemas: Seq<LabelSchema>, own: Seq<char>) -> Seq<LabelSchema>
    decreases schemas.len(),
{
    if schemas.len() == 0 {
        seq![]
    } else if schemas.last().name@ == own {
        other_schemas(schemas.drop_last(), own)
    } else {
        other_schemas(schemas.drop_last(), own).push(schemas.last())
    }
}

/// Whether what is known of a label comes from a definition.
pub open spec fn describes(m: LabelMeta, s: LabelSchema) -> bool {
    &&& m.name@ == s.name@
    &&& m.value_type@ == s.value_type@
    &&& text::contents(m.enum_values@) == text::contents(s.enum_values@)
    &&& m.multi == s.multi
}

/// The labels that a relation of a label may lead to.
pub fn other_labels(schemas: &[LabelSchema], own: &str) -> (r: Vec<LabelMeta>)
    ensures
        r@.len() == other_schemas(schemas@, own@).len(),
        forall|i: int|
            0 <= i < r@.len() ==> describes(#[trigger] r@[i], other_schemas(schemas@, own@)[i]),
{
    let mut out: Vec<LabelMeta> = Vec::new();
    let mut i: usize = 0;
    while i < schemas.len()
        invariant
            i <= schemas@.len(),
            out@.len() == other_schemas(schemas@.take(i as int), own@).len(),
            forall|k: int|
                0 <= k < out@.len() ==> describes(
                    #[trigger] out@[k],
                    other_schemas(schemas@.take(i as int), own@)[k],
                ),
        decreases schemas@.len() - i,
    {
        assert(schemas@.take(i + 1).drop_last() =~= schemas@.take(i as int));
        if !text::same(schemas[i].name.as_str(), own) {
            out.push(LabelMeta::of(&schemas[i]));
        }
        i += 1;
    }
    assert(schemas@.take(i as int) =~= schemas@);
    out
}

/// The value on one side of a relation: it follows the type of the label there.
/// The side of a label without values stays null.
pub open spec fn side_value(s: Seq<char>, meta: Option<LabelMeta>) -> JsonV {
    match meta {
        Some(m) => if m.valued() {
            link_value(s, m.value_type@, m.multi)
        } else {
            JsonV::Null
        },
        None => link_value(s, ""@, false),
    }
}

/// The value on one side of a relation.
fn side_value_of(s: &str, meta: Option<&LabelMeta>) -> (r: Json)
    ensures
        r@ == side_value(s@, opt_meta(meta)),
{
    if let Some(m) = meta {
        if !m.has_value() {
            return Json::Null;
        }
    }
    link_value_of(s, meta)
}

/// A relation as it is saved.
pub open spec fn link_json(
    row: LinkRowV,
    other: Option<LabelMeta>,
    own: Option<LabelMeta>,
) -> JsonV {
    JsonV::Object(
        seq![
            ("kind"@, JsonV::Text(row.kind)),
            ("other"@, JsonV::Text(row.other)),
            ("otherValue"@, side_value(row.other_value, other)),
            ("ownValue"@, side_value(row.own_value, own)),
        ],
    )
}

/// Relations as they are saved: those with another end.
pub open spec fn links_of(
    rows: Seq<LinkRowV>,
    metas: Seq<LabelMeta>,
    own: Option<LabelMeta>,
) -> Seq<JsonV>
    decreases rows.len(),
{
    if rows.len() == 0 {
        seq![]
    } else if rows.last().other.len() == 0 {
        links_of(rows.drop_last(), metas, own)
    } else {
        links_of(rows.drop_last(), metas, own).push(
            link_json(rows.last(), named_meta(metas, rows.last().other), own),
        )
    }
}

/// Relations as they are saved.
pub fn build_links(rows: &Vec<LinkRow>, metas: &[LabelMeta], own: Option<&LabelMeta>) -> (r: Json)
    ensures
        r@ == JsonV::Array(links_of(links_view(rows@), metas@, opt_meta(own))),
{
    let ghost all = links_view(rows@);
    let mut out: Vec<Json> = Vec::new();
    let mut i: usize = 0;
    assert(json::items_view(out@) =~= seq![]);
    while i < rows.len()
        invariant
            i <= rows@.len(),
            all == links_view(rows@),
            json::items_view(out@) == links_of(all.take(i as int), metas@, opt_meta(own)),
        decreases rows@.len() - i,
    {
        assert(all.take(i + 1).drop_last() =~= all.take(i as int));
        assert(all.take(i + 1).last() == rows@[i as int]@);
        let row = &rows[i];
        if !row.other.as_str().is_empty() {
            let other = find_meta(metas, row.other.as_str());
            let j = object4(
                "kind",
                json::of_str(row.kind.as_str()),
                "other",
                json::of_str(row.other.as_str()),
                "otherValue",
                side_value_of(row.other_value.as_str(), other),
                "ownValue",
                side_value_of(row.own_value.as_str(), own),
            );
            json::add_item(&mut out, j);
        }
        i += 1;
    }
    assert(all.take(i as int) =~= all);
    json::array(out)
}

/// Rows without those of an id.
pub open spec fn without_row(rows: Seq<VcRowV>, id: usize) -> Seq<VcRowV>
    decreases rows.len(),
{
    if rows.len() == 0 {
        seq![]
    } else if rows.last().id == id {
        without_row(rows.drop_last(), id)
    } else {
        without_row(rows.drop_last(), id).push(rows.last())
    }
}

/// Takes out a color.
pub fn remove_color(rows: &mut Vec<VcRow>, id: usize)
    ensures
        vc_view(final(rows)@) == without_row(vc_view(old(rows)@), id),
{
    let ghost all = vc_view(rows@);
    let mut rest: Vec<VcRow> = Vec::new();
    let mut kept: Vec<VcRow> = Vec::new();
    std::mem::swap(&mut rest, rows);
    let ghost total = rest@;
    assert(vc_view(kept@) =~= seq![]);
    let mut i: usize = 0;
    let n: usize = rest.len();
    assert(total.skip(0) =~= total);
    while i < n
        invariant
            i <= n,
            n == total.len(),
            all == vc_view(total),
            rest@ == total.skip(i as int),
            vc_view(kept@) == without_row(all.take(i as int), id),
        decreases n - i,
    {
        let ghost before = kept@;
        assert(all.take(i + 1).drop_last() =~= all.take(i as int));
        assert(all.take(i + 1).last() == total[i as int]@);
        let row = rest.remove(0);
        assert(row == total[i as int]);
        assert(rest@ =~= total.skip(i + 1));
        if row.id != id {
            kept.push(row);
            assert(vc_view(kept@) =~= vc_view(before).push(row@));
        }
        i += 1;
    }
    assert(all.take(i as int) =~= all);
    *rows = kept;
}

/// Relations without those of an id.
pub open spec fn without_link(rows: Seq<LinkRowV>, id: usize) -> Seq<LinkRowV>
    decreases rows.len(),
{
    if rows.len() == 0 {
        seq![]
    } else if rows.last().id == id {
        without_link(rows.drop_last(), id)
    } else {
        without_link(rows.drop_last(), id).push(rows.last())
    }
}

/// Takes out a relation.
pub fn remove_link(rows: &mut Vec<LinkRow>, id: usize)
    ensures
        links_view(final(rows)@) == without_link(links_view(old(rows)@), id),
{
    let ghost all = links_view(rows@);
    let mut rest: Vec<LinkRow> = Vec::new();
    let mut kept: Vec<LinkRow> = Vec::new();
    std::mem::swap(&mut rest, rows);
    let ghost total = rest@;
    assert(links_view(kept@) =~= seq![]);
    let mut i: usize = 0;
    let n: usize = rest.len();
    assert(total.skip(0) =~= total);
    while i < n
        invariant
            i <= n,
            n == total.len(),
            all == links_view(total),
            rest@ == total.skip(i as int),
            links_view(kept@) == without_link(all.take(i as int), id),
        decreases n - i,
    {
        let ghost before = kept@;
        assert(all.take(i + 1).drop_last() =~= all.take(i as int));
        assert(all.take(i + 1).last() == total[i as int]@);
        let row = rest.remove(0);
        assert(row == total[i as int]);
        assert(rest@ =~= total.skip(i + 1));
        if row.id != id {
            kept.push(row);
            assert(links_view(kept@) =~= links_view(before).push(row@));
        }
        i += 1;
    }
    assert(all.take(i as int) =~= all);
    *rows = kept;
}

// ---------------------------------------------------------------------------
// Laws
// ---------------------------------------------------------------------------

/// A numeral has no blanks around it.
proof fn numeral_is_trimmed(n: int)
    ensures
        text::trimmed(decimal::numeral(n)) == decimal::numeral(n),
        decimal::numeral(n).len() > 0,
{
    let m: nat = if n < 0 {
        (-n) as nat
    } else {
        n as nat
    };
    decimal::value_of_decimal(m);
    let d = decimal::decimal(m);
    let s = decimal::numeral(n);
    assert(text::is_digit(d[0]));
    assert(text::is_digit(d[d.len() - 1]));
    assert(s.last() == d.last());
    assert(!text::is_white(s[0]));
    assert(!text::is_white(s.last()));
}

/// A whole number below the limit that a field shows is read back as that
/// integer.
pub proof fn whole_numbers_survive(n: NumV)
    requires
        number::whole_value(n) is Some,
    ensures
        num_read(num_text(n)) == JsonV::Number(
            number::int_number(number::whole_value(n)->0 as i64),
        ),
{
    let i = number::whole_value(n)->0;
    whole_is_small(n);
    numeral_is_trimmed(i);
    decimal::numeral_reads_back(i);
}

/// Whole numbers are below the limit.
proof fn whole_is_small(n: NumV)
    requires
        number::whole_value(n) is Some,
    ensures
        -(number::WHOLE_LIMIT as int) < number::whole_value(n)->0 < number::WHOLE_LIMIT,
{
    if let NumV::Float(bits, _) = n {
        let m = bits as int % 0x8000_0000_0000_0000;
        if m != 0 {
            let e = m / 0x10_0000_0000_0000;
            let s = 0x10_0000_0000_0000 + m % 0x10_0000_0000_0000;
            vstd::arithmetic::power2::lemma_pow2_pos((1075 - e) as nat);
            let p = vstd::arithmetic::power2::pow2((1075 - e) as nat) as int;
            vstd::arithmetic::div_mod::lemma_div_pos_is_pos(s, p);
        }
    }
}

/// Moving a row up and down again changes nothing, where it was not the first
/// and no id stands twice.
pub proof fn down_undoes_up(rows: Seq<VcRowV>, i: int)
    requires
        0 < i < rows.len(),
        forall|j: int, k: int|
            0 <= j < k < rows.len() ==> (#[trigger] rows[j]).id != (#[trigger] rows[k]).id,
    ensures
        moved_down(moved_up(rows, rows[i].id), rows[i].id) == rows,
{
    let id = rows[i].id;
    row_at_is(rows, id, i);
    let up = moved_up(rows, id);
    assert(up[i - 1] == rows[i]);
    assert forall|k: int| 0 <= k < i - 1 implies (#[trigger] up[k]).id != id by {
        assert(up[k] == rows[k]);
    }
    row_at_is(up, id, i - 1);
    assert(moved_down(up, id) =~= rows);
}

/// A value of a relation that a field shows is read back as it was: null for
/// every type, a truth value, a whole number, and a text without blanks around
/// it where the label holds neither of these nor several choices.
pub proof fn link_values_survive(v: JsonV, value_type: Seq<char>, multi: bool)
    requires
        match v {
            JsonV::Null => true,
            JsonV::Bool(_) => value_type == "boolean"@,
            JsonV::Number(n) => (value_type == "integer"@ || value_type == "float"@ || value_type
                == "currency"@) && number::whole_value(n) is Some && n == number::int_number(
                number::whole_value(n)->0 as i64,
            ),
            JsonV::Text(s) => s.len() > 0 && text::trimmed(s) == s && value_type != "boolean"@
                && value_type != "integer"@ && value_type != "float"@ && value_type != "currency"@
                && !(value_type == "enum"@ && multi),
            _ => false,
        },
    ensures
        link_value(link_text(v), value_type, multi) == v,
{
    reveal_strlit("");
    reveal_strlit("true");
    reveal_strlit("false");
    reveal_strlit("boolean");
    reveal_strlit("integer");
    reveal_strlit("float");
    reveal_strlit("currency");
    match v {
        JsonV::Null => {
            assert(""@ =~= Seq::<char>::empty());
            assert(text::trim_start(""@) == ""@);
        },
        JsonV::Bool(b) => {
            assert("true"@.len() == 4 && "false"@.len() == 5);
            assert(!text::is_white('t') && !text::is_white('f') && !text::is_white('e'));
            assert("true"@[0] == 't' && "true"@.last() == 'e');
            assert("false"@[0] == 'f' && "false"@.last() == 'e');
            assert(text::trimmed("true"@) == "true"@);
            assert(text::trimmed("false"@) == "false"@);
        },
        JsonV::Number(n) => {
            let i = number::whole_value(n)->0;
            numeral_is_trimmed(i);
            whole_numbers_survive(n);
            assert("boolean"@[0] == 'b' && "integer"@[0] == 'i' && "float"@[0] == 'f');
            assert("currency"@[0] == 'c');
        },
        _ => {},
    }
}

/// A relation that was saved is opened again with the same kind and other end.
pub proof fn saved_link_reopens(
    i: int,
    row: LinkRowV,
    other: Option<LabelMeta>,
    own: Option<LabelMeta>,
)
    ensures
        match link_row_of(i, link_json(row, other, own)) {
            Some(r) => r.kind == row.kind && r.other == row.other && r.other_value == link_text(
                side_value(row.other_value, other),
            ) && r.own_value == link_text(side_value(row.own_value, own)),
            None => false,
        },
{
    let j = link_json(row, other, own);
    let o = j->Object_0;
    reveal_strlit("kind");
    reveal_strlit("other");
    reveal_strlit("otherValue");
    reveal_strlit("ownValue");
    assert("kind"@.len() == 4 && "other"@.len() == 5);
    assert("otherValue"@.len() == 10 && "ownValue"@.len() == 8);
    json::key_index_is(o, "kind"@, 0);
    json::key_index_is(o, "other"@, 1);
    json::key_index_is(o, "otherValue"@, 2);
    json::key_index_is(o, "ownValue"@, 3);
}

/// In a saved relation the side of a label without values is null, whatever
/// stood in its field.
pub proof fn side_without_values_is_null(row: LinkRowV, other: LabelMeta, own: LabelMeta)
    ensures
        !other.valued() ==> json::member(link_json(row, Some(other), Some(own)), "otherValue"@)
            == Some(JsonV::Null),
        !own.valued() ==> json::member(link_json(row, Some(other), Some(own)), "ownValue"@) == Some(
            JsonV::Null,
        ),
{
    let o = link_json(row, Some(other), Some(own))->Object_0;
    reveal_strlit("kind");
    reveal_strlit("other");
    reveal_strlit("otherValue");
    reveal_strlit("ownValue");
    assert("kind"@.len() == 4 && "other"@.len() == 5);
    assert("otherValue"@.len() == 10 && "ownValue"@.len() == 8);
    json::key_index_is(o, "otherValue"@, 2);
    json::key_index_is(o, "ownValue"@, 3);
}

/// The color of a choice that was saved is opened again as it was.
pub proof fn saved_choice_color_reopens(i: int, row: VcRowV)
    requires
        row.color.len() > 0,
        row.min.len() == 0,
        row.max.len() == 0,
        row.id == i as usize,
    ensures
        match vc_json(row, "enum"@) {
            Some(j) => vc_row_of(i, j) == row,
            None => false,
        },
{
    let j = vc_json(row, "enum"@)->0;
    let o = j->Object_0;
    reveal_strlit("color");
    reveal_strlit("max");
    reveal_strlit("min");
    reveal_strlit("value");
    reveal_strlit("");
    assert("color"@[0] == 'c' && "value"@[0] == 'v');
    assert("max"@[1] == 'a' && "min"@[1] == 'i');
    assert("max"@.len() == 3 && "min"@.len() == 3 && "color"@.len() == 5 && "value"@.len() == 5);
    json::key_index_is(o, "color"@, 0);
    json::key_index_is(o, "max"@, 1);
    json::key_index_is(o, "min"@, 2);
    json::key_index_is(o, "value"@, 3);
    assert(""@ =~= row.min);
    assert(""@ =~= row.max);
    if row.value.len() == 0 {
        assert(""@ =~= row.value);
    }
}

} // verus!
