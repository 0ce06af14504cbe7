//! What the settings of a label make of what was typed, stated on the texts of
//! the fields and on the values that are saved.

use vstd::prelude::*;

use crate::components;
use crate::decimal;
use crate::draft_laws;
use crate::graphql_client::{LabelSchema, Member};
use crate::json;
use crate::json::JsonV;
use crate::number;
use crate::number::NumV;
use crate::query_laws;
use crate::settings;
use crate::settings::{LabelMeta, LinkRowV, VcRowV};
use crate::text;

verus! {

/// A field of numbers gives the integer whose numeral was typed, else the
/// double that was, and null where it spells neither; white space around it does
/// not count.
pub proof fn fields_give_numbers(a: Seq<char>, m: Seq<char>, b: Seq<char>, n: int)
    requires
        text::all_white(a),
        text::all_white(b),
        m.len() > 0 ==> !text::is_white(m[0]) && !text::is_white(m.last()),
    ensures
        m.len() == 0 ==> settings::num_read(a + m + b) == JsonV::Null,
        i64::MIN <= n <= i64::MAX && m == decimal::numeral(n) ==> (settings::num_read(
            a + m + b,
        ) matches JsonV::Number(x) && number::is_whole(x, n)),
        m.len() > 0 && decimal::int_of(m) is None ==> settings::num_read(a + m + b) == (
        match components::float_read(m) {
            Some(x) => JsonV::Number(x),
            None => JsonV::Null,
        }),
        draft_laws::is_stray(m, n) && !(m[n] == '-' || m[n] == '+') ==> settings::num_read(a + m + b)
            == (match components::float_read(m) {
            Some(x) => JsonV::Number(x),
            None => JsonV::Null,
        }),
{
    text::trimmed_is_the_middle(a, m, b);
    if i64::MIN <= n <= i64::MAX && m == decimal::numeral(n) {
        decimal::numeral_reads_back(n);
    }
    if draft_laws::is_stray(m, n) && decimal::int_of(m) is Some {
        if m[0] == '-' || m[0] == '+' {
            assert(m.skip(1)[n - 1] == m[n]);
            assert(text::is_digit(m.skip(1)[n - 1]));
        } else {
            assert(text::is_digit(m[n]));
        }
    }
}

/// The ends of numerals are no white space.
pub proof fn numerals_are_bare(n: int)
    ensures
        decimal::numeral(n).len() > 0,
        !text::is_white(decimal::numeral(n)[0]),
        !text::is_white(decimal::numeral(n).last()),
{
    let p: nat = if n < 0 {
        (-n) as nat
    } else {
        n as nat
    };
    decimal::value_of_decimal(p);
    let d = decimal::decimal(p);
    assert(text::is_digit(d[0]));
    assert(text::is_digit(d[d.len() - 1]));
    assert(decimal::numeral(n).last() == d.last());
}

/// A number that is an integer below the limit is shown without a fraction, as
/// its numeral, whether it is stored as an integer or as a double.
pub proof fn integers_are_shown(x: NumV, n: int)
    requires
        number::is_whole(x, n),
        -9_000_000_000_000_000 < n < 9_000_000_000_000_000,
    ensures
        settings::num_text(x) == decimal::numeral(n),
{
    number::whole_numbers_are_found(x, n);
}

/// The value of a relation that was typed, by the type of its label: none where
/// it is blank; yes or no for truth values; a number for numbers; the choices
/// between commas for several choices; else the text, without the white space
/// around it.
pub proof fn relation_values_are_read(
    a: Seq<char>,
    m: Seq<char>,
    b: Seq<char>,
    vt: Seq<char>,
    multi: bool,
    n: int,
)
    requires
        text::all_white(a),
        text::all_white(b),
        m.len() > 0 ==> !text::is_white(m[0]) && !text::is_white(m.last()),
    ensures
        m.len() == 0 ==> settings::link_value(a + m + b, vt, multi) == JsonV::Null,
        m.len() > 0 && vt == "boolean"@ ==> settings::link_value(a + m + b, vt, multi) == (if m
            == "true"@ {
            JsonV::Bool(true)
        } else if m == "false"@ {
            JsonV::Bool(false)
        } else {
            JsonV::Text(m)
        }),
        m.len() > 0 && draft_laws::numeric(vt) ==> settings::link_value(a + m + b, vt, multi)
            == settings::num_read(m),
        draft_laws::numeric(vt) && i64::MIN <= n <= i64::MAX && m == decimal::numeral(n) ==> (
        settings::link_value(a + m + b, vt, multi) matches JsonV::Number(x) && number::is_whole(
            x,
            n,
        )),
        m.len() > 0 && vt == "enum"@ && multi ==> draft_laws::lists(
            settings::link_value(a + m + b, vt, multi),
            components::nonblank(text::split_at_char(m, ',')),
        ),
        m.len() > 0 && vt != "boolean"@ && !draft_laws::numeric(vt) && !(vt == "enum"@ && multi)
            ==> settings::link_value(a + m + b, vt, multi) == JsonV::Text(m),
{
    draft_laws::types_apart();
    text::trimmed_is_the_middle(a, m, b);
    let e = Seq::<char>::empty();
    fields_give_numbers(e, m, e, n);
    assert(e + m + e =~= m);
}

/// How a value of a relation is shown: yes and no as words, an integer as its
/// numeral, a text as it is, null as nothing, and the values of an array with
/// commas between them.
pub proof fn relation_values_are_shown(s: Seq<char>, b: bool, a: Seq<JsonV>, x: JsonV)
    ensures
        settings::link_text(JsonV::Text(s)) == s,
        settings::link_text(JsonV::Bool(b)) == (if b {
            "true"@
        } else {
            "false"@
        }),
        settings::link_text(JsonV::Null) == Seq::<char>::empty(),
        settings::link_text(JsonV::Array(seq![])) == Seq::<char>::empty(),
        settings::link_text(JsonV::Array(seq![x])) == settings::link_text(x),
        a.len() > 0 ==> settings::link_text(JsonV::Array(a.push(x))) == settings::link_text(
            JsonV::Array(a),
        ) + seq![','] + settings::link_text(x),
{
    reveal_strlit("");
    reveal_strlit(",");
    assert(","@ =~= seq![',']);
    assert(""@ =~= Seq::<char>::empty());
    let none = Seq::<JsonV>::empty();
    assert(settings::link_texts(none) =~= seq![]);
    let one = seq![x];
    assert(one.drop_last() =~= none);
    assert(one.last() == x);
    assert(settings::link_texts(one) =~= seq![settings::link_text(x)]);
    draft_laws::text_of_one(settings::link_text(x), ","@);
    let more = a.push(x);
    assert(more.drop_last() =~= a);
    assert(more.last() == x);
    if a.len() > 0 {
        link_texts_len(a);
        draft_laws::text_of_more(settings::link_texts(a), settings::link_text(x), ","@);
    }
}

proof fn link_texts_len(a: Seq<JsonV>)
    ensures
        settings::link_texts(a).len() == a.len(),
    decreases a.len(),
{
    if a.len() > 0 {
        link_texts_len(a.drop_last());
    }
}

/// The members of what a row of colours is saved as.
proof fn row_members(row: VcRowV, vt: Seq<char>)
    requires
        row.color.len() > 0,
    ensures
        settings::vc_json(row, vt) matches Some(j) && {
            &&& json::member(j, "color"@) == Some(JsonV::Text(row.color))
            &&& json::member(j, "max"@) == Some(
                if vt == "enum"@ {
                    JsonV::Null
                } else {
                    settings::num_read(row.max)
                },
            )
            &&& json::member(j, "min"@) == Some(
                if vt == "enum"@ {
                    JsonV::Null
                } else {
                    settings::num_read(row.min)
                },
            )
            &&& json::member(j, "value"@) == Some(
                if vt == "enum"@ && row.value.len() > 0 {
                    JsonV::Text(row.value)
                } else {
                    JsonV::Null
                },
            )
        },
{
    let o = settings::vc_json(row, vt)->Some_0->Object_0;
    reveal_strlit("color");
    reveal_strlit("max");
    reveal_strlit("min");
    reveal_strlit("value");
    assert("color"@[0] == 'c' && "value"@[0] == 'v');
    assert("max"@[1] == 'a' && "min"@[1] == 'i');
    assert("max"@.len() == 3 && "min"@.len() == 3 && "color"@.len() == 5 && "value"@.len() == 5);
    json::key_index_is(o, "color"@, 0);
    json::key_index_is(o, "max"@, 1);
    json::key_index_is(o, "min"@, 2);
    json::key_index_is(o, "value"@, 3);
}

/// Whether a field holds an integer, or is left empty.
pub open spec fn field_holds(s: Seq<char>, n: Option<int>) -> bool {
    match n {
        Some(n) => s == decimal::numeral(n) && -0x20_0000_0000_0000 < n < 0x20_0000_0000_0000,
        None => s.len() == 0,
    }
}

/// A row of colours of a label with numbers is saved as the range whose ends
/// were typed; an empty field leaves an end open. A row without a colour is not
/// saved.
pub proof fn rows_are_saved_as_ranges(
    row: VcRowV,
    vt: Seq<char>,
    lo: Option<int>,
    hi: Option<int>,
)
    requires
        vt != "enum"@,
        field_holds(row.min, lo),
        field_holds(row.max, hi),
    ensures
        row.color.len() == 0 ==> settings::vc_json(row, vt) is None,
        row.color.len() > 0 ==> (settings::vc_json(row, vt) matches Some(rule)
            && query_laws::is_range(rule, lo, hi, row.color)),
{
    if row.color.len() > 0 {
        row_members(row, vt);
        let e = Seq::<char>::empty();
        if let Some(n) = lo {
            numerals_are_bare(n);
            fields_give_numbers(e, row.min, e, n);
        } else {
            fields_give_numbers(e, row.min, e, 0);
        }
        if let Some(n) = hi {
            numerals_are_bare(n);
            fields_give_numbers(e, row.max, e, n);
        } else {
            fields_give_numbers(e, row.max, e, 0);
        }
        assert(e + row.min + e =~= row.min);
        assert(e + row.max + e =~= row.max);
    }
}

/// A row of colours of a label with choices is saved as the rule for its choice
/// alone, whatever its ends.
pub proof fn rows_are_saved_as_choices(row: VcRowV)
    ensures
        row.color.len() == 0 ==> settings::vc_json(row, "enum"@) is None,
        row.color.len() > 0 && row.value.len() > 0 ==> (settings::vc_json(
            row,
            "enum"@,
        ) matches Some(rule) && query_laws::is_exact(rule, JsonV::Text(row.value), row.color)),
{
    if row.color.len() > 0 {
        row_members(row, "enum"@);
    }
}

/// A range of integers below the limit opens with its ends in the fields, an
/// open end with an empty field; its colour, and the choice of an exact rule,
/// open as they are.
pub proof fn ranges_are_opened(
    i: int,
    rule: JsonV,
    lo: Option<int>,
    hi: Option<int>,
    color: Seq<char>,
    choice: Seq<char>,
)
    requires
        0 <= i <= usize::MAX,
        json::member(rule, "color"@) == Some(JsonV::Text(color)),
        lo matches Some(n) ==> json::member(rule, "min"@) == Some(
            JsonV::Number(number::int_number(n as i64)),
        ) && -9_000_000_000_000_000 < n < 9_000_000_000_000_000,
        hi matches Some(n) ==> json::member(rule, "max"@) == Some(
            JsonV::Number(number::int_number(n as i64)),
        ) && -9_000_000_000_000_000 < n < 9_000_000_000_000_000,
        lo is None ==> json::member(rule, "min"@) is None || json::member(rule, "min"@) == Some(
            JsonV::Null,
        ),
        hi is None ==> json::member(rule, "max"@) is None || json::member(rule, "max"@) == Some(
            JsonV::Null,
        ),
    ensures
        settings::vc_row_of(i, rule).id == i,
        settings::vc_row_of(i, rule).color == color,
        lo matches Some(n) ==> settings::vc_row_of(i, rule).min == decimal::numeral(n),
        hi matches Some(n) ==> settings::vc_row_of(i, rule).max == decimal::numeral(n),
        lo is None ==> settings::vc_row_of(i, rule).min.len() == 0,
        hi is None ==> settings::vc_row_of(i, rule).max.len() == 0,
        json::member(rule, "value"@) == Some(JsonV::Text(choice)) ==> settings::vc_row_of(
            i,
            rule,
        ).value == choice,
        json::member(rule, "value"@) is None ==> settings::vc_row_of(i, rule).value.len() == 0,
{
    reveal_strlit("");
    if let Some(n) = lo {
        integers_are_shown(number::int_number(n as i64), n);
    }
    if let Some(n) = hi {
        integers_are_shown(number::int_number(n as i64), n);
    }
}

/// Rows of colours are saved in their order, each for itself.
pub proof fn rows_are_saved_in_order(
    x: Seq<VcRowV>,
    y: Seq<VcRowV>,
    row: VcRowV,
    vt: Seq<char>,
)
    ensures
        settings::colors_of(x + y, vt) == settings::colors_of(x, vt) + settings::colors_of(y, vt),
        settings::colors_of(seq![row], vt) == (match settings::vc_json(row, vt) {
            Some(j) => seq![j],
            None => Seq::<JsonV>::empty(),
        }),
    decreases y.len(),
{
    let one = seq![row];
    assert(one.last() == row);
    assert(one.drop_last() =~= seq![]);
    assert(settings::colors_of(one.drop_last(), vt) =~= seq![]);
    assert(settings::colors_of(one, vt) =~= (match settings::vc_json(row, vt) {
        Some(j) => seq![j],
        None => Seq::<JsonV>::empty(),
    }));
    if y.len() == 0 {
        assert(x + y =~= x);
        assert(settings::colors_of(x, vt) + settings::colors_of(y, vt) =~= settings::colors_of(x, vt));
    } else {
        rows_are_saved_in_order(x, y.drop_last(), row, vt);
        assert((x + y).drop_last() =~= x + y.drop_last());
        assert((x + y).last() == y.last());
        assert(settings::colors_of(x + y, vt) =~= settings::colors_of(x, vt) + settings::colors_of(
            y,
            vt,
        ));
    }
}

/// Moving a row up exchanges it with the one above it, and moving it down with
/// the one below it; the first does not move up and the last not down. Nothing
/// else moves.
pub proof fn rows_change_places(a: Seq<VcRowV>, x: VcRowV, y: VcRowV, b: Seq<VcRowV>)
    requires
        forall|k: int| 0 <= k < a.len() ==> (#[trigger] a[k]).id != x.id && a[k].id != y.id,
        x.id != y.id,
    ensures
        settings::moved_up(a + seq![x, y] + b, y.id) == a + seq![y, x] + b,
        settings::moved_down(a + seq![x, y] + b, x.id) == a + seq![y, x] + b,
        settings::moved_up(seq![x, y] + b, x.id) == seq![x, y] + b,
        settings::moved_down(a + seq![x, y], y.id) == a + seq![x, y],
{
    let s = a + seq![x, y] + b;
    let n = a.len() as int;
    assert(s[n] == x && s[n + 1] == y);
    assert forall|k: int| 0 <= k < n implies (#[trigger] s[k]).id != x.id && s[k].id != y.id by {
        assert(s[k] == a[k]);
    }
    settings::row_at_is(s, x.id, n);
    settings::row_at_is(s, y.id, n + 1);
    assert(settings::moved_up(s, y.id) =~= a + seq![y, x] + b);
    assert(settings::moved_down(s, x.id) =~= a + seq![y, x] + b);
    let t = seq![x, y] + b;
    assert(t[0] == x);
    settings::row_at_is(t, x.id, 0);
    let u = a + seq![x, y];
    assert(u[n] == x && u[n + 1] == y);
    assert forall|k: int| 0 <= k < n + 1 implies (#[trigger] u[k]).id != y.id by {
        if k < n {
            assert(u[k] == a[k]);
        }
    }
    settings::row_at_is(u, y.id, n + 1);
}

/// Taking out rows of an id leaves the others in their order.
pub proof fn rows_are_taken_out(
    x: Seq<VcRowV>,
    y: Seq<VcRowV>,
    row: VcRowV,
    id: usize,
    xs: Seq<LinkRowV>,
    ys: Seq<LinkRowV>,
    link: LinkRowV,
)
    ensures
        settings::without_row(x + y, id) == settings::without_row(x, id) + settings::without_row(
            y,
            id,
        ),
        settings::without_row(seq![row], id) == (if row.id == id {
            Seq::<VcRowV>::empty()
        } else {
            seq![row]
        }),
        settings::without_link(xs + ys, id) == settings::without_link(xs, id)
            + settings::without_link(ys, id),
        settings::without_link(seq![link], id) == (if link.id == id {
            Seq::<LinkRowV>::empty()
        } else {
            seq![link]
        }),
    decreases y.len() + ys.len(),
{
    let one = seq![row];
    assert(one.last() == row);
    assert(one.drop_last() =~= seq![]);
    assert(settings::without_row(one.drop_last(), id) =~= seq![]);
    assert(row.id == id || settings::without_row(one, id) =~= seq![row]);
    let two = seq![link];
    assert(two.last() == link);
    assert(two.drop_last() =~= seq![]);
    assert(settings::without_link(two.drop_last(), id) =~= seq![]);
    assert(link.id == id || settings::without_link(two, id) =~= seq![link]);
    let yd = if y.len() > 0 {
        y.drop_last()
    } else {
        y
    };
    let ysd = if ys.len() > 0 {
        ys.drop_last()
    } else {
        ys
    };
    if y.len() + ys.len() > 0 {
        rows_are_taken_out(x, yd, row, id, xs, ysd, link);
    }
    if y.len() == 0 {
        assert(x + y =~= x);
        assert(settings::without_row(x, id) + settings::without_row(y, id) =~= settings::without_row(
            x,
            id,
        ));
    } else {
        assert((x + y).drop_last() =~= x + y.drop_last());
        assert((x + y).last() == y.last());
        assert(settings::without_row(x + y, id) =~= settings::without_row(x, id)
            + settings::without_row(y, id));
    }
    if ys.len() == 0 {
        assert(xs + ys =~= xs);
        assert(settings::without_link(xs, id) + settings::without_link(ys, id)
            =~= settings::without_link(xs, id));
    } else {
        assert((xs + ys).drop_last() =~= xs + ys.drop_last());
        assert((xs + ys).last() == ys.last());
        assert(settings::without_link(xs + ys, id) =~= settings::without_link(xs, id)
            + settings::without_link(ys, id));
    }
}

/// A relation is saved with its kind and its other end, and on each side the
/// value that was typed for the label there: null for a label without values,
/// the value of its type for another, and the text where the label is not
/// known.
pub proof fn relations_are_saved(
    row: LinkRowV,
    other: Option<LabelMeta>,
    own: Option<LabelMeta>,
)
    ensures
        ({
            let j = settings::link_json(row, other, own);
            &&& json::member(j, "kind"@) == Some(JsonV::Text(row.kind))
            &&& json::member(j, "other"@) == Some(JsonV::Text(row.other))
            &&& other matches Some(m) ==> json::member(j, "otherValue"@) == Some(
                if m.value_type@ == "null"@ {
                    JsonV::Null
                } else {
                    settings::link_value(row.other_value, m.value_type@, m.multi)
                },
            )
            &&& own matches Some(m) ==> json::member(j, "ownValue"@) == Some(
                if m.value_type@ == "null"@ {
                    JsonV::Null
                } else {
                    settings::link_value(row.own_value, m.value_type@, m.multi)
                },
            )
            &&& other is None ==> json::member(j, "otherValue"@) == Some(
                if text::all_white(row.other_value) {
                    JsonV::Null
                } else {
                    JsonV::Text(text::trimmed(row.other_value))
                },
            )
            &&& own is None ==> json::member(j, "ownValue"@) == Some(
                if text::all_white(row.own_value) {
                    JsonV::Null
                } else {
                    JsonV::Text(text::trimmed(row.own_value))
                },
            )
        }),
{
    let o = settings::link_json(row, other, own)->Object_0;
    reveal_strlit("");
    reveal_strlit("kind");
    reveal_strlit("other");
    reveal_strlit("otherValue");
    reveal_strlit("ownValue");
    assert("kind"@.len() == 4 && "other"@.len() == 5);
    assert("otherValue"@.len() == 10 && "ownValue"@.len() == 8);
    json::key_index_is(o, "kind"@, 0);
    json::key_index_is(o, "other"@, 1);
    json::key_index_is(o, "otherValue"@, 2);
    json::key_index_is(o, "ownValue"@, 3);
    draft_laws::types_apart();
    text::blank_is_white(row.other_value);
    text::blank_is_white(row.own_value);
}

/// Relations are saved in their order, those without another end left out, each
/// with what the first label of the name of its end is.
pub proof fn relations_are_saved_in_order(
    x: Seq<LinkRowV>,
    row: LinkRowV,
    metas: Seq<LabelMeta>,
    own: Option<LabelMeta>,
    i: int,
)
    ensures
        settings::links_of(seq![], metas, own) == Seq::<JsonV>::empty(),
        row.other.len() == 0 ==> settings::links_of(x.push(row), metas, own) == settings::links_of(
            x,
            metas,
            own,
        ),
        row.other.len() > 0 && 0 <= i < metas.len() && metas[i].name@ == row.other && (forall|j: int|
            0 <= j < i ==> (#[trigger] metas[j]).name@ != row.other) ==> settings::links_of(
            x.push(row),
            metas,
            own,
        ) == settings::links_of(x, metas, own).push(settings::link_json(row, Some(metas[i]), own)),
        row.other.len() > 0 && (forall|j: int|
            0 <= j < metas.len() ==> (#[trigger] metas[j]).name@ != row.other)
            ==> settings::links_of(x.push(row), metas, own) == settings::links_of(
            x,
            metas,
            own,
        ).push(settings::link_json(row, None, own)),
{
    assert(settings::links_of(seq![], metas, own) =~= seq![]);
    assert(x.push(row).drop_last() =~= x);
    assert(x.push(row).last() == row);
    if 0 <= i < metas.len() && metas[i].name@ == row.other && (forall|j: int|
        0 <= j < i ==> (#[trigger] metas[j]).name@ != row.other) {
        meta_is(metas, i, row.other);
    }
    if forall|j: int| 0 <= j < metas.len() ==> (#[trigger] metas[j]).name@ != row.other {
        meta_is(metas, metas.len() as int, row.other);
    }
}

proof fn meta_is(metas: Seq<LabelMeta>, i: int, name: Seq<char>)
    requires
        0 <= i <= metas.len(),
        i < metas.len() ==> metas[i].name@ == name,
        forall|j: int| 0 <= j < i ==> (#[trigger] metas[j]).name@ != name,
    ensures
        settings::named_meta(metas, name) == (if i < metas.len() {
            Some(metas[i])
        } else {
            None
        }),
    decreases i,
{
    if i > 0 {
        let t = metas.skip(1);
        assert(metas[0].name@ != name);
        if i < metas.len() {
            assert(t[i - 1] == metas[i]);
        }
        assert forall|j: int| 0 <= j < i - 1 implies (#[trigger] t[j]).name@ != name by {
            assert(t[j] == metas[j + 1]);
        }
        meta_is(t, i - 1, name);
    }
}

/// A relation is opened with its kind, its other end and its values as they are
/// shown; without a kind it inherits, and without another end it has no row.
pub proof fn relations_are_opened(
    i: int,
    link: JsonV,
    kind: Seq<char>,
    other: Seq<char>,
    v: JsonV,
    w: JsonV,
)
    requires
        0 <= i <= usize::MAX,
    ensures
        json::member(link, "other"@) is None ==> settings::link_row_of(i, link) is None,
        json::member(link, "other"@) == Some(JsonV::Text(other)) ==> (settings::link_row_of(
            i,
            link,
        ) matches Some(r) && {
            &&& r.id == i
            &&& r.other == other
            &&& json::member(link, "kind"@) == Some(JsonV::Text(kind)) ==> r.kind == kind
            &&& json::member(link, "kind"@) is None ==> r.kind == "inherit"@
            &&& json::member(link, "otherValue"@) == Some(v) ==> r.other_value
                == settings::link_text(v)
            &&& json::member(link, "ownValue"@) == Some(w) ==> r.own_value == settings::link_text(w)
            &&& json::member(link, "otherValue"@) is None ==> r.other_value.len() == 0
            &&& json::member(link, "ownValue"@) is None ==> r.own_value.len() == 0
        }),
{
    reveal_strlit("");
}

/// Owners and maintainers may change settings; of the two labels that every
/// workspace has, the title and the colour alone.
pub proof fn rights_are_those_of_roles(role: Seq<char>, name: Seq<char>, vt: Seq<char>, may: bool)
    ensures
        settings::manages(role) == (role == "owner"@ || role == "maintainer"@),
        ({
            let r = settings::rights_of(name, vt, may);
            &&& r.basic == may
            &&& !may ==> !r.all
            &&& name == "Task"@ || name == "Bug"@ ==> !r.all
            &&& may && name != "Task"@ && name != "Bug"@ ==> r.all
            &&& r.numeric == (vt == "integer"@ || vt == "float"@)
            &&& r.value_colors == (vt == "integer"@ || vt == "float"@ || vt == "enum"@)
        }),
{
}

/// The labels that a relation may lead to are all but the label itself, in
/// their order.
pub proof fn relations_lead_elsewhere(x: Seq<LabelSchema>, s: LabelSchema, own: Seq<char>)
    ensures
        settings::other_schemas(seq![], own) == Seq::<LabelSchema>::empty(),
        settings::other_schemas(x.push(s), own) == (if s.name@ == own {
            settings::other_schemas(x, own)
        } else {
            settings::other_schemas(x, own).push(s)
        }),
{
    assert(settings::other_schemas(seq![], own) =~= seq![]);
    assert(x.push(s).drop_last() =~= x);
    assert(x.push(s).last() == s);
}

/// The address of an account is that of the first member with it, or the
/// account itself where there is none.
pub proof fn addresses_are_those_of_members(members: Seq<Member>, id: Seq<char>, i: int)
    requires
        0 <= i <= members.len(),
        i < members.len() ==> members[i].account_id@ == id,
        forall|j: int| 0 <= j < i ==> (#[trigger] members[j]).account_id@ != id,
    ensures
        settings::owner_email(members, id) == (if i < members.len() {
            members[i].email@
        } else {
            id
        }),
    decreases i,
{
    if i > 0 {
        let t = members.skip(1);
        assert(members[0].account_id@ != id);
        if i < members.len() {
            assert(t[i - 1] == members[i]);
        }
        assert forall|j: int| 0 <= j < i - 1 implies (#[trigger] t[j]).account_id@ != id by {
            assert(t[j] == members[j + 1]);
        }
        addresses_are_those_of_members(t, id, i - 1);
    }
}

/// An attribute is sent without the white space around it, and a blank one is
/// none.
pub proof fn attributes_are_bare(a: Seq<char>, m: Seq<char>, b: Seq<char>)
    requires
        text::all_white(a),
        text::all_white(b),
        m.len() > 0 ==> !text::is_white(m[0]) && !text::is_white(m.last()),
    ensures
        settings::attr_of(a + m + b) == (if m.len() == 0 {
            None
        } else {
            Some(m)
        }),
{
    text::trimmed_is_the_middle(a, m, b);
}

/// Each colour of a label opens as a row, and each relation with another end, in
/// their order, numbered by their places; a value that is no list opens none.
pub proof fn lists_are_opened(a: Seq<JsonV>, x: JsonV, j: JsonV)
    ensures
        settings::vc_rows_of(JsonV::Array(a.push(x))) == settings::vc_rows_of(JsonV::Array(a)).push(
            settings::vc_row_of(a.len() as int, x),
        ),
        settings::vc_rows_of(JsonV::Array(seq![])).len() == 0,
        settings::link_rows_of(JsonV::Array(a.push(x))) == (match settings::link_row_of(
            a.len() as int,
            x,
        ) {
            Some(row) => settings::link_rows_of(JsonV::Array(a)).push(row),
            None => settings::link_rows_of(JsonV::Array(a)),
        }),
        settings::link_rows_of(JsonV::Array(seq![])).len() == 0,
        !(j is Array) ==> settings::vc_rows_of(j).len() == 0 && settings::link_rows_of(j).len() == 0,
{
    let all = a.push(x);
    let p = settings::vc_rows_of(JsonV::Array(all));
    let q = settings::vc_rows_of(JsonV::Array(a));
    assert forall|k: int| 0 <= k < q.len() implies p[k] == q[k] by {
        assert(all[k] == a[k]);
    }
    assert(p =~= q.push(settings::vc_row_of(a.len() as int, x)));
    rows_upto_prefix(a, x, a.len() as int);
    assert(all[a.len() as int] == x);
}

proof fn rows_upto_prefix(a: Seq<JsonV>, x: JsonV, n: int)
    requires
        0 <= n <= a.len(),
    ensures
        settings::link_rows_upto(a.push(x), n) == settings::link_rows_upto(a, n),
    decreases n,
{
    if n > 0 {
        rows_upto_prefix(a, x, n - 1);
        assert(a.push(x)[n - 1] == a[n - 1]);
    } else {
        assert(settings::link_rows_upto(a.push(x), n) =~= settings::link_rows_upto(a, n));
    }
}

/// The attributes of a label are sent with all six keys: what is not given is
/// null.
pub proof fn attributes_are_sent_whole(
    multi: bool,
    format: Option<Seq<char>>,
    symbol: Option<Seq<char>>,
    unit: Option<Seq<char>>,
    default: JsonV,
    links: JsonV,
)
    ensures
        ({
            let j = settings::attrs_json(multi, format, symbol, unit, default, links);
            &&& j is Object && j->Object_0.len() == 6
            &&& json::member(j, "multi"@) == Some(JsonV::Bool(multi))
            &&& json::member(j, "format"@) == Some(
                match format {
                    Some(s) => JsonV::Text(s),
                    None => JsonV::Null,
                },
            )
            &&& json::member(j, "currencySymbol"@) == Some(
                match symbol {
                    Some(s) => JsonV::Text(s),
                    None => JsonV::Null,
                },
            )
            &&& json::member(j, "unit"@) == Some(
                match unit {
                    Some(s) => JsonV::Text(s),
                    None => JsonV::Null,
                },
            )
            &&& json::member(j, "defaultValue"@) == Some(default)
            &&& json::member(j, "links"@) == Some(links)
        }),
{
    let o = settings::attrs_json(multi, format, symbol, unit, default, links)->Object_0;
    reveal_strlit("multi");
    reveal_strlit("format");
    reveal_strlit("currencySymbol");
    reveal_strlit("unit");
    reveal_strlit("defaultValue");
    reveal_strlit("links");
    assert("multi"@.len() == 5 && "multi"@[0] == 'm' && "links"@.len() == 5 && "links"@[0] == 'l');
    assert("format"@.len() == 6 && "currencySymbol"@.len() == 14 && "unit"@.len() == 4
        && "defaultValue"@.len() == 12);
    json::key_index_is(o, "multi"@, 0);
    json::key_index_is(o, "format"@, 1);
    json::key_index_is(o, "currencySymbol"@, 2);
    json::key_index_is(o, "unit"@, 3);
    json::key_index_is(o, "defaultValue"@, 4);
    json::key_index_is(o, "links"@, 5);
}

/// The label that a relation leads to has values where the first of its name is
/// of another type than the one without values.
pub proof fn relations_lead_to_labels(metas: Seq<LabelMeta>, name: Seq<char>, i: int)
    requires
        0 <= i <= metas.len(),
        i < metas.len() ==> metas[i].name@ == name,
        forall|j: int| 0 <= j < i ==> (#[trigger] metas[j]).name@ != name,
    ensures
        settings::valued_meta(metas, name) == (if i < metas.len() && metas[i].value_type@ != "null"@ {
            Some(metas[i])
        } else {
            None
        }),
{
    meta_is(metas, i, name);
}

/// The address of a workspace is sent where it was changed, and not where it is
/// the same but for white space around it.
pub proof fn changed_addresses_are_sent(
    a: Seq<char>,
    m: Seq<char>,
    b: Seq<char>,
    current: Seq<char>,
)
    requires
        text::all_white(a),
        text::all_white(b),
        m.len() > 0 ==> !text::is_white(m[0]) && !text::is_white(m.last()),
    ensures
        m == current ==> settings::slug_sent(a + m + b, current) is None,
        m != current ==> settings::slug_sent(a + m + b, current) == Some(a + m + b),
{
    text::trimmed_is_the_middle(a, m, b);
}

/// A new label is sent with what its type has: several values for choices, a
/// format for times, a symbol and a unit for amounts; what was typed for another
/// type is not sent.
pub proof fn new_labels_have_what_their_types_have(vt: Seq<char>, f: settings::AttrFields)
    ensures
        ({
            let j = settings::new_attrs(vt, f);
            let time = vt == "date"@ || vt == "time"@ || vt == "datetime"@;
            &&& json::member(j, "multi"@) == Some(JsonV::Bool(vt == "enum"@ && f.multi))
            &&& !time ==> json::member(j, "format"@) == Some(JsonV::Null)
            &&& time && text::all_white(f.format@) ==> json::member(j, "format"@) == Some(
                JsonV::Null,
            )
            &&& time && !text::all_white(f.format@) ==> json::member(j, "format"@) == Some(
                JsonV::Text(text::trimmed(f.format@)),
            )
            &&& vt != "currency"@ ==> json::member(j, "currencySymbol"@) == Some(JsonV::Null)
                && json::member(j, "unit"@) == Some(JsonV::Null)
            &&& vt == "currency"@ && !text::all_white(f.symbol@) ==> json::member(
                j,
                "currencySymbol"@,
            ) == Some(JsonV::Text(text::trimmed(f.symbol@)))
            &&& vt == "currency"@ && !text::all_white(f.unit@) ==> json::member(j, "unit"@) == Some(
                JsonV::Text(text::trimmed(f.unit@)),
            )
            &&& json::member(j, "defaultValue"@) == Some(f.default@)
            &&& json::member(j, "links"@) == Some(JsonV::Array(seq![]))
        }),
{
    draft_laws::types_apart();
    text::blank_is_white(f.format@);
    text::blank_is_white(f.symbol@);
    text::blank_is_white(f.unit@);
    let time = vt == "date"@ || vt == "time"@ || vt == "datetime"@;
    let money = vt == "currency"@;
    attributes_are_sent_whole(
        vt == "enum"@ && f.multi,
        if time {
            settings::attr_of(f.format@)
        } else {
            None
        },
        if money {
            settings::attr_of(f.symbol@)
        } else {
            None
        },
        if money {
            settings::attr_of(f.unit@)
        } else {
            None
        },
        f.default@,
        JsonV::Array(seq![]),
    );
}

} // verus!
