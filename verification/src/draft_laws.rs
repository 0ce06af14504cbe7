//! What a draft of a label gives, stated on what was typed, ticked or answered.

use vstd::prelude::*;

use crate::components;
use crate::decimal;
use crate::draft;
use crate::draft::{DraftControl, DraftLabel};
use crate::graphql_client::LabelSchema;
use crate::json::JsonV;
use crate::layout_laws;
use crate::number;
use crate::number::NumV;
use crate::text;

verus! {

/// The value that a draft gives.
pub open spec fn gives(d: DraftLabel, v: JsonV) -> bool {
    draft::draft_value(d, draft::draft_number(d)) == Some(v)
}

/// Whether a draft gives no value.
pub open spec fn gives_nothing(d: DraftLabel) -> bool {
    draft::draft_value(d, draft::draft_number(d)) is None
}

/// Whether a value type is one of numbers.
pub open spec fn numeric(vt: Seq<char>) -> bool {
    vt == "integer"@ || vt == "float"@ || vt == "currency"@
}

/// The value types are told apart by their lengths and first letters.
pub proof fn types_apart()
    ensures
        "null"@.len() == 4 && "null"@[0] == 'n',
        "enum"@.len() == 4 && "enum"@[0] == 'e',
        "boolean"@.len() == 7 && "boolean"@[0] == 'b',
        "integer"@.len() == 7 && "integer"@[0] == 'i',
        "float"@.len() == 5 && "float"@[0] == 'f',
        "date"@.len() == 4 && "date"@[0] == 'd',
        "time"@.len() == 4 && "time"@[0] == 't',
        "datetime"@.len() == 8 && "datetime"@[0] == 'd',
        "currency"@.len() == 8 && "currency"@[0] == 'c',
        "email"@.len() == 5 && "email"@[0] == 'e',
        "account"@.len() == 7 && "account"@[0] == 'a',
        "string"@.len() == 6 && "string"@[0] == 's',
{
    reveal_strlit("null");
    reveal_strlit("enum");
    reveal_strlit("boolean");
    reveal_strlit("integer");
    reveal_strlit("float");
    reveal_strlit("date");
    reveal_strlit("time");
    reveal_strlit("datetime");
    reveal_strlit("currency");
    reveal_strlit("email");
    reveal_strlit("account");
    reveal_strlit("string");
}

/// A draft of numbers gives nothing or a number, and the number that was read.
pub proof fn numeric_drafts_give_numbers(d: DraftLabel, n: Option<NumV>)
    requires
        numeric(d.value_type@),
    ensures
        n is None ==> draft::draft_value(d, n) is None,
        n is Some ==> draft::draft_value(d, n) == Some(JsonV::Number(n->Some_0)),
{
    types_apart();
}

/// A draft of integers gives the integer whose numeral was typed, with white
/// space around it or not, and a plus sign or zeros in front or not.
pub proof fn integers_are_given(
    d: DraftLabel,
    a: Seq<char>,
    m: Seq<char>,
    b: Seq<char>,
    n: int,
    k: int,
)
    requires
        d.value_type@ == "integer"@,
        d.text@ == a + m + b,
        text::all_white(a),
        text::all_white(b),
        i64::MIN <= n <= i64::MAX,
        m == decimal::numeral(n) || n >= 0 && k >= 0 && (m == seq!['+'] + decimal::numeral(n) || m
            == decimal::zeros(k) + decimal::numeral(n)),
    ensures
        exists|x: NumV| #[trigger] gives(d, JsonV::Number(x)) && number::is_whole(x, n),
{
    types_apart();
    let p: nat = if n < 0 {
        (-n) as nat
    } else {
        n as nat
    };
    decimal::numeral_reads_back(n);
    decimal::value_of_decimal(p);
    let ds = decimal::decimal(p);
    assert(text::is_digit(ds[0]));
    assert(text::is_digit(ds.last()));
    if n >= 0 && m == seq!['+'] + ds {
        assert(m.skip(1) =~= ds);
        assert(decimal::int_of(m) == Some(n));
    } else if n >= 0 && k >= 0 && m == decimal::zeros(k) + ds {
        decimal::value_after_zeros(k, ds);
        assert(text::is_digit(m[0]));
        assert forall|i: int| 0 <= i < m.len() implies text::is_digit(#[trigger] m[i]) by {
            if i >= k {
                assert(m[i] == ds[i - k]);
            }
        }
        assert(decimal::int_of(m) == Some(n));
    }
    assert(m.last() == ds.last());
    assert(!text::is_white(m[0]) && !text::is_white(m.last()));
    text::trimmed_is_the_middle(a, m, b);
    let x = number::int_number(n as i64);
    assert(draft::draft_number(d) == Some(x));
    assert(gives(d, JsonV::Number(x)));
}

/// Whether a character of a text is neither a digit nor a sign in front.
pub open spec fn is_stray(m: Seq<char>, i: int) -> bool {
    0 <= i < m.len() && !('0' <= m[i] <= '9') && (i > 0 || m[i] != '-' && m[i] != '+')
}

/// A draft of integers gives nothing where what was typed is blank, or has,
/// white space around it aside, a sign alone, a character that is neither a
/// digit nor a sign in front, or spells an integer of more than 64 bits.
pub proof fn other_texts_are_no_integers(
    d: DraftLabel,
    a: Seq<char>,
    m: Seq<char>,
    b: Seq<char>,
    n: int,
    i: int,
)
    requires
        d.value_type@ == "integer"@,
        d.text@ == a + m + b,
        text::all_white(a),
        text::all_white(b),
        m.len() > 0 ==> !text::is_white(m[0]) && !text::is_white(m.last()),
        m.len() == 0 || m == seq!['-'] || m == seq!['+'] || is_stray(m, i) || m == decimal::numeral(n)
            && !(i64::MIN <= n <= i64::MAX),
    ensures
        gives_nothing(d),
{
    types_apart();
    text::trimmed_is_the_middle(a, m, b);
    if is_stray(m, i) {
        if decimal::int_of(m) is Some {
            if m[0] == '-' || m[0] == '+' {
                assert(m.skip(1)[i - 1] == m[i]);
                assert(text::is_digit(m.skip(1)[i - 1]));
            } else {
                assert(text::is_digit(m[i]));
            }
        }
    } else if m == decimal::numeral(n) && !(i64::MIN <= n <= i64::MAX) {
        let p: nat = if n < 0 {
            (-n) as nat
        } else {
            n as nat
        };
        decimal::value_of_decimal(p);
        assert(text::is_digit(decimal::decimal(p)[0]));
        if n < 0 {
            assert(m.skip(1) =~= decimal::decimal(p));
        }
    } else if m == seq!['-'] || m == seq!['+'] {
        assert(m.skip(1).len() == 0);
    }
    assert(decimal::int_of(m) is None);
}

/// A draft of floats or amounts gives the double that was typed, white space
/// around it aside, and nothing where that spells none or is empty.
pub proof fn doubles_are_given(d: DraftLabel, a: Seq<char>, m: Seq<char>, b: Seq<char>)
    requires
        d.value_type@ == "float"@ || d.value_type@ == "currency"@,
        d.text@ == a + m + b,
        text::all_white(a),
        text::all_white(b),
        m.len() > 0 ==> !text::is_white(m[0]) && !text::is_white(m.last()),
    ensures
        m.len() == 0 || components::float_read(m) is None ==> gives_nothing(d),
        m.len() > 0 && components::float_read(m) is Some ==> gives(
            d,
            JsonV::Number(components::float_read(m)->Some_0),
        ),
{
    types_apart();
    text::trimmed_is_the_middle(a, m, b);
}

/// A label without values is written as null where it is ticked, and not at all
/// where it is not.
pub proof fn marks_are_given(d: DraftLabel)
    requires
        d.value_type@ == "null"@,
    ensures
        d.flag == Some(true) ==> gives(d, JsonV::Null),
        d.flag != Some(true) ==> gives_nothing(d),
{
    types_apart();
}

/// A draft of yes or no gives the answer, and nothing before there is one.
pub proof fn answers_are_given(d: DraftLabel, b: bool)
    requires
        d.value_type@ == "boolean"@,
    ensures
        d.flag == Some(b) ==> gives(d, JsonV::Bool(b)),
        d.flag is None ==> gives_nothing(d),
{
    types_apart();
}

/// A draft of one choice gives the choice as it is, and nothing where none is
/// made.
pub proof fn choices_are_given(d: DraftLabel)
    requires
        d.value_type@ == "enum"@,
        !d.multi,
    ensures
        d.text@.len() > 0 ==> gives(d, JsonV::Text(d.text@)),
        d.text@.len() == 0 ==> gives_nothing(d),
{
    types_apart();
}

/// Whether a value is the array of some texts.
pub open spec fn lists(v: JsonV, ts: Seq<Seq<char>>) -> bool {
    v matches JsonV::Array(a) && a.len() == ts.len() && forall|i: int|
        0 <= i < ts.len() ==> #[trigger] a[i] == JsonV::Text(ts[i])
}

/// A draft of several choices gives what is ticked, in its order, and nothing
/// where nothing is.
pub proof fn several_choices_are_given(d: DraftLabel)
    requires
        d.value_type@ == "enum"@,
        d.multi,
    ensures
        d.many@.len() == 0 ==> gives_nothing(d),
        d.many@.len() > 0 ==> exists|v: JsonV| #[trigger]
            gives(d, v) && lists(v, text::contents(d.many@)),
{
    types_apart();
    let ts = text::contents(d.many@);
    if ts.len() > 0 {
        assert(gives(d, crate::json::texts(ts)));
    }
}

/// What is left of a list without its blank texts, and with the others trimmed:
/// lists are handled part by part, a blank text leaves nothing and another its
/// middle.
pub proof fn blank_texts_are_left_out(
    x: Seq<Seq<char>>,
    y: Seq<Seq<char>>,
    a: Seq<char>,
    m: Seq<char>,
    b: Seq<char>,
)
    requires
        text::all_white(a),
        text::all_white(b),
        m.len() > 0 ==> !text::is_white(m[0]) && !text::is_white(m.last()),
    ensures
        components::nonblank(x + y) == components::nonblank(x) + components::nonblank(y),
        components::nonblank(seq![a + m + b]) == (if m.len() == 0 {
            Seq::<Seq<char>>::empty()
        } else {
            seq![m]
        }),
        components::nonblank(seq![]) == Seq::<Seq<char>>::empty(),
    decreases y.len(),
{
    text::trimmed_is_the_middle(a, m, b);
    let one = seq![a + m + b];
    assert(one.last() == a + m + b);
    assert(one.drop_last() =~= seq![]);
    assert(components::nonblank(one.drop_last()) =~= seq![]);
    assert(components::nonblank(one) =~= (if m.len() == 0 {
        Seq::<Seq<char>>::empty()
    } else {
        seq![m]
    }));
    if y.len() == 0 {
        assert(x + y =~= x);
        assert(components::nonblank(y) =~= seq![]);
        assert(components::nonblank(x) + components::nonblank(y) =~= components::nonblank(x));
    } else {
        blank_texts_are_left_out(x, y.drop_last(), a, m, b);
        assert((x + y).drop_last() =~= x + y.drop_last());
        assert((x + y).last() == y.last());
        assert(components::nonblank(x + y) =~= components::nonblank(x) + components::nonblank(y));
    }
}

/// A draft of several accounts gives those that are not blank, trimmed, in
/// their order, and nothing where all are blank.
pub proof fn several_accounts_are_given(d: DraftLabel)
    requires
        d.value_type@ == "account"@,
        d.multi,
    ensures
        components::nonblank(text::contents(d.many@)).len() == 0 ==> gives_nothing(d),
        components::nonblank(text::contents(d.many@)).len() > 0 ==> exists|v: JsonV| #[trigger]
            gives(d, v) && lists(v, components::nonblank(text::contents(d.many@))),
        (forall|i: int| 0 <= i < d.many@.len() ==> text::all_white(#[trigger] d.many@[i]@))
            ==> gives_nothing(d),
{
    types_apart();
    let ts = components::nonblank(text::contents(d.many@));
    if ts.len() > 0 {
        assert(gives(d, crate::json::texts(ts)));
    }
    if forall|i: int| 0 <= i < d.many@.len() ==> text::all_white(#[trigger] d.many@[i]@) {
        let c = text::contents(d.many@);
        assert forall|i: int| 0 <= i < c.len() implies text::all_white(#[trigger] c[i]) by {
            assert(c[i] == d.many@[i]@);
        }
        all_blank(c);
    }
}

proof fn all_blank(c: Seq<Seq<char>>)
    requires
        forall|i: int| 0 <= i < c.len() ==> text::all_white(#[trigger] c[i]),
    ensures
        components::nonblank(c).len() == 0,
    decreases c.len(),
{
    if c.len() > 0 {
        let e = c.drop_last();
        assert forall|i: int| 0 <= i < e.len() implies text::all_white(#[trigger] e[i]) by {
            assert(e[i] == c[i]);
        }
        all_blank(e);
        text::blank_is_white(c.last());
        assert(text::all_white(c[c.len() - 1]));
    }
}

/// A draft of text, an address, a date or one account gives what was typed as
/// it is, and nothing where that is blank. So does a draft of times in a format
/// of its own.
pub proof fn texts_are_given(d: DraftLabel)
    requires
        ({
            let vt = d.value_type@;
            ||| vt == "string"@ || vt == "email"@ || vt == "date"@
            ||| vt == "account"@ && !d.multi
            ||| (vt == "time"@ || vt == "datetime"@) && !components::native_layout(
                vt,
                text::opt_view(d.format),
            )
        }),
    ensures
        text::all_white(d.text@) ==> gives_nothing(d),
        !text::all_white(d.text@) ==> gives(d, JsonV::Text(d.text@)),
{
    types_apart();
    text::blank_is_white(d.text@);
}

/// A browser's own field can hold the times of a label where it has no format,
/// a blank one, or one that stands for the default layout of its type.
pub proof fn native_formats(vt: Seq<char>, a: Seq<char>, m: Seq<char>, b: Seq<char>)
    requires
        vt == "date"@ || vt == "time"@ || vt == "datetime"@,
        text::all_white(a),
        text::all_white(b),
        m.len() > 0 ==> !text::is_white(m[0]) && !text::is_white(m.last()),
    ensures
        components::native_layout(vt, None),
        m.len() == 0 ==> components::native_layout(vt, Some(a + m + b)),
        layout_laws::holds_digit(m) ==> (components::native_layout(vt, Some(a + m + b)) <==> m == (
        if vt == "date"@ {
            "2006-01-02"@
        } else if vt == "time"@ {
            "15:04:05"@
        } else {
            "2006-01-02 15:04:05"@
        })),
        vt == "date"@ ==> components::native_layout(vt, Some("YYYY-MM-DD"@))
            && !components::native_layout(vt, Some("YYYY/MM/DD"@)),
        vt == "time"@ ==> components::native_layout(vt, Some("HH:mm:ss"@)),
        vt == "datetime"@ ==> components::native_layout(vt, Some("YYYY-MM-DD HH:mm:ss"@)),
{
    types_apart();
    layout_laws::defaults_of_types();
    let dl = crate::golayout::default_go_of(vt);
    let dp = crate::golayout::default_pattern_of(vt);
    layout_laws::formats_are_resolved(a, m, b, dl, dp);
    let e = Seq::<char>::empty();
    reveal_strlit("YYYY-MM-DD");
    reveal_strlit("YYYY/MM/DD");
    reveal_strlit("HH:mm:ss");
    reveal_strlit("YYYY-MM-DD HH:mm:ss");
    reveal_strlit("2006-01-02");
    reveal_strlit("2006/01/02");
    layout_laws::formats_are_resolved(e, "YYYY-MM-DD"@, e, dl, dp);
    layout_laws::formats_are_resolved(e, "YYYY/MM/DD"@, e, dl, dp);
    layout_laws::formats_are_resolved(e, "HH:mm:ss"@, e, dl, dp);
    layout_laws::formats_are_resolved(e, "YYYY-MM-DD HH:mm:ss"@, e, dl, dp);
    assert(e + "YYYY-MM-DD"@ + e =~= "YYYY-MM-DD"@);
    assert(e + "YYYY/MM/DD"@ + e =~= "YYYY/MM/DD"@);
    assert(e + "HH:mm:ss"@ + e =~= "HH:mm:ss"@);
    assert(e + "YYYY-MM-DD HH:mm:ss"@ + e =~= "YYYY-MM-DD HH:mm:ss"@);
    assert("2006-01-02"@[4] == '-' && "2006/01/02"@[4] == '/');
}

/// A browser's field for a time gives hours and minutes, to which the draft adds
/// seconds; seconds that it gives stay. One for a date and a time has a `T`
/// between them, which becomes a blank. An empty field gives nothing.
pub proof fn field_times_are_given(d: DraftLabel, day: Seq<char>, clock: Seq<char>)
    requires
        text::all_ascii(day),
        text::all_ascii(clock),
        components::native_layout(d.value_type@, text::opt_view(d.format)),
        d.value_type@ == "time"@ && d.text@ == clock || d.value_type@ == "datetime"@ && d.text@
            == day + seq!['T'] + clock && day.len() == 10 && !day.contains('T'),
    ensures
        d.value_type@ == "time"@ && clock.len() == 0 ==> gives_nothing(d),
        d.value_type@ == "time"@ && clock.len() == 5 ==> gives(
            d,
            JsonV::Text(clock + seq![':', '0', '0']),
        ),
        d.value_type@ == "time"@ && clock.len() == 8 ==> gives(d, JsonV::Text(clock)),
        d.value_type@ == "datetime"@ && clock.len() == 5 ==> gives(
            d,
            JsonV::Text(day + seq![' '] + clock + seq![':', '0', '0']),
        ),
        d.value_type@ == "datetime"@ && clock.len() == 8 ==> gives(
            d,
            JsonV::Text(day + seq![' '] + clock),
        ),
{
    types_apart();
    reveal_strlit(":00");
    assert(":00"@ =~= seq![':', '0', '0']);
    if d.value_type@ == "time"@ {
        let s = clock + ":00"@;
        ascii_parts(clock, ":00"@);
        if clock.len() == 5 || clock.len() == 8 {
            text::ascii_boundary(s, 0);
            text::ascii_boundary(s, 8);
            assert(s.subrange(0, 8) =~= if clock.len() == 5 {
                s
            } else {
                clock
            });
        }
    } else {
        let t = d.text@;
        assert forall|k: int| 0 <= k < 10 implies t[k] != 'T' by {
            assert(t[k] == day[k]);
        }
        assert(t[10] == 'T');
        text::first_at_is(t, 'T', 10);
        let spaced = text::replaced_first(t, 'T', ' ');
        assert(spaced =~= day + seq![' '] + clock);
        ascii_parts(day, seq![' ']);
        ascii_parts(day + seq![' '], clock);
        ascii_parts(spaced, ":00"@);
        let s = spaced + ":00"@;
        if clock.len() == 5 || clock.len() == 8 {
            text::ascii_boundary(s, 0);
            text::ascii_boundary(s, 19);
            assert(s.subrange(0, 19) =~= if clock.len() == 5 {
                s
            } else {
                spaced
            });
        }
    }
}

proof fn ascii_parts(a: Seq<char>, b: Seq<char>)
    requires
        text::all_ascii(a),
        forall|i: int| 0 <= i < b.len() ==> (#[trigger] b[i] as u32) < 0x80,
    ensures
        text::all_ascii(a + b),
{
    let s = a + b;
    assert forall|i: int| 0 <= i < s.len() implies (#[trigger] s[i] as u32) < 0x80 by {
        if i < a.len() {
            assert((a[i] as u32) < 0x80);
        } else {
            assert((b[i - a.len()] as u32) < 0x80);
        }
    }
}

/// A stored time is shown in a browser's field without its seconds, a stored
/// date and time with a `T` in place of the blank, and a date as it is.
pub proof fn stored_times_are_shown(day: Seq<char>, clock: Seq<char>, rest: Seq<char>)
    requires
        text::all_ascii(day),
        text::all_ascii(clock),
        text::all_ascii(rest),
        day.len() == 10,
        !day.contains(' '),
        clock.len() == 5,
    ensures
        components::native_of("time"@, clock + rest) == clock,
        components::native_of("datetime"@, day + seq![' '] + clock + rest) == day + seq!['T']
            + clock,
        components::native_of("date"@, day) == day,
{
    types_apart();
    let s = clock + rest;
    ascii_parts(clock, rest);
    text::ascii_boundary(s, 0);
    text::ascii_boundary(s, 5);
    assert(s.subrange(0, 5) =~= clock);
    let t = day + seq![' '] + clock + rest;
    assert forall|k: int| 0 <= k < 10 implies t[k] != ' ' by {
        assert(t[k] == day[k]);
    }
    assert(t[10] == ' ');
    text::first_at_is(t, ' ', 10);
    let u = text::replaced_first(t, ' ', 'T');
    assert(u =~= day + seq!['T'] + clock + rest);
    ascii_parts(day, seq!['T']);
    ascii_parts(day + seq!['T'], clock);
    ascii_parts(day + seq!['T'] + clock, rest);
    text::ascii_boundary(u, 0);
    text::ascii_boundary(u, 16);
    assert(u.subrange(0, 16) =~= day + seq!['T'] + clock);
}

/// How values are shown: a string as it is, yes and no as words, null as
/// nothing, and the items of an array with a comma and a blank between them.
pub proof fn values_are_shown(s: Seq<char>, b: bool, a: Seq<JsonV>, x: JsonV)
    ensures
        components::value_text(JsonV::Text(s)) == s,
        components::value_text(JsonV::Bool(b)) == (if b {
            "true"@
        } else {
            "false"@
        }),
        components::value_text(JsonV::Null) == Seq::<char>::empty(),
        components::value_text(JsonV::Array(seq![])) == Seq::<char>::empty(),
        components::value_text(JsonV::Array(seq![x])) == components::value_text(x),
        a.len() > 0 ==> components::value_text(JsonV::Array(a.push(x))) == components::value_text(
            JsonV::Array(a),
        ) + seq![',', ' '] + components::value_text(x),
{
    reveal_strlit("");
    reveal_strlit(", ");
    assert(", "@ =~= seq![',', ' ']);
    assert(""@ =~= Seq::<char>::empty());
    let none = Seq::<JsonV>::empty();
    assert(components::value_texts(none) =~= seq![]);
    let one = seq![x];
    assert(one.drop_last() =~= none);
    assert(one.last() == x);
    assert(components::value_texts(one) =~= seq![components::value_text(x)]);
    text_of_one(components::value_text(x), ", "@);
    let more = a.push(x);
    assert(more.drop_last() =~= a);
    assert(more.last() == x);
    if a.len() > 0 {
        texts_len(a);
        text_of_more(components::value_texts(a), components::value_text(x), ", "@);
    }
}

proof fn texts_len(a: Seq<JsonV>)
    ensures
        components::value_texts(a).len() == a.len(),
    decreases a.len(),
{
    if a.len() > 0 {
        texts_len(a.drop_last());
    }
}

/// A list of one text is joined as that text.
pub proof fn text_of_one(x: Seq<char>, sep: Seq<char>)
    ensures
        text::joined(seq![x], sep) == x,
        text::joined(seq![], sep) == Seq::<char>::empty(),
{
    let one = seq![x];
    assert(one.last() == x);
    assert(text::joined(one, sep) =~= x);
    assert(text::joined(seq![], sep) =~= Seq::<char>::empty());
}

/// A longer list is joined with the separator before its last text.
pub proof fn text_of_more(list: Seq<Seq<char>>, x: Seq<char>, sep: Seq<char>)
    requires
        list.len() > 0,
    ensures
        text::joined(list.push(x), sep) == text::joined(list, sep) + sep + x,
{
    let more = list.push(x);
    assert(more.drop_last() =~= list);
    assert(more.last() == x);
    assert(text::joined(more, sep) =~= text::joined(list, sep) + sep + x);
}

/// A draft of a new entry holds the default of its label where the entry gets
/// the label, and is empty where it does not: a string or a number as its text,
/// an array as choices, yes or no as the answer; a label without values is
/// ticked.
pub proof fn drafts_start_from_defaults(s: LabelSchema, v: JsonV)
    requires
        s.default_value@ == v,
        !draft::is_time_type(s.value_type@),
    ensures
        draft::start_text(s, false) == Seq::<char>::empty(),
        draft::start_many(s, false) == Seq::<Seq<char>>::empty(),
        draft::start_flag(s, false) is None,
        s.value_type@ == "null"@ ==> draft::start_flag(s, true) == Some(true) && draft::start_text(
            s,
            true,
        ).len() == 0 && draft::start_many(s, true).len() == 0,
        s.value_type@ != "null"@ ==> {
            &&& v matches JsonV::Text(t) ==> draft::start_text(s, true) == t
            &&& v matches JsonV::Number(n) ==> draft::start_text(s, true) == n.text()
            &&& v matches JsonV::Bool(b) ==> draft::start_flag(s, true) == Some(b)
            &&& !(v is Bool) ==> draft::start_flag(s, true) is None
            &&& v is Null || v is Bool || v is Array ==> draft::start_text(s, true).len() == 0
            &&& v matches JsonV::Array(a) ==> draft::start_many(s, true) == components::value_texts(
                a,
            )
            &&& !(v is Array) ==> draft::start_many(s, true).len() == 0
        },
{
    types_apart();
}

/// A type that is not known is filled in as text, and a known one as itself.
pub proof fn unknown_types_are_text(vt: Seq<char>)
    ensures
        ({
            let known = vt == "null"@ || vt == "enum"@ || vt == "boolean"@ || numeric(vt) || vt
                == "date"@ || vt == "time"@ || vt == "datetime"@ || vt == "email"@ || vt
                == "account"@ || vt == "string"@;
            draft::draft_type(vt) == if known {
                vt
            } else {
                "string"@
            }
        }),
{
}

/// The fields of the types: numbers for numbers, the browser's fields for times
/// in the default layouts, and text for others and for text.
pub proof fn fields_of_types(vt: Seq<char>, format: Option<Seq<char>>, multi: bool)
    ensures
        numeric(vt) ==> draft::field_type(vt, format) == "number"@ && draft::draft_control_of(
            vt,
            multi,
        ) == DraftControl::Field,
        vt == "string"@ ==> draft::field_type(vt, format) == "text"@ && draft::draft_control_of(
            vt,
            multi,
        ) == DraftControl::Field,
        vt == "email"@ ==> draft::field_type(vt, format) == "email"@,
        vt == "date"@ && components::native_layout(vt, format) ==> draft::field_type(vt, format)
            == "date"@,
        vt == "time"@ && components::native_layout(vt, format) ==> draft::field_type(vt, format)
            == "time"@,
        vt == "datetime"@ && components::native_layout(vt, format) ==> draft::field_type(vt, format)
            == "datetime-local"@,
        (vt == "date"@ || vt == "time"@ || vt == "datetime"@) && !components::native_layout(
            vt,
            format,
        ) ==> draft::field_type(vt, format) == "text"@,
        vt == "null"@ ==> draft::draft_control_of(vt, multi) == DraftControl::Mark,
        vt == "boolean"@ ==> draft::draft_control_of(vt, multi) == DraftControl::YesNo,
        vt == "account"@ ==> draft::draft_control_of(vt, multi) == DraftControl::Account,
        vt == "enum"@ ==> draft::draft_control_of(vt, multi) == if multi {
            DraftControl::Several
        } else {
            DraftControl::Choice
        },
{
    types_apart();
}

/// What is written of drafts is what each gives, in their order, under the name
/// of its label; what gives nothing is not written.
pub proof fn drafts_are_written_in_order(x: Seq<DraftLabel>, y: Seq<DraftLabel>, d: DraftLabel)
    ensures
        draft::filled(x + y) == draft::filled(x) + draft::filled(y),
        gives_nothing(d) ==> draft::filled(seq![d]).len() == 0,
        forall|v: JsonV| #[trigger] gives(d, v) ==> draft::filled(seq![d]) == seq![(d.name@, v)],
    decreases y.len(),
{
    let one = seq![d];
    assert(one.last() == d);
    assert(one.drop_last() =~= seq![]);
    assert(draft::filled(one.drop_last()) =~= seq![]);
    assert forall|v: JsonV| #[trigger] gives(d, v) implies draft::filled(seq![d]) == seq![
        (d.name@, v),
    ] by {
        assert(draft::filled(seq![d]) =~= seq![(d.name@, v)]);
    }
    if y.len() == 0 {
        assert(x + y =~= x);
        assert(draft::filled(y) =~= seq![]);
        assert(draft::filled(x) + draft::filled(y) =~= draft::filled(x));
    } else {
        drafts_are_written_in_order(x, y.drop_last(), d);
        assert((x + y).drop_last() =~= x + y.drop_last());
        assert((x + y).last() == y.last());
        assert(draft::filled(x + y) =~= draft::filled(x) + draft::filled(y));
    }
}

/// Several accounts are typed with commas between them; blank ones do not
/// count, and white space around one does not. One account is the text itself.
pub proof fn accounts_are_listed(s: Seq<char>, a: Seq<char>, m: Seq<char>, b: Seq<char>)
    requires
        text::all_white(a),
        text::all_white(b),
        m.len() > 0 ==> !text::is_white(m[0]) && !text::is_white(m.last()),
        !(a + m + b).contains(','),
    ensures
        draft::accounts_of((a + m + b) + seq![','] + s, true) == (if m.len() == 0 {
            Seq::<Seq<char>>::empty()
        } else {
            seq![m]
        }) + draft::accounts_of(s, true),
        draft::accounts_of(a + m + b, true) == (if m.len() == 0 {
            Seq::<Seq<char>>::empty()
        } else {
            seq![m]
        }),
        s.len() > 0 ==> draft::accounts_of(s, false) == seq![s],
        draft::accounts_of(seq![], false) == Seq::<Seq<char>>::empty(),
{
    let w = a + m + b;
    text::pieces_between_separators(w, ',', s);
    blank_texts_are_left_out(seq![w], text::split_at_char(s, ','), a, m, b);
}

/// What a browser's fields give is stored as a date, a time with seconds, and a
/// date and a time with a blank between them.
pub proof fn stored_fields(day: Seq<char>, clock: Seq<char>)
    requires
        text::all_ascii(day),
        text::all_ascii(clock),
        day.len() == 10,
        !day.contains('T'),
        clock.len() == 5,
    ensures
        components::stored_of("date"@, day) == Some(day),
        components::stored_of("time"@, clock) == Some(clock + seq![':', '0', '0']),
        components::stored_of("datetime"@, day + seq!['T'] + clock) == Some(
            day + seq![' '] + clock + seq![':', '0', '0'],
        ),
{
    types_apart();
    reveal_strlit(":00");
    assert(":00"@ =~= seq![':', '0', '0']);
    let c = clock + ":00"@;
    ascii_parts(clock, ":00"@);
    text::ascii_boundary(c, 0);
    text::ascii_boundary(c, 8);
    assert(c.subrange(0, 8) =~= c);
    let t = day + seq!['T'] + clock;
    assert forall|k: int| 0 <= k < 10 implies t[k] != 'T' by {
        assert(t[k] == day[k]);
    }
    assert(t[10] == 'T');
    text::first_at_is(t, 'T', 10);
    let spaced = text::replaced_first(t, 'T', ' ');
    assert(spaced =~= day + seq![' '] + clock);
    ascii_parts(day, seq![' ']);
    ascii_parts(day + seq![' '], clock);
    ascii_parts(spaced, ":00"@);
    let s = spaced + ":00"@;
    text::ascii_boundary(s, 0);
    text::ascii_boundary(s, 19);
    assert(s.subrange(0, 19) =~= s);
}

/// What a batch writes: for each filled label, in their order, an object with
/// its name and its value and no more.
pub proof fn pairs_are_sent(pairs: Seq<(Seq<char>, JsonV)>, name: Seq<char>, v: JsonV)
    ensures
        draft::pairs_json(seq![]) == JsonV::Array(seq![]),
        draft::pairs_json(pairs.push((name, v))) == JsonV::Array(
            draft::pairs_json(pairs)->Array_0.push(
                JsonV::Object(seq![("name"@, JsonV::Text(name)), ("value"@, v)]),
            ),
        ),
{
    let none = Seq::<(Seq<char>, JsonV)>::empty();
    assert(draft::pairs_json(none)->Array_0 =~= seq![]);
    let all = pairs.push((name, v));
    let a = draft::pairs_json(all)->Array_0;
    let b = draft::pairs_json(pairs)->Array_0;
    assert forall|i: int| 0 <= i < b.len() implies a[i] == b[i] by {
        assert(all[i] == pairs[i]);
    }
    assert(a =~= b.push(JsonV::Object(seq![("name"@, JsonV::Text(name)), ("value"@, v)])));
}

/// The timeline offers labels of times for its ends and labels of accounts for
/// its persons, in their order.
pub proof fn timelines_offer_labels(schemas: Seq<LabelSchema>, s: LabelSchema)
    ensures
        draft::timeline_options(seq![], true) == Seq::<int>::empty(),
        draft::timeline_options(seq![], false) == Seq::<int>::empty(),
        draft::timeline_options(schemas.push(s), true) == (if s.value_type@ == "date"@
            || s.value_type@ == "time"@ || s.value_type@ == "datetime"@ {
            draft::timeline_options(schemas, true).push(schemas.len() as int)
        } else {
            draft::timeline_options(schemas, true)
        }),
        draft::timeline_options(schemas.push(s), false) == (if s.value_type@ == "account"@ {
            draft::timeline_options(schemas, false).push(schemas.len() as int)
        } else {
            draft::timeline_options(schemas, false)
        }),
{
    assert(draft::timeline_options(seq![], true) =~= seq![]);
    assert(draft::timeline_options(seq![], false) =~= seq![]);
    assert(schemas.push(s).drop_last() =~= schemas);
    assert(schemas.push(s).last() == s);
}

/// A browser's field for the times of a preset starts from the default as the
/// field shows it, and a format of one's own from the default as it is.
pub proof fn times_start_from_defaults(
    s: LabelSchema,
    day: Seq<char>,
    clock: Seq<char>,
    t: Seq<char>,
)
    requires
        text::all_ascii(day),
        text::all_ascii(clock),
        day.len() == 10,
        !day.contains(' '),
        clock.len() == 5,
    ensures
        s.value_type@ == "datetime"@ && components::native_layout(
            "datetime"@,
            text::opt_view(s.format),
        ) && s.default_value@ == JsonV::Text(day + seq![' '] + clock + seq![':', '0', '0'])
            ==> draft::start_text(s, true) == day + seq!['T'] + clock,
        s.value_type@ == "time"@ && components::native_layout("time"@, text::opt_view(s.format))
            && s.default_value@ == JsonV::Text(clock + seq![':', '0', '0']) ==> draft::start_text(
            s,
            true,
        ) == clock,
        s.value_type@ == "date"@ && s.default_value@ == JsonV::Text(t) ==> draft::start_text(
            s,
            true,
        ) == t,
        (s.value_type@ == "time"@ || s.value_type@ == "datetime"@) && !components::native_layout(
            s.value_type@,
            text::opt_view(s.format),
        ) && s.default_value@ == JsonV::Text(t) ==> draft::start_text(s, true) == t,
{
    types_apart();
    stored_times_are_shown(day, clock, seq![':', '0', '0']);
}

} // verus!
