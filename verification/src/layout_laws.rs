//! What layouts and patterns of times mean, stated on the texts themselves.

use vstd::prelude::*;

use crate::decimal;
use crate::golayout;
use crate::golayout::{Piece, Scan, Tok, YmdHms};
use crate::text;

verus! {

/// The text of a moment by a layout.
pub open spec fn written(layout: Seq<char>, t: YmdHms) -> Seq<char> {
    golayout::as_time(golayout::layout_pieces(layout), t)
}

// ---------------------------------------------------------------------------
// Writing
// ---------------------------------------------------------------------------

/// A layout that is a token alone.
proof fn lone_token(k: Tok, t: YmdHms)
    ensures
        golayout::layout_pieces(golayout::layout_text(k)) == seq![Piece::Token(k)],
        written(golayout::layout_text(k), t) == golayout::rendered(k, t),
{
    let ps = seq![Piece::Token(k)];
    assert(ps.skip(1) =~= seq![]);
    assert(golayout::as_layout(ps.skip(1)) =~= seq![]);
    assert(golayout::as_layout(ps) =~= golayout::layout_text(k));
    golayout::layout_reads_back(ps);
    assert(golayout::as_time(ps.skip(1), t) =~= seq![]);
    assert(golayout::as_time(ps, t) =~= golayout::rendered(k, t));
}

/// Whether a text is a number with exactly so many digits.
pub open spec fn digits_of(s: Seq<char>, n: int, width: int) -> bool {
    s.len() == width && decimal::all_digits(s) && decimal::value(s) == n
}

/// Each number in a layout is written with the digits of its field, in the
/// width of the token: years with four or two digits, months, days, hours,
/// minutes and seconds with two, hours of a twelve-hour clock from one to
/// twelve.
pub proof fn numbers_are_written(t: YmdHms)
    requires
        0 <= t.year <= 9999,
        t.month <= 99,
        t.day <= 99,
        t.hour <= 99,
        t.minute <= 99,
        t.second <= 99,
    ensures
        digits_of(written("2006"@, t), t.year as int, 4),
        digits_of(written("06"@, t), t.year as int % 100, 2),
        digits_of(written("01"@, t), t.month as int, 2),
        digits_of(written("02"@, t), t.day as int, 2),
        digits_of(written("15"@, t), t.hour as int, 2),
        digits_of(written("04"@, t), t.minute as int, 2),
        digits_of(written("05"@, t), t.second as int, 2),
        exists|h: int|
            1 <= h <= 12 && h % 12 == t.hour as int % 12 && #[trigger] digits_of(
                written("03"@, t),
                h,
                2,
            ),
{
    lone_token(Tok::Year4, t);
    lone_token(Tok::Year2, t);
    lone_token(Tok::Month2, t);
    lone_token(Tok::Day2, t);
    lone_token(Tok::Hour24, t);
    lone_token(Tok::Minute, t);
    lone_token(Tok::Second, t);
    lone_token(Tok::Hour12, t);
    golayout::padded_digits(t.year as int, 4);
    golayout::padded_digits(t.year as int % 100, 2);
    golayout::padded_digits(t.month as int, 2);
    golayout::padded_digits(t.day as int, 2);
    golayout::padded_digits(t.hour as int, 2);
    golayout::padded_digits(t.minute as int, 2);
    golayout::padded_digits(t.second as int, 2);
    let h: int = if t.hour % 12 == 0 {
        12
    } else {
        t.hour as int % 12
    };
    golayout::padded_digits(h, 2);
    assert(digits_of(written("03"@, t), h, 2));
}

/// Months and days of one or two digits are written without a leading zero.
pub proof fn short_numbers_are_written(t: YmdHms)
    requires
        0 < t.month <= 99,
        0 < t.day <= 99,
    ensures
        digits_of(written("1"@, t), t.month as int, if t.month < 10 { 1 } else { 2 }),
        digits_of(written("2"@, t), t.day as int, if t.day < 10 { 1 } else { 2 }),
{
    lone_token(Tok::Month1, t);
    lone_token(Tok::Day1, t);
    decimal::value_of_decimal(t.month as nat);
    decimal::value_of_decimal(t.day as nat);
    decimal::decimal_len_small(t.month as nat);
    decimal::decimal_len_small(t.day as nat);
}

/// Months are written with their English names, whole or by the first three
/// letters.
pub proof fn months_are_named(t: YmdHms)
    ensures
        t.month == 1 ==> written("January"@, t) == "January"@ && written("Jan"@, t) == "Jan"@,
        t.month == 2 ==> written("January"@, t) == "February"@ && written("Jan"@, t) == "Feb"@,
        t.month == 3 ==> written("January"@, t) == "March"@ && written("Jan"@, t) == "Mar"@,
        t.month == 4 ==> written("January"@, t) == "April"@ && written("Jan"@, t) == "Apr"@,
        t.month == 5 ==> written("January"@, t) == "May"@ && written("Jan"@, t) == "May"@,
        t.month == 6 ==> written("January"@, t) == "June"@ && written("Jan"@, t) == "Jun"@,
        t.month == 7 ==> written("January"@, t) == "July"@ && written("Jan"@, t) == "Jul"@,
        t.month == 8 ==> written("January"@, t) == "August"@ && written("Jan"@, t) == "Aug"@,
        t.month == 9 ==> written("January"@, t) == "September"@ && written("Jan"@, t) == "Sep"@,
        t.month == 10 ==> written("January"@, t) == "October"@ && written("Jan"@, t) == "Oct"@,
        t.month == 11 ==> written("January"@, t) == "November"@ && written("Jan"@, t) == "Nov"@,
        t.month == 12 ==> written("January"@, t) == "December"@ && written("Jan"@, t) == "Dec"@,
{
    lone_token(Tok::MonFull, t);
    lone_token(Tok::MonAbbr, t);
    reveal_strlit("January");
    reveal_strlit("February");
    reveal_strlit("March");
    reveal_strlit("April");
    reveal_strlit("May");
    reveal_strlit("June");
    reveal_strlit("July");
    reveal_strlit("August");
    reveal_strlit("September");
    reveal_strlit("October");
    reveal_strlit("November");
    reveal_strlit("December");
    reveal_strlit("Jan");
    reveal_strlit("Feb");
    reveal_strlit("Mar");
    reveal_strlit("Apr");
    reveal_strlit("Jun");
    reveal_strlit("Jul");
    reveal_strlit("Aug");
    reveal_strlit("Sep");
    reveal_strlit("Oct");
    reveal_strlit("Nov");
    reveal_strlit("Dec");
    assert("January"@.take(3) =~= "Jan"@);
    assert("February"@.take(3) =~= "Feb"@);
    assert("March"@.take(3) =~= "Mar"@);
    assert("April"@.take(3) =~= "Apr"@);
    assert("May"@.take(3) =~= "May"@);
    assert("June"@.take(3) =~= "Jun"@);
    assert("July"@.take(3) =~= "Jul"@);
    assert("August"@.take(3) =~= "Aug"@);
    assert("September"@.take(3) =~= "Sep"@);
    assert("October"@.take(3) =~= "Oct"@);
    assert("November"@.take(3) =~= "Nov"@);
    assert("December"@.take(3) =~= "Dec"@);
}

/// Days of the week are written with their English names: the day counted by
/// the calendar from 1970-01-01, which was a Thursday.
pub proof fn weekdays_are_named(t: YmdHms)
    ensures
        ({
            let n = golayout::civil_days(t.year as int, t.month as int, t.day as int) % 7;
            &&& n == 0 ==> written("Monday"@, t) == "Thursday"@ && written("Mon"@, t) == "Thu"@
            &&& n == 1 ==> written("Monday"@, t) == "Friday"@ && written("Mon"@, t) == "Fri"@
            &&& n == 2 ==> written("Monday"@, t) == "Saturday"@ && written("Mon"@, t) == "Sat"@
            &&& n == 3 ==> written("Monday"@, t) == "Sunday"@ && written("Mon"@, t) == "Sun"@
            &&& n == 4 ==> written("Monday"@, t) == "Monday"@ && written("Mon"@, t) == "Mon"@
            &&& n == 5 ==> written("Monday"@, t) == "Tuesday"@ && written("Mon"@, t) == "Tue"@
            &&& n == 6 ==> written("Monday"@, t) == "Wednesday"@ && written("Mon"@, t) == "Wed"@
        }),
{
    lone_token(Tok::WdFull, t);
    lone_token(Tok::WdAbbr, t);
    reveal_strlit("Sunday");
    reveal_strlit("Monday");
    reveal_strlit("Tuesday");
    reveal_strlit("Wednesday");
    reveal_strlit("Thursday");
    reveal_strlit("Friday");
    reveal_strlit("Saturday");
    reveal_strlit("Sun");
    reveal_strlit("Mon");
    reveal_strlit("Tue");
    reveal_strlit("Wed");
    reveal_strlit("Thu");
    reveal_strlit("Fri");
    reveal_strlit("Sat");
    assert("Sunday"@.take(3) =~= "Sun"@);
    assert("Monday"@.take(3) =~= "Mon"@);
    assert("Tuesday"@.take(3) =~= "Tue"@);
    assert("Wednesday"@.take(3) =~= "Wed"@);
    assert("Thursday"@.take(3) =~= "Thu"@);
    assert("Friday"@.take(3) =~= "Fri"@);
    assert("Saturday"@.take(3) =~= "Sat"@);
}

/// The half of the day is written in capitals or small letters.
pub proof fn halves_are_named(t: YmdHms)
    ensures
        t.hour < 12 ==> written("PM"@, t) == "AM"@ && written("pm"@, t) == "am"@,
        t.hour >= 12 ==> written("PM"@, t) == "PM"@ && written("pm"@, t) == "pm"@,
{
    lone_token(Tok::PmUpper, t);
    lone_token(Tok::PmLower, t);
}

/// Whether a text is a word that layouts replace.
pub open spec fn is_layout_word(w: Seq<char>) -> bool {
    w == "2006"@ || w == "06"@ || w == "01"@ || w == "1"@ || w == "02"@ || w == "2"@ || w == "15"@
        || w == "03"@ || w == "04"@ || w == "05"@ || w == "Jan"@ || w == "January"@ || w == "Mon"@
        || w == "Monday"@ || w == "PM"@ || w == "pm"@
}

/// The token of a word.
spec fn word_token(w: Seq<char>) -> Tok {
    if w == "2006"@ {
        Tok::Year4
    } else if w == "06"@ {
        Tok::Year2
    } else if w == "01"@ {
        Tok::Month2
    } else if w == "1"@ {
        Tok::Month1
    } else if w == "02"@ {
        Tok::Day2
    } else if w == "2"@ {
        Tok::Day1
    } else if w == "15"@ {
        Tok::Hour24
    } else if w == "03"@ {
        Tok::Hour12
    } else if w == "04"@ {
        Tok::Minute
    } else if w == "05"@ {
        Tok::Second
    } else if w == "Jan"@ {
        Tok::MonAbbr
    } else if w == "January"@ {
        Tok::MonFull
    } else if w == "Mon"@ {
        Tok::WdAbbr
    } else if w == "Monday"@ {
        Tok::WdFull
    } else if w == "PM"@ {
        Tok::PmUpper
    } else {
        Tok::PmLower
    }
}

/// Whether what follows a word in a layout leaves it as it is.
pub open spec fn leaves_word(more: Seq<char>) -> bool {
    &&& more.len() > 0 ==> more[0] != '5' && more[0] != 'u' && more[0] != 'd'
    &&& more.len() > 1 ==> !(more[0] == '0' && more[1] == '0')
}

/// The pieces of a layout that begins with a word.
proof fn word_pieces(w: Seq<char>, more: Seq<char>)
    requires
        is_layout_word(w),
        leaves_word(more),
    ensures
        golayout::layout_text(word_token(w)) == w,
        golayout::layout_pieces(w + more) == seq![Piece::Token(word_token(w))]
            + golayout::layout_pieces(more),
{
    let k = word_token(w);
    golayout::layout_token_found(k, more);
    golayout::widths(k);
    assert((w + more).skip(golayout::layout_width(k)) =~= more);
}

/// The pieces of a layout that begins with a character that stands for itself.
proof fn literal_pieces(c: char, more: Seq<char>)
    requires
        !text::is_digit(c),
        !text::is_ascii_letter(c),
    ensures
        golayout::layout_pieces(seq![c] + more) == seq![Piece::Literal(c)]
            + golayout::layout_pieces(more),
{
    let s = seq![c] + more;
    assert(s[0] == c);
    golayout::layout_starts(s);
    assert(golayout::layout_token(s) is None) by {
        reveal(golayout::layout_token);
    }
    assert(s.skip(1) =~= more);
}

/// A layout is written part by part: a word as it is written alone, and what
/// follows it as it is written alone; other characters stand for themselves.
pub proof fn layouts_are_written_in_parts(w: Seq<char>, c: char, more: Seq<char>, t: YmdHms)
    ensures
        is_layout_word(w) && leaves_word(more) ==> written(w + more, t) == written(w, t) + written(
            more,
            t,
        ),
        !text::is_digit(c) && !text::is_ascii_letter(c) ==> written(seq![c] + more, t) == seq![c]
            + written(more, t),
        written(seq![], t) == Seq::<char>::empty(),
{
    let rest = golayout::layout_pieces(more);
    if is_layout_word(w) && leaves_word(more) {
        word_pieces(w, more);
        let k = word_token(w);
        lone_token(k, t);
        let ps = seq![Piece::Token(k)] + rest;
        assert(ps.skip(1) =~= rest);
    }
    if !text::is_digit(c) && !text::is_ascii_letter(c) {
        literal_pieces(c, more);
        let ps = seq![Piece::Literal(c)] + rest;
        assert(ps.skip(1) =~= rest);
    }
}

// ---------------------------------------------------------------------------
// Reading
// ---------------------------------------------------------------------------

/// The hour that a twelve-hour clock shows.
pub open spec fn clock_hour(hour: int) -> int {
    if hour % 12 == 0 {
        12
    } else {
        hour % 12
    }
}

/// Whether a text is a number of one or two digits, with no digit behind a
/// single one.
pub open spec fn short_number(w: Seq<char>, more: Seq<char>, n: int) -> bool {
    &&& 1 <= w.len() <= 2
    &&& decimal::all_digits(w)
    &&& decimal::value(w) == n
    &&& w.len() == 2 || more.len() == 0 || !text::is_digit(more[0])
}

/// Whether a text is a name, whole or by its first three letters where the rest
/// does not follow; the case of letters is left aside.
pub open spec fn is_name(w: Seq<char>, more: Seq<char>, name: Seq<char>) -> bool {
    ||| text::same_word(w, name)
    ||| {
        &&& text::same_word(w, name.take(3))
        &&& forall|n: int|
            n == name.len() && n <= (w + more).len() ==> !text::same_word(
                #[trigger] (w + more).take(n),
                name,
            )
    }
}

/// Whether a text in front of another says what a token of a layout stands for
/// in a moment.
pub open spec fn says(k: Tok, t: YmdHms, w: Seq<char>, more: Seq<char>) -> bool {
    match k {
        Tok::Year4 => digits_of(w, t.year as int, 4),
        Tok::Year2 => short_number(w, more, t.year - 2000),
        Tok::Month2 | Tok::Month1 => short_number(w, more, t.month as int),
        Tok::Day2 | Tok::Day1 => short_number(w, more, t.day as int),
        Tok::Hour24 => short_number(w, more, t.hour as int),
        Tok::Hour12 => short_number(w, more, clock_hour(t.hour as int)),
        Tok::Minute => short_number(w, more, t.minute as int),
        Tok::Second => short_number(w, more, t.second as int),
        Tok::MonAbbr | Tok::MonFull => 1 <= t.month <= 12 && is_name(
            w,
            more,
            golayout::month_name(t.month as int),
        ),
        Tok::WdAbbr | Tok::WdFull => exists|d: int|
            0 <= d <= 6 && is_name(w, more, #[trigger] golayout::weekday_name(d)),
        Tok::PmUpper | Tok::PmLower => text::same_word(
            w,
            if t.hour < 12 {
                "AM"@
            } else {
                "PM"@
            },
        ),
    }
}

/// The text of words in front of what follows them.
pub open spec fn in_front(ws: Seq<Seq<char>>, rest: Seq<char>) -> Seq<char>
    decreases ws.len(),
{
    if ws.len() == 0 {
        rest
    } else {
        ws[0] + in_front(ws.skip(1), rest)
    }
}

/// Whether words, one for each piece of a layout, say a moment: each token what
/// it stands for, each other character itself, white space any white space.
pub open spec fn spell(ps: Seq<Piece>, t: YmdHms, ws: Seq<Seq<char>>, rest: Seq<char>) -> bool
    decreases ps.len(),
{
    if ps.len() == 0 {
        ws.len() == 0
    } else {
        &&& ws.len() > 0
        &&& match ps[0] {
            Piece::Token(k) => says(k, t, ws[0], in_front(ws.skip(1), rest)),
            Piece::Literal(c) => ws[0].len() == 1 && (ws[0][0] == c || (text::is_white(ws[0][0])
                && text::is_white(c))),
        }
        &&& spell(ps.skip(1), t, ws.skip(1), rest)
    }
}

pub open spec fn has_year(ps: Seq<Piece>) -> bool {
    golayout::mentions(ps, Tok::Year4) || golayout::mentions(ps, Tok::Year2)
}

pub open spec fn has_month(ps: Seq<Piece>) -> bool {
    golayout::mentions(ps, Tok::Month2) || golayout::mentions(ps, Tok::Month1)
        || golayout::mentions(ps, Tok::MonAbbr) || golayout::mentions(ps, Tok::MonFull)
}

pub open spec fn has_day(ps: Seq<Piece>) -> bool {
    golayout::mentions(ps, Tok::Day2) || golayout::mentions(ps, Tok::Day1)
}

pub open spec fn has_hour(ps: Seq<Piece>) -> bool {
    golayout::mentions(ps, Tok::Hour24) || golayout::mentions(ps, Tok::Hour12)
}

pub open spec fn has_half(ps: Seq<Piece>) -> bool {
    golayout::mentions(ps, Tok::PmUpper) || golayout::mentions(ps, Tok::PmLower)
}

/// The fields of a moment that a layout has, the others zero. The half of a day
/// alone stands for the hour at which it begins.
pub open spec fn told(ps: Seq<Piece>, t: YmdHms) -> YmdHms {
    YmdHms {
        year: if has_year(ps) { t.year } else { 0 },
        month: if has_month(ps) { t.month } else { 0 },
        day: if has_day(ps) { t.day } else { 0 },
        hour: if has_hour(ps) {
            t.hour
        } else if has_half(ps) && t.hour >= 12 {
            12
        } else {
            0
        },
        minute: if golayout::mentions(ps, Tok::Minute) { t.minute } else { 0 },
        second: if golayout::mentions(ps, Tok::Second) { t.second } else { 0 },
    }
}

/// What is known after a piece was read.
spec fn step(st: Scan, p: Piece, t: YmdHms) -> Scan {
    match p {
        Piece::Literal(_) => st,
        Piece::Token(k) => match k {
            Tok::Year4 | Tok::Year2 => Scan { t: YmdHms { year: t.year, ..st.t }, ..st },
            Tok::Month2 | Tok::Month1 | Tok::MonAbbr | Tok::MonFull => Scan {
                t: YmdHms { month: t.month, ..st.t },
                has_month: true,
                ..st
            },
            Tok::Day2 | Tok::Day1 => Scan { t: YmdHms { day: t.day, ..st.t }, has_day: true, ..st },
            Tok::Hour24 => Scan { t: YmdHms { hour: t.hour, ..st.t }, ..st },
            Tok::Hour12 => Scan {
                t: YmdHms { hour: clock_hour(t.hour as int) as u32, ..st.t },
                ..st
            },
            Tok::Minute => Scan { t: YmdHms { minute: t.minute, ..st.t }, ..st },
            Tok::Second => Scan { t: YmdHms { second: t.second, ..st.t }, ..st },
            Tok::PmUpper | Tok::PmLower => Scan { pm: t.hour >= 12, has_ampm: true, ..st },
            Tok::WdAbbr | Tok::WdFull => st,
        },
    }
}

spec fn after(st: Scan, ps: Seq<Piece>, t: YmdHms) -> Scan
    decreases ps.len(),
{
    if ps.len() == 0 {
        st
    } else {
        after(step(st, ps[0], t), ps.skip(1), t)
    }
}

/// The first letters of the months, small.
spec fn month_head(i: int) -> (char, char, char) {
    if i == 1 {
        ('j', 'a', 'n')
    } else if i == 2 {
        ('f', 'e', 'b')
    } else if i == 3 {
        ('m', 'a', 'r')
    } else if i == 4 {
        ('a', 'p', 'r')
    } else if i == 5 {
        ('m', 'a', 'y')
    } else if i == 6 {
        ('j', 'u', 'n')
    } else if i == 7 {
        ('j', 'u', 'l')
    } else if i == 8 {
        ('a', 'u', 'g')
    } else if i == 9 {
        ('s', 'e', 'p')
    } else if i == 10 {
        ('o', 'c', 't')
    } else if i == 11 {
        ('n', 'o', 'v')
    } else {
        ('d', 'e', 'c')
    }
}

spec fn weekday_head(i: int) -> (char, char, char) {
    if i == 0 {
        ('s', 'u', 'n')
    } else if i == 1 {
        ('m', 'o', 'n')
    } else if i == 2 {
        ('t', 'u', 'e')
    } else if i == 3 {
        ('w', 'e', 'd')
    } else if i == 4 {
        ('t', 'h', 'u')
    } else if i == 5 {
        ('f', 'r', 'i')
    } else {
        ('s', 'a', 't')
    }
}

spec fn head_of(s: Seq<char>) -> (char, char, char) {
    (text::lower(s[0]), text::lower(s[1]), text::lower(s[2]))
}

proof fn name_heads(i: int)
    ensures
        1 <= i <= 12 ==> head_of(golayout::month_name(i)) == month_head(i),
        0 <= i <= 6 ==> head_of(golayout::weekday_name(i)) == weekday_head(i),
{
    reveal_strlit("January");
    reveal_strlit("February");
    reveal_strlit("March");
    reveal_strlit("April");
    reveal_strlit("May");
    reveal_strlit("June");
    reveal_strlit("July");
    reveal_strlit("August");
    reveal_strlit("September");
    reveal_strlit("October");
    reveal_strlit("November");
    reveal_strlit("December");
    reveal_strlit("Sunday");
    reveal_strlit("Monday");
    reveal_strlit("Tuesday");
    reveal_strlit("Wednesday");
    reveal_strlit("Thursday");
    reveal_strlit("Friday");
    reveal_strlit("Saturday");
}

/// A name is there where its first three letters are.
proof fn name_there(s: Seq<char>, name: Seq<char>)
    requires
        name.len() >= 3,
    ensures
        (golayout::name_at(s, name) > 0) == (s.len() >= 3 && head_of(s) == head_of(name)),
{
    if s.len() >= 3 {
        let (a, b) = (text::ascii_lower(s.take(3)), text::ascii_lower(name.take(3)));
        if a == b {
            assert(a[0] == b[0] && a[1] == b[1] && a[2] == b[2]);
        } else if head_of(s) == head_of(name) {
            assert(a =~= b);
        }
    }
}

/// A name is read with the letters that stand there.
proof fn name_reads(w: Seq<char>, more: Seq<char>, name: Seq<char>)
    requires
        name.len() >= 3,
        is_name(w, more, name),
    ensures
        golayout::name_at(w + more, name) == w.len(),
        w.len() >= 3,
        head_of(w + more) == head_of(name),
{
    let s = w + more;
    text::same_word_iff(w, name);
    text::same_word_iff(w, name.take(3));
    if text::same_word(w, name) {
        assert(s.take(name.len() as int) =~= w);
        let (a, b) = (text::ascii_lower(w), text::ascii_lower(name));
        assert(a[0] == b[0] && a[1] == b[1] && a[2] == b[2]);
        assert(s[0] == w[0] && s[1] == w[1] && s[2] == w[2]);
        name_there(s, name);
    } else {
        assert(s.take(3) =~= w);
        let (a, b) = (text::ascii_lower(w), text::ascii_lower(name.take(3)));
        assert(a[0] == b[0] && a[1] == b[1] && a[2] == b[2]);
        assert(s[0] == w[0] && s[1] == w[1] && s[2] == w[2]);
        if s.len() >= name.len() {
            let n = name.len() as int;
            text::same_word_iff(s.take(n), name);
            assert(!text::same_word(s.take(n), name));
        }
    }
}

proof fn month_reads(s: Seq<char>, from: int, i: int)
    requires
        1 <= from <= i <= 12,
        s.len() >= 3,
        head_of(s) == month_head(i),
    ensures
        golayout::month_at(s, from) == Some((i, golayout::name_at(s, golayout::month_name(i)))),
    decreases i - from,
{
    golayout::names_are_long(from);
    name_heads(from);
    name_there(s, golayout::month_name(from));
    if from < i {
        month_reads(s, from + 1, i);
    }
}

proof fn weekday_reads(s: Seq<char>, from: int, i: int)
    requires
        0 <= from <= i <= 6,
        s.len() >= 3,
        head_of(s) == weekday_head(i),
    ensures
        golayout::weekday_at(s, from) == Some(golayout::name_at(s, golayout::weekday_name(i))),
    decreases i - from,
{
    golayout::names_are_long(from);
    name_heads(from);
    name_there(s, golayout::weekday_name(from));
    if from < i {
        weekday_reads(s, from + 1, i);
    }
}

proof fn number_reads(w: Seq<char>, more: Seq<char>, n: int, min: int, max: int)
    requires
        1 <= min <= w.len() <= max,
        decimal::all_digits(w),
        decimal::value(w) == n,
        w.len() == max || more.len() == 0 || !text::is_digit(more[0]),
    ensures
        golayout::number_at(w + more, min, max) == Some((n, w.len() as int)),
{
    let s = w + more;
    let k = w.len() as int;
    assert forall|i: int| 0 <= i < k implies text::is_digit(#[trigger] s[i]) by {
        assert(s[i] == w[i]);
    }
    if k < s.len() {
        assert(s[k] == more[0]);
    }
    golayout::digit_run_is(s, max, k);
    assert(s.take(k) =~= w);
}

/// A word that says what a token stands for is read as that.
proof fn token_reads(st: Scan, k: Tok, t: YmdHms, w: Seq<char>, more: Seq<char>)
    requires
        says(k, t, w, more),
    ensures
        golayout::scanned(st, Piece::Token(k), w + more) == Some(
            (step(st, Piece::Token(k), t), w.len() as int),
        ),
{
    let s = w + more;
    match k {
        Tok::MonAbbr | Tok::MonFull => {
            let i = t.month as int;
            golayout::names_are_long(i);
            name_heads(i);
            name_reads(w, more, golayout::month_name(i));
            month_reads(s, 1, i);
        },
        Tok::WdAbbr | Tok::WdFull => {
            let d = choose|d: int|
                0 <= d <= 6 && is_name(w, more, #[trigger] golayout::weekday_name(d));
            golayout::names_are_long(d);
            name_heads(d);
            name_reads(w, more, golayout::weekday_name(d));
            weekday_reads(s, 0, d);
        },
        Tok::PmUpper | Tok::PmLower => {
            reveal_strlit("AM");
            reveal_strlit("PM");
            assert(s.take(2) =~= w);
            text::same_word_iff(w, "AM"@);
            text::same_word_iff(w, "PM"@);
            let (a, p) = (text::ascii_lower("AM"@), text::ascii_lower("PM"@));
            assert(a[0] != p[0]);
        },
        Tok::Year4 => {
            number_reads(w, more, t.year as int, 4, 4);
        },
        _ => {
            number_reads(w, more, decimal::value(w), 1, 2);
        },
    }
}

/// Words that say a moment are read one after the other.
proof fn spelled_is_scanned(
    st: Scan,
    ps: Seq<Piece>,
    t: YmdHms,
    ws: Seq<Seq<char>>,
    rest: Seq<char>,
)
    requires
        spell(ps, t, ws, rest),
    ensures
        golayout::scanned_all(st, ps, in_front(ws, rest)) == Some((after(st, ps, t), rest)),
    decreases ps.len(),
{
    if ps.len() > 0 {
        let w = ws[0];
        let more = in_front(ws.skip(1), rest);
        let s = w + more;
        match ps[0] {
            Piece::Token(k) => {
                token_reads(st, k, t, w, more);
            },
            Piece::Literal(c) => {
                assert(s[0] == w[0]);
            },
        }
        assert(s.skip(w.len() as int) =~= more);
        spelled_is_scanned(step(st, ps[0], t), ps.skip(1), t, ws.skip(1), rest);
    }
}

/// What is known after all pieces were read.
proof fn after_is(st: Scan, ps: Seq<Piece>, t: YmdHms)
    ensures
        ({
            let r = after(st, ps, t);
            &&& r.t.year == if has_year(ps) { t.year } else { st.t.year }
            &&& r.t.month == if has_month(ps) { t.month } else { st.t.month }
            &&& r.t.day == if has_day(ps) { t.day } else { st.t.day }
            &&& r.t.minute == if golayout::mentions(ps, Tok::Minute) { t.minute } else { st.t.minute }
            &&& r.t.second == if golayout::mentions(ps, Tok::Second) { t.second } else { st.t.second }
            &&& r.has_month == (st.has_month || has_month(ps))
            &&& r.has_day == (st.has_day || has_day(ps))
            &&& r.has_ampm == (st.has_ampm || has_half(ps))
            &&& r.pm == if has_half(ps) { t.hour >= 12 } else { st.pm }
            &&& !has_hour(ps) ==> r.t.hour == st.t.hour
            &&& has_hour(ps) ==> r.t.hour == t.hour || (golayout::mentions(ps, Tok::Hour12)
                && r.t.hour == clock_hour(t.hour as int) as u32)
        }),
    decreases ps.len(),
{
    if ps.len() > 0 {
        golayout::mentions_step(ps, Tok::Year4);
        golayout::mentions_step(ps, Tok::Year2);
        golayout::mentions_step(ps, Tok::Month2);
        golayout::mentions_step(ps, Tok::Month1);
        golayout::mentions_step(ps, Tok::MonAbbr);
        golayout::mentions_step(ps, Tok::MonFull);
        golayout::mentions_step(ps, Tok::Day2);
        golayout::mentions_step(ps, Tok::Day1);
        golayout::mentions_step(ps, Tok::Hour24);
        golayout::mentions_step(ps, Tok::Hour12);
        golayout::mentions_step(ps, Tok::Minute);
        golayout::mentions_step(ps, Tok::Second);
        golayout::mentions_step(ps, Tok::PmUpper);
        golayout::mentions_step(ps, Tok::PmLower);
        after_is(step(st, ps[0], t), ps.skip(1), t);
    }
}

/// A text that spells a moment by a layout is read as the fields that the
/// layout has, and refused exactly where more than white space is left of it or
/// one of these fields is out of its range.
pub proof fn spelled_times_are_read(
    layout: Seq<char>,
    t: YmdHms,
    ws: Seq<Seq<char>>,
    rest: Seq<char>,
)
    requires
        spell(golayout::layout_pieces(layout), t, ws, rest),
        golayout::mentions(golayout::layout_pieces(layout), Tok::Hour12) ==> has_half(
            golayout::layout_pieces(layout),
        ),
        has_half(golayout::layout_pieces(layout)) ==> t.hour <= 23,
    ensures
        golayout::parsed(layout, in_front(ws, rest)) == ({
            let ps = golayout::layout_pieces(layout);
            if text::all_white(rest) && (has_month(ps) ==> 1 <= t.month <= 12) && (has_day(ps)
                ==> 1 <= t.day <= 31) && (has_hour(ps) ==> t.hour <= 23) && (golayout::mentions(
                ps,
                Tok::Minute,
            ) ==> t.minute <= 59) && (golayout::mentions(ps, Tok::Second) ==> t.second <= 60) {
                Some(told(ps, t))
            } else {
                None
            }
        }),
{
    let ps = golayout::layout_pieces(layout);
    let st = golayout::start_scan();
    spelled_is_scanned(st, ps, t, ws, rest);
    after_is(st, ps, t);
    text::blank_is_white(rest);
}

// ---------------------------------------------------------------------------
// Reading what was written
// ---------------------------------------------------------------------------

/// Whether a piece of a layout begins with a digit when it is written.
pub open spec fn starts_with_digit(p: Piece) -> bool {
    match p {
        Piece::Literal(c) => text::is_digit(c),
        Piece::Token(k) => !starts_with_letter(p),
    }
}

/// Whether a piece of a layout begins with an ASCII letter when it is written.
pub open spec fn starts_with_letter(p: Piece) -> bool {
    match p {
        Piece::Literal(c) => text::is_ascii_letter(c),
        Piece::Token(k) => k == Tok::MonAbbr || k == Tok::MonFull || k == Tok::WdAbbr || k
            == Tok::WdFull || k == Tok::PmUpper || k == Tok::PmLower,
    }
}

/// Whether the pieces of a layout can be told apart when it is written: behind a
/// number without a leading zero stands no digit, and behind a name no letter.
pub open spec fn told_apart(ps: Seq<Piece>) -> bool {
    forall|i: int, j: int|
        #![trigger ps[i], ps[j]]
        0 <= i < j < ps.len() && j == i + 1 ==> {
            &&& ps[i] == Piece::Token(Tok::Month1) || ps[i] == Piece::Token(Tok::Day1)
                ==> !starts_with_digit(ps[j])
            &&& ps[i] == Piece::Token(Tok::MonAbbr) || ps[i] == Piece::Token(Tok::WdAbbr)
                ==> !starts_with_letter(ps[j])
        }
}

/// The words of a layout as it is written.
spec fn words(ps: Seq<Piece>, t: YmdHms) -> Seq<Seq<char>> {
    Seq::new(
        ps.len(),
        |i: int|
            match ps[i] {
                Piece::Token(k) => golayout::rendered(k, t),
                Piece::Literal(c) => seq![c],
            },
    )
}

proof fn words_make_text(ps: Seq<Piece>, t: YmdHms)
    ensures
        in_front(words(ps, t), seq![]) == golayout::as_time(ps, t),
    decreases ps.len(),
{
    if ps.len() > 0 {
        words_make_text(ps.skip(1), t);
        assert(words(ps, t).skip(1) =~= words(ps.skip(1), t));
    }
}

/// What a piece begins with when it is written.
proof fn first_character(ps: Seq<Piece>, t: YmdHms)
    requires
        golayout::proper_time(t),
    ensures
        ps.len() == 0 ==> golayout::as_time(ps, t).len() == 0,
        ps.len() > 0 ==> golayout::as_time(ps, t).len() > 0 && (text::is_digit(
            golayout::as_time(ps, t)[0],
        ) ==> starts_with_digit(ps[0])) && (text::is_ascii_letter(golayout::as_time(ps, t)[0])
            ==> starts_with_letter(ps[0])),
{
    if ps.len() > 0 {
        let s = golayout::as_time(ps, t);
        if let Piece::Token(k) = ps[0] {
            let w = golayout::rendered(k, t);
            if starts_with_letter(ps[0]) {
                let m = golayout::clamp_month(t.month as int);
                let d = golayout::weekday_of(t);
                golayout::names_are_long(m);
                golayout::names_are_long(d);
                name_heads(m);
                name_heads(d);
                reveal_strlit("AM");
                reveal_strlit("PM");
                reveal_strlit("am");
                reveal_strlit("pm");
                assert(w.len() > 0);
                assert(s[0] == w[0]);
                assert(!text::is_digit(w[0])) by {
                    if k == Tok::MonAbbr || k == Tok::MonFull {
                        assert(w[0] == golayout::month_name(m)[0]);
                    } else if k == Tok::WdAbbr || k == Tok::WdFull {
                        assert(w[0] == golayout::weekday_name(d)[0]);
                    }
                }
            } else {
                number_words(k, t);
                assert(text::is_digit(w[0]));
                assert(s[0] == w[0]);
            }
        } else {
            assert(s[0] == ps[0]->Literal_0);
        }
    }
}

/// A number as it is written.
proof fn number_words(k: Tok, t: YmdHms)
    requires
        golayout::proper_time(t),
        !starts_with_letter(Piece::Token(k)),
    ensures
        ({
            let w = golayout::rendered(k, t);
            &&& decimal::all_digits(w)
            &&& w.len() >= 1
            &&& k == Tok::Year4 ==> w.len() == 4 && decimal::value(w) == t.year
            &&& k == Tok::Year2 ==> w.len() == 2 && decimal::value(w) == t.year as int % 100
            &&& k == Tok::Month2 ==> w.len() == 2 && decimal::value(w) == t.month
            &&& k == Tok::Month1 ==> w.len() <= 2 && decimal::value(w) == t.month
            &&& k == Tok::Day2 ==> w.len() == 2 && decimal::value(w) == t.day
            &&& k == Tok::Day1 ==> w.len() <= 2 && decimal::value(w) == t.day
            &&& k == Tok::Hour24 ==> w.len() == 2 && decimal::value(w) == t.hour
            &&& k == Tok::Hour12 ==> w.len() == 2 && decimal::value(w) == clock_hour(t.hour as int)
            &&& k == Tok::Minute ==> w.len() == 2 && decimal::value(w) == t.minute
            &&& k == Tok::Second ==> w.len() == 2 && decimal::value(w) == t.second
        }),
{
    match k {
        Tok::Year4 => golayout::padded_digits(t.year as int, 4),
        Tok::Year2 => golayout::padded_digits(t.year as int % 100, 2),
        Tok::Month2 => golayout::padded_digits(t.month as int, 2),
        Tok::Day2 => golayout::padded_digits(t.day as int, 2),
        Tok::Hour24 => golayout::padded_digits(t.hour as int, 2),
        Tok::Hour12 => golayout::padded_digits(clock_hour(t.hour as int), 2),
        Tok::Minute => golayout::padded_digits(t.minute as int, 2),
        Tok::Second => golayout::padded_digits(t.second as int, 2),
        Tok::Month1 => {
            decimal::value_of_decimal(t.month as nat);
            decimal::decimal_len_small(t.month as nat);
        },
        Tok::Day1 => {
            decimal::value_of_decimal(t.day as nat);
            decimal::decimal_len_small(t.day as nat);
        },
        _ => {},
    }
}

proof fn same_word_itself(a: Seq<char>)
    ensures
        text::same_word(a, a),
{
}

/// A name as it is written is the name.
proof fn name_words(name: Seq<char>, more: Seq<char>)
    requires
        3 <= name.len(),
        forall|i: int| 0 <= i < name.len() ==> text::is_ascii_letter(#[trigger] name[i]),
        more.len() > 0 ==> !text::is_ascii_letter(more[0]),
    ensures
        is_name(name.take(3), more, name),
        text::same_word(name, name),
{
    let w = name.take(3);
    same_word_itself(w);
    same_word_itself(name);
    let s = w + more;
    if name.len() == 3 {
        assert(w =~= name);
    } else {
        assert forall|n: int| n == name.len() && n <= s.len() implies !text::same_word(
            #[trigger] s.take(n),
            name,
        ) by {
            let u = s.take(n);
            assert(u[3] == more[0]);
            assert(text::is_ascii_letter(name[3]));
            if text::same_word(u, name) {
                assert(u[3] == name[3] || 'A' <= u[3] <= 'Z' && name[3] as int == u[3] as int + 32
                    || 'A' <= name[3] <= 'Z' && u[3] as int == name[3] as int + 32);
            }
        }
    }
}

proof fn names_are_letters(i: int)
    ensures
        forall|j: int|
            0 <= j < golayout::month_name(i).len() ==> text::is_ascii_letter(
                #[trigger] golayout::month_name(i)[j],
            ),
        forall|j: int|
            0 <= j < golayout::weekday_name(i).len() ==> text::is_ascii_letter(
                #[trigger] golayout::weekday_name(i)[j],
            ),
{
    reveal_strlit("January");
    reveal_strlit("February");
    reveal_strlit("March");
    reveal_strlit("April");
    reveal_strlit("May");
    reveal_strlit("June");
    reveal_strlit("July");
    reveal_strlit("August");
    reveal_strlit("September");
    reveal_strlit("October");
    reveal_strlit("November");
    reveal_strlit("December");
    reveal_strlit("Sunday");
    reveal_strlit("Monday");
    reveal_strlit("Tuesday");
    reveal_strlit("Wednesday");
    reveal_strlit("Thursday");
    reveal_strlit("Friday");
    reveal_strlit("Saturday");
}

/// What is written by a layout whose pieces can be told apart spells the moment.
proof fn written_is_spelled(ps: Seq<Piece>, t: YmdHms)
    requires
        told_apart(ps),
        golayout::proper_time(t),
        golayout::mentions(ps, Tok::Year2) ==> 2000 <= t.year <= 2099,
    ensures
        spell(ps, t, words(ps, t), seq![]),
    decreases ps.len(),
{
    if ps.len() > 0 {
        let tail = ps.skip(1);
        let ws = words(ps, t);
        assert(ws.skip(1) =~= words(tail, t));
        assert forall|i: int, j: int|
            #![trigger tail[i], tail[j]]
            0 <= i < j < tail.len() && j == i + 1 implies {
            &&& tail[i] == Piece::Token(Tok::Month1) || tail[i] == Piece::Token(Tok::Day1)
                ==> !starts_with_digit(tail[j])
            &&& tail[i] == Piece::Token(Tok::MonAbbr) || tail[i] == Piece::Token(Tok::WdAbbr)
                ==> !starts_with_letter(tail[j])
        } by {
            assert(tail[i] == ps[i + 1]);
            assert(tail[j] == ps[j + 1]);
        }
        golayout::mentions_step(ps, Tok::Year2);
        written_is_spelled(tail, t);
        words_make_text(tail, t);
        let more = golayout::as_time(tail, t);
        first_character(tail, t);
        if tail.len() > 0 {
            assert(tail[0] == ps[1]);
        }
        if let Piece::Token(k) = ps[0] {
            let w = ws[0];
            assert(w == golayout::rendered(k, t));
            if !starts_with_letter(ps[0]) {
                number_words(k, t);
                assert(says(k, t, w, more));
            } else {
                let m = t.month as int;
                let d = golayout::weekday_of(t);
                golayout::names_are_long(m);
                golayout::names_are_long(d);
                names_are_letters(m);
                names_are_letters(d);
                if k == Tok::MonAbbr {
                    name_words(golayout::month_name(m), more);
                } else if k == Tok::MonFull {
                    same_word_itself(w);
                } else if k == Tok::WdAbbr {
                    name_words(golayout::weekday_name(d), more);
                    assert(is_name(w, more, golayout::weekday_name(d)));
                } else if k == Tok::WdFull {
                    same_word_itself(w);
                    assert(is_name(w, more, golayout::weekday_name(d)));
                } else {
                    reveal_strlit("AM");
                    reveal_strlit("PM");
                    reveal_strlit("am");
                    reveal_strlit("pm");
                }
                assert(says(k, t, w, more));
            }
        }
    }
}

/// Reading undoes writing: by a layout whose pieces can be told apart, every
/// field that the layout has is read back as it was written, whatever the token
/// it is written by. Years of two digits are those of this century, and an hour
/// of a twelve-hour clock is to have the half of the day beside it.
pub proof fn written_times_are_read_back(layout: Seq<char>, t: YmdHms)
    requires
        told_apart(golayout::layout_pieces(layout)),
        golayout::proper_time(t),
        golayout::mentions(golayout::layout_pieces(layout), Tok::Year2) ==> 2000 <= t.year <= 2099,
        golayout::mentions(golayout::layout_pieces(layout), Tok::Hour12) ==> has_half(
            golayout::layout_pieces(layout),
        ),
    ensures
        golayout::parsed(layout, written(layout, t)) == Some(
            told(golayout::layout_pieces(layout), t),
        ),
{
    let ps = golayout::layout_pieces(layout);
    written_is_spelled(ps, t);
    words_make_text(ps, t);
    spelled_times_are_read(layout, t, words(ps, t), seq![]);
}

/// A date in the layout of the pattern `M/D/YYYY` is read back whole.
pub proof fn short_dates_are_read_back(t: YmdHms)
    requires
        golayout::proper_time(t),
    ensures
        golayout::parsed("1/2/2006"@, written("1/2/2006"@, t)) == Some(
            YmdHms { hour: 0, minute: 0, second: 0, ..t },
        ),
{
    let ps = seq![
        Piece::Token(Tok::Month1),
        Piece::Literal('/'),
        Piece::Token(Tok::Day1),
        Piece::Literal('/'),
        Piece::Token(Tok::Year4),
    ];
    reveal_with_fuel(golayout::as_layout, 6);
    reveal_strlit("1");
    reveal_strlit("2");
    reveal_strlit("2006");
    reveal_strlit("1/2/2006");
    assert(golayout::as_layout(ps) =~= "1/2/2006"@);
    golayout::layout_reads_back(ps);
    assert(ps[0] == Piece::Token(Tok::Month1));
    assert(ps[2] == Piece::Token(Tok::Day1));
    assert(ps[4] == Piece::Token(Tok::Year4));
    written_times_are_read_back("1/2/2006"@, t);
}

/// A date in the layout of the pattern `YYYY/MM/DD` is read back whole.
pub proof fn slashed_dates_are_read_back(t: YmdHms)
    requires
        golayout::proper_time(t),
    ensures
        golayout::parsed("2006/01/02"@, written("2006/01/02"@, t)) == Some(
            YmdHms { hour: 0, minute: 0, second: 0, ..t },
        ),
{
    let ps = seq![
        Piece::Token(Tok::Year4),
        Piece::Literal('/'),
        Piece::Token(Tok::Month2),
        Piece::Literal('/'),
        Piece::Token(Tok::Day2),
    ];
    reveal_with_fuel(golayout::as_layout, 6);
    reveal_strlit("01");
    reveal_strlit("02");
    reveal_strlit("2006");
    reveal_strlit("2006/01/02");
    assert(golayout::as_layout(ps) =~= "2006/01/02"@);
    golayout::layout_reads_back(ps);
    assert(ps[0] == Piece::Token(Tok::Year4));
    assert(ps[2] == Piece::Token(Tok::Month2));
    assert(ps[4] == Piece::Token(Tok::Day2));
    written_times_are_read_back("2006/01/02"@, t);
}

// ---------------------------------------------------------------------------
// Patterns
// ---------------------------------------------------------------------------

/// Whether a word of patterns stands for a word of layouts.
pub open spec fn stands_for(p: Seq<char>, l: Seq<char>) -> bool {
    (p == "YYYY"@ && l == "2006"@)
        || (p == "YY"@ && l == "06"@)
        || (p == "MM"@ && l == "01"@)
        || (p == "M"@ && l == "1"@)
        || (p == "DD"@ && l == "02"@)
        || (p == "D"@ && l == "2"@)
        || (p == "HH"@ && l == "15"@)
        || (p == "hh"@ && l == "03"@)
        || (p == "mm"@ && l == "04"@)
        || (p == "ss"@ && l == "05"@)
        || (p == "MMM"@ && l == "Jan"@)
        || (p == "MMMM"@ && l == "January"@)
        || (p == "ddd"@ && l == "Mon"@)
        || (p == "dddd"@ && l == "Monday"@)
        || (p == "A"@ && l == "PM"@)
        || (p == "a"@ && l == "pm"@)
}

/// The token of a word of patterns.
spec fn pattern_word_token(p: Seq<char>) -> Tok {
    if p == "YYYY"@ {
        Tok::Year4
    } else if p == "YY"@ {
        Tok::Year2
    } else if p == "MM"@ {
        Tok::Month2
    } else if p == "M"@ {
        Tok::Month1
    } else if p == "DD"@ {
        Tok::Day2
    } else if p == "D"@ {
        Tok::Day1
    } else if p == "HH"@ {
        Tok::Hour24
    } else if p == "hh"@ {
        Tok::Hour12
    } else if p == "mm"@ {
        Tok::Minute
    } else if p == "ss"@ {
        Tok::Second
    } else if p == "MMM"@ {
        Tok::MonAbbr
    } else if p == "MMMM"@ {
        Tok::MonFull
    } else if p == "ddd"@ {
        Tok::WdAbbr
    } else if p == "dddd"@ {
        Tok::WdFull
    } else if p == "A"@ {
        Tok::PmUpper
    } else {
        Tok::PmLower
    }
}

/// When a text begins with the words of patterns.
proof fn pattern_starts(s: Seq<char>)
    ensures
        text::begins(s, "YYYY"@) == (s.len() >= 4 && s[0] == 'Y' && s[1] == 'Y' && s[2] == 'Y' && s[3] == 'Y'),
        text::begins(s, "YY"@) == (s.len() >= 2 && s[0] == 'Y' && s[1] == 'Y'),
        text::begins(s, "MM"@) == (s.len() >= 2 && s[0] == 'M' && s[1] == 'M'),
        text::begins(s, "M"@) == (s.len() >= 1 && s[0] == 'M'),
        text::begins(s, "DD"@) == (s.len() >= 2 && s[0] == 'D' && s[1] == 'D'),
        text::begins(s, "D"@) == (s.len() >= 1 && s[0] == 'D'),
        text::begins(s, "HH"@) == (s.len() >= 2 && s[0] == 'H' && s[1] == 'H'),
        text::begins(s, "hh"@) == (s.len() >= 2 && s[0] == 'h' && s[1] == 'h'),
        text::begins(s, "mm"@) == (s.len() >= 2 && s[0] == 'm' && s[1] == 'm'),
        text::begins(s, "ss"@) == (s.len() >= 2 && s[0] == 's' && s[1] == 's'),
        text::begins(s, "MMM"@) == (s.len() >= 3 && s[0] == 'M' && s[1] == 'M' && s[2] == 'M'),
        text::begins(s, "MMMM"@) == (s.len() >= 4 && s[0] == 'M' && s[1] == 'M' && s[2] == 'M' && s[3] == 'M'),
        text::begins(s, "ddd"@) == (s.len() >= 3 && s[0] == 'd' && s[1] == 'd' && s[2] == 'd'),
        text::begins(s, "dddd"@) == (s.len() >= 4 && s[0] == 'd' && s[1] == 'd' && s[2] == 'd' && s[3] == 'd'),
        text::begins(s, "A"@) == (s.len() >= 1 && s[0] == 'A'),
        text::begins(s, "a"@) == (s.len() >= 1 && s[0] == 'a'),
{
    reveal_strlit("YYYY");
    golayout::begins_4(s, "YYYY"@);
    reveal_strlit("YY");
    golayout::begins_2(s, "YY"@);
    reveal_strlit("MM");
    golayout::begins_2(s, "MM"@);
    reveal_strlit("M");
    golayout::begins_1(s, "M"@);
    reveal_strlit("DD");
    golayout::begins_2(s, "DD"@);
    reveal_strlit("D");
    golayout::begins_1(s, "D"@);
    reveal_strlit("HH");
    golayout::begins_2(s, "HH"@);
    reveal_strlit("hh");
    golayout::begins_2(s, "hh"@);
    reveal_strlit("mm");
    golayout::begins_2(s, "mm"@);
    reveal_strlit("ss");
    golayout::begins_2(s, "ss"@);
    reveal_strlit("MMM");
    golayout::begins_3(s, "MMM"@);
    reveal_strlit("MMMM");
    golayout::begins_4(s, "MMMM"@);
    reveal_strlit("ddd");
    golayout::begins_3(s, "ddd"@);
    reveal_strlit("dddd");
    golayout::begins_4(s, "dddd"@);
    reveal_strlit("A");
    golayout::begins_1(s, "A"@);
    reveal_strlit("a");
    golayout::begins_1(s, "a"@);
}

/// The words of patterns and layouts by their tokens.
proof fn words_of_tokens(p: Seq<char>, l: Seq<char>)
    requires
        stands_for(p, l),
    ensures
        golayout::pattern_text(pattern_word_token(p)) == p,
        golayout::layout_text(pattern_word_token(p)) == l,
        is_layout_word(l),
        word_token(l) == pattern_word_token(p),
        p.len() > 0,
{
    reveal_strlit("YYYY");
    reveal_strlit("YY");
    reveal_strlit("MM");
    reveal_strlit("M");
    reveal_strlit("DD");
    reveal_strlit("D");
    reveal_strlit("HH");
    reveal_strlit("hh");
    reveal_strlit("mm");
    reveal_strlit("ss");
    reveal_strlit("MMM");
    reveal_strlit("MMMM");
    reveal_strlit("ddd");
    reveal_strlit("dddd");
    reveal_strlit("A");
    reveal_strlit("a");
    assert("YYYY"@.len() == 4 && "YYYY"@[0] == 'Y' && "YYYY"@[1] == 'Y');
    assert("YY"@.len() == 2 && "YY"@[0] == 'Y' && "YY"@[1] == 'Y');
    assert("MM"@.len() == 2 && "MM"@[0] == 'M' && "MM"@[1] == 'M');
    assert("M"@.len() == 1 && "M"@[0] == 'M');
    assert("DD"@.len() == 2 && "DD"@[0] == 'D' && "DD"@[1] == 'D');
    assert("D"@.len() == 1 && "D"@[0] == 'D');
    assert("HH"@.len() == 2 && "HH"@[0] == 'H' && "HH"@[1] == 'H');
    assert("hh"@.len() == 2 && "hh"@[0] == 'h' && "hh"@[1] == 'h');
    assert("mm"@.len() == 2 && "mm"@[0] == 'm' && "mm"@[1] == 'm');
    assert("ss"@.len() == 2 && "ss"@[0] == 's' && "ss"@[1] == 's');
    assert("MMM"@.len() == 3 && "MMM"@[0] == 'M' && "MMM"@[1] == 'M');
    assert("MMMM"@.len() == 4 && "MMMM"@[0] == 'M' && "MMMM"@[1] == 'M');
    assert("ddd"@.len() == 3 && "ddd"@[0] == 'd' && "ddd"@[1] == 'd');
    assert("dddd"@.len() == 4 && "dddd"@[0] == 'd' && "dddd"@[1] == 'd');
    assert("A"@.len() == 1 && "A"@[0] == 'A');
    assert("a"@.len() == 1 && "a"@[0] == 'a');
    reveal_strlit("2006");
    reveal_strlit("06");
    reveal_strlit("01");
    reveal_strlit("1");
    reveal_strlit("02");
    reveal_strlit("2");
    reveal_strlit("15");
    reveal_strlit("03");
    reveal_strlit("04");
    reveal_strlit("05");
    reveal_strlit("Jan");
    reveal_strlit("January");
    reveal_strlit("Mon");
    reveal_strlit("Monday");
    reveal_strlit("PM");
    reveal_strlit("pm");
    assert("2006"@.len() == 4 && "2006"@[0] == '2' && "2006"@[1] == '0');
    assert("06"@.len() == 2 && "06"@[0] == '0' && "06"@[1] == '6');
    assert("01"@.len() == 2 && "01"@[0] == '0' && "01"@[1] == '1');
    assert("1"@.len() == 1 && "1"@[0] == '1');
    assert("02"@.len() == 2 && "02"@[0] == '0' && "02"@[1] == '2');
    assert("2"@.len() == 1 && "2"@[0] == '2');
    assert("15"@.len() == 2 && "15"@[0] == '1' && "15"@[1] == '5');
    assert("03"@.len() == 2 && "03"@[0] == '0' && "03"@[1] == '3');
    assert("04"@.len() == 2 && "04"@[0] == '0' && "04"@[1] == '4');
    assert("05"@.len() == 2 && "05"@[0] == '0' && "05"@[1] == '5');
    assert("Jan"@.len() == 3 && "Jan"@[0] == 'J' && "Jan"@[1] == 'a');
    assert("January"@.len() == 7 && "January"@[0] == 'J' && "January"@[1] == 'a');
    assert("Mon"@.len() == 3 && "Mon"@[0] == 'M' && "Mon"@[1] == 'o');
    assert("Monday"@.len() == 6 && "Monday"@[0] == 'M' && "Monday"@[1] == 'o');
    assert("PM"@.len() == 2 && "PM"@[0] == 'P' && "PM"@[1] == 'M');
    assert("pm"@.len() == 2 && "pm"@[0] == 'p' && "pm"@[1] == 'm');
}

/// The pieces of a pattern that begins with a word.
proof fn pattern_word_pieces(p: Seq<char>, l: Seq<char>, more: Seq<char>)
    requires
        stands_for(p, l),
        more.len() > 0 ==> more[0] != p.last(),
    ensures
        golayout::pattern_pieces(p + more) == seq![Piece::Token(pattern_word_token(p))]
            + golayout::pattern_pieces(more),
{
    let k = pattern_word_token(p);
    words_of_tokens(p, l);
    golayout::widths(k);
    let s = p + more;
    pattern_starts(s);
    pattern_starts(p);
    golayout::begins_iff(p, p);
    assert(forall|i: int| 0 <= i < p.len() ==> s[i] == #[trigger] p[i]);
    assert(more.len() > 0 ==> s[p.len() as int] == more[0]);
    assert(golayout::pattern_token(s) == Some(k)) by {
        reveal(golayout::pattern_token);
    }
    assert(s.skip(golayout::pattern_width(k)) =~= more);
}

/// Whether a character begins no word of patterns.
pub open spec fn no_word_starts(c: char) -> bool {
    c != 'Y' && c != 'M' && c != 'D' && c != 'H' && c != 'h' && c != 'm' && c != 's' && c != 'd'
        && c != 'A' && c != 'a'
}

proof fn pattern_literal_pieces(c: char, more: Seq<char>)
    requires
        no_word_starts(c),
    ensures
        golayout::pattern_pieces(seq![c] + more) == seq![Piece::Literal(c)]
            + golayout::pattern_pieces(more),
{
    let s = seq![c] + more;
    assert(s[0] == c);
    pattern_starts(s);
    assert(golayout::pattern_token(s) is None) by {
        reveal(golayout::pattern_token);
    }
    assert(s.skip(1) =~= more);
}

/// A token in front of pieces.
proof fn token_in_front(k: Tok, rest: Seq<Piece>)
    ensures
        ({
            let ps = seq![Piece::Token(k)] + rest;
            &&& golayout::some_token(ps)
            &&& golayout::stray_letter(ps) == golayout::stray_letter(rest)
            &&& golayout::as_layout(ps) == golayout::layout_text(k) + golayout::as_layout(rest)
            &&& golayout::as_pattern(ps) == golayout::pattern_text(k) + golayout::as_pattern(rest)
        }),
{
    let ps = seq![Piece::Token(k)] + rest;
    assert(ps.skip(1) =~= rest);
    assert(ps[0] is Token);
    if golayout::stray_letter(rest) {
        let i = choose|i: int|
            0 <= i < rest.len() && (#[trigger] rest[i] matches Piece::Literal(c) && text::is_letter(
                c,
            ));
        assert(ps[i + 1] == rest[i]);
    }
    if golayout::stray_letter(ps) {
        let i = choose|i: int|
            0 <= i < ps.len() && (#[trigger] ps[i] matches Piece::Literal(c) && text::is_letter(c));
        assert(rest[i - 1] == ps[i]);
    }
}

/// A character in front of pieces.
proof fn literal_in_front(c: char, rest: Seq<Piece>)
    ensures
        ({
            let ps = seq![Piece::Literal(c)] + rest;
            &&& golayout::some_token(ps) == golayout::some_token(rest)
            &&& golayout::stray_letter(ps) == (text::is_letter(c) || golayout::stray_letter(rest))
            &&& golayout::as_layout(ps) == seq![c] + golayout::as_layout(rest)
            &&& golayout::as_pattern(ps) == seq![c] + golayout::as_pattern(rest)
        }),
{
    let ps = seq![Piece::Literal(c)] + rest;
    assert(ps.skip(1) =~= rest);
    assert(ps[0] == Piece::Literal(c));
    if golayout::some_token(rest) {
        let i = choose|i: int| 0 <= i < rest.len() && #[trigger] rest[i] is Token;
        assert(ps[i + 1] is Token);
    }
    if golayout::some_token(ps) {
        let i = choose|i: int| 0 <= i < ps.len() && #[trigger] ps[i] is Token;
        assert(rest[i - 1] is Token);
    }
    if golayout::stray_letter(rest) {
        let i = choose|i: int|
            0 <= i < rest.len() && (#[trigger] rest[i] matches Piece::Literal(c) && text::is_letter(
                c,
            ));
        assert(ps[i + 1] == rest[i]);
    }
    if golayout::stray_letter(ps) && !text::is_letter(c) {
        let i = choose|i: int|
            0 <= i < ps.len() && (#[trigger] ps[i] matches Piece::Literal(c) && text::is_letter(c));
        assert(rest[i - 1] == ps[i]);
    }
}

/// The words of patterns, one by one, become the words of layouts that they
/// stand for; characters that are no letters stay as they are. Without a word,
/// and with a letter that belongs to none, there is no layout.
pub proof fn patterns_become_layouts(p: Seq<char>, l: Seq<char>, c: char, more: Seq<char>)
    ensures
        stands_for(p, l) && (more.len() > 0 ==> more[0] != p.last()) ==> {
            &&& golayout::go_of(more) matches Some(g) ==> golayout::go_of(p + more) == Some(l + g)
            &&& (forall|i: int| 0 <= i < more.len() ==> !text::is_letter(#[trigger] more[i]))
                ==> golayout::go_of(p + more) == Some(l + more)
        },
        !text::is_letter(c) ==> golayout::go_of(seq![c] + more) == (match golayout::go_of(more) {
            Some(g) => Some(seq![c] + g),
            None => None,
        }),
        text::is_letter(c) && no_word_starts(c) ==> golayout::go_of(seq![c] + more) is None,
        (forall|i: int| 0 <= i < more.len() ==> !text::is_letter(#[trigger] more[i]))
            ==> golayout::go_of(more) is None,
{
    let rest = golayout::pattern_pieces(more);
    if forall|i: int| 0 <= i < more.len() ==> !text::is_letter(#[trigger] more[i]) {
        no_letters(more);
    }
    if stands_for(p, l) && (more.len() > 0 ==> more[0] != p.last()) {
        pattern_word_pieces(p, l, more);
        words_of_tokens(p, l);
        token_in_front(pattern_word_token(p), rest);
    }
    if !text::is_letter(c) || no_word_starts(c) {
        pattern_literal_pieces(c, more);
        literal_in_front(c, rest);
    }
}

/// A pattern without letters has no words.
proof fn no_letters(s: Seq<char>)
    requires
        forall|i: int| 0 <= i < s.len() ==> !text::is_letter(#[trigger] s[i]),
    ensures
        golayout::as_layout(golayout::pattern_pieces(s)) == s,
        !golayout::some_token(golayout::pattern_pieces(s)),
        !golayout::stray_letter(golayout::pattern_pieces(s)),
    decreases s.len(),
{
    if s.len() > 0 {
        let c = s[0];
        let more = s.skip(1);
        assert(!text::is_letter(c));
        assert forall|i: int| 0 <= i < more.len() implies !text::is_letter(#[trigger] more[i]) by {
            assert(more[i] == s[i + 1]);
        }
        no_letters(more);
        assert(s =~= seq![c] + more);
        pattern_literal_pieces(c, more);
        literal_in_front(c, golayout::pattern_pieces(more));
    } else {
        assert(golayout::as_layout(golayout::pattern_pieces(s)) =~= s);
    }
}

/// A pattern with a letter that no word has, wherever it stands, has no layout.
pub proof fn stray_letters_are_refused(s: Seq<char>, i: int)
    requires
        0 <= i < s.len(),
        text::is_letter(s[i]),
        no_word_starts(s[i]),
    ensures
        golayout::go_of(s) is None,
{
    stray_stays(s, i);
}

proof fn stray_stays(s: Seq<char>, i: int)
    requires
        0 <= i < s.len(),
        text::is_letter(s[i]),
        no_word_starts(s[i]),
    ensures
        golayout::stray_letter(golayout::pattern_pieces(s)),
    decreases s.len(),
{
    golayout::pattern_token_stands(s);
    match golayout::pattern_token(s) {
        Some(k) => {
            let w = golayout::pattern_width(k);
            golayout::widths(k);
            pattern_starts(s);
            pattern_starts(golayout::pattern_text(k));
            golayout::begins_iff(golayout::pattern_text(k), golayout::pattern_text(k));
            assert(i >= w);
            let more = s.skip(w);
            assert(more[i - w] == s[i]);
            stray_stays(more, i - w);
            token_in_front(k, golayout::pattern_pieces(more));
        },
        None => {
            let more = s.skip(1);
            literal_in_front(s[0], golayout::pattern_pieces(more));
            if i > 0 {
                assert(more[i - 1] == s[i]);
                stray_stays(more, i - 1);
            }
        },
    }
}

/// The words of layouts become the words of patterns that stand for them; other
/// characters that are no digits or letters stay as they are.
pub proof fn layouts_become_patterns(p: Seq<char>, l: Seq<char>, c: char, more: Seq<char>)
    ensures
        stands_for(p, l) && leaves_word(more) ==> golayout::pattern_of(l + more) == p
            + golayout::pattern_of(more),
        !text::is_digit(c) && !text::is_ascii_letter(c) ==> golayout::pattern_of(seq![c] + more)
            == seq![c] + golayout::pattern_of(more),
        golayout::pattern_of(seq![]) == Seq::<char>::empty(),
{
    let rest = golayout::layout_pieces(more);
    if stands_for(p, l) && leaves_word(more) {
        words_of_tokens(p, l);
        word_pieces(l, more);
        token_in_front(word_token(l), rest);
    }
    if !text::is_digit(c) && !text::is_ascii_letter(c) {
        literal_pieces(c, more);
        literal_in_front(c, rest);
    }
}

/// Whether a text has a digit.
pub open spec fn holds_digit(s: Seq<char>) -> bool {
    exists|i: int| 0 <= i < s.len() && '0' <= #[trigger] s[i] <= '9'
}

/// A stored format stands for the default where it is missing or blank, for
/// itself where it has a digit, and else for the layout of the pattern that it
/// is, or the default where it is none. White space around it does not count.
/// It is shown as the pattern that it is or stands for.
pub proof fn formats_are_resolved(
    a: Seq<char>,
    m: Seq<char>,
    b: Seq<char>,
    default_layout: Seq<char>,
    default_pattern: Seq<char>,
)
    requires
        text::all_white(a),
        text::all_white(b),
        m.len() > 0 ==> !text::is_white(m[0]) && !text::is_white(m.last()),
    ensures
        golayout::resolved(None, default_layout) == default_layout,
        golayout::shown_pattern(None, default_pattern) == default_pattern,
        m.len() == 0 ==> golayout::resolved(Some(a + m + b), default_layout) == default_layout
            && golayout::shown_pattern(Some(a + m + b), default_pattern) == default_pattern,
        holds_digit(m) ==> golayout::resolved(Some(a + m + b), default_layout) == m
            && golayout::shown_pattern(Some(a + m + b), default_pattern) == golayout::pattern_of(m),
        m.len() > 0 && !holds_digit(m) ==> golayout::resolved(Some(a + m + b), default_layout) == (
        match golayout::go_of(m) {
            Some(g) => g,
            None => default_layout,
        }) && golayout::shown_pattern(Some(a + m + b), default_pattern) == m,
{
    text::trimmed_is_the_middle(a, m, b);
    if holds_digit(m) {
        let i = choose|i: int| 0 <= i < m.len() && '0' <= #[trigger] m[i] <= '9';
        assert(text::is_digit(m[i]));
    }
    if text::has_digit(m) {
        let i = choose|i: int| 0 <= i < m.len() && text::is_digit(#[trigger] m[i]);
        assert('0' <= m[i] <= '9');
    }
}

/// The default layouts and patterns of the three types of times.
pub proof fn defaults_of_types()
    ensures
        golayout::default_go_of("date"@) == "2006-01-02"@,
        golayout::default_go_of("time"@) == "15:04:05"@,
        golayout::default_go_of("datetime"@) == "2006-01-02 15:04:05"@,
        golayout::default_pattern_of("date"@) == "YYYY-MM-DD"@,
        golayout::default_pattern_of("time"@) == "HH:mm:ss"@,
        golayout::default_pattern_of("datetime"@) == "YYYY-MM-DD HH:mm:ss"@,
        golayout::go_of("YYYY-MM-DD"@) == Some("2006-01-02"@),
        golayout::go_of("HH:mm:ss"@) == Some("15:04:05"@),
        golayout::go_of("YYYY-MM-DD HH:mm:ss"@) == Some("2006-01-02 15:04:05"@),
        golayout::go_of("YYYY/MM/DD"@) == Some("2006/01/02"@),
{
    reveal_strlit("date");
    reveal_strlit("time");
    reveal_strlit("datetime");
    assert("date"@[0] == 'd' && "time"@[0] == 't' && "date"@.len() == 4 && "datetime"@.len() == 8);
    reveal_strlit("2006-01-02");
    reveal_strlit("15:04:05");
    reveal_strlit("2006-01-02 15:04:05");
    reveal_strlit("2006/01/02");
    reveal_strlit("YYYY-MM-DD");
    reveal_strlit("HH:mm:ss");
    reveal_strlit("YYYY-MM-DD HH:mm:ss");
    reveal_strlit("YYYY/MM/DD");
    three_numbers("YYYY"@, "2006"@, '-', "MM"@, "01"@, '-', "DD"@, "02"@, seq![]);
    three_numbers("YYYY"@, "2006"@, '/', "MM"@, "01"@, '/', "DD"@, "02"@, seq![]);
    three_numbers("HH"@, "15"@, ':', "mm"@, "04"@, ':', "ss"@, "05"@, seq![]);
    reveal_strlit("YYYY");
    reveal_strlit("MM");
    reveal_strlit("DD");
    reveal_strlit("HH");
    reveal_strlit("mm");
    reveal_strlit("ss");
    reveal_strlit("2006");
    reveal_strlit("01");
    reveal_strlit("02");
    reveal_strlit("15");
    reveal_strlit("04");
    reveal_strlit("05");
    assert("YYYY-MM-DD"@ =~= "YYYY"@ + (seq!['-'] + ("MM"@ + (seq!['-'] + ("DD"@ + seq![])))));
    assert("2006-01-02"@ =~= "2006"@ + (seq!['-'] + ("01"@ + (seq!['-'] + ("02"@ + seq![])))));
    assert("YYYY/MM/DD"@ =~= "YYYY"@ + (seq!['/'] + ("MM"@ + (seq!['/'] + ("DD"@ + seq![])))));
    assert("2006/01/02"@ =~= "2006"@ + (seq!['/'] + ("01"@ + (seq!['/'] + ("02"@ + seq![])))));
    assert("HH:mm:ss"@ =~= "HH"@ + (seq![':'] + ("mm"@ + (seq![':'] + ("ss"@ + seq![])))));
    assert("15:04:05"@ =~= "15"@ + (seq![':'] + ("04"@ + (seq![':'] + ("05"@ + seq![])))));
    let clock = seq![' '] + "HH:mm:ss"@;
    patterns_become_layouts(seq![], seq![], ' ', "HH:mm:ss"@);
    three_numbers("YYYY"@, "2006"@, '-', "MM"@, "01"@, '-', "DD"@, "02"@, clock);
    assert("YYYY-MM-DD HH:mm:ss"@ =~= "YYYY"@ + (seq!['-'] + ("MM"@ + (seq!['-'] + ("DD"@
        + clock)))));
    assert("2006-01-02 15:04:05"@ =~= "2006"@ + (seq!['-'] + ("01"@ + (seq!['-'] + ("02"@ + (seq![
        ' ',
    ] + "15:04:05"@))))));
}

/// The layout of three words with characters between them.
proof fn three_numbers(
    p1: Seq<char>,
    l1: Seq<char>,
    c: char,
    p2: Seq<char>,
    l2: Seq<char>,
    d: char,
    p3: Seq<char>,
    l3: Seq<char>,
    more: Seq<char>,
)
    requires
        stands_for(p1, l1),
        stands_for(p2, l2),
        stands_for(p3, l3),
        !text::is_letter(c),
        !text::is_letter(d),
        more.len() > 0 ==> more[0] == ' ',
        more.len() > 0 ==> golayout::go_of(more) is Some,
    ensures
        golayout::go_of(p1 + (seq![c] + (p2 + (seq![d] + (p3 + more))))) == Some(
            l1 + (seq![c] + (l2 + (seq![d] + (l3 + if more.len() > 0 {
                golayout::go_of(more)->0
            } else {
                more
            })))),
        ),
{
    words_end_in_letters(p1, l1);
    words_end_in_letters(p2, l2);
    words_end_in_letters(p3, l3);
    let s3 = p3 + more;
    patterns_become_layouts(p3, l3, d, more);
    let s2 = seq![d] + s3;
    patterns_become_layouts(p3, l3, d, s3);
    assert(s2[0] == d);
    patterns_become_layouts(p2, l2, c, s2);
    let s1 = seq![c] + (p2 + s2);
    patterns_become_layouts(p2, l2, c, p2 + s2);
    assert(s1[0] == c);
    patterns_become_layouts(p1, l1, c, s1);
}

proof fn words_end_in_letters(p: Seq<char>, l: Seq<char>)
    requires
        stands_for(p, l),
    ensures
        p.len() > 0,
        text::is_letter(p.last()),
{
    reveal_strlit("YYYY");
    reveal_strlit("YY");
    reveal_strlit("MM");
    reveal_strlit("M");
    reveal_strlit("DD");
    reveal_strlit("D");
    reveal_strlit("HH");
    reveal_strlit("hh");
    reveal_strlit("mm");
    reveal_strlit("ss");
    reveal_strlit("MMM");
    reveal_strlit("MMMM");
    reveal_strlit("ddd");
    reveal_strlit("dddd");
    reveal_strlit("A");
    reveal_strlit("a");
}

// ---------------------------------------------------------------------------
// Calendar
// ---------------------------------------------------------------------------

/// The calendar: 1970-01-01 is the day from which days are counted; each day is
/// one more than the one before; months have 31 days, April, June, September
/// and November 30, February 28, and 29 in each fourth year but the centuries
/// that are no fourth ones.
pub proof fn gregorian_calendar(y: int, m: int, d: int)
    requires
        1 <= m <= 12,
    ensures
        golayout::civil_days(1970, 1, 1) == 0,
        golayout::civil_days(y, m, d + 1) == golayout::civil_days(y, m, d) + 1,
        ({
            let next = if m < 12 {
                golayout::civil_days(y, m + 1, 1)
            } else {
                golayout::civil_days(y + 1, 1, 1)
            };
            next - golayout::civil_days(y, m, 1) == (if m == 4 || m == 6 || m == 9 || m == 11 {
                30int
            } else if m != 2 {
                31
            } else if y % 400 == 0 || (y % 4 == 0 && y % 100 != 0) {
                29
            } else {
                28
            })
        }),
{
    golayout::calendar_laws(y, m, d);
    leap_centuries(y);
}

#[verifier::spinoff_prover]
proof fn leap_centuries(y: int)
    ensures
        y % 400 == 0 ==> y % 4 == 0,
{
}

/// A moment is as many seconds from the beginning of 1970 as its days and its
/// clock time make; without a month and a day only the clock time counts.
pub proof fn seconds_of_moments(t: YmdHms)
    ensures
        t.month > 0 && t.day > 0 ==> golayout::moment_seconds(t) == 86_400 * golayout::civil_days(
            t.year as int,
            t.month as int,
            t.day as int,
        ) + 3_600 * t.hour + 60 * t.minute + t.second,
        t.month == 0 && t.day == 0 ==> golayout::moment_seconds(t) == 3_600 * t.hour + 60 * t.minute
            + t.second,
        t.month > 0 && t.day == 0 ==> golayout::moment_seconds(t) == golayout::moment_seconds(
            YmdHms { day: 1, ..t },
        ),
        t.month == 0 && t.day > 0 ==> golayout::moment_seconds(t) == golayout::moment_seconds(
            YmdHms { month: 1, ..t },
        ),
{
}

// ---------------------------------------------------------------------------
// Refusing
// ---------------------------------------------------------------------------

proof fn scanned_parts(st: Scan, a: Seq<Piece>, b: Seq<Piece>, s: Seq<char>)
    ensures
        golayout::scanned_all(st, a + b, s) == (match golayout::scanned_all(st, a, s) {
            Some((x, rest)) => golayout::scanned_all(x, b, rest),
            None => None,
        }),
    decreases a.len(),
{
    if a.len() == 0 {
        assert(a + b =~= b);
    } else {
        assert((a + b)[0] == a[0]);
        assert((a + b).skip(1) =~= a.skip(1) + b);
        if let Some((next, n)) = golayout::scanned(st, a[0], s) {
            scanned_parts(next, a.skip(1), b, s.skip(n));
        }
    }
}

/// Whether a text cannot begin with a piece of a layout: a sign that is not
/// there, or a number where no digit is, or for a year fewer than four.
pub open spec fn cannot_begin(s: Seq<char>, p: Piece) -> bool {
    match p {
        Piece::Literal(c) => s.len() == 0 || s[0] != c && !(text::is_white(c) && text::is_white(
            s[0],
        )),
        Piece::Token(Tok::Year4) => s.len() < 4 || !('0' <= s[0] <= '9') || !('0' <= s[1] <= '9')
            || !('0' <= s[2] <= '9') || !('0' <= s[3] <= '9'),
        Piece::Token(Tok::Year2)
        | Piece::Token(Tok::Month2)
        | Piece::Token(Tok::Month1)
        | Piece::Token(Tok::Day2)
        | Piece::Token(Tok::Day1)
        | Piece::Token(Tok::Hour24)
        | Piece::Token(Tok::Hour12)
        | Piece::Token(Tok::Minute)
        | Piece::Token(Tok::Second) => s.len() == 0 || !('0' <= s[0] <= '9'),
        _ => false,
    }
}

/// A text that spells the first pieces of a layout, and goes on in a way that
/// the next piece cannot begin, is refused.
pub proof fn other_texts_are_refused(
    layout: Seq<char>,
    a: Seq<Piece>,
    p: Piece,
    b: Seq<Piece>,
    t: YmdHms,
    ws: Seq<Seq<char>>,
    rest: Seq<char>,
)
    requires
        golayout::layout_pieces(layout) == a + seq![p] + b,
        spell(a, t, ws, rest),
        cannot_begin(rest, p),
    ensures
        golayout::parsed(layout, in_front(ws, rest)) is None,
{
    let st = golayout::start_scan();
    let s = in_front(ws, rest);
    spelled_is_scanned(st, a, t, ws, rest);
    assert(a + seq![p] + b =~= a + (seq![p] + b));
    scanned_parts(st, a, seq![p] + b, s);
    assert((seq![p] + b)[0] == p);
    no_piece(after(st, a, t), p, rest);
}

proof fn no_piece(st: Scan, p: Piece, s: Seq<char>)
    requires
        cannot_begin(s, p),
    ensures
        golayout::scanned(st, p, s) is None,
{
    match p {
        Piece::Literal(c) => {},
        Piece::Token(Tok::Year4) => {
            if s.len() < 1 || !('0' <= s[0] <= '9') {
                short_run(s, 4, 0);
            } else if s.len() < 2 || !('0' <= s[1] <= '9') {
                short_run(s, 4, 1);
            } else if s.len() < 3 || !('0' <= s[2] <= '9') {
                short_run(s, 4, 2);
            } else {
                short_run(s, 4, 3);
            }
        },
        Piece::Token(k) => {
            short_run(s, 2, 0);
        },
    }
}

proof fn short_run(s: Seq<char>, max: int, i: int)
    requires
        0 <= i < max,
        i >= s.len() || !('0' <= s[i] <= '9'),
    ensures
        golayout::digit_run(s, max) <= i,
    decreases i,
{
    if i > 0 && s.len() > 0 && text::is_digit(s[0]) {
        let u = s.skip(1);
        if i < s.len() {
            assert(u[i - 1] == s[i]);
        }
        short_run(u, max - 1, i - 1);
    }
}

} // verus!
