//! Time layouts.
//!
//! A *layout* writes a moment with the parts of the reference time
//! (`2006-01-02 15:04:05`); a *pattern* writes the same with letters
//! (`YYYY-MM-DD HH:mm:ss`). Label definitions store patterns; older ones may
//! store layouts, told apart by their digits. Both are read by taking the
//! longest token at each place; every other character stands for itself.

use vstd::prelude::*;

use crate::arith;
use crate::decimal;
use crate::text;

verus! {

/// A calendar date with a time of day. Fields that a layout does not mention
/// are zero.
#[derive(Debug, Clone, Copy, PartialEq, Eq, Structural)]
pub struct YmdHms {
    pub year: i32,
    pub month: u32,
    pub day: u32,
    pub hour: u32,
    pub minute: u32,
    pub second: u32,
}

/// The moment whose fields are all zero.
pub open spec fn zero_time() -> YmdHms {
    YmdHms { year: 0, month: 0, day: 0, hour: 0, minute: 0, second: 0 }
}

impl Default for YmdHms {
    fn default() -> (r: YmdHms)
        ensures
            r == zero_time(),
    {
        YmdHms { year: 0, month: 0, day: 0, hour: 0, minute: 0, second: 0 }
    }
}

pub const DATE_LAYOUT: &'static str = "2006-01-02";

pub const TIME_LAYOUT: &'static str = "15:04:05";

pub const DATETIME_LAYOUT: &'static str = "2006-01-02 15:04:05";

pub const DATE_PATTERN: &'static str = "YYYY-MM-DD";

pub const TIME_PATTERN: &'static str = "HH:mm:ss";

pub const DATETIME_PATTERN: &'static str = "YYYY-MM-DD HH:mm:ss";

/// The default layout of a value type.
pub open spec fn default_go_of(value_type: Seq<char>) -> Seq<char> {
    if value_type == "date"@ {
        DATE_LAYOUT@
    } else if value_type == "time"@ {
        TIME_LAYOUT@
    } else {
        DATETIME_LAYOUT@
    }
}

/// The default layout of a value type.
pub fn default_go(value_type: &str) -> (r: &'static str)
    ensures
        r@ == default_go_of(value_type@),
{
    if text::same(value_type, "date") {
        DATE_LAYOUT
    } else if text::same(value_type, "time") {
        TIME_LAYOUT
    } else {
        DATETIME_LAYOUT
    }
}

/// The default pattern of a value type.
pub open spec fn default_pattern_of(value_type: Seq<char>) -> Seq<char> {
    if value_type == "date"@ {
        DATE_PATTERN@
    } else if value_type == "time"@ {
        TIME_PATTERN@
    } else {
        DATETIME_PATTERN@
    }
}

/// The default pattern of a value type.
pub fn default_pattern(value_type: &str) -> (r: &'static str)
    ensures
        r@ == default_pattern_of(value_type@),
{
    if text::same(value_type, "date") {
        DATE_PATTERN
    } else if text::same(value_type, "time") {
        TIME_PATTERN
    } else {
        DATETIME_PATTERN
    }
}

/// The contents of a list of string slices.
pub open spec fn slices(v: Seq<&'static str>) -> Seq<Seq<char>> {
    Seq::new(v.len(), |i: int| v[i]@)
}

/// The patterns offered for a value type.
pub open spec fn presets_of(value_type: Seq<char>) -> Seq<Seq<char>> {
    if value_type == "date"@ {
        seq![
            "YYYY-MM-DD"@,
            "YYYY/MM/DD"@,
            "YYYYMMDD"@,
            "YYYY年MM月DD日"@,
            "MM/DD/YYYY"@,
        ]
    } else if value_type == "time"@ {
        seq!["HH:mm:ss"@, "HH:mm"@, "HHmmss"@]
    } else {
        seq![
            "YYYY-MM-DD HH:mm:ss"@,
            "YYYY-MM-DD HH:mm"@,
            "YYYYMMDD HHmmss"@,
            "YYYY/MM/DD HH:mm:ss"@,
            "YYYY年MM月DD日 HH:mm:ss"@,
        ]
    }
}

/// The patterns offered for a value type, most common first.
pub fn presets(value_type: &str) -> (r: &'static [&'static str])
    ensures
        slices(r@) == presets_of(value_type@),
{
    if text::same(value_type, "date") {
        let r: &'static [&'static str] = &[
            "YYYY-MM-DD",
            "YYYY/MM/DD",
            "YYYYMMDD",
            "YYYY年MM月DD日",
            "MM/DD/YYYY",
        ];
        assert(slices(r@) =~= presets_of(value_type@));
        r
    } else if text::same(value_type, "time") {
        let r: &'static [&'static str] = &["HH:mm:ss", "HH:mm", "HHmmss"];
        assert(slices(r@) =~= presets_of(value_type@));
        r
    } else {
        let r: &'static [&'static str] = &[
            "YYYY-MM-DD HH:mm:ss",
            "YYYY-MM-DD HH:mm",
            "YYYYMMDD HHmmss",
            "YYYY/MM/DD HH:mm:ss",
            "YYYY年MM月DD日 HH:mm:ss",
        ];
        assert(slices(r@) =~= presets_of(value_type@));
        r
    }
}

/// Every offered pattern starts with a token.
pub proof fn presets_start_with_letters(value_type: Seq<char>)
    ensures
        forall|i: int|
            0 <= i < presets_of(value_type).len() ==> (#[trigger] presets_of(value_type)[i]).len()
                > 0 && (presets_of(value_type)[i][0] == 'Y' || presets_of(value_type)[i][0] == 'M'
                || presets_of(value_type)[i][0] == 'H'),
{
    reveal_strlit("YYYY-MM-DD");
    reveal_strlit("YYYY/MM/DD");
    reveal_strlit("YYYYMMDD");
    reveal_strlit("YYYY年MM月DD日");
    reveal_strlit("MM/DD/YYYY");
    reveal_strlit("HH:mm:ss");
    reveal_strlit("HH:mm");
    reveal_strlit("HHmmss");
    reveal_strlit("YYYY-MM-DD HH:mm:ss");
    reveal_strlit("YYYY-MM-DD HH:mm");
    reveal_strlit("YYYYMMDD HHmmss");
    reveal_strlit("YYYY/MM/DD HH:mm:ss");
    reveal_strlit("YYYY年MM月DD日 HH:mm:ss");
}

// ---------------------------------------------------------------------------
// Tokens
// ---------------------------------------------------------------------------

/// What a token of a layout or a pattern stands for.
#[derive(Debug, Clone, Copy, PartialEq, Eq, Structural)]
pub enum Tok {
    Year4,
    Year2,
    Month2,
    Month1,
    Day2,
    Day1,
    Hour24,
    Hour12,
    Minute,
    Second,
    MonAbbr,
    MonFull,
    WdAbbr,
    WdFull,
    PmUpper,
    PmLower,
}

/// A token, or a character that stands for itself.
#[derive(Debug, Clone, Copy, PartialEq, Eq, Structural)]
pub enum Piece {
    Token(Tok),
    Literal(char),
}

/// How a layout writes a token.
pub open spec fn layout_text(k: Tok) -> Seq<char> {
    match k {
        Tok::Year4 => "2006"@,
        Tok::Year2 => "06"@,
        Tok::Month2 => "01"@,
        Tok::Month1 => "1"@,
        Tok::Day2 => "02"@,
        Tok::Day1 => "2"@,
        Tok::Hour24 => "15"@,
        Tok::Hour12 => "03"@,
        Tok::Minute => "04"@,
        Tok::Second => "05"@,
        Tok::MonAbbr => "Jan"@,
        Tok::MonFull => "January"@,
        Tok::WdAbbr => "Mon"@,
        Tok::WdFull => "Monday"@,
        Tok::PmUpper => "PM"@,
        Tok::PmLower => "pm"@,
    }
}

/// How a pattern writes a token.
pub open spec fn pattern_text(k: Tok) -> Seq<char> {
    match k {
        Tok::Year4 => "YYYY"@,
        Tok::Year2 => "YY"@,
        Tok::Month2 => "MM"@,
        Tok::Month1 => "M"@,
        Tok::Day2 => "DD"@,
        Tok::Day1 => "D"@,
        Tok::Hour24 => "HH"@,
        Tok::Hour12 => "hh"@,
        Tok::Minute => "mm"@,
        Tok::Second => "ss"@,
        Tok::MonAbbr => "MMM"@,
        Tok::MonFull => "MMMM"@,
        Tok::WdAbbr => "ddd"@,
        Tok::WdFull => "dddd"@,
        Tok::PmUpper => "A"@,
        Tok::PmLower => "a"@,
    }
}

/// The number of characters of a token in a layout.
pub open spec fn layout_width(k: Tok) -> int {
    match k {
        Tok::MonFull => 7,
        Tok::WdFull => 6,
        Tok::Year4 => 4,
        Tok::MonAbbr | Tok::WdAbbr => 3,
        Tok::Month1 | Tok::Day1 => 1,
        _ => 2,
    }
}

/// The number of characters of a token in a pattern.
pub open spec fn pattern_width(k: Tok) -> int {
    match k {
        Tok::MonFull | Tok::WdFull | Tok::Year4 => 4,
        Tok::MonAbbr | Tok::WdAbbr => 3,
        Tok::Month1 | Tok::Day1 | Tok::PmUpper | Tok::PmLower => 1,
        _ => 2,
    }
}

/// The token that a layout has at its start.
#[verifier::opaque]
pub open spec fn layout_token(s: Seq<char>) -> Option<Tok> {
    if text::begins(s, "January"@) {
        Some(Tok::MonFull)
    } else if text::begins(s, "Monday"@) {
        Some(Tok::WdFull)
    } else if text::begins(s, "2006"@) {
        Some(Tok::Year4)
    } else if text::begins(s, "Jan"@) {
        Some(Tok::MonAbbr)
    } else if text::begins(s, "Mon"@) {
        Some(Tok::WdAbbr)
    } else if text::begins(s, "06"@) {
        Some(Tok::Year2)
    } else if text::begins(s, "01"@) {
        Some(Tok::Month2)
    } else if text::begins(s, "02"@) {
        Some(Tok::Day2)
    } else if text::begins(s, "15"@) {
        Some(Tok::Hour24)
    } else if text::begins(s, "03"@) {
        Some(Tok::Hour12)
    } else if text::begins(s, "04"@) {
        Some(Tok::Minute)
    } else if text::begins(s, "05"@) {
        Some(Tok::Second)
    } else if text::begins(s, "PM"@) {
        Some(Tok::PmUpper)
    } else if text::begins(s, "pm"@) {
        Some(Tok::PmLower)
    } else if text::begins(s, "1"@) {
        Some(Tok::Month1)
    } else if text::begins(s, "2"@) {
        Some(Tok::Day1)
    } else {
        None
    }
}

/// The token that a pattern has at its start.
#[verifier::opaque]
pub open spec fn pattern_token(s: Seq<char>) -> Option<Tok> {
    if text::begins(s, "YYYY"@) {
        Some(Tok::Year4)
    } else if text::begins(s, "MMMM"@) {
        Some(Tok::MonFull)
    } else if text::begins(s, "dddd"@) {
        Some(Tok::WdFull)
    } else if text::begins(s, "MMM"@) {
        Some(Tok::MonAbbr)
    } else if text::begins(s, "ddd"@) {
        Some(Tok::WdAbbr)
    } else if text::begins(s, "YY"@) {
        Some(Tok::Year2)
    } else if text::begins(s, "MM"@) {
        Some(Tok::Month2)
    } else if text::begins(s, "DD"@) {
        Some(Tok::Day2)
    } else if text::begins(s, "HH"@) {
        Some(Tok::Hour24)
    } else if text::begins(s, "hh"@) {
        Some(Tok::Hour12)
    } else if text::begins(s, "mm"@) {
        Some(Tok::Minute)
    } else if text::begins(s, "ss"@) {
        Some(Tok::Second)
    } else if text::begins(s, "M"@) {
        Some(Tok::Month1)
    } else if text::begins(s, "D"@) {
        Some(Tok::Day1)
    } else if text::begins(s, "A"@) {
        Some(Tok::PmUpper)
    } else if text::begins(s, "a"@) {
        Some(Tok::PmLower)
    } else {
        None
    }
}

/// The widths are the lengths of the texts.
pub proof fn widths(k: Tok)
    ensures
        layout_text(k).len() == layout_width(k),
        pattern_text(k).len() == pattern_width(k),
{
    reveal_strlit("2006");
    reveal_strlit("06");
    reveal_strlit("01");
    reveal_strlit("1");
    reveal_strlit("02");
    reveal_strlit("2");
    reveal_strlit("15");
    reveal_strlit("03");
    reveal_strlit("04");
    reveal_strlit("05");
    reveal_strlit("Jan");
    reveal_strlit("January");
    reveal_strlit("Mon");
    reveal_strlit("Monday");
    reveal_strlit("PM");
    reveal_strlit("pm");
    reveal_strlit("YYYY");
    reveal_strlit("YY");
    reveal_strlit("MM");
    reveal_strlit("M");
    reveal_strlit("DD");
    reveal_strlit("D");
    reveal_strlit("HH");
    reveal_strlit("hh");
    reveal_strlit("mm");
    reveal_strlit("ss");
    reveal_strlit("MMM");
    reveal_strlit("MMMM");
    reveal_strlit("ddd");
    reveal_strlit("dddd");
    reveal_strlit("A");
    reveal_strlit("a");
}

/// The token found at the start of a layout stands there.
pub proof fn layout_token_stands(s: Seq<char>)
    ensures
        layout_token(s) matches Some(k) ==> text::begins(s, layout_text(k)) && layout_width(k)
            <= s.len(),
{
    reveal(layout_token);
    if let Some(k) = layout_token(s) {
        widths(k);
    }
}

/// The token found at the start of a pattern stands there.
pub proof fn pattern_token_stands(s: Seq<char>)
    ensures
        pattern_token(s) matches Some(k) ==> text::begins(s, pattern_text(k)) && pattern_width(k)
            <= s.len(),
{
    reveal(pattern_token);
    if let Some(k) = pattern_token(s) {
        widths(k);
    }
}

/// The pieces of a layout, from left to right.
pub open spec fn layout_pieces(s: Seq<char>) -> Seq<Piece>
    decreases s.len(),
{
    if s.len() == 0 {
        seq![]
    } else {
        proof {
            layout_token_stands(s);
        }
        match layout_token(s) {
            Some(k) => seq![Piece::Token(k)] + layout_pieces(s.skip(layout_width(k))),
            None => seq![Piece::Literal(s[0])] + layout_pieces(s.skip(1)),
        }
    }
}

/// The pieces of a pattern, from left to right.
pub open spec fn pattern_pieces(s: Seq<char>) -> Seq<Piece>
    decreases s.len(),
{
    if s.len() == 0 {
        seq![]
    } else {
        proof {
            pattern_token_stands(s);
        }
        match pattern_token(s) {
            Some(k) => seq![Piece::Token(k)] + pattern_pieces(s.skip(pattern_width(k))),
            None => seq![Piece::Literal(s[0])] + pattern_pieces(s.skip(1)),
        }
    }
}

/// How a layout writes a token.
pub fn layout_text_of(k: Tok) -> (r: &'static str)
    ensures
        r@ == layout_text(k),
{
    match k {
        Tok::Year4 => "2006",
        Tok::Year2 => "06",
        Tok::Month2 => "01",
        Tok::Month1 => "1",
        Tok::Day2 => "02",
        Tok::Day1 => "2",
        Tok::Hour24 => "15",
        Tok::Hour12 => "03",
        Tok::Minute => "04",
        Tok::Second => "05",
        Tok::MonAbbr => "Jan",
        Tok::MonFull => "January",
        Tok::WdAbbr => "Mon",
        Tok::WdFull => "Monday",
        Tok::PmUpper => "PM",
        Tok::PmLower => "pm",
    }
}

/// The token that a layout has at a position.
fn match_layout(v: &Vec<char>, i: usize) -> (r: Option<Tok>)
    requires
        i <= v@.len(),
    ensures
        r == layout_token(v@.skip(i as int)),
{
    reveal(layout_token);
    if text::at(v, i, "January") {
        Some(Tok::MonFull)
    } else if text::at(v, i, "Monday") {
        Some(Tok::WdFull)
    } else if text::at(v, i, "2006") {
        Some(Tok::Year4)
    } else if text::at(v, i, "Jan") {
        Some(Tok::MonAbbr)
    } else if text::at(v, i, "Mon") {
        Some(Tok::WdAbbr)
    } else if text::at(v, i, "06") {
        Some(Tok::Year2)
    } else if text::at(v, i, "01") {
        Some(Tok::Month2)
    } else if text::at(v, i, "02") {
        Some(Tok::Day2)
    } else if text::at(v, i, "15") {
        Some(Tok::Hour24)
    } else if text::at(v, i, "03") {
        Some(Tok::Hour12)
    } else if text::at(v, i, "04") {
        Some(Tok::Minute)
    } else if text::at(v, i, "05") {
        Some(Tok::Second)
    } else if text::at(v, i, "PM") {
        Some(Tok::PmUpper)
    } else if text::at(v, i, "pm") {
        Some(Tok::PmLower)
    } else if text::at(v, i, "1") {
        Some(Tok::Month1)
    } else if text::at(v, i, "2") {
        Some(Tok::Day1)
    } else {
        None
    }
}

/// Reads a layout into its pieces.
pub fn read_layout(s: &str) -> (r: Vec<Piece>)
    ensures
        r@ == layout_pieces(s@),
{
    let v = text::chars_of(s);
    let mut out: Vec<Piece> = Vec::new();
    let mut i: usize = 0;
    assert(v@.skip(0) =~= v@);
    assert(out@ + layout_pieces(v@) =~= layout_pieces(v@));
    while i < v.len()
        invariant
            i <= v@.len(),
            v@ == s@,
            out@ + layout_pieces(v@.skip(i as int)) == layout_pieces(v@),
        decreases v@.len() - i,
    {
        let ghost tail = v@.skip(i as int);
        let ghost before = out@;
        match match_layout(&v, i) {
            Some(k) => {
                proof {
                    layout_token_stands(tail);
                    widths(k);
                }
                let w: usize = text::chars_of(layout_text_of(k)).len();
                out.push(Piece::Token(k));
                i += w;
                assert(w == layout_width(k));
                assert(layout_pieces(tail) == seq![Piece::Token(k)] + layout_pieces(
                    tail.skip(w as int),
                ));
                assert(tail.skip(w as int) =~= v@.skip(i as int));
                let ghost more = layout_pieces(v@.skip(i as int));
                assert(out@ + more =~= before + (seq![Piece::Token(k)] + more));
            },
            None => {
                assert(tail.skip(1) =~= v@.skip(i + 1));
                let c: char = text::char_at(&v, i);
                out.push(Piece::Literal(c));
                let ghost more = layout_pieces(v@.skip(i + 1));
                assert(out@ + more =~= before + (seq![Piece::Literal(c)] + more));
                i += 1;
            },
        }
    }
    assert(v@.skip(i as int) =~= seq![]);
    assert(out@ + layout_pieces(seq![]) =~= out@);
    out
}

/// Writes pieces as a layout.
pub open spec fn as_layout(ps: Seq<Piece>) -> Seq<char>
    decreases ps.len(),
{
    if ps.len() == 0 {
        seq![]
    } else {
        (match ps[0] {
            Piece::Token(k) => layout_text(k),
            Piece::Literal(c) => seq![c],
        }) + as_layout(ps.skip(1))
    }
}

/// Writes pieces as a layout.
fn write_layout(ps: &Vec<Piece>) -> (r: String)
    ensures
        r@ == as_layout(ps@),
{
    let mut out = String::new();
    let mut i: usize = 0;
    assert(ps@.skip(0) =~= ps@);
    assert(out@ + as_layout(ps@) =~= as_layout(ps@));
    while i < ps.len()
        invariant
            i <= ps@.len(),
            out@ + as_layout(ps@.skip(i as int)) == as_layout(ps@),
        decreases ps@.len() - i,
    {
        let ghost tail = ps@.skip(i as int);
        let ghost before = out@;
        assert(tail.skip(1) =~= ps@.skip(i + 1));
        match ps[i] {
            Piece::Token(k) => out.push_str(layout_text_of(k)),
            Piece::Literal(c) => out.push(c),
        }
        i += 1;
        assert(out@ + as_layout(ps@.skip(i as int)) =~= before + as_layout(tail));
    }
    assert(ps@.skip(i as int) =~= seq![]);
    assert(out@ + as_layout(seq![]) =~= out@);
    out
}

/// How a pattern writes a token.
pub fn pattern_text_of(k: Tok) -> (r: &'static str)
    ensures
        r@ == pattern_text(k),
{
    match k {
        Tok::Year4 => "YYYY",
        Tok::Year2 => "YY",
        Tok::Month2 => "MM",
        Tok::Month1 => "M",
        Tok::Day2 => "DD",
        Tok::Day1 => "D",
        Tok::Hour24 => "HH",
        Tok::Hour12 => "hh",
        Tok::Minute => "mm",
        Tok::Second => "ss",
        Tok::MonAbbr => "MMM",
        Tok::MonFull => "MMMM",
        Tok::WdAbbr => "ddd",
        Tok::WdFull => "dddd",
        Tok::PmUpper => "A",
        Tok::PmLower => "a",
    }
}

/// The token that a pattern has at a position.
fn match_pattern(v: &Vec<char>, i: usize) -> (r: Option<Tok>)
    requires
        i <= v@.len(),
    ensures
        r == pattern_token(v@.skip(i as int)),
{
    reveal(pattern_token);
    if text::at(v, i, "YYYY") {
        Some(Tok::Year4)
    } else if text::at(v, i, "MMMM") {
        Some(Tok::MonFull)
    } else if text::at(v, i, "dddd") {
        Some(Tok::WdFull)
    } else if text::at(v, i, "MMM") {
        Some(Tok::MonAbbr)
    } else if text::at(v, i, "ddd") {
        Some(Tok::WdAbbr)
    } else if text::at(v, i, "YY") {
        Some(Tok::Year2)
    } else if text::at(v, i, "MM") {
        Some(Tok::Month2)
    } else if text::at(v, i, "DD") {
        Some(Tok::Day2)
    } else if text::at(v, i, "HH") {
        Some(Tok::Hour24)
    } else if text::at(v, i, "hh") {
        Some(Tok::Hour12)
    } else if text::at(v, i, "mm") {
        Some(Tok::Minute)
    } else if text::at(v, i, "ss") {
        Some(Tok::Second)
    } else if text::at(v, i, "M") {
        Some(Tok::Month1)
    } else if text::at(v, i, "D") {
        Some(Tok::Day1)
    } else if text::at(v, i, "A") {
        Some(Tok::PmUpper)
    } else if text::at(v, i, "a") {
        Some(Tok::PmLower)
    } else {
        None
    }
}

/// Reads a pattern into its pieces.
pub fn read_pattern(s: &str) -> (r: Vec<Piece>)
    ensures
        r@ == pattern_pieces(s@),
{
    let v = text::chars_of(s);
    let mut out: Vec<Piece> = Vec::new();
    let mut i: usize = 0;
    assert(v@.skip(0) =~= v@);
    assert(out@ + pattern_pieces(v@) =~= pattern_pieces(v@));
    while i < v.len()
        invariant
            i <= v@.len(),
            v@ == s@,
            out@ + pattern_pieces(v@.skip(i as int)) == pattern_pieces(v@),
        decreases v@.len() - i,
    {
        let ghost tail = v@.skip(i as int);
        let ghost before = out@;
        match match_pattern(&v, i) {
            Some(k) => {
                proof {
                    pattern_token_stands(tail);
                    widths(k);
                }
                let w: usize = text::chars_of(pattern_text_of(k)).len();
                out.push(Piece::Token(k));
                i += w;
                assert(w == pattern_width(k));
                assert(pattern_pieces(tail) == seq![Piece::Token(k)] + pattern_pieces(
                    tail.skip(w as int),
                ));
                assert(tail.skip(w as int) =~= v@.skip(i as int));
                let ghost more = pattern_pieces(v@.skip(i as int));
                assert(out@ + more =~= before + (seq![Piece::Token(k)] + more));
            },
            None => {
                assert(tail.skip(1) =~= v@.skip(i + 1));
                let c: char = text::char_at(&v, i);
                out.push(Piece::Literal(c));
                let ghost more = pattern_pieces(v@.skip(i + 1));
                assert(out@ + more =~= before + (seq![Piece::Literal(c)] + more));
                i += 1;
            },
        }
    }
    assert(v@.skip(i as int) =~= seq![]);
    assert(out@ + pattern_pieces(seq![]) =~= out@);
    out
}

/// Writes pieces as a pattern.
pub open spec fn as_pattern(ps: Seq<Piece>) -> Seq<char>
    decreases ps.len(),
{
    if ps.len() == 0 {
        seq![]
    } else {
        (match ps[0] {
            Piece::Token(k) => pattern_text(k),
            Piece::Literal(c) => seq![c],
        }) + as_pattern(ps.skip(1))
    }
}

/// Writes pieces as a pattern.
fn write_pattern(ps: &Vec<Piece>) -> (r: String)
    ensures
        r@ == as_pattern(ps@),
{
    let mut out = String::new();
    let mut i: usize = 0;
    assert(ps@.skip(0) =~= ps@);
    assert(out@ + as_pattern(ps@) =~= as_pattern(ps@));
    while i < ps.len()
        invariant
            i <= ps@.len(),
            out@ + as_pattern(ps@.skip(i as int)) == as_pattern(ps@),
        decreases ps@.len() - i,
    {
        let ghost tail = ps@.skip(i as int);
        let ghost before = out@;
        assert(tail.skip(1) =~= ps@.skip(i + 1));
        match ps[i] {
            Piece::Token(k) => out.push_str(pattern_text_of(k)),
            Piece::Literal(c) => out.push(c),
        }
        i += 1;
        assert(out@ + as_pattern(ps@.skip(i as int)) =~= before + as_pattern(tail));
    }
    assert(ps@.skip(i as int) =~= seq![]);
    assert(out@ + as_pattern(seq![]) =~= out@);
    out
}

// ---------------------------------------------------------------------------
// Between patterns and layouts
// ---------------------------------------------------------------------------

/// Whether pieces hold a token.
pub open spec fn some_token(ps: Seq<Piece>) -> bool {
    exists|i: int| 0 <= i < ps.len() && #[trigger] ps[i] is Token
}

/// Whether pieces hold a letter that is no token.
pub open spec fn stray_letter(ps: Seq<Piece>) -> bool {
    exists|i: int|
        0 <= i < ps.len() && (#[trigger] ps[i] matches Piece::Literal(c) && text::is_letter(c))
}

/// The layout of a pattern: none where a letter belongs to no token, nor where
/// there is no token at all.
pub open spec fn go_of(pattern: Seq<char>) -> Option<Seq<char>> {
    let ps = pattern_pieces(pattern);
    if some_token(ps) && !stray_letter(ps) {
        Some(as_layout(ps))
    } else {
        None
    }
}

/// The pattern of a layout.
pub open spec fn pattern_of(layout: Seq<char>) -> Seq<char> {
    as_pattern(layout_pieces(layout))
}

/// Turns a pattern into a layout.
pub fn to_go(pattern: &str) -> (r: Option<String>)
    ensures
        text::opt_view(r) == go_of(pattern@),
{
    let ps = read_pattern(pattern);
    let mut hit = false;
    let mut i: usize = 0;
    while i < ps.len()
        invariant
            i <= ps@.len(),
            ps@ == pattern_pieces(pattern@),
            hit == some_token(ps@.take(i as int)),
            !stray_letter(ps@.take(i as int)),
        decreases ps@.len() - i,
    {
        let ghost now = ps@.take(i as int);
        let ghost next = ps@.take(i + 1);
        assert(forall|j: int| 0 <= j < i ==> now[j] == #[trigger] next[j]);
        match ps[i] {
            Piece::Token(_) => {
                hit = true;
                assert(next[i as int] is Token);
            },
            Piece::Literal(c) => {
                if c.is_alphabetic() {
                    assert(ps@[i as int] matches Piece::Literal(c) && text::is_letter(c));
                    assert(stray_letter(ps@));
                    return None;
                }
                proof {
                    if some_token(now) {
                        let j = choose|j: int| 0 <= j < now.len() && #[trigger] now[j] is Token;
                        assert(next[j] is Token);
                    }
                }
            },
        }
        i += 1;
    }
    assert(ps@.take(i as int) =~= ps@);
    if hit {
        Some(write_layout(&ps))
    } else {
        None
    }
}

/// Turns a layout into a pattern.
pub fn to_pattern(layout: &str) -> (r: String)
    ensures
        r@ == pattern_of(layout@),
{
    let ps = read_layout(layout);
    write_pattern(&ps)
}

/// The layout that a stored format stands for: the default where there is
/// none, the format itself where it has a digit, else the layout of the
/// pattern, and the default again where that is no pattern.
pub open spec fn resolved(stored: Option<Seq<char>>, default_layout: Seq<char>) -> Seq<char> {
    match stored {
        Some(s) => if text::is_blank(s) {
            default_layout
        } else if text::has_digit(text::trimmed(s)) {
            text::trimmed(s)
        } else {
            match go_of(text::trimmed(s)) {
                Some(go) => go,
                None => default_layout,
            }
        },
        None => default_layout,
    }
}

/// The layout that a stored format stands for.
pub fn resolve(stored: Option<&str>, default_layout: &str) -> (r: String)
    ensures
        r@ == resolved(text::opt_str(stored), default_layout@),
{
    match stored {
        Some(raw) => {
            let s = text::trim(raw);
            if s.as_str().is_empty() {
                return default_layout.to_owned();
            }
            if text::any_digit(s.as_str()) {
                return s;
            }
            match to_go(s.as_str()) {
                Some(go) => go,
                None => default_layout.to_owned(),
            }
        },
        None => default_layout.to_owned(),
    }
}

/// The pattern that a stored format is shown as.
pub open spec fn shown_pattern(stored: Option<Seq<char>>, default_pattern: Seq<char>) -> Seq<char> {
    match stored {
        Some(s) => if text::is_blank(s) {
            default_pattern
        } else if text::has_digit(text::trimmed(s)) {
            pattern_of(text::trimmed(s))
        } else {
            text::trimmed(s)
        },
        None => default_pattern,
    }
}

/// The pattern that a stored format is shown as.
pub fn display_pattern(stored: Option<&str>, default_pattern: &str) -> (r: String)
    ensures
        r@ == shown_pattern(text::opt_str(stored), default_pattern@),
{
    match stored {
        Some(raw) => {
            let s = text::trim(raw);
            if s.as_str().is_empty() {
                return default_pattern.to_owned();
            }
            if text::any_digit(s.as_str()) {
                return to_pattern(s.as_str());
            }
            s
        },
        None => default_pattern.to_owned(),
    }
}

// ---------------------------------------------------------------------------
// Calendar
// ---------------------------------------------------------------------------

/// The number of days in a number of years of the Gregorian calendar.
pub open spec fn days_in_years(y: int) -> int {
    365 * y + y / 4 - y / 100 + y / 400
}

/// The number of days from 1970-01-01 to a date of the Gregorian calendar,
/// counted from years that begin in March.
pub open spec fn civil_days(year: int, month: int, day: int) -> int {
    let y = if month <= 2 {
        year - 1
    } else {
        year
    };
    let from_march = if month > 2 {
        month - 3
    } else {
        month + 9
    };
    days_in_years(y) + (153 * from_march + 2) / 5 + day - 1 - 719_468
}

/// The day of the week of a date, counted from Sunday.
pub open spec fn weekday_of(t: YmdHms) -> int {
    (civil_days(t.year as int, t.month as int, t.day as int) + 4) % 7
}

/// Computes [`civil_days`].
pub fn days_from_civil(year: i32, month: u32, day: u32) -> (r: i64)
    ensures
        r == civil_days(year as int, month as int, day as int),
        -1_000_000_000_000 < r < 1_000_000_000_000,
{
    let y: i64 = if month <= 2 {
        year as i64 - 1
    } else {
        year as i64
    };
    let from_march: i64 = if month > 2 {
        month as i64 - 3
    } else {
        month as i64 + 9
    };
    let by4: i64 = arith::floor_div(y, 4);
    let by100: i64 = arith::floor_div(y, 100);
    let by400: i64 = arith::floor_div(y, 400);
    365 * y + by4 - by100 + by400 + (153 * from_march + 2) / 5 + day as i64 - 1 - 719_468
}

/// The day of the week of a date, counted from Sunday.
fn weekday(t: YmdHms) -> (r: usize)
    ensures
        r == weekday_of(t),
        r < 7,
{
    let days: i64 = days_from_civil(t.year, t.month, t.day);
    arith::floor_mod(days + 4, 7) as usize
}

/// Whether a year of the Gregorian calendar has a 29th of February.
pub open spec fn leap_year(y: int) -> bool {
    y % 4 == 0 && (y % 100 != 0 || y % 400 == 0)
}

/// The number of days of a month.
pub open spec fn month_days(y: int, m: int) -> int {
    if m == 2 {
        if leap_year(y) {
            29
        } else {
            28
        }
    } else if m == 4 || m == 6 || m == 9 || m == 11 {
        30
    } else {
        31
    }
}

/// A quotient grows by one exactly at the multiples of the divisor.
proof fn quotient_step(y: int, d: int)
    requires
        d > 1,
    ensures
        y / d - (y - 1) / d == if y % d == 0 {
            1int
        } else {
            0int
        },
{
    let (p, q) = (y / d, (y - 1) / d);
    vstd::arithmetic::div_mod::lemma_fundamental_div_mod(y, d);
    vstd::arithmetic::div_mod::lemma_fundamental_div_mod(y - 1, d);
    let (r, t) = (y % d, (y - 1) % d);
    assert(0 <= r < d && 0 <= t < d);
    assert(p - q == 0 || p - q == 1) by (nonlinear_arith)
        requires
            d > 1,
            d * p + r == d * q + t + 1,
            0 <= r < d,
            0 <= t < d,
    ;
    assert(d * p - d * q == d * (p - q)) by (nonlinear_arith);
    if p - q == 1 {
        assert(d * (p - q) == d) by (nonlinear_arith)
            requires
                p - q == 1,
        ;
    } else {
        assert(d * (p - q) == 0) by (nonlinear_arith)
            requires
                p - q == 0,
        ;
    }
}

/// Multiples of 400 are multiples of 100, and these of 4.
#[verifier::spinoff_prover]
proof fn century_multiples(y: int)
    ensures
        y % 400 == 0 ==> y % 100 == 0,
        y % 100 == 0 ==> y % 4 == 0,
{
}

/// One year more is 365 days, and one more in a leap year.
proof fn year_step(y: int)
    ensures
        days_in_years(y) - days_in_years(y - 1) == if leap_year(y) {
            366int
        } else {
            365int
        },
{
    quotient_step(y, 4);
    quotient_step(y, 100);
    quotient_step(y, 400);
    century_multiples(y);
}

/// The length of each month, as the day count has it.
proof fn month_step(y: int, m: int)
    requires
        1 <= m <= 12,
    ensures
        m < 12 ==> civil_days(y, m + 1, 1) == civil_days(y, m, 1) + month_days(y, m),
        m == 12 ==> civil_days(y + 1, 1, 1) == civil_days(y, m, 1) + month_days(y, m),
{
    let (a, b) = (days_in_years(y), days_in_years(y - 1));
    if m == 2 {
        year_step(y);
        assert(civil_days(y, 3, 1) == a + 0 - 719_468);
        assert(civil_days(y, 2, 1) == b + 337 - 719_468);
    } else if m == 1 {
        assert(civil_days(y, 1, 1) == b + 306 - 719_468);
        assert(civil_days(y, 2, 1) == b + 337 - 719_468);
    } else if m == 12 {
        assert(civil_days(y, 12, 1) == a + 275 - 719_468);
        assert(civil_days(y + 1, 1, 1) == a + 306 - 719_468);
    }
}

/// The day count starts at the first of January 1970, grows by one from one
/// day of a month to the next, and by the length of the month from the first
/// of a month to the first of the following one, December included.
pub proof fn calendar_laws(y: int, m: int, d: int)
    requires
        1 <= m <= 12,
    ensures
        civil_days(1970, 1, 1) == 0,
        civil_days(y, m, d + 1) == civil_days(y, m, d) + 1,
        m < 12 ==> civil_days(y, m + 1, 1) == civil_days(y, m, 1) + month_days(y, m),
        m == 12 ==> civil_days(y + 1, 1, 1) == civil_days(y, m, 1) + month_days(y, m),
{
    month_step(y, m);
}

/// The English name of a month.
pub open spec fn month_name(i: int) -> Seq<char> {
    if i == 1 {
        "January"@
    } else if i == 2 {
        "February"@
    } else if i == 3 {
        "March"@
    } else if i == 4 {
        "April"@
    } else if i == 5 {
        "May"@
    } else if i == 6 {
        "June"@
    } else if i == 7 {
        "July"@
    } else if i == 8 {
        "August"@
    } else if i == 9 {
        "September"@
    } else if i == 10 {
        "October"@
    } else if i == 11 {
        "November"@
    } else {
        "December"@
    }
}

/// The English name of a day of the week.
pub open spec fn weekday_name(i: int) -> Seq<char> {
    if i == 0 {
        "Sunday"@
    } else if i == 1 {
        "Monday"@
    } else if i == 2 {
        "Tuesday"@
    } else if i == 3 {
        "Wednesday"@
    } else if i == 4 {
        "Thursday"@
    } else if i == 5 {
        "Friday"@
    } else {
        "Saturday"@
    }
}

/// The English name of a month.
fn month_str(i: u32) -> (r: &'static str)
    ensures
        r@ == month_name(i as int),
{
    if i == 1 {
        "January"
    } else if i == 2 {
        "February"
    } else if i == 3 {
        "March"
    } else if i == 4 {
        "April"
    } else if i == 5 {
        "May"
    } else if i == 6 {
        "June"
    } else if i == 7 {
        "July"
    } else if i == 8 {
        "August"
    } else if i == 9 {
        "September"
    } else if i == 10 {
        "October"
    } else if i == 11 {
        "November"
    } else {
        "December"
    }
}

/// The English name of a day of the week.
fn weekday_str(i: usize) -> (r: &'static str)
    ensures
        r@ == weekday_name(i as int),
{
    if i == 0 {
        "Sunday"
    } else if i == 1 {
        "Monday"
    } else if i == 2 {
        "Tuesday"
    } else if i == 3 {
        "Wednesday"
    } else if i == 4 {
        "Thursday"
    } else if i == 5 {
        "Friday"
    } else {
        "Saturday"
    }
}

/// Month and weekday names have three letters or more.
pub proof fn names_are_long(i: int)
    ensures
        3 <= month_name(i).len() <= 9,
        3 <= weekday_name(i).len() <= 9,
{
    reveal_strlit("January");
    reveal_strlit("February");
    reveal_strlit("March");
    reveal_strlit("April");
    reveal_strlit("May");
    reveal_strlit("June");
    reveal_strlit("July");
    reveal_strlit("August");
    reveal_strlit("September");
    reveal_strlit("October");
    reveal_strlit("November");
    reveal_strlit("December");
    reveal_strlit("Sunday");
    reveal_strlit("Monday");
    reveal_strlit("Tuesday");
    reveal_strlit("Wednesday");
    reveal_strlit("Thursday");
    reveal_strlit("Friday");
    reveal_strlit("Saturday");
}

// ---------------------------------------------------------------------------
// Formatting
// ---------------------------------------------------------------------------

/// A number brought into the range of the months.
pub open spec fn clamp_month(m: int) -> int {
    if m < 1 {
        1
    } else if m > 12 {
        12
    } else {
        m
    }
}

/// What a token becomes in the text of a moment.
pub open spec fn rendered(k: Tok, t: YmdHms) -> Seq<char> {
    match k {
        Tok::Year4 => decimal::padded(t.year as int, 4),
        Tok::Year2 => decimal::padded(t.year as int % 100, 2),
        Tok::Month2 => decimal::padded(t.month as int, 2),
        Tok::Month1 => decimal::decimal(t.month as nat),
        Tok::Day2 => decimal::padded(t.day as int, 2),
        Tok::Day1 => decimal::decimal(t.day as nat),
        Tok::Hour24 => decimal::padded(t.hour as int, 2),
        Tok::Hour12 => decimal::padded(
            if t.hour % 12 == 0 {
                12
            } else {
                t.hour as int % 12
            },
            2,
        ),
        Tok::Minute => decimal::padded(t.minute as int, 2),
        Tok::Second => decimal::padded(t.second as int, 2),
        Tok::MonAbbr => month_name(clamp_month(t.month as int)).take(3),
        Tok::MonFull => month_name(clamp_month(t.month as int)),
        Tok::WdAbbr => weekday_name(weekday_of(t)).take(3),
        Tok::WdFull => weekday_name(weekday_of(t)),
        Tok::PmUpper => if t.hour < 12 {
            "AM"@
        } else {
            "PM"@
        },
        Tok::PmLower => if t.hour < 12 {
            "am"@
        } else {
            "pm"@
        },
    }
}

/// The text of a moment, piece by piece.
pub open spec fn as_time(ps: Seq<Piece>, t: YmdHms) -> Seq<char>
    decreases ps.len(),
{
    if ps.len() == 0 {
        seq![]
    } else {
        (match ps[0] {
            Piece::Token(k) => rendered(k, t),
            Piece::Literal(c) => seq![c],
        }) + as_time(ps.skip(1), t)
    }
}

/// The first three letters of a name.
fn short_name(name: &str) -> (r: String)
    requires
        name@.len() >= 3,
    ensures
        r@ == name@.take(3),
{
    let v = text::chars_of(name);
    assert(v@.subrange(0, 3) =~= name@.take(3));
    text::string_of(&v, 0, 3)
}

/// A number with at least two digits.
fn pad2(n: u32) -> (r: String)
    ensures
        r@ == decimal::padded(n as int, 2),
{
    decimal::padded_text(n as i64, 2)
}

/// What a token becomes in the text of a moment.
fn render(k: Tok, t: YmdHms) -> (r: String)
    ensures
        r@ == rendered(k, t),
{
    let m: u32 = if t.month < 1 {
        1
    } else if t.month > 12 {
        12
    } else {
        t.month
    };
    proof {
        names_are_long(m as int);
        names_are_long(weekday_of(t));
    }
    match k {
        Tok::Year4 => decimal::padded_text(t.year as i64, 4),
        Tok::Year2 => {
            let y: i64 = arith::floor_mod(t.year as i64, 100);
            decimal::padded_text(y, 2)
        },
        Tok::Month2 => pad2(t.month),
        Tok::Month1 => decimal::number_text(t.month as i64),
        Tok::Day2 => pad2(t.day),
        Tok::Day1 => decimal::number_text(t.day as i64),
        Tok::Hour24 => pad2(t.hour),
        Tok::Hour12 => {
            let h: u32 = t.hour % 12;
            if h == 0 {
                pad2(12)
            } else {
                pad2(h)
            }
        },
        Tok::Minute => pad2(t.minute),
        Tok::Second => pad2(t.second),
        Tok::MonAbbr => short_name(month_str(m)),
        Tok::MonFull => month_str(m).to_owned(),
        Tok::WdAbbr => short_name(weekday_str(weekday(t))),
        Tok::WdFull => weekday_str(weekday(t)).to_owned(),
        Tok::PmUpper => if t.hour < 12 {
            "AM".to_owned()
        } else {
            "PM".to_owned()
        },
        Tok::PmLower => if t.hour < 12 {
            "am".to_owned()
        } else {
            "pm".to_owned()
        },
    }
}

/// Writes a moment by a layout.
pub fn format(layout: &str, t: YmdHms) -> (r: String)
    ensures
        r@ == as_time(layout_pieces(layout@), t),
{
    let ps = read_layout(layout);
    let mut out = String::new();
    let mut i: usize = 0;
    assert(ps@.skip(0) =~= ps@);
    assert(out@ + as_time(ps@, t) =~= as_time(ps@, t));
    while i < ps.len()
        invariant
            i <= ps@.len(),
            out@ + as_time(ps@.skip(i as int), t) == as_time(ps@, t),
        decreases ps@.len() - i,
    {
        let ghost tail = ps@.skip(i as int);
        let ghost before = out@;
        assert(tail.skip(1) =~= ps@.skip(i + 1));
        match ps[i] {
            Piece::Token(k) => out.push_str(render(k, t).as_str()),
            Piece::Literal(c) => out.push(c),
        }
        i += 1;
        assert(out@ + as_time(ps@.skip(i as int), t) =~= before + as_time(tail, t));
    }
    assert(ps@.skip(i as int) =~= seq![]);
    assert(out@ + as_time(seq![], t) =~= out@);
    out
}

// ---------------------------------------------------------------------------
// Parsing
// ---------------------------------------------------------------------------

/// The number of digits at the start of a text, at most `max`.
pub open spec fn digit_run(s: Seq<char>, max: int) -> int
    decreases s.len(),
{
    if max <= 0 || s.len() == 0 || !text::is_digit(s[0]) {
        0
    } else {
        1 + digit_run(s.skip(1), max - 1)
    }
}

/// The number at the start of a text, made of `min` to `max` digits, and how
/// many digits it takes.
pub open spec fn number_at(s: Seq<char>, min: int, max: int) -> Option<(int, int)> {
    let n = digit_run(s, max);
    if n < min || n == 0 {
        None
    } else {
        Some((decimal::value(s.take(n)), n))
    }
}

/// How many characters a text has of a name at its start: all of them, or the
/// first three, or none; the case of letters does not matter.
pub open spec fn name_at(s: Seq<char>, name: Seq<char>) -> int {
    if s.len() < 3 || !text::same_letters(s.take(3), name.take(3)) {
        0
    } else if s.len() >= name.len() && text::same_letters(s.take(name.len() as int), name) {
        name.len() as int
    } else {
        3
    }
}

/// The first month from `i` on whose name a text begins with, and how many
/// characters it takes.
pub open spec fn month_at(s: Seq<char>, i: int) -> Option<(int, int)>
    decreases 13 - i,
{
    if i > 12 {
        None
    } else if name_at(s, month_name(i)) > 0 {
        Some((i, name_at(s, month_name(i))))
    } else {
        month_at(s, i + 1)
    }
}

/// The characters that a text has of the first weekday from `i` on whose name
/// it begins with.
pub open spec fn weekday_at(s: Seq<char>, i: int) -> Option<int>
    decreases 7 - i,
{
    if i > 6 {
        None
    } else if name_at(s, weekday_name(i)) > 0 {
        Some(name_at(s, weekday_name(i)))
    } else {
        weekday_at(s, i + 1)
    }
}

/// Whether a text begins with `PM` (true) or `AM` (false).
pub open spec fn half_at(s: Seq<char>) -> Option<bool> {
    if s.len() >= 2 && text::same_letters(s.take(2), "PM"@) {
        Some(true)
    } else if s.len() >= 2 && text::same_letters(s.take(2), "AM"@) {
        Some(false)
    } else {
        None
    }
}

/// What has been read of a moment.
#[derive(Debug, Clone, Copy, PartialEq, Eq, Structural)]
pub struct Scan {
    pub t: YmdHms,
    pub pm: bool,
    pub has_ampm: bool,
    pub has_month: bool,
    pub has_day: bool,
}

/// Nothing read yet.
pub open spec fn start_scan() -> Scan {
    Scan { t: zero_time(), pm: false, has_ampm: false, has_month: false, has_day: false }
}

/// How many digits a numeric token takes, least and most.
pub open spec fn token_digits(k: Tok) -> (int, int) {
    if k == Tok::Year4 {
        (4, 4)
    } else {
        (1, 2)
    }
}

/// Enters the number that was read for a token.
pub open spec fn entered(st: Scan, k: Tok, n: int) -> Scan {
    match k {
        Tok::Year4 => Scan { t: YmdHms { year: n as i32, ..st.t }, ..st },
        Tok::Year2 => Scan { t: YmdHms { year: (2000 + n) as i32, ..st.t }, ..st },
        Tok::Month2 | Tok::Month1 => Scan {
            t: YmdHms { month: n as u32, ..st.t },
            has_month: true,
            ..st
        },
        Tok::Day2 | Tok::Day1 => Scan {
            t: YmdHms { day: n as u32, ..st.t },
            has_day: true,
            ..st
        },
        Tok::Hour24 | Tok::Hour12 => Scan { t: YmdHms { hour: n as u32, ..st.t }, ..st },
        Tok::Minute => Scan { t: YmdHms { minute: n as u32, ..st.t }, ..st },
        Tok::Second => Scan { t: YmdHms { second: n as u32, ..st.t }, ..st },
        _ => st,
    }
}

/// Reads one piece at the start of a text: what is known then and how many
/// characters were taken. White space stands for any white space.
pub open spec fn scanned(st: Scan, p: Piece, s: Seq<char>) -> Option<(Scan, int)> {
    match p {
        Piece::Literal(c) => if s.len() > 0 && (c == s[0] || (text::is_white(c) && text::is_white(
            s[0],
        ))) {
            Some((st, 1))
        } else {
            None
        },
        Piece::Token(Tok::MonAbbr) | Piece::Token(Tok::MonFull) => match month_at(s, 1) {
            Some((m, n)) => Some(
                (Scan { t: YmdHms { month: m as u32, ..st.t }, has_month: true, ..st }, n),
            ),
            None => None,
        },
        Piece::Token(Tok::WdAbbr) | Piece::Token(Tok::WdFull) => match weekday_at(s, 0) {
            Some(n) => Some((st, n)),
            None => None,
        },
        Piece::Token(Tok::PmUpper) | Piece::Token(Tok::PmLower) => match half_at(s) {
            Some(pm) => Some((Scan { pm: pm, has_ampm: true, ..st }, 2)),
            None => None,
        },
        Piece::Token(k) => match number_at(s, token_digits(k).0, token_digits(k).1) {
            Some((v, n)) => Some((entered(st, k, v), n)),
            None => None,
        },
    }
}

/// Reads pieces one after the other: what is known then and what is left of
/// the text.
pub open spec fn scanned_all(st: Scan, ps: Seq<Piece>, s: Seq<char>) -> Option<(Scan, Seq<char>)>
    decreases ps.len(),
{
    if ps.len() == 0 {
        Some((st, s))
    } else {
        match scanned(st, ps[0], s) {
            Some((next, n)) => scanned_all(next, ps.skip(1), s.skip(n)),
            None => None,
        }
    }
}

/// The hour after `AM` or `PM` is taken into account.
pub open spec fn full_hour(st: Scan) -> u32 {
    if st.has_ampm && st.pm && st.t.hour < 12 {
        (st.t.hour + 12) as u32
    } else if st.has_ampm && !st.pm && st.t.hour == 12 {
        0
    } else {
        st.t.hour
    }
}

/// The moment that was read: none where more than white space is left or a
/// field is out of range. A month and a day count only where one was read.
pub open spec fn concluded(st: Scan, rest: Seq<char>) -> Option<YmdHms> {
    let hour = full_hour(st);
    if !text::is_blank(rest) || (st.has_month && !(1 <= st.t.month <= 12)) || (st.has_day && !(1
        <= st.t.day <= 31)) || hour > 23 || st.t.minute > 59 || st.t.second > 60 {
        None
    } else {
        Some(YmdHms { hour: hour, ..st.t })
    }
}

/// The moment that a text gives by a layout.
pub open spec fn parsed(layout: Seq<char>, s: Seq<char>) -> Option<YmdHms> {
    match scanned_all(start_scan(), layout_pieces(layout), s) {
        Some((st, rest)) => concluded(st, rest),
        None => None,
    }
}

/// The length of a run of digits.
proof fn digit_run_props(s: Seq<char>, max: int)
    requires
        max >= 0,
    ensures
        0 <= digit_run(s, max) <= max,
        digit_run(s, max) <= s.len(),
        forall|i: int| 0 <= i < digit_run(s, max) ==> text::is_digit(#[trigger] s[i]),
    decreases s.len(),
{
    if max > 0 && s.len() > 0 && text::is_digit(s[0]) {
        digit_run_props(s.skip(1), max - 1);
        assert forall|i: int| 0 <= i < digit_run(s, max) implies text::is_digit(
            #[trigger] s[i],
        ) by {
            if i > 0 {
                assert(s[i] == s.skip(1)[i - 1]);
            }
        }
    }
}

/// A run of digits that is followed by none, or is as long as it may be.
pub proof fn digit_run_is(s: Seq<char>, max: int, n: int)
    requires
        0 <= n <= max,
        n <= s.len(),
        forall|i: int| 0 <= i < n ==> text::is_digit(#[trigger] s[i]),
        n == max || n == s.len() || !text::is_digit(s[n]),
    ensures
        digit_run(s, max) == n,
    decreases n,
{
    if n > 0 {
        let t = s.skip(1);
        assert(text::is_digit(s[0]));
        assert forall|i: int| 0 <= i < n - 1 implies text::is_digit(#[trigger] t[i]) by {
            assert(t[i] == s[i + 1]);
        }
        if n < s.len() {
            assert(t[n - 1] == s[n]);
        }
        digit_run_is(t, max - 1, n - 1);
    }
}

/// Few digits spell a small number.
pub proof fn value_bound(s: Seq<char>)
    requires
        decimal::all_digits(s),
    ensures
        0 <= decimal::value(s),
        s.len() <= 1 ==> decimal::value(s) <= 9,
        s.len() <= 2 ==> decimal::value(s) <= 99,
        s.len() <= 3 ==> decimal::value(s) <= 999,
        s.len() <= 4 ==> decimal::value(s) <= 9999,
    decreases s.len(),
{
    if s.len() > 0 {
        assert(text::is_digit(s[s.len() - 1]));
        value_bound(s.drop_last());
    }
}

/// Reads a number of `min` to `max` digits at a position.
fn take_digits(v: &Vec<char>, i: usize, min: usize, max: usize) -> (r: Option<(u32, usize)>)
    requires
        i <= v@.len(),
        max <= 4,
    ensures
        match r {
            Some((n, w)) => number_at(v@.skip(i as int), min as int, max as int) == Some(
                (n as int, w as int),
            ) && i + w <= v@.len() && n <= 9999 && (max <= 2 ==> n <= 99),
            None => number_at(v@.skip(i as int), min as int, max as int) is None,
        },
{
    let ghost s = v@.skip(i as int);
    let mut w: usize = 0;
    let mut n: u32 = 0;
    assert(s.take(0) =~= seq![]);
    while w < max && w < v.len() - i && '0' <= v[i + w] && v[i + w] <= '9'
        invariant
            i <= v@.len(),
            max <= 4,
            s == v@.skip(i as int),
            w <= max,
            w <= v.len() - i,
            forall|k: int| 0 <= k < w ==> text::is_digit(#[trigger] s[k]),
            n == decimal::value(s.take(w as int)),
            w == 0 ==> n == 0,
            w <= 1 ==> n <= 9,
            w <= 2 ==> n <= 99,
            w <= 3 ==> n <= 999,
            n <= 9999,
        decreases max - w,
    {
        let c: char = v[i + w];
        assert(c == s[w as int]);
        let d: u32 = (c as u32) - 48;
        proof {
            assert(s.take(w + 1).drop_last() =~= s.take(w as int));
        }
        n = n * 10 + d;
        w += 1;
    }
    proof {
        if w < v.len() - i {
            assert(s[w as int] == v@[i + w]);
        }
        digit_run_is(s, max as int, w as int);
    }
    if w < min || w == 0 {
        None
    } else {
        Some((n, w))
    }
}

/// How many characters there are of a name at a position.
fn take_name(v: &Vec<char>, i: usize, name: &str) -> (r: usize)
    requires
        i <= v@.len(),
        name@.len() >= 3,
    ensures
        r == name_at(v@.skip(i as int), name@),
        i + r <= v@.len(),
{
    let p = text::chars_of(name);
    let ghost s = v@.skip(i as int);
    assert(s.len() >= 3 ==> s.take(3) =~= v@.subrange(i as int, i + 3));
    if !text::at_fold(v, i, &p, 3) {
        return 0;
    }
    assert(p@.take(p@.len() as int) =~= name@);
    assert(s.len() >= p@.len() ==> s.take(p@.len() as int) =~= v@.subrange(
        i as int,
        i + p@.len(),
    ));
    let all: usize = p.len();
    if text::at_fold(v, i, &p, all) {
        all
    } else {
        3
    }
}

/// Reads the name of a month at a position.
fn take_month(v: &Vec<char>, i: usize) -> (r: Option<(u32, usize)>)
    requires
        i <= v@.len(),
    ensures
        match r {
            Some((m, w)) => month_at(v@.skip(i as int), 1) == Some((m as int, w as int)) && i + w
                <= v.len() && 1 <= m <= 12,
            None => month_at(v@.skip(i as int), 1) is None,
        },
{
    let mut m: u32 = 1;
    while m <= 12
        invariant
            1 <= m <= 13,
            i <= v@.len(),
            month_at(v@.skip(i as int), 1) == month_at(v@.skip(i as int), m as int),
        decreases 13 - m,
    {
        proof {
            names_are_long(m as int);
        }
        let w: usize = take_name(v, i, month_str(m));
        if w > 0 {
            return Some((m, w));
        }
        m += 1;
    }
    None
}

/// Reads the name of a weekday at a position.
fn take_weekday(v: &Vec<char>, i: usize) -> (r: Option<usize>)
    requires
        i <= v@.len(),
    ensures
        match r {
            Some(w) => weekday_at(v@.skip(i as int), 0) == Some(w as int) && i + w <= v@.len(),
            None => weekday_at(v@.skip(i as int), 0) is None,
        },
{
    let mut d: usize = 0;
    while d < 7
        invariant
            d <= 7,
            i <= v@.len(),
            weekday_at(v@.skip(i as int), 0) == weekday_at(v@.skip(i as int), d as int),
        decreases 7 - d,
    {
        proof {
            names_are_long(d as int);
        }
        let w: usize = take_name(v, i, weekday_str(d));
        if w > 0 {
            return Some(w);
        }
        d += 1;
    }
    None
}

/// Reads `AM` or `PM` at a position.
fn take_half(v: &Vec<char>, i: usize) -> (r: Option<bool>)
    requires
        i <= v@.len(),
    ensures
        r == half_at(v@.skip(i as int)),
        r is Some ==> i + 2 <= v@.len(),
{
    let ghost s = v@.skip(i as int);
    let pm = text::chars_of("PM");
    let am = text::chars_of("AM");
    proof {
        reveal_strlit("PM");
        reveal_strlit("AM");
        assert(pm@.take(2) =~= pm@);
        assert(am@.take(2) =~= am@);
        assert(s.len() >= 2 ==> s.take(2) =~= v@.subrange(i as int, i + 2));
    }
    if text::at_fold(v, i, &pm, 2) {
        Some(true)
    } else if text::at_fold(v, i, &am, 2) {
        Some(false)
    } else {
        None
    }
}

/// Reads one piece at a position.
fn scan_piece(st: Scan, p: Piece, v: &Vec<char>, i: usize) -> (r: Option<(Scan, usize)>)
    requires
        i <= v@.len(),
    ensures
        match r {
            Some((next, w)) => scanned(st, p, v@.skip(i as int)) == Some((next, w as int)) && i + w
                <= v.len(),
            None => scanned(st, p, v@.skip(i as int)) is None,
        },
{
    let ghost s = v@.skip(i as int);
    match p {
        Piece::Literal(c) => {
            if i < v.len() {
                let got: char = text::char_at(v, i);
                assert(got == s[0]);
                if c == got || (c.is_whitespace() && got.is_whitespace()) {
                    return Some((st, 1));
                }
            }
            None
        },
        Piece::Token(Tok::MonAbbr) | Piece::Token(Tok::MonFull) => match take_month(v, i) {
            Some((m, w)) => Some(
                (Scan { t: YmdHms { month: m, ..st.t }, has_month: true, ..st }, w),
            ),
            None => None,
        },
        Piece::Token(Tok::WdAbbr) | Piece::Token(Tok::WdFull) => match take_weekday(v, i) {
            Some(w) => Some((st, w)),
            None => None,
        },
        Piece::Token(Tok::PmUpper) | Piece::Token(Tok::PmLower) => match take_half(v, i) {
            Some(pm) => Some((Scan { pm: pm, has_ampm: true, ..st }, 2)),
            None => None,
        },
        Piece::Token(k) => {
            let (min, max): (usize, usize) = if k == Tok::Year4 {
                (4, 4)
            } else {
                (1, 2)
            };
            match take_digits(v, i, min, max) {
                Some((n, w)) => {
                    let next = match k {
                        Tok::Year4 => Scan { t: YmdHms { year: n as i32, ..st.t }, ..st },
                        Tok::Year2 => Scan { t: YmdHms { year: 2000 + n as i32, ..st.t }, ..st },
                        Tok::Month2 | Tok::Month1 => Scan {
                            t: YmdHms { month: n, ..st.t },
                            has_month: true,
                            ..st
                        },
                        Tok::Day2 | Tok::Day1 => Scan {
                            t: YmdHms { day: n, ..st.t },
                            has_day: true,
                            ..st
                        },
                        Tok::Hour24 | Tok::Hour12 => Scan { t: YmdHms { hour: n, ..st.t }, ..st },
                        Tok::Minute => Scan { t: YmdHms { minute: n, ..st.t }, ..st },
                        Tok::Second => Scan { t: YmdHms { second: n, ..st.t }, ..st },
                        _ => st,
                    };
                    Some((next, w))
                },
                None => None,
            }
        },
    }
}

/// Reads a moment by a layout.
pub fn parse(layout: &str, s: &str) -> (r: Option<YmdHms>)
    ensures
        r == parsed(layout@, s@),
{
    let ps = read_layout(layout);
    let v = text::chars_of(s);
    let mut st = Scan {
        t: YmdHms { year: 0, month: 0, day: 0, hour: 0, minute: 0, second: 0 },
        pm: false,
        has_ampm: false,
        has_month: false,
        has_day: false,
    };
    let mut i: usize = 0;
    let mut j: usize = 0;
    assert(ps@.skip(0) =~= ps@);
    assert(v@.skip(0) =~= v@);
    while j < ps.len()
        invariant
            j <= ps@.len(),
            i <= v@.len(),
            v@ == s@,
            ps@ == layout_pieces(layout@),
            scanned_all(start_scan(), ps@, s@) == scanned_all(
                st,
                ps@.skip(j as int),
                v@.skip(i as int),
            ),
        decreases ps@.len() - j,
    {
        let ghost tail = ps@.skip(j as int);
        let ghost left = v@.skip(i as int);
        assert(tail[0] == ps@[j as int]);
        assert(tail.skip(1) =~= ps@.skip(j + 1));
        match scan_piece(st, ps[j], &v, i) {
            Some((next, w)) => {
                st = next;
                i += w;
                assert(left.skip(w as int) =~= v@.skip(i as int));
            },
            None => {
                return None;
            },
        }
        j += 1;
    }
    let rest = text::string_of(&v, i, v.len());
    assert(rest@ =~= v@.skip(i as int));
    let hour: u32 = if st.has_ampm && st.pm && st.t.hour < 12 {
        st.t.hour + 12
    } else if st.has_ampm && !st.pm && st.t.hour == 12 {
        0
    } else {
        st.t.hour
    };
    if !text::blank(rest.as_str()) || (st.has_month && !(1 <= st.t.month && st.t.month <= 12)) || (
    st.has_day && !(1 <= st.t.day && st.t.day <= 31)) || hour > 23 || st.t.minute > 59
        || st.t.second > 60 {
        None
    } else {
        Some(YmdHms { hour: hour, ..st.t })
    }
}

// ---------------------------------------------------------------------------
// Seconds
// ---------------------------------------------------------------------------

/// The seconds from 1970-01-01 00:00:00 to a moment. One without month and day
/// is a time of day, counted from midnight; a part of a date that is missing
/// counts as the first.
pub open spec fn moment_seconds(t: YmdHms) -> int {
    let days = if t.month == 0 && t.day == 0 {
        0
    } else {
        civil_days(
            t.year as int,
            if t.month == 0 {
                1
            } else {
                t.month as int
            },
            if t.day == 0 {
                1
            } else {
                t.day as int
            },
        )
    };
    days * 86_400 + t.hour * 3600 + t.minute * 60 + t.second
}

/// The seconds from 1970-01-01 00:00:00 to a moment.
pub fn to_seconds(t: YmdHms) -> (r: i64)
    ensures
        r == moment_seconds(t),
{
    let days: i64 = if t.month == 0 && t.day == 0 {
        0
    } else {
        let m: u32 = if t.month == 0 {
            1
        } else {
            t.month
        };
        let d: u32 = if t.day == 0 {
            1
        } else {
            t.day
        };
        days_from_civil(t.year, m, d)
    };
    days * 86_400 + t.hour as i64 * 3600 + t.minute as i64 * 60 + t.second as i64
}

/// Whether the fields of a moment are a date of the calendar and a time of the
/// clock.
pub open spec fn calendar_moment(t: YmdHms) -> bool {
    &&& 1 <= t.month <= 12
    &&& 1 <= t.day <= month_days(t.year as int, t.month as int)
    &&& t.hour < 24
    &&& t.minute < 60
    &&& t.second < 60
}

/// Whether a number of seconds falls in a year of 32 bits.
pub open spec fn year_fits(secs: int) -> bool {
    civil_days(i32::MIN as int, 1, 1) * 86_400 <= secs < civil_days(i32::MAX + 1, 1, 1) * 86_400
}

/// The moment a number of seconds after 1970-01-01 00:00:00.
pub fn from_seconds(secs: i64) -> (r: YmdHms)
    requires
        year_fits(secs as int),
    ensures
        calendar_moment(r),
        moment_seconds(r) == secs,
{
    let days: i64 = arith::floor_div(secs, 86_400);
    let clock: i64 = arith::floor_mod(secs, 86_400);
    let guess: i64 = 1970 + arith::floor_div(days * 400, 146_097);
    let mut y: i32 = if guess < -2_147_483_648 {
        -2_147_483_648
    } else if guess > 2_147_483_647 {
        2_147_483_647
    } else {
        guess as i32
    };
    while days_from_civil(y, 1, 1) > days
        invariant
            civil_days(i32::MIN as int, 1, 1) <= days < civil_days(i32::MAX + 1, 1, 1),
        decreases y - i32::MIN,
    {
        y -= 1;
    }
    while y < 2_147_483_647 && days_from_civil(y + 1, 1, 1) <= days
        invariant
            civil_days(y as int, 1, 1) <= days < civil_days(i32::MAX + 1, 1, 1),
        decreases i32::MAX - y,
    {
        y += 1;
    }
    let mut m: u32 = 1;
    while m < 12 && days_from_civil(y, m + 1, 1) <= days
        invariant
            1 <= m <= 12,
            civil_days(y as int, m as int, 1) <= days < civil_days(y + 1, 1, 1),
        decreases 12 - m,
    {
        m += 1;
    }
    proof {
        month_step(y as int, m as int);
    }
    let day: i64 = days - days_from_civil(y, m, 1) + 1;
    let hour: i64 = clock / 3600;
    let minute: i64 = (clock / 60) % 60;
    let second: i64 = clock % 60;
    YmdHms {
        year: y,
        month: m,
        day: day as u32,
        hour: hour as u32,
        minute: minute as u32,
        second: second as u32,
    }
}

/// Later months of a year begin later, and all before the next year.
proof fn months_in_order(y: int, m: int, n: int)
    requires
        1 <= m <= n <= 12,
    ensures
        civil_days(y, m, 1) <= civil_days(y, n, 1),
        civil_days(y, n, 1) + month_days(y, n) <= civil_days(y + 1, 1, 1),
    decreases 13 - m, n - m,
{
    month_step(y, n);
    if m < n {
        month_step(y, m);
        months_in_order(y, m + 1, n);
    } else if n < 12 {
        months_in_order(y, n + 1, n + 1);
    }
}

/// Later years begin later.
proof fn years_in_order(y: int, z: int)
    requires
        y <= z,
    ensures
        civil_days(y, 1, 1) <= civil_days(z, 1, 1),
    decreases z - y,
{
    if y < z {
        years_in_order(y, z - 1);
        months_in_order(z - 1, 1, 1);
    }
}

/// Two dates of the calendar with the same day count are the same date.
proof fn dates_unique(y: int, m: int, d: int, y2: int, m2: int, d2: int)
    requires
        1 <= m <= 12,
        1 <= m2 <= 12,
        1 <= d <= month_days(y, m),
        1 <= d2 <= month_days(y2, m2),
        civil_days(y, m, d) == civil_days(y2, m2, d2),
    ensures
        y == y2,
        m == m2,
        d == d2,
{
    months_in_order(y, 1, m);
    months_in_order(y2, 1, m2);
    if y < y2 {
        years_in_order(y + 1, y2);
    } else if y2 < y {
        years_in_order(y2 + 1, y);
    } else if m < m2 {
        month_step(y, m);
        months_in_order(y, m + 1, m2);
    } else if m2 < m {
        month_step(y, m2);
        months_in_order(y, m2 + 1, m);
    }
}

/// Seconds tell the day and the second of the day.
proof fn days_apart(a: int, ca: int, b: int, cb: int)
    requires
        0 <= ca < 86_400,
        0 <= cb < 86_400,
        a * 86_400 + ca == b * 86_400 + cb,
    ensures
        a == b,
        ca == cb,
{
}

/// Two moments of the calendar with the same seconds are the same moment: what
/// turns a moment into seconds and back gives the moment.
#[verifier::spinoff_prover]
pub proof fn seconds_tell_moments_apart(t: YmdHms, u: YmdHms)
    requires
        calendar_moment(t),
        calendar_moment(u),
        moment_seconds(t) == moment_seconds(u),
    ensures
        t == u,
{
    let (a, b) = (
        civil_days(t.year as int, t.month as int, t.day as int),
        civil_days(u.year as int, u.month as int, u.day as int),
    );
    let ca = t.hour * 3600 + t.minute * 60 + t.second;
    let cb = u.hour * 3600 + u.minute * 60 + u.second;
    assert(0 <= ca < 86_400 && 0 <= cb < 86_400);
    assert(a * 86_400 + ca == b * 86_400 + cb);
    days_apart(a, ca, b, cb);
    dates_unique(
        t.year as int,
        t.month as int,
        t.day as int,
        u.year as int,
        u.month as int,
        u.day as int,
    );
}

// ---------------------------------------------------------------------------
// Laws
// ---------------------------------------------------------------------------

/// Two texts of which one begins the other agree where both reach.
proof fn begins_chars(s: Seq<char>, head: Seq<char>)
    requires
        text::begins(s, head),
    ensures
        forall|i: int| 0 <= i < head.len() ==> s[i] == #[trigger] head[i],
{
    assert forall|i: int| 0 <= i < head.len() implies s[i] == #[trigger] head[i] by {
        assert(s.subrange(0, head.len() as int)[i] == head[i]);
    }
}

/// A text whose first characters are those of another begins with it.
pub proof fn begins_by_chars(s: Seq<char>, head: Seq<char>)
    requires
        head.len() <= s.len(),
        forall|i: int| 0 <= i < head.len() ==> s[i] == #[trigger] head[i],
    ensures
        text::begins(s, head),
{
    assert(s.subrange(0, head.len() as int) =~= head);
}

/// A layout is read by the longest token at its start: no other token that
/// stands there is longer, and where none is found, none stands there.
pub proof fn layout_longest_match(s: Seq<char>, k: Tok)
    requires
        text::begins(s, layout_text(k)),
    ensures
        layout_token(s) matches Some(found) && layout_width(k) <= layout_width(found),
{
    reveal(layout_token);
    widths(k);
}

/// A pattern is read by the longest token at its start.
pub proof fn pattern_longest_match(s: Seq<char>, k: Tok)
    requires
        text::begins(s, pattern_text(k)),
    ensures
        pattern_token(s) matches Some(found) && pattern_width(k) <= pattern_width(found),
{
    reveal(pattern_token);
    widths(k);
}

/// Every part of a moment that was read is in the range of a clock or a
/// calendar; a year has at most four digits.
pub proof fn parsed_in_range(layout: Seq<char>, s: Seq<char>)
    requires
        parsed(layout, s) is Some,
    ensures
        parsed(layout, s) matches Some(t) && t.month <= 12 && t.day <= 31 && t.hour <= 23
            && t.minute <= 59 && t.second <= 60 && 0 <= t.year <= 9999,
{
    let st = start_scan();
    scan_keeps_range(st, layout_pieces(layout), s);
}

/// What reading keeps: a month or a day that was not read is zero, and years
/// have at most four digits.
proof fn scan_keeps_range(st: Scan, ps: Seq<Piece>, s: Seq<char>)
    requires
        !st.has_month ==> st.t.month == 0,
        !st.has_day ==> st.t.day == 0,
        0 <= st.t.year <= 9999,
    ensures
        scanned_all(st, ps, s) matches Some((end, rest)) ==> (!end.has_month ==> end.t.month == 0)
            && (!end.has_day ==> end.t.day == 0) && 0 <= end.t.year <= 9999,
    decreases ps.len(),
{
    if ps.len() > 0 {
        if let Some((next, n)) = scanned(st, ps[0], s) {
            if let Piece::Token(k) = ps[0] {
                let (min, max) = token_digits(k);
                digit_run_props(s, max);
                let w = digit_run(s, max);
                assert(decimal::all_digits(s.take(w)));
                value_bound(s.take(w));
            }
            scan_keeps_range(next, ps.skip(1), s.skip(n));
        }
    }
}

/// Whether a token is a number of fixed width or tells the half of a day.
pub open spec fn fixed_token(k: Tok) -> bool {
    k == Tok::Year4 || k == Tok::Month2 || k == Tok::Day2 || k == Tok::Minute || k == Tok::Second
        || is_hour(k) || is_half(k)
}

/// Whether a token is an hour.
pub open spec fn is_hour(k: Tok) -> bool {
    k == Tok::Hour24 || k == Tok::Hour12
}

/// Whether a token tells the half of a day.
pub open spec fn is_half(k: Tok) -> bool {
    k == Tok::PmUpper || k == Tok::PmLower
}

/// Whether every piece is a number of fixed width, tells the half of a day or
/// stands for itself.
pub open spec fn fixed_width(ps: Seq<Piece>) -> bool {
    forall|i: int|
        0 <= i < ps.len() ==> (#[trigger] ps[i] matches Piece::Token(k) ==> fixed_token(k))
}

/// Whether an hour of a twelve-hour clock has the half of the day beside it.
pub open spec fn halves_told(ps: Seq<Piece>) -> bool {
    mentions(ps, Tok::Hour12) ==> mentions_half(ps)
}

/// Whether the fields of a moment are those of a date and a time of day with
/// a year of at most four digits.
pub open spec fn proper_time(t: YmdHms) -> bool {
    &&& 0 <= t.year <= 9999
    &&& 1 <= t.month <= 12
    &&& 1 <= t.day <= 31
    &&& t.hour <= 23
    &&& t.minute <= 59
    &&& t.second <= 60
}

/// Whether pieces have a token.
pub open spec fn mentions(ps: Seq<Piece>, k: Tok) -> bool {
    ps.contains(Piece::Token(k))
}

/// Whether pieces tell the half of a day.
pub open spec fn mentions_half(ps: Seq<Piece>) -> bool {
    mentions(ps, Tok::PmUpper) || mentions(ps, Tok::PmLower)
}

/// Whether pieces have an hour.
pub open spec fn mentions_hour(ps: Seq<Piece>) -> bool {
    mentions(ps, Tok::Hour24) || mentions(ps, Tok::Hour12)
}

/// The fields of a moment that pieces mention, the others zero. Without an
/// hour, the half of a day is read as the hour at which it begins.
pub open spec fn mentioned(ps: Seq<Piece>, t: YmdHms) -> YmdHms {
    YmdHms {
        year: if mentions(ps, Tok::Year4) { t.year } else { 0 },
        month: if mentions(ps, Tok::Month2) { t.month } else { 0 },
        day: if mentions(ps, Tok::Day2) { t.day } else { 0 },
        hour: if mentions_hour(ps) {
            t.hour
        } else if mentions_half(ps) && t.hour >= 12 {
            12
        } else {
            0
        },
        minute: if mentions(ps, Tok::Minute) { t.minute } else { 0 },
        second: if mentions(ps, Tok::Second) { t.second } else { 0 },
    }
}

/// Reading back a number that was filled to two or four digits.
proof fn reads_padded(n: int, w: int, more: Seq<char>, min: int)
    requires
        (w == 2 && 0 <= n <= 99) || (w == 4 && 0 <= n <= 9999),
        1 <= min <= w,
    ensures
        decimal::padded(n, w).len() == w,
        number_at(decimal::padded(n, w) + more, min, w) == Some((n, w)),
{
    padded_digits(n, w);
    let p = decimal::padded(n, w);
    let s = p + more;
    assert forall|i: int| 0 <= i < w implies text::is_digit(#[trigger] s[i]) by {
        assert(s[i] == p[i]);
    }
    digit_run_is(s, w, w);
    assert(s.take(w) =~= p);
}

/// The hour of a twelve-hour clock.
spec fn clock_hour(t: YmdHms) -> u32 {
    if t.hour % 12 == 0 {
        12
    } else {
        t.hour % 12
    }
}

/// The hour that is entered last when the text of a moment is read back.
spec fn last_hour(h: u32, ps: Seq<Piece>, t: YmdHms) -> u32
    decreases ps.len(),
{
    if ps.len() == 0 {
        h
    } else if ps[0] == Piece::Token(Tok::Hour24) {
        last_hour(t.hour, ps.skip(1), t)
    } else if ps[0] == Piece::Token(Tok::Hour12) {
        last_hour(clock_hour(t), ps.skip(1), t)
    } else {
        last_hour(h, ps.skip(1), t)
    }
}

/// The hour that is entered last is one that pieces have.
proof fn last_hour_is(h: u32, ps: Seq<Piece>, t: YmdHms)
    ensures
        !mentions_hour(ps) ==> last_hour(h, ps, t) == h,
        mentions_hour(ps) ==> last_hour(h, ps, t) == t.hour || (mentions(ps, Tok::Hour12)
            && last_hour(h, ps, t) == clock_hour(t)),
    decreases ps.len(),
{
    if ps.len() > 0 {
        mentions_step(ps, Tok::Hour24);
        mentions_step(ps, Tok::Hour12);
        let tail = ps.skip(1);
        if ps[0] == Piece::Token(Tok::Hour24) {
            last_hour_is(t.hour, tail, t);
        } else if ps[0] == Piece::Token(Tok::Hour12) {
            last_hour_is(clock_hour(t), tail, t);
        } else {
            last_hour_is(h, tail, t);
        }
    }
}

/// What a scan knows after reading back the text of a moment.
spec fn read_back(st: Scan, ps: Seq<Piece>, t: YmdHms) -> Scan {
    Scan {
        t: YmdHms {
            year: if mentions(ps, Tok::Year4) { t.year } else { st.t.year },
            month: if mentions(ps, Tok::Month2) { t.month } else { st.t.month },
            day: if mentions(ps, Tok::Day2) { t.day } else { st.t.day },
            hour: last_hour(st.t.hour, ps, t),
            minute: if mentions(ps, Tok::Minute) { t.minute } else { st.t.minute },
            second: if mentions(ps, Tok::Second) { t.second } else { st.t.second },
        },
        pm: if mentions_half(ps) { t.hour >= 12 } else { st.pm },
        has_ampm: st.has_ampm || mentions_half(ps),
        has_month: st.has_month || mentions(ps, Tok::Month2),
        has_day: st.has_day || mentions(ps, Tok::Day2),
    }
}

/// The half of a day is read back.
proof fn reads_half(k: Tok, t: YmdHms, more: Seq<char>)
    requires
        is_half(k),
    ensures
        rendered(k, t).len() == 2,
        half_at(rendered(k, t) + more) == Some(t.hour >= 12),
{
    reveal_strlit("AM");
    reveal_strlit("PM");
    reveal_strlit("am");
    reveal_strlit("pm");
    let w = rendered(k, t);
    let s = w + more;
    assert(s.take(2) =~= w);
    assert(text::ascii_lower("AM"@) =~= "am"@);
    assert(text::ascii_lower("PM"@) =~= "pm"@);
    assert(text::ascii_lower("am"@) =~= "am"@);
    assert(text::ascii_lower("pm"@) =~= "pm"@);
    assert("am"@[0] == 'a' && "pm"@[0] == 'p');
}

/// Having a token is having it first or later.
pub proof fn mentions_step(ps: Seq<Piece>, k: Tok)
    requires
        ps.len() > 0,
    ensures
        mentions(ps, k) == (ps[0] == Piece::Token(k) || mentions(ps.skip(1), k)),
{
    let p = Piece::Token(k);
    let tail = ps.skip(1);
    if ps.contains(p) {
        let i = choose|i: int| 0 <= i < ps.len() && ps[i] == p;
        if i > 0 {
            assert(tail[i - 1] == p);
        }
    }
    if tail.contains(p) {
        let i = choose|i: int| 0 <= i < tail.len() && tail[i] == p;
        assert(ps[i + 1] == p);
    }
}

/// Reading back the text of a moment consumes it and finds its fields.
proof fn scan_reads_back(st: Scan, ps: Seq<Piece>, t: YmdHms)
    requires
        fixed_width(ps),
        proper_time(t),
    ensures
        scanned_all(st, ps, as_time(ps, t)) == Some((read_back(st, ps, t), Seq::<char>::empty())),
    decreases ps.len(),
{
    let s = as_time(ps, t);
    if ps.len() == 0 {
        assert(s =~= Seq::<char>::empty());
        assert(read_back(st, ps, t) == st);
    } else {
        let tail = ps.skip(1);
        let more = as_time(tail, t);
        mentions_step(ps, Tok::Year4);
        mentions_step(ps, Tok::Month2);
        mentions_step(ps, Tok::Day2);
        mentions_step(ps, Tok::Minute);
        mentions_step(ps, Tok::Second);
        mentions_step(ps, Tok::PmUpper);
        mentions_step(ps, Tok::PmLower);
        assert forall|i: int| 0 <= i < tail.len() implies (
        #[trigger] tail[i] matches Piece::Token(k) ==> fixed_token(k)) by {
            assert(tail[i] == ps[i + 1]);
        }
        match ps[0] {
            Piece::Literal(c) => {
                assert(s[0] == c);
                assert(s.skip(1) =~= more);
                scan_reads_back(st, tail, t);
            },
            Piece::Token(k) => {
                assert(ps[0] == Piece::Token(k));
                if is_half(k) {
                    reads_half(k, t, more);
                    assert(s == rendered(k, t) + more);
                    assert(s.skip(2) =~= more);
                    let next = Scan { pm: t.hour >= 12, has_ampm: true, ..st };
                    assert(scanned(st, ps[0], s) == Some((next, 2int)));
                    scan_reads_back(next, tail, t);
                    assert(read_back(next, tail, t) == read_back(st, ps, t));
                } else {
                    let n: int = match k {
                        Tok::Year4 => t.year as int,
                        Tok::Month2 => t.month as int,
                        Tok::Day2 => t.day as int,
                        Tok::Hour24 => t.hour as int,
                        Tok::Hour12 => clock_hour(t) as int,
                        Tok::Minute => t.minute as int,
                        _ => t.second as int,
                    };
                    let (min, w) = token_digits(k);
                    assert(rendered(k, t) == decimal::padded(n, w));
                    reads_padded(n, w, more, min);
                    assert(s == decimal::padded(n, w) + more);
                    assert(s.skip(w) =~= more);
                    let next = entered(st, k, n);
                    assert(scanned(st, ps[0], s) == Some((next, w)));
                    scan_reads_back(next, tail, t);
                    assert(read_back(next, tail, t) == read_back(st, ps, t));
                }
            },
        }
    }
}

/// Reading back what was written by a layout of fixed-width numbers gives the
/// fields that the layout mentions; an hour of a twelve-hour clock is to have
/// the half of the day beside it.
pub proof fn parse_undoes_format(layout: Seq<char>, t: YmdHms)
    requires
        fixed_width(layout_pieces(layout)),
        halves_told(layout_pieces(layout)),
        proper_time(t),
    ensures
        parsed(layout, as_time(layout_pieces(layout), t)) == Some(
            mentioned(layout_pieces(layout), t),
        ),
{
    let ps = layout_pieces(layout);
    scan_reads_back(start_scan(), ps, t);
    last_hour_is(0, ps, t);
    let rest = Seq::<char>::empty();
    assert(text::trim_start(rest) == rest);
    assert(text::trim_end(rest) == rest);
    assert(full_hour(read_back(start_scan(), ps, t)) == mentioned(ps, t).hour);
}

/// The pieces of a date and a time.
pub open spec fn full_pieces(hour: Tok) -> Seq<Piece> {
    seq![
        Piece::Token(Tok::Year4),
        Piece::Literal('-'),
        Piece::Token(Tok::Month2),
        Piece::Literal('-'),
        Piece::Token(Tok::Day2),
        Piece::Literal(' '),
        Piece::Token(hour),
        Piece::Literal(':'),
        Piece::Token(Tok::Minute),
        Piece::Literal(':'),
        Piece::Token(Tok::Second),
    ]
}

/// A text begins with another exactly where its first characters are those of
/// the other.
pub proof fn begins_iff(s: Seq<char>, head: Seq<char>)
    ensures
        text::begins(s, head) == (head.len() <= s.len() && forall|i: int|
            0 <= i < head.len() ==> s[i] == #[trigger] head[i]),
{
    if text::begins(s, head) {
        begins_chars(s, head);
    } else if head.len() <= s.len() && forall|i: int|
        0 <= i < head.len() ==> s[i] == #[trigger] head[i] {
        begins_by_chars(s, head);
    }
}

/// When a text begins with a word of 1 letter.
pub proof fn begins_1(s: Seq<char>, w: Seq<char>)
    requires
        w.len() == 1,
    ensures
        text::begins(s, w) == (s.len() >= 1 && s[0] == w[0]),
{
    begins_iff(s, w);
}

/// When a text begins with a word of 2 letters.
pub proof fn begins_2(s: Seq<char>, w: Seq<char>)
    requires
        w.len() == 2,
    ensures
        text::begins(s, w) == (s.len() >= 2 && s[0] == w[0] && s[1] == w[1]),
{
    begins_iff(s, w);
}

/// When a text begins with a word of 3 letters.
pub proof fn begins_3(s: Seq<char>, w: Seq<char>)
    requires
        w.len() == 3,
    ensures
        text::begins(s, w) == (s.len() >= 3 && s[0] == w[0] && s[1] == w[1] && s[2] == w[2]),
{
    begins_iff(s, w);
}

/// When a text begins with a word of 4 letters.
pub proof fn begins_4(s: Seq<char>, w: Seq<char>)
    requires
        w.len() == 4,
    ensures
        text::begins(s, w) == (s.len() >= 4 && s[0] == w[0] && s[1] == w[1] && s[2] == w[2] && s[3] == w[3]),
{
    begins_iff(s, w);
}

/// When a text begins with a word of 6 letters.
proof fn begins_6(s: Seq<char>, w: Seq<char>)
    requires
        w.len() == 6,
    ensures
        text::begins(s, w) == (s.len() >= 6 && s[0] == w[0] && s[1] == w[1] && s[2] == w[2] && s[3] == w[3] && s[4] == w[4] && s[5] == w[5]),
{
    begins_iff(s, w);
}

/// When a text begins with a word of 7 letters.
proof fn begins_7(s: Seq<char>, w: Seq<char>)
    requires
        w.len() == 7,
    ensures
        text::begins(s, w) == (s.len() >= 7 && s[0] == w[0] && s[1] == w[1] && s[2] == w[2] && s[3] == w[3] && s[4] == w[4] && s[5] == w[5] && s[6] == w[6]),
{
    begins_iff(s, w);
}

/// When a text begins with the tokens of a layout.
pub proof fn layout_starts(s: Seq<char>)
    ensures
        text::begins(s, "2006"@) == (s.len() >= 4 && s[0] == '2' && s[1] == '0' && s[2] == '0' && s[3] == '6'),
        text::begins(s, "06"@) == (s.len() >= 2 && s[0] == '0' && s[1] == '6'),
        text::begins(s, "01"@) == (s.len() >= 2 && s[0] == '0' && s[1] == '1'),
        text::begins(s, "1"@) == (s.len() >= 1 && s[0] == '1'),
        text::begins(s, "02"@) == (s.len() >= 2 && s[0] == '0' && s[1] == '2'),
        text::begins(s, "2"@) == (s.len() >= 1 && s[0] == '2'),
        text::begins(s, "15"@) == (s.len() >= 2 && s[0] == '1' && s[1] == '5'),
        text::begins(s, "03"@) == (s.len() >= 2 && s[0] == '0' && s[1] == '3'),
        text::begins(s, "04"@) == (s.len() >= 2 && s[0] == '0' && s[1] == '4'),
        text::begins(s, "05"@) == (s.len() >= 2 && s[0] == '0' && s[1] == '5'),
        text::begins(s, "Jan"@) == (s.len() >= 3 && s[0] == 'J' && s[1] == 'a' && s[2] == 'n'),
        text::begins(s, "January"@) == (s.len() >= 7 && s[0] == 'J' && s[1] == 'a' && s[2] == 'n' && s[3] == 'u' && s[4] == 'a' && s[5] == 'r' && s[6] == 'y'),
        text::begins(s, "Mon"@) == (s.len() >= 3 && s[0] == 'M' && s[1] == 'o' && s[2] == 'n'),
        text::begins(s, "Monday"@) == (s.len() >= 6 && s[0] == 'M' && s[1] == 'o' && s[2] == 'n' && s[3] == 'd' && s[4] == 'a' && s[5] == 'y'),
        text::begins(s, "PM"@) == (s.len() >= 2 && s[0] == 'P' && s[1] == 'M'),
        text::begins(s, "pm"@) == (s.len() >= 2 && s[0] == 'p' && s[1] == 'm'),
{
    reveal_strlit("2006");
    begins_4(s, "2006"@);
    reveal_strlit("06");
    begins_2(s, "06"@);
    reveal_strlit("01");
    begins_2(s, "01"@);
    reveal_strlit("1");
    begins_1(s, "1"@);
    reveal_strlit("02");
    begins_2(s, "02"@);
    reveal_strlit("2");
    begins_1(s, "2"@);
    reveal_strlit("15");
    begins_2(s, "15"@);
    reveal_strlit("03");
    begins_2(s, "03"@);
    reveal_strlit("04");
    begins_2(s, "04"@);
    reveal_strlit("05");
    begins_2(s, "05"@);
    reveal_strlit("Jan");
    begins_3(s, "Jan"@);
    reveal_strlit("January");
    begins_7(s, "January"@);
    reveal_strlit("Mon");
    begins_3(s, "Mon"@);
    reveal_strlit("Monday");
    begins_6(s, "Monday"@);
    reveal_strlit("PM");
    begins_2(s, "PM"@);
    reveal_strlit("pm");
    begins_2(s, "pm"@);
}

/// A token of a layout is found again in front of what may follow it.
pub proof fn layout_token_found(k: Tok, more: Seq<char>)
    requires
        more.len() > 0 ==> more[0] != '5' && more[0] != 'u' && more[0] != 'd',
        more.len() > 1 ==> !(more[0] == '0' && more[1] == '0'),
    ensures
        layout_token(layout_text(k) + more) == Some(k),
{
    reveal(layout_token);
    widths(k);
    let s = layout_text(k) + more;
    layout_starts(s);
    layout_starts(layout_text(k));
    begins_iff(layout_text(k), layout_text(k));
    assert(forall|i: int| 0 <= i < layout_text(k).len() ==> s[i] == #[trigger] layout_text(k)[i]);
    assert(more.len() > 0 ==> s[layout_width(k)] == more[0]);
    assert(more.len() > 1 ==> s[layout_width(k) + 1] == more[1]);
}

/// What stands at the start of a layout written from a pattern: never a
/// character by which the token before it could be read longer.
proof fn layout_follows(ps: Seq<Piece>)
    requires
        forall|i: int|
            0 <= i < ps.len() ==> (#[trigger] ps[i] matches Piece::Literal(c) ==>
                !text::is_digit(c) && !text::is_ascii_letter(c)),
    ensures
        as_layout(ps).len() > 0 ==> as_layout(ps)[0] != '5' && as_layout(ps)[0] != 'u'
            && as_layout(ps)[0] != 'd',
        as_layout(ps).len() > 1 ==> !(as_layout(ps)[0] == '0' && as_layout(ps)[1] == '0'),
{
    if ps.len() > 0 {
        match ps[0] {
            Piece::Token(k) => {
                widths(k);
                let head = layout_text(k);
                let s = as_layout(ps);
                assert(s == head + as_layout(ps.skip(1)));
                begins_by_chars(s, head);
                layout_starts(s);
            },
            Piece::Literal(c) => {
                assert(as_layout(ps)[0] == c);
            },
        }
    }
}

/// A layout written from pieces is read as the same pieces, where no character
/// that stands for itself is a digit or an ASCII letter.
pub proof fn layout_reads_back(ps: Seq<Piece>)
    requires
        forall|i: int|
            0 <= i < ps.len() ==> (#[trigger] ps[i] matches Piece::Literal(c) ==>
                !text::is_digit(c) && !text::is_ascii_letter(c)),
    ensures
        layout_pieces(as_layout(ps)) == ps,
    decreases ps.len(),
{
    let s = as_layout(ps);
    if ps.len() == 0 {
        assert(layout_pieces(s) =~= ps);
    } else {
        let tail = ps.skip(1);
        assert forall|i: int| 0 <= i < tail.len() implies (
        #[trigger] tail[i] matches Piece::Literal(c) ==> !text::is_digit(c)
            && !text::is_ascii_letter(c)) by {
            assert(tail[i] == ps[i + 1]);
        }
        let more = as_layout(tail);
        layout_reads_back(tail);
        layout_follows(tail);
        match ps[0] {
            Piece::Token(k) => {
                widths(k);
                layout_token_found(k, more);
                assert(s.skip(layout_width(k)) =~= more);
                assert(layout_pieces(s) == seq![Piece::Token(k)] + tail);
                assert(seq![Piece::Token(k)] + tail =~= ps);
            },
            Piece::Literal(c) => {
                assert(s[0] == c);
                layout_starts(s);
                assert(layout_token(s) is None) by {
                    reveal(layout_token);
                }
                assert(s.skip(1) =~= more);
                assert(layout_pieces(s) == seq![Piece::Literal(c)] + tail);
                assert(seq![Piece::Literal(c)] + tail =~= ps);
            },
        }
    }
}

/// The pieces of the default layout of a date and a time, and of the one on a
/// twelve-hour clock.
pub proof fn full_layout_pieces()
    ensures
        layout_pieces(DATETIME_LAYOUT@) == full_pieces(Tok::Hour24),
        layout_pieces("2006-01-02 03:04:05 PM"@) == full_pieces(Tok::Hour12) + seq![
            Piece::Literal(' '),
            Piece::Token(Tok::PmUpper),
        ],
{
    let day = full_pieces(Tok::Hour24);
    let half = full_pieces(Tok::Hour12) + seq![Piece::Literal(' '), Piece::Token(Tok::PmUpper)];
    reveal_with_fuel(as_layout, 14);
    reveal_strlit("2006");
    reveal_strlit("01");
    reveal_strlit("02");
    reveal_strlit("15");
    reveal_strlit("03");
    reveal_strlit("04");
    reveal_strlit("05");
    reveal_strlit("PM");
    reveal_strlit("2006-01-02 15:04:05");
    reveal_strlit("2006-01-02 03:04:05 PM");
    assert(as_layout(day) =~= DATETIME_LAYOUT@);
    assert(as_layout(half) =~= "2006-01-02 03:04:05 PM"@);
    layout_reads_back(day);
    layout_reads_back(half);
}

/// A moment that is written by the default layout of a date and a time, or by
/// the one on a twelve-hour clock, is read back whole.
pub proof fn full_layouts_read_back(t: YmdHms)
    requires
        proper_time(t),
    ensures
        parsed(DATETIME_LAYOUT@, as_time(layout_pieces(DATETIME_LAYOUT@), t)) == Some(t),
        parsed(
            "2006-01-02 03:04:05 PM"@,
            as_time(layout_pieces("2006-01-02 03:04:05 PM"@), t),
        ) == Some(t),
{
    full_layout_pieces();
    let day = layout_pieces(DATETIME_LAYOUT@);
    let half = layout_pieces("2006-01-02 03:04:05 PM"@);
    assert(day[0] == Piece::Token(Tok::Year4) && half[0] == day[0]);
    assert(day[2] == Piece::Token(Tok::Month2) && half[2] == day[2]);
    assert(day[4] == Piece::Token(Tok::Day2) && half[4] == day[4]);
    assert(day[6] == Piece::Token(Tok::Hour24));
    assert(half[6] == Piece::Token(Tok::Hour12));
    assert(day[8] == Piece::Token(Tok::Minute) && half[8] == day[8]);
    assert(day[10] == Piece::Token(Tok::Second) && half[10] == day[10]);
    assert(half[12] == Piece::Token(Tok::PmUpper));
    assert(!mentions(day, Tok::Hour12));
    parse_undoes_format(DATETIME_LAYOUT@, t);
    parse_undoes_format("2006-01-02 03:04:05 PM"@, t);
}

/// The field of a moment that a token of fixed width counts; none for other
/// tokens.
pub open spec fn counted(k: Tok, t: YmdHms) -> Option<int> {
    match k {
        Tok::Year4 => Some(t.year as int),
        Tok::Month2 => Some(t.month as int),
        Tok::Day2 => Some(t.day as int),
        Tok::Hour24 => Some(t.hour as int),
        Tok::Minute => Some(t.minute as int),
        Tok::Second => Some(t.second as int),
        _ => None,
    }
}

/// Whether every piece counts a field or stands for itself.
pub open spec fn all_counted(ps: Seq<Piece>) -> bool {
    forall|i: int|
        0 <= i < ps.len() ==> (#[trigger] ps[i] matches Piece::Token(k) ==> counted(
            k,
            zero_time(),
        ) is Some)
}

/// Whether the fields of a moment fit their places: a year of four digits, the
/// others of two.
pub open spec fn fits_places(t: YmdHms) -> bool {
    &&& 0 <= t.year <= 9999
    &&& t.month <= 99
    &&& t.day <= 99
    &&& t.hour <= 99
    &&& t.minute <= 99
    &&& t.second <= 99
}

/// The number of characters of a text by pieces that count fields.
pub open spec fn time_width(ps: Seq<Piece>) -> nat
    decreases ps.len(),
{
    if ps.len() == 0 {
        0
    } else {
        (match ps[0] {
            Piece::Token(k) => token_digits(k).1 as nat,
            Piece::Literal(c) => 1,
        }) + time_width(ps.skip(1))
    }
}

/// Whether a moment is before another by the fields that pieces count, the
/// first of them first.
pub open spec fn fields_before(ps: Seq<Piece>, t: YmdHms, u: YmdHms) -> bool
    decreases ps.len(),
{
    if ps.len() == 0 {
        false
    } else {
        match ps[0] {
            Piece::Token(k) => match (counted(k, t), counted(k, u)) {
                (Some(m), Some(n)) => m < n || (m == n && fields_before(ps.skip(1), t, u)),
                _ => fields_before(ps.skip(1), t, u),
            },
            Piece::Literal(c) => fields_before(ps.skip(1), t, u),
        }
    }
}

/// Whether a moment is before another by its fields, the year first.
pub open spec fn before(t: YmdHms, u: YmdHms) -> bool {
    t.year < u.year || (t.year == u.year && (t.month < u.month || (t.month == u.month && (t.day
        < u.day || (t.day == u.day && (t.hour < u.hour || (t.hour == u.hour && (t.minute < u.minute
        || (t.minute == u.minute && t.second < u.second)))))))))
}

/// Texts that a layout of counted fields gives are all of one width, and in the
/// order of the fields.
pub proof fn texts_in_field_order(ps: Seq<Piece>, t: YmdHms, u: YmdHms)
    requires
        all_counted(ps),
        fits_places(t),
        fits_places(u),
    ensures
        as_time(ps, t).len() == time_width(ps),
        as_time(ps, u).len() == time_width(ps),
        text::precedes(as_time(ps, t), as_time(ps, u)) == fields_before(ps, t, u),
    decreases ps.len(),
{
    if ps.len() > 0 {
        let tail = ps.skip(1);
        assert forall|i: int| 0 <= i < tail.len() implies (
        #[trigger] tail[i] matches Piece::Token(k) ==> counted(k, zero_time()) is Some) by {
            assert(tail[i] == ps[i + 1]);
        }
        texts_in_field_order(tail, t, u);
        let (x, y) = (as_time(tail, t), as_time(tail, u));
        match ps[0] {
            Piece::Token(k) => {
                assert(counted(k, zero_time()) is Some);
                let (m, n) = (counted(k, t)->0, counted(k, u)->0);
                let w = token_digits(k).1;
                padded_digits(m, w);
                padded_digits(n, w);
                let (a, b) = (decimal::padded(m, w), decimal::padded(n, w));
                assert(rendered(k, t) == a && rendered(k, u) == b);
                decimal::digits_in_order(a, b);
                text::precedes_by_heads(a, x, b, y);
            },
            Piece::Literal(c) => {
                let h = seq![c];
                text::precedes_by_heads(h, x, h, y);
                reveal_with_fuel(text::precedes, 2);
                assert(!text::precedes(h, h));
            },
        }
    }
}

/// A number that was filled to two or four digits.
pub proof fn padded_digits(n: int, w: int)
    requires
        (w == 2 && 0 <= n <= 99) || (w == 4 && 0 <= n <= 9999),
    ensures
        decimal::padded(n, w).len() == w,
        decimal::all_digits(decimal::padded(n, w)),
        decimal::value(decimal::padded(n, w)) == n,
{
    let d = decimal::decimal(n as nat);
    decimal::value_of_decimal(n as nat);
    decimal::decimal_len_small(n as nat);
    decimal::value_after_zeros(w - d.len(), d);
}

/// Dates with times in the default layout have nineteen characters each and
/// compare as texts as their fields do.
pub proof fn default_texts_in_order(t: YmdHms, u: YmdHms)
    requires
        fits_places(t),
        fits_places(u),
    ensures
        as_time(layout_pieces(DATETIME_LAYOUT@), t).len() == 19,
        as_time(layout_pieces(DATETIME_LAYOUT@), u).len() == 19,
        text::precedes(
            as_time(layout_pieces(DATETIME_LAYOUT@), t),
            as_time(layout_pieces(DATETIME_LAYOUT@), u),
        ) == before(t, u),
{
    full_layout_pieces();
    let ps = full_pieces(Tok::Hour24);
    texts_in_field_order(ps, t, u);
    reveal_with_fuel(time_width, 12);
    reveal_with_fuel(fields_before, 12);
}

/// A character at the start of a pattern that begins no token.
proof fn pattern_literal(s: Seq<char>, c: char)
    requires
        s.len() > 0,
        s[0] == c,
        pattern_token(s) is None,
    ensures
        pattern_pieces(s) == seq![Piece::Literal(c)] + pattern_pieces(s.skip(1)),
        pattern_pieces(s)[0] == Piece::Literal(c),
        pattern_pieces(s).skip(1) == pattern_pieces(s.skip(1)),
{
    assert(pattern_pieces(s).skip(1) =~= pattern_pieces(s.skip(1)));
}

/// The pieces of a pattern spell it, and its literals are characters of it.
pub proof fn pattern_spells(s: Seq<char>)
    ensures
        as_pattern(pattern_pieces(s)) == s,
        forall|i: int|
            0 <= i < pattern_pieces(s).len() ==> (#[trigger] pattern_pieces(
                s,
            )[i] matches Piece::Literal(c) ==> s.contains(c)),
    decreases s.len(),
{
    let ps = pattern_pieces(s);
    if s.len() > 0 {
        pattern_token_stands(s);
        let w = match pattern_token(s) {
            Some(k) => pattern_width(k),
            None => 1,
        };
        let rest = s.skip(w);
        if let Some(k) = pattern_token(s) {
            widths(k);
        }
        pattern_spells(rest);
        let tail = pattern_pieces(rest);
        if let Some(k) = pattern_token(s) {
            assert(ps == seq![Piece::Token(k)] + tail);
            assert(ps.skip(1) =~= tail);
            assert(s.subrange(0, w) == pattern_text(k));
            assert(s =~= pattern_text(k) + rest);
        } else {
            pattern_literal(s, s[0]);
            assert(s =~= seq![s[0]] + rest);
        }
        assert forall|i: int| 0 <= i < ps.len() implies (
        #[trigger] ps[i] matches Piece::Literal(c) ==> s.contains(c)) by {
            if i > 0 {
                assert(ps[i] == tail[i - 1]);
                if let Piece::Literal(c) = tail[i - 1] {
                    let j = choose|j: int| 0 <= j < rest.len() && rest[j] == c;
                    assert(s[j + w] == c);
                }
            }
        }
    }
}

/// Turning a pattern without digits into a layout and back gives the pattern.
pub proof fn pattern_survives_layout(pattern: Seq<char>)
    requires
        !text::has_digit(pattern),
        go_of(pattern) is Some,
    ensures
        go_of(pattern) matches Some(layout) && pattern_of(layout) == pattern,
{
    let ps = pattern_pieces(pattern);
    pattern_spells(pattern);
    assert forall|i: int| 0 <= i < ps.len() implies (#[trigger] ps[i] matches Piece::Literal(c)
        ==> !text::is_digit(c) && !text::is_ascii_letter(c)) by {
        if let Piece::Literal(c) = ps[i] {
            let j = choose|j: int| 0 <= j < pattern.len() && pattern[j] == c;
            assert(!text::is_digit(pattern[j]));
        }
    }
    layout_reads_back(ps);
}

} // verus!
