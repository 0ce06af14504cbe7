//! Text operations on sequences of characters.

use vstd::prelude::*;

verus! {

// ---------------------------------------------------------------------------
// Characters
// ---------------------------------------------------------------------------

/// The characters with the Unicode property `White_Space`.
pub open spec fn is_white(c: char) -> bool {
    let n = c as u32;
    ||| 0x09 <= n <= 0x0d
    ||| n == 0x20
    ||| n == 0x85
    ||| n == 0xa0
    ||| n == 0x1680
    ||| 0x2000 <= n <= 0x200a
    ||| n == 0x2028
    ||| n == 0x2029
    ||| n == 0x202f
    ||| n == 0x205f
    ||| n == 0x3000
}

/// `char::is_whitespace`: true of the characters with the property `White_Space`.
pub assume_specification[ char::is_whitespace ](c: char) -> (r: bool)
    ensures
        r == is_white(c),
;

/// A letter from `A` to `Z` or from `a` to `z`.
pub open spec fn is_ascii_letter(c: char) -> bool {
    'A' <= c <= 'Z' || 'a' <= c <= 'z'
}

/// A digit from `0` to `9`.
pub open spec fn is_digit(c: char) -> bool {
    '0' <= c <= '9'
}

/// What `char::is_alphabetic` answers of a character beyond ASCII: the Unicode
/// property `Alphabetic`.
pub uninterp spec fn alphabetic(c: char) -> bool;

/// Whether a character is a letter: one of the 52 of ASCII, or alphabetic
/// beyond it.
pub open spec fn is_letter(c: char) -> bool {
    if (c as u32) < 0x80 {
        is_ascii_letter(c)
    } else {
        alphabetic(c)
    }
}

/// `char::is_alphabetic`. Of the ASCII characters exactly the 52 letters are
/// alphabetic; the table of the others is not spelled out.
pub assume_specification[ char::is_alphabetic ](c: char) -> (r: bool)
    ensures
        r == (if (c as u32) < 0x80 {
            is_ascii_letter(c)
        } else {
            alphabetic(c)
        }),
;

/// What `char::is_alphanumeric` answers of a character beyond ASCII.
pub uninterp spec fn alphanumeric(c: char) -> bool;

/// Whether a character is a letter or a numeral: a letter or a digit of ASCII,
/// or alphanumeric beyond it.
pub open spec fn is_word_char(c: char) -> bool {
    if (c as u32) < 0x80 {
        is_ascii_letter(c) || is_digit(c)
    } else {
        alphanumeric(c)
    }
}

/// `char::is_alphanumeric`. Of the ASCII characters exactly the letters and
/// digits are alphanumeric; the table of the others is not spelled out.
pub assume_specification[ char::is_alphanumeric ](c: char) -> (r: bool)
    ensures
        r == (if (c as u32) < 0x80 {
            is_ascii_letter(c) || is_digit(c)
        } else {
            alphanumeric(c)
        }),
;

/// The ASCII lower-case form of a character; characters that are not ASCII
/// upper-case letters are their own.
pub open spec fn lower(c: char) -> char {
    if 'A' <= c <= 'Z' {
        (c as u32 + 32) as char
    } else {
        c
    }
}

/// Lower-cases one ASCII letter.
pub fn lower_char(c: char) -> (r: char)
    ensures
        r == lower(c),
{
    if 'A' <= c && c <= 'Z' {
        ((c as u8) + 32) as char
    } else {
        c
    }
}

/// The number of bytes that UTF-8 takes for a character.
pub open spec fn utf8_width(c: char) -> nat {
    if (c as u32) < 0x80 {
        1
    } else if (c as u32) < 0x800 {
        2
    } else if (c as u32) < 0x10000 {
        3
    } else {
        4
    }
}

/// Computes [`utf8_width`].
pub fn width(c: char) -> (r: usize)
    ensures
        r == utf8_width(c),
        1 <= r <= 4,
{
    let n: u32 = c as u32;
    if n < 0x80 {
        1
    } else if n < 0x800 {
        2
    } else if n < 0x10000 {
        3
    } else {
        4
    }
}

// ---------------------------------------------------------------------------
// Strings and their characters
// ---------------------------------------------------------------------------

/// `String::push`: appends one character.
pub assume_specification[ String::push ](s: &mut String, c: char)
    ensures
        final(s)@ == old(s)@.push(c),
;

/// `String::push_str`: appends a string slice.
pub assume_specification[ String::push_str ](s: &mut String, t: &str)
    ensures
        final(s)@ == old(s)@ + t@,
;

/// What `str::to_lowercase` returns of a text with characters beyond ASCII:
/// its Unicode lower-case form.
pub uninterp spec fn unicode_lower(s: Seq<char>) -> Seq<char>;

/// Whether a text has only ASCII characters.
pub open spec fn all_ascii(s: Seq<char>) -> bool {
    forall|i: int| 0 <= i < s.len() ==> (#[trigger] s[i] as u32) < 0x80
}

/// The lower-case form of a text.
pub open spec fn lowercase(s: Seq<char>) -> Seq<char> {
    if all_ascii(s) {
        ascii_lower(s)
    } else {
        unicode_lower(s)
    }
}

/// `str::to_lowercase`. A text of ASCII characters is mapped letter by letter;
/// the Unicode mapping is not spelled out.
pub assume_specification[ str::to_lowercase ](s: &str) -> (r: String)
    ensures
        r@ == (if all_ascii(s@) {
            ascii_lower(s@)
        } else {
            unicode_lower(s@)
        }),
;

/// A text with its ASCII letters lower-cased.
pub open spec fn ascii_lower(s: Seq<char>) -> Seq<char> {
    Seq::new(s.len(), |i: int| lower(s[i]))
}

/// The contents of a list of strings.
pub open spec fn contents(v: Seq<String>) -> Seq<Seq<char>> {
    Seq::new(v.len(), |i: int| v[i]@)
}

/// The content of an optional string.
pub open spec fn opt_view(o: Option<String>) -> Option<Seq<char>> {
    match o {
        Some(s) => Some(s@),
        None => None,
    }
}

/// The content of an optional string slice.
pub open spec fn opt_str(o: Option<&str>) -> Option<Seq<char>> {
    match o {
        Some(s) => Some(s@),
        None => None,
    }
}

/// The characters of a text, as a vector.
pub fn chars_of(s: &str) -> (r: Vec<char>)
    ensures
        r@ == s@,
{
    let mut v: Vec<char> = Vec::new();
    for c in it: s.chars()
        invariant
            v@ == it.seq().take(it.index()),
            it.seq() == s@,
    {
        v.push(c);
    }
    v
}

/// The character at a position.
pub fn char_at(v: &Vec<char>, i: usize) -> (r: char)
    requires
        i < v@.len(),
    ensures
        r == v@[i as int],
{
    v[i]
}

/// The text that a range of a character vector spells.
pub fn string_of(v: &Vec<char>, from: usize, to: usize) -> (r: String)
    requires
        from <= to <= v@.len(),
    ensures
        r@ == v@.subrange(from as int, to as int),
{
    let mut s = String::new();
    let mut i: usize = from;
    while i < to
        invariant
            from <= i <= to <= v@.len(),
            s@ == v@.subrange(from as int, i as int),
        decreases to - i,
    {
        s.push(v[i]);
        i += 1;
        assert(s@ =~= v@.subrange(from as int, i as int));
    }
    s
}

/// Whether two texts are the same.
pub fn same(a: &str, b: &str) -> (r: bool)
    ensures
        r == (a@ == b@),
{
    let x = chars_of(a);
    let y = chars_of(b);
    if x.len() != y.len() {
        return false;
    }
    let mut i: usize = 0;
    while i < x.len()
        invariant
            i <= x@.len(),
            x@ == a@,
            y@ == b@,
            x@.len() == y@.len(),
            forall|j: int| 0 <= j < i ==> x@[j] == y@[j],
        decreases x@.len() - i,
    {
        if x[i] != y[i] {
            return false;
        }
        i += 1;
    }
    assert(a@ =~= b@);
    true
}

/// Whether a list of strings holds a text.
pub fn holds(list: &Vec<String>, s: &str) -> (r: bool)
    ensures
        r == contents(list@).contains(s@),
{
    let mut i: usize = 0;
    while i < list.len()
        invariant
            i <= list@.len(),
            forall|j: int| 0 <= j < i ==> list@[j]@ != s@,
        decreases list@.len() - i,
    {
        if same(list[i].as_str(), s) {
            assert(contents(list@)[i as int] == s@);
            return true;
        }
        i += 1;
    }
    assert(!contents(list@).contains(s@));
    false
}

/// Copies a list of strings.
pub fn copy_list(list: &Vec<String>) -> (r: Vec<String>)
    ensures
        contents(r@) == contents(list@),
{
    let mut out: Vec<String> = Vec::new();
    let mut i: usize = 0;
    while i < list.len()
        invariant
            i <= list@.len(),
            contents(out@) == contents(list@).take(i as int),
        decreases list@.len() - i,
    {
        let ghost before = out@;
        out.push(list[i].clone());
        assert(contents(out@) =~= contents(before).push(list@[i as int]@));
        i += 1;
        assert(contents(out@) =~= contents(list@).take(i as int));
    }
    assert(contents(list@).take(i as int) =~= contents(list@));
    out
}

/// Copies an optional string.
pub fn copy_opt(o: &Option<String>) -> (r: Option<String>)
    ensures
        opt_view(r) == opt_view(*o),
{
    match o {
        Some(s) => Some(s.clone()),
        None => None,
    }
}

// ---------------------------------------------------------------------------
// White space
// ---------------------------------------------------------------------------

/// A text without its leading white space.
pub open spec fn trim_start(s: Seq<char>) -> Seq<char>
    decreases s.len(),
{
    if s.len() > 0 && is_white(s[0]) {
        trim_start(s.skip(1))
    } else {
        s
    }
}

/// A text without its trailing white space.
pub open spec fn trim_end(s: Seq<char>) -> Seq<char>
    decreases s.len(),
{
    if s.len() > 0 && is_white(s.last()) {
        trim_end(s.drop_last())
    } else {
        s
    }
}

/// A text without leading and trailing white space.
pub open spec fn trimmed(s: Seq<char>) -> Seq<char> {
    trim_end(trim_start(s))
}

/// Whether a text holds nothing but white space.
pub open spec fn is_blank(s: Seq<char>) -> bool {
    trimmed(s).len() == 0
}

/// Counts the leading white-space characters.
fn leading(v: &Vec<char>) -> (r: usize)
    ensures
        r <= v@.len(),
        trim_start(v@) == v@.skip(r as int),
{
    let mut lo: usize = 0;
    assert(v@.skip(0) =~= v@);
    while lo < v.len() && v[lo].is_whitespace()
        invariant
            lo <= v@.len(),
            trim_start(v@) == trim_start(v@.skip(lo as int)),
        decreases v@.len() - lo,
    {
        assert(v@.skip(lo as int).skip(1) =~= v@.skip(lo + 1));
        lo += 1;
    }
    lo
}

/// Where the text from `lo` on ends, its trailing white space left out.
fn trailing(v: &Vec<char>, lo: usize) -> (r: usize)
    requires
        lo <= v@.len(),
    ensures
        lo <= r <= v@.len(),
        trim_end(v@.skip(lo as int)) == v@.subrange(lo as int, r as int),
{
    let mut hi: usize = v.len();
    assert(v@.subrange(lo as int, hi as int) =~= v@.skip(lo as int));
    while hi > lo && v[hi - 1].is_whitespace()
        invariant
            lo <= hi <= v@.len(),
            trim_end(v@.skip(lo as int)) == trim_end(v@.subrange(lo as int, hi as int)),
        decreases hi,
    {
        assert(v@.subrange(lo as int, hi as int).drop_last() =~= v@.subrange(
            lo as int,
            hi - 1,
        ));
        hi -= 1;
    }
    hi
}

/// Removes leading and trailing white space.
pub fn trim(s: &str) -> (r: String)
    ensures
        r@ == trimmed(s@),
{
    let v = chars_of(s);
    let lo: usize = leading(&v);
    let hi: usize = trailing(&v, lo);
    string_of(&v, lo, hi)
}

/// Removes trailing white space.
pub fn trim_tail(s: &str) -> (r: String)
    ensures
        r@ == trim_end(s@),
{
    let v = chars_of(s);
    let hi: usize = trailing(&v, 0);
    assert(v@.skip(0) =~= v@);
    string_of(&v, 0, hi)
}

/// Whether a text holds nothing but white space.
pub fn blank(s: &str) -> (r: bool)
    ensures
        r == is_blank(s@),
{
    trim(s).as_str().is_empty()
}

/// A trimmed text neither starts nor ends with white space.
pub proof fn trim_start_bare(s: Seq<char>)
    ensures
        trim_start(s).len() > 0 ==> !is_white(trim_start(s)[0]),
        trim_start(s).len() <= s.len(),
        trim_start(s) == s.skip(s.len() - trim_start(s).len()),
    decreases s.len(),
{
    if s.len() > 0 && is_white(s[0]) {
        trim_start_bare(s.skip(1));
        assert(s.skip(1).skip(s.skip(1).len() - trim_start(s).len()) =~= s.skip(
            s.len() - trim_start(s).len(),
        ));
    } else {
        assert(s.skip(0) =~= s);
    }
}

/// The end of [`trim_end`] is bare of white space and the result is a prefix.
pub proof fn trim_end_bare(s: Seq<char>)
    ensures
        trim_end(s).len() > 0 ==> !is_white(trim_end(s).last()),
        trim_end(s).len() <= s.len(),
        trim_end(s) == s.take(trim_end(s).len() as int),
    decreases s.len(),
{
    if s.len() > 0 && is_white(s.last()) {
        trim_end_bare(s.drop_last());
        assert(s.drop_last().take(trim_end(s).len() as int) =~= s.take(trim_end(s).len() as int));
    } else {
        assert(s.take(s.len() as int) =~= s);
    }
}

/// Trimming twice is trimming once.
pub proof fn trim_idempotent(s: Seq<char>)
    ensures
        trimmed(trimmed(s)) == trimmed(s),
{
    let a = trim_start(s);
    trim_start_bare(s);
    trim_end_bare(a);
    let t = trim_end(a);
    if t.len() > 0 {
        assert(t[0] == a[0]);
    }
    assert(trim_start(t) == t);
}

// ---------------------------------------------------------------------------
// Prefixes, occurrences, pieces
// ---------------------------------------------------------------------------

/// Whether a text has a piece at a position.
pub open spec fn has_at(s: Seq<char>, i: int, piece: Seq<char>) -> bool {
    0 <= i && i + piece.len() <= s.len() && s.subrange(i, i + piece.len()) == piece
}

/// Whether a text begins with another.
pub open spec fn begins(s: Seq<char>, head: Seq<char>) -> bool {
    has_at(s, 0, head)
}

/// Whether a text contains another.
pub open spec fn occurs(s: Seq<char>, piece: Seq<char>) -> bool {
    exists|i: int| #[trigger] has_at(s, i, piece)
}

/// Whether the characters from `i` on begin with `piece`.
pub fn at(v: &Vec<char>, i: usize, piece: &str) -> (r: bool)
    requires
        i <= v@.len(),
    ensures
        r == has_at(v@, i as int, piece@),
        r == begins(v@.skip(i as int), piece@),
{
    let p = chars_of(piece);
    let ghost tail = v@.skip(i as int);
    if p.len() > v.len() - i {
        return false;
    }
    let mut j: usize = 0;
    while j < p.len()
        invariant
            j <= p@.len(),
            p@ == piece@,
            i + p.len() <= v.len(),
            tail == v@.skip(i as int),
            forall|k: int| 0 <= k < j ==> v@[i + k] == #[trigger] p@[k],
        decreases p@.len() - j,
    {
        if v[i + j] != p[j] {
            assert(v@.subrange(i as int, i + p@.len())[j as int] != p@[j as int]);
            assert(tail.subrange(0, p@.len() as int)[j as int] != p@[j as int]);
            return false;
        }
        j += 1;
    }
    assert(v@.subrange(i as int, i + p@.len()) =~= p@);
    assert(tail.subrange(0, p@.len() as int) =~= p@);
    true
}

/// Whether a text begins with another.
pub fn starts_with(s: &str, head: &str) -> (r: bool)
    ensures
        r == begins(s@, head@),
{
    let v = chars_of(s);
    at(&v, 0, head)
}

/// Whether a text contains another.
pub fn contains(s: &str, piece: &str) -> (r: bool)
    ensures
        r == occurs(s@, piece@),
{
    let v = chars_of(s);
    let mut i: usize = 0;
    loop
        invariant
            i <= v@.len(),
            v@ == s@,
            forall|k: int| 0 <= k < i ==> !#[trigger] has_at(v@, k, piece@),
        decreases v@.len() - i,
    {
        if at(&v, i, piece) {
            return true;
        }
        if i == v.len() {
            return false;
        }
        i += 1;
    }
}

/// The first position of a character, or the length where it does not occur.
pub open spec fn first_at(s: Seq<char>, c: char) -> int
    decreases s.len(),
{
    if s.len() == 0 || s[0] == c {
        0
    } else {
        1 + first_at(s.skip(1), c)
    }
}

/// What [`first_at`] finds.
pub proof fn first_at_props(s: Seq<char>, c: char)
    ensures
        0 <= first_at(s, c) <= s.len(),
        first_at(s, c) < s.len() ==> s[first_at(s, c)] == c,
        forall|k: int| 0 <= k < first_at(s, c) ==> s[k] != c,
    decreases s.len(),
{
    if s.len() > 0 && s[0] != c {
        first_at_props(s.skip(1), c);
        assert forall|k: int| 0 <= k < first_at(s, c) implies s[k] != c by {
            if k > 0 {
                assert(s[k] == s.skip(1)[k - 1]);
            }
        }
    }
}

/// [`first_at`] is the only position with its property.
pub proof fn first_at_is(s: Seq<char>, c: char, n: int)
    requires
        0 <= n <= s.len(),
        n < s.len() ==> s[n] == c,
        forall|k: int| 0 <= k < n ==> s[k] != c,
    ensures
        first_at(s, c) == n,
{
    first_at_props(s, c);
    let m = first_at(s, c);
    if m < n {
        assert(s[m] != c);
    }
}

/// The first position of a character in a vector, or its length.
pub fn find_char(v: &Vec<char>, c: char) -> (r: usize)
    ensures
        r == first_at(v@, c),
        r <= v@.len(),
{
    let mut i: usize = 0;
    while i < v.len() && v[i] != c
        invariant
            i <= v@.len(),
            forall|k: int| 0 <= k < i ==> v@[k] != c,
        decreases v@.len() - i,
    {
        i += 1;
    }
    proof {
        first_at_is(v@, c, i as int);
    }
    i
}

/// The pieces of a text between the occurrences of a separator: one piece more
/// than there are separators.
pub open spec fn split_at_char(s: Seq<char>, sep: char) -> Seq<Seq<char>>
    decreases s.len(),
{
    let n = first_at(s, sep);
    if 0 <= n < s.len() {
        seq![s.take(n)] + split_at_char(s.skip(n + 1), sep)
    } else {
        seq![s]
    }
}

/// Splits a text at each occurrence of a character.
pub fn split(s: &str, sep: char) -> (r: Vec<String>)
    ensures
        contents(r@) == split_at_char(s@, sep),
{
    let v = chars_of(s);
    let mut out: Vec<String> = Vec::new();
    let mut from: usize = 0;
    let mut i: usize = 0;
    assert(v@.skip(0) =~= v@);
    assert(contents(out@) + split_at_char(v@, sep) =~= split_at_char(v@, sep));
    while i < v.len()
        invariant
            from <= i <= v@.len(),
            v@ == s@,
            forall|k: int| from <= k < i ==> v@[k] != sep,
            contents(out@) + split_at_char(v@.skip(from as int), sep) == split_at_char(v@, sep),
        decreases v@.len() - i,
    {
        if v[i] == sep {
            let ghost before = out@;
            let ghost tail = v@.skip(from as int);
            out.push(string_of(&v, from, i));
            proof {
                first_at_is(tail, sep, i - from);
                assert(tail.take(i - from) =~= v@.subrange(from as int, i as int));
                assert(tail.skip(i - from + 1) =~= v@.skip(i + 1));
                assert(contents(out@) =~= contents(before) + seq![tail.take(i - from)]);
                assert(contents(out@) + split_at_char(v@.skip(i + 1), sep) =~= contents(before)
                    + split_at_char(tail, sep));
            }
            from = i + 1;
        }
        i += 1;
    }
    let ghost before = out@;
    let ghost tail = v@.skip(from as int);
    out.push(string_of(&v, from, v.len()));
    proof {
        first_at_is(tail, sep, tail.len() as int);
        assert(tail =~= v@.subrange(from as int, v@.len() as int));
        assert(contents(out@) =~= contents(before) + seq![tail]);
    }
    out
}

/// The texts of a list with a separator between each two.
pub open spec fn joined(list: Seq<Seq<char>>, sep: Seq<char>) -> Seq<char>
    decreases list.len(),
{
    if list.len() == 0 {
        seq![]
    } else if list.len() == 1 {
        list[0]
    } else {
        joined(list.drop_last(), sep) + sep + list.last()
    }
}

/// Joins the texts of a list.
pub fn join(list: &Vec<String>, sep: &str) -> (r: String)
    ensures
        r@ == joined(contents(list@), sep@),
{
    let mut out = String::new();
    let mut i: usize = 0;
    while i < list.len()
        invariant
            i <= list@.len(),
            out@ == joined(contents(list@).take(i as int), sep@),
        decreases list@.len() - i,
    {
        proof {
            let a = contents(list@).take(i + 1);
            assert(a.drop_last() =~= contents(list@).take(i as int));
            assert(a.last() == list@[i as int]@);
        }
        if i > 0 {
            out.push_str(sep);
        }
        out.push_str(list[i].as_str());
        i += 1;
        assert(out@ =~= joined(contents(list@).take(i as int), sep@));
    }
    assert(contents(list@).take(i as int) =~= contents(list@));
    out
}

/// The concatenation of three texts.
pub fn concat3(a: &str, b: &str, c: &str) -> (r: String)
    ensures
        r@ == a@ + b@ + c@,
{
    let mut out = a.to_owned();
    out.push_str(b);
    out.push_str(c);
    out
}

/// The concatenation of two texts.
pub fn concat2(a: &str, b: &str) -> (r: String)
    ensures
        r@ == a@ + b@,
{
    let mut out = a.to_owned();
    out.push_str(b);
    out
}

/// A text with each occurrence of a character replaced by another.
pub open spec fn replaced(s: Seq<char>, from: char, to: char) -> Seq<char> {
    Seq::new(
        s.len(),
        |i: int|
            if s[i] == from {
                to
            } else {
                s[i]
            },
    )
}

/// Replaces each occurrence of a character by another.
pub fn replace_char(s: &str, from: char, to: char) -> (r: String)
    ensures
        r@ == replaced(s@, from, to),
{
    let v = chars_of(s);
    let mut out = String::new();
    let mut i: usize = 0;
    while i < v.len()
        invariant
            i <= v@.len(),
            v@ == s@,
            out@ == replaced(s@, from, to).take(i as int),
        decreases v@.len() - i,
    {
        if v[i] == from {
            out.push(to);
        } else {
            out.push(v[i]);
        }
        i += 1;
        assert(out@ =~= replaced(s@, from, to).take(i as int));
    }
    assert(out@ =~= replaced(s@, from, to));
    out
}

/// A text with the first occurrence of a character replaced by another.
pub open spec fn replaced_first(s: Seq<char>, from: char, to: char) -> Seq<char> {
    let n = first_at(s, from);
    if 0 <= n < s.len() {
        s.update(n, to)
    } else {
        s
    }
}

/// Replaces the first occurrence of a character by another.
pub fn replace_first(s: &str, from: char, to: char) -> (r: String)
    ensures
        r@ == replaced_first(s@, from, to),
{
    let v = chars_of(s);
    let n: usize = find_char(&v, from);
    let mut out = String::new();
    let mut i: usize = 0;
    let ghost want = replaced_first(s@, from, to);
    while i < v.len()
        invariant
            i <= v@.len(),
            v@ == s@,
            n == first_at(s@, from),
            want == replaced_first(s@, from, to),
            out@ == want.take(i as int),
        decreases v@.len() - i,
    {
        if i == n {
            out.push(to);
        } else {
            out.push(v[i]);
        }
        i += 1;
        assert(out@ =~= want.take(i as int));
    }
    assert(out@ =~= want);
    out
}

/// At most the first `n` characters of a text.
pub open spec fn cut(s: Seq<char>, n: int) -> Seq<char> {
    if s.len() <= n {
        s
    } else {
        s.take(n)
    }
}

/// At most the first `n` characters of a text.
pub fn cut_text(s: &str, n: usize) -> (r: String)
    ensures
        r@ == cut(s@, n as int),
{
    let v = chars_of(s);
    if v.len() <= n {
        s.to_owned()
    } else {
        assert(v@.subrange(0, n as int) =~= v@.take(n as int));
        string_of(&v, 0, n)
    }
}

/// Whether two texts are equal up to the case of ASCII letters.
pub open spec fn same_letters(a: Seq<char>, b: Seq<char>) -> bool {
    ascii_lower(a) == ascii_lower(b)
}

/// Lower-cases the ASCII letters of a text.
pub fn to_lower(s: &str) -> (r: String)
    ensures
        r@ == ascii_lower(s@),
{
    let v = chars_of(s);
    let mut out = String::new();
    let mut i: usize = 0;
    while i < v.len()
        invariant
            i <= v@.len(),
            v@ == s@,
            out@ == ascii_lower(s@).take(i as int),
        decreases v@.len() - i,
    {
        out.push(lower_char(v[i]));
        i += 1;
        assert(out@ =~= ascii_lower(s@).take(i as int));
    }
    assert(out@ =~= ascii_lower(s@));
    out
}

/// Whether a text holds an ASCII digit.
pub open spec fn has_digit(s: Seq<char>) -> bool {
    exists|i: int| 0 <= i < s.len() && is_digit(#[trigger] s[i])
}

/// Tests [`has_digit`].
pub fn any_digit(s: &str) -> (r: bool)
    ensures
        r == has_digit(s@),
{
    let v = chars_of(s);
    let mut i: usize = 0;
    while i < v.len()
        invariant
            i <= v@.len(),
            v@ == s@,
            forall|k: int| 0 <= k < i ==> !is_digit(#[trigger] v@[k]),
        decreases v@.len() - i,
    {
        if '0' <= v[i] && v[i] <= '9' {
            return true;
        }
        i += 1;
    }
    false
}

/// Whether the characters from `i` on begin with the first `n` characters of
/// `p`, up to the case of ASCII letters.
pub fn at_fold(v: &Vec<char>, i: usize, p: &Vec<char>, n: usize) -> (r: bool)
    requires
        i <= v@.len(),
        n <= p@.len(),
    ensures
        r == (i + n <= v@.len() && same_letters(v@.subrange(i as int, i + n), p@.take(n as int))),
{
    if n > v.len() - i {
        return false;
    }
    let ghost a = v@.subrange(i as int, i + n);
    let ghost b = p@.take(n as int);
    let mut j: usize = 0;
    while j < n
        invariant
            j <= n <= p@.len(),
            i + n <= v.len(),
            a == v@.subrange(i as int, i + n),
            b == p@.take(n as int),
            forall|k: int| 0 <= k < j ==> lower(a[k]) == lower(#[trigger] b[k]),
        decreases n - j,
    {
        if lower_char(v[i + j]) != lower_char(p[j]) {
            assert(ascii_lower(a)[j as int] != ascii_lower(b)[j as int]);
            return false;
        }
        j += 1;
    }
    assert(ascii_lower(a) =~= ascii_lower(b));
    true
}

// ---------------------------------------------------------------------------
// Byte offsets
// ---------------------------------------------------------------------------

/// The number of characters before a byte offset of the UTF-8 form of a text;
/// none where the offset lies beyond the text or inside a character.
pub open spec fn boundary(s: Seq<char>, n: int) -> Option<int>
    decreases s.len(),
{
    if n == 0 {
        Some(0)
    } else if n < 0 || s.len() == 0 {
        None
    } else {
        match boundary(s.skip(1), n - utf8_width(s[0])) {
            Some(k) => Some(k + 1),
            None => None,
        }
    }
}

/// The text between two byte offsets, where both lie between characters.
pub open spec fn byte_slice(s: Seq<char>, from: int, to: int) -> Option<Seq<char>> {
    match (boundary(s, from), boundary(s, to)) {
        (Some(i), Some(j)) => Some(s.subrange(i, j)),
        _ => None,
    }
}

/// The number of bytes of the UTF-8 form of a text.
pub open spec fn byte_len(s: Seq<char>) -> int
    decreases s.len(),
{
    if s.len() == 0 {
        0
    } else {
        utf8_width(s[0]) + byte_len(s.skip(1))
    }
}

/// What a boundary is.
pub proof fn boundary_props(s: Seq<char>, n: int)
    ensures
        boundary(s, n) matches Some(k) ==> 0 <= k <= s.len() && k <= n,
        n > byte_len(s) ==> boundary(s, n) is None,
        byte_len(s) >= s.len(),
        boundary(s, byte_len(s)) == Some(s.len() as int),
    decreases s.len(),
{
    if s.len() > 0 {
        boundary_props(s.skip(1), n - utf8_width(s[0]));
        boundary_props(s.skip(1), byte_len(s.skip(1)));
    }
}

/// Later offsets have later boundaries.
pub proof fn boundary_order(s: Seq<char>, a: int, b: int)
    requires
        a <= b,
        boundary(s, a) is Some,
        boundary(s, b) is Some,
    ensures
        boundary(s, a)->0 <= boundary(s, b)->0,
    decreases s.len(),
{
    boundary_props(s, a);
    boundary_props(s, b);
    if s.len() > 0 && a > 0 {
        boundary_order(s.skip(1), a - utf8_width(s[0]), b - utf8_width(s[0]));
    }
}

/// The number of characters from `from` on that come before a byte offset.
fn find_boundary(v: &Vec<char>, from: usize, n: usize) -> (r: Option<usize>)
    requires
        from <= v@.len(),
    ensures
        match r {
            Some(k) => boundary(v@.skip(from as int), n as int) == Some(k as int) && from + k
                <= v.len(),
            None => boundary(v@.skip(from as int), n as int) is None,
        },
{
    let ghost s = v@.skip(from as int);
    let mut left: usize = n;
    let mut k: usize = 0;
    assert(s.skip(0) =~= s);
    while left > 0
        invariant
            from <= v@.len(),
            s == v@.skip(from as int),
            from + k <= v.len(),
            boundary(s, n as int) == (match boundary(s.skip(k as int), left as int) {
                Some(m) => Some(m + k),
                None => None,
            }),
        decreases left,
    {
        let ghost rest = s.skip(k as int);
        if k == v.len() - from {
            return None;
        }
        let w: usize = width(v[from + k]);
        assert(rest[0] == v@[from + k]);
        assert(rest.skip(1) =~= s.skip(k + 1));
        if w > left {
            proof {
                boundary_props(rest.skip(1), left - w);
                assert(boundary(rest.skip(1), left - w) is None);
            }
            return None;
        }
        left -= w;
        k += 1;
    }
    Some(k)
}

/// The text between two byte offsets of the characters from `from` on.
pub fn slice_bytes(v: &Vec<char>, from: usize, a: usize, b: usize) -> (r: Option<String>)
    requires
        from <= v@.len(),
        a <= b,
    ensures
        opt_view(r) == byte_slice(v@.skip(from as int), a as int, b as int),
{
    let ghost s = v@.skip(from as int);
    match (find_boundary(v, from, a), find_boundary(v, from, b)) {
        (Some(i), Some(j)) => {
            proof {
                boundary_order(s, a as int, b as int);
                assert(s.subrange(i as int, j as int) =~= v@.subrange(from + i, from + j));
            }
            Some(string_of(v, from + i, from + j))
        },
        _ => None,
    }
}

/// The byte offset `most`, or the length of the characters from `from` on where
/// that is less, as a number of characters.
pub open spec fn capped_boundary(s: Seq<char>, most: int) -> Option<int> {
    if byte_len(s) <= most {
        Some(s.len() as int)
    } else {
        boundary(s, most)
    }
}

/// Computes [`capped_boundary`].
pub fn cap_boundary(v: &Vec<char>, from: usize, most: usize) -> (r: Option<usize>)
    requires
        from <= v@.len(),
    ensures
        match r {
            Some(k) => capped_boundary(v@.skip(from as int), most as int) == Some(k as int) && from
                + k <= v.len(),
            None => capped_boundary(v@.skip(from as int), most as int) is None,
        },
{
    let ghost s = v@.skip(from as int);
    let mut left: usize = most;
    let mut k: usize = 0;
    assert(s.skip(0) =~= s);
    while k < v.len() - from
        invariant
            from <= v@.len(),
            s == v@.skip(from as int),
            from + k <= v.len(),
            left <= most,
            byte_len(s) == (most - left) + byte_len(s.skip(k as int)),
            boundary(s, most as int) == (match boundary(s.skip(k as int), left as int) {
                Some(m) => Some(m + k),
                None => None,
            }),
        decreases v.len() - from - k,
    {
        let ghost rest = s.skip(k as int);
        let w: usize = width(v[from + k]);
        assert(rest[0] == v@[from + k]);
        assert(rest.skip(1) =~= s.skip(k + 1));
        proof {
            boundary_props(rest, left as int);
            boundary_props(rest.skip(1), left - w);
        }
        if w > left {
            if left == 0 {
                return Some(k);
            }
            return None;
        }
        left -= w;
        k += 1;
    }
    assert(s.skip(k as int) =~= seq![]);
    Some(k)
}

/// In an ASCII text byte offsets are character positions.
pub proof fn ascii_boundary(s: Seq<char>, n: int)
    requires
        all_ascii(s),
        0 <= n <= s.len(),
    ensures
        boundary(s, n) == Some(n),
    decreases s.len(),
{
    if n > 0 {
        let t = s.skip(1);
        assert((s[0] as u32) < 0x80);
        assert forall|i: int| 0 <= i < t.len() implies (#[trigger] t[i] as u32) < 0x80 by {
            assert(t[i] == s[i + 1]);
        }
        ascii_boundary(t, n - 1);
    }
}

/// The UTF-8 form of a character has the width of the character.
proof fn width_is_encoded(c: char)
    ensures
        utf8_width(c) == vstd::utf8::encode_scalar(c as u32).len(),
{
}

/// The byte length of a text is that of its UTF-8 form.
proof fn byte_len_is_encoded(s: Seq<char>)
    ensures
        byte_len(s) == vstd::utf8::encode_utf8(s).len(),
    decreases s.len(),
{
    if s.len() > 0 {
        assert(s.drop_first() =~= s.skip(1));
        width_is_encoded(s[0]);
        byte_len_is_encoded(s.skip(1));
    }
}

/// The number of bytes of the UTF-8 form of a text.
pub fn byte_count(s: &str) -> (r: usize)
    ensures
        r == byte_len(s@),
{
    proof {
        byte_len_is_encoded(s@);
    }
    s.as_bytes().len()
}

/// The last position of a character, or -1 where it does not occur.
pub open spec fn last_at(s: Seq<char>, c: char) -> int
    decreases s.len(),
{
    if s.len() == 0 {
        -1
    } else if s.last() == c {
        s.len() - 1
    } else {
        last_at(s.drop_last(), c)
    }
}

/// What [`last_at`] finds.
pub proof fn last_at_props(s: Seq<char>, c: char)
    ensures
        -1 <= last_at(s, c) < s.len(),
        last_at(s, c) >= 0 ==> s[last_at(s, c)] == c,
        forall|k: int| last_at(s, c) < k < s.len() ==> s[k] != c,
    decreases s.len(),
{
    if s.len() > 0 && s.last() != c {
        let d = s.drop_last();
        last_at_props(d, c);
        assert forall|k: int| last_at(s, c) < k < s.len() implies s[k] != c by {
            if k < d.len() {
                assert(d[k] == s[k]);
            }
        }
    }
}

/// The last position of a character.
pub fn rfind_char(v: &Vec<char>, c: char) -> (r: Option<usize>)
    ensures
        match r {
            Some(i) => last_at(v@, c) == i && i < v.len(),
            None => last_at(v@, c) == -1,
        },
{
    let mut i: usize = v.len();
    assert(v@.take(i as int) =~= v@);
    while i > 0
        invariant
            i <= v@.len(),
            last_at(v@, c) == last_at(v@.take(i as int), c),
        decreases i,
    {
        assert(v@.take(i as int).last() == v@[i - 1]);
        assert(v@.take(i as int).drop_last() =~= v@.take(i - 1));
        if v[i - 1] == c {
            return Some(i - 1);
        }
        i -= 1;
    }
    None
}

/// Whether a text ends with another.
pub open spec fn ends(s: Seq<char>, tail: Seq<char>) -> bool {
    tail.len() <= s.len() && s.skip(s.len() - tail.len()) == tail
}

/// Whether a text ends with another.
pub fn ends_with(s: &str, tail: &str) -> (r: bool)
    ensures
        r == ends(s@, tail@),
{
    let v = chars_of(s);
    let t = chars_of(tail);
    if t.len() > v.len() {
        return false;
    }
    let from: usize = v.len() - t.len();
    let rest = string_of(&v, from, v.len());
    assert(rest@ =~= s@.skip(s@.len() - tail@.len()));
    same(rest.as_str(), tail)
}

// ---------------------------------------------------------------------------
// Order
// ---------------------------------------------------------------------------

/// Whether a text comes before another in the order of code points, or is the
/// same.
pub open spec fn text_le(a: Seq<char>, b: Seq<char>) -> bool
    decreases a.len(),
{
    if a.len() == 0 {
        true
    } else if b.len() == 0 {
        false
    } else if a[0] != b[0] {
        a[0] < b[0]
    } else {
        text_le(a.skip(1), b.skip(1))
    }
}

/// A text comes before itself.
proof fn text_le_itself(a: Seq<char>)
    ensures
        text_le(a, a),
    decreases a.len(),
{
    if a.len() > 0 {
        text_le_itself(a.skip(1));
    }
}

/// The order of texts is total, and only equal texts come before each other.
pub proof fn text_le_total(a: Seq<char>, b: Seq<char>)
    ensures
        text_le(a, b) || text_le(b, a),
        text_le(a, b) && text_le(b, a) ==> a == b,
        text_le(a, a),
    decreases a.len() + b.len(),
{
    if a.len() > 0 && b.len() > 0 && a[0] == b[0] {
        text_le_total(a.skip(1), b.skip(1));
        if text_le(a, b) && text_le(b, a) {
            assert(a =~= seq![a[0]] + a.skip(1));
            assert(b =~= seq![b[0]] + b.skip(1));
        }
    } else if a.len() == 0 && b.len() == 0 {
        assert(a =~= b);
    }
    text_le_itself(a);
}

/// The order of texts is transitive.
pub proof fn text_le_trans(a: Seq<char>, b: Seq<char>, c: Seq<char>)
    requires
        text_le(a, b),
        text_le(b, c),
    ensures
        text_le(a, c),
    decreases a.len(),
{
    if a.len() > 0 && b.len() > 0 && c.len() > 0 && a[0] == b[0] && b[0] == c[0] {
        text_le_trans(a.skip(1), b.skip(1), c.skip(1));
    }
}

/// Whether a text comes before another, or is the same.
pub fn at_most(a: &str, b: &str) -> (r: bool)
    ensures
        r == text_le(a@, b@),
{
    let x = chars_of(a);
    let y = chars_of(b);
    let mut i: usize = 0;
    assert(x@.skip(0) =~= x@);
    assert(y@.skip(0) =~= y@);
    while i < x.len() && i < y.len()
        invariant
            i <= x@.len(),
            i <= y@.len(),
            x@ == a@,
            y@ == b@,
            text_le(a@, b@) == text_le(x@.skip(i as int), y@.skip(i as int)),
        decreases x@.len() - i,
    {
        let ghost p = x@.skip(i as int);
        let ghost q = y@.skip(i as int);
        assert(p[0] == x@[i as int] && q[0] == y@[i as int]);
        assert(p.skip(1) =~= x@.skip(i + 1));
        assert(q.skip(1) =~= y@.skip(i + 1));
        if x[i] != y[i] {
            return x[i] < y[i];
        }
        i += 1;
    }
    i == x.len()
}

/// A text without the repetitions of another at its start.
pub open spec fn strip_all(s: Seq<char>, head: Seq<char>) -> Seq<char>
    decreases s.len(),
{
    if head.len() > 0 && begins(s, head) {
        strip_all(s.skip(head.len() as int), head)
    } else {
        s
    }
}

/// Removes the repetitions of a text from the start of another.
pub fn strip_repeated(s: &str, head: &str) -> (r: String)
    ensures
        r@ == strip_all(s@, head@),
{
    let v = chars_of(s);
    let h = chars_of(head);
    let w: usize = h.len();
    if w == 0 {
        return s.to_owned();
    }
    let mut i: usize = 0;
    assert(v@.skip(0) =~= v@);
    while at(&v, i, head)
        invariant
            i <= v.len(),
            w == head@.len(),
            w > 0,
            v@ == s@,
            strip_all(s@, head@) == strip_all(v@.skip(i as int), head@),
        decreases v@.len() - i,
    {
        assert(v@.skip(i as int).skip(w as int) =~= v@.skip(i + w));
        i += w;
    }
    let r = string_of(&v, i, v.len());
    assert(r@ =~= v@.skip(i as int));
    r
}

// ---------------------------------------------------------------------------
// Order
// ---------------------------------------------------------------------------

/// Whether a text comes before another in the order of their characters, which
/// is also that of their bytes in UTF-8.
pub open spec fn precedes(a: Seq<char>, b: Seq<char>) -> bool
    decreases a.len(),
{
    if b.len() == 0 {
        false
    } else if a.len() == 0 {
        true
    } else {
        a[0] < b[0] || (a[0] == b[0] && precedes(a.skip(1), b.skip(1)))
    }
}

/// Texts with heads of the same length are in the order of their heads, and
/// where these are equal, of what follows.
pub proof fn precedes_by_heads(a: Seq<char>, x: Seq<char>, b: Seq<char>, y: Seq<char>)
    requires
        a.len() == b.len(),
    ensures
        precedes(a + x, b + y) == (precedes(a, b) || (a == b && precedes(x, y))),
    decreases a.len(),
{
    if a.len() == 0 {
        assert(a + x =~= x);
        assert(b + y =~= y);
        assert(a =~= b);
    } else {
        let (c, d) = (a.skip(1), b.skip(1));
        assert((a + x).skip(1) =~= c + x);
        assert((b + y).skip(1) =~= d + y);
        precedes_by_heads(c, x, d, y);
        if a[0] == b[0] && c == d {
            assert(a =~= seq![a[0]] + c);
            assert(b =~= seq![b[0]] + d);
        }
    }
}

// ---------------------------------------------------------------------------
// Laws
// ---------------------------------------------------------------------------

/// Whether two texts are the same, the case of ASCII letters left aside.
pub open spec fn same_word(a: Seq<char>, b: Seq<char>) -> bool {
    &&& a.len() == b.len()
    &&& forall|i: int|
        0 <= i < a.len() ==> {
            ||| #[trigger] a[i] == b[i]
            ||| 'A' <= a[i] <= 'Z' && b[i] as int == a[i] as int + 32
            ||| 'A' <= b[i] <= 'Z' && a[i] as int == b[i] as int + 32
        }
}

/// [`same_letters`] tells exactly that.
pub proof fn same_word_iff(a: Seq<char>, b: Seq<char>)
    ensures
        same_letters(a, b) == same_word(a, b),
{
    let (x, y) = (ascii_lower(a), ascii_lower(b));
    if x == y {
        assert(x.len() == a.len() && y.len() == b.len());
        assert forall|i: int| 0 <= i < a.len() implies {
            ||| #[trigger] a[i] == b[i]
            ||| 'A' <= a[i] <= 'Z' && b[i] as int == a[i] as int + 32
            ||| 'A' <= b[i] <= 'Z' && a[i] as int == b[i] as int + 32
        } by {
            assert(x[i] == y[i]);
            assert(lower(a[i]) == lower(b[i]));
        }
    }
    if same_word(a, b) {
        assert forall|i: int| 0 <= i < x.len() implies x[i] == y[i] by {
            assert(a[i] == b[i] || 'A' <= a[i] <= 'Z' && b[i] as int == a[i] as int + 32 || 'A'
                <= b[i] <= 'Z' && a[i] as int == b[i] as int + 32);
        }
        assert(x =~= y);
    }
}

/// Whether a text is made of white space alone.
pub open spec fn all_white(s: Seq<char>) -> bool {
    forall|i: int| 0 <= i < s.len() ==> is_white(#[trigger] s[i])
}

/// White space in front is trimmed, up to a character that is none.
proof fn trim_start_of(a: Seq<char>, m: Seq<char>)
    requires
        all_white(a),
        m.len() == 0 || !is_white(m[0]),
    ensures
        trim_start(a + m) == m,
    decreases a.len(),
{
    let s = a + m;
    if a.len() > 0 {
        assert(is_white(a[0]));
        assert(s[0] == a[0]);
        let b = a.skip(1);
        assert(s.skip(1) =~= b + m);
        assert forall|i: int| 0 <= i < b.len() implies is_white(#[trigger] b[i]) by {
            assert(b[i] == a[i + 1]);
        }
        trim_start_of(b, m);
    } else {
        assert(s =~= m);
    }
}

/// White space behind is trimmed, back to a character that is none.
pub proof fn trim_end_of(m: Seq<char>, b: Seq<char>)
    requires
        all_white(b),
        m.len() == 0 || !is_white(m.last()),
    ensures
        trim_end(m + b) == m,
    decreases b.len(),
{
    let s = m + b;
    if b.len() > 0 {
        assert(is_white(b[b.len() - 1]));
        assert(s.last() == b.last());
        let c = b.drop_last();
        assert(s.drop_last() =~= m + c);
        assert forall|i: int| 0 <= i < c.len() implies is_white(#[trigger] c[i]) by {
            assert(c[i] == b[i]);
        }
        trim_end_of(m, c);
    } else {
        assert(s =~= m);
    }
}

/// What is left of a text that is trimmed: what stands between the white space
/// at its two ends, white space within it included.
pub proof fn trimmed_is_the_middle(a: Seq<char>, m: Seq<char>, b: Seq<char>)
    requires
        all_white(a),
        all_white(b),
        m.len() > 0 ==> !is_white(m[0]) && !is_white(m.last()),
    ensures
        trimmed(a + m + b) == m,
{
    if m.len() > 0 {
        assert(a + m + b =~= a + (m + b));
        assert((m + b)[0] == m[0]);
        trim_start_of(a, m + b);
        trim_end_of(m, b);
    } else {
        let s = a + m + b;
        assert(s =~= (a + b) + m);
        assert(all_white(a + b));
        trim_start_of(a + b, m);
        assert(trim_end(m) == m);
    }
}

/// A text is blank where it holds white space alone.
pub proof fn blank_is_white(s: Seq<char>)
    ensures
        is_blank(s) == all_white(s),
{
    let a = trim_start(s);
    trim_start_bare(s);
    trim_end_bare(a);
    if all_white(s) {
        if a.len() > 0 {
            assert(a[0] == s[s.len() - a.len()]);
        }
        assert(trim_end(a) == a);
    } else {
        let i = choose|i: int| 0 <= i < s.len() && !is_white(#[trigger] s[i]);
        let k = s.len() - a.len();
        before_trim_start(s);
        assert(i >= k);
        assert(a[i - k] == s[i]);
        after_trim_end(a);
    }
}

proof fn before_trim_start(s: Seq<char>)
    ensures
        trim_start(s).len() <= s.len(),
        forall|i: int| 0 <= i < s.len() - trim_start(s).len() ==> is_white(#[trigger] s[i]),
    decreases s.len(),
{
    if s.len() > 0 && is_white(s[0]) {
        let t = s.skip(1);
        before_trim_start(t);
        assert forall|i: int| 0 <= i < s.len() - trim_start(s).len() implies is_white(
            #[trigger] s[i],
        ) by {
            if i > 0 {
                assert(s[i] == t[i - 1]);
            }
        }
    }
}

proof fn after_trim_end(s: Seq<char>)
    ensures
        trim_end(s).len() <= s.len(),
        forall|i: int| trim_end(s).len() <= i < s.len() ==> is_white(#[trigger] s[i]),
    decreases s.len(),
{
    if s.len() > 0 && is_white(s.last()) {
        let t = s.drop_last();
        after_trim_end(t);
        assert forall|i: int| trim_end(s).len() <= i < s.len() implies is_white(
            #[trigger] s[i],
        ) by {
            if i < t.len() {
                assert(s[i] == t[i]);
            }
        }
    }
}

/// A text is split at each separator: what stands before the first is the first
/// piece, and the others are those of what follows it; without a separator the
/// text is the only piece.
pub proof fn pieces_between_separators(a: Seq<char>, sep: char, b: Seq<char>)
    requires
        !a.contains(sep),
    ensures
        split_at_char(a + seq![sep] + b, sep) == seq![a] + split_at_char(b, sep),
        split_at_char(a, sep) == seq![a],
{
    let s = a + seq![sep] + b;
    let n = a.len() as int;
    assert forall|k: int| 0 <= k < n implies s[k] != sep by {
        assert(s[k] == a[k]);
    }
    assert(s[n] == sep);
    first_at_is(s, sep, n);
    assert(s.take(n) =~= a);
    assert(s.skip(n + 1) =~= b);
    first_at_is(a, sep, n);
}

/// Texts are in the order of the first characters in which they differ, and the
/// beginning of a text comes before it.
pub proof fn first_difference_decides(
    p: Seq<char>,
    c: char,
    x: Seq<char>,
    d: char,
    y: Seq<char>,
)
    requires
        c < d,
    ensures
        text_le(p + seq![c] + x, p + seq![d] + y),
        !text_le(p + seq![d] + y, p + seq![c] + x),
        text_le(p, p + x),
        x.len() > 0 ==> !text_le(p + x, p),
    decreases p.len(),
{
    let a = p + seq![c] + x;
    let b = p + seq![d] + y;
    if p.len() > 0 {
        let q = p.skip(1);
        first_difference_decides(q, c, x, d, y);
        assert(a.skip(1) =~= q + seq![c] + x);
        assert(b.skip(1) =~= q + seq![d] + y);
        assert((p + x).skip(1) =~= q + x);
    } else {
        assert(a[0] == c && b[0] == d);
    }
}

/// What a text becomes when it is split at the last of some separators.
pub proof fn last_separator(a: Seq<char>, sep: char, w: Seq<char>)
    requires
        !w.contains(sep),
    ensures
        last_at(a + seq![sep] + w, sep) == a.len(),
        last_at(w, sep) == -1,
    decreases w.len(),
{
    let s = a + seq![sep] + w;
    if w.len() == 0 {
        assert(s.last() == sep);
    } else {
        let v = w.drop_last();
        assert(!v.contains(sep)) by {
            if v.contains(sep) {
                let k = choose|k: int| 0 <= k < v.len() && v[k] == sep;
                assert(w[k] == sep);
            }
        }
        last_separator(a, sep, v);
        assert(s.drop_last() =~= a + seq![sep] + v);
        assert(s.last() == w.last());
        assert(w[w.len() - 1] != sep);
    }
}

/// Joining the pieces of a text gives it back.
pub proof fn pieces_join_again(s: Seq<char>, sep: char)
    ensures
        joined(split_at_char(s, sep), seq![sep]) == s,
        split_at_char(s, sep).len() > 0,
    decreases s.len(),
{
    let n = first_at(s, sep);
    first_at_props(s, sep);
    if n < s.len() {
        let head = s.take(n);
        let rest = s.skip(n + 1);
        pieces_join_again(rest, sep);
        joined_front(head, split_at_char(rest, sep), seq![sep]);
        assert(!head.contains(sep)) by {
            if head.contains(sep) {
                let k = choose|k: int| 0 <= k < head.len() && head[k] == sep;
                assert(s[k] == sep);
            }
        }
        assert(head + seq![sep] + rest =~= s);
        pieces_between_separators(head, sep, rest);
    } else {
        assert(!s.contains(sep));
        pieces_between_separators(s, sep, seq![]);
        let one = seq![s];
        assert(one.last() == s);
        assert(joined(one, seq![sep]) =~= s);
    }
}

proof fn joined_front(head: Seq<char>, list: Seq<Seq<char>>, sep: Seq<char>)
    requires
        list.len() > 0,
    ensures
        joined(seq![head] + list, sep) == head + sep + joined(list, sep),
    decreases list.len(),
{
    let all = seq![head] + list;
    assert(all.last() == list.last());
    if list.len() == 1 {
        assert(all.drop_last() =~= seq![head]);
        let one = seq![head];
        assert(one.last() == head);
        assert(joined(one, sep) =~= head);
        assert(list.drop_last() =~= seq![]);
        assert(joined(list, sep) =~= list.last());
        assert(joined(all, sep) =~= head + sep + joined(list, sep));
    } else {
        let d = list.drop_last();
        joined_front(head, d, sep);
        assert(all.drop_last() =~= seq![head] + d);
        assert(joined(all, sep) =~= head + sep + joined(list, sep));
    }
}

/// The lower-case form of an ASCII text has its capital letters made small and
/// all else as it was; the case of letters does not count where they are
/// compared.
pub proof fn capitals_are_made_small(s: Seq<char>, i: int)
    requires
        0 <= i < s.len(),
    ensures
        ascii_lower(s).len() == s.len(),
        'A' <= s[i] <= 'Z' ==> ascii_lower(s)[i] as int == s[i] as int + 32,
        !('A' <= s[i] <= 'Z') ==> ascii_lower(s)[i] == s[i],
        all_ascii(s) ==> lowercase(s) == ascii_lower(s),
{
}

/// Blanks, tabs and line breaks are white space, and so is the wide blank;
/// letters, digits and signs of ASCII are not.
pub proof fn white_characters(c: char)
    ensures
        is_white(' ') && is_white('\t') && is_white('\n') && is_white('\r') && is_white('\u{3000}'),
        '!' <= c <= '~' ==> !is_white(c),
        '0' <= c <= '9' <==> is_digit(c),
        is_ascii_letter(c) <==> 'a' <= c <= 'z' || 'A' <= c <= 'Z',
{
}

/// What is replaced in a text: every occurrence of a character, or the first
/// alone.
pub proof fn characters_are_replaced(a: Seq<char>, from: char, b: Seq<char>, to: char)
    requires
        !a.contains(from),
    ensures
        replaced(a + seq![from] + b, from, to) == a + seq![to] + replaced(b, from, to),
        replaced(a, from, to) == a,
        replaced_first(a + seq![from] + b, from, to) == a + seq![to] + b,
        replaced_first(a, from, to) == a,
{
    let s = a + seq![from] + b;
    let n = a.len() as int;
    assert forall|k: int| 0 <= k < n implies a[k] != from by {
        assert(a.contains(a[k]));
    }
    assert forall|k: int| 0 <= k < n implies s[k] != from by {
        assert(s[k] == a[k]);
    }
    assert(replaced(a, from, to) =~= a);
    assert(replaced(s, from, to) =~= a + seq![to] + replaced(b, from, to));
    assert(s[n] == from);
    first_at_is(s, from, n);
    first_at_is(a, from, n);
    assert(s.update(n, to) =~= a + seq![to] + b);
}

/// A text begins, ends and goes on with what it was put together from.
pub proof fn parts_are_found(a: Seq<char>, w: Seq<char>, b: Seq<char>)
    ensures
        begins(a + w, a),
        ends(a + w, w),
        occurs(a + w + b, w),
        has_at(a + w + b, a.len() as int, w),
{
    assert((a + w).subrange(0, a.len() as int) =~= a);
    assert((a + w).skip(a.len() as int) =~= w);
    assert((a + w).len() - w.len() == a.len());
    let s = a + w + b;
    assert(s.subrange(a.len() as int, a.len() as int + w.len()) =~= w);
    assert(has_at(s, a.len() as int, w));
}

} // verus!
