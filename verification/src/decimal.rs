//! Decimal numerals.

use vstd::prelude::*;

use crate::text;

verus! {

/// The digit character of a number below ten.
pub open spec fn digit_char(d: int) -> char {
    (d + 48) as u8 as char
}

/// The number that a digit character stands for.
pub open spec fn digit_value(c: char) -> int {
    c as int - 48
}

/// The decimal numeral of a natural number, without leading zeros.
pub open spec fn decimal(n: nat) -> Seq<char>
    decreases n,
{
    if n < 10 {
        seq![digit_char(n as int)]
    } else {
        decimal(n / 10).push(digit_char((n % 10) as int))
    }
}

/// The decimal numeral of an integer, with `-` in front of a negative one.
pub open spec fn numeral(n: int) -> Seq<char> {
    if n < 0 {
        seq!['-'] + decimal((-n) as nat)
    } else {
        decimal(n as nat)
    }
}

/// A number of zeros.
pub open spec fn zeros(n: int) -> Seq<char> {
    Seq::new(
        if n > 0 {
            n as nat
        } else {
            0
        },
        |i: int| '0',
    )
}

/// The numeral of an integer, filled with zeros after the sign to a width.
pub open spec fn padded(n: int, width: int) -> Seq<char> {
    if n < 0 {
        seq!['-'] + zeros(width - 1 - decimal((-n) as nat).len()) + decimal((-n) as nat)
    } else {
        zeros(width - decimal(n as nat).len()) + decimal(n as nat)
    }
}

/// Whether a text is made of digits alone.
pub open spec fn all_digits(s: Seq<char>) -> bool {
    forall|i: int| 0 <= i < s.len() ==> text::is_digit(#[trigger] s[i])
}

/// The number that a sequence of digits spells.
pub open spec fn value(s: Seq<char>) -> int
    decreases s.len(),
{
    if s.len() == 0 {
        0
    } else {
        value(s.drop_last()) * 10 + digit_value(s.last())
    }
}

/// Reading back a numeral gives the number.
pub proof fn value_of_decimal(n: nat)
    ensures
        value(decimal(n)) == n,
        all_digits(decimal(n)),
        decimal(n).len() >= 1,
    decreases n,
{
    if n < 10 {
        assert(decimal(n).drop_last() =~= seq![]);
        assert(value(decimal(n).drop_last()) == 0);
    } else {
        value_of_decimal(n / 10);
        assert(decimal(n).drop_last() =~= decimal(n / 10));
    }
}

/// Numerals of numbers below a hundred have one or two digits.
pub proof fn decimal_len_small(n: nat)
    ensures
        n < 10 ==> decimal(n).len() == 1,
        10 <= n < 100 ==> decimal(n).len() == 2,
        100 <= n < 1000 ==> decimal(n).len() == 3,
        1000 <= n < 10000 ==> decimal(n).len() == 4,
        n >= 10000 ==> decimal(n).len() >= 5,
{
    reveal_with_fuel(decimal, 6);
    value_of_decimal(n / 10000);
    assert(n / 10 / 10 == n / 100);
    assert(n / 100 / 10 == n / 1000);
    assert(n / 1000 / 10 == n / 10000);
    assert(n >= 10000 ==> decimal(n) == decimal(n / 10).push(digit_char((n % 10) as int)));
    assert(n >= 10000 ==> decimal(n / 10) == decimal(n / 100).push(
        digit_char((n / 10 % 10) as int),
    ));
    assert(n >= 10000 ==> decimal(n / 100) == decimal(n / 1000).push(
        digit_char((n / 100 % 10) as int),
    ));
    assert(n >= 10000 ==> decimal(n / 1000) == decimal(n / 10000).push(
        digit_char((n / 1000 % 10) as int),
    ));
}

/// Leading zeros do not change the number that digits spell.
pub proof fn value_after_zeros(k: int, s: Seq<char>)
    requires
        all_digits(s),
    ensures
        value(zeros(k) + s) == value(s),
        all_digits(zeros(k) + s),
    decreases s.len(), k,
{
    let z = zeros(k);
    if s.len() > 0 {
        assert((z + s).drop_last() =~= z + s.drop_last());
        value_after_zeros(k, s.drop_last());
    } else if k > 0 {
        assert((z + s) =~= z);
        assert(z.drop_last() =~= zeros(k - 1) + s);
        value_after_zeros(k - 1, s);
    } else {
        assert(z + s =~= s);
    }
}

/// Digits of the same number are in the order of the numbers that they spell.
pub proof fn digits_in_order(a: Seq<char>, b: Seq<char>)
    requires
        all_digits(a),
        all_digits(b),
        a.len() == b.len(),
    ensures
        text::precedes(a, b) == (value(a) < value(b)),
        (a == b) == (value(a) == value(b)),
    decreases a.len(),
{
    if a.len() == 0 {
        assert(a =~= b);
    } else {
        let (c, d) = (a.drop_last(), b.drop_last());
        let (x, y) = (seq![a.last()], seq![b.last()]);
        digits_in_order(c, d);
        assert(a =~= c + x);
        assert(b =~= d + y);
        text::precedes_by_heads(c, x, d, y);
        reveal_with_fuel(text::precedes, 2);
        assert(text::precedes(x, y) == (a.last() < b.last()));
        assert(text::is_digit(a[a.len() - 1]) && text::is_digit(b[b.len() - 1]));
        if value(a) == value(b) {
            assert(value(c) == value(d) && a.last() == b.last());
        }
    }
}

/// Appends the decimal numeral of a number.
pub fn push_decimal(out: &mut String, n: u64)
    ensures
        final(out)@ == old(out)@ + decimal(n as nat),
    decreases n,
{
    if n >= 10 {
        push_decimal(out, n / 10);
    }
    let d: u8 = (n % 10) as u8;
    out.push((d + 48) as char);
    assert(out@ =~= old(out)@ + decimal(n as nat));
}

/// The magnitude of a signed number.
fn magnitude(n: i64) -> (r: u64)
    ensures
        r == if n < 0 {
            -n
        } else {
            n as int
        },
{
    if n < 0 {
        ((-(n + 1)) as u64) + 1
    } else {
        n as u64
    }
}

/// The decimal numeral of an integer.
pub fn number_text(n: i64) -> (r: String)
    ensures
        r@ == numeral(n as int),
{
    let mut out = String::new();
    if n < 0 {
        out.push('-');
    }
    push_decimal(&mut out, magnitude(n));
    assert(out@ =~= numeral(n as int));
    out
}

/// The numeral of an integer, filled with zeros to a width.
pub fn padded_text(n: i64, width: usize) -> (r: String)
    ensures
        r@ == padded(n as int, width as int),
{
    let mut digits = String::new();
    push_decimal(&mut digits, magnitude(n));
    let dv = text::chars_of(digits.as_str());
    let len: usize = dv.len();
    assert(digits@ =~= decimal(magnitude_of(n)));
    let mut out = String::new();
    let mut have: usize = len;
    if n < 0 {
        out.push('-');
        if width == 0 {
            have = 0;
        } else if len >= width {
            have = width;
        } else {
            have = len + 1;
        }
    }
    let ghost head = out@;
    let ghost want = zeros(
        if n < 0 {
            width - 1 - len
        } else {
            width - len
        },
    );
    let mut k: usize = have;
    assert(head + zeros(0) =~= head);
    while k < width
        invariant
            have <= k,
            k <= width || k == have,
            out@ == head + zeros(k - have),
        decreases width - k,
    {
        out.push('0');
        k += 1;
        assert(out@ =~= head + zeros(k - have));
    }
    assert(zeros(k - have) =~= want);
    out.push_str(digits.as_str());
    assert(out@ =~= padded(n as int, width as int));
    out
}

/// The magnitude of an integer, as a natural number.
pub open spec fn magnitude_of(n: i64) -> nat {
    if n < 0 {
        (-n) as nat
    } else {
        n as nat
    }
}

/// The integer that a text spells: digits, with a sign in front or without
/// one, in the range of 64 bits.
pub open spec fn int_of(s: Seq<char>) -> Option<int> {
    let signed = s.len() > 0 && (s[0] == '-' || s[0] == '+');
    let digits = if signed {
        s.skip(1)
    } else {
        s
    };
    let n = if signed && s[0] == '-' {
        -value(digits)
    } else {
        value(digits)
    };
    if digits.len() > 0 && all_digits(digits) && i64::MIN <= n <= i64::MAX {
        Some(n)
    } else {
        None
    }
}

/// More digits spell no smaller number.
proof fn value_grows(s: Seq<char>, n: int)
    requires
        all_digits(s),
        0 <= n <= s.len(),
    ensures
        0 <= value(s.take(n)) <= value(s),
    decreases s.len(),
{
    if n == s.len() {
        assert(s.take(n) =~= s);
        if n > 0 {
            assert(text::is_digit(s[n - 1]));
            value_grows(s.drop_last(), n - 1);
        }
    } else {
        assert(text::is_digit(s[s.len() - 1]));
        value_grows(s.drop_last(), n);
        assert(s.drop_last().take(n) =~= s.take(n));
    }
}

/// Reads an integer.
pub fn parse_int(s: &str) -> (r: Option<i64>)
    ensures
        match r {
            Some(n) => int_of(s@) == Some(n as int),
            None => int_of(s@) is None,
        },
{
    let v = text::chars_of(s);
    let signed: bool = v.len() > 0 && (v[0] == '-' || v[0] == '+');
    let negative: bool = v.len() > 0 && v[0] == '-';
    let from: usize = if signed {
        1
    } else {
        0
    };
    let ghost digits = v@.skip(from as int);
    assert(v@.skip(0) =~= v@);
    if from == v.len() {
        return None;
    }
    let mut i: usize = from;
    let mut n: u128 = 0;
    assert(digits.take(0) =~= seq![]);
    while i < v.len()
        invariant
            from <= i <= v@.len(),
            digits == v@.skip(from as int),
            digits == (if signed {
                s@.skip(1)
            } else {
                s@
            }),
            v@ == s@,
            signed == (s@.len() > 0 && (s@[0] == '-' || s@[0] == '+')),
            n == value(digits.take(i - from)),
            n <= 0xffff_ffff_ffff_ffff,
            all_digits(digits.take(i - from)),
        decreases v@.len() - i,
    {
        let c: char = v[i];
        let ghost k = i - from;
        assert(digits[k] == c);
        if !('0' <= c && c <= '9') {
            assert(!text::is_digit(digits[k]));
            return None;
        }
        n = n * 10 + ((c as u32) - 48) as u128;
        proof {
            assert(digits.take(k + 1).drop_last() =~= digits.take(k));
            assert(digits.take(k + 1) =~= digits.take(k).push(c));
        }
        if n > 0xffff_ffff_ffff_ffff {
            proof {
                if all_digits(digits) {
                    value_grows(digits, k + 1);
                }
            }
            return None;
        }
        i += 1;
    }
    assert(digits.take(i - from) =~= digits);
    if negative {
        if n <= 0x8000_0000_0000_0000 {
            if n == 0x8000_0000_0000_0000 {
                Some(i64::MIN)
            } else {
                Some(-(n as i64))
            }
        } else {
            None
        }
    } else if n <= 0x7fff_ffff_ffff_ffff {
        Some(n as i64)
    } else {
        None
    }
}

/// Reading the numeral of an integer gives the integer.
pub proof fn numeral_reads_back(n: int)
    requires
        i64::MIN <= n <= i64::MAX,
    ensures
        int_of(numeral(n)) == Some(n),
{
    let m: nat = if n < 0 {
        (-n) as nat
    } else {
        n as nat
    };
    value_of_decimal(m);
    let d = decimal(m);
    assert(text::is_digit(d[0]));
    if n < 0 {
        assert(numeral(n).skip(1) =~= d);
    }
}

/// Numerals are positional: a digit behind one makes ten times it and the digit.
/// A negative one has a minus sign in front, and a padded one zeros.
pub proof fn numerals_are_positional(n: nat, d: nat, s: Seq<char>, c: char)
    requires
        d < 10,
        c as int == '0' as int + d,
    ensures
        n > 0 ==> numeral((10 * n + d) as int) == numeral(n as int).push(c),
        numeral(d as int) == seq![c],
        n > 0 ==> numeral(-(n as int)) == seq!['-'] + numeral(n as int),
        value(s.push(c)) == 10 * value(s) + d,
        value(seq![c]) == d,
{
    assert(digit_char(d as int) == c);
    assert(s.push(c).drop_last() =~= s);
    assert(s.push(c).last() == c);
    let one = seq![c];
    assert(one.drop_last() =~= seq![]);
    assert(one.last() == c);
    assert(value(one.drop_last()) == 0);
    if n > 0 {
        assert((10 * n + d) / 10 == n);
        assert((10 * n + d) % 10 == d);
    }
}

} // verus!
