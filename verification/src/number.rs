//! Numbers of JSON values and their order.
//!
//! A number is a non-negative or a negative integer, or a double. A double is
//! held by the 64 bits of its IEEE 754 form and by its shortest text. Numbers
//! are compared as doubles, an integer by the double nearest to it; the order
//! of doubles is that of an integer key made from the bits.

use vstd::prelude::*;
use vstd::arithmetic::power2::pow2;

use crate::decimal;

verus! {

/// A number of a JSON value.
#[derive(Debug, PartialEq)]
pub enum Number {
    PosInt(u64),
    NegInt(i64),
    /// The bits of a finite double and its shortest decimal text.
    Float(u64, String),
}

/// The content of a number.
#[verifier::ext_equal]
pub enum NumV {
    PosInt(u64),
    NegInt(i64),
    Float(u64, Seq<char>),
}

/// The number of halvings that bring a positive number to one.
pub open spec fn top_bit(n: nat) -> nat
    decreases n,
{
    if n < 2 {
        0
    } else {
        1 + top_bit(n / 2)
    }
}

/// The quotient of two numbers, rounded to the nearest, ties to the even one.
pub open spec fn nearest(x: int, p: int) -> int {
    if 2 * (x % p) > p || (2 * (x % p) == p && (x / p) % 2 == 1) {
        x / p + 1
    } else {
        x / p
    }
}

/// The bits of the double nearest to a natural number: 52 bits of fraction
/// below the biased exponent.
pub open spec fn nearest_bits(n: nat) -> int {
    if n == 0 {
        0
    } else {
        (top_bit(n) + 1022) * 0x10_0000_0000_0000 + nearest(
            n as int * 0x10_0000_0000_0000,
            pow2(top_bit(n)) as int,
        )
    }
}

/// The key by which an integer is ordered among doubles.
pub open spec fn int_key(n: int) -> int {
    if n < 0 {
        -nearest_bits((-n) as nat)
    } else {
        nearest_bits(n as nat)
    }
}

/// The key by which a double is ordered: its bits where it is positive, the
/// negated bits of its magnitude where it is negative.
pub open spec fn float_key(bits: u64) -> int {
    if bits < 0x8000_0000_0000_0000 {
        bits as int
    } else {
        0x8000_0000_0000_0000 - bits
    }
}

impl NumV {
    /// The key by which a number is ordered.
    pub open spec fn key(self) -> int {
        match self {
            NumV::PosInt(n) => int_key(n as int),
            NumV::NegInt(n) => int_key(n as int),
            NumV::Float(bits, _) => float_key(bits),
        }
    }

    /// The text of a number.
    pub open spec fn text(self) -> Seq<char> {
        match self {
            NumV::PosInt(n) => decimal::numeral(n as int),
            NumV::NegInt(n) => decimal::numeral(n as int),
            NumV::Float(_, t) => t,
        }
    }

    /// Whether two numbers are the same value of the same kind; the two zeros
    /// of doubles are the same.
    pub open spec fn same(self, other: NumV) -> bool {
        match (self, other) {
            (NumV::PosInt(a), NumV::PosInt(b)) => a == b,
            (NumV::NegInt(a), NumV::NegInt(b)) => a == b,
            (NumV::Float(a, _), NumV::Float(b, _)) => float_key(a) == float_key(b),
            _ => false,
        }
    }
}

/// The powers of two on either side of a number.
pub proof fn top_bit_bounds(n: nat)
    requires
        n > 0,
    ensures
        pow2(top_bit(n)) <= n < 2 * pow2(top_bit(n)),
    decreases n,
{
    vstd::arithmetic::power2::lemma2_to64();
    if n >= 2 {
        top_bit_bounds(n / 2);
        vstd::arithmetic::power2::lemma_pow2_unfold(top_bit(n));
    }
}

/// The power of two that a number lies above is unique.
pub proof fn top_bit_is(n: nat, e: nat)
    requires
        pow2(e) <= n < 2 * pow2(e),
    ensures
        top_bit(n) == e,
    decreases e,
{
    vstd::arithmetic::power2::lemma_pow2_pos(e);
    vstd::arithmetic::power2::lemma2_to64();
    if e > 0 {
        vstd::arithmetic::power2::lemma_pow2_unfold(e);
        top_bit_is(n / 2, (e - 1) as nat);
    }
}

/// The rounded quotient lies between the scaled bounds of a number.
proof fn nearest_bounds(n: nat, p: int)
    requires
        p > 0,
        p <= n < 2 * p,
    ensures
        0x10_0000_0000_0000 <= nearest(n as int * 0x10_0000_0000_0000, p) <= 0x20_0000_0000_0000,
{
    let x = n as int * 0x10_0000_0000_0000;
    let q = x / p;
    let r = x % p;
    vstd::arithmetic::div_mod::lemma_fundamental_div_mod(x, p);
    assert(0x10_0000_0000_0000 <= q) by (nonlinear_arith)
        requires
            x == p * q + r,
            r < p,
            p > 0,
            x == n * 0x10_0000_0000_0000,
            p <= n,
    ;
    assert(q < 0x20_0000_0000_0000) by (nonlinear_arith)
        requires
            x == p * q + r,
            0 <= r,
            p > 0,
            x == n * 0x10_0000_0000_0000,
            n < 2 * p,
    ;
}

/// Rounding keeps the order.
proof fn nearest_monotone(x: int, y: int, p: int)
    requires
        p > 0,
        0 <= x <= y,
    ensures
        nearest(x, p) <= nearest(y, p),
{
    let (qx, rx) = (x / p, x % p);
    let (qy, ry) = (y / p, y % p);
    vstd::arithmetic::div_mod::lemma_fundamental_div_mod(x, p);
    vstd::arithmetic::div_mod::lemma_fundamental_div_mod(y, p);
    assert(qx <= qy) by (nonlinear_arith)
        requires
            x == p * qx + rx,
            y == p * qy + ry,
            0 <= rx < p,
            0 <= ry < p,
            x <= y,
            p > 0,
    ;
    assert(qx == qy ==> rx <= ry) by (nonlinear_arith)
        requires
            x == p * qx + rx,
            y == p * qy + ry,
            x <= y,
    ;
}

/// Powers of two grow.
proof fn pow2_grows(a: nat, b: nat)
    requires
        a < b,
    ensures
        2 * pow2(a) <= pow2(b),
    decreases b,
{
    vstd::arithmetic::power2::lemma_pow2_unfold(b);
    if a + 1 < b {
        pow2_grows(a, (b - 1) as nat);
    }
    vstd::arithmetic::power2::lemma_pow2_pos(b);
}

/// The bits of rounded natural numbers grow with the numbers.
proof fn bits_monotone(a: nat, b: nat)
    requires
        a <= b,
    ensures
        0 <= nearest_bits(a) <= nearest_bits(b),
{
    if a > 0 {
        let ea = top_bit(a);
        let eb = top_bit(b);
        let pa = pow2(ea) as int;
        let pb = pow2(eb) as int;
        top_bit_bounds(a);
        top_bit_bounds(b);
        nearest_bounds(a, pa);
        nearest_bounds(b, pb);
        if ea > eb {
            pow2_grows(eb, ea);
        }
        if ea == eb {
            nearest_monotone(
                a as int * 0x10_0000_0000_0000,
                b as int * 0x10_0000_0000_0000,
                pa,
            );
        }
    } else if b > 0 {
        top_bit_bounds(b);
        nearest_bounds(b, pow2(top_bit(b)) as int);
    }
}

/// Integers are ordered among doubles as they are among themselves; only
/// integers too large for 53 bits may fall together.
pub proof fn int_order(a: int, b: int)
    requires
        a <= b,
    ensures
        int_key(a) <= int_key(b),
{
    if b < 0 {
        bits_monotone((-b) as nat, (-a) as nat);
    } else if a < 0 {
        bits_monotone(0, (-a) as nat);
        bits_monotone(0, b as nat);
    } else {
        bits_monotone(a as nat, b as nat);
    }
}

/// The bits of the double nearest to a natural number.
fn bits_of(n: u64) -> (r: u64)
    ensures
        r == nearest_bits(n as nat),
        r < 0x8000_0000_0000_0000,
{
    if n == 0 {
        return 0;
    }
    let wide: u128 = n as u128;
    let mut e: u64 = 0;
    let mut p: u128 = 1;
    proof {
        vstd::arithmetic::power2::lemma2_to64();
    }
    while p * 2 <= wide
        invariant
            wide == n,
            1 <= p <= wide,
            p == pow2(e as nat),
            e < 64,
        decreases wide - p,
    {
        proof {
            vstd::arithmetic::power2::lemma_pow2_unfold((e + 1) as nat);
            if e >= 63 {
                vstd::arithmetic::power2::lemma2_to64();
                vstd::arithmetic::power2::lemma2_to64_rest();
            }
        }
        p = p * 2;
        e = e + 1;
    }
    proof {
        top_bit_is(n as nat, e as nat);
        nearest_bounds(n as nat, p as int);
    }
    let x: u128 = wide * 0x10_0000_0000_0000;
    let q: u128 = x / p;
    let rest: u128 = x % p;
    assert(q <= nearest(n as int * 0x10_0000_0000_0000, p as int));
    let m: u128 = if 2 * rest > p || (2 * rest == p && q % 2 == 1) {
        q + 1
    } else {
        q
    };
    (e + 1022) * 0x10_0000_0000_0000 + m as u64
}

impl Number {
    /// The content of a number.
    pub open spec fn view(&self) -> NumV {
        match self {
            Number::PosInt(n) => NumV::PosInt(*n),
            Number::NegInt(n) => NumV::NegInt(*n),
            Number::Float(bits, t) => NumV::Float(*bits, t@),
        }
    }

    /// The key by which a number is ordered among doubles.
    pub fn key(&self) -> (r: i64)
        ensures
            r == self@.key(),
    {
        match self {
            Number::PosInt(n) => bits_of(*n) as i64,
            Number::NegInt(n) => if *n < 0 {
                let m: u64 = ((-(*n + 1)) as u64) + 1;
                -(bits_of(m) as i64)
            } else {
                bits_of(*n as u64) as i64
            },
            Number::Float(bits, _) => if *bits < 0x8000_0000_0000_0000 {
                *bits as i64
            } else {
                -((*bits - 0x8000_0000_0000_0000) as i64)
            },
        }
    }

    /// The text of a number.
    pub fn text(&self) -> (r: String)
        ensures
            r@ == self@.text(),
    {
        match self {
            Number::PosInt(n) => {
                let mut out = String::new();
                decimal::push_decimal(&mut out, *n);
                assert(out@ =~= decimal::numeral(*n as int));
                out
            },
            Number::NegInt(n) => decimal::number_text(*n),
            Number::Float(_, t) => t.clone(),
        }
    }

    /// Whether two numbers are the same value of the same kind.
    pub fn same(&self, other: &Number) -> (r: bool)
        ensures
            r == self@.same(other@),
    {
        match (self, other) {
            (Number::PosInt(a), Number::PosInt(b)) => *a == *b,
            (Number::NegInt(a), Number::NegInt(b)) => *a == *b,
            (Number::Float(_, _), Number::Float(_, _)) => self.key() == other.key(),
            _ => false,
        }
    }

    /// A copy of a number.
    pub fn copy(&self) -> (r: Number)
        ensures
            r@ == self@,
    {
        match self {
            Number::PosInt(n) => Number::PosInt(*n),
            Number::NegInt(n) => Number::NegInt(*n),
            Number::Float(bits, t) => Number::Float(*bits, t.clone()),
        }
    }
}

/// The number of an integer.
pub open spec fn int_number(n: i64) -> NumV {
    if n < 0 {
        NumV::NegInt(n)
    } else {
        NumV::PosInt(n as u64)
    }
}

/// The number of an integer.
pub fn number_of(n: i64) -> (r: Number)
    ensures
        r@ == int_number(n),
{
    if n < 0 {
        Number::NegInt(n)
    } else {
        Number::PosInt(n as u64)
    }
}

/// The value of the double nearest to a natural number.
pub open spec fn double_value(n: nat) -> int {
    if n < 0x20_0000_0000_0000 {
        n as int
    } else {
        let unit = pow2((top_bit(n) - 52) as nat) as int;
        nearest(n as int, unit) * unit
    }
}

/// A quotient rounded to the nearest integer, ties to the even one.
pub fn divide_nearest(x: u128, p: u128) -> (r: u128)
    requires
        0 < p < 0x8000_0000_0000_0000_0000_0000_0000_0000,
        x < 0x8000_0000_0000_0000_0000_0000_0000_0000,
    ensures
        r == nearest(x as int, p as int),
        r <= x + 1,
{
    let q: u128 = x / p;
    let rest: u128 = x % p;
    assert(q <= x) by (nonlinear_arith)
        requires
            p > 0,
            q == x as int / p as int,
    ;
    if rest > p - rest || (rest == p - rest && q % 2 == 1) {
        q + 1
    } else {
        q
    }
}

/// Computes [`double_value`].
pub fn round_to_double(n: u64) -> (r: u128)
    ensures
        r == double_value(n as nat),
        r <= 0x2_0000_0000_0000_0000,
{
    if n < 0x20_0000_0000_0000 {
        return n as u128;
    }
    let wide: u128 = n as u128;
    let mut e: u64 = 53;
    let mut p: u128 = 0x20_0000_0000_0000;
    let mut unit: u128 = 2;
    proof {
        vstd::arithmetic::power2::lemma2_to64();
        vstd::arithmetic::power2::lemma2_to64_rest();
    }
    while p * 2 <= wide
        invariant
            wide == n,
            1 <= p <= wide,
            53 <= e < 64,
            p == pow2(e as nat),
            unit == pow2((e - 52) as nat),
            p == unit * 0x10_0000_0000_0000,
            unit >= 2,
        decreases wide - p,
    {
        proof {
            vstd::arithmetic::power2::lemma_pow2_unfold((e + 1) as nat);
            vstd::arithmetic::power2::lemma_pow2_unfold((e - 51) as nat);
            if e >= 63 {
                vstd::arithmetic::power2::lemma2_to64();
                vstd::arithmetic::power2::lemma2_to64_rest();
            }
        }
        p = p * 2;
        unit = unit * 2;
        e = e + 1;
    }
    proof {
        top_bit_is(n as nat, e as nat);
    }
    let q: u128 = divide_nearest(wide, unit);
    proof {
        let d = wide as int / unit as int;
        vstd::arithmetic::div_mod::lemma_fundamental_div_mod(wide as int, unit as int);
        assert(d * unit <= wide) by (nonlinear_arith)
            requires
                wide == unit * d + wide as int % unit as int,
                0 <= wide as int % unit as int,
        ;
        assert(q * unit <= (d + 1) * unit) by (nonlinear_arith)
            requires
                q <= d + 1,
                unit > 0,
        ;
        assert((d + 1) * unit == d * unit + unit) by (nonlinear_arith);
    }
    q * unit
}

// ---------------------------------------------------------------------------
// Whole numbers
// ---------------------------------------------------------------------------

/// Below this, doubles hold every integer, and whole numbers are shown without
/// a fraction.
pub const WHOLE_LIMIT: u64 = 9_000_000_000_000_000;

/// The integer that a double is, where it is one below the limit.
pub open spec fn whole_double(bits: u64) -> Option<int> {
    let m = bits as int % 0x8000_0000_0000_0000;
    let e = m / 0x10_0000_0000_0000;
    let s = 0x10_0000_0000_0000 + m % 0x10_0000_0000_0000;
    if m == 0 {
        Some(0)
    } else if e < 1023 || e > 1075 {
        None
    } else {
        let p = pow2((1075 - e) as nat) as int;
        if s % p == 0 && s / p < WHOLE_LIMIT {
            Some(
                if bits < 0x8000_0000_0000_0000 {
                    s / p
                } else {
                    -(s / p)
                },
            )
        } else {
            None
        }
    }
}

/// The integer that a number is, where it is one below the limit.
pub open spec fn whole_value(n: NumV) -> Option<int> {
    match n {
        NumV::PosInt(u) => if u < WHOLE_LIMIT {
            Some(u as int)
        } else {
            None
        },
        NumV::NegInt(i) => if -WHOLE_LIMIT < i < WHOLE_LIMIT {
            Some(i as int)
        } else {
            None
        },
        NumV::Float(bits, _) => whole_double(bits),
    }
}

/// The integer that a double is.
fn whole_of_bits(bits: u64) -> (r: Option<i64>)
    ensures
        match r {
            Some(n) => whole_double(bits) == Some(n as int),
            None => whole_double(bits) is None,
        },
{
    let m: u64 = bits % 0x8000_0000_0000_0000;
    if m == 0 {
        return Some(0);
    }
    let e: u64 = m / 0x10_0000_0000_0000;
    if e < 1023 || e > 1075 {
        return None;
    }
    let s: u64 = 0x10_0000_0000_0000 + m % 0x10_0000_0000_0000;
    let steps: u64 = 1075 - e;
    let mut p: u64 = 1;
    let mut i: u64 = 0;
    proof {
        vstd::arithmetic::power2::lemma2_to64();
    }
    while i < steps
        invariant
            i <= steps <= 52,
            p == pow2(i as nat),
            0 < p <= 0x10_0000_0000_0000,
        decreases steps - i,
    {
        proof {
            vstd::arithmetic::power2::lemma_pow2_unfold((i + 1) as nat);
            vstd::arithmetic::power2::lemma2_to64();
            vstd::arithmetic::power2::lemma2_to64_rest();
            if i + 1 < 52 {
                vstd::arithmetic::power2::lemma_pow2_strictly_increases((i + 1) as nat, 52);
            }
        }
        p = p * 2;
        i = i + 1;
    }
    let q: u64 = s / p;
    if s % p == 0 && q < WHOLE_LIMIT {
        if bits < 0x8000_0000_0000_0000 {
            Some(q as i64)
        } else {
            Some(-(q as i64))
        }
    } else {
        None
    }
}

impl Number {
    /// The integer that a number is, where it is one below the limit.
    pub fn whole(&self) -> (r: Option<i64>)
        ensures
            match r {
                Some(n) => whole_value(self@) == Some(n as int),
                None => whole_value(self@) is None,
            },
    {
        match self {
            Number::PosInt(u) => if *u < WHOLE_LIMIT {
                Some(*u as i64)
            } else {
                None
            },
            Number::NegInt(i) => if -(WHOLE_LIMIT as i64) < *i && *i < WHOLE_LIMIT as i64 {
                Some(*i)
            } else {
                None
            },
            Number::Float(bits, _) => whole_of_bits(*bits),
        }
    }
}

// ---------------------------------------------------------------------------
// Laws
// ---------------------------------------------------------------------------

/// Whether the bits of a double are those of a positive integer of at most 53
/// bits: its leading bit is the exponent, the rest the fraction.
pub open spec fn double_holds(bits: int, n: int) -> bool {
    exists|e: nat|
        e <= 52 && #[trigger] pow2(e) <= n < 2 * pow2(e) && bits == (e + 1023)
            * 0x10_0000_0000_0000 + (n * pow2((52 - e) as nat) - 0x10_0000_0000_0000)
}

/// Whether a number is an integer, whichever of the three kinds it is of.
pub open spec fn is_whole(x: NumV, n: int) -> bool {
    match x {
        NumV::PosInt(u) => u == n,
        NumV::NegInt(i) => i == n,
        NumV::Float(bits, _) => {
            ||| n == 0 && (bits == 0 || bits == 0x8000_0000_0000_0000)
            ||| n > 0 && double_holds(bits as int, n)
            ||| n < 0 && double_holds(bits - 0x8000_0000_0000_0000, -n)
        },
    }
}

/// An integer of at most 53 bits is a double without rounding.
proof fn exact_bits(n: nat, e: nat)
    requires
        e <= 52,
        pow2(e) <= n < 2 * pow2(e),
    ensures
        nearest_bits(n) == (e + 1022) * 0x10_0000_0000_0000 + n * pow2((52 - e) as nat),
        0x10_0000_0000_0000 <= n * pow2((52 - e) as nat) < 0x20_0000_0000_0000,
{
    top_bit_is(n, e);
    let p = pow2(e) as int;
    let r = pow2((52 - e) as nat) as int;
    vstd::arithmetic::power2::lemma_pow2_pos(e);
    vstd::arithmetic::power2::lemma_pow2_pos((52 - e) as nat);
    vstd::arithmetic::power2::lemma_pow2_adds(e, (52 - e) as nat);
    vstd::arithmetic::power2::lemma2_to64_rest();
    assert(p * r == 0x10_0000_0000_0000);
    let x = n as int * 0x10_0000_0000_0000;
    assert(x == (n * r) * p) by (nonlinear_arith)
        requires
            x == n * 0x10_0000_0000_0000,
            p * r == 0x10_0000_0000_0000,
    ;
    vstd::arithmetic::div_mod::lemma_div_multiples_vanish(n * r, p);
    vstd::arithmetic::div_mod::lemma_mod_multiples_basic(n * r, p);
    assert((n * r) * p == p * (n * r)) by (nonlinear_arith);
    assert(nearest(x, p) == n * r);
    assert(0x10_0000_0000_0000 <= n * r < 0x20_0000_0000_0000) by (nonlinear_arith)
        requires
            p * r == 0x10_0000_0000_0000,
            p <= n < 2 * p,
            r > 0,
    ;
}

/// The leading bit of an integer of at most 53 bits.
proof fn small_top(n: nat)
    requires
        0 < n < 0x20_0000_0000_0000,
    ensures
        top_bit(n) <= 52,
        pow2(top_bit(n)) <= n < 2 * pow2(top_bit(n)),
{
    top_bit_bounds(n);
    vstd::arithmetic::power2::lemma2_to64_rest();
    if top_bit(n) >= 53 {
        if top_bit(n) > 53 {
            pow2_grows(53, top_bit(n));
        }
    }
}

/// Different integers of at most 53 bits have different keys, in their order.
proof fn small_bits_order(a: nat, b: nat)
    requires
        a < b < 0x20_0000_0000_0000,
    ensures
        0 <= nearest_bits(a) < nearest_bits(b),
{
    small_top(b);
    let eb = top_bit(b);
    exact_bits(b, eb);
    if a > 0 {
        small_top(a);
        let ea = top_bit(a);
        exact_bits(a, ea);
        if ea > eb {
            pow2_grows(eb, ea);
        } else if ea == eb {
            let r = pow2((52 - ea) as nat) as int;
            vstd::arithmetic::power2::lemma_pow2_pos((52 - ea) as nat);
            assert(a * r < b * r) by (nonlinear_arith)
                requires
                    a < b,
                    r > 0,
            ;
        }
    }
}

/// Keys of integers of at most 53 bits are in the order of the integers.
pub proof fn small_int_order(a: int, b: int)
    requires
        -0x20_0000_0000_0000 < a < 0x20_0000_0000_0000,
        -0x20_0000_0000_0000 < b < 0x20_0000_0000_0000,
    ensures
        (int_key(a) < int_key(b)) == (a < b),
        (int_key(a) == int_key(b)) == (a == b),
{
    if a < b {
        small_ints_apart(a, b);
    } else if b < a {
        small_ints_apart(b, a);
    }
}

proof fn small_ints_apart(a: int, b: int)
    requires
        -0x20_0000_0000_0000 < a < b < 0x20_0000_0000_0000,
    ensures
        int_key(a) < int_key(b),
{
    if b < 0 {
        small_bits_order((-b) as nat, (-a) as nat);
    } else if a < 0 {
        small_bits_order(0, (-a) as nat);
        if b > 0 {
            small_bits_order(0, b as nat);
        }
    } else {
        small_bits_order(a as nat, b as nat);
    }
}

/// A number that is an integer has the key of the integer, whichever kind it is
/// of: an integer and the double that is the same are equal.
pub proof fn key_of_whole(x: NumV, n: int)
    requires
        is_whole(x, n),
    ensures
        x.key() == int_key(n),
{
    if let NumV::Float(bits, _) = x {
        if n != 0 {
            let m: int = if n > 0 {
                n
            } else {
                -n
            };
            let b: int = if n > 0 {
                bits as int
            } else {
                bits - 0x8000_0000_0000_0000
            };
            let e = choose|e: nat|
                e <= 52 && #[trigger] pow2(e) <= m < 2 * pow2(e) && b == (e + 1023)
                    * 0x10_0000_0000_0000 + (m * pow2((52 - e) as nat) - 0x10_0000_0000_0000);
            exact_bits(m as nat, e);
        }
    }
}

/// Numbers that are integers of at most 53 bits are ordered as these are, an
/// integer and a double among themselves too.
pub proof fn whole_numbers_in_order(x: NumV, a: int, y: NumV, b: int)
    requires
        is_whole(x, a),
        is_whole(y, b),
        -0x20_0000_0000_0000 < a < 0x20_0000_0000_0000,
        -0x20_0000_0000_0000 < b < 0x20_0000_0000_0000,
    ensures
        (x.key() < y.key()) == (a < b),
        (x.key() == y.key()) == (a == b),
{
    key_of_whole(x, a);
    key_of_whole(y, b);
    small_int_order(a, b);
}

/// An integer below the limit is found in a number that is one, whether it is
/// stored as an integer or as a double.
pub proof fn whole_numbers_are_found(x: NumV, n: int)
    requires
        is_whole(x, n),
        -9_000_000_000_000_000 < n < 9_000_000_000_000_000,
    ensures
        whole_value(x) == Some(n),
{
    if let NumV::Float(bits, t) = x {
        if n != 0 {
            let k = if n > 0 {
                n
            } else {
                -n
            };
            let m = if n > 0 {
                bits as int
            } else {
                bits - 0x8000_0000_0000_0000
            };
            assert(double_holds(m, k));
            let e = choose|e: nat|
                e <= 52 && #[trigger] pow2(e) <= k < 2 * pow2(e) && m == (e + 1023)
                    * 0x10_0000_0000_0000 + (k * pow2((52 - e) as nat) - 0x10_0000_0000_0000);
            let p = pow2((52 - e) as nat) as int;
            let s = k * p;
            vstd::arithmetic::power2::lemma_pow2_pos((52 - e) as nat);
            vstd::arithmetic::power2::lemma_pow2_adds(e, (52 - e) as nat);
            vstd::arithmetic::power2::lemma2_to64_rest();
            assert(pow2(e) * pow2((52 - e) as nat) == 0x10_0000_0000_0000) by {
                assert(e + (52 - e) as nat == 52);
                vstd::arithmetic::power2::lemma2_to64();
            }
            assert(0x10_0000_0000_0000 <= s < 0x20_0000_0000_0000) by (nonlinear_arith)
                requires
                    s == k * p,
                    pow2(e) <= k < 2 * pow2(e),
                    pow2(e) * p == 0x10_0000_0000_0000,
                    p > 0,
            ;
            assert(m / 0x10_0000_0000_0000 == e + 1023);
            assert(m % 0x10_0000_0000_0000 == s - 0x10_0000_0000_0000);
            assert(0 < m < 0x8000_0000_0000_0000);
            assert(bits as int % 0x8000_0000_0000_0000 == m);
            assert((1075 - (e + 1023)) as nat == (52 - e) as nat);
            vstd::arithmetic::div_mod::lemma_div_multiples_vanish(k, p);
            vstd::arithmetic::div_mod::lemma_mod_multiples_basic(k, p);
            assert(p * k == s) by (nonlinear_arith)
                requires
                    s == k * p,
            ;
        }
    }
}

} // verus!
