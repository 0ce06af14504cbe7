//! JSON values.

use serde_json::Value;
use vstd::prelude::*;

use crate::decimal;
use crate::number;
use crate::number::{NumV, Number};
use crate::text;

verus! {

/// A JSON value. An object holds its members in an order; one that was read from
/// a text holds them in increasing order of their keys, each key once.
#[derive(Debug, PartialEq)]
pub enum Json {
    Null,
    Bool(bool),
    Number(Number),
    Text(String),
    Array(Vec<Json>),
    Object(Vec<(String, Json)>),
}

/// The content of a JSON value.
#[verifier::ext_equal]
pub enum JsonV {
    Null,
    Bool(bool),
    Number(number::NumV),
    Text(Seq<char>),
    Array(Seq<JsonV>),
    Object(Seq<(Seq<char>, JsonV)>),
}

impl Json {
    /// The content of a JSON value.
    pub open spec fn view(&self) -> JsonV
        decreases self,
    {
        match self {
            Json::Null => JsonV::Null,
            Json::Bool(b) => JsonV::Bool(*b),
            Json::Number(n) => JsonV::Number(n@),
            Json::Text(s) => JsonV::Text(s@),
            Json::Array(a) => JsonV::Array(
                Seq::new(
                    a@.len(),
                    |i: int|
                        if 0 <= i < a@.len() {
                            a@[i].view()
                        } else {
                            JsonV::Null
                        },
                ),
            ),
            Json::Object(o) => JsonV::Object(
                Seq::new(
                    o@.len(),
                    |i: int|
                        if 0 <= i < o@.len() {
                            (o@[i].0@, o@[i].1.view())
                        } else {
                            (seq![], JsonV::Null)
                        },
                ),
            ),
        }
    }
}

/// An item of an array is a smaller value than the array.
pub proof fn item_smaller(j: Json, a: Vec<Json>, i: int)
    requires
        j == Json::Array(a),
        0 <= i < a@.len(),
    ensures
        decreases_to!(j => a@[i]),
{
    assert(decreases_to!(j => j->Array_0));
    assert(decreases_to!(a => a@));
    assert(decreases_to!(a@ => a@[i]));
}

/// The value of a member is smaller than the object.
pub proof fn value_smaller(j: Json, o: Vec<(String, Json)>, i: int)
    requires
        j == Json::Object(o),
        0 <= i < o@.len(),
    ensures
        decreases_to!(j => o@[i].1),
{
    assert(decreases_to!(j => j->Object_0));
    assert(decreases_to!(o => o@));
    assert(decreases_to!(o@ => o@[i]));
    assert(decreases_to!(o@[i] => o@[i].1));
}

/// The contents of a list of JSON values.
pub open spec fn items_view(a: Seq<Json>) -> Seq<JsonV> {
    Seq::new(a.len(), |i: int| a[i]@)
}

/// The contents of the members of an object.
pub open spec fn members_view(o: Seq<(String, Json)>) -> Seq<(Seq<char>, JsonV)> {
    Seq::new(o.len(), |i: int| (o[i].0@, o[i].1@))
}

/// The content of an array is that of its items.
pub proof fn array_view(a: Vec<Json>)
    ensures
        Json::Array(a)@ == JsonV::Array(items_view(a@)),
{
    assert(Json::Array(a)@->Array_0 =~= items_view(a@));
}

/// The content of an object is that of its members.
pub proof fn object_view(o: Vec<(String, Json)>)
    ensures
        Json::Object(o)@ == JsonV::Object(members_view(o@)),
{
    assert(Json::Object(o)@->Object_0 =~= members_view(o@));
}

/// The content of an optional JSON value.
pub open spec fn opt_json(o: Option<&Json>) -> Option<JsonV> {
    match o {
        Some(j) => Some(j@),
        None => None,
    }
}

// ---------------------------------------------------------------------------
// Reading
// ---------------------------------------------------------------------------

/// The position of the first member with a key, or the number of members.
pub open spec fn key_index(o: Seq<(Seq<char>, JsonV)>, key: Seq<char>) -> int
    decreases o.len(),
{
    if o.len() == 0 || o[0].0 == key {
        0
    } else {
        1 + key_index(o.skip(1), key)
    }
}

/// What [`key_index`] finds.
pub proof fn key_index_props(o: Seq<(Seq<char>, JsonV)>, key: Seq<char>)
    ensures
        0 <= key_index(o, key) <= o.len(),
        key_index(o, key) < o.len() ==> o[key_index(o, key)].0 == key,
        forall|k: int| 0 <= k < key_index(o, key) ==> (#[trigger] o[k]).0 != key,
    decreases o.len(),
{
    if o.len() > 0 && o[0].0 != key {
        let t = o.skip(1);
        key_index_props(t, key);
        assert forall|k: int| 0 <= k < key_index(o, key) implies (#[trigger] o[k]).0 != key by {
            if k > 0 {
                assert(t[k - 1] == o[k]);
            }
        }
    }
}

/// [`key_index`] is the only position with its property.
pub proof fn key_index_is(o: Seq<(Seq<char>, JsonV)>, key: Seq<char>, n: int)
    requires
        0 <= n <= o.len(),
        n < o.len() ==> o[n].0 == key,
        forall|k: int| 0 <= k < n ==> (#[trigger] o[k]).0 != key,
    ensures
        key_index(o, key) == n,
{
    key_index_props(o, key);
    let m = key_index(o, key);
    if m < n {
        assert(o[m].0 != key);
    }
}

/// The member of an object with a key; none where the value is no object.
pub open spec fn member(j: JsonV, key: Seq<char>) -> Option<JsonV> {
    match j {
        JsonV::Object(o) => if 0 <= key_index(o, key) < o.len() {
            Some(o[key_index(o, key)].1)
        } else {
            None
        },
        _ => None,
    }
}

/// A member is a smaller value than the object it stands in.
pub proof fn member_smaller(j: JsonV, key: Seq<char>)
    ensures
        member(j, key) matches Some(v) ==> decreases_to!(j => v),
{
    if let JsonV::Object(o) = j {
        key_index_props(o, key);
        let i = key_index(o, key);
        if i < o.len() {
            assert(decreases_to!(j => o));
            assert(decreases_to!(o => o[i]));
            assert(decreases_to!(o[i] => o[i].1));
        }
    }
}

/// An item is a smaller value than the array it stands in.
pub proof fn element_smaller(j: JsonV, a: Seq<JsonV>, i: int)
    requires
        j == JsonV::Array(a),
        0 <= i < a.len(),
    ensures
        decreases_to!(j => a[i]),
{
    assert(decreases_to!(j => j->Array_0));
    assert(decreases_to!(a => a[i]));
}

/// The members of an object with one member.
pub proof fn member_of_one(k: Seq<char>, v: JsonV, key: Seq<char>)
    ensures
        member(JsonV::Object(seq![(k, v)]), key) == if key == k {
            Some(v)
        } else {
            None
        },
{
    let o = seq![(k, v)];
    key_index_is(
        o,
        key,
        if key == k {
            0
        } else {
            1
        },
    );
}

/// The members of an object with three members of different keys.
pub proof fn member_of_three(
    k1: Seq<char>,
    v1: JsonV,
    k2: Seq<char>,
    v2: JsonV,
    k3: Seq<char>,
    v3: JsonV,
)
    requires
        k1 != k2,
        k1 != k3,
        k2 != k3,
    ensures
        member(JsonV::Object(seq![(k1, v1), (k2, v2), (k3, v3)]), k1) == Some(v1),
        member(JsonV::Object(seq![(k1, v1), (k2, v2), (k3, v3)]), k2) == Some(v2),
        member(JsonV::Object(seq![(k1, v1), (k2, v2), (k3, v3)]), k3) == Some(v3),
{
    let o = seq![(k1, v1), (k2, v2), (k3, v3)];
    key_index_is(o, k1, 0);
    key_index_is(o, k2, 1);
    key_index_is(o, k3, 2);
}

/// The text of a string value.
pub open spec fn str_of(j: JsonV) -> Option<Seq<char>> {
    match j {
        JsonV::Text(s) => Some(s),
        _ => None,
    }
}

/// The text of an optional value that is a string.
pub open spec fn opt_str_of(j: Option<JsonV>) -> Option<Seq<char>> {
    match j {
        Some(v) => str_of(v),
        None => None,
    }
}

/// The items of an array.
pub open spec fn items_of(j: JsonV) -> Option<Seq<JsonV>> {
    match j {
        JsonV::Array(a) => Some(a),
        _ => None,
    }
}

/// The items of an optional value that is an array.
pub open spec fn opt_items_of(j: Option<JsonV>) -> Option<Seq<JsonV>> {
    match j {
        Some(v) => items_of(v),
        None => None,
    }
}

/// The key by which a number is ordered; none where the value is no number.
pub open spec fn num_key(j: JsonV) -> Option<int> {
    match j {
        JsonV::Number(n) => Some(n.key()),
        _ => None,
    }
}

/// The truth value of a boolean.
pub open spec fn bool_of(j: JsonV) -> Option<bool> {
    match j {
        JsonV::Bool(b) => Some(b),
        _ => None,
    }
}

/// The value of a number as a signed 64-bit integer, where it is one.
pub open spec fn i64_of(j: JsonV) -> Option<i64> {
    match j {
        JsonV::Number(number::NumV::PosInt(n)) => if n <= i64::MAX {
            Some(n as i64)
        } else {
            None
        },
        JsonV::Number(number::NumV::NegInt(n)) => Some(n),
        _ => None,
    }
}

impl Json {
    /// The member of an object with a key.
    pub fn get(&self, key: &str) -> (r: Option<&Json>)
        ensures
            opt_json(r) == member(self@, key@),
    {
        match self {
            Json::Object(o) => {
                let ghost ms = members_view(o@);
                proof {
                    object_view(*o);
                }
                let mut i: usize = 0;
                while i < o.len()
                    invariant
                        i <= o@.len(),
                        ms == members_view(o@),
                        self@ == JsonV::Object(ms),
                        forall|k: int| 0 <= k < i ==> (#[trigger] ms[k]).0 != key@,
                    decreases o@.len() - i,
                {
                    if text::same(o[i].0.as_str(), key) {
                        proof {
                            key_index_is(ms, key@, i as int);
                        }
                        return Some(&o[i].1);
                    }
                    assert(ms[i as int].0 == o@[i as int].0@);
                    i += 1;
                }
                proof {
                    key_index_is(ms, key@, i as int);
                }
                None
            },
            _ => None,
        }
    }

    /// The text of a string value.
    pub fn as_str(&self) -> (r: Option<&str>)
        ensures
            text::opt_str(r) == str_of(self@),
    {
        match self {
            Json::Text(s) => Some(s.as_str()),
            _ => None,
        }
    }

    /// The items of an array.
    pub fn as_array(&self) -> (r: Option<&Vec<Json>>)
        ensures
            match r {
                Some(a) => self@ == JsonV::Array(items_view(a@)),
                None => items_of(self@) is None,
            },
    {
        match self {
            Json::Array(a) => {
                proof {
                    array_view(*a);
                }
                Some(a)
            },
            _ => None,
        }
    }

    /// The members of an object.
    pub fn as_object(&self) -> (r: Option<&Vec<(String, Json)>>)
        ensures
            match r {
                Some(o) => self@ == JsonV::Object(members_view(o@)),
                None => !(self@ is Object),
            },
    {
        match self {
            Json::Object(o) => {
                proof {
                    object_view(*o);
                }
                Some(o)
            },
            _ => None,
        }
    }

    /// The truth value of a boolean.
    pub fn as_bool(&self) -> (r: Option<bool>)
        ensures
            r == bool_of(self@),
    {
        match self {
            Json::Bool(b) => Some(*b),
            _ => None,
        }
    }

    /// The value of a number as a signed 64-bit integer, where it is one.
    pub fn as_i64(&self) -> (r: Option<i64>)
        ensures
            r == i64_of(self@),
    {
        match self {
            Json::Number(Number::PosInt(n)) => if *n <= 0x7fff_ffff_ffff_ffff {
                Some(*n as i64)
            } else {
                None
            },
            Json::Number(Number::NegInt(n)) => Some(*n),
            _ => None,
        }
    }

    /// The key by which a number is ordered.
    pub fn order_key(&self) -> (r: Option<i64>)
        ensures
            match r {
                Some(k) => num_key(self@) == Some(k as int),
                None => num_key(self@) is None,
            },
    {
        match self {
            Json::Number(n) => Some(n.key()),
            _ => None,
        }
    }

    /// Whether a value is null.
    pub fn is_null(&self) -> (r: bool)
        ensures
            r == (self@ == JsonV::Null),
    {
        match self {
            Json::Null => true,
            _ => false,
        }
    }

    /// A copy of a value.
    pub fn copy(&self) -> (r: Json)
        ensures
            r@ == self@,
        decreases self,
    {
        match self {
            Json::Null => Json::Null,
            Json::Bool(b) => Json::Bool(*b),
            Json::Number(n) => Json::Number(n.copy()),
            Json::Text(s) => Json::Text(s.clone()),
            Json::Array(a) => {
                let mut out: Vec<Json> = Vec::new();
                let mut i: usize = 0;
                while i < a.len()
                    invariant
                        i <= a@.len(),
                        out@.len() == i,
                        *self == Json::Array(*a),
                        forall|k: int| 0 <= k < i ==> (#[trigger] out@[k])@ == a@[k]@,
                    decreases a@.len() - i,
                {
                    proof {
                        item_smaller(*self, *a, i as int);
                    }
                    out.push(a[i].copy());
                    i += 1;
                }
                proof {
                    array_view(out);
                    array_view(*a);
                    assert(items_view(out@) =~= items_view(a@));
                }
                Json::Array(out)
            },
            Json::Object(o) => {
                let mut out: Vec<(String, Json)> = Vec::new();
                let mut i: usize = 0;
                while i < o.len()
                    invariant
                        i <= o@.len(),
                        out@.len() == i,
                        *self == Json::Object(*o),
                        forall|k: int|
                            0 <= k < i ==> (#[trigger] out@[k]).0@ == o@[k].0@ && out@[k].1@
                                == o@[k].1@,
                    decreases o@.len() - i,
                {
                    proof {
                        value_smaller(*self, *o, i as int);
                    }
                    out.push((o[i].0.clone(), o[i].1.copy()));
                    i += 1;
                }
                proof {
                    object_view(out);
                    object_view(*o);
                    assert(members_view(out@) =~= members_view(o@));
                }
                Json::Object(out)
            },
        }
    }
}

impl Clone for Json {
    fn clone(&self) -> (r: Json)
        ensures
            r@ == self@,
    {
        self.copy()
    }
}

// ---------------------------------------------------------------------------
// Equality
// ---------------------------------------------------------------------------

/// Whether two values are equal: numbers by value and kind, arrays item by
/// item, objects member by member whatever their order.
pub open spec fn same_json(a: JsonV, b: JsonV) -> bool
    decreases a,
{
    match (a, b) {
        (JsonV::Null, JsonV::Null) => true,
        (JsonV::Bool(x), JsonV::Bool(y)) => x == y,
        (JsonV::Number(x), JsonV::Number(y)) => x.same(y),
        (JsonV::Text(x), JsonV::Text(y)) => x == y,
        (JsonV::Array(x), JsonV::Array(y)) => x.len() == y.len() && forall|i: int|
            0 <= i < x.len() ==> same_json(#[trigger] x[i], y[i]),
        (JsonV::Object(x), JsonV::Object(y)) => x.len() == y.len() && forall|i: int|
            0 <= i < x.len() ==> match member(b, (#[trigger] x[i]).0) {
                Some(v) => same_json(x[i].1, v),
                None => false,
            },
        _ => false,
    }
}

/// Whether two values are equal.
pub fn same(a: &Json, b: &Json) -> (r: bool)
    ensures
        r == same_json(a@, b@),
    decreases a,
{
    match (a, b) {
        (Json::Null, Json::Null) => true,
        (Json::Bool(x), Json::Bool(y)) => *x == *y,
        (Json::Number(x), Json::Number(y)) => x.same(y),
        (Json::Text(x), Json::Text(y)) => text::same(x.as_str(), y.as_str()),
        (Json::Array(x), Json::Array(y)) => {
            proof {
                array_view(*x);
                array_view(*y);
            }
            let ghost xs = items_view(x@);
            let ghost ys = items_view(y@);
            if x.len() != y.len() {
                return false;
            }
            let mut i: usize = 0;
            while i < x.len()
                invariant
                    i <= x@.len(),
                    x@.len() == y@.len(),
                    *a == Json::Array(*x),
                    xs == items_view(x@),
                    ys == items_view(y@),
                    a@ == JsonV::Array(xs),
                    b@ == JsonV::Array(ys),
                    forall|k: int| 0 <= k < i ==> same_json(#[trigger] xs[k], ys[k]),
                decreases x@.len() - i,
            {
                proof {
                    item_smaller(*a, *x, i as int);
                }
                let ok = same(&x[i], &y[i]);
                assert(xs[i as int] == x@[i as int]@);
                assert(ys[i as int] == y@[i as int]@);
                if !ok {
                    return false;
                }
                i += 1;
            }
            true
        },
        (Json::Object(x), Json::Object(y)) => {
            proof {
                object_view(*x);
                object_view(*y);
            }
            let ghost xs = members_view(x@);
            let ghost ys = members_view(y@);
            if x.len() != y.len() {
                return false;
            }
            let mut i: usize = 0;
            while i < x.len()
                invariant
                    i <= x@.len(),
                    x@.len() == y@.len(),
                    *a == Json::Object(*x),
                    xs == members_view(x@),
                    ys == members_view(y@),
                    a@ == JsonV::Object(xs),
                    b@ == JsonV::Object(ys),
                    forall|k: int|
                        0 <= k < i ==> match member(b@, (#[trigger] xs[k]).0) {
                            Some(v) => same_json(xs[k].1, v),
                            None => false,
                        },
                decreases x@.len() - i,
            {
                proof {
                    value_smaller(*a, *x, i as int);
                }
                let found = b.get(x[i].0.as_str());
                assert(xs[i as int].0 == x@[i as int].0@);
                assert(xs[i as int].1 == x@[i as int].1@);
                let ok = match found {
                    Some(v) => same(&x[i].1, v),
                    None => false,
                };
                if !ok {
                    return false;
                }
                i += 1;
            }
            true
        },
        _ => false,
    }
}

// ---------------------------------------------------------------------------
// Building
// ---------------------------------------------------------------------------

/// A string value.
pub fn of_str(s: &str) -> (r: Json)
    ensures
        r@ == JsonV::Text(s@),
{
    Json::Text(s.to_owned())
}

/// A string value, or null.
pub open spec fn opt_text(s: Option<Seq<char>>) -> JsonV {
    match s {
        Some(t) => JsonV::Text(t),
        None => JsonV::Null,
    }
}

/// A string value, or null.
pub fn of_opt_str(s: Option<&str>) -> (r: Json)
    ensures
        r@ == opt_text(text::opt_str(s)),
{
    match s {
        Some(t) => of_str(t),
        None => Json::Null,
    }
}

/// An integer value.
pub fn of_i64(n: i64) -> (r: Json)
    ensures
        r@ == JsonV::Number(number::int_number(n)),
{
    Json::Number(number::number_of(n))
}

/// An array of strings.
pub open spec fn texts(list: Seq<Seq<char>>) -> JsonV {
    JsonV::Array(Seq::new(list.len(), |i: int| JsonV::Text(list[i])))
}

/// An array of strings.
pub fn of_list(list: &Vec<String>) -> (r: Json)
    ensures
        r@ == texts(text::contents(list@)),
{
    let mut out: Vec<Json> = Vec::new();
    let mut i: usize = 0;
    while i < list.len()
        invariant
            i <= list@.len(),
            out@.len() == i,
            forall|k: int| 0 <= k < i ==> (#[trigger] out@[k])@ == JsonV::Text(list@[k]@),
        decreases list@.len() - i,
    {
        out.push(of_str(list[i].as_str()));
        i += 1;
    }
    proof {
        array_view(out);
        assert(items_view(out@) =~= texts(text::contents(list@))->Array_0);
    }
    Json::Array(out)
}

/// An array.
pub fn array(items: Vec<Json>) -> (r: Json)
    ensures
        r@ == JsonV::Array(items_view(items@)),
{
    proof {
        array_view(items);
    }
    Json::Array(items)
}

/// Appends an item to a list of values.
pub fn add_item(items: &mut Vec<Json>, value: Json)
    ensures
        items_view(final(items)@) == items_view(old(items)@).push(value@),
{
    items.push(value);
    assert(items_view(items@) =~= items_view(old(items)@).push(value@));
}

/// Appends a member to a list of members.
pub fn put(members: &mut Vec<(String, Json)>, key: &str, value: Json)
    ensures
        members_view(final(members)@) == members_view(old(members)@).push((key@, value@)),
{
    members.push((key.to_owned(), value));
    assert(members_view(members@) =~= members_view(old(members)@).push((key@, value@)));
}

/// An object.
pub fn object(members: Vec<(String, Json)>) -> (r: Json)
    ensures
        r@ == JsonV::Object(members_view(members@)),
{
    proof {
        object_view(members);
    }
    Json::Object(members)
}

/// An object with one member.
pub fn object1(key: &str, value: Json) -> (r: Json)
    ensures
        r@ == JsonV::Object(seq![(key@, value@)]),
{
    let mut m: Vec<(String, Json)> = Vec::new();
    assert(members_view(m@) =~= seq![]);
    put(&mut m, key, value);
    object(m)
}

/// An object with two members.
pub fn object2(k1: &str, v1: Json, k2: &str, v2: Json) -> (r: Json)
    ensures
        r@ == JsonV::Object(seq![(k1@, v1@), (k2@, v2@)]),
{
    let mut m: Vec<(String, Json)> = Vec::new();
    assert(members_view(m@) =~= seq![]);
    put(&mut m, k1, v1);
    put(&mut m, k2, v2);
    assert(members_view(m@) =~= seq![(k1@, v1@), (k2@, v2@)]);
    object(m)
}

/// An object with three members.
pub fn object3(k1: &str, v1: Json, k2: &str, v2: Json, k3: &str, v3: Json) -> (r: Json)
    ensures
        r@ == JsonV::Object(seq![(k1@, v1@), (k2@, v2@), (k3@, v3@)]),
{
    let mut m: Vec<(String, Json)> = Vec::new();
    assert(members_view(m@) =~= seq![]);
    put(&mut m, k1, v1);
    put(&mut m, k2, v2);
    put(&mut m, k3, v3);
    assert(members_view(m@) =~= seq![(k1@, v1@), (k2@, v2@), (k3@, v3@)]);
    object(m)
}

// ---------------------------------------------------------------------------
// Text
// ---------------------------------------------------------------------------

/// The values of the `serde_json` crate.
#[verifier::external_type_specification]
#[verifier::external_body]
pub struct ExValue(serde_json::Value);

/// What a `serde_json::Value` holds: members of an object in the order of the
/// crate's map, that of their keys.
pub uninterp spec fn value_content(v: serde_json::Value) -> JsonV;

/// What `serde_json::from_str` reads from a text, where it reads one value.
pub uninterp spec fn read_content(s: Seq<char>) -> Option<JsonV>;

/// What is left of a content once it stands in a `serde_json::Value`: the
/// crate's map orders members by key and keeps the last of each key, and a
/// double is read again from its text.
pub uninterp spec fn stored(j: JsonV) -> JsonV;

/// What `Value::to_string` writes for a value with a content: compact JSON.
pub uninterp spec fn written(j: JsonV) -> Seq<char>;

/// The JSON text of null, of a truth value and of an integer; none for other
/// values.
pub open spec fn plain_text(j: JsonV) -> Option<Seq<char>> {
    match j {
        JsonV::Null => Some("null"@),
        JsonV::Bool(true) => Some("true"@),
        JsonV::Bool(false) => Some("false"@),
        JsonV::Number(NumV::PosInt(n)) => Some(decimal::numeral(n as int)),
        JsonV::Number(NumV::NegInt(n)) => if n < 0 {
            Some(decimal::numeral(n as int))
        } else {
            None
        },
        _ => None,
    }
}

/// `serde_json::from_str` into a `serde_json::Value`. What it reads, and that
/// it reads anything, is a function of the text alone; an error is dropped. The
/// text of null, a truth value or an integer is read as that.
#[verifier::external_body]
fn read_value(s: &str) -> (r: Option<Value>)
    ensures
        match r {
            Some(v) => read_content(s@) == Some(value_content(v)),
            None => read_content(s@) is None,
        },
        forall|j: JsonV| #[trigger]
            plain_text(j) == Some(s@) ==> r is Some && value_content(r->0) == j,
{
    serde_json::from_str(s).ok()
}

/// Takes a `serde_json::Value` apart, variant by variant; the kind of a number
/// is the first of `as_u64`, `as_i64` and `as_f64` that answers.
#[verifier::external_body]
fn from_value(v: Value) -> (r: Json)
    ensures
        r@ == value_content(v),
{
    match v {
        Value::Null => Json::Null,
        Value::Bool(b) => Json::Bool(b),
        Value::Number(n) => Json::Number(match (n.as_u64(), n.as_i64()) {
            (Some(u), _) => Number::PosInt(u),
            (None, Some(i)) => Number::NegInt(i),
            _ => Number::Float(n.as_f64().unwrap_or_default().to_bits(), n.to_string()),
        }),
        Value::String(s) => Json::Text(s),
        Value::Array(a) => Json::Array(a.into_iter().map(from_value).collect()),
        Value::Object(o) => Json::Object(
            o.into_iter().map(|(k, x)| (k, from_value(x))).collect()),
    }
}

/// Puts a content into a `serde_json::Value`, variant by variant; a double goes
/// through `str::parse` and `Number::from_f64`. Null, truth values, integers
/// and strings are kept as they are.
#[verifier::external_body]
fn to_value(j: &Json) -> (r: Value)
    ensures
        value_content(r) == stored(j@),
        plain_text(j@) is Some || j@ is Text ==> value_content(r) == j@,
{
    match j {
        Json::Null => Value::Null,
        Json::Bool(b) => Value::Bool(*b),
        Json::Number(Number::PosInt(n)) => Value::from(*n),
        Json::Number(Number::NegInt(n)) => Value::from(*n),
        Json::Number(Number::Float(_, t)) => Value::from(
            t.parse().ok().and_then(serde_json::Number::from_f64)),
        Json::Text(s) => Value::String(s.clone()),
        Json::Array(a) => Value::Array(a.iter().map(to_value).collect()),
        Json::Object(o) => Value::Object(
            o.iter().map(|(k, x)| (k.clone(), to_value(x))).collect()),
    }
}

/// `Value::to_string`: the compact JSON of a value, a function of what the
/// value holds. Null, truth values and integers are written as in any JSON.
#[verifier::external_body]
fn value_text(v: &Value) -> (r: String)
    ensures
        r@ == written(value_content(*v)),
        plain_text(value_content(*v)) matches Some(t) ==> r@ == t,
{
    v.to_string()
}

/// Reads a JSON text.
pub fn read(s: &str) -> (r: Option<Json>)
    ensures
        match r {
            Some(j) => read_content(s@) == Some(j@),
            None => read_content(s@) is None,
        },
        forall|j: JsonV| #[trigger] plain_text(j) == Some(s@) ==> read_content(s@) == Some(j),
{
    match read_value(s) {
        Some(v) => Some(from_value(v)),
        None => None,
    }
}

/// The compact JSON text of a content.
pub open spec fn json_text(j: JsonV) -> Seq<char> {
    written(stored(j))
}

/// Writes a value as compact JSON text.
pub fn write(j: &Json) -> (r: String)
    ensures
        r@ == json_text(j@),
        plain_text(j@) matches Some(t) ==> r@ == t,
{
    value_text(&to_value(j))
}

/// A member is the first with its key, and a value without the key, or one that
/// is no object, has none.
pub proof fn first_members_are_found(
    a: Seq<(Seq<char>, JsonV)>,
    key: Seq<char>,
    v: JsonV,
    b: Seq<(Seq<char>, JsonV)>,
)
    requires
        forall|k: int| 0 <= k < a.len() ==> (#[trigger] a[k]).0 != key,
    ensures
        member(JsonV::Object(a + seq![(key, v)] + b), key) == Some(v),
        member(JsonV::Object(a), key) is None,
        !(v is Object) ==> member(v, key) is None,
{
    let s = a + seq![(key, v)] + b;
    let n = a.len() as int;
    assert forall|k: int| 0 <= k < n implies (#[trigger] s[k]).0 != key by {
        assert(s[k] == a[k]);
    }
    assert(s[n] == (key, v));
    key_index_is(s, key, n);
    key_index_is(a, key, n);
}

/// Strings, truth values and integers are equal where they are the same, and
/// values of different kinds never are.
pub proof fn equal_values(x: Seq<char>, y: Seq<char>, b: bool, c: bool, m: u64, n: u64, j: JsonV)
    ensures
        same_json(JsonV::Text(x), JsonV::Text(y)) == (x == y),
        same_json(JsonV::Bool(b), JsonV::Bool(c)) == (b == c),
        same_json(JsonV::Number(NumV::PosInt(m)), JsonV::Number(NumV::PosInt(n))) == (m == n),
        same_json(JsonV::Null, j) == (j is Null),
        same_json(j, JsonV::Null) == (j is Null),
        !(j is Text) ==> !same_json(JsonV::Text(x), j) && !same_json(j, JsonV::Text(x)),
        !(j is Bool) ==> !same_json(JsonV::Bool(b), j) && !same_json(j, JsonV::Bool(b)),
        !(j is Number) ==> !same_json(JsonV::Number(NumV::PosInt(m)), j) && !same_json(
            j,
            JsonV::Number(NumV::PosInt(m)),
        ),
{
}

/// Arrays are equal where they have the same length and equal items.
pub proof fn equal_arrays(a: Seq<JsonV>, x: JsonV, b: Seq<JsonV>, y: JsonV)
    ensures
        same_json(JsonV::Array(a.push(x)), JsonV::Array(b.push(y))) == (same_json(
            JsonV::Array(a),
            JsonV::Array(b),
        ) && same_json(x, y)),
        same_json(JsonV::Array(seq![]), JsonV::Array(seq![])),
        a.len() != b.len() ==> !same_json(JsonV::Array(a), JsonV::Array(b)),
{
    let (p, q) = (a.push(x), b.push(y));
    if same_json(JsonV::Array(p), JsonV::Array(q)) {
        assert forall|i: int| 0 <= i < a.len() implies same_json(#[trigger] a[i], b[i]) by {
            assert(same_json(p[i], q[i]));
        }
        assert(same_json(p[a.len() as int], q[a.len() as int]));
    }
    if same_json(JsonV::Array(a), JsonV::Array(b)) && same_json(x, y) {
        assert forall|i: int| 0 <= i < p.len() implies same_json(#[trigger] p[i], q[i]) by {
            if i < a.len() {
                assert(same_json(a[i], b[i]));
            }
        }
    }
}

/// What values are read as: a string as its text, a truth value as itself, an
/// integer that fits as itself, and any other as none.
pub proof fn values_are_read_as_their_kinds(j: JsonV, s: Seq<char>, b: bool, n: int)
    ensures
        str_of(JsonV::Text(s)) == Some(s),
        !(j is Text) ==> str_of(j) is None,
        bool_of(JsonV::Bool(b)) == Some(b),
        !(j is Bool) ==> bool_of(j) is None,
        0 <= n <= i64::MAX ==> i64_of(JsonV::Number(NumV::PosInt(n as u64))) == Some(n as i64),
        i64::MAX < n <= u64::MAX ==> i64_of(JsonV::Number(NumV::PosInt(n as u64))) is None,
        i64::MIN <= n < 0 ==> i64_of(JsonV::Number(NumV::NegInt(n as i64))) == Some(n as i64),
        !(j is Number) ==> i64_of(j) is None && num_key(j) is None,
        opt_text(Some(s)) == JsonV::Text(s),
        opt_text(None) == JsonV::Null,
{
}

/// Null, truth values and integers are written in JSON as everywhere.
pub proof fn plain_values_are_written(n: int)
    ensures
        plain_text(JsonV::Null) == Some("null"@),
        plain_text(JsonV::Bool(true)) == Some("true"@),
        plain_text(JsonV::Bool(false)) == Some("false"@),
        0 <= n <= u64::MAX ==> plain_text(JsonV::Number(NumV::PosInt(n as u64))) == Some(
            decimal::numeral(n),
        ),
        i64::MIN <= n < 0 ==> plain_text(JsonV::Number(NumV::NegInt(n as i64))) == Some(
            decimal::numeral(n),
        ),
{
}

} // verus!
