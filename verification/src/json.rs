//! JSON values as the engine reads and writes them.

use vstd::prelude::*;
use vstd::string::*;

verus! {

/// A JSON number: a non-negative integer, a negative integer, or a finite
/// floating-point number held by its IEEE-754 binary64 bit pattern.
#[derive(Debug, Clone, Copy, PartialEq, Eq)]
pub enum JsonNumber {
    PosInt(u64),
    NegInt(i64),
    Float(u64),
}

/// A JSON value. An object keeps its members in order.
#[derive(Debug, PartialEq, Eq)]
pub enum JsonValue {
    Null,
    Bool(bool),
    Number(JsonNumber),
    String(String),
    Array(Vec<JsonValue>),
    Object(Vec<(String, JsonValue)>),
}

/// The abstract value of a JSON value.
pub enum JsonView {
    Null,
    Bool(bool),
    Number(JsonNumber),
    String(Seq<char>),
    Array(Seq<JsonView>),
    Object(Seq<(Seq<char>, JsonView)>),
}

pub open spec fn json_view(j: JsonValue) -> JsonView
    decreases j,
{
    match j {
        JsonValue::Null => JsonView::Null,
        JsonValue::Bool(b) => JsonView::Bool(b),
        JsonValue::Number(n) => JsonView::Number(n),
        JsonValue::String(s) => JsonView::String(s@),
        JsonValue::Array(a) => JsonView::Array(
            Seq::new(a.len() as nat, |i: int| if 0 <= i < a.len() { json_view(a[i]) } else { JsonView::Null }),
        ),
        JsonValue::Object(o) => JsonView::Object(
            Seq::new(
                o.len() as nat,
                |i: int|
                    if 0 <= i < o.len() {
                        (o[i].0@, json_view(o[i].1))
                    } else {
                        (Seq::<char>::empty(), JsonView::Null)
                    },
            ),
        ),
    }
}

impl View for JsonValue {
    type V = JsonView;

    open spec fn view(&self) -> JsonView {
        json_view(*self)
    }
}

impl JsonNumber {
    /// The number of a 64-bit signed integer: non-negative ones are held as
    /// unsigned.
    pub fn from_i64(i: i64) -> (r: JsonNumber)
        ensures
            i >= 0 ==> r == JsonNumber::PosInt(i as u64),
            i < 0 ==> r == JsonNumber::NegInt(i),
    {
        if i < 0 {
            JsonNumber::NegInt(i)
        } else {
            JsonNumber::PosInt(i as u64)
        }
    }
}

/// Whether a binary64 bit pattern is that of a finite number (its exponent
/// bits are not all set).
pub open spec fn is_finite_bits(bits: u64) -> bool {
    (bits >> 52u64) & 0x7ffu64 != 0x7ffu64
}

/// The JSON value of a floating-point number given by its bit pattern: a
/// number when it is finite, `null` otherwise.
pub open spec fn json_of_float_bits(bits: u64) -> JsonView {
    if is_finite_bits(bits) {
        JsonView::Number(JsonNumber::Float(bits))
    } else {
        JsonView::Null
    }
}

impl JsonValue {
    /// Copies a JSON value.
    pub fn clone(&self) -> (r: JsonValue)
        ensures
            r@ == self@,
        decreases self, 1nat,
    {
        match self {
            JsonValue::Null => JsonValue::Null,
            JsonValue::Bool(b) => JsonValue::Bool(*b),
            JsonValue::Number(n) => JsonValue::Number(*n),
            JsonValue::String(s) => JsonValue::String(s.clone()),
            JsonValue::Array(a) => {
                let out = clone_array(a);
                proof {
                    let v1 = json_view(JsonValue::Array(out));
                    let v2 = json_view(*self);
                    match (v1, v2) {
                        (JsonView::Array(s1), JsonView::Array(s2)) => {
                            assert forall|j: int| 0 <= j < s1.len() implies s1[j] == s2[j] by {
                                assert(s1[j] == json_view(out[j]));
                                assert(s2[j] == json_view(a[j]));
                                assert(out[j]@ == a[j]@);
                            }
                            assert(s1 =~= s2);
                        },
                        _ => {},
                    }
                }
                JsonValue::Array(out)
            },
            JsonValue::Object(o) => {
                let out = clone_members(o);
                proof {
                    let v1 = json_view(JsonValue::Object(out));
                    let v2 = json_view(*self);
                    match (v1, v2) {
                        (JsonView::Object(s1), JsonView::Object(s2)) => {
                            assert forall|j: int| 0 <= j < s1.len() implies s1[j] == s2[j] by {
                                assert(s1[j] == (out[j].0@, json_view(out[j].1)));
                                assert(s2[j] == (o[j].0@, json_view(o[j].1)));
                                assert(out[j].0@ == o[j].0@);
                                assert(out[j].1@ == o[j].1@);
                                assert(json_view(out[j].1) == json_view(o[j].1));
                            }
                            assert(s1 =~= s2);
                        },
                        _ => {},
                    }
                }
                JsonValue::Object(out)
            },
        }
    }

    /// The JSON value of a string.
    pub fn from_str(s: &str) -> (r: JsonValue)
        ensures
            r@ == JsonView::String(s@),
    {
        JsonValue::String(String::from_str(s))
    }

    /// The JSON value of a 64-bit signed integer.
    pub fn from_i64(i: i64) -> (r: JsonValue)
        ensures
            r@ == JsonView::Number(
                if i >= 0 {
                    JsonNumber::PosInt(i as u64)
                } else {
                    JsonNumber::NegInt(i)
                },
            ),
    {
        JsonValue::Number(JsonNumber::from_i64(i))
    }

    /// The JSON value of a floating-point number given by its bit pattern.
    pub fn from_float_bits(bits: u64) -> (r: JsonValue)
        ensures
            r@ == json_of_float_bits(bits),
    {
        if (bits >> 52u64) & 0x7ffu64 != 0x7ffu64 {
            JsonValue::Number(JsonNumber::Float(bits))
        } else {
            JsonValue::Null
        }
    }

    /// Whether this value is `null`.
    pub fn is_null(&self) -> (r: bool)
        ensures
            r == (self@ is Null),
    {
        match self {
            JsonValue::Null => true,
            _ => false,
        }
    }
}


/// Copies the elements of a JSON array.
pub fn clone_array(a: &Vec<JsonValue>) -> (out: Vec<JsonValue>)
    ensures
        out.len() == a.len(),
        forall|j: int| 0 <= j < a.len() ==> #[trigger] out[j]@ == a[j]@,
    decreases a, 0nat,
{
    let mut out: Vec<JsonValue> = Vec::new();
    let mut i: usize = 0;
    while i < a.len()
        invariant
            i <= a.len(),
            out.len() == i,
            forall|j: int| 0 <= j < i ==> #[trigger] out[j]@ == a[j]@,
        decreases a.len() - i,
    {
        assert(decreases_to!(a => a[i as int]));
        out.push(a[i].clone());
        i = i + 1;
    }
    out
}

/// Copies the members of a JSON object.
pub fn clone_members(o: &Vec<(String, JsonValue)>) -> (out: Vec<(String, JsonValue)>)
    ensures
        out.len() == o.len(),
        forall|j: int|
            0 <= j < o.len() ==> #[trigger] out[j].0@ == o[j].0@ && out[j].1@ == o[j].1@,
    decreases o, 0nat,
{
    let mut out: Vec<(String, JsonValue)> = Vec::new();
    let mut i: usize = 0;
    while i < o.len()
        invariant
            i <= o.len(),
            out.len() == i,
            forall|j: int|
                0 <= j < i ==> #[trigger] out[j].0@ == o[j].0@ && out[j].1@ == o[j].1@,
        decreases o.len() - i,
    {
        assert(decreases_to!(o => o[i as int]));
        let k = o[i].0.clone();
        let v = o[i].1.clone();
        out.push((k, v));
        i = i + 1;
    }
    out
}


/// Whether two JSON values are the same.
pub fn json_eq(a: &JsonValue, b: &JsonValue) -> (r: bool)
    ensures
        r == (a@ == b@),
    decreases a, 1nat,
{
    match (a, b) {
        (JsonValue::Null, JsonValue::Null) => {
            assert(a@ == b@);
            true
        },
        (JsonValue::Bool(x), JsonValue::Bool(y)) => {
            let r = *x == *y;
            assert(r == (a@ == b@));
            r
        },
        (JsonValue::Number(x), JsonValue::Number(y)) => {
            let r = number_eq(x, y);
            assert(r == (a@ == b@));
            r
        },
        (JsonValue::String(x), JsonValue::String(y)) => {
            let r = *x == *y;
            assert(r == (a@ == b@));
            r
        },
        (JsonValue::Array(x), JsonValue::Array(y)) => {
            let r = arrays_eq(x, y);
            proof {
                let v1 = json_view(*a);
                let v2 = json_view(*b);
                match (v1, v2) {
                    (JsonView::Array(s1), JsonView::Array(s2)) => {
                        assert(s1.len() == x.len() && s2.len() == y.len());
                        if r {
                            assert forall|j: int| 0 <= j < s1.len() implies s1[j] == s2[j] by {
                                assert(s1[j] == json_view(x[j]));
                                assert(s2[j] == json_view(y[j]));
                                assert(x[j]@ == y[j]@);
                            }
                            assert(s1 =~= s2);
                        } else if s1 == s2 {
                            assert(s1.len() == x.len() && s2.len() == y.len());
                            assert forall|j: int| 0 <= j < x.len() implies #[trigger] x[j]@ == y[j]@ by {
                                assert(s1[j] == json_view(x[j]));
                                assert(s2[j] == json_view(y[j]));
                            }
                        }
                    },
                    _ => {},
                }
            }
            assert(r == (a@ == b@));
            r
        },
        (JsonValue::Object(x), JsonValue::Object(y)) => {
            let r = members_eq(x, y);
            proof {
                let v1 = json_view(*a);
                let v2 = json_view(*b);
                match (v1, v2) {
                    (JsonView::Object(s1), JsonView::Object(s2)) => {
                        assert(s1.len() == x.len() && s2.len() == y.len());
                        if r {
                            assert forall|j: int| 0 <= j < s1.len() implies s1[j] == s2[j] by {
                                assert(s1[j] == (x[j].0@, json_view(x[j].1)));
                                assert(s2[j] == (y[j].0@, json_view(y[j].1)));
                                assert(same_member(x[j], y[j]));
                            }
                            assert(s1 =~= s2);
                        } else if s1 == s2 {
                            assert(s1.len() == x.len() && s2.len() == y.len());
                            assert forall|j: int| 0 <= j < x.len() implies #[trigger] same_member(x[j], y[j]) by {
                                assert(s1[j] == (x[j].0@, json_view(x[j].1)));
                                assert(s2[j] == (y[j].0@, json_view(y[j].1)));
                            }
                        }
                    },
                    _ => {},
                }
            }
            assert(r == (a@ == b@));
            r
        },
        _ => {
            assert(a@ != b@);
            false
        },
    }
}

fn number_eq(x: &JsonNumber, y: &JsonNumber) -> (r: bool)
    ensures
        r == (*x == *y),
{
    match (x, y) {
        (JsonNumber::PosInt(i), JsonNumber::PosInt(j)) => *i == *j,
        (JsonNumber::NegInt(i), JsonNumber::NegInt(j)) => *i == *j,
        (JsonNumber::Float(i), JsonNumber::Float(j)) => *i == *j,
        _ => false,
    }
}

/// Whether two JSON arrays hold the same elements.
pub fn arrays_eq(x: &Vec<JsonValue>, y: &Vec<JsonValue>) -> (r: bool)
    ensures
        r == (x.len() == y.len() && forall|j: int| 0 <= j < x.len() ==> #[trigger] x[j]@ == y[j]@),
    decreases x, 0nat,
{
    if x.len() != y.len() {
        return false;
    }
    let mut i: usize = 0;
    while i < x.len()
        invariant
            i <= x.len(),
            x.len() == y.len(),
            forall|j: int| 0 <= j < i ==> #[trigger] x[j]@ == y[j]@,
        decreases x.len() - i,
    {
        assert(decreases_to!(x => x[i as int]));
        if !json_eq(&x[i], &y[i]) {
            return false;
        }
        i = i + 1;
    }
    true
}

/// Two object members with the same key and the same value.
pub open spec fn same_member(a: (String, JsonValue), b: (String, JsonValue)) -> bool {
    a.0@ == b.0@ && a.1@ == b.1@
}

/// Whether two JSON objects hold the same members in the same order.
pub fn members_eq(x: &Vec<(String, JsonValue)>, y: &Vec<(String, JsonValue)>) -> (r: bool)
    ensures
        r == (x.len() == y.len() && forall|j: int|
            0 <= j < x.len() ==> #[trigger] same_member(x[j], y[j])),
    decreases x, 0nat,
{
    if x.len() != y.len() {
        return false;
    }
    let mut i: usize = 0;
    while i < x.len()
        invariant
            i <= x.len(),
            x.len() == y.len(),
            forall|j: int| 0 <= j < i ==> #[trigger] same_member(x[j], y[j]),
        decreases x.len() - i,
    {
        assert(decreases_to!(x => x[i as int]));
        let same_key = x[i].0 == y[i].0;
        if !same_key {
            assert(!same_member(x[i as int], y[i as int]));
            return false;
        }
        if !json_eq(&x[i].1, &y[i].1) {
            assert(!same_member(x[i as int], y[i as int]));
            return false;
        }
        assert(x[i as int].0@ == y[i as int].0@);
        assert(x[i as int].1@ == y[i as int].1@);
        assert(same_member(x[i as int], y[i as int]));
        i = i + 1;
    }
    true
}

} // verus!

verus! {

/// The JSON value `serde_json` reads from a text, where the text is JSON.
pub uninterp spec fn json_of_text(s: Seq<char>) -> Option<JsonView>;

/// The value type of `serde_json`.
#[verifier::external_type_specification]
#[verifier::external_body]
pub struct ExSerdeJsonValue(serde_json::Value);

/// Converts a `serde_json` value into a JSON value of the library, variant for
/// variant and member for member.
#[verifier::external_body]
fn json_value_of(v: serde_json::Value) -> JsonValue {
    match v {
        serde_json::Value::Null => JsonValue::Null,
        serde_json::Value::Bool(b) => JsonValue::Bool(b),
        serde_json::Value::Number(n) => JsonValue::Number(
            n.as_u64().map(JsonNumber::PosInt).or(n.as_i64().map(JsonNumber::NegInt)).unwrap_or(
                JsonNumber::Float(n.as_f64().unwrap_or_default().to_bits()),
            ),
        ),
        serde_json::Value::String(s) => JsonValue::String(s),
        serde_json::Value::Array(a) => JsonValue::Array(a.into_iter().map(json_value_of).collect()),
        serde_json::Value::Object(o) => JsonValue::Object(o.into_iter().map(|(k, x)| (k, json_value_of(x))).collect()),
    }
}

/// Calls `serde_json::from_str::<serde_json::Value>` on the text and converts
/// the value it reads. The contract says only that the result is `none` exactly
/// when the text is not JSON, and otherwise the value named for the text: which
/// value `serde_json` reads is not written out here.
#[verifier::external_body]
pub(crate) fn parse_json(s: &str) -> (r: Option<JsonValue>)
    ensures
        match r {
            Some(v) => json_of_text(s@) == Some(v@),
            None => json_of_text(s@) is None,
        },
{
    serde_json::from_str::<serde_json::Value>(s).ok().map(json_value_of)
}

} // verus!
