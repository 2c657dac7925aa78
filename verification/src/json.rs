//! JSON-shaped values: channel scope and collector item attributes.
//!
//! The shape follows JSON itself. An object is a list of members with
//! distinct keys; lookups read the member with the requested key.

use vstd::prelude::*;

use crate::number::{pow10, scaled_le, lemma_pow10_positive, Decimal};
use crate::text::str_eq;

verus! {

/// A JSON number: an integer, or a finite decimal with a fractional form.
#[derive(Clone, Copy, Debug, PartialEq, Eq)]
pub enum JsonNumber {
    Integer(i128),
    Float(Decimal),
}

#[derive(Debug, PartialEq)]
pub enum JsonValue {
    Null,
    Bool(bool),
    Number(JsonNumber),
    String(String),
    Array(Vec<JsonValue>),
    Object(JsonObject),
}

#[derive(Debug, PartialEq)]
pub struct JsonMember {
    pub key: String,
    pub value: JsonValue,
}

/// A JSON object, or a map from names to JSON values.
#[derive(Debug, PartialEq)]
pub struct JsonObject {
    pub members: Vec<JsonMember>,
}

impl Clone for JsonValue {
    #[verifier::loop_isolation(false)]
    fn clone(&self) -> (r: JsonValue)
        decreases self,
    {
        match self {
            JsonValue::Null => JsonValue::Null,
            JsonValue::Bool(b) => JsonValue::Bool(*b),
            JsonValue::Number(n) => JsonValue::Number(*n),
            JsonValue::String(s) => JsonValue::String(s.clone()),
            JsonValue::Array(a) => {
                let mut out: Vec<JsonValue> = Vec::new();
                let mut i: usize = 0;
                while i < a.len()
                    invariant
                        i <= a@.len(),
                    decreases a@.len() - i,
                {
                    proof {
                        assert(*a == (*self)->Array_0);
                        assert(decreases_to!(*self => (*self)->Array_0));
                        assert(decreases_to!(*a => a@));
                        assert(decreases_to!(a@ => a@[i as int]));
                        assert(decreases_to!(self => a@[i as int]));
                    }
                    out.push(a[i].clone());
                    i = i + 1;
                }
                JsonValue::Array(out)
            },
            JsonValue::Object(o) => {
                let mut out: Vec<JsonMember> = Vec::new();
                let mut i: usize = 0;
                while i < o.members.len()
                    invariant
                        i <= o.members@.len(),
                    decreases o.members@.len() - i,
                {
                    proof {
                        assert(*o == (*self)->Object_0);
                        assert(decreases_to!(*self => (*self)->Object_0));
                        assert(decreases_to!(*o => o.members));
                        assert(decreases_to!(o.members => o.members@));
                        assert(decreases_to!(o.members@[i as int] => o.members@[i as int].value));
                        assert(decreases_to!(o.members@ => o.members@[i as int]));
                        assert(decreases_to!(self => o.members@[i as int].value));
                    }
                    let value = o.members[i].value.clone();
                    out.push(JsonMember { key: o.members[i].key.clone(), value });
                    i = i + 1;
                }
                JsonValue::Object(JsonObject { members: out })
            },
        }
    }
}

impl Clone for JsonMember {
    fn clone(&self) -> (r: JsonMember) {
        JsonMember { key: self.key.clone(), value: self.value.clone() }
    }
}

impl Clone for JsonObject {
    fn clone(&self) -> (r: JsonObject) {
        let mut out: Vec<JsonMember> = Vec::new();
        let mut i: usize = 0;
        while i < self.members.len()
            invariant
                i <= self.members@.len(),
            decreases self.members@.len() - i,
        {
            out.push(self.members[i].clone());
            i = i + 1;
        }
        JsonObject { members: out }
    }
}

impl JsonNumber {
    /// Whether `lo <= self <= hi`, decided exactly; the bounds carry no
    /// positive power of ten.
    pub fn within(&self, lo: Decimal, hi: Decimal) -> (r: bool)
        requires
            lo.exponent <= 0,
            hi.exponent <= 0,
        ensures
            r == number_within(*self, lo, hi),
    {
        match *self {
            JsonNumber::Float(x) => lo.le(&x) && x.le(&hi),
            JsonNumber::Integer(i) => {
                if i > 0x7fff_ffff_ffff_ffff {
                    proof {
                        lemma_integer_above(i as int, hi.mantissa as int, hi.exponent as int);
                    }
                    false
                } else if i < -0x8000_0000_0000_0000 {
                    proof {
                        lemma_integer_below(i as int, lo.mantissa as int, lo.exponent as int);
                    }
                    false
                } else {
                    let d = Decimal::from_integer(i as i64);
                    lo.le(&d) && d.le(&hi)
                }
            },
        }
    }
}

/// An integer at or above 2^63 exceeds every bound `m × 10^e` with `e <= 0`.
proof fn lemma_integer_above(i: int, m: int, e: int)
    requires
        i >= 0x8000_0000_0000_0000,
        m < 0x8000_0000_0000_0000,
        e <= 0,
    ensures
        !scaled_le(i, 0, m, e),
{
    let k = (0 - e) as nat;
    lemma_pow10_positive(k);
    let p = pow10(k);
    if e < 0 {
        assert(i * p >= i) by (nonlinear_arith) requires i >= 0, p >= 1;
    } else {
        assert(pow10(0) == 1);
    }
}

/// An integer below -2^63 lies under every bound `m × 10^e` with `e <= 0`.
proof fn lemma_integer_below(i: int, m: int, e: int)
    requires
        i < -0x8000_0000_0000_0000,
        m >= -0x8000_0000_0000_0000,
        e <= 0,
    ensures
        !scaled_le(m, e, i, 0),
{
    let k = (0 - e) as nat;
    lemma_pow10_positive(k);
    let p = pow10(k);
    assert(pow10(0) == 1);
    if e < 0 {
        assert(i * p <= i) by (nonlinear_arith) requires i <= 0, p >= 1;
    }
}

/// The value of the first member at or after `i` whose key is `key`.
pub open spec fn members_get_from(ms: Seq<JsonMember>, key: Seq<char>, i: int) -> Option<JsonValue>
    decreases ms.len() - i,
{
    if i < 0 || i >= ms.len() {
        None
    } else if ms[i].key@ == key {
        Some(ms[i].value)
    } else {
        members_get_from(ms, key, i + 1)
    }
}

/// No two members share a key, as in the map a JSON object is: every object
/// read from JSON text has it, `new` makes one and `insert` keeps it.
pub open spec fn keys_unique(o: JsonObject) -> bool {
    forall|i: int, j: int| 0 <= i < j < o.members@.len() ==> (#[trigger] o.members@[i]).key@ != (#[trigger] o.members@[j]).key@
}

pub open spec fn object_get(o: JsonObject, key: Seq<char>) -> Option<JsonValue> {
    members_get_from(o.members@, key, 0)
}

pub open spec fn object_has(o: JsonObject, key: Seq<char>) -> bool {
    object_get(o, key) is Some
}

pub open spec fn value_as_str(v: Option<JsonValue>) -> Option<Seq<char>> {
    match v {
        Some(JsonValue::String(s)) => Some(s@),
        _ => None,
    }
}

pub open spec fn value_as_bool(v: Option<JsonValue>) -> Option<bool> {
    match v {
        Some(JsonValue::Bool(b)) => Some(b),
        _ => None,
    }
}

pub open spec fn value_as_array(v: Option<JsonValue>) -> Option<Seq<JsonValue>> {
    match v {
        Some(JsonValue::Array(a)) => Some(a@),
        _ => None,
    }
}

pub open spec fn value_as_number(v: Option<JsonValue>) -> Option<JsonNumber> {
    match v {
        Some(JsonValue::Number(n)) => Some(n),
        _ => None,
    }
}

pub open spec fn value_as_object(v: Option<JsonValue>) -> Option<JsonObject> {
    match v {
        Some(JsonValue::Object(o)) => Some(o),
        _ => None,
    }
}

/// The strings of an array, in order, skipping every other element.
pub open spec fn array_strings(a: Seq<JsonValue>) -> Seq<Seq<char>>
    decreases a.len(),
{
    if a.len() == 0 {
        Seq::empty()
    } else {
        let rest = array_strings(a.drop_last());
        match a.last() {
            JsonValue::String(s) => rest.push(s@),
            _ => rest,
        }
    }
}

/// The string members of the array at `key`; empty when the key holds no array.
pub open spec fn scope_strings_spec(o: JsonObject, key: Seq<char>) -> Seq<Seq<char>> {
    match value_as_array(object_get(o, key)) {
        Some(a) => array_strings(a),
        None => Seq::empty(),
    }
}

/// `n <= m × 10^e` for a number as JSON reads it.
pub open spec fn number_le(n: JsonNumber, m: int, e: int) -> bool {
    match n {
        JsonNumber::Integer(i) => scaled_le(i as int, 0, m, e),
        JsonNumber::Float(d) => scaled_le(d.mantissa as int, d.exponent as int, m, e),
    }
}

/// `m × 10^e <= n`.
pub open spec fn number_ge(n: JsonNumber, m: int, e: int) -> bool {
    match n {
        JsonNumber::Integer(i) => scaled_le(m, e, i as int, 0),
        JsonNumber::Float(d) => scaled_le(m, e, d.mantissa as int, d.exponent as int),
    }
}

/// `lo <= n <= hi`, with both bounds written `mantissa × 10^exponent`.
pub open spec fn number_within(n: JsonNumber, lo: Decimal, hi: Decimal) -> bool {
    number_ge(n, lo.mantissa as int, lo.exponent as int) && number_le(n, hi.mantissa as int, hi.exponent as int)
}

impl JsonObject {
    pub fn new() -> (o: JsonObject)
        ensures
            o.members@.len() == 0,
            forall|k: Seq<char>| object_get(o, k) is None,
            keys_unique(o),
    {
        JsonObject { members: Vec::new() }
    }

    pub fn len(&self) -> (n: usize)
        ensures
            n == self.members@.len(),
    {
        self.members.len()
    }

    /// The value stored at `key`.
    pub fn get(&self, key: &str) -> (r: Option<&JsonValue>)
        ensures
            r is Some == object_get(*self, key@) is Some,
            r is Some ==> *r.unwrap() == object_get(*self, key@).unwrap(),
    {
        let mut i: usize = 0;
        while i < self.members.len()
            invariant
                i <= self.members@.len(),
                object_get(*self, key@) == members_get_from(self.members@, key@, i as int),
            decreases self.members@.len() - i,
        {
            if str_eq(self.members[i].key.as_str(), key) {
                return Some(&self.members[i].value);
            }
            i = i + 1;
        }
        None
    }

    pub fn get_str(&self, key: &str) -> (r: Option<&str>)
        ensures
            r is Some == value_as_str(object_get(*self, key@)) is Some,
            r is Some ==> r.unwrap()@ == value_as_str(object_get(*self, key@)).unwrap(),
    {
        match self.get(key) {
            Some(JsonValue::String(s)) => Some(s.as_str()),
            _ => None,
        }
    }

    pub fn get_bool(&self, key: &str) -> (r: Option<bool>)
        ensures
            r == value_as_bool(object_get(*self, key@)),
    {
        match self.get(key) {
            Some(JsonValue::Bool(b)) => Some(*b),
            _ => None,
        }
    }

    pub fn get_array(&self, key: &str) -> (r: Option<&Vec<JsonValue>>)
        ensures
            r is Some == value_as_array(object_get(*self, key@)) is Some,
            r is Some ==> r.unwrap()@ == value_as_array(object_get(*self, key@)).unwrap(),
    {
        match self.get(key) {
            Some(JsonValue::Array(a)) => Some(a),
            _ => None,
        }
    }

    pub fn get_number(&self, key: &str) -> (r: Option<JsonNumber>)
        ensures
            r == value_as_number(object_get(*self, key@)),
    {
        match self.get(key) {
            Some(JsonValue::Number(n)) => Some(*n),
            _ => None,
        }
    }

    pub fn get_object(&self, key: &str) -> (r: Option<&JsonObject>)
        ensures
            r is Some == value_as_object(object_get(*self, key@)) is Some,
            r is Some ==> *r.unwrap() == value_as_object(object_get(*self, key@)).unwrap(),
    {
        match self.get(key) {
            Some(JsonValue::Object(o)) => Some(o),
            _ => None,
        }
    }

    /// Stores `value` at `key`, replacing any value already there.
    pub fn insert(&mut self, key: String, value: JsonValue)
        ensures
            object_get(*final(self), key@) == Some(value),
            forall|k: Seq<char>| k != key@ ==> object_get(*final(self), k) == object_get(*old(self), k),
            keys_unique(*old(self)) ==> keys_unique(*final(self)),
    {
        let mut i: usize = 0;
        let ghost k0 = key@;
        while i < self.members.len()
            invariant
                i <= self.members@.len(),
                *self == *old(self),
                forall|j: int| 0 <= j < i ==> self.members@[j].key@ != k0,
                key@ == k0,
            decreases self.members@.len() - i,
        {
            if str_eq(self.members[i].key.as_str(), key.as_str()) {
                let ghost before = self.members@;
                let member = JsonMember { key, value };
                self.members.set(i, member);
                proof {
                    lemma_get_after_set(before, i as int, member, k0);
                }
                return;
            }
            i = i + 1;
        }
        let ghost before = self.members@;
        self.members.push(JsonMember { key, value });
        proof {
            lemma_get_after_push(before, JsonMember { key: key, value: value }, k0);
        }
    }
}

proof fn lemma_get_from_prefix_miss(ms: Seq<JsonMember>, k: Seq<char>, i: int)
    requires
        0 <= i <= ms.len(),
        forall|j: int| 0 <= j < i ==> ms[j].key@ != k,
    ensures
        members_get_from(ms, k, 0) == members_get_from(ms, k, i),
    decreases i,
{
    if i > 0 {
        lemma_get_from_prefix_miss(ms, k, i - 1);
    }
}

proof fn lemma_update_other(before: Seq<JsonMember>, i: int, m: JsonMember, k: Seq<char>, s: int)
    requires
        0 <= i < before.len(),
        0 <= s <= before.len(),
        before[i].key@ != k,
        m.key@ != k,
    ensures
        members_get_from(before.update(i, m), k, s) == members_get_from(before, k, s),
    decreases before.len() - s,
{
    if s < before.len() {
        lemma_update_other(before, i, m, k, s + 1);
    }
}

proof fn lemma_push_other(before: Seq<JsonMember>, m: JsonMember, k: Seq<char>, s: int)
    requires
        0 <= s <= before.len(),
        m.key@ != k,
    ensures
        members_get_from(before.push(m), k, s) == members_get_from(before, k, s),
    decreases before.len() - s,
{
    if s < before.len() {
        lemma_push_other(before, m, k, s + 1);
    } else {
        assert(members_get_from(before.push(m), k, s + 1) == None::<JsonValue>);
    }
}

proof fn lemma_get_after_set(before: Seq<JsonMember>, i: int, m: JsonMember, k0: Seq<char>)
    requires
        0 <= i < before.len(),
        before[i].key@ == k0,
        m.key@ == k0,
        forall|j: int| 0 <= j < i ==> before[j].key@ != k0,
    ensures
        members_get_from(before.update(i, m), k0, 0) == Some(m.value),
        forall|k: Seq<char>| k != k0 ==> members_get_from(before.update(i, m), k, 0) == members_get_from(before, k, 0),
{
    let after = before.update(i, m);
    lemma_get_from_prefix_miss(after, k0, i);
    assert forall|k: Seq<char>| k != k0 implies members_get_from(after, k, 0) == members_get_from(before, k, 0) by {
        lemma_update_other(before, i, m, k, 0);
    }
}

proof fn lemma_get_after_push(before: Seq<JsonMember>, m: JsonMember, k0: Seq<char>)
    requires
        m.key@ == k0,
        forall|j: int| 0 <= j < before.len() ==> before[j].key@ != k0,
    ensures
        members_get_from(before.push(m), k0, 0) == Some(m.value),
        forall|k: Seq<char>| k != k0 ==> members_get_from(before.push(m), k, 0) == members_get_from(before, k, 0),
{
    let after = before.push(m);
    lemma_get_from_prefix_miss(after, k0, before.len() as int);
    assert forall|k: Seq<char>| k != k0 implies members_get_from(after, k, 0) == members_get_from(before, k, 0) by {
        lemma_push_other(before, m, k, 0);
    }
}

} // verus!
