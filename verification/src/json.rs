//! JSON values carried in event payloads and projections.
//!
//! Arrays and objects are linked lists, so that two values with the same
//! content are the same value, and a clone equals the value it copies.

use vstd::prelude::*;
use vstd::string::*;

verus! {

/// Declares `serde_json::Number`, which holds a JSON number that is not an integer.
#[verifier::external_type_specification]
#[verifier::external_body]
pub struct ExNumber(serde_json::Number);

/// `Clone` of `serde_json::Number` is derived: the copy equals the value it copies.
pub assume_specification[ <serde_json::Number as Clone>::clone ](n: &serde_json::Number) -> (r: serde_json::Number)
    ensures
        r == *n,
;

/// A JSON number, as `serde_json` keeps it: a non-negative integer, a
/// negative integer, or a floating-point value (held as `serde_json` holds it).
#[derive(Debug, PartialEq)]
pub enum JsonNumber {
    /// A non-negative integer.
    PosInt(u64),
    /// A negative integer.
    NegInt(i64),
    /// A floating-point value.
    Float(serde_json::Number),
}

impl Clone for JsonNumber {
    fn clone(&self) -> (res: Self)
        ensures
            res == *self,
    {
        match self {
            JsonNumber::PosInt(n) => JsonNumber::PosInt(*n),
            JsonNumber::NegInt(n) => JsonNumber::NegInt(*n),
            JsonNumber::Float(f) => JsonNumber::Float(f.clone()),
        }
    }
}

/// A JSON value.
#[derive(Debug, PartialEq)]
pub enum JsonValue {
    /// `null`
    Null,
    /// `true` or `false`
    Bool(bool),
    /// A number
    Number(JsonNumber),
    /// A string
    String(String),
    /// An array
    Array(JsonArray),
    /// An object
    Object(JsonObject),
}

/// The elements of a JSON array, first to last.
#[derive(Debug, PartialEq)]
pub enum JsonArray {
    /// No more elements.
    Empty,
    /// An element followed by the rest.
    Item(Box<JsonValue>, Box<JsonArray>),
}

/// The members of a JSON object, in the order they were written.
#[derive(Debug, PartialEq)]
pub enum JsonObject {
    /// No more members.
    Empty,
    /// A member (key and value) followed by the rest.
    Member(String, Box<JsonValue>, Box<JsonObject>),
}

/// The mathematical content of a JSON value: texts are character sequences.
pub enum JsonView {
    Null,
    Bool(bool),
    Number(JsonNumber),
    Str(Seq<char>),
    Array(Seq<JsonView>),
    Object(Seq<(Seq<char>, JsonView)>),
}

/// The content of a JSON value.
pub open spec fn json_view(v: JsonValue) -> JsonView
    decreases v,
{
    match v {
        JsonValue::Null => JsonView::Null,
        JsonValue::Bool(b) => JsonView::Bool(b),
        JsonValue::Number(n) => JsonView::Number(n),
        JsonValue::String(s) => JsonView::Str(s@),
        JsonValue::Array(a) => JsonView::Array(array_view(a)),
        JsonValue::Object(o) => JsonView::Object(object_view(o)),
    }
}

/// The content of the elements of a JSON array.
pub open spec fn array_view(a: JsonArray) -> Seq<JsonView>
    decreases a,
{
    match a {
        JsonArray::Empty => Seq::empty(),
        JsonArray::Item(v, rest) => seq![json_view(*v)] + array_view(*rest),
    }
}

/// The content of the members of a JSON object.
pub open spec fn object_view(o: JsonObject) -> Seq<(Seq<char>, JsonView)>
    decreases o,
{
    match o {
        JsonObject::Empty => Seq::empty(),
        JsonObject::Member(k, v, rest) => seq![(k@, json_view(*v))] + object_view(*rest),
    }
}

impl View for JsonValue {
    type V = JsonView;

    open spec fn view(&self) -> JsonView {
        json_view(*self)
    }
}

/// The value of the first member of `obj` whose key is `key`.
pub open spec fn object_get(obj: JsonObject, key: Seq<char>) -> Option<JsonValue>
    decreases obj,
{
    match obj {
        JsonObject::Empty => None,
        JsonObject::Member(k, v, rest) => if k@ == key { Some(*v) } else { object_get(*rest, key) },
    }
}

/// The value under `key` of a JSON object; anything that is not an object has no members.
pub open spec fn json_get(v: JsonValue, key: Seq<char>) -> Option<JsonValue> {
    match v {
        JsonValue::Object(obj) => object_get(obj, key),
        _ => None,
    }
}

/// The object members listed in `members`, in order.
pub open spec fn object_of(members: Seq<(String, JsonValue)>) -> JsonObject
    decreases members.len(),
{
    if members.len() == 0 {
        JsonObject::Empty
    } else {
        JsonObject::Member(members[0].0, Box::new(members[0].1), Box::new(object_of(members.drop_first())))
    }
}

/// The array elements listed in `items`, in order.
pub open spec fn array_of(items: Seq<JsonValue>) -> JsonArray
    decreases items.len(),
{
    if items.len() == 0 {
        JsonArray::Empty
    } else {
        JsonArray::Item(Box::new(items[0]), Box::new(array_of(items.drop_first())))
    }
}

/// The content of the members of an object built from a list.
pub open spec fn members_view(members: Seq<(String, JsonValue)>) -> Seq<(Seq<char>, JsonView)> {
    members.map_values(|m: (String, JsonValue)| (m.0@, json_view(m.1)))
}

/// The content of an object built from a list is the content of its members, in order.
pub proof fn lemma_object_of_view(members: Seq<(String, JsonValue)>)
    ensures
        object_view(object_of(members)) == members_view(members),
    decreases members.len(),
{
    if members.len() > 0 {
        lemma_object_of_view(members.drop_first());
        assert(members_view(members) =~= seq![(members[0].0@, json_view(members[0].1))] + members_view(members.drop_first()));
    } else {
        assert(members_view(members) =~= Seq::<(Seq<char>, JsonView)>::empty());
    }
}

/// The content of an array built from a list is the content of its elements, in order.
pub proof fn lemma_array_of_view(items: Seq<JsonValue>)
    ensures
        array_view(array_of(items)) == items.map_values(|v: JsonValue| json_view(v)),
    decreases items.len(),
{
    if items.len() > 0 {
        lemma_array_of_view(items.drop_first());
        assert(items.map_values(|v: JsonValue| json_view(v)) =~= seq![json_view(items[0])] + items.drop_first().map_values(|v: JsonValue| json_view(v)));
    } else {
        assert(items.map_values(|v: JsonValue| json_view(v)) =~= Seq::<JsonView>::empty());
    }
}

/// The number of elements of a JSON array.
pub open spec fn array_len(a: JsonArray) -> nat
    decreases a,
{
    match a {
        JsonArray::Empty => 0,
        JsonArray::Item(_, rest) => 1 + array_len(*rest),
    }
}

impl Clone for JsonValue {
    fn clone(&self) -> (res: Self)
        ensures
            res == *self,
        decreases self,
    {
        match self {
            JsonValue::Null => JsonValue::Null,
            JsonValue::Bool(b) => JsonValue::Bool(*b),
            JsonValue::Number(n) => JsonValue::Number(n.clone()),
            JsonValue::String(s) => JsonValue::String(s.clone()),
            JsonValue::Array(a) => JsonValue::Array(a.clone()),
            JsonValue::Object(o) => JsonValue::Object(o.clone()),
        }
    }
}

impl Clone for JsonArray {
    fn clone(&self) -> (res: Self)
        ensures
            res == *self,
        decreases self,
    {
        match self {
            JsonArray::Empty => JsonArray::Empty,
            JsonArray::Item(v, rest) => {
                let v2 = (**v).clone();
                let r2 = (**rest).clone();
                JsonArray::Item(Box::new(v2), Box::new(r2))
            },
        }
    }
}

impl Clone for JsonObject {
    fn clone(&self) -> (res: Self)
        ensures
            res == *self,
        decreases self,
    {
        match self {
            JsonObject::Empty => JsonObject::Empty,
            JsonObject::Member(k, v, rest) => {
                let v2 = (**v).clone();
                let r2 = (**rest).clone();
                JsonObject::Member(k.clone(), Box::new(v2), Box::new(r2))
            },
        }
    }
}

impl JsonObject {
    /// The value of the first member with the given key.
    pub fn get(&self, key: &str) -> (r: Option<&JsonValue>)
        ensures
            match r {
                Some(v) => object_get(*self, key@) == Some(*v),
                None => object_get(*self, key@) is None,
            },
        decreases self,
    {
        match self {
            JsonObject::Empty => None,
            JsonObject::Member(k, v, rest) => {
                if str_eq(k.as_str(), key) {
                    Some(&**v)
                } else {
                    (**rest).get(key)
                }
            },
        }
    }
}

impl JsonValue {
    /// The value under `key` when this is an object (`serde_json::Value::get`).
    pub fn get(&self, key: &str) -> (r: Option<&JsonValue>)
        ensures
            match r {
                Some(v) => json_get(*self, key@) == Some(*v),
                None => json_get(*self, key@) is None,
            },
    {
        match self {
            JsonValue::Object(o) => o.get(key),
            _ => None,
        }
    }

    /// The text when this is a string (`serde_json::Value::as_str`).
    pub fn as_str(&self) -> (r: Option<&str>)
        ensures
            match r {
                Some(s) => *self matches JsonValue::String(t) && t@ == s@,
                None => !(*self is String),
            },
    {
        match self {
            JsonValue::String(s) => Some(s.as_str()),
            _ => None,
        }
    }

    /// The integer when this is a non-negative integer (`serde_json::Value::as_u64`).
    pub fn as_u64(&self) -> (r: Option<u64>)
        ensures
            r == (match *self {
                JsonValue::Number(JsonNumber::PosInt(n)) => Some(n),
                _ => None,
            }),
    {
        match self {
            JsonValue::Number(JsonNumber::PosInt(n)) => Some(*n),
            _ => None,
        }
    }

    /// The integer when this is an integer that fits in `i64` (`serde_json::Value::as_i64`).
    pub fn as_i64(&self) -> (r: Option<i64>)
        ensures
            r == (match *self {
                JsonValue::Number(JsonNumber::PosInt(n)) => if n <= i64::MAX { Some(n as i64) } else { None },
                JsonValue::Number(JsonNumber::NegInt(n)) => Some(n),
                _ => None,
            }),
    {
        match self {
            JsonValue::Number(JsonNumber::PosInt(n)) => if *n <= 9223372036854775807u64 { Some(*n as i64) } else { None },
            JsonValue::Number(JsonNumber::NegInt(n)) => Some(*n),
            _ => None,
        }
    }

    /// Whether this is `null`.
    pub fn is_null(&self) -> (b: bool)
        ensures
            b == (*self is Null),
    {
        match self {
            JsonValue::Null => true,
            _ => false,
        }
    }

    /// A JSON string holding a copy of `s`.
    pub fn from_str(s: &str) -> (v: JsonValue)
        ensures
            v matches JsonValue::String(t) && t@ == s@,
            json_view(v) == JsonView::Str(s@),
    {
        JsonValue::String(String::from_str(s))
    }

    /// A JSON number holding `n`.
    pub fn from_u64(n: u64) -> (v: JsonValue)
        ensures
            v == JsonValue::Number(JsonNumber::PosInt(n)),
    {
        JsonValue::Number(JsonNumber::PosInt(n))
    }

    /// A JSON number holding `n` (non-negative or negative, as `serde_json` keeps it).
    pub fn from_i64(n: i64) -> (v: JsonValue)
        ensures
            v == (if n >= 0 { JsonValue::Number(JsonNumber::PosInt(n as u64)) } else { JsonValue::Number(JsonNumber::NegInt(n)) }),
    {
        if n >= 0 {
            JsonValue::Number(JsonNumber::PosInt(n as u64))
        } else {
            JsonValue::Number(JsonNumber::NegInt(n))
        }
    }

    /// A JSON object with the given members, in order.
    pub fn object(members: Vec<(String, JsonValue)>) -> (v: JsonValue)
        ensures
            v == JsonValue::Object(object_of(members@)),
            json_view(v) == JsonView::Object(members_view(members@)),
    {
        proof { lemma_object_of_view(members@); }
        let mut members = members;
        let ghost all = members@;
        let mut obj = JsonObject::Empty;
        while members.len() > 0
            invariant
                members@.len() <= all.len(),
                members@ == all.subrange(0, members@.len() as int),
                obj == object_of(all.subrange(members@.len() as int, all.len() as int)),
            decreases members@.len(),
        {
            let ghost n = members@.len() as int;
            let (k, v) = members.pop().unwrap();
            assert(all.subrange(n - 1, all.len() as int).drop_first() =~= all.subrange(n, all.len() as int));
            obj = JsonObject::Member(k, Box::new(v), Box::new(obj));
        }
        assert(all.subrange(0, all.len() as int) =~= all);
        JsonValue::Object(obj)
    }

    /// A JSON array with the given elements, in order.
    pub fn array(items: Vec<JsonValue>) -> (v: JsonValue)
        ensures
            v == JsonValue::Array(array_of(items@)),
            json_view(v) == JsonView::Array(items@.map_values(|x: JsonValue| json_view(x))),
    {
        proof { lemma_array_of_view(items@); }
        let mut items = items;
        let ghost all = items@;
        let mut arr = JsonArray::Empty;
        while items.len() > 0
            invariant
                items@.len() <= all.len(),
                items@ == all.subrange(0, items@.len() as int),
                arr == array_of(all.subrange(items@.len() as int, all.len() as int)),
            decreases items@.len(),
        {
            let ghost n = items@.len() as int;
            let v = items.pop().unwrap();
            assert(all.subrange(n - 1, all.len() as int).drop_first() =~= all.subrange(n, all.len() as int));
            arr = JsonArray::Item(Box::new(v), Box::new(arr));
        }
        assert(all.subrange(0, all.len() as int) =~= all);
        JsonValue::Array(arr)
    }
}

/// Text equality of two string slices.
pub fn str_eq(a: &str, b: &str) -> (r: bool)
    ensures
        r == (a@ == b@),
{
    let n = a.unicode_len();
    if n != b.unicode_len() {
        return false;
    }
    let mut i: usize = 0;
    while i < n
        invariant
            n == a@.len(),
            n == b@.len(),
            i <= n,
            forall|j: int| 0 <= j < i ==> a@[j] == b@[j],
        decreases n - i,
    {
        if a.get_char(i) != b.get_char(i) {
            return false;
        }
        i = i + 1;
    }
    assert(a@ =~= b@);
    true
}

/// Declares `serde_json::Value`, into which a JSON value is converted to be rendered.
#[verifier::external_type_specification]
#[verifier::external_body]
pub struct ExSerdeValue(serde_json::Value);

/// The compact text that `serde_json` renders for a JSON value (members of an
/// object in key order, as its `Map` keeps them).
pub uninterp spec fn json_text(v: JsonView) -> Seq<char>;

/// Converts a JSON value into a `serde_json::Value`, one node for one node.
#[verifier::external_body]
fn to_serde_value(v: &JsonValue) -> serde_json::Value {
    match v {
        JsonValue::Null => serde_json::Value::Null,
        JsonValue::Bool(b) => serde_json::Value::Bool(*b),
        JsonValue::Number(JsonNumber::PosInt(n)) => serde_json::Value::from(*n),
        JsonValue::Number(JsonNumber::NegInt(n)) => serde_json::Value::from(*n),
        JsonValue::Number(JsonNumber::Float(f)) => serde_json::Value::Number(f.clone()),
        JsonValue::String(s) => serde_json::Value::String(s.clone()),
        JsonValue::Array(a) => serde_json::Value::Array(to_serde_items(a)),
        JsonValue::Object(o) => serde_json::Value::Object(to_serde_members(o).into_iter().collect()),
    }
}

/// Converts the elements of a JSON array, in order.
#[verifier::external_body]
fn to_serde_items(a: &JsonArray) -> Vec<serde_json::Value> {
    match a {
        JsonArray::Empty => Vec::new(),
        JsonArray::Item(x, rest) => [vec![to_serde_value(x)], to_serde_items(rest)].concat(),
    }
}

/// Converts the members of a JSON object, in order.
#[verifier::external_body]
fn to_serde_members(o: &JsonObject) -> Vec<(String, serde_json::Value)> {
    match o {
        JsonObject::Empty => Vec::new(),
        JsonObject::Member(k, x, rest) => [vec![(k.clone(), to_serde_value(x))], to_serde_members(rest)].concat(),
    }
}

/// Calls `serde_json::to_string` (through `Display` of `serde_json::Value`):
/// the compact text of the value, named by `json_text`.
#[verifier::external_body]
pub(crate) fn render_json(v: &JsonValue) -> (s: String)
    ensures
        s@ == json_text(v@),
{
    to_serde_value(v).to_string()
}

} // verus!
