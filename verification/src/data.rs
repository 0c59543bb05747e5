//! The user record, its email heuristic, and its structured-data
//! encoding.

use vstd::prelude::*;
use vstd::string::*;

verus! {

broadcast use vstd::string::group_string_axioms;

/// A user record. No invariant is enforced at construction; validity
/// of the email field is checked on demand by [`User::is_valid_email`].
#[derive(Debug, Clone)]
pub struct User {
    pub id: u32,
    pub name: String,
    pub email: String,
}

/// Whether the characters of `s` include `c` anywhere.
fn contains_char(s: &str, c: char) -> (r: bool)
    ensures
        r == s@.contains(c),
{
    let len = s.unicode_len();
    let mut k: usize = 0;
    while k < len
        invariant
            len == s@.len(),
            k <= len,
            forall|j: int| 0 <= j < k ==> s@[j] != c,
        decreases len - k,
    {
        if s.get_char(k) == c {
            assert(s@.contains(c)) by {
                assert(s@[k as int] == c);
            }
            return true;
        }
        k += 1;
    }
    assert(!s@.contains(c));
    false
}

impl User {
    pub fn new(id: u32, name: String, email: String) -> (u: Self)
        ensures
            u.id == id,
            u.name@ == name@,
            u.email@ == email@,
    {
        Self { id, name, email }
    }

    /// A deliberately weak shape heuristic: the email text contains
    /// both an `@` and a `.` somewhere, in any position and order.
    pub fn is_valid_email(&self) -> (r: bool)
        ensures
            r == (self.email@.contains('@') && self.email@.contains('.')),
    {
        contains_char(self.email.as_str(), '@') && contains_char(self.email.as_str(), '.')
    }
}

/// A structured data value: null, a boolean, a number, text, an
/// ordered sequence of values, or a mapping from text keys to values.
/// Numbers are held as 64-bit integers; the record encoding below only
/// ever stores integral numbers.
pub enum JsonValue {
    Null,
    Bool(bool),
    Num(i64),
    Text(String),
    Arr(Vec<JsonValue>),
    Object(Vec<(String, JsonValue)>),
}

/// The record's shape did not match: not a mapping, a missing field,
/// a field of the wrong type, or an identifier out of range.
#[derive(Debug, Clone, Copy, PartialEq, Eq, Structural)]
pub struct ShapeError;

/// The value of the first field named `key` at or after position `k`,
/// if any.
pub open spec fn lookup_from(
    fields: Seq<(String, JsonValue)>,
    key: Seq<char>,
    k: int,
) -> Option<JsonValue>
    decreases fields.len() - k,
{
    if k < 0 || k >= fields.len() {
        None
    } else if fields[k].0@ == key {
        Some(fields[k].1)
    } else {
        lookup_from(fields, key, k + 1)
    }
}

/// The value of the first field named `key`, if any.
pub open spec fn lookup(fields: Seq<(String, JsonValue)>, key: Seq<char>) -> Option<JsonValue> {
    lookup_from(fields, key, 0)
}

/// Whether `v` has the shape of an encoded user record: a mapping with
/// an integral `id` in `u32` range and textual `name` and `email`
/// fields, whatever else it may carry.
pub open spec fn user_record_shape(v: JsonValue) -> bool {
    &&& v is Object
    &&& lookup(v->Object_0@, "id"@) matches Some(jv) && jv is Num && 0 <= jv->Num_0 <= u32::MAX
    &&& lookup(v->Object_0@, "name"@) matches Some(jv) && jv is Text
    &&& lookup(v->Object_0@, "email"@) matches Some(jv) && jv is Text
}

/// The identifier stored in a value of user-record shape.
pub open spec fn record_id(v: JsonValue) -> int {
    lookup(v->Object_0@, "id"@)->Some_0->Num_0 as int
}

/// The name stored in a value of user-record shape.
pub open spec fn record_name(v: JsonValue) -> Seq<char> {
    lookup(v->Object_0@, "name"@)->Some_0->Text_0@
}

/// The email stored in a value of user-record shape.
pub open spec fn record_email(v: JsonValue) -> Seq<char> {
    lookup(v->Object_0@, "email"@)->Some_0->Text_0@
}

/// Whether `v` is exactly the encoding of the record `u`: a mapping of
/// the three fields `id`, `name`, `email`, in that order.
pub open spec fn encodes_user(v: JsonValue, u: User) -> bool {
    &&& v is Object
    &&& v->Object_0@.len() == 3
    &&& v->Object_0@[0].0@ == "id"@
    &&& v->Object_0@[0].1 == JsonValue::Num(u.id as i64)
    &&& v->Object_0@[1].0@ == "name"@
    &&& v->Object_0@[1].1 matches JsonValue::Text(s) && s@ == u.name@
    &&& v->Object_0@[2].0@ == "email"@
    &&& v->Object_0@[2].1 matches JsonValue::Text(s) && s@ == u.email@
}

/// Encode a user record as a structured data value.
pub fn user_to_value(u: &User) -> (v: JsonValue)
    ensures
        encodes_user(v, *u),
{
    let mut fields: Vec<(String, JsonValue)> = Vec::new();
    fields.push(("id".to_owned(), JsonValue::Num(u.id as i64)));
    fields.push(("name".to_owned(), JsonValue::Text(u.name.clone())));
    fields.push(("email".to_owned(), JsonValue::Text(u.email.clone())));
    JsonValue::Object(fields)
}

/// The value of the first field named `key`, by linear scan.
fn find_field<'a>(fields: &'a Vec<(String, JsonValue)>, key: &str) -> (r: Option<&'a JsonValue>)
    ensures
        match r {
            Some(jv) => lookup(fields@, key@) == Some(*jv),
            None => lookup(fields@, key@) is None,
        },
{
    let key_owned = key.to_owned();
    let n = fields.len();
    let mut k: usize = 0;
    while k < n
        invariant
            n == fields@.len(),
            k <= n,
            key_owned@ == key@,
            lookup(fields@, key@) == lookup_from(fields@, key@, k as int),
        decreases n - k,
    {
        let pair = &fields[k];
        if pair.0 == key_owned {
            return Some(&pair.1);
        }
        k += 1;
    }
    None
}

/// Decode a user record from a structured data value, reporting a
/// shape mismatch on any value that does not carry the three record
/// fields with the expected types.
pub fn user_from_value(v: &JsonValue) -> (r: Result<User, ShapeError>)
    ensures
        r is Ok <==> user_record_shape(*v),
        r matches Ok(u) ==> {
            &&& u.id as int == record_id(*v)
            &&& u.name@ == record_name(*v)
            &&& u.email@ == record_email(*v)
        },
{
    let fields = match v {
        JsonValue::Object(fields) => fields,
        _ => {
            return Err(ShapeError);
        },
    };
    let id: u32 = match find_field(fields, "id") {
        Some(JsonValue::Num(m)) => {
            if *m < 0 || *m > u32::MAX as i64 {
                return Err(ShapeError);
            }
            *m as u32
        },
        _ => {
            return Err(ShapeError);
        },
    };
    let name: String = match find_field(fields, "name") {
        Some(JsonValue::Text(s)) => s.clone(),
        _ => {
            return Err(ShapeError);
        },
    };
    let email: String = match find_field(fields, "email") {
        Some(JsonValue::Text(s)) => s.clone(),
        _ => {
            return Err(ShapeError);
        },
    };
    Ok(User { id, name, email })
}

/// Serialise-then-deserialise round trip: a value that encodes a user
/// record has user-record shape, and decoding it yields the identical
/// id, name, and email.
pub proof fn lemma_user_value_round_trip(u: User, v: JsonValue)
    requires
        encodes_user(v, u),
    ensures
        user_record_shape(v),
        record_id(v) == u.id as int,
        record_name(v) == u.name@,
        record_email(v) == u.email@,
{
    reveal_strlit("id");
    reveal_strlit("name");
    reveal_strlit("email");
    let fields = v->Object_0@;
    assert("id"@.len() == 2 && "name"@.len() == 4 && "email"@.len() == 5);
    reveal_with_fuel(lookup_from, 4);
    assert(lookup(fields, "id"@) == Some(fields[0].1));
    assert(lookup(fields, "name"@) == Some(fields[1].1));
    assert(lookup(fields, "email"@) == Some(fields[2].1));
}

} // verus!
