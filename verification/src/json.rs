//! A minimal model of an already-parsed JSON document.
//!
//! The store consumes a document that an external JSON library has already
//! parsed; this enum holds exactly the shapes the recipe format uses, as
//! plain values that specifications can speak about. An object is an ordered
//! list of key/value pairs; when a key repeats, the first occurrence wins.

use vstd::prelude::*;

verus! {

/// An already-parsed JSON value, as handed to the recipe store.
pub enum JsonValue {
    /// A JSON null.
    Null,
    /// A JSON boolean.
    Bool(bool),
    /// A JSON string.
    Str(String),
    /// A JSON array.
    Array(Vec<JsonValue>),
    /// A JSON object: key/value pairs in document order.
    Object(Vec<(String, JsonValue)>),
    /// Any other JSON value (a number); the recipe format does not use them.
    Other,
}

/// The value of the first pair in `fields` whose key reads `name`,
/// or `None` when no key does.
pub open spec fn field_lookup(fields: Seq<(String, JsonValue)>, name: Seq<char>) -> Option<JsonValue>
    decreases fields.len(),
{
    if fields.len() == 0 {
        None
    } else if fields[0].0@ == name {
        Some(fields[0].1)
    } else {
        field_lookup(fields.drop_first(), name)
    }
}

impl JsonValue {
    /// Looks `name` up among this value's object fields: the first pair whose
    /// key reads `name` decides. Returns `None` when this value is not an
    /// object or no key matches.
    #[verifier::loop_isolation(false)]
    pub fn get_field<'a>(&'a self, name: &str) -> (r: Option<&'a JsonValue>)
        ensures
            match self {
                JsonValue::Object(fields) => {
                    match r {
                        Some(v) => field_lookup(fields@, name@) == Some(*v),
                        None => field_lookup(fields@, name@) is None,
                    }
                },
                _ => r is None,
            },
    {
        match self {
            JsonValue::Object(fields) => {
                let n = fields.len();
                assert(fields@.skip(0) =~= fields@);
                for i in 0..n
                    invariant
                        n == fields@.len(),
                        field_lookup(fields@, name@) == field_lookup(fields@.skip(i as int), name@),
                {
                    assert(fields@.skip(i as int)[0] == fields@[i as int]);
                    if string_eq_str(&fields[i].0, name) {
                        assert(field_lookup(fields@.skip(i as int), name@)
                            == Some(fields@[i as int].1));
                        return Some(&fields[i].1);
                    }
                    assert(fields@.skip(i as int).drop_first() =~= fields@.skip(i + 1));
                }
                assert(fields@.skip(n as int).len() == 0);
                None
            },
            _ => None,
        }
    }
}

/// Whether `a` and `b` read the same characters.
fn string_eq_str(a: &String, b: &str) -> (r: bool)
    ensures
        r == (a@ == b@),
{
    let bs: String = b.to_owned();
    a.eq(&bs)
}

} // verus!
