//! The JSON value tree that requests are decoded from, and the small value
//! types of the protocol: version marker, request id and parameters.
use vstd::prelude::*;

verus! {

/// A parsed JSON value.
///
/// Integers are held exactly; any other number keeps its textual form.
/// An object is its list of members in the order they were read.
#[derive(Debug, PartialEq)]
pub enum JsonValue {
    Null,
    Bool(bool),
    Integer(i128),
    Decimal(String),
    Str(String),
    Array(Vec<JsonValue>),
    Object(Vec<(String, JsonValue)>),
}

/// The protocol version marker; the only accepted version is "2.0".
#[derive(Debug, PartialEq, Eq, Structural, Clone, Copy)]
pub enum Version {
    V2,
}

/// A request identifier: a string, an integer or null.
#[derive(Debug, PartialEq)]
pub enum Id {
    Null,
    Str(String),
    Num(i128),
}

/// Call parameters: positional (an array) or named (an object).
#[derive(Debug, PartialEq)]
pub enum Params {
    Array(Vec<JsonValue>),
    Object(Vec<(String, JsonValue)>),
}

/// Number of members whose key is `k`.
pub open spec fn key_count(members: Seq<(String, JsonValue)>, k: Seq<char>) -> nat
    decreases members.len(),
{
    if members.len() == 0 {
        0
    } else {
        key_count(members.drop_last(), k) + if members.last().0@ == k {
            1nat
        } else {
            0nat
        }
    }
}

/// The value of the last member whose key is `k`, if there is one.
pub open spec fn find_key(members: Seq<(String, JsonValue)>, k: Seq<char>) -> Option<JsonValue>
    decreases members.len(),
{
    if members.len() == 0 {
        None
    } else if members.last().0@ == k {
        Some(members.last().1)
    } else {
        find_key(members.drop_last(), k)
    }
}

/// A key that is absent has no value.
pub proof fn lemma_absent_key(members: Seq<(String, JsonValue)>, k: Seq<char>)
    requires
        find_key(members, k) is None,
    ensures
        key_count(members, k) == 0,
    decreases members.len(),
{
    if members.len() > 0 {
        lemma_absent_key(members.drop_last(), k);
    }
}

/// The version marker that `v` decodes to: only the text "2.0" is accepted.
pub open spec fn version_of(v: JsonValue) -> Option<Version> {
    match v {
        JsonValue::Str(s) => if s@ == "2.0"@ {
            Some(Version::V2)
        } else {
            None
        },
        _ => None,
    }
}

/// The id that `v` decodes to: a string, an integer or null.
pub open spec fn id_of(v: JsonValue) -> Option<Id> {
    match v {
        JsonValue::Null => Some(Id::Null),
        JsonValue::Str(s) => Some(Id::Str(s)),
        JsonValue::Integer(n) => Some(Id::Num(n)),
        _ => None,
    }
}

/// The parameters that `v` decodes to: an array or an object.
pub open spec fn params_of(v: JsonValue) -> Option<Params> {
    match v {
        JsonValue::Array(items) => Some(Params::Array(items)),
        JsonValue::Object(members) => Some(Params::Object(members)),
        _ => None,
    }
}

impl Version {
    /// Decodes the version marker; fails on anything but the string "2.0".
    pub fn from_json(v: &JsonValue) -> (r: Option<Version>)
        ensures
            r == version_of(*v),
    {
        match v {
            JsonValue::Str(s) => {
                let expected = "2.0".to_owned();
                if s.eq(&expected) {
                    Some(Version::V2)
                } else {
                    None
                }
            },
            _ => None,
        }
    }
}

impl Id {
    /// Decodes an id; fails on anything but a string, an integer or null.
    pub fn from_json(v: JsonValue) -> (r: Option<Id>)
        ensures
            r == id_of(v),
    {
        match v {
            JsonValue::Null => Some(Id::Null),
            JsonValue::Str(s) => Some(Id::Str(s)),
            JsonValue::Integer(n) => Some(Id::Num(n)),
            _ => None,
        }
    }
}

impl Params {
    /// Decodes parameters; fails on anything but an array or an object.
    pub fn from_json(v: JsonValue) -> (r: Option<Params>)
        ensures
            r == params_of(v),
    {
        match v {
            JsonValue::Array(items) => Some(Params::Array(items)),
            JsonValue::Object(members) => Some(Params::Object(members)),
            _ => None,
        }
    }
}

} // verus!
