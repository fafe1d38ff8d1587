//! A model of JSON documents that holds what the index logic reads.
use vstd::prelude::*;
use crate::text::str_equal;

verus! {

/// A JSON value. A number keeps only its value as an unsigned 64-bit integer,
/// where it is one. An object keeps its members in the parser's order.
#[derive(Debug)]
pub enum Json {
    Null,
    Bool(bool),
    Number(Option<u64>),
    Str(String),
    Array(Vec<Json>),
    Object(Vec<(String, Json)>),
}

/// The JSON value that a byte string parses to, if it is a JSON document.
pub uninterp spec fn json_decoded(b: Seq<u8>) -> Option<Json>;

#[verifier::external_type_specification]
#[verifier::external_body]
pub struct ExValue(serde_json::Value);

/// Relies on `serde_json::from_slice`: the parsed document, kept as a value of
/// this crate's model, or nothing where the bytes are not a JSON document.
#[verifier::external_body]
pub(crate) fn parse_json(b: &[u8]) -> (r: Option<Json>)
    ensures
        r == json_decoded(b@),
{
    serde_json::from_slice::<serde_json::Value>(b).ok().map(|v| json_of_value(&v))
}

/// Moves a parsed `serde_json::Value` into the model, variant by variant;
/// the parser behind `parse_json` uses it.
#[verifier::external_body]
fn json_of_value(v: &serde_json::Value) -> Json {
    match v {
        serde_json::Value::Null => Json::Null,
        serde_json::Value::Bool(b) => Json::Bool(*b),
        serde_json::Value::Number(n) => Json::Number(n.as_u64()),
        serde_json::Value::String(s) => Json::Str(s.clone()),
        serde_json::Value::Array(a) => Json::Array(a.iter().map(json_of_value).collect()),
        serde_json::Value::Object(m) => Json::Object(
            m.iter().map(|(k, x)| (k.clone(), json_of_value(x))).collect(),
        ),
    }
}

/// Whether `i` is the first member of `m` named `key`.
pub open spec fn first_key_at(m: Seq<(String, Json)>, key: Seq<char>, i: int) -> bool {
    0 <= i < m.len() && m[i].0@ == key && forall|j: int| 0 <= j < i ==> (#[trigger] m[j].0)@ != key
}

/// The member `key` of an object; nothing for any other value.
pub open spec fn get(j: Json, key: Seq<char>) -> Option<Json> {
    match j {
        Json::Object(m) => if exists|i: int| first_key_at(m@, key, i) {
            Some(m@[choose|i: int| first_key_at(m@, key, i)].1)
        } else {
            None
        },
        _ => None,
    }
}

/// The text of a string value.
pub open spec fn text_of(j: Option<Json>) -> Option<Seq<char>> {
    match j {
        Some(Json::Str(s)) => Some(s@),
        _ => None,
    }
}

impl Json {
    /// The member `key` of an object.
    pub fn get(&self, key: &str) -> (r: Option<&Json>)
        ensures
            match r {
                Some(v) => get(*self, key@) == Some(*v),
                None => get(*self, key@) is None,
            },
    {
        match self {
            Json::Object(m) => {
                let mut i: usize = 0;
                while i < m.len()
                    invariant
                        *self == Json::Object(*m),
                        i <= m@.len(),
                        forall|j: int| 0 <= j < i ==> (#[trigger] m@[j].0)@ != key@,
                    decreases m@.len() - i,
                {
                    if str_equal(m[i].0.as_str(), key) {
                        assert(first_key_at(m@, key@, i as int));
                        proof {
                            let c = choose|c: int| first_key_at(m@, key@, c);
                            if c < i {
                                assert(m@[c].0@ != key@);
                            } else if c > i {
                                assert(m@[i as int].0@ != key@);
                            }
                            assert(c == i);
                            assert(get(*self, key@) == Some(m@[c].1));
                        }
                        let r = &m[i].1;
                        assert(*r == m@[i as int].1);
                        return Some(r);
                    }
                    i = i + 1;
                }
                None
            },
            _ => None,
        }
    }

    /// The text of a string value.
    pub fn as_str(&self) -> (r: Option<&String>)
        ensures
            match r {
                Some(s) => text_of(Some(*self)) == Some(s@),
                None => text_of(Some(*self)) is None,
            },
    {
        match self {
            Json::Str(s) => Some(s),
            _ => None,
        }
    }
}

/// Parses a JSON document; `None` where the bytes are not one.
pub fn decode_json(b: &[u8]) -> (r: Option<Json>)
    ensures
        r == json_decoded(b@),
{
    parse_json(b)
}

} // verus!
