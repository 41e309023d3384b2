//! The library's own model of a JSON value, as the event stream delivers it,
//! and the lookups that the status filters and the log views make in it.

use vstd::prelude::*;
use crate::text::str_eq;

verus! {

/// A JSON number in the three forms that a parsed number takes: a
/// non-negative integer, a negative integer, or a floating-point number kept
/// as the text that the parser's own printer gives for it.
#[derive(Debug)]
pub enum JsonNumber {
    PosInt(u64),
    NegInt(i64),
    Float(String),
}

/// A JSON value. An object keeps its members in the order in which the parser
/// hands them out, each key once.
#[derive(Debug)]
pub enum Json {
    Null,
    Bool(bool),
    Number(JsonNumber),
    String(String),
    Array(Vec<Json>),
    Object(Vec<(String, Json)>),
}

/// The value stored under `key` among the members `entries`: the first member
/// with that key.
pub open spec fn member(entries: Seq<(String, Json)>, key: Seq<char>) -> Option<Json>
    decreases entries.len(),
{
    if entries.len() == 0 {
        None
    } else if entries[0].0@ == key {
        Some(entries[0].1)
    } else {
        member(entries.drop_first(), key)
    }
}

impl Json {
    /// The member `key` of an object; nothing for any other value.
    pub open spec fn spec_get(self, key: Seq<char>) -> Option<Json> {
        match self {
            Json::Object(entries) => member(entries@, key),
            _ => None,
        }
    }

    /// The value as an unsigned integer, where it is a non-negative integer.
    pub open spec fn spec_as_u64(self) -> Option<u64> {
        match self {
            Json::Number(JsonNumber::PosInt(n)) => Some(n),
            _ => None,
        }
    }

    /// The characters of a string value.
    pub open spec fn spec_as_str(self) -> Option<Seq<char>> {
        match self {
            Json::String(s) => Some(s@),
            _ => None,
        }
    }

    /// Looks up the member `key` of an object (`Value::get` with a key).
    pub fn get(&self, key: &str) -> (r: Option<&Json>)
        ensures
            match r {
                Some(v) => self.spec_get(key@) == Some(*v),
                None => self.spec_get(key@) is None,
            },
    {
        match self {
            Json::Object(entries) => {
                let mut i: usize = 0;
                assert(entries@.skip(0) =~= entries@);
                while i < entries.len()
                    invariant
                        i <= entries@.len(),
                        self.spec_get(key@) == member(entries@, key@),
                        member(entries@, key@) == member(entries@.skip(i as int), key@),
                    decreases entries@.len() - i,
                {
                    let ghost rest = entries@.skip(i as int);
                    assert(rest.drop_first() =~= entries@.skip(i + 1));
                    assert(rest[0] == entries@[i as int]);
                    if str_eq(entries[i].0.as_str(), key) {
                        return Some(&entries[i].1);
                    }
                    i = i + 1;
                }
                None
            },
            _ => None,
        }
    }

    /// The value as an unsigned integer (`Value::as_u64`).
    pub fn as_u64(&self) -> (r: Option<u64>)
        ensures
            r == self.spec_as_u64(),
    {
        match self {
            Json::Number(JsonNumber::PosInt(n)) => Some(*n),
            _ => None,
        }
    }

    /// The text of a string value (`Value::as_str`).
    pub fn as_str(&self) -> (r: Option<&str>)
        ensures
            match r {
                Some(s) => self.spec_as_str() == Some(s@),
                None => self.spec_as_str() is None,
            },
    {
        match self {
            Json::String(s) => Some(s.as_str()),
            _ => None,
        }
    }
}

/// serde_json's JSON value, carried only inside the printers below.
#[verifier::external_type_specification]
#[verifier::external_body]
pub struct ExSerdeValue(serde_json::Value);

/// The same value as serde_json's `Value`, variant for variant (a float is
/// read back from the text that serde_json printed for it).
///
/// Trusted as a conversion only: it claims nothing, and its result reaches
/// nothing but the two printers below.
#[verifier::external_body]
fn serde_value(j: &Json) -> serde_json::Value {
    match j {
        Json::Null => serde_json::Value::Null,
        Json::Bool(b) => serde_json::Value::Bool(*b),
        Json::Number(JsonNumber::PosInt(n)) => serde_json::Value::from(*n),
        Json::Number(JsonNumber::NegInt(n)) => serde_json::Value::from(*n),
        Json::Number(JsonNumber::Float(t)) => serde_json::from_str(t).unwrap_or(serde_json::Value::Null),
        Json::String(s) => serde_json::Value::String(s.clone()),
        Json::Array(items) => serde_json::Value::Array(items.iter().map(serde_value).collect()),
        Json::Object(m) => serde_json::Value::Object(m.iter().map(|(k, v)| (k.clone(), serde_value(v))).collect()),
    }
}

/// The one-line JSON text of a value, as serde_json prints it.
pub uninterp spec fn compact_json_text(j: Json) -> Seq<char>;

/// serde_json's `Value::to_string` (its compact printer).
///
/// Trusted: the text is a function of the value alone; the contract names it
/// and does not spell out serde_json's printing (escapes, number forms).
#[verifier::external_body]
pub(crate) fn compact_json(j: &Json) -> (r: String)
    ensures
        r@ == compact_json_text(*j),
{
    serde_value(j).to_string()
}

/// The pretty-printed JSON text of a value (two spaces per level), as
/// serde_json prints it, where printing succeeds.
pub uninterp spec fn pretty_json_text(j: Json) -> Option<Seq<char>>;

/// serde_json's `to_string_pretty`.
///
/// Trusted: whether there is a text, and the text, are functions of the value
/// alone; the contract names them and does not spell out the printing.
#[verifier::external_body]
pub(crate) fn pretty_json(j: &Json) -> (r: Option<String>)
    ensures
        match r {
            Some(t) => pretty_json_text(*j) == Some(t@),
            None => pretty_json_text(*j) is None,
        },
{
    serde_json::to_string_pretty(&serde_value(j)).ok()
}

/// The HTTP status that an event reports: the unsigned integer under
/// `response.status`, where there is one.
pub open spec fn response_status(event: Json) -> Option<u64> {
    match event.spec_get("response"@) {
        Some(response) => match response.spec_get("status"@) {
            Some(status) => status.spec_as_u64(),
            None => None,
        },
        None => None,
    }
}

/// Reads `response.status` of an event as an unsigned integer.
pub fn event_response_status(event: &Json) -> (r: Option<u64>)
    ensures
        r == response_status(*event),
{
    match event.get("response") {
        Some(response) => match response.get("status") {
            Some(status) => status.as_u64(),
            None => None,
        },
        None => None,
    }
}

} // verus!
