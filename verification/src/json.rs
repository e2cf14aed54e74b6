use vstd::prelude::*;
use crate::text::str_eq;

verus! {

/// A JSON value as serde_json holds it: declared so that the parsing
/// wrapper can name it; nothing of it is read by verified code.
#[verifier::external_type_specification]
#[verifier::external_body]
pub struct ExJsonValue(serde_json::Value);

/// A JSON document held as plain values.
///
/// A number keeps what the readers of this library take from it: its value
/// where it is an integer that fits in `i64`, else nothing.  An object is a
/// list of entries, and a lookup takes the first entry with the key.  The
/// objects that `read_json` makes come sorted by key, each key once: where a
/// key repeats in the text, serde_json keeps its last value.
#[derive(Debug)]
pub enum Json {
    Null,
    Bool(bool),
    Number(Option<i64>),
    Str(String),
    Array(Vec<Json>),
    Object(Vec<(String, Json)>),
}

/// The value of the first entry with key `key`.
pub open spec fn lookup(entries: Seq<(String, Json)>, key: Seq<char>) -> Option<Json>
    decreases entries.len(),
{
    if entries.len() == 0 {
        None
    } else if entries[0].0@ == key {
        Some(entries[0].1)
    } else {
        lookup(entries.drop_first(), key)
    }
}

impl Json {
    /// The member `key` of an object; `None` for anything else.
    pub open spec fn get_spec(self, key: Seq<char>) -> Option<Json> {
        match self {
            Json::Object(entries) => lookup(entries@, key),
            _ => None,
        }
    }

    /// `value[key]`: the member `key` of an object, `Null` where there is none.
    pub open spec fn member(self, key: Seq<char>) -> Json {
        match self.get_spec(key) {
            Some(v) => v,
            None => Json::Null,
        }
    }

    /// `value[i]`: the element `i` of an array, `Null` where there is none.
    pub open spec fn element(self, i: int) -> Json {
        match self {
            Json::Array(items) => if 0 <= i < items@.len() {
                items@[i]
            } else {
                Json::Null
            },
            _ => Json::Null,
        }
    }

    /// `value.as_str()`, by its characters.
    pub open spec fn str_value(self) -> Option<Seq<char>> {
        match self {
            Json::Str(s) => Some(s@),
            _ => None,
        }
    }

    /// `value.as_i64()`.
    pub open spec fn i64_value(self) -> Option<i64> {
        match self {
            Json::Number(n) => n,
            _ => None,
        }
    }

    /// `value.as_array()`, by its elements.
    pub open spec fn array_value(self) -> Option<Seq<Json>> {
        match self {
            Json::Array(items) => Some(items@),
            _ => None,
        }
    }

    /// Looks up the member `key` of an object.
    pub fn get(&self, key: &str) -> (r: Option<&Json>)
        ensures
            match r {
                Some(v) => self.get_spec(key@) == Some(*v),
                None => self.get_spec(key@) is None,
            },
    {
        match self {
            Json::Object(entries) => {
                let n = entries.len();
                let mut i: usize = 0;
                assert(entries@.skip(0) =~= entries@);
                while i < n
                    invariant
                        i <= n,
                        n == entries@.len(),
                        lookup(entries@.skip(i as int), key@) == lookup(entries@, key@),
                        self.get_spec(key@) == lookup(entries@, key@),
                    decreases n - i,
                {
                    assert(entries@.skip(i as int).drop_first() =~= entries@.skip(i + 1));
                    assert(entries@.skip(i as int)[0] == entries@[i as int]);
                    if str_eq(entries[i].0.as_str(), key) {
                        assert(lookup(entries@.skip(i as int), key@) == Some(entries@[i as int].1));
                        return Some(&entries[i].1);
                    }
                    i = i + 1;
                }
                None
            },
            _ => None,
        }
    }

    /// The element `i` of an array.
    pub fn at(&self, i: usize) -> (r: Option<&Json>)
        ensures
            match r {
                Some(v) => *v == self.element(i as int) && self is Array && i < self->Array_0@.len(),
                None => self.element(i as int) == Json::Null && !(self is Array && i
                    < self->Array_0@.len()),
            },
    {
        match self {
            Json::Array(items) => if i < items.len() {
                Some(&items[i])
            } else {
                None
            },
            _ => None,
        }
    }

    /// The text of a string value.
    pub fn as_str(&self) -> (r: Option<&String>)
        ensures
            match r {
                Some(s) => self.str_value() == Some(s@),
                None => self.str_value() is None,
            },
    {
        match self {
            Json::Str(s) => Some(s),
            _ => None,
        }
    }

    /// The value of a number that is an integer fitting in `i64`.
    pub fn as_i64(&self) -> (r: Option<i64>)
        ensures
            r == self.i64_value(),
    {
        match self {
            Json::Number(n) => *n,
            _ => None,
        }
    }

    /// The elements of an array.
    pub fn as_array(&self) -> (r: Option<&Vec<Json>>)
        ensures
            match r {
                Some(v) => self.array_value() == Some(v@),
                None => self.array_value() is None,
            },
    {
        match self {
            Json::Array(items) => Some(items),
            _ => None,
        }
    }
}

/// Reads a JSON text: an error where the text is not JSON.
pub fn read_json(text: &str) -> (r: Result<Json, InvalidJson>)
    ensures
        match r {
            Ok(j) => json_text_value(text@) == Some(j),
            Err(_) => json_text_value(text@) is None,
        },
{
    match parse_json(text) {
        Some(j) => Ok(j),
        None => Err(InvalidJson),
    }
}

/// Follows `key` from an optional value, as chained `value[key]` does.
pub fn member_of<'a>(v: Option<&'a Json>, key: &str) -> (r: Option<&'a Json>)
    ensures
        match v {
            Some(j) => match r {
                Some(x) => j.get_spec(key@) == Some(*x),
                None => j.get_spec(key@) is None,
            },
            None => r is None,
        },
{
    match v {
        Some(j) => j.get(key),
        None => None,
    }
}

/// A text that is not JSON.
#[derive(Debug, Clone, Copy)]
pub struct InvalidJson;

/// The value that serde_json reads from a JSON text; `None` where the text
/// is not JSON.
pub uninterp spec fn json_text_value(text: Seq<char>) -> Option<Json>;

/// Reads a JSON text.
/// Trusted: `serde_json::from_str::<serde_json::Value>`, its error turned
/// into `None` and its value carried over into `Json` one node for one.
/// The contract names the result and says nothing more of it.
#[verifier::external_body]
pub(crate) fn parse_json(text: &str) -> (r: Option<Json>)
    ensures
        r == json_text_value(text@),
{
    serde_json::from_str::<serde_json::Value>(text).ok().map(json_from_serde)
}

/// Carries a serde_json value over into `Json`, node by node; used by
/// `parse_json` alone.  Trusted: it reads `serde_json::Value`'s variants and
/// `Number::as_i64`.
#[verifier::external_body]
fn json_from_serde(v: serde_json::Value) -> Json {
    match v {
        serde_json::Value::Null => Json::Null,
        serde_json::Value::Bool(b) => Json::Bool(b),
        serde_json::Value::Number(n) => Json::Number(n.as_i64()),
        serde_json::Value::String(s) => Json::Str(s),
        serde_json::Value::Array(a) => Json::Array(a.into_iter().map(json_from_serde).collect()),
        serde_json::Value::Object(m) => Json::Object(
            m.into_iter().map(|(k, x)| (k, json_from_serde(x))).collect(),
        ),
    }
}

} // verus!
