//! The JSON values that travel over mpv's IPC socket.
use vstd::prelude::*;

use crate::error::MrcError;
use crate::text::{decimal, decimal_string, str_eq};

verus! {

/// A JSON number, kept as the text serde_json writes for it, so that no
/// precision is lost and no float is needed. One is made only from a `usize`
/// or from a number serde_json has read, so its text always reads back as a
/// JSON number.
#[derive(Debug, PartialEq)]
pub struct JsonNumber {
    text: String,
}

impl View for JsonNumber {
    type V = Seq<char>;

    closed spec fn view(&self) -> Seq<char> {
        self.text@
    }
}

impl JsonNumber {
    /// The number `n`, written in decimal.
    pub fn from_usize(n: usize) -> (r: JsonNumber)
        ensures
            r@ == decimal(n as nat),
    {
        JsonNumber { text: decimal_string(n as u64) }
    }

    /// The number's text.
    pub fn as_str(&self) -> (s: &str)
        ensures
            s@ == self@,
    {
        self.text.as_str()
    }
}

/// A JSON value as the library holds it.
#[derive(Debug, PartialEq)]
pub enum JsonValue {
    /// `null`.
    Null,
    /// `true` or `false`.
    Bool(bool),
    /// A number.
    Number(JsonNumber),
    /// A string.
    Str(String),
    /// An array.
    Array(Vec<JsonValue>),
    /// An object, as its members in order.
    Object(Vec<(String, JsonValue)>),
}

/// The mathematical model of a JSON value.
pub enum Json {
    /// `null`.
    Null,
    /// A boolean.
    Bool(bool),
    /// A number, as the text of its literal.
    Number(Seq<char>),
    /// A string.
    Str(Seq<char>),
    /// An array.
    Array(Seq<Json>),
    /// An object's member names and, at the same indices, their values.
    Object(Seq<Seq<char>>, Seq<Json>),
}

impl View for JsonValue {
    type V = Json;

    open spec fn view(&self) -> Json
        decreases self,
    {
        match self {
            JsonValue::Null => Json::Null,
            JsonValue::Bool(b) => Json::Bool(*b),
            JsonValue::Number(n) => Json::Number(n@),
            JsonValue::Str(s) => Json::Str(s@),
            JsonValue::Array(items) => Json::Array(
                Seq::new(
                    items@.len(),
                    |i: int|
                        if 0 <= i < items@.len() {
                            items@[i].view()
                        } else {
                            Json::Null
                        },
                ),
            ),
            JsonValue::Object(fields) => Json::Object(
                Seq::new(fields@.len(), |i: int| fields@[i].0@),
                Seq::new(
                    fields@.len(),
                    |i: int|
                        if 0 <= i < fields@.len() {
                            fields@[i].1.view()
                        } else {
                            Json::Null
                        },
                ),
            ),
        }
    }
}

/// The value of the first member named `key`, given an object's member names
/// and values.
pub open spec fn member(keys: Seq<Seq<char>>, values: Seq<Json>, key: Seq<char>) -> Option<Json>
    decreases keys.len(),
{
    if keys.len() == 0 || values.len() == 0 {
        None
    } else if keys[0] == key {
        Some(values[0])
    } else {
        member(keys.drop_first(), values.drop_first(), key)
    }
}

/// `v[key]` when `v` is an object that has a member named `key`, as `Value::get` reads it.
pub open spec fn json_get(v: Json, key: Seq<char>) -> Option<Json> {
    match v {
        Json::Object(keys, values) => member(keys, values, key),
        _ => None,
    }
}

/// The text of `v` when it is a string, as `Value::as_str` reads it.
pub open spec fn json_as_str(v: Option<Json>) -> Option<Seq<char>> {
    match v {
        Some(Json::Str(s)) => Some(s),
        _ => None,
    }
}

/// The boolean `v` holds when it is one, as `Value::as_bool` reads it.
pub open spec fn json_as_bool(v: Option<Json>) -> Option<bool> {
    match v {
        Some(Json::Bool(b)) => Some(b),
        _ => None,
    }
}

/// The view of an optional value.
pub open spec fn opt_view(v: Option<JsonValue>) -> Option<Json> {
    match v {
        Some(x) => Some(x@),
        None => None,
    }
}

/// The views of a sequence of values.
pub open spec fn views(v: Seq<JsonValue>) -> Seq<Json> {
    Seq::new(v.len(), |i: int| v[i]@)
}

/// The names of an object's members.
pub open spec fn member_names(fields: Seq<(String, JsonValue)>) -> Seq<Seq<char>> {
    Seq::new(fields.len(), |i: int| fields[i].0@)
}

/// The values of an object's members.
pub open spec fn member_values(fields: Seq<(String, JsonValue)>) -> Seq<Json> {
    Seq::new(fields.len(), |i: int| fields[i].1@)
}

/// The view of an array or object is made of the views of its parts.
pub proof fn lemma_compound_view(v: JsonValue)
    ensures
        v matches JsonValue::Array(items) ==> v@ == Json::Array(views(items@)),
        v matches JsonValue::Object(fields) ==> v@ == Json::Object(
            member_names(fields@),
            member_values(fields@),
        ),
{
    match v {
        JsonValue::Array(items) => {
            if let Json::Array(a) = v@ {
                assert(a =~= views(items@));
            }
        },
        JsonValue::Object(fields) => {
            if let Json::Object(k, a) = v@ {
                assert(k =~= member_names(fields@));
                assert(a =~= member_values(fields@));
            }
        },
        _ => {},
    }
}

proof fn lemma_member_skip(keys: Seq<Seq<char>>, values: Seq<Json>, key: Seq<char>, i: int)
    requires
        0 <= i < keys.len(),
        keys.len() == values.len(),
        keys[i] != key,
    ensures
        member(keys.skip(i), values.skip(i), key) == member(keys.skip(i + 1), values.skip(i + 1), key),
{
    assert(keys.skip(i).drop_first() == keys.skip(i + 1));
    assert(values.skip(i).drop_first() == values.skip(i + 1));
}

impl JsonValue {
    /// The index of the first member named `key`, when `self` is an object that has one.
    fn member_index(&self, key: &str) -> (r: Option<usize>)
        ensures
            match r {
                Some(i) => self is Object && i < self->Object_0@.len() && json_get(self@, key@)
                    == Some(self->Object_0@[i as int].1@),
                None => json_get(self@, key@) is None,
            },
    {
        match self {
            JsonValue::Object(fields) => {
                let ghost keys = member_names(fields@);
                let ghost values = member_values(fields@);
                proof {
                    lemma_compound_view(*self);
                }
                assert(keys.skip(0) == keys);
                assert(values.skip(0) == values);
                let mut i: usize = 0;
                while i < fields.len()
                    invariant
                        i <= fields@.len(),
                        keys == member_names(fields@),
                        values == member_values(fields@),
                        self@ == Json::Object(keys, values),
                        *self == JsonValue::Object(*fields),
                        member(keys, values, key@) == member(keys.skip(i as int), values.skip(i as int), key@),
                    decreases fields@.len() - i,
                {
                    if str_eq(fields[i].0.as_str(), key) {
                        assert(keys.skip(i as int)[0] == keys[i as int]);
                        assert(values.skip(i as int)[0] == values[i as int]);
                        return Some(i);
                    }
                    proof {
                        lemma_member_skip(keys, values, key@, i as int);
                    }
                    i = i + 1;
                }
                assert(keys.skip(i as int).len() == 0);
                None
            },
            _ => None,
        }
    }

    /// `self[key]` when `self` is an object that has a member named `key`.
    pub fn get(&self, key: &str) -> (r: Option<&JsonValue>)
        ensures
            match r {
                Some(v) => json_get(self@, key@) == Some(v@),
                None => json_get(self@, key@) is None,
            },
    {
        match self.member_index(key) {
            Some(i) => match self {
                JsonValue::Object(fields) => Some(&fields[i].1),
                _ => None,
            },
            None => None,
        }
    }

    /// Takes `self[key]` out of `self`, when `self` is an object that has a member named `key`.
    pub fn take(self, key: &str) -> (r: Option<JsonValue>)
        ensures
            opt_view(r) == json_get(self@, key@),
    {
        match self.member_index(key) {
            Some(i) => match self {
                JsonValue::Object(mut fields) => {
                    let (_, v) = fields.swap_remove(i);
                    Some(v)
                },
                _ => None,
            },
            None => None,
        }
    }

    /// The text of a string value.
    pub fn as_str(&self) -> (r: Option<&String>)
        ensures
            match r {
                Some(s) => self@ == Json::Str(s@),
                None => !(self@ is Str),
            },
    {
        match self {
            JsonValue::Str(s) => Some(s),
            _ => None,
        }
    }

    /// The boolean of a boolean value.
    pub fn as_bool(&self) -> (r: Option<bool>)
        ensures
            match r {
                Some(b) => self@ == Json::Bool(b),
                None => !(self@ is Bool),
            },
    {
        match self {
            JsonValue::Bool(b) => Some(*b),
            _ => None,
        }
    }

    /// The items of an array value.
    pub fn as_array(&self) -> (r: Option<&Vec<JsonValue>>)
        ensures
            match r {
                Some(items) => self@ == Json::Array(views(items@)),
                None => !(self@ is Array),
            },
    {
        match self {
            JsonValue::Array(items) => {
                proof {
                    lemma_compound_view(*self);
                }
                Some(items)
            },
            _ => None,
        }
    }
}

/// A serde_json value, carried opaquely between the wrappers below.
#[verifier::external_type_specification]
#[verifier::external_body]
pub struct ExSerdeValue(serde_json::Value);

/// What `serde_json::from_str::<Value>` reads from `text`, as the library's
/// JSON value; `None` when the text is not JSON.
pub uninterp spec fn json_parse(text: Seq<char>) -> Option<Json>;

/// The compact JSON text `serde_json::to_string` writes for `v`.
pub uninterp spec fn json_text(v: Json) -> Seq<char>;

/// The pretty-printed JSON text `serde_json::to_string_pretty` writes for `v`.
pub uninterp spec fn json_pretty(v: Json) -> Seq<char>;

/// The text `Value`'s `Display` writes for `v` with `{}`.
pub uninterp spec fn json_display(v: Json) -> Seq<char>;

/// The library's value of a serde_json value, member for member; a number
/// keeps the text serde_json writes for it.
#[verifier::external_body]
fn from_serde(v: serde_json::Value) -> JsonValue {
    match v {
        serde_json::Value::Null => JsonValue::Null,
        serde_json::Value::Bool(b) => JsonValue::Bool(b),
        serde_json::Value::Number(n) => JsonValue::Number(JsonNumber { text: n.to_string() }),
        serde_json::Value::String(s) => JsonValue::Str(s),
        serde_json::Value::Array(a) => JsonValue::Array(a.into_iter().map(from_serde).collect()),
        serde_json::Value::Object(m) => JsonValue::Object(
            m.into_iter().map(|(k, x)| (k, from_serde(x))).collect(),
        ),
    }
}

/// The serde_json value of a library value, member for member. A number's
/// text was written by serde_json or is a decimal `usize`, so it reads back;
/// the `null` fallback is never taken.
#[verifier::external_body]
fn to_serde(v: &JsonValue) -> serde_json::Value {
    match v {
        JsonValue::Null => serde_json::Value::Null,
        JsonValue::Bool(b) => serde_json::Value::Bool(*b),
        JsonValue::Number(n) => n.text.parse().map(serde_json::Value::Number).unwrap_or_default(),
        JsonValue::Str(s) => serde_json::Value::String(s.clone()),
        JsonValue::Array(a) => serde_json::Value::Array(a.iter().map(to_serde).collect()),
        JsonValue::Object(m) => serde_json::Value::Object(
            m.iter().map(|(k, x)| (k.clone(), to_serde(x))).collect(),
        ),
    }
}

/// Reads `text` with `serde_json::from_str::<Value>`: it succeeds exactly when
/// the text is JSON, and the value is then `json_parse(text)`.
#[verifier::external_body]
pub(crate) fn parse_json(text: &str) -> (r: Result<JsonValue, serde_json::Error>)
    ensures
        r is Ok <==> json_parse(text@) is Some,
        r matches Ok(v) ==> json_parse(text@) == Some(v@),
{
    match serde_json::from_str::<serde_json::Value>(text) {
        Ok(v) => Ok(from_serde(v)),
        Err(e) => Err(e),
    }
}

/// Writes `v` with `serde_json::to_string`, which writes `json_text(v)` and
/// does not fail on a `Value`: it writes into a `Vec` and a `Value`'s maps
/// have string keys.
#[verifier::external_body]
pub(crate) fn write_json(v: &JsonValue) -> (r: Result<String, serde_json::Error>)
    ensures
        r is Ok,
        r matches Ok(s) ==> s@ == json_text(v@),
{
    serde_json::to_string(&to_serde(v))
}

/// Writes `v` with `serde_json::to_string_pretty`, which writes
/// `json_pretty(v)` and, as `to_string`, does not fail on a `Value`.
#[verifier::external_body]
pub(crate) fn write_json_pretty(v: &JsonValue) -> (r: Result<String, serde_json::Error>)
    ensures
        r is Ok,
        r matches Ok(s) ==> s@ == json_pretty(v@),
{
    serde_json::to_string_pretty(&to_serde(v))
}

/// Reads `text` as JSON: the value serde_json reads, or a `ParseError` when
/// the text is not JSON.
pub fn read_json(text: &str) -> (r: Result<JsonValue, MrcError>)
    ensures
        match r {
            Ok(v) => json_parse(text@) == Some(v@),
            Err(e) => json_parse(text@) is None && e is ParseError,
        },
{
    match parse_json(text) {
        Ok(v) => Ok(v),
        Err(e) => Err(MrcError::ParseError(e)),
    }
}

/// The compact JSON text of `v`, as `serde_json::to_string` writes it.
pub(crate) fn compact_text(v: &JsonValue) -> (s: String)
    ensures
        s@ == json_text(v@),
{
    match write_json(v) {
        Ok(s) => s,
        Err(_) => String::new(),
    }
}

/// The pretty-printed JSON text of `v`, as `serde_json::to_string_pretty` writes it.
pub(crate) fn pretty_text(v: &JsonValue) -> (s: String)
    ensures
        s@ == json_pretty(v@),
{
    match write_json_pretty(v) {
        Ok(s) => s,
        Err(_) => String::new(),
    }
}

/// Writes `v` as `Value`'s `Display` does with `{}`.
#[verifier::external_body]
pub(crate) fn display_json(v: &JsonValue) -> (s: String)
    ensures
        s@ == json_display(v@),
{
    format!("{}", to_serde(v))
}

} // verus!
