//! A small model of the JSON values that appear on the wire.
//!
//! The exchange frames are JSON arrays whose elements are unsigned integers,
//! string-encoded decimals, nulls, and nested arrays. Anything else (objects,
//! booleans, floats, negative numbers) never carries data this client reads,
//! so it is folded into the `Other` variant and rejected by the decoders.

use vstd::prelude::*;

verus! {

/// An inbound JSON value, reduced to the shapes the wire format uses.
#[derive(Debug)]
pub enum JsonVal {
    Null,
    UInt(u64),
    Str(String),
    Arr(Vec<JsonVal>),
    Other,
}

/// The mathematical form of a [`JsonVal`].
pub enum JsonV {
    Null,
    UInt(u64),
    Str(Seq<char>),
    Arr(Seq<JsonV>),
    Other,
}

/// The mathematical form of one value.
pub open spec fn json_view(v: JsonVal) -> JsonV
    decreases v,
{
    match v {
        JsonVal::Null => JsonV::Null,
        JsonVal::UInt(u) => JsonV::UInt(u),
        JsonVal::Str(s) => JsonV::Str(s@),
        JsonVal::Arr(items) => JsonV::Arr(json_views(items@)),
        JsonVal::Other => JsonV::Other,
    }
}

/// The mathematical form of a sequence of values, element by element.
pub open spec fn json_views(s: Seq<JsonVal>) -> Seq<JsonV>
    decreases s,
{
    if s.len() == 0 {
        Seq::empty()
    } else {
        json_views(s.drop_last()).push(json_view(s.last()))
    }
}

impl View for JsonVal {
    type V = JsonV;

    open spec fn view(&self) -> JsonV {
        json_view(*self)
    }
}

impl JsonV {
    /// An unsigned integer small enough for a `u32` field.
    pub open spec fn is_u32(self) -> bool {
        self matches JsonV::UInt(u) && u <= u32::MAX
    }

    /// The integer payload, narrowed to `u32`.
    pub open spec fn u32_val(self) -> u32
        recommends
            self.is_u32(),
    {
        match self {
            JsonV::UInt(u) => u as u32,
            _ => arbitrary(),
        }
    }

    /// The string payload.
    pub open spec fn str_val(self) -> Seq<char>
        recommends
            self is Str,
    {
        match self {
            JsonV::Str(s) => s,
            _ => arbitrary(),
        }
    }
}

impl JsonVal {
    /// The string payload, copied out; `None` for every other variant.
    pub fn str_of(&self) -> (r: Option<String>)
        ensures
            r matches Some(s) ==> self@ is Str && s@ == self@.str_val(),
            r is None ==> !(self@ is Str),
    {
        match self {
            JsonVal::Str(s) => Some(s.clone()),
            _ => None,
        }
    }

    /// The integer payload when it fits a `u32`; `None` otherwise.
    pub fn u32_of(&self) -> (r: Option<u32>)
        ensures
            r matches Some(u) ==> self@.is_u32() && u == self@.u32_val(),
            r is None ==> !self@.is_u32(),
    {
        match self {
            JsonVal::UInt(u) => {
                if *u <= u32::MAX as u64 {
                    Some(*u as u32)
                } else {
                    None
                }
            },
            _ => None,
        }
    }
}

/// `json_views` maps a sequence element by element.
pub proof fn lemma_json_views(s: Seq<JsonVal>)
    ensures
        json_views(s).len() == s.len(),
        forall|i: int| 0 <= i < s.len() ==> json_views(s)[i] == json_view(s[i]),
    decreases s.len(),
{
    if s.len() > 0 {
        lemma_json_views(s.drop_last());
    }
}

#[verifier::external_type_specification]
#[verifier::external_body]
pub struct ExValue(serde_json::Value);

/// What parsing a text as one JSON document yields; the result is a function
/// of the text alone.
pub uninterp spec fn parsed_json(s: Seq<char>) -> Option<JsonV>;

/// Relies on serde_json::Value: tells its variants apart, one arm each.
/// Numbers that are not unsigned integers, booleans and objects carry no
/// data this client reads and become `Other`.
#[verifier::external_body]
fn from_value(v: serde_json::Value) -> JsonVal {
    match v {
        serde_json::Value::Null => JsonVal::Null,
        serde_json::Value::Number(n) => match n.as_u64() {
            Some(u) => JsonVal::UInt(u),
            None => JsonVal::Other,
        },
        serde_json::Value::String(s) => JsonVal::Str(s),
        serde_json::Value::Array(items) => {
            JsonVal::Arr(items.into_iter().map(from_value).collect())
        },
        _ => JsonVal::Other,
    }
}

/// Relies on serde_json::from_str::<serde_json::Value>: parses the text as
/// one generic JSON document, or fails; the outcome depends on the text
/// alone.
#[verifier::external_body]
pub fn parse_json(text: &str) -> (r: Option<JsonVal>)
    ensures
        r matches Some(v) ==> parsed_json(text@) == Some(v@),
        r is None ==> parsed_json(text@) is None,
{
    match serde_json::from_str::<serde_json::Value>(text) {
        Ok(v) => Some(from_value(v)),
        Err(_) => None,
    }
}

} // verus!
