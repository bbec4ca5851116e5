//! A plain JSON value: what the MCP server, the effects and the persistent
//! key-value store exchange. Numbers keep the form in which they arrived:
//! non-negative and negative integers, or the decimal text of any other
//! number.

use crate::collections::{first_index, first_value, lemma_first_index};
use vstd::prelude::*;

verus! {

/// A JSON number.
pub enum JsonNumber {
    /// A non-negative integer.
    Pos(u64),
    /// A negative integer.
    Neg(i64),
    /// Any other number, by its decimal text.
    Decimal(String),
}

/// A JSON value. Objects keep their members in order.
pub enum Json {
    Null,
    Bool(bool),
    Number(JsonNumber),
    Str(String),
    Array(Vec<Json>),
    Object(Vec<(String, Json)>),
}

/// The mathematical model of a JSON number.
#[verifier::ext_equal]
pub enum NumberV {
    Pos(u64),
    Neg(i64),
    Decimal(Seq<char>),
}

/// The mathematical model of a JSON value.
#[verifier::ext_equal]
pub enum JsonV {
    Null,
    Bool(bool),
    Number(NumberV),
    Str(Seq<char>),
    Array(Seq<JsonV>),
    Object(Seq<(Seq<char>, JsonV)>),
}

impl View for JsonNumber {
    type V = NumberV;

    open spec fn view(&self) -> NumberV {
        match self {
            JsonNumber::Pos(n) => NumberV::Pos(*n),
            JsonNumber::Neg(n) => NumberV::Neg(*n),
            JsonNumber::Decimal(s) => NumberV::Decimal(s@),
        }
    }
}

impl Json {
    /// The mathematical model of this value.
    pub open spec fn model(self) -> JsonV
        decreases self,
    {
        match self {
            Json::Null => JsonV::Null,
            Json::Bool(b) => JsonV::Bool(b),
            Json::Number(n) => JsonV::Number(n@),
            Json::Str(s) => JsonV::Str(s@),
            Json::Array(items) => JsonV::Array(models(items@)),
            Json::Object(members) => JsonV::Object(member_models(members@)),
        }
    }
}

/// The models of a sequence of values.
pub open spec fn models(items: Seq<Json>) -> Seq<JsonV>
    decreases items,
{
    if items.len() == 0 {
        Seq::empty()
    } else {
        seq![items[0].model()] + models(items.drop_first())
    }
}

/// The models of a sequence of object members.
pub open spec fn member_models(members: Seq<(String, Json)>) -> Seq<(Seq<char>, JsonV)>
    decreases members,
{
    if members.len() == 0 {
        Seq::empty()
    } else {
        seq![(members[0].0@, members[0].1.model())] + member_models(members.drop_first())
    }
}

pub broadcast proof fn lemma_models_len(items: Seq<Json>)
    ensures
        #[trigger] models(items).len() == items.len(),
    decreases items.len(),
{
    if items.len() > 0 {
        lemma_models_len(items.drop_first());
    }
}

pub broadcast proof fn lemma_models_index(items: Seq<Json>, i: int)
    requires
        0 <= i < items.len(),
    ensures
        #[trigger] models(items)[i] == items[i].model(),
    decreases items.len(),
{
    if i > 0 {
        lemma_models_index(items.drop_first(), i - 1);
        lemma_models_len(items.drop_first());
    }
}

pub broadcast proof fn lemma_member_models_len(members: Seq<(String, Json)>)
    ensures
        #[trigger] member_models(members).len() == members.len(),
    decreases members.len(),
{
    if members.len() > 0 {
        lemma_member_models_len(members.drop_first());
    }
}

pub broadcast proof fn lemma_member_models_index(members: Seq<(String, Json)>, i: int)
    requires
        0 <= i < members.len(),
    ensures
        #[trigger] member_models(members)[i] == (members[i].0@, members[i].1.model()),
    decreases members.len(),
{
    if i > 0 {
        lemma_member_models_index(members.drop_first(), i - 1);
        lemma_member_models_len(members.drop_first());
    }
}

pub broadcast group group_json_models {
    lemma_models_len,
    lemma_models_index,
    lemma_member_models_len,
    lemma_member_models_index,
}

impl View for Json {
    type V = JsonV;

    open spec fn view(&self) -> JsonV {
        self.model()
    }
}

impl JsonV {
    /// The value of field `key` of an object; `None` for other values.
    pub open spec fn field(self, key: Seq<char>) -> Option<JsonV> {
        match self {
            JsonV::Object(members) => first_value(members, key),
            _ => None,
        }
    }
}

/// Compares two strings character for character.
pub fn string_eq(a: &String, b: &String) -> (eq: bool)
    ensures
        eq == (a@ == b@),
{
    a.eq(b)
}

/// A string from a string slice.
pub fn text(s: &str) -> (r: String)
    ensures
        r@ == s@,
{
    String::from_str(s)
}

impl JsonNumber {
    pub fn deep_clone(&self) -> (r: JsonNumber)
        ensures
            r@ == self@,
    {
        match self {
            JsonNumber::Pos(n) => JsonNumber::Pos(*n),
            JsonNumber::Neg(n) => JsonNumber::Neg(*n),
            JsonNumber::Decimal(s) => JsonNumber::Decimal(s.clone()),
        }
    }
}

impl Json {
    /// A copy of the value.
    pub fn deep_clone(&self) -> (r: Json)
        ensures
            r@ == self@,
        decreases self,
    {
        proof {
            broadcast use group_json_models;
        }
        match self {
            Json::Null => Json::Null,
            Json::Bool(b) => Json::Bool(*b),
            Json::Number(n) => Json::Number(n.deep_clone()),
            Json::Str(s) => Json::Str(s.clone()),
            Json::Array(items) => {
                let mut out: Vec<Json> = Vec::new();
                let mut i: usize = 0;
                proof {
                    assert forall|j: int| 0 <= j < items.len() implies decreases_to!(self => items@[j]) by {
                        assert(decreases_to!(self => items));
                        assert(decreases_to!(items => items@));
                        assert(decreases_to!(items@ => items@[j]));
                    }
                }
                while i < items.len()
                    invariant
                        forall|j: int| 0 <= j < items.len() ==> decreases_to!(self => items@[j]),
                        i <= items.len(),
                        out.len() == i,
                        forall|j: int| 0 <= j < i ==> (#[trigger] out[j])@ == items[j]@,
                    decreases items.len() - i,
                {
                    out.push(items[i].deep_clone());
                    i = i + 1;
                }
                let r = Json::Array(out);
                assert(r@ == JsonV::Array(models(out@)));
                assert(self@ == JsonV::Array(models(items@)));
                assert(models(out@) =~= models(items@));
                r
            },
            Json::Object(members) => {
                let mut out: Vec<(String, Json)> = Vec::new();
                let mut i: usize = 0;
                proof {
                    assert forall|j: int| 0 <= j < members.len() implies decreases_to!(self => members@[j].1) by {
                        assert(decreases_to!(self => members));
                        assert(decreases_to!(members => members@));
                        assert(decreases_to!(members@ => members@[j]));
                        assert(decreases_to!(members@[j] => members@[j].1));
                    }
                }
                while i < members.len()
                    invariant
                        forall|j: int| 0 <= j < members.len() ==> decreases_to!(self => members@[j].1),
                        i <= members.len(),
                        out.len() == i,
                        forall|j: int|
                            0 <= j < i ==> (#[trigger] out[j]).0@ == members[j].0@ && out[j].1@
                                == members[j].1@,
                    decreases members.len() - i,
                {
                    let key = members[i].0.clone();
                    let value = members[i].1.deep_clone();
                    out.push((key, value));
                    i = i + 1;
                }
                let r = Json::Object(out);
                assert(r@ == JsonV::Object(member_models(out@)));
                assert(self@ == JsonV::Object(member_models(members@)));
                assert(member_models(out@) =~= member_models(members@));
                r
            },
        }
    }

    /// A string value.
    pub fn str_of(s: &str) -> (r: Json)
        ensures
            r@ == JsonV::Str(s@),
    {
        Json::Str(text(s))
    }

    /// An empty object.
    pub fn empty_object() -> (r: Json)
        ensures
            r@ == JsonV::Object(Seq::empty()),
    {
        proof {
            broadcast use group_json_models;
        }
        let r = Json::Object(Vec::new());
        assert(r@ == JsonV::Object(member_models(Seq::empty())));
        assert(member_models(Seq::<(String, Json)>::empty()) =~= Seq::empty());
        r
    }

    /// The value of field `key`, for an object that has one.
    pub fn get(&self, key: &str) -> (r: Option<&Json>)
        ensures
            match r {
                Some(v) => self@.field(key@) == Some(v@),
                None => self@.field(key@) is None,
            },
    {
        proof {
            broadcast use group_json_models;
        }
        match self {
            Json::Object(members) => {
                assert(self@ == JsonV::Object(member_models(members@)));
                let ghost mv = self@->Object_0;
                assert(mv.len() == members.len());
                let wanted = text(key);
                let mut i: usize = 0;
                while i < members.len()
                    invariant
                        i <= members.len(),
                        mv.len() == members.len(),
                        mv == self@->Object_0,
                        self@ == JsonV::Object(mv),
                        forall|j: int| 0 <= j < members.len() ==> (#[trigger] mv[j]) == (members[j].0@, members[j].1@),
                        wanted@ == key@,
                        forall|j: int| 0 <= j < i ==> (#[trigger] mv[j]).0 != key@,
                    decreases members.len() - i,
                {
                    if string_eq(&members[i].0, &wanted) {
                        proof {
                            lemma_first_index(mv, key@);
                            assert(mv[i as int].0 == key@);
                            let idx = first_index(mv, key@)->Some_0;
                            assert(mv[idx].0 == key@);
                            assert(idx == i);
                        }
                        return Some(&members[i].1);
                    }
                    i = i + 1;
                }
                proof {
                    lemma_first_index(mv, key@);
                }
                None
            },
            _ => None,
        }
    }
}

/// The value of the first member named `key`.
pub fn member_get<'a>(members: &'a Vec<(String, Json)>, key: &str) -> (r: Option<&'a Json>)
    ensures
        match r {
            Some(v) => first_value(member_models(members@), key@) == Some(v@),
            None => first_value(member_models(members@), key@) is None,
        },
{
    proof {
        broadcast use group_json_models;
    }
    let ghost mv = member_models(members@);
    assert(mv.len() == members.len());
    let wanted = text(key);
    let mut i: usize = 0;
    while i < members.len()
        invariant
            i <= members.len(),
            mv.len() == members.len(),
            mv == member_models(members@),
            forall|j: int| 0 <= j < members.len() ==> (#[trigger] mv[j]) == (members[j].0@, members[j].1@),
            wanted@ == key@,
            forall|j: int| 0 <= j < i ==> (#[trigger] mv[j]).0 != key@,
        decreases members.len() - i,
    {
        if string_eq(&members[i].0, &wanted) {
            proof {
                crate::collections::lemma_first_value_at(mv, key@, i as int);
            }
            return Some(&members[i].1);
        }
        i = i + 1;
    }
    proof {
        crate::collections::lemma_first_value_absent(mv, key@);
    }
    None
}

/// The model of an optional value.
pub open spec fn opt_json(o: Option<Json>) -> Option<JsonV> {
    match o {
        Some(v) => Some(v@),
        None => None,
    }
}

#[verifier::external_type_specification]
#[verifier::external_body]
pub struct ExSerdeValue(serde_json::Value);

#[verifier::external_type_specification]
#[verifier::external_body]
pub struct ExSerdeNumber(serde_json::Number);

/// The `serde_json::Value` of a number; a decimal text that serde_json
/// does not read as a number becomes null. Nothing is claimed of it.
#[verifier::external_body]
fn number_to_serde(n: &JsonNumber) -> serde_json::Value {
    match n {
        JsonNumber::Pos(n) => serde_json::Value::from(*n),
        JsonNumber::Neg(n) => serde_json::Value::from(*n),
        JsonNumber::Decimal(t) => t.parse().map(serde_json::Value::Number).unwrap_or(serde_json::Value::Null),
    }
}

/// The `serde_json::Value` that holds the same value, member for member.
/// It only converts; nothing is claimed of it.
#[verifier::external_body]
fn to_serde(v: &Json) -> serde_json::Value {
    match v {
        Json::Null => serde_json::Value::Null,
        Json::Bool(b) => serde_json::Value::Bool(*b),
        Json::Number(n) => number_to_serde(n),
        Json::Str(t) => serde_json::Value::String(t.clone()),
        Json::Array(items) => serde_json::Value::Array(items.iter().map(to_serde).collect()),
        Json::Object(members) => serde_json::Value::Object(members.iter().map(|(k, m)| (k.clone(), to_serde(m))).collect()),
    }
}

/// A serde_json number as a non-negative or a negative integer when it is
/// one, else by its text. Nothing is claimed of it.
#[verifier::external_body]
fn number_from_serde(n: &serde_json::Number) -> JsonNumber {
    match (n.as_u64(), n.as_i64()) {
        (Some(u), _) => JsonNumber::Pos(u),
        (None, Some(i)) => JsonNumber::Neg(i),
        _ => JsonNumber::Decimal(n.to_string()),
    }
}

/// The value that a `serde_json::Value` holds, member for member. It only
/// converts; nothing is claimed of it.
#[verifier::external_body]
fn from_serde(v: serde_json::Value) -> Json {
    match v {
        serde_json::Value::Null => Json::Null,
        serde_json::Value::Bool(b) => Json::Bool(b),
        serde_json::Value::Number(n) => Json::Number(number_from_serde(&n)),
        serde_json::Value::String(t) => Json::Str(t),
        serde_json::Value::Array(items) => Json::Array(items.into_iter().map(from_serde).collect()),
        serde_json::Value::Object(members) => Json::Object(members.into_iter().map(|(k, m)| (k, from_serde(m))).collect()),
    }
}

/// The value that serde_json reads from a JSON text, if it is one.
pub open spec fn parsed_json(text: Seq<char>) -> Option<JsonV> {
    match json_parse_outcome(text) {
        Ok(v) => Some(v),
        Err(_) => None,
    }
}

/// The compact JSON text that serde_json writes for a value.
pub uninterp spec fn json_text(v: JsonV) -> Seq<char>;

/// The indented JSON text that serde_json writes for a value.
pub uninterp spec fn json_pretty_text(v: JsonV) -> Seq<char>;

/// The value of a JSON text, `None` when the text is not JSON.
pub(crate) fn parse_json(text: &str) -> (r: Option<Json>)
    ensures
        opt_json(r) == parsed_json(text@),
{
    match parse_json_text(text) {
        Ok(v) => Some(v),
        Err(_) => None,
    }
}

/// `serde_json::to_string` of a value: its compact JSON text, named as a
/// function of the value. Writing a `Value` to a string does not fail.
#[verifier::external_body]
pub(crate) fn json_to_string(v: &Json) -> (r: String)
    ensures
        r@ == json_text(v@),
{
    serde_json::to_string(&to_serde(v)).unwrap_or_default()
}

/// `serde_json::to_string_pretty` of a value: its indented JSON text,
/// named as a function of the value. Writing a `Value` to a string does not
/// fail.
#[verifier::external_body]
pub(crate) fn pretty_json(v: &Json) -> (r: String)
    ensures
        r@ == json_pretty_text(v@),
{
    serde_json::to_string_pretty(&to_serde(v)).unwrap_or_default()
}

/// The outcome of reading a JSON text with serde_json: the value, or the
/// message of the error.
pub uninterp spec fn json_parse_outcome(text: Seq<char>) -> Result<JsonV, Seq<char>>;

/// The outcome of reading JSON bytes with serde_json: the value, or the
/// message of the error.
pub uninterp spec fn json_bytes_outcome(bytes: Seq<u8>) -> Result<JsonV, Seq<char>>;

/// The model of a parse outcome.
pub open spec fn outcome_v(r: Result<Json, String>) -> Result<JsonV, Seq<char>> {
    match r {
        Ok(v) => Ok(v@),
        Err(m) => Err(m@),
    }
}

/// `serde_json::from_str::<Value>`, with the error's message: named as a
/// function of the text.
#[verifier::external_body]
pub(crate) fn parse_json_text(text: &str) -> (r: Result<Json, String>)
    ensures
        outcome_v(r) == json_parse_outcome(text@),
{
    match serde_json::from_str::<serde_json::Value>(text) {
        Ok(v) => Ok(from_serde(v)),
        Err(e) => Err(e.to_string()),
    }
}

/// `serde_json::from_slice::<Value>`, with the error's message: named as a
/// function of the bytes.
#[verifier::external_body]
pub(crate) fn parse_json_bytes(bytes: &[u8]) -> (r: Result<Json, String>)
    ensures
        outcome_v(r) == json_bytes_outcome(bytes@),
{
    match serde_json::from_slice::<serde_json::Value>(bytes) {
        Ok(v) => Ok(from_serde(v)),
        Err(e) => Err(e.to_string()),
    }
}

} // verus!
