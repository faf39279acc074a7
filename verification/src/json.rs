//! JSON documents as plain values, read from text by `serde_json`.

use vstd::prelude::*;
use crate::double::Double;
use crate::text::str_equal;

verus! {

/// The integral reading of a JSON number.
#[derive(Clone, Copy, Debug, PartialEq, Eq, Structural)]
pub enum JsonInteger {
    /// A non-negative integer that fits in 64 bits.
    Unsigned(u64),
    /// An integer below zero that fits in 64 bits.
    Negative(i64),
    /// A number written with a fraction or an exponent, or too large for 64 bits.
    Fractional,
}

/// A JSON number: its integral reading, and the double nearest to it.
#[derive(Clone, Copy, Debug, PartialEq, Eq, Structural)]
pub struct JsonNumber {
    pub integer: JsonInteger,
    pub double: Double,
}

/// A JSON document.
#[derive(Debug, PartialEq, Eq)]
pub enum Json {
    Null,
    Bool(bool),
    Number(JsonNumber),
    String(String),
    Array(Vec<Json>),
    /// The members of an object, each with its key.
    Object(Vec<(String, Json)>),
}

/// What `serde_json::from_str` makes of a text: the document it writes, or the
/// message of the error.
pub uninterp spec fn json_document(text: Seq<char>) -> Result<Json, Seq<char>>;

/// `serde_json::Value`, so that it can be named. Nothing is known of its values:
/// what one holds is copied into a `Json` before it is looked at.
#[verifier::external_type_specification]
#[verifier::external_body]
pub struct ExJsonValue(serde_json::Value);

/// `serde_json::Number`, so that it can be named. Nothing is known of its values.
#[verifier::external_type_specification]
#[verifier::external_body]
pub struct ExJsonNumber(serde_json::Number);

/// Copies a `serde_json::Number`: what `as_u64` or `as_i64` gives, and the bits of
/// what `as_f64` gives.
#[verifier::external_body]
fn number_of(n: &serde_json::Number) -> JsonNumber {
    JsonNumber {
        integer: match (n.as_u64(), n.as_i64()) {
            (Some(u), _) => JsonInteger::Unsigned(u),
            (None, Some(i)) => JsonInteger::Negative(i),
            (None, None) => JsonInteger::Fractional,
        },
        double: Double {
            bits: match n.as_f64() {
                Some(d) => d.to_bits(),
                None => 0,
            },
        },
    }
}

/// Copies a `serde_json::Value`, variant by variant, the members of an object in
/// the order in which its map hands them out.
#[verifier::external_body]
fn json_of_value(value: &serde_json::Value) -> Json {
    match value {
        serde_json::Value::Null => Json::Null,
        serde_json::Value::Bool(b) => Json::Bool(*b),
        serde_json::Value::Number(n) => Json::Number(number_of(n)),
        serde_json::Value::String(s) => Json::String(s.clone()),
        serde_json::Value::Array(items) => Json::Array(items.iter().map(json_of_value).collect()),
        serde_json::Value::Object(members) => Json::Object(
            members.iter().map(|(k, v)| (k.clone(), json_of_value(v))).collect(),
        ),
    }
}

/// Calls `serde_json::from_str` for a `serde_json::Value`. The result is the named
/// reading of the text: its document copied into a `Json`, or its error's message.
#[verifier::external_body]
pub(crate) fn read_document(text: &str) -> (r: Result<Json, String>)
    ensures
        match r {
            Ok(doc) => json_document(text@) == Ok::<Json, Seq<char>>(doc),
            Err(msg) => json_document(text@) == Err::<Json, Seq<char>>(msg@),
        },
{
    match serde_json::from_str::<serde_json::Value>(text) {
        Ok(value) => Ok(json_of_value(&value)),
        Err(e) => Err(e.to_string()),
    }
}

/// The position of the first member with key `key`, or the number of members if
/// there is none.
pub open spec fn find_key(members: Seq<(String, Json)>, key: Seq<char>) -> int
    decreases members.len(),
{
    if members.len() == 0 {
        0
    } else if members[0].0@ == key {
        0
    } else {
        1 + find_key(members.drop_first(), key)
    }
}

/// Where no member before place `i` has the key and the member at `i` has it, or
/// `i` is the number of members, the position of the key is `i`.
pub proof fn lemma_find_key(members: Seq<(String, Json)>, key: Seq<char>, i: int)
    requires
        0 <= i <= members.len(),
        forall|k: int| 0 <= k < i ==> (#[trigger] members[k]).0@ != key,
        i == members.len() || members[i].0@ == key,
    ensures
        find_key(members, key) == i,
    decreases i,
{
    if i > 0 {
        let rest = members.drop_first();
        assert(members[0].0@ != key);
        assert forall|k: int| 0 <= k < i - 1 implies (#[trigger] rest[k]).0@ != key by {
            assert(rest[k] == members[k + 1]);
        }
        lemma_find_key(rest, key, i - 1);
    }
}

/// The text of an optional string.
pub open spec fn optional_text(s: Option<String>) -> Option<Seq<char>> {
    match s {
        Some(t) => Some(t@),
        None => None,
    }
}

impl Json {
    /// The member of an object under `key`: the first, if several have that key.
    pub open spec fn member(self, key: Seq<char>) -> Option<Json> {
        match self {
            Json::Object(members) => {
                let i = find_key(members@, key);
                if 0 <= i < members@.len() {
                    Some(members@[i].1)
                } else {
                    None
                }
            },
            _ => None,
        }
    }

    /// The member under `key`, where a missing member and `null` count alike as absent.
    pub open spec fn present(self, key: Seq<char>) -> Option<Json> {
        match self.member(key) {
            Some(Json::Null) => None,
            other => other,
        }
    }

    /// The text of a string.
    pub open spec fn text(self) -> Option<Seq<char>> {
        match self {
            Json::String(s) => Some(s@),
            _ => None,
        }
    }

    /// The items of an array.
    pub open spec fn items(self) -> Option<Seq<Json>> {
        match self {
            Json::Array(items) => Some(items@),
            _ => None,
        }
    }

    /// The value of a number that is an integer of at most 32 bits, not below zero.
    pub open spec fn unsigned32(self) -> Option<u32> {
        match self {
            Json::Number(JsonNumber { integer: JsonInteger::Unsigned(n), .. }) => if n
                <= u32::MAX {
                Some(n as u32)
            } else {
                None
            },
            _ => None,
        }
    }

    /// The value of a number that is an integer of at most 64 bits with a sign.
    pub open spec fn signed64(self) -> Option<i64> {
        match self {
            Json::Number(JsonNumber { integer: JsonInteger::Unsigned(n), .. }) => if n
                <= i64::MAX {
                Some(n as i64)
            } else {
                None
            },
            Json::Number(JsonNumber { integer: JsonInteger::Negative(n), .. }) => Some(n),
            _ => None,
        }
    }

    /// The value of a number that is an integer of at most 32 bits with a sign.
    pub open spec fn signed32(self) -> Option<i32> {
        match self.signed64() {
            Some(n) => if i32::MIN <= n <= i32::MAX {
                Some(n as i32)
            } else {
                None
            },
            None => None,
        }
    }

    /// The double nearest to a number.
    pub open spec fn double(self) -> Option<Double> {
        match self {
            Json::Number(n) => Some(n.double),
            _ => None,
        }
    }

    /// The value of `true` or `false`.
    pub open spec fn boolean(self) -> Option<bool> {
        match self {
            Json::Bool(b) => Some(b),
            _ => None,
        }
    }

    /// The member of an object under `key`: the first, if several have that key.
    pub fn get(&self, key: &str) -> (r: Option<&Json>)
        ensures
            match r {
                Some(v) => self.member(key@) == Some(*v),
                None => self.member(key@) is None,
            },
    {
        match self {
            Json::Object(members) => {
                let n: usize = members.len();
                let mut i: usize = 0;
                while i < n
                    invariant
                        i <= n,
                        n == members@.len(),
                        *self == Json::Object(*members),
                        forall|k: int| 0 <= k < i ==> (#[trigger] members@[k]).0@ != key@,
                    decreases n - i,
                {
                    if str_equal(members[i].0.as_str(), key) {
                        proof {
                            lemma_find_key(members@, key@, i as int);
                        }
                        return Some(&members[i].1);
                    }
                    i += 1;
                }
                proof {
                    lemma_find_key(members@, key@, n as int);
                }
                None
            },
            _ => None,
        }
    }

    /// The member under `key` unless it is missing or `null`.
    pub fn get_present(&self, key: &str) -> (r: Option<&Json>)
        ensures
            match r {
                Some(v) => self.present(key@) == Some(*v),
                None => self.present(key@) is None,
            },
    {
        match self.get(key) {
            Some(Json::Null) => None,
            other => other,
        }
    }

    /// The text of a string.
    pub fn as_text(&self) -> (r: Option<String>)
        ensures
            optional_text(r) == self.text(),
    {
        match self {
            Json::String(s) => Some(s.clone()),
            _ => None,
        }
    }

    /// The items of an array.
    pub fn as_items(&self) -> (r: Option<&Vec<Json>>)
        ensures
            match r {
                Some(v) => self.items() == Some(v@),
                None => self.items() is None,
            },
    {
        match self {
            Json::Array(items) => Some(items),
            _ => None,
        }
    }

    /// The value of a number that is an integer of at most 32 bits, not below zero.
    pub fn as_unsigned32(&self) -> (r: Option<u32>)
        ensures
            r == self.unsigned32(),
    {
        match self {
            Json::Number(n) => match n.integer {
                JsonInteger::Unsigned(v) => if v <= 0xffff_ffff {
                    Some(v as u32)
                } else {
                    None
                },
                _ => None,
            },
            _ => None,
        }
    }

    /// The value of a number that is an integer of at most 64 bits with a sign.
    pub fn as_signed64(&self) -> (r: Option<i64>)
        ensures
            r == self.signed64(),
    {
        match self {
            Json::Number(n) => match n.integer {
                JsonInteger::Unsigned(v) => if v <= 0x7fff_ffff_ffff_ffff {
                    Some(v as i64)
                } else {
                    None
                },
                JsonInteger::Negative(v) => Some(v),
                JsonInteger::Fractional => None,
            },
            _ => None,
        }
    }

    /// The value of a number that is an integer of at most 32 bits with a sign.
    pub fn as_signed32(&self) -> (r: Option<i32>)
        ensures
            r == self.signed32(),
    {
        match self.as_signed64() {
            Some(n) => if -0x8000_0000 <= n && n <= 0x7fff_ffff {
                Some(n as i32)
            } else {
                None
            },
            None => None,
        }
    }

    /// The double nearest to a number.
    pub fn as_double(&self) -> (r: Option<Double>)
        ensures
            r == self.double(),
    {
        match self {
            Json::Number(n) => Some(n.double),
            _ => None,
        }
    }

    /// The value of `true` or `false`.
    pub fn as_boolean(&self) -> (r: Option<bool>)
        ensures
            r == self.boolean(),
    {
        match self {
            Json::Bool(b) => Some(*b),
            _ => None,
        }
    }
}

/// The text of the string under `key`, where the member is there and is a string.
pub open spec fn string_field(j: Json, key: Seq<char>) -> Option<Seq<char>> {
    match j.member(key) {
        Some(v) => v.text(),
        None => None,
    }
}

/// The text of the string under `key`, if any: `Some(None)` where the member is
/// absent, `None` where it is there and is no string.
pub open spec fn optional_string_field(j: Json, key: Seq<char>) -> Option<Option<Seq<char>>> {
    match j.present(key) {
        Some(v) => match v.text() {
            Some(t) => Some(Some(t)),
            None => None,
        },
        None => Some(None),
    }
}

/// The number under `key`, where the member is there and is an unsigned integer of
/// at most 32 bits.
pub open spec fn unsigned32_field(j: Json, key: Seq<char>) -> Option<u32> {
    match j.member(key) {
        Some(v) => v.unsigned32(),
        None => None,
    }
}

/// The number under `key`, if any: `Some(None)` where the member is absent, `None`
/// where it is there and is no unsigned integer of at most 32 bits.
pub open spec fn optional_unsigned32_field(j: Json, key: Seq<char>) -> Option<Option<u32>> {
    match j.present(key) {
        Some(v) => match v.unsigned32() {
            Some(n) => Some(Some(n)),
            None => None,
        },
        None => Some(None),
    }
}

/// The double under `key`, where the member is there and is a number.
pub open spec fn double_field(j: Json, key: Seq<char>) -> Option<Double> {
    match j.member(key) {
        Some(v) => v.double(),
        None => None,
    }
}

/// The double under `key`, if any: `Some(None)` where the member is absent, `None`
/// where it is there and is no number.
pub open spec fn optional_double_field(j: Json, key: Seq<char>) -> Option<Option<Double>> {
    match j.present(key) {
        Some(v) => match v.double() {
            Some(d) => Some(Some(d)),
            None => None,
        },
        None => Some(None),
    }
}

/// The truth value under `key`, or `false` where the member is missing; `None`
/// where it is there and is neither `true` nor `false`.
pub open spec fn flag_field(j: Json, key: Seq<char>) -> Option<bool> {
    match j.member(key) {
        Some(v) => v.boolean(),
        None => Some(false),
    }
}

/// The number under `key`, or 0 where the member is missing; `None` where it is
/// there and is no integer of at most 32 bits.
pub open spec fn signed32_field(j: Json, key: Seq<char>) -> Option<i32> {
    match j.member(key) {
        Some(v) => v.signed32(),
        None => Some(0i32),
    }
}

/// The items of the array under `key`, where the member is there and is an array.
pub open spec fn list_field(j: Json, key: Seq<char>) -> Option<Seq<Json>> {
    match j.member(key) {
        Some(v) => v.items(),
        None => None,
    }
}

/// The items of the array under `key`, or none where the member is missing; `None`
/// where it is there and is no array.
pub open spec fn list_field_or_empty(j: Json, key: Seq<char>) -> Option<Seq<Json>> {
    match j.member(key) {
        Some(v) => v.items(),
        None => Some(Seq::empty()),
    }
}

/// Reads the string under `key`.
pub fn read_string(j: &Json, key: &str) -> (r: Option<String>)
    ensures
        optional_text(r) == string_field(*j, key@),
{
    match j.get(key) {
        Some(v) => v.as_text(),
        None => None,
    }
}

/// Reads the string under `key`, if there is one.
pub fn read_optional_string(j: &Json, key: &str) -> (r: Option<Option<String>>)
    ensures
        match r {
            Some(t) => optional_string_field(*j, key@) == Some(optional_text(t)),
            None => optional_string_field(*j, key@) is None,
        },
{
    match j.get_present(key) {
        Some(v) => match v.as_text() {
            Some(t) => Some(Some(t)),
            None => None,
        },
        None => Some(None),
    }
}

/// Reads the unsigned integer of at most 32 bits under `key`.
pub fn read_unsigned32(j: &Json, key: &str) -> (r: Option<u32>)
    ensures
        r == unsigned32_field(*j, key@),
{
    match j.get(key) {
        Some(v) => v.as_unsigned32(),
        None => None,
    }
}

/// Reads the unsigned integer of at most 32 bits under `key`, if there is one.
pub fn read_optional_unsigned32(j: &Json, key: &str) -> (r: Option<Option<u32>>)
    ensures
        r == optional_unsigned32_field(*j, key@),
{
    match j.get_present(key) {
        Some(v) => match v.as_unsigned32() {
            Some(n) => Some(Some(n)),
            None => None,
        },
        None => Some(None),
    }
}

/// Reads the number under `key` as a double.
pub fn read_double(j: &Json, key: &str) -> (r: Option<Double>)
    ensures
        r == double_field(*j, key@),
{
    match j.get(key) {
        Some(v) => v.as_double(),
        None => None,
    }
}

/// Reads the number under `key` as a double, if there is one.
pub fn read_optional_double(j: &Json, key: &str) -> (r: Option<Option<Double>>)
    ensures
        r == optional_double_field(*j, key@),
{
    match j.get_present(key) {
        Some(v) => match v.as_double() {
            Some(d) => Some(Some(d)),
            None => None,
        },
        None => Some(None),
    }
}

/// Reads the truth value under `key`, and `false` where the member is missing.
pub fn read_flag(j: &Json, key: &str) -> (r: Option<bool>)
    ensures
        r == flag_field(*j, key@),
{
    match j.get(key) {
        Some(v) => v.as_boolean(),
        None => Some(false),
    }
}

/// Reads the integer of at most 32 bits under `key`, and 0 where the member is missing.
pub fn read_signed32(j: &Json, key: &str) -> (r: Option<i32>)
    ensures
        r == signed32_field(*j, key@),
{
    match j.get(key) {
        Some(v) => v.as_signed32(),
        None => Some(0),
    }
}

/// Reads the items of the array under `key`.
pub fn read_list<'a>(j: &'a Json, key: &str) -> (r: Option<&'a Vec<Json>>)
    ensures
        match r {
            Some(v) => list_field(*j, key@) == Some(v@),
            None => list_field(*j, key@) is None,
        },
{
    match j.get(key) {
        Some(v) => v.as_items(),
        None => None,
    }
}

} // verus!
