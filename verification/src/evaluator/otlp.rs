//! The wire shape of a metrics message, and how it is read from a JSON document.

use vstd::prelude::*;
use crate::double::Double;
use crate::json::{
    double_field, flag_field, list_field, list_field_or_empty, optional_double_field,
    optional_string_field, optional_text, read_double, read_flag, read_list,
    read_optional_double, read_optional_string, read_signed32, read_string, signed32_field,
    string_field, Json,
};
use crate::text::{blank, is_blank, str_equal};

verus! {

/// A value on the wire: one of six kinds.
#[derive(Debug, PartialEq, Eq)]
pub enum AnyValue {
    String(String),
    Bool(bool),
    Int(i64),
    Double(Double),
    Array(Vec<AnyValue>),
    KvList(Vec<KeyValue>),
}

/// A key with its value, in a list of such.
#[derive(Debug, PartialEq, Eq)]
pub struct KeyValue {
    pub key: String,
    pub value: AnyValue,
}

/// An attribute on the wire.
#[derive(Debug, PartialEq, Eq)]
pub struct Attribute {
    pub key: String,
    pub value: AnyValue,
}

/// Whether `j` writes a value: an object with one member, whose key names the
/// kind, and whose value is of that kind.
pub open spec fn any_value_shape(j: Json) -> bool
    decreases j,
{
    match j {
        Json::Object(members) => members@.len() == 1 && {
            let key = members@[0].0@;
            let v = members@[0].1;
            if key == "stringValue"@ {
                v.text() is Some
            } else if key == "boolValue"@ {
                v.boolean() is Some
            } else if key == "intValue"@ {
                v.signed64() is Some
            } else if key == "doubleValue"@ {
                v.double() is Some
            } else if key == "arrayValue"@ {
                match list_field(v, "values"@) {
                    Some(items) => forall|i: int|
                        0 <= i < items.len() ==> any_value_shape(#[trigger] items[i]),
                    None => false,
                }
            } else if key == "kvlistValue"@ {
                match list_field(v, "values"@) {
                    Some(items) => forall|i: int|
                        0 <= i < items.len() ==> key_value_shape(#[trigger] items[i]),
                    None => false,
                }
            } else {
                false
            }
        },
        _ => false,
    }
}

/// Whether `j` writes a key with its value.
pub open spec fn key_value_shape(j: Json) -> bool
    decreases j,
{
    string_field(j, "key"@) is Some && match j.member("value"@) {
        Some(v) => any_value_shape(v),
        None => false,
    }
}

/// Whether `out` is the value that `j` writes.
pub open spec fn any_value_decodes(j: Json, out: AnyValue) -> bool
    decreases j,
{
    match j {
        Json::Object(members) => members@.len() == 1 && {
            let key = members@[0].0@;
            let v = members@[0].1;
            if key == "stringValue"@ {
                out matches AnyValue::String(s) && v.text() == Some(s@)
            } else if key == "boolValue"@ {
                out matches AnyValue::Bool(b) && v.boolean() == Some(b)
            } else if key == "intValue"@ {
                out matches AnyValue::Int(n) && v.signed64() == Some(n)
            } else if key == "doubleValue"@ {
                out matches AnyValue::Double(d) && v.double() == Some(d)
            } else if key == "arrayValue"@ {
                match (list_field(v, "values"@), out) {
                    (Some(items), AnyValue::Array(values)) => {
                        &&& values@.len() == items.len()
                        &&& forall|i: int|
                            0 <= i < items.len() ==> any_value_decodes(
                                #[trigger] items[i],
                                values@[i],
                            )
                    },
                    _ => false,
                }
            } else if key == "kvlistValue"@ {
                match (list_field(v, "values"@), out) {
                    (Some(items), AnyValue::KvList(values)) => {
                        &&& values@.len() == items.len()
                        &&& forall|i: int|
                            0 <= i < items.len() ==> key_value_decodes(
                                #[trigger] items[i],
                                values@[i],
                            )
                    },
                    _ => false,
                }
            } else {
                false
            }
        },
        _ => false,
    }
}

/// Whether `out` is the key and the value that `j` writes.
pub open spec fn key_value_decodes(j: Json, out: KeyValue) -> bool
    decreases j,
{
    string_field(j, "key"@) == Some(out.key@) && match j.member("value"@) {
        Some(v) => any_value_decodes(v, out.value),
        None => false,
    }
}

/// Whether `j` writes an attribute: a key with its value.
pub open spec fn attribute_shape(j: Json) -> bool {
    key_value_shape(j)
}

/// Whether `out` is the attribute that `j` writes.
pub open spec fn attribute_decodes(j: Json, out: Attribute) -> bool {
    key_value_decodes(j, KeyValue { key: out.key, value: out.value })
}

/// Whether two values hold the same texts and numbers, through and through.
pub open spec fn same_any_value(a: AnyValue, b: AnyValue) -> bool
    decreases a,
{
    match (a, b) {
        (AnyValue::String(x), AnyValue::String(y)) => x@ == y@,
        (AnyValue::Bool(x), AnyValue::Bool(y)) => x == y,
        (AnyValue::Int(x), AnyValue::Int(y)) => x == y,
        (AnyValue::Double(x), AnyValue::Double(y)) => x == y,
        (AnyValue::Array(x), AnyValue::Array(y)) => {
            &&& x@.len() == y@.len()
            &&& forall|i: int| 0 <= i < x@.len() ==> same_any_value(#[trigger] x@[i], y@[i])
        },
        (AnyValue::KvList(x), AnyValue::KvList(y)) => {
            &&& x@.len() == y@.len()
            &&& forall|i: int| 0 <= i < x@.len() ==> same_key_value(#[trigger] x@[i], y@[i])
        },
        _ => false,
    }
}

/// Whether two pairs hold the same key and the same value.
pub open spec fn same_key_value(a: KeyValue, b: KeyValue) -> bool
    decreases a,
{
    a.key@ == b.key@ && same_any_value(a.value, b.value)
}

/// Whether two attributes hold the same key and the same value.
pub open spec fn same_attribute(a: Attribute, b: Attribute) -> bool {
    a.key@ == b.key@ && same_any_value(a.value, b.value)
}

/// Two values that `j` writes hold the same texts and numbers.
pub proof fn lemma_any_value_reading(j: Json, a: AnyValue, b: AnyValue)
    requires
        any_value_decodes(j, a),
        any_value_decodes(j, b),
    ensures
        same_any_value(a, b),
    decreases j,
{
    reveal_strlit("stringValue");
    reveal_strlit("boolValue");
    reveal_strlit("intValue");
    reveal_strlit("doubleValue");
    reveal_strlit("arrayValue");
    reveal_strlit("kvlistValue");
    let members = j->Object_0;
    let key = members@[0].0@;
    let v = members@[0].1;
    assert("stringValue"@[0] == 's' && "boolValue"@[0] == 'b' && "intValue"@[0] == 'i'
        && "doubleValue"@[0] == 'd' && "arrayValue"@[0] == 'a' && "kvlistValue"@[0] == 'k');
    if key == "arrayValue"@ {
        let items = list_field(v, "values"@).unwrap();
        let x = a->Array_0;
        let y = b->Array_0;
        assert forall|i: int| 0 <= i < x@.len() implies same_any_value(
            #[trigger] x@[i],
            y@[i],
        ) by {
            assert(any_value_decodes(items[i], x@[i]));
            assert(any_value_decodes(items[i], y@[i]));
            lemma_any_value_reading(items[i], x@[i], y@[i]);
        }
    } else if key == "kvlistValue"@ {
        let items = list_field(v, "values"@).unwrap();
        let x = a->KvList_0;
        let y = b->KvList_0;
        assert forall|i: int| 0 <= i < x@.len() implies same_key_value(
            #[trigger] x@[i],
            y@[i],
        ) by {
            assert(key_value_decodes(items[i], x@[i]));
            assert(key_value_decodes(items[i], y@[i]));
            lemma_key_value_reading(items[i], x@[i], y@[i]);
        }
    }
}

/// Two pairs that `j` writes hold the same key and the same value.
pub proof fn lemma_key_value_reading(j: Json, a: KeyValue, b: KeyValue)
    requires
        key_value_decodes(j, a),
        key_value_decodes(j, b),
    ensures
        same_key_value(a, b),
    decreases j,
{
    lemma_any_value_reading(j.member("value"@).unwrap(), a.value, b.value);
}

/// Two attributes that `j` writes hold the same key and the same value.
pub proof fn lemma_attribute_reading(j: Json, a: Attribute, b: Attribute)
    requires
        attribute_decodes(j, a),
        attribute_decodes(j, b),
    ensures
        same_attribute(a, b),
{
    lemma_key_value_reading(
        j,
        KeyValue { key: a.key, value: a.value },
        KeyValue { key: b.key, value: b.value },
    );
}

/// Reads a value.
#[verifier::loop_isolation(false)]
pub fn decode_any_value(j: &Json) -> (r: Option<AnyValue>)
    ensures
        match r {
            Some(out) => any_value_shape(*j) && any_value_decodes(*j, out),
            None => !any_value_shape(*j),
        },
    decreases j,
{
    let members = match j {
        Json::Object(members) => members,
        _ => {
            return None;
        },
    };
    if members.len() != 1 {
        return None;
    }
    let key = members[0].0.as_str();
    let v = &members[0].1;
    if str_equal(key, "stringValue") {
        match v.as_text() {
            Some(s) => Some(AnyValue::String(s)),
            None => None,
        }
    } else if str_equal(key, "boolValue") {
        match v.as_boolean() {
            Some(b) => Some(AnyValue::Bool(b)),
            None => None,
        }
    } else if str_equal(key, "intValue") {
        match v.as_signed64() {
            Some(n) => Some(AnyValue::Int(n)),
            None => None,
        }
    } else if str_equal(key, "doubleValue") {
        match v.as_double() {
            Some(d) => Some(AnyValue::Double(d)),
            None => None,
        }
    } else if str_equal(key, "arrayValue") {
        let items = match read_list(v, "values") {
            Some(items) => items,
            None => {
                return None;
            },
        };
        let n: usize = items.len();
        let mut values: Vec<AnyValue> = Vec::new();
        let mut i: usize = 0;
        while i < n
            invariant
                i <= n,
                n == items@.len(),
                values@.len() == i,
                forall|k: int| 0 <= k < i ==> any_value_shape(#[trigger] items@[k]),
                forall|k: int| 0 <= k < i ==> any_value_decodes(#[trigger] items@[k], values@[k]),
            decreases n - i,
        {
            match decode_any_value(&items[i]) {
                Some(value) => {
                    values.push(value);
                },
                None => {
                    proof {
                        assert(list_field(*v, "values"@).unwrap()[i as int] == items@[i as int]);
                    }
                    return None;
                },
            }
            i += 1;
        }
        Some(AnyValue::Array(values))
    } else if str_equal(key, "kvlistValue") {
        let items = match read_list(v, "values") {
            Some(items) => items,
            None => {
                return None;
            },
        };
        let n: usize = items.len();
        let mut values: Vec<KeyValue> = Vec::new();
        let mut i: usize = 0;
        while i < n
            invariant
                i <= n,
                n == items@.len(),
                values@.len() == i,
                forall|k: int| 0 <= k < i ==> key_value_shape(#[trigger] items@[k]),
                forall|k: int| 0 <= k < i ==> key_value_decodes(#[trigger] items@[k], values@[k]),
            decreases n - i,
        {
            match decode_key_value(&items[i]) {
                Some(value) => {
                    values.push(value);
                },
                None => {
                    proof {
                        assert(list_field(*v, "values"@).unwrap()[i as int] == items@[i as int]);
                    }
                    return None;
                },
            }
            i += 1;
        }
        Some(AnyValue::KvList(values))
    } else {
        None
    }
}

/// Reads a key with its value.
pub fn decode_key_value(j: &Json) -> (r: Option<KeyValue>)
    ensures
        match r {
            Some(out) => key_value_shape(*j) && key_value_decodes(*j, out),
            None => !key_value_shape(*j),
        },
    decreases j,
{
    let key = match read_string(j, "key") {
        Some(v) => v,
        None => {
            return None;
        },
    };
    let value = match j.get("value") {
        Some(v) => match decode_any_value(v) {
            Some(value) => value,
            None => {
                return None;
            },
        },
        None => {
            return None;
        },
    };
    Some(KeyValue { key, value })
}

/// Reads an attribute.
pub fn decode_attribute(j: &Json) -> (r: Option<Attribute>)
    ensures
        match r {
            Some(out) => attribute_shape(*j) && attribute_decodes(*j, out),
            None => !attribute_shape(*j),
        },
{
    match decode_key_value(j) {
        Some(kv) => Some(Attribute { key: kv.key, value: kv.value }),
        None => None,
    }
}

/// Whether `j` is a string.
pub open spec fn text_shape(j: Json) -> bool {
    j.text() is Some
}

/// Whether `out` is the text of the string `j`.
pub open spec fn text_decodes(j: Json, out: String) -> bool {
    j.text() == Some(out@)
}

/// Whether `j` is a number.
pub open spec fn double_shape(j: Json) -> bool {
    j.double() is Some
}

/// Whether `out` is the double nearest to the number `j`.
pub open spec fn double_decodes(j: Json, out: Double) -> bool {
    j.double() == Some(out)
}

/// Whether two strings hold the same text.
pub open spec fn same_text(a: String, b: String) -> bool {
    a@ == b@
}

/// Whether two doubles are the same.
pub open spec fn same_double(a: Double, b: Double) -> bool {
    a == b
}

/// Two strings that hold the text of `j` hold the same text.
pub proof fn lemma_text_reading(j: Json, a: String, b: String)
    requires
        text_decodes(j, a),
        text_decodes(j, b),
    ensures
        same_text(a, b),
{
}

/// Two doubles that are nearest to the number `j` are the same.
pub proof fn lemma_double_reading(j: Json, a: Double, b: Double)
    requires
        double_decodes(j, a),
        double_decodes(j, b),
    ensures
        same_double(a, b),
{
}

/// Reads a string.
pub fn decode_text(j: &Json) -> (r: Option<String>)
    ensures
        match r {
            Some(out) => text_shape(*j) && text_decodes(*j, out),
            None => !text_shape(*j),
        },
{
    j.as_text()
}

/// Reads a number as a double.
pub fn decode_double(j: &Json) -> (r: Option<Double>)
    ensures
        match r {
            Some(out) => double_shape(*j) && double_decodes(*j, out),
            None => !double_shape(*j),
        },
{
    j.as_double()
}

/// Whether two lists hold the same, place by place.
pub open spec fn text_list_same(a: Seq<String>, b: Seq<String>) -> bool {
    &&& a.len() == b.len()
    &&& forall|i: int| 0 <= i < a.len() ==> same_text(#[trigger] a[i], b[i])
}

/// Two lists that hold what `items` write hold the same.
pub proof fn lemma_text_list_reading(items: Seq<Json>, a: Seq<String>, b: Seq<String>)
    requires
        text_list_decodes(items, a),
        text_list_decodes(items, b),
    ensures
        text_list_same(a, b),
{
    assert forall|i: int| 0 <= i < a.len() implies same_text(#[trigger] a[i], b[i]) by {
        assert(text_decodes(items[i], a[i]));
        assert(text_decodes(items[i], b[i]));
        lemma_text_reading(items[i], a[i], b[i]);
    }
}

/// Whether each of `items` writes a string.
pub open spec fn text_list_shape(items: Seq<Json>) -> bool {
    forall|i: int| 0 <= i < items.len() ==> text_shape(#[trigger] items[i])
}

/// Whether `out` holds, place by place, the strings that `items` write.
pub open spec fn text_list_decodes(items: Seq<Json>, out: Seq<String>) -> bool {
    &&& out.len() == items.len()
    &&& forall|i: int| 0 <= i < items.len() ==> text_decodes(#[trigger] items[i], out[i])
}

/// Reads the strings, in order.
pub fn decode_text_list(items: &Vec<Json>) -> (r: Option<Vec<String>>)
    ensures
        match r {
            Some(out) => text_list_shape(items@) && text_list_decodes(items@, out@),
            None => !text_list_shape(items@),
        },
{
    let n: usize = items.len();
    let mut out: Vec<String> = Vec::new();
    let mut i: usize = 0;
    while i < n
        invariant
            i <= n,
            n == items@.len(),
            out@.len() == i,
            forall|k: int| 0 <= k < i ==> text_shape(#[trigger] items@[k]),
            forall|k: int| 0 <= k < i ==> text_decodes(#[trigger] items@[k], out@[k]),
        decreases n - i,
    {
        match decode_text(&items[i]) {
            Some(v) => {
                out.push(v);
            },
            None => {
                return None;
            },
        }
        i += 1;
    }
    Some(out)
}

/// Whether two lists hold the same, place by place.
pub open spec fn double_list_same(a: Seq<Double>, b: Seq<Double>) -> bool {
    &&& a.len() == b.len()
    &&& forall|i: int| 0 <= i < a.len() ==> same_double(#[trigger] a[i], b[i])
}

/// Two lists that hold what `items` write hold the same.
pub proof fn lemma_double_list_reading(items: Seq<Json>, a: Seq<Double>, b: Seq<Double>)
    requires
        double_list_decodes(items, a),
        double_list_decodes(items, b),
    ensures
        double_list_same(a, b),
{
    assert forall|i: int| 0 <= i < a.len() implies same_double(#[trigger] a[i], b[i]) by {
        assert(double_decodes(items[i], a[i]));
        assert(double_decodes(items[i], b[i]));
        lemma_double_reading(items[i], a[i], b[i]);
    }
}

/// Whether each of `items` writes a number.
pub open spec fn double_list_shape(items: Seq<Json>) -> bool {
    forall|i: int| 0 <= i < items.len() ==> double_shape(#[trigger] items[i])
}

/// Whether `out` holds, place by place, the numbers that `items` write.
pub open spec fn double_list_decodes(items: Seq<Json>, out: Seq<Double>) -> bool {
    &&& out.len() == items.len()
    &&& forall|i: int| 0 <= i < items.len() ==> double_decodes(#[trigger] items[i], out[i])
}

/// Reads the numbers, in order.
pub fn decode_double_list(items: &Vec<Json>) -> (r: Option<Vec<Double>>)
    ensures
        match r {
            Some(out) => double_list_shape(items@) && double_list_decodes(items@, out@),
            None => !double_list_shape(items@),
        },
{
    let n: usize = items.len();
    let mut out: Vec<Double> = Vec::new();
    let mut i: usize = 0;
    while i < n
        invariant
            i <= n,
            n == items@.len(),
            out@.len() == i,
            forall|k: int| 0 <= k < i ==> double_shape(#[trigger] items@[k]),
            forall|k: int| 0 <= k < i ==> double_decodes(#[trigger] items@[k], out@[k]),
        decreases n - i,
    {
        match decode_double(&items[i]) {
            Some(v) => {
                out.push(v);
            },
            None => {
                return None;
            },
        }
        i += 1;
    }
    Some(out)
}

/// Whether two lists hold the same, place by place.
pub open spec fn attribute_list_same(a: Seq<Attribute>, b: Seq<Attribute>) -> bool {
    &&& a.len() == b.len()
    &&& forall|i: int| 0 <= i < a.len() ==> same_attribute(#[trigger] a[i], b[i])
}

/// Two lists that hold what `items` write hold the same.
pub proof fn lemma_attribute_list_reading(items: Seq<Json>, a: Seq<Attribute>, b: Seq<Attribute>)
    requires
        attribute_list_decodes(items, a),
        attribute_list_decodes(items, b),
    ensures
        attribute_list_same(a, b),
{
    assert forall|i: int| 0 <= i < a.len() implies same_attribute(#[trigger] a[i], b[i]) by {
        assert(attribute_decodes(items[i], a[i]));
        assert(attribute_decodes(items[i], b[i]));
        lemma_attribute_reading(items[i], a[i], b[i]);
    }
}

/// Whether each of `items` writes an attribute.
pub open spec fn attribute_list_shape(items: Seq<Json>) -> bool {
    forall|i: int| 0 <= i < items.len() ==> attribute_shape(#[trigger] items[i])
}

/// Whether `out` holds, place by place, the attributes that `items` write.
pub open spec fn attribute_list_decodes(items: Seq<Json>, out: Seq<Attribute>) -> bool {
    &&& out.len() == items.len()
    &&& forall|i: int| 0 <= i < items.len() ==> attribute_decodes(#[trigger] items[i], out[i])
}

/// Reads the attributes, in order.
pub fn decode_attribute_list(items: &Vec<Json>) -> (r: Option<Vec<Attribute>>)
    ensures
        match r {
            Some(out) => attribute_list_shape(items@) && attribute_list_decodes(items@, out@),
            None => !attribute_list_shape(items@),
        },
{
    let n: usize = items.len();
    let mut out: Vec<Attribute> = Vec::new();
    let mut i: usize = 0;
    while i < n
        invariant
            i <= n,
            n == items@.len(),
            out@.len() == i,
            forall|k: int| 0 <= k < i ==> attribute_shape(#[trigger] items@[k]),
            forall|k: int| 0 <= k < i ==> attribute_decodes(#[trigger] items@[k], out@[k]),
        decreases n - i,
    {
        match decode_attribute(&items[i]) {
            Some(v) => {
                out.push(v);
            },
            None => {
                return None;
            },
        }
        i += 1;
    }
    Some(out)
}

/// What sent the metrics.
#[derive(Debug, PartialEq, Eq)]
pub struct Resource {
    pub attributes: Vec<Attribute>,
}

/// Whether `j` has the fields of a resource, each of its kind.
pub open spec fn resource_shape(j: Json) -> bool {
    &&& list_field_or_empty(j, "attributes"@) is Some
    &&& attribute_list_shape(list_field_or_empty(j, "attributes"@).unwrap())
}

/// Whether `out` holds the fields of `j`.
pub open spec fn resource_decodes(j: Json, out: Resource) -> bool {
    &&& list_field_or_empty(j, "attributes"@) is Some
    &&& attribute_list_decodes(list_field_or_empty(j, "attributes"@).unwrap(), out.attributes@)
}

/// Reads a resource.
pub fn decode_resource(j: &Json) -> (r: Option<Resource>)
    ensures
        match r {
            Some(out) => resource_shape(*j) && resource_decodes(*j, out),
            None => !resource_shape(*j),
        },
{
    let attributes = match j.get("attributes") {
        Some(v) => match v.as_items() {
            Some(items) => match decode_attribute_list(items) {
                Some(v) => v,
                None => {
                    return None;
                },
            },
            None => {
                return None;
            },
        },
        None => Vec::new(),
    };
    Some(Resource { attributes })
}

/// Whether `a` and `b` hold the same texts and numbers.
pub open spec fn same_resource(a: Resource, b: Resource) -> bool {
    &&& attribute_list_same(a.attributes@, b.attributes@)
}

/// Two values that hold the fields of `j` hold the same texts and numbers.
pub proof fn lemma_resource_reading(j: Json, a: Resource, b: Resource)
    requires
        resource_decodes(j, a),
        resource_decodes(j, b),
    ensures
        same_resource(a, b),
{
    lemma_attribute_list_reading(list_field_or_empty(j, "attributes"@).unwrap(), a.attributes@,
        b.attributes@);
}

/// A point of a gauge on the wire.
#[derive(Debug, PartialEq, Eq)]
pub struct GaugeDataPoint {
    pub time_unix_nano: String,
    pub as_double: Double,
    pub attributes: Vec<Attribute>,
}

/// Whether `j` has the fields of a point of a gauge, each of its kind.
pub open spec fn gauge_data_point_shape(j: Json) -> bool {
    &&& string_field(j, "timeUnixNano"@) is Some
    &&& double_field(j, "asDouble"@) is Some
    &&& list_field_or_empty(j, "attributes"@) is Some
    &&& attribute_list_shape(list_field_or_empty(j, "attributes"@).unwrap())
}

/// Whether `out` holds the fields of `j`.
pub open spec fn gauge_data_point_decodes(j: Json, out: GaugeDataPoint) -> bool {
    &&& string_field(j, "timeUnixNano"@) == Some(out.time_unix_nano@)
    &&& double_field(j, "asDouble"@) == Some(out.as_double)
    &&& list_field_or_empty(j, "attributes"@) is Some
    &&& attribute_list_decodes(list_field_or_empty(j, "attributes"@).unwrap(), out.attributes@)
}

/// Reads a point of a gauge.
pub fn decode_gauge_data_point(j: &Json) -> (r: Option<GaugeDataPoint>)
    ensures
        match r {
            Some(out) => gauge_data_point_shape(*j) && gauge_data_point_decodes(*j, out),
            None => !gauge_data_point_shape(*j),
        },
{
    let time_unix_nano = match read_string(j, "timeUnixNano") {
        Some(v) => v,
        None => {
            return None;
        },
    };
    let as_double = match read_double(j, "asDouble") {
        Some(v) => v,
        None => {
            return None;
        },
    };
    let attributes = match j.get("attributes") {
        Some(v) => match v.as_items() {
            Some(items) => match decode_attribute_list(items) {
                Some(v) => v,
                None => {
                    return None;
                },
            },
            None => {
                return None;
            },
        },
        None => Vec::new(),
    };
    Some(GaugeDataPoint { time_unix_nano, as_double, attributes })
}

/// Whether `a` and `b` hold the same texts and numbers.
pub open spec fn same_gauge_data_point(a: GaugeDataPoint, b: GaugeDataPoint) -> bool {
    &&& a.time_unix_nano@ == b.time_unix_nano@
    &&& a.as_double == b.as_double
    &&& attribute_list_same(a.attributes@, b.attributes@)
}

/// Two values that hold the fields of `j` hold the same texts and numbers.
pub proof fn lemma_gauge_data_point_reading(j: Json, a: GaugeDataPoint, b: GaugeDataPoint)
    requires
        gauge_data_point_decodes(j, a),
        gauge_data_point_decodes(j, b),
    ensures
        same_gauge_data_point(a, b),
{
    lemma_attribute_list_reading(list_field_or_empty(j, "attributes"@).unwrap(), a.attributes@,
        b.attributes@);
}

/// Whether two lists hold the same, place by place.
pub open spec fn gauge_data_point_list_same(a: Seq<GaugeDataPoint>,
    b: Seq<GaugeDataPoint>) -> bool {
    &&& a.len() == b.len()
    &&& forall|i: int| 0 <= i < a.len() ==> same_gauge_data_point(#[trigger] a[i], b[i])
}

/// Two lists that hold what `items` write hold the same.
pub proof fn lemma_gauge_data_point_list_reading(items: Seq<Json>, a: Seq<GaugeDataPoint>,
    b: Seq<GaugeDataPoint>)
    requires
        gauge_data_point_list_decodes(items, a),
        gauge_data_point_list_decodes(items, b),
    ensures
        gauge_data_point_list_same(a, b),
{
    assert forall|i: int| 0 <= i < a.len() implies same_gauge_data_point(#[trigger] a[i], b[i]) by {
        assert(gauge_data_point_decodes(items[i], a[i]));
        assert(gauge_data_point_decodes(items[i], b[i]));
        lemma_gauge_data_point_reading(items[i], a[i], b[i]);
    }
}

/// Whether each of `items` writes a point of a gauge.
pub open spec fn gauge_data_point_list_shape(items: Seq<Json>) -> bool {
    forall|i: int| 0 <= i < items.len() ==> gauge_data_point_shape(#[trigger] items[i])
}

/// Whether `out` holds, place by place, the points of a gauge that `items` write.
pub open spec fn gauge_data_point_list_decodes(items: Seq<Json>, out: Seq<GaugeDataPoint>) -> bool {
    &&& out.len() == items.len()
    &&& forall|i: int| 0 <= i < items.len()
        ==> gauge_data_point_decodes(#[trigger] items[i], out[i])
}

/// Reads the points of a gauge, in order.
pub fn decode_gauge_data_point_list(items: &Vec<Json>) -> (r: Option<Vec<GaugeDataPoint>>)
    ensures
        match r {
            Some(out) => gauge_data_point_list_shape(items@)
                && gauge_data_point_list_decodes(items@, out@),
            None => !gauge_data_point_list_shape(items@),
        },
{
    let n: usize = items.len();
    let mut out: Vec<GaugeDataPoint> = Vec::new();
    let mut i: usize = 0;
    while i < n
        invariant
            i <= n,
            n == items@.len(),
            out@.len() == i,
            forall|k: int| 0 <= k < i ==> gauge_data_point_shape(#[trigger] items@[k]),
            forall|k: int| 0 <= k < i ==> gauge_data_point_decodes(#[trigger] items@[k], out@[k]),
        decreases n - i,
    {
        match decode_gauge_data_point(&items[i]) {
            Some(v) => {
                out.push(v);
            },
            None => {
                return None;
            },
        }
        i += 1;
    }
    Some(out)
}

/// A gauge on the wire.
#[derive(Debug, PartialEq, Eq)]
pub struct Gauge {
    pub data_points: Vec<GaugeDataPoint>,
}

/// Whether `j` has the fields of a gauge, each of its kind.
pub open spec fn gauge_shape(j: Json) -> bool {
    &&& list_field(j, "dataPoints"@) is Some
    &&& gauge_data_point_list_shape(list_field(j, "dataPoints"@).unwrap())
}

/// Whether `out` holds the fields of `j`.
pub open spec fn gauge_decodes(j: Json, out: Gauge) -> bool {
    &&& list_field(j, "dataPoints"@) is Some
    &&& gauge_data_point_list_decodes(list_field(j, "dataPoints"@).unwrap(), out.data_points@)
}

/// Reads a gauge.
pub fn decode_gauge(j: &Json) -> (r: Option<Gauge>)
    ensures
        match r {
            Some(out) => gauge_shape(*j) && gauge_decodes(*j, out),
            None => !gauge_shape(*j),
        },
{
    let data_points = match read_list(j, "dataPoints") {
        Some(items) => match decode_gauge_data_point_list(items) {
            Some(v) => v,
            None => {
                return None;
            },
        },
        None => {
            return None;
        },
    };
    Some(Gauge { data_points })
}

/// Whether `a` and `b` hold the same texts and numbers.
pub open spec fn same_gauge(a: Gauge, b: Gauge) -> bool {
    &&& gauge_data_point_list_same(a.data_points@, b.data_points@)
}

/// Two values that hold the fields of `j` hold the same texts and numbers.
pub proof fn lemma_gauge_reading(j: Json, a: Gauge, b: Gauge)
    requires
        gauge_decodes(j, a),
        gauge_decodes(j, b),
    ensures
        same_gauge(a, b),
{
    lemma_gauge_data_point_list_reading(list_field(j, "dataPoints"@).unwrap(), a.data_points@,
        b.data_points@);
}

/// A point of a sum on the wire.
#[derive(Debug, PartialEq, Eq)]
pub struct SumDataPoint {
    pub time_unix_nano: String,
    pub as_double: Double,
    pub attributes: Vec<Attribute>,
}

/// Whether `j` has the fields of a point of a sum, each of its kind.
pub open spec fn sum_data_point_shape(j: Json) -> bool {
    &&& string_field(j, "timeUnixNano"@) is Some
    &&& double_field(j, "asDouble"@) is Some
    &&& list_field_or_empty(j, "attributes"@) is Some
    &&& attribute_list_shape(list_field_or_empty(j, "attributes"@).unwrap())
}

/// Whether `out` holds the fields of `j`.
pub open spec fn sum_data_point_decodes(j: Json, out: SumDataPoint) -> bool {
    &&& string_field(j, "timeUnixNano"@) == Some(out.time_unix_nano@)
    &&& double_field(j, "asDouble"@) == Some(out.as_double)
    &&& list_field_or_empty(j, "attributes"@) is Some
    &&& attribute_list_decodes(list_field_or_empty(j, "attributes"@).unwrap(), out.attributes@)
}

/// Reads a point of a sum.
pub fn decode_sum_data_point(j: &Json) -> (r: Option<SumDataPoint>)
    ensures
        match r {
            Some(out) => sum_data_point_shape(*j) && sum_data_point_decodes(*j, out),
            None => !sum_data_point_shape(*j),
        },
{
    let time_unix_nano = match read_string(j, "timeUnixNano") {
        Some(v) => v,
        None => {
            return None;
        },
    };
    let as_double = match read_double(j, "asDouble") {
        Some(v) => v,
        None => {
            return None;
        },
    };
    let attributes = match j.get("attributes") {
        Some(v) => match v.as_items() {
            Some(items) => match decode_attribute_list(items) {
                Some(v) => v,
                None => {
                    return None;
                },
            },
            None => {
                return None;
            },
        },
        None => Vec::new(),
    };
    Some(SumDataPoint { time_unix_nano, as_double, attributes })
}

/// Whether `a` and `b` hold the same texts and numbers.
pub open spec fn same_sum_data_point(a: SumDataPoint, b: SumDataPoint) -> bool {
    &&& a.time_unix_nano@ == b.time_unix_nano@
    &&& a.as_double == b.as_double
    &&& attribute_list_same(a.attributes@, b.attributes@)
}

/// Two values that hold the fields of `j` hold the same texts and numbers.
pub proof fn lemma_sum_data_point_reading(j: Json, a: SumDataPoint, b: SumDataPoint)
    requires
        sum_data_point_decodes(j, a),
        sum_data_point_decodes(j, b),
    ensures
        same_sum_data_point(a, b),
{
    lemma_attribute_list_reading(list_field_or_empty(j, "attributes"@).unwrap(), a.attributes@,
        b.attributes@);
}

/// Whether two lists hold the same, place by place.
pub open spec fn sum_data_point_list_same(a: Seq<SumDataPoint>, b: Seq<SumDataPoint>) -> bool {
    &&& a.len() == b.len()
    &&& forall|i: int| 0 <= i < a.len() ==> same_sum_data_point(#[trigger] a[i], b[i])
}

/// Two lists that hold what `items` write hold the same.
pub proof fn lemma_sum_data_point_list_reading(items: Seq<Json>, a: Seq<SumDataPoint>,
    b: Seq<SumDataPoint>)
    requires
        sum_data_point_list_decodes(items, a),
        sum_data_point_list_decodes(items, b),
    ensures
        sum_data_point_list_same(a, b),
{
    assert forall|i: int| 0 <= i < a.len() implies same_sum_data_point(#[trigger] a[i], b[i]) by {
        assert(sum_data_point_decodes(items[i], a[i]));
        assert(sum_data_point_decodes(items[i], b[i]));
        lemma_sum_data_point_reading(items[i], a[i], b[i]);
    }
}

/// Whether each of `items` writes a point of a sum.
pub open spec fn sum_data_point_list_shape(items: Seq<Json>) -> bool {
    forall|i: int| 0 <= i < items.len() ==> sum_data_point_shape(#[trigger] items[i])
}

/// Whether `out` holds, place by place, the points of a sum that `items` write.
pub open spec fn sum_data_point_list_decodes(items: Seq<Json>, out: Seq<SumDataPoint>) -> bool {
    &&& out.len() == items.len()
    &&& forall|i: int| 0 <= i < items.len() ==> sum_data_point_decodes(#[trigger] items[i], out[i])
}

/// Reads the points of a sum, in order.
pub fn decode_sum_data_point_list(items: &Vec<Json>) -> (r: Option<Vec<SumDataPoint>>)
    ensures
        match r {
            Some(out) => sum_data_point_list_shape(items@)
                && sum_data_point_list_decodes(items@, out@),
            None => !sum_data_point_list_shape(items@),
        },
{
    let n: usize = items.len();
    let mut out: Vec<SumDataPoint> = Vec::new();
    let mut i: usize = 0;
    while i < n
        invariant
            i <= n,
            n == items@.len(),
            out@.len() == i,
            forall|k: int| 0 <= k < i ==> sum_data_point_shape(#[trigger] items@[k]),
            forall|k: int| 0 <= k < i ==> sum_data_point_decodes(#[trigger] items@[k], out@[k]),
        decreases n - i,
    {
        match decode_sum_data_point(&items[i]) {
            Some(v) => {
                out.push(v);
            },
            None => {
                return None;
            },
        }
        i += 1;
    }
    Some(out)
}

/// A sum on the wire.
#[derive(Debug, PartialEq, Eq)]
pub struct Sum {
    pub data_points: Vec<SumDataPoint>,
    pub aggregation_temporality: i32,
    pub is_monotonic: bool,
}

/// Whether `j` has the fields of a sum, each of its kind.
pub open spec fn sum_shape(j: Json) -> bool {
    &&& list_field(j, "dataPoints"@) is Some
    &&& sum_data_point_list_shape(list_field(j, "dataPoints"@).unwrap())
    &&& signed32_field(j, "aggregationTemporality"@) is Some
    &&& flag_field(j, "isMonotonic"@) is Some
}

/// Whether `out` holds the fields of `j`.
pub open spec fn sum_decodes(j: Json, out: Sum) -> bool {
    &&& list_field(j, "dataPoints"@) is Some
    &&& sum_data_point_list_decodes(list_field(j, "dataPoints"@).unwrap(), out.data_points@)
    &&& signed32_field(j, "aggregationTemporality"@) == Some(out.aggregation_temporality)
    &&& flag_field(j, "isMonotonic"@) == Some(out.is_monotonic)
}

/// Reads a sum.
pub fn decode_sum(j: &Json) -> (r: Option<Sum>)
    ensures
        match r {
            Some(out) => sum_shape(*j) && sum_decodes(*j, out),
            None => !sum_shape(*j),
        },
{
    let data_points = match read_list(j, "dataPoints") {
        Some(items) => match decode_sum_data_point_list(items) {
            Some(v) => v,
            None => {
                return None;
            },
        },
        None => {
            return None;
        },
    };
    let aggregation_temporality = match read_signed32(j, "aggregationTemporality") {
        Some(v) => v,
        None => {
            return None;
        },
    };
    let is_monotonic = match read_flag(j, "isMonotonic") {
        Some(v) => v,
        None => {
            return None;
        },
    };
    Some(Sum { data_points, aggregation_temporality, is_monotonic })
}

/// Whether `a` and `b` hold the same texts and numbers.
pub open spec fn same_sum(a: Sum, b: Sum) -> bool {
    &&& sum_data_point_list_same(a.data_points@, b.data_points@)
    &&& a.aggregation_temporality == b.aggregation_temporality
    &&& a.is_monotonic == b.is_monotonic
}

/// Two values that hold the fields of `j` hold the same texts and numbers.
pub proof fn lemma_sum_reading(j: Json, a: Sum, b: Sum)
    requires
        sum_decodes(j, a),
        sum_decodes(j, b),
    ensures
        same_sum(a, b),
{
    lemma_sum_data_point_list_reading(list_field(j, "dataPoints"@).unwrap(), a.data_points@,
        b.data_points@);
}

/// A point of a histogram on the wire; the counts are written in decimal.
#[derive(Debug, PartialEq, Eq)]
pub struct HistogramDataPoint {
    pub time_unix_nano: String,
    pub attributes: Vec<Attribute>,
    pub count: String,
    pub sum: Option<Double>,
    pub bucket_counts: Vec<String>,
    pub explicit_bounds: Vec<Double>,
    pub min: Option<Double>,
    pub max: Option<Double>,
}

/// Whether `j` has the fields of a point of a histogram, each of its kind.
pub open spec fn histogram_data_point_shape(j: Json) -> bool {
    &&& string_field(j, "timeUnixNano"@) is Some
    &&& list_field_or_empty(j, "attributes"@) is Some
    &&& attribute_list_shape(list_field_or_empty(j, "attributes"@).unwrap())
    &&& string_field(j, "count"@) is Some
    &&& optional_double_field(j, "sum"@) is Some
    &&& list_field_or_empty(j, "bucketCounts"@) is Some
    &&& text_list_shape(list_field_or_empty(j, "bucketCounts"@).unwrap())
    &&& list_field_or_empty(j, "explicitBounds"@) is Some
    &&& double_list_shape(list_field_or_empty(j, "explicitBounds"@).unwrap())
    &&& optional_double_field(j, "min"@) is Some
    &&& optional_double_field(j, "max"@) is Some
}

/// Whether `out` holds the fields of `j`.
pub open spec fn histogram_data_point_decodes(j: Json, out: HistogramDataPoint) -> bool {
    &&& string_field(j, "timeUnixNano"@) == Some(out.time_unix_nano@)
    &&& list_field_or_empty(j, "attributes"@) is Some
    &&& attribute_list_decodes(list_field_or_empty(j, "attributes"@).unwrap(), out.attributes@)
    &&& string_field(j, "count"@) == Some(out.count@)
    &&& optional_double_field(j, "sum"@) == Some(out.sum)
    &&& list_field_or_empty(j, "bucketCounts"@) is Some
    &&& text_list_decodes(list_field_or_empty(j, "bucketCounts"@).unwrap(), out.bucket_counts@)
    &&& list_field_or_empty(j, "explicitBounds"@) is Some
    &&& double_list_decodes(list_field_or_empty(j, "explicitBounds"@).unwrap(),
        out.explicit_bounds@)
    &&& optional_double_field(j, "min"@) == Some(out.min)
    &&& optional_double_field(j, "max"@) == Some(out.max)
}

/// Reads a point of a histogram.
pub fn decode_histogram_data_point(j: &Json) -> (r: Option<HistogramDataPoint>)
    ensures
        match r {
            Some(out) => histogram_data_point_shape(*j) && histogram_data_point_decodes(*j, out),
            None => !histogram_data_point_shape(*j),
        },
{
    let time_unix_nano = match read_string(j, "timeUnixNano") {
        Some(v) => v,
        None => {
            return None;
        },
    };
    let attributes = match j.get("attributes") {
        Some(v) => match v.as_items() {
            Some(items) => match decode_attribute_list(items) {
                Some(v) => v,
                None => {
                    return None;
                },
            },
            None => {
                return None;
            },
        },
        None => Vec::new(),
    };
    let count = match read_string(j, "count") {
        Some(v) => v,
        None => {
            return None;
        },
    };
    let sum = match read_optional_double(j, "sum") {
        Some(v) => v,
        None => {
            return None;
        },
    };
    let bucket_counts = match j.get("bucketCounts") {
        Some(v) => match v.as_items() {
            Some(items) => match decode_text_list(items) {
                Some(v) => v,
                None => {
                    return None;
                },
            },
            None => {
                return None;
            },
        },
        None => Vec::new(),
    };
    let explicit_bounds = match j.get("explicitBounds") {
        Some(v) => match v.as_items() {
            Some(items) => match decode_double_list(items) {
                Some(v) => v,
                None => {
                    return None;
                },
            },
            None => {
                return None;
            },
        },
        None => Vec::new(),
    };
    let min = match read_optional_double(j, "min") {
        Some(v) => v,
        None => {
            return None;
        },
    };
    let max = match read_optional_double(j, "max") {
        Some(v) => v,
        None => {
            return None;
        },
    };
    Some(HistogramDataPoint { time_unix_nano, attributes, count, sum, bucket_counts,
        explicit_bounds, min, max })
}

/// Whether `a` and `b` hold the same texts and numbers.
pub open spec fn same_histogram_data_point(a: HistogramDataPoint, b: HistogramDataPoint) -> bool {
    &&& a.time_unix_nano@ == b.time_unix_nano@
    &&& attribute_list_same(a.attributes@, b.attributes@)
    &&& a.count@ == b.count@
    &&& a.sum == b.sum
    &&& text_list_same(a.bucket_counts@, b.bucket_counts@)
    &&& double_list_same(a.explicit_bounds@, b.explicit_bounds@)
    &&& a.min == b.min
    &&& a.max == b.max
}

/// Two values that hold the fields of `j` hold the same texts and numbers.
pub proof fn lemma_histogram_data_point_reading(j: Json, a: HistogramDataPoint,
    b: HistogramDataPoint)
    requires
        histogram_data_point_decodes(j, a),
        histogram_data_point_decodes(j, b),
    ensures
        same_histogram_data_point(a, b),
{
    lemma_attribute_list_reading(list_field_or_empty(j, "attributes"@).unwrap(), a.attributes@,
        b.attributes@);
    lemma_text_list_reading(list_field_or_empty(j, "bucketCounts"@).unwrap(), a.bucket_counts@,
        b.bucket_counts@);
    lemma_double_list_reading(list_field_or_empty(j, "explicitBounds"@).unwrap(),
        a.explicit_bounds@, b.explicit_bounds@);
}

/// Whether two lists hold the same, place by place.
pub open spec fn histogram_data_point_list_same(a: Seq<HistogramDataPoint>,
    b: Seq<HistogramDataPoint>) -> bool {
    &&& a.len() == b.len()
    &&& forall|i: int| 0 <= i < a.len() ==> same_histogram_data_point(#[trigger] a[i], b[i])
}

/// Two lists that hold what `items` write hold the same.
pub proof fn lemma_histogram_data_point_list_reading(items: Seq<Json>, a: Seq<HistogramDataPoint>,
    b: Seq<HistogramDataPoint>)
    requires
        histogram_data_point_list_decodes(items, a),
        histogram_data_point_list_decodes(items, b),
    ensures
        histogram_data_point_list_same(a, b),
{
    assert forall|i: int| 0 <= i < a.len() implies same_histogram_data_point(#[trigger] a[i],
        b[i]) by {
        assert(histogram_data_point_decodes(items[i], a[i]));
        assert(histogram_data_point_decodes(items[i], b[i]));
        lemma_histogram_data_point_reading(items[i], a[i], b[i]);
    }
}

/// Whether each of `items` writes a point of a histogram.
pub open spec fn histogram_data_point_list_shape(items: Seq<Json>) -> bool {
    forall|i: int| 0 <= i < items.len() ==> histogram_data_point_shape(#[trigger] items[i])
}

/// Whether `out` holds, place by place, the points of a histogram that `items` write.
pub open spec fn histogram_data_point_list_decodes(items: Seq<Json>,
    out: Seq<HistogramDataPoint>) -> bool {
    &&& out.len() == items.len()
    &&& forall|i: int| 0 <= i < items.len()
        ==> histogram_data_point_decodes(#[trigger] items[i], out[i])
}

/// Reads the points of a histogram, in order.
pub fn decode_histogram_data_point_list(items: &Vec<Json>) -> (r: Option<Vec<HistogramDataPoint>>)
    ensures
        match r {
            Some(out) => histogram_data_point_list_shape(items@)
                && histogram_data_point_list_decodes(items@, out@),
            None => !histogram_data_point_list_shape(items@),
        },
{
    let n: usize = items.len();
    let mut out: Vec<HistogramDataPoint> = Vec::new();
    let mut i: usize = 0;
    while i < n
        invariant
            i <= n,
            n == items@.len(),
            out@.len() == i,
            forall|k: int| 0 <= k < i ==> histogram_data_point_shape(#[trigger] items@[k]),
            forall|k: int| 0 <= k < i
                ==> histogram_data_point_decodes(#[trigger] items@[k], out@[k]),
        decreases n - i,
    {
        match decode_histogram_data_point(&items[i]) {
            Some(v) => {
                out.push(v);
            },
            None => {
                return None;
            },
        }
        i += 1;
    }
    Some(out)
}

/// A histogram on the wire.
#[derive(Debug, PartialEq, Eq)]
pub struct Histogram {
    pub data_points: Vec<HistogramDataPoint>,
    pub aggregation_temporality: i32,
}

/// Whether `j` has the fields of a histogram, each of its kind.
pub open spec fn histogram_shape(j: Json) -> bool {
    &&& list_field(j, "dataPoints"@) is Some
    &&& histogram_data_point_list_shape(list_field(j, "dataPoints"@).unwrap())
    &&& signed32_field(j, "aggregationTemporality"@) is Some
}

/// Whether `out` holds the fields of `j`.
pub open spec fn histogram_decodes(j: Json, out: Histogram) -> bool {
    &&& list_field(j, "dataPoints"@) is Some
    &&& histogram_data_point_list_decodes(list_field(j, "dataPoints"@).unwrap(), out.data_points@)
    &&& signed32_field(j, "aggregationTemporality"@) == Some(out.aggregation_temporality)
}

/// Reads a histogram.
pub fn decode_histogram(j: &Json) -> (r: Option<Histogram>)
    ensures
        match r {
            Some(out) => histogram_shape(*j) && histogram_decodes(*j, out),
            None => !histogram_shape(*j),
        },
{
    let data_points = match read_list(j, "dataPoints") {
        Some(items) => match decode_histogram_data_point_list(items) {
            Some(v) => v,
            None => {
                return None;
            },
        },
        None => {
            return None;
        },
    };
    let aggregation_temporality = match read_signed32(j, "aggregationTemporality") {
        Some(v) => v,
        None => {
            return None;
        },
    };
    Some(Histogram { data_points, aggregation_temporality })
}

/// Whether `a` and `b` hold the same texts and numbers.
pub open spec fn same_histogram(a: Histogram, b: Histogram) -> bool {
    &&& histogram_data_point_list_same(a.data_points@, b.data_points@)
    &&& a.aggregation_temporality == b.aggregation_temporality
}

/// Two values that hold the fields of `j` hold the same texts and numbers.
pub proof fn lemma_histogram_reading(j: Json, a: Histogram, b: Histogram)
    requires
        histogram_decodes(j, a),
        histogram_decodes(j, b),
    ensures
        same_histogram(a, b),
{
    lemma_histogram_data_point_list_reading(list_field(j, "dataPoints"@).unwrap(), a.data_points@,
        b.data_points@);
}

/// A metric on the wire: a name, and a gauge, a sum or a histogram.
#[derive(Debug, PartialEq, Eq)]
pub struct Metric {
    pub name: String,
    pub unit: Option<String>,
    pub gauge: Option<Gauge>,
    pub sum: Option<Sum>,
    pub histogram: Option<Histogram>,
}

/// Whether `j` has the fields of a metric, each of its kind.
pub open spec fn metric_shape(j: Json) -> bool {
    &&& string_field(j, "name"@) is Some
    &&& optional_string_field(j, "unit"@) is Some
    &&& match j.present("gauge"@) {
        Some(v) => gauge_shape(v),
        None => true,
    }
    &&& match j.present("sum"@) {
        Some(v) => sum_shape(v),
        None => true,
    }
    &&& match j.present("histogram"@) {
        Some(v) => histogram_shape(v),
        None => true,
    }
}

/// Whether `out` holds the fields of `j`.
pub open spec fn metric_decodes(j: Json, out: Metric) -> bool {
    &&& string_field(j, "name"@) == Some(out.name@)
    &&& optional_string_field(j, "unit"@) == Some(optional_text(out.unit))
    &&& match (j.present("gauge"@), out.gauge) {
        (Some(v), Some(o)) => gauge_decodes(v, o),
        (None, None) => true,
        _ => false,
    }
    &&& match (j.present("sum"@), out.sum) {
        (Some(v), Some(o)) => sum_decodes(v, o),
        (None, None) => true,
        _ => false,
    }
    &&& match (j.present("histogram"@), out.histogram) {
        (Some(v), Some(o)) => histogram_decodes(v, o),
        (None, None) => true,
        _ => false,
    }
}

/// Reads a metric.
pub fn decode_metric(j: &Json) -> (r: Option<Metric>)
    ensures
        match r {
            Some(out) => metric_shape(*j) && metric_decodes(*j, out),
            None => !metric_shape(*j),
        },
{
    let name = match read_string(j, "name") {
        Some(v) => v,
        None => {
            return None;
        },
    };
    let unit = match read_optional_string(j, "unit") {
        Some(v) => v,
        None => {
            return None;
        },
    };
    let gauge = match j.get_present("gauge") {
        Some(v) => match decode_gauge(v) {
            Some(o) => Some(o),
            None => {
                return None;
            },
        },
        None => None,
    };
    let sum = match j.get_present("sum") {
        Some(v) => match decode_sum(v) {
            Some(o) => Some(o),
            None => {
                return None;
            },
        },
        None => None,
    };
    let histogram = match j.get_present("histogram") {
        Some(v) => match decode_histogram(v) {
            Some(o) => Some(o),
            None => {
                return None;
            },
        },
        None => None,
    };
    Some(Metric { name, unit, gauge, sum, histogram })
}

/// Whether `a` and `b` hold the same texts and numbers.
pub open spec fn same_metric(a: Metric, b: Metric) -> bool {
    &&& a.name@ == b.name@
    &&& optional_text(a.unit) == optional_text(b.unit)
    &&& match (a.gauge, b.gauge) {
        (Some(x), Some(y)) => same_gauge(x, y),
        (None, None) => true,
        _ => false,
    }
    &&& match (a.sum, b.sum) {
        (Some(x), Some(y)) => same_sum(x, y),
        (None, None) => true,
        _ => false,
    }
    &&& match (a.histogram, b.histogram) {
        (Some(x), Some(y)) => same_histogram(x, y),
        (None, None) => true,
        _ => false,
    }
}

/// Two values that hold the fields of `j` hold the same texts and numbers.
pub proof fn lemma_metric_reading(j: Json, a: Metric, b: Metric)
    requires
        metric_decodes(j, a),
        metric_decodes(j, b),
    ensures
        same_metric(a, b),
{
    if j.present("gauge"@) is Some {
        lemma_gauge_reading(j.present("gauge"@).unwrap(), a.gauge.unwrap(), b.gauge.unwrap());
    }
    if j.present("sum"@) is Some {
        lemma_sum_reading(j.present("sum"@).unwrap(), a.sum.unwrap(), b.sum.unwrap());
    }
    if j.present("histogram"@) is Some {
        lemma_histogram_reading(j.present("histogram"@).unwrap(), a.histogram.unwrap(),
            b.histogram.unwrap());
    }
}

/// Whether two lists hold the same, place by place.
pub open spec fn metric_list_same(a: Seq<Metric>, b: Seq<Metric>) -> bool {
    &&& a.len() == b.len()
    &&& forall|i: int| 0 <= i < a.len() ==> same_metric(#[trigger] a[i], b[i])
}

/// Two lists that hold what `items` write hold the same.
pub proof fn lemma_metric_list_reading(items: Seq<Json>, a: Seq<Metric>, b: Seq<Metric>)
    requires
        metric_list_decodes(items, a),
        metric_list_decodes(items, b),
    ensures
        metric_list_same(a, b),
{
    assert forall|i: int| 0 <= i < a.len() implies same_metric(#[trigger] a[i], b[i]) by {
        assert(metric_decodes(items[i], a[i]));
        assert(metric_decodes(items[i], b[i]));
        lemma_metric_reading(items[i], a[i], b[i]);
    }
}

/// Whether each of `items` writes a metric.
pub open spec fn metric_list_shape(items: Seq<Json>) -> bool {
    forall|i: int| 0 <= i < items.len() ==> metric_shape(#[trigger] items[i])
}

/// Whether `out` holds, place by place, the metrics that `items` write.
pub open spec fn metric_list_decodes(items: Seq<Json>, out: Seq<Metric>) -> bool {
    &&& out.len() == items.len()
    &&& forall|i: int| 0 <= i < items.len() ==> metric_decodes(#[trigger] items[i], out[i])
}

/// Reads the metrics, in order.
pub fn decode_metric_list(items: &Vec<Json>) -> (r: Option<Vec<Metric>>)
    ensures
        match r {
            Some(out) => metric_list_shape(items@) && metric_list_decodes(items@, out@),
            None => !metric_list_shape(items@),
        },
{
    let n: usize = items.len();
    let mut out: Vec<Metric> = Vec::new();
    let mut i: usize = 0;
    while i < n
        invariant
            i <= n,
            n == items@.len(),
            out@.len() == i,
            forall|k: int| 0 <= k < i ==> metric_shape(#[trigger] items@[k]),
            forall|k: int| 0 <= k < i ==> metric_decodes(#[trigger] items@[k], out@[k]),
        decreases n - i,
    {
        match decode_metric(&items[i]) {
            Some(v) => {
                out.push(v);
            },
            None => {
                return None;
            },
        }
        i += 1;
    }
    Some(out)
}

/// The metrics of one scope.
#[derive(Debug, PartialEq, Eq)]
pub struct ScopeMetrics {
    pub metrics: Vec<Metric>,
}

/// Whether `j` has the fields of the metrics of a scope, each of its kind.
pub open spec fn scope_metrics_shape(j: Json) -> bool {
    &&& list_field_or_empty(j, "metrics"@) is Some
    &&& metric_list_shape(list_field_or_empty(j, "metrics"@).unwrap())
}

/// Whether `out` holds the fields of `j`.
pub open spec fn scope_metrics_decodes(j: Json, out: ScopeMetrics) -> bool {
    &&& list_field_or_empty(j, "metrics"@) is Some
    &&& metric_list_decodes(list_field_or_empty(j, "metrics"@).unwrap(), out.metrics@)
}

/// Reads the metrics of a scope.
pub fn decode_scope_metrics(j: &Json) -> (r: Option<ScopeMetrics>)
    ensures
        match r {
            Some(out) => scope_metrics_shape(*j) && scope_metrics_decodes(*j, out),
            None => !scope_metrics_shape(*j),
        },
{
    let metrics = match j.get("metrics") {
        Some(v) => match v.as_items() {
            Some(items) => match decode_metric_list(items) {
                Some(v) => v,
                None => {
                    return None;
                },
            },
            None => {
                return None;
            },
        },
        None => Vec::new(),
    };
    Some(ScopeMetrics { metrics })
}

/// Whether `a` and `b` hold the same texts and numbers.
pub open spec fn same_scope_metrics(a: ScopeMetrics, b: ScopeMetrics) -> bool {
    &&& metric_list_same(a.metrics@, b.metrics@)
}

/// Two values that hold the fields of `j` hold the same texts and numbers.
pub proof fn lemma_scope_metrics_reading(j: Json, a: ScopeMetrics, b: ScopeMetrics)
    requires
        scope_metrics_decodes(j, a),
        scope_metrics_decodes(j, b),
    ensures
        same_scope_metrics(a, b),
{
    lemma_metric_list_reading(list_field_or_empty(j, "metrics"@).unwrap(), a.metrics@, b.metrics@);
}

/// Whether two lists hold the same, place by place.
pub open spec fn scope_metrics_list_same(a: Seq<ScopeMetrics>, b: Seq<ScopeMetrics>) -> bool {
    &&& a.len() == b.len()
    &&& forall|i: int| 0 <= i < a.len() ==> same_scope_metrics(#[trigger] a[i], b[i])
}

/// Two lists that hold what `items` write hold the same.
pub proof fn lemma_scope_metrics_list_reading(items: Seq<Json>, a: Seq<ScopeMetrics>,
    b: Seq<ScopeMetrics>)
    requires
        scope_metrics_list_decodes(items, a),
        scope_metrics_list_decodes(items, b),
    ensures
        scope_metrics_list_same(a, b),
{
    assert forall|i: int| 0 <= i < a.len() implies same_scope_metrics(#[trigger] a[i], b[i]) by {
        assert(scope_metrics_decodes(items[i], a[i]));
        assert(scope_metrics_decodes(items[i], b[i]));
        lemma_scope_metrics_reading(items[i], a[i], b[i]);
    }
}

/// Whether each of `items` writes the metrics of a scope.
pub open spec fn scope_metrics_list_shape(items: Seq<Json>) -> bool {
    forall|i: int| 0 <= i < items.len() ==> scope_metrics_shape(#[trigger] items[i])
}

/// Whether `out` holds, place by place, the metrics of the scopes that `items` write.
pub open spec fn scope_metrics_list_decodes(items: Seq<Json>, out: Seq<ScopeMetrics>) -> bool {
    &&& out.len() == items.len()
    &&& forall|i: int| 0 <= i < items.len() ==> scope_metrics_decodes(#[trigger] items[i], out[i])
}

/// Reads the metrics of the scopes, in order.
pub fn decode_scope_metrics_list(items: &Vec<Json>) -> (r: Option<Vec<ScopeMetrics>>)
    ensures
        match r {
            Some(out) => scope_metrics_list_shape(items@)
                && scope_metrics_list_decodes(items@, out@),
            None => !scope_metrics_list_shape(items@),
        },
{
    let n: usize = items.len();
    let mut out: Vec<ScopeMetrics> = Vec::new();
    let mut i: usize = 0;
    while i < n
        invariant
            i <= n,
            n == items@.len(),
            out@.len() == i,
            forall|k: int| 0 <= k < i ==> scope_metrics_shape(#[trigger] items@[k]),
            forall|k: int| 0 <= k < i ==> scope_metrics_decodes(#[trigger] items@[k], out@[k]),
        decreases n - i,
    {
        match decode_scope_metrics(&items[i]) {
            Some(v) => {
                out.push(v);
            },
            None => {
                return None;
            },
        }
        i += 1;
    }
    Some(out)
}

/// The metrics of one resource, scope by scope.
#[derive(Debug, PartialEq, Eq)]
pub struct ResourceMetrics {
    pub resource: Option<Resource>,
    pub scope_metrics: Vec<ScopeMetrics>,
}

/// Whether `j` has the fields of the metrics of a resource, each of its kind.
pub open spec fn resource_metrics_shape(j: Json) -> bool {
    &&& match j.present("resource"@) {
        Some(v) => resource_shape(v),
        None => true,
    }
    &&& list_field_or_empty(j, "scopeMetrics"@) is Some
    &&& scope_metrics_list_shape(list_field_or_empty(j, "scopeMetrics"@).unwrap())
}

/// Whether `out` holds the fields of `j`.
pub open spec fn resource_metrics_decodes(j: Json, out: ResourceMetrics) -> bool {
    &&& match (j.present("resource"@), out.resource) {
        (Some(v), Some(o)) => resource_decodes(v, o),
        (None, None) => true,
        _ => false,
    }
    &&& list_field_or_empty(j, "scopeMetrics"@) is Some
    &&& scope_metrics_list_decodes(list_field_or_empty(j, "scopeMetrics"@).unwrap(),
        out.scope_metrics@)
}

/// Reads the metrics of a resource.
pub fn decode_resource_metrics(j: &Json) -> (r: Option<ResourceMetrics>)
    ensures
        match r {
            Some(out) => resource_metrics_shape(*j) && resource_metrics_decodes(*j, out),
            None => !resource_metrics_shape(*j),
        },
{
    let resource = match j.get_present("resource") {
        Some(v) => match decode_resource(v) {
            Some(o) => Some(o),
            None => {
                return None;
            },
        },
        None => None,
    };
    let scope_metrics = match j.get("scopeMetrics") {
        Some(v) => match v.as_items() {
            Some(items) => match decode_scope_metrics_list(items) {
                Some(v) => v,
                None => {
                    return None;
                },
            },
            None => {
                return None;
            },
        },
        None => Vec::new(),
    };
    Some(ResourceMetrics { resource, scope_metrics })
}

/// Whether `a` and `b` hold the same texts and numbers.
pub open spec fn same_resource_metrics(a: ResourceMetrics, b: ResourceMetrics) -> bool {
    &&& match (a.resource, b.resource) {
        (Some(x), Some(y)) => same_resource(x, y),
        (None, None) => true,
        _ => false,
    }
    &&& scope_metrics_list_same(a.scope_metrics@, b.scope_metrics@)
}

/// Two values that hold the fields of `j` hold the same texts and numbers.
pub proof fn lemma_resource_metrics_reading(j: Json, a: ResourceMetrics, b: ResourceMetrics)
    requires
        resource_metrics_decodes(j, a),
        resource_metrics_decodes(j, b),
    ensures
        same_resource_metrics(a, b),
{
    if j.present("resource"@) is Some {
        lemma_resource_reading(j.present("resource"@).unwrap(), a.resource.unwrap(),
            b.resource.unwrap());
    }
    lemma_scope_metrics_list_reading(list_field_or_empty(j, "scopeMetrics"@).unwrap(),
        a.scope_metrics@, b.scope_metrics@);
}

/// Whether two lists hold the same, place by place.
pub open spec fn resource_metrics_list_same(a: Seq<ResourceMetrics>,
    b: Seq<ResourceMetrics>) -> bool {
    &&& a.len() == b.len()
    &&& forall|i: int| 0 <= i < a.len() ==> same_resource_metrics(#[trigger] a[i], b[i])
}

/// Two lists that hold what `items` write hold the same.
pub proof fn lemma_resource_metrics_list_reading(items: Seq<Json>, a: Seq<ResourceMetrics>,
    b: Seq<ResourceMetrics>)
    requires
        resource_metrics_list_decodes(items, a),
        resource_metrics_list_decodes(items, b),
    ensures
        resource_metrics_list_same(a, b),
{
    assert forall|i: int| 0 <= i < a.len() implies same_resource_metrics(#[trigger] a[i], b[i]) by {
        assert(resource_metrics_decodes(items[i], a[i]));
        assert(resource_metrics_decodes(items[i], b[i]));
        lemma_resource_metrics_reading(items[i], a[i], b[i]);
    }
}

/// Whether each of `items` writes the metrics of a resource.
pub open spec fn resource_metrics_list_shape(items: Seq<Json>) -> bool {
    forall|i: int| 0 <= i < items.len() ==> resource_metrics_shape(#[trigger] items[i])
}

/// Whether `out` holds, place by place, the metrics of the resources that `items` write.
pub open spec fn resource_metrics_list_decodes(items: Seq<Json>,
    out: Seq<ResourceMetrics>) -> bool {
    &&& out.len() == items.len()
    &&& forall|i: int| 0 <= i < items.len()
        ==> resource_metrics_decodes(#[trigger] items[i], out[i])
}

/// Reads the metrics of the resources, in order.
pub fn decode_resource_metrics_list(items: &Vec<Json>) -> (r: Option<Vec<ResourceMetrics>>)
    ensures
        match r {
            Some(out) => resource_metrics_list_shape(items@)
                && resource_metrics_list_decodes(items@, out@),
            None => !resource_metrics_list_shape(items@),
        },
{
    let n: usize = items.len();
    let mut out: Vec<ResourceMetrics> = Vec::new();
    let mut i: usize = 0;
    while i < n
        invariant
            i <= n,
            n == items@.len(),
            out@.len() == i,
            forall|k: int| 0 <= k < i ==> resource_metrics_shape(#[trigger] items@[k]),
            forall|k: int| 0 <= k < i ==> resource_metrics_decodes(#[trigger] items@[k], out@[k]),
        decreases n - i,
    {
        match decode_resource_metrics(&items[i]) {
            Some(v) => {
                out.push(v);
            },
            None => {
                return None;
            },
        }
        i += 1;
    }
    Some(out)
}

/// A metrics message: the metrics of each resource.
#[derive(Debug, PartialEq, Eq)]
pub struct MetricsData {
    pub resource_metrics: Vec<ResourceMetrics>,
}

/// Whether `j` has the fields of a metrics message, each of its kind.
pub open spec fn metrics_data_shape(j: Json) -> bool {
    &&& list_field(j, "resourceMetrics"@) is Some
    &&& resource_metrics_list_shape(list_field(j, "resourceMetrics"@).unwrap())
}

/// Whether `out` holds the fields of `j`.
pub open spec fn metrics_data_decodes(j: Json, out: MetricsData) -> bool {
    &&& list_field(j, "resourceMetrics"@) is Some
    &&& resource_metrics_list_decodes(list_field(j, "resourceMetrics"@).unwrap(),
        out.resource_metrics@)
}

/// Reads a metrics message.
pub fn decode_metrics_data(j: &Json) -> (r: Option<MetricsData>)
    ensures
        match r {
            Some(out) => metrics_data_shape(*j) && metrics_data_decodes(*j, out),
            None => !metrics_data_shape(*j),
        },
{
    let resource_metrics = match read_list(j, "resourceMetrics") {
        Some(items) => match decode_resource_metrics_list(items) {
            Some(v) => v,
            None => {
                return None;
            },
        },
        None => {
            return None;
        },
    };
    Some(MetricsData { resource_metrics })
}

/// Whether `a` and `b` hold the same texts and numbers.
pub open spec fn same_metrics_data(a: MetricsData, b: MetricsData) -> bool {
    &&& resource_metrics_list_same(a.resource_metrics@, b.resource_metrics@)
}

/// Two values that hold the fields of `j` hold the same texts and numbers.
pub proof fn lemma_metrics_data_reading(j: Json, a: MetricsData, b: MetricsData)
    requires
        metrics_data_decodes(j, a),
        metrics_data_decodes(j, b),
    ensures
        same_metrics_data(a, b),
{
    lemma_resource_metrics_list_reading(list_field(j, "resourceMetrics"@).unwrap(),
        a.resource_metrics@, b.resource_metrics@);
}

/// The payload of a metric that has exactly one.
#[derive(Debug, PartialEq, Eq)]
pub enum ValidatedMetricData {
    Gauge(Gauge),
    Sum(Sum),
    Histogram(Histogram),
}

/// A metric with a name that is not blank and with exactly one payload.
#[derive(Debug, PartialEq, Eq)]
pub struct ValidatedMetric {
    pub name: String,
    pub unit: Option<String>,
    pub data: ValidatedMetricData,
}

/// Why a metric on the wire is refused.
#[derive(Clone, Copy, Debug, PartialEq, Eq, Structural)]
pub enum ValidationError {
    /// The metric has no payload, or more than one.
    InvalidMetricType,
    /// The name of the metric is blank.
    EmptyMetricName,
}

/// How many of a gauge, a sum and a histogram a metric has.
pub open spec fn payload_count(metric: Metric) -> nat {
    (if metric.gauge is Some {
        1nat
    } else {
        0nat
    }) + (if metric.sum is Some {
        1nat
    } else {
        0nat
    }) + (if metric.histogram is Some {
        1nat
    } else {
        0nat
    })
}

/// Why a metric is refused, if it is: for a blank name, else for having no
/// payload or more than one.
pub open spec fn metric_error(metric: Metric) -> Option<ValidationError> {
    if is_blank(metric.name@) {
        Some(ValidationError::EmptyMetricName)
    } else if payload_count(metric) != 1 {
        Some(ValidationError::InvalidMetricType)
    } else {
        None
    }
}

/// The payload of a metric that has exactly one.
pub open spec fn only_payload(metric: Metric) -> ValidatedMetricData {
    match (metric.gauge, metric.sum, metric.histogram) {
        (Some(gauge), _, _) => ValidatedMetricData::Gauge(gauge),
        (_, Some(sum), _) => ValidatedMetricData::Sum(sum),
        (_, _, Some(histogram)) => ValidatedMetricData::Histogram(histogram),
        _ => arbitrary(),
    }
}

impl ValidatedMetric {
    /// Accepts a metric whose name is not blank and which has exactly one payload.
    pub fn parse(metric: Metric) -> (r: Result<ValidatedMetric, ValidationError>)
        ensures
            match r {
                Ok(v) => {
                    &&& metric_error(metric) is None
                    &&& v.name == metric.name
                    &&& v.unit == metric.unit
                    &&& v.data == only_payload(metric)
                },
                Err(e) => metric_error(metric) == Some(e),
            },
    {
        if blank(metric.name.as_str()) {
            return Err(ValidationError::EmptyMetricName);
        }
        let data = match (metric.gauge, metric.sum, metric.histogram) {
            (Some(gauge), None, None) => ValidatedMetricData::Gauge(gauge),
            (None, Some(sum), None) => ValidatedMetricData::Sum(sum),
            (None, None, Some(histogram)) => ValidatedMetricData::Histogram(histogram),
            _ => {
                return Err(ValidationError::InvalidMetricType);
            },
        };
        Ok(ValidatedMetric { name: metric.name, unit: metric.unit, data })
    }
}

impl ValidationError {
    /// The error in words.
    pub open spec fn text(self) -> Seq<char> {
        match self {
            ValidationError::InvalidMetricType =>
                "metric must have exactly one type (gauge, sum, or histogram)"@,
            ValidationError::EmptyMetricName => "metric name cannot be empty"@,
        }
    }

    /// The error in words.
    pub fn message(&self) -> (r: String)
        ensures
            r@ == self.text(),
    {
        match self {
            ValidationError::InvalidMetricType =>
                "metric must have exactly one type (gauge, sum, or histogram)".to_owned(),
            ValidationError::EmptyMetricName => "metric name cannot be empty".to_owned(),
        }
    }
}

} // verus!
