use vstd::prelude::*;
use crate::value::Value;
use crate::value::ValueView;

verus! {

#[verifier::external_type_specification]
#[verifier::external_body]
pub struct ExJsonValue(json::JsonValue);

/// What the external parser yields for a given input text: `None` where the
/// text is not well-formed, otherwise the document value it describes.
pub uninterp spec fn spec_parsed(s: Seq<char>) -> Option<ValueView>;

/// The pretty-printed serialization of a document value, indented by four
/// spaces per nesting level.
pub uninterp spec fn spec_prettied(v: ValueView) -> Seq<char>;

/// The compact serialization of a document value.
pub uninterp spec fn spec_dumped(v: ValueView) -> Seq<char>;

/// The signed integer a numeral's parts (sign, mantissa, exponent)
/// describe: the exact value when the numeral is integral (exponent 0) and
/// representable as an `i64`, and 0 for any other numeral.
pub open spec fn spec_parts_to_int(parts: (bool, u64, i16)) -> int {
    if parts.2 != 0 {
        0
    } else if parts.0 {
        if parts.1 as int <= i64::MAX as int {
            parts.1 as int
        } else {
            0
        }
    } else {
        if parts.1 as int <= 9223372036854775808 {
            -(parts.1 as int)
        } else {
            0
        }
    }
}

/// Rebuilds the signed integer a numeral's parts describe, with checked
/// arithmetic throughout; the smallest `i64` is handled exactly.
fn parts_to_i64(parts: (bool, u64, i16)) -> (r: i64)
    ensures
        r as int == spec_parts_to_int(parts),
{
    if parts.2 != 0 {
        0
    } else if parts.0 {
        if parts.1 <= 9223372036854775807u64 {
            parts.1 as i64
        } else {
            0
        }
    } else {
        if parts.1 == 9223372036854775808u64 {
            i64::MIN
        } else if parts.1 < 9223372036854775808u64 {
            -(parts.1 as i64)
        } else {
            0
        }
    }
}

/// The conversion step shared by `parse_document`: relies on the json
/// crate's `JsonValue` variants, one arm per variant, moving the contents
/// into this library's `Value` and reading each numeral through
/// `Number::as_parts` and the verified `parts_to_i64` (a numeral that is
/// not an integer in `i64` range reads as 0).
#[verifier::external_body]
fn value_from_json(j: &json::JsonValue) -> Value {
    match j {
        json::JsonValue::Null => Value::Null,
        json::JsonValue::Boolean(b) => Value::Bool(*b),
        json::JsonValue::Number(n) => Value::Num(parts_to_i64(n.as_parts())),
        json::JsonValue::Short(s) => Value::Str(s.as_str().to_string()),
        json::JsonValue::String(s) => Value::Str(s.clone()),
        json::JsonValue::Array(a) => Value::Arr(a.iter().map(value_from_json).collect()),
        json::JsonValue::Object(o) => Value::Obj(
            o.iter().map(|(k, v)| (k.to_string(), value_from_json(v))).collect(),
        ),
    }
}

/// The conversion step shared by `pretty_document` and `dump_document`:
/// relies on the json crate's `JsonValue` constructors, rebuilding a
/// `Value` of this library as the equivalent `JsonValue` with array order
/// and object key order kept; each number is built through
/// `Number::from_parts` from its sign and magnitude, which is exact for
/// every `i64`, the smallest included.
#[verifier::external_body]
fn json_from_value(v: &Value) -> json::JsonValue {
    match v {
        Value::Null => json::JsonValue::Null,
        Value::Bool(b) => json::JsonValue::Boolean(*b),
        Value::Num(n) => json::JsonValue::Number(json::number::Number::from_parts(*n >= 0, n.unsigned_abs(), 0)),
        Value::Str(s) => json::JsonValue::String(s.clone()),
        Value::Arr(a) => json::JsonValue::Array(a.iter().map(json_from_value).collect()),
        Value::Obj(o) => {
            let mut fields = json::object::Object::new();
            for (k, v) in o {
                fields.insert(k, json_from_value(v));
            }
            json::JsonValue::Object(fields)
        },
    }
}

/// Relies on `json::parse`: whether the text parses, and the value it
/// parses to, are functions of the text alone.
#[verifier::external_body]
pub fn parse_document(s: &str) -> (r: Option<Value>)
    ensures
        r is Some <==> spec_parsed(s@) is Some,
        r matches Some(v) ==> Some(v@) == spec_parsed(s@),
{
    match json::parse(s) {
        Ok(j) => Some(value_from_json(&j)),
        Err(_) => None,
    }
}

/// Relies on `JsonValue::pretty`: the four-space-indented serialization is a
/// function of the value alone.
#[verifier::external_body]
pub fn pretty_document(v: &Value) -> (r: String)
    ensures
        r@ == spec_prettied(v@),
{
    json_from_value(v).pretty(4)
}

/// Relies on `JsonValue::dump`: the compact serialization is a function of
/// the value alone.
#[verifier::external_body]
pub fn dump_document(v: &Value) -> (r: String)
    ensures
        r@ == spec_dumped(v@),
{
    json_from_value(v).dump()
}

} // verus!
