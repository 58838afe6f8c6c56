use vstd::prelude::*;
use crate::convert::ConvertError;
use crate::convert::res_view;
use crate::convert::spec_convert;
use crate::convert::spec_convert_string;
use crate::value::Value;

pub mod convert;
pub mod value;

pub use convert::Converter;

verus! {

/// Converts a serialized document to the serialized records the given
/// converter produces.
pub fn convert_string(conv: Converter, input: &str) -> (r: Result<String, ConvertError>)
    ensures
        (match r {
            Ok(s) => Ok(s@),
            Err(e) => Err(e),
        }) == spec_convert_string(conv, input@),
{
    conv.convert_string(input)
}

/// Converts an in-memory document to the records the given converter
/// produces.
pub fn convert_json(conv: Converter, input: Value) -> (r: Result<Value, ConvertError>)
    ensures
        res_view(r) == spec_convert(conv, input@),
{
    conv.convert_json(input)
}

} // verus!
