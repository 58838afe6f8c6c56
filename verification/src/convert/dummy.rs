use vstd::prelude::*;
use crate::value::Value;
use crate::convert::ConvertError;

verus! {

/// A converter for testing: it hands back whatever it is given.
pub struct DummyConverter;

impl DummyConverter {
    /// Returns the input document unchanged.
    pub fn convert_json(&self, input: Value) -> (r: Result<Value, ConvertError>)
        ensures
            r matches Ok(v) && v@ == input@,
    {
        Ok(input)
    }
}

} // verus!
