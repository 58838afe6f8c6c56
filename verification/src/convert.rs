use vstd::prelude::*;
use vstd::string::StringExecFns;
use crate::value::Value;
use crate::value::ValueView;
use crate::value::spec_has_key;
use crate::convert::bridge::parse_document;
use crate::convert::bridge::pretty_document;
use crate::convert::bridge::spec_parsed;
use crate::convert::bridge::spec_prettied;
use crate::convert::dummy::DummyConverter;
use crate::convert::feat::FeatConverter;
use crate::convert::feat::spec_feat_convert;
use crate::convert::race::RaceConverter;
use crate::convert::race::spec_race_convert;

pub mod bridge;
pub mod dummy;
pub mod entries;
pub mod feat;
pub mod markup;
pub mod race;
pub mod util;

verus! {

/// Why a conversion failed: the input text did not parse, or the document
/// lacks the expected top-level array.
#[derive(Clone, Copy, Debug, PartialEq, Eq, Structural)]
pub enum ConvertError {
    /// The input text is not a well-formed document.
    Parse,
    /// The document lacks the top-level `feat` array.
    MissingFeat,
    /// The document lacks the top-level `race` array.
    MissingRace,
}

/// The line describing each failure.
pub open spec fn spec_error_message(e: ConvertError) -> Seq<char> {
    match e {
        ConvertError::Parse => "Failed to parse JSON"@,
        ConvertError::MissingFeat => "expected feat array in object: { \"feat\": [] }"@,
        ConvertError::MissingRace => "expected race array in object: { \"race\": [] }"@,
    }
}

impl ConvertError {
    /// A line describing the failure.
    pub fn message(&self) -> (r: String)
        ensures
            r@ == spec_error_message(*self),
    {
        match self {
            ConvertError::Parse => String::from_str("Failed to parse JSON"),
            ConvertError::MissingFeat => String::from_str(
                "expected feat array in object: { \"feat\": [] }",
            ),
            ConvertError::MissingRace => String::from_str(
                "expected race array in object: { \"race\": [] }",
            ),
        }
    }
}

/// The view of a conversion result.
pub open spec fn res_view(r: Result<Value, ConvertError>) -> Result<ValueView, ConvertError> {
    match r {
        Ok(v) => Ok(v@),
        Err(e) => Err(e),
    }
}

/// Converters to process game data documents into normalized records.
pub enum Converter {
    /// Returns the input unchanged; a sample for testing.
    Dummy,
    /// Converts feats into normalized feat records.
    Feat,
    /// Converts races into normalized race records.
    Race,
}

/// What converting a document yields for each converter.
pub open spec fn spec_convert(conv: Converter, v: ValueView) -> Result<ValueView, ConvertError> {
    match conv {
        Converter::Dummy => Ok(v),
        Converter::Feat => spec_feat_convert(v),
        Converter::Race => spec_race_convert(v),
    }
}

/// What converting a serialized document yields: the parse error when the
/// text does not parse, the converter's error when it fails, and otherwise
/// the pretty-printed record array.
pub open spec fn spec_convert_string(conv: Converter, s: Seq<char>) -> Result<
    Seq<char>,
    ConvertError,
> {
    match spec_parsed(s) {
        Some(v) => match spec_convert(conv, v) {
            Ok(out) => Ok(spec_prettied(out)),
            Err(e) => Err(e),
        },
        None => Err(ConvertError::Parse),
    }
}

impl Converter {
    /// Converts an in-memory document to the records this converter
    /// produces.
    pub fn convert_json(&self, input: Value) -> (r: Result<Value, ConvertError>)
        ensures
            res_view(r) == spec_convert(*self, input@),
    {
        match self {
            Converter::Dummy => DummyConverter.convert_json(input),
            Converter::Feat => FeatConverter.convert_json(&input),
            Converter::Race => RaceConverter.convert_json(&input),
        }
    }

    /// Converts a serialized document to the pretty-printed serialization
    /// of the records this converter produces.
    pub fn convert_string(&self, input: &str) -> (r: Result<String, ConvertError>)
        ensures
            (match r {
                Ok(s) => Ok(s@),
                Err(e) => Err(e),
            }) == spec_convert_string(*self, input@),
    {
        match parse_document(input) {
            Some(v) => match self.convert_json(v) {
                Ok(out) => Ok(pretty_document(&out)),
                Err(e) => Err(e),
            },
            None => Err(ConvertError::Parse),
        }
    }
}

/// A document without the expected top-level array converts to the
/// structural error, never to records and never by failing some other way.
pub proof fn lemma_missing_key_error(v: ValueView)
    ensures
        !spec_has_key(v, "feat"@) ==> spec_convert(Converter::Feat, v) == Err::<
            ValueView,
            ConvertError,
        >(ConvertError::MissingFeat),
        !spec_has_key(v, "race"@) ==> spec_convert(Converter::Race, v) == Err::<
            ValueView,
            ConvertError,
        >(ConvertError::MissingRace),
{
}

} // verus!
