use vstd::prelude::*;

verus! {

/// What the chance pass leaves of a text span.
pub uninterp spec fn chance_stripped(s: Seq<char>) -> Seq<char>;

/// What the generic tag pass leaves of a text span.
pub uninterp spec fn tag_stripped(s: Seq<char>) -> Seq<char>;

/// What the note pass leaves of a text span.
pub uninterp spec fn note_stripped(s: Seq<char>) -> Seq<char>;

/// The fully resolved form of a text span: the chance pass, then the generic
/// tag pass, then the note pass.
pub open spec fn spec_resolved(s: Seq<char>) -> Seq<char> {
    note_stripped(tag_stripped(chance_stripped(s)))
}

/// Relies on regex's `Regex::replace_all` with the fixed pattern
/// `\{@chance .*?(?P<chance>(?:\w| )+?)\}`: every chance directive is
/// replaced by its trailing label capture. The result is a function of the
/// input characters alone, and a text without `{` has no match and passes
/// through unchanged.
#[verifier::external_body]
fn strip_chance(s: &str) -> (r: String)
    ensures
        r@ == chance_stripped(s@),
        !s@.contains('{') ==> r@ == s@,
{
    let re = regex::Regex::new(r"\{@chance .*?(?P<chance>(?:\w| )+?)\}").unwrap();
    re.replace_all(s, "$chance").to_string()
}

/// Relies on regex's `Regex::replace_all` with the fixed pattern
/// `\{@(?:(?:\w| )+?) (?P<value>[a-zA-Z0-9-_',./+ ]+?)(?:\|.*?)?\}`: every
/// generic tagged directive is replaced by its first pipe-delimited field.
/// The result is a function of the input characters alone, and a text
/// without `{` has no match and passes through unchanged.
#[verifier::external_body]
fn strip_tags(s: &str) -> (r: String)
    ensures
        r@ == tag_stripped(s@),
        !s@.contains('{') ==> r@ == s@,
{
    let re = regex::Regex::new(r"\{@(?:(?:\w| )+?) (?P<value>[a-zA-Z0-9-_',./+ ]+?)(?:\|.*?)?\}")
        .unwrap();
    re.replace_all(s, "$value").to_string()
}

/// Relies on regex's `Regex::replace_all` with the fixed pattern
/// `\{@note (?P<note>.*?)?\}`: every note directive is replaced by its text.
/// The result is a function of the input characters alone, and a text
/// without `{` has no match and passes through unchanged.
#[verifier::external_body]
fn strip_note(s: &str) -> (r: String)
    ensures
        r@ == note_stripped(s@),
        !s@.contains('{') ==> r@ == s@,
{
    let re = regex::Regex::new(r"\{@note (?P<note>.*?)?\}").unwrap();
    re.replace_all(s, "$note").to_string()
}

/// Resolves the inline `{@tag ...}` markup directives of a text span, in
/// order: chance directives, generic tagged directives, then note
/// directives. Text without braces passes through unchanged.
pub fn format_string(s: String) -> (r: String)
    ensures
        r@ == spec_resolved(s@),
        !s@.contains('{') ==> r@ == s@,
{
    let a = strip_chance(s.as_str());
    let b = strip_tags(a.as_str());
    strip_note(b.as_str())
}

} // verus!
