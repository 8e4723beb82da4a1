//! The two ways in which a caller's type is made from what was given: from
//! text, or from the source itself.

use vstd::prelude::*;
use crate::guard::SingleReadGuard;
use crate::source::Source;

verus! {

/// A type whose values are parsed from text.
pub trait FromString: Sized {
    /// Parses `text`, or says why it is no value.
    fn from_string(text: &str) -> Result<Self, String>;
}

/// A type that is given the source itself and decides how to read it: line
/// by line from standard input, say, where an argument is split on commas.
/// Reading standard input goes through `guard`.
pub trait FromSource: Sized {
    /// Makes a value from `source`, or says why there is none.
    fn from_source(source: Source, guard: &mut SingleReadGuard) -> Result<Self, String>;
}

/// A string is parsed from text by taking the text.
impl FromString for String {
    fn from_string(text: &str) -> (parsed: Result<String, String>)
        ensures
            parsed matches Ok(string) && string@ == text@,
    {
        Ok(text.to_owned())
    }
}

/// `parsed` is an outcome of parsing `text` as a `T`: something that
/// `T::from_string` may return for it.
pub open spec fn parses_to<T: FromString>(text: Seq<char>, parsed: Result<T, String>) -> bool {
    exists|given: &str| given@ == text && #[trigger] call_ensures(T::from_string, (given,), parsed)
}

/// Parses `text` as a `T`.
pub fn parse<T: FromString>(text: &str) -> (parsed: Result<T, String>)
    ensures
        parses_to::<T>(text@, parsed),
{
    let parsed = T::from_string(text);
    parsed
}

/// Text parsed as a string is that text, and never fails.
pub proof fn lemma_string_parses_to_itself(text: Seq<char>, parsed: Result<String, String>)
    requires
        parses_to::<String>(text, parsed),
    ensures
        parsed matches Ok(string) && string@ == text,
{
}

} // verus!
