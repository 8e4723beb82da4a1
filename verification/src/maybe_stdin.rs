//! One value, parsed from the text of an argument or of standard input.

use vstd::prelude::*;
use crate::convert::{parse, parses_to, FromString};
use crate::error::{ErrorModel, StdinError};
use crate::guard::{consumed_after, granted, SingleReadGuard, StdinPermit};
use crate::source::{is_sentinel, Content, Source};
use crate::text::{trim, trimmed};

verus! {

/// How far a parse has come.
#[derive(Debug)]
pub enum Step<A> {
    /// The parse is over, and this is its outcome.
    Done(Result<A, StdinError>),
    /// The value is on standard input, which has just been granted: read it
    /// to its end and hand what was read, with this permit, to `from_stdin`.
    ReadStdin(StdinPermit),
}

/// A value of type `T` that was parsed from text, with the note whether the
/// text came from standard input.
#[derive(Debug, Clone)]
pub struct MaybeStdin<T> {
    inner: T,
    is_stdin: bool,
}

/// `outcome` is an outcome of parsing `text`, which came from standard input
/// or not as `is_stdin` says, as a single `T`: the text is trimmed and parsed;
/// a value is kept with the note, a failure is reported as `FromStr` with its
/// message.
pub open spec fn scalar_outcome<T: FromString>(
    text: Seq<char>,
    is_stdin: bool,
    outcome: Result<MaybeStdin<T>, StdinError>,
) -> bool {
    match outcome {
        Ok(value) => value.spec_is_stdin() == is_stdin && parses_to::<T>(
            trimmed(text),
            Ok(value.spec_inner()),
        ),
        Err(StdinError::FromStr(message)) => parses_to::<T>(trimmed(text), Err(message)),
        Err(_) => false,
    }
}

/// A string is its trimmed text: parsing a text as a string never fails and
/// gives the text without the white space at its ends.
pub proof fn lemma_scalar_string(
    text: Seq<char>,
    is_stdin: bool,
    outcome: Result<MaybeStdin<String>, StdinError>,
)
    requires
        scalar_outcome::<String>(text, is_stdin, outcome),
    ensures
        outcome matches Ok(value) && value.spec_is_stdin() == is_stdin && value.spec_inner()@
            == trimmed(text),
{
}

impl<T> MaybeStdin<T> {
    /// Whether the value came from standard input.
    pub closed spec fn spec_is_stdin(&self) -> bool {
        self.is_stdin
    }

    /// The value.
    pub closed spec fn spec_inner(&self) -> T {
        self.inner
    }

    /// Whether the value came from standard input.
    #[verifier::when_used_as_spec(spec_is_stdin)]
    pub fn is_stdin(&self) -> (is_stdin: bool)
        ensures
            is_stdin == self.spec_is_stdin(),
    {
        self.is_stdin
    }

    /// Gives up the wrapper for the value.
    pub fn into_inner(self) -> (inner: T)
        ensures
            inner == self.spec_inner(),
    {
        self.inner
    }

    /// The value, to read.
    pub fn deref(&self) -> (inner: &T)
        ensures
            *inner == self.spec_inner(),
    {
        &self.inner
    }

    /// The value, to change in place. The note of where it came from stays.
    pub fn deref_mut(&mut self) -> (inner: &mut T)
        ensures
            *inner == old(self).spec_inner(),
            final(self).spec_inner() == *final(inner),
            final(self).spec_is_stdin() == old(self).spec_is_stdin(),
    {
        &mut self.inner
    }
}

impl<T: FromString> MaybeStdin<T> {
    /// Trims `text` and parses it.
    fn from_text(text: &str, is_stdin: bool) -> (outcome: Result<MaybeStdin<T>, StdinError>)
        ensures
            scalar_outcome(text@, is_stdin, outcome),
    {
        let trimmed = trim(text);
        match parse::<T>(trimmed.as_str()) {
            Ok(inner) => Ok(MaybeStdin { inner, is_stdin }),
            Err(message) => Err(StdinError::FromStr(message)),
        }
    }

    /// Parses the value that `token` stands for. An argument is parsed at
    /// once. For the sentinel the guard is asked: if standard input is still
    /// free, the step is to read it; if not, the parse has failed.
    pub fn from_str(token: &str, guard: &mut SingleReadGuard) -> (step: Step<MaybeStdin<T>>)
        ensures
            final(guard).consumed() == consumed_after(is_sentinel(token@), old(guard).consumed()),
            match step {
                Step::ReadStdin(_) => is_sentinel(token@) && granted(true, old(guard).consumed()),
                Step::Done(outcome) => if is_sentinel(token@) {
                    &&& !granted(true, old(guard).consumed())
                    &&& outcome matches Err(error)
                    &&& error@ == ErrorModel::StdInRepeatedUse.wrapped()
                } else {
                    scalar_outcome(token@, false, outcome)
                },
            },
    {
        let source = Source::from_str(token);
        let is_stdin = source.is_stdin();
        match source.get_value(guard) {
            Ok(Content::Text(text)) => Step::Done(Self::from_text(text.as_str(), is_stdin)),
            Ok(Content::Stdin(permit)) => Step::ReadStdin(permit),
            Err(error) => Step::Done(Err(error.wrap())),
        }
    }

    /// Finishes a parse from standard input with what reading it gave: its
    /// text, or the text of the failure to read.
    pub fn from_stdin(permit: StdinPermit, read: Result<String, String>) -> (outcome: Result<
        MaybeStdin<T>,
        StdinError,
    >)
        ensures
            match read {
                Ok(text) => scalar_outcome(text@, true, outcome),
                Err(cause) => outcome matches Err(error) && error@ == ErrorModel::StdIn(
                    cause@,
                ).wrapped(),
            },
    {
        match permit.into_string(read) {
            Ok(text) => Self::from_text(text.as_str(), true),
            Err(error) => Err(error.wrap()),
        }
    }
}

} // verus!
