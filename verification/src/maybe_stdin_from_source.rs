//! A value made from the source itself, and a list of values parsed from the
//! pieces of a text.

use vstd::prelude::*;
use crate::convert::{parse, parses_to, FromSource, FromString};
use crate::error::{ErrorModel, StdinError};
use crate::guard::{consumed_after, granted, SingleReadGuard, StdinPermit};
use crate::maybe_stdin::Step;
use crate::source::{is_sentinel, source_of, Content, Source};
use crate::text::{
    chars_of,
    lines_of,
    lines_range,
    split_on,
    split_range,
    texts,
    trim_bounds,
    trimmed,
};

verus! {

/// The delimiter between the items of an argument where none else is chosen.
pub const DEFAULT_DELIMITER: char = ',';

/// A value of type `T` that was made from a source, with the note whether
/// the source was standard input.
#[derive(Debug, Clone)]
pub struct MaybeStdinFromSource<T> {
    inner: T,
    is_stdin: bool,
}

/// A list of values of type `T`, each parsed from one piece of a text, with
/// the note whether the text came from standard input.
#[derive(Debug, Clone)]
pub struct MaybeStdinVec<T> {
    inner: Vec<T>,
    is_stdin: bool,
}

/// The pieces that a text is cut into: the text is trimmed; from standard
/// input its lines are the pieces, from an argument what stands between the
/// delimiters.
pub open spec fn pieces_of(text: Seq<char>, is_stdin: bool, delimiter: char) -> Seq<Seq<char>> {
    if is_stdin {
        lines_of(trimmed(text))
    } else {
        split_on(trimmed(text), delimiter)
    }
}

/// Some parse of `text` as a `T` gives a value.
pub open spec fn parses<T: FromString>(text: Seq<char>) -> bool {
    exists|value: T| parses_to::<T>(text, Ok(value))
}

/// The piece at `failed` is the first of `pieces` that did not parse: each one
/// before it gave a value, and this one failed with `message`.
pub open spec fn first_failure<T: FromString>(
    pieces: Seq<Seq<char>>,
    failed: int,
    message: String,
) -> bool {
    &&& 0 <= failed < pieces.len()
    &&& parses_to::<T>(pieces[failed], Err(message))
    &&& forall|at: int| 0 <= at < failed ==> parses::<T>(#[trigger] pieces[at])
}

/// `outcome` is an outcome of parsing `pieces` one after the other as values
/// of type `T`: either every piece gave its value, and the list holds them in
/// order under the note `is_stdin`; or the pieces before one gave values, that
/// one failed, and the failure is reported as `FromStr` with its message.
pub open spec fn list_outcome<T: FromString>(
    pieces: Seq<Seq<char>>,
    is_stdin: bool,
    outcome: Result<MaybeStdinVec<T>, StdinError>,
) -> bool {
    match outcome {
        Ok(list) => {
            &&& list.spec_is_stdin() == is_stdin
            &&& list.spec_inner()@.len() == pieces.len()
            &&& forall|at: int|
                0 <= at < pieces.len() ==> parses_to::<T>(
                    pieces[at],
                    Ok(#[trigger] list.spec_inner()@[at]),
                )
        },
        Err(StdinError::FromStr(message)) => exists|failed: int|
            first_failure::<T>(pieces, failed, message),
        Err(_) => false,
    }
}

/// `outcome` is what becomes of the result `made` of making a `T` from a
/// source: a value is kept under the note `is_stdin`, a failure is reported
/// as `FromStr` with its message.
pub open spec fn source_outcome<T>(
    made: Result<T, String>,
    is_stdin: bool,
    outcome: Result<MaybeStdinFromSource<T>, StdinError>,
) -> bool {
    match made {
        Ok(inner) => outcome matches Ok(value) && value.spec_inner() == inner
            && value.spec_is_stdin() == is_stdin,
        Err(message) => outcome == Err::<MaybeStdinFromSource<T>, StdinError>(
            StdinError::FromStr(message),
        ),
    }
}

/// A list of strings is its pieces: parsing pieces as strings never fails,
/// and gives each piece as it stands, in order.
pub proof fn lemma_list_of_strings(
    pieces: Seq<Seq<char>>,
    is_stdin: bool,
    outcome: Result<MaybeStdinVec<String>, StdinError>,
)
    requires
        list_outcome::<String>(pieces, is_stdin, outcome),
    ensures
        outcome matches Ok(list) && list.spec_is_stdin() == is_stdin && texts(list.spec_inner()@)
            == pieces,
{
    if let Ok(list) = outcome {
        assert forall|at: int| 0 <= at < pieces.len() implies texts(list.spec_inner()@)[at]
            == pieces[at] by {}
    }
}

/// One piece that cannot be parsed fails the whole list: the outcome is a
/// failure, never a shorter list.
pub proof fn lemma_failing_piece_fails_list<T: FromString>(
    pieces: Seq<Seq<char>>,
    is_stdin: bool,
    outcome: Result<MaybeStdinVec<T>, StdinError>,
    failing: int,
)
    requires
        list_outcome::<T>(pieces, is_stdin, outcome),
        0 <= failing < pieces.len(),
        !parses::<T>(pieces[failing]),
    ensures
        outcome matches Err(error) && error@ is FromStr,
{
    if let Ok(list) = outcome {
        assert(parses_to::<T>(pieces[failing], Ok(list.spec_inner()@[failing])));
    }
}

/// Pieces that can only be parsed with success give a list.
pub proof fn lemma_parsing_pieces_give_list<T: FromString>(
    pieces: Seq<Seq<char>>,
    is_stdin: bool,
    outcome: Result<MaybeStdinVec<T>, StdinError>,
)
    requires
        list_outcome::<T>(pieces, is_stdin, outcome),
        forall|at: int, parsed: Result<T, String>|
            0 <= at < pieces.len() && #[trigger] parses_to::<T>(pieces[at], parsed)
                ==> parsed is Ok,
    ensures
        outcome is Ok,
{
}

impl<T> MaybeStdinFromSource<T> {
    /// Whether the source was standard input.
    pub closed spec fn spec_is_stdin(&self) -> bool {
        self.is_stdin
    }

    /// The value.
    pub closed spec fn spec_inner(&self) -> T {
        self.inner
    }

    /// Whether the source was standard input.
    #[verifier::when_used_as_spec(spec_is_stdin)]
    pub fn is_stdin(&self) -> (is_stdin: bool)
        ensures
            is_stdin == self.spec_is_stdin(),
    {
        self.is_stdin
    }

    /// Gives up the wrapper for the value.
    pub fn into_inner(self) -> (inner: T)
        ensures
            inner == self.spec_inner(),
    {
        self.inner
    }

    /// The value, to read.
    pub fn deref(&self) -> (inner: &T)
        ensures
            *inner == self.spec_inner(),
    {
        &self.inner
    }

    /// The value, to change in place. The note of where it came from stays.
    pub fn deref_mut(&mut self) -> (inner: &mut T)
        ensures
            *inner == old(self).spec_inner(),
            final(self).spec_inner() == *final(inner),
            final(self).spec_is_stdin() == old(self).spec_is_stdin(),
    {
        &mut self.inner
    }

    /// Wraps the result of making a `T` from a source whose kind `is_stdin`
    /// tells.
    pub fn from_outcome(made: Result<T, String>, is_stdin: bool) -> (outcome: Result<
        MaybeStdinFromSource<T>,
        StdinError,
    >)
        ensures
            source_outcome(made, is_stdin, outcome),
    {
        match made {
            Ok(inner) => Ok(MaybeStdinFromSource { inner, is_stdin }),
            Err(message) => Err(StdinError::FromStr(message)),
        }
    }
}

impl<T: FromSource> MaybeStdinFromSource<T> {
    /// Makes the value that `token` stands for: the source that the token
    /// selects is handed, with the guard, to `T::from_source`, and what comes
    /// back is wrapped.
    pub fn from_str(token: &str, guard: &mut SingleReadGuard) -> (outcome: Result<
        MaybeStdinFromSource<T>,
        StdinError,
    >)
        ensures
            outcome matches Ok(value) ==> value.spec_is_stdin() == (source_of(token@) is None),
            outcome matches Err(error) ==> error@ is FromStr,
            exists|source: Source, handed: &mut SingleReadGuard, made: Result<T, String>|
                {
                    &&& source@ == source_of(token@)
                    &&& *handed == *old(guard)
                    &&& *final(handed) == *final(guard)
                    &&& #[trigger] call_ensures(T::from_source, (source, handed), made)
                    &&& source_outcome(made, source@ is None, outcome)
                },
    {
        let source = Source::from_str(token);
        let is_stdin = source.is_stdin();
        let made = T::from_source(source, guard);
        Self::from_outcome(made, is_stdin)
    }
}

impl<T> MaybeStdinVec<T> {
    /// Whether the text came from standard input.
    pub closed spec fn spec_is_stdin(&self) -> bool {
        self.is_stdin
    }

    /// The values, in the order of their pieces.
    pub closed spec fn spec_inner(&self) -> Vec<T> {
        self.inner
    }

    /// Whether the text came from standard input.
    #[verifier::when_used_as_spec(spec_is_stdin)]
    pub fn is_stdin(&self) -> (is_stdin: bool)
        ensures
            is_stdin == self.spec_is_stdin(),
    {
        self.is_stdin
    }

    /// Gives up the wrapper for the values.
    pub fn into_inner(self) -> (inner: Vec<T>)
        ensures
            inner == self.spec_inner(),
    {
        self.inner
    }

    /// The values, to read.
    pub fn deref(&self) -> (inner: &Vec<T>)
        ensures
            *inner == self.spec_inner(),
    {
        &self.inner
    }

    /// The values, to change in place. The note of where they came from
    /// stays.
    pub fn deref_mut(&mut self) -> (inner: &mut Vec<T>)
        ensures
            *inner == old(self).spec_inner(),
            final(self).spec_inner() == *final(inner),
            final(self).spec_is_stdin() == old(self).spec_is_stdin(),
    {
        &mut self.inner
    }
}

impl<T: FromString> MaybeStdinVec<T> {
    /// Parses `pieces` one after the other and stops at the first that fails.
    fn parse_all(pieces: &Vec<String>, is_stdin: bool) -> (outcome: Result<
        MaybeStdinVec<T>,
        StdinError,
    >)
        ensures
            list_outcome(texts(pieces@), is_stdin, outcome),
    {
        let mut inner: Vec<T> = Vec::new();
        let mut at: usize = 0;
        while at < pieces.len()
            invariant
                at <= pieces.len(),
                inner@.len() == at,
                forall|done: int|
                    0 <= done < at ==> parses_to::<T>(texts(pieces@)[done], Ok(#[trigger] inner@[done])),
            decreases pieces.len() - at,
        {
            match parse::<T>(pieces[at].as_str()) {
                Ok(value) => {
                    inner.push(value);
                },
                Err(message) => {
                    let outcome = Err(StdinError::FromStr(message));
                    proof {
                        let failed = at as int;
                        assert forall|done: int| 0 <= done < failed implies parses::<T>(
                            #[trigger] texts(pieces@)[done],
                        ) by {
                            assert(parses_to::<T>(texts(pieces@)[done], Ok(inner@[done])));
                        }
                        assert(first_failure::<T>(texts(pieces@), failed, outcome->Err_0->FromStr_0));
                    }
                    return outcome;
                },
            }
            at = at + 1;
        }
        Ok(MaybeStdinVec { inner, is_stdin })
    }

    /// Trims `text`, cuts it into its pieces and parses them.
    fn from_text(text: &str, is_stdin: bool, delimiter: char) -> (outcome: Result<
        MaybeStdinVec<T>,
        StdinError,
    >)
        ensures
            list_outcome(pieces_of(text@, is_stdin, delimiter), is_stdin, outcome),
    {
        let chars = chars_of(text);
        let (start, end) = trim_bounds(&chars);
        let pieces = if is_stdin {
            lines_range(&chars, start, end)
        } else {
            split_range(&chars, start, end, delimiter)
        };
        Self::parse_all(&pieces, is_stdin)
    }

    /// Parses the list that `token` stands for. An argument is cut at
    /// `delimiter` and parsed at once. For the sentinel the guard is asked:
    /// if standard input is still free, the step is to read it; if not, the
    /// parse has failed.
    pub fn from_str(token: &str, delimiter: char, guard: &mut SingleReadGuard) -> (step: Step<
        MaybeStdinVec<T>,
    >)
        ensures
            final(guard).consumed() == consumed_after(is_sentinel(token@), old(guard).consumed()),
            match step {
                Step::ReadStdin(_) => is_sentinel(token@) && granted(true, old(guard).consumed()),
                Step::Done(outcome) => if is_sentinel(token@) {
                    &&& !granted(true, old(guard).consumed())
                    &&& outcome matches Err(error)
                    &&& error@ == ErrorModel::StdInRepeatedUse.wrapped()
                } else {
                    list_outcome(pieces_of(token@, false, delimiter), false, outcome)
                },
            },
    {
        let source = Source::from_str(token);
        let is_stdin = source.is_stdin();
        match source.get_value(guard) {
            Ok(Content::Text(text)) => Step::Done(
                Self::from_text(text.as_str(), is_stdin, delimiter),
            ),
            Ok(Content::Stdin(permit)) => Step::ReadStdin(permit),
            Err(error) => Step::Done(Err(error.wrap())),
        }
    }

    /// Finishes a parse from standard input with what reading it gave: its
    /// text, whose lines are the pieces, or the text of the failure to read.
    pub fn from_stdin(permit: StdinPermit, read: Result<String, String>) -> (outcome: Result<
        MaybeStdinVec<T>,
        StdinError,
    >)
        ensures
            match read {
                Ok(text) => list_outcome(lines_of(trimmed(text@)), true, outcome),
                Err(cause) => outcome matches Err(error) && error@ == ErrorModel::StdIn(
                    cause@,
                ).wrapped(),
            },
    {
        match permit.into_string(read) {
            Ok(text) => Self::from_text(text.as_str(), true, DEFAULT_DELIMITER),
            Err(error) => Err(error.wrap()),
        }
    }

    /// Parses each of `items` as it stands, without trimming or cutting. The
    /// list is noted as not from standard input.
    pub fn try_from_iter(items: Vec<String>) -> (outcome: Result<MaybeStdinVec<T>, StdinError>)
        ensures
            list_outcome(texts(items@), false, outcome),
    {
        Self::parse_all(&items, false)
    }

    /// The list of the values of `items`, each of which must parse.
    pub fn from_iter(items: Vec<String>) -> (list: MaybeStdinVec<T>)
        requires
            forall|at: int, parsed: Result<T, String>|
                0 <= at < items@.len() && #[trigger] parses_to::<T>(items@[at]@, parsed)
                    ==> parsed is Ok,
        ensures
            list_outcome(texts(items@), false, Ok(list)),
    {
        match Self::parse_all(&items, false) {
            Ok(list) => list,
            Err(error) => {
                proof {
                    lemma_parsing_pieces_give_list::<T>(texts(items@), false, Err(error));
                }
                vstd::pervasive::unreached()
            },
        }
    }
}

} // verus!
