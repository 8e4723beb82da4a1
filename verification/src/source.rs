//! Where a value comes from: standard input, chosen by the sentinel `-`, or
//! the argument itself.
//!
//! Asking a source for its content is a decision, not a read: for an argument
//! the answer is the argument, for standard input it is the permit to read,
//! which the guard gives once. What was read is redeemed with the permit.

use vstd::prelude::*;
use crate::error::{ErrorModel, StdinError};
use crate::guard::{consumed_after, granted, SingleReadGuard, StdinPermit};

verus! {

/// Standard input as a source. It carries nothing: reading goes through the
/// guard.
#[derive(Debug, Clone, Copy, PartialEq, Eq)]
pub struct Stdin;

/// The origin of a value.
#[derive(Debug, Clone, PartialEq, Eq)]
pub enum Source {
    /// The value is to be read from standard input.
    Stdin(Stdin),
    /// The value is this argument.
    Arg(String),
}

/// What is to be opened for a source that is read as a stream.
#[derive(Debug)]
pub enum Reader {
    /// Standard input, with the permit to read it.
    Stdin(StdinPermit),
    /// The file at this path.
    File(String),
}

/// The content of a source, or the permit to read it.
#[derive(Debug)]
pub enum Content {
    /// Standard input holds the content; this is the permit to read it.
    Stdin(StdinPermit),
    /// The content: the argument as it was given.
    Text(String),
}

/// Whether `token` is the sentinel `-` that selects standard input.
pub open spec fn is_sentinel(token: Seq<char>) -> bool {
    token.len() == 1 && token[0] == '-'
}

/// The source that `token` selects: `None` for standard input, else the
/// token itself as the argument.
pub open spec fn source_of(token: Seq<char>) -> Option<Seq<char>> {
    if is_sentinel(token) {
        None
    } else {
        Some(token)
    }
}

impl View for Source {
    type V = Option<Seq<char>>;

    open spec fn view(&self) -> Option<Seq<char>> {
        match self {
            Source::Stdin(_) => None,
            Source::Arg(text) => Some(text@),
        }
    }
}

impl Stdin {
    /// Asks to read standard input to its end. Granted once for each guard;
    /// the permit is redeemed with `StdinPermit::into_string`.
    pub fn read_string(&self, guard: &mut SingleReadGuard) -> (outcome: Result<
        StdinPermit,
        StdinError,
    >)
        ensures
            final(guard).consumed() == consumed_after(true, old(guard).consumed()),
            outcome is Ok <==> granted(true, old(guard).consumed()),
            outcome matches Err(error) ==> error@ == ErrorModel::StdInRepeatedUse,
    {
        guard.claim()
    }

    /// Asks to read standard input line by line. Granted once for each guard;
    /// the permit is redeemed with `StdinPermit::into_lines`.
    pub fn lines(&self, guard: &mut SingleReadGuard) -> (outcome: Result<StdinPermit, StdinError>)
        ensures
            final(guard).consumed() == consumed_after(true, old(guard).consumed()),
            outcome is Ok <==> granted(true, old(guard).consumed()),
            outcome matches Err(error) ==> error@ == ErrorModel::StdInRepeatedUse,
    {
        guard.claim()
    }
}

impl Source {
    /// The source that `token` selects: standard input for the sentinel `-`,
    /// the token itself for every other string. Never fails.
    pub fn from_str(token: &str) -> (source: Source)
        ensures
            source@ == source_of(token@),
    {
        let mut chars = token.chars();
        let stdin = match chars.next() {
            Some(first) => {
                let second = chars.next();
                first == '-' && second.is_none()
            },
            None => false,
        };
        if stdin {
            Source::Stdin(Stdin)
        } else {
            Source::Arg(token.to_owned())
        }
    }

    /// Whether the source is standard input.
    pub fn is_stdin(&self) -> (stdin: bool)
        ensures
            stdin == (self@ is None),
    {
        match self {
            Source::Stdin(_) => true,
            Source::Arg(_) => false,
        }
    }

    /// Says what to open to read the source as a stream. For standard input
    /// the guard is asked, and consumed. An argument is taken as the path of
    /// a file, and the guard is left alone.
    pub fn into_reader(self, guard: &mut SingleReadGuard) -> (outcome: Result<Reader, StdinError>)
        ensures
            final(guard).consumed() == consumed_after(self@ is None, old(guard).consumed()),
            outcome is Ok <==> granted(self@ is None, old(guard).consumed()),
            match outcome {
                Ok(Reader::Stdin(_)) => self@ is None,
                Ok(Reader::File(path)) => self == Source::Arg(path),
                Err(error) => error@ == ErrorModel::StdInRepeatedUse,
            },
    {
        match self {
            Source::Stdin(_) => {
                match guard.claim() {
                    Ok(permit) => Ok(Reader::Stdin(permit)),
                    Err(error) => Err(error),
                }
            },
            Source::Arg(path) => Ok(Reader::File(path)),
        }
    }

    /// Says where the content of the source is. For standard input the guard
    /// is asked, and consumed. An argument is itself the content, as it was
    /// given, and the guard is left alone.
    pub fn get_value(self, guard: &mut SingleReadGuard) -> (outcome: Result<Content, StdinError>)
        ensures
            final(guard).consumed() == consumed_after(self@ is None, old(guard).consumed()),
            outcome is Ok <==> granted(self@ is None, old(guard).consumed()),
            match outcome {
                Ok(Content::Stdin(_)) => self@ is None,
                Ok(Content::Text(text)) => self == Source::Arg(text),
                Err(error) => error@ == ErrorModel::StdInRepeatedUse,
            },
    {
        match self {
            Source::Stdin(_) => {
                match guard.claim() {
                    Ok(permit) => Ok(Content::Stdin(permit)),
                    Err(error) => Err(error),
                }
            },
            Source::Arg(text) => Ok(Content::Text(text)),
        }
    }
}

} // verus!
