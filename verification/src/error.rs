//! The failures of a parse, and the text each one shows.

use vstd::prelude::*;

verus! {

/// Why a value could not be had.
#[derive(Debug, PartialEq, Eq)]
pub enum StdinError {
    /// Standard input was asked for after it had already been handed out.
    StdInRepeatedUse,
    /// Reading failed underneath; the text is that of the failure.
    StdIn(String),
    /// A conversion from text failed; the text is what the conversion said.
    FromStr(String),
    /// A conversion from a source failed; the text is what the conversion said.
    FromSource(String),
}

/// A `StdinError` with its texts as sequences of characters.
pub enum ErrorModel {
    StdInRepeatedUse,
    StdIn(Seq<char>),
    FromStr(Seq<char>),
    FromSource(Seq<char>),
}

impl ErrorModel {
    /// The text that the failure shows to a reader.
    pub open spec fn message(self) -> Seq<char> {
        match self {
            ErrorModel::StdInRepeatedUse => "stdin read from more than once"@,
            ErrorModel::StdIn(text) => text,
            ErrorModel::FromStr(text) => "unable to parse from_str: "@ + text,
            ErrorModel::FromSource(text) => "unable to parse from_source: "@ + text,
        }
    }

    /// The failure as an adapter reports it: a failed conversion from text
    /// that carries the message of whatever went wrong underneath.
    pub open spec fn wrapped(self) -> ErrorModel {
        ErrorModel::FromStr(self.message())
    }
}

impl View for StdinError {
    type V = ErrorModel;

    open spec fn view(&self) -> ErrorModel {
        match self {
            StdinError::StdInRepeatedUse => ErrorModel::StdInRepeatedUse,
            StdinError::StdIn(text) => ErrorModel::StdIn(text@),
            StdinError::FromStr(text) => ErrorModel::FromStr(text@),
            StdinError::FromSource(text) => ErrorModel::FromSource(text@),
        }
    }
}

impl StdinError {
    /// The message of this failure.
    pub fn to_string(&self) -> (text: String)
        ensures
            text@ == self@.message(),
    {
        match self {
            StdinError::StdInRepeatedUse => "stdin read from more than once".to_owned(),
            StdinError::StdIn(cause) => cause.clone(),
            StdinError::FromStr(cause) => {
                let mut text = "unable to parse from_str: ".to_owned();
                text.append(cause.as_str());
                text
            },
            StdinError::FromSource(cause) => {
                let mut text = "unable to parse from_source: ".to_owned();
                text.append(cause.as_str());
                text
            },
        }
    }

    /// Turns any failure into the one kind that an adapter reports, keeping
    /// its message.
    pub fn wrap(self) -> (out: StdinError)
        ensures
            out@ == self@.wrapped(),
    {
        StdinError::FromStr(self.to_string())
    }
}

} // verus!
