//! The guard that lets standard input be read once.
//!
//! Standard input is one shared stream that cannot be rewound, so only one
//! logical read of it is ever granted. The guard is an ordinary value that
//! the caller owns and hands to every entry point: a program keeps one for
//! its whole life, and taking it by `&mut` is what makes two readers unable
//! to both see it unconsumed.

use vstd::prelude::*;
use crate::error::{ErrorModel, StdinError};
use crate::text::{lines, lines_of, texts};

verus! {

/// Remembers whether standard input has been handed out. There is no way
/// back: once consumed, it stays so.
#[derive(Debug)]
pub struct SingleReadGuard {
    consumed: bool,
}

/// The right to read standard input. Only a guard that had not been consumed
/// hands one out, so at most one exists for each guard.
#[derive(Debug)]
pub struct StdinPermit {
    granted: (),
}

/// Whether a guard in state `consumed` grants a request, which is one for
/// standard input or not as `stdin` says. A request for an argument is always
/// granted; one for standard input only while the guard is unconsumed.
pub open spec fn granted(stdin: bool, consumed: bool) -> bool {
    !stdin || !consumed
}

/// The state after such a request of a guard that was in state `consumed`: a
/// request for standard input consumes it, granted or not; any other leaves
/// it as it was.
pub open spec fn consumed_after(stdin: bool, consumed: bool) -> bool {
    consumed || stdin
}

/// The state of a guard that started in state `consumed` after all of
/// `requests`, in order; each entry says whether that request was for
/// standard input.
pub open spec fn guard_after(requests: Seq<bool>, consumed: bool) -> bool
    decreases requests.len(),
{
    if requests.len() == 0 {
        consumed
    } else {
        consumed_after(requests.last(), guard_after(requests.drop_last(), consumed))
    }
}

impl SingleReadGuard {
    /// Whether standard input has been handed out.
    pub closed spec fn consumed(&self) -> bool {
        self.consumed
    }

    /// A guard over a standard input that nobody has read.
    pub fn new() -> (guard: SingleReadGuard)
        ensures
            !guard.consumed(),
    {
        SingleReadGuard { consumed: false }
    }

    /// Whether standard input has been handed out.
    pub fn is_consumed(&self) -> (consumed: bool)
        ensures
            consumed == self.consumed(),
    {
        self.consumed
    }

    /// Marks standard input as handed out and says whether it already was.
    pub fn try_consume(&mut self) -> (previous: bool)
        ensures
            previous == old(self).consumed(),
            final(self).consumed(),
    {
        let previous = self.consumed;
        self.consumed = true;
        previous
    }

    /// Asks for standard input. The first request on a guard is granted;
    /// every later one fails with `StdInRepeatedUse`. Either way the guard
    /// is consumed afterwards.
    pub fn claim(&mut self) -> (outcome: Result<StdinPermit, StdinError>)
        ensures
            final(self).consumed() == consumed_after(true, old(self).consumed()),
            outcome is Ok <==> granted(true, old(self).consumed()),
            outcome matches Err(error) ==> error@ == ErrorModel::StdInRepeatedUse,
    {
        if self.try_consume() {
            Err(StdinError::StdInRepeatedUse)
        } else {
            Ok(StdinPermit { granted: () })
        }
    }
}

impl StdinPermit {
    /// Redeems the permit with what reading standard input to its end gave:
    /// the text, which is cut into its lines, or the text of the failure. A
    /// failure becomes `StdIn`.
    pub fn into_lines(self, read: Result<String, String>) -> (outcome: Result<
        Vec<String>,
        StdinError,
    >)
        ensures
            match read {
                Ok(text) => outcome matches Ok(found) && texts(found@) == lines_of(text@),
                Err(cause) => outcome matches Err(error) && error@ == ErrorModel::StdIn(cause@),
            },
    {
        match read {
            Ok(text) => Ok(lines(text.as_str())),
            Err(cause) => Err(StdinError::StdIn(cause)),
        }
    }

    /// Redeems the permit with what reading standard input to its end gave:
    /// the text, or the text of the failure. A failure becomes `StdIn`.
    pub fn into_string(self, read: Result<String, String>) -> (outcome: Result<String, StdinError>)
        ensures
            match read {
                Ok(text) => outcome == Ok::<String, StdinError>(text),
                Err(cause) => outcome matches Err(error) && error@ == ErrorModel::StdIn(cause@),
            },
    {
        match read {
            Ok(text) => Ok(text),
            Err(cause) => Err(StdinError::StdIn(cause)),
        }
    }
}

/// A guard never goes back: whatever is asked of it, once consumed it stays
/// consumed.
pub proof fn lemma_guard_stays_consumed(requests: Seq<bool>, consumed: bool)
    requires
        consumed,
    ensures
        guard_after(requests, consumed),
    decreases requests.len(),
{
    if requests.len() > 0 {
        lemma_guard_stays_consumed(requests.drop_last(), consumed);
    }
}

/// Once standard input has been asked for, the guard is consumed for good.
pub proof fn lemma_consumed_after_stdin_request(requests: Seq<bool>, consumed: bool, at: int)
    requires
        0 <= at < requests.len(),
        requests[at],
    ensures
        guard_after(requests, consumed),
    decreases requests.len(),
{
    if at < requests.len() - 1 {
        lemma_consumed_after_stdin_request(requests.drop_last(), consumed, at);
    }
}

/// Standard input is handed out at most once: of two requests for it on the
/// same guard, in whatever run of requests they stand and whatever state the
/// guard started in, the later one is refused.
pub proof fn lemma_single_read(requests: Seq<bool>, consumed: bool, first: int, second: int)
    requires
        0 <= first < second < requests.len(),
        requests[first],
        requests[second],
    ensures
        !granted(requests[second], guard_after(requests.take(second), consumed)),
{
    lemma_consumed_after_stdin_request(requests.take(second), consumed, first);
}

/// Requests for arguments alone leave a guard unconsumed.
pub proof fn lemma_arguments_leave_guard(requests: Seq<bool>)
    requires
        forall|at: int| 0 <= at < requests.len() ==> !requests[at],
    ensures
        !guard_after(requests, false),
    decreases requests.len(),
{
    if requests.len() > 0 {
        lemma_arguments_leave_guard(requests.drop_last());
    }
}

/// The first request for standard input on a guard that nobody has consumed
/// is granted, whatever requests for arguments came before it.
pub proof fn lemma_first_read_granted(requests: Seq<bool>, first: int)
    requires
        0 <= first < requests.len(),
        requests[first],
        forall|at: int| 0 <= at < first ==> !requests[at],
    ensures
        granted(requests[first], guard_after(requests.take(first), false)),
{
    lemma_arguments_leave_guard(requests.take(first));
}

} // verus!
