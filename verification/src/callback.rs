//! Calls of managed callables from native code, and the errors they raise.

use vstd::prelude::*;
use vstd::string::StringExecFns;
use crate::lock::LockState;

verus! {

/// What a managed callable raised: the text of the error and, where the
/// runtime kept one, the text of its backtrace.
#[derive(Clone, Debug)]
pub struct RaisedError {
    pub message: String,
    pub backtrace: Option<String>,
}

/// The error of a call into managed code, as native callers see it.
#[derive(Clone, Debug)]
pub struct CallbackError {
    /// The native operation that made the call.
    pub context: String,
    /// What the callable raised, with its backtrace in front where one was
    /// asked for and kept.
    pub cause: String,
}

/// The context under which a failed call of a managed callable is reported.
pub open spec fn call_context() -> Seq<char> {
    "function called failed"@
}

/// The text of a raised error with its backtrace: the backtrace, a line feed
/// and the error's text, or the text alone where no backtrace was kept.
pub open spec fn with_backtrace(message: Seq<char>, backtrace: Option<Seq<char>>) -> Seq<char> {
    match backtrace {
        Some(trace) => trace + seq!['\n'] + message,
        None => message,
    }
}

impl RaisedError {
    /// The backtrace as a sequence of characters, where there is one.
    pub open spec fn backtrace_text(&self) -> Option<Seq<char>> {
        match self.backtrace {
            Some(trace) => Some(trace@),
            None => None,
        }
    }

    /// The text that is reported of this error, with the backtrace in front
    /// if `capture` asks for it.
    pub open spec fn cause_text(&self, capture: bool) -> Seq<char> {
        if capture {
            with_backtrace(self.message@, self.backtrace_text())
        } else {
            self.message@
        }
    }
}

impl CallbackError {
    /// The whole text of the error: the context, a colon, a space, the cause.
    pub open spec fn text(&self) -> Seq<char> {
        self.context@ + seq![':', ' '] + self.cause@
    }

    /// The whole text of the error: the context, a colon, a space, the cause.
    pub fn message(&self) -> (text: String)
        ensures
            text@ == self.text(),
    {
        let mut text = self.context.clone();
        text.push(':');
        text.push(' ');
        text.append(self.cause.as_str());
        proof {
            assert(text@ =~= self.text());
        }
        text
    }
}

/// The text of a raised error with its backtrace in front.
pub fn traceback(err: &RaisedError) -> (text: String)
    ensures
        text@ == with_backtrace(err.message@, err.backtrace_text()),
{
    match &err.backtrace {
        Some(trace) => {
            let mut text = trace.clone();
            text.push('\n');
            text.append(err.message.as_str());
            text
        },
        None => err.message.clone(),
    }
}

/// What the caller of a managed callable gets for each outcome of the call:
/// the value that the callable returned, or the error that it raised, put
/// under the context of the call.
pub open spec fn surfaced<T>(
    outcome: Result<T, RaisedError>,
    capture: bool,
    reported: Result<T, CallbackError>,
) -> bool {
    match outcome {
        Ok(value) => reported == Ok::<T, CallbackError>(value),
        Err(raised) => reported is Err && reported->Err_0.context@ == call_context()
            && reported->Err_0.cause@ == raised.cause_text(capture),
    }
}

/// Turns the outcome of a call of a managed callable into what is reported
/// to the native caller. With `capture`, the backtrace of a raised error
/// goes in front of its text.
pub fn surface<T>(outcome: Result<T, RaisedError>, capture: bool) -> (reported: Result<
    T,
    CallbackError,
>)
    ensures
        surfaced(outcome, capture, reported),
{
    match outcome {
        Ok(value) => Ok(value),
        Err(raised) => {
            let cause = if capture {
                traceback(&raised)
            } else {
                raised.message.clone()
            };
            Err(CallbackError { context: String::from_str("function called failed"), cause })
        },
    }
}

/// Calls a managed callable under the lock and reports a raised error by its
/// text alone. The lock state is on return what it was before.
pub fn call_func<T, F: FnOnce(LockState) -> Result<T, RaisedError>>(
    lock: &mut LockState,
    func: F,
) -> (reported: Result<T, CallbackError>)
    requires
        func.requires((LockState::Held,)),
    ensures
        *final(lock) == *old(lock),
        exists|outcome: Result<T, RaisedError>|
            func.ensures((LockState::Held,), outcome) && surfaced(outcome, false, reported),
{
    let outcome = lock.run_with_lock(func);
    surface(outcome, false)
}

/// Calls a managed callable under the lock and reports a raised error with
/// its backtrace in front. The lock state is on return what it was before.
pub fn call_func_traceback<T, F: FnOnce(LockState) -> Result<T, RaisedError>>(
    lock: &mut LockState,
    func: F,
) -> (reported: Result<T, CallbackError>)
    requires
        func.requires((LockState::Held,)),
    ensures
        *final(lock) == *old(lock),
        exists|outcome: Result<T, RaisedError>|
            func.ensures((LockState::Held,), outcome) && surfaced(outcome, true, reported),
{
    let outcome = lock.run_with_lock(func);
    surface(outcome, true)
}

} // verus!
