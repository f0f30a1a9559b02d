//! Trying again after a failed attempt, up to a ceiling.

use vstd::prelude::*;
use crate::error::Error;

verus! {

/// The most attempts made at stamping a revision date.
pub const MAX_TRIES: i32 = 10;

/// What to do after an attempt.
#[derive(Clone, Copy, Debug, PartialEq, Eq, Structural)]
pub enum Next {
    /// The last attempt stands, whatever it gave.
    Stop,
    /// Wait a moment and try once more.
    Again,
}

/// Whether another attempt follows `failures` failed attempts in a row,
/// under a ceiling of `max_tries` attempts. The first attempt is always
/// made.
pub open spec fn tries_again(failures: int, max_tries: int) -> bool {
    failures < max_tries
}

/// The count of failed attempts at one operation.
#[derive(Clone, Copy, Debug)]
pub struct Retry {
    tries: i32,
    max_tries: i32,
}

impl Retry {
    /// The attempts that failed so far.
    pub closed spec fn failures(&self) -> int {
        self.tries as int
    }

    /// The ceiling on attempts.
    pub closed spec fn ceiling(&self) -> int {
        self.max_tries as int
    }

    pub fn new(max_tries: i32) -> (retry: Retry)
        ensures
            retry.failures() == 0,
            retry.ceiling() == max_tries,
    {
        Retry { tries: 0, max_tries }
    }

    /// Takes note of what an attempt gave and says what follows. After a
    /// success nothing follows. After a failure another attempt follows
    /// while the failures stay under the ceiling. The count stops at the
    /// largest number it can hold.
    pub fn record(&mut self, succeeded: bool) -> (next: Next)
        ensures
            final(self).ceiling() == old(self).ceiling(),
            succeeded ==> next == Next::Stop && final(self).failures() == old(self).failures(),
            !succeeded ==> final(self).failures() == if old(self).failures() < i32::MAX {
                old(self).failures() + 1
            } else {
                old(self).failures()
            },
            !succeeded ==> (next == Next::Again <==> tries_again(
                old(self).failures() + 1,
                old(self).ceiling(),
            )),
    {
        if succeeded {
            return Next::Stop;
        }
        if self.tries < i32::MAX {
            self.tries = self.tries + 1;
        }
        if self.tries >= self.max_tries {
            Next::Stop
        } else {
            Next::Again
        }
    }
}

/// Runs `attempt` until it succeeds or `max_tries` attempts have failed,
/// with `pause` between two attempts, and hands back what the last attempt
/// gave.
pub fn retry<T, E, F: Fn() -> Result<T, E>, P: Fn() -> ()>(attempt: F, pause: P, max_tries: i32) -> (r: Result<T, E>)
    requires
        call_requires(attempt, ()),
        call_requires(pause, ()),
    ensures
        call_ensures(attempt, (), r),
{
    let mut state = Retry::new(max_tries);
    loop
        invariant
            call_requires(attempt, ()),
            call_requires(pause, ()),
            state.ceiling() == max_tries,
            0 <= state.failures(),
            state.failures() == 0 || state.failures() < max_tries,
        decreases max_tries - state.failures(),
    {
        let outcome = attempt();
        let succeeded = outcome.is_ok();
        match state.record(succeeded) {
            Next::Stop => {
                return outcome;
            },
            Next::Again => {
                pause();
            },
        }
    }
}

/// What becomes of a failure that outlasted every attempt.
#[derive(Clone, Copy, Debug, PartialEq, Eq, Structural)]
pub enum Exhausted {
    /// It is passed over: stamping one account is a best effort.
    Swallowed,
    /// It is handed to the caller: stamping every account must not fail
    /// in silence.
    Reported,
}

/// What the caller is told once the attempts at stamping are over.
pub fn settle(policy: Exhausted, succeeded: bool) -> (r: Result<(), Error>)
    ensures
        r is Ok <==> succeeded || policy == Exhausted::Swallowed,
        r is Err ==> r == Err::<(), Error>(Error::RevisionNotUpdated),
{
    if succeeded {
        Ok(())
    } else {
        match policy {
            Exhausted::Swallowed => Ok(()),
            Exhausted::Reported => Err(Error::RevisionNotUpdated),
        }
    }
}

} // verus!
