//! Repeating a tool call that failed for a transient reason.
use vstd::prelude::*;
use crate::error::{CodaError, is_retriable_spec};

verus! {

/// The pause before the next attempt after the attempt numbered `failed + 1`
/// failed with `e`, or `None` when no attempt follows: a transient error is
/// retried while fewer than `max` repeats were made, one second per attempt made.
pub open spec fn retry_next(failed: nat, max: nat, e: CodaError) -> Option<nat> {
    if is_retriable_spec(e) && failed + 1 <= max { Some(1000 * (failed + 1)) } else { None }
}

/// How many attempts a call takes when its attempts fail with `errs` in turn:
/// it stops at the first error that gets no retry, or, where the failures run
/// out, with the attempt after the last (which succeeds).
pub open spec fn retry_attempts(failed: nat, max: nat, errs: Seq<CodaError>) -> nat
    decreases errs.len(),
{
    if errs.len() == 0 {
        1
    } else if retry_next(failed, max, errs[0]) is Some {
        1 + retry_attempts(failed + 1, max, errs.drop_first())
    } else {
        1
    }
}

proof fn lemma_retry_attempts(failed: nat, max: nat, errs: Seq<CodaError>)
    requires
        failed <= max,
    ensures
        retry_attempts(failed, max, errs) <= max + 1 - failed,
    decreases errs.len(),
{
    if errs.len() > 0 && retry_next(failed, max, errs[0]) is Some {
        lemma_retry_attempts(failed + 1, max, errs.drop_first());
    }
}

/// A call is attempted at most `max_retries + 1` times, and only once when its
/// first attempt fails with an error that is not transient.
pub proof fn law_retry_attempts(max_retries: nat, errs: Seq<CodaError>)
    ensures
        retry_attempts(0, max_retries, errs) <= max_retries + 1,
        errs.len() > 0 && !is_retriable_spec(errs[0]) ==> retry_attempts(0, max_retries, errs) == 1,
{
    lemma_retry_attempts(0, max_retries, errs);
}

/// The retry state of one call: how many attempts failed so far, and how many
/// repeats are allowed after the first attempt.
pub struct Retry {
    pub failed: u64,
    pub max_retries: u32,
}

impl Retry {
    pub open spec fn wf(self) -> bool {
        self.failed <= self.max_retries + 1
    }

    pub fn new(max_retries: u32) -> (r: Retry)
        ensures
            r.failed == 0,
            r.max_retries == max_retries,
            r.wf(),
    {
        Retry { failed: 0, max_retries }
    }

    /// After an attempt failed with `err`: the pause in milliseconds before the
    /// next attempt, or `None` when the error is final. A transient error is
    /// retried while repeats remain, after a pause of one second per attempt
    /// made; any other error is final at once.
    pub fn after_failure(&mut self, err: &CodaError) -> (r: Option<u64>)
        requires
            old(self).failed <= old(self).max_retries,
        ensures
            final(self).max_retries == old(self).max_retries,
            final(self).failed == old(self).failed + 1,
            final(self).wf(),
            match r { Some(ms) => Some(ms as nat), None => None }
                == retry_next(old(self).failed as nat, old(self).max_retries as nat, *err),
    {
        self.failed = self.failed + 1;
        if err.is_retriable() && self.failed <= self.max_retries as u64 {
            Some(1000 * self.failed)
        } else {
            None
        }
    }
}

} // verus!
