//! The error the rate limiter can surface to its callers.

use vstd::prelude::*;

verus! {

/// The single failure mode of the rate limiter: the exclusive-access
/// primitive guarding shared state was found poisoned, meaning a previous
/// holder terminated abnormally while holding it. It is surfaced to the
/// caller as-is, never treated as a rate-limit decision.
#[derive(Debug)]
pub enum RateLimiterError {
    ThreadingProblem,
}

} // verus!
