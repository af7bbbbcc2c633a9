//! An in-process admission-control library: a sliding-log rate limiter.
//!
//! Given a stream of events keyed by client identity, the
//! [`rate_limiter::RateLimiter`] decides per event whether to allow or deny
//! it, based on how many events from the same key were admitted within the
//! recent window of `limit * ticks` clock ticks. Time comes from a pluggable
//! [`clock::Clock`]; per-key state lives in the [`ledger::Ledger`]. The
//! decision procedure is fully specified: every public operation promises
//! exactly which verdict it returns and which timestamps it leaves behind,
//! and [`laws`] states and proves the library-wide properties (capacity,
//! monotone eviction, determinism, per-key independence, the zero-limit
//! policy).

pub mod clock;
pub mod error;
pub mod laws;
pub mod ledger;
pub mod rate_limiter;
