//! Defaults of the dispatch engine.

use vstd::prelude::*;

verus! {

/// Default token budget handed to providers that require one.
pub const DEFAULT_MAX_TOKENS: u32 = 1024;

/// Default retry budget: additional attempts after the first.
pub const DEFAULT_MAX_TRIES: usize = 5;

/// Exponential backoff base, in seconds.
pub const DEFAULT_RATE_LIMIT_WAIT_SECS: u64 = 2;

/// Exponential backoff cap, in seconds.
pub const MAX_RATE_LIMIT_WAIT_SECS: u64 = 60;

} // verus!
