//! The boundary to the outside world. The dispatcher's loop is verified;
//! the HTTP call, the clock and the backoff sleep are effects only the
//! hosting process can perform, so it supplies them through this trait.

use crate::errors::LlmError;
use crate::instance::Instance;
use crate::types::{LlmRequest, LlmResponse};
use vstd::prelude::*;

verus! {

/// What the hosting process supplies to run requests: the adapter call for
/// one instance, a millisecond clock, and the backoff sleep. Tests supply
/// scripted mocks instead. Nothing is assumed of any method's result: the
/// dispatcher's contracts hold for every implementation.
pub trait AdapterPort {
    /// Execute one generation call against the given instance.
    fn generate(&mut self, instance: &Instance, request: &LlmRequest) -> Result<
        LlmResponse,
        LlmError,
    >;

    /// A millisecond timestamp, used for latencies and `last_used` stamps.
    fn now_millis(&mut self) -> u64;

    /// Wait out a rate limit for the given number of seconds.
    fn sleep_secs(&mut self, secs: u64);
}

} // verus!
