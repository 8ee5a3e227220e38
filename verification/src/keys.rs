//! Standard metric label keys.

use vstd::prelude::*;

verus! {

/// Provider name label key.
pub const PROVIDER: &'static str = "provider";

/// Model name label key.
pub const MODEL: &'static str = "model";

/// Task name label key.
pub const TASK: &'static str = "task";

/// Error type label key.
pub const ERROR_TYPE: &'static str = "error_type";

} // verus!
