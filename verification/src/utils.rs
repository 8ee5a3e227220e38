//! Paths for the per-call transcripts the hosting process writes.

use crate::text::{decimal_chars, u64_to_string};
use vstd::prelude::*;

verus! {

/// The transcript file of one instance under one manager run:
/// `<folder>/<timestamp>/<id>_<provider>_<model>/debug.json`.
pub open spec fn spec_debug_path(
    debug_folder: Seq<char>,
    timestamp: u64,
    instance_id: u64,
    instance_provider: Seq<char>,
    instance_model: Seq<char>,
) -> Seq<char> {
    debug_folder + "/"@ + decimal_chars(timestamp as int) + "/"@ + decimal_chars(
        instance_id as int,
    ) + "_"@ + instance_provider + "_"@ + instance_model + "/debug.json"@
}

/// Build the transcript path for one instance and one manager run.
pub fn get_debug_path(
    debug_folder: &str,
    timestamp: u64,
    instance_id: usize,
    instance_provider: &str,
    instance_model: &str,
) -> (r: String)
    ensures
        r@ == spec_debug_path(
            debug_folder@,
            timestamp,
            instance_id as u64,
            instance_provider@,
            instance_model@,
        ),
{
    let ts = u64_to_string(timestamp);
    let id = u64_to_string(instance_id as u64);
    String::from_str(debug_folder).concat("/").concat(ts.as_str()).concat("/").concat(
        id.as_str(),
    ).concat("_").concat(instance_provider).concat("_").concat(instance_model).concat(
        "/debug.json",
    )
}

} // verus!
