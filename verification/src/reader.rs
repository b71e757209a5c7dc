//! The counter reader: turning one query's outcome into a typed sample.
//!
//! The query command itself runs out of process; the embedding program hands
//! this module the command's success flag and captured output text, and the
//! verified logic here classifies failures and extracts the sample.

use vstd::prelude::*;
use crate::CounterSample;
use crate::parse::{split_lines, text_keyword_value, text_keyword_value_in};

verus! {

/// Why one counter read failed.
#[derive(Clone, PartialEq, Eq, Debug)]
pub enum CounterError {
    /// The query command could not be launched or communicated with.
    ExecutionError(String),
    /// The query command ran but reported failure; carries its diagnostics.
    CommandError(String),
}

/// The sample a successful query's output text denotes, scanned line by
/// line: each field comes from the token after the last occurrence of its
/// keyword, which must lie on the same line, and degrades to zero when the
/// keyword is absent or its same-line numeric follower is missing.
pub open spec fn spec_counter_sample(text: Seq<char>) -> CounterSample {
    CounterSample {
        packets: text_keyword_value(text, "packets"@),
        bytes: text_keyword_value(text, "bytes"@),
    }
}

/// Extract the packet and byte counts from a counter listing.
pub fn parse_counter_text(text: &str) -> (s: CounterSample)
    ensures
        s == spec_counter_sample(text@),
{
    let lines = split_lines(text);
    let packets = text_keyword_value_in(&lines, "packets");
    let bytes = text_keyword_value_in(&lines, "bytes");
    CounterSample { packets, bytes }
}

/// Classify one finished query: a successful command yields the sample its
/// output denotes; a failed one yields `CommandError` with its diagnostics.
pub fn read_outcome(status_success: bool, stdout_text: &str, stderr_text: &str) -> (r: Result<
    CounterSample,
    CounterError,
>)
    ensures
        status_success ==> r == Ok::<CounterSample, CounterError>(
            spec_counter_sample(stdout_text@),
        ),
        !status_success ==> (r matches Err(e) && e matches CounterError::CommandError(m) && m@
            == stderr_text@),
{
    if status_success {
        Ok(parse_counter_text(stdout_text))
    } else {
        Err(CounterError::CommandError(String::from_str(stderr_text)))
    }
}

/// Classify one finished reset command: nothing beyond success or failure
/// is consumed from it; a failed one carries its diagnostics.
pub fn reset_outcome(status_success: bool, stderr_text: &str) -> (r: Result<(), CounterError>)
    ensures
        status_success ==> r is Ok,
        !status_success ==> (r matches Err(e) && e matches CounterError::CommandError(m) && m@
            == stderr_text@),
{
    if status_success {
        Ok(())
    } else {
        Err(CounterError::CommandError(String::from_str(stderr_text)))
    }
}

/// Derive the counter name for an interface: the fixed prefix keeps the
/// scheme stable and collision-free across interfaces.
pub fn counter_name(iface: &str) -> (r: String)
    ensures
        r@ == "cnt_"@ + iface@,
{
    String::from_str("cnt_").concat(iface)
}

} // verus!
