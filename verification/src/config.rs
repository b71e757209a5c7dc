//! Resolving the immutable process configuration from raw setting values.
//!
//! The embedding program looks the three settings up (for instance in the
//! process environment) and hands the raw strings here; the logic that
//! turns them into a well-formed configuration is verified.  Each setting
//! has a documented default that applies when it is unset.

use vstd::prelude::*;
use crate::parse::{parse_u64, parsed_u64, tokenize, tokens_of, views_of};

verus! {

/// The interface list a raw setting denotes: its whitespace-separated
/// tokens, or the default pair when the setting is unset.
pub open spec fn spec_interfaces(raw: Option<&str>) -> Seq<Seq<char>> {
    match raw {
        Some(v) => tokens_of(v@),
        None => tokens_of("eth1 pppoe-wan"@),
    }
}

/// The poll interval a raw setting denotes: its value in seconds when it
/// parses as a positive integer, else the default of five seconds.  Zero is
/// rejected so that a resolved configuration always has a positive interval.
pub open spec fn spec_interval(raw: Option<&str>) -> u64 {
    match raw {
        Some(v) => match parsed_u64(v@) {
            Some(n) => if n > 0 {
                n
            } else {
                5u64
            },
            None => 5u64,
        },
        None => 5u64,
    }
}

/// The output path a raw setting denotes: the setting itself, or the
/// default path when it is unset.
pub open spec fn spec_output_path(raw: Option<&str>) -> Seq<char> {
    match raw {
        Some(v) => v@,
        None => "/var/run/trafficmon.json"@,
    }
}

/// The set of interfaces to track, from the raw setting value.
pub fn get_interfaces(raw: Option<&str>) -> (r: Vec<String>)
    ensures
        views_of(r@) == spec_interfaces(raw),
{
    match raw {
        Some(v) => tokenize(v),
        None => tokenize("eth1 pppoe-wan"),
    }
}

/// The poll interval in seconds, from the raw setting value.
pub fn get_interval(raw: Option<&str>) -> (r: u64)
    ensures
        r == spec_interval(raw),
        r > 0,
{
    match raw {
        Some(v) => match parse_u64(v) {
            Some(n) => if n > 0 {
                n
            } else {
                5
            },
            None => 5,
        },
        None => 5,
    }
}

/// The output file path, from the raw setting value.
pub fn get_output_path(raw: Option<&str>) -> (r: String)
    ensures
        r@ == spec_output_path(raw),
{
    match raw {
        Some(v) => String::from_str(v),
        None => String::from_str("/var/run/trafficmon.json"),
    }
}

/// The immutable per-process configuration, resolved once at startup and
/// never mutated afterward.
pub struct Configuration {
    pub interfaces: Vec<String>,
    pub poll_interval_seconds: u64,
    pub output_path: String,
}

/// Well-formedness of a configuration: the poll interval is positive.
pub open spec fn config_wf(c: Configuration) -> bool {
    c.poll_interval_seconds > 0
}

/// Resolve the whole configuration from the three raw setting values.
pub fn resolve_configuration(
    interfaces_raw: Option<&str>,
    interval_raw: Option<&str>,
    output_raw: Option<&str>,
) -> (c: Configuration)
    ensures
        views_of(c.interfaces@) == spec_interfaces(interfaces_raw),
        c.poll_interval_seconds == spec_interval(interval_raw),
        c.output_path@ == spec_output_path(output_raw),
        config_wf(c),
{
    Configuration {
        interfaces: get_interfaces(interfaces_raw),
        poll_interval_seconds: get_interval(interval_raw),
        output_path: get_output_path(output_raw),
    }
}

} // verus!
