use vstd::prelude::*;
use vstd::string::StringExecFns;
use crate::common::text::chars_of;
use crate::relay::endpoint::{parse_number, read_number};

verus! {

/// The input of the SRT relay that starts by itself, unless another is
/// given.
pub const DEFAULT_SRT_INPUT: &'static str = "srt://@:9000?mode=listener";

/// The output of the SRT relay that starts by itself, unless another is
/// given.
pub const DEFAULT_SRT_OUTPUT: &'static str = "srt://127.0.0.1:10000?mode=caller";

/// The latency of the SRT relay that starts by itself, unless another is
/// given, milliseconds.
pub const DEFAULT_SRT_LATENCY_MS: u64 = 80;

/// The input of the RIST relay that starts by itself, unless another is
/// given.
pub const DEFAULT_RIST_INPUT: &'static str = "rist://@:10000?mode=listener";

/// The output of the RIST relay that starts by itself, unless another is
/// given.
pub const DEFAULT_RIST_OUTPUT: &'static str = "rist://127.0.0.1:11000?mode=caller";

/// What the SRT relay that starts by itself runs with.
#[derive(Debug, PartialEq, Eq)]
pub struct SrtSettings {
    pub input: String,
    pub output: String,
    pub latency_ms: u64,
}

/// What the RIST relay that starts by itself runs with.
#[derive(Debug, PartialEq, Eq)]
pub struct RistSettings {
    pub input: String,
    pub output: String,
}

/// Whether a switch with the setting `switch` is on: it is, unless it is
/// set to `0`.
pub open spec fn switch_is_on(switch: Option<Seq<char>>) -> bool {
    match switch {
        Some(v) => v != seq!['0'],
        None => true,
    }
}

/// The setting `given`, or `default` where nothing is given.
pub open spec fn setting_or(given: Option<Seq<char>>, default: Seq<char>) -> Seq<char> {
    match given {
        Some(v) => v,
        None => default,
    }
}

/// The latency that the setting `given` asks for: the number that it
/// writes, and the default where it is missing or writes none.
pub open spec fn latency_of(given: Option<Seq<char>>) -> u64 {
    match given {
        Some(t) => match parse_number(t, u64::MAX as nat) {
            Some(v) => v as u64,
            None => DEFAULT_SRT_LATENCY_MS,
        },
        None => DEFAULT_SRT_LATENCY_MS,
    }
}

/// The characters of a setting.
pub open spec fn setting_view(given: Option<&str>) -> Option<Seq<char>> {
    match given {
        Some(v) => Some(v@),
        None => None,
    }
}

/// Whether a switch with the setting `switch` is on: it is, unless it is
/// set to `0`.
pub fn auto_enabled(switch: Option<&str>) -> (r: bool)
    ensures
        r == switch_is_on(setting_view(switch)),
{
    match switch {
        Some(v) => {
            let c = chars_of(v);
            let off = c.len() == 1 && c[0] == '0';
            assert(off == (c@ =~= seq!['0']));
            !off
        },
        None => true,
    }
}

/// The latency that the setting `given` asks for, milliseconds.
pub fn latency_or_default(given: Option<&str>) -> (r: u64)
    ensures
        r == latency_of(setting_view(given)),
{
    match given {
        Some(t) => {
            let c = chars_of(t);
            match read_number(c.as_slice(), u64::MAX) {
                Some(v) => v,
                None => DEFAULT_SRT_LATENCY_MS,
            }
        },
        None => DEFAULT_SRT_LATENCY_MS,
    }
}

/// The setting `given` as a string, or `default` where nothing is given.
pub fn given_or(given: Option<&str>, default: &str) -> (r: String)
    ensures
        r@ == setting_or(setting_view(given), default@),
{
    match given {
        Some(v) => String::from_str(v),
        None => String::from_str(default),
    }
}

/// What the SRT relay that starts by itself runs with, or `None` where it
/// is switched off.
pub fn srt_auto_settings(
    switch: Option<&str>,
    input: Option<&str>,
    output: Option<&str>,
    latency: Option<&str>,
) -> (r: Option<SrtSettings>)
    ensures
        r is Some <==> switch_is_on(setting_view(switch)),
        r matches Some(s) ==> s.input@ == setting_or(setting_view(input), DEFAULT_SRT_INPUT@)
            && s.output@ == setting_or(setting_view(output), DEFAULT_SRT_OUTPUT@) && s.latency_ms
            == latency_of(setting_view(latency)),
{
    if !auto_enabled(switch) {
        return None;
    }
    Some(
        SrtSettings {
            input: given_or(input, DEFAULT_SRT_INPUT),
            output: given_or(output, DEFAULT_SRT_OUTPUT),
            latency_ms: latency_or_default(latency),
        },
    )
}

/// What the RIST relay that starts by itself runs with, or `None` where
/// it is switched off.
pub fn rist_auto_settings(switch: Option<&str>, input: Option<&str>, output: Option<&str>) -> (r:
    Option<RistSettings>)
    ensures
        r is Some <==> switch_is_on(setting_view(switch)),
        r matches Some(s) ==> s.input@ == setting_or(setting_view(input), DEFAULT_RIST_INPUT@)
            && s.output@ == setting_or(setting_view(output), DEFAULT_RIST_OUTPUT@),
{
    if !auto_enabled(switch) {
        return None;
    }
    Some(
        RistSettings {
            input: given_or(input, DEFAULT_RIST_INPUT),
            output: given_or(output, DEFAULT_RIST_OUTPUT),
        },
    )
}

} // verus!
