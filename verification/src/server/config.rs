//! Configuration of the server, from the values of environment variables.

use vstd::prelude::*;
use crate::firmware::config::{configured, configured_unsigned};
use crate::text::{split, split_chars, to_chars};
use super::persist::{filled, filled_strings, string_texts};

verus! {

pub const UDP_PORT_DEFAULT: u16 = 47890;

pub const HTTP_PORT_DEFAULT: u16 = 8080;

pub const DEVICE_HTTP_PORT_DEFAULT: u16 = 80;

/// Sixty days.
pub const RETENTION_HOURS_DEFAULT: u64 = 1440;

/// A 16-bit number, or a default where it is missing or no such number.
pub fn env_u16(value: Option<&str>, default: u16) -> (r: u16)
    ensures
        r == (match configured(value, u16::MAX as nat) {
            Some(v) => v,
            None => default as nat,
        }),
{
    match configured_unsigned(value, u16::MAX as u64) {
        Some(v) => v as u16,
        None => default,
    }
}

/// A 64-bit number, or a default where it is missing or no such number.
pub fn env_u64(value: Option<&str>, default: u64) -> (r: u64)
    ensures
        r == (match configured(value, u64::MAX as nat) {
            Some(v) => v,
            None => default as nat,
        }),
{
    match configured_unsigned(value, u64::MAX) {
        Some(v) => v,
        None => default,
    }
}

/// Seconds of a retention time in hours.
pub fn retention_secs(hours: u64) -> (r: u64)
    requires
        hours * 3600 <= u64::MAX,
    ensures
        r == hours * 3600,
{
    hours * 3600
}

/// The names of the probes: what stands between commas, without empty names.
pub open spec fn names_in(value: Option<&str>) -> Seq<Seq<char>> {
    match value {
        Some(s) => filled(split(s@, ',')),
        None => Seq::empty(),
    }
}

/// Reads the names of the probes.
pub fn sensor_names(value: Option<&str>) -> (r: Vec<String>)
    ensures
        string_texts(r@) == names_in(value),
{
    match value {
        Some(s) => {
            let chars: Vec<char> = to_chars(s);
            let parts: Vec<Vec<char>> = split_chars(chars.as_slice(), ',');
            filled_strings(&parts)
        },
        None => {
            let none: Vec<String> = Vec::new();
            assert(string_texts(none@) == Seq::<Seq<char>>::empty());
            none
        },
    }
}

} // verus!
