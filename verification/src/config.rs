//! Resolution of operational parameters from raw environment values. The
//! process reads the variables; these functions apply the documented
//! defaults and parse the numeric ones, so a missing or malformed value
//! always resolves the same way.

use vstd::prelude::*;

use crate::text::{chars_vec, dec_val, parse_u64_chars, parses_as_u64, u64_digits_of};

verus! {

/// Where the custom rules file lives.
pub struct RulesLocation {
    pub rules_dir: String,
    pub rules_filename: String,
}

/// Resolve the rules directory and file name, with their documented
/// defaults for an unset variable.
pub fn resolve_rules_location(dir: Option<String>, filename: Option<String>) -> (r: RulesLocation)
    ensures
        dir matches Some(d) ==> r.rules_dir == d,
        dir is None ==> r.rules_dir@ == "/var/lib/suricata/rules"@,
        filename matches Some(f) ==> r.rules_filename == f,
        filename is None ==> r.rules_filename@ == "custom.rules"@,
{
    let rules_dir = match dir {
        Some(d) => d,
        None => String::from_str("/var/lib/suricata/rules"),
    };
    let rules_filename = match filename {
        Some(f) => f,
        None => String::from_str("custom.rules"),
    };
    RulesLocation { rules_dir, rules_filename }
}

/// Resolve the network interface name, defaulting to `eth0`.
pub fn resolve_interface(raw: Option<String>) -> (r: String)
    ensures
        raw matches Some(s) ==> r == s,
        raw is None ==> r@ == "eth0"@,
{
    match raw {
        Some(s) => s,
        None => String::from_str("eth0"),
    }
}

/// Resolve a numeric parameter: an unset or malformed value falls back to
/// the default; a well-formed one is its 64-bit value.
pub fn env_u64_or(raw: Option<&String>, default: u64) -> (r: u64)
    ensures
        raw is None ==> r == default,
        raw matches Some(s) ==> (parses_as_u64(s@) ==> r == dec_val(u64_digits_of(s@))),
        raw matches Some(s) ==> (!parses_as_u64(s@) ==> r == default),
{
    match raw {
        None => default,
        Some(s) => {
            let sc = chars_vec(s.as_str());
            match parse_u64_chars(&sc) {
                Some(v) => v,
                None => default,
            }
        },
    }
}

} // verus!
