//! Inactivity auto-lock decisions.
use vstd::prelude::*;

use crate::text::{parse_u64, parse_u64_text, str_trim, trimmed};

verus! {

/// Auto-lock timeout used when no usable override is configured.
pub const DEFAULT_AUTO_LOCK_SECS: u64 = 300;

/// Whether an unlocked vault has been idle long enough to lock it.
///
/// `timeout_secs` is the configured timeout (`None` when auto-lock is
/// disabled) and `idle_nanos` is how long the user has been inactive.
pub fn inactivity_expired(vault_unlocked: bool, timeout_secs: Option<u64>, idle_nanos: u128) -> (expired: bool)
    ensures
        expired == (vault_unlocked && match timeout_secs {
            Some(t) => idle_nanos >= t * 1_000_000_000,
            None => false,
        }),
{
    if !vault_unlocked {
        return false;
    }
    match timeout_secs {
        Some(t) => {
            let timeout_nanos: u128 = (t as u128) * 1_000_000_000;
            idle_nanos >= timeout_nanos
        },
        None => false,
    }
}


/// The auto-lock timeout configured by a setting value: a whole number of
/// seconds, surrounding whitespace allowed; `0` disables auto-lock; a missing,
/// empty or unparsable value means the default of 300 seconds.
pub open spec fn auto_lock_timeout_of(value: Option<Seq<char>>) -> Option<u64> {
    let seconds: u64 = match value {
        Some(v) => if trimmed(v).len() == 0 {
            DEFAULT_AUTO_LOCK_SECS
        } else {
            match parse_u64_text(trimmed(v)) {
                Some(s) => s,
                None => DEFAULT_AUTO_LOCK_SECS,
            }
        },
        None => DEFAULT_AUTO_LOCK_SECS,
    };
    if seconds == 0 {
        None
    } else {
        Some(seconds)
    }
}

/// Reads the auto-lock timeout, in seconds, from a setting value.
pub fn auto_lock_timeout_from_value(value: Option<&str>) -> (timeout_secs: Option<u64>)
    ensures
        timeout_secs == auto_lock_timeout_of(
            match value {
                Some(v) => Some(v@),
                None => None,
            },
        ),
{
    let seconds: u64 = match value {
        None => DEFAULT_AUTO_LOCK_SECS,
        Some(v) => {
            let t = str_trim(v);
            if t.is_empty() {
                DEFAULT_AUTO_LOCK_SECS
            } else {
                match parse_u64(t) {
                    Some(s) => s,
                    None => DEFAULT_AUTO_LOCK_SECS,
                }
            }
        },
    };
    if seconds == 0 {
        None
    } else {
        Some(seconds)
    }
}

} // verus!
