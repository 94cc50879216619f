//! An in-memory key-value cache with per-key time-to-live expiration,
//! a line-oriented text protocol, and usage counters.
//!
//! Time is handled as plain milliseconds: every operation that depends on
//! the clock takes the current instant as an explicit `now_ms` argument,
//! so the whole store logic is a function of its inputs.

pub mod dispatch;
pub mod laws;
pub mod protocol;
pub mod stats;
pub mod store;
pub mod text;

use vstd::prelude::*;

verus! {

/// Whether an entry with the given absolute expiry (in milliseconds) is
/// logically expired at `now_ms`. `None` means the entry never expires.
pub open spec fn spec_is_expired(expires_at: Option<u64>, now_ms: u64) -> bool {
    match expires_at {
        Some(t) => t <= now_ms,
        None => false,
    }
}

/// An entry is logically absent once its expiry instant is at or before now.
pub fn is_expired(expires_at: Option<u64>, now_ms: u64) -> (b: bool)
    ensures
        b == spec_is_expired(expires_at, now_ms),
{
    match expires_at {
        Some(t) => t <= now_ms,
        None => false,
    }
}

} // verus!
