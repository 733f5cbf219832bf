//! When an operation that takes long shows that it is at work.

use vstd::prelude::*;

verus! {

/// After how many milliseconds an operation shows a spinner.
pub const SPINNER_DELAY_MS: u64 = 100;

/// How often a spinner turns, in milliseconds.
pub const SPINNER_TICK_MS: u64 = 100;

/// Whether a spinner is to come up now: never where quiet is asked for, not
/// before the operation has taken longer than a tenth of a second, and only
/// once.
pub fn spinner_is_due(quiet: bool, elapsed_ms: u64, shown: bool) -> (b: bool)
    ensures
        b == (!quiet && elapsed_ms > SPINNER_DELAY_MS && !shown),
{
    !quiet && elapsed_ms > SPINNER_DELAY_MS && !shown
}

/// Whether the message that ends an operation is printed: only where the
/// spinner came up.
pub fn end_message_is_due(quiet: bool, shown: bool) -> (b: bool)
    ensures
        b == (shown && !quiet),
{
    shown && !quiet
}

} // verus!
