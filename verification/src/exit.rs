//! Stable process exit codes.
//!
//! Operators write alerting rules and restart policies against these numbers: a
//! code may gain meaning, but never changes it.

use vstd::prelude::*;

verus! {

/// Clean shutdown: a stop signal was received and Telegraf exited normally.
pub const OK: u8 = 0;

/// Bad command line: unknown flag, missing argument, unusable `--config` path.
pub const CLI: u8 = 2;

/// The configuration could not be loaded or violates a rule.
pub const CONFIG: u8 = 10;

/// A required secret file is missing, unreadable, or empty. Separate from
/// [`CONFIG`] because the fix is different: the config names a path that is
/// fine, the *mount* behind it is not.
pub const SECRET: u8 = 11;

/// A runtime precondition for an enabled module is absent.
pub const RUNTIME: u8 = 12;

/// The generated Telegraf configuration was rejected by `telegraf config check`.
pub const TELEGRAF_CONFIG: u8 = 20;

/// Telegraf did not reach a running state in time, or the binary is missing or
/// reports an unexpected version.
pub const TELEGRAF_START: u8 = 21;

/// Telegraf exited on its own while muninn was supervising it.
pub const TELEGRAF_EXITED: u8 = 22;

/// An internal invariant broke.
pub const INTERNAL: u8 = 30;

/// Every exit code there is.
pub open spec fn all_codes() -> Seq<u8> {
    seq![
        OK,
        CLI,
        CONFIG,
        SECRET,
        RUNTIME,
        TELEGRAF_CONFIG,
        TELEGRAF_START,
        TELEGRAF_EXITED,
        INTERNAL,
    ]
}

/// No two outcomes share a code, and 1 is none of them: it is what a panic or a
/// shell wrapper produces, and stays distinguishable from every deliberate exit.
pub proof fn law_codes_are_distinct_and_leave_one_free()
    ensures
        all_codes().no_duplicates(),
        !all_codes().contains(1u8),
{
}

} // verus!
