//! The valve's configuration: the open/closed flag, the retained-history
//! bound, and the debug-verbosity flag.

use vstd::prelude::*;

verus! {

/// Default for `Settings::open`: the valve starts closed.
pub const DEFAULT_OPEN: bool = false;

/// Default for `Settings::max_history`, in milliseconds.
pub const DEFAULT_MAX_HISTORY_MS: u64 = 5000;

/// Default for `Settings::debug`.
pub const DEFAULT_DEBUG: bool = false;

/// The three independently settable values that steer the valve.
///
/// `open` gates whether incoming frames bypass the backlog or enter it,
/// `max_history` bounds the backlog's age span in milliseconds of stream
/// time, and `debug` gates trace-level diagnostics only (it has no
/// behavioural effect inside the valve).
#[derive(Debug, Clone, Copy, PartialEq, Eq, Structural)]
pub struct Settings {
    pub open: bool,
    pub max_history: u64,
    pub debug: bool,
}

impl Default for Settings {
    fn default() -> (s: Settings)
        ensures
            s == (Settings {
                open: DEFAULT_OPEN,
                max_history: DEFAULT_MAX_HISTORY_MS,
                debug: DEFAULT_DEBUG,
            }),
    {
        Settings { open: DEFAULT_OPEN, max_history: DEFAULT_MAX_HISTORY_MS, debug: DEFAULT_DEBUG }
    }
}

/// The settings after a write of `open`.
pub open spec fn with_open(s: Settings, v: bool) -> Settings {
    Settings { open: v, ..s }
}

/// The settings after a write of `max_history`.
pub open spec fn with_max_history(s: Settings, v: u64) -> Settings {
    Settings { max_history: v, ..s }
}

/// The settings after a write of `debug`.
pub open spec fn with_debug(s: Settings, v: bool) -> Settings {
    Settings { debug: v, ..s }
}

/// Law: every setting written is the setting read back, and a write to one
/// setting leaves the other two as they were.
pub proof fn lemma_settings_roundtrip(s: Settings, b: bool, v: u64)
    ensures
        with_open(s, b).open == b,
        with_open(s, b).max_history == s.max_history,
        with_open(s, b).debug == s.debug,
        with_max_history(s, v).max_history == v,
        with_max_history(s, v).open == s.open,
        with_max_history(s, v).debug == s.debug,
        with_debug(s, b).debug == b,
        with_debug(s, b).open == s.open,
        with_debug(s, b).max_history == s.max_history,
{
}

} // verus!
