//! Common ANSI escape sequences.

use vstd::prelude::*;

verus! {

/// Reset all formatting.
pub const RESET: &'static str = "\x1b[0m";

/// Clear screen.
pub const CLEAR_SCREEN: &'static str = "\x1b[2J";

/// Move cursor to home position (0,0).
pub const CURSOR_HOME: &'static str = "\x1b[H";

/// Hide cursor.
pub const CURSOR_HIDE: &'static str = "\x1b[?25l";

/// Show cursor.
pub const CURSOR_SHOW: &'static str = "\x1b[?25h";

/// Enable alternative screen buffer.
pub const ALT_SCREEN_ENABLE: &'static str = "\x1b[?1049h";

/// Disable alternative screen buffer.
pub const ALT_SCREEN_DISABLE: &'static str = "\x1b[?1049l";

} // verus!
