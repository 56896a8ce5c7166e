//! Terminal display widths of characters and strings.
//!
//! The widths come from the `unicode_width` crate; the library gives them
//! names and reasons about everything built on top of them.

use vstd::prelude::*;
use unicode_width::{UnicodeWidthChar, UnicodeWidthStr};

verus! {

/// The number of terminal columns a string occupies.
pub uninterp spec fn display_width_of(s: Seq<char>) -> nat;

/// The number of terminal columns one character occupies, `None` for a
/// control character.
pub uninterp spec fn char_width_of(c: char) -> Option<usize>;

/// Relies on `UnicodeWidthStr::width`: the displayed width of the string
/// in terminal columns, a function of its characters alone.
#[verifier::external_body]
pub fn display_width(s: &str) -> (w: usize)
    ensures
        w as nat == display_width_of(s@),
{
    UnicodeWidthStr::width(s)
}

/// Relies on `UnicodeWidthChar::width`: the displayed width of one
/// character in terminal columns, `None` for a control character, a
/// function of the character alone.
#[verifier::external_body]
pub fn char_width(c: char) -> (w: Option<usize>)
    ensures
        w == char_width_of(c),
{
    UnicodeWidthChar::width(c)
}

/// The column width of one character, counting control characters as
/// zero.
pub open spec fn spec_char_cell_width(c: char) -> nat {
    match char_width_of(c) {
        Some(w) => w as nat,
        None => 0,
    }
}

pub fn char_cell_width(c: char) -> (w: usize)
    ensures
        w as nat == spec_char_cell_width(c),
{
    match char_width(c) {
        Some(w) => w,
        None => 0,
    }
}

} // verus!
