//! Cursor movement escape sequences.

use vstd::prelude::*;
use crate::chars::{push_decimal, spec_decimal};

verus! {

/// The control sequence of one numeric parameter and a final byte.
pub open spec fn spec_cursor_code(n: int, suffix: char) -> Seq<char> {
    "\x1b["@ + spec_decimal(n) + seq![suffix]
}

fn csi_number(n: usize, suffix: char) -> (r: String)
    ensures
        r@ == spec_cursor_code(n as int, suffix),
{
    let mut out = String::new();
    out.append("\x1b[");
    push_decimal(&mut out, n);
    out.push(suffix);
    proof {
        assert(out@ =~= spec_cursor_code(n as int, suffix));
    }
    out
}

/// Move cursor up by `n` lines.
pub fn up(n: usize) -> (r: String)
    ensures
        r@ == spec_cursor_code(n as int, 'A'),
{
    csi_number(n, 'A')
}

/// Move cursor down by `n` lines.
pub fn down(n: usize) -> (r: String)
    ensures
        r@ == spec_cursor_code(n as int, 'B'),
{
    csi_number(n, 'B')
}

/// Move cursor right by `n` columns.
pub fn right(n: usize) -> (r: String)
    ensures
        r@ == spec_cursor_code(n as int, 'C'),
{
    csi_number(n, 'C')
}

/// Move cursor left by `n` columns.
pub fn left(n: usize) -> (r: String)
    ensures
        r@ == spec_cursor_code(n as int, 'D'),
{
    csi_number(n, 'D')
}

/// Move cursor to specific position (row, column). 1-indexed.
pub fn position(row: usize, col: usize) -> (r: String)
    ensures
        r@ == "\x1b["@ + spec_decimal(row as int) + ";"@ + spec_decimal(col as int) + "H"@,
{
    let mut out = String::new();
    out.append("\x1b[");
    push_decimal(&mut out, row);
    out.append(";");
    push_decimal(&mut out, col);
    out.append("H");
    proof {
        assert(out@ =~= "\x1b["@ + spec_decimal(row as int) + ";"@ + spec_decimal(col as int)
            + "H"@);
    }
    out
}

/// Move cursor to column. 1-indexed.
pub fn column(col: usize) -> (r: String)
    ensures
        r@ == spec_cursor_code(col as int, 'G'),
{
    csi_number(col, 'G')
}

} // verus!
