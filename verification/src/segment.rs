//! Segment - the fundamental rendering unit for rich text.

use vstd::prelude::*;
use crate::ansi;
use crate::chars::spec_decimal;
use crate::color::ColorSystem;
use crate::style::{spec_combine, spec_empty_style, Style};
use crate::width::{char_cell_width, display_width, display_width_of, spec_char_cell_width};

verus! {

/// Control codes for terminal operations.
#[derive(Debug, Clone, Copy, PartialEq, Eq, Hash, Structural)]
pub enum ControlCode {
    /// Ring the terminal bell.
    Bell,
    /// Carriage return.
    CarriageReturn,
    /// Move cursor to home position.
    Home,
    /// Clear screen.
    Clear,
    /// Show cursor.
    ShowCursor,
    /// Hide cursor.
    HideCursor,
    /// Enable alternative screen buffer.
    EnableAltScreen,
    /// Disable alternative screen buffer.
    DisableAltScreen,
    /// Move cursor up by specified lines.
    CursorUp(usize),
    /// Move cursor down by specified lines.
    CursorDown(usize),
    /// Move cursor forward by specified columns.
    CursorForward(usize),
    /// Move cursor backward by specified columns.
    CursorBackward(usize),
    /// Move cursor to specific column (1-indexed).
    CursorMoveToColumn(usize),
    /// Move cursor to specific position (row, col) - both 1-indexed.
    CursorMoveTo { row: usize, col: usize },
}

/// The escape sequence of a control code.
pub open spec fn spec_control_ansi(c: ControlCode) -> Seq<char> {
    match c {
        ControlCode::Bell => "\x07"@,
        ControlCode::CarriageReturn => "\r"@,
        ControlCode::Home => "\x1b[H"@,
        ControlCode::Clear => "\x1b[2J"@,
        ControlCode::ShowCursor => "\x1b[?25h"@,
        ControlCode::HideCursor => "\x1b[?25l"@,
        ControlCode::EnableAltScreen => "\x1b[?1049h"@,
        ControlCode::DisableAltScreen => "\x1b[?1049l"@,
        ControlCode::CursorUp(n) => ansi::cursor::spec_cursor_code(n as int, 'A'),
        ControlCode::CursorDown(n) => ansi::cursor::spec_cursor_code(n as int, 'B'),
        ControlCode::CursorForward(n) => ansi::cursor::spec_cursor_code(n as int, 'C'),
        ControlCode::CursorBackward(n) => ansi::cursor::spec_cursor_code(n as int, 'D'),
        ControlCode::CursorMoveToColumn(col) => ansi::cursor::spec_cursor_code(col as int, 'G'),
        ControlCode::CursorMoveTo { row, col } => "\x1b["@ + spec_decimal(row as int) + ";"@
            + spec_decimal(col as int) + "H"@,
    }
}

impl ControlCode {
    /// Generate the ANSI escape sequence for this control code.
    pub fn to_ansi(self) -> (r: String)
        ensures
            r@ == spec_control_ansi(self),
    {
        match self {
            ControlCode::Bell => "\x07".to_owned(),
            ControlCode::CarriageReturn => "\r".to_owned(),
            ControlCode::Home => "\x1b[H".to_owned(),
            ControlCode::Clear => "\x1b[2J".to_owned(),
            ControlCode::ShowCursor => "\x1b[?25h".to_owned(),
            ControlCode::HideCursor => "\x1b[?25l".to_owned(),
            ControlCode::EnableAltScreen => "\x1b[?1049h".to_owned(),
            ControlCode::DisableAltScreen => "\x1b[?1049l".to_owned(),
            ControlCode::CursorUp(n) => ansi::cursor::up(n),
            ControlCode::CursorDown(n) => ansi::cursor::down(n),
            ControlCode::CursorForward(n) => ansi::cursor::right(n),
            ControlCode::CursorBackward(n) => ansi::cursor::left(n),
            ControlCode::CursorMoveToColumn(col) => ansi::cursor::column(col),
            ControlCode::CursorMoveTo { row, col } => ansi::cursor::position(row, col),
        }
    }
}

/// A segment represents a piece of text with associated styling.
///
/// Segments are the fundamental rendering units: a run of text with one
/// resolved style, or a bare terminal control code.
#[derive(Debug, Clone, PartialEq, Eq)]
pub struct Segment {
    /// The text content of this segment.
    pub text: String,
    /// The style to apply to this segment.
    pub style: Style,
    /// Optional control code for terminal operations.
    pub control: Option<ControlCode>,
}

/// A control segment: one with a control code and no text.
pub open spec fn spec_is_control(s: Segment) -> bool {
    s.control is Some && s.text@.len() == 0
}

/// The display width of a segment: zero for control segments, the
/// displayed width of the text otherwise.
pub open spec fn spec_cell_length(s: Segment) -> nat {
    if spec_is_control(s) {
        0
    } else {
        display_width_of(s.text@)
    }
}

/// The number of leading characters of `s` whose cumulative column width
/// stays within `budget`.
pub open spec fn spec_fit_len(s: Seq<char>, budget: int) -> int
    decreases s.len(),
{
    if s.len() == 0 {
        0
    } else if spec_char_cell_width(s[0]) > budget {
        0
    } else {
        1 + spec_fit_len(s.drop_first(), budget - spec_char_cell_width(s[0]))
    }
}

pub proof fn lemma_fit_len_bounds(s: Seq<char>, budget: int)
    ensures
        0 <= spec_fit_len(s, budget) <= s.len(),
    decreases s.len(),
{
    if s.len() > 0 && spec_char_cell_width(s[0]) <= budget {
        lemma_fit_len_bounds(s.drop_first(), budget - spec_char_cell_width(s[0]));
    }
}

/// The rendered form of a segment: its control code's escape sequence,
/// then the text, wrapped in the style's escape sequence and a reset
/// where the style produces one.
pub open spec fn spec_render_segment(s: Segment, system: ColorSystem) -> Seq<char> {
    let control_part = match s.control {
        Some(c) => spec_control_ansi(c),
        None => Seq::<char>::empty(),
    };
    let text_part = if s.text@.len() == 0 {
        Seq::<char>::empty()
    } else {
        let style_ansi = ansi::spec_style_ansi(s.style, system);
        if style_ansi.len() == 0 {
            s.text@
        } else {
            style_ansi + s.text@ + "\x1b[0m"@
        }
    };
    control_part + text_part
}

impl Segment {
    /// Create a new text segment with the given content and style.
    pub fn new(text: String, style: Style) -> (r: Self)
        ensures
            r.text == text,
            r.style == style,
            r.control is None,
    {
        Self { text, style, control: None }
    }

    /// Create a new control segment with a control code.
    pub fn control(control: ControlCode) -> (r: Self)
        ensures
            r.text@.len() == 0,
            r.style == spec_empty_style(),
            r.control == Some(control),
    {
        Self { text: String::new(), style: Style::default(), control: Some(control) }
    }

    /// Create a segment with both text and a control code.
    pub fn with_control(text: String, style: Style, control: ControlCode) -> (r: Self)
        ensures
            r.text == text,
            r.style == style,
            r.control == Some(control),
    {
        Self { text, style, control: Some(control) }
    }

    /// Get the text content of this segment.
    pub fn text(&self) -> (r: &str)
        ensures
            r@ == self.text@,
    {
        self.text.as_str()
    }

    /// Get the style of this segment.
    pub fn style(&self) -> (r: &Style)
        ensures
            *r == self.style,
    {
        &self.style
    }

    /// Get the control code of this segment, if any.
    pub fn get_control(&self) -> (r: Option<ControlCode>)
        ensures
            r == self.control,
    {
        self.control
    }

    /// Check if this segment contains only a control code (no text).
    pub fn is_control(&self) -> (r: bool)
        ensures
            r == spec_is_control(*self),
    {
        self.control.is_some() && self.text.as_str().is_empty()
    }

    /// Check if this segment contains only text (no control code).
    pub fn is_text(&self) -> (r: bool)
        ensures
            r == (self.control is None && self.text@.len() > 0),
    {
        self.control.is_none() && !self.text.as_str().is_empty()
    }

    /// Check if this segment is empty (no text and no control code).
    pub fn is_empty(&self) -> (r: bool)
        ensures
            r == (self.control is None && self.text@.len() == 0),
    {
        self.text.as_str().is_empty() && self.control.is_none()
    }

    /// Get the display width of this segment in terminal columns; control
    /// codes have zero width.
    pub fn cell_length(&self) -> (r: usize)
        ensures
            r as nat == spec_cell_length(*self),
    {
        if self.is_control() {
            0
        } else {
            display_width(self.text.as_str())
        }
    }

    /// Split this segment at the given character position.
    ///
    /// Both halves keep the style; the control code stays with the left
    /// half.  A position at or past the end returns the whole segment and
    /// an empty one.
    pub fn split_at_char(self, pos: usize) -> (r: (Self, Self))
        ensures
            pos >= self.text@.len() ==> r.0 == self && r.1.text@.len() == 0 && r.1.style
                == spec_empty_style() && r.1.control is None,
            pos < self.text@.len() ==> r.0.text@ == self.text@.take(pos as int) && r.0.style
                == self.style && r.0.control == self.control && r.1.text@ == self.text@.skip(
                pos as int,
            ) && r.1.style == self.style && r.1.control is None,
    {
        let n = self.text.as_str().unicode_len();
        if pos >= n {
            return (self, Segment::new(String::new(), Style::default()));
        }
        let left_text = self.text.as_str().substring_char(0, pos).to_owned();
        let right_text = self.text.as_str().substring_char(pos, n).to_owned();
        proof {
            assert(self.text@.subrange(0, pos as int) =~= self.text@.take(pos as int));
            assert(self.text@.subrange(pos as int, n as int) =~= self.text@.skip(pos as int));
        }
        let left = Self { text: left_text, style: self.style.clone(), control: self.control };
        let right = Self { text: right_text, style: self.style, control: None };
        (left, right)
    }

    /// Split this segment to fit within the given display width.
    ///
    /// The left half takes the longest prefix whose characters' cumulative
    /// column widths stay within `max_width`; the rest goes right.
    pub fn split_at_width(self, max_width: usize) -> (r: (Self, Self))
        ensures
            spec_is_control(self) ==> r.0 == self && r.1.text@.len() == 0 && r.1.style
                == spec_empty_style() && r.1.control is None,
            !spec_is_control(self) ==> ({
                let k = spec_fit_len(self.text@, max_width as int);
                if k == 0 {
                    r.0.text@.len() == 0 && r.0.style == self.style && r.0.control is None && r.1
                        == self
                } else if k >= self.text@.len() {
                    r.0 == self && r.1.text@.len() == 0 && r.1.style == spec_empty_style()
                        && r.1.control is None
                } else {
                    r.0.text@ == self.text@.take(k) && r.0.style == self.style && r.0.control
                        == self.control && r.1.text@ == self.text@.skip(k) && r.1.style
                        == self.style && r.1.control is None
                }
            }),
    {
        if self.is_control() {
            return (self, Segment::new(String::new(), Style::default()));
        }
        let n = self.text.as_str().unicode_len();
        let mut current_width: usize = 0;
        let mut split_pos: usize = 0;
        proof {
            lemma_fit_len_bounds(self.text@, max_width as int);
            assert(self.text@.skip(0) =~= self.text@);
        }
        while split_pos < n
            invariant_except_break
                split_pos <= n,
                n == self.text@.len(),
                current_width <= max_width,
                spec_fit_len(self.text@, max_width as int) == split_pos + spec_fit_len(
                    self.text@.skip(split_pos as int),
                    max_width - current_width,
                ),
            ensures
                split_pos <= n,
                n == self.text@.len(),
                spec_fit_len(self.text@, max_width as int) == split_pos,
            decreases n - split_pos,
        {
            let ghost rest = self.text@.skip(split_pos as int);
            let c = self.text.as_str().get_char(split_pos);
            proof {
                assert(rest[0] == self.text@[split_pos as int]);
                assert(rest.drop_first() =~= self.text@.skip(split_pos as int + 1));
            }
            let cw = char_cell_width(c);
            match current_width.checked_add(cw) {
                Some(total) => {
                    if total > max_width {
                        proof {
                            assert(spec_fit_len(rest, max_width - current_width) == 0);
                        }
                        break ;
                    }
                    current_width = total;
                    split_pos = split_pos + 1;
                },
                None => {
                    proof {
                        assert(spec_char_cell_width(rest[0]) > max_width - current_width);
                        assert(spec_fit_len(rest, max_width - current_width) == 0);
                    }
                    break ;
                },
            }
        }
        proof {
            if split_pos == n {
                assert(self.text@.skip(split_pos as int) =~= Seq::<char>::empty());
            }
        }
        if split_pos == 0 {
            let left = Segment::new(String::new(), self.style.clone());
            (left, self)
        } else if split_pos >= n {
            (self, Segment::new(String::new(), Style::default()))
        } else {
            let left_text = self.text.as_str().substring_char(0, split_pos).to_owned();
            let right_text = self.text.as_str().substring_char(split_pos, n).to_owned();
            proof {
                assert(self.text@.subrange(0, split_pos as int) =~= self.text@.take(
                    split_pos as int,
                ));
                assert(self.text@.subrange(split_pos as int, n as int) =~= self.text@.skip(
                    split_pos as int,
                ));
            }
            let left = Self { text: left_text, style: self.style.clone(), control: self.control };
            let right = Self { text: right_text, style: self.style, control: None };
            (left, right)
        }
    }

    /// Apply a style to this segment by combining it with the existing
    /// style; the new style's attributes win conflicts.
    pub fn apply_style(&mut self, style: Style)
        ensures
            final(self).style == spec_combine(old(self).style, style),
            final(self).text == old(self).text,
            final(self).control == old(self).control,
    {
        self.style = self.style.clone().combine(style);
    }

    /// Render this segment to a string with ANSI escape sequences.
    pub fn render(&self, color_system: ColorSystem) -> (r: String)
        ensures
            r@ == spec_render_segment(*self, color_system),
    {
        let mut output = String::new();
        if let Some(control) = self.control {
            let control_ansi = control.to_ansi();
            output.append(control_ansi.as_str());
        }
        if !self.text.as_str().is_empty() {
            let style_ansi = ansi::style_to_ansi(&self.style, color_system);
            if !style_ansi.as_str().is_empty() {
                output.append(style_ansi.as_str());
                output.append(self.text.as_str());
                output.append("\x1b[0m");
            } else {
                output.append(self.text.as_str());
            }
        }
        proof {
            assert(output@ =~= spec_render_segment(*self, color_system));
        }
        output
    }

    /// Get the plain text content without any styling or control codes.
    pub fn plain_text(&self) -> (r: &str)
        ensures
            r@ == self.text@,
    {
        self.text.as_str()
    }
}

/// The combined width of a list of segments.
pub open spec fn spec_total_cell_length(segments: Seq<Segment>) -> int
    decreases segments.len(),
{
    if segments.len() == 0 {
        0
    } else {
        spec_total_cell_length(segments.drop_last()) + spec_cell_length(segments.last())
    }
}

/// The rendered form of a list of segments, in order.
pub open spec fn spec_render_segments(segments: Seq<Segment>, system: ColorSystem) -> Seq<char>
    decreases segments.len(),
{
    if segments.len() == 0 {
        Seq::empty()
    } else {
        spec_render_segments(segments.drop_last(), system) + spec_render_segment(
            segments.last(),
            system,
        )
    }
}

/// The concatenated text of a list of segments, in order.
pub open spec fn spec_plain_text(segments: Seq<Segment>) -> Seq<char>
    decreases segments.len(),
{
    if segments.len() == 0 {
        Seq::empty()
    } else {
        spec_plain_text(segments.drop_last()) + segments.last().text@
    }
}

/// A collection of segments that can be joined and manipulated together.
#[derive(Debug, Clone, PartialEq, Eq)]
pub struct Segments(pub Vec<Segment>);

impl Segments {
    /// Create a new empty segments collection.
    pub fn new() -> (r: Self)
        ensures
            r.0@ == Seq::<Segment>::empty(),
    {
        let r = Self(Vec::new());
        proof {
            assert(r.0@ =~= Seq::<Segment>::empty());
        }
        r
    }

    /// Create segments from a vector of segments.
    pub fn from_vec(segments: Vec<Segment>) -> (r: Self)
        ensures
            r.0 == segments,
    {
        Self(segments)
    }

    /// Add a segment to the collection.
    pub fn push(&mut self, segment: Segment)
        ensures
            final(self).0@ == old(self).0@.push(segment),
    {
        self.0.push(segment);
    }

    /// Get the segments as a slice.
    pub fn as_slice(&self) -> (r: &[Segment])
        ensures
            r@ == self.0@,
    {
        self.0.as_slice()
    }

    /// Convert to a vector of segments.
    pub fn into_vec(self) -> (r: Vec<Segment>)
        ensures
            r == self.0,
    {
        self.0
    }

    /// Get the total display width of all segments.
    pub fn cell_length(&self) -> (r: usize)
        requires
            spec_total_cell_length(self.0@) <= usize::MAX,
        ensures
            r == spec_total_cell_length(self.0@),
    {
        let mut total: usize = 0;
        let mut i: usize = 0;
        proof {
            assert(self.0@.take(0) =~= Seq::<Segment>::empty());
        }
        while i < self.0.len()
            invariant
                i <= self.0@.len(),
                total == spec_total_cell_length(self.0@.take(i as int)),
                spec_total_cell_length(self.0@) <= usize::MAX,
            decreases self.0@.len() - i,
        {
            proof {
                lemma_total_prefix_bound(self.0@, i as int + 1);
                assert(self.0@.take(i as int + 1).drop_last() =~= self.0@.take(i as int));
                assert(self.0@.take(i as int + 1).last() == self.0@[i as int]);
            }
            let w = self.0[i].cell_length();
            total = total + w;
            i = i + 1;
        }
        proof {
            assert(self.0@.take(self.0@.len() as int) =~= self.0@);
        }
        total
    }

    /// The total display width, where it fits a machine word; `None`
    /// otherwise.
    pub fn cell_length_checked(&self) -> (r: Option<usize>)
        ensures
            spec_total_cell_length(self.0@) <= usize::MAX ==> r == Some(
                spec_total_cell_length(self.0@) as usize,
            ),
            spec_total_cell_length(self.0@) > usize::MAX ==> r is None,
    {
        let mut total: usize = 0;
        let mut i: usize = 0;
        proof {
            assert(self.0@.take(0) =~= Seq::<Segment>::empty());
        }
        while i < self.0.len()
            invariant
                i <= self.0@.len(),
                total == spec_total_cell_length(self.0@.take(i as int)),
            decreases self.0@.len() - i,
        {
            proof {
                assert(self.0@.take(i as int + 1).drop_last() =~= self.0@.take(i as int));
                assert(self.0@.take(i as int + 1).last() == self.0@[i as int]);
            }
            let w = self.0[i].cell_length();
            match total.checked_add(w) {
                Some(t) => {
                    total = t;
                },
                None => {
                    proof {
                        lemma_total_prefix_ge(self.0@, i as int + 1);
                    }
                    return None;
                },
            }
            i = i + 1;
        }
        proof {
            assert(self.0@.take(self.0@.len() as int) =~= self.0@);
        }
        let r = self.cell_length();
        Some(r)
    }

    /// Check if the segments collection is empty.
    pub fn is_empty(&self) -> (r: bool)
        ensures
            r == (self.0@.len() == 0),
    {
        self.0.len() == 0
    }

    /// Get the number of segments.
    pub fn len(&self) -> (r: usize)
        ensures
            r == self.0@.len(),
    {
        self.0.len()
    }

    /// Render all segments to a string with ANSI escape sequences.
    pub fn render(&self, color_system: ColorSystem) -> (r: String)
        ensures
            r@ == spec_render_segments(self.0@, color_system),
    {
        let mut out = String::new();
        let mut i: usize = 0;
        proof {
            assert(self.0@.take(0) =~= Seq::<Segment>::empty());
            assert(out@ =~= spec_render_segments(self.0@.take(0), color_system));
        }
        while i < self.0.len()
            invariant
                i <= self.0@.len(),
                out@ == spec_render_segments(self.0@.take(i as int), color_system),
            decreases self.0@.len() - i,
        {
            let rendered = self.0[i].render(color_system);
            out.append(rendered.as_str());
            i = i + 1;
            proof {
                assert(self.0@.take(i as int).drop_last() =~= self.0@.take(i as int - 1));
                assert(self.0@.take(i as int).last() == self.0@[i as int - 1]);
                assert(out@ =~= spec_render_segments(self.0@.take(i as int), color_system));
            }
        }
        proof {
            assert(self.0@.take(self.0@.len() as int) =~= self.0@);
        }
        out
    }

    /// Get the plain text content of all segments combined.
    pub fn plain_text(&self) -> (r: String)
        ensures
            r@ == spec_plain_text(self.0@),
    {
        let mut out = String::new();
        let mut i: usize = 0;
        proof {
            assert(self.0@.take(0) =~= Seq::<Segment>::empty());
            assert(out@ =~= spec_plain_text(self.0@.take(0)));
        }
        while i < self.0.len()
            invariant
                i <= self.0@.len(),
                out@ == spec_plain_text(self.0@.take(i as int)),
            decreases self.0@.len() - i,
        {
            out.append(self.0[i].text.as_str());
            i = i + 1;
            proof {
                assert(self.0@.take(i as int).drop_last() =~= self.0@.take(i as int - 1));
                assert(self.0@.take(i as int).last() == self.0@[i as int - 1]);
                assert(out@ =~= spec_plain_text(self.0@.take(i as int)));
            }
        }
        proof {
            assert(self.0@.take(self.0@.len() as int) =~= self.0@);
        }
        out
    }
}

impl Default for Segments {
    /// An empty collection.
    fn default() -> (r: Self)
        ensures
            r.0@ == Seq::<Segment>::empty(),
    {
        Self::new()
    }
}

/// Every prefix of the segments weighs no more than the whole: widths are
/// non-negative.
proof fn lemma_total_prefix_bound(segments: Seq<Segment>, k: int)
    requires
        0 <= k <= segments.len(),
    ensures
        spec_total_cell_length(segments.take(k)) <= spec_total_cell_length(segments),
    decreases segments.len() - k,
{
    if k == segments.len() {
        assert(segments.take(k) =~= segments);
    } else {
        lemma_total_prefix_bound(segments, k + 1);
        assert(segments.take(k + 1).drop_last() =~= segments.take(k));
        assert(segments.take(k + 1).last() == segments[k]);
    }
}

/// Where a prefix already weighs more than a machine word, so does the
/// whole.
proof fn lemma_total_prefix_ge(segments: Seq<Segment>, k: int)
    requires
        0 <= k <= segments.len(),
        spec_total_cell_length(segments.take(k)) > usize::MAX,
    ensures
        spec_total_cell_length(segments) > usize::MAX,
{
    lemma_total_prefix_bound(segments, k);
}

} // verus!
