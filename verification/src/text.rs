//! Rich text: a plain string, a base style, and styled character ranges.

use vstd::prelude::*;
use core::ops::Range;
use crate::chars::{push_decimal, spec_decimal};
use crate::error::LuxorError;
use crate::markup::{self, Span};
use crate::segment::Segment;
use crate::sorting::{
    lemma_insert_by_at, lemma_sort_by_contains, lemma_sort_by_sorted, spec_insert_by,
    spec_sort_by, spec_sorted_by,
};
use crate::style::{spec_combine, spec_empty_style, Style};
use crate::width::{display_width, display_width_of};

verus! {

/// The span order: by start position, earlier-inserted spans first among
/// equal starts.
pub open spec fn span_le() -> spec_fn(Span, Span) -> bool {
    |a: Span, b: Span| a.start <= b.start
}

/// The spans sorted by start position, stably.
pub open spec fn spec_sort_spans(spans: Seq<Span>) -> Seq<Span> {
    spec_sort_by(spans, span_le())
}

/// A sweep event: a position, whether a span starts there (or ends), and
/// the span itself.
pub type SweepEvent = (usize, bool, Span);

/// The event order: by position, end events before start events at the
/// same position, earlier events first among full ties.
pub open spec fn event_le() -> spec_fn(SweepEvent, SweepEvent) -> bool {
    |a: SweepEvent, b: SweepEvent| a.0 < b.0 || (a.0 == b.0 && (!a.1 || b.1))
}

/// The start and end events of the spans, in span order.
pub open spec fn spec_events(spans: Seq<Span>) -> Seq<SweepEvent>
    decreases spans.len(),
{
    if spans.len() == 0 {
        Seq::empty()
    } else {
        spec_events(spans.drop_last()) + seq![
            (spans.last().start, true, spans.last()),
            (spans.last().end, false, spans.last()),
        ]
    }
}

/// The characters from position `from` up to `to`, both clamped to the
/// content's length; empty where the clamped range is reversed.
pub open spec fn spec_char_slice(content: Seq<char>, from: int, to: int) -> Seq<char> {
    let lo = if from <= content.len() {
        from
    } else {
        content.len() as int
    };
    let hi = if to <= content.len() {
        to
    } else {
        content.len() as int
    };
    if lo <= hi {
        content.subrange(lo, hi)
    } else {
        Seq::empty()
    }
}

/// The base style combined, in order, with the styles of the given spans.
pub open spec fn spec_fold_styles(base: Style, active: Seq<Span>) -> Style
    decreases active.len(),
{
    if active.len() == 0 {
        base
    } else {
        spec_combine(spec_fold_styles(base, active.drop_last()), active.last().style)
    }
}

/// One step of the sweep and everything after it: between the previous
/// boundary `cur` and each event's position, a piece of the content is
/// emitted under the styles of the currently active spans; start events
/// activate their span and end events retire every active span equal to
/// theirs; a final piece covers what remains after the last event.
pub open spec fn spec_sweep(
    content: Seq<char>,
    base: Style,
    events: Seq<SweepEvent>,
    cur: int,
    active: Seq<Span>,
) -> Seq<(Seq<char>, Style)>
    decreases events.len(),
{
    if events.len() == 0 {
        if cur < content.len() {
            seq![(spec_char_slice(content, cur, content.len() as int), spec_fold_styles(base, active))]
        } else {
            Seq::empty()
        }
    } else {
        let (pos, is_start, span) = events[0];
        let emitted = if pos > cur && spec_char_slice(content, cur, pos as int).len() > 0 {
            seq![(spec_char_slice(content, cur, pos as int), spec_fold_styles(base, active))]
        } else {
            Seq::<(Seq<char>, Style)>::empty()
        };
        let new_cur = if pos > cur {
            pos as int
        } else {
            cur
        };
        let new_active = if is_start {
            active.push(span)
        } else {
            spec_remove_span(active, span)
        };
        emitted + spec_sweep(content, base, events.drop_first(), new_cur, new_active)
    }
}

/// The active spans with every span equal to the retired one removed.
pub open spec fn spec_remove_span(active: Seq<Span>, span: Span) -> Seq<Span>
    decreases active.len(),
{
    if active.len() == 0 {
        Seq::empty()
    } else if active.last() == span {
        spec_remove_span(active.drop_last(), span)
    } else {
        spec_remove_span(active.drop_last(), span).push(active.last())
    }
}

/// The segment pieces of a text: one piece for empty or span-free
/// content, otherwise the sweep over the sorted events of its spans.
pub open spec fn spec_text_pieces(t: Text) -> Seq<(Seq<char>, Style)> {
    if t.content@.len() == 0 {
        seq![(Seq::<char>::empty(), t.base_style)]
    } else if t.spans@.len() == 0 {
        seq![(t.content@, t.base_style)]
    } else {
        spec_sweep(
            t.content@,
            t.base_style,
            spec_sort_by(spec_events(t.spans@), event_le()),
            0,
            Seq::empty(),
        )
    }
}

/// The style in effect at one position: the base style combined with the
/// style of every span covering the position, in span order.
pub open spec fn spec_style_at(base: Style, spans: Seq<Span>, position: int) -> Style
    decreases spans.len(),
{
    if spans.len() == 0 {
        base
    } else {
        let prefix = spec_style_at(base, spans.drop_last(), position);
        if spans.last().start <= position < spans.last().end {
            spec_combine(prefix, spans.last().style)
        } else {
            prefix
        }
    }
}

/// A rich text object that supports styled spans within the text.
///
/// The content is addressed in Unicode scalar values (character indices);
/// every span is expected to fall within the content, which the
/// range-styling operation enforces.
#[derive(Debug, Clone)]
pub struct Text {
    /// The plain text content.
    pub content: String,
    /// Base style applied to the entire text.
    pub base_style: Style,
    /// Style spans that apply to portions of the text.
    pub spans: Vec<Span>,
}

impl Text {
    /// Well-formed: every span lies within the content.
    pub open spec fn wf(&self) -> bool {
        forall|i: int|
            0 <= i < self.spans@.len() ==> (#[trigger] self.spans@[i]).start <= self.spans@[i].end
                <= self.content@.len()
    }

    /// Create new text with the given content.
    pub fn new(content: &str) -> (r: Self)
        ensures
            r.content@ == content@,
            r.base_style == spec_empty_style(),
            r.spans@ == Seq::<Span>::empty(),
            r.wf(),
    {
        let r = Self { content: content.to_owned(), base_style: Style::default(), spans: Vec::new() };
        proof {
            assert(r.spans@ =~= Seq::<Span>::empty());
        }
        r
    }

    /// Replace the base style, returning the text.
    pub fn with_style(self, style: Style) -> (r: Self)
        ensures
            r.content == self.content,
            r.base_style == style,
            r.spans == self.spans,
    {
        Self { base_style: style, ..self }
    }

    /// Set the base style for this text.
    pub fn set_style(&mut self, style: Style)
        ensures
            final(self).content == old(self).content,
            final(self).base_style == style,
            final(self).spans == old(self).spans,
    {
        self.base_style = style;
    }

    /// Get the plain text content without any styling.
    pub fn plain(&self) -> (r: &str)
        ensures
            r@ == self.content@,
    {
        self.content.as_str()
    }

    /// Get the base style applied to the entire text.
    pub fn base_style(&self) -> (r: &Style)
        ensures
            *r == self.base_style,
    {
        &self.base_style
    }

    /// Get all style spans in this text.
    pub fn spans(&self) -> (r: &[Span])
        ensures
            r@ == self.spans@,
    {
        self.spans.as_slice()
    }

    /// Get a mutable reference to the spans.
    pub fn spans_mut(&mut self) -> (r: &mut Vec<Span>)
        ensures
            *r == old(self).spans,
            final(self).spans == *final(r),
            final(self).content == old(self).content,
            final(self).base_style == old(self).base_style,
    {
        &mut self.spans
    }

    /// Get the length of the text in characters.
    pub fn len(&self) -> (r: usize)
        ensures
            r == self.content@.len(),
    {
        self.content.as_str().unicode_len()
    }

    /// Check if the text is empty.
    pub fn is_empty(&self) -> (r: bool)
        ensures
            r == (self.content@.len() == 0),
    {
        self.content.as_str().is_empty()
    }

    /// Get the display width of the text in terminal columns.
    pub fn width(&self) -> (r: usize)
        ensures
            r as nat == display_width_of(self.content@),
    {
        display_width(self.content.as_str())
    }

    /// Apply a style to a range of characters.
    ///
    /// The range is validated first: a reversed range or one past the end
    /// of the content is an `InvalidRange` error and leaves the text
    /// untouched.  On success the span is recorded and the spans are
    /// re-sorted by start position.
    pub fn stylize_range(&mut self, range: Range<usize>, style: Style) -> (res: Result<
        (),
        LuxorError,
    >)
        ensures
            range.start > range.end ==> (res matches Err(e) && e matches LuxorError::InvalidRange(
                m,
            ) && m@ == "Start index "@ + spec_decimal(range.start as int)
                + " is greater than end index "@ + spec_decimal(range.end as int)) && *final(self)
                == *old(self),
            range.start <= range.end && range.end > old(self).content@.len() ==> (res matches Err(
                e,
            ) && e matches LuxorError::InvalidRange(m) && m@ == "End index "@ + spec_decimal(
                range.end as int,
            ) + " is out of bounds for text of length "@ + spec_decimal(
                old(self).content@.len() as int,
            )) && *final(self) == *old(self),
            range.start <= range.end <= old(self).content@.len() ==> res is Ok && final(self).content == old(self).content && final(self).base_style == old(self).base_style
                && final(self).spans@ == spec_sort_spans(
                old(self).spans@.push(Span { start: range.start, end: range.end, style }),
            ),
            old(self).wf() && range.start <= range.end <= old(self).content@.len() ==> final(self).wf(),
    {
        let start = range.start;
        let end = range.end;
        if start > end {
            let mut message = String::new();
            message.append("Start index ");
            push_decimal(&mut message, start);
            message.append(" is greater than end index ");
            push_decimal(&mut message, end);
            proof {
                assert(message@ =~= "Start index "@ + spec_decimal(start as int)
                    + " is greater than end index "@ + spec_decimal(end as int));
            }
            return Err(LuxorError::InvalidRange(message));
        }
        let n = self.len();
        if end > n {
            let mut message = String::new();
            message.append("End index ");
            push_decimal(&mut message, end);
            message.append(" is out of bounds for text of length ");
            push_decimal(&mut message, n);
            proof {
                assert(message@ =~= "End index "@ + spec_decimal(end as int)
                    + " is out of bounds for text of length "@ + spec_decimal(n as int));
            }
            return Err(LuxorError::InvalidRange(message));
        }
        let span = Span::new(start, end, style);
        self.spans.push(span);
        sort_spans(&mut self.spans);
        proof {
            if old(self).wf() {
                let sorted = self.spans@;
                let pushed = old(self).spans@.push(span);
                assert forall|i: int| 0 <= i < sorted.len() implies (#[trigger] sorted[i]).start
                    <= sorted[i].end <= self.content@.len() by {
                    lemma_sort_by_contains(pushed, span_le(), sorted[i]);
                    assert(sorted.contains(sorted[i]));
                    let w = choose|w: int| 0 <= w < pushed.len() && pushed[w] == sorted[i];
                    if w < pushed.len() - 1 {
                        assert(pushed[w] == old(self).spans@[w]);
                    }
                }
            }
        }
        Ok(())
    }

    /// Apply a style to the entire text, as `stylize_range` over the full
    /// character range.
    pub fn stylize_all(&mut self, style: Style) -> (res: Result<(), LuxorError>)
        ensures
            res is Ok,
            final(self).content == old(self).content,
            final(self).base_style == old(self).base_style,
            final(self).spans@ == spec_sort_spans(
                old(self).spans@.push(
                    Span { start: 0, end: old(self).content@.len() as usize, style },
                ),
            ),
            old(self).wf() ==> final(self).wf(),
    {
        let len = self.len();
        self.stylize_range(0..len, style)
    }

    /// Append plain text to this text object; existing spans are
    /// untouched.
    pub fn append(&mut self, text: &str)
        ensures
            final(self).content@ == old(self).content@ + text@,
            final(self).base_style == old(self).base_style,
            final(self).spans == old(self).spans,
    {
        self.content.append(text);
    }

    /// Append another text, preserving its spans: the appended spans are
    /// shifted by this text's character length, and the spans re-sorted.
    pub fn append_text(&mut self, other: Text)
        requires
            forall|i: int|
                0 <= i < other.spans@.len() ==> (#[trigger] other.spans@[i]).start
                    + old(self).content@.len() <= usize::MAX && other.spans@[i].end + old(
                    self,
                ).content@.len() <= usize::MAX,
        ensures
            final(self).content@ == old(self).content@ + other.content@,
            final(self).base_style == old(self).base_style,
            final(self).spans@ == spec_sort_spans(
                old(self).spans@ + other.spans@.map_values(
                    |s: Span|
                        Span {
                            start: (s.start + old(self).content@.len()) as usize,
                            end: (s.end + old(self).content@.len()) as usize,
                            style: s.style,
                        },
                ),
            ),
    {
        let offset = self.len();
        self.content.append(other.content.as_str());
        let ghost shifted = other.spans@.map_values(
            |s: Span|
                Span {
                    start: (s.start + old(self).content@.len()) as usize,
                    end: (s.end + old(self).content@.len()) as usize,
                    style: s.style,
                },
        );
        let mut i: usize = 0;
        proof {
            assert(self.spans@ =~= old(self).spans@ + shifted.take(0));
        }
        while i < other.spans.len()
            invariant
                i <= other.spans@.len(),
                offset == old(self).content@.len(),
                shifted == other.spans@.map_values(
                    |s: Span|
                        Span {
                            start: (s.start + old(self).content@.len()) as usize,
                            end: (s.end + old(self).content@.len()) as usize,
                            style: s.style,
                        },
                ),
                forall|j: int|
                    0 <= j < other.spans@.len() ==> (#[trigger] other.spans@[j]).start + offset
                        <= usize::MAX && other.spans@[j].end + offset <= usize::MAX,
                self.spans@ == old(self).spans@ + shifted.take(i as int),
                self.content@ == old(self).content@ + other.content@,
                self.base_style == old(self).base_style,
            decreases other.spans@.len() - i,
        {
            let span = other.spans[i];
            let adjusted = Span::new(span.start + offset, span.end + offset, span.style);
            self.spans.push(adjusted);
            i = i + 1;
            proof {
                assert(self.spans@ =~= old(self).spans@ + shifted.take(i as int));
            }
        }
        proof {
            assert(shifted.take(shifted.len() as int) =~= shifted);
        }
        sort_spans(&mut self.spans);
    }

    /// Create text from markup string.
    pub fn from_markup(markup_str: &str) -> (res: Result<Self, LuxorError>)
        ensures
            markup::spec_render_result(markup_str@, spec_empty_style(), res),
    {
        markup::render(markup_str, None)
    }

    /// Create text from markup with a base style.
    pub fn from_markup_with_style(markup_str: &str, base_style: Style) -> (res: Result<
        Self,
        LuxorError,
    >)
        ensures
            markup::spec_render_result(markup_str@, base_style, res),
    {
        markup::render(markup_str, Some(base_style))
    }

    /// Get the style at a specific character position: the base style
    /// combined with every span covering the position.
    pub fn style_at(&self, position: usize) -> (r: Style)
        ensures
            r == spec_style_at(self.base_style, self.spans@, position as int),
    {
        let mut combined = self.base_style;
        let mut i: usize = 0;
        proof {
            assert(self.spans@.take(0) =~= Seq::<Span>::empty());
        }
        while i < self.spans.len()
            invariant
                i <= self.spans@.len(),
                combined == spec_style_at(self.base_style, self.spans@.take(i as int), position as int),
            decreases self.spans@.len() - i,
        {
            let span = self.spans[i];
            if position >= span.start && position < span.end {
                combined = combined.combine(span.style);
            }
            i = i + 1;
            proof {
                assert(self.spans@.take(i as int).drop_last() =~= self.spans@.take(i as int - 1));
                assert(self.spans@.take(i as int).last() == self.spans@[i as int - 1]);
            }
        }
        proof {
            assert(self.spans@.take(self.spans@.len() as int) =~= self.spans@);
        }
        combined
    }
}

impl Text {
    /// Split the text into segments for rendering: disjoint runs of text,
    /// each under the styles of the spans covering it.
    pub fn to_segments(&self) -> (segments: Vec<Segment>)
        ensures
            segments@.len() == spec_text_pieces(*self).len(),
            forall|i: int|
                0 <= i < segments@.len() ==> (#[trigger] segments@[i]).text@ == spec_text_pieces(
                    *self,
                )[i].0 && segments@[i].style == spec_text_pieces(*self)[i].1
                    && segments@[i].control is None,
    {
        let ghost pieces = spec_text_pieces(*self);
        if self.content.as_str().is_empty() {
            let segments = vec![Segment::new(String::new(), self.base_style)];
            proof {
                assert(segments@.len() == 1);
                assert(segments@[0].text@ =~= pieces[0].0);
            }
            return segments;
        }
        if self.spans.len() == 0 {
            let segments = vec![Segment::new(self.content.clone(), self.base_style)];
            return segments;
        }
        let n = self.content.as_str().unicode_len();
        let mut events: Vec<(usize, bool, Span)> = Vec::new();
        let mut i: usize = 0;
        proof {
            assert(self.spans@.take(0) =~= Seq::<Span>::empty());
            assert(events@ =~= spec_events(self.spans@.take(0)));
        }
        while i < self.spans.len()
            invariant
                i <= self.spans@.len(),
                events@ == spec_events(self.spans@.take(i as int)),
            decreases self.spans@.len() - i,
        {
            let span = self.spans[i];
            events.push((span.start, true, span));
            events.push((span.end, false, span));
            i = i + 1;
            proof {
                assert(self.spans@.take(i as int).drop_last() =~= self.spans@.take(i as int - 1));
                assert(self.spans@.take(i as int).last() == self.spans@[i as int - 1]);
                assert(events@ =~= spec_events(self.spans@.take(i as int)));
            }
        }
        proof {
            assert(self.spans@.take(self.spans@.len() as int) =~= self.spans@);
        }
        sort_events(&mut events);
        let mut segments: Vec<Segment> = Vec::new();
        let ghost mut done = Seq::<(Seq<char>, Style)>::empty();
        let mut cur: usize = 0;
        let mut active: Vec<Span> = Vec::new();
        let mut e: usize = 0;
        proof {
            assert(events@.skip(0) =~= events@);
            assert(active@ =~= Seq::<Span>::empty());
        }
        while e < events.len()
            invariant
                e <= events@.len(),
                pieces == spec_text_pieces(*self),
                n == self.content@.len(),
                self.content@.len() > 0,
                self.spans@.len() > 0,
                pieces == done + spec_sweep(
                    self.content@,
                    self.base_style,
                    events@.skip(e as int),
                    cur as int,
                    active@,
                ),
                segments@.len() == done.len(),
                forall|i: int|
                    0 <= i < done.len() ==> (#[trigger] segments@[i]).text@ == done[i].0
                        && segments@[i].style == done[i].1 && segments@[i].control is None,
            decreases events@.len() - e,
        {
            let ghost rest = events@.skip(e as int);
            proof {
                assert(rest[0] == events@[e as int]);
                assert(rest.drop_first() =~= events@.skip(e as int + 1));
            }
            let (pos, is_start, span) = events[e];
            if pos > cur {
                let slice = char_slice(self.content.as_str(), cur, pos);
                if !slice.as_str().is_empty() {
                    let style = fold_styles(self.base_style, &active);
                    segments.push(Segment::new(slice, style));
                    proof {
                        done = done.push(
                            (
                                spec_char_slice(self.content@, cur as int, pos as int),
                                spec_fold_styles(self.base_style, active@),
                            ),
                        );
                    }
                }
                cur = pos;
            }
            if is_start {
                active.push(span);
            } else {
                active = remove_span(&active, span);
            }
            e = e + 1;
            proof {
                assert(pieces =~= done + spec_sweep(
                    self.content@,
                    self.base_style,
                    events@.skip(e as int),
                    cur as int,
                    active@,
                ));
            }
        }
        proof {
            assert(events@.skip(events@.len() as int) =~= Seq::<(usize, bool, Span)>::empty());
        }
        if cur < n {
            let slice = char_slice(self.content.as_str(), cur, n);
            let style = fold_styles(self.base_style, &active);
            segments.push(Segment::new(slice, style));
            proof {
                done = done.push(
                    (
                        spec_char_slice(self.content@, cur as int, n as int),
                        spec_fold_styles(self.base_style, active@),
                    ),
                );
                assert(pieces =~= done);
            }
        } else {
            proof {
                assert(pieces =~= done);
            }
        }
        segments
    }
}

/// The characters of `s` between two clamped positions.
fn char_slice(s: &str, from: usize, to: usize) -> (r: String)
    ensures
        r@ == spec_char_slice(s@, from as int, to as int),
{
    let n = s.unicode_len();
    let lo = if from <= n { from } else { n };
    let hi = if to <= n { to } else { n };
    if lo <= hi {
        s.substring_char(lo, hi).to_owned()
    } else {
        String::new()
    }
}

/// The base style combined with every active span's style, in order.
fn fold_styles(base: Style, active: &Vec<Span>) -> (r: Style)
    ensures
        r == spec_fold_styles(base, active@),
{
    let mut r = base;
    let mut i: usize = 0;
    proof {
        assert(active@.take(0) =~= Seq::<Span>::empty());
    }
    while i < active.len()
        invariant
            i <= active@.len(),
            r == spec_fold_styles(base, active@.take(i as int)),
        decreases active@.len() - i,
    {
        r = r.combine(active[i].style);
        i = i + 1;
        proof {
            assert(active@.take(i as int).drop_last() =~= active@.take(i as int - 1));
            assert(active@.take(i as int).last() == active@[i as int - 1]);
        }
    }
    proof {
        assert(active@.take(active@.len() as int) =~= active@);
    }
    r
}

/// The active spans with every span equal to the retired one removed.
fn remove_span(active: &Vec<Span>, span: Span) -> (r: Vec<Span>)
    ensures
        r@ == spec_remove_span(active@, span),
{
    let mut r: Vec<Span> = Vec::new();
    let mut i: usize = 0;
    proof {
        assert(active@.take(0) =~= Seq::<Span>::empty());
        assert(r@ =~= spec_remove_span(active@.take(0), span));
    }
    while i < active.len()
        invariant
            i <= active@.len(),
            r@ == spec_remove_span(active@.take(i as int), span),
        decreases active@.len() - i,
    {
        let s = active[i];
        if !(s == span) {
            r.push(s);
        }
        i = i + 1;
        proof {
            assert(active@.take(i as int).drop_last() =~= active@.take(i as int - 1));
            assert(active@.take(i as int).last() == active@[i as int - 1]);
            assert(r@ =~= spec_remove_span(active@.take(i as int), span));
        }
    }
    proof {
        assert(active@.take(active@.len() as int) =~= active@);
    }
    r
}

/// Sort sweep events by position, end events before start events at the
/// same position, stably.
fn sort_events(events: &mut Vec<(usize, bool, Span)>)
    ensures
        final(events)@ == spec_sort_by(old(events)@, event_le()),
{
    let ghost orig = old(events)@;
    let mut i: usize = 1;
    if events.len() <= 1 {
        proof {
            if orig.len() == 0 {
                assert(spec_sort_by(orig, event_le()) =~= orig);
            } else {
                assert(orig.drop_last() =~= Seq::<SweepEvent>::empty());
                assert(spec_sort_by(orig.drop_last(), event_le())
                    =~= Seq::<SweepEvent>::empty());
                assert(spec_insert_by(Seq::<SweepEvent>::empty(), orig.last(), event_le())
                    =~= orig);
            }
        }
        return ;
    }
    proof {
        assert(orig.take(1).drop_last() =~= Seq::<SweepEvent>::empty());
        assert(spec_sort_by(Seq::<SweepEvent>::empty(), event_le())
            == Seq::<SweepEvent>::empty());
        assert(spec_sort_by(orig.take(1), event_le()) == spec_insert_by(
            Seq::<SweepEvent>::empty(),
            orig.take(1).last(),
            event_le(),
        ));
        assert(spec_insert_by(Seq::<SweepEvent>::empty(), orig.take(1).last(), event_le())
            =~= orig.take(1));
        assert(events@ =~= orig.take(1) + orig.skip(1));
    }
    while i < events.len()
        invariant
            1 <= i <= orig.len(),
            events@.len() == orig.len(),
            events@ == spec_sort_by(orig.take(i as int), event_le()) + orig.skip(i as int),
            spec_sorted_by(spec_sort_by(orig.take(i as int), event_le()), event_le()),
        decreases orig.len() - i,
    {
        let ghost sorted_prefix = spec_sort_by(orig.take(i as int), event_le());
        let x = events.remove(i);
        proof {
            assert(x == orig[i as int]);
            assert(events@ =~= sorted_prefix + orig.skip(i as int + 1));
        }
        let mut p: usize = i;
        while p > 0 && event_gt(&events[p - 1], &x)
            invariant
                0 <= p <= i,
                i < orig.len(),
                x == orig[i as int],
                events@ == sorted_prefix + orig.skip(i as int + 1),
                sorted_prefix.len() == i,
                forall|j: int| p <= j < i ==> !event_le()(#[trigger] sorted_prefix[j], x),
            decreases p,
        {
            p = p - 1;
        }
        events.insert(p, x);
        proof {
            lemma_insert_by_at(sorted_prefix, x, event_le(), p as int);
            assert(events@ =~= (sorted_prefix.take(p as int) + seq![x] + sorted_prefix.skip(
                p as int,
            )) + orig.skip(i as int + 1));
            assert(orig.take(i as int + 1).drop_last() =~= orig.take(i as int));
            assert(orig.take(i as int + 1).last() == orig[i as int]);
            assert(events@ =~= spec_sort_by(orig.take(i as int + 1), event_le()) + orig.skip(
                i as int + 1,
            ));
            lemma_insert_by_sorted_events(sorted_prefix, x);
        }
        i = i + 1;
    }
    proof {
        assert(orig.take(orig.len() as int) =~= orig);
        assert(events@ =~= spec_sort_by(orig, event_le()));
    }
}

/// The event order is strict here: `a` comes after `b`.
fn event_gt(a: &(usize, bool, Span), b: &(usize, bool, Span)) -> (r: bool)
    ensures
        r == !event_le()(*a, *b),
{
    a.0 > b.0 || (a.0 == b.0 && a.1 && !b.1)
}

/// Inserting keeps the event order sorted; the event order is total and
/// transitive.
proof fn lemma_insert_by_sorted_events(sorted: Seq<SweepEvent>, x: SweepEvent)
    requires
        spec_sorted_by(sorted, event_le()),
    ensures
        spec_sorted_by(spec_insert_by(sorted, x, event_le()), event_le()),
{
    assert(forall|a: SweepEvent, b: SweepEvent| #[trigger] event_le()(a, b) || #[trigger] event_le()(
        b,
        a,
    ));
    crate::sorting::lemma_insert_by_sorted(sorted, x, event_le());
}

/// The concatenation of the pieces' texts, in order.
pub open spec fn spec_concat_pieces(pieces: Seq<(Seq<char>, Style)>) -> Seq<char>
    decreases pieces.len(),
{
    if pieces.len() == 0 {
        Seq::empty()
    } else {
        pieces[0].0 + spec_concat_pieces(pieces.drop_first())
    }
}

/// The sweep covers the content from the current boundary on: its pieces
/// concatenate to exactly the remaining characters, for sorted events
/// that lie between the boundary and the end.
proof fn lemma_sweep_concat(
    content: Seq<char>,
    base: Style,
    events: Seq<SweepEvent>,
    cur: int,
    active: Seq<Span>,
)
    requires
        0 <= cur <= content.len(),
        forall|i: int| 0 <= i < events.len() ==> cur <= (#[trigger] events[i]).0 <= content.len(),
        spec_sorted_by(events, event_le()),
    ensures
        spec_concat_pieces(spec_sweep(content, base, events, cur, active)) == content.skip(cur),
    decreases events.len(),
{
    if events.len() == 0 {
        if cur < content.len() {
            let piece = (
                spec_char_slice(content, cur, content.len() as int),
                spec_fold_styles(base, active),
            );
            assert(spec_char_slice(content, cur, content.len() as int) =~= content.skip(cur));
            assert(seq![piece].drop_first() =~= Seq::<(Seq<char>, Style)>::empty());
            assert(piece.0 + spec_concat_pieces(Seq::<(Seq<char>, Style)>::empty())
                =~= content.skip(cur));
        } else {
            assert(content.skip(cur) =~= Seq::<char>::empty());
        }
    } else {
        let (pos, is_start, span) = events[0];
        assert(cur <= pos <= content.len());
        let new_cur = if pos > cur {
            pos as int
        } else {
            cur
        };
        assert(new_cur == pos as int);
        let new_active = if is_start {
            active.push(span)
        } else {
            spec_remove_span(active, span)
        };
        assert forall|i: int|
            0 <= i < events.drop_first().len() implies new_cur <= (
        #[trigger] events.drop_first()[i]).0 <= content.len() by {
            assert(events.drop_first()[i] == events[i + 1]);
            assert(event_le()(events[0], events[i + 1]));
        }
        assert forall|i: int, j: int|
            0 <= i < j < events.drop_first().len() implies event_le()(
            #[trigger] events.drop_first()[i],
            #[trigger] events.drop_first()[j],
        ) by {
            assert(events.drop_first()[i] == events[i + 1]);
            assert(events.drop_first()[j] == events[j + 1]);
            assert(event_le()(events[i + 1], events[j + 1]));
        }
        lemma_sweep_concat(content, base, events.drop_first(), new_cur, new_active);
        let rec = spec_sweep(content, base, events.drop_first(), new_cur, new_active);
        if pos > cur && spec_char_slice(content, cur, pos as int).len() > 0 {
            let piece = (
                spec_char_slice(content, cur, pos as int),
                spec_fold_styles(base, active),
            );
            assert((seq![piece] + rec).drop_first() =~= rec);
            assert((seq![piece] + rec)[0] == piece);
            assert(spec_concat_pieces(seq![piece] + rec) == piece.0 + spec_concat_pieces(rec));
            assert(spec_char_slice(content, cur, pos as int) =~= content.subrange(
                cur,
                pos as int,
            ));
            assert(content.subrange(cur, pos as int) + content.skip(pos as int) =~= content.skip(
                cur,
            ));
        } else {
            assert(Seq::<(Seq<char>, Style)>::empty() + rec =~= rec);
            if pos > cur {
                assert(spec_char_slice(content, cur, pos as int) =~= content.subrange(
                    cur,
                    pos as int,
                ));
                assert(false);
            }
            assert(content.skip(new_cur) =~= content.skip(cur));
        }
    }
}

/// Every event position of the spans stays within the content length.
proof fn lemma_events_in_bounds(spans: Seq<Span>, len: int)
    requires
        forall|i: int| 0 <= i < spans.len() ==> (#[trigger] spans[i]).start <= spans[i].end <= len,
    ensures
        forall|i: int|
            0 <= i < spec_events(spans).len() ==> (#[trigger] spec_events(spans)[i]).0 <= len,
    decreases spans.len(),
{
    if spans.len() > 0 {
        assert forall|i: int|
            0 <= i < spans.drop_last().len() implies (#[trigger] spans.drop_last()[i]).start
            <= spans.drop_last()[i].end <= len by {
            assert(spans.drop_last()[i] == spans[i]);
        }
        lemma_events_in_bounds(spans.drop_last(), len);
        let ev = spec_events(spans);
        let pre = spec_events(spans.drop_last());
        assert(spans[spans.len() - 1].start <= spans[spans.len() - 1].end <= len);
        assert forall|i: int| 0 <= i < ev.len() implies (#[trigger] ev[i]).0 <= len by {
            if i < pre.len() {
                assert(ev[i] == pre[i]);
            } else {
                assert(ev[i] == seq![
                    (spans.last().start, true, spans.last()),
                    (spans.last().end, false, spans.last()),
                ][i - pre.len()]);
            }
        }
    }
}

/// The pieces of a well-formed text concatenate to exactly its content.
pub proof fn lemma_pieces_concat(t: Text)
    requires
        t.wf(),
    ensures
        spec_concat_pieces(spec_text_pieces(t)) == t.content@,
{
    let len = t.content@.len() as int;
    if t.content@.len() == 0 {
        let piece = (Seq::<char>::empty(), t.base_style);
        assert(seq![piece].drop_first() =~= Seq::<(Seq<char>, Style)>::empty());
        assert(spec_concat_pieces(Seq::<(Seq<char>, Style)>::empty()) == Seq::<char>::empty());
        assert(spec_concat_pieces(seq![piece]) == piece.0 + Seq::<char>::empty());
        assert(piece.0 + Seq::<char>::empty() =~= t.content@);
    } else if t.spans@.len() == 0 {
        let piece = (t.content@, t.base_style);
        assert(seq![piece].drop_first() =~= Seq::<(Seq<char>, Style)>::empty());
        assert(spec_concat_pieces(Seq::<(Seq<char>, Style)>::empty()) == Seq::<char>::empty());
        assert(spec_concat_pieces(seq![piece]) == piece.0 + Seq::<char>::empty());
        assert(piece.0 + Seq::<char>::empty() =~= t.content@);
    } else {
        let evs = spec_events(t.spans@);
        let sorted = spec_sort_by(evs, event_le());
        lemma_events_in_bounds(t.spans@, len);
        assert(forall|a: SweepEvent, b: SweepEvent| #[trigger] event_le()(a, b)
            || #[trigger] event_le()(b, a));
        assert(forall|a: SweepEvent, b: SweepEvent, c: SweepEvent|
            #[trigger] event_le()(a, b) && #[trigger] event_le()(b, c) ==> event_le()(a, c));
        lemma_sort_by_sorted(evs, event_le());
        assert forall|i: int| 0 <= i < sorted.len() implies 0 <= (#[trigger] sorted[i]).0
            <= len by {
            lemma_sort_by_contains(evs, event_le(), sorted[i]);
            assert(sorted.contains(sorted[i]));
            let w = choose|w: int| 0 <= w < evs.len() && evs[w] == sorted[i];
            assert(evs[w].0 <= len);
        }
        lemma_sweep_concat(t.content@, t.base_style, sorted, 0, Seq::empty());
        assert(t.content@.skip(0) =~= t.content@);
    }
}

/// A piece list and a segment list with the same texts concatenate to the
/// same characters.
proof fn lemma_plain_matches(segments: Seq<Segment>, pieces: Seq<(Seq<char>, Style)>)
    requires
        segments.len() == pieces.len(),
        forall|i: int|
            0 <= i < segments.len() ==> (#[trigger] segments[i]).text@ == pieces[i].0,
    ensures
        crate::segment::spec_plain_text(segments) == spec_concat_pieces(pieces),
    decreases segments.len(),
{
    if segments.len() == 0 {
        assert(crate::segment::spec_plain_text(segments) =~= spec_concat_pieces(pieces));
    } else {
        assert forall|i: int|
            0 <= i < segments.drop_last().len() implies (
        #[trigger] segments.drop_last()[i]).text@ == pieces.drop_last()[i].0 by {
            assert(segments.drop_last()[i] == segments[i]);
            assert(pieces.drop_last()[i] == pieces[i]);
        }
        lemma_plain_matches(segments.drop_last(), pieces.drop_last());
        lemma_concat_pieces_snoc(pieces);
        assert(segments[segments.len() - 1].text@ == pieces[pieces.len() - 1].0);
    }
}

/// Concatenation of pieces, taken from the back.
proof fn lemma_concat_pieces_snoc(pieces: Seq<(Seq<char>, Style)>)
    requires
        pieces.len() > 0,
    ensures
        spec_concat_pieces(pieces) == spec_concat_pieces(pieces.drop_last()) + pieces.last().0,
    decreases pieces.len(),
{
    if pieces.len() == 1 {
        assert(pieces.drop_first() =~= Seq::<(Seq<char>, Style)>::empty());
        assert(pieces.drop_last() =~= Seq::<(Seq<char>, Style)>::empty());
        assert(spec_concat_pieces(pieces) =~= spec_concat_pieces(pieces.drop_last())
            + pieces.last().0);
    } else {
        lemma_concat_pieces_snoc(pieces.drop_first());
        assert(pieces.drop_first().drop_last() =~= pieces.drop_last().drop_first());
        assert(pieces.drop_first().last() == pieces.last());
        assert(pieces.drop_last()[0] == pieces[0]);
        assert(spec_concat_pieces(pieces.drop_last()) == pieces[0].0 + spec_concat_pieces(
            pieces.drop_last().drop_first(),
        ));
        assert(pieces[0].0 + (spec_concat_pieces(pieces.drop_last().drop_first())
            + pieces.last().0) =~= (pieces[0].0 + spec_concat_pieces(
            pieces.drop_last().drop_first(),
        )) + pieces.last().0);
    }
}

/// Round-trip flattening: the texts of the segments that `to_segments`
/// produces concatenate to exactly the text's plain content.
pub proof fn lemma_segments_reproduce_content(t: Text, segments: Seq<Segment>)
    requires
        t.wf(),
        segments.len() == spec_text_pieces(t).len(),
        forall|i: int|
            0 <= i < segments.len() ==> (#[trigger] segments[i]).text@ == spec_text_pieces(t)[i].0,
    ensures
        crate::segment::spec_plain_text(segments) == t.content@,
{
    lemma_pieces_concat(t);
    lemma_plain_matches(segments, spec_text_pieces(t));
}

impl From<&str> for Text {
    /// Text with the given content and no styling.
    fn from(content: &str) -> (r: Self)
        ensures
            r.content@ == content@,
            r.base_style == spec_empty_style(),
            r.spans@ == Seq::<Span>::empty(),
    {
        Text::new(content)
    }
}

impl vstd::std_specs::convert::FromSpecImpl<&str> for Text {
    open spec fn obeys_from_spec() -> bool {
        false
    }

    open spec fn from_spec(content: &str) -> Self {
        arbitrary()
    }
}

impl From<String> for Text {
    /// Text with the given content and no styling.
    fn from(content: String) -> (r: Self)
        ensures
            r.content@ == content@,
            r.base_style == spec_empty_style(),
            r.spans@ == Seq::<Span>::empty(),
    {
        Text::new(content.as_str())
    }
}

impl vstd::std_specs::convert::FromSpecImpl<String> for Text {
    open spec fn obeys_from_spec() -> bool {
        false
    }

    open spec fn from_spec(content: String) -> Self {
        arbitrary()
    }
}

/// Sort spans by start position, stably: the relative order of spans with
/// equal starts is kept.
pub(crate) fn sort_spans(spans: &mut Vec<Span>)
    ensures
        final(spans)@ == spec_sort_spans(old(spans)@),
{
    let ghost orig = old(spans)@;
    let mut i: usize = 1;
    if spans.len() <= 1 {
        proof {
            if orig.len() == 0 {
                assert(spec_sort_spans(orig) =~= orig);
            } else {
                assert(orig.drop_last() =~= Seq::<Span>::empty());
                assert(spec_sort_by(orig.drop_last(), span_le()) =~= Seq::<Span>::empty());
                assert(spec_insert_by(Seq::<Span>::empty(), orig.last(), span_le()) =~= orig);
            }
        }
        return ;
    }
    proof {
        assert(orig.take(1).drop_last() =~= Seq::<Span>::empty());
        assert(spec_sort_by(Seq::<Span>::empty(), span_le()) == Seq::<Span>::empty());
        assert(spec_sort_by(orig.take(1), span_le()) == spec_insert_by(
            Seq::<Span>::empty(),
            orig.take(1).last(),
            span_le(),
        ));
        assert(spec_insert_by(Seq::<Span>::empty(), orig.take(1).last(), span_le()) =~= orig.take(
            1,
        ));
        assert(spans@ =~= orig.take(1) + orig.skip(1));
    }
    while i < spans.len()
        invariant
            1 <= i <= orig.len(),
            spans@.len() == orig.len(),
            spans@ == spec_sort_by(orig.take(i as int), span_le()) + orig.skip(i as int),
            spec_sorted_by(spec_sort_by(orig.take(i as int), span_le()), span_le()),
        decreases orig.len() - i,
    {
        let ghost sorted_prefix = spec_sort_by(orig.take(i as int), span_le());
        let x = spans.remove(i);
        proof {
            assert(x == orig[i as int]);
            assert(spans@ =~= sorted_prefix + orig.skip(i as int + 1));
        }
        let mut p: usize = i;
        while p > 0 && spans[p - 1].start > x.start
            invariant
                0 <= p <= i,
                i < orig.len(),
                x == orig[i as int],
                spans@ == sorted_prefix + orig.skip(i as int + 1),
                sorted_prefix.len() == i,
                forall|j: int| p <= j < i ==> (#[trigger] sorted_prefix[j]).start > x.start,
            decreases p,
        {
            p = p - 1;
        }
        spans.insert(p, x);
        proof {
            lemma_insert_by_at(sorted_prefix, x, span_le(), p as int);
            assert(spans@ =~= (sorted_prefix.take(p as int) + seq![x] + sorted_prefix.skip(
                p as int,
            )) + orig.skip(i as int + 1));
            assert(orig.take(i as int + 1).drop_last() =~= orig.take(i as int));
            assert(orig.take(i as int + 1).last() == orig[i as int]);
            assert(spans@ =~= spec_sort_by(orig.take(i as int + 1), span_le()) + orig.skip(
                i as int + 1,
            ));
            lemma_insert_by_sorted_spans(sorted_prefix, x);
        }
        i = i + 1;
    }
    proof {
        assert(orig.take(orig.len() as int) =~= orig);
        assert(spans@ =~= spec_sort_by(orig, span_le()));
    }
}

/// Inserting keeps the span order sorted; the span order is total and
/// transitive.
proof fn lemma_insert_by_sorted_spans(sorted: Seq<Span>, x: Span)
    requires
        spec_sorted_by(sorted, span_le()),
    ensures
        spec_sorted_by(spec_insert_by(sorted, x, span_le()), span_le()),
{
    assert(forall|a: Span, b: Span| #[trigger] span_le()(a, b) || #[trigger] span_le()(b, a));
    lemma_sort_by_sorted(Seq::<Span>::empty(), span_le());
    crate::sorting::lemma_insert_by_sorted(sorted, x, span_le());
}

} // verus!
