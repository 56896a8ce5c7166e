//! A BBCode-like markup language for inline styling.
//!
//! Tags such as `[bold]text[/bold]` attach styles to runs of text; `[/]`
//! closes the most recently opened tag, `[[` escapes a literal bracket,
//! and an unterminated bracket degrades to literal text.  Parsing yields a
//! [`Text`] whose spans record every tag's reach.

use vstd::prelude::*;
use crate::chars::{
    chars_of, lemma_until_bounds, lemma_until_is, spec_trim, spec_until, trim_of,
};
use crate::error::LuxorError;
use crate::style::{spec_parse_style, Style, StyleParseError};
use crate::text::{spec_sort_spans, Text};

verus! {

/// A markup tag with optional parameters.
#[derive(Debug, PartialEq)]
pub struct Tag {
    /// The tag name (e.g., "bold", "red"); a leading `/` marks a closing
    /// tag.
    pub name: String,
    /// Optional parameters after a `=` inside the bracket.
    pub parameters: Option<String>,
}

impl Clone for Tag {
    fn clone(&self) -> (r: Self)
        ensures
            r == *self,
    {
        Self {
            name: self.name.clone(),
            parameters: match &self.parameters {
                Some(p) => Some(p.clone()),
                None => None,
            },
        }
    }
}

impl View for Tag {
    type V = (Seq<char>, Option<Seq<char>>);

    open spec fn view(&self) -> (Seq<char>, Option<Seq<char>>) {
        (
            self.name@,
            match self.parameters {
                Some(p) => Some(p@),
                None => None,
            },
        )
    }
}

/// A closing tag: the name starts with `/`.
pub open spec fn spec_is_closing(name: Seq<char>) -> bool {
    name.len() > 0 && name[0] == '/'
}

/// The bracketed markup notation of a tag.
pub open spec fn spec_tag_markup(tag: (Seq<char>, Option<Seq<char>>)) -> Seq<char> {
    match tag.1 {
        Some(params) => "["@ + tag.0 + "="@ + params + "]"@,
        None => "["@ + tag.0 + "]"@,
    }
}

impl Tag {
    /// Create a new tag with the given name.
    pub fn new(name: &str) -> (r: Self)
        ensures
            r@ == (name@, None::<Seq<char>>),
    {
        Self { name: name.to_owned(), parameters: None }
    }

    /// Create a new tag with name and parameters.
    pub fn with_parameters(name: &str, parameters: &str) -> (r: Self)
        ensures
            r@ == (name@, Some(parameters@)),
    {
        Self { name: name.to_owned(), parameters: Some(parameters.to_owned()) }
    }

    /// Get the markup representation of this tag.
    pub fn markup(&self) -> (r: String)
        ensures
            r@ == spec_tag_markup(self@),
    {
        let mut out = String::new();
        out.append("[");
        out.append(self.name.as_str());
        match &self.parameters {
            Some(params) => {
                out.append("=");
                out.append(params.as_str());
            },
            None => {},
        }
        out.append("]");
        proof {
            assert(out@ =~= spec_tag_markup(self@));
        }
        out
    }

    /// Check if this is a closing tag (starts with "/").
    pub fn is_closing(&self) -> (r: bool)
        ensures
            r == spec_is_closing(self.name@),
    {
        let n = self.name.as_str().unicode_len();
        n > 0 && self.name.as_str().get_char(0) == '/'
    }

    /// Get the style name for closing tags (removes the leading "/").
    pub fn closing_name(&self) -> (r: &str)
        ensures
            spec_is_closing(self.name@) ==> r@ == self.name@.skip(1),
            !spec_is_closing(self.name@) ==> r@ == self.name@,
    {
        if self.is_closing() {
            let n = self.name.as_str().unicode_len();
            let r = self.name.as_str().substring_char(1, n);
            proof {
                assert(self.name@.subrange(1, self.name@.len() as int) =~= self.name@.skip(1));
            }
            r
        } else {
            self.name.as_str()
        }
    }
}

/// A span of styled text within markup: a half-open character range and
/// the style applied over it.
#[derive(Debug, Clone, Copy, PartialEq, Structural)]
pub struct Span {
    /// Start position in the text.
    pub start: usize,
    /// End position in the text.
    pub end: usize,
    /// Style to apply to this span.
    pub style: Style,
}

impl Span {
    /// Create a new span.
    pub fn new(start: usize, end: usize, style: Style) -> (r: Self)
        ensures
            r == (Span { start, end, style }),
    {
        Self { start, end, style }
    }

    /// Check if this span is empty.
    pub fn is_empty(&self) -> (r: bool)
        ensures
            r == (self.end <= self.start),
    {
        self.end <= self.start
    }

    /// Get the length of this span; zero for a reversed one.
    pub fn len(&self) -> (r: usize)
        ensures
            r == if self.end >= self.start {
                self.end - self.start
            } else {
                0
            },
    {
        if self.end >= self.start {
            self.end - self.start
        } else {
            0
        }
    }

    /// Split this span at the given offset: the right half is `None` when
    /// the offset falls outside the span.
    pub fn split(&self, offset: usize) -> (r: (Self, Option<Self>))
        ensures
            offset <= self.start || offset >= self.end ==> r == (*self, None::<Span>),
            self.start < offset < self.end ==> r == (
                Span { start: self.start, end: offset, style: self.style },
                Some(Span { start: offset, end: self.end, style: self.style }),
            ),
    {
        if offset <= self.start {
            return (*self, None);
        }
        if offset >= self.end {
            return (*self, None);
        }
        let left = Span::new(self.start, offset, self.style);
        let right = Span::new(offset, self.end, self.style);
        (left, Some(right))
    }

    /// Move this span by the given offset; a negative move saturates at
    /// zero.
    pub fn move_by(&self, offset: isize) -> (r: Self)
        requires
            offset > isize::MIN,
            offset >= 0 ==> self.start + offset <= usize::MAX && self.end + offset <= usize::MAX,
        ensures
            offset >= 0 ==> r == (
            Span {
                start: (self.start + offset) as usize,
                end: (self.end + offset) as usize,
                style: self.style,
            }),
            offset < 0 ==> r == (
            Span {
                start: if self.start >= -offset {
                    (self.start + offset) as usize
                } else {
                    0
                },
                end: if self.end >= -offset {
                    (self.end + offset) as usize
                } else {
                    0
                },
                style: self.style,
            }),
    {
        let start = if offset < 0 {
            self.start.saturating_sub((-offset) as usize)
        } else {
            self.start + (offset as usize)
        };
        let end = if offset < 0 {
            self.end.saturating_sub((-offset) as usize)
        } else {
            self.end + (offset as usize)
        };
        Span::new(start, end, self.style)
    }
}

/// Token produced by the markup tokenizer.
#[derive(Debug, Clone, PartialEq)]
pub enum Token {
    /// Plain text content.
    Text(String),
    /// An opening or closing tag.
    Tag(Tag),
}

/// The mathematical form of a token.
pub enum SpecToken {
    Text(Seq<char>),
    Tag(Seq<char>, Option<Seq<char>>),
}

impl View for Token {
    type V = SpecToken;

    open spec fn view(&self) -> SpecToken {
        match self {
            Token::Text(s) => SpecToken::Text(s@),
            Token::Tag(t) => SpecToken::Tag(t@.0, t@.1),
        }
    }
}

/// The name and parameters denoted by a bracket's content: what stands
/// before an optional `=` is the name and what follows it the
/// parameters, both trimmed.
pub open spec fn spec_parse_tag(content: Seq<char>) -> (Seq<char>, Option<Seq<char>>) {
    let e = spec_until(content, '=');
    if e == content.len() {
        (spec_trim(content), None)
    } else {
        (spec_trim(content.take(e)), Some(spec_trim(content.skip(e + 1))))
    }
}

/// The token list of a markup string.  Text runs up to each `[` become
/// text tokens; `[[` is an escaped literal bracket; a bracket's content up
/// to the next `]` becomes a tag token, except that an empty pair `[]`
/// vanishes; everything from an unterminated `[` on, the text before it
/// included, stays literal text.
pub open spec fn spec_tokens(s: Seq<char>) -> Seq<SpecToken>
    decreases s.len(),
    via spec_tokens_dec
{
    let p = spec_until(s, '[');
    if p == s.len() {
        if s.len() > 0 {
            seq![SpecToken::Text(s)]
        } else {
            Seq::empty()
        }
    } else {
        let pre: Seq<SpecToken> = if p > 0 {
            seq![SpecToken::Text(s.take(p))]
        } else {
            Seq::empty()
        };
        let rest = s.skip(p);
        if rest.len() >= 2 && rest[1] == '[' {
            pre + seq![SpecToken::Text("["@)] + spec_tokens(rest.skip(2))
        } else {
            let q = spec_until(rest.skip(1), ']');
            if q == rest.len() - 1 {
                seq![SpecToken::Text(s)]
            } else {
                let content = rest.skip(1).take(q);
                let tag: Seq<SpecToken> = if content.len() > 0 {
                    seq![SpecToken::Tag(spec_parse_tag(content).0, spec_parse_tag(content).1)]
                } else {
                    Seq::empty()
                };
                pre + tag + spec_tokens(rest.skip(1).skip(q + 1))
            }
        }
    }
}

#[via_fn]
proof fn spec_tokens_dec(s: Seq<char>) {
    lemma_until_bounds(s, '[');
    let p = spec_until(s, '[');
    if p < s.len() {
        let rest = s.skip(p);
        lemma_until_bounds(rest.skip(1), ']');
    }
}

/// Parse a tag from its content (without brackets).
pub fn parse_tag(content: &str) -> (res: Result<Tag, LuxorError>)
    ensures
        (res matches Ok(tag) && tag@ == spec_parse_tag(content@)),
{
    let v = chars_of(content);
    let n = v.len();
    let mut e: usize = 0;
    while e < n && v[e] != '='
        invariant
            e <= n,
            n == v@.len(),
            v@ == content@,
            forall|j: int| 0 <= j < e ==> v@[j] != '=',
        decreases n - e,
    {
        e = e + 1;
    }
    proof {
        lemma_until_is(content@, '=', e as int);
    }
    if e == n {
        let name = trim_of(content);
        Ok(Tag { name, parameters: None })
    } else {
        let name_part = content.substring_char(0, e);
        let param_part = content.substring_char(e + 1, n);
        proof {
            assert(content@.subrange(0, e as int) =~= content@.take(e as int));
            assert(content@.subrange(e as int + 1, n as int) =~= content@.skip(e as int + 1));
        }
        let name = trim_of(name_part);
        let parameters = trim_of(param_part);
        Ok(Tag { name, parameters: Some(parameters) })
    }
}

/// Parse markup tokens from a string.
#[verifier::rlimit(100)]
pub fn parse_tokens(markup_str: &str) -> (res: Result<Vec<Token>, LuxorError>)
    ensures
        (res matches Ok(toks) && toks@.map_values(|t: Token| t@) == spec_tokens(markup_str@)),
{
    let v = chars_of(markup_str);
    let n = v.len();
    let mut tokens: Vec<Token> = Vec::new();
    let mut i: usize = 0;
    let ghost all = spec_tokens(markup_str@);
    proof {
        assert(v@.skip(0) =~= v@);
        assert(tokens@.map_values(|t: Token| t@) =~= Seq::<SpecToken>::empty());
        assert(all =~= tokens@.map_values(|t: Token| t@) + spec_tokens(v@.skip(0)));
    }
    while i < n
        invariant_except_break
            i <= n,
            n == v@.len(),
            v@ == markup_str@,
            all == spec_tokens(markup_str@),
            all == tokens@.map_values(|t: Token| t@) + spec_tokens(v@.skip(i as int)),
        ensures
            all == tokens@.map_values(|t: Token| t@) + spec_tokens(v@.skip(i as int)),
            i <= n && n == v@.len() && v@ == markup_str@,
            i == n || spec_tokens(v@.skip(i as int)) =~= Seq::<SpecToken>::empty(),
        decreases n - i,
    {
        let ghost rest = v@.skip(i as int);
        let mut j = i;
        while j < n && v[j] != '['
            invariant
                i <= j <= n,
                n == v@.len(),
                forall|m: int| i <= m < j ==> v@[m] != '[',
            decreases n - j,
        {
            j = j + 1;
        }
        let ghost p = j - i;
        proof {
            assert(forall|m: int| 0 <= m < p ==> rest[m] == v@[i + m] && rest[m] != '[');
            if j < n {
                assert(rest[p] == v@[j as int]);
            }
            lemma_until_is(rest, '[', p);
        }
        if j == n {
            if j > i {
                let piece = markup_str.substring_char(i, j).to_owned();
                proof {
                    assert(piece@ =~= rest);
                }
                tokens.push(Token::Text(piece));
                proof {
                    lemma_map_values_push(tokens@);
                }
            }
            proof {
                assert(v@.skip(n as int) =~= Seq::<char>::empty());
                assert(spec_tokens(v@.skip(n as int)) =~= Seq::<SpecToken>::empty());
                assert(all =~= tokens@.map_values(|t: Token| t@) + spec_tokens(v@.skip(n as int)));
            }
            i = n;
            break ;
        }
        // v[j] == '['
        let ghost tail = rest.skip(p);
        proof {
            assert(tail =~= v@.skip(j as int));
        }
        if j + 1 < n && v[j + 1] == '[' {
            if j > i {
                let piece = markup_str.substring_char(i, j).to_owned();
                proof {
                    assert(piece@ =~= rest.take(p));
                }
                tokens.push(Token::Text(piece));
                proof {
                    lemma_map_values_push(tokens@);
                }
            }
            tokens.push(Token::Text("[".to_owned()));
            proof {
                lemma_map_values_push(tokens@);
                assert(tail[1] == v@[j + 1]);
                assert(tail.skip(2) =~= v@.skip(j as int + 2));
            }
            i = j + 2;
        } else {
            let mut k = j + 1;
            while k < n && v[k] != ']'
                invariant
                    j + 1 <= k <= n,
                    n == v@.len(),
                    forall|m: int| j + 1 <= m < k ==> v@[m] != ']',
                decreases n - k,
            {
                k = k + 1;
            }
            let ghost q = k - (j + 1);
            let ghost inner = tail.skip(1);
            proof {
                assert(inner =~= v@.skip(j as int + 1));
                assert(forall|m: int| 0 <= m < q ==> inner[m] == v@[j + 1 + m] && inner[m] != ']');
                if k < n {
                    assert(inner[q] == v@[k as int]);
                }
                lemma_until_is(inner, ']', q);
                if j + 1 < n {
                    assert(tail[1] == v@[j + 1]);
                }
            }
            if k == n {
                // unterminated bracket: everything from the pending text on
                // stays literal
                let piece = markup_str.substring_char(i, n).to_owned();
                proof {
                    assert(piece@ =~= rest);
                    assert(q == tail.len() - 1);
                }
                tokens.push(Token::Text(piece));
                proof {
                    lemma_map_values_push(tokens@);
                    assert(v@.skip(n as int) =~= Seq::<char>::empty());
                    assert(spec_tokens(v@.skip(n as int)) =~= Seq::<SpecToken>::empty());
                    assert(all =~= tokens@.map_values(|t: Token| t@) + spec_tokens(
                        v@.skip(n as int),
                    ));
                }
                i = n;
                break ;
            }
            if j > i {
                let piece = markup_str.substring_char(i, j).to_owned();
                proof {
                    assert(piece@ =~= rest.take(p));
                }
                tokens.push(Token::Text(piece));
                proof {
                    lemma_map_values_push(tokens@);
                }
            }
            if k > j + 1 {
                let content = markup_str.substring_char(j + 1, k);
                proof {
                    assert(content@ =~= inner.take(q));
                    assert(inner.take(q) =~= tail.skip(1).take(q));
                }
                match parse_tag(content) {
                    Ok(tag) => {
                        tokens.push(Token::Tag(tag));
                        proof {
                            lemma_map_values_push(tokens@);
                        }
                    },
                    Err(e) => {
                        return Err(e);
                    },
                }
            }
            proof {
                assert(tail.skip(1).skip(q + 1) =~= v@.skip(k as int + 1));
            }
            i = k + 1;
        }
    }
    proof {
        if i == n {
            assert(v@.skip(n as int) =~= Seq::<char>::empty());
            assert(spec_tokens(v@.skip(i as int)) =~= Seq::<SpecToken>::empty());
        }
        assert(tokens@.map_values(|t: Token| t@) =~= all);
    }
    Ok(tokens)
}

/// The escaped form of one character: brackets get a backslash, all else
/// stays.
pub open spec fn spec_escape_char(c: char) -> Seq<char> {
    if c == '[' {
        seq!['\\', '[']
    } else if c == ']' {
        seq!['\\', ']']
    } else {
        seq![c]
    }
}

/// The markup-escaped form of a string: every bracket prefixed with a
/// backslash.
pub open spec fn spec_escape(s: Seq<char>) -> Seq<char>
    decreases s.len(),
{
    if s.len() == 0 {
        Seq::empty()
    } else {
        spec_escape_char(s[0]) + spec_escape(s.drop_first())
    }
}

/// Escape markup syntax in plain text.
pub fn escape(text: &str) -> (r: String)
    ensures
        r@ == spec_escape(text@),
{
    let v = chars_of(text);
    let n = v.len();
    let mut out = String::new();
    let mut i: usize = 0;
    proof {
        assert(v@.skip(0) =~= v@);
        assert(out@ + spec_escape(v@) =~= spec_escape(v@));
    }
    while i < n
        invariant
            i <= n,
            n == v@.len(),
            v@ == text@,
            out@ + spec_escape(v@.skip(i as int)) == spec_escape(v@),
        decreases n - i,
    {
        let ghost rest = v@.skip(i as int);
        let c = v[i];
        if c == '[' {
            out.push('\\');
            out.push('[');
        } else if c == ']' {
            out.push('\\');
            out.push(']');
        } else {
            out.push(c);
        }
        i = i + 1;
        proof {
            assert(rest.drop_first() =~= v@.skip(i as int));
            assert(out@ + spec_escape(v@.skip(i as int)) =~= spec_escape(v@));
        }
    }
    proof {
        assert(v@.skip(n as int) =~= Seq::<char>::empty());
        assert(out@ =~= out@ + spec_escape(v@.skip(n as int)));
    }
    out
}

/// An open tag on the resolution stack: the text position at its opening,
/// its name, and its style.
pub type StackEntry = (usize, Seq<char>, Style);

/// How markup rendering fails: a named closing tag without a matching
/// open tag, or a tag whose name parses to no style.
pub enum MarkupFail {
    UnmatchedClose(Seq<char>),
    BadStyle(StyleParseError),
}

/// The position, from the top of the stack, of the nearest open tag with
/// the given name; negative where none matches.
pub open spec fn spec_find_open(stack: Seq<StackEntry>, name: Seq<char>) -> int
    decreases stack.len(),
{
    if stack.len() == 0 {
        -1
    } else if stack.last().1 == name {
        stack.len() - 1
    } else {
        spec_find_open(stack.drop_last(), name)
    }
}

/// The spans of the stack entries from `from` to the top, in stack order,
/// all closing at position `end`.
pub open spec fn spec_close_range(stack: Seq<StackEntry>, end: int) -> Seq<Span> {
    stack.map_values(|e: StackEntry| Span { start: e.0, end: end as usize, style: e.2 })
}

/// The spans of all stack entries popped from the top down, closing at
/// position `end`.
pub open spec fn spec_close_all(stack: Seq<StackEntry>, end: int) -> Seq<Span>
    decreases stack.len(),
{
    if stack.len() == 0 {
        Seq::empty()
    } else {
        seq![Span { start: stack.last().0, end: end as usize, style: stack.last().2 }]
            + spec_close_all(stack.drop_last(), end)
    }
}

/// The tag-stack resolution of a token list, starting from the given
/// content, spans and stack.  Text extends the content; an opening tag
/// parses its name as a style and pushes; `[/]` closes the newest open
/// tag; a named closing tag closes the nearest matching tag and every tag
/// opened after it, and fails where none matches; tags left open at the
/// end close at the final position.
pub open spec fn spec_render_tokens(
    toks: Seq<SpecToken>,
    content: Seq<char>,
    spans: Seq<Span>,
    stack: Seq<StackEntry>,
) -> Result<(Seq<char>, Seq<Span>), MarkupFail>
    decreases toks.len(),
{
    if toks.len() == 0 {
        Ok((content, spans + spec_close_all(stack, content.len() as int)))
    } else {
        match toks[0] {
            SpecToken::Text(t) => spec_render_tokens(
                toks.drop_first(),
                content + t,
                spans,
                stack,
            ),
            SpecToken::Tag(name, params) => {
                if spec_is_closing(name) {
                    let cname = name.skip(1);
                    if cname.len() == 0 {
                        if stack.len() > 0 {
                            spec_render_tokens(
                                toks.drop_first(),
                                content,
                                spans.push(
                                    Span {
                                        start: stack.last().0,
                                        end: content.len() as usize,
                                        style: stack.last().2,
                                    },
                                ),
                                stack.drop_last(),
                            )
                        } else {
                            spec_render_tokens(toks.drop_first(), content, spans, stack)
                        }
                    } else {
                        let w = spec_find_open(stack, cname);
                        if w >= 0 {
                            spec_render_tokens(
                                toks.drop_first(),
                                content,
                                spans + spec_close_range(stack.skip(w), content.len() as int),
                                stack.take(w),
                            )
                        } else {
                            Err(MarkupFail::UnmatchedClose(name))
                        }
                    }
                } else {
                    match spec_parse_style(name) {
                        Ok(st) => spec_render_tokens(
                            toks.drop_first(),
                            content,
                            spans,
                            stack.push((content.len() as usize, name, st)),
                        ),
                        Err(e) => Err(MarkupFail::BadStyle(e)),
                    }
                }
            },
        }
    }
}

/// The content and spans denoted by a markup string.
pub open spec fn spec_render_markup(s: Seq<char>) -> Result<(Seq<char>, Seq<Span>), MarkupFail> {
    spec_render_tokens(spec_tokens(s), Seq::empty(), Seq::empty(), Seq::empty())
}

/// The spans of a text after feeding it the given spans one by one:
/// non-empty spans are recorded in turn, the list re-sorted by start
/// position at each step.
pub open spec fn spec_apply_spans(spans: Seq<Span>) -> Seq<Span>
    decreases spans.len(),
{
    if spans.len() == 0 {
        Seq::empty()
    } else {
        let prev = spec_apply_spans(spans.drop_last());
        if spans.last().start < spans.last().end {
            spec_sort_spans(prev.push(spans.last()))
        } else {
            prev
        }
    }
}

/// What `render` returns for a markup string and a base style: the text
/// assembled from the resolved content and spans, or the error the
/// resolution names.
pub open spec fn spec_render_result(
    s: Seq<char>,
    base: Style,
    res: Result<Text, LuxorError>,
) -> bool {
    match spec_render_markup(s) {
        Ok((content, spans)) => (res matches Ok(t) && t.content@ == content && t.base_style == base
            && t.spans@ == spec_apply_spans(spans) && t.wf()),
        Err(MarkupFail::UnmatchedClose(name)) => (res matches Err(e) && e matches
            LuxorError::MarkupError(m) && m@ == "Closing tag '"@ + name
            + "' has no matching opening tag"@),
        Err(MarkupFail::BadStyle(pe)) => res is Err && match pe {
            StyleParseError::UnknownToken(low) => (res->Err_0 matches LuxorError::Style { message }
                && message@ == "Unknown style token: "@ + low),
            StyleParseError::MissingBackground => (res->Err_0 matches LuxorError::Style { message }
                && message@ == "Expected color after 'on'"@),
            StyleParseError::BadColor(tok) => (res->Err_0 matches LuxorError::Color { message }
                && message@ == crate::style::spec_color_error_message(tok)),
        },
    }
}

/// Sequences map one more pushed element to one more mapped view.
proof fn lemma_map_values_push(toks: Seq<Token>)
    requires
        toks.len() > 0,
    ensures
        toks.map_values(|t: Token| t@) == toks.drop_last().map_values(|t: Token| t@).push(
            toks.last()@,
        ),
{
    assert(toks.map_values(|t: Token| t@) =~= toks.drop_last().map_values(|t: Token| t@).push(
        toks.last()@,
    ));
}

/// Parse markup and render it into a `Text` instance.
pub fn render(markup_str: &str, base_style: Option<Style>) -> (res: Result<Text, LuxorError>)
    ensures
        spec_render_result(
            markup_str@,
            match base_style {
                Some(b) => b,
                None => crate::style::spec_empty_style(),
            },
            res,
        ),
{
    let base = match base_style {
        Some(b) => b,
        None => Style::new(),
    };
    let tokens = match parse_tokens(markup_str) {
        Ok(toks) => toks,
        Err(e) => {
            proof {
                assert(false);
            }
            return Err(e);
        },
    };
    let ghost tok_views = tokens@.map_values(|t: Token| t@);
    let mut text_content = String::new();
    let mut spans: Vec<Span> = Vec::new();
    let mut style_stack: Vec<(usize, Tag, Style)> = Vec::new();
    let ghost goal = spec_render_markup(markup_str@);
    proof {
        assert(style_stack@.map_values(|e: (usize, Tag, Style)| stack_entry_view(e))
            =~= Seq::<StackEntry>::empty());
        assert(tok_views.skip(0) =~= tok_views);
    }
    let mut t: usize = 0;
    while t < tokens.len()
        invariant
            t <= tokens@.len(),
            tok_views == tokens@.map_values(|tk: Token| tk@),
            goal == spec_render_markup(markup_str@),
            goal == spec_render_tokens(
                tok_views.skip(t as int),
                text_content@,
                spans@,
                style_stack@.map_values(|e: (usize, Tag, Style)| stack_entry_view(e)),
            ),
            forall|i: int|
                0 <= i < style_stack@.len() ==> (#[trigger] style_stack@[i]).0
                    <= text_content@.len(),
            forall|i: int|
                0 <= i < spans@.len() ==> (#[trigger] spans@[i]).start <= spans@[i].end
                    <= text_content@.len(),
        decreases tokens@.len() - t,
    {
        let ghost rest = tok_views.skip(t as int);
        let ghost stack_view = style_stack@.map_values(
            |e: (usize, Tag, Style)| stack_entry_view(e),
        );
        proof {
            assert(rest[0] == tok_views[t as int]);
            assert(rest.drop_first() =~= tok_views.skip(t as int + 1));
        }
        let token = &tokens[t];
        match token {
            Token::Text(piece) => {
                text_content.append(piece.as_str());
            },
            Token::Tag(tag) => {
                if tag.is_closing() {
                    let style_name = tag.closing_name();
                    if style_name.is_empty() {
                        if style_stack.len() > 0 {
                            let entry = match style_stack.pop() {
                                Some(e) => e,
                                None => {
                                    proof {
                                        assert(false);
                                    }
                                    return Err(LuxorError::MarkupError(String::new()));
                                },
                            };
                            let pos = text_content.as_str().unicode_len();
                            spans.push(Span::new(entry.0, pos, entry.2));
                            proof {
                                assert(style_stack@.map_values(
                                    |e: (usize, Tag, Style)| stack_entry_view(e),
                                ) =~= stack_view.drop_last());
                            }
                        }
                    } else {
                        let mut w: usize = style_stack.len();
                        proof {
                            assert(stack_view.take(style_stack@.len() as int) =~= stack_view);
                        }
                        while w > 0
                            invariant
                                w <= style_stack@.len(),
                                stack_view == style_stack@.map_values(
                                    |e: (usize, Tag, Style)| stack_entry_view(e),
                                ),
                                style_name@ == tag.name@.skip(1),
                                spec_find_open(stack_view.take(w as int), style_name@)
                                    == spec_find_open(stack_view, style_name@),
                            ensures
                                w <= style_stack@.len(),
                                stack_view == style_stack@.map_values(
                                    |e: (usize, Tag, Style)| stack_entry_view(e),
                                ),
                                w > 0 ==> stack_view[w - 1].1 == style_name@ && spec_find_open(
                                    stack_view,
                                    style_name@,
                                ) == w - 1,
                                w == 0 ==> spec_find_open(stack_view, style_name@) == -1,
                            decreases w,
                        {
                            proof {
                                assert(stack_view.take(w as int).last() == stack_view[w - 1]);
                                assert(stack_view.take(w as int).drop_last() =~= stack_view.take(
                                    w as int - 1,
                                ));
                            }
                            let name_matches = crate::chars::str_eq(
                                style_stack[w - 1].1.name.as_str(),
                                style_name,
                            );
                            if name_matches {
                                proof {
                                    assert(stack_view[w - 1] == stack_entry_view(
                                        style_stack@[w - 1],
                                    ));
                                    assert(spec_find_open(stack_view.take(w as int), style_name@)
                                        == w - 1);
                                }
                                break ;
                            }
                            proof {
                                assert(stack_view[w - 1] == stack_entry_view(style_stack@[w - 1]));
                            }
                            w = w - 1;
                        }
                        if w > 0 {
                            let pos = text_content.as_str().unicode_len();
                            let index = w - 1;
                            let ghost pre_drain_spans = spans@;
                            let mut d: usize = index;
                            while d < style_stack.len()
                                invariant
                                    index <= d <= style_stack@.len(),
                                    stack_view == style_stack@.map_values(
                                        |e: (usize, Tag, Style)| stack_entry_view(e),
                                    ),
                                    pos == text_content@.len(),
                                    spans@ == pre_drain_spans + spec_close_range(
                                        stack_view.subrange(index as int, d as int),
                                        pos as int,
                                    ),
                                decreases style_stack@.len() - d,
                            {
                                let entry_pos = style_stack[d].0;
                                let entry_style = style_stack[d].2;
                                spans.push(Span::new(entry_pos, pos, entry_style));
                                d = d + 1;
                                proof {
                                    assert(spans@ =~= pre_drain_spans + spec_close_range(
                                        stack_view.subrange(index as int, d as int),
                                        pos as int,
                                    ));
                                }
                            }
                            proof {
                                assert(stack_view.subrange(
                                    index as int,
                                    stack_view.len() as int,
                                ) =~= stack_view.skip(index as int));
                            }
                            style_stack.truncate(index);
                            proof {
                                assert(style_stack@.map_values(
                                    |e: (usize, Tag, Style)| stack_entry_view(e),
                                ) =~= stack_view.take(index as int));
                            }
                        } else {
                            let mut message = String::new();
                            message.append("Closing tag '");
                            message.append(tag.name.as_str());
                            message.append("' has no matching opening tag");
                            proof {
                                assert(message@ =~= "Closing tag '"@ + tag.name@
                                    + "' has no matching opening tag"@);
                            }
                            return Err(LuxorError::MarkupError(message));
                        }
                    }
                } else {
                    let style = match Style::parse(tag.name.as_str()) {
                        Ok(st) => st,
                        Err(e) => {
                            return Err(e);
                        },
                    };
                    let pos = text_content.as_str().unicode_len();
                    style_stack.push((pos, tag.clone(), style));
                    proof {
                        assert(style_stack@.map_values(
                            |e: (usize, Tag, Style)| stack_entry_view(e),
                        ) =~= stack_view.push((pos, tag.name@, style)));
                    }
                }
            },
        }
        t = t + 1;
    }
    proof {
        assert(tok_views.skip(tokens@.len() as int) =~= Seq::<SpecToken>::empty());
    }
    // close any tags left open at the end of input
    let final_pos = text_content.as_str().unicode_len();
    let ghost closing_base = spans@;
    let ghost stack_at_end = style_stack@.map_values(|e: (usize, Tag, Style)| stack_entry_view(e));
    while style_stack.len() > 0
        invariant
            spans@ + spec_close_all(
                style_stack@.map_values(|e: (usize, Tag, Style)| stack_entry_view(e)),
                final_pos as int,
            ) == closing_base + spec_close_all(stack_at_end, final_pos as int),
            final_pos == text_content@.len(),
            forall|i: int|
                0 <= i < style_stack@.len() ==> (#[trigger] style_stack@[i]).0
                    <= text_content@.len(),
            forall|i: int|
                0 <= i < spans@.len() ==> (#[trigger] spans@[i]).start <= spans@[i].end
                    <= text_content@.len(),
        decreases style_stack@.len(),
    {
        let ghost stack_view = style_stack@.map_values(
            |e: (usize, Tag, Style)| stack_entry_view(e),
        );
        let ghost spans_at_top = spans@;
        let entry = match style_stack.pop() {
            Some(e) => e,
            None => {
                proof {
                    assert(false);
                }
                (0, Tag { name: String::new(), parameters: None }, Style::new())
            },
        };
        spans.push(Span::new(entry.0, final_pos, entry.2));
        proof {
            let x = Span { start: entry.0, end: final_pos, style: entry.2 };
            let closed_rest = spec_close_all(stack_view.drop_last(), final_pos as int);
            assert(style_stack@.map_values(|e: (usize, Tag, Style)| stack_entry_view(e))
                =~= stack_view.drop_last());
            assert(stack_view.len() > 0);
            assert(stack_view[stack_view.len() - 1] == stack_entry_view(entry));
            assert(stack_view.last() == stack_entry_view(entry));
            assert(stack_view.last().0 == entry.0 && stack_view.last().2 == entry.2);
            assert(spec_close_all(stack_view, final_pos as int) == seq![
                Span { start: stack_view.last().0, end: final_pos, style: stack_view.last().2 },
            ] + closed_rest);
            assert(Span { start: stack_view.last().0, end: final_pos, style: stack_view.last().2 }
                == x);
            assert(spec_close_all(stack_view, final_pos as int) =~= seq![x] + closed_rest);
            assert(spans@ =~= spans_at_top.push(x));
            assert(spans@ + closed_rest =~= spans_at_top + (seq![x] + closed_rest));
            assert(spans_at_top + (seq![x] + closed_rest) == spans_at_top + spec_close_all(
                stack_view,
                final_pos as int,
            ));
            assert(spans_at_top + spec_close_all(stack_view, final_pos as int) == closing_base
                + spec_close_all(stack_at_end, final_pos as int));
            assert(spans@ + closed_rest == closing_base + spec_close_all(
                stack_at_end,
                final_pos as int,
            ));
        }
    }
    proof {
        let empty_view = style_stack@.map_values(|e: (usize, Tag, Style)| stack_entry_view(e));
        assert(empty_view =~= Seq::<StackEntry>::empty());
        assert(spec_close_all(empty_view, final_pos as int) =~= Seq::<Span>::empty());
        assert(spans@ + spec_close_all(empty_view, final_pos as int) =~= spans@);
        assert(spans@ =~= closing_base + spec_close_all(stack_at_end, final_pos as int));
    }
    // build the text and apply the collected spans
    let mut text = Text::new(text_content.as_str()).with_style(base);
    let mut a: usize = 0;
    proof {
        assert(spans@.take(0) =~= Seq::<Span>::empty());
        assert(text.spans@ =~= spec_apply_spans(spans@.take(0)));
    }
    while a < spans.len()
        invariant
            a <= spans@.len(),
            text.content@ == text_content@,
            text.base_style == base,
            text.wf(),
            text.spans@ == spec_apply_spans(spans@.take(a as int)),
            forall|i: int|
                0 <= i < spans@.len() ==> (#[trigger] spans@[i]).start <= spans@[i].end
                    <= text_content@.len(),
        decreases spans@.len() - a,
    {
        let span = spans[a];
        proof {
            assert(spans@.take(a as int + 1).drop_last() =~= spans@.take(a as int));
            assert(spans@.take(a as int + 1).last() == spans@[a as int]);
        }
        if !span.is_empty() {
            match text.stylize_range(span.start..span.end, span.style) {
                Ok(()) => {},
                Err(e) => {
                    proof {
                        assert(false);
                    }
                    return Err(e);
                },
            }
        }
        a = a + 1;
    }
    proof {
        assert(spans@.take(spans@.len() as int) =~= spans@);
    }
    Ok(text)
}

/// The mathematical view of one stack entry: its position, the tag's
/// name, and its style.
pub open spec fn stack_entry_view(e: (usize, Tag, Style)) -> StackEntry {
    (e.0, e.1.name@, e.2)
}

} // verus!
