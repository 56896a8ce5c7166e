//! Layout utilities: padding, alignment, rectangular regions and text
//! justification.

use vstd::prelude::*;
use vstd::arithmetic::div_mod::lemma_fundamental_div_mod;
use vstd::utf8::encode_utf8;
use crate::chars::{
    chars_of, push_decimal, push_repeated, spec_decimal, spec_repeat_char, spec_split_ws,
    split_ws, string_of,
};
use crate::error::LuxorError;
use crate::measure::Measurement;

verus! {

/// Represents padding (spacing) around content.
#[derive(Debug, Clone, Copy, PartialEq, Eq, Structural)]
pub struct Padding {
    /// Top padding.
    pub top: usize,
    /// Right padding.
    pub right: usize,
    /// Bottom padding.
    pub bottom: usize,
    /// Left padding.
    pub left: usize,
}

impl Padding {
    /// Create padding with the same value on all sides.
    pub fn uniform(padding: usize) -> (r: Self)
        ensures
            r == (Padding { top: padding, right: padding, bottom: padding, left: padding }),
    {
        Self { top: padding, right: padding, bottom: padding, left: padding }
    }

    /// Create padding with different horizontal and vertical values.
    pub fn symmetric(vertical: usize, horizontal: usize) -> (r: Self)
        ensures
            r == (Padding { top: vertical, right: horizontal, bottom: vertical, left: horizontal }),
    {
        Self { top: vertical, right: horizontal, bottom: vertical, left: horizontal }
    }

    /// Create padding with individual values for each side.
    pub fn new(top: usize, right: usize, bottom: usize, left: usize) -> (r: Self)
        ensures
            r == (Padding { top, right, bottom, left }),
    {
        Self { top, right, bottom, left }
    }

    /// Create zero padding.
    pub fn zero() -> (r: Self)
        ensures
            r == (Padding { top: 0usize, right: 0usize, bottom: 0usize, left: 0usize }),
    {
        Self::uniform(0)
    }

    /// Get the total horizontal padding (left + right).
    pub fn horizontal(&self) -> (r: usize)
        requires
            self.left + self.right <= usize::MAX,
        ensures
            r == self.left + self.right,
    {
        self.left + self.right
    }

    /// Get the total vertical padding (top + bottom).
    pub fn vertical(&self) -> (r: usize)
        requires
            self.top + self.bottom <= usize::MAX,
        ensures
            r == self.top + self.bottom,
    {
        self.top + self.bottom
    }

    /// Get the total padding as (horizontal, vertical).
    pub fn total(&self) -> (r: (usize, usize))
        requires
            self.left + self.right <= usize::MAX,
            self.top + self.bottom <= usize::MAX,
        ensures
            r.0 == self.left + self.right,
            r.1 == self.top + self.bottom,
    {
        (self.horizontal(), self.vertical())
    }

    /// Apply padding to a region, reducing its usable area.
    pub fn apply_to_region(&self, region: Region) -> (r: Region)
        requires
            region.x + self.left <= usize::MAX,
            region.y + self.top <= usize::MAX,
            self.left + self.right <= usize::MAX,
            self.top + self.bottom <= usize::MAX,
        ensures
            r == spec_apply_padding(*self, region),
    {
        let new_x = region.x + self.left;
        let new_y = region.y + self.top;
        let new_width = region.width.saturating_sub(self.horizontal());
        let new_height = region.height.saturating_sub(self.vertical());
        Region::new(new_x, new_y, new_width, new_height)
    }

    /// Calculate the outer region needed to fit content with this
    /// padding.
    pub fn expand_region(&self, content_region: Region) -> (r: Region)
        requires
            self.left + self.right <= usize::MAX,
            self.top + self.bottom <= usize::MAX,
            content_region.width + self.left + self.right <= usize::MAX,
            content_region.height + self.top + self.bottom <= usize::MAX,
        ensures
            r.x == if content_region.x >= self.left {
                content_region.x - self.left
            } else {
                0
            },
            r.y == if content_region.y >= self.top {
                content_region.y - self.top
            } else {
                0
            },
            r.width == content_region.width + self.left + self.right,
            r.height == content_region.height + self.top + self.bottom,
    {
        let new_x = content_region.x.saturating_sub(self.left);
        let new_y = content_region.y.saturating_sub(self.top);
        let new_width = content_region.width + self.horizontal();
        let new_height = content_region.height + self.vertical();
        Region::new(new_x, new_y, new_width, new_height)
    }
}

/// The region left inside another once the padding is taken off: the
/// origin moves in, the size shrinks, saturating at zero.
pub open spec fn spec_apply_padding(padding: Padding, region: Region) -> Region {
    Region {
        x: (region.x + padding.left) as usize,
        y: (region.y + padding.top) as usize,
        width: if region.width >= padding.left + padding.right {
            (region.width - (padding.left + padding.right)) as usize
        } else {
            0usize
        },
        height: if region.height >= padding.top + padding.bottom {
            (region.height - (padding.top + padding.bottom)) as usize
        } else {
            0usize
        },
    }
}

impl Default for Padding {
    /// Zero padding.
    fn default() -> (r: Self)
        ensures
            r == (Padding { top: 0usize, right: 0usize, bottom: 0usize, left: 0usize }),
    {
        Self::zero()
    }
}

/// Horizontal alignment options.
#[derive(Debug, Clone, Copy, PartialEq, Eq, Structural)]
pub enum Align {
    /// Align to the left.
    Left,
    /// Center alignment.
    Center,
    /// Align to the right.
    Right,
    /// Justify text (stretch to fill width).
    Justify,
}

impl Default for Align {
    /// Left alignment.
    fn default() -> (r: Self)
        ensures
            r == Align::Left,
    {
        Self::Left
    }
}

/// The offset from the left edge where aligned content starts; zero when
/// the content does not fit.
pub open spec fn spec_align_offset(align: Align, content_width: int, available_width: int) -> int {
    if content_width >= available_width {
        0
    } else {
        match align {
            Align::Left => 0,
            Align::Center => (available_width - content_width) / 2,
            Align::Right => available_width - content_width,
            Align::Justify => 0,
        }
    }
}

/// The text aligned into the given width: truncated to the width when too
/// long, otherwise padded with spaces as the alignment asks; justified
/// text distributes the padding over the gaps between its words.
pub open spec fn spec_apply_align(align: Align, s: Seq<char>, width: int) -> Seq<char> {
    if s.len() >= width {
        s.take(width)
    } else {
        let pad = width - s.len();
        match align {
            Align::Left => s + spec_repeat_char(' ', pad),
            Align::Right => spec_repeat_char(' ', pad) + s,
            Align::Center => spec_repeat_char(' ', pad / 2) + s + spec_repeat_char(
                ' ',
                pad - pad / 2,
            ),
            Align::Justify => if !s.contains(' ') {
                s + spec_repeat_char(' ', pad)
            } else {
                spec_justify(s, width)
            },
        }
    }
}

/// The length of a character sequence in UTF-8 bytes.
pub open spec fn spec_byte_len(s: Seq<char>) -> usize {
    encode_utf8(s).len() as usize
}

/// The total length, in bytes, of the words.
pub open spec fn spec_words_bytes(words: Seq<Seq<char>>) -> int
    decreases words.len(),
{
    if words.len() == 0 {
        0
    } else {
        spec_byte_len(words[0]) + spec_words_bytes(words.drop_first())
    }
}

/// The words from position `i` on, joined by the computed gaps: every gap
/// gets `per` spaces, and the first `extra` gaps one more.
pub open spec fn spec_justify_words(
    words: Seq<Seq<char>>,
    i: int,
    per: int,
    extra: int,
) -> Seq<char>
    decreases words.len() - i,
{
    if i < 0 || i >= words.len() {
        Seq::empty()
    } else if i == words.len() - 1 {
        words[i]
    } else {
        words[i] + spec_repeat_char(' ', per + if i < extra { 1int } else { 0 })
            + spec_justify_words(words, i + 1, per, extra)
    }
}

/// Text justified to the given width: spaces are distributed between the
/// words so that the line, measured in bytes, fills the width; a single
/// word is padded at its end, and text already at or over the width stays
/// unchanged.
pub open spec fn spec_justify(s: Seq<char>, width: int) -> Seq<char> {
    let words = spec_split_ws(s);
    if words.len() <= 1 {
        let blen = spec_byte_len(s) as int;
        let pad = if width >= blen {
            width - blen
        } else {
            0
        };
        s + spec_repeat_char(' ', pad)
    } else {
        let total = spec_words_bytes(words);
        let needed = if width >= total {
            width - total
        } else {
            0
        };
        if needed == 0 {
            s
        } else {
            let gaps = words.len() - 1;
            spec_justify_words(words, 0, needed / gaps, needed % gaps)
        }
    }
}

impl Align {
    /// Calculate the starting position for content with this alignment.
    pub fn calculate_offset(&self, content_width: usize, available_width: usize) -> (r: usize)
        ensures
            r == spec_align_offset(*self, content_width as int, available_width as int),
    {
        if content_width >= available_width {
            return 0;
        }
        match self {
            Self::Left => 0,
            Self::Center => (available_width - content_width) / 2,
            Self::Right => available_width - content_width,
            Self::Justify => 0,
        }
    }

    /// Apply alignment to a string by adding padding spaces.
    pub fn apply_to_string(&self, text: &str, width: usize) -> (r: String)
        ensures
            r@ == spec_apply_align(*self, text@, width as int),
    {
        let text_len = text.unicode_len();
        if text_len >= width {
            let r = text.substring_char(0, width).to_owned();
            proof {
                assert(r@ =~= text@.take(width as int));
            }
            return r;
        }
        let padding_needed = width - text_len;
        match self {
            Self::Left => {
                let mut out = text.to_owned();
                push_repeated(&mut out, ' ', padding_needed);
                out
            },
            Self::Right => {
                let mut out = String::new();
                push_repeated(&mut out, ' ', padding_needed);
                out.append(text);
                proof {
                    assert(out@ =~= spec_repeat_char(' ', padding_needed as int) + text@);
                }
                out
            },
            Self::Center => {
                let left_padding = padding_needed / 2;
                let right_padding = padding_needed - left_padding;
                let mut out = String::new();
                push_repeated(&mut out, ' ', left_padding);
                out.append(text);
                push_repeated(&mut out, ' ', right_padding);
                proof {
                    assert(out@ =~= spec_repeat_char(' ', left_padding as int) + text@
                        + spec_repeat_char(' ', right_padding as int));
                }
                out
            },
            Self::Justify => {
                if !contains_space(text) {
                    let mut out = text.to_owned();
                    push_repeated(&mut out, ' ', padding_needed);
                    out
                } else {
                    justify_text(text, width)
                }
            },
        }
    }
}

/// Does the text hold a plain space character anywhere?
fn contains_space(text: &str) -> (r: bool)
    ensures
        r == text@.contains(' '),
{
    let n = text.unicode_len();
    let mut i: usize = 0;
    while i < n
        invariant
            i <= n,
            n == text@.len(),
            forall|j: int| 0 <= j < i ==> text@[j] != ' ',
        decreases n - i,
    {
        if text.get_char(i) == ' ' {
            proof {
                assert(text@[i as int] == ' ');
            }
            return true;
        }
        i = i + 1;
    }
    proof {
        if text@.contains(' ') {
            let w = choose|w: int| 0 <= w < text@.len() && text@[w] == ' ';
            assert(false);
        }
    }
    false
}

/// Justify text to fill the given width by adding spaces between words;
/// widths here are measured in bytes.
pub fn justify_text(text: &str, width: usize) -> (r: String)
    ensures
        r@ == spec_justify(text@, width as int),
{
    let chars = chars_of(text);
    let toks = split_ws(&chars);
    let ghost word_views = spec_split_ws(text@);
    proof {
        assert(toks@.map_values(|t: Vec<char>| t@) == word_views);
    }
    if toks.len() <= 1 {
        let blen = text.len();
        let pad = width.saturating_sub(blen);
        let mut out = text.to_owned();
        push_repeated(&mut out, ' ', pad);
        proof {
            assert(blen == spec_byte_len(text@));
        }
        return out;
    }
    let mut words: Vec<String> = Vec::new();
    let mut i: usize = 0;
    proof {
        assert(words@.map_values(|w: String| w@) =~= word_views.take(0));
    }
    while i < toks.len()
        invariant
            i <= toks@.len(),
            word_views == toks@.map_values(|t: Vec<char>| t@),
            words@.len() == i,
            words@.map_values(|w: String| w@) == word_views.take(i as int),
        decreases toks@.len() - i,
    {
        let w = string_of(&toks[i]);
        words.push(w);
        i = i + 1;
        proof {
            assert(words@.map_values(|w: String| w@) =~= word_views.take(i as int));
        }
    }
    proof {
        assert(word_views.take(word_views.len() as int) =~= word_views);
    }
    let mut total: usize = 0;
    let mut k: usize = 0;
    proof {
        lemma_words_bytes_nonneg(word_views.take(0));
        assert(total == spec_min_cap(spec_words_bytes(word_views.take(0))));
    }
    while k < words.len()
        invariant
            k <= words@.len(),
            words@.len() == word_views.len(),
            words@.map_values(|w: String| w@) == word_views,
            total == spec_min_cap(spec_words_bytes(word_views.take(k as int))),
        decreases words@.len() - k,
    {
        let wl = words[k].as_str().len();
        proof {
            assert(words@[k as int]@ == word_views[k as int]);
            assert(wl == spec_byte_len(word_views[k as int]));
            assert(word_views.take(k as int + 1).drop_first() =~= word_views.skip(1).take(
                k as int,
            ));
            lemma_words_bytes_snoc(word_views.take(k as int + 1));
            assert(word_views.take(k as int + 1).drop_last() =~= word_views.take(k as int));
            assert(word_views.take(k as int + 1).last() == word_views[k as int]);
            lemma_words_bytes_nonneg(word_views.take(k as int));
        }
        total = total.saturating_add(wl);
        k = k + 1;
    }
    proof {
        assert(word_views.take(word_views.len() as int) =~= word_views);
    }
    let needed = width.saturating_sub(total);
    proof {
        lemma_words_bytes_nonneg(word_views);
    }
    if needed == 0 {
        return text.to_owned();
    }
    let gaps = words.len() - 1;
    let per = needed / gaps;
    let extra = needed % gaps;
    let mut out = String::new();
    let mut w: usize = 0;
    proof {
        lemma_fundamental_div_mod(needed as int, gaps as int);
    }
    while w < words.len()
        invariant
            w <= words@.len(),
            words@.len() == word_views.len(),
            words@.len() >= 2,
            words@.map_values(|x: String| x@) == word_views,
            gaps == words@.len() - 1,
            per == needed as int / gaps as int,
            extra == needed as int % gaps as int,
            needed <= usize::MAX,
            needed as int == gaps * per + extra,
            0 <= extra < gaps,
            out@ + spec_justify_words(word_views, w as int, per as int, extra as int)
                == spec_justify_words(word_views, 0, per as int, extra as int),
        decreases words@.len() - w,
    {
        proof {
            assert(words@[w as int]@ == word_views[w as int]);
        }
        out.append(words[w].as_str());
        if w < words.len() - 1 {
            let g: usize = if w < extra {
                proof {
                    assert(gaps * per >= per) by (nonlinear_arith)
                        requires
                            gaps >= 1,
                            per >= 0,
                    ;
                }
                per + 1
            } else {
                per
            };
            push_repeated(&mut out, ' ', g);
            proof {
                assert(out@ =~= (out@ + Seq::<char>::empty()));
            }
        }
        w = w + 1;
        proof {
            assert(out@ + spec_justify_words(word_views, w as int, per as int, extra as int)
                =~= spec_justify_words(word_views, 0, per as int, extra as int));
        }
    }
    proof {
        assert(spec_justify_words(word_views, word_views.len() as int, per as int, extra as int)
            =~= Seq::<char>::empty());
        assert(out@ =~= out@ + spec_justify_words(
            word_views,
            word_views.len() as int,
            per as int,
            extra as int,
        ));
    }
    out
}

/// A sum capped at the machine word: what a saturating accumulation
/// computes.
pub open spec fn spec_min_cap(total: int) -> int {
    if total <= usize::MAX {
        total
    } else {
        usize::MAX as int
    }
}

proof fn lemma_words_bytes_nonneg(words: Seq<Seq<char>>)
    ensures
        spec_words_bytes(words) >= 0,
    decreases words.len(),
{
    if words.len() > 0 {
        lemma_words_bytes_nonneg(words.drop_first());
    }
}

/// The byte total taken from the back: the last word's bytes on top of
/// the rest.
proof fn lemma_words_bytes_snoc(words: Seq<Seq<char>>)
    requires
        words.len() > 0,
    ensures
        spec_words_bytes(words) == spec_words_bytes(words.drop_last()) + spec_byte_len(
            words.last(),
        ),
    decreases words.len(),
{
    if words.len() == 1 {
        assert(words.drop_last() =~= Seq::<Seq<char>>::empty());
        assert(words.drop_first() =~= Seq::<Seq<char>>::empty());
    } else {
        lemma_words_bytes_snoc(words.drop_first());
        assert(words.drop_first().drop_last() =~= words.drop_last().drop_first());
        assert(words.drop_first().last() == words.last());
        assert(words.drop_last()[0] == words[0]);
    }
}

/// Vertical alignment options.
#[derive(Debug, Clone, Copy, PartialEq, Eq, Structural)]
pub enum VerticalAlign {
    /// Align to the top.
    Top,
    /// Center vertically.
    Middle,
    /// Align to the bottom.
    Bottom,
}

impl Default for VerticalAlign {
    /// Top alignment.
    fn default() -> (r: Self)
        ensures
            r == VerticalAlign::Top,
    {
        Self::Top
    }
}

/// The row where vertically aligned content starts; zero when it does not
/// fit.
pub open spec fn spec_vertical_offset(
    align: VerticalAlign,
    content_height: int,
    available_height: int,
) -> int {
    if content_height >= available_height {
        0
    } else {
        match align {
            VerticalAlign::Top => 0,
            VerticalAlign::Middle => (available_height - content_height) / 2,
            VerticalAlign::Bottom => available_height - content_height,
        }
    }
}

impl VerticalAlign {
    /// Calculate the starting row for content with this vertical
    /// alignment.
    pub fn calculate_offset(&self, content_height: usize, available_height: usize) -> (r: usize)
        ensures
            r == spec_vertical_offset(*self, content_height as int, available_height as int),
    {
        if content_height >= available_height {
            return 0;
        }
        match self {
            Self::Top => 0,
            Self::Middle => (available_height - content_height) / 2,
            Self::Bottom => available_height - content_height,
        }
    }
}

/// Represents a rectangular region in the terminal.
#[derive(Debug, Clone, Copy, PartialEq, Eq, Structural)]
pub struct Region {
    /// X coordinate (column) of the top-left corner.
    pub x: usize,
    /// Y coordinate (row) of the top-left corner.
    pub y: usize,
    /// Width of the region.
    pub width: usize,
    /// Height of the region.
    pub height: usize,
}

/// Every edge of the region fits a machine word.
pub open spec fn spec_region_fits(r: Region) -> bool {
    r.x + r.width <= usize::MAX && r.y + r.height <= usize::MAX
}

impl Region {
    /// Create a new region.
    pub fn new(x: usize, y: usize, width: usize, height: usize) -> (r: Self)
        ensures
            r == (Region { x, y, width, height }),
    {
        Self { x, y, width, height }
    }

    /// Create a region starting at origin (0, 0).
    pub fn from_size(width: usize, height: usize) -> (r: Self)
        ensures
            r == (Region { x: 0usize, y: 0usize, width, height }),
    {
        Self::new(0, 0, width, height)
    }

    /// Check if this region is empty (zero width or height).
    pub fn is_empty(&self) -> (r: bool)
        ensures
            r == (self.width == 0 || self.height == 0),
    {
        self.width == 0 || self.height == 0
    }

    /// Get the area of this region.
    pub fn area(&self) -> (r: usize)
        requires
            self.width * self.height <= usize::MAX,
        ensures
            r == self.width * self.height,
    {
        self.width * self.height
    }

    /// Get the right edge x-coordinate (exclusive).
    pub fn right(&self) -> (r: usize)
        requires
            self.x + self.width <= usize::MAX,
        ensures
            r == self.x + self.width,
    {
        self.x + self.width
    }

    /// Get the bottom edge y-coordinate (exclusive).
    pub fn bottom(&self) -> (r: usize)
        requires
            self.y + self.height <= usize::MAX,
        ensures
            r == self.y + self.height,
    {
        self.y + self.height
    }

    /// Check if a point is contained within this region.
    pub fn contains(&self, x: usize, y: usize) -> (r: bool)
        requires
            spec_region_fits(*self),
        ensures
            r == (x >= self.x && x < self.x + self.width && y >= self.y && y < self.y
                + self.height),
    {
        x >= self.x && x < self.right() && y >= self.y && y < self.bottom()
    }

    /// Check if this region intersects with another region.
    pub fn intersects(&self, other: &Region) -> (r: bool)
        requires
            spec_region_fits(*self),
            spec_region_fits(*other),
        ensures
            r == spec_intersects(*self, *other),
    {
        self.x < other.right() && self.right() > other.x && self.y < other.bottom()
            && self.bottom() > other.y
    }

    /// Calculate the intersection of this region with another region;
    /// none where they do not intersect.
    pub fn intersection(&self, other: &Region) -> (res: Option<Region>)
        requires
            spec_region_fits(*self),
            spec_region_fits(*other),
        ensures
            !spec_intersects(*self, *other) ==> res is None,
            spec_intersects(*self, *other) ==> res == Some(
                Region {
                    x: spec_max(self.x as int, other.x as int) as usize,
                    y: spec_max(self.y as int, other.y as int) as usize,
                    width: (spec_min(
                        self.x + self.width,
                        other.x + other.width,
                    ) - spec_max(self.x as int, other.x as int)) as usize,
                    height: (spec_min(
                        self.y + self.height,
                        other.y + other.height,
                    ) - spec_max(self.y as int, other.y as int)) as usize,
                },
            ),
    {
        if !self.intersects(other) {
            return None;
        }
        let x = if self.x >= other.x { self.x } else { other.x };
        let y = if self.y >= other.y { self.y } else { other.y };
        let self_right = self.right();
        let other_right = other.right();
        let right = if self_right <= other_right { self_right } else { other_right };
        let self_bottom = self.bottom();
        let other_bottom = other.bottom();
        let bottom = if self_bottom <= other_bottom { self_bottom } else { other_bottom };
        Some(Region::new(x, y, right - x, bottom - y))
    }

    /// Calculate the union of this region with another region: the
    /// smallest region covering both.
    pub fn union(&self, other: &Region) -> (r: Region)
        requires
            spec_region_fits(*self),
            spec_region_fits(*other),
        ensures
            r.x == spec_min(self.x as int, other.x as int),
            r.y == spec_min(self.y as int, other.y as int),
            r.x + r.width == spec_max(self.x + self.width, other.x + other.width),
            r.y + r.height == spec_max(self.y + self.height, other.y + other.height),
    {
        let x = if self.x <= other.x { self.x } else { other.x };
        let y = if self.y <= other.y { self.y } else { other.y };
        let self_right = self.right();
        let other_right = other.right();
        let right = if self_right >= other_right { self_right } else { other_right };
        let self_bottom = self.bottom();
        let other_bottom = other.bottom();
        let bottom = if self_bottom >= other_bottom { self_bottom } else { other_bottom };
        Region::new(x, y, right - x, bottom - y)
    }

    /// Move this region by the given offset; negative moves saturate at
    /// zero.
    pub fn translate(&self, dx: isize, dy: isize) -> (r: Region)
        requires
            dx > isize::MIN,
            dy > isize::MIN,
            dx >= 0 ==> self.x + dx <= usize::MAX,
            dy >= 0 ==> self.y + dy <= usize::MAX,
        ensures
            r.x == if self.x + dx >= 0 {
                self.x + dx
            } else {
                0int
            },
            r.y == if self.y + dy >= 0 {
                self.y + dy
            } else {
                0int
            },
            r.width == self.width,
            r.height == self.height,
    {
        let new_x = if dx < 0 {
            self.x.saturating_sub((-dx) as usize)
        } else {
            self.x + (dx as usize)
        };
        let new_y = if dy < 0 {
            self.y.saturating_sub((-dy) as usize)
        } else {
            self.y + (dy as usize)
        };
        Region::new(new_x, new_y, self.width, self.height)
    }

    /// Expand this region by the given amounts in each direction; the
    /// origin saturates at zero.
    pub fn expand(&self, top: usize, right: usize, bottom: usize, left: usize) -> (r: Region)
        requires
            self.width + left + right <= usize::MAX,
            self.height + top + bottom <= usize::MAX,
        ensures
            r.x == if self.x >= left {
                self.x - left
            } else {
                0int
            },
            r.y == if self.y >= top {
                self.y - top
            } else {
                0int
            },
            r.width == self.width + left + right,
            r.height == self.height + top + bottom,
    {
        let new_x = self.x.saturating_sub(left);
        let new_y = self.y.saturating_sub(top);
        let new_width = self.width + left + right;
        let new_height = self.height + top + bottom;
        Region::new(new_x, new_y, new_width, new_height)
    }

    /// Shrink this region by the given amounts in each direction; the
    /// size saturates at zero.
    pub fn shrink(&self, top: usize, right: usize, bottom: usize, left: usize) -> (r: Region)
        requires
            self.x + left <= usize::MAX,
            self.y + top <= usize::MAX,
            left + right <= usize::MAX,
            top + bottom <= usize::MAX,
        ensures
            r.x == self.x + left,
            r.y == self.y + top,
            r.width == if self.width >= left + right {
                self.width - (left + right)
            } else {
                0int
            },
            r.height == if self.height >= top + bottom {
                self.height - (top + bottom)
            } else {
                0int
            },
    {
        let new_x = self.x + left;
        let new_y = self.y + top;
        let new_width = self.width.saturating_sub(left + right);
        let new_height = self.height.saturating_sub(top + bottom);
        Region::new(new_x, new_y, new_width, new_height)
    }

    /// Create a sub-region within this region; a sub-region reaching past
    /// the parent is a layout error.
    pub fn sub_region(&self, x: usize, y: usize, width: usize, height: usize) -> (res:
        core::result::Result<Region, LuxorError>)
        requires
            x + width <= usize::MAX,
            y + height <= usize::MAX,
            self.x + x <= usize::MAX,
            self.y + y <= usize::MAX,
        ensures
            x + width > self.width || y + height > self.height ==> (res matches Err(e) && e matches
                LuxorError::LayoutError(m) && m@ == "Sub-region "@ + spec_decimal(width as int)
                + "x"@ + spec_decimal(height as int) + " at ("@ + spec_decimal(x as int) + ", "@
                + spec_decimal(y as int) + ") exceeds parent region "@ + spec_decimal(
                self.width as int,
            ) + "x"@ + spec_decimal(self.height as int)),
            x + width <= self.width && y + height <= self.height ==> res == Ok::<
                Region,
                LuxorError,
            >(Region { x: (self.x + x) as usize, y: (self.y + y) as usize, width, height }),
    {
        if x + width > self.width || y + height > self.height {
            let mut message = String::new();
            message.append("Sub-region ");
            push_decimal(&mut message, width);
            message.append("x");
            push_decimal(&mut message, height);
            message.append(" at (");
            push_decimal(&mut message, x);
            message.append(", ");
            push_decimal(&mut message, y);
            message.append(") exceeds parent region ");
            push_decimal(&mut message, self.width);
            message.append("x");
            push_decimal(&mut message, self.height);
            proof {
                assert(message@ =~= "Sub-region "@ + spec_decimal(width as int) + "x"@
                    + spec_decimal(height as int) + " at ("@ + spec_decimal(x as int) + ", "@
                    + spec_decimal(y as int) + ") exceeds parent region "@ + spec_decimal(
                    self.width as int,
                ) + "x"@ + spec_decimal(self.height as int));
            }
            return Err(LuxorError::LayoutError(message));
        }
        Ok(Region::new(self.x + x, self.y + y, width, height))
    }
}

/// The smaller of two values.
pub open spec fn spec_min(a: int, b: int) -> int {
    if a <= b {
        a
    } else {
        b
    }
}

/// The larger of two values.
pub open spec fn spec_max(a: int, b: int) -> int {
    if a >= b {
        a
    } else {
        b
    }
}

/// Two regions overlap somewhere.
pub open spec fn spec_intersects(a: Region, b: Region) -> bool {
    a.x < b.x + b.width && a.x + a.width > b.x && a.y < b.y + b.height && a.y + a.height > b.y
}

impl Default for Region {
    /// An empty region at the origin.
    fn default() -> (r: Self)
        ensures
            r == (Region { x: 0usize, y: 0usize, width: 0usize, height: 0usize }),
    {
        Self::new(0, 0, 0, 0)
    }
}

/// Layout options for arranging content.
#[derive(Debug, Clone, Copy)]
pub struct LayoutOptions {
    /// Horizontal alignment.
    pub align: Align,
    /// Vertical alignment.
    pub vertical_align: VerticalAlign,
    /// Padding around content.
    pub padding: Padding,
    /// Whether to clip content that exceeds the region.
    pub clip: bool,
}

impl LayoutOptions {
    /// Create new layout options with default values.
    pub fn new() -> (r: Self)
        ensures
            r.align == Align::Left,
            r.vertical_align == VerticalAlign::Top,
            r.padding == (Padding { top: 0usize, right: 0usize, bottom: 0usize, left: 0usize }),
            r.clip == true,
    {
        Self {
            align: Align::Left,
            vertical_align: VerticalAlign::Top,
            padding: Padding::zero(),
            clip: true,
        }
    }

    /// Set horizontal alignment.
    pub fn with_align(self, align: Align) -> (r: Self)
        ensures
            r == (LayoutOptions { align, ..self }),
    {
        Self { align, ..self }
    }

    /// Set vertical alignment.
    pub fn with_vertical_align(self, align: VerticalAlign) -> (r: Self)
        ensures
            r == (LayoutOptions { vertical_align: align, ..self }),
    {
        Self { vertical_align: align, ..self }
    }

    /// Set padding.
    pub fn with_padding(self, padding: Padding) -> (r: Self)
        ensures
            r == (LayoutOptions { padding, ..self }),
    {
        Self { padding, ..self }
    }

    /// Set clipping behavior.
    pub fn with_clip(self, clip: bool) -> (r: Self)
        ensures
            r == (LayoutOptions { clip, ..self }),
    {
        Self { clip, ..self }
    }
}

impl Default for LayoutOptions {
    /// Left and top alignment, no padding, clipping on.
    fn default() -> (r: Self)
        ensures
            r.align == Align::Left,
            r.vertical_align == VerticalAlign::Top,
            r.padding == (Padding { top: 0usize, right: 0usize, bottom: 0usize, left: 0usize }),
            r.clip == true,
    {
        Self::new()
    }
}

/// The region a piece of content ends up in: the padding is taken off
/// the region, the content width is clipped to it where asked, and the
/// alignments place the content inside; content is laid out one line
/// high.
pub open spec fn spec_layout_content(
    m: Measurement,
    region: Region,
    options: LayoutOptions,
) -> Region {
    if region.width == 0 || region.height == 0 {
        Region { x: 0usize, y: 0usize, width: 0usize, height: 0usize }
    } else {
        let area = spec_apply_padding(options.padding, region);
        if area.width == 0 || area.height == 0 {
            area
        } else {
            let content_width = if options.clip {
                spec_min(m.minimum as int, area.width as int)
            } else {
                m.minimum as int
            };
            let content_height = 1int;
            let x_offset = spec_align_offset(options.align, content_width, area.width as int);
            let y_offset = spec_vertical_offset(
                options.vertical_align,
                content_height,
                area.height as int,
            );
            Region {
                x: (area.x + x_offset) as usize,
                y: (area.y + y_offset) as usize,
                width: (if options.clip {
                    spec_min(content_width, area.width - x_offset)
                } else {
                    content_width
                }) as usize,
                height: (if options.clip {
                    spec_min(content_height, area.height - y_offset)
                } else {
                    content_height
                }) as usize,
            }
        }
    }
}

/// Calculate the position and size for content within a region using
/// layout options.
pub fn layout_content(
    content_measurement: &Measurement,
    region: Region,
    options: &LayoutOptions,
) -> (res: core::result::Result<Region, LuxorError>)
    requires
        content_measurement.wf(),
        region.x + options.padding.left + region.width <= usize::MAX,
        region.y + options.padding.top + region.height <= usize::MAX,
        options.padding.left + options.padding.right <= usize::MAX,
        options.padding.top + options.padding.bottom <= usize::MAX,
    ensures
        res == Ok::<Region, LuxorError>(spec_layout_content(*content_measurement, region, *options)),
{
    if region.is_empty() {
        return Ok(Region::from_size(0, 0));
    }
    let content_area = options.padding.apply_to_region(region);
    if content_area.is_empty() {
        return Ok(content_area);
    }
    let content_width = if options.clip {
        let min_w = content_measurement.minimum();
        if min_w <= content_area.width {
            min_w
        } else {
            content_area.width
        }
    } else {
        content_measurement.minimum()
    };
    let content_height: usize = 1;
    let x_offset = options.align.calculate_offset(content_width, content_area.width);
    let y_offset = options.vertical_align.calculate_offset(content_height, content_area.height);
    let final_x = content_area.x + x_offset;
    let final_y = content_area.y + y_offset;
    let final_width = if options.clip {
        let limit = content_area.width - x_offset;
        if content_width <= limit {
            content_width
        } else {
            limit
        }
    } else {
        content_width
    };
    let final_height = if options.clip {
        let limit = content_area.height - y_offset;
        if content_height <= limit {
            content_height
        } else {
            limit
        }
    } else {
        content_height
    };
    Ok(Region::new(final_x, final_y, final_width, final_height))
}

} // verus!
