//! Style system for text formatting and appearance.

use vstd::prelude::*;
use crate::chars::{
    chars_eq_str, chars_of, lower_chars, push_chars, push_decimal, spec_decimal, spec_join,
    spec_lower, spec_split_ws, split_ws,
};
use crate::color::{spec_parse_hex, Color, StandardColor};
use crate::error::LuxorError;

verus! {

/// Text style attributes.
///
/// A style defines the appearance of text: colors, font attributes and
/// other formatting options.  Every field is optional: `None` means
/// "unspecified / inherit", `Some(true)` and `Some(false)` mean explicitly
/// on and off.  Styles compose with [`Style::combine`].
#[derive(Debug, Clone, Copy, PartialEq, Eq, Hash, Structural)]
pub struct Style {
    /// Foreground color.
    pub color: Option<Color>,
    /// Background color.
    pub background: Option<Color>,
    /// Bold text.
    pub bold: Option<bool>,
    /// Italic text.
    pub italic: Option<bool>,
    /// Underlined text.
    pub underline: Option<bool>,
    /// Strikethrough text.
    pub strikethrough: Option<bool>,
    /// Dim/faint text.
    pub dim: Option<bool>,
    /// Reverse/inverse colors.
    pub reverse: Option<bool>,
    /// Blinking text.
    pub blink: Option<bool>,
    /// Hidden/invisible text.
    pub hidden: Option<bool>,
}

/// The style with every attribute unspecified: the identity element of
/// composition.
pub open spec fn spec_empty_style() -> Style {
    Style {
        color: None,
        background: None,
        bold: None,
        italic: None,
        underline: None,
        strikethrough: None,
        dim: None,
        reverse: None,
        blink: None,
        hidden: None,
    }
}

/// The second value where it is set, the first otherwise.
pub open spec fn spec_or_opt<T>(first: Option<T>, second: Option<T>) -> Option<T> {
    match second {
        Some(v) => Some(v),
        None => first,
    }
}

/// The composition of two styles: for every attribute, `other`'s value
/// wins where it is set, and `base`'s value is kept otherwise.
pub open spec fn spec_combine(base: Style, other: Style) -> Style {
    Style {
        color: spec_or_opt(base.color, other.color),
        background: spec_or_opt(base.background, other.background),
        bold: spec_or_opt(base.bold, other.bold),
        italic: spec_or_opt(base.italic, other.italic),
        underline: spec_or_opt(base.underline, other.underline),
        strikethrough: spec_or_opt(base.strikethrough, other.strikethrough),
        dim: spec_or_opt(base.dim, other.dim),
        reverse: spec_or_opt(base.reverse, other.reverse),
        blink: spec_or_opt(base.blink, other.blink),
        hidden: spec_or_opt(base.hidden, other.hidden),
    }
}

/// True where no attribute of the style is set.
pub open spec fn spec_style_is_empty(s: Style) -> bool {
    s == spec_empty_style()
}

/// Composition of styles is associative: combining on the left or on the
/// right first gives the same style.
pub proof fn lemma_combine_associative(a: Style, b: Style, c: Style)
    ensures
        spec_combine(spec_combine(a, b), c) == spec_combine(a, spec_combine(b, c)),
{
}

/// The empty style is a left and a right identity of composition.
pub proof fn lemma_combine_identity(s: Style)
    ensures
        spec_combine(s, spec_empty_style()) == s,
        spec_combine(spec_empty_style(), s) == s,
{
}

impl Style {
    /// Create a new empty style.
    pub fn new() -> (r: Self)
        ensures
            r == spec_empty_style(),
    {
        Self {
            color: None,
            background: None,
            bold: None,
            italic: None,
            underline: None,
            strikethrough: None,
            dim: None,
            reverse: None,
            blink: None,
            hidden: None,
        }
    }

    /// Set the foreground color.
    pub fn color(self, color: Color) -> (r: Self)
        ensures
            r == (Style { color: Some(color), ..self }),
    {
        Self { color: Some(color), ..self }
    }

    /// Set the background color.
    pub fn background(self, color: Color) -> (r: Self)
        ensures
            r == (Style { background: Some(color), ..self }),
    {
        Self { background: Some(color), ..self }
    }

    /// Set bold formatting.
    pub fn bold(self) -> (r: Self)
        ensures
            r == (Style { bold: Some(true), ..self }),
    {
        Self { bold: Some(true), ..self }
    }

    /// Explicitly turn off bold formatting.
    pub fn bold_off(self) -> (r: Self)
        ensures
            r == (Style { bold: Some(false), ..self }),
    {
        Self { bold: Some(false), ..self }
    }

    /// Set italic formatting.
    pub fn italic(self) -> (r: Self)
        ensures
            r == (Style { italic: Some(true), ..self }),
    {
        Self { italic: Some(true), ..self }
    }

    /// Explicitly turn off italic formatting.
    pub fn italic_off(self) -> (r: Self)
        ensures
            r == (Style { italic: Some(false), ..self }),
    {
        Self { italic: Some(false), ..self }
    }

    /// Set underline formatting.
    pub fn underline(self) -> (r: Self)
        ensures
            r == (Style { underline: Some(true), ..self }),
    {
        Self { underline: Some(true), ..self }
    }

    /// Explicitly turn off underline formatting.
    pub fn underline_off(self) -> (r: Self)
        ensures
            r == (Style { underline: Some(false), ..self }),
    {
        Self { underline: Some(false), ..self }
    }

    /// Set strikethrough formatting.
    pub fn strikethrough(self) -> (r: Self)
        ensures
            r == (Style { strikethrough: Some(true), ..self }),
    {
        Self { strikethrough: Some(true), ..self }
    }

    /// Explicitly turn off strikethrough formatting.
    pub fn strikethrough_off(self) -> (r: Self)
        ensures
            r == (Style { strikethrough: Some(false), ..self }),
    {
        Self { strikethrough: Some(false), ..self }
    }

    /// Set dim/faint formatting.
    pub fn dim(self) -> (r: Self)
        ensures
            r == (Style { dim: Some(true), ..self }),
    {
        Self { dim: Some(true), ..self }
    }

    /// Explicitly turn off dim formatting.
    pub fn dim_off(self) -> (r: Self)
        ensures
            r == (Style { dim: Some(false), ..self }),
    {
        Self { dim: Some(false), ..self }
    }

    /// Set reverse/inverse formatting.
    pub fn reverse(self) -> (r: Self)
        ensures
            r == (Style { reverse: Some(true), ..self }),
    {
        Self { reverse: Some(true), ..self }
    }

    /// Explicitly turn off reverse formatting.
    pub fn reverse_off(self) -> (r: Self)
        ensures
            r == (Style { reverse: Some(false), ..self }),
    {
        Self { reverse: Some(false), ..self }
    }

    /// Set blinking formatting.
    pub fn blink(self) -> (r: Self)
        ensures
            r == (Style { blink: Some(true), ..self }),
    {
        Self { blink: Some(true), ..self }
    }

    /// Explicitly turn off blinking.
    pub fn blink_off(self) -> (r: Self)
        ensures
            r == (Style { blink: Some(false), ..self }),
    {
        Self { blink: Some(false), ..self }
    }

    /// Set hidden/invisible formatting.
    pub fn hidden(self) -> (r: Self)
        ensures
            r == (Style { hidden: Some(true), ..self }),
    {
        Self { hidden: Some(true), ..self }
    }

    /// Explicitly turn off hidden formatting.
    pub fn hidden_off(self) -> (r: Self)
        ensures
            r == (Style { hidden: Some(false), ..self }),
    {
        Self { hidden: Some(false), ..self }
    }

    /// Check if this style has no attributes set.
    pub fn is_empty(&self) -> (r: bool)
        ensures
            r == spec_style_is_empty(*self),
    {
        self.color.is_none() && self.background.is_none() && self.bold.is_none()
            && self.italic.is_none() && self.underline.is_none() && self.strikethrough.is_none()
            && self.dim.is_none() && self.reverse.is_none() && self.blink.is_none()
            && self.hidden.is_none()
    }

    /// Combine this style with another style.
    ///
    /// Attributes set in `other` override the same attributes here, which
    /// makes the operation non-commutative; the empty style is its
    /// identity and composing is associative.
    pub fn combine(self, other: Self) -> (r: Self)
        ensures
            r == spec_combine(self, other),
    {
        Self {
            color: or_opt(self.color, other.color),
            background: or_opt(self.background, other.background),
            bold: or_opt(self.bold, other.bold),
            italic: or_opt(self.italic, other.italic),
            underline: or_opt(self.underline, other.underline),
            strikethrough: or_opt(self.strikethrough, other.strikethrough),
            dim: or_opt(self.dim, other.dim),
            reverse: or_opt(self.reverse, other.reverse),
            blink: or_opt(self.blink, other.blink),
            hidden: or_opt(self.hidden, other.hidden),
        }
    }

    /// Parse a style from a string representation.
    ///
    /// Whitespace-separated tokens are read in order: attribute keywords
    /// such as `bold` switch their attribute on; `on` takes the following
    /// token as the background color; any other token is tried as a named
    /// standard color or a hex literal and fills the foreground while that
    /// is still unset.
    pub fn parse(style_str: &str) -> (res: Result<Self, LuxorError>)
        ensures
            match spec_parse_style(style_str@) {
                Ok(st) => res == Ok::<Style, LuxorError>(st),
                Err(e) => res is Err && match e {
                    StyleParseError::UnknownToken(low) => (
                    res->Err_0 matches LuxorError::Style { message } && message@
                        == "Unknown style token: "@ + low),
                    StyleParseError::MissingBackground => (
                    res->Err_0 matches LuxorError::Style { message } && message@
                        == "Expected color after 'on'"@),
                    StyleParseError::BadColor(tok) => (
                    res->Err_0 matches LuxorError::Color { message } && message@
                        == spec_color_error_message(tok)),
                },
            },
    {
        let chars = chars_of(style_str);
        let toks = split_ws(&chars);
        let ghost tok_views = toks@.map_values(|t: Vec<char>| t@);
        let mut style = Style::new();
        let mut t: usize = 0;
        proof {
            assert(tok_views.skip(0) =~= tok_views);
        }
        while t < toks.len()
            invariant
                t <= toks@.len(),
                tok_views == toks@.map_values(|tk: Vec<char>| tk@),
                spec_parse_style(style_str@) == spec_parse_tokens(
                    tok_views.skip(t as int),
                    style,
                ),
            decreases toks@.len() - t,
        {
            let ghost rest = tok_views.skip(t as int);
            proof {
                assert(rest[0] == tok_views[t as int]);
                assert(rest.drop_first() =~= tok_views.skip(t as int + 1));
            }
            let low = lower_chars(&toks[t]);
            if chars_eq_str(&low, "bold") {
                style.bold = Some(true);
                t = t + 1;
            } else if chars_eq_str(&low, "italic") {
                style.italic = Some(true);
                t = t + 1;
            } else if chars_eq_str(&low, "underline") {
                style.underline = Some(true);
                t = t + 1;
            } else if chars_eq_str(&low, "strikethrough") {
                style.strikethrough = Some(true);
                t = t + 1;
            } else if chars_eq_str(&low, "dim") {
                style.dim = Some(true);
                t = t + 1;
            } else if chars_eq_str(&low, "reverse") {
                style.reverse = Some(true);
                t = t + 1;
            } else if chars_eq_str(&low, "blink") {
                style.blink = Some(true);
                t = t + 1;
            } else if chars_eq_str(&low, "hidden") {
                style.hidden = Some(true);
                t = t + 1;
            } else if chars_eq_str(&low, "on") {
                if t + 1 < toks.len() {
                    proof {
                        assert(rest[1] == tok_views[t as int + 1]);
                        assert(rest.skip(2) =~= tok_views.skip(t as int + 2));
                    }
                    match parse_color_token_chars(&toks[t + 1]) {
                        Ok(c) => {
                            style.background = Some(c);
                            t = t + 2;
                        },
                        Err(e) => {
                            return Err(e);
                        },
                    }
                } else {
                    return Err(LuxorError::style("Expected color after 'on'"));
                }
            } else {
                match parse_color_token_chars(&toks[t]) {
                    Ok(c) => {
                        if style.color.is_none() {
                            style.color = Some(c);
                        }
                        t = t + 1;
                    },
                    Err(_) => {
                        let mut message = String::new();
                        message.append("Unknown style token: ");
                        push_chars(&mut message, &low);
                        proof {
                            assert(message@ =~= "Unknown style token: "@ + low@);
                        }
                        return Err(LuxorError::Style { message });
                    },
                }
            }
        }
        proof {
            assert(tok_views.skip(t as int) =~= Seq::<Seq<char>>::empty());
        }
        Ok(style)
    }
}

impl Default for Style {
    /// The empty style.
    fn default() -> (r: Self)
        ensures
            r == spec_empty_style(),
    {
        Self::new()
    }
}

/// The second option where it is set, the first otherwise.
fn or_opt<T>(first: Option<T>, second: Option<T>) -> (r: Option<T>)
    ensures
        r == spec_or_opt(first, second),
{
    match second {
        Some(v) => Some(v),
        None => first,
    }
}

/// How parsing a style string fails: an unrecognized token (carried in its
/// lowercased form), a trailing `on` with no color after it, or a token
/// after `on` (carried as written) that names no color.
pub enum StyleParseError {
    UnknownToken(Seq<char>),
    MissingBackground,
    BadColor(Seq<char>),
}

/// The color named by one lowercased token, where it names a standard
/// color.
pub open spec fn spec_color_name(low: Seq<char>) -> Option<Color> {
    if low == "black"@ {
        Some(Color::Standard(StandardColor::Black))
    } else if low == "red"@ {
        Some(Color::Standard(StandardColor::Red))
    } else if low == "green"@ {
        Some(Color::Standard(StandardColor::Green))
    } else if low == "yellow"@ {
        Some(Color::Standard(StandardColor::Yellow))
    } else if low == "blue"@ {
        Some(Color::Standard(StandardColor::Blue))
    } else if low == "magenta"@ {
        Some(Color::Standard(StandardColor::Magenta))
    } else if low == "cyan"@ {
        Some(Color::Standard(StandardColor::Cyan))
    } else if low == "white"@ {
        Some(Color::Standard(StandardColor::White))
    } else if low == "bright_black"@ || low == "gray"@ || low == "grey"@ {
        Some(Color::Standard(StandardColor::BrightBlack))
    } else if low == "bright_red"@ {
        Some(Color::Standard(StandardColor::BrightRed))
    } else if low == "bright_green"@ {
        Some(Color::Standard(StandardColor::BrightGreen))
    } else if low == "bright_yellow"@ {
        Some(Color::Standard(StandardColor::BrightYellow))
    } else if low == "bright_blue"@ {
        Some(Color::Standard(StandardColor::BrightBlue))
    } else if low == "bright_magenta"@ {
        Some(Color::Standard(StandardColor::BrightMagenta))
    } else if low == "bright_cyan"@ {
        Some(Color::Standard(StandardColor::BrightCyan))
    } else if low == "bright_white"@ {
        Some(Color::Standard(StandardColor::BrightWhite))
    } else {
        None
    }
}

/// The complaint a failed color token carries: the hex complaint where
/// the token was tried as a hex literal, the unknown-color complaint
/// otherwise.
pub open spec fn spec_color_error_message(tok: Seq<char>) -> Seq<char> {
    if (tok.len() > 0 && tok[0] == '#') || tok.len() == 3 || tok.len() == 6 {
        crate::color::spec_hex_error_message(tok)
    } else {
        "Unknown color: "@ + tok
    }
}

/// The color denoted by one token: a standard color name (compared in
/// lower case), or a hex literal where the token starts with `#` or is
/// three or six characters long.
pub open spec fn spec_color_token(tok: Seq<char>) -> Option<Color> {
    match spec_color_name(spec_lower(tok)) {
        Some(c) => Some(c),
        None => if (tok.len() > 0 && tok[0] == '#') || tok.len() == 3 || tok.len() == 6 {
            match spec_parse_hex(tok) {
                Some(rgb) => Some(Color::TrueColor { r: rgb.0, g: rgb.1, b: rgb.2 }),
                None => None,
            }
        } else {
            None
        },
    }
}

/// The style described by a token list, read left to right starting from
/// `acc`.
pub open spec fn spec_parse_tokens(toks: Seq<Seq<char>>, acc: Style) -> Result<
    Style,
    StyleParseError,
>
    decreases toks.len(),
{
    if toks.len() == 0 {
        Ok(acc)
    } else {
        let low = spec_lower(toks[0]);
        if low == "bold"@ {
            spec_parse_tokens(toks.drop_first(), Style { bold: Some(true), ..acc })
        } else if low == "italic"@ {
            spec_parse_tokens(toks.drop_first(), Style { italic: Some(true), ..acc })
        } else if low == "underline"@ {
            spec_parse_tokens(toks.drop_first(), Style { underline: Some(true), ..acc })
        } else if low == "strikethrough"@ {
            spec_parse_tokens(toks.drop_first(), Style { strikethrough: Some(true), ..acc })
        } else if low == "dim"@ {
            spec_parse_tokens(toks.drop_first(), Style { dim: Some(true), ..acc })
        } else if low == "reverse"@ {
            spec_parse_tokens(toks.drop_first(), Style { reverse: Some(true), ..acc })
        } else if low == "blink"@ {
            spec_parse_tokens(toks.drop_first(), Style { blink: Some(true), ..acc })
        } else if low == "hidden"@ {
            spec_parse_tokens(toks.drop_first(), Style { hidden: Some(true), ..acc })
        } else if low == "on"@ {
            if toks.len() >= 2 {
                match spec_color_token(toks[1]) {
                    Some(c) => spec_parse_tokens(
                        toks.skip(2),
                        Style { background: Some(c), ..acc },
                    ),
                    None => Err(StyleParseError::BadColor(toks[1])),
                }
            } else {
                Err(StyleParseError::MissingBackground)
            }
        } else {
            match spec_color_token(toks[0]) {
                Some(c) => spec_parse_tokens(
                    toks.drop_first(),
                    if acc.color is None {
                        Style { color: Some(c), ..acc }
                    } else {
                        acc
                    },
                ),
                None => Err(StyleParseError::UnknownToken(low)),
            }
        }
    }
}

/// The style described by a style string: its whitespace-separated tokens
/// read onto the empty style.
pub open spec fn spec_parse_style(s: Seq<char>) -> Result<Style, StyleParseError> {
    spec_parse_tokens(spec_split_ws(s), spec_empty_style())
}

/// Parse a color token from a string.
pub fn parse_color_token(token: &str) -> (res: Result<Color, LuxorError>)
    ensures
        match spec_color_token(token@) {
            Some(c) => res == Ok::<Color, LuxorError>(c),
            None => (res matches Err(e) && e matches LuxorError::Color { message } && message@
                == spec_color_error_message(token@)),
        },
{
    let chars = chars_of(token);
    parse_color_token_chars(&chars)
}

/// Parse a color token given as a character vector.
fn parse_color_token_chars(token: &Vec<char>) -> (res: Result<Color, LuxorError>)
    ensures
        match spec_color_token(token@) {
            Some(c) => res == Ok::<Color, LuxorError>(c),
            None => (res matches Err(e) && e matches LuxorError::Color { message } && message@
                == spec_color_error_message(token@)),
        },
{
    let low = lower_chars(token);
    if chars_eq_str(&low, "black") {
        Ok(Color::Standard(StandardColor::Black))
    } else if chars_eq_str(&low, "red") {
        Ok(Color::Standard(StandardColor::Red))
    } else if chars_eq_str(&low, "green") {
        Ok(Color::Standard(StandardColor::Green))
    } else if chars_eq_str(&low, "yellow") {
        Ok(Color::Standard(StandardColor::Yellow))
    } else if chars_eq_str(&low, "blue") {
        Ok(Color::Standard(StandardColor::Blue))
    } else if chars_eq_str(&low, "magenta") {
        Ok(Color::Standard(StandardColor::Magenta))
    } else if chars_eq_str(&low, "cyan") {
        Ok(Color::Standard(StandardColor::Cyan))
    } else if chars_eq_str(&low, "white") {
        Ok(Color::Standard(StandardColor::White))
    } else if chars_eq_str(&low, "bright_black") || chars_eq_str(&low, "gray") || chars_eq_str(
        &low,
        "grey",
    ) {
        Ok(Color::Standard(StandardColor::BrightBlack))
    } else if chars_eq_str(&low, "bright_red") {
        Ok(Color::Standard(StandardColor::BrightRed))
    } else if chars_eq_str(&low, "bright_green") {
        Ok(Color::Standard(StandardColor::BrightGreen))
    } else if chars_eq_str(&low, "bright_yellow") {
        Ok(Color::Standard(StandardColor::BrightYellow))
    } else if chars_eq_str(&low, "bright_blue") {
        Ok(Color::Standard(StandardColor::BrightBlue))
    } else if chars_eq_str(&low, "bright_magenta") {
        Ok(Color::Standard(StandardColor::BrightMagenta))
    } else if chars_eq_str(&low, "bright_cyan") {
        Ok(Color::Standard(StandardColor::BrightCyan))
    } else if chars_eq_str(&low, "bright_white") {
        Ok(Color::Standard(StandardColor::BrightWhite))
    } else if (token.len() > 0 && token[0] == '#') || token.len() == 3 || token.len() == 6 {
        Color::from_hex_chars(token)
    } else {
        let mut message = String::new();
        message.append("Unknown color: ");
        push_chars(&mut message, token);
        proof {
            assert(message@ =~= "Unknown color: "@ + token@);
        }
        Err(LuxorError::Color { message })
    }
}

/// A textual description of a style: the attributes switched on, then the
/// colors, inside `Style(...)`, or `Style::new()` for the empty style.
pub open spec fn spec_display_style(s: Style) -> Seq<char> {
    let parts = spec_style_parts(s);
    if parts.len() == 0 {
        "Style::new()"@
    } else {
        "Style("@ + spec_join(parts, " "@) + ")"@
    }
}

/// The textual parts of a style description, in a fixed order.
pub open spec fn spec_style_parts(s: Style) -> Seq<Seq<char>> {
    let parts = Seq::<Seq<char>>::empty();
    let parts = if s.bold == Some(true) {
        parts.push("bold"@)
    } else {
        parts
    };
    let parts = if s.italic == Some(true) {
        parts.push("italic"@)
    } else {
        parts
    };
    let parts = if s.underline == Some(true) {
        parts.push("underline"@)
    } else {
        parts
    };
    let parts = if s.strikethrough == Some(true) {
        parts.push("strikethrough"@)
    } else {
        parts
    };
    let parts = if s.dim == Some(true) {
        parts.push("dim"@)
    } else {
        parts
    };
    let parts = if s.reverse == Some(true) {
        parts.push("reverse"@)
    } else {
        parts
    };
    let parts = if s.blink == Some(true) {
        parts.push("blink"@)
    } else {
        parts
    };
    let parts = if s.hidden == Some(true) {
        parts.push("hidden"@)
    } else {
        parts
    };
    let parts = match s.color {
        Some(c) => parts.push("color:"@ + spec_color_text(c)),
        None => parts,
    };
    match s.background {
        Some(c) => parts.push("bg:"@ + spec_color_text(c)),
        None => parts,
    }
}

/// The name of a standard color, as written in the source.
pub open spec fn spec_standard_name(c: StandardColor) -> Seq<char> {
    match c {
        StandardColor::Black => "Black"@,
        StandardColor::Red => "Red"@,
        StandardColor::Green => "Green"@,
        StandardColor::Yellow => "Yellow"@,
        StandardColor::Blue => "Blue"@,
        StandardColor::Magenta => "Magenta"@,
        StandardColor::Cyan => "Cyan"@,
        StandardColor::White => "White"@,
        StandardColor::BrightBlack => "BrightBlack"@,
        StandardColor::BrightRed => "BrightRed"@,
        StandardColor::BrightGreen => "BrightGreen"@,
        StandardColor::BrightYellow => "BrightYellow"@,
        StandardColor::BrightBlue => "BrightBlue"@,
        StandardColor::BrightMagenta => "BrightMagenta"@,
        StandardColor::BrightCyan => "BrightCyan"@,
        StandardColor::BrightWhite => "BrightWhite"@,
    }
}

/// A textual rendering of a color value, shaped like its source notation.
pub open spec fn spec_color_text(c: Color) -> Seq<char> {
    match c {
        Color::Default => "Default"@,
        Color::Standard(sc) => "Standard("@ + spec_standard_name(sc) + ")"@,
        Color::EightBit(index) => "EightBit("@ + spec_decimal(index as int) + ")"@,
        Color::TrueColor { r, g, b } => "TrueColor { r: "@ + spec_decimal(r as int) + ", g: "@
            + spec_decimal(g as int) + ", b: "@ + spec_decimal(b as int) + " }"@,
    }
}

/// Append the name of a standard color to a string.
fn push_standard_name(out: &mut String, c: StandardColor)
    ensures
        final(out)@ == old(out)@ + spec_standard_name(c),
{
    match c {
        StandardColor::Black => out.append("Black"),
        StandardColor::Red => out.append("Red"),
        StandardColor::Green => out.append("Green"),
        StandardColor::Yellow => out.append("Yellow"),
        StandardColor::Blue => out.append("Blue"),
        StandardColor::Magenta => out.append("Magenta"),
        StandardColor::Cyan => out.append("Cyan"),
        StandardColor::White => out.append("White"),
        StandardColor::BrightBlack => out.append("BrightBlack"),
        StandardColor::BrightRed => out.append("BrightRed"),
        StandardColor::BrightGreen => out.append("BrightGreen"),
        StandardColor::BrightYellow => out.append("BrightYellow"),
        StandardColor::BrightBlue => out.append("BrightBlue"),
        StandardColor::BrightMagenta => out.append("BrightMagenta"),
        StandardColor::BrightCyan => out.append("BrightCyan"),
        StandardColor::BrightWhite => out.append("BrightWhite"),
    }
}

/// Append the textual rendering of a color to a string.
fn push_color_text(out: &mut String, c: Color)
    ensures
        final(out)@ == old(out)@ + spec_color_text(c),
{
    match c {
        Color::Default => out.append("Default"),
        Color::Standard(sc) => {
            out.append("Standard(");
            push_standard_name(out, sc);
            out.append(")");
        },
        Color::EightBit(index) => {
            out.append("EightBit(");
            push_decimal(out, index as usize);
            out.append(")");
        },
        Color::TrueColor { r, g, b } => {
            out.append("TrueColor { r: ");
            push_decimal(out, r as usize);
            out.append(", g: ");
            push_decimal(out, g as usize);
            out.append(", b: ");
            push_decimal(out, b as usize);
            out.append(" }");
        },
    }
}

impl Style {
    /// A textual description of this style, naming the attributes switched
    /// on and the colors.
    #[verifier::rlimit(100)]
    pub fn display_string(&self) -> (r: String)
        ensures
            r@ == spec_display_style(*self),
    {
        let mut parts: Vec<String> = Vec::new();
        let ghost mut part_views = Seq::<Seq<char>>::empty();
        proof {
            assert(parts@.map_values(|p: String| p@) =~= part_views);
        }
        if let Some(true) = self.bold {
            parts.push("bold".to_owned());
            proof {
                part_views = part_views.push("bold"@);
                assert(parts@.map_values(|p: String| p@) =~= part_views);
            }
        }
        if let Some(true) = self.italic {
            parts.push("italic".to_owned());
            proof {
                part_views = part_views.push("italic"@);
                assert(parts@.map_values(|p: String| p@) =~= part_views);
            }
        }
        if let Some(true) = self.underline {
            parts.push("underline".to_owned());
            proof {
                part_views = part_views.push("underline"@);
                assert(parts@.map_values(|p: String| p@) =~= part_views);
            }
        }
        if let Some(true) = self.strikethrough {
            parts.push("strikethrough".to_owned());
            proof {
                part_views = part_views.push("strikethrough"@);
                assert(parts@.map_values(|p: String| p@) =~= part_views);
            }
        }
        if let Some(true) = self.dim {
            parts.push("dim".to_owned());
            proof {
                part_views = part_views.push("dim"@);
                assert(parts@.map_values(|p: String| p@) =~= part_views);
            }
        }
        if let Some(true) = self.reverse {
            parts.push("reverse".to_owned());
            proof {
                part_views = part_views.push("reverse"@);
                assert(parts@.map_values(|p: String| p@) =~= part_views);
            }
        }
        if let Some(true) = self.blink {
            parts.push("blink".to_owned());
            proof {
                part_views = part_views.push("blink"@);
                assert(parts@.map_values(|p: String| p@) =~= part_views);
            }
        }
        if let Some(true) = self.hidden {
            parts.push("hidden".to_owned());
            proof {
                part_views = part_views.push("hidden"@);
                assert(parts@.map_values(|p: String| p@) =~= part_views);
            }
        }
        if let Some(color) = self.color {
            let mut part = String::new();
            part.append("color:");
            push_color_text(&mut part, color);
            proof {
                part_views = part_views.push("color:"@ + spec_color_text(color));
            }
            parts.push(part);
            proof {
                assert(parts@.map_values(|p: String| p@) =~= part_views);
            }
        }
        if let Some(background) = self.background {
            let mut part = String::new();
            part.append("bg:");
            push_color_text(&mut part, background);
            proof {
                part_views = part_views.push("bg:"@ + spec_color_text(background));
            }
            parts.push(part);
            proof {
                assert(parts@.map_values(|p: String| p@) =~= part_views);
            }
        }
        proof {
            assert(part_views =~= spec_style_parts(*self));
        }
        if parts.len() == 0 {
            let mut out = String::new();
            out.append("Style::new()");
            proof {
                assert(out@ =~= spec_display_style(*self));
            }
            out
        } else {
            let mut out = String::new();
            out.append("Style(");
            crate::chars::join_into(&mut out, &parts, " ");
            out.append(")");
            proof {
                assert(out@ =~= spec_display_style(*self));
            }
            out
        }
    }
}

} // verus!
