//! Color representation in four fidelity tiers, and downgrading between them.

use vstd::prelude::*;
use crate::chars::chars_of;
use crate::error::LuxorError;

verus! {

/// RGB color tuple type for convenience.
pub type Rgb = (u8, u8, u8);

/// Standard 16 colors supported by most terminals.
#[derive(Debug, Clone, Copy, PartialEq, Eq, Hash, Structural)]
pub enum StandardColor {
    Black,
    Red,
    Green,
    Yellow,
    Blue,
    Magenta,
    Cyan,
    White,
    BrightBlack,
    BrightRed,
    BrightGreen,
    BrightYellow,
    BrightBlue,
    BrightMagenta,
    BrightCyan,
    BrightWhite,
}

/// The ANSI foreground code of a standard color.
pub open spec fn spec_fg_code(c: StandardColor) -> u8 {
    match c {
        StandardColor::Black => 30,
        StandardColor::Red => 31,
        StandardColor::Green => 32,
        StandardColor::Yellow => 33,
        StandardColor::Blue => 34,
        StandardColor::Magenta => 35,
        StandardColor::Cyan => 36,
        StandardColor::White => 37,
        StandardColor::BrightBlack => 90,
        StandardColor::BrightRed => 91,
        StandardColor::BrightGreen => 92,
        StandardColor::BrightYellow => 93,
        StandardColor::BrightBlue => 94,
        StandardColor::BrightMagenta => 95,
        StandardColor::BrightCyan => 96,
        StandardColor::BrightWhite => 97,
    }
}

/// The ANSI background code of a standard color: the foreground code
/// shifted by ten.
pub open spec fn spec_bg_code(c: StandardColor) -> u8 {
    (spec_fg_code(c) + 10) as u8
}

/// The historical RGB approximation of a standard color.
pub open spec fn spec_standard_rgb(c: StandardColor) -> Rgb {
    match c {
        StandardColor::Black => (0u8, 0u8, 0u8),
        StandardColor::Red => (128u8, 0u8, 0u8),
        StandardColor::Green => (0u8, 128u8, 0u8),
        StandardColor::Yellow => (128u8, 128u8, 0u8),
        StandardColor::Blue => (0u8, 0u8, 128u8),
        StandardColor::Magenta => (128u8, 0u8, 128u8),
        StandardColor::Cyan => (0u8, 128u8, 128u8),
        StandardColor::White => (192u8, 192u8, 192u8),
        StandardColor::BrightBlack => (128u8, 128u8, 128u8),
        StandardColor::BrightRed => (255u8, 0u8, 0u8),
        StandardColor::BrightGreen => (0u8, 255u8, 0u8),
        StandardColor::BrightYellow => (255u8, 255u8, 0u8),
        StandardColor::BrightBlue => (0u8, 0u8, 255u8),
        StandardColor::BrightMagenta => (255u8, 0u8, 255u8),
        StandardColor::BrightCyan => (0u8, 255u8, 255u8),
        StandardColor::BrightWhite => (255u8, 255u8, 255u8),
    }
}

impl StandardColor {
    /// Get the ANSI color code for this standard color as foreground.
    pub fn ansi_fg_code(self) -> (r: u8)
        ensures
            r == spec_fg_code(self),
    {
        match self {
            StandardColor::Black => 30,
            StandardColor::Red => 31,
            StandardColor::Green => 32,
            StandardColor::Yellow => 33,
            StandardColor::Blue => 34,
            StandardColor::Magenta => 35,
            StandardColor::Cyan => 36,
            StandardColor::White => 37,
            StandardColor::BrightBlack => 90,
            StandardColor::BrightRed => 91,
            StandardColor::BrightGreen => 92,
            StandardColor::BrightYellow => 93,
            StandardColor::BrightBlue => 94,
            StandardColor::BrightMagenta => 95,
            StandardColor::BrightCyan => 96,
            StandardColor::BrightWhite => 97,
        }
    }

    /// Get the ANSI color code for this standard color as background.
    pub fn ansi_bg_code(self) -> (r: u8)
        ensures
            r == spec_bg_code(self),
    {
        self.ansi_fg_code() + 10
    }

    /// Convert to RGB values (approximation for standard colors).
    pub fn to_rgb(self) -> (r: Rgb)
        ensures
            r == spec_standard_rgb(self),
    {
        match self {
            StandardColor::Black => (0, 0, 0),
            StandardColor::Red => (128, 0, 0),
            StandardColor::Green => (0, 128, 0),
            StandardColor::Yellow => (128, 128, 0),
            StandardColor::Blue => (0, 0, 128),
            StandardColor::Magenta => (128, 0, 128),
            StandardColor::Cyan => (0, 128, 128),
            StandardColor::White => (192, 192, 192),
            StandardColor::BrightBlack => (128, 128, 128),
            StandardColor::BrightRed => (255, 0, 0),
            StandardColor::BrightGreen => (0, 255, 0),
            StandardColor::BrightYellow => (255, 255, 0),
            StandardColor::BrightBlue => (0, 0, 255),
            StandardColor::BrightMagenta => (255, 0, 255),
            StandardColor::BrightCyan => (0, 255, 255),
            StandardColor::BrightWhite => (255, 255, 255),
        }
    }
}

/// Color representation supporting different color modes.
#[derive(Debug, Clone, Copy, PartialEq, Eq, Hash, Structural)]
pub enum Color {
    /// Use the default terminal color.
    Default,
    /// One of the 16 standard colors.
    Standard(StandardColor),
    /// 8-bit color (256 color palette).
    EightBit(u8),
    /// 24-bit true color with RGB values.
    TrueColor { r: u8, g: u8, b: u8 },
}

impl Default for Color {
    /// The terminal's own color.
    fn default() -> (r: Self)
        ensures
            r == Color::Default,
    {
        Color::Default
    }
}

/// Terminal color system capabilities.
#[derive(Debug, Clone, Copy, PartialEq, Eq, Structural)]
pub enum ColorSystem {
    /// 16 standard colors.
    Standard,
    /// 256 colors (8-bit).
    EightBit,
    /// 16.7 million colors (24-bit true color).
    TrueColor,
}

/// The standard color at a palette index below 16; out-of-range indices
/// fall back to white.
pub open spec fn spec_standard_from_index(index: u8) -> StandardColor {
    if index == 0 {
        StandardColor::Black
    } else if index == 1 {
        StandardColor::Red
    } else if index == 2 {
        StandardColor::Green
    } else if index == 3 {
        StandardColor::Yellow
    } else if index == 4 {
        StandardColor::Blue
    } else if index == 5 {
        StandardColor::Magenta
    } else if index == 6 {
        StandardColor::Cyan
    } else if index == 7 {
        StandardColor::White
    } else if index == 8 {
        StandardColor::BrightBlack
    } else if index == 9 {
        StandardColor::BrightRed
    } else if index == 10 {
        StandardColor::BrightGreen
    } else if index == 11 {
        StandardColor::BrightYellow
    } else if index == 12 {
        StandardColor::BrightBlue
    } else if index == 13 {
        StandardColor::BrightMagenta
    } else if index == 14 {
        StandardColor::BrightCyan
    } else if index == 15 {
        StandardColor::BrightWhite
    } else {
        StandardColor::White
    }
}

/// The RGB value of an 8-bit palette index: the 16 standard colors, then a
/// 6x6x6 cube where axis value 0 maps to 0 and 1..5 map to `55 + 40*v`,
/// then a 24-step grayscale ramp `8 + 10*(index - 232)`.
pub open spec fn spec_eight_bit_rgb(index: u8) -> Rgb {
    if index < 16 {
        spec_standard_rgb(spec_standard_from_index(index))
    } else if index < 232 {
        let cube = index - 16;
        let r = cube / 36;
        let g = (cube % 36) / 6;
        let b = cube % 6;
        (spec_cube_channel(r as int), spec_cube_channel(g as int), spec_cube_channel(b as int))
    } else {
        let gray = (8 + (index - 232) * 10) as u8;
        (gray, gray, gray)
    }
}

/// One axis value of the 6x6x6 color cube.
pub open spec fn spec_cube_channel(v: int) -> u8 {
    if v == 0 {
        0u8
    } else {
        (55 + v * 40) as u8
    }
}

/// The RGB approximation of a color: mid-gray for the terminal default,
/// the historical table for standard colors, the palette formula for 8-bit
/// colors, and the triple itself for true colors.
pub open spec fn spec_color_rgb(c: Color) -> Rgb {
    match c {
        Color::Default => (128u8, 128u8, 128u8),
        Color::Standard(std_color) => spec_standard_rgb(std_color),
        Color::EightBit(index) => spec_eight_bit_rgb(index),
        Color::TrueColor { r, g, b } => (r, g, b),
    }
}

/// The closest 8-bit palette index for an RGB triple: very dark triples map
/// to the 8 dark standard slots, triples with a bright channel to the 8
/// bright slots when free, equal triples to the grayscale ramp, and the
/// rest to the nearest cube cell.
pub open spec fn spec_rgb_to_eight_bit(r: u8, g: u8, b: u8) -> u8 {
    if r < 8 && g < 8 && b < 8 {
        (spec_bit(r != 0) + spec_bit(g != 0) * 2 + spec_bit(b != 0) * 4) as u8
    } else if (r >= 128 || g >= 128 || b >= 128) && spec_bit(r >= 128) + spec_bit(g >= 128) * 2
        + spec_bit(b >= 128) * 4 < 8 {
        (spec_bit(r >= 128) + spec_bit(g >= 128) * 2 + spec_bit(b >= 128) * 4 + 8) as u8
    } else if r == g && g == b {
        if r < 8 {
            16u8
        } else if r > 238 {
            231u8
        } else {
            (232 + (r - 8) / 10) as u8
        }
    } else {
        (16 + 36 * spec_cube_index(r) + 6 * spec_cube_index(g) + spec_cube_index(b)) as u8
    }
}

/// One where the condition holds, zero where it does not.
pub open spec fn spec_bit(cond: bool) -> int {
    if cond {
        1
    } else {
        0
    }
}

/// The cube axis index of one channel, bucketing values below 48 to zero.
pub open spec fn spec_cube_index(v: u8) -> int {
    if v < 48 {
        0
    } else {
        (v - 35) / 40
    }
}

/// The squared Euclidean distance between two RGB triples.
pub open spec fn spec_rgb_distance2(a: Rgb, b: Rgb) -> int {
    (a.0 - b.0) * (a.0 - b.0) + (a.1 - b.1) * (a.1 - b.1) + (a.2 - b.2) * (a.2 - b.2)
}

/// The list of the 16 standard colors in their search order.
pub open spec fn spec_standard_order() -> Seq<StandardColor> {
    seq![
        StandardColor::Black,
        StandardColor::Red,
        StandardColor::Green,
        StandardColor::Yellow,
        StandardColor::Blue,
        StandardColor::Magenta,
        StandardColor::Cyan,
        StandardColor::White,
        StandardColor::BrightBlack,
        StandardColor::BrightRed,
        StandardColor::BrightGreen,
        StandardColor::BrightYellow,
        StandardColor::BrightBlue,
        StandardColor::BrightMagenta,
        StandardColor::BrightCyan,
        StandardColor::BrightWhite,
    ]
}

/// The rest of the nearest-neighbor search from position `i` with current
/// best candidate `best`: a later color replaces the candidate only when
/// strictly closer, so the first minimal distance wins.
pub open spec fn spec_closest_from(rgb: Rgb, i: int, best: StandardColor) -> StandardColor
    decreases 16 - i,
{
    if i >= 16 || i < 0 {
        best
    } else {
        let candidate = spec_standard_order()[i];
        if spec_rgb_distance2(spec_standard_rgb(candidate), rgb) < spec_rgb_distance2(
            spec_standard_rgb(best),
            rgb,
        ) {
            spec_closest_from(rgb, i + 1, candidate)
        } else {
            spec_closest_from(rgb, i + 1, best)
        }
    }
}

/// The standard color nearest to an RGB triple by Euclidean distance, ties
/// broken by search order.
pub open spec fn spec_closest_standard(r: u8, g: u8, b: u8) -> StandardColor {
    spec_closest_from((r, g, b), 1, StandardColor::Black)
}

/// The color obtained by downgrading `c` to the fidelity ceiling of
/// `system`; colors already within the ceiling are kept.
pub open spec fn spec_downgrade(c: Color, system: ColorSystem) -> Color {
    match system {
        ColorSystem::Standard => match c {
            Color::Default => Color::Default,
            Color::Standard(std_color) => Color::Standard(std_color),
            Color::EightBit(index) => if index < 16 {
                Color::Standard(spec_standard_from_index(index))
            } else {
                let rgb = spec_eight_bit_rgb(index);
                Color::Standard(spec_closest_standard(rgb.0, rgb.1, rgb.2))
            },
            Color::TrueColor { r, g, b } => Color::Standard(spec_closest_standard(r, g, b)),
        },
        ColorSystem::EightBit => match c {
            Color::TrueColor { r, g, b } => Color::EightBit(spec_rgb_to_eight_bit(r, g, b)),
            other => other,
        },
        ColorSystem::TrueColor => c,
    }
}

/// Downgrading to the full true-color ceiling changes no color.
pub proof fn lemma_downgrade_truecolor_identity(c: Color)
    ensures
        spec_downgrade(c, ColorSystem::TrueColor) == c,
{
}

/// Downgrading to the standard ceiling yields a standard color, except
/// that the terminal's own default stays the default.
pub proof fn lemma_downgrade_standard_variant(c: Color)
    ensures
        c is Default ==> spec_downgrade(c, ColorSystem::Standard) is Default,
        !(c is Default) ==> spec_downgrade(c, ColorSystem::Standard) is Standard,
{
}

/// The value of one hexadecimal digit, upper or lower case.
pub open spec fn spec_hex_digit(c: char) -> Option<u8> {
    if '0' <= c && c <= '9' {
        Some(((c as int) - ('0' as int)) as u8)
    } else if 'a' <= c && c <= 'f' {
        Some(((c as int) - ('a' as int) + 10) as u8)
    } else if 'A' <= c && c <= 'F' {
        Some(((c as int) - ('A' as int) + 10) as u8)
    } else {
        None
    }
}

/// A hex color string with every leading `#` removed.
pub open spec fn spec_strip_hashes(s: Seq<char>) -> Seq<char>
    decreases s.len(),
{
    if s.len() > 0 && s[0] == '#' {
        spec_strip_hashes(s.drop_first())
    } else {
        s
    }
}

/// The byte encoded by two hex digits, where both are valid.
pub open spec fn spec_hex_pair(hi: char, lo: char) -> Option<u8> {
    match (spec_hex_digit(hi), spec_hex_digit(lo)) {
        (Some(h), Some(l)) => Some((h * 16 + l) as u8),
        _ => None,
    }
}

/// The RGB triple denoted by a hex color string after `#` stripping:
/// three digits stand for doubled pairs, six digits for three pairs; any
/// other length, or any non-hex digit, denotes nothing.
pub open spec fn spec_parse_hex(s: Seq<char>) -> Option<Rgb> {
    let t = spec_strip_hashes(s);
    if t.len() == 3 {
        match (spec_hex_pair(t[0], t[0]), spec_hex_pair(t[1], t[1]), spec_hex_pair(t[2], t[2])) {
            (Some(r), Some(g), Some(b)) => Some((r, g, b)),
            _ => None,
        }
    } else if t.len() == 6 {
        match (spec_hex_pair(t[0], t[1]), spec_hex_pair(t[2], t[3]), spec_hex_pair(t[4], t[5])) {
            (Some(r), Some(g), Some(b)) => Some((r, g, b)),
            _ => None,
        }
    } else {
        None
    }
}

/// The complaint a failed hex parse carries: a bad digit where the
/// stripped string has a workable length, its length otherwise.
pub open spec fn spec_hex_error_message(s: Seq<char>) -> Seq<char> {
    let t = spec_strip_hashes(s);
    if t.len() == 3 || t.len() == 6 {
        "Invalid hex digit"@
    } else {
        "Hex color must be 3 or 6 characters long"@
    }
}

impl Color {
    /// Create a new true color from RGB values.
    pub fn rgb(r: u8, g: u8, b: u8) -> (c: Self)
        ensures
            c == (Color::TrueColor { r, g, b }),
    {
        Self::TrueColor { r, g, b }
    }

    /// Create a color from a hex string.
    ///
    /// Supports the formats `#RGB`, `#RRGGBB`, `RGB` and `RRGGBB`; any
    /// other length or a non-hex digit is a `Color` error.
    pub fn from_hex(hex: &str) -> (res: Result<Self, LuxorError>)
        ensures
            match spec_parse_hex(hex@) {
                Some(rgb) => res == Ok::<Color, LuxorError>(
                    Color::TrueColor { r: rgb.0, g: rgb.1, b: rgb.2 },
                ),
                None => (res matches Err(e) && e matches LuxorError::Color { message } && message@
                    == spec_hex_error_message(hex@)),
            },
    {
        let chars = chars_of(hex);
        Self::from_hex_chars(&chars)
    }

    /// Create a color from the characters of a hex string.
    pub(crate) fn from_hex_chars(chars: &Vec<char>) -> (res: Result<Self, LuxorError>)
        ensures
            match spec_parse_hex(chars@) {
                Some(rgb) => res == Ok::<Color, LuxorError>(
                    Color::TrueColor { r: rgb.0, g: rgb.1, b: rgb.2 },
                ),
                None => (res matches Err(e) && e matches LuxorError::Color { message } && message@
                    == spec_hex_error_message(chars@)),
            },
    {
        let mut start: usize = 0;
        while start < chars.len() && chars[start] == '#'
            invariant
                start <= chars@.len(),
                forall|j: int| 0 <= j < start ==> chars@[j] == '#',
            decreases chars@.len() - start,
        {
            start = start + 1;
        }
        proof {
            lemma_strip_hashes_index(chars@, start as int);
        }
        let len = chars.len() - start;
        if len == 3 {
            let d0 = hex_pair(chars[start], chars[start]);
            let d1 = hex_pair(chars[start + 1], chars[start + 1]);
            let d2 = hex_pair(chars[start + 2], chars[start + 2]);
            match (d0, d1, d2) {
                (Some(r), Some(g), Some(b)) => Ok(Self::rgb(r, g, b)),
                _ => Err(LuxorError::color("Invalid hex digit")),
            }
        } else if len == 6 {
            let d0 = hex_pair(chars[start], chars[start + 1]);
            let d1 = hex_pair(chars[start + 2], chars[start + 3]);
            let d2 = hex_pair(chars[start + 4], chars[start + 5]);
            match (d0, d1, d2) {
                (Some(r), Some(g), Some(b)) => Ok(Self::rgb(r, g, b)),
                _ => Err(LuxorError::color("Invalid hex digit")),
            }
        } else {
            Err(LuxorError::color("Hex color must be 3 or 6 characters long"))
        }
    }

    /// Convert this color to RGB values.
    ///
    /// For colors that don't have exact RGB equivalents (like `Default`),
    /// returns a reasonable approximation.
    pub fn to_rgb(self) -> (r: Rgb)
        ensures
            r == spec_color_rgb(self),
    {
        match self {
            Color::Default => (128, 128, 128),
            Color::Standard(std_color) => std_color.to_rgb(),
            Color::EightBit(index) => eight_bit_to_rgb(index),
            Color::TrueColor { r, g, b } => (r, g, b),
        }
    }

    /// Check if this color is the default color.
    pub fn is_default(self) -> (r: bool)
        ensures
            r == (self is Default),
    {
        match self {
            Color::Default => true,
            _ => false,
        }
    }

    /// Convert RGB color to the closest 8-bit color index.
    pub fn rgb_to_eight_bit(r: u8, g: u8, b: u8) -> (index: u8)
        ensures
            index == spec_rgb_to_eight_bit(r, g, b),
    {
        if r < 8 && g < 8 && b < 8 {
            let rb: u8 = if r != 0 { 1 } else { 0 };
            let gb: u8 = if g != 0 { 1 } else { 0 };
            let bb: u8 = if b != 0 { 1 } else { 0 };
            return rb + gb * 2 + bb * 4;
        }
        if r >= 128 || g >= 128 || b >= 128 {
            let rb: u8 = if r >= 128 { 1 } else { 0 };
            let gb: u8 = if g >= 128 { 1 } else { 0 };
            let bb: u8 = if b >= 128 { 1 } else { 0 };
            let standard = rb + gb * 2 + bb * 4;
            if standard < 8 {
                return standard + 8;
            }
        }
        if r == g && g == b {
            if r < 8 {
                return 16;
            }
            if r > 238 {
                return 231;
            }
            return 232 + (r - 8) / 10;
        }
        let r_index = if r < 48 { 0 } else { (r - 35) / 40 };
        let g_index = if g < 48 { 0 } else { (g - 35) / 40 };
        let b_index = if b < 48 { 0 } else { (b - 35) / 40 };
        assert(r_index as int == spec_cube_index(r) && r_index <= 5) by (nonlinear_arith)
            requires
                r_index as int == (if r < 48 { 0int } else { ((r as int) - 35) / 40 }),
                r <= 255,
        ;
        assert(g_index as int == spec_cube_index(g) && g_index <= 5) by (nonlinear_arith)
            requires
                g_index as int == (if g < 48 { 0int } else { ((g as int) - 35) / 40 }),
                g <= 255,
        ;
        assert(b_index as int == spec_cube_index(b) && b_index <= 5) by (nonlinear_arith)
            requires
                b_index as int == (if b < 48 { 0int } else { ((b as int) - 35) / 40 }),
                b <= 255,
        ;
        16 + 36 * r_index + 6 * g_index + b_index
    }

    /// Downgrade this color to match the given color system capability.
    pub fn downgrade(self, color_system: ColorSystem) -> (r: Self)
        ensures
            r == spec_downgrade(self, color_system),
    {
        match color_system {
            ColorSystem::Standard => match self {
                Color::Default => Color::Default,
                Color::Standard(std_color) => Color::Standard(std_color),
                Color::EightBit(index) => {
                    if index < 16 {
                        Color::Standard(standard_from_index(index))
                    } else {
                        let (r, g, b) = eight_bit_to_rgb(index);
                        Color::Standard(closest_standard_color(r, g, b))
                    }
                },
                Color::TrueColor { r, g, b } => Color::Standard(closest_standard_color(r, g, b)),
            },
            ColorSystem::EightBit => match self {
                Color::TrueColor { r, g, b } => Color::EightBit(Self::rgb_to_eight_bit(r, g, b)),
                other => other,
            },
            ColorSystem::TrueColor => self,
        }
    }
}

/// Parse two hex digit characters into one byte.
fn hex_pair(hi: char, lo: char) -> (r: Option<u8>)
    ensures
        r == spec_hex_pair(hi, lo),
{
    match (hex_digit(hi), hex_digit(lo)) {
        (Some(h), Some(l)) => Some(h * 16 + l),
        _ => None,
    }
}

/// Parse one hex digit character.
fn hex_digit(c: char) -> (r: Option<u8>)
    ensures
        r == spec_hex_digit(c),
{
    if '0' <= c && c <= '9' {
        Some(((c as u32) - ('0' as u32)) as u8)
    } else if 'a' <= c && c <= 'f' {
        Some(((c as u32) - ('a' as u32) + 10) as u8)
    } else if 'A' <= c && c <= 'F' {
        Some(((c as u32) - ('A' as u32) + 10) as u8)
    } else {
        None
    }
}

/// Where the first `k` characters are `#` and the character at `k` (if
/// any) is not, stripping the hashes keeps exactly the tail from `k`.
proof fn lemma_strip_hashes_index(s: Seq<char>, k: int)
    requires
        0 <= k <= s.len(),
        forall|j: int| 0 <= j < k ==> s[j] == '#',
        k == s.len() || s[k] != '#',
    ensures
        spec_strip_hashes(s) == s.subrange(k, s.len() as int),
    decreases k,
{
    if k == 0 {
        assert(s.subrange(0, s.len() as int) =~= s);
    } else {
        lemma_strip_hashes_index(s.drop_first(), k - 1);
        assert(s.drop_first().subrange(k - 1, s.drop_first().len() as int) =~= s.subrange(
            k,
            s.len() as int,
        ));
    }
}

/// Convert an 8-bit color index to RGB values.
fn eight_bit_to_rgb(index: u8) -> (rgb: Rgb)
    ensures
        rgb == spec_eight_bit_rgb(index),
{
    if index < 16 {
        standard_from_index(index).to_rgb()
    } else if index < 232 {
        let cube = index - 16;
        let r = cube / 36;
        let g = (cube % 36) / 6;
        let b = cube % 6;
        let r = if r == 0 { 0 } else { 55 + r * 40 };
        let g = if g == 0 { 0 } else { 55 + g * 40 };
        let b = if b == 0 { 0 } else { 55 + b * 40 };
        (r, g, b)
    } else {
        let gray = 8 + (index - 232) * 10;
        (gray, gray, gray)
    }
}

/// Convert an index (0-15) to a standard color.
fn standard_from_index(index: u8) -> (r: StandardColor)
    ensures
        r == spec_standard_from_index(index),
{
    if index == 0 {
        StandardColor::Black
    } else if index == 1 {
        StandardColor::Red
    } else if index == 2 {
        StandardColor::Green
    } else if index == 3 {
        StandardColor::Yellow
    } else if index == 4 {
        StandardColor::Blue
    } else if index == 5 {
        StandardColor::Magenta
    } else if index == 6 {
        StandardColor::Cyan
    } else if index == 7 {
        StandardColor::White
    } else if index == 8 {
        StandardColor::BrightBlack
    } else if index == 9 {
        StandardColor::BrightRed
    } else if index == 10 {
        StandardColor::BrightGreen
    } else if index == 11 {
        StandardColor::BrightYellow
    } else if index == 12 {
        StandardColor::BrightBlue
    } else if index == 13 {
        StandardColor::BrightMagenta
    } else if index == 14 {
        StandardColor::BrightCyan
    } else if index == 15 {
        StandardColor::BrightWhite
    } else {
        StandardColor::White
    }
}

/// Find the closest standard color to the given RGB values; distances are
/// compared squared, which orders them exactly as their square roots do.
fn closest_standard_color(r: u8, g: u8, b: u8) -> (best: StandardColor)
    ensures
        best == spec_closest_standard(r, g, b),
{
    let colors: [StandardColor; 16] = [
        StandardColor::Black,
        StandardColor::Red,
        StandardColor::Green,
        StandardColor::Yellow,
        StandardColor::Blue,
        StandardColor::Magenta,
        StandardColor::Cyan,
        StandardColor::White,
        StandardColor::BrightBlack,
        StandardColor::BrightRed,
        StandardColor::BrightGreen,
        StandardColor::BrightYellow,
        StandardColor::BrightBlue,
        StandardColor::BrightMagenta,
        StandardColor::BrightCyan,
        StandardColor::BrightWhite,
    ];
    let mut best = StandardColor::Black;
    let mut best_distance = rgb_distance2(StandardColor::Black.to_rgb(), (r, g, b));
    let mut i: usize = 1;
    while i < 16
        invariant
            1 <= i <= 16,
            forall|j: int| 0 <= j < 16 ==> colors@[j] == spec_standard_order()[j],
            best_distance == spec_rgb_distance2(spec_standard_rgb(best), (r, g, b)),
            spec_closest_standard(r, g, b) == spec_closest_from((r, g, b), i as int, best),
        decreases 16 - i,
    {
        let candidate = colors[i];
        let distance = rgb_distance2(candidate.to_rgb(), (r, g, b));
        if distance < best_distance {
            best = candidate;
            best_distance = distance;
        }
        i = i + 1;
    }
    best
}

/// The squared distance between two RGB triples, in exec code.
fn rgb_distance2(a: Rgb, b: Rgb) -> (d: u32)
    ensures
        d as int == spec_rgb_distance2(a, b),
{
    let dr = if a.0 >= b.0 { (a.0 - b.0) as u32 } else { (b.0 - a.0) as u32 };
    let dg = if a.1 >= b.1 { (a.1 - b.1) as u32 } else { (b.1 - a.1) as u32 };
    let db = if a.2 >= b.2 { (a.2 - b.2) as u32 } else { (b.2 - a.2) as u32 };
    assert(dr * dr + dg * dg + db * db <= 255 * 255 * 3 && dr * dr == (a.0 - b.0) * (a.0 - b.0)
        && dg * dg == (a.1 - b.1) * (a.1 - b.1) && db * db == (a.2 - b.2) * (a.2 - b.2)) by (nonlinear_arith)
        requires
            dr == if a.0 >= b.0 { (a.0 - b.0) as u32 } else { (b.0 - a.0) as u32 },
            dg == if a.1 >= b.1 { (a.1 - b.1) as u32 } else { (b.1 - a.1) as u32 },
            db == if a.2 >= b.2 { (a.2 - b.2) as u32 } else { (b.2 - a.2) as u32 },
            a.0 <= 255 && b.0 <= 255 && a.1 <= 255 && b.1 <= 255 && a.2 <= 255 && b.2 <= 255,
    ;
    dr * dr + dg * dg + db * db
}

} // verus!
