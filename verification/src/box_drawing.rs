//! Unicode box drawing utilities for creating borders and frames.

use vstd::prelude::*;
use crate::chars::{push_repeated, spec_repeat_char};
use crate::error::LuxorError;
use crate::segment::Segment;
use crate::style::{spec_empty_style, Style};

verus! {

/// Type alias for box drawing results.
pub type BoxDrawingResult = core::result::Result<Vec<BoxSegment>, LuxorError>;

/// Unicode box drawing characters for different border styles.
#[derive(Debug, Clone, Copy, PartialEq, Eq, Structural)]
pub struct BoxChars {
    /// Top-left corner character.
    pub top_left: char,
    /// Top-right corner character.
    pub top_right: char,
    /// Bottom-left corner character.
    pub bottom_left: char,
    /// Bottom-right corner character.
    pub bottom_right: char,
    /// Horizontal line character.
    pub horizontal: char,
    /// Vertical line character.
    pub vertical: char,
    /// Top tee (for intersections).
    pub top_tee: char,
    /// Bottom tee (for intersections).
    pub bottom_tee: char,
    /// Left tee (for intersections).
    pub left_tee: char,
    /// Right tee (for intersections).
    pub right_tee: char,
    /// Cross (for intersections).
    pub cross: char,
}

/// The character set of single-line borders.
pub open spec fn spec_single_chars() -> BoxChars {
    BoxChars {
        top_left: '┌',
        top_right: '┐',
        bottom_left: '└',
        bottom_right: '┘',
        horizontal: '─',
        vertical: '│',
        top_tee: '┬',
        bottom_tee: '┴',
        left_tee: '├',
        right_tee: '┤',
        cross: '┼',
    }
}

/// The character set of double-line borders.
pub open spec fn spec_double_chars() -> BoxChars {
    BoxChars {
        top_left: '╔',
        top_right: '╗',
        bottom_left: '╚',
        bottom_right: '╝',
        horizontal: '═',
        vertical: '║',
        top_tee: '╦',
        bottom_tee: '╩',
        left_tee: '╠',
        right_tee: '╣',
        cross: '╬',
    }
}

/// The character set of rounded-corner borders.
pub open spec fn spec_rounded_chars() -> BoxChars {
    BoxChars {
        top_left: '╭',
        top_right: '╮',
        bottom_left: '╰',
        bottom_right: '╯',
        horizontal: '─',
        vertical: '│',
        top_tee: '┬',
        bottom_tee: '┴',
        left_tee: '├',
        right_tee: '┤',
        cross: '┼',
    }
}

/// The character set of thick borders.
pub open spec fn spec_thick_chars() -> BoxChars {
    BoxChars {
        top_left: '┏',
        top_right: '┓',
        bottom_left: '┗',
        bottom_right: '┛',
        horizontal: '━',
        vertical: '┃',
        top_tee: '┳',
        bottom_tee: '┻',
        left_tee: '┣',
        right_tee: '┫',
        cross: '╋',
    }
}

/// The ASCII fallback character set.
pub open spec fn spec_ascii_chars() -> BoxChars {
    BoxChars {
        top_left: '+',
        top_right: '+',
        bottom_left: '+',
        bottom_right: '+',
        horizontal: '-',
        vertical: '|',
        top_tee: '+',
        bottom_tee: '+',
        left_tee: '+',
        right_tee: '+',
        cross: '+',
    }
}

impl BoxChars {
    /// Get box characters for single-line borders.
    pub fn single() -> (r: Self)
        ensures
            r == spec_single_chars(),
    {
        BoxChars {
        top_left: '┌',
        top_right: '┐',
        bottom_left: '└',
        bottom_right: '┘',
        horizontal: '─',
        vertical: '│',
        top_tee: '┬',
        bottom_tee: '┴',
        left_tee: '├',
        right_tee: '┤',
        cross: '┼',
    }
    }

    /// Get box characters for double-line borders.
    pub fn double() -> (r: Self)
        ensures
            r == spec_double_chars(),
    {
        BoxChars {
        top_left: '╔',
        top_right: '╗',
        bottom_left: '╚',
        bottom_right: '╝',
        horizontal: '═',
        vertical: '║',
        top_tee: '╦',
        bottom_tee: '╩',
        left_tee: '╠',
        right_tee: '╣',
        cross: '╬',
    }
    }

    /// Get box characters for rounded corners.
    pub fn rounded() -> (r: Self)
        ensures
            r == spec_rounded_chars(),
    {
        BoxChars {
        top_left: '╭',
        top_right: '╮',
        bottom_left: '╰',
        bottom_right: '╯',
        horizontal: '─',
        vertical: '│',
        top_tee: '┬',
        bottom_tee: '┴',
        left_tee: '├',
        right_tee: '┤',
        cross: '┼',
    }
    }

    /// Get box characters for thick borders.
    pub fn thick() -> (r: Self)
        ensures
            r == spec_thick_chars(),
    {
        BoxChars {
        top_left: '┏',
        top_right: '┓',
        bottom_left: '┗',
        bottom_right: '┛',
        horizontal: '━',
        vertical: '┃',
        top_tee: '┳',
        bottom_tee: '┻',
        left_tee: '┣',
        right_tee: '┫',
        cross: '╋',
    }
    }

    /// Get ASCII fallback characters for compatibility.
    pub fn ascii() -> (r: Self)
        ensures
            r == spec_ascii_chars(),
    {
        BoxChars {
        top_left: '+',
        top_right: '+',
        bottom_left: '+',
        bottom_right: '+',
        horizontal: '-',
        vertical: '|',
        top_tee: '+',
        bottom_tee: '+',
        left_tee: '+',
        right_tee: '+',
        cross: '+',
    }
    }
}

/// Border styles available for drawing boxes.
#[derive(Debug, Clone, Copy, PartialEq, Eq, Structural)]
pub enum BorderStyle {
    /// No border.
    Hidden,
    /// Single-line border.
    Single,
    /// Double-line border.
    Double,
    /// Rounded corners border.
    Rounded,
    /// Thick border.
    Thick,
    /// ASCII compatible border.
    Ascii,
}

/// The character set of a border style, none for the invisible style.
pub open spec fn spec_border_chars(style: BorderStyle) -> Option<BoxChars> {
    match style {
        BorderStyle::Hidden => None,
        BorderStyle::Single => Some(spec_single_chars()),
        BorderStyle::Double => Some(spec_double_chars()),
        BorderStyle::Rounded => Some(spec_rounded_chars()),
        BorderStyle::Thick => Some(spec_thick_chars()),
        BorderStyle::Ascii => Some(spec_ascii_chars()),
    }
}

impl BorderStyle {
    /// Get the box characters for this border style.
    pub fn chars(&self) -> (r: Option<BoxChars>)
        ensures
            r == spec_border_chars(*self),
    {
        match self {
            Self::Hidden => None,
            Self::Single => Some(BoxChars::single()),
            Self::Double => Some(BoxChars::double()),
            Self::Rounded => Some(BoxChars::rounded()),
            Self::Thick => Some(BoxChars::thick()),
            Self::Ascii => Some(BoxChars::ascii()),
        }
    }

    /// Check if this border style is visible.
    pub fn is_visible(&self) -> (r: bool)
        ensures
            r == !(*self is Hidden),
    {
        match self {
            Self::Hidden => false,
            _ => true,
        }
    }

    /// Get the border thickness (width/height) for layout calculations.
    pub fn thickness(&self) -> (r: usize)
        ensures
            r == spec_thickness(*self),
    {
        match self {
            Self::Hidden => 0,
            _ => 1,
        }
    }
}

/// The thickness of a border style: one where visible, zero otherwise.
pub open spec fn spec_thickness(style: BorderStyle) -> usize {
    if style is Hidden {
        0usize
    } else {
        1usize
    }
}

impl Default for BorderStyle {
    /// A single-line border.
    fn default() -> (r: Self)
        ensures
            r == BorderStyle::Single,
    {
        Self::Single
    }
}

/// Represents which sides of a box should have borders.
#[derive(Debug, Clone, Copy, PartialEq, Eq, Structural)]
pub struct BorderSides {
    /// Draw top border.
    pub top: bool,
    /// Draw right border.
    pub right: bool,
    /// Draw bottom border.
    pub bottom: bool,
    /// Draw left border.
    pub left: bool,
}

impl BorderSides {
    /// Create border sides with all sides enabled.
    pub fn all() -> (r: Self)
        ensures
            r == (BorderSides { top: true, right: true, bottom: true, left: true }),
    {
        Self { top: true, right: true, bottom: true, left: true }
    }

    /// Create border sides with no sides enabled.
    pub fn none() -> (r: Self)
        ensures
            r == (BorderSides { top: false, right: false, bottom: false, left: false }),
    {
        Self { top: false, right: false, bottom: false, left: false }
    }

    /// Create border sides with only horizontal borders (top and bottom).
    pub fn horizontal() -> (r: Self)
        ensures
            r == (BorderSides { top: true, right: false, bottom: true, left: false }),
    {
        Self { top: true, right: false, bottom: true, left: false }
    }

    /// Create border sides with only vertical borders (left and right).
    pub fn vertical() -> (r: Self)
        ensures
            r == (BorderSides { top: false, right: true, bottom: false, left: true }),
    {
        Self { top: false, right: true, bottom: false, left: true }
    }

    /// Create border sides with individual side settings.
    pub fn new(top: bool, right: bool, bottom: bool, left: bool) -> (r: Self)
        ensures
            r == (BorderSides { top, right, bottom, left }),
    {
        Self { top, right, bottom, left }
    }

    /// Check if any side has a border.
    pub fn has_border(&self) -> (r: bool)
        ensures
            r == (self.top || self.right || self.bottom || self.left),
    {
        self.top || self.right || self.bottom || self.left
    }

    /// Get the total horizontal border width (left + right).
    pub fn horizontal_width(&self, style: BorderStyle) -> (r: usize)
        ensures
            r == spec_horizontal_width(*self, style),
    {
        let thickness = style.thickness();
        let left_width = if self.left { thickness } else { 0 };
        let right_width = if self.right { thickness } else { 0 };
        left_width + right_width
    }

    /// Get the total vertical border height (top + bottom).
    pub fn vertical_height(&self, style: BorderStyle) -> (r: usize)
        ensures
            r == spec_vertical_height(*self, style),
    {
        let thickness = style.thickness();
        let top_height = if self.top { thickness } else { 0 };
        let bottom_height = if self.bottom { thickness } else { 0 };
        top_height + bottom_height
    }
}

/// The width the left and right borders take together.
pub open spec fn spec_horizontal_width(sides: BorderSides, style: BorderStyle) -> usize {
    ((if sides.left {
        spec_thickness(style) as int
    } else {
        0
    }) + (if sides.right {
        spec_thickness(style) as int
    } else {
        0
    })) as usize
}

/// The height the top and bottom borders take together.
pub open spec fn spec_vertical_height(sides: BorderSides, style: BorderStyle) -> usize {
    ((if sides.top {
        spec_thickness(style) as int
    } else {
        0
    }) + (if sides.bottom {
        spec_thickness(style) as int
    } else {
        0
    })) as usize
}

impl Default for BorderSides {
    /// All four sides.
    fn default() -> (r: Self)
        ensures
            r == (BorderSides { top: true, right: true, bottom: true, left: true }),
    {
        Self::all()
    }
}

/// Configuration for drawing a box border.
#[derive(Debug, Clone, Copy)]
pub struct BoxConfig {
    /// Border style.
    pub style: BorderStyle,
    /// Which sides to draw.
    pub sides: BorderSides,
    /// Style for the border (color, etc.).
    pub border_style: Style,
}

impl BoxConfig {
    /// Create a new box configuration with all sides and no extra style.
    pub fn new(style: BorderStyle) -> (r: Self)
        ensures
            r.style == style,
            r.sides == (BorderSides { top: true, right: true, bottom: true, left: true }),
            r.border_style == spec_empty_style(),
    {
        Self { style, sides: BorderSides::all(), border_style: Style::default() }
    }

    /// Set which sides to draw.
    pub fn with_sides(self, sides: BorderSides) -> (r: Self)
        ensures
            r == (BoxConfig { sides, ..self }),
    {
        Self { sides, ..self }
    }

    /// Set the border style (color, etc.).
    pub fn with_border_style(self, style: Style) -> (r: Self)
        ensures
            r == (BoxConfig { border_style: style, ..self }),
    {
        Self { border_style: style, ..self }
    }

    /// Check if this configuration will draw any border.
    pub fn is_visible(&self) -> (r: bool)
        ensures
            r == spec_config_visible(*self),
    {
        self.style.is_visible() && self.sides.has_border()
    }

    /// Get the total border width needed for layout.
    pub fn total_width(&self) -> (r: usize)
        ensures
            r == spec_horizontal_width(self.sides, self.style),
    {
        self.sides.horizontal_width(self.style)
    }

    /// Get the total border height needed for layout.
    pub fn total_height(&self) -> (r: usize)
        ensures
            r == spec_vertical_height(self.sides, self.style),
    {
        self.sides.vertical_height(self.style)
    }
}

/// Whether the configuration draws anything: a visible style and at least
/// one side.
pub open spec fn spec_config_visible(config: BoxConfig) -> bool {
    !(config.style is Hidden) && (config.sides.top || config.sides.right || config.sides.bottom
        || config.sides.left)
}

impl Default for BoxConfig {
    /// A single-line border on all sides.
    fn default() -> (r: Self)
        ensures
            r.style == BorderStyle::Single,
            r.sides == (BorderSides { top: true, right: true, bottom: true, left: true }),
            r.border_style == spec_empty_style(),
    {
        Self::new(BorderStyle::Single)
    }
}

/// Type of box border segment.
#[derive(Debug, Clone, Copy, PartialEq, Eq, Structural)]
pub enum BoxSegmentType {
    /// Top border line.
    TopBorder,
    /// Bottom border line.
    BottomBorder,
    /// Left border character.
    LeftBorder,
    /// Right border character.
    RightBorder,
}

/// A segment that represents part of a box border.
#[derive(Debug, Clone)]
pub struct BoxSegment {
    /// The text content of this segment.
    pub content: String,
    /// X position (column) where this segment should be placed.
    pub x: usize,
    /// Y position (row) where this segment should be placed.
    pub y: usize,
    /// Style to apply to this segment.
    pub style: Style,
    /// Type of border segment.
    pub segment_type: BoxSegmentType,
}

impl BoxSegment {
    /// Convert this box segment to a regular rendering segment.
    pub fn to_segment(&self) -> (r: Segment)
        ensures
            r.text@ == self.content@,
            r.style == self.style,
            r.control is None,
    {
        Segment::new(self.content.clone(), self.style)
    }
}

/// The mathematical form of a box segment: its characters, position,
/// style and kind.
pub type BoxPiece = (Seq<char>, usize, usize, Style, BoxSegmentType);

/// The top or bottom line of a box: the left corner where the left side
/// is drawn, the horizontal character repeated over the width, the right
/// corner where the right side is drawn.
pub open spec fn spec_box_line(
    left: Option<char>,
    horizontal: char,
    width: int,
    right: Option<char>,
) -> Seq<char> {
    let lead: Seq<char> = match left {
        Some(c) => seq![c],
        None => Seq::empty(),
    };
    let tail: Seq<char> = match right {
        Some(c) => seq![c],
        None => Seq::empty(),
    };
    lead + spec_repeat_char(horizontal, width) + tail
}

/// The side-border pieces of the rows from `row` up to `height`.
pub open spec fn spec_side_rows(
    width: int,
    height: int,
    row: int,
    config: BoxConfig,
    chars: BoxChars,
) -> Seq<BoxPiece>
    decreases height - row,
{
    if row >= height {
        Seq::empty()
    } else {
        let y = if config.sides.top {
            row + 1
        } else {
            row
        };
        let lefts: Seq<BoxPiece> = if config.sides.left {
            seq![
                (
                    seq![chars.vertical],
                    0usize,
                    y as usize,
                    config.border_style,
                    BoxSegmentType::LeftBorder,
                ),
            ]
        } else {
            Seq::empty()
        };
        let rights: Seq<BoxPiece> = if config.sides.right {
            let x = if config.sides.left {
                width + 1
            } else {
                width
            };
            seq![
                (
                    seq![chars.vertical],
                    x as usize,
                    y as usize,
                    config.border_style,
                    BoxSegmentType::RightBorder,
                ),
            ]
        } else {
            Seq::empty()
        };
        lefts + rights + spec_side_rows(width, height, row + 1, config, chars)
    }
}

/// The pieces of a box border of the given inner dimensions: nothing for
/// an invisible configuration or a box too small to draw, otherwise the
/// top line, the side borders row by row, and the bottom line, as the
/// configuration's sides ask.
pub open spec fn spec_box_pieces(width: int, height: int, config: BoxConfig) -> Seq<BoxPiece> {
    if !spec_config_visible(config) {
        Seq::empty()
    } else {
        let chars = spec_border_chars(config.style)->0;
        let total_width = width + spec_horizontal_width(config.sides, config.style);
        let total_height = height + spec_vertical_height(config.sides, config.style);
        if total_width < 2 || total_height < 2 {
            Seq::empty()
        } else {
            let top: Seq<BoxPiece> = if config.sides.top {
                seq![
                    (
                        spec_box_line(
                            if config.sides.left {
                                Some(chars.top_left)
                            } else {
                                None
                            },
                            chars.horizontal,
                            width,
                            if config.sides.right {
                                Some(chars.top_right)
                            } else {
                                None
                            },
                        ),
                        0usize,
                        0usize,
                        config.border_style,
                        BoxSegmentType::TopBorder,
                    ),
                ]
            } else {
                Seq::empty()
            };
            let bottom: Seq<BoxPiece> = if config.sides.bottom {
                let y = if config.sides.top {
                    height + 1
                } else {
                    height
                };
                seq![
                    (
                        spec_box_line(
                            if config.sides.left {
                                Some(chars.bottom_left)
                            } else {
                                None
                            },
                            chars.horizontal,
                            width,
                            if config.sides.right {
                                Some(chars.bottom_right)
                            } else {
                                None
                            },
                        ),
                        0usize,
                        y as usize,
                        config.border_style,
                        BoxSegmentType::BottomBorder,
                    ),
                ]
            } else {
                Seq::empty()
            };
            top + spec_side_rows(width, height, 0, config, chars) + bottom
        }
    }
}

/// True of a list of box segments matching the given pieces one for one.
pub open spec fn spec_matches_pieces(segments: Seq<BoxSegment>, pieces: Seq<BoxPiece>) -> bool {
    segments.len() == pieces.len() && forall|i: int|
        0 <= i < segments.len() ==> (#[trigger] segments[i]).content@ == pieces[i].0
            && segments[i].x == pieces[i].1 && segments[i].y == pieces[i].2 && segments[i].style
            == pieces[i].3 && segments[i].segment_type == pieces[i].4
}

/// Draw a box border with the given inner dimensions and configuration;
/// the segments carry their positions for later placement.
pub fn draw_box(width: usize, height: usize, config: &BoxConfig) -> (res: BoxDrawingResult)
    requires
        width + 2 <= usize::MAX,
        height + 2 <= usize::MAX,
    ensures
        (res matches Ok(segments) && spec_matches_pieces(
            segments@,
            spec_box_pieces(width as int, height as int, *config),
        )),
{
    let ghost pieces = spec_box_pieces(width as int, height as int, *config);
    if !config.is_visible() {
        let segments: Vec<BoxSegment> = Vec::new();
        proof {
            assert(segments@.len() == pieces.len());
        }
        return Ok(segments);
    }
    let chars = match config.style.chars() {
        Some(c) => c,
        None => {
            proof {
                assert(false);
            }
            return Err(LuxorError::rendering("Border style has no characters"));
        },
    };
    let mut segments: Vec<BoxSegment> = Vec::new();
    let total_width = width + config.total_width();
    let total_height = height + config.total_height();
    if total_width < 2 || total_height < 2 {
        proof {
            assert(segments@.len() == pieces.len());
        }
        return Ok(segments);
    }
    let ghost bottom_pieces: Seq<BoxPiece> = if config.sides.bottom {
        let y = if config.sides.top {
            height + 1
        } else {
            height as int
        };
        seq![
            (
                spec_box_line(
                    if config.sides.left {
                        Some(chars.bottom_left)
                    } else {
                        None
                    },
                    chars.horizontal,
                    width as int,
                    if config.sides.right {
                        Some(chars.bottom_right)
                    } else {
                        None
                    },
                ),
                0usize,
                y as usize,
                config.border_style,
                BoxSegmentType::BottomBorder,
            ),
        ]
    } else {
        Seq::empty()
    };
    let ghost mut done = Seq::<BoxPiece>::empty();
    if config.sides.top {
        let mut top_line = String::new();
        if config.sides.left {
            top_line.push(chars.top_left);
        }
        push_repeated(&mut top_line, chars.horizontal, width);
        if config.sides.right {
            top_line.push(chars.top_right);
        }
        let ghost top_piece = (
            spec_box_line(
                if config.sides.left {
                    Some(chars.top_left)
                } else {
                    None
                },
                chars.horizontal,
                width as int,
                if config.sides.right {
                    Some(chars.top_right)
                } else {
                    None
                },
            ),
            0usize,
            0usize,
            config.border_style,
            BoxSegmentType::TopBorder,
        );
        proof {
            assert(top_line@ =~= top_piece.0);
        }
        segments.push(
            BoxSegment {
                content: top_line,
                x: 0,
                y: 0,
                style: config.border_style,
                segment_type: BoxSegmentType::TopBorder,
            },
        );
        proof {
            done = done.push(top_piece);
        }
    }
    proof {
        assert(pieces =~= done + spec_side_rows(width as int, height as int, 0, *config, chars)
            + bottom_pieces);
        assert(spec_matches_pieces(segments@, done));
    }
    let mut row: usize = 0;
    while row < height
        invariant
            row <= height,
            width + 2 <= usize::MAX,
            height + 2 <= usize::MAX,
            chars == spec_border_chars(config.style)->0,
            spec_matches_pieces(segments@, done),
            pieces == done + spec_side_rows(width as int, height as int, row as int, *config, chars)
                + bottom_pieces,
        decreases height - row,
    {
        let ghost remaining = spec_side_rows(
            width as int,
            height as int,
            row as int,
            *config,
            chars,
        );
        let y = if config.sides.top { row + 1 } else { row };
        if config.sides.left {
            let mut piece = String::new();
            piece.push(chars.vertical);
            proof {
                assert(piece@ =~= seq![chars.vertical]);
            }
            segments.push(
                BoxSegment {
                    content: piece,
                    x: 0,
                    y,
                    style: config.border_style,
                    segment_type: BoxSegmentType::LeftBorder,
                },
            );
            proof {
                done = done.push(
                    (
                        seq![chars.vertical],
                        0usize,
                        y as usize,
                        config.border_style,
                        BoxSegmentType::LeftBorder,
                    ),
                );
                assert(spec_matches_pieces(segments@, done));
            }
        }
        if config.sides.right {
            let x = if config.sides.left { width + 1 } else { width };
            let mut piece = String::new();
            piece.push(chars.vertical);
            proof {
                assert(piece@ =~= seq![chars.vertical]);
            }
            segments.push(
                BoxSegment {
                    content: piece,
                    x,
                    y,
                    style: config.border_style,
                    segment_type: BoxSegmentType::RightBorder,
                },
            );
            proof {
                done = done.push(
                    (
                        seq![chars.vertical],
                        x as usize,
                        y as usize,
                        config.border_style,
                        BoxSegmentType::RightBorder,
                    ),
                );
                assert(spec_matches_pieces(segments@, done));
            }
        }
        row = row + 1;
        proof {
            assert(pieces =~= done + spec_side_rows(
                width as int,
                height as int,
                row as int,
                *config,
                chars,
            ) + bottom_pieces);
        }
    }
    proof {
        assert(spec_side_rows(width as int, height as int, height as int, *config, chars)
            =~= Seq::<BoxPiece>::empty());
        assert(pieces =~= done + bottom_pieces);
    }
    if config.sides.bottom {
        let y = if config.sides.top { height + 1 } else { height };
        let mut bottom_line = String::new();
        if config.sides.left {
            bottom_line.push(chars.bottom_left);
        }
        push_repeated(&mut bottom_line, chars.horizontal, width);
        if config.sides.right {
            bottom_line.push(chars.bottom_right);
        }
        proof {
            assert(bottom_line@ =~= bottom_pieces[0].0);
        }
        segments.push(
            BoxSegment {
                content: bottom_line,
                x: 0,
                y,
                style: config.border_style,
                segment_type: BoxSegmentType::BottomBorder,
            },
        );
        proof {
            done = done.push(bottom_pieces[0]);
            assert(spec_matches_pieces(segments@, done));
            assert(pieces =~= done);
        }
    } else {
        proof {
            assert(bottom_pieces =~= Seq::<BoxPiece>::empty());
            assert(pieces =~= done);
        }
    }
    Ok(segments)
}

/// Create a simple horizontal line of the given width.
pub fn horizontal_line(width: usize, style: BorderStyle, line_style: Style) -> (res:
    core::result::Result<BoxSegment, LuxorError>)
    ensures
        style is Hidden || width == 0 ==> (res matches Err(e) && e matches
            LuxorError::Rendering { message } && message@ == "Cannot create empty line"@),
        !(style is Hidden) && width > 0 ==> (res matches Ok(seg)
            && seg.content@ == spec_repeat_char(spec_border_chars(style)->0.horizontal, width as int)
            && seg.x == 0 && seg.y == 0 && seg.style == line_style && seg.segment_type
            == BoxSegmentType::TopBorder),
{
    if !style.is_visible() || width == 0 {
        return Err(LuxorError::rendering("Cannot create empty line"));
    }
    let chars = match style.chars() {
        Some(c) => c,
        None => {
            proof {
                assert(false);
            }
            return Err(LuxorError::rendering("Border style has no characters"));
        },
    };
    let mut content = String::new();
    push_repeated(&mut content, chars.horizontal, width);
    proof {
        assert(content@ =~= spec_repeat_char(chars.horizontal, width as int));
    }
    Ok(BoxSegment { content, x: 0, y: 0, style: line_style, segment_type: BoxSegmentType::TopBorder })
}

/// Create a simple vertical line of the given height: one segment per
/// row.
pub fn vertical_line(height: usize, style: BorderStyle, line_style: Style) -> (res:
    BoxDrawingResult)
    ensures
        style is Hidden || height == 0 ==> (res matches Err(e) && e matches
            LuxorError::Rendering { message } && message@ == "Cannot create empty line"@),
        !(style is Hidden) && height > 0 ==> (res matches Ok(segments) && segments@.len() == height
            && forall|i: int|
            0 <= i < height ==> (#[trigger] segments@[i]).content@ == seq![
                spec_border_chars(style)->0.vertical,
            ] && segments@[i].x == 0 && segments@[i].y == i && segments@[i].style == line_style
                && segments@[i].segment_type == BoxSegmentType::LeftBorder),
{
    if !style.is_visible() || height == 0 {
        return Err(LuxorError::rendering("Cannot create empty line"));
    }
    let chars = match style.chars() {
        Some(c) => c,
        None => {
            proof {
                assert(false);
            }
            return Err(LuxorError::rendering("Border style has no characters"));
        },
    };
    let mut segments: Vec<BoxSegment> = Vec::new();
    let mut y: usize = 0;
    while y < height
        invariant
            y <= height,
            segments@.len() == y,
            forall|i: int|
                0 <= i < y ==> (#[trigger] segments@[i]).content@ == seq![chars.vertical]
                    && segments@[i].x == 0 && segments@[i].y == i && segments@[i].style
                    == line_style && segments@[i].segment_type == BoxSegmentType::LeftBorder,
            chars == spec_border_chars(style)->0,
        decreases height - y,
    {
        let mut piece = String::new();
        piece.push(chars.vertical);
        proof {
            assert(piece@ =~= seq![chars.vertical]);
        }
        segments.push(
            BoxSegment {
                content: piece,
                x: 0,
                y,
                style: line_style,
                segment_type: BoxSegmentType::LeftBorder,
            },
        );
        y = y + 1;
    }
    Ok(segments)
}

} // verus!
