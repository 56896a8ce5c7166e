//! A rich-text styling engine for terminal output.
//!
//! The library models colors in four fidelity tiers, styles as bags of
//! optional attributes with a deterministic composition operator, rich text
//! as a plain string plus styled character ranges, and a BBCode-like markup
//! language that produces such text.  Overlapping ranges are resolved by a
//! sweep into disjoint renderable segments, which an ANSI layer turns into
//! escape-coded strings for a terminal of a given color capability.

pub mod ansi;
pub mod box_drawing;
pub mod chars;
pub mod color;
pub mod error;
pub mod layout;
pub mod markup;
pub mod measure;
pub mod segment;
pub mod sorting;
pub mod style;
pub mod text;
pub mod width;

pub use color::{Color, ColorSystem, StandardColor};
pub use error::LuxorError;
pub use markup::{escape as escape_markup, render as render_markup, Span, Tag};
pub use measure::Measurement;
pub use segment::{ControlCode, Segment, Segments};
pub use style::Style;
pub use text::Text;
