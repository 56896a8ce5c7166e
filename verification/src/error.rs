//! Error types for styling, parsing and layout operations.

use vstd::prelude::*;

verus! {

/// The error type shared by all operations of the library.
///
/// Every failure is locally recoverable: parsing functions return one of
/// these variants instead of panicking on malformed input.
#[derive(Debug, Clone, PartialEq, Eq)]
pub enum LuxorError {
    /// Unicode-related errors, such as invalid character width calculations.
    Unicode { message: String },
    /// Rendering errors that occur during the rendering process.
    Rendering { message: String },
    /// Style parsing or composition errors.
    Style { message: String },
    /// Color parsing or conversion errors.
    Color { message: String },
    /// Measurement calculation errors.
    Measurement { message: String },
    /// Terminal capability detection errors.
    Terminal { message: String },
    /// Markup parsing errors.
    MarkupError(String),
    /// Invalid range errors for text operations.
    InvalidRange(String),
    /// Layout calculation errors.
    LayoutError(String),
}

impl LuxorError {
    /// Create a new Unicode error.
    pub fn unicode(message: &str) -> (r: Self)
        ensures
            (r matches LuxorError::Unicode { message: m } && m@ == message@),
    {
        Self::Unicode { message: message.to_owned() }
    }

    /// Create a new rendering error.
    pub fn rendering(message: &str) -> (r: Self)
        ensures
            (r matches LuxorError::Rendering { message: m } && m@ == message@),
    {
        Self::Rendering { message: message.to_owned() }
    }

    /// Create a new style error.
    pub fn style(message: &str) -> (r: Self)
        ensures
            (r matches LuxorError::Style { message: m } && m@ == message@),
    {
        Self::Style { message: message.to_owned() }
    }

    /// Create a new color error.
    pub fn color(message: &str) -> (r: Self)
        ensures
            (r matches LuxorError::Color { message: m } && m@ == message@),
    {
        Self::Color { message: message.to_owned() }
    }

    /// Create a new measurement error.
    pub fn measurement(message: &str) -> (r: Self)
        ensures
            (r matches LuxorError::Measurement { message: m } && m@ == message@),
    {
        Self::Measurement { message: message.to_owned() }
    }

    /// Create a new terminal error.
    pub fn terminal(message: &str) -> (r: Self)
        ensures
            (r matches LuxorError::Terminal { message: m } && m@ == message@),
    {
        Self::Terminal { message: message.to_owned() }
    }
}

} // verus!
