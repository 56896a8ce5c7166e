//! Width measurements used by layout calculations.

use vstd::prelude::*;

verus! {

/// The width requirements of a renderable object: the minimum width it
/// needs and the maximum width it can expand to.
#[derive(Debug, Clone, Copy, PartialEq, Eq, Structural)]
pub struct Measurement {
    /// The minimum width required by the object.
    pub minimum: usize,
    /// The maximum width the object can expand to.
    pub maximum: usize,
}

impl Measurement {
    /// Well-formed: the minimum never exceeds the maximum.
    pub open spec fn wf(&self) -> bool {
        self.minimum <= self.maximum
    }

    /// Create a new measurement with the given minimum and maximum widths.
    pub fn new(minimum: usize, maximum: usize) -> (r: Self)
        requires
            minimum <= maximum,
        ensures
            r == (Measurement { minimum, maximum }),
    {
        Self { minimum, maximum }
    }

    /// Create a measurement for a fixed width.
    pub fn fixed(width: usize) -> (r: Self)
        ensures
            r == (Measurement { minimum: width, maximum: width }),
    {
        Self::new(width, width)
    }

    /// Create a measurement that spans the available width: minimum 0,
    /// maximum the given width.
    pub fn span(width: usize) -> (r: Self)
        ensures
            r == (Measurement { minimum: 0usize, maximum: width }),
    {
        Self::new(0, width)
    }

    /// Get the minimum width.
    pub fn minimum(&self) -> (r: usize)
        ensures
            r == self.minimum,
    {
        self.minimum
    }

    /// Get the maximum width.
    pub fn maximum(&self) -> (r: usize)
        ensures
            r == self.maximum,
    {
        self.maximum
    }

    /// Check if this is a fixed width measurement.
    pub fn is_fixed(&self) -> (r: bool)
        ensures
            r == (self.minimum == self.maximum),
    {
        self.minimum == self.maximum
    }

    /// Get the width if this is a fixed measurement, `None` otherwise.
    pub fn get_fixed(&self) -> (r: Option<usize>)
        ensures
            r == if self.minimum == self.maximum {
                Some(self.minimum)
            } else {
                None::<usize>
            },
    {
        if self.is_fixed() {
            Some(self.minimum)
        } else {
            None
        }
    }

    /// Clamp both widths to the interval given by `min_width` and
    /// `max_width` (the upper bound wins when the two conflict).
    pub fn clamp(self, min_width: usize, max_width: usize) -> (r: Self)
        requires
            self.wf(),
        ensures
            r.minimum == clamp_width(self.minimum, min_width, max_width),
            r.maximum == clamp_width(self.maximum, min_width, max_width),
            r.wf(),
    {
        Self::new(
            clamp_width_exec(self.minimum, min_width, max_width),
            clamp_width_exec(self.maximum, min_width, max_width),
        )
    }

    /// Add a fixed width to both minimum and maximum.
    pub fn add_width(self, width: usize) -> (r: Self)
        requires
            self.wf(),
            self.maximum + width <= usize::MAX,
        ensures
            r.minimum == self.minimum + width,
            r.maximum == self.maximum + width,
            r.wf(),
    {
        Self::new(self.minimum + width, self.maximum + width)
    }

    /// Subtract a width from both minimum and maximum, saturating at zero.
    pub fn subtract_width(self, width: usize) -> (r: Self)
        requires
            self.wf(),
        ensures
            r.minimum == if self.minimum >= width { self.minimum - width } else { 0 },
            r.maximum == if self.maximum >= width { self.maximum - width } else { 0 },
            r.wf(),
    {
        Self::new(
            self.minimum.saturating_sub(width),
            self.maximum.saturating_sub(width),
        )
    }

    /// Combine two measurements by taking the maximum of both bounds, as
    /// when stacking elements vertically.
    pub fn max_with(self, other: Self) -> (r: Self)
        requires
            self.wf(),
            other.wf(),
        ensures
            r.minimum == if self.minimum >= other.minimum { self.minimum } else { other.minimum },
            r.maximum == if self.maximum >= other.maximum { self.maximum } else { other.maximum },
            r.wf(),
    {
        let minimum = if self.minimum >= other.minimum {
            self.minimum
        } else {
            other.minimum
        };
        let maximum = if self.maximum >= other.maximum {
            self.maximum
        } else {
            other.maximum
        };
        Self::new(minimum, maximum)
    }

    /// Combine two measurements by adding their widths, as when placing
    /// elements side by side.
    pub fn add_with(self, other: Self) -> (r: Self)
        requires
            self.wf(),
            other.wf(),
            self.maximum + other.maximum <= usize::MAX,
        ensures
            r.minimum == self.minimum + other.minimum,
            r.maximum == self.maximum + other.maximum,
            r.wf(),
    {
        Self::new(self.minimum + other.minimum, self.maximum + other.maximum)
    }
}

impl Default for Measurement {
    /// A measurement of zero width.
    fn default() -> (r: Self)
        ensures
            r == (Measurement { minimum: 0usize, maximum: 0usize }),
    {
        Self::fixed(0)
    }
}

/// A width forced into the interval given by `lo` and `hi`: first raised to
/// at least `lo`, then lowered to at most `hi`.
pub open spec fn clamp_width(w: usize, lo: usize, hi: usize) -> usize {
    let raised = if w >= lo {
        w
    } else {
        lo
    };
    if raised <= hi {
        raised
    } else {
        hi
    }
}

fn clamp_width_exec(w: usize, lo: usize, hi: usize) -> (r: usize)
    ensures
        r == clamp_width(w, lo, hi),
{
    let raised = if w >= lo { w } else { lo };
    if raised <= hi {
        raised
    } else {
        hi
    }
}

} // verus!
