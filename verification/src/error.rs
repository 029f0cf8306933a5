//! Why the layer store turns a geometry away.

use vstd::prelude::*;

verus! {

/// A reason for which a geometry cannot become a layer.
#[derive(Clone, Copy, PartialEq, Eq, Structural, Debug)]
pub enum LayerError {
    /// The geometry is of a kind that cannot be drawn, such as a bare point.
    UnsupportedGeometryKind,
    /// A line string or ring is too long, or a coordinate lies outside the
    /// range in which point location is exact.
    CoordinateOutOfRange,
}

impl LayerError {
    /// A short description, for logs and messages.
    pub fn message(&self) -> (r: &'static str)
        ensures
            r@ == match *self {
                LayerError::UnsupportedGeometryKind => "unsupported geometry kind"@,
                LayerError::CoordinateOutOfRange => "coordinate out of range"@,
            },
    {
        match self {
            LayerError::UnsupportedGeometryKind => "unsupported geometry kind",
            LayerError::CoordinateOutOfRange => "coordinate out of range",
        }
    }
}

} // verus!
