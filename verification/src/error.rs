//! The fatal configuration errors: contract violations at the authoring
//! surface, raised at the point of violation and never recovered from.

use vstd::prelude::*;

verus! {

/// A fatal descriptor-configuration error. Each variant names the violated
/// authoring rule; the caller is expected to treat any of them as a
/// programming mistake, not as recoverable input.
#[derive(Clone, Copy, PartialEq, Eq, Structural, Debug)]
pub enum GrassError {
    /// A position array was empty.
    EmptyPositions,
    /// A per-blade height array was empty.
    EmptyHeights,
    /// The xz positions were already defined.
    XzAlreadyDefined,
    /// The y positions were already defined (explicitly or by a heightmap).
    YAlreadyDefined,
    /// A blade height was zero or negative.
    NonPositiveHeight,
    /// Two defined array-shaped fields have different lengths.
    LengthMismatch,
    /// A chunk reached the explicit-xz stage without xz positions defined.
    MissingXzPositions,
    /// A chunk reached the explicit-y stage without y positions defined.
    MissingYPositions,
}

impl GrassError {
    /// A short description of the error, for callers that report it.
    pub fn describe(&self) -> &'static str {
        match self {
            GrassError::EmptyPositions => "position array must not be empty",
            GrassError::EmptyHeights => "height array must not be empty",
            GrassError::XzAlreadyDefined => "xz positions are already defined",
            GrassError::YAlreadyDefined => "y positions are already defined",
            GrassError::NonPositiveHeight => "blade heights must be positive",
            GrassError::LengthMismatch => "defined array lengths disagree",
            GrassError::MissingXzPositions => "cannot spawn grass without the xz positions defined",
            GrassError::MissingYPositions => "cannot spawn grass without the y positions defined",
        }
    }
}

} // verus!
