//! Display rotation.

use vstd::prelude::*;

verus! {

/// Orientation of the picture on the panel, clockwise.
#[derive(Clone, Copy, Debug, PartialEq, Eq)]
pub enum DisplayRotation {
    /// No rotation, normal display
    Rotate0,
    /// Rotate by 90 degrees clockwise
    Rotate90,
    /// Rotate by 180 degrees clockwise
    Rotate180,
    /// Rotate by 270 degrees clockwise
    Rotate270,
}

impl DisplayRotation {
    /// Whether the picture's axes are those of the panel exchanged: at a
    /// quarter turn and at three quarters.
    pub open spec fn swaps_axes(self) -> bool {
        self is Rotate90 || self is Rotate270
    }

    /// The segment remap setting that the controller needs for this rotation.
    pub open spec fn segment_remap(self) -> bool {
        self is Rotate0 || self is Rotate270
    }

    /// The COM scan direction setting that the controller needs for this
    /// rotation: `true` for the reversed direction.
    pub open spec fn reverse_com(self) -> bool {
        self is Rotate0 || self is Rotate90
    }
}

} // verus!
