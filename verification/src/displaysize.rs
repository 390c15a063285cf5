//! The catalog of supported panels.

use vstd::prelude::*;

verus! {

/// A supported panel geometry.
#[derive(Clone, Copy, Debug, PartialEq, Eq)]
pub enum DisplaySize {
    /// 128 by 64 pixels
    Display128x64,
}

impl DisplaySize {
    /// Width and height of the panel in pixels, unrotated.
    pub open spec fn spec_dimensions(self) -> (u8, u8) {
        match self {
            DisplaySize::Display128x64 => (128, 64),
        }
    }

    /// Number of controller columns that lie before the first visible one.
    pub open spec fn spec_column_offset(self) -> u8 {
        match self {
            DisplaySize::Display128x64 => 0,
        }
    }

    /// Number of framebuffer bytes that the panel takes: one bit per pixel.
    pub open spec fn frame_len(self) -> int {
        self.spec_dimensions().0 * self.spec_dimensions().1 / 8
    }

    /// Width and height of the panel in pixels, unrotated.
    #[verifier::when_used_as_spec(spec_dimensions)]
    pub fn dimensions(self) -> (dims: (u8, u8))
        ensures
            dims == self.spec_dimensions(),
    {
        match self {
            DisplaySize::Display128x64 => (128, 64),
        }
    }

    /// Number of controller columns that lie before the first visible one.
    #[verifier::when_used_as_spec(spec_column_offset)]
    pub fn column_offset(self) -> (offset: u8)
        ensures
            offset == self.spec_column_offset(),
    {
        match self {
            DisplaySize::Display128x64 => 0,
        }
    }

    /// Every panel of the catalog has page-aligned, non-empty axes, fits the
    /// controller's 8-bit column and row addresses on either axis once the
    /// column offset is added, and fills the framebuffer exactly.
    pub proof fn lemma_catalog(self)
        ensures
            self.dimensions().0 > 0,
            self.dimensions().1 > 0,
            self.dimensions().0 % 8 == 0,
            self.dimensions().1 % 8 == 0,
            self.dimensions().0 + self.column_offset() <= u8::MAX,
            self.dimensions().1 + self.column_offset() <= u8::MAX,
            self.frame_len() == crate::mode::graphics::BUFFER_SIZE,
    {
    }
}

} // verus!
