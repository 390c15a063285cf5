//! Configuration of a display before it is used.

use vstd::prelude::*;
use core::marker::PhantomData;
use embedded_hal::digital::v2::OutputPin;
use crate::displayrotation::DisplayRotation;
use crate::displaysize::DisplaySize;
use crate::mode::graphics::{GraphicsMode, SurfaceView, BUFFER_SIZE};
use crate::properties::{DisplayProperties, PropertiesView};
use crate::window::DrawWindow;

verus! {

/// Builder struct. The options of the driver are set with its methods, and
/// `connect` makes the display.
#[derive(Clone, Copy)]
pub struct Builder {
    display_size: DisplaySize,
    rotation: DisplayRotation,
}

impl Default for Builder {
    fn default() -> (builder: Self)
        ensures
            builder.size() == DisplaySize::Display128x64,
            builder.rotation() == DisplayRotation::Rotate0,
    {
        Self::new()
    }
}

impl Builder {
    /// The display size that the builder holds.
    pub closed spec fn size(self) -> DisplaySize {
        self.display_size
    }

    /// The rotation that the builder holds.
    pub closed spec fn rotation(self) -> DisplayRotation {
        self.rotation
    }

    /// Creates a builder with a size of 128 x 64 pixels and no rotation.
    pub fn new() -> (builder: Builder)
        ensures
            builder.size() == DisplaySize::Display128x64,
            builder.rotation() == DisplayRotation::Rotate0,
    {
        Builder { display_size: DisplaySize::Display128x64, rotation: DisplayRotation::Rotate0 }
    }

    /// Sets the size of the display.
    pub fn with_size(self, display_size: DisplaySize) -> (builder: Self)
        ensures
            builder.size() == display_size,
            builder.rotation() == self.rotation(),
    {
        Self { display_size, ..self }
    }

    /// Sets the rotation of the display to one of four values.
    pub fn with_rotation(self, rotation: DisplayRotation) -> (builder: Self)
        ensures
            builder.size() == self.size(),
            builder.rotation() == rotation,
    {
        Self { rotation, ..self }
    }

    /// Finishes the builder: a display of the chosen size and rotation, with
    /// a dark picture and an empty draw window. Nothing is sent for it; the
    /// display is neither reset nor initialised yet.
    pub fn connect(self) -> (display: GraphicsMode)
        ensures
            display@ == (SurfaceView {
                properties: PropertiesView {
                    size: self.size(),
                    rotation: self.rotation(),
                    window: DrawWindow { start: (0, 0), end: (0, 0), column: 0, row: 0 },
                },
                buffer: Seq::new(BUFFER_SIZE as nat, |i: int| 0u8),
            }),
    {
        let properties = DisplayProperties::new(self.display_size, self.rotation);
        GraphicsMode::new(properties)
    }
}

/// An output pin that is not wired to anything: both levels can always be
/// set, and setting them does nothing. It stands in for the reset pin on
/// boards that have none.
pub struct NoOutputPin<PinE = ()> {
    _m: PhantomData<PinE>,
}

impl<PinE> Clone for NoOutputPin<PinE> {
    fn clone(&self) -> (pin: Self)
        ensures
            pin == *self,
    {
        *self
    }
}

impl<PinE> Copy for NoOutputPin<PinE> {
}

impl<PinE> NoOutputPin<PinE> {
    /// Creates an unused output pin.
    pub fn new() -> Self {
        Self { _m: PhantomData }
    }
}

impl<PinE> OutputPin for NoOutputPin<PinE> {
    type Error = PinE;

    fn set_low(&mut self) -> (done: Result<(), PinE>)
        ensures
            done is Ok,
            *final(self) == *old(self),
    {
        Ok(())
    }

    fn set_high(&mut self) -> (done: Result<(), PinE>)
        ensures
            done is Ok,
            *final(self) == *old(self),
    {
        Ok(())
    }
}

} // verus!
