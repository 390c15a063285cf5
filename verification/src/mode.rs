//! Operating modes of the display. A mode says how the driver behaves and
//! which methods it offers.

pub mod graphics;

pub use self::graphics::GraphicsMode;
