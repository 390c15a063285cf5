//! Protocol core of a driver for the SSD1309 monochrome OLED controller.
//!
//! The crate holds the driver's state and rules: the byte encoding of the
//! controller's commands, the draw window with its wrapping cursor, and a
//! one-bit-per-pixel framebuffer addressed through the display rotation.
//! It never touches a bus. Every operation that the controller has to hear
//! about returns the list of transfers to put on the wire, in order; the
//! caller sends them over I2C, SPI or whatever carries the two channels.

pub mod builder;
pub mod command;
pub mod displayrotation;
pub mod displaysize;
pub mod mode;
pub mod properties;
pub mod transfer;
pub mod window;

pub use crate::builder::{Builder, NoOutputPin};
pub use crate::command::Command;
pub use crate::displayrotation::DisplayRotation;
pub use crate::displaysize::DisplaySize;
pub use crate::transfer::{Frame, Progress, Transfer};
pub use crate::window::DrawWindow;
