//! The controller's commands and their byte encoding.

use vstd::prelude::*;
use crate::transfer::{Frame, Transfer};

verus! {

/// A command of the SSD1309.
#[derive(Clone, Copy, Debug, PartialEq, Eq)]
pub enum Command {
    /// Set the contrast. A higher number is a higher contrast.
    Contrast(u8),
    /// Turn the display on or off.
    DisplayOn(bool),
    /// Start or stop scrolling.
    ScrollActive(bool),
    /// Set the lower four bits of the column start address.
    ColumnAddressLow(u8),
    /// Set the upper four bits of the column start address.
    ColumnAddressHigh(u8),
    /// Set the page start address. A page is a strip of eight pixel rows.
    PageAddress(u8),
    /// Map column address 0 to the last segment, or not.
    SegmentRemap(bool),
    /// Scan the COM outputs in reverse, or not.
    ReverseComDir(bool),
    /// Set the oscillator frequency and the clock divide ratio, four bits
    /// each.
    DisplayClockDiv(u8, u8),
    /// Set the lengths of phase 1 and of phase 2 of the pre-charge period,
    /// four bits each.
    PreChargePeriod(u8, u8),
}

/// Two four-bit fields in one byte. Of each argument only the lower four
/// bits count.
pub open spec fn nibbles(high: u8, low: u8) -> u8 {
    ((high % 16) * 16 + low % 16) as u8
}

impl Command {
    /// The bytes that stand for the command on the wire.
    ///
    /// Where a command has a four-bit field, only the lower four bits of the
    /// value given are encoded.
    pub open spec fn encoding(self) -> Seq<u8> {
        match self {
            Command::Contrast(value) => seq![0x81u8, value],
            Command::DisplayOn(on) => seq![if on { 0xAFu8 } else { 0xAEu8 }],
            Command::ScrollActive(on) => seq![if on { 0x2Fu8 } else { 0x2Eu8 }],
            Command::ColumnAddressLow(nibble) => seq![nibbles(0x0, nibble)],
            Command::ColumnAddressHigh(nibble) => seq![nibbles(0x1, nibble)],
            Command::PageAddress(page) => seq![nibbles(0xB, page)],
            Command::SegmentRemap(remap) => seq![if remap { 0xA1u8 } else { 0xA0u8 }],
            Command::ReverseComDir(reverse) => seq![if reverse { 0xC8u8 } else { 0xC0u8 }],
            Command::DisplayClockDiv(frequency, ratio) => seq![0xD5u8, nibbles(frequency, ratio)],
            Command::PreChargePeriod(phase1, phase2) => seq![0xD9u8, nibbles(phase2, phase1)],
        }
    }

    /// The frame that carries the command: one write on the command channel.
    pub open spec fn frame(self) -> Frame {
        Frame::Command(self.encoding())
    }

    /// Encodes the command.
    pub fn encode(self) -> (bytes: Vec<u8>)
        ensures
            bytes@ == self.encoding(),
    {
        let mut bytes: Vec<u8> = Vec::new();
        match self {
            Command::Contrast(value) => {
                bytes.push(0x81);
                bytes.push(value);
            },
            Command::DisplayOn(on) => {
                bytes.push(if on { 0xAF } else { 0xAE });
            },
            Command::ScrollActive(on) => {
                bytes.push(if on { 0x2F } else { 0x2E });
            },
            Command::ColumnAddressLow(nibble) => {
                bytes.push(pack(0x0, nibble));
            },
            Command::ColumnAddressHigh(nibble) => {
                bytes.push(pack(0x1, nibble));
            },
            Command::PageAddress(page) => {
                bytes.push(pack(0xB, page));
            },
            Command::SegmentRemap(remap) => {
                bytes.push(if remap { 0xA1 } else { 0xA0 });
            },
            Command::ReverseComDir(reverse) => {
                bytes.push(if reverse { 0xC8 } else { 0xC0 });
            },
            Command::DisplayClockDiv(frequency, ratio) => {
                bytes.push(0xD5);
                bytes.push(pack(frequency, ratio));
            },
            Command::PreChargePeriod(phase1, phase2) => {
                bytes.push(0xD9);
                bytes.push(pack(phase2, phase1));
            },
        }
        assert(bytes@ =~= self.encoding());
        bytes
    }

    /// The transfer that carries the command: one write on the command
    /// channel, however many bytes the command has.
    pub fn transfer(self) -> (transfer: Transfer)
        ensures
            transfer@ == self.frame(),
    {
        Transfer::Command(self.encode())
    }
}

/// Packs the lower four bits of `high` and of `low` into one byte.
fn pack(high: u8, low: u8) -> (byte: u8)
    ensures
        byte == nibbles(high, low),
{
    let byte: u8 = ((0xF & high) << 4) | (0xF & low);
    assert(((0xFu8 & high) << 4u8) | (0xFu8 & low) == ((high % 16) * 16 + low % 16) as u8)
        by (bit_vector);
    byte
}

} // verus!
