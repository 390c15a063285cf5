//! Display properties: the panel's geometry, its rotation, and the draw
//! window through which display data reaches the controller's memory.
//!
//! Nothing here sends anything. Each operation changes the properties as if
//! the controller had heard of it and returns what the controller must be
//! sent for that to be true, in order.

use vstd::prelude::*;
use vstd::slice::{slice_subrange, slice_to_vec};
use crate::command::Command;
use crate::displayrotation::DisplayRotation;
use crate::displaysize::DisplaySize;
use crate::transfer::{
    command_count, data_bytes, frames, lemma_frames_concat, lemma_frames_push, Frame, Transfer,
};
use crate::window::DrawWindow;

verus! {

/// The two commands that make the controller scan the panel as a rotation
/// needs it: segment remap, then COM scan direction.
pub open spec fn remap_frames(rotation: DisplayRotation) -> Seq<Frame> {
    seq![
        Command::SegmentRemap(rotation.segment_remap()).frame(),
        Command::ReverseComDir(rotation.reverse_com()).frame(),
    ]
}

/// The commands that bring the controller up in column mode, in order: clock,
/// the remap pair of the rotation, contrast, pre-charge period, scrolling
/// off, display on.
pub open spec fn init_frames(rotation: DisplayRotation) -> Seq<Frame> {
    seq![Command::DisplayClockDiv(0xA, 0x0).frame()] + remap_frames(rotation) + seq![
        Command::Contrast(0x6F).frame(),
        Command::PreChargePeriod(0x3, 0xD).frame(),
        Command::ScrollActive(false).frame(),
        Command::DisplayOn(true).frame(),
    ]
}

/// The mathematical value of a [`DisplayProperties`].
pub struct PropertiesView {
    /// The panel.
    pub size: DisplaySize,
    /// The current rotation.
    pub rotation: DisplayRotation,
    /// The draw window and its cursor.
    pub window: DrawWindow,
}

impl PropertiesView {
    /// Width and height of the picture: those of the panel, exchanged where
    /// the rotation exchanges the axes.
    pub open spec fn dimensions(self) -> (u8, u8) {
        let (width, height) = self.size.dimensions();
        if self.rotation.swaps_axes() {
            (height, width)
        } else {
            (width, height)
        }
    }

    /// A new rotation changes the picture's dimensions and nothing else of
    /// the properties. Width and height change places where the rotation
    /// goes from an upright one to one on its side or back, and stay where
    /// it does not. On its side the picture of the 128 by 64 panel is 64
    /// wide and 128 high.
    pub proof fn lemma_rotated_dimensions(self, rotation: DisplayRotation)
        ensures
            ({
                let turned = PropertiesView { rotation, ..self };
                &&& turned.size == self.size
                &&& turned.window == self.window
                &&& rotation.swaps_axes() == self.rotation.swaps_axes() ==> turned.dimensions()
                    == self.dimensions()
                &&& rotation.swaps_axes() != self.rotation.swaps_axes() ==> turned.dimensions() == (
                    self.dimensions().1,
                    self.dimensions().0,
                )
                &&& self.size == DisplaySize::Display128x64 ==> turned.dimensions() == if rotation
                    == DisplayRotation::Rotate90 || rotation == DisplayRotation::Rotate270 {
                    (64u8, 128u8)
                } else {
                    (128u8, 64u8)
                }
            }),
    {
    }
}

/// Geometry, rotation and draw window of one display.
pub struct DisplayProperties {
    display_size: DisplaySize,
    display_rotation: DisplayRotation,
    window: DrawWindow,
}

impl View for DisplayProperties {
    type V = PropertiesView;

    closed spec fn view(&self) -> PropertiesView {
        PropertiesView {
            size: self.display_size,
            rotation: self.display_rotation,
            window: self.window,
        }
    }
}

impl DisplayProperties {
    /// Creates the properties of a display that nothing was sent to yet. The
    /// draw window is empty until `set_draw_area` gives it a size.
    pub fn new(display_size: DisplaySize, display_rotation: DisplayRotation) -> (properties:
        DisplayProperties)
        ensures
            properties@ == (PropertiesView {
                size: display_size,
                rotation: display_rotation,
                window: DrawWindow { start: (0, 0), end: (0, 0), column: 0, row: 0 },
            }),
    {
        DisplayProperties {
            display_size,
            display_rotation,
            window: DrawWindow { start: (0, 0), end: (0, 0), column: 0, row: 0 },
        }
    }

    /// Initialises the display in column mode (a byte walks down a column of
    /// eight pixels), with column 0 on the left.
    pub fn init_column_mode(&mut self) -> (script: Vec<Transfer>)
        ensures
            frames(script@) == init_frames(old(self)@.rotation),
            final(self)@ == old(self)@,
    {
        let display_rotation = self.display_rotation;
        let mut script: Vec<Transfer> = Vec::new();
        script.push(Command::DisplayClockDiv(0xA, 0x0).transfer());
        let mut remap = self.set_rotation(display_rotation);
        proof {
            lemma_frames_concat(script@, remap@);
        }
        script.append(&mut remap);
        let ghost head = script@;
        script.push(Command::Contrast(0x6F).transfer());
        script.push(Command::PreChargePeriod(0x3, 0xD).transfer());
        script.push(Command::ScrollActive(false).transfer());
        script.push(Command::DisplayOn(true).transfer());
        assert(frames(script@) =~= init_frames(display_rotation)) by {
            assert(frames(head) =~= seq![Command::DisplayClockDiv(0xA, 0x0).frame()]
                + remap_frames(display_rotation));
            assert(frames(script@).take(3) =~= frames(head));
        }
        script
    }

    /// Sets the window of the controller's memory that display data goes to,
    /// puts the cursor at its start, and points the controller there.
    ///
    /// A window with `start` below `end` on both axes is ready for `draw`.
    pub fn set_draw_area(&mut self, start: (u8, u8), end: (u8, u8)) -> (script: Vec<Transfer>)
        ensures
            final(self)@ == (PropertiesView {
                window: DrawWindow { start, end, column: start.0, row: start.1 },
                ..old(self)@
            }),
            frames(script@) == final(self)@.window.address_frames(),
            final(self)@.window.cursor_inside() <==> start.0 < end.0 && start.1 < end.1,
            final(self)@.window.page_aligned(),
    {
        self.window = DrawWindow { start, end, column: start.0, row: start.1 };
        self.send_draw_address()
    }

    /// Whether the cursor lies inside the draw window, as `draw` needs it.
    pub fn can_draw(&self) -> (ready: bool)
        ensures
            ready == self@.window.cursor_inside(),
    {
        self.window.start.0 <= self.window.column && self.window.column < self.window.end.0
            && self.window.start.1 <= self.window.row && self.window.row < self.window.end.1
    }

    /// Streams `buffer` into the draw window from the cursor on, and leaves
    /// the cursor behind the last byte.
    ///
    /// The bytes go out in chunks that each end where the cursor's page row
    /// ends or the buffer does. At the end of a page row the cursor returns
    /// to the window's first column, one page down, or to the window's first
    /// row from its last page, and the controller is pointed there. So the
    /// controller's own address counter never leaves the window, however
    /// long the buffer.
    pub fn draw(&mut self, buffer: &[u8]) -> (script: Vec<Transfer>)
        requires
            old(self)@.window.cursor_inside(),
        ensures
            frames(script@) == old(self)@.window.draw_frames(buffer@),
            final(self)@ == (PropertiesView {
                window: old(self)@.window.after_draw(buffer@.len()),
                ..old(self)@
            }),
            final(self)@.window.cursor_inside(),
            data_bytes(frames(script@)) == buffer@,
            command_count(frames(script@)) == 3 * old(self)@.window.crossings(buffer@.len()),
            old(self)@.window.page_aligned() ==> final(self)@.window == old(self)@.window.moved(
                buffer@.len(),
            ),
    {
        let mut script: Vec<Transfer> = Vec::new();
        let mut sent: usize = 0;
        assert(buffer@.skip(0) =~= buffer@);
        assert(frames(script@) =~= Seq::<Frame>::empty());
        while sent < buffer.len()
            invariant
                sent <= buffer.len(),
                self@.window.cursor_inside(),
                self@.size == old(self)@.size,
                self@.rotation == old(self)@.rotation,
                frames(script@) + self@.window.draw_frames(buffer@.skip(sent as int)) == old(
                    self,
                )@.window.draw_frames(buffer@),
                self@.window.after_draw((buffer@.len() - sent) as nat) == old(
                    self,
                )@.window.after_draw(buffer@.len()),
            decreases buffer.len() - sent,
        {
            let ghost window = self@.window;
            let ghost rest = buffer@.skip(sent as int);
            let ghost before = script@;
            let room: usize = (self.window.end.0 - self.window.column) as usize;
            let left: usize = buffer.len() - sent;
            let count: usize = if room < left { room } else { left };
            assert(count == window.chunk_len(rest.len()));
            let chunk = slice_to_vec(slice_subrange(buffer, sent, sent + count));
            assert(chunk@ =~= rest.take(count as int));
            script.push(Transfer::Data(chunk));
            proof {
                lemma_frames_push(before, Transfer::Data(chunk));
            }
            if count == room {
                self.window.column = self.window.start.0;
                self.window.row = if self.window.row as u16 + 8 >= self.window.end.1 as u16 {
                    self.window.start.1
                } else {
                    self.window.row + 8
                };
                let mut address = self.send_draw_address();
                proof {
                    lemma_frames_concat(script@, address@);
                }
                script.append(&mut address);
            } else {
                self.window.column = self.window.column + count as u8;
            }
            sent += count;
            proof {
                assert(self@.window == window.advance(count as int));
                assert(frames(script@) =~= frames(before) + window.chunk_frames(
                    count as int,
                    rest,
                ));
                assert(rest.skip(count as int) =~= buffer@.skip(sent as int));
                assert(window.draw_frames(rest) == window.chunk_frames(count as int, rest)
                    + self@.window.draw_frames(buffer@.skip(sent as int)));
                assert(frames(script@) + self@.window.draw_frames(buffer@.skip(sent as int))
                    =~= frames(before) + window.draw_frames(rest));
            }
        }
        proof {
            let window = old(self)@.window;
            assert(buffer@.skip(sent as int).len() == 0);
            assert(frames(script@) + Seq::<Frame>::empty() =~= frames(script@));
            window.lemma_draw_data(buffer@);
            window.lemma_draw_commands(buffer@);
            if window.page_aligned() {
                window.lemma_after_draw(buffer@.len());
            }
        }
        script
    }

    /// The commands that point the controller at the cursor.
    pub fn send_draw_address(&self) -> (script: Vec<Transfer>)
        ensures
            frames(script@) == self@.window.address_frames(),
    {
        let column: u8 = self.window.column;
        let low: u8 = 0xF & column;
        let high: u8 = 0xF & (column >> 4);
        assert(0xFu8 & column == column % 16) by (bit_vector);
        assert(0xFu8 & (column >> 4u8) == column / 16) by (bit_vector);
        let mut script: Vec<Transfer> = Vec::new();
        script.push(Command::PageAddress(self.window.row / 8).transfer());
        script.push(Command::ColumnAddressLow(low).transfer());
        script.push(Command::ColumnAddressHigh(high).transfer());
        assert(frames(script@) =~= self@.window.address_frames());
        script
    }

    /// The configured display size.
    pub fn get_size(&self) -> (size: DisplaySize)
        ensures
            size == self@.size,
    {
        self.display_size
    }

    /// Width and height of the picture, the current rotation taken into
    /// account.
    pub fn get_dimensions(&self) -> (dimensions: (u8, u8))
        ensures
            dimensions == self@.dimensions(),
    {
        let (w, h) = self.display_size.dimensions();
        match self.display_rotation {
            DisplayRotation::Rotate0 | DisplayRotation::Rotate180 => (w, h),
            DisplayRotation::Rotate90 | DisplayRotation::Rotate270 => (h, w),
        }
    }

    /// The current display rotation.
    pub fn get_rotation(&self) -> (rotation: DisplayRotation)
        ensures
            rotation == self@.rotation,
    {
        self.display_rotation
    }

    /// Sets the display rotation and tells the controller to scan the panel
    /// accordingly. What is already on the panel stays as it is until the
    /// picture is sent again.
    pub fn set_rotation(&mut self, display_rotation: DisplayRotation) -> (script: Vec<Transfer>)
        ensures
            final(self)@ == (PropertiesView { rotation: display_rotation, ..old(self)@ }),
            frames(script@) == remap_frames(display_rotation),
    {
        self.display_rotation = display_rotation;
        let mut script: Vec<Transfer> = Vec::new();
        match display_rotation {
            DisplayRotation::Rotate0 => {
                script.push(Command::SegmentRemap(true).transfer());
                script.push(Command::ReverseComDir(true).transfer());
            },
            DisplayRotation::Rotate90 => {
                script.push(Command::SegmentRemap(false).transfer());
                script.push(Command::ReverseComDir(true).transfer());
            },
            DisplayRotation::Rotate180 => {
                script.push(Command::SegmentRemap(false).transfer());
                script.push(Command::ReverseComDir(false).transfer());
            },
            DisplayRotation::Rotate270 => {
                script.push(Command::SegmentRemap(true).transfer());
                script.push(Command::ReverseComDir(false).transfer());
            },
        }
        assert(frames(script@) =~= remap_frames(display_rotation));
        script
    }

    /// The command that turns the display on or off. The display can be
    /// drawn to and keeps its memory while it is off.
    pub fn display_on(&self, on: bool) -> (script: Vec<Transfer>)
        ensures
            frames(script@) == seq![Command::DisplayOn(on).frame()],
    {
        let mut script: Vec<Transfer> = Vec::new();
        script.push(Command::DisplayOn(on).transfer());
        assert(frames(script@) =~= seq![Command::DisplayOn(on).frame()]);
        script
    }

    /// The command that sets the display contrast.
    pub fn set_contrast(&self, contrast: u8) -> (script: Vec<Transfer>)
        ensures
            frames(script@) == seq![Command::Contrast(contrast).frame()],
    {
        let mut script: Vec<Transfer> = Vec::new();
        script.push(Command::Contrast(contrast).transfer());
        assert(frames(script@) =~= seq![Command::Contrast(contrast).frame()]);
        script
    }
}

} // verus!
