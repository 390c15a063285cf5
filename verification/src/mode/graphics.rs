//! Buffered drawing surface.
//!
//! The surface keeps the whole picture in memory, one bit per pixel, and
//! sends it to the controller in one go:
//!
//! ```rust,ignore
//! let mut display = Builder::new().connect();
//! let pulse = display.reset();
//! let init = display.init();
//! display.set_pixel(10, 20, 1);
//! let picture = display.flush();
//! ```
//!
//! A byte of the buffer holds eight pixels of one column, the topmost in
//! bit 0, and the bytes of one page, a strip eight pixels high, lie side by
//! side.

use vstd::prelude::*;
use vstd::arithmetic::power2::{lemma2_to64, pow2};
use crate::displayrotation::DisplayRotation;
use crate::properties::{DisplayProperties, PropertiesView};
use crate::transfer::{
    data_bytes, frames, lemma_data_bytes_concat, lemma_frames_concat, Frame, Transfer,
};
use crate::window::DrawWindow;

verus! {

/// Number of bytes in the framebuffer: one bit for each pixel of the largest
/// supported panel.
pub const BUFFER_SIZE: usize = 128 * 64 / 8;

/// One step of the hardware reset.
#[derive(Clone, Copy, Debug, PartialEq, Eq)]
pub enum ResetStep {
    /// Drive the reset pin high.
    SetHigh,
    /// Drive the reset pin low.
    SetLow,
    /// Wait for the given number of milliseconds.
    DelayMs(u8),
}

/// The reset pulse that the controller needs after power-on: high, low and
/// high again, each level held for ten milliseconds.
pub open spec fn reset_steps() -> Seq<ResetStep> {
    seq![
        ResetStep::SetHigh,
        ResetStep::DelayMs(10),
        ResetStep::SetLow,
        ResetStep::DelayMs(10),
        ResetStep::SetHigh,
        ResetStep::DelayMs(10),
    ]
}

/// A pixel to draw: a position, which may lie outside the picture, and
/// whether the pixel is lit.
#[derive(Clone, Copy, Debug, PartialEq, Eq)]
pub struct Pixel {
    /// Horizontal position, from the left edge.
    pub x: i32,
    /// Vertical position, from the top edge.
    pub y: i32,
    /// Whether the pixel is lit.
    pub on: bool,
}

/// The coordinate of a pixel that runs along a page of the buffer: `x`, or
/// `y` where the rotation exchanges the axes.
pub open spec fn fast_coordinate(rotation: DisplayRotation, x: int, y: int) -> int {
    if rotation.swaps_axes() {
        y
    } else {
        x
    }
}

/// The coordinate of a pixel that runs across the pages of the buffer: `y`,
/// or `x` where the rotation exchanges the axes.
pub open spec fn slow_coordinate(rotation: DisplayRotation, x: int, y: int) -> int {
    if rotation.swaps_axes() {
        x
    } else {
        y
    }
}

/// Index of the buffer byte that holds a pixel, for a panel `width` pixels
/// wide: its page times the width, plus its place in the page.
pub open spec fn pixel_index(rotation: DisplayRotation, width: int, x: int, y: int) -> int {
    slow_coordinate(rotation, x, y) / 8 * width + fast_coordinate(rotation, x, y)
}

/// Number of the bit that holds a pixel in its byte, bit 0 being the topmost
/// row of the page.
pub open spec fn pixel_bit(rotation: DisplayRotation, x: int, y: int) -> int {
    slow_coordinate(rotation, x, y) % 8
}

/// Whether a pixel is stored at all: it lies within the panel's width on the
/// axis that runs along a page, and its byte lies within the first `len`
/// bytes.
pub open spec fn pixel_in_buffer(
    rotation: DisplayRotation,
    width: int,
    len: int,
    x: int,
    y: int,
) -> bool {
    fast_coordinate(rotation, x, y) < width && pixel_index(rotation, width, x, y) < len
}

/// Whether bit `bit` of `byte` is set.
pub open spec fn bit_is_set(byte: u8, bit: int) -> bool {
    (byte as int / bit_weight(bit)) % 2 == 1
}

/// What bit `bit` of a byte counts for: two to the power of `bit`.
pub open spec fn bit_weight(bit: int) -> int {
    if bit == 0 {
        1
    } else if bit == 1 {
        2
    } else if bit == 2 {
        4
    } else if bit == 3 {
        8
    } else if bit == 4 {
        16
    } else if bit == 5 {
        32
    } else if bit == 6 {
        64
    } else {
        128
    }
}

/// `byte` with bit `bit` set or cleared and every other bit as it was.
pub open spec fn with_bit(byte: u8, bit: int, on: bool) -> u8 {
    if on == bit_is_set(byte, bit) {
        byte
    } else if on {
        (byte + bit_weight(bit)) as u8
    } else {
        (byte - bit_weight(bit)) as u8
    }
}

/// The buffer after pixel (`x`, `y`) was written with `value`: a value other
/// than zero sets the pixel's bit, zero clears it. A pixel that is not stored
/// leaves the buffer as it is.
pub open spec fn pixel_write(
    buffer: Seq<u8>,
    rotation: DisplayRotation,
    width: int,
    x: int,
    y: int,
    value: u8,
) -> Seq<u8> {
    if pixel_in_buffer(rotation, width, buffer.len() as int, x, y) {
        let index = pixel_index(rotation, width, x, y);
        buffer.update(index, with_bit(buffer[index], pixel_bit(rotation, x, y), value != 0))
    } else {
        buffer
    }
}

/// The buffer after one pixel was drawn: a pixel left of or above the
/// picture is dropped, any other is written as 1 if lit and as 0 if not.
pub open spec fn pixel_draw(
    buffer: Seq<u8>,
    rotation: DisplayRotation,
    width: int,
    pixel: Pixel,
) -> Seq<u8> {
    if pixel.x >= 0 && pixel.y >= 0 {
        pixel_write(
            buffer,
            rotation,
            width,
            pixel.x as int,
            pixel.y as int,
            if pixel.on {
                1u8
            } else {
                0u8
            },
        )
    } else {
        buffer
    }
}

/// The buffer after a sequence of pixels was drawn, first to last.
pub open spec fn pixels_draw(
    buffer: Seq<u8>,
    rotation: DisplayRotation,
    width: int,
    pixels: Seq<Pixel>,
) -> Seq<u8>
    decreases pixels.len(),
{
    if pixels.len() == 0 {
        buffer
    } else {
        pixel_draw(
            pixels_draw(buffer, rotation, width, pixels.drop_last()),
            rotation,
            width,
            pixels.last(),
        )
    }
}

/// The mathematical value of a [`GraphicsMode`].
pub struct SurfaceView {
    /// The display's properties.
    pub properties: PropertiesView,
    /// The framebuffer, `BUFFER_SIZE` bytes.
    pub buffer: Seq<u8>,
}

impl SurfaceView {
    /// Width of the panel, unrotated, as the framebuffer's layout has it.
    pub open spec fn width(self) -> int {
        self.properties.size.dimensions().0 as int
    }

    /// The draw window that `flush` sets: the whole picture in its current
    /// rotation, from the panel's column offset on, the cursor at its start.
    pub open spec fn flush_window(self) -> DrawWindow {
        let (width, height) = self.properties.dimensions();
        let offset = self.properties.size.column_offset();
        DrawWindow {
            start: (offset, 0),
            end: ((width + offset) as u8, height),
            column: offset,
            row: 0,
        }
    }

    /// The part of the framebuffer that `flush` sends: one bit for each pixel
    /// of the picture.
    pub open spec fn flush_data(self) -> Seq<u8> {
        let (width, height) = self.properties.dimensions();
        self.buffer.take(width * height / 8)
    }

    /// What `flush` sends: the address of the window's start, then the
    /// framebuffer streamed into the window.
    pub open spec fn flush_frames(self) -> Seq<Frame> {
        self.flush_window().address_frames() + self.flush_window().draw_frames(self.flush_data())
    }

    /// Number of pages of the picture.
    pub open spec fn pages(self) -> int {
        self.properties.dimensions().1 as int / 8
    }

    /// The bytes of page `k` of the picture, as `flush` cuts the buffer.
    pub open spec fn page_data(self, k: int) -> Seq<u8> {
        let width = self.properties.dimensions().0 as int;
        self.buffer.subrange(k * width, (k + 1) * width)
    }

    /// The three commands that point the controller at the start of page `k`
    /// of the picture, the page behind the last being the first again.
    pub open spec fn page_address(self, k: int) -> Seq<Frame> {
        (DrawWindow { row: (8 * (k % self.pages())) as u8, ..self.flush_window() }).address_frames()
    }

    /// What a flush puts on the wire.
    ///
    /// The data frames carry the framebuffer, every byte once and in order.
    /// There is one data frame for each page of the picture. Before each
    /// stand the three commands that point the controller at the start of
    /// that page, and behind the last stand those for the first page, where
    /// the cursor is left.
    pub proof fn lemma_flush_frames(self)
        requires
            self.buffer.len() == BUFFER_SIZE,
        ensures
            data_bytes(self.flush_frames()) == self.buffer,
            data_bytes(self.flush_frames()).len() == BUFFER_SIZE,
            self.flush_frames().len() == 4 * self.pages() + 3,
            forall|k: int|
                0 <= k <= self.pages() ==> self.flush_frames().subrange(4 * k, 4 * k + 3)
                    == #[trigger] self.page_address(k),
            forall|k: int|
                0 <= k < self.pages() ==> self.flush_frames()[4 * k + 3] == Frame::Data(
                    #[trigger] self.page_data(k),
                ),
            self.flush_window().after_draw(self.flush_data().len()) == self.flush_window(),
    {
        let window = self.flush_window();
        let data = self.flush_data();
        let width = self.properties.dimensions().0 as int;
        let pages = self.pages();
        let address = window.address_frames();
        let stream = window.draw_frames(data);
        let all = self.flush_frames();
        self.properties.size.lemma_catalog();
        assert(width == 128 && pages == 8 || width == 64 && pages == 16);
        assert(data =~= self.buffer);
        assert(window.cursor_inside() && window.page_aligned());
        assert(window.width() == width && window.offset() == 0 && window.pages() == pages);
        assert(data.len() == 1024);
        assert(window.crossings(data.len()) == pages) by {
            if width == 128 {
                assert((0 + 1024int) / 128 == 8) by (nonlinear_arith);
            } else {
                assert((0 + 1024int) / 64 == 16) by (nonlinear_arith);
            }
        }
        assert forall|k: int| 0 <= k < pages implies #[trigger] window.chunk_start(k) == k * width
            && window.chunk_end(k, data.len()) == (k + 1) * width by {
            if width == 128 {
                assert(k * 128 - 0 >= 0 && (k + 1) * 128 - 0 <= 1024);
            } else {
                assert(k * 64 - 0 >= 0 && (k + 1) * 64 - 0 <= 1024);
            }
        }
        window.lemma_address_frames();
        window.lemma_draw_data(data);
        lemma_data_bytes_concat(address, stream);
        assert(data_bytes(address) + data_bytes(stream) =~= self.buffer);
        window.lemma_draw_frames_shape(data);
        window.lemma_after_draw(data.len());
        assert(window.moved(data.len()) == window) by {
            if width == 128 {
                assert((0 + 1024int) % 128 == 0 && (0 + 8int) % 8 == 0) by (nonlinear_arith);
            } else {
                assert((0 + 1024int) % 64 == 0 && (0 + 16int) % 16 == 0) by (nonlinear_arith);
            }
        }
        assert forall|k: int| 0 <= k < pages implies all[4 * k + 3] == Frame::Data(
            #[trigger] self.page_data(k),
        ) by {
            assert(all[4 * k + 3] == stream[4 * k]);
            assert(window.chunk_start(k) == k * width);
            assert(window.chunk(data, k) == self.page_data(k));
        }
        assert forall|k: int| 0 <= k <= pages implies all.subrange(4 * k, 4 * k + 3)
            == #[trigger] self.page_address(k) by {
            if k == 0 {
                assert(all.subrange(0, 3) =~= address);
            } else {
                let j = k - 1;
                let stop = ((j + 1) * width) as nat;
                assert(window.chunk_start(j) == j * width);
                assert(stream[4 * j] == Frame::Data(window.chunk(data, j)));
                assert(all.subrange(4 * k, 4 * k + 3) =~= stream.subrange(4 * j + 1, 4 * j + 4));
                window.lemma_after_draw(stop);
                if width == 128 {
                    assert(stop == k * 128);
                    assert(window.crossings(stop) == k && (0 + stop) % 128 == 0);
                } else {
                    assert(stop == k * 64);
                    assert(window.crossings(stop) == k && (0 + stop) % 64 == 0);
                }
                assert(window.moved(stop) == DrawWindow { row: (8 * (k % pages)) as u8, ..window });
            }
        }
    }
}

/// Graphics mode handler: the display's properties and its framebuffer.
pub struct GraphicsMode {
    properties: DisplayProperties,
    buffer: [u8; BUFFER_SIZE],
}

impl View for GraphicsMode {
    type V = SurfaceView;

    closed spec fn view(&self) -> SurfaceView {
        SurfaceView { properties: self.properties@, buffer: self.buffer@ }
    }
}

impl GraphicsMode {
    /// The framebuffer always has `BUFFER_SIZE` bytes.
    pub proof fn lemma_buffer_len(&self)
        ensures
            self@.buffer.len() == BUFFER_SIZE,
    {
    }

    /// Creates a surface with a dark picture.
    pub fn new(properties: DisplayProperties) -> (surface: GraphicsMode)
        ensures
            surface@ == (SurfaceView {
                properties: properties@,
                buffer: Seq::new(BUFFER_SIZE as nat, |i: int| 0u8),
            }),
    {
        let surface = GraphicsMode { properties, buffer: [0; BUFFER_SIZE] };
        assert(surface.buffer@ =~= Seq::new(BUFFER_SIZE as nat, |i: int| 0u8));
        surface
    }

    /// Gives up the surface and its picture, and returns the display's
    /// properties.
    pub fn release(self) -> (properties: DisplayProperties)
        ensures
            properties@ == self@.properties,
    {
        self.properties
    }

    /// Clears the display buffer. The panel shows it after the next `flush`.
    pub fn clear(&mut self)
        ensures
            final(self)@ == (SurfaceView {
                buffer: Seq::new(BUFFER_SIZE as nat, |i: int| 0u8),
                ..old(self)@
            }),
    {
        self.buffer = [0; BUFFER_SIZE];
        assert(self.buffer@ =~= Seq::new(BUFFER_SIZE as nat, |i: int| 0u8));
    }

    /// The reset pulse to put on the controller's reset pin. It comes before
    /// `init` and before anything else.
    pub fn reset(&self) -> (steps: Vec<ResetStep>)
        ensures
            steps@ == reset_steps(),
    {
        let mut steps: Vec<ResetStep> = Vec::new();
        steps.push(ResetStep::SetHigh);
        steps.push(ResetStep::DelayMs(10));
        steps.push(ResetStep::SetLow);
        steps.push(ResetStep::DelayMs(10));
        steps.push(ResetStep::SetHigh);
        steps.push(ResetStep::DelayMs(10));
        assert(steps@ =~= reset_steps());
        steps
    }

    /// Writes the picture out to the display.
    ///
    /// The draw window is first set to the whole picture, so that nothing
    /// drawn to another window before can shift the frame.
    pub fn flush(&mut self) -> (script: Vec<Transfer>)
        ensures
            frames(script@) == old(self)@.flush_frames(),
            final(self)@.buffer == old(self)@.buffer,
            final(self)@.properties == (PropertiesView {
                window: old(self)@.flush_window(),
                ..old(self)@.properties
            }),
            data_bytes(frames(script@)) == old(self)@.buffer,
            frames(script@).len() == 4 * old(self)@.pages() + 3,
    {
        proof {
            old(self)@.lemma_flush_frames();
        }
        let display_size = self.properties.get_size();
        let (display_width, display_height) = self.properties.get_dimensions();
        let column_offset = display_size.column_offset();
        proof {
            display_size.lemma_catalog();
            let (width, height) = display_size.dimensions();
            assert(display_width * display_height == width * height) by (nonlinear_arith)
                requires
                    (display_width == width && display_height == height) || (display_width
                        == height && display_height == width),
            ;
        }
        let mut script = self.properties.set_draw_area(
            (column_offset, 0),
            (display_width + column_offset, display_height),
        );
        let length: usize = (display_width as usize) * (display_height as usize) / 8;
        let mut stream = self.properties.draw(
            vstd::slice::slice_subrange(self.buffer.as_slice(), 0, length),
        );
        proof {
            lemma_frames_concat(script@, stream@);
            assert(self.buffer@.subrange(0, length as int) =~= old(self)@.flush_data());
        }
        script.append(&mut stream);
        script
    }

    /// Turns a pixel on or off. A `value` other than zero turns it on, zero
    /// turns it off. A pixel outside the display is ignored.
    pub fn set_pixel(&mut self, x: u32, y: u32, value: u8)
        ensures
            final(self)@ == (SurfaceView {
                buffer: pixel_write(
                    old(self)@.buffer,
                    old(self)@.properties.rotation,
                    old(self)@.width(),
                    x as int,
                    y as int,
                    value,
                ),
                ..old(self)@
            }),
    {
        let (display_width, _) = self.properties.get_size().dimensions();
        let display_rotation = self.properties.get_rotation();
        let (fast, slow): (u32, u32) = match display_rotation {
            DisplayRotation::Rotate0 | DisplayRotation::Rotate180 => (x, y),
            DisplayRotation::Rotate90 | DisplayRotation::Rotate270 => (y, x),
        };
        if fast >= display_width as u32 {
            return;
        }
        let page: u64 = (slow / 8) as u64;
        assert(page * display_width <= 0x1FFF_FFFF * 255) by (nonlinear_arith)
            requires
                page <= 0x1FFF_FFFF,
                display_width <= 255,
        ;
        let idx: u64 = page * (display_width as u64) + (fast as u64);
        if idx >= BUFFER_SIZE as u64 {
            return;
        }
        let idx: usize = idx as usize;
        let shift: u32 = slow % 8;
        let bit: u8 = 1u8 << shift;
        let byte: u8 = self.buffer[idx];
        let changed: u8 = if value == 0 {
            byte & !bit
        } else {
            byte | bit
        };
        proof {
            lemma_mask_bit(byte, shift, value != 0);
        }
        self.buffer[idx] = changed;
    }

    /// Display is set up in column mode, i.e. a byte walks down a column of
    /// eight pixels from column 0 on the left to column _n_ on the right.
    pub fn init(&mut self) -> (script: Vec<Transfer>)
        ensures
            frames(script@) == crate::properties::init_frames(old(self)@.properties.rotation),
            final(self)@ == old(self)@,
    {
        self.properties.init_column_mode()
    }

    /// Width and height of the picture, the current rotation taken into
    /// account.
    pub fn get_dimensions(&self) -> (dimensions: (u8, u8))
        ensures
            dimensions == self@.properties.dimensions(),
    {
        self.properties.get_dimensions()
    }

    /// Sets the display rotation. The picture in the buffer stays as it is.
    pub fn set_rotation(&mut self, rot: DisplayRotation) -> (script: Vec<Transfer>)
        ensures
            final(self)@ == (SurfaceView {
                properties: PropertiesView { rotation: rot, ..old(self)@.properties },
                ..old(self)@
            }),
            frames(script@) == crate::properties::remap_frames(rot),
    {
        self.properties.set_rotation(rot)
    }

    /// The command that turns the display on or off. The display can be
    /// drawn to and keeps its memory while it is off.
    pub fn display_on(&self, on: bool) -> (script: Vec<Transfer>)
        ensures
            frames(script@) == seq![crate::command::Command::DisplayOn(on).frame()],
    {
        self.properties.display_on(on)
    }

    /// The command that sets the display contrast.
    pub fn set_contrast(&self, contrast: u8) -> (script: Vec<Transfer>)
        ensures
            frames(script@) == seq![crate::command::Command::Contrast(contrast).frame()],
    {
        self.properties.set_contrast(contrast)
    }

    /// Draws one pixel into the buffer. A pixel left of or above the picture
    /// is dropped, as is one past the buffer.
    pub fn draw_pixel(&mut self, pixel: Pixel)
        ensures
            final(self)@ == (SurfaceView {
                buffer: pixel_draw(
                    old(self)@.buffer,
                    old(self)@.properties.rotation,
                    old(self)@.width(),
                    pixel,
                ),
                ..old(self)@
            }),
    {
        if pixel.x >= 0 && pixel.y >= 0 {
            self.set_pixel(pixel.x as u32, pixel.y as u32, if pixel.on { 1 } else { 0 });
        }
    }

    /// Draws pixels into the buffer, first to last.
    pub fn draw_iter(&mut self, pixels: &[Pixel])
        ensures
            final(self)@ == (SurfaceView {
                buffer: pixels_draw(
                    old(self)@.buffer,
                    old(self)@.properties.rotation,
                    old(self)@.width(),
                    pixels@,
                ),
                ..old(self)@
            }),
    {
        let mut done: usize = 0;
        assert(pixels@.take(0) =~= Seq::<Pixel>::empty());
        while done < pixels.len()
            invariant
                done <= pixels.len(),
                self@ == (SurfaceView {
                    buffer: pixels_draw(
                        old(self)@.buffer,
                        old(self)@.properties.rotation,
                        old(self)@.width(),
                        pixels@.take(done as int),
                    ),
                    ..old(self)@
                }),
            decreases pixels.len() - done,
        {
            self.draw_pixel(pixels[done]);
            proof {
                assert(pixels@.take(done + 1).drop_last() =~= pixels@.take(done as int));
            }
            done += 1;
        }
        assert(pixels@.take(done as int) =~= pixels@);
    }

    /// Width and height of the picture, for the layout of what is drawn.
    pub fn size(&self) -> (size: (u32, u32))
        ensures
            size.0 == self@.properties.dimensions().0,
            size.1 == self@.properties.dimensions().1,
    {
        let (w, h) = self.get_dimensions();
        (w as u32, h as u32)
    }
}

/// Setting a bit through a mask adds its weight where the byte lacks it, and
/// clearing it takes the weight away where the byte has it.
proof fn lemma_mask_bit(byte: u8, shift: u32, on: bool)
    requires
        shift < 8,
    ensures
        on ==> byte | (1u8 << shift) == with_bit(byte, shift as int, true),
        !on ==> byte & !(1u8 << shift) == with_bit(byte, shift as int, false),
{
    let bit: u8 = shift as u8;
    lemma_shifted_one(bit);
    assert(1u8 << shift == 1u8 << bit) by (bit_vector)
        requires
            shift < 8,
            bit == shift as u8,
    ;
    lemma_masks(byte, bit);
}

/// What a one-bit mask does to a byte, in terms of the bit's weight.
proof fn lemma_masks(byte: u8, bit: u8)
    by (bit_vector)
    requires
        bit < 8,
    ensures
        byte | (1u8 << bit) == if (byte / (1u8 << bit)) % 2 == 1 {
            byte
        } else {
            (byte + (1u8 << bit)) as u8
        },
        byte & !(1u8 << bit) == if (byte / (1u8 << bit)) % 2 == 1 {
            (byte - (1u8 << bit)) as u8
        } else {
            byte
        },
{
}

/// Writing a bit of a byte gives that bit the value written and leaves the
/// other seven as they were.
pub proof fn lemma_with_bit(byte: u8, bit: int, on: bool)
    requires
        0 <= bit < 8,
    ensures
        forall|other: int|
            0 <= other < 8 ==> #[trigger] bit_is_set(with_bit(byte, bit, on), other) == if other
                == bit {
                on
            } else {
                bit_is_set(byte, other)
            },
{
    assert forall|other: int| 0 <= other < 8 implies #[trigger] bit_is_set(
        with_bit(byte, bit, on),
        other,
    ) == if other == bit {
        on
    } else {
        bit_is_set(byte, other)
    } by {
        lemma_shifted_one(bit as u8);
        lemma_shifted_one(other as u8);
        lemma_weights(byte, bit as u8, other as u8);
    }
}

/// The weight of a bit is two to the power of its number.
pub proof fn lemma_bit_weight(bit: int)
    requires
        0 <= bit < 8,
    ensures
        bit_weight(bit) == pow2(bit as nat),
{
    lemma2_to64();
}

/// The weight of a bit is one shifted left by its number.
proof fn lemma_shifted_one(bit: u8)
    requires
        bit < 8,
    ensures
        bit_weight(bit as int) == 1u8 << bit,
{
    assert(1u8 << 0u8 == 1 && 1u8 << 1u8 == 2 && 1u8 << 2u8 == 4 && 1u8 << 3u8 == 8 && 1u8 << 4u8
        == 16 && 1u8 << 5u8 == 32 && 1u8 << 6u8 == 64 && 1u8 << 7u8 == 128) by (bit_vector);
}

/// Adding a power of two that a byte lacks, or taking away one that it has,
/// changes the bit of that weight and no other.
proof fn lemma_weights(byte: u8, bit: u8, other: u8)
    by (bit_vector)
    requires
        bit < 8,
        other < 8,
    ensures
        (byte / (1u8 << bit)) % 2 != 1 ==> (((byte + (1u8 << bit)) as u8 / (1u8 << other)) % 2
            == 1) == (other == bit || (byte / (1u8 << other)) % 2 == 1),
        (byte / (1u8 << bit)) % 2 == 1 ==> (((byte - (1u8 << bit)) as u8 / (1u8 << other)) % 2
            == 1) == (other != bit && (byte / (1u8 << other)) % 2 == 1),
{
}

/// A pixel that is stored is written to one bit of one byte: the byte at
/// `pixel_index`, the bit `pixel_bit`. Every other bit of the buffer stays
/// as it was.
///
/// At no rotation and at half a turn, that is bit `y % 8` of byte
/// `y / 8 * width + x`.
pub proof fn lemma_pixel_write_inside(
    buffer: Seq<u8>,
    rotation: DisplayRotation,
    width: int,
    x: int,
    y: int,
    value: u8,
)
    requires
        0 <= x,
        0 <= y,
        0 < width,
        pixel_in_buffer(rotation, width, buffer.len() as int, x, y),
    ensures
        ({
            let after = pixel_write(buffer, rotation, width, x, y, value);
            let index = pixel_index(rotation, width, x, y);
            let bit = pixel_bit(rotation, x, y);
            &&& !rotation.swaps_axes() ==> index == y / 8 * width + x && bit == y % 8
            &&& rotation.swaps_axes() ==> index == x / 8 * width + y && bit == x % 8
            &&& after.len() == buffer.len()
            &&& 0 <= index < buffer.len()
            &&& 0 <= bit < 8
            &&& bit_is_set(after[index], bit) == (value != 0)
            &&& forall|other: int|
                0 <= other < 8 && other != bit ==> #[trigger] bit_is_set(after[index], other)
                    == bit_is_set(buffer[index], other)
            &&& forall|i: int| 0 <= i < buffer.len() && i != index ==> after[i] == buffer[i]
        }),
{
    let index = pixel_index(rotation, width, x, y);
    let bit = pixel_bit(rotation, x, y);
    let page = slow_coordinate(rotation, x, y) / 8;
    assert(page * width >= 0) by (nonlinear_arith)
        requires
            page >= 0,
            width > 0,
    ;
    lemma_with_bit(buffer[index], bit, value != 0);
}

/// A pixel past the panel's width on the axis that runs along a page is not
/// stored: `x` at no rotation and at half a turn, `y` at a quarter turn and
/// at three quarters. Writing it leaves the buffer bit for bit as it was.
pub proof fn lemma_pixel_write_outside(
    buffer: Seq<u8>,
    rotation: DisplayRotation,
    width: int,
    x: int,
    y: int,
    value: u8,
)
    requires
        if rotation.swaps_axes() {
            y >= width
        } else {
            x >= width
        },
    ensures
        pixel_write(buffer, rotation, width, x, y, value) == buffer,
{
}

} // verus!
