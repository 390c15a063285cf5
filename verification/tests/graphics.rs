use ssd1309::mode::graphics::{Pixel, ResetStep, BUFFER_SIZE};
use ssd1309::mode::GraphicsMode;
use ssd1309::properties::DisplayProperties;
use ssd1309::{DisplayRotation, DisplaySize, Transfer};

fn command(bytes: &[u8]) -> Transfer {
    Transfer::Command(bytes.to_vec())
}

fn display(rotation: DisplayRotation) -> GraphicsMode {
    GraphicsMode::new(DisplayProperties::new(DisplaySize::Display128x64, rotation))
}

/// The framebuffer, as a flush sends it.
fn buffer(display: &mut GraphicsMode) -> Vec<u8> {
    let mut bytes = Vec::new();
    for transfer in display.flush() {
        if let Transfer::Data(chunk) = transfer {
            bytes.extend_from_slice(&chunk);
        }
    }
    bytes
}

fn blank_except(index: usize, byte: u8) -> Vec<u8> {
    let mut bytes = vec![0u8; BUFFER_SIZE];
    bytes[index] = byte;
    bytes
}

#[test]
fn new_surface_is_dark() {
    let mut display = display(DisplayRotation::Rotate0);
    assert_eq!(buffer(&mut display), vec![0u8; 1024]);
}

#[test]
fn release_returns_the_properties() {
    let mut display = display(DisplayRotation::Rotate180);
    display.set_rotation(DisplayRotation::Rotate270);
    let properties = display.release();
    assert_eq!(properties.get_size(), DisplaySize::Display128x64);
    assert_eq!(properties.get_rotation(), DisplayRotation::Rotate270);
}

#[test]
fn set_pixel_unrotated_sets_one_bit() {
    for rotation in [DisplayRotation::Rotate0, DisplayRotation::Rotate180] {
        let mut display = display(rotation);
        display.set_pixel(5, 10, 1);
        // byte (10 / 8) * 128 + 5, bit 10 % 8
        assert_eq!(buffer(&mut display), blank_except(133, 0b0000_0100));
    }
}

#[test]
fn set_pixel_unrotated_corners() {
    let mut display = display(DisplayRotation::Rotate0);
    display.set_pixel(0, 0, 1);
    display.set_pixel(127, 0, 1);
    display.set_pixel(0, 63, 1);
    display.set_pixel(127, 63, 1);
    let mut expected = vec![0u8; BUFFER_SIZE];
    expected[0] = 0x01;
    expected[127] = 0x01;
    expected[7 * 128] = 0x80;
    expected[7 * 128 + 127] = 0x80;
    assert_eq!(buffer(&mut display), expected);
}

#[test]
fn set_pixel_every_position_unrotated() {
    for y in 0..64u32 {
        for x in (0..128u32).step_by(17) {
            let mut display = display(DisplayRotation::Rotate0);
            display.set_pixel(x, y, 1);
            let index = (y / 8 * 128 + x) as usize;
            assert_eq!(buffer(&mut display), blank_except(index, 1 << (y % 8)));
        }
    }
}

#[test]
fn set_pixel_rotated_exchanges_the_axes() {
    for rotation in [DisplayRotation::Rotate90, DisplayRotation::Rotate270] {
        let mut display = display(rotation);
        display.set_pixel(10, 5, 1);
        // byte (10 / 8) * 128 + 5, bit 10 % 8
        assert_eq!(buffer(&mut display), blank_except(133, 0b0000_0100));
    }
}

#[test]
fn set_pixel_rotated_corners() {
    let mut display = display(DisplayRotation::Rotate90);
    display.set_pixel(0, 0, 1);
    display.set_pixel(63, 0, 1);
    display.set_pixel(0, 127, 1);
    display.set_pixel(63, 127, 1);
    let mut expected = vec![0u8; BUFFER_SIZE];
    expected[0] = 0x01;
    expected[7 * 128] = 0x80;
    expected[127] = 0x01;
    expected[7 * 128 + 127] = 0x80;
    assert_eq!(buffer(&mut display), expected);
}

#[test]
fn set_pixel_nonzero_value_sets() {
    let mut display = display(DisplayRotation::Rotate0);
    display.set_pixel(3, 9, 0xFF);
    display.set_pixel(3, 15, 2);
    assert_eq!(buffer(&mut display), blank_except(128 + 3, 0b1000_0010));
}

#[test]
fn set_pixel_zero_clears_and_leaves_the_other_bits() {
    let mut display = display(DisplayRotation::Rotate0);
    for y in 16..24 {
        display.set_pixel(40, y, 1);
    }
    assert_eq!(buffer(&mut display), blank_except(2 * 128 + 40, 0xFF));
    display.set_pixel(40, 19, 0);
    assert_eq!(buffer(&mut display), blank_except(2 * 128 + 40, 0b1111_0111));
    display.set_pixel(40, 19, 0);
    assert_eq!(buffer(&mut display), blank_except(2 * 128 + 40, 0b1111_0111));
    display.set_pixel(40, 16, 1);
    assert_eq!(buffer(&mut display), blank_except(2 * 128 + 40, 0b1111_0111));
}

#[test]
fn set_pixel_past_the_width_is_ignored() {
    let mut display = display(DisplayRotation::Rotate0);
    display.set_pixel(1, 1, 1);
    let before = buffer(&mut display);
    display.set_pixel(128, 0, 1);
    display.set_pixel(128, 1, 0);
    display.set_pixel(129, 63, 1);
    display.set_pixel(u32::MAX, 0, 1);
    assert_eq!(buffer(&mut display), before);

    let mut display = self::display(DisplayRotation::Rotate180);
    display.set_pixel(128, 7, 1);
    assert_eq!(buffer(&mut display), vec![0u8; BUFFER_SIZE]);
}

#[test]
fn set_pixel_rotated_past_the_width_is_ignored() {
    for rotation in [DisplayRotation::Rotate90, DisplayRotation::Rotate270] {
        let mut display = display(rotation);
        display.set_pixel(2, 2, 1);
        let before = buffer(&mut display);
        display.set_pixel(0, 128, 1);
        display.set_pixel(2, 128, 0);
        display.set_pixel(63, 4000, 1);
        display.set_pixel(0, u32::MAX, 1);
        assert_eq!(buffer(&mut display), before);
    }
}

#[test]
fn set_pixel_past_the_buffer_is_ignored() {
    let mut display = display(DisplayRotation::Rotate0);
    display.set_pixel(0, 64, 1);
    display.set_pixel(127, 64, 1);
    display.set_pixel(5, 1000, 1);
    display.set_pixel(0, u32::MAX, 1);
    display.set_pixel(127, u32::MAX, 1);
    // 2^28 pages further down: an index that does not fit in 32 bits
    display.set_pixel(0, 0x8000_0000, 1);
    display.set_pixel(0, 0x8000_0008, 1);
    assert_eq!(buffer(&mut display), vec![0u8; BUFFER_SIZE]);

    let mut display = self::display(DisplayRotation::Rotate90);
    display.set_pixel(64, 0, 1);
    display.set_pixel(u32::MAX, 127, 1);
    display.set_pixel(0x8000_0000, 0, 1);
    assert_eq!(buffer(&mut display), vec![0u8; BUFFER_SIZE]);
}

#[test]
fn clear_zeroes_every_byte() {
    let mut display = display(DisplayRotation::Rotate0);
    for x in 0..128 {
        for y in 0..64 {
            display.set_pixel(x, y, 1);
        }
    }
    assert_eq!(buffer(&mut display), vec![0xFFu8; BUFFER_SIZE]);
    display.clear();
    assert_eq!(buffer(&mut display), vec![0u8; BUFFER_SIZE]);
    assert_eq!(display.get_dimensions(), (128, 64));
}

#[test]
fn reset_is_a_three_edge_pulse() {
    let display = display(DisplayRotation::Rotate0);
    assert_eq!(
        display.reset(),
        vec![
            ResetStep::SetHigh,
            ResetStep::DelayMs(10),
            ResetStep::SetLow,
            ResetStep::DelayMs(10),
            ResetStep::SetHigh,
            ResetStep::DelayMs(10),
        ]
    );
}

#[test]
fn init_is_the_column_mode_sequence() {
    let mut display = display(DisplayRotation::Rotate180);
    assert_eq!(
        display.init(),
        vec![
            command(&[0xD5, 0xA0]),
            command(&[0xA0]),
            command(&[0xC0]),
            command(&[0x81, 0x6F]),
            command(&[0xD9, 0xD3]),
            command(&[0x2E]),
            command(&[0xAF]),
        ]
    );
}

#[test]
fn flush_sends_the_whole_buffer_page_by_page() {
    let mut display = display(DisplayRotation::Rotate0);
    for x in 0..128u32 {
        display.set_pixel(x, x % 64, 1);
    }
    let picture = buffer(&mut display);
    let script = display.flush();
    assert_eq!(script.len(), 3 + 8 * 4);
    assert_eq!(script[0], command(&[0xB0]));
    assert_eq!(script[1], command(&[0x00]));
    assert_eq!(script[2], command(&[0x10]));
    let mut data_bytes = 0;
    for page in 0..8usize {
        let at = 3 + 4 * page;
        assert_eq!(
            script[at],
            Transfer::Data(picture[page * 128..(page + 1) * 128].to_vec())
        );
        data_bytes += 128;
        assert_eq!(script[at + 1], command(&[0xB0 + ((page as u8 + 1) % 8)]));
        assert_eq!(script[at + 2], command(&[0x00]));
        assert_eq!(script[at + 3], command(&[0x10]));
    }
    assert_eq!(data_bytes, 1024);
}

#[test]
fn flush_counts_1024_data_bytes() {
    for rotation in [
        DisplayRotation::Rotate0,
        DisplayRotation::Rotate90,
        DisplayRotation::Rotate180,
        DisplayRotation::Rotate270,
    ] {
        let mut display = display(rotation);
        let mut data_bytes = 0;
        let mut data_writes = 0;
        for transfer in display.flush() {
            if let Transfer::Data(chunk) = transfer {
                data_bytes += chunk.len();
                data_writes += 1;
            }
        }
        assert_eq!(data_bytes, 1024);
        assert!(data_writes >= 1);
    }
}

#[test]
fn flush_rotated_uses_the_rotated_window() {
    let mut display = display(DisplayRotation::Rotate90);
    display.set_pixel(9, 70, 1);
    let picture = blank_except(128 + 70, 0x02);
    let script = display.flush();
    assert_eq!(script.len(), 3 + 16 * 4);
    assert_eq!(script[0], command(&[0xB0]));
    assert_eq!(script[1], command(&[0x00]));
    assert_eq!(script[2], command(&[0x10]));
    for page in 0..16usize {
        let at = 3 + 4 * page;
        assert_eq!(
            script[at],
            Transfer::Data(picture[page * 64..(page + 1) * 64].to_vec())
        );
        assert_eq!(script[at + 1], command(&[0xB0 + ((page as u8 + 1) % 16)]));
        assert_eq!(script[at + 2], command(&[0x00]));
        assert_eq!(script[at + 3], command(&[0x10]));
    }
}

#[test]
fn flush_twice_sends_the_same() {
    let mut display = display(DisplayRotation::Rotate0);
    display.set_pixel(100, 33, 1);
    let first = display.flush();
    let second = display.flush();
    assert_eq!(first, second);
}

#[test]
fn flush_resets_a_drifted_window() {
    let mut display = display(DisplayRotation::Rotate0);
    display.set_pixel(1, 1, 1);
    let expected = display.flush();

    let mut properties = display.release();
    properties.set_draw_area((7, 16), (30, 40));
    properties.draw(&[1, 2, 3, 4, 5]);
    let mut display = GraphicsMode::new(properties);
    display.set_pixel(1, 1, 1);
    assert_eq!(display.flush(), expected);
}

#[test]
fn rotation_change_keeps_the_buffer() {
    let mut display = display(DisplayRotation::Rotate0);
    display.set_pixel(12, 34, 1);
    display.set_pixel(99, 7, 1);
    let before = buffer(&mut display);
    assert_eq!(display.get_dimensions(), (128, 64));
    let script = display.set_rotation(DisplayRotation::Rotate90);
    assert_eq!(script, vec![command(&[0xA0]), command(&[0xC8])]);
    assert_eq!(display.get_dimensions(), (64, 128));
    assert_eq!(buffer(&mut display), before);
    let script = display.set_rotation(DisplayRotation::Rotate180);
    assert_eq!(script, vec![command(&[0xA0]), command(&[0xC0])]);
    assert_eq!(display.get_dimensions(), (128, 64));
    assert_eq!(buffer(&mut display), before);
}

#[test]
fn surface_display_on_and_contrast() {
    let display = display(DisplayRotation::Rotate0);
    assert_eq!(display.display_on(false), vec![command(&[0xAE])]);
    assert_eq!(display.display_on(true), vec![command(&[0xAF])]);
    assert_eq!(display.set_contrast(0x10), vec![command(&[0x81, 0x10])]);
}

#[test]
fn size_is_the_rotated_dimensions() {
    assert_eq!(display(DisplayRotation::Rotate0).size(), (128, 64));
    assert_eq!(display(DisplayRotation::Rotate90).size(), (64, 128));
    assert_eq!(display(DisplayRotation::Rotate180).size(), (128, 64));
    assert_eq!(display(DisplayRotation::Rotate270).size(), (64, 128));
}

#[test]
fn draw_pixel_writes_lit_and_dark() {
    let mut display = display(DisplayRotation::Rotate0);
    display.draw_pixel(Pixel { x: 2, y: 3, on: true });
    display.draw_pixel(Pixel { x: 2, y: 4, on: true });
    assert_eq!(buffer(&mut display), blank_except(2, 0b0001_1000));
    display.draw_pixel(Pixel { x: 2, y: 3, on: false });
    assert_eq!(buffer(&mut display), blank_except(2, 0b0001_0000));
}

#[test]
fn draw_pixel_drops_negative_positions() {
    let mut display = display(DisplayRotation::Rotate0);
    display.draw_pixel(Pixel { x: -1, y: 0, on: true });
    display.draw_pixel(Pixel { x: 0, y: -1, on: true });
    display.draw_pixel(Pixel { x: -5, y: -5, on: true });
    display.draw_pixel(Pixel { x: i32::MIN, y: 3, on: true });
    display.draw_pixel(Pixel { x: 3, y: i32::MIN, on: true });
    assert_eq!(buffer(&mut display), vec![0u8; BUFFER_SIZE]);
}

#[test]
fn draw_pixel_drops_positions_past_the_picture() {
    let mut display = display(DisplayRotation::Rotate0);
    display.draw_pixel(Pixel { x: 128, y: 0, on: true });
    display.draw_pixel(Pixel { x: 0, y: 64, on: true });
    display.draw_pixel(Pixel { x: i32::MAX, y: i32::MAX, on: true });
    assert_eq!(buffer(&mut display), vec![0u8; BUFFER_SIZE]);
}

#[test]
fn draw_iter_draws_in_order() {
    let mut display = display(DisplayRotation::Rotate0);
    display.draw_iter(&[
        Pixel { x: 0, y: 0, on: true },
        Pixel { x: -3, y: 0, on: true },
        Pixel { x: 1, y: 8, on: true },
        Pixel { x: 0, y: 0, on: false },
        Pixel { x: 0, y: 1, on: true },
        Pixel { x: 200, y: 1, on: true },
    ]);
    let mut expected = vec![0u8; BUFFER_SIZE];
    expected[0] = 0x02;
    expected[129] = 0x01;
    assert_eq!(buffer(&mut display), expected);
}

#[test]
fn draw_iter_of_nothing_changes_nothing() {
    let mut display = display(DisplayRotation::Rotate0);
    display.set_pixel(4, 4, 1);
    let before = buffer(&mut display);
    display.draw_iter(&[]);
    assert_eq!(buffer(&mut display), before);
}
