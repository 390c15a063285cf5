use ssd1309::transfer::next_step;
use ssd1309::{Command, Progress, Transfer};

#[test]
fn contrast_is_opcode_and_value() {
    assert_eq!(Command::Contrast(0x6F).encode(), vec![0x81, 0x6F]);
    assert_eq!(Command::Contrast(0x00).encode(), vec![0x81, 0x00]);
    assert_eq!(Command::Contrast(0xFF).encode(), vec![0x81, 0xFF]);
}

#[test]
fn display_on_and_off() {
    assert_eq!(Command::DisplayOn(true).encode(), vec![0xAF]);
    assert_eq!(Command::DisplayOn(false).encode(), vec![0xAE]);
}

#[test]
fn scroll_on_and_off() {
    assert_eq!(Command::ScrollActive(true).encode(), vec![0x2F]);
    assert_eq!(Command::ScrollActive(false).encode(), vec![0x2E]);
}

#[test]
fn segment_remap_both_ways() {
    assert_eq!(Command::SegmentRemap(true).encode(), vec![0xA1]);
    assert_eq!(Command::SegmentRemap(false).encode(), vec![0xA0]);
}

#[test]
fn com_direction_both_ways() {
    assert_eq!(Command::ReverseComDir(true).encode(), vec![0xC8]);
    assert_eq!(Command::ReverseComDir(false).encode(), vec![0xC0]);
}

#[test]
fn page_address_adds_page_to_opcode() {
    assert_eq!(Command::PageAddress(0).encode(), vec![0xB0]);
    assert_eq!(Command::PageAddress(3).encode(), vec![0xB3]);
    assert_eq!(Command::PageAddress(7).encode(), vec![0xB7]);
    assert_eq!(Command::PageAddress(15).encode(), vec![0xBF]);
}

#[test]
fn page_address_keeps_four_bits() {
    assert_eq!(Command::PageAddress(16).encode(), vec![0xB0]);
    assert_eq!(Command::PageAddress(0xF5).encode(), vec![0xB5]);
}

#[test]
fn column_address_nibbles() {
    assert_eq!(Command::ColumnAddressLow(0x0).encode(), vec![0x00]);
    assert_eq!(Command::ColumnAddressLow(0xF).encode(), vec![0x0F]);
    assert_eq!(Command::ColumnAddressLow(0x25).encode(), vec![0x05]);
    assert_eq!(Command::ColumnAddressHigh(0x0).encode(), vec![0x10]);
    assert_eq!(Command::ColumnAddressHigh(0x7).encode(), vec![0x17]);
    assert_eq!(Command::ColumnAddressHigh(0xF).encode(), vec![0x1F]);
    assert_eq!(Command::ColumnAddressHigh(0x32).encode(), vec![0x12]);
}

#[test]
fn clock_divider_packs_frequency_high() {
    assert_eq!(Command::DisplayClockDiv(0xA, 0x0).encode(), vec![0xD5, 0xA0]);
    assert_eq!(Command::DisplayClockDiv(0x8, 0x1).encode(), vec![0xD5, 0x81]);
    assert_eq!(Command::DisplayClockDiv(0x1F, 0x23).encode(), vec![0xD5, 0xF3]);
}

#[test]
fn pre_charge_packs_phase_two_high() {
    assert_eq!(Command::PreChargePeriod(0x3, 0xD).encode(), vec![0xD9, 0xD3]);
    assert_eq!(Command::PreChargePeriod(0x1, 0xF).encode(), vec![0xD9, 0xF1]);
    assert_eq!(Command::PreChargePeriod(0x12, 0x34).encode(), vec![0xD9, 0x42]);
}

#[test]
fn a_command_is_one_command_transfer() {
    assert_eq!(
        Command::Contrast(0x42).transfer(),
        Transfer::Command(vec![0x81, 0x42])
    );
    assert_eq!(
        Command::DisplayOn(true).transfer(),
        Transfer::Command(vec![0xAF])
    );
}

#[test]
fn steps_run_in_order_until_the_end() {
    let ok: Result<(), u8> = Ok(());
    assert_eq!(next_step(3, 0, ok), Progress::Perform(0));
    assert_eq!(next_step(3, 1, ok), Progress::Perform(1));
    assert_eq!(next_step(3, 2, ok), Progress::Perform(2));
    assert_eq!(next_step(3, 3, ok), Progress::Done);
    assert_eq!(next_step(0, 0, ok), Progress::Done);
}

#[test]
fn first_failure_ends_the_script() {
    let failed: Result<(), u8> = Err(7);
    assert_eq!(next_step(3, 1, failed), Progress::Failed(7));
    assert_eq!(next_step(3, 3, failed), Progress::Failed(7));
    assert_eq!(next_step(0, 0, failed), Progress::Failed(7));
}
