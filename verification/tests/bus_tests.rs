use rp_spi_tft::bus::{BusOp, Instruction, Orientation};
use rp_spi_tft::display::Display;

use BusOp::{DcHigh, DcLow, DelayMs, ResetHigh, ResetLow, Write};

#[test]
fn command_without_params() {
    let d = Display::<2, 2>::new();
    let mut out = Vec::new();
    d.write_command(&mut out, Instruction::SWRESET, &[]);
    assert_eq!(out, vec![DcLow, Write(0x01)]);
}

#[test]
fn command_with_params() {
    let d = Display::<2, 2>::new();
    let mut out = vec![DelayMs(1)];
    d.write_command(&mut out, Instruction::PWCTR1, &[0xa2, 0x02, 0x84]);
    assert_eq!(out, vec![DelayMs(1), DcLow, Write(0xc0), DcHigh, Write(0xa2), Write(0x02), Write(0x84)]);
}

#[test]
fn write_word_is_big_endian() {
    let d = Display::<2, 2>::new();
    let mut out = Vec::new();
    d.write_word(&mut out, 0xbeef);
    d.start_data(&mut out);
    d.write_data(&mut out, &[1, 2]);
    assert_eq!(out, vec![Write(0xbe), Write(0xef), DcHigh, Write(1), Write(2)]);
}

#[test]
fn address_window() {
    let d = Display::<2, 2>::new();
    let mut out = Vec::new();
    d.set_address_window(&mut out, 1, 2, 0x0103, 4);
    assert_eq!(
        out,
        vec![
            DcLow, Write(0x2a), DcHigh, Write(0), Write(1), Write(0x01), Write(0x03),
            DcLow, Write(0x2b), DcHigh, Write(0), Write(2), Write(0), Write(4),
        ]
    );
}

#[test]
fn orientation_codes() {
    let d = Display::<2, 2>::new();
    let mut out = Vec::new();
    d.set_orientation(&mut out, Orientation::LandscapeSwapped);
    assert_eq!(out, vec![DcLow, Write(0x36), DcHigh, Write(0xa0)]);
    assert_eq!(Orientation::Portrait.code(), 0x00);
    assert_eq!(Orientation::Landscape.code(), 0x60);
    assert_eq!(Orientation::PortraitSwapped.code(), 0xc0);
    assert_eq!(Instruction::RAMWR.code(), 0x2c);
    assert_eq!(Instruction::COLMOD.code(), 0x3a);
}

#[test]
fn hard_reset_pulses() {
    let d = Display::<2, 2>::new();
    let mut out = Vec::new();
    d.hard_reset(&mut out);
    assert_eq!(out, vec![ResetHigh, DelayMs(10), ResetLow, DelayMs(10), ResetHigh]);
}

#[test]
fn init_sequence() {
    let d = Display::<2, 2>::new();
    let mut out = Vec::new();
    d.init(&mut out);
    assert_eq!(&out[..5], &[ResetHigh, DelayMs(10), ResetLow, DelayMs(10), ResetHigh][..]);
    assert_eq!(&out[5..8], &[DcLow, Write(0x01), DelayMs(200)][..]);
    assert_eq!(&out[8..11], &[DcLow, Write(0x11), DelayMs(200)][..]);
    assert_eq!(&out[11..17], &[DcLow, Write(0xb1), DcHigh, Write(0x01), Write(0x2c), Write(0x2d)][..]);
    let n = out.len();
    assert_eq!(&out[n - 3..], &[DcLow, Write(0x29), DelayMs(200)][..]);
    let commands = out.iter().filter(|op| **op == DcLow).count();
    assert_eq!(commands, 16);
    let delays = out.iter().filter(|op| matches!(op, DelayMs(_))).count();
    assert_eq!(delays, 5);
}

#[test]
fn draw_sends_the_frame_row_by_row() {
    let mut d = Display::<2, 3>::new();
    d.set_pixel_color(0, 0, 0x0102);
    d.set_pixel_color(1, 0, 0x0304);
    d.set_pixel_color(1, 2, 0xa0b0);
    let mut out = Vec::new();
    d.draw(&mut out);
    let mut window = Vec::new();
    d.set_address_window(&mut window, 0, 0, 1, 2);
    assert_eq!(&out[..window.len()], &window[..]);
    let rest = &out[window.len()..];
    assert_eq!(&rest[..3], &[DcLow, Write(0x2c), DcHigh][..]);
    let bytes: Vec<BusOp> = rest[3..].to_vec();
    assert_eq!(
        bytes,
        vec![
            Write(1), Write(2), Write(3), Write(4),
            Write(0), Write(0), Write(0), Write(0),
            Write(0), Write(0), Write(0xa0), Write(0xb0),
        ]
    );
}
