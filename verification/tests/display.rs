use sysfs_gpio::Pin;
use tm1637::{Brightness, BrightnessOutOfRange, BusOp, EncodeError, Line, TM1637};

fn push_byte(ops: &mut Vec<BusOp>, byte: u8) {
    let mut b = byte;
    for _ in 0..8 {
        ops.push(BusOp::Drive(Line::Clk, false));
        ops.push(BusOp::Delay);
        ops.push(BusOp::Drive(Line::Dio, b & 1 == 1));
        ops.push(BusOp::Delay);
        ops.push(BusOp::Drive(Line::Clk, true));
        ops.push(BusOp::Delay);
        b >>= 1;
    }
    for level in [false, true, false] {
        ops.push(BusOp::Drive(Line::Clk, level));
        ops.push(BusOp::Delay);
    }
}

fn push_frame(ops: &mut Vec<BusOp>, bytes: &[u8]) {
    ops.push(BusOp::Drive(Line::Dio, false));
    ops.push(BusOp::Delay);
    for b in bytes {
        push_byte(ops, *b);
    }
    ops.push(BusOp::Drive(Line::Dio, false));
    ops.push(BusOp::Delay);
    ops.push(BusOp::Drive(Line::Clk, true));
    ops.push(BusOp::Delay);
    ops.push(BusOp::Drive(Line::Dio, true));
    ops.push(BusOp::Delay);
}

fn frames(all: &[&[u8]]) -> Vec<BusOp> {
    let mut ops = Vec::new();
    for bytes in all {
        push_frame(&mut ops, bytes);
    }
    ops
}

fn controller() -> TM1637 {
    TM1637::new(Pin::new(23), Pin::new(24))
}

#[test]
fn new_controller_is_at_full_brightness_with_default_delay() {
    let tm = controller();
    assert_eq!(tm.brightness(), 0x0F);
    assert_eq!(tm.bit_delay_nanos(), 1000);
}

#[test]
fn controller_keeps_its_two_lines_apart() {
    let tm = controller();
    assert_eq!(tm.pin(Line::Clk), Pin::new(23));
    assert_eq!(tm.pin(Line::Dio), Pin::new(24));
    assert_eq!(tm.pin(Line::Clk).get_pin_num(), 23);
    assert_eq!(tm.pin(Line::Dio).get_pin_num(), 24);
}

#[test]
fn clone_keeps_lines_and_brightness() {
    let mut tm = controller();
    tm.set_level(Brightness::Three);
    let copy = tm.clone();
    assert_eq!(copy.pin(Line::Clk), Pin::new(23));
    assert_eq!(copy.pin(Line::Dio), Pin::new(24));
    assert_eq!(copy.brightness(), 0x0B);
    assert_eq!(copy.bit_delay_nanos(), 1000);
}

#[test]
fn setup_makes_both_lines_outputs_that_idle_high() {
    let tm = controller();
    assert_eq!(
        tm.setup(),
        vec![BusOp::OutputHigh(Line::Clk), BusOp::OutputHigh(Line::Dio)]
    );
}

#[test]
fn set_segments_is_three_framed_transactions() {
    let tm = controller();
    let ops = tm.set_segments(&[0x06, 0x5B, 0x4F, 0x66]);
    let expected = frames(&[&[0x40], &[0xC0, 0x06, 0x5B, 0x4F, 0x66], &[0x8F]]);
    assert_eq!(ops, expected);
}

#[test]
fn set_segments_byte_counts_are_one_n_plus_one_and_one() {
    let tm = controller();
    for n in 1..=6usize {
        let segments = vec![0x7Fu8; n];
        let ops = tm.set_segments(&segments);
        assert_eq!(ops.len(), (2 + 54 + 6) + (2 + 54 * (1 + n) + 6) + (2 + 54 + 6));
        let starts_and_stops = ops
            .iter()
            .filter(|op| **op == BusOp::Drive(Line::Dio, true))
            .count();
        assert!(starts_and_stops >= 3);
        let mut payload = vec![0xC0u8];
        payload.extend_from_slice(&segments);
        assert_eq!(ops, frames(&[&[0x40], &payload, &[0x8F]]));
    }
}

#[test]
fn set_segments_without_segments_still_sends_the_three_commands() {
    let tm = controller();
    assert_eq!(tm.set_segments(&[]), frames(&[&[0x40], &[0xC0], &[0x8F]]));
}

#[test]
fn set_segments_does_not_check_the_digit_count() {
    let tm = controller();
    let ops = tm.set_segments(&[1, 2, 3, 4, 5, 6, 7]);
    assert_eq!(ops, frames(&[&[0x40], &[0xC0, 1, 2, 3, 4, 5, 6, 7], &[0x8F]]));
}

#[test]
fn set_string_end_to_end() {
    let tm = controller();
    let ops = tm.set_string("12:34").unwrap();
    let expected = frames(&[
        &[0x40],
        &[0xC0, 0b0000110, 0b1011011 | 0x80, 0b1001111, 0b1100110],
        &[0x80 + 0x0F],
    ]);
    assert_eq!(ops, expected);
    assert_eq!(ops.len(), 24 + 54 * 7);
}

#[test]
fn set_bytestring_end_to_end() {
    let tm = controller();
    let ops = tm.set_bytestring(b"12:34").unwrap();
    assert_eq!(ops, tm.set_string("12:34").unwrap());
    assert_eq!(ops, tm.set_segments(&[0x06, 0xDB, 0x4F, 0x66]));
}

#[test]
fn set_string_reports_the_character_it_cannot_show() {
    let tm = controller();
    assert_eq!(tm.set_string("12x4"), Err(EncodeError::InvalidChar('x')));
    assert_eq!(tm.set_string(":123"), Err(EncodeError::InvalidChar(':')));
}

#[test]
fn set_bytestring_reports_the_byte_it_cannot_show() {
    let tm = controller();
    assert_eq!(tm.set_bytestring(b"12x4"), Err(EncodeError::InvalidByte(b'x')));
    assert_eq!(tm.set_bytestring(b":123"), Err(EncodeError::InvalidByte(b':')));
}

#[test]
fn brightness_goes_out_with_the_third_command() {
    let mut tm = controller();
    assert_eq!(tm.set_brightness(0x0A), Ok(()));
    assert_eq!(tm.brightness(), 0x0A);
    assert_eq!(tm.set_segments(&[0x3F]), frames(&[&[0x40], &[0xC0, 0x3F], &[0x8A]]));
    assert_eq!(tm.set_brightness(0), Ok(()));
    assert_eq!(tm.set_segments(&[0x3F]), frames(&[&[0x40], &[0xC0, 0x3F], &[0x80]]));
}

#[test]
fn brightness_above_fifteen_is_refused() {
    let mut tm = controller();
    assert_eq!(tm.set_brightness(7), Ok(()));
    assert_eq!(tm.set_brightness(16), Err(BrightnessOutOfRange(16)));
    assert_eq!(tm.set_brightness(255), Err(BrightnessOutOfRange(255)));
    assert_eq!(tm.brightness(), 7);
    assert_eq!(tm.set_brightness(15), Ok(()));
    assert_eq!(tm.brightness(), 15);
}

#[test]
fn named_levels_have_their_raw_values() {
    assert_eq!(Brightness::Off.wire_value(), 0x0);
    assert_eq!(Brightness::One.wire_value(), 0x9);
    assert_eq!(Brightness::Two.wire_value(), 0xA);
    assert_eq!(Brightness::Three.wire_value(), 0xB);
    assert_eq!(Brightness::Four.wire_value(), 0xC);
    assert_eq!(Brightness::Five.wire_value(), 0xD);
    assert_eq!(Brightness::Six.wire_value(), 0xE);
    assert_eq!(Brightness::Seven.wire_value(), 0xF);
}

#[test]
fn set_level_changes_only_the_brightness() {
    let mut tm = controller();
    tm.set_level(Brightness::Off);
    assert_eq!(tm.brightness(), 0);
    assert_eq!(tm.pin(Line::Clk), Pin::new(23));
    assert_eq!(tm.pin(Line::Dio), Pin::new(24));
    assert_eq!(tm.bit_delay_nanos(), 1000);
    tm.set_level(Brightness::Seven);
    assert_eq!(tm.set_segments(&[]), controller().set_segments(&[]));
}

#[test]
fn calls_do_not_depend_on_earlier_calls() {
    let tm = controller();
    let first = tm.set_segments(&[0x06, 0x5B]);
    let _ = tm.set_string("AbCd");
    let _ = tm.set_string("oops");
    assert_eq!(tm.set_segments(&[0x06, 0x5B]), first);
}

fn conditions(ops: &[BusOp]) -> (usize, usize, bool, bool) {
    let (mut clk, mut dio) = (true, true);
    let (mut starts, mut stops) = (0, 0);
    for op in ops {
        match *op {
            BusOp::OutputHigh(Line::Clk) => clk = true,
            BusOp::OutputHigh(Line::Dio) => dio = true,
            BusOp::Drive(Line::Clk, high) => clk = high,
            BusOp::Drive(Line::Dio, high) => {
                if clk && dio && !high {
                    starts += 1;
                }
                if clk && !dio && high {
                    stops += 1;
                }
                dio = high;
            }
            BusOp::Delay => {}
        }
    }
    (starts, stops, clk, dio)
}

#[test]
fn an_update_raises_three_starts_and_three_stops_and_ends_idle() {
    let tm = controller();
    for segments in [vec![], vec![0xFF], vec![0x00, 0x80, 0x7F, 0xFF], vec![0x06, 0xDB, 0x4F, 0x66]] {
        assert_eq!(conditions(&tm.set_segments(&segments)), (3, 3, true, true));
    }
}

#[test]
fn setup_raises_no_condition_and_ends_idle() {
    assert_eq!(conditions(&controller().setup()), (0, 0, true, true));
}

#[test]
fn an_update_waits_after_every_transition() {
    let ops = controller().set_string("8:8:8:8:").unwrap();
    assert_eq!(ops.len() % 2, 0);
    for pair in ops.chunks(2) {
        assert!(matches!(pair[0], BusOp::Drive(_, _)));
        assert_eq!(pair[1], BusOp::Delay);
    }
}
