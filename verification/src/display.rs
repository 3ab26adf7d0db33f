//! The display controller: the command sequence that puts segment bytes and
//! the brightness on the bus.

use crate::bus::{
    bytes_ops, frame_ops, lemma_bytes_ops_push, lemma_frame_ops_len, lemma_frames_paced, paced,
    start, start_ops, stop, write_byte, BusOp, Line, OPS_PER_BYTE,
};
use crate::segments::{
    byte_symbols, bytestring_to_segments, char_symbols, scan, string_to_segments, EncodeError,
};
use crate::wire::{idle, lemma_frame_is_framed, lemma_run_concat, lemma_run_push, run, Wire};
use sysfs_gpio::Pin;
use vstd::prelude::*;

verus! {

/// `sysfs_gpio::Pin`, a handle to one GPIO line. The display controller
/// carries two of them and never looks inside.
#[verifier::external_type_specification]
#[verifier::external_body]
pub struct ExPin(sysfs_gpio::Pin);

/// Command that selects writing with automatic address increment.
pub const COMM1: u8 = 0x40;

/// Command that sets the address of the first digit to write; the address is
/// added to it.
pub const COMM2: u8 = 0xC0;

/// Command that sets the display control; the brightness is added to it.
pub const COMM3: u8 = 0x80;

/// The highest raw brightness: display on, widest pulse.
pub const MAX_BRIGHTNESS: u8 = 0x0F;

/// The bit delay of a new controller, in nanoseconds.
pub const DEFAULT_BIT_DELAY_NANOS: u32 = 1000;

/// Named brightness levels.
#[derive(Clone, Copy, Debug, PartialEq, Eq)]
pub enum Brightness {
    Off,
    One,
    Two,
    Three,
    Four,
    Five,
    Six,
    Seven,
}

impl Brightness {
    /// The raw four-bit value of a level: 0 for `Off`, which leaves the
    /// display-on bit clear, and 8 plus the level's number otherwise, so that
    /// `Seven` is the maximum.
    pub open spec fn raw(self) -> u8 {
        match self {
            Brightness::Off => 0x0u8,
            Brightness::One => 0x9u8,
            Brightness::Two => 0xAu8,
            Brightness::Three => 0xBu8,
            Brightness::Four => 0xCu8,
            Brightness::Five => 0xDu8,
            Brightness::Six => 0xEu8,
            Brightness::Seven => 0xFu8,
        }
    }

    /// The raw four-bit value that goes on the wire for this level.
    pub fn wire_value(self) -> (res: u8)
        ensures
            res == self.raw(),
            res <= MAX_BRIGHTNESS,
    {
        match self {
            Brightness::Off => 0x0,
            Brightness::One => 0x9,
            Brightness::Two => 0xA,
            Brightness::Three => 0xB,
            Brightness::Four => 0xC,
            Brightness::Five => 0xD,
            Brightness::Six => 0xE,
            Brightness::Seven => 0xF,
        }
    }
}

/// A raw brightness above the maximum, as it was given.
#[derive(Clone, Copy, Debug, PartialEq, Eq)]
pub struct BrightnessOutOfRange(pub u8);

/// A display controller on two GPIO lines.
#[derive(Debug)]
pub struct TM1637 {
    clk: Pin,
    dio: Pin,
    brightness: u8,
    bit_delay_nanos: u32,
}

/// What a controller holds.
pub ghost struct TM1637View {
    pub clk: Pin,
    pub dio: Pin,
    pub brightness: u8,
    pub bit_delay_nanos: u32,
}

impl View for TM1637 {
    type V = TM1637View;

    closed spec fn view(&self) -> TM1637View {
        TM1637View {
            clk: self.clk,
            dio: self.dio,
            brightness: self.brightness,
            bit_delay_nanos: self.bit_delay_nanos,
        }
    }
}

impl Clone for TM1637 {
    fn clone(&self) -> (res: TM1637)
        ensures
            res@ == self@,
    {
        proof {
            use_type_invariant(self);
        }
        TM1637 {
            clk: self.clk,
            dio: self.dio,
            brightness: self.brightness,
            bit_delay_nanos: self.bit_delay_nanos,
        }
    }
}

/// Configuring both lines as outputs that idle high.
pub open spec fn setup_ops() -> Seq<BusOp> {
    seq![BusOp::OutputHigh(Line::Clk), BusOp::OutputHigh(Line::Dio)]
}

/// The bytes of the three transactions that show `segments`: the write mode,
/// the address of the first digit followed by every segment byte, and the
/// display control with the brightness.
pub open spec fn transactions(brightness: u8, segments: Seq<u8>) -> Seq<Seq<u8>> {
    seq![seq![COMM1], seq![COMM2] + segments, seq![(COMM3 + brightness) as u8]]
}

/// The bus operations that show `segments`: the three transactions, each
/// framed by start and stop.
pub open spec fn display_ops(brightness: u8, segments: Seq<u8>) -> Seq<BusOp> {
    let t = transactions(brightness, segments);
    frame_ops(t[0]) + frame_ops(t[1]) + frame_ops(t[2])
}

impl TM1637 {
    #[verifier::type_invariant]
    spec fn in_range(&self) -> bool {
        self.brightness <= MAX_BRIGHTNESS
    }

    /// A controller on the given clock and data lines, at full brightness
    /// and with the default bit delay. The lines must be exported already;
    /// [`TM1637::setup`] gives the operations that configure them.
    pub fn new(clk: Pin, dio: Pin) -> (tm: TM1637)
        ensures
            tm@ == (TM1637View {
                clk,
                dio,
                brightness: MAX_BRIGHTNESS,
                bit_delay_nanos: DEFAULT_BIT_DELAY_NANOS,
            }),
    {
        TM1637 { clk, dio, brightness: MAX_BRIGHTNESS, bit_delay_nanos: DEFAULT_BIT_DELAY_NANOS }
    }

    /// The operations that bring the bus to its idle state: both lines
    /// outputs, driven high.
    pub fn setup(&self) -> (ops: Vec<BusOp>)
        ensures
            ops@ == setup_ops(),
    {
        let mut ops: Vec<BusOp> = Vec::new();
        ops.push(BusOp::OutputHigh(Line::Clk));
        ops.push(BusOp::OutputHigh(Line::Dio));
        assert(ops@ =~= setup_ops());
        ops
    }

    /// The GPIO line that stands behind a line of the bus.
    pub fn pin(&self, line: Line) -> (pin: Pin)
        ensures
            pin == (match line {
                Line::Clk => self@.clk,
                Line::Dio => self@.dio,
            }),
    {
        match line {
            Line::Clk => self.clk,
            Line::Dio => self.dio,
        }
    }

    /// The raw brightness, at most [`MAX_BRIGHTNESS`].
    pub fn brightness(&self) -> (res: u8)
        ensures
            res == self@.brightness,
            res <= MAX_BRIGHTNESS,
    {
        proof {
            use_type_invariant(self);
        }
        self.brightness
    }

    /// How long one bit delay lasts, in nanoseconds.
    pub fn bit_delay_nanos(&self) -> (res: u32)
        ensures
            res == self@.bit_delay_nanos,
    {
        self.bit_delay_nanos
    }

    /// Sets the raw brightness. A value above [`MAX_BRIGHTNESS`] is refused
    /// and changes nothing.
    pub fn set_brightness(&mut self, raw: u8) -> (res: Result<(), BrightnessOutOfRange>)
        ensures
            raw <= MAX_BRIGHTNESS ==> res is Ok && final(self)@ == (TM1637View {
                brightness: raw,
                ..old(self)@
            }),
            raw > MAX_BRIGHTNESS ==> res == Err::<(), BrightnessOutOfRange>(
                BrightnessOutOfRange(raw),
            ) && final(self)@ == old(self)@,
    {
        if raw <= MAX_BRIGHTNESS {
            self.brightness = raw;
            Ok(())
        } else {
            Err(BrightnessOutOfRange(raw))
        }
    }

    /// Sets the brightness to a named level.
    pub fn set_level(&mut self, level: Brightness)
        ensures
            final(self)@ == (TM1637View { brightness: level.raw(), ..old(self)@ }),
    {
        self.brightness = level.wire_value();
    }

    /// The operations that show `segments` from the first digit on, as three
    /// transactions: the write mode; the address and every segment byte in
    /// order; the display control with the current brightness.
    pub fn set_segments(&self, segments: &[u8]) -> (ops: Vec<BusOp>)
        ensures
            ops@ == display_ops(self@.brightness, segments@),
    {
        proof {
            use_type_invariant(self);
        }
        let ghost t = transactions(self@.brightness, segments@);
        let mut ops: Vec<BusOp> = Vec::new();

        start(&mut ops);
        write_byte(&mut ops, COMM1);
        stop(&mut ops);
        proof {
            lemma_bytes_ops_push(Seq::empty(), COMM1);
            assert(Seq::<u8>::empty().push(COMM1) =~= t[0]);
            assert(ops@ =~= frame_ops(t[0]));
        }

        start(&mut ops);
        write_byte(&mut ops, COMM2);
        proof {
            lemma_bytes_ops_push(Seq::empty(), COMM2);
            assert(Seq::<u8>::empty().push(COMM2) =~= seq![COMM2] + segments@.take(0));
            assert(ops@ =~= frame_ops(t[0]) + start_ops() + bytes_ops(
                seq![COMM2] + segments@.take(0),
            ));
        }
        let mut k: usize = 0;
        while k < segments.len()
            invariant
                k <= segments.len(),
                ops@ == frame_ops(t[0]) + start_ops() + bytes_ops(
                    seq![COMM2] + segments@.take(k as int),
                ),
            decreases segments.len() - k,
        {
            write_byte(&mut ops, segments[k]);
            proof {
                let sent = seq![COMM2] + segments@.take(k as int);
                lemma_bytes_ops_push(sent, segments@[k as int]);
                assert(sent.push(segments@[k as int]) =~= seq![COMM2] + segments@.take(k + 1));
                assert(ops@ =~= frame_ops(t[0]) + start_ops() + bytes_ops(
                    seq![COMM2] + segments@.take(k + 1),
                ));
            }
            k = k + 1;
        }
        stop(&mut ops);
        proof {
            assert(segments@.take(k as int) =~= segments@);
            assert(ops@ =~= frame_ops(t[0]) + frame_ops(t[1]));
        }

        start(&mut ops);
        write_byte(&mut ops, COMM3 + self.brightness);
        stop(&mut ops);
        proof {
            let c = (COMM3 + self.brightness) as u8;
            lemma_bytes_ops_push(Seq::empty(), c);
            assert(Seq::<u8>::empty().push(c) =~= t[2]);
            assert(ops@ =~= frame_ops(t[0]) + frame_ops(t[1]) + frame_ops(t[2]));
        }
        ops
    }

    /// Encodes `s` and gives the operations that show it; the character that
    /// cannot be encoded is the error.
    pub fn set_string(&self, s: &str) -> (res: Result<Vec<BusOp>, EncodeError>)
        ensures
            match scan(char_symbols(s@)) {
                Ok(segments) => res is Ok && res->Ok_0@ == display_ops(
                    self@.brightness,
                    segments,
                ),
                Err(at) => 0 <= at < s@.len() && res == Err::<Vec<BusOp>, EncodeError>(
                    EncodeError::InvalidChar(s@[at]),
                ),
            },
    {
        match string_to_segments(s) {
            Ok(segments) => Ok(self.set_segments(segments.as_slice())),
            Err(e) => Err(e),
        }
    }

    /// Encodes the byte string `s` and gives the operations that show it;
    /// the byte that cannot be encoded is the error.
    pub fn set_bytestring(&self, s: &[u8]) -> (res: Result<Vec<BusOp>, EncodeError>)
        ensures
            match scan(byte_symbols(s@)) {
                Ok(segments) => res is Ok && res->Ok_0@ == display_ops(
                    self@.brightness,
                    segments,
                ),
                Err(at) => 0 <= at < s@.len() && res == Err::<Vec<BusOp>, EncodeError>(
                    EncodeError::InvalidByte(s@[at]),
                ),
            },
    {
        match bytestring_to_segments(s) {
            Ok(segments) => Ok(self.set_segments(segments.as_slice())),
            Err(e) => Err(e),
        }
    }
}

/// Showing `segments` takes exactly three transactions, of one byte, of one
/// byte and one more for each segment byte, and of one byte.
pub proof fn lemma_three_transactions(brightness: u8, segments: Seq<u8>)
    ensures
        transactions(brightness, segments).len() == 3,
        transactions(brightness, segments)[0].len() == 1,
        transactions(brightness, segments)[1].len() == 1 + segments.len(),
        transactions(brightness, segments)[2].len() == 1,
        display_ops(brightness, segments).len() == 24 + OPS_PER_BYTE * (3 + segments.len()),
{
    let t = transactions(brightness, segments);
    lemma_frame_ops_len(t[0]);
    lemma_frame_ops_len(t[1]);
    lemma_frame_ops_len(t[2]);
}

/// Showing `segments` keeps the bus timing: every transition of a line is
/// followed by one bit delay.
pub proof fn lemma_display_ops_paced(brightness: u8, segments: Seq<u8>)
    ensures
        paced(display_ops(brightness, segments)),
{
    let t = transactions(brightness, segments);
    lemma_frames_paced(t[0], t[1], t[2]);
}

/// On an idle bus, showing `segments` raises exactly three start conditions
/// and three stop conditions, and leaves the bus idle: three framed
/// transactions, whatever the segment bytes and the brightness.
pub proof fn lemma_display_ops_framing(brightness: u8, segments: Seq<u8>)
    ensures
        run(idle(), display_ops(brightness, segments)) == (Wire {
            starts: 3,
            stops: 3,
            ..idle()
        }),
{
    let t = transactions(brightness, segments);
    let first = run(idle(), frame_ops(t[0]));
    let second = run(first, frame_ops(t[1]));
    lemma_frame_is_framed(idle(), t[0]);
    lemma_frame_is_framed(first, t[1]);
    lemma_frame_is_framed(second, t[2]);
    lemma_run_concat(idle(), frame_ops(t[0]), frame_ops(t[1]));
    lemma_run_concat(idle(), frame_ops(t[0]) + frame_ops(t[1]), frame_ops(t[2]));
}

/// Configuring the lines leaves the bus idle.
pub proof fn lemma_setup_leaves_idle(wire: Wire)
    ensures
        run(wire, setup_ops()) == (Wire { clk: true, dio: true, ..wire }),
{
    let none = Seq::<BusOp>::empty();
    let one = none.push(BusOp::OutputHigh(Line::Clk));
    lemma_run_push(wire, none, BusOp::OutputHigh(Line::Clk));
    lemma_run_push(wire, one, BusOp::OutputHigh(Line::Dio));
    assert(setup_ops() =~= one.push(BusOp::OutputHigh(Line::Dio)));
}

} // verus!
