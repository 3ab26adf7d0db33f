//! What the bus operations do to the two lines: the levels they leave and
//! the start and stop conditions they raise.

use crate::bus::{
    bit_of, bit_ops, bits_ops, byte_ops, bytes_ops, frame_ops, start_ops, stop_ops, trailer_ops,
    BusOp, Line,
};
use vstd::prelude::*;

verus! {

/// The levels of the two lines, and how many start and stop conditions the
/// bus has seen.
pub ghost struct Wire {
    pub clk: bool,
    pub dio: bool,
    pub starts: nat,
    pub stops: nat,
}

/// The idle bus: both lines high, nothing seen yet.
pub open spec fn idle() -> Wire {
    Wire { clk: true, dio: true, starts: 0, stops: 0 }
}

/// The bus after one operation. Data falling while the clock is high is a
/// start condition; data rising while the clock is high is a stop condition.
pub open spec fn step(wire: Wire, op: BusOp) -> Wire {
    match op {
        BusOp::OutputHigh(Line::Clk) => Wire { clk: true, ..wire },
        BusOp::OutputHigh(Line::Dio) => Wire { dio: true, ..wire },
        BusOp::Drive(Line::Clk, high) => Wire { clk: high, ..wire },
        BusOp::Drive(Line::Dio, high) => Wire {
            dio: high,
            starts: if wire.clk && wire.dio && !high {
                wire.starts + 1
            } else {
                wire.starts
            },
            stops: if wire.clk && !wire.dio && high {
                wire.stops + 1
            } else {
                wire.stops
            },
            ..wire
        },
        BusOp::Delay => wire,
    }
}

/// The bus after a run of operations.
pub open spec fn run(wire: Wire, ops: Seq<BusOp>) -> Wire
    decreases ops.len(),
{
    if ops.len() == 0 {
        wire
    } else {
        step(run(wire, ops.drop_last()), ops.last())
    }
}

/// Running one more operation is one more step.
pub proof fn lemma_run_push(wire: Wire, ops: Seq<BusOp>, op: BusOp)
    ensures
        run(wire, ops.push(op)) == step(run(wire, ops), op),
{
    assert(ops.push(op).drop_last() =~= ops);
}

/// Running two runs of operations one after the other is running the second
/// from where the first left the bus.
pub proof fn lemma_run_concat(wire: Wire, a: Seq<BusOp>, b: Seq<BusOp>)
    ensures
        run(wire, a + b) == run(run(wire, a), b),
    decreases b.len(),
{
    if b.len() == 0 {
        assert(a + b =~= a);
    } else {
        lemma_run_concat(wire, a, b.drop_last());
        assert((a + b).drop_last() =~= a + b.drop_last());
    }
}

proof fn lemma_run_two(wire: Wire, o1: BusOp, o2: BusOp)
    ensures
        run(wire, seq![o1, o2]) == step(step(wire, o1), o2),
{
    let s0 = Seq::<BusOp>::empty();
    lemma_run_push(wire, s0, o1);
    lemma_run_push(wire, s0.push(o1), o2);
    assert(seq![o1, o2] =~= s0.push(o1).push(o2));
}

proof fn lemma_run_six(wire: Wire, o1: BusOp, o2: BusOp, o3: BusOp, o4: BusOp, o5: BusOp, o6: BusOp)
    ensures
        run(wire, seq![o1, o2, o3, o4, o5, o6]) == step(
            step(step(step(step(step(wire, o1), o2), o3), o4), o5),
            o6,
        ),
{
    let s0 = Seq::<BusOp>::empty();
    let s1 = s0.push(o1);
    let s2 = s1.push(o2);
    let s3 = s2.push(o3);
    let s4 = s3.push(o4);
    let s5 = s4.push(o5);
    lemma_run_push(wire, s0, o1);
    lemma_run_push(wire, s1, o2);
    lemma_run_push(wire, s2, o3);
    lemma_run_push(wire, s3, o4);
    lemma_run_push(wire, s4, o5);
    lemma_run_push(wire, s5, o6);
    assert(seq![o1, o2, o3, o4, o5, o6] =~= s5.push(o6));
}

/// The start of a transaction raises one start condition on a bus whose
/// lines are both high, and leaves the data line low.
pub proof fn lemma_start_raises_start(wire: Wire)
    requires
        wire.clk,
        wire.dio,
    ensures
        run(wire, start_ops()) == (Wire { dio: false, starts: wire.starts + 1, ..wire }),
{
    lemma_run_two(wire, BusOp::Drive(Line::Dio, false), BusOp::Delay);
}

/// The end of a transaction raises one stop condition and leaves both lines
/// high, from any state but the idle one.
pub proof fn lemma_stop_raises_stop(wire: Wire)
    requires
        !(wire.clk && wire.dio),
    ensures
        run(wire, stop_ops()) == (Wire { clk: true, dio: true, stops: wire.stops + 1, ..wire }),
{
    lemma_run_six(
        wire,
        BusOp::Drive(Line::Dio, false),
        BusOp::Delay,
        BusOp::Drive(Line::Clk, true),
        BusOp::Delay,
        BusOp::Drive(Line::Dio, true),
        BusOp::Delay,
    );
}

proof fn lemma_bit_raises_nothing(wire: Wire, high: bool)
    ensures
        run(wire, bit_ops(high)) == (Wire { clk: true, dio: high, ..wire }),
{
    lemma_run_six(
        wire,
        BusOp::Drive(Line::Clk, false),
        BusOp::Delay,
        BusOp::Drive(Line::Dio, high),
        BusOp::Delay,
        BusOp::Drive(Line::Clk, true),
        BusOp::Delay,
    );
}

proof fn lemma_trailer_raises_nothing(wire: Wire)
    ensures
        run(wire, trailer_ops()) == (Wire { clk: false, ..wire }),
{
    lemma_run_six(
        wire,
        BusOp::Drive(Line::Clk, false),
        BusOp::Delay,
        BusOp::Drive(Line::Clk, true),
        BusOp::Delay,
        BusOp::Drive(Line::Clk, false),
        BusOp::Delay,
    );
}

proof fn lemma_bits_raise_nothing(wire: Wire, b: u8, n: nat)
    requires
        0 < n <= 8,
    ensures
        run(wire, bits_ops(b, n)) == (Wire {
            clk: true,
            dio: bit_of(b, (n - 1) as u8),
            ..wire
        }),
    decreases n,
{
    let m = (n - 1) as nat;
    if m > 0 {
        lemma_bits_raise_nothing(wire, b, m);
    }
    lemma_run_concat(wire, bits_ops(b, m), bit_ops(bit_of(b, m as u8)));
    lemma_bit_raises_nothing(run(wire, bits_ops(b, m)), bit_of(b, m as u8));
}

/// A byte raises neither a start nor a stop condition, whatever its bits:
/// the data line moves only while the clock is low. It leaves the clock low
/// and the data line at the byte's highest bit.
pub proof fn lemma_byte_raises_nothing(wire: Wire, b: u8)
    ensures
        run(wire, byte_ops(b)) == (Wire { clk: false, dio: bit_of(b, 7), ..wire }),
{
    lemma_bits_raise_nothing(wire, b, 8);
    lemma_run_concat(wire, bits_ops(b, 8), trailer_ops());
    lemma_trailer_raises_nothing(run(wire, bits_ops(b, 8)));
}

proof fn lemma_bytes_raise_nothing(wire: Wire, bytes: Seq<u8>)
    ensures
        run(wire, bytes_ops(bytes)).starts == wire.starts,
        run(wire, bytes_ops(bytes)).stops == wire.stops,
        bytes.len() > 0 ==> !run(wire, bytes_ops(bytes)).clk,
        bytes.len() == 0 ==> run(wire, bytes_ops(bytes)) == wire,
    decreases bytes.len(),
{
    if bytes.len() > 0 {
        lemma_bytes_raise_nothing(wire, bytes.drop_last());
        lemma_run_concat(wire, bytes_ops(bytes.drop_last()), byte_ops(bytes.last()));
        lemma_byte_raises_nothing(run(wire, bytes_ops(bytes.drop_last())), bytes.last());
    }
}

/// A transaction on a bus whose lines are both high raises exactly one start
/// condition and one stop condition, whatever bytes it carries, and leaves
/// both lines high again.
pub proof fn lemma_frame_is_framed(wire: Wire, bytes: Seq<u8>)
    requires
        wire.clk,
        wire.dio,
    ensures
        run(wire, frame_ops(bytes)) == (Wire {
            starts: wire.starts + 1,
            stops: wire.stops + 1,
            ..wire
        }),
{
    let started = run(wire, start_ops());
    let sent = run(started, bytes_ops(bytes));
    lemma_start_raises_start(wire);
    lemma_bytes_raise_nothing(started, bytes);
    lemma_stop_raises_stop(sent);
    lemma_run_concat(wire, start_ops(), bytes_ops(bytes));
    lemma_run_concat(wire, start_ops() + bytes_ops(bytes), stop_ops());
}

} // verus!
