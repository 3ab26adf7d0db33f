//! The two-wire bus: the line operations that frame a transaction and clock
//! out a byte, least significant bit first.

use vstd::prelude::*;

verus! {

/// One of the two lines of the bus.
#[derive(Clone, Copy, Debug, PartialEq, Eq)]
pub enum Line {
    /// The clock line.
    Clk,
    /// The data line.
    Dio,
}

/// One step that the caller performs on the bus, in the order given.
#[derive(Clone, Copy, Debug, PartialEq, Eq)]
pub enum BusOp {
    /// Configure the line as an output that starts high.
    OutputHigh(Line),
    /// Drive the line high (`true`) or low (`false`).
    Drive(Line, bool),
    /// Wait for one bit delay.
    Delay,
}

/// Number of operations that clock out one byte: six for each of the eight
/// bits and six for the trailer.
pub const OPS_PER_BYTE: usize = 54;

/// Start of a transaction: data goes low while the clock is high.
pub open spec fn start_ops() -> Seq<BusOp> {
    seq![BusOp::Drive(Line::Dio, false), BusOp::Delay]
}

/// End of a transaction: data low, clock high, data high.
pub open spec fn stop_ops() -> Seq<BusOp> {
    seq![
        BusOp::Drive(Line::Dio, false),
        BusOp::Delay,
        BusOp::Drive(Line::Clk, true),
        BusOp::Delay,
        BusOp::Drive(Line::Dio, true),
        BusOp::Delay,
    ]
}

/// One data bit: clock low, the bit on the data line, clock high.
pub open spec fn bit_ops(high: bool) -> Seq<BusOp> {
    seq![
        BusOp::Drive(Line::Clk, false),
        BusOp::Delay,
        BusOp::Drive(Line::Dio, high),
        BusOp::Delay,
        BusOp::Drive(Line::Clk, true),
        BusOp::Delay,
    ]
}

/// What follows the eighth bit: three clock transitions, during which the
/// data line is neither driven nor read.
pub open spec fn trailer_ops() -> Seq<BusOp> {
    seq![
        BusOp::Drive(Line::Clk, false),
        BusOp::Delay,
        BusOp::Drive(Line::Clk, true),
        BusOp::Delay,
        BusOp::Drive(Line::Clk, false),
        BusOp::Delay,
    ]
}

/// Bit `i` of `b`, counted from the least significant.
pub open spec fn bit_of(b: u8, i: u8) -> bool {
    (b >> i) & 1 == 1
}

/// The lowest `n` bits of `b`, least significant first.
pub open spec fn bits_ops(b: u8, n: nat) -> Seq<BusOp>
    decreases n,
{
    if n == 0 {
        Seq::empty()
    } else {
        bits_ops(b, (n - 1) as nat) + bit_ops(bit_of(b, (n - 1) as u8))
    }
}

/// One byte on the bus: its eight bits, then the trailer.
pub open spec fn byte_ops(b: u8) -> Seq<BusOp> {
    bits_ops(b, 8) + trailer_ops()
}

/// Several bytes on the bus, in order.
pub open spec fn bytes_ops(bytes: Seq<u8>) -> Seq<BusOp>
    decreases bytes.len(),
{
    if bytes.len() == 0 {
        Seq::empty()
    } else {
        bytes_ops(bytes.drop_last()) + byte_ops(bytes.last())
    }
}

/// One transaction: start, the bytes, stop.
pub open spec fn frame_ops(bytes: Seq<u8>) -> Seq<BusOp> {
    start_ops() + bytes_ops(bytes) + stop_ops()
}

/// Appends one bit delay.
pub fn bit_delay(ops: &mut Vec<BusOp>)
    ensures
        final(ops)@ == old(ops)@.push(BusOp::Delay),
{
    ops.push(BusOp::Delay);
}

/// Appends the start of a transaction.
pub fn start(ops: &mut Vec<BusOp>)
    ensures
        final(ops)@ == old(ops)@ + start_ops(),
{
    ops.push(BusOp::Drive(Line::Dio, false));
    bit_delay(ops);
    assert(ops@ =~= old(ops)@ + start_ops());
}

/// Appends the end of a transaction.
pub fn stop(ops: &mut Vec<BusOp>)
    ensures
        final(ops)@ == old(ops)@ + stop_ops(),
{
    ops.push(BusOp::Drive(Line::Dio, false));
    bit_delay(ops);
    ops.push(BusOp::Drive(Line::Clk, true));
    bit_delay(ops);
    ops.push(BusOp::Drive(Line::Dio, true));
    bit_delay(ops);
    assert(ops@ =~= old(ops)@ + stop_ops());
}

/// Appends one byte, least significant bit first, and the trailer after it.
pub fn write_byte(ops: &mut Vec<BusOp>, b: u8)
    ensures
        final(ops)@ == old(ops)@ + byte_ops(b),
{
    let mut rest: u8 = b;
    let mut i: u8 = 0;
    assert(b >> 0u8 == b) by (bit_vector);
    while i < 8
        invariant
            i <= 8,
            i < 8 ==> rest == b >> i,
            ops@ == old(ops)@ + bits_ops(b, i as nat),
        decreases 8 - i,
    {
        let ghost before = ops@;
        let high = rest & 1 == 1;
        ops.push(BusOp::Drive(Line::Clk, false));
        bit_delay(ops);
        ops.push(BusOp::Drive(Line::Dio, high));
        bit_delay(ops);
        ops.push(BusOp::Drive(Line::Clk, true));
        bit_delay(ops);
        proof {
            assert(i < 7 ==> (b >> i) >> 1u8 == b >> ((i + 1) as u8)) by (bit_vector);
            assert(ops@ =~= before + bit_ops(bit_of(b, i)));
            assert(ops@ =~= old(ops)@ + bits_ops(b, (i + 1) as nat));
        }
        rest = rest >> 1;
        i = i + 1;
    }
    let ghost before = ops@;
    ops.push(BusOp::Drive(Line::Clk, false));
    bit_delay(ops);
    ops.push(BusOp::Drive(Line::Clk, true));
    bit_delay(ops);
    ops.push(BusOp::Drive(Line::Clk, false));
    bit_delay(ops);
    assert(ops@ =~= before + trailer_ops());
    assert(ops@ =~= old(ops)@ + byte_ops(b));
}

/// Appending a byte to a run of bytes appends its operations.
pub proof fn lemma_bytes_ops_push(bytes: Seq<u8>, b: u8)
    ensures
        bytes_ops(bytes.push(b)) == bytes_ops(bytes) + byte_ops(b),
{
    assert(bytes.push(b).drop_last() =~= bytes);
}

/// The lowest `n` bits take six operations each, and the bit at place `i`
/// stands at the operations from `6 * i` on.
pub proof fn lemma_bits_ops_layout(b: u8, n: nat)
    requires
        n <= 8,
    ensures
        bits_ops(b, n).len() == 6 * n,
        forall|i: int|
            0 <= i < n ==> #[trigger] bits_ops(b, n).subrange(6 * i, 6 * i + 6) == bit_ops(
                bit_of(b, i as u8),
            ),
    decreases n,
{
    if n > 0 {
        let m = (n - 1) as nat;
        lemma_bits_ops_layout(b, m);
        let shorter = bits_ops(b, m);
        let longer = bits_ops(b, n);
        assert forall|i: int| 0 <= i < n implies #[trigger] longer.subrange(6 * i, 6 * i + 6)
            == bit_ops(bit_of(b, i as u8)) by {
            if i < m {
                assert(longer.subrange(6 * i, 6 * i + 6) =~= shorter.subrange(6 * i, 6 * i + 6));
            } else {
                assert(longer.subrange(6 * i, 6 * i + 6) =~= bit_ops(bit_of(b, m as u8)));
            }
        }
    }
}

/// A byte on the bus is 54 operations: its bits from the least significant
/// to the most significant, six operations each with the bit driven on the
/// data line, and then the trailer, which touches the clock line only.
pub proof fn lemma_byte_ops_layout(b: u8)
    ensures
        byte_ops(b).len() == OPS_PER_BYTE,
        forall|i: int|
            0 <= i < 8 ==> #[trigger] byte_ops(b).subrange(6 * i, 6 * i + 6) == bit_ops(
                bit_of(b, i as u8),
            ),
        byte_ops(b).subrange(48, 54) == trailer_ops(),
{
    lemma_bits_ops_layout(b, 8);
    let bits = bits_ops(b, 8);
    assert forall|i: int| 0 <= i < 8 implies #[trigger] byte_ops(b).subrange(6 * i, 6 * i + 6)
        == bit_ops(bit_of(b, i as u8)) by {
        assert(byte_ops(b).subrange(6 * i, 6 * i + 6) =~= bits.subrange(6 * i, 6 * i + 6));
    }
    assert(byte_ops(b).subrange(48, 54) =~= trailer_ops());
}

/// A run of bytes takes 54 operations for each byte.
pub proof fn lemma_bytes_ops_len(bytes: Seq<u8>)
    ensures
        bytes_ops(bytes).len() == OPS_PER_BYTE * bytes.len(),
    decreases bytes.len(),
{
    if bytes.len() > 0 {
        lemma_bytes_ops_len(bytes.drop_last());
        lemma_byte_ops_layout(bytes.last());
    }
}

/// A transaction takes two operations to start, 54 for each byte and six to
/// stop.
pub proof fn lemma_frame_ops_len(bytes: Seq<u8>)
    ensures
        frame_ops(bytes).len() == 8 + OPS_PER_BYTE * bytes.len(),
{
    lemma_bytes_ops_len(bytes);
}

/// Whether the operations alternate between driving a line and waiting:
/// every transition is followed by one bit delay, and nothing else occurs.
pub open spec fn paced(ops: Seq<BusOp>) -> bool {
    &&& ops.len() % 2 == 0
    &&& forall|i: int|
        0 <= i < ops.len() ==> if i % 2 == 0 {
            #[trigger] ops[i] is Drive
        } else {
            ops[i] is Delay
        }
}

proof fn lemma_paced_concat(a: Seq<BusOp>, b: Seq<BusOp>)
    requires
        paced(a),
        paced(b),
    ensures
        paced(a + b),
{
    assert forall|i: int| 0 <= i < (a + b).len() implies if i % 2 == 0 {
        #[trigger] (a + b)[i] is Drive
    } else {
        (a + b)[i] is Delay
    } by {
        if i >= a.len() {
            assert((a + b)[i] == b[i - a.len()]);
        } else {
            assert((a + b)[i] == a[i]);
        }
    }
}

proof fn lemma_bits_ops_paced(b: u8, n: nat)
    ensures
        paced(bits_ops(b, n)),
    decreases n,
{
    if n > 0 {
        lemma_bits_ops_paced(b, (n - 1) as nat);
        lemma_paced_concat(bits_ops(b, (n - 1) as nat), bit_ops(bit_of(b, (n - 1) as u8)));
    }
}

proof fn lemma_bytes_ops_paced(bytes: Seq<u8>)
    ensures
        paced(bytes_ops(bytes)),
    decreases bytes.len(),
{
    if bytes.len() > 0 {
        lemma_bytes_ops_paced(bytes.drop_last());
        lemma_bits_ops_paced(bytes.last(), 8);
        lemma_paced_concat(bits_ops(bytes.last(), 8), trailer_ops());
        lemma_paced_concat(bytes_ops(bytes.drop_last()), byte_ops(bytes.last()));
    }
}

/// Within a transaction every transition of a line is followed by one bit
/// delay.
pub proof fn lemma_frame_ops_paced(bytes: Seq<u8>)
    ensures
        paced(frame_ops(bytes)),
{
    lemma_bytes_ops_paced(bytes);
    lemma_paced_concat(start_ops(), bytes_ops(bytes));
    lemma_paced_concat(start_ops() + bytes_ops(bytes), stop_ops());
}

/// Transactions that follow one another keep the pace.
pub proof fn lemma_frames_paced(first: Seq<u8>, second: Seq<u8>, third: Seq<u8>)
    ensures
        paced(frame_ops(first) + frame_ops(second) + frame_ops(third)),
{
    lemma_frame_ops_paced(first);
    lemma_frame_ops_paced(second);
    lemma_frame_ops_paced(third);
    lemma_paced_concat(frame_ops(first), frame_ops(second));
    lemma_paced_concat(frame_ops(first) + frame_ops(second), frame_ops(third));
}

} // verus!
