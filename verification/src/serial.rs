//! Shifting one byte out over a clock line and a data line.
//!
//! The byte goes most significant bit first. For each bit the data line is
//! set, then the clock is raised and dropped again; the controller samples the
//! data line on the falling edge.

use crate::link::{halted, Line, Link, Signal};
use vstd::prelude::*;

verus! {

/// Bit `n` of `byte`, bit 0 being the least significant.
pub open spec fn bit(byte: u8, n: u8) -> bool {
    (byte >> n) & 1 == 1
}

/// One bit on the wire: the data line takes the bit's value, then the clock
/// pulses.
pub open spec fn clocked(level: bool) -> Seq<Signal> {
    seq![
        Signal::Level(Line::Data, level),
        Signal::Level(Line::Clock, true),
        Signal::Level(Line::Clock, false),
    ]
}

/// One byte on the wire: its eight bits, the most significant first.
#[verifier::opaque]
pub open spec fn shift_out(byte: u8) -> Seq<Signal> {
    clocked(bit(byte, 7)) + clocked(bit(byte, 6)) + clocked(bit(byte, 5)) + clocked(bit(byte, 4))
        + clocked(bit(byte, 3)) + clocked(bit(byte, 2)) + clocked(bit(byte, 1)) + clocked(
        bit(byte, 0),
    )
}

/// The signal number `i` of a byte on the wire: bit `7 - i / 3` is being
/// sent, and `i % 3` says how far: data line, clock up, clock down.
pub open spec fn signal_at(byte: u8, i: int) -> Signal {
    if i % 3 == 0 {
        Signal::Level(Line::Data, bit(byte, (7 - i / 3) as u8))
    } else {
        Signal::Level(Line::Clock, i % 3 == 1)
    }
}

/// Shifting a byte out takes 24 signals, three for each bit. Bit `n` has the
/// three that start at `3 * (7 - n)`: first the data line is set to the bit,
/// then the clock rises, then it falls. So right before the pulse for bit `n`
/// the data line has been given that bit, for `n` from 7 down to 0.
pub proof fn lemma_shift_out_bits(byte: u8)
    ensures
        shift_out(byte).len() == 24,
        forall|n: u8|
            #![trigger bit(byte, n)]
            n < 8 ==> {
                &&& shift_out(byte)[3 * (7 - n)] == Signal::Level(Line::Data, bit(byte, n))
                &&& shift_out(byte)[3 * (7 - n) + 1] == Signal::Level(Line::Clock, true)
                &&& shift_out(byte)[3 * (7 - n) + 2] == Signal::Level(Line::Clock, false)
            },
{
    reveal(shift_out);
}

/// Every signal of a byte on the wire, by its number.
pub proof fn lemma_shift_out_signals(byte: u8)
    ensures
        shift_out(byte).len() == 24,
        forall|i: int| 0 <= i < 24 ==> #[trigger] shift_out(byte)[i] == signal_at(byte, i),
{
    lemma_shift_out_bits(byte);
    let whole = shift_out(byte);
    assert forall|i: int| 0 <= i < 24 implies #[trigger] whole[i] == signal_at(byte, i) by {
        let n = (7 - i / 3) as u8;
        assert(n < 8);
        assert(bit(byte, n) == bit(byte, n));
        assert(i == 3 * (7 - n) + i % 3);
    }
}

/// The clock rises at the middle signal of each bit and nowhere else: eight
/// pulses to a byte.
pub proof fn lemma_shift_out_pulses(byte: u8)
    ensures
        forall|i: int|
            0 <= i < 24 ==> (#[trigger] shift_out(byte)[i] == Signal::Level(Line::Clock, true)
                <==> i % 3 == 1),
{
    lemma_shift_out_signals(byte);
}

/// Whether bit `n` of `byte` is set.
pub fn bit_is_set(byte: u8, n: u8) -> (level: bool)
    requires
        n < 8,
    ensures
        level == bit(byte, n),
{
    assert(((byte & (1u8 << n)) != 0) == ((byte >> n) & 1 == 1)) by (bit_vector)
        requires
            n < 8,
    ;
    (byte & (1u8 << n)) != 0
}

/// Puts one bit on the wire.
pub fn clock_in<L: Link>(link: &mut L, level: bool) -> (r: Result<(), L::Error>)
    ensures
        r is Ok ==> final(link).trace() == old(link).trace() + clocked(level),
        r is Ok ==> final(link).refused() == old(link).refused(),
        r matches Err(e) ==> halted(
            old(link).trace(),
            final(link).trace(),
            old(link).refused(),
            final(link).refused(),
            clocked(level),
            e,
        ),
{
    link.drive(Line::Data, level)?;
    link.drive(Line::Clock, true)?;
    link.drive(Line::Clock, false)
}

/// Shifts `byte` out, most significant bit first. The first line that fails
/// ends the transfer: the bits before it have gone out, nothing after it has.
pub fn send_byte<L: Link>(link: &mut L, byte: u8) -> (r: Result<(), L::Error>)
    ensures
        r is Ok ==> final(link).trace() == old(link).trace() + shift_out(byte),
        r is Ok ==> final(link).refused() == old(link).refused(),
        r matches Err(e) ==> halted(
            old(link).trace(),
            final(link).trace(),
            old(link).refused(),
            final(link).refused(),
            shift_out(byte),
            e,
        ),
{
    let ghost start = link.trace();
    let ghost whole = shift_out(byte);
    let mut n: u8 = 8;
    proof {
        lemma_shift_out_signals(byte);
    }
    while n > 0
        invariant
            n <= 8,
            start == old(link).trace(),
            link.refused() == old(link).refused(),
            whole == shift_out(byte),
            whole.len() == 24,
            forall|i: int| 0 <= i < 24 ==> #[trigger] whole[i] == signal_at(byte, i),
            link.trace() == start + whole.take(3 * (8 - n)),
        decreases n,
    {
        n = n - 1;
        let level = bit_is_set(byte, n);
        let ghost sent = 3 * (7 - n);
        proof {
            assert(whole[sent] == signal_at(byte, sent));
            assert(whole[sent + 1] == signal_at(byte, sent + 1));
            assert(whole[sent + 2] == signal_at(byte, sent + 2));
            assert(clocked(level)[0] == whole[sent] && clocked(level)[1] == whole[sent + 1]
                && clocked(level)[2] == whole[sent + 2]);
            let mid = start + whole.take(sent);
            assert(mid + clocked(level).take(0) =~= start + whole.take(sent));
            assert(mid + clocked(level).take(1) =~= start + whole.take(sent + 1));
            assert(mid + clocked(level).take(2) =~= start + whole.take(sent + 2));
            assert(mid + clocked(level) =~= start + whole.take(sent + 3));
        }
        clock_in(link, level)?;
    }
    assert(whole.take(24) =~= whole);
    Ok(())
}

} // verus!
