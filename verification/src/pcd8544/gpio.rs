//! The PCD8544 on plain output lines: every bit is clocked out by hand.

use crate::channel::{wire, Channel};
use crate::channel::broke_off;
use crate::link::{
    abandoned, given_up, halted, lemma_given_up_lodged, lemma_stopped_within, lodged, release, released, Line, Link,
    Refusal, Signal,
};
use crate::pcd8544::{init_frames, reset_signals, Pcd8544, Pcd8544Base};
use crate::serial::{send_byte, shift_out};
use vstd::prelude::*;

verus! {

/// A PCD8544 on a clock line, a data line, a command/data line and a chip
/// select.
pub struct Pcd8544Gpio<L> {
    link: L,
}

/// A run of bytes on the wire, bit by bit.
pub open spec fn byte_bits(bytes: Seq<u8>) -> Seq<Signal>
    decreases bytes.len(),
{
    if bytes.len() == 0 {
        Seq::empty()
    } else {
        byte_bits(bytes.drop_last()) + shift_out(bytes.last())
    }
}

/// A command on the wire: the command/data line goes low, chip select falls,
/// the byte goes out, chip select rises.
pub open spec fn command_burst(cmd: u8) -> Seq<Signal> {
    seq![Signal::Level(Line::Mode, false), Signal::Level(Line::Select, false)] + shift_out(cmd)
        + seq![released()]
}

/// A run of data bytes on the wire: the command/data line goes high, chip
/// select falls once, all the bytes go out, chip select rises once.
pub open spec fn data_burst(bytes: Seq<u8>) -> Seq<Signal> {
    seq![Signal::Level(Line::Mode, true), Signal::Level(Line::Select, false)] + byte_bits(bytes)
        + seq![released()]
}

/// Bytes that follow each other on the wire are the first lot and then the
/// second.
pub proof fn lemma_byte_bits_concat(head: Seq<u8>, tail: Seq<u8>)
    ensures
        byte_bits(head + tail) == byte_bits(head) + byte_bits(tail),
    decreases tail.len(),
{
    if tail.len() == 0 {
        assert(head + tail =~= head);
        assert(byte_bits(head) + byte_bits(tail) =~= byte_bits(head));
    } else {
        assert((head + tail).drop_last() =~= head + tail.drop_last());
        lemma_byte_bits_concat(head, tail.drop_last());
        assert(byte_bits(head) + (byte_bits(tail.drop_last()) + shift_out(tail.last()))
            =~= (byte_bits(head) + byte_bits(tail.drop_last())) + shift_out(tail.last()));
    }
}

/// Whether a start on `link` that failed with `error` got as far as `reached`.
/// Either the link stopped the reset, and refused with `error` the signal
/// that was next; or the reset went through and bringing the controller up
/// broke off, with a refusal lodged for `error`.
pub open spec fn start_failed<L: Link>(link: L, reached: Pcd8544Gpio<L>, error: L::Error) -> bool {
    ||| halted(
        link.trace(),
        reached.trace(),
        link.refused(),
        reached.refused(),
        reset_signals(),
        error,
    )
    ||| {
        &&& broke_off::<Pcd8544Gpio<L>>(
            link.trace() + reset_signals(),
            reached.trace(),
            init_frames(),
        )
        &&& lodged(link.refused(), reached.refused(), error)
    }
}

/// Whether a start on `link` can fail with `error`: whether there is a
/// state that it gets as far as.
pub open spec fn start_fails<L: Link>(link: L, error: L::Error) -> bool {
    exists|reached: Pcd8544Gpio<L>| start_failed(link, reached, error)
}

impl<L: Link> Pcd8544Gpio<L> {
    /// A driver on `link`, for a controller that is already up. Nothing is
    /// sent.
    pub fn attach(link: L) -> (pcd: Self)
        ensures
            pcd.trace() == link.trace(),
            pcd.refused() == link.refused(),
    {
        Pcd8544Gpio { link }
    }

    /// Resets the controller on `link` and brings it up.
    pub fn new(link: L) -> (r: Result<Self, L::Error>)
        ensures
            r matches Ok(pcd) ==> pcd.trace() == link.trace() + reset_signals() + wire::<Self>(
                init_frames(),
            ) && pcd.refused() == link.refused(),
            r matches Err(e) ==> start_fails(link, e),
    {
        let ghost start = link;
        let mut pcd = Pcd8544Gpio { link };
        match pcd.reset() {
            Ok(()) => {},
            Err(e) => {
                assert(start_failed(start, pcd, e));
                assert(start_fails(start, e));
                return Err(e);
            },
        }
        match pcd.init() {
            Ok(()) => Ok(pcd),
            Err(e) => {
                assert(start_failed(start, pcd, e));
                assert(start_fails(start, e));
                Err(e)
            },
        }
    }

    /// Gives the link back.
    pub fn detach(self) -> (link: L)
        ensures
            link.trace() == self.trace(),
            link.refused() == self.refused(),
    {
        self.link
    }

    /// The link.
    pub fn link(&self) -> (link: &L)
        ensures
            link.trace() == self.trace(),
            link.refused() == self.refused(),
    {
        &self.link
    }

    /// Pulses the reset line.
    pub fn reset(&mut self) -> (r: Result<(), L::Error>)
        ensures
            r is Ok ==> final(self).trace() == old(self).trace() + reset_signals(),
            r is Ok ==> final(self).refused() == old(self).refused(),
            r matches Err(e) ==> halted(
                old(self).trace(),
                final(self).trace(),
                old(self).refused(),
                final(self).refused(),
                reset_signals(),
                e,
            ),
    {
        self.link.drive(Line::Reset, false)?;
        self.link.pause(10);
        self.link.drive(Line::Reset, true)
    }

    /// Shifts `byte` out, most significant bit first, without touching chip
    /// select.
    pub fn send(&mut self, byte: u8) -> (r: Result<(), L::Error>)
        ensures
            r is Ok ==> final(self).trace() == old(self).trace() + shift_out(byte),
            r is Ok ==> final(self).refused() == old(self).refused(),
            r matches Err(e) ==> halted(
                old(self).trace(),
                final(self).trace(),
                old(self).refused(),
                final(self).refused(),
                shift_out(byte),
                e,
            ),
    {
        send_byte(&mut self.link, byte)
    }

    /// Shifts each of `bytes` out.
    fn send_all(&mut self, bytes: &[u8]) -> (r: Result<(), L::Error>)
        ensures
            r is Ok ==> final(self).trace() == old(self).trace() + byte_bits(bytes@),
            r is Ok ==> final(self).refused() == old(self).refused(),
            r matches Err(e) ==> halted(
                old(self).trace(),
                final(self).trace(),
                old(self).refused(),
                final(self).refused(),
                byte_bits(bytes@),
                e,
            ),
    {
        let ghost start = self.trace();
        let mut i: usize = 0;
        proof {
            assert(bytes@.take(0) =~= Seq::<u8>::empty());
            assert(start + byte_bits(bytes@.take(0)) =~= start);
        }
        while i < bytes.len()
            invariant
                i <= bytes.len(),
                start == old(self).trace(),
                self.refused() == old(self).refused(),
                self.trace() == start + byte_bits(bytes@.take(i as int)),
            decreases bytes.len() - i,
        {
            proof {
                let done = bytes@.take(i as int);
                let rest = bytes@.skip(i + 1);
                assert(bytes@.take(i + 1).drop_last() =~= done);
                assert(bytes@ =~= bytes@.take(i + 1) + rest);
                lemma_byte_bits_concat(bytes@.take(i + 1), rest);
                lemma_stopped_within(
                    start,
                    byte_bits(done),
                    shift_out(bytes@[i as int]),
                    byte_bits(rest),
                );
            }
            self.send(bytes[i])?;
            i = i + 1;
        }
        assert(bytes@.take(i as int) =~= bytes@);
        Ok(())
    }
}

impl<L: Link> Channel for Pcd8544Gpio<L> {
    type Error = L::Error;

    closed spec fn trace(&self) -> Seq<Signal> {
        self.link.trace()
    }

    closed spec fn refused(&self) -> Seq<Refusal<Self::Error>> {
        self.link.refused()
    }

    open spec fn command_signals(cmd: u8) -> Seq<Signal> {
        command_burst(cmd)
    }

    open spec fn data_signals(data: Seq<u8>) -> Seq<Signal> {
        data_burst(data)
    }

    /// Sends one command byte. If the link fails while chip select is held,
    /// one attempt is made to release it.
    fn command(&mut self, cmd: u8) -> (r: Result<(), L::Error>)
        ensures
            r is Err ==> abandoned(old(self).trace(), final(self).trace(), command_burst(cmd), 2),
            r matches Err(e) ==> given_up(
                old(self).trace(),
                final(self).trace(),
                old(self).refused(),
                final(self).refused(),
                command_burst(cmd),
                2,
                false,
                e,
            ),
    {
        self.link.drive(Line::Mode, false)?;
        self.link.drive(Line::Select, false)?;
        let sent = self.send(cmd);
        let r = release(&mut self.link, sent);
        proof {
            if r is Err {
                lemma_given_up_lodged(
                    old(self).trace(),
                    self.trace(),
                    old(self).refused(),
                    self.refused(),
                    command_burst(cmd),
                    2,
                    false,
                    r->Err_0,
                );
            }
        }
        r
    }

    /// Sends a run of data bytes under one chip select. If the link fails
    /// while chip select is held, one attempt is made to release it.
    fn data(&mut self, data: &[u8]) -> (r: Result<(), L::Error>)
        ensures
            r is Err ==> abandoned(old(self).trace(), final(self).trace(), data_burst(data@), 2),
            r matches Err(e) ==> given_up(
                old(self).trace(),
                final(self).trace(),
                old(self).refused(),
                final(self).refused(),
                data_burst(data@),
                2,
                false,
                e,
            ),
    {
        self.link.drive(Line::Mode, true)?;
        self.link.drive(Line::Select, false)?;
        let sent = self.send_all(data);
        let r = release(&mut self.link, sent);
        proof {
            if r is Err {
                lemma_given_up_lodged(
                    old(self).trace(),
                    self.trace(),
                    old(self).refused(),
                    self.refused(),
                    data_burst(data@),
                    2,
                    false,
                    r->Err_0,
                );
            }
        }
        r
    }
}

impl<L: Link> Pcd8544Base for Pcd8544Gpio<L> {

}

} // verus!
