//! The HX1230 on plain output lines: every bit is clocked out by hand.

use crate::channel::{wire, Channel, Frame};
use crate::hx1230::{
    blank_frames, clear, init_frames, position_frames, set_position, Hx1230, Hx1230Base, COLUMNS,
    PAGES, ROWS, TEXT_COLUMNS,
};
use crate::channel::broke_off;
use crate::link::{
    abandoned, given_up, halted, lemma_given_up_lodged, lemma_stopped_within, lodged, release, released, Line, Link,
    Refusal, Signal,
};
use crate::serial::{clock_in, clocked, send_byte, shift_out};
use crate::{print_glyph, Display, DisplayError};
use vstd::prelude::*;

verus! {

/// An HX1230 on a clock line, a data line and a chip select.
pub struct Hx1230Gpio<L> {
    link: L,
}

/// The reset pulse: the line is let go for 50 ms, pulled low for 5 ms, and the
/// controller gets 10 ms to come out of reset.
pub open spec fn reset_signals() -> Seq<Signal> {
    seq![
        Signal::Level(Line::Reset, true),
        Signal::Pause(50),
        Signal::Level(Line::Reset, false),
        Signal::Pause(5),
        Signal::Level(Line::Reset, true),
        Signal::Pause(10),
    ]
}

/// One byte on the wire with the bit in front of it that tells the controller
/// what the byte is: low for a command, high for data.
pub open spec fn nine_bits(data: bool, byte: u8) -> Seq<Signal> {
    clocked(data) + shift_out(byte)
}

/// A run of data bytes on the wire, each with its own ninth bit.
pub open spec fn data_bits(bytes: Seq<u8>) -> Seq<Signal>
    decreases bytes.len(),
{
    if bytes.len() == 0 {
        Seq::empty()
    } else {
        data_bits(bytes.drop_last()) + nine_bits(true, bytes.last())
    }
}

/// A command on the wire: chip select falls, the nine bits go out, chip select
/// rises.
pub open spec fn command_burst(cmd: u8) -> Seq<Signal> {
    seq![Signal::Level(Line::Select, false)] + nine_bits(false, cmd) + seq![released()]
}

/// A run of data bytes on the wire: chip select falls once, all the bytes go
/// out, chip select rises once.
pub open spec fn data_burst(bytes: Seq<u8>) -> Seq<Signal> {
    seq![Signal::Level(Line::Select, false)] + data_bits(bytes) + seq![released()]
}

/// Data bytes that follow each other on the wire are the first lot and then
/// the second.
pub proof fn lemma_data_bits_concat(head: Seq<u8>, tail: Seq<u8>)
    ensures
        data_bits(head + tail) == data_bits(head) + data_bits(tail),
    decreases tail.len(),
{
    if tail.len() == 0 {
        assert(head + tail =~= head);
        assert(data_bits(head) + data_bits(tail) =~= data_bits(head));
    } else {
        assert((head + tail).drop_last() =~= head + tail.drop_last());
        lemma_data_bits_concat(head, tail.drop_last());
        assert(data_bits(head) + (data_bits(tail.drop_last()) + nine_bits(true, tail.last()))
            =~= (data_bits(head) + data_bits(tail.drop_last())) + nine_bits(true, tail.last()));
    }
}

/// Whether a start on `link` that failed with `error` got as far as `reached`.
/// Either the link stopped the reset, and refused with `error` the signal
/// that was next; or the reset went through and bringing the controller up
/// broke off, with a refusal lodged for `error`.
pub open spec fn start_failed<L: Link>(link: L, reached: Hx1230Gpio<L>, error: L::Error) -> bool {
    ||| halted(
        link.trace(),
        reached.trace(),
        link.refused(),
        reached.refused(),
        reset_signals(),
        error,
    )
    ||| {
        &&& broke_off::<Hx1230Gpio<L>>(
            link.trace() + reset_signals(),
            reached.trace(),
            init_frames(),
        )
        &&& lodged(link.refused(), reached.refused(), error)
    }
}

/// Whether a start on `link` can fail with `error`: whether there is a
/// state that it gets as far as.
pub open spec fn start_fails<L: Link>(link: L, error: L::Error) -> bool {
    exists|reached: Hx1230Gpio<L>| start_failed(link, reached, error)
}

impl<L: Link> Hx1230Gpio<L> {
    /// A driver on `link`, for a controller that is already up. Nothing is
    /// sent.
    pub fn attach(link: L) -> (hx: Self)
        ensures
            hx.trace() == link.trace(),
            hx.refused() == link.refused(),
    {
        Hx1230Gpio { link }
    }

    /// Resets the controller on `link` and brings it up.
    pub fn new(link: L) -> (r: Result<Self, L::Error>)
        ensures
            r matches Ok(hx) ==> hx.trace() == link.trace() + reset_signals() + wire::<Self>(
                init_frames(),
            ) && hx.refused() == link.refused(),
            r matches Err(e) ==> start_fails(link, e),
    {
        let ghost start = link;
        let mut hx = Hx1230Gpio { link };
        match hx.reset() {
            Ok(()) => {},
            Err(e) => {
                assert(start_failed(start, hx, e));
                assert(start_fails(start, e));
                return Err(e);
            },
        }
        match hx.init() {
            Ok(()) => Ok(hx),
            Err(e) => {
                assert(start_failed(start, hx, e));
                assert(start_fails(start, e));
                Err(e)
            },
        }
    }

    /// Gives the link back.
    pub fn detach(self) -> (link: L)
        ensures
            link.trace() == self.trace(),
            link.refused() == self.refused(),
    {
        self.link
    }

    /// The link.
    pub fn link(&self) -> (link: &L)
        ensures
            link.trace() == self.trace(),
            link.refused() == self.refused(),
    {
        &self.link
    }

    /// Pulses the reset line.
    pub fn reset(&mut self) -> (r: Result<(), L::Error>)
        ensures
            r is Ok ==> final(self).trace() == old(self).trace() + reset_signals(),
            r is Ok ==> final(self).refused() == old(self).refused(),
            r matches Err(e) ==> halted(
                old(self).trace(),
                final(self).trace(),
                old(self).refused(),
                final(self).refused(),
                reset_signals(),
                e,
            ),
    {
        self.link.drive(Line::Reset, true)?;
        self.link.pause(50);
        self.link.drive(Line::Reset, false)?;
        self.link.pause(5);
        self.link.drive(Line::Reset, true)?;
        self.link.pause(10);
        Ok(())
    }

    /// Shifts `byte` out, most significant bit first, without touching chip
    /// select.
    pub fn send(&mut self, byte: u8) -> (r: Result<(), L::Error>)
        ensures
            r is Ok ==> final(self).trace() == old(self).trace() + shift_out(byte),
            r is Ok ==> final(self).refused() == old(self).refused(),
            r matches Err(e) ==> halted(
                old(self).trace(),
                final(self).trace(),
                old(self).refused(),
                final(self).refused(),
                shift_out(byte),
                e,
            ),
    {
        send_byte(&mut self.link, byte)
    }

    /// Sends the ninth bit and then the byte.
    fn send_nine(&mut self, data: bool, byte: u8) -> (r: Result<(), L::Error>)
        ensures
            r is Ok ==> final(self).trace() == old(self).trace() + nine_bits(data, byte),
            r is Ok ==> final(self).refused() == old(self).refused(),
            r matches Err(e) ==> halted(
                old(self).trace(),
                final(self).trace(),
                old(self).refused(),
                final(self).refused(),
                nine_bits(data, byte),
                e,
            ),
    {
        proof {
            lemma_stopped_within(self.trace(), Seq::empty(), clocked(data), shift_out(byte));
            lemma_stopped_within(self.trace(), clocked(data), shift_out(byte), Seq::empty());
            assert(self.trace() + Seq::<Signal>::empty() =~= self.trace());
            assert(Seq::<Signal>::empty() + clocked(data) + shift_out(byte) =~= nine_bits(
                data,
                byte,
            ));
            assert(clocked(data) + shift_out(byte) + Seq::<Signal>::empty() =~= nine_bits(
                data,
                byte,
            ));
        }
        clock_in(&mut self.link, data)?;
        self.send(byte)
    }

    /// Sends each of `bytes` with a ninth bit that says data.
    fn send_data(&mut self, bytes: &[u8]) -> (r: Result<(), L::Error>)
        ensures
            r is Ok ==> final(self).trace() == old(self).trace() + data_bits(bytes@),
            r is Ok ==> final(self).refused() == old(self).refused(),
            r matches Err(e) ==> halted(
                old(self).trace(),
                final(self).trace(),
                old(self).refused(),
                final(self).refused(),
                data_bits(bytes@),
                e,
            ),
    {
        let ghost start = self.trace();
        let mut i: usize = 0;
        proof {
            assert(bytes@.take(0) =~= Seq::<u8>::empty());
            assert(start + data_bits(bytes@.take(0)) =~= start);
        }
        while i < bytes.len()
            invariant
                i <= bytes.len(),
                start == old(self).trace(),
                self.refused() == old(self).refused(),
                self.trace() == start + data_bits(bytes@.take(i as int)),
            decreases bytes.len() - i,
        {
            proof {
                let done = bytes@.take(i as int);
                let rest = bytes@.skip(i + 1);
                assert(bytes@.take(i + 1).drop_last() =~= done);
                assert(bytes@ =~= bytes@.take(i + 1) + rest);
                lemma_data_bits_concat(bytes@.take(i + 1), rest);
                lemma_stopped_within(
                    start,
                    data_bits(done),
                    nine_bits(true, bytes@[i as int]),
                    data_bits(rest),
                );
            }
            self.send_nine(true, bytes[i])?;
            i = i + 1;
        }
        assert(bytes@.take(i as int) =~= bytes@);
        Ok(())
    }
}

impl<L: Link> Channel for Hx1230Gpio<L> {
    type Error = L::Error;

    closed spec fn trace(&self) -> Seq<Signal> {
        self.link.trace()
    }

    closed spec fn refused(&self) -> Seq<Refusal<Self::Error>> {
        self.link.refused()
    }

    open spec fn command_signals(cmd: u8) -> Seq<Signal> {
        command_burst(cmd)
    }

    open spec fn data_signals(data: Seq<u8>) -> Seq<Signal> {
        data_burst(data)
    }

    /// Sends one command byte. If the link fails while chip select is held,
    /// one attempt is made to release it.
    fn command(&mut self, cmd: u8) -> (r: Result<(), L::Error>)
        ensures
            r is Err ==> abandoned(old(self).trace(), final(self).trace(), command_burst(cmd), 1),
            r matches Err(e) ==> given_up(
                old(self).trace(),
                final(self).trace(),
                old(self).refused(),
                final(self).refused(),
                command_burst(cmd),
                1,
                false,
                e,
            ),
    {
        self.link.drive(Line::Select, false)?;
        let sent = self.send_nine(false, cmd);
        let r = release(&mut self.link, sent);
        proof {
            if r is Err {
                lemma_given_up_lodged(
                    old(self).trace(),
                    self.trace(),
                    old(self).refused(),
                    self.refused(),
                    command_burst(cmd),
                    1,
                    false,
                    r->Err_0,
                );
            }
        }
        r
    }

    /// Sends a run of data bytes under one chip select. If the link fails
    /// while chip select is held, one attempt is made to release it.
    fn data(&mut self, data: &[u8]) -> (r: Result<(), L::Error>)
        ensures
            r is Err ==> abandoned(old(self).trace(), final(self).trace(), data_burst(data@), 1),
            r matches Err(e) ==> given_up(
                old(self).trace(),
                final(self).trace(),
                old(self).refused(),
                final(self).refused(),
                data_burst(data@),
                1,
                false,
                e,
            ),
    {
        self.link.drive(Line::Select, false)?;
        let sent = self.send_data(data);
        let r = release(&mut self.link, sent);
        proof {
            if r is Err {
                lemma_given_up_lodged(
                    old(self).trace(),
                    self.trace(),
                    old(self).refused(),
                    self.refused(),
                    data_burst(data@),
                    1,
                    false,
                    r->Err_0,
                );
            }
        }
        r
    }
}

impl<L: Link> Hx1230Base for Hx1230Gpio<L> {

}

impl<L: Link> Display for Hx1230Gpio<L> {
    open spec fn pixels() -> (u8, u8) {
        (COLUMNS, ROWS)
    }

    open spec fn cells() -> (u8, u8) {
        (TEXT_COLUMNS, PAGES)
    }

    open spec fn position_frames(x: u8, y: u8) -> Seq<Frame> {
        position_frames(x, y)
    }

    fn set_position(&mut self, x: u8, y: u8) -> (r: Result<(), L::Error>) {
        set_position(self, x, y)
    }

    fn clear(&mut self) -> (r: Result<(), L::Error>) {
        clear(self)
    }

    fn print_char(&mut self, c: u8) -> (r: Result<(), DisplayError<L::Error>>) {
        print_glyph(self, c)
    }

    fn get_pixel_resolution(&self) -> (r: (u8, u8)) {
        (COLUMNS, ROWS)
    }

    fn get_char_resolution(&self) -> (r: (u8, u8)) {
        (TEXT_COLUMNS, PAGES)
    }
}

} // verus!
