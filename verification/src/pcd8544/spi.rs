//! The PCD8544 behind a serial peripheral: the peripheral shifts the bytes
//! out, the driver frames them.

use crate::channel::{wire, Channel};
use crate::channel::broke_off;
use crate::link::{
    abandoned, given_up, halted, lemma_given_up_lodged, lodged, release, released, shifted, Bus, Line, Link, Refusal,
    Signal,
};
use crate::pcd8544::{init_frames, reset_signals, Pcd8544, Pcd8544Base};
use vstd::prelude::*;

verus! {

/// A PCD8544 on a serial peripheral, a command/data line and a chip select.
pub struct Pcd8544Spi<B> {
    bus: B,
}

/// A command on the wire: the command/data line goes low, chip select falls,
/// the peripheral shifts the byte out, chip select rises.
pub open spec fn command_burst(cmd: u8) -> Seq<Signal> {
    seq![Signal::Level(Line::Mode, false), Signal::Level(Line::Select, false)] + shifted(
        seq![cmd],
    ) + seq![released()]
}

/// A run of data bytes on the wire: the command/data line goes high, chip
/// select falls, the peripheral shifts the bytes out, chip select rises.
pub open spec fn data_burst(bytes: Seq<u8>) -> Seq<Signal> {
    seq![Signal::Level(Line::Mode, true), Signal::Level(Line::Select, false)] + shifted(bytes)
        + seq![released()]
}

/// Whether a start on `bus` that failed with `error` got as far as `reached`.
/// Either the link stopped the reset, and refused with `error` the signal
/// that was next; or the reset went through and bringing the controller up
/// broke off, with a refusal lodged for `error`.
pub open spec fn start_failed<B: Bus>(bus: B, reached: Pcd8544Spi<B>, error: B::Error) -> bool {
    ||| halted(
        bus.trace(),
        reached.trace(),
        bus.refused(),
        reached.refused(),
        reset_signals(),
        error,
    )
    ||| {
        &&& broke_off::<Pcd8544Spi<B>>(
            bus.trace() + reset_signals(),
            reached.trace(),
            init_frames(),
        )
        &&& lodged(bus.refused(), reached.refused(), error)
    }
}

/// Whether a start on `bus` can fail with `error`: whether there is a
/// state that it gets as far as.
pub open spec fn start_fails<B: Bus>(bus: B, error: B::Error) -> bool {
    exists|reached: Pcd8544Spi<B>| start_failed(bus, reached, error)
}

impl<B: Bus> Pcd8544Spi<B> {
    /// A driver on `bus`, for a controller that is already up. Nothing is
    /// sent.
    pub fn attach(bus: B) -> (pcd: Self)
        ensures
            pcd.trace() == bus.trace(),
            pcd.refused() == bus.refused(),
    {
        Pcd8544Spi { bus }
    }

    /// Resets the controller on `bus` and brings it up.
    pub fn new(bus: B) -> (r: Result<Self, B::Error>)
        ensures
            r matches Ok(pcd) ==> pcd.trace() == bus.trace() + reset_signals() + wire::<Self>(
                init_frames(),
            ) && pcd.refused() == bus.refused(),
            r matches Err(e) ==> start_fails(bus, e),
    {
        let ghost start = bus;
        let mut pcd = Pcd8544Spi { bus };
        match pcd.reset() {
            Ok(()) => {},
            Err(e) => {
                assert(start_failed(start, pcd, e));
                assert(start_fails(start, e));
                return Err(e);
            },
        }
        match pcd.init() {
            Ok(()) => Ok(pcd),
            Err(e) => {
                assert(start_failed(start, pcd, e));
                assert(start_fails(start, e));
                Err(e)
            },
        }
    }

    /// Gives the bus back.
    pub fn detach(self) -> (bus: B)
        ensures
            bus.trace() == self.trace(),
            bus.refused() == self.refused(),
    {
        self.bus
    }

    /// The bus.
    pub fn bus(&self) -> (bus: &B)
        ensures
            bus.trace() == self.trace(),
            bus.refused() == self.refused(),
    {
        &self.bus
    }

    /// Pulses the reset line.
    pub fn reset(&mut self) -> (r: Result<(), B::Error>)
        ensures
            r is Ok ==> final(self).trace() == old(self).trace() + reset_signals(),
            r is Ok ==> final(self).refused() == old(self).refused(),
            r matches Err(e) ==> halted(
                old(self).trace(),
                final(self).trace(),
                old(self).refused(),
                final(self).refused(),
                reset_signals(),
                e,
            ),
    {
        self.bus.drive(Line::Reset, false)?;
        self.bus.pause(10);
        self.bus.drive(Line::Reset, true)
    }
}

impl<B: Bus> Channel for Pcd8544Spi<B> {
    type Error = B::Error;

    closed spec fn trace(&self) -> Seq<Signal> {
        self.bus.trace()
    }

    closed spec fn refused(&self) -> Seq<Refusal<Self::Error>> {
        self.bus.refused()
    }

    open spec fn command_signals(cmd: u8) -> Seq<Signal> {
        command_burst(cmd)
    }

    open spec fn data_signals(data: Seq<u8>) -> Seq<Signal> {
        data_burst(data)
    }

    /// Sends one command byte. If the link fails while chip select is held,
    /// one attempt is made to release it.
    fn command(&mut self, cmd: u8) -> (r: Result<(), B::Error>)
        ensures
            r is Err ==> abandoned(old(self).trace(), final(self).trace(), command_burst(cmd), 2),
            r matches Err(e) ==> given_up(
                old(self).trace(),
                final(self).trace(),
                old(self).refused(),
                final(self).refused(),
                command_burst(cmd),
                2,
                true,
                e,
            ),
    {
        let byte = [cmd];
        assert(byte@ =~= seq![cmd]);
        self.bus.drive(Line::Mode, false)?;
        self.bus.drive(Line::Select, false)?;
        assert(command_burst(cmd).subrange(2, command_burst(cmd).len() - 1) =~= shifted(
            seq![cmd],
        ));
        let sent = self.bus.write(&byte);
        let r = release(&mut self.bus, sent);
        proof {
            if r is Err {
                lemma_given_up_lodged(
                    old(self).trace(),
                    self.trace(),
                    old(self).refused(),
                    self.refused(),
                    command_burst(cmd),
                    2,
                    true,
                    r->Err_0,
                );
            }
        }
        r
    }

    /// Sends a run of data bytes under one chip select; the peripheral is
    /// not asked to shift out nothing. If the link fails while chip select is
    /// held, one attempt is made to release it.
    fn data(&mut self, data: &[u8]) -> (r: Result<(), B::Error>)
        ensures
            r is Err ==> abandoned(old(self).trace(), final(self).trace(), data_burst(data@), 2),
            r matches Err(e) ==> given_up(
                old(self).trace(),
                final(self).trace(),
                old(self).refused(),
                final(self).refused(),
                data_burst(data@),
                2,
                true,
                e,
            ),
    {
        self.bus.drive(Line::Mode, true)?;
        self.bus.drive(Line::Select, false)?;
        assert(data_burst(data@).subrange(2, data_burst(data@).len() - 1) =~= shifted(data@));
        let sent = if data.len() == 0 {
            Ok(())
        } else {
            self.bus.write(data)
        };
        let r = release(&mut self.bus, sent);
        proof {
            if r is Err {
                lemma_given_up_lodged(
                    old(self).trace(),
                    self.trace(),
                    old(self).refused(),
                    self.refused(),
                    data_burst(data@),
                    2,
                    true,
                    r->Err_0,
                );
            }
        }
        r
    }
}

impl<B: Bus> Pcd8544Base for Pcd8544Spi<B> {

}

} // verus!
