//! The link to real hardware.
//!
//! Whoever owns the pins says how a line is driven, how to wait and, where
//! there is one, how the serial peripheral shifts bytes out. [`Wired`] makes a
//! link of that: it passes each request on and keeps count, as its trace, of
//! the requests that the pins acknowledged.

use crate::link::{shifted, Bus, Line, Link, Refusal, Signal};
use vstd::prelude::*;

verus! {

/// Output lines and a delay, as the hardware offers them.
pub trait Pins: Sized {
    /// What the pins report when a request fails.
    type Error;

    /// Drives `line` high or low.
    fn set(&mut self, line: Line, high: bool) -> Result<(), Self::Error>;

    /// Blocks for `ms` milliseconds.
    fn wait(&mut self, ms: u8);
}

/// Pins whose clock and data lines belong to a serial peripheral.
pub trait Shifter: Pins {
    /// Shifts `bytes` out in order.
    fn shift(&mut self, bytes: &[u8]) -> Result<(), Self::Error>;
}

/// A link on real pins.
pub struct Wired<P: Pins> {
    pins: P,
    done: Ghost<Seq<Signal>>,
    refusals: Ghost<Seq<Refusal<P::Error>>>,
}

/// What a link has done once the pins have answered a request for `asked`:
/// acknowledged it, or refused it with the error of the pins.
pub open spec fn answered<E>(
    done: Seq<Signal>,
    refusals: Seq<Refusal<E>>,
    asked: Seq<Signal>,
    answer: Result<(), E>,
) -> (Seq<Signal>, Seq<Refusal<E>>) {
    match answer {
        Ok(()) => (done + asked, refusals),
        Err(error) => (done, refusals.push(Refusal { asked, error })),
    }
}

impl<P: Pins> Wired<P> {
    /// A link on `pins` that has done nothing yet.
    pub fn new(pins: P) -> (link: Self)
        ensures
            link.trace() == Seq::<Signal>::empty(),
            link.refused() == Seq::<Refusal<P::Error>>::empty(),
            link.held() == pins,
    {
        Wired { pins, done: Ghost(Seq::empty()), refusals: Ghost(Seq::empty()) }
    }

    /// The pins under this link.
    pub closed spec fn held(&self) -> P {
        self.pins
    }

    /// Gives the pins back.
    pub fn into_pins(self) -> (pins: P)
        ensures
            pins == self.held(),
    {
        self.pins
    }

    /// Writes down how the pins answered a request for `asked`, and hands the
    /// answer on.
    fn note(&mut self, Ghost(asked): Ghost<Seq<Signal>>, answer: Result<(), P::Error>) -> (r:
        Result<(), P::Error>)
        ensures
            r == answer,
            final(self).held() == old(self).held(),
            (final(self).trace(), final(self).refused()) == answered(
                old(self).trace(),
                old(self).refused(),
                asked,
                answer,
            ),
    {
        if answer.is_ok() {
            self.done = Ghost(self.done@ + asked);
        } else {
            self.refusals = Ghost(self.refusals@.push(Refusal { asked, error: answer->Err_0 }));
        }
        answer
    }

    /// The pins.
    pub fn pins(&self) -> (pins: &P)
        ensures
            *pins == self.held(),
    {
        &self.pins
    }
}

impl<P: Pins> Link for Wired<P> {
    type Error = P::Error;

    closed spec fn trace(&self) -> Seq<Signal> {
        self.done@
    }

    closed spec fn refused(&self) -> Seq<Refusal<P::Error>> {
        self.refusals@
    }

    fn drive(&mut self, line: Line, high: bool) -> (r: Result<(), P::Error>) {
        let answer = self.pins.set(line, high);
        assert(self.done@ + seq![Signal::Level(line, high)] =~= self.done@.push(
            Signal::Level(line, high),
        ));
        let ghost signal = seq![Signal::Level(line, high)];
        let asked = Ghost(signal);
        self.note(asked, answer)
    }

    fn pause(&mut self, ms: u8) {
        self.pins.wait(ms);
        self.done = Ghost(self.done@.push(Signal::Pause(ms)));
    }
}

impl<P: Shifter> Bus for Wired<P> {
    fn write(&mut self, bytes: &[u8]) -> (r: Result<(), P::Error>) {
        let answer = self.pins.shift(bytes);
        let asked = Ghost(shifted(bytes@));
        self.note(asked, answer)
    }
}

} // verus!
