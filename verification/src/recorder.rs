//! A link that is not wired to anything: it writes down what it is asked to
//! do, and can be told to refuse one request.

use crate::link::{shifted, Bus, Line, Link, Refusal, Signal};
use vstd::prelude::*;

verus! {

/// What a [`Recorder`] reports for the request it was told to refuse.
#[derive(Clone, Copy, Debug, PartialEq, Eq, Structural)]
pub struct Refused {
    /// The number of the refused request, the first request being number 0.
    pub request: usize,
}

/// A link that records.
///
/// Requests that can fail (everything but a pause) are counted from 0. A
/// recorder made by [`Recorder::refusing`] refuses the request with the number
/// it was given and grants every other one.
pub struct Recorder {
    log: Vec<Signal>,
    requests: usize,
    refuse: Option<usize>,
    refusals: Ghost<Seq<Refusal<Refused>>>,
}

impl Recorder {
    /// How many requests that can fail were made so far.
    pub closed spec fn requests(&self) -> nat {
        self.requests as nat
    }

    /// The number of the request that is refused, if there is one.
    pub closed spec fn refuse(&self) -> Option<nat> {
        match self.refuse {
            Some(n) => Some(n as nat),
            None => None,
        }
    }

    /// Whether the next request that can fail will be refused.
    pub open spec fn refuses_next(&self) -> bool {
        self.refuse() == Some(self.requests())
    }

    /// A recorder with an empty trace that grants every request.
    pub fn new() -> (r: Recorder)
        ensures
            r.trace() == Seq::<Signal>::empty(),
            r.refused() == Seq::<Refusal<Refused>>::empty(),
            r.requests() == 0,
            r.refuse() is None,
    {
        Recorder { log: Vec::new(), requests: 0, refuse: None, refusals: Ghost(Seq::empty()) }
    }

    /// A recorder with an empty trace that refuses request number `request`.
    pub fn refusing(request: usize) -> (r: Recorder)
        ensures
            r.trace() == Seq::<Signal>::empty(),
            r.refused() == Seq::<Refusal<Refused>>::empty(),
            r.requests() == 0,
            r.refuse() == Some(request as nat),
    {
        Recorder { log: Vec::new(), requests: 0, refuse: Some(request), refusals: Ghost(Seq::empty()) }
    }

    /// The trace.
    pub fn signals(&self) -> (log: &Vec<Signal>)
        ensures
            log@ == self.trace(),
    {
        &self.log
    }

    /// Counts one request for `asked` and says whether it is granted.
    fn grant(&mut self, Ghost(asked): Ghost<Seq<Signal>>) -> (r: Result<(), Refused>)
        ensures
            final(self).log == old(self).log,
            final(self).refuse == old(self).refuse,
            r is Ok ==> final(self).refusals == old(self).refusals,
            r matches Err(e) ==> final(self).refusals@ == old(self).refusals@.push(
                (Refusal { asked, error: e }),
            ),
            final(self).requests() == if old(self).requests() < usize::MAX {
                old(self).requests() + 1
            } else {
                old(self).requests()
            },
            r is Err <==> old(self).refuses_next(),
            r matches Err(e) ==> e.request == old(self).requests(),
    {
        let request = self.requests;
        if self.requests < usize::MAX {
            self.requests = self.requests + 1;
        }
        let refuses = match self.refuse {
            Some(n) => n == request,
            None => false,
        };
        if refuses {
            let error = Refused { request };
            self.refusals = Ghost(self.refusals@.push(Refusal { asked, error }));
            Err(error)
        } else {
            Ok(())
        }
    }
}

impl Link for Recorder {
    type Error = Refused;

    closed spec fn trace(&self) -> Seq<Signal> {
        self.log@
    }

    closed spec fn refused(&self) -> Seq<Refusal<Refused>> {
        self.refusals@
    }

    fn drive(&mut self, line: Line, high: bool) -> (r: Result<(), Refused>)
        ensures
            r is Err <==> old(self).refuses_next(),
            r matches Err(e) ==> e.request == old(self).requests(),
            final(self).refuse() == old(self).refuse(),
            final(self).requests() == if old(self).requests() < usize::MAX {
                old(self).requests() + 1
            } else {
                old(self).requests()
            },
    {
        let ghost signal = seq![Signal::Level(line, high)];
        let asked = Ghost(signal);
        self.grant(asked)?;
        self.log.push(Signal::Level(line, high));
        Ok(())
    }

    fn pause(&mut self, ms: u8)
        ensures
            final(self).refuse() == old(self).refuse(),
            final(self).requests() == old(self).requests(),
    {
        self.log.push(Signal::Pause(ms));
    }
}

impl Bus for Recorder {
    fn write(&mut self, bytes: &[u8]) -> (r: Result<(), Refused>)
        ensures
            r is Err <==> old(self).refuses_next(),
            r matches Err(e) ==> e.request == old(self).requests(),
            final(self).refuse() == old(self).refuse(),
            final(self).requests() == if old(self).requests() < usize::MAX {
                old(self).requests() + 1
            } else {
                old(self).requests()
            },
    {
        let asked = Ghost(shifted(bytes@));
        self.grant(asked)?;
        let ghost start = self.log@;
        let mut i: usize = 0;
        while i < bytes.len()
            invariant
                i <= bytes.len(),
                self.log@ == start + shifted(bytes@.take(i as int)),
                self.refuse == old(self).refuse,
                self.refusals == old(self).refusals,
                self.requests() == if old(self).requests() < usize::MAX {
                    old(self).requests() + 1
                } else {
                    old(self).requests()
                },
            decreases bytes.len() - i,
        {
            self.log.push(Signal::Byte(bytes[i]));
            i = i + 1;
            assert(shifted(bytes@.take(i as int)) =~= shifted(bytes@.take(i - 1)).push(
                Signal::Byte(bytes[i - 1]),
            ));
        }
        assert(bytes@.take(i as int) =~= bytes@);
        Ok(())
    }
}

} // verus!
