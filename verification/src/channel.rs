//! The command/data channel: all that a controller driver needs of a link.
//!
//! A channel sends frames. A frame is one command byte or one run of data
//! bytes; how it is put on the wire (which lines frame it, whether the bytes
//! are bit-banged or shifted out by a peripheral, how a command is told from
//! data) is the channel's own business, and it says so in `command_signals`
//! and `data_signals`.

use crate::link::{fell_short, lodged, Refusal, Signal};
use vstd::prelude::*;

verus! {

/// One transfer to a controller.
pub enum Frame {
    /// A single command byte.
    Command(u8),
    /// A run of data bytes under one chip select.
    Data(Seq<u8>),
}

/// A way to send commands and data to a controller.
pub trait Channel: Sized {
    /// What the channel reports when its link fails.
    type Error;

    /// Everything the link under this channel has done so far.
    spec fn trace(&self) -> Seq<Signal>;

    /// Every request the link under this channel has refused so far.
    spec fn refused(&self) -> Seq<Refusal<Self::Error>>;

    /// The command `cmd` on the wire.
    spec fn command_signals(cmd: u8) -> Seq<Signal>;

    /// The data bytes `data` on the wire, as one burst.
    spec fn data_signals(data: Seq<u8>) -> Seq<Signal>;

    /// Sends one command byte. It fails where the link refuses a request,
    /// and with what the link reported.
    fn command(&mut self, cmd: u8) -> (r: Result<(), Self::Error>)
        ensures
            r is Ok ==> final(self).trace() == old(self).trace() + Self::command_signals(cmd),
            r is Ok ==> final(self).refused() == old(self).refused(),
            r is Err ==> fell_short(
                old(self).trace(),
                final(self).trace(),
                Self::command_signals(cmd),
            ),
            r matches Err(e) ==> lodged(old(self).refused(), final(self).refused(), e),
    ;

    /// Sends a run of data bytes as one burst. It fails where the link
    /// refuses a request, and with what the link reported.
    fn data(&mut self, data: &[u8]) -> (r: Result<(), Self::Error>)
        ensures
            r is Ok ==> final(self).trace() == old(self).trace() + Self::data_signals(data@),
            r is Ok ==> final(self).refused() == old(self).refused(),
            r is Err ==> fell_short(
                old(self).trace(),
                final(self).trace(),
                Self::data_signals(data@),
            ),
            r matches Err(e) ==> lodged(old(self).refused(), final(self).refused(), e),
    ;
}

/// One frame on the wire of a channel of type `T`.
pub open spec fn signals<T: Channel>(frame: Frame) -> Seq<Signal> {
    match frame {
        Frame::Command(cmd) => T::command_signals(cmd),
        Frame::Data(data) => T::data_signals(data),
    }
}

/// A sequence of frames on the wire of a channel of type `T`, one after the
/// other.
pub open spec fn wire<T: Channel>(frames: Seq<Frame>) -> Seq<Signal>
    decreases frames.len(),
{
    if frames.len() == 0 {
        Seq::empty()
    } else {
        wire::<T>(frames.drop_last()) + signals::<T>(frames.last())
    }
}

/// Whether an attempt at `frames` broke off in frame number `j`: the frames
/// before it went out whole, of frame `j` less than the whole, and nothing
/// after it.
pub open spec fn broke_at<T: Channel>(
    before: Seq<Signal>,
    after: Seq<Signal>,
    frames: Seq<Frame>,
    j: int,
) -> bool {
    &&& 0 <= j < frames.len()
    &&& fell_short(before + wire::<T>(frames.take(j)), after, signals::<T>(frames[j]))
}

/// Whether an attempt at `frames` broke off in one of them.
pub open spec fn broke_off<T: Channel>(
    before: Seq<Signal>,
    after: Seq<Signal>,
    frames: Seq<Frame>,
) -> bool {
    exists|j: int| broke_at::<T>(before, after, frames, j)
}

/// The frames that send each of `bytes` as a command.
pub open spec fn commands(bytes: Seq<u8>) -> Seq<Frame> {
    Seq::new(bytes.len(), |i: int| Frame::Command(bytes[i]))
}

/// Frames that follow each other on the wire are the first lot and then the
/// second.
pub proof fn lemma_wire_concat<T: Channel>(head: Seq<Frame>, tail: Seq<Frame>)
    ensures
        wire::<T>(head + tail) == wire::<T>(head) + wire::<T>(tail),
    decreases tail.len(),
{
    if tail.len() == 0 {
        assert(head + tail =~= head);
        assert(wire::<T>(head) + wire::<T>(tail) =~= wire::<T>(head));
    } else {
        assert((head + tail).drop_last() =~= head + tail.drop_last());
        lemma_wire_concat::<T>(head, tail.drop_last());
        assert(wire::<T>(head) + (wire::<T>(tail.drop_last()) + signals::<T>(tail.last()))
            =~= (wire::<T>(head) + wire::<T>(tail.drop_last())) + signals::<T>(tail.last()));
    }
}

/// A single frame: its wire is its signals, and an attempt at it that fell
/// short broke off in it.
pub proof fn lemma_single<T: Channel>(start: Seq<Signal>, frame: Frame)
    ensures
        wire::<T>(seq![frame]) == signals::<T>(frame),
        forall|t: Seq<Signal>| #[trigger]
            fell_short(start, t, signals::<T>(frame)) ==> broke_at::<T>(start, t, seq![frame], 0),
{
    let one = seq![frame];
    assert(one.drop_last() =~= Seq::<Frame>::empty());
    assert(wire::<T>(one.drop_last()) =~= Seq::<Signal>::empty());
    assert(wire::<T>(one) =~= signals::<T>(frame));
    assert(one.take(0) =~= Seq::<Frame>::empty());
    assert(start + wire::<T>(one.take(0)) =~= start);
}

/// Two lots of frames, one after the other, from `start`. An attempt that
/// broke off in the first lot broke off there in both together; one that got
/// through the first lot and broke off in the second broke off that much
/// further on.
pub proof fn lemma_sequel<T: Channel>(start: Seq<Signal>, head: Seq<Frame>, tail: Seq<Frame>)
    ensures
        wire::<T>(head + tail) == wire::<T>(head) + wire::<T>(tail),
        start + wire::<T>(head + tail) == (start + wire::<T>(head)) + wire::<T>(tail),
        forall|t: Seq<Signal>, j: int| #[trigger]
            broke_at::<T>(start, t, head, j) ==> broke_at::<T>(start, t, head + tail, j),
        forall|t: Seq<Signal>, j: int| #[trigger]
            broke_at::<T>(start + wire::<T>(head), t, tail, j) ==> broke_at::<T>(
                start,
                t,
                head + tail,
                head.len() + j,
            ),
{
    lemma_wire_concat::<T>(head, tail);
    assert(start + (wire::<T>(head) + wire::<T>(tail)) =~= (start + wire::<T>(head)) + wire::<T>(
        tail,
    ));
    assert forall|t: Seq<Signal>, j: int| #[trigger]
        broke_at::<T>(start, t, head, j) implies broke_at::<T>(start, t, head + tail, j) by {
        assert((head + tail).take(j) =~= head.take(j));
    }
    assert forall|t: Seq<Signal>, j: int| #[trigger]
        broke_at::<T>(start + wire::<T>(head), t, tail, j) implies broke_at::<T>(
        start,
        t,
        head + tail,
        head.len() + j,
    ) by {
        assert((head + tail).take(head.len() + j) =~= head + tail.take(j));
        lemma_wire_concat::<T>(head, tail.take(j));
        assert(start + (wire::<T>(head) + wire::<T>(tail.take(j))) =~= (start + wire::<T>(head))
            + wire::<T>(tail.take(j)));
    }
}

/// Sends each of `bytes` as a command, in order, and stops at the first that
/// fails.
pub fn send_commands<T: Channel>(dev: &mut T, bytes: &[u8]) -> (r: Result<(), T::Error>)
    ensures
        r is Ok ==> final(dev).trace() == old(dev).trace() + wire::<T>(commands(bytes@)),
        r is Ok ==> final(dev).refused() == old(dev).refused(),
        r is Err ==> broke_off::<T>(old(dev).trace(), final(dev).trace(), commands(bytes@)),
        r matches Err(e) ==> lodged(old(dev).refused(), final(dev).refused(), e),
{
    let ghost start = dev.trace();
    let ghost plan = commands(bytes@);
    let mut i: usize = 0;
    assert(plan.take(0) =~= Seq::<Frame>::empty());
    assert(start + wire::<T>(plan.take(0)) =~= start);
    while i < bytes.len()
        invariant
            i <= bytes.len(),
            start == old(dev).trace(),
            dev.refused() == old(dev).refused(),
            plan == commands(bytes@),
            dev.trace() == start + wire::<T>(plan.take(i as int)),
        decreases bytes.len() - i,
    {
        proof {
            assert forall|t: Seq<Signal>| #[trigger]
                fell_short(dev.trace(), t, T::command_signals(bytes[i as int])) implies broke_at::<
                T,
            >(start, t, plan, i as int) by {}
            assert(plan.take(i + 1).drop_last() =~= plan.take(i as int));
        }
        dev.command(bytes[i])?;
        i = i + 1;
    }
    assert(plan.take(i as int) =~= plan);
    Ok(())
}

} // verus!
