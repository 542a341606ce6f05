//! The physical link to a display controller, as the drivers see it.
//!
//! A link is a handful of output lines, a millisecond delay and, on some
//! boards, a serial peripheral that shifts whole bytes out by itself. The
//! drivers never look at a line; they only ask the link to do something and
//! learn whether it was done. What a link has done so far is its trace, what
//! it has declined to do is among its refusals, and every contract in this
//! crate is a statement about how the two grow.

use vstd::prelude::*;

verus! {

/// One of the output lines that lead to a controller.
#[derive(Clone, Copy, Debug, PartialEq, Eq, Structural)]
pub enum Line {
    /// Serial clock. The controller latches the data line when it falls.
    Clock,
    /// Serial data.
    Data,
    /// Chip select, active low.
    Select,
    /// Command/data discriminator of the four-wire controllers: low for a
    /// command, high for data.
    Mode,
    /// Reset.
    Reset,
}

/// One thing that a link has done.
#[derive(Clone, Copy, Debug, PartialEq, Eq, Structural)]
pub enum Signal {
    /// A line was driven high (`true`) or low (`false`).
    Level(Line, bool),
    /// The link waited for this many milliseconds.
    Pause(u8),
    /// The serial peripheral shifted this byte out.
    Byte(u8),
}

/// A request that a link refused: the signals that were asked for, and what
/// the link reported instead.
pub struct Refusal<E> {
    pub asked: Seq<Signal>,
    pub error: E,
}

/// A set of output lines with a delay.
///
/// The trace holds what the link has acknowledged, oldest first. A request
/// that fails is not acknowledged and leaves no mark on the trace; it is
/// written down among the refusals.
pub trait Link: Sized {
    /// What the link reports when a request fails.
    type Error;

    /// Everything this link has done so far.
    spec fn trace(&self) -> Seq<Signal>;

    /// Every request this link has refused so far.
    spec fn refused(&self) -> Seq<Refusal<Self::Error>>;

    /// Drives `line` high or low.
    fn drive(&mut self, line: Line, high: bool) -> (r: Result<(), Self::Error>)
        ensures
            r is Ok ==> final(self).trace() == old(self).trace().push(Signal::Level(line, high)),
            r is Ok ==> final(self).refused() == old(self).refused(),
            r is Err ==> final(self).trace() == old(self).trace(),
            r matches Err(e) ==> final(self).refused() == old(self).refused().push(
                (Refusal { asked: seq![Signal::Level(line, high)], error: e }),
            ),
    ;

    /// Blocks for `ms` milliseconds.
    fn pause(&mut self, ms: u8)
        ensures
            final(self).trace() == old(self).trace().push(Signal::Pause(ms)),
            final(self).refused() == old(self).refused(),
    ;
}

/// A link whose clock and data lines belong to a serial peripheral.
pub trait Bus: Link {
    /// Shifts `bytes` out in order.
    fn write(&mut self, bytes: &[u8]) -> (r: Result<(), Self::Error>)
        ensures
            r is Ok ==> final(self).trace() == old(self).trace() + shifted(bytes@),
            r is Ok ==> final(self).refused() == old(self).refused(),
            r is Err ==> final(self).trace() == old(self).trace(),
            r matches Err(e) ==> final(self).refused() == old(self).refused().push(
                (Refusal { asked: shifted(bytes@), error: e }),
            ),
    ;
}

/// The trace of a serial peripheral that shifts `bytes` out.
pub open spec fn shifted(bytes: Seq<u8>) -> Seq<Signal> {
    Seq::new(bytes.len(), |i: int| Signal::Byte(bytes[i]))
}

/// The signal that ends every burst: chip select goes back up.
pub open spec fn released() -> Signal {
    Signal::Level(Line::Select, true)
}

/// Whether an attempt at `whole` that began at `before` and ended at `after`
/// kept what was there and added less than `whole`.
pub open spec fn fell_short(before: Seq<Signal>, after: Seq<Signal>, whole: Seq<Signal>) -> bool {
    &&& before.is_prefix_of(after)
    &&& after.len() < before.len() + whole.len()
}

/// Whether an attempt at `whole` stopped part of the way: `after` is `before`
/// and then the leading signals of `whole`, in order, but not all of them.
pub open spec fn stopped(before: Seq<Signal>, after: Seq<Signal>, whole: Seq<Signal>) -> bool {
    &&& before.len() <= after.len() < before.len() + whole.len()
    &&& after =~= before + whole.take(after.len() - before.len())
}

/// Whether an attempt at `whole` was stopped by the link: it refused the
/// signal that was next, with `error`, and was asked for nothing after that.
pub open spec fn halted<E>(
    trace: Seq<Signal>,
    after: Seq<Signal>,
    refused: Seq<Refusal<E>>,
    refused_after: Seq<Refusal<E>>,
    whole: Seq<Signal>,
    error: E,
) -> bool {
    &&& stopped(trace, after, whole)
    &&& refused_after == refused.push(
        Refusal { asked: seq![whole[after.len() - trace.len()]], error },
    )
}

/// Whether there are refusals in `after` that `before` has not, the first of
/// them with `error`.
pub open spec fn lodged<E>(before: Seq<Refusal<E>>, after: Seq<Refusal<E>>, error: E) -> bool {
    &&& before.len() < after.len()
    &&& after.take(before.len() as int) =~= before
    &&& after[before.len() as int].error == error
}

/// The request number `n` of a burst: the signal number `n`, or, where a
/// serial peripheral sends what the burst holds chip select for, all of that
/// in one.
pub open spec fn request_at(whole: Seq<Signal>, n: int, held: int, bulk: bool) -> Seq<Signal> {
    if bulk && n == held && n < whole.len() - 1 {
        whole.subrange(held, whole.len() - 1)
    } else {
        seq![whole[n]]
    }
}

/// Whether a burst `whole` was given up because the link refused a request
/// with `error`.
///
/// `whole` holds chip select from its signal number `held` on and ends by
/// releasing it. The refusals say what happened. The link refused the request
/// that was next. Where that was while the burst held chip select, the release
/// was asked for once, and was acknowledged or refused in its turn; where it
/// was before, or was the release itself, nothing more was asked for.
pub open spec fn given_up<E>(
    trace: Seq<Signal>,
    after: Seq<Signal>,
    refused: Seq<Refusal<E>>,
    refused_after: Seq<Refusal<E>>,
    whole: Seq<Signal>,
    held: int,
    bulk: bool,
    error: E,
) -> bool {
    let n = after.len() - trace.len();
    let first = Refusal { asked: request_at(whole, n, held, bulk), error };
    &&& 0 <= n < whole.len()
    &&& {
        ||| {
            &&& n < held || n == whole.len() - 1
            &&& after =~= trace + whole.take(n)
            &&& refused_after == refused.push(first)
        }
        ||| {
            &&& held <= n < whole.len() - 1
            &&& after =~= trace + whole.take(n)
            &&& refused_after.len() == refused.len() + 2
            &&& refused_after.drop_last() == refused.push(first)
            &&& refused_after.last().asked == seq![released()]
        }
        ||| {
            &&& held < n
            &&& after =~= trace + whole.take(n - 1).push(released())
            &&& refused_after == refused.push(
                Refusal { asked: request_at(whole, n - 1, held, bulk), error },
            )
        }
    }
}

/// A burst that was given up has lodged the refusal that it was given up
/// for.
pub proof fn lemma_given_up_lodged<E>(
    trace: Seq<Signal>,
    after: Seq<Signal>,
    refused: Seq<Refusal<E>>,
    refused_after: Seq<Refusal<E>>,
    whole: Seq<Signal>,
    held: int,
    bulk: bool,
    error: E,
)
    requires
        given_up(trace, after, refused, refused_after, whole, held, bulk, error),
    ensures
        lodged(refused, refused_after, error),
{
    let n = refused.len() as int;
    if refused_after.len() == n + 2 {
        let both = refused_after.drop_last();
        assert(both.take(n) =~= refused);
        assert(refused_after.take(n) =~= both.take(n));
        assert(refused_after[n] == both[n]);
    } else {
        assert(refused_after.take(n) =~= refused);
    }
}

/// Whether a burst `whole` was given up part of the way.
///
/// `whole` holds chip select from its signal number `held` on and ends by
/// releasing it. A burst that fails while it holds chip select tries once to
/// release it, so `after` is `before` and the leading signals of `whole`, not
/// all of them, and then perhaps the release.
pub open spec fn abandoned(
    before: Seq<Signal>,
    after: Seq<Signal>,
    whole: Seq<Signal>,
    held: int,
) -> bool {
    let n = after.len() - before.len();
    &&& 0 <= n < whole.len()
    &&& {
        ||| after =~= before + whole.take(n)
        ||| held < n && after =~= before + whole.take(n - 1).push(released())
    }
}

/// A part of a longer run of signals, with `head` before it and `tail` after
/// it. An attempt at the part that stopped part of the way, after `head` had
/// gone out, is an attempt at the whole run that stopped part of the way, and
/// the signal that was next is the same in both.
pub proof fn lemma_stopped_within(
    start: Seq<Signal>,
    head: Seq<Signal>,
    part: Seq<Signal>,
    tail: Seq<Signal>,
)
    ensures
        forall|t: Seq<Signal>| #[trigger]
            stopped(start + head, t, part) ==> stopped(start, t, head + part + tail) && (head
                + part + tail)[t.len() - start.len()] == part[t.len() - (start + head).len()],
{
    assert forall|t: Seq<Signal>| #[trigger] stopped(start + head, t, part) implies stopped(
        start,
        t,
        head + part + tail,
    ) && (head + part + tail)[t.len() - start.len()] == part[t.len() - (start + head).len()] by {
        let k = t.len() - (start + head).len();
        assert((head + part + tail).take(head.len() + k) =~= head + part.take(k));
        assert(start + (head + part.take(k)) =~= (start + head) + part.take(k));
    }
}

/// Ends a burst: raises chip select, and reports how the burst went.
///
/// After a burst that failed this is an attempt only: the result is the
/// burst's own error, whether or not the line could be raised.
pub fn release<L: Link>(link: &mut L, burst: Result<(), L::Error>) -> (r: Result<(), L::Error>)
    ensures
        burst is Ok && r is Ok ==> final(link).trace() == old(link).trace().push(released())
            && final(link).refused() == old(link).refused(),
        burst is Ok ==> (r matches Err(e) ==> final(link).trace() == old(link).trace()
            && final(link).refused() == old(link).refused().push(
            (Refusal { asked: seq![released()], error: e }),
        )),
        burst is Err ==> r == burst,
        burst is Err ==> {
            ||| final(link).trace() == old(link).trace().push(released()) && final(link).refused()
                == old(link).refused()
            ||| {
                &&& final(link).trace() == old(link).trace()
                &&& final(link).refused().len() == old(link).refused().len() + 1
                &&& final(link).refused().drop_last() == old(link).refused()
                &&& final(link).refused().last().asked == seq![released()]
            }
        },
{
    match burst {
        Ok(()) => link.drive(Line::Select, true),
        Err(e) => {
            let freed = link.drive(Line::Select, true);
            assert(freed is Err ==> link.refused().drop_last() =~= old(link).refused());
            Err(e)
        },
    }
}

} // verus!
