//! Drivers for small monochrome dot-matrix displays on a bit-level serial link.
//!
//! Two controller families are covered: the HX1230 (96 by 68 pixels, three
//! wires) and the PCD8544 (84 by 48 pixels, four wires). Both take commands
//! and data over a [`channel::Channel`]; what they share beyond that, placing
//! the cursor, clearing, and printing text, is the [`Display`] trait.
//!
//! Nothing here touches hardware. A driver is handed a [`link::Link`] and
//! asks it to drive lines; its contract says, signal for signal, what the
//! link will have been asked to do when the call returns.

pub mod channel;
pub mod font;
pub mod hx1230;
pub mod link;
pub mod pcd8544;
pub mod recorder;
pub mod serial;
pub mod wired;

use crate::channel::{broke_at, broke_off, lemma_sequel, lemma_single, wire, Channel, Frame};
use crate::font::{columns, glyph, printable};
use crate::link::{fell_short, lodged, Signal};
use vstd::prelude::*;

verus! {

/// Why a display could not show what it was asked to.
#[derive(Debug, PartialEq, Eq)]
pub enum DisplayError<E> {
    /// The link failed.
    Link(E),
    /// This character code has no glyph.
    Glyph(u8),
}

/// `len` zero bytes.
pub open spec fn zeros(len: nat) -> Seq<u8> {
    Seq::new(len, |i: int| 0u8)
}

/// How many bytes hold one column of every pixel row of a display that is
/// `rows` pixels high: one for each eight rows, and one more for what is left.
pub open spec fn bands(rows: u8) -> nat {
    ((rows + 7) / 8) as nat
}

/// How many bytes of memory a display of this width and height in pixels
/// has: a byte for each column of each band.
pub open spec fn memory(pixels: (u8, u8)) -> nat {
    pixels.0 as nat * bands(pixels.1)
}

/// The frames that clear a display: go to the origin with `home`, overwrite
/// all `area` bytes of display memory with zeros, go to the origin again.
pub open spec fn clear_frames(home: Seq<Frame>, area: nat) -> Seq<Frame> {
    home + seq![Frame::Data(zeros(area))] + home
}

/// The frames that print the character `c`: the columns of its glyph, then one
/// empty column to part it from the next character.
pub open spec fn glyph_frames(c: u8) -> Seq<Frame> {
    seq![Frame::Data(columns(c)), Frame::Data(seq![0u8])]
}

/// The frames that print each character of `text` in turn.
pub open spec fn text_frames(text: Seq<u8>) -> Seq<Frame>
    decreases text.len(),
{
    if text.len() == 0 {
        Seq::empty()
    } else {
        text_frames(text.drop_last()) + glyph_frames(text.last())
    }
}

/// How many characters at the start of `text` have a glyph.
pub open spec fn readable(text: Seq<u8>) -> nat
    decreases text.len(),
{
    if text.len() == 0 || !printable(text[0]) {
        0
    } else {
        1 + readable(text.drop_first())
    }
}

/// What every display can do, whatever its controller.
pub trait Display: Channel {
    /// Width and height in pixels.
    spec fn pixels() -> (u8, u8);

    /// Columns and rows of text.
    spec fn cells() -> (u8, u8);

    /// The frames that move the cursor to column `x` of page `y`.
    spec fn position_frames(x: u8, y: u8) -> Seq<Frame>;

    /// Moves the cursor to pixel column `x` of page `y`, a page being a band
    /// of eight pixel rows, which is one row of text.
    fn set_position(&mut self, x: u8, y: u8) -> (r: Result<(), Self::Error>)
        requires
            x < Self::pixels().0,
            y < Self::cells().1,
        ensures
            r is Ok ==> final(self).trace() == old(self).trace() + wire::<Self>(
                Self::position_frames(x, y),
            ),
            r is Ok ==> final(self).refused() == old(self).refused(),
            r matches Err(e) ==> lodged(old(self).refused(), final(self).refused(), e),
            r is Err ==> broke_off::<Self>(
                old(self).trace(),
                final(self).trace(),
                Self::position_frames(x, y),
            ),
    ;

    /// Blanks the whole display memory, a last band of fewer than eight pixel
    /// rows included, and leaves the cursor at the origin.
    fn clear(&mut self) -> (r: Result<(), Self::Error>)
        ensures
            r is Ok ==> final(self).trace() == old(self).trace() + wire::<Self>(
                clear_frames(Self::position_frames(0, 0), memory(Self::pixels())),
            ),
            r is Ok ==> final(self).refused() == old(self).refused(),
            r matches Err(e) ==> lodged(old(self).refused(), final(self).refused(), e),
            r is Err ==> broke_off::<Self>(
                old(self).trace(),
                final(self).trace(),
                clear_frames(Self::position_frames(0, 0), memory(Self::pixels())),
            ),
    ;

    /// Prints the character with the code `c` at the cursor. A code without a
    /// glyph is refused before anything is sent.
    fn print_char(&mut self, c: u8) -> (r: Result<(), DisplayError<Self::Error>>)
        ensures
            !printable(c) ==> r == Err::<(), DisplayError<Self::Error>>(DisplayError::Glyph(c))
                && final(self).trace() == old(self).trace(),
            r matches Err(DisplayError::Link(e)) ==> lodged(
                old(self).refused(),
                final(self).refused(),
                e,
            ),
            !(r matches Err(DisplayError::Link(_))) ==> final(self).refused()
                == old(self).refused(),
            printable(c) && r is Ok ==> final(self).trace() == old(self).trace() + wire::<Self>(
                glyph_frames(c),
            ),
            printable(c) && r is Err ==> r->Err_0 is Link && broke_off::<Self>(
                old(self).trace(),
                final(self).trace(),
                glyph_frames(c),
            ),
    ;

    /// Prints the characters of `s` one after the other, up to the first that
    /// has no glyph or that the link fails on.
    fn print(&mut self, s: &[u8]) -> (r: Result<(), DisplayError<Self::Error>>)
        ensures
            r is Ok ==> readable(s@) == s@.len() && final(self).trace() == old(self).trace()
                + wire::<Self>(text_frames(s@)),
            r matches Err(DisplayError::Glyph(c)) ==> readable(s@) < s@.len() && c == s@[readable(
                s@,
            ) as int] && final(self).trace() == old(self).trace() + wire::<Self>(
                text_frames(s@.take(readable(s@) as int)),
            ),
            r matches Err(DisplayError::Link(_)) ==> broke_off::<Self>(
                old(self).trace(),
                final(self).trace(),
                text_frames(s@.take(readable(s@) as int)),
            ),
            r matches Err(DisplayError::Link(e)) ==> lodged(
                old(self).refused(),
                final(self).refused(),
                e,
            ),
            !(r matches Err(DisplayError::Link(_))) ==> final(self).refused()
                == old(self).refused(),
    {
        let ghost start = self.trace();
        let mut i: usize = 0;
        proof {
            assert(s@.take(0) =~= Seq::<u8>::empty());
            assert(start + wire::<Self>(text_frames(s@.take(0))) =~= start);
        }
        while i < s.len()
            invariant
                i <= s.len(),
                start == old(self).trace(),
                self.refused() == old(self).refused(),
                forall|j: int| 0 <= j < i ==> printable(#[trigger] s@[j]),
                self.trace() == start + wire::<Self>(text_frames(s@.take(i as int))),
            decreases s.len() - i,
        {
            proof {
                lemma_text_step::<Self>(start, s@, i as int);
            }
            self.print_char(s[i])?;
            i = i + 1;
        }
        proof {
            lemma_readable(s@, i as int);
            assert(s@.take(i as int) =~= s@);
        }
        Ok(())
    }

    /// Width and height in pixels.
    fn get_pixel_resolution(&self) -> (r: (u8, u8))
        ensures
            r == Self::pixels(),
    ;

    /// Columns and rows of text.
    fn get_char_resolution(&self) -> (r: (u8, u8))
        ensures
            r == Self::cells(),
    ;

    /// Whether `set_position` takes column `x` of page `y`.
    fn in_range(&self, x: u8, y: u8) -> (yes: bool)
        ensures
            yes == (x < Self::pixels().0 && y < Self::cells().1),
    {
        let (columns, _) = self.get_pixel_resolution();
        let (_, pages) = self.get_char_resolution();
        x < columns && y < pages
    }
}

/// Where the first `n` characters of `text` have a glyph and the next one has
/// none, or there is no next one, exactly `n` are readable.
pub proof fn lemma_readable(text: Seq<u8>, n: int)
    requires
        0 <= n <= text.len(),
        forall|j: int| 0 <= j < n ==> printable(#[trigger] text[j]),
        n < text.len() ==> !printable(text[n]),
    ensures
        readable(text) == n,
    decreases n,
{
    if n > 0 {
        let rest = text.drop_first();
        assert forall|j: int| 0 <= j < n - 1 implies printable(#[trigger] rest[j]) by {
            assert(rest[j] == text[j + 1]);
        }
        lemma_readable(rest, n - 1);
    }
}

/// Where the first `n` characters of `text` have a glyph, at least `n` are
/// readable.
pub proof fn lemma_readable_from(text: Seq<u8>, n: int)
    requires
        0 <= n <= text.len(),
        forall|j: int| 0 <= j < n ==> printable(#[trigger] text[j]),
    ensures
        readable(text) >= n,
    decreases n,
{
    if n > 0 {
        let rest = text.drop_first();
        assert forall|j: int| 0 <= j < n - 1 implies printable(#[trigger] rest[j]) by {
            assert(rest[j] == text[j + 1]);
        }
        lemma_readable_from(rest, n - 1);
    }
}

/// Printing one text and then another prints the first text's frames and then
/// the second's.
pub proof fn lemma_text_concat(head: Seq<u8>, tail: Seq<u8>)
    ensures
        text_frames(head + tail) == text_frames(head) + text_frames(tail),
    decreases tail.len(),
{
    if tail.len() == 0 {
        assert(head + tail =~= head);
        assert(text_frames(head) + text_frames(tail) =~= text_frames(head));
    } else {
        assert((head + tail).drop_last() =~= head + tail.drop_last());
        lemma_text_concat(head, tail.drop_last());
        assert(text_frames(head) + (text_frames(tail.drop_last()) + glyph_frames(tail.last()))
            =~= (text_frames(head) + text_frames(tail.drop_last())) + glyph_frames(tail.last()));
    }
}

/// What printing character number `i` of `text` adds to printing the `i`
/// before it, whichever way it ends.
proof fn lemma_text_step<T: Channel>(start: Seq<Signal>, text: Seq<u8>, i: int)
    requires
        0 <= i < text.len(),
        forall|j: int| 0 <= j < i ==> printable(#[trigger] text[j]),
    ensures
        start + wire::<T>(text_frames(text.take(i + 1))) == (start + wire::<T>(
            text_frames(text.take(i)),
        )) + wire::<T>(glyph_frames(text[i])),
        !printable(text[i]) ==> readable(text) == i,
        printable(text[i]) ==> forall|t: Seq<Signal>|
            broke_off::<T>(start + wire::<T>(text_frames(text.take(i))), t, glyph_frames(text[i]))
                ==> #[trigger] broke_off::<T>(
                start,
                t,
                text_frames(text.take(readable(text) as int)),
            ),
{
    let done = text_frames(text.take(i));
    let this = glyph_frames(text[i]);
    assert(text.take(i + 1).drop_last() =~= text.take(i));
    lemma_sequel::<T>(start, done, this);
    if !printable(text[i]) {
        lemma_readable(text, i);
    } else {
        lemma_readable_from(text, i + 1);
        let n = readable(text) as int;
        lemma_readable_bound(text);
        let rest = text.take(n).skip(i + 1);
        assert(text.take(n) =~= text.take(i + 1) + rest);
        lemma_text_concat(text.take(i + 1), rest);
        lemma_sequel::<T>(start, done + this, text_frames(rest));
        assert forall|t: Seq<Signal>|
            broke_off::<T>(start + wire::<T>(done), t, this) implies #[trigger] broke_off::<T>(
            start,
            t,
            text_frames(text.take(n)),
        ) by {
            let j = choose|j: int| broke_at::<T>(start + wire::<T>(done), t, this, j);
            assert(broke_at::<T>(start, t, done + this, done.len() + j));
            assert(broke_at::<T>(start, t, done + this + text_frames(rest), done.len() + j));
        }
    }
}

/// No more characters are readable than there are.
pub proof fn lemma_readable_bound(text: Seq<u8>)
    ensures
        readable(text) <= text.len(),
    decreases text.len(),
{
    if text.len() > 0 && printable(text[0]) {
        lemma_readable_bound(text.drop_first());
    }
}

/// Moving the cursor does not depend on what went before. Where the cursor
/// is put at a place, one data byte is sent and the cursor is put at that
/// place again, the second move sends, signal for signal, what the first one
/// sent.
pub proof fn lemma_position_repeats<T: Display>(
    before: Seq<Signal>,
    placed: Seq<Signal>,
    written: Seq<Signal>,
    again: Seq<Signal>,
    x: u8,
    y: u8,
    byte: u8,
)
    requires
        x < T::pixels().0,
        y < T::cells().1,
        placed == before + wire::<T>(T::position_frames(x, y)),
        written == placed + T::data_signals(seq![byte]),
        again == written + wire::<T>(T::position_frames(x, y)),
    ensures
        again.skip(written.len() as int) == placed.skip(before.len() as int),
        again == before + wire::<T>(
            T::position_frames(x, y) + seq![Frame::Data(seq![byte])] + T::position_frames(x, y),
        ),
{
    let place = T::position_frames(x, y);
    let write = seq![Frame::Data(seq![byte])];
    assert(again.skip(written.len() as int) =~= wire::<T>(place));
    assert(placed.skip(before.len() as int) =~= wire::<T>(place));
    lemma_single::<T>(placed, write[0]);
    lemma_sequel::<T>(before, place, write);
    lemma_sequel::<T>(before, place + write, place);
}

/// Clearing does not depend on what went before. A display that was cleared
/// and then printed on sends, when it is cleared again, what a display sends
/// that is cleared for the first time; and the three steps together send the
/// frames of a clear, of the text, and of a clear.
pub proof fn lemma_clear_round_trip<T: Display>(
    fresh: Seq<Signal>,
    cleared: Seq<Signal>,
    printed: Seq<Signal>,
    again: Seq<Signal>,
    text: Seq<u8>,
)
    requires
        cleared == fresh + wire::<T>(clear_frames(T::position_frames(0, 0), memory(T::pixels()))),
        printed == cleared + wire::<T>(text_frames(text)),
        again == printed + wire::<T>(clear_frames(T::position_frames(0, 0), memory(T::pixels()))),
    ensures
        again.skip(printed.len() as int) == cleared.skip(fresh.len() as int),
        again == fresh + wire::<T>(
            clear_frames(T::position_frames(0, 0), memory(T::pixels())) + text_frames(text)
                + clear_frames(T::position_frames(0, 0), memory(T::pixels())),
        ),
{
    let clear = clear_frames(T::position_frames(0, 0), memory(T::pixels()));
    assert(again.skip(printed.len() as int) =~= wire::<T>(clear));
    assert(cleared.skip(fresh.len() as int) =~= wire::<T>(clear));
    lemma_sequel::<T>(fresh, clear, text_frames(text));
    lemma_sequel::<T>(fresh, clear + text_frames(text), clear);
}

/// Prints the character with the code `c` through any channel: the columns of
/// its glyph as one burst, the gap after it as another. A code without a glyph
/// is refused before anything is sent.
pub fn print_glyph<T: Channel>(dev: &mut T, c: u8) -> (r: Result<(), DisplayError<T::Error>>)
    ensures
        !printable(c) ==> r == Err::<(), DisplayError<T::Error>>(DisplayError::Glyph(c))
            && final(dev).trace() == old(dev).trace(),
        r matches Err(DisplayError::Link(e)) ==> lodged(old(dev).refused(), final(dev).refused(), e),
        !(r matches Err(DisplayError::Link(_))) ==> final(dev).refused() == old(dev).refused(),
        printable(c) && r is Ok ==> final(dev).trace() == old(dev).trace() + wire::<T>(
            glyph_frames(c),
        ),
        printable(c) && r is Err ==> r->Err_0 is Link && broke_off::<T>(
            old(dev).trace(),
            final(dev).trace(),
            glyph_frames(c),
        ),
{
    match glyph(c) {
        None => Err(DisplayError::Glyph(c)),
        Some(shape) => {
            let gap = [0u8];
            let ghost start = dev.trace();
            let ghost first = Frame::Data(columns(c));
            let ghost second = Frame::Data(seq![0u8]);
            proof {
                assert(gap@ =~= seq![0u8]);
                lemma_single::<T>(start, first);
                lemma_single::<T>(start + wire::<T>(seq![first]), second);
                lemma_sequel::<T>(start, seq![first], seq![second]);
                assert(seq![first] + seq![second] =~= glyph_frames(c));
            }
            match dev.data(&shape) {
                Err(e) => Err(DisplayError::Link(e)),
                Ok(()) => match dev.data(&gap) {
                    Err(e) => Err(DisplayError::Link(e)),
                    Ok(()) => Ok(()),
                },
            }
        },
    }
}

} // verus!
