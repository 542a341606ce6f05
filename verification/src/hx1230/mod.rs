//! The HX1230: 96 by 68 pixels behind a three-wire serial link.
//!
//! The controller has no line that tells a command from data; a ninth bit in
//! front of every byte does. Display memory is nine bands of 96 bytes: eight
//! pages of eight pixel rows, and a ninth of which only four rows show.

pub mod gpio;

use crate::channel::{broke_off, commands, lemma_sequel, send_commands, wire, Channel, Frame};
use crate::clear_frames;
use crate::link::{lodged, Signal};
use vstd::prelude::*;

verus! {

/// Width of the display in pixels.
pub const COLUMNS: u8 = 96;

/// Height of the display in pixels.
pub const ROWS: u8 = 68;

/// How many pages the cursor can be put on.
pub const PAGES: u8 = 8;

/// How many characters fit on one line.
pub const TEXT_COLUMNS: u8 = 16;

/// How many bytes of display memory there are, the half band at the bottom
/// included.
pub const MEMORY: usize = 864;

/// The highest contrast there is.
pub const MAX_CONTRAST: u8 = 31;

/// A channel that leads to an HX1230.
pub trait Hx1230Base: Channel {

}

/// What the display shows of its memory.
#[derive(Clone, Copy, Debug, PartialEq, Eq, Structural)]
pub enum Modes {
    /// Nothing: every pixel is off.
    Blank,
    /// The memory as it is.
    Normal,
    /// Every pixel is on.
    Filled,
    /// The memory, dark for light.
    Inverse,
}

/// The two command bytes that select a mode. The first sets or clears the
/// controller's inverse bit, the second its all-pixels-on bit.
pub open spec fn mode_bytes(mode: Modes) -> (u8, u8) {
    match mode {
        Modes::Blank => (0xa7, 0xa5),
        Modes::Normal => (0xa6, 0xa4),
        Modes::Filled => (0xa6, 0xa5),
        Modes::Inverse => (0xa7, 0xa4),
    }
}

/// The frames that move the cursor: the page, the high bits of the column,
/// the low four bits of the column.
pub open spec fn position_frames(x: u8, y: u8) -> Seq<Frame> {
    commands(seq![0xb0u8 | y, 0x10u8 | (x >> 4), x & 0x0fu8])
}

/// The frame that sets the contrast.
pub open spec fn contrast_frames(contrast: u8) -> Seq<Frame> {
    commands(seq![0x80u8 | contrast])
}

/// The frames that select a mode.
pub open spec fn mode_frames(mode: Modes) -> Seq<Frame> {
    commands(seq![mode_bytes(mode).0, mode_bytes(mode).1])
}

/// The frame that mirrors the picture left to right, or stops doing so.
pub open spec fn flip_horizontal_frames(flip: bool) -> Seq<Frame> {
    commands(
        seq![if flip {
            0xa1u8
        } else {
            0xa8u8
        }],
    )
}

/// The frame that turns the picture upside down, or stops doing so.
pub open spec fn flip_vertical_frames(flip: bool) -> Seq<Frame> {
    commands(
        seq![if flip {
            0xc8u8
        } else {
            0xc0u8
        }],
    )
}

/// The frames that clear the display.
pub open spec fn blank_frames() -> Seq<Frame> {
    clear_frames(position_frames(0, 0), MEMORY as nat)
}

/// The frames that bring the controller up after a reset: power on, lowest
/// contrast, normal mode, display on, scan from line 0, and a clear.
pub open spec fn init_frames() -> Seq<Frame> {
    commands(seq![0x2fu8]) + contrast_frames(0) + mode_frames(Modes::Normal) + commands(
        seq![0xafu8, 0x40u8],
    ) + blank_frames()
}

/// The three cursor commands name one place. Each is told from the others by
/// its leading bits, and the column and the page can be read back from what
/// is left.
pub proof fn lemma_position_reads_back(x: u8, y: u8)
    requires
        x < COLUMNS,
        y < PAGES,
    ensures
        position_frames(x, y) == seq![
            Frame::Command(0xb0u8 | y),
            Frame::Command(0x10u8 | (x >> 4)),
            Frame::Command(x & 0x0fu8),
        ],
        (0xb0u8 | y) & 0xf8 == 0xb0,
        (0xb0u8 | y) & 0x07 == y,
        (0x10u8 | (x >> 4)) & 0xf8 == 0x10,
        (x & 0x0fu8) & 0xf0 == 0,
        (((0x10u8 | (x >> 4)) & 0x07) << 4) | (x & 0x0fu8) == x,
{
    assert(position_frames(x, y) =~= seq![
        Frame::Command(0xb0u8 | y),
        Frame::Command(0x10u8 | (x >> 4)),
        Frame::Command(x & 0x0fu8),
    ]);
    assert((0xb0u8 | y) & 0xf8 == 0xb0 && (0xb0u8 | y) & 0x07 == y) by (bit_vector)
        requires
            y < 8,
    ;
    assert((0x10u8 | (x >> 4)) & 0xf8 == 0x10 && (x & 0x0fu8) & 0xf0 == 0 && (((0x10u8 | (x >> 4))
        & 0x07) << 4) | (x & 0x0fu8) == x) by (bit_vector)
        requires
            x < 96,
    ;
}

/// The contrast command keeps its leading bits and carries the contrast.
pub proof fn lemma_contrast_reads_back(contrast: u8)
    requires
        contrast <= MAX_CONTRAST,
    ensures
        contrast_frames(contrast) == seq![Frame::Command(0x80u8 | contrast)],
        (0x80u8 | contrast) & 0xe0 == 0x80,
        (0x80u8 | contrast) & 0x1f == contrast,
{
    assert(contrast_frames(contrast) =~= seq![Frame::Command(0x80u8 | contrast)]);
    assert((0x80u8 | contrast) & 0xe0 == 0x80 && (0x80u8 | contrast) & 0x1f == contrast)
        by (bit_vector)
        requires
            contrast <= 31,
    ;
}

/// Bringing the controller up, frame by frame.
pub proof fn lemma_init_frames()
    ensures
        init_frames() == seq![
            Frame::Command(0x2f),
            Frame::Command(0x80),
            Frame::Command(0xa6),
            Frame::Command(0xa4),
            Frame::Command(0xaf),
            Frame::Command(0x40),
            Frame::Command(0xb0),
            Frame::Command(0x10),
            Frame::Command(0x00),
            Frame::Data(crate::zeros(864)),
            Frame::Command(0xb0),
            Frame::Command(0x10),
            Frame::Command(0x00),
        ],
{
    assert(0xb0u8 | 0 == 0xb0 && 0x10u8 | (0u8 >> 4) == 0x10 && 0u8 & 0x0fu8 == 0 && 0x80u8 | 0
        == 0x80) by (bit_vector);
    assert(init_frames() =~= seq![
        Frame::Command(0x2f),
        Frame::Command(0x80),
        Frame::Command(0xa6),
        Frame::Command(0xa4),
        Frame::Command(0xaf),
        Frame::Command(0x40),
        Frame::Command(0xb0),
        Frame::Command(0x10),
        Frame::Command(0x00),
        Frame::Data(crate::zeros(864)),
        Frame::Command(0xb0),
        Frame::Command(0x10),
        Frame::Command(0x00),
    ]);
}

/// Whether the controller takes `contrast`.
pub fn valid_contrast(contrast: u8) -> (yes: bool)
    ensures
        yes == (contrast <= MAX_CONTRAST),
{
    contrast <= MAX_CONTRAST
}

/// Moves the cursor to pixel column `x` of page `y`.
pub fn set_position<T: Hx1230Base>(dev: &mut T, x: u8, y: u8) -> (r: Result<(), T::Error>)
    requires
        x < COLUMNS,
        y < PAGES,
    ensures
        r is Ok ==> final(dev).trace() == old(dev).trace() + wire::<T>(position_frames(x, y)),
        r is Ok ==> final(dev).refused() == old(dev).refused(),
        r matches Err(e) ==> lodged(old(dev).refused(), final(dev).refused(), e),
        r is Err ==> broke_off::<T>(old(dev).trace(), final(dev).trace(), position_frames(x, y)),
{
    let bytes = [0xb0u8 | y, 0x10u8 | (x >> 4), x & 0x0fu8];
    assert(bytes@ =~= seq![0xb0u8 | y, 0x10u8 | (x >> 4), x & 0x0fu8]);
    send_commands(dev, &bytes)
}

/// Blanks the whole display memory and leaves the cursor at the origin.
pub fn clear<T: Hx1230Base>(dev: &mut T) -> (r: Result<(), T::Error>)
    ensures
        r is Ok ==> final(dev).trace() == old(dev).trace() + wire::<T>(blank_frames()),
        r is Ok ==> final(dev).refused() == old(dev).refused(),
        r matches Err(e) ==> lodged(old(dev).refused(), final(dev).refused(), e),
        r is Err ==> broke_off::<T>(old(dev).trace(), final(dev).trace(), blank_frames()),
{
    let buffer = [0u8; 864];
    let ghost start = dev.trace();
    let ghost home = position_frames(0, 0);
    let ghost fill = Frame::Data(crate::zeros(MEMORY as nat));
    proof {
        assert(buffer@.len() == 864);
        assert(buffer == vstd::array::spec_array_fill_for_copy_type::<u8, 864>(0u8));
        assert(buffer@ =~= crate::zeros(MEMORY as nat));
        crate::channel::lemma_single::<T>(start + wire::<T>(home), fill);
        lemma_sequel::<T>(start, home, seq![fill]);
        lemma_sequel::<T>(start, home + seq![fill], home);
    }
    set_position(dev, 0, 0)?;
    dev.data(&buffer)?;
    set_position(dev, 0, 0)
}

/// The commands of the HX1230.
pub trait Hx1230: Hx1230Base {
    /// Sets the contrast, from 0 to `MAX_CONTRAST`.
    fn set_contrast(&mut self, contrast: u8) -> (r: Result<(), Self::Error>)
        requires
            contrast <= MAX_CONTRAST,
        ensures
            r is Ok ==> final(self).trace() == old(self).trace() + wire::<Self>(
                contrast_frames(contrast),
            ),
            r is Ok ==> final(self).refused() == old(self).refused(),
            r matches Err(e) ==> lodged(old(self).refused(), final(self).refused(), e),
            r is Err ==> broke_off::<Self>(
                old(self).trace(),
                final(self).trace(),
                contrast_frames(contrast),
            ),
    ;

    /// Selects what the display shows of its memory.
    fn set_mode(&mut self, mode: Modes) -> (r: Result<(), Self::Error>)
        ensures
            r is Ok ==> final(self).trace() == old(self).trace() + wire::<Self>(mode_frames(mode)),
            r is Ok ==> final(self).refused() == old(self).refused(),
            r matches Err(e) ==> lodged(old(self).refused(), final(self).refused(), e),
            r is Err ==> broke_off::<Self>(
                old(self).trace(),
                final(self).trace(),
                mode_frames(mode),
            ),
    ;

    /// Mirrors the picture left to right, or stops doing so.
    fn flip_horizontal(&mut self, flip: bool) -> (r: Result<(), Self::Error>)
        ensures
            r is Ok ==> final(self).trace() == old(self).trace() + wire::<Self>(
                flip_horizontal_frames(flip),
            ),
            r is Ok ==> final(self).refused() == old(self).refused(),
            r matches Err(e) ==> lodged(old(self).refused(), final(self).refused(), e),
            r is Err ==> broke_off::<Self>(
                old(self).trace(),
                final(self).trace(),
                flip_horizontal_frames(flip),
            ),
    ;

    /// Turns the picture upside down, or stops doing so.
    fn flip_vertical(&mut self, flip: bool) -> (r: Result<(), Self::Error>)
        ensures
            r is Ok ==> final(self).trace() == old(self).trace() + wire::<Self>(
                flip_vertical_frames(flip),
            ),
            r is Ok ==> final(self).refused() == old(self).refused(),
            r matches Err(e) ==> lodged(old(self).refused(), final(self).refused(), e),
            r is Err ==> broke_off::<Self>(
                old(self).trace(),
                final(self).trace(),
                flip_vertical_frames(flip),
            ),
    ;

    /// Brings the controller up after a reset and clears the display.
    fn init(&mut self) -> (r: Result<(), Self::Error>)
        ensures
            r is Ok ==> final(self).trace() == old(self).trace() + wire::<Self>(init_frames()),
            r is Ok ==> final(self).refused() == old(self).refused(),
            r matches Err(e) ==> lodged(old(self).refused(), final(self).refused(), e),
            r is Err ==> broke_off::<Self>(old(self).trace(), final(self).trace(), init_frames()),
    ;
}

impl<T: Hx1230Base> Hx1230 for T {
    fn set_contrast(&mut self, contrast: u8) -> (r: Result<(), Self::Error>) {
        let bytes = [0x80u8 | contrast];
        assert(bytes@ =~= seq![0x80u8 | contrast]);
        send_commands(self, &bytes)
    }

    fn set_mode(&mut self, mode: Modes) -> (r: Result<(), Self::Error>) {
        let bytes: [u8; 2] = match mode {
            Modes::Blank => [0xa7, 0xa5],
            Modes::Normal => [0xa6, 0xa4],
            Modes::Filled => [0xa6, 0xa5],
            Modes::Inverse => [0xa7, 0xa4],
        };
        assert(bytes@ =~= seq![mode_bytes(mode).0, mode_bytes(mode).1]);
        send_commands(self, &bytes)
    }

    fn flip_horizontal(&mut self, flip: bool) -> (r: Result<(), Self::Error>) {
        let bytes: [u8; 1] = [if flip {
            0xa1
        } else {
            0xa8
        }];
        assert(bytes@ =~= seq![if flip {
            0xa1u8
        } else {
            0xa8u8
        }]);
        send_commands(self, &bytes)
    }

    fn flip_vertical(&mut self, flip: bool) -> (r: Result<(), Self::Error>) {
        let bytes: [u8; 1] = [if flip {
            0xc8
        } else {
            0xc0
        }];
        assert(bytes@ =~= seq![if flip {
            0xc8u8
        } else {
            0xc0u8
        }]);
        send_commands(self, &bytes)
    }

    fn init(&mut self) -> (r: Result<(), Self::Error>) {
        let power = [0x2fu8];
        let enable = [0xafu8, 0x40u8];
        let ghost start = self.trace();
        let ghost up = commands(seq![0x2fu8]);
        let ghost dim = contrast_frames(0);
        let ghost normal = mode_frames(Modes::Normal);
        let ghost on = commands(seq![0xafu8, 0x40u8]);
        proof {
            assert(power@ =~= seq![0x2fu8]);
            assert(enable@ =~= seq![0xafu8, 0x40u8]);
            lemma_sequel::<Self>(start, up, dim);
            lemma_sequel::<Self>(start, up + dim, normal);
            lemma_sequel::<Self>(start, up + dim + normal, on);
            lemma_sequel::<Self>(start, up + dim + normal + on, blank_frames());
        }
        send_commands(self, &power)?;
        self.set_contrast(0)?;
        self.set_mode(Modes::Normal)?;
        send_commands(self, &enable)?;
        clear(self)
    }
}

} // verus!
