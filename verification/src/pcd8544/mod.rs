//! The PCD8544: 84 by 48 pixels behind a four-wire serial link.
//!
//! A line of its own tells the controller a command from data. Display memory
//! is six pages of 84 bytes, each byte a column of eight pixels.

pub mod gpio;
pub mod spi;

use crate::channel::{
    broke_off, commands, lemma_sequel, lemma_single, send_commands, wire, Channel, Frame,
};
use crate::link::{lodged, Line, Signal};
use crate::{clear_frames, print_glyph, zeros, Display, DisplayError};
use vstd::prelude::*;

verus! {

/// Width of the display in pixels.
pub const COLUMNS: u8 = 84;

/// Height of the display in pixels.
pub const ROWS: u8 = 48;

/// How many pages the cursor can be put on.
pub const PAGES: u8 = 6;

/// How many characters fit on one line.
pub const TEXT_COLUMNS: u8 = 14;

/// How many bytes of display memory there are.
pub const MEMORY: usize = 504;

/// The voltage coefficients end below this.
pub const VOLTAGE_LIMIT: u8 = 91;

/// The temperature coefficients end below this.
pub const TEMPERATURE_LIMIT: u8 = 4;

/// The bias values end below this.
pub const BIAS_LIMIT: u8 = 8;

/// A channel that leads to a PCD8544.
pub trait Pcd8544Base: Channel {

}

/// What the display shows of its memory.
#[derive(Clone, Copy, Debug, PartialEq, Eq, Structural)]
pub enum Modes {
    /// Nothing: every pixel is off.
    Blank,
    /// The memory as it is.
    Normal,
    /// Every pixel is on.
    Filled,
    /// The memory, dark for light.
    Inverse,
}

/// The command byte that selects a mode.
pub open spec fn mode_byte(mode: Modes) -> u8 {
    match mode {
        Modes::Blank => 0x08,
        Modes::Normal => 0x0c,
        Modes::Filled => 0x09,
        Modes::Inverse => 0x0d,
    }
}

/// The reset pulse: the line is pulled low for 10 ms and let go.
pub open spec fn reset_signals() -> Seq<Signal> {
    seq![Signal::Level(Line::Reset, false), Signal::Pause(10), Signal::Level(Line::Reset, true)]
}

/// The frames that move the cursor: the page, then the column.
pub open spec fn position_frames(x: u8, y: u8) -> Seq<Frame> {
    commands(seq![0x40u8 | y, 0x80u8 | x])
}

/// The frames that set what the display's voltage generator works with: the
/// extended instruction set is switched on, the three values go out, and it is
/// switched off again.
pub open spec fn coefficient_frames(voltage: u8, temperature: u8, bias: u8) -> Seq<Frame> {
    commands(seq![0x21u8, 0x80u8 | voltage, 0x04u8 | temperature, 0x10u8 | bias, 0x20u8])
}

/// The frame that selects a mode.
pub open spec fn mode_frames(mode: Modes) -> Seq<Frame> {
    commands(seq![mode_byte(mode)])
}

/// The frames that clear the display.
pub open spec fn blank_frames() -> Seq<Frame> {
    clear_frames(position_frames(0, 0), MEMORY as nat)
}

/// The frames that bring the controller up after a reset: the coefficients
/// that suit most modules, normal mode, and a clear.
pub open spec fn init_frames() -> Seq<Frame> {
    coefficient_frames(56, 0, 4) + mode_frames(Modes::Normal) + blank_frames()
}

/// The frames that redraw the whole display from `buffer`, which holds the
/// picture column by column: addressing goes vertical, the cursor to the
/// origin, the buffer out, addressing back to horizontal, the cursor to the
/// origin.
pub open spec fn draw_frames(buffer: Seq<u8>) -> Seq<Frame> {
    commands(seq![0x22u8]) + position_frames(0, 0) + seq![Frame::Data(buffer)] + commands(
        seq![0x20u8],
    ) + position_frames(0, 0)
}

/// The two cursor commands name one place. Each is told from the other by
/// its leading bits, and the page and the column can be read back from what
/// is left.
pub proof fn lemma_position_reads_back(x: u8, y: u8)
    requires
        x < COLUMNS,
        y < PAGES,
    ensures
        position_frames(x, y) == seq![Frame::Command(0x40u8 | y), Frame::Command(0x80u8 | x)],
        (0x40u8 | y) & 0xf8 == 0x40,
        (0x40u8 | y) & 0x07 == y,
        (0x80u8 | x) & 0x80 == 0x80,
        (0x80u8 | x) & 0x7f == x,
{
    assert(position_frames(x, y) =~= seq![Frame::Command(0x40u8 | y), Frame::Command(0x80u8 | x)]);
    assert((0x40u8 | y) & 0xf8 == 0x40 && (0x40u8 | y) & 0x07 == y) by (bit_vector)
        requires
            y < 6,
    ;
    assert((0x80u8 | x) & 0x80 == 0x80 && (0x80u8 | x) & 0x7f == x) by (bit_vector)
        requires
            x < 84,
    ;
}

/// The three coefficient commands keep their leading bits and carry the
/// coefficients.
pub proof fn lemma_coefficients_read_back(voltage: u8, temperature: u8, bias: u8)
    requires
        voltage < VOLTAGE_LIMIT,
        temperature < TEMPERATURE_LIMIT,
        bias < BIAS_LIMIT,
    ensures
        coefficient_frames(voltage, temperature, bias) == seq![
            Frame::Command(0x21u8),
            Frame::Command(0x80u8 | voltage),
            Frame::Command(0x04u8 | temperature),
            Frame::Command(0x10u8 | bias),
            Frame::Command(0x20u8),
        ],
        (0x80u8 | voltage) & 0x7f == voltage,
        (0x04u8 | temperature) & 0xfc == 0x04,
        (0x04u8 | temperature) & 0x03 == temperature,
        (0x10u8 | bias) & 0xf8 == 0x10,
        (0x10u8 | bias) & 0x07 == bias,
{
    assert(coefficient_frames(voltage, temperature, bias) =~= seq![
        Frame::Command(0x21u8),
        Frame::Command(0x80u8 | voltage),
        Frame::Command(0x04u8 | temperature),
        Frame::Command(0x10u8 | bias),
        Frame::Command(0x20u8),
    ]);
    assert((0x80u8 | voltage) & 0x7f == voltage) by (bit_vector)
        requires
            voltage < 91,
    ;
    assert((0x04u8 | temperature) & 0xfc == 0x04 && (0x04u8 | temperature) & 0x03 == temperature)
        by (bit_vector)
        requires
            temperature < 4,
    ;
    assert((0x10u8 | bias) & 0xf8 == 0x10 && (0x10u8 | bias) & 0x07 == bias) by (bit_vector)
        requires
            bias < 8,
    ;
}

/// Bringing the controller up, frame by frame.
pub proof fn lemma_init_frames()
    ensures
        init_frames() == seq![
            Frame::Command(0x21),
            Frame::Command(0xb8),
            Frame::Command(0x04),
            Frame::Command(0x14),
            Frame::Command(0x20),
            Frame::Command(0x0c),
            Frame::Command(0x40),
            Frame::Command(0x80),
            Frame::Data(zeros(504)),
            Frame::Command(0x40),
            Frame::Command(0x80),
        ],
{
    assert(0x80u8 | 56 == 0xb8 && 0x04u8 | 0 == 0x04 && 0x10u8 | 4 == 0x14 && 0x40u8 | 0 == 0x40
        && 0x80u8 | 0 == 0x80) by (bit_vector);
    assert(init_frames() =~= seq![
        Frame::Command(0x21),
        Frame::Command(0xb8),
        Frame::Command(0x04),
        Frame::Command(0x14),
        Frame::Command(0x20),
        Frame::Command(0x0c),
        Frame::Command(0x40),
        Frame::Command(0x80),
        Frame::Data(zeros(504)),
        Frame::Command(0x40),
        Frame::Command(0x80),
    ]);
}

/// Redrawing the display, frame by frame.
pub proof fn lemma_draw_frames(buffer: Seq<u8>)
    ensures
        draw_frames(buffer) == seq![
            Frame::Command(0x22),
            Frame::Command(0x40),
            Frame::Command(0x80),
            Frame::Data(buffer),
            Frame::Command(0x20),
            Frame::Command(0x40),
            Frame::Command(0x80),
        ],
{
    assert(0x40u8 | 0 == 0x40 && 0x80u8 | 0 == 0x80) by (bit_vector);
    assert(draw_frames(buffer) =~= seq![
        Frame::Command(0x22),
        Frame::Command(0x40),
        Frame::Command(0x80),
        Frame::Data(buffer),
        Frame::Command(0x20),
        Frame::Command(0x40),
        Frame::Command(0x80),
    ]);
}

/// Whether the controller takes these coefficients.
pub fn valid_coefficients(voltage: u8, temperature: u8, bias: u8) -> (yes: bool)
    ensures
        yes == (voltage < VOLTAGE_LIMIT && temperature < TEMPERATURE_LIMIT && bias < BIAS_LIMIT),
{
    voltage < VOLTAGE_LIMIT && temperature < TEMPERATURE_LIMIT && bias < BIAS_LIMIT
}

impl<T: Pcd8544Base> Display for T {
    open spec fn pixels() -> (u8, u8) {
        (COLUMNS, ROWS)
    }

    open spec fn cells() -> (u8, u8) {
        (TEXT_COLUMNS, PAGES)
    }

    open spec fn position_frames(x: u8, y: u8) -> Seq<Frame> {
        position_frames(x, y)
    }

    fn set_position(&mut self, x: u8, y: u8) -> (r: Result<(), Self::Error>) {
        let bytes = [0x40u8 | y, 0x80u8 | x];
        assert(bytes@ =~= seq![0x40u8 | y, 0x80u8 | x]);
        send_commands(self, &bytes)
    }

    fn clear(&mut self) -> (r: Result<(), Self::Error>) {
        let buffer = [0u8; 504];
        let ghost start = self.trace();
        let ghost home = position_frames(0, 0);
        let ghost fill = Frame::Data(zeros(MEMORY as nat));
        proof {
            assert(buffer@.len() == 504);
            assert(buffer == vstd::array::spec_array_fill_for_copy_type::<u8, 504>(0u8));
            assert(buffer@ =~= zeros(MEMORY as nat));
            lemma_single::<Self>(start + wire::<Self>(home), fill);
            lemma_sequel::<Self>(start, home, seq![fill]);
            lemma_sequel::<Self>(start, home + seq![fill], home);
        }
        self.set_position(0, 0)?;
        self.data(&buffer)?;
        self.set_position(0, 0)
    }

    fn print_char(&mut self, c: u8) -> (r: Result<(), DisplayError<Self::Error>>) {
        print_glyph(self, c)
    }

    fn get_pixel_resolution(&self) -> (r: (u8, u8)) {
        (COLUMNS, ROWS)
    }

    fn get_char_resolution(&self) -> (r: (u8, u8)) {
        (TEXT_COLUMNS, PAGES)
    }
}

/// The commands of the PCD8544.
pub trait Pcd8544: Pcd8544Base {
    /// Sets what the voltage generator works with. The display voltage is
    /// 3.06 V and 0.06 V more for each step of `voltage_coefficient`; the
    /// bias voltage is that, divided by `bias` and four.
    fn set_lcd_coefficients(
        &mut self,
        voltage_coefficient: u8,
        temp_coefficient: u8,
        bias: u8,
    ) -> (r: Result<(), Self::Error>)
        requires
            voltage_coefficient < VOLTAGE_LIMIT,
            temp_coefficient < TEMPERATURE_LIMIT,
            bias < BIAS_LIMIT,
        ensures
            r is Ok ==> final(self).trace() == old(self).trace() + wire::<Self>(
                coefficient_frames(voltage_coefficient, temp_coefficient, bias),
            ),
            r is Ok ==> final(self).refused() == old(self).refused(),
            r matches Err(e) ==> lodged(old(self).refused(), final(self).refused(), e),
            r is Err ==> broke_off::<Self>(
                old(self).trace(),
                final(self).trace(),
                coefficient_frames(voltage_coefficient, temp_coefficient, bias),
            ),
    ;

    /// Selects what the display shows of its memory.
    fn set_mode(&mut self, mode: Modes) -> (r: Result<(), Self::Error>)
        ensures
            r is Ok ==> final(self).trace() == old(self).trace() + wire::<Self>(mode_frames(mode)),
            r is Ok ==> final(self).refused() == old(self).refused(),
            r matches Err(e) ==> lodged(old(self).refused(), final(self).refused(), e),
            r is Err ==> broke_off::<Self>(
                old(self).trace(),
                final(self).trace(),
                mode_frames(mode),
            ),
    ;

    /// Brings the controller up after a reset and clears the display.
    fn init(&mut self) -> (r: Result<(), Self::Error>)
        ensures
            r is Ok ==> final(self).trace() == old(self).trace() + wire::<Self>(init_frames()),
            r is Ok ==> final(self).refused() == old(self).refused(),
            r matches Err(e) ==> lodged(old(self).refused(), final(self).refused(), e),
            r is Err ==> broke_off::<Self>(old(self).trace(), final(self).trace(), init_frames()),
    ;

    /// Redraws the whole display from `buffer`. The buffer runs down the
    /// columns: its first six bytes are the leftmost column, top to bottom.
    fn draw_buffer(&mut self, buffer: &[u8; 504]) -> (r: Result<(), Self::Error>)
        ensures
            r is Ok ==> final(self).trace() == old(self).trace() + wire::<Self>(
                draw_frames(buffer@),
            ),
            r is Ok ==> final(self).refused() == old(self).refused(),
            r matches Err(e) ==> lodged(old(self).refused(), final(self).refused(), e),
            r is Err ==> broke_off::<Self>(
                old(self).trace(),
                final(self).trace(),
                draw_frames(buffer@),
            ),
    ;
}

impl<T: Pcd8544Base> Pcd8544 for T {
    fn set_lcd_coefficients(
        &mut self,
        voltage_coefficient: u8,
        temp_coefficient: u8,
        bias: u8,
    ) -> (r: Result<(), Self::Error>) {
        let bytes = [
            0x21u8,
            0x80u8 | (voltage_coefficient & 0x7f),
            0x04u8 | (temp_coefficient & 0x03),
            0x10u8 | (bias & 0x07),
            0x20u8,
        ];
        proof {
            assert(voltage_coefficient & 0x7f == voltage_coefficient) by (bit_vector)
                requires
                    voltage_coefficient < 91,
            ;
            assert(temp_coefficient & 0x03 == temp_coefficient) by (bit_vector)
                requires
                    temp_coefficient < 4,
            ;
            assert(bias & 0x07 == bias) by (bit_vector)
                requires
                    bias < 8,
            ;
            assert(bytes@ =~= seq![
                0x21u8,
                0x80u8 | voltage_coefficient,
                0x04u8 | temp_coefficient,
                0x10u8 | bias,
                0x20u8,
            ]);
        }
        send_commands(self, &bytes)
    }

    fn set_mode(&mut self, mode: Modes) -> (r: Result<(), Self::Error>) {
        let bytes: [u8; 1] = [
            match mode {
                Modes::Blank => 0x08,
                Modes::Normal => 0x0c,
                Modes::Filled => 0x09,
                Modes::Inverse => 0x0d,
            },
        ];
        assert(bytes@ =~= seq![mode_byte(mode)]);
        send_commands(self, &bytes)
    }

    fn init(&mut self) -> (r: Result<(), Self::Error>) {
        let ghost start = self.trace();
        let ghost tuned = coefficient_frames(56, 0, 4);
        let ghost normal = mode_frames(Modes::Normal);
        proof {
            lemma_sequel::<Self>(start, tuned, normal);
            lemma_sequel::<Self>(start, tuned + normal, blank_frames());
        }
        self.set_lcd_coefficients(56, 0, 4)?;
        self.set_mode(Modes::Normal)?;
        self.clear()
    }

    fn draw_buffer(&mut self, buffer: &[u8; 504]) -> (r: Result<(), Self::Error>) {
        let vertical = [0x22u8];
        let horizontal = [0x20u8];
        let ghost start = self.trace();
        let ghost down = commands(seq![0x22u8]);
        let ghost home = position_frames(0, 0);
        let ghost picture = Frame::Data(buffer@);
        let ghost across = commands(seq![0x20u8]);
        proof {
            assert(vertical@ =~= seq![0x22u8]);
            assert(horizontal@ =~= seq![0x20u8]);
            lemma_single::<Self>(start + wire::<Self>(down + home), picture);
            lemma_sequel::<Self>(start, down, home);
            lemma_sequel::<Self>(start, down + home, seq![picture]);
            lemma_sequel::<Self>(start, down + home + seq![picture], across);
            lemma_sequel::<Self>(start, down + home + seq![picture] + across, home);
        }
        send_commands(self, &vertical)?;
        self.set_position(0, 0)?;
        self.data(buffer)?;
        send_commands(self, &horizontal)?;
        self.set_position(0, 0)
    }
}

} // verus!
