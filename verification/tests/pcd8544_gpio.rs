use mono_lcd::channel::Channel;
use mono_lcd::font::ASCII;
use mono_lcd::link::{Line, Signal};
use mono_lcd::pcd8544::gpio::Pcd8544Gpio;
use mono_lcd::pcd8544::{valid_coefficients, Modes, Pcd8544};
use mono_lcd::recorder::{Recorder, Refused};
use mono_lcd::{Display, DisplayError};

fn bits(out: &mut Vec<Signal>, byte: u8) {
    for n in (0..8).rev() {
        out.push(Signal::Level(Line::Data, (byte >> n) & 1 == 1));
        out.push(Signal::Level(Line::Clock, true));
        out.push(Signal::Level(Line::Clock, false));
    }
}

fn command(out: &mut Vec<Signal>, cmd: u8) {
    out.push(Signal::Level(Line::Mode, false));
    out.push(Signal::Level(Line::Select, false));
    bits(out, cmd);
    out.push(Signal::Level(Line::Select, true));
}

fn data(out: &mut Vec<Signal>, bytes: &[u8]) {
    out.push(Signal::Level(Line::Mode, true));
    out.push(Signal::Level(Line::Select, false));
    for b in bytes {
        bits(out, *b);
    }
    out.push(Signal::Level(Line::Select, true));
}

#[test]
fn pcd8544_send_shifts_msb_first() {
    let mut pcd = Pcd8544Gpio::attach(Recorder::new());
    pcd.send(0x41).unwrap();
    let mut want = Vec::new();
    bits(&mut want, 0x41);
    assert_eq!(pcd.link().signals(), &want);
    assert_eq!(want[3], Signal::Level(Line::Data, true));
    assert_eq!(want[0], Signal::Level(Line::Data, false));
}

#[test]
fn pcd8544_init_sequence() {
    let pcd = Pcd8544Gpio::new(Recorder::new()).unwrap();
    let mut want = vec![
        Signal::Level(Line::Reset, false),
        Signal::Pause(10),
        Signal::Level(Line::Reset, true),
    ];
    for cmd in [0x21u8, 0x80 | 56, 0x04, 0x10 | 4, 0x20, 0x0c, 0x40, 0x80] {
        command(&mut want, cmd);
    }
    data(&mut want, &[0u8; 504]);
    for cmd in [0x40u8, 0x80] {
        command(&mut want, cmd);
    }
    assert_eq!(pcd.detach().signals(), &want);
}

#[test]
fn pcd8544_draw_buffer_sequence() {
    let mut buffer = [0u8; 504];
    for (i, b) in buffer.iter_mut().enumerate() {
        *b = (i % 251) as u8;
    }
    let mut pcd = Pcd8544Gpio::attach(Recorder::new());
    pcd.draw_buffer(&buffer).unwrap();
    let mut want = Vec::new();
    for cmd in [0b0010_0010u8, 0x40, 0x80] {
        command(&mut want, cmd);
    }
    data(&mut want, &buffer);
    for cmd in [0b0010_0000u8, 0x40, 0x80] {
        command(&mut want, cmd);
    }
    assert_eq!(pcd.link().signals(), &want);
}

#[test]
fn pcd8544_set_position_boundary() {
    let mut pcd = Pcd8544Gpio::attach(Recorder::new());
    assert!(pcd.in_range(83, 5));
    assert!(pcd.in_range(0, 0));
    assert!(!pcd.in_range(84, 0));
    assert!(!pcd.in_range(0, 6));
    pcd.set_position(83, 5).unwrap();
    let mut want = Vec::new();
    command(&mut want, 0x45);
    command(&mut want, 0x80 | 83);
    assert_eq!(pcd.link().signals(), &want);
}

#[test]
fn pcd8544_coefficient_bounds() {
    assert!(valid_coefficients(0, 0, 0));
    assert!(valid_coefficients(90, 3, 7));
    assert!(!valid_coefficients(91, 0, 0));
    assert!(!valid_coefficients(0, 4, 0));
    assert!(!valid_coefficients(0, 0, 8));
    let mut pcd = Pcd8544Gpio::attach(Recorder::new());
    pcd.set_lcd_coefficients(90, 3, 0).unwrap();
    pcd.set_lcd_coefficients(0, 0, 7).unwrap();
    let mut want = Vec::new();
    for cmd in [0x21u8, 0x80 | 90, 0x07, 0x10, 0x20, 0x21, 0x80, 0x04, 0x17, 0x20] {
        command(&mut want, cmd);
    }
    assert_eq!(pcd.link().signals(), &want);
}

#[test]
fn pcd8544_modes() {
    for (mode, byte) in [
        (Modes::Blank, 0b000_1000u8),
        (Modes::Normal, 0b000_1100),
        (Modes::Filled, 0b000_1001),
        (Modes::Inverse, 0b000_1101),
    ] {
        let mut pcd = Pcd8544Gpio::attach(Recorder::new());
        pcd.set_mode(mode).unwrap();
        let mut want = Vec::new();
        command(&mut want, byte);
        assert_eq!(pcd.link().signals(), &want);
    }
}

#[test]
fn pcd8544_print_char_sends_glyph_and_gap() {
    let mut pcd = Pcd8544Gpio::attach(Recorder::new());
    pcd.print_char(b'A').unwrap();
    let mut want = Vec::new();
    data(&mut want, &ASCII[33]);
    data(&mut want, &[0]);
    assert_eq!(pcd.link().signals(), &want);
}

#[test]
fn pcd8544_print_refuses_codes_without_glyph() {
    let mut pcd = Pcd8544Gpio::attach(Recorder::new());
    assert_eq!(pcd.print_char(0x07), Err(DisplayError::Glyph(0x07)));
    assert!(pcd.link().signals().is_empty());
    assert_eq!(pcd.print(&[b'a', 0xc3, b'b']), Err(DisplayError::Glyph(0xc3)));
    let mut want = Vec::new();
    data(&mut want, &ASCII[(b'a' - 0x20) as usize]);
    data(&mut want, &[0]);
    assert_eq!(pcd.link().signals(), &want);
}

#[test]
fn pcd8544_clear_is_the_same_on_a_used_display() {
    let mut pcd = Pcd8544Gpio::attach(Recorder::new());
    pcd.clear().unwrap();
    let first = pcd.link().signals().clone();
    let mut want = Vec::new();
    command(&mut want, 0x40);
    command(&mut want, 0x80);
    data(&mut want, &[0u8; 504]);
    command(&mut want, 0x40);
    command(&mut want, 0x80);
    assert_eq!(first, want);
    pcd.print(b"some text").unwrap();
    let before = pcd.link().signals().len();
    pcd.clear().unwrap();
    assert_eq!(pcd.link().signals()[before..], first[..]);
}

#[test]
fn pcd8544_set_position_repeats_itself() {
    for (x, y) in [(0u8, 0u8), (40, 2), (83, 5)] {
        let mut pcd = Pcd8544Gpio::attach(Recorder::new());
        pcd.set_position(x, y).unwrap();
        let first = pcd.link().signals().clone();
        pcd.data(&[0xff]).unwrap();
        let before = pcd.link().signals().len();
        pcd.set_position(x, y).unwrap();
        assert_eq!(pcd.link().signals()[before..], first[..]);
    }
}

#[test]
fn pcd8544_resolution() {
    let pcd = Pcd8544Gpio::attach(Recorder::new());
    assert_eq!(pcd.get_pixel_resolution(), (84, 48));
    assert_eq!(pcd.get_char_resolution(), (14, 6));
}

#[test]
fn pcd8544_command_releases_chip_select_after_a_failure() {
    let mut whole = Vec::new();
    command(&mut whole, 0x0c);
    for k in 2..26usize {
        let mut pcd = Pcd8544Gpio::attach(Recorder::refusing(k));
        assert_eq!(pcd.command(0x0c), Err(Refused { request: k }));
        let mut want = whole[..k].to_vec();
        want.push(Signal::Level(Line::Select, true));
        assert_eq!(pcd.link().signals(), &want);
    }
    for k in [0usize, 1] {
        let mut pcd = Pcd8544Gpio::attach(Recorder::refusing(k));
        assert_eq!(pcd.command(0x0c), Err(Refused { request: k }));
        assert_eq!(pcd.link().signals()[..], whole[..k]);
    }
    let mut pcd = Pcd8544Gpio::attach(Recorder::refusing(26));
    assert_eq!(pcd.command(0x0c), Err(Refused { request: 26 }));
    assert_eq!(pcd.link().signals()[..], whole[..26]);
}

#[test]
fn pcd8544_data_stops_at_the_bit_that_fails() {
    let mut whole = Vec::new();
    data(&mut whole, &[0x12, 0x34]);
    let mut pcd = Pcd8544Gpio::attach(Recorder::refusing(30));
    assert_eq!(pcd.data(&[0x12, 0x34]), Err(Refused { request: 30 }));
    let mut want = whole[..30].to_vec();
    want.push(Signal::Level(Line::Select, true));
    assert_eq!(pcd.link().signals(), &want);
}

#[test]
fn pcd8544_new_reports_a_failed_reset() {
    assert_eq!(Pcd8544Gpio::new(Recorder::refusing(1)).err(), Some(Refused { request: 1 }));
}
