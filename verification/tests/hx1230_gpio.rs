use mono_lcd::channel::Channel;
use mono_lcd::font::ASCII;
use mono_lcd::hx1230::gpio::Hx1230Gpio;
use mono_lcd::hx1230::{valid_contrast, Hx1230, Modes};
use mono_lcd::link::{Line, Signal};
use mono_lcd::recorder::{Recorder, Refused};
use mono_lcd::{Display, DisplayError};

fn bits(out: &mut Vec<Signal>, byte: u8) {
    for n in (0..8).rev() {
        out.push(Signal::Level(Line::Data, (byte >> n) & 1 == 1));
        out.push(Signal::Level(Line::Clock, true));
        out.push(Signal::Level(Line::Clock, false));
    }
}

fn command(out: &mut Vec<Signal>, cmd: u8) {
    out.push(Signal::Level(Line::Select, false));
    out.push(Signal::Level(Line::Data, false));
    out.push(Signal::Level(Line::Clock, true));
    out.push(Signal::Level(Line::Clock, false));
    bits(out, cmd);
    out.push(Signal::Level(Line::Select, true));
}

fn data(out: &mut Vec<Signal>, bytes: &[u8]) {
    out.push(Signal::Level(Line::Select, false));
    for b in bytes {
        out.push(Signal::Level(Line::Data, true));
        out.push(Signal::Level(Line::Clock, true));
        out.push(Signal::Level(Line::Clock, false));
        bits(out, *b);
    }
    out.push(Signal::Level(Line::Select, true));
}

#[test]
fn hx1230_send_shifts_msb_first() {
    let mut hx = Hx1230Gpio::attach(Recorder::new());
    hx.send(0b1010_0001).unwrap();
    let got = hx.detach();
    let mut want = Vec::new();
    bits(&mut want, 0b1010_0001);
    assert_eq!(got.signals(), &want);
    assert_eq!(want.len(), 24);
    assert_eq!(want[0], Signal::Level(Line::Data, true));
    assert_eq!(want[3], Signal::Level(Line::Data, false));
    assert_eq!(want[21], Signal::Level(Line::Data, true));
}

#[test]
fn hx1230_set_position_boundary() {
    let mut hx = Hx1230Gpio::attach(Recorder::new());
    assert!(hx.in_range(95, 7));
    assert!(!hx.in_range(96, 0));
    assert!(!hx.in_range(0, 8));
    hx.set_position(95, 7).unwrap();
    let mut want = Vec::new();
    command(&mut want, 0xb7);
    command(&mut want, 0x15);
    command(&mut want, 0x0f);
    assert_eq!(hx.link().signals(), &want);
}

#[test]
fn hx1230_contrast_bounds() {
    assert!(valid_contrast(0));
    assert!(valid_contrast(31));
    assert!(!valid_contrast(32));
    let mut hx = Hx1230Gpio::attach(Recorder::new());
    hx.set_contrast(0).unwrap();
    hx.set_contrast(31).unwrap();
    let mut want = Vec::new();
    command(&mut want, 0x80);
    command(&mut want, 0x9f);
    assert_eq!(hx.link().signals(), &want);
}

#[test]
fn hx1230_init_sequence() {
    let hx = Hx1230Gpio::new(Recorder::new()).unwrap();
    let mut want = vec![
        Signal::Level(Line::Reset, true),
        Signal::Pause(50),
        Signal::Level(Line::Reset, false),
        Signal::Pause(5),
        Signal::Level(Line::Reset, true),
        Signal::Pause(10),
    ];
    for cmd in [0b0010_1111u8, 0b1000_0000, 0b1010_0110, 0b1010_0100, 0b1010_1111, 0b0100_0000] {
        command(&mut want, cmd);
    }
    for cmd in [0xb0u8, 0x10, 0x00] {
        command(&mut want, cmd);
    }
    data(&mut want, &[0u8; 864]);
    for cmd in [0xb0u8, 0x10, 0x00] {
        command(&mut want, cmd);
    }
    assert_eq!(hx.link().signals(), &want);
}

#[test]
fn hx1230_modes() {
    for (mode, a, b) in [
        (Modes::Blank, 0xa7u8, 0xa5u8),
        (Modes::Normal, 0xa6, 0xa4),
        (Modes::Filled, 0xa6, 0xa5),
        (Modes::Inverse, 0xa7, 0xa4),
    ] {
        let mut hx = Hx1230Gpio::attach(Recorder::new());
        hx.set_mode(mode).unwrap();
        let mut want = Vec::new();
        command(&mut want, a);
        command(&mut want, b);
        assert_eq!(hx.link().signals(), &want);
    }
}

#[test]
fn hx1230_print_char_sends_glyph_and_gap() {
    let mut hx = Hx1230Gpio::attach(Recorder::new());
    hx.print_char(0x41).unwrap();
    let mut want = Vec::new();
    data(&mut want, &ASCII[0x41 - 0x20]);
    data(&mut want, &[0]);
    assert_eq!(hx.link().signals(), &want);
    assert_eq!(ASCII[33], [0x7e, 0x11, 0x11, 0x11, 0x7e]);
}

#[test]
fn hx1230_print_char_refuses_codes_without_glyph() {
    let mut hx = Hx1230Gpio::attach(Recorder::new());
    assert_eq!(hx.print_char(0x1f), Err(DisplayError::Glyph(0x1f)));
    assert_eq!(hx.print_char(0x7f), Err(DisplayError::Glyph(0x7f)));
    assert!(hx.link().signals().is_empty());
}

#[test]
fn hx1230_print_stops_at_first_code_without_glyph() {
    let mut hx = Hx1230Gpio::attach(Recorder::new());
    assert_eq!(hx.print(b"Hi\tyou"), Err(DisplayError::Glyph(b'\t')));
    let mut want = Vec::new();
    for c in b"Hi" {
        data(&mut want, &ASCII[(*c - 0x20) as usize]);
        data(&mut want, &[0]);
    }
    assert_eq!(hx.link().signals(), &want);
}

#[test]
fn hx1230_print_prints_every_character() {
    let mut hx = Hx1230Gpio::attach(Recorder::new());
    hx.print(b"Ok 1~").unwrap();
    let mut want = Vec::new();
    for c in b"Ok 1~" {
        data(&mut want, &ASCII[(*c - 0x20) as usize]);
        data(&mut want, &[0]);
    }
    assert_eq!(hx.link().signals(), &want);
    hx.print(b"").unwrap();
    assert_eq!(hx.link().signals(), &want);
}

#[test]
fn hx1230_clear_is_the_same_on_a_used_display() {
    let mut fresh = Hx1230Gpio::attach(Recorder::new());
    fresh.clear().unwrap();
    let first = fresh.link().signals().clone();
    let mut want = Vec::new();
    for cmd in [0xb0u8, 0x10, 0x00] {
        command(&mut want, cmd);
    }
    data(&mut want, &[0u8; 864]);
    for cmd in [0xb0u8, 0x10, 0x00] {
        command(&mut want, cmd);
    }
    assert_eq!(first, want);

    fresh.print_char(b'x').unwrap();
    fresh.print_char(b'y').unwrap();
    let before = fresh.link().signals().len();
    fresh.clear().unwrap();
    assert_eq!(fresh.link().signals()[before..], first[..]);
}

#[test]
fn hx1230_set_position_repeats_itself() {
    for (x, y) in [(0u8, 0u8), (17, 3), (95, 7), (64, 5)] {
        let mut hx = Hx1230Gpio::attach(Recorder::new());
        hx.set_position(x, y).unwrap();
        let first = hx.link().signals().clone();
        hx.data(&[0x5a]).unwrap();
        let before = hx.link().signals().len();
        hx.set_position(x, y).unwrap();
        assert_eq!(hx.link().signals()[before..], first[..]);
        let mut want = Vec::new();
        command(&mut want, 0xb0 | y);
        command(&mut want, 0x10 | (x >> 4));
        command(&mut want, x & 0x0f);
        assert_eq!(first, want);
    }
}

#[test]
fn hx1230_flips() {
    let mut hx = Hx1230Gpio::attach(Recorder::new());
    hx.flip_horizontal(true).unwrap();
    hx.flip_horizontal(false).unwrap();
    hx.flip_vertical(true).unwrap();
    hx.flip_vertical(false).unwrap();
    let mut want = Vec::new();
    for cmd in [0xa1u8, 0xa8, 0xc8, 0xc0] {
        command(&mut want, cmd);
    }
    assert_eq!(hx.link().signals(), &want);
}

#[test]
fn hx1230_resolution() {
    let hx = Hx1230Gpio::attach(Recorder::new());
    assert_eq!(hx.get_pixel_resolution(), (96, 68));
    assert_eq!(hx.get_char_resolution(), (16, 8));
}

#[test]
fn hx1230_data_holds_chip_select_for_the_whole_burst() {
    let mut hx = Hx1230Gpio::attach(Recorder::new());
    hx.data(&[1, 2, 3]).unwrap();
    let got = hx.link().signals();
    assert_eq!(got.len(), 1 + 3 * 27 + 1);
    let falls = got.iter().filter(|s| **s == Signal::Level(Line::Select, false)).count();
    let rises = got.iter().filter(|s| **s == Signal::Level(Line::Select, true)).count();
    assert_eq!((falls, rises), (1, 1));
    let mut want = Vec::new();
    data(&mut want, &[1, 2, 3]);
    assert_eq!(got, &want);
}

#[test]
fn hx1230_command_releases_chip_select_after_a_failure() {
    let mut whole = Vec::new();
    command(&mut whole, 0xaf);
    for k in 1..28usize {
        let mut hx = Hx1230Gpio::attach(Recorder::refusing(k));
        assert_eq!(hx.command(0xaf), Err(Refused { request: k }));
        let mut want = whole[..k].to_vec();
        want.push(Signal::Level(Line::Select, true));
        assert_eq!(hx.link().signals(), &want);
    }
    let mut hx = Hx1230Gpio::attach(Recorder::refusing(0));
    assert_eq!(hx.command(0xaf), Err(Refused { request: 0 }));
    assert!(hx.link().signals().is_empty());
    let mut hx = Hx1230Gpio::attach(Recorder::refusing(28));
    assert_eq!(hx.command(0xaf), Err(Refused { request: 28 }));
    assert_eq!(hx.link().signals()[..], whole[..28]);
}

#[test]
fn hx1230_new_reports_a_failed_reset() {
    assert_eq!(Hx1230Gpio::new(Recorder::refusing(0)).err(), Some(Refused { request: 0 }));
    assert_eq!(Hx1230Gpio::new(Recorder::refusing(40)).err(), Some(Refused { request: 40 }));
}

#[test]
fn hx1230_init_stops_at_the_frame_that_fails() {
    let mut hx = Hx1230Gpio::attach(Recorder::refusing(2 * 29 + 5));
    assert_eq!(hx.init(), Err(Refused { request: 63 }));
    let mut want = Vec::new();
    command(&mut want, 0x2f);
    command(&mut want, 0x80);
    let mut third = Vec::new();
    command(&mut third, 0xa6);
    want.extend_from_slice(&third[..5]);
    want.push(Signal::Level(Line::Select, true));
    assert_eq!(hx.link().signals(), &want);
}

#[test]
fn hx1230_print_reports_a_link_failure() {
    let mut hx = Hx1230Gpio::attach(Recorder::refusing(3));
    assert_eq!(hx.print(b"ab"), Err(DisplayError::Link(Refused { request: 3 })));
}
