use mono_lcd::hx1230::gpio::Hx1230Gpio;
use mono_lcd::hx1230::Hx1230;
use mono_lcd::link::{Bus, Line, Link};
use mono_lcd::pcd8544::spi::Pcd8544Spi;
use mono_lcd::wired::{Pins, Shifter, Wired};

#[derive(Debug, PartialEq)]
enum Seen {
    Level(Line, bool),
    Wait(u8),
    Shift(Vec<u8>),
}

struct Bench {
    seen: Vec<Seen>,
    broken: Option<Line>,
}

impl Pins for Bench {
    type Error = Line;

    fn set(&mut self, line: Line, high: bool) -> Result<(), Line> {
        if self.broken == Some(line) {
            return Err(line);
        }
        self.seen.push(Seen::Level(line, high));
        Ok(())
    }

    fn wait(&mut self, ms: u8) {
        self.seen.push(Seen::Wait(ms));
    }
}

impl Shifter for Bench {
    fn shift(&mut self, bytes: &[u8]) -> Result<(), Line> {
        self.seen.push(Seen::Shift(bytes.to_vec()));
        Ok(())
    }
}

#[test]
fn wired_passes_requests_on_in_order() {
    let mut link = Wired::new(Bench { seen: Vec::new(), broken: None });
    link.drive(Line::Select, false).unwrap();
    link.pause(7);
    link.write(&[9, 8]).unwrap();
    link.drive(Line::Select, true).unwrap();
    assert_eq!(
        link.pins().seen,
        vec![
            Seen::Level(Line::Select, false),
            Seen::Wait(7),
            Seen::Shift(vec![9, 8]),
            Seen::Level(Line::Select, true),
        ]
    );
}

#[test]
fn wired_hands_the_error_of_the_pins_on() {
    let mut link = Wired::new(Bench { seen: Vec::new(), broken: Some(Line::Clock) });
    assert_eq!(link.drive(Line::Data, true), Ok(()));
    assert_eq!(link.drive(Line::Clock, true), Err(Line::Clock));
    assert_eq!(link.into_pins().seen, vec![Seen::Level(Line::Data, true)]);
}

#[test]
fn a_driver_on_wired_pins_resets_and_starts() {
    let hx = Hx1230Gpio::new(Wired::new(Bench { seen: Vec::new(), broken: None })).unwrap();
    let seen = &hx.link().pins().seen;
    assert_eq!(seen[0], Seen::Level(Line::Reset, true));
    assert_eq!(seen[1], Seen::Wait(50));
    assert_eq!(seen[5], Seen::Wait(10));
    assert_eq!(seen[6], Seen::Level(Line::Select, false));
    assert_eq!(seen.len(), 6 + 12 * 29 + 2 + 864 * 27);
}

#[test]
fn a_driver_on_wired_pins_gives_up_on_a_broken_line() {
    let mut hx = Hx1230Gpio::attach(Wired::new(Bench { seen: Vec::new(), broken: Some(Line::Clock) }));
    assert_eq!(hx.set_contrast(3), Err(Line::Clock));
    assert_eq!(
        hx.detach().into_pins().seen,
        vec![
            Seen::Level(Line::Select, false),
            Seen::Level(Line::Data, false),
            Seen::Level(Line::Select, true),
        ]
    );
}

#[test]
fn a_serial_peripheral_gets_whole_bursts() {
    let pcd = Pcd8544Spi::new(Wired::new(Bench { seen: Vec::new(), broken: None })).unwrap();
    let seen = &pcd.bus().pins().seen;
    assert_eq!(seen[3], Seen::Level(Line::Mode, false));
    assert_eq!(seen[5], Seen::Shift(vec![0x21]));
    let bursts = seen.iter().filter(|s| matches!(s, Seen::Shift(_))).count();
    assert_eq!(bursts, 11);
    assert!(seen.contains(&Seen::Shift(vec![0u8; 504])));
}
