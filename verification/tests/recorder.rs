use mono_lcd::link::{Bus, Line, Link, Signal};
use mono_lcd::recorder::{Recorder, Refused};
use mono_lcd::serial::send_byte;
use mono_lcd::wired::{Pins, Wired};

struct Dead;

impl Pins for Dead {
    type Error = u8;

    fn set(&mut self, _line: Line, _high: bool) -> Result<(), u8> {
        Err(7)
    }

    fn wait(&mut self, _ms: u8) {}
}

#[test]
fn recorder_keeps_order() {
    let mut rec = Recorder::new();
    rec.drive(Line::Select, false).unwrap();
    rec.pause(5);
    rec.write(&[1, 2]).unwrap();
    assert_eq!(
        rec.signals(),
        &vec![
            Signal::Level(Line::Select, false),
            Signal::Pause(5),
            Signal::Byte(1),
            Signal::Byte(2)
        ]
    );
}

#[test]
fn recorder_refuses_one_request() {
    let mut rec = Recorder::refusing(1);
    assert_eq!(rec.drive(Line::Clock, true), Ok(()));
    assert_eq!(rec.drive(Line::Clock, false), Err(Refused { request: 1 }));
    assert_eq!(rec.drive(Line::Data, false), Ok(()));
    assert_eq!(rec.signals().len(), 2);
}

#[test]
fn dead_link_fails_at_once() {
    let mut dead = Wired::new(Dead);
    assert_eq!(send_byte(&mut dead, 0x41), Err(7));
}
