use mono_lcd::link::{Line, Link, Signal};
use mono_lcd::recorder::{Recorder, Refused};
use mono_lcd::serial::{bit_is_set, clock_in, send_byte};

#[test]
fn every_byte_goes_out_msb_first_in_eight_pulses() {
    for byte in 0..=255u8 {
        let mut rec = Recorder::new();
        send_byte(&mut rec, byte).unwrap();
        let got = rec.signals();
        assert_eq!(got.len(), 24);
        let mut pulses = 0;
        for n in (0..8usize).rev() {
            let at = 3 * (7 - n);
            assert_eq!(got[at], Signal::Level(Line::Data, (byte >> n) & 1 == 1));
            assert_eq!(got[at + 1], Signal::Level(Line::Clock, true));
            assert_eq!(got[at + 2], Signal::Level(Line::Clock, false));
        }
        for s in got {
            if *s == Signal::Level(Line::Clock, true) {
                pulses += 1;
            }
        }
        assert_eq!(pulses, 8);
    }
}

#[test]
fn bit_is_set_reads_each_bit() {
    assert!(bit_is_set(0x80, 7));
    assert!(!bit_is_set(0x80, 6));
    assert!(bit_is_set(0x01, 0));
    assert!(!bit_is_set(0xfe, 0));
    assert!(bit_is_set(0x41, 6));
}

#[test]
fn clock_in_sets_data_then_pulses() {
    let mut rec = Recorder::new();
    clock_in(&mut rec, true).unwrap();
    clock_in(&mut rec, false).unwrap();
    assert_eq!(
        rec.signals(),
        &vec![
            Signal::Level(Line::Data, true),
            Signal::Level(Line::Clock, true),
            Signal::Level(Line::Clock, false),
            Signal::Level(Line::Data, false),
            Signal::Level(Line::Clock, true),
            Signal::Level(Line::Clock, false),
        ]
    );
}

#[test]
fn a_failed_line_ends_the_transfer() {
    for k in 0..24usize {
        let mut whole = Recorder::new();
        send_byte(&mut whole, 0xa5).unwrap();
        let mut rec = Recorder::refusing(k);
        assert_eq!(send_byte(&mut rec, 0xa5), Err(Refused { request: k }));
        assert_eq!(rec.signals()[..], whole.signals()[..k]);
    }
}

#[test]
fn a_fault_after_the_byte_does_not_touch_it() {
    let mut rec = Recorder::refusing(24);
    assert_eq!(send_byte(&mut rec, 0x3c), Ok(()));
    assert_eq!(rec.signals().len(), 24);
    assert_eq!(rec.drive(Line::Select, true), Err(Refused { request: 24 }));
}
