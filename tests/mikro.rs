use maschine::button::{button_for_bit, table_entry, MaschineButton, ENCODER_UNSET};
use maschine::event::{MikroEvent, PadIndexError, ReportError};
use maschine::lights::{button_light_offset, screen_clear_report, scale_pad_channel, LIGHT_REPORT_LEN};
use maschine::mikro::Mikro;
use maschine::pad::{MaschinePad, MaschinePadState, MaschinePadStateTransition};

fn pad_report(samples: &[u16; 16]) -> Vec<u8> {
    let mut r = vec![0x20u8];
    for s in samples.iter() {
        r.push((s & 0xFF) as u8);
        r.push((s >> 8) as u8);
    }
    r
}

fn one_pad_report(pad: usize, sample: u16) -> Vec<u8> {
    let mut samples = [0u16; 16];
    samples[pad] = sample;
    pad_report(&samples)
}

#[test]
fn new_device_state() {
    let m = Mikro::new();
    let light = m.light_report();
    assert_eq!(light.len(), LIGHT_REPORT_LEN);
    assert_eq!(light[0], 0x80);
    assert!(light[1..].iter().all(|&b| b == 0));
    assert_eq!(m.button_snapshot(), &[0, 0, 0, 0, ENCODER_UNSET][..]);
    for i in 0..16 {
        assert_eq!(m.get_pad_pressure(i), Ok(0));
    }
}

#[test]
fn pressure_is_low_twelve_bits() {
    let mut m = Mikro::new();
    let mut samples = [0u16; 16];
    samples[0] = 0xFFFF;
    samples[1] = 0x1234;
    samples[2] = 0x0FFF;
    samples[15] = 0xF000;
    m.handle_report(&pad_report(&samples)).unwrap();
    assert_eq!(m.get_pad_pressure(0), Ok(4095));
    assert_eq!(m.get_pad_pressure(1), Ok(0x234));
    assert_eq!(m.get_pad_pressure(2), Ok(4095));
    assert_eq!(m.get_pad_pressure(15), Ok(0));
    for i in 0..16 {
        let level = m.get_pad_pressure(i).unwrap();
        let p = level as f32 / 4095.0;
        assert!((0.0..=1.0).contains(&p));
    }
}

#[test]
fn pressure_rise_and_fall_presses_once() {
    let mut m = Mikro::new();
    let levels = [0u16, 100, 300, 4000, 300, 100, 50, 0];
    let mut events = Vec::new();
    for &l in levels.iter() {
        events.extend(m.handle_report(&one_pad_report(3, l)).unwrap());
    }
    assert_eq!(
        events,
        vec![
            MikroEvent::PadPressed(3, 300),
            MikroEvent::PadAftertouch(3, 4000),
            MikroEvent::PadAftertouch(3, 300),
            MikroEvent::PadAftertouch(3, 100),
            MikroEvent::PadReleased(3),
        ]
    );
}

#[test]
fn pressure_oscillating_in_band_is_quiet() {
    let mut m = Mikro::new();
    for &l in [150u16, 204, 120, 204, 90].iter() {
        assert_eq!(m.handle_report(&one_pad_report(7, l)).unwrap(), vec![]);
    }
    assert_eq!(m.handle_report(&one_pad_report(7, 205)).unwrap(), vec![MikroEvent::PadPressed(7, 205)]);
    for &l in [100u16, 204, 82, 150].iter() {
        assert_eq!(m.handle_report(&one_pad_report(7, l)).unwrap(), vec![MikroEvent::PadAftertouch(7, l)]);
    }
    assert_eq!(m.handle_report(&one_pad_report(7, 81)).unwrap(), vec![MikroEvent::PadReleased(7)]);
    assert_eq!(m.handle_report(&one_pad_report(7, 81)).unwrap(), vec![]);
}

#[test]
fn pad_state_machine_steps() {
    let mut p = MaschinePad::new();
    assert_eq!(p.pressure_val(10), MaschinePadStateTransition::NoChange);
    assert_eq!(p.pressure_val(0x1000 | 300), MaschinePadStateTransition::Pressed);
    assert_eq!(p.get_pressure(), 300);
    assert_eq!(p.state, MaschinePadState::Pressed);
    assert_eq!(p.pressure_val(90), MaschinePadStateTransition::Aftertouch);
    assert_eq!(p.state, MaschinePadState::Aftertouch);
    assert_eq!(p.pressure_val(0), MaschinePadStateTransition::Released);
    assert_eq!(p.state, MaschinePadState::Idle);
}

#[test]
fn button_down_then_repeat_is_quiet() {
    let mut m = Mikro::new();
    let report = [0x01u8, 0x01, 0, 0, 0, ENCODER_UNSET];
    assert_eq!(m.handle_report(&report), Ok(vec![MikroEvent::ButtonDown(MaschineButton::Shift)]));
    assert_eq!(m.handle_report(&report), Ok(vec![]));
    assert_eq!(
        m.handle_report(&[0x01u8, 0, 0, 0, 0, ENCODER_UNSET]),
        Ok(vec![MikroEvent::ButtonUp(MaschineButton::Shift)])
    );
}

#[test]
fn two_bits_of_a_group_at_once() {
    let mut m = Mikro::new();
    m.handle_report(&[0x01u8, 0, 0, 0, 0, 5]).unwrap();
    assert_eq!(
        m.handle_report(&[0x01u8, 0x03, 0, 0, 0, 5]),
        Ok(vec![MikroEvent::ButtonDown(MaschineButton::Shift), MikroEvent::ButtonDown(MaschineButton::Erase)])
    );
    assert_eq!(m.button_snapshot(), &[0x03, 0, 0, 0, 5][..]);
}

#[test]
fn button_events_in_bit_and_group_order() {
    let mut m = Mikro::new();
    m.handle_report(&[0x01u8, 0x80, 0, 0, 0, ENCODER_UNSET]).unwrap();
    let events = m.handle_report(&[0x01u8, 0x06, 0x18, 0x80, 0x01, ENCODER_UNSET]).unwrap();
    assert_eq!(
        events,
        vec![
            MikroEvent::ButtonDown(MaschineButton::Erase),
            MikroEvent::ButtonDown(MaschineButton::Rec),
            MikroEvent::ButtonUp(MaschineButton::Restart),
            MikroEvent::ButtonDown(MaschineButton::Encoder),
            MikroEvent::ButtonDown(MaschineButton::NoteRepeat),
            MikroEvent::ButtonDown(MaschineButton::F1),
            MikroEvent::ButtonDown(MaschineButton::Mute),
        ]
    );
    assert_eq!(m.button_snapshot(), &[0x06, 0x18, 0x80, 0x01, ENCODER_UNSET][..]);
}

#[test]
fn unknown_button_bit_is_refused() {
    let mut m = Mikro::new();
    m.handle_report(&[0x01u8, 0x01, 0, 0, 0, 3]).unwrap();
    let r = m.handle_report(&[0x01u8, 0x00, 0x01, 0, 0, 4]);
    assert_eq!(r, Err(ReportError::UnknownButton { group: 1, bit: 0 }));
    assert_eq!(m.button_snapshot(), &[0x01, 0, 0, 0, 3][..]);
    let r = m.handle_report(&[0x01u8, 0x01, 0xFE, 0, 0, 3]);
    assert_eq!(r, Err(ReportError::UnknownButton { group: 1, bit: 1 }));
    assert_eq!(m.button_snapshot(), &[0x01, 0, 0, 0, 3][..]);
    assert_eq!(
        m.handle_report(&[0x01u8, 0x01, 0x20, 0, 0, 3]),
        Ok(vec![MikroEvent::ButtonDown(MaschineButton::Sampling)])
    );
}

#[test]
fn encoder_unset_adopts_baseline() {
    let mut m = Mikro::new();
    assert_eq!(m.handle_report(&[0x01u8, 0, 0, 0, 0, 5]), Ok(vec![]));
    assert_eq!(m.button_snapshot()[4], 5);
}

#[test]
fn encoder_steps() {
    let mut m = Mikro::new();
    m.handle_report(&[0x01u8, 0, 0, 0, 0, 5]).unwrap();
    assert_eq!(m.handle_report(&[0x01u8, 0, 0, 0, 0, 6]), Ok(vec![MikroEvent::EncoderStep(0, 1)]));
    assert_eq!(m.handle_report(&[0x01u8, 0, 0, 0, 0, 6]), Ok(vec![]));
    m.handle_report(&[0x01u8, 0, 0, 0, 0, 15]).unwrap();
    assert_eq!(m.handle_report(&[0x01u8, 0, 0, 0, 0, 0]), Ok(vec![MikroEvent::EncoderStep(0, 1)]));
    m.handle_report(&[0x01u8, 0, 0, 0, 0, 5]).unwrap();
    assert_eq!(m.handle_report(&[0x01u8, 0, 0, 0, 0, 4]), Ok(vec![MikroEvent::EncoderStep(0, -1)]));
    assert_eq!(m.handle_report(&[0x01u8, 0, 0, 0, 0, 6]), Ok(vec![MikroEvent::EncoderStep(0, -1)]));
}

#[test]
fn pad_light_full_red() {
    let mut m = Mikro::new();
    m.set_pad_light(0, 0xFF0000, 255);
    assert_eq!(&m.light_report()[31..34], &[127, 0, 0]);
    m.set_pad_light(15, 0x00FF80, 255);
    assert_eq!(&m.light_report()[76..79], &[0, 127, 64]);
    m.set_pad_light(15, 0xFFFFFF, 0);
    assert_eq!(&m.light_report()[76..79], &[0, 0, 0]);
    assert_eq!(scale_pad_channel(128, 200), 50);
}

#[test]
fn button_light_without_indicator_is_noop() {
    let mut m = Mikro::new();
    m.set_pad_light(4, 0x123456, 200);
    let before = m.light_report().to_vec();
    m.set_button_light(MaschineButton::Encoder, 255);
    assert_eq!(m.light_report(), &before[..]);
    m.set_button_light(MaschineButton::Play, 200);
    assert_eq!(m.light_report()[19], 200);
    m.set_button_light(MaschineButton::F1, 255);
    assert_eq!(m.light_report()[1], 255);
    m.set_button_light(MaschineButton::Mute, 1);
    assert_eq!(m.light_report()[30], 1);
    assert_eq!(m.light_report()[0], 0x80);
}

#[test]
fn light_offsets_table() {
    assert_eq!(button_light_offset(MaschineButton::Group), Some(9));
    assert_eq!(button_light_offset(MaschineButton::Browse), Some(12));
    assert_eq!(button_light_offset(MaschineButton::Restart), Some(15));
    assert_eq!(button_light_offset(MaschineButton::Encoder), None);
}

#[test]
fn button_table_gaps() {
    assert_eq!(button_for_bit(0, 0), Some(MaschineButton::Shift));
    assert_eq!(button_for_bit(0, 7), Some(MaschineButton::Restart));
    assert_eq!(button_for_bit(1, 0), None);
    assert_eq!(button_for_bit(1, 2), None);
    assert_eq!(button_for_bit(1, 3), Some(MaschineButton::Encoder));
    assert_eq!(button_for_bit(1, 7), Some(MaschineButton::Group));
    assert_eq!(button_for_bit(2, 0), Some(MaschineButton::Main));
    assert_eq!(button_for_bit(3, 0), Some(MaschineButton::Mute));
    assert_eq!(button_for_bit(3, 7), Some(MaschineButton::Scene));
    assert_eq!(table_entry(0, 0), Some(MaschineButton::Restart));
    assert_eq!(table_entry(1, 5), None);
}

#[test]
fn pad_pressure_index_range() {
    let m = Mikro::new();
    assert_eq!(m.get_pad_pressure(16), Err(PadIndexError { index: 16 }));
    assert_eq!(m.get_pad_pressure(usize::MAX), Err(PadIndexError { index: usize::MAX }));
    for i in 0..16 {
        assert!(m.get_pad_pressure(i).is_ok());
    }
}

#[test]
fn unknown_report_kind_is_ignored() {
    let mut m = Mikro::new();
    m.handle_report(&one_pad_report(2, 1000)).unwrap();
    m.handle_report(&[0x01u8, 0x01, 0, 0, 0, 9]).unwrap();
    m.set_pad_light(1, 0x00FF00, 255);
    let light = m.light_report().to_vec();
    let r = m.handle_report(&[0x7Fu8, 0xFF, 0xFF, 0xFF, 0xFF, 0xFF, 0xFF]);
    assert_eq!(r, Ok(vec![]));
    assert_eq!(m.light_report(), &light[..]);
    assert_eq!(m.button_snapshot(), &[0x01, 0, 0, 0, 9][..]);
    assert_eq!(m.get_pad_pressure(2), Ok(1000));
}

#[test]
fn short_reports_are_refused() {
    let mut m = Mikro::new();
    assert_eq!(m.handle_report(&[]), Err(ReportError::Truncated));
    assert_eq!(m.handle_report(&[0x01u8, 1, 0, 0, 0]), Err(ReportError::Truncated));
    let mut pads = one_pad_report(0, 4000);
    pads.pop();
    assert_eq!(m.handle_report(&pads), Err(ReportError::Truncated));
    assert_eq!(m.get_pad_pressure(0), Ok(0));
    assert_eq!(m.button_snapshot(), &[0, 0, 0, 0, ENCODER_UNSET][..]);
}

#[test]
fn screen_clear_reports() {
    for q in 0..4u8 {
        let r = screen_clear_report(q);
        assert_eq!(r.len(), 265);
        assert_eq!(r[0], 0xE0);
        assert_eq!(r[1], q * 32);
        assert_eq!(r[5], 0x20);
        assert_eq!(r[7], 0x08);
        assert_eq!(r.iter().filter(|&&b| b != 0).count(), if q == 0 { 3 } else { 4 });
    }
}
