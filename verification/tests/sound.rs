//! The speaker: what is written to start a tone, and when it ends.

use os101::sound::{beep, boom, cheer, poll, wrong, PortWrite, Speaker, PIT_CH2_DATA, PIT_CMD, SPEAKER_PORT};

#[test]
fn a_beep_programs_the_timer() {
    let mut s = Speaker::new();
    let w = beep(&mut s, 440, 100, 1_000, 0x20);
    // 1193182 / 440 = 2711 = 0x0a97
    assert_eq!(
        w,
        vec![
            PortWrite { port: PIT_CMD, value: 0xb6 },
            PortWrite { port: PIT_CH2_DATA, value: 0x97 },
            PortWrite { port: PIT_CH2_DATA, value: 0x0a },
            PortWrite { port: SPEAKER_PORT, value: 0x23 },
        ]
    );
    assert!(s.active);
    assert_eq!(s.stop_at_us, 101_000);
}

#[test]
fn a_note_is_silenced_once() {
    let mut s = Speaker::new();
    beep(&mut s, 440, 100, 0, 0);
    assert_eq!(poll(&mut s, 99_999, 3), None);
    assert_eq!(poll(&mut s, 100_000, 0x23), Some(PortWrite { port: SPEAKER_PORT, value: 0x20 }));
    assert_eq!(poll(&mut s, 200_000, 0x20), None);
}

#[test]
fn cues_are_tones() {
    let mut s = Speaker::new();
    assert!(!boom(&mut s, 0, 0).is_empty());
    assert!(!cheer(&mut s, 0, 0).is_empty());
    assert!(!wrong(&mut s, 0, 0).is_empty());
}
