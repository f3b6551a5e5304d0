//! Tiny PC-speaker tones for the games.
//!
//! A tone is played through PIT channel 2 and the speaker control. Nothing here
//! blocks: [`beep`] says what to write to which port to start a tone, and
//! [`poll`], called from the desktop's tick, what to write once the note has
//! finished, so a zap never freezes the desktop.

use vstd::prelude::*;

verus! {

/// The frequency that the timer counts down from.
pub const PIT_FREQ: u32 = 1_193_182;

/// The speaker control.
pub const SPEAKER_PORT: u16 = 0x61;

/// The data port of timer channel 2.
pub const PIT_CH2_DATA: u16 = 0x42;

/// The timer's command port.
pub const PIT_CMD: u16 = 0x43;

/// What is known of the speaker.
#[derive(Debug, Clone, Copy, PartialEq, Eq, Structural)]
pub struct Speaker {
    pub active: bool,
    /// When the note that is playing ends, in microseconds.
    pub stop_at_us: u64,
    /// Last programmed frequency.
    pub last_freq: u32,
}

/// A byte for a port.
#[derive(Debug, Clone, Copy, PartialEq, Eq, Structural)]
pub struct PortWrite {
    pub port: u16,
    pub value: u8,
}

/// The cue sheet used by the games.
#[derive(Debug, Clone, Copy, PartialEq, Eq, Structural)]
pub enum Cue {
    /// Soft UI / lane change / paddle touch.
    Blip,
    /// Laser / fire.
    Zap,
    /// Brick or alien destroyed.
    Hit,
    /// Crash, life lost.
    Boom,
    /// Win / correct answer.
    Cheer,
    /// Speed up (higher pitch).
    Accelerate,
    /// Slow down (lower pitch).
    Decelerate,
    /// Wrong letter / miss.
    Wrong,
}

/// The nearest number to `n` between `lo` and `hi`.
pub open spec fn clamped(n: int, lo: int, hi: int) -> int {
    if n < lo {
        lo
    } else if n > hi {
        hi
    } else {
        n
    }
}

/// The frequency that is really played: what an ear and the timer can follow.
pub open spec fn pitch(freq_hz: u32) -> int {
    clamped(freq_hz as int, 20, 14_000)
}

/// How many timer counts make one period.
pub open spec fn divisor(freq_hz: u32) -> int {
    PIT_FREQ as int / pitch(freq_hz)
}

/// How long a note lasts, in microseconds.
pub open spec fn duration_us(duration_ms: u32) -> int {
    clamped(duration_ms as int, 1, 250) * 1_000
}

/// What starts a tone when the control byte reads `control`: square wave mode, the
/// divisor low byte first, and the two bits that let it through.
pub open spec fn tone(freq_hz: u32, control: u8) -> Seq<PortWrite> {
    let d = divisor(freq_hz);
    seq![
        PortWrite { port: PIT_CMD, value: 0xB6 },
        PortWrite { port: PIT_CH2_DATA, value: (d % 256) as u8 },
        PortWrite { port: PIT_CH2_DATA, value: (d / 256) as u8 },
        PortWrite { port: SPEAKER_PORT, value: control | 3 },
    ]
}

pub open spec fn playing(freq_hz: u32, duration_ms: u32, now_us: u64) -> Speaker {
    Speaker {
        active: true,
        stop_at_us: now_us.wrapping_add(duration_us(duration_ms) as u64),
        last_freq: pitch(freq_hz) as u32,
    }
}

/// Whether the note that is playing has had its time.
pub open spec fn over(s: Speaker, now_us: u64) -> bool {
    s.active && now_us >= s.stop_at_us && now_us - s.stop_at_us < u64::MAX / 2
}

pub open spec fn note_of(cue: Cue) -> (u32, u32) {
    match cue {
        Cue::Blip => (880, 35),
        Cue::Zap => (1200, 40),
        Cue::Hit => (660, 45),
        Cue::Boom => (180, 90),
        Cue::Cheer => (988, 50),
        Cue::Accelerate => (1100, 30),
        Cue::Decelerate => (440, 35),
        Cue::Wrong => (220, 70),
    }
}

impl Speaker {
    pub fn new() -> (r: Self)
        ensures
            r == (Speaker { active: false, stop_at_us: 0, last_freq: 0 }),
    {
        Speaker { active: false, stop_at_us: 0, last_freq: 0 }
    }
}

fn speaker_on(freq_hz: u32, control: u8) -> (r: Vec<PortWrite>)
    ensures
        r@ == tone(freq_hz, control),
{
    let freq: u32 = if freq_hz < 20 {
        20
    } else if freq_hz > 14_000 {
        14_000
    } else {
        freq_hz
    };
    proof {
        assert(1 <= PIT_FREQ as int / freq as int <= 59659) by (nonlinear_arith)
            requires
                20 <= freq <= 14_000,
                PIT_FREQ == 1_193_182,
        ;
    }
    let d: u16 = (PIT_FREQ / freq) as u16;
    let mut out: Vec<PortWrite> = Vec::new();
    out.push(PortWrite { port: PIT_CMD, value: 0xB6 });
    out.push(PortWrite { port: PIT_CH2_DATA, value: (d % 256) as u8 });
    out.push(PortWrite { port: PIT_CH2_DATA, value: (d / 256) as u8 });
    out.push(PortWrite { port: SPEAKER_PORT, value: control | 3 });
    assert(out@ =~= tone(freq_hz, control));
    out
}

/// Start a tone at `freq_hz` for about `duration_ms` milliseconds, with the
/// speaker control reading `control`; the result is to be written in order.
///
/// A new beep replaces any tone still playing.
pub fn beep(
    speaker: &mut Speaker,
    freq_hz: u32,
    duration_ms: u32,
    now_us: u64,
    control: u8,
) -> (r: Vec<PortWrite>)
    ensures
        r@ == tone(freq_hz, control),
        *final(speaker) == playing(freq_hz, duration_ms, now_us),
{
    let ms: u32 = if duration_ms < 1 {
        1
    } else if duration_ms > 250 {
        250
    } else {
        duration_ms
    };
    let writes = speaker_on(freq_hz, control);
    speaker.last_freq = if freq_hz < 20 {
        20
    } else if freq_hz > 14_000 {
        14_000
    } else {
        freq_hz
    };
    speaker.active = true;
    speaker.stop_at_us = now_us.wrapping_add(ms as u64 * 1_000);
    writes
}

/// Silence the speaker once the current note's time is up: what to write to
/// the control byte that reads `control`, if anything.
pub fn poll(speaker: &mut Speaker, now_us: u64, control: u8) -> (r: Option<PortWrite>)
    ensures
        r == (if over(*old(speaker), now_us) {
            Some(PortWrite { port: SPEAKER_PORT, value: control & !3u8 })
        } else {
            None
        }),
        *final(speaker) == (Speaker {
            active: old(speaker).active && !over(*old(speaker), now_us),
            ..*old(speaker)
        }),
{
    if !speaker.active {
        return None;
    }
    if now_us >= speaker.stop_at_us && now_us - speaker.stop_at_us < u64::MAX / 2 {
        speaker.active = false;
        Some(PortWrite { port: SPEAKER_PORT, value: control & !3u8 })
    } else {
        None
    }
}

/// Play a cue.
pub fn play(speaker: &mut Speaker, cue: Cue, now_us: u64, control: u8) -> (r: Vec<PortWrite>)
    ensures
        r@ == tone(note_of(cue).0, control),
        *final(speaker) == playing(note_of(cue).0, note_of(cue).1, now_us),
{
    match cue {
        Cue::Blip => blip(speaker, now_us, control),
        Cue::Zap => zap(speaker, now_us, control),
        Cue::Hit => hit(speaker, now_us, control),
        Cue::Boom => boom(speaker, now_us, control),
        Cue::Cheer => cheer(speaker, now_us, control),
        Cue::Accelerate => accelerate(speaker, now_us, control),
        Cue::Decelerate => decelerate(speaker, now_us, control),
        Cue::Wrong => wrong(speaker, now_us, control),
    }
}

/// Soft UI / lane change / paddle touch.
pub fn blip(speaker: &mut Speaker, now_us: u64, control: u8) -> (r: Vec<PortWrite>)
    ensures
        r@ == tone(880, control),
        *final(speaker) == playing(880, 35, now_us),
{
    beep(speaker, 880, 35, now_us, control)
}

/// Laser / fire.
pub fn zap(speaker: &mut Speaker, now_us: u64, control: u8) -> (r: Vec<PortWrite>)
    ensures
        r@ == tone(1200, control),
        *final(speaker) == playing(1200, 40, now_us),
{
    beep(speaker, 1200, 40, now_us, control)
}

/// Brick or alien destroyed.
pub fn hit(speaker: &mut Speaker, now_us: u64, control: u8) -> (r: Vec<PortWrite>)
    ensures
        r@ == tone(660, control),
        *final(speaker) == playing(660, 45, now_us),
{
    beep(speaker, 660, 45, now_us, control)
}

/// Crash, life lost, wrong answer.
pub fn boom(speaker: &mut Speaker, now_us: u64, control: u8) -> (r: Vec<PortWrite>)
    ensures
        r@ == tone(180, control),
        *final(speaker) == playing(180, 90, now_us),
{
    beep(speaker, 180, 90, now_us, control)
}

/// Win / correct answer.
pub fn cheer(speaker: &mut Speaker, now_us: u64, control: u8) -> (r: Vec<PortWrite>)
    ensures
        r@ == tone(988, control),
        *final(speaker) == playing(988, 50, now_us),
{
    beep(speaker, 988, 50, now_us, control)
}

/// Speed up (higher pitch).
pub fn accelerate(speaker: &mut Speaker, now_us: u64, control: u8) -> (r: Vec<PortWrite>)
    ensures
        r@ == tone(1100, control),
        *final(speaker) == playing(1100, 30, now_us),
{
    beep(speaker, 1100, 30, now_us, control)
}

/// Slow down (lower pitch).
pub fn decelerate(speaker: &mut Speaker, now_us: u64, control: u8) -> (r: Vec<PortWrite>)
    ensures
        r@ == tone(440, control),
        *final(speaker) == playing(440, 35, now_us),
{
    beep(speaker, 440, 35, now_us, control)
}

/// Wrong letter / miss.
pub fn wrong(speaker: &mut Speaker, now_us: u64, control: u8) -> (r: Vec<PortWrite>)
    ensures
        r@ == tone(220, control),
        *final(speaker) == playing(220, 70, now_us),
{
    beep(speaker, 220, 70, now_us, control)
}

/// The period that is programmed is never longer than the pitch asked for,
/// and one count more would be: the two data bytes hold it whole.
pub proof fn divisor_is_the_nearest_below(freq_hz: u32)
    ensures
        1 <= divisor(freq_hz) <= u16::MAX,
        divisor(freq_hz) * pitch(freq_hz) <= PIT_FREQ < (divisor(freq_hz) + 1) * pitch(freq_hz),
        divisor(freq_hz) == divisor(freq_hz) % 256 + 256 * (divisor(freq_hz) / 256),
{
    let p = pitch(freq_hz);
    assert(1 <= PIT_FREQ as int / p <= 59659) by (nonlinear_arith)
        requires
            20 <= p <= 14_000,
            PIT_FREQ == 1_193_182,
    ;
    assert((PIT_FREQ as int / p) * p <= PIT_FREQ < (PIT_FREQ as int / p + 1) * p) by (nonlinear_arith)
        requires
            20 <= p <= 14_000,
            PIT_FREQ == 1_193_182,
    ;
}

/// A note plays until its time is up and is then silenced, once.
pub proof fn a_note_ends_once(freq_hz: u32, duration_ms: u32, start: u64, now: u64)
    requires
        start + duration_us(duration_ms) <= u64::MAX,
        start <= now,
        now - start < u64::MAX / 2,
    ensures
        over(playing(freq_hz, duration_ms, start), now) <==> now - start >= duration_us(duration_ms),
        !over(Speaker { active: false, ..playing(freq_hz, duration_ms, start) }, now),
{
}

/// A tone that the speaker can play is programmed at its own pitch: the two
/// data bytes, the lower one first, are the number of counts in one period to
/// the nearest below. The control byte keeps its other bits, and silencing
/// leaves them as they were.
pub proof fn tones_have_their_pitch(freq_hz: u32, control: u8)
    requires
        20 <= freq_hz <= 14_000,
    ensures
        ({
            let w = tone(freq_hz, control);
            let d = w[1].value + 256 * w[2].value;
            &&& w.len() == 4
            &&& w[0].port == 0x43 && w[1].port == 0x42 && w[2].port == 0x42 && w[3].port == 0x61
            &&& d * freq_hz <= 1_193_182 < (d + 1) * freq_hz
            &&& w[3].value as int % 4 == 3
            &&& w[3].value as int / 4 == control as int / 4
            &&& (w[3].value & !3u8) as int == control as int / 4 * 4
        }),
{
    divisor_is_the_nearest_below(freq_hz);
    assert((control | 3) % 4 == 3 && (control | 3) / 4 == control / 4 && ((control | 3) & !3u8)
        == control / 4 * 4) by (bit_vector);
}

/// What is too low or too high is played at the nearest pitch that can be, and
/// what is too short or too long for the nearest time that is.
pub proof fn tones_are_kept_in_range(freq_hz: u32, duration_ms: u32, now: u64)
    requires
        now <= u64::MAX - 250_000,
    ensures
        ({
            let s = playing(freq_hz, duration_ms, now);
            &&& s.active
            &&& 20 <= s.last_freq <= 14_000
            &&& 20 <= freq_hz <= 14_000 ==> s.last_freq == freq_hz
            &&& freq_hz < 20 ==> s.last_freq == 20
            &&& freq_hz > 14_000 ==> s.last_freq == 14_000
            &&& 1 <= duration_ms <= 250 ==> s.stop_at_us == now + duration_ms * 1_000
            &&& duration_ms == 0 ==> s.stop_at_us == now + 1_000
            &&& duration_ms > 250 ==> s.stop_at_us == now + 250_000
        }),
{
}

/// Each cue sounds different, all of them can be played as they are, and
/// speeding up sounds higher than slowing down, a win higher than a crash.
pub proof fn cues_sound_different(a: Cue, b: Cue)
    ensures
        note_of(a) == note_of(b) ==> a == b,
        20 <= note_of(a).0 <= 14_000,
        1 <= note_of(a).1 <= 250,
        note_of(Cue::Accelerate).0 > note_of(Cue::Decelerate).0,
        note_of(Cue::Cheer).0 > note_of(Cue::Wrong).0 > note_of(Cue::Boom).0,
{
}

} // verus!
