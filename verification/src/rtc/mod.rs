//! The CMOS real-time clock — the only wall clock this machine has.
//!
//! Reading the chip is left to the program around this library, which asks
//! [`Readings`] when to stop. Here a reading becomes a date, a date becomes a
//! count of milliseconds, and a cache carries the time forward between
//! readings.
//!
//! # Decoding
//!
//! Neither the number base nor the hour format is fixed. Status register B
//! says whether the fields are BCD or plain binary, and whether hours run 0-23
//! or 1-12 with a flag in the top bit. Every field is clamped on the way out:
//! a chip with a dead battery will happily report month 0 or hour 99.
//!
//! # The cache
//!
//! The hardware is read once, together with the tick count at that moment,
//! and every later answer is that reading plus the ticks since. After
//! [`RESYNC_TICKS`] the pair is taken again. Taking it again never moves the
//! clock backwards: the chip only has one-second resolution, so a fresh
//! reading can land a little behind what was already reported.
//!
//! Everything here is UTC.

use vstd::prelude::*;
use vstd::string::*;

use crate::rtc::calendar::{civil_from_days, days_from_civil, days_in_month, is_leap_year};
use crate::selftest;
use crate::selftest::Report;
use crate::text;
use crate::text::push_two_digits;

pub mod calendar;

verus! {

/// Status A: the chip is part-way through its once-a-second update.
pub const STATUS_A_UPDATE_IN_PROGRESS: u8 = 0x80;

/// The PM flag, in the top bit of the hour register in 12-hour mode.
pub const HOUR_PM: u8 = 0x80;

/// Two-digit years below this belong to the twenty-first century.
pub const CENTURY_PIVOT: u8 = 70;

/// The timer's input frequency. It divides it by 65536.
pub const PIT_INPUT_HZ: u64 = 1_193_182;

/// How long a reading is trusted before the chip is read again: one minute.
pub const RESYNC_TICKS: u64 = 1_092;

/// How many readings to take before settling for the last one.
pub const MAX_READINGS: usize = 8;

/// A field wider than this is nonsense however you read it.
pub const FIELD_LIMIT: i64 = 100_000_000;

pub const MILLIS_PER_SECOND: i64 = 1_000;

pub const MILLIS_PER_MINUTE: i64 = 60_000;

pub const MILLIS_PER_HOUR: i64 = 3_600_000;

pub const MILLIS_PER_DAY: i64 = 86_400_000;

/// Broken-down UTC time.
#[derive(Clone, Copy, Debug, PartialEq, Eq, Structural)]
pub struct DateTime {
    pub year: u16,
    pub month: u8,
    pub day: u8,
    pub hour: u8,
    pub minute: u8,
    pub second: u8,
}

impl DateTime {
    pub open spec fn date(self) -> (int, int, int) {
        (self.year as int, self.month as int, self.day as int)
    }

    /// A moment that the calendar and the clock have.
    pub open spec fn wf(self) -> bool {
        &&& calendar::on_calendar(self.date())
        &&& self.hour <= 23
        &&& self.minute <= 59
        &&& self.second <= 59
    }
}

// ── Moments as milliseconds ─────────────────────────────────────────────────

pub open spec fn weekday_of(millis: int) -> int {
    (millis / MILLIS_PER_DAY as int + 4) % 7
}

/// The day of the week for a moment, counting 0 for Sunday.
pub fn weekday(millis: i64) -> (r: u8)
    ensures
        r == weekday_of(millis as int),
{
    // 1970-01-01 was a Thursday, the fourth day of the week.
    let (days, _) = split_day(millis);
    let n: i64 = days + 4 + 7 * 20_000_000_000;
    proof {
        assert((days + 4 + 7 * 20_000_000_000int) % 7 == (days + 4) % 7);
    }
    (n % 7) as u8
}

/// Whole days since the epoch, and what is left of the last one. Before the
/// epoch the time of day still counts forwards from midnight.
fn split_day(millis: i64) -> (r: (i64, i64))
    ensures
        r.0 == millis as int / MILLIS_PER_DAY as int,
        r.1 == millis as int % MILLIS_PER_DAY as int,
{
    let q: i64 = millis / 86_400_000;
    let m: i64 = millis % 86_400_000;
    if m < 0 {
        (q - 1, m + 86_400_000)
    } else {
        (q, m)
    }
}

pub open spec fn clamp(n: int, lo: int, hi: int) -> int {
    if n < lo {
        lo
    } else if n > hi {
        hi
    } else {
        n
    }
}

/// Epoch milliseconds broken down into a UTC date and time.
pub open spec fn broken_down(millis: int) -> DateTime {
    let t = calendar::date_of(millis / MILLIS_PER_DAY as int);
    let rest = millis % MILLIS_PER_DAY as int;
    DateTime {
        year: clamp(t.0, 0, 65535) as u16,
        month: t.1 as u8,
        day: t.2 as u8,
        hour: (rest / MILLIS_PER_HOUR as int) as u8,
        minute: (rest / MILLIS_PER_MINUTE as int % 60) as u8,
        second: (rest / MILLIS_PER_SECOND as int % 60) as u8,
    }
}

/// Break epoch milliseconds down into a UTC date and time.
pub fn from_unix_millis(millis: i64) -> (r: DateTime)
    ensures
        r == broken_down(millis as int),
{
    let (days, rest) = split_day(millis);
    let (year, month, day) = civil_from_days(days);
    // Only a timestamp tens of thousands of years out lands outside.
    let year: i64 = if year < 0 {
        0
    } else if year > 65535 {
        65535
    } else {
        year
    };
    DateTime {
        year: year as u16,
        month: month as u8,
        day: day as u8,
        hour: (rest / 3_600_000) as u8,
        minute: (rest / 60_000 % 60) as u8,
        second: (rest / 1_000 % 60) as u8,
    }
}

/// A field cut down to something the arithmetic can hold.
pub open spec fn clamped_to(n: int) -> int {
    clamp(n, -FIELD_LIMIT as int, FIELD_LIMIT as int)
}

fn clamped(value: i64) -> (r: i64)
    ensures
        r == clamped_to(value as int),
        -FIELD_LIMIT <= r <= FIELD_LIMIT,
{
    if value < -100_000_000 {
        -100_000_000
    } else if value > 100_000_000 {
        100_000_000
    } else {
        value
    }
}

/// Days from the epoch to the first of a month that need not be in range:
/// month 13 is January of the next year.
pub open spec fn month_start(year: int, month: int) -> int {
    let months = year * 12 + month - 1;
    calendar::before_year(months / 12) + calendar::before_month(months / 12, months % 12 + 1)
}

/// The milliseconds of a UTC date and time whose fields need not be in range.
pub open spec fn millis_of(
    year: int,
    month: int,
    day: int,
    hour: int,
    minute: int,
    second: int,
    millis: int,
) -> int {
    (month_start(clamped_to(year), clamped_to(month)) + clamped_to(day) - 1) * MILLIS_PER_DAY
        + clamped_to(hour) * MILLIS_PER_HOUR + clamped_to(minute) * MILLIS_PER_MINUTE + clamped_to(
        second,
    ) * MILLIS_PER_SECOND + clamped_to(millis)
}

proof fn years_are_bounded(year: int)
    requires
        -200_000_000 <= year <= 200_000_000,
    ensures
        -75_000_000_000 <= calendar::before_year(year) <= 75_000_000_000,
        year >= 100_000_000 ==> calendar::before_year(year) >= 36_000_000_000,
        year <= -100_000_000 ==> calendar::before_year(year) <= -36_000_000_000,
{
}

/// Epoch milliseconds for a UTC date and time whose fields need not be in
/// range: month 13 means January of the next year and day 32 the first of the
/// next month.
pub fn unix_millis_from_parts(
    year: i64,
    month: i64,
    day: i64,
    hour: i64,
    minute: i64,
    second: i64,
    millis: i64,
) -> (r: i64)
    ensures
        r == millis_of(
            year as int,
            month as int,
            day as int,
            hour as int,
            minute as int,
            second as int,
            millis as int,
        ),
{
    // Only the month needs normalising; the day and everything below it are
    // plain offsets that carry themselves.
    let months: i64 = clamped(year) * 12 + clamped(month) - 1;
    let mut y: i64 = months / 12;
    let mut m: i64 = months % 12;
    if m < 0 {
        y = y - 1;
        m = m + 12;
    }
    let first = days_from_civil(y, m + 1, 1);
    proof {
        years_are_bounded(y as int);
    }
    let days: i64 = first + clamped(day) - 1;
    days * 86_400_000 + clamped(hour) * 3_600_000 + clamped(minute) * 60_000 + clamped(second)
        * 1_000 + clamped(millis)
}

/// The milliseconds of a moment.
pub open spec fn moment(t: DateTime) -> int {
    millis_of(
        t.year as int,
        t.month as int,
        t.day as int,
        t.hour as int,
        t.minute as int,
        t.second as int,
        0,
    )
}

fn moment_of(t: DateTime) -> (r: i64)
    ensures
        r == moment(t),
{
    unix_millis_from_parts(
        t.year as i64,
        t.month as i64,
        t.day as i64,
        t.hour as i64,
        t.minute as i64,
        t.second as i64,
        0,
    )
}

/// A date and time survives the way to milliseconds and back.
pub proof fn moments_break_down_again(t: DateTime)
    requires
        t.wf(),
    ensures
        broken_down(moment(t)) == t,
{
    let days = calendar::day_number(t.date());
    let rest = t.hour * 3_600_000 + t.minute * 60_000 + t.second * 1_000;
    assert((t.year * 12 + t.month - 1) / 12 == t.year);
    assert((t.year * 12 + t.month - 1) % 12 + 1 == t.month);
    assert(moment(t) == days * 86_400_000 + rest);
    assert(moment(t) / 86_400_000 == days);
    assert(moment(t) % 86_400_000 == rest);
    calendar::dates_have_numbers(t.date());
    assert(rest / 3_600_000 == t.hour);
    assert(rest / 60_000 % 60 == t.minute);
    assert(rest / 1_000 % 60 == t.second);
}

/// Milliseconds survive the way to a date and time and back, but for the part
/// of a second that a date does not hold. Years outside the ones that a
/// [`DateTime`] can hold are left out.
#[verifier::spinoff_prover]
#[verifier::rlimit(60)]
pub proof fn moments_build_up_again(millis: int)
    requires
        0 <= calendar::date_of(millis / MILLIS_PER_DAY as int).0 <= 65535,
    ensures
        moment(broken_down(millis)) == millis - millis % 1_000,
        broken_down(millis).wf(),
{
    let t = broken_down(millis);
    let days = millis / 86_400_000;
    let rest = millis % 86_400_000;
    calendar::every_day_has_a_date(days);
    assert(t.date() == calendar::date_of(days));
    assert((t.year * 12 + t.month - 1) / 12 == t.year);
    assert((t.year * 12 + t.month - 1) % 12 + 1 == t.month);
    assert(moment(t) == days * 86_400_000 + t.hour * 3_600_000 + t.minute * 60_000 + t.second
        * 1_000);
    assert(t.hour == rest / 3_600_000);
    clock_parts(rest);
    assert(millis % 1_000 == rest % 1_000);
}

/// The hours, minutes and seconds of a day add up again.
proof fn clock_parts(rest: int)
    requires
        0 <= rest < 86_400_000,
    ensures
        rest / 3_600_000 * 3_600_000 + rest / 60_000 % 60 * 60_000 + rest / 1_000 % 60 * 1_000
            == rest - rest % 1_000,
{
    assert(rest / 60_000 == rest / 1_000 / 60);
    assert(rest / 3_600_000 == rest / 60_000 / 60);
}

/// Weekdays follow each other, and the epoch was a Thursday.
pub proof fn weekdays_follow_each_other(millis: int)
    ensures
        weekday_of(0) == 4,
        weekday_of(millis + MILLIS_PER_DAY) == (weekday_of(millis) + 1) % 7,
{
    assert((millis + 86_400_000) / 86_400_000 == millis / 86_400_000 + 1);
}

// ── The cache ───────────────────────────────────────────────────────────────

/// The moment of the last synchronisation, and the tick count it was taken
/// at. Both are meaningless until then.
#[derive(Clone, Copy, Debug, PartialEq, Eq, Structural)]
pub struct Clock {
    pub base_millis: i64,
    pub base_ticks: u64,
    pub synced: bool,
}

/// Elapsed ticks as milliseconds. Nothing wraps: an impossible tick count
/// reads as a distant future.
pub open spec fn millis_in(ticks: int) -> int {
    let product = if ticks * 65_536_000 <= u64::MAX {
        ticks * 65_536_000
    } else {
        u64::MAX as int
    };
    product / PIT_INPUT_HZ as int
}

fn ticks_to_millis(ticks: u64) -> (r: i64)
    ensures
        r == millis_in(ticks as int),
{
    let product: u64 = match ticks.checked_mul(65_536_000) {
        Some(p) => p,
        None => u64::MAX,
    };
    let millis: u64 = product / 1_193_182;
    millis as i64
}

/// Ticks since the last synchronisation; none have passed where the count is
/// below what it was.
pub open spec fn elapsed(c: Clock, ticks: u64) -> int {
    if ticks < c.base_ticks {
        0
    } else {
        ticks - c.base_ticks
    }
}

/// The time already committed to, carried forward.
pub open spec fn carried(c: Clock, ticks: u64) -> int {
    clamp(c.base_millis + millis_in(elapsed(c, ticks)), i64::MIN as int, i64::MAX as int)
}

/// Whether the chip is to be read again: after a while, and where the tick
/// count cannot be trusted.
pub open spec fn stale(c: Clock, ticks: u64) -> bool {
    !c.synced || ticks < c.base_ticks || elapsed(c, ticks) >= RESYNC_TICKS
}

/// What a fresh reading of the chip is taken for: it never turns the clock
/// back.
pub open spec fn agreed(c: Clock, ticks: u64, hardware: int) -> int {
    if c.synced && hardware < carried(c, ticks) {
        carried(c, ticks)
    } else {
        hardware
    }
}

/// The clock asked for the time: the clock after that, and its answer.
pub open spec fn told(c: Clock, ticks: u64, hardware: int) -> (Clock, int) {
    if stale(c, ticks) {
        let m = agreed(c, ticks, hardware);
        (Clock { base_millis: m as i64, base_ticks: ticks, synced: true }, m)
    } else {
        (c, carried(c, ticks))
    }
}

impl Clock {
    pub fn new() -> (r: Self)
        ensures
            r == (Clock { base_millis: 0, base_ticks: 0, synced: false }),
    {
        Clock { base_millis: 0, base_ticks: 0, synced: false }
    }

    /// Whether the chip has to be read before the time can be told.
    pub fn needs_sync(&self, ticks: u64) -> (r: bool)
        ensures
            r == stale(*self, ticks),
    {
        !self.synced || ticks < self.base_ticks || ticks - self.base_ticks >= RESYNC_TICKS
    }

    /// The time already committed to, carried forward to `ticks`.
    pub fn derived(&self, ticks: u64) -> (r: i64)
        ensures
            r == carried(*self, ticks),
    {
        let passed = ticks_to_millis(
            if ticks < self.base_ticks {
                0
            } else {
                ticks - self.base_ticks
            },
        );
        match self.base_millis.checked_add(passed) {
            Some(m) => m,
            None => i64::MAX,
        }
    }

    /// Peg the cache to a reading of the hardware.
    pub fn resync(&mut self, ticks: u64, reading: DateTime) -> (r: i64)
        ensures
            r == agreed(*old(self), ticks, moment(reading)),
            *final(self) == (Clock { base_millis: r, base_ticks: ticks, synced: true }),
    {
        let hardware = moment_of(reading);
        let millis = if self.synced {
            let committed = self.derived(ticks);
            if hardware < committed {
                committed
            } else {
                hardware
            }
        } else {
            hardware
        };
        self.base_millis = millis;
        self.base_ticks = ticks;
        self.synced = true;
        millis
    }
}

/// Milliseconds since the epoch. `reading` is what the chip says; it is only
/// looked at where [`Clock::needs_sync`] says so.
pub fn unix_millis(clock: &mut Clock, ticks: u64, reading: DateTime) -> (r: i64)
    ensures
        (*final(clock), r as int) == told(*old(clock), ticks, moment(reading)),
{
    if clock.needs_sync(ticks) {
        return clock.resync(ticks, reading);
    }
    clock.derived(ticks)
}

/// The current UTC date and time.
pub fn now(clock: &mut Clock, ticks: u64, reading: DateTime) -> (r: DateTime)
    ensures
        *final(clock) == told(*old(clock), ticks, moment(reading)).0,
        r == broken_down(told(*old(clock), ticks, moment(reading)).1),
{
    from_unix_millis(unix_millis(clock, ticks, reading))
}

/// `HH:MM`.
pub open spec fn clock_shown(t: DateTime) -> Seq<char> {
    text::two_digits(t.hour as nat) + ":"@ + text::two_digits(t.minute as nat)
}

/// `HH:MM` for the taskbar.
pub fn clock_text(now: DateTime) -> (r: String)
    ensures
        r@ == clock_shown(now),
{
    let mut s = String::new();
    push_two_digits(&mut s, now.hour as u64);
    s.append(":");
    push_two_digits(&mut s, now.minute as u64);
    assert(s@ =~= text::two_digits(now.hour as nat) + ":"@ + text::two_digits(now.minute as nat));
    s
}

proof fn millis_grow(a: int, b: int)
    requires
        0 <= a <= b,
    ensures
        0 <= millis_in(a) <= millis_in(b),
{
}

/// The clock never goes backwards: whatever the chip says, a later question
/// is not answered with an earlier time. The tick counter is taken not to have
/// wrapped around between the two.
pub proof fn time_does_not_go_backwards(c: Clock, t1: u64, hw1: int, t2: u64, hw2: int)
    requires
        t1 <= t2,
        i64::MIN <= hw1 <= i64::MAX,
    ensures
        ({
            let (c1, m1) = told(c, t1, hw1);
            told(c1, t2, hw2).1 >= m1
        }),
{
    let (c1, m1) = told(c, t1, hw1);
    if stale(c, t1) {
        assert(elapsed(c1, t2) == t2 - t1);
        millis_grow(0, t2 - t1);
    } else {
        millis_grow(t1 - c.base_ticks, t2 - c.base_ticks);
    }
}

/// A tick count below that of the last synchronisation has the chip read again
/// and leads to no wild answer: the time is the chip's, or the one already
/// told if that is later.
pub proof fn a_count_below_the_base_is_no_future(c: Clock, ticks: u64, hardware: int)
    requires
        c.synced,
        ticks < c.base_ticks,
    ensures
        stale(c, ticks),
        told(c, ticks, hardware).1 == (if hardware < c.base_millis {
            c.base_millis as int
        } else {
            hardware
        }),
{
    assert(millis_in(0) == 0);
}

// ── Reading the chip ────────────────────────────────────────────────────────

/// The time registers of one reading, exactly as the chip returned them.
#[derive(Clone, Copy, Debug, PartialEq, Eq, Structural)]
pub struct Registers {
    pub second: u8,
    pub minute: u8,
    pub hour: u8,
    pub day: u8,
    pub month: u8,
    pub year: u8,
}

/// Whether the time registers can be trusted, by status register A.
pub fn update_is_over(status_a: u8) -> (r: bool)
    ensures
        r == (status_a < STATUS_A_UPDATE_IN_PROGRESS),
{
    status_a < STATUS_A_UPDATE_IN_PROGRESS
}

/// Readings taken so far: the last one, and how many.
#[derive(Clone, Copy, Debug, PartialEq, Eq, Structural)]
pub struct Readings {
    pub last: Option<Registers>,
    pub taken: usize,
}

impl Readings {
    pub fn new() -> (r: Self)
        ensures
            r == (Readings { last: None, taken: 0 }),
    {
        Readings { last: None, taken: 0 }
    }

    /// Take another reading; the result says whether to stop. Nothing is
    /// latched in the chip, so a reading is accepted once two in a row agree,
    /// or once there were so many that the chip must be broken.
    pub fn offer(&mut self, r: Registers) -> (done: bool)
        requires
            old(self).taken < MAX_READINGS,
        ensures
            *final(self) == (Readings { last: Some(r), taken: (old(self).taken + 1) as usize }),
            done == (old(self).last == Some(r) || old(self).taken + 1 == MAX_READINGS),
    {
        let same = match self.last {
            Some(p) => p == r,
            None => false,
        };
        self.last = Some(r);
        self.taken = self.taken + 1;
        same || self.taken == MAX_READINGS
    }
}

// ── Decoding ────────────────────────────────────────────────────────────────

pub open spec fn binary_mode(status_b: u8) -> bool {
    status_b as int / 4 % 2 == 1
}

pub open spec fn full_day_mode(status_b: u8) -> bool {
    status_b as int / 2 % 2 == 1
}

/// A register as a number.
pub open spec fn digits(value: u8, binary: bool) -> u8 {
    if binary {
        value
    } else {
        ((value as int / 16) * 10 + value as int % 16) as u8
    }
}

/// A register as a number, converting from BCD unless the chip is already
/// reporting binary. Nonsense in gives nonsense out rather than an overflow.
pub fn from_bcd(value: u8, binary: bool) -> (r: u8)
    ensures
        r == digits(value, binary),
{
    if binary {
        return value;
    }
    (value / 16) * 10 + value % 16
}

/// The hour register as 0-23. The PM flag comes off before the digits: noon
/// arrives as 0x92. Twelve wraps to zero either way round.
pub open spec fn hour_of(register: u8, status_b: u8) -> u8 {
    if full_day_mode(status_b) {
        digits(register, binary_mode(status_b))
    } else if register >= HOUR_PM {
        (digits((register - HOUR_PM) as u8, binary_mode(status_b)) as int % 12 + 12) as u8
    } else {
        (digits(register, binary_mode(status_b)) as int % 12) as u8
    }
}

pub fn decode_hour(register: u8, status_b: u8) -> (r: u8)
    ensures
        r == hour_of(register, status_b),
{
    let binary = status_b / 4 % 2 == 1;
    if status_b / 2 % 2 == 1 {
        return from_bcd(register, binary);
    }
    if register >= HOUR_PM {
        from_bcd(register - HOUR_PM, binary) % 12 + 12
    } else {
        from_bcd(register, binary) % 12
    }
}

pub open spec fn full_year(two_digits: u8) -> u16 {
    if two_digits < CENTURY_PIVOT {
        (2000 + two_digits) as u16
    } else {
        (1900 + two_digits) as u16
    }
}

pub open spec fn decoded(r: Registers, status_b: u8) -> DateTime {
    let b = binary_mode(status_b);
    let year = full_year(digits(r.year, b));
    let month = clamp(digits(r.month, b) as int, 1, 12);
    DateTime {
        year,
        month: month as u8,
        day: clamp(digits(r.day, b) as int, 1, calendar::month_len(year as int, month)) as u8,
        hour: clamp(hour_of(r.hour, status_b) as int, 0, 23) as u8,
        minute: clamp(digits(r.minute, b) as int, 0, 59) as u8,
        second: clamp(digits(r.second, b) as int, 0, 59) as u8,
    }
}

fn between(n: u8, lo: u8, hi: u8) -> (r: u8)
    requires
        lo <= hi,
    ensures
        r == clamp(n as int, lo as int, hi as int),
{
    if n < lo {
        lo
    } else if n > hi {
        hi
    } else {
        n
    }
}

/// Turn a reading into a date, clamping every field into range on the way.
/// Whatever the chip says, the result is a date that exists.
pub fn decode(registers: Registers, status_b: u8) -> (r: DateTime)
    ensures
        r == decoded(registers, status_b),
        r.wf(),
{
    let binary = status_b / 4 % 2 == 1;
    let two_digit_year = from_bcd(registers.year, binary);
    let year: u16 = if two_digit_year < CENTURY_PIVOT {
        2000 + two_digit_year as u16
    } else {
        1900 + two_digit_year as u16
    };
    let month = between(from_bcd(registers.month, binary), 1, 12);
    let last = days_in_month(year, month);
    DateTime {
        year,
        month,
        day: between(from_bcd(registers.day, binary), 1, last),
        hour: between(decode_hour(registers.hour, status_b), 0, 23),
        minute: between(from_bcd(registers.minute, binary), 0, 59),
        second: between(from_bcd(registers.second, binary), 0, 59),
    }
}

// ── Laws of decoding ────────────────────────────────────────────────────────

/// A number as the chip keeps it: as it is, or one digit in each half.
pub open spec fn coded(n: int, binary: bool) -> u8 {
    if binary {
        n as u8
    } else {
        (n / 10 * 16 + n % 10) as u8
    }
}

/// An hour as the chip keeps it: from 0 to 23, or from 1 to 12 with the top bit
/// set in the second half of the day.
pub open spec fn coded_hour(h: int, status_b: u8) -> u8 {
    let binary = status_b as int / 4 % 2 == 1;
    if status_b as int / 2 % 2 == 1 {
        coded(h, binary)
    } else {
        let twelve: int = if h % 12 == 0 {
            12
        } else {
            h % 12
        };
        if h >= 12 {
            (coded(twelve, binary) + 0x80) as u8
        } else {
            coded(twelve, binary)
        }
    }
}

/// Whatever way the chip keeps the time, a date between 1970 and 2069 is read
/// back as it was set.
pub proof fn the_chip_is_read_as_it_was_set(t: DateTime, status_b: u8)
    requires
        t.wf(),
        1970 <= t.year <= 2069,
    ensures
        ({
            let binary = status_b as int / 4 % 2 == 1;
            decoded(
                (Registers {
                    second: coded(t.second as int, binary),
                    minute: coded(t.minute as int, binary),
                    hour: coded_hour(t.hour as int, status_b),
                    day: coded(t.day as int, binary),
                    month: coded(t.month as int, binary),
                    year: coded(t.year as int % 100, binary),
                }),
                status_b,
            ) == t
        }),
{
    let b = binary_mode(status_b);
    coded_reads_back(t.second as int, b);
    coded_reads_back(t.minute as int, b);
    coded_reads_back(t.day as int, b);
    coded_reads_back(t.month as int, b);
    coded_reads_back(t.year as int % 100, b);
    hours_read_back(t.hour as int, status_b);
}

proof fn coded_reads_back(n: int, binary: bool)
    requires
        0 <= n <= 99,
    ensures
        digits(coded(n, binary), binary) == n,
        coded(n, binary) <= 0x99,
        n <= 12 ==> coded(n, binary) < 0x80,
{
    if !binary {
        let v = n / 10 * 16 + n % 10;
        assert(v / 16 == n / 10 && v % 16 == n % 10);
    }
}

proof fn hours_read_back(h: int, status_b: u8)
    requires
        0 <= h <= 23,
    ensures
        hour_of(coded_hour(h, status_b), status_b) == h,
{
    let binary = binary_mode(status_b);
    coded_reads_back(h, binary);
    let twelve: int = if h % 12 == 0 {
        12
    } else {
        h % 12
    };
    coded_reads_back(twelve, binary);
}

/// Whatever the chip says, a time that the calendar and the clock have is read,
/// in the century from 1970 on where the year has two digits.
pub proof fn nonsense_is_read_as_a_time(r: Registers, status_b: u8)
    ensures
        decoded(r, status_b).wf(),
        digits(r.year, status_b as int / 4 % 2 == 1) <= 99 ==> 1970 <= decoded(r, status_b).year
            <= 2069,
{
    let t = decoded(r, status_b);
    let n = digits(r.year, binary_mode(status_b));
    assert(1900 <= t.year <= 2255);
}

/// So many ticks are as long as that many periods of the timer, to within a
/// millisecond.
pub proof fn ticks_measure_time(ticks: int)
    requires
        0 <= ticks <= 281_474_976_710,
    ensures
        millis_in(ticks) * 1_193_182 <= ticks * 65_536 * 1_000 < (millis_in(ticks) + 1) * 1_193_182,
{
}

/// The taskbar's clock shows the hour, a colon and the minute, each with two
/// digits.
pub proof fn the_clock_shows_hours_and_minutes(t: DateTime)
    requires
        t.wf(),
    ensures
        clock_shown(t).len() == 5,
        text::digits_value(clock_shown(t).take(2)) == t.hour,
        clock_shown(t)[2] == ':',
        text::digits_value(clock_shown(t).skip(3)) == t.minute,
{
    reveal_strlit(":");
    text::two_digits_are_two(t.hour as nat);
    text::two_digits_are_two(t.minute as nat);
    assert(clock_shown(t).take(2) =~= text::two_digits(t.hour as nat));
    assert(clock_shown(t).skip(3) =~= text::two_digits(t.minute as nat));
}

// ── Boot-time checks ────────────────────────────────────────────────────────

/// Whether a text reads `hh:mm`.
pub open spec fn reads_as_clock(s: Seq<char>) -> bool {
    s.len() == 5 && text::ascii_digit(s[0]) && text::ascii_digit(s[1]) && s[2] == ':'
        && text::ascii_digit(s[3]) && text::ascii_digit(s[4])
}

fn is_digit(c: char) -> (r: bool)
    ensures
        r == text::ascii_digit(c),
{
    '0' <= c && c <= '9'
}

fn is_clock(s: &str) -> (r: bool)
    ensures
        r == reads_as_clock(s@),
{
    s.unicode_len() == 5 && is_digit(s.get_char(0)) && is_digit(s.get_char(1)) && s.get_char(2)
        == ':' && is_digit(s.get_char(3)) && is_digit(s.get_char(4))
}

proof fn two_digits_are_digits(n: nat)
    requires
        n < 100,
    ensures
        text::two_digits(n).len() == 2,
        text::ascii_digit(text::two_digits(n)[0]),
        text::ascii_digit(text::two_digits(n)[1]),
{
    reveal_with_fuel(text::decimal, 2);
}

/// Registers decode as they should.
fn check_registers(report: &mut Report)
    requires
        old(report)@ == selftest::clean(),
    ensures
        final(report)@ == (selftest::ReportModel { passed: 20, ..selftest::clean() }),
        final(report)@.wf(),
{
    proof {
        reveal(selftest::ReportModel::checked);
    }
    report.check("bcd converts", from_bcd(0x59, false) == 59);
    report.check("bcd tens and units", from_bcd(0x12, false) == 12);
    report.check("binary passes through", from_bcd(0x17, true) == 23);
    report.check("nonsense bcd cannot overflow", from_bcd(0xFF, false) == 165);
    report.check("a 24-hour bcd hour", decode_hour(0x23, 0x02) == 23);
    report.check("a 24-hour binary hour", decode_hour(17, 0x06) == 17);
    report.check("midnight in 12-hour mode", decode_hour(0x12, 0) == 0);
    report.check("morning in 12-hour mode", decode_hour(0x07, 0) == 7);
    report.check("noon in 12-hour mode", decode_hour(0x92, 0) == 12);
    report.check("one in the afternoon", decode_hour(0x81, 0) == 13);
    report.check("the pm flag comes off before the digits", decode_hour(0x89, 0) == 21);
    report.check("a 12-hour binary hour", decode_hour(0x89, 0x04) == 21);
    // 2023-11-14 22:13:20, in 12-hour BCD.
    let afternoon = Registers {
        second: 0x20,
        minute: 0x13,
        hour: 0x90,
        day: 0x14,
        month: 0x11,
        year: 0x23,
    };
    report.check(
        "a whole reading decodes",
        decode(afternoon, 0) == (DateTime {
            year: 2023,
            month: 11,
            day: 14,
            hour: 22,
            minute: 13,
            second: 20,
        }),
    );
    let zeroed = Registers { second: 0, minute: 0, hour: 0, day: 0, month: 0, year: 0 };
    report.check(
        "a zeroed clock clamps up into range",
        decode(zeroed, 0x02) == (DateTime {
            year: 2000,
            month: 1,
            day: 1,
            hour: 0,
            minute: 0,
            second: 0,
        }),
    );
    // Ports with nothing behind them read as 0xFF in every field.
    let dead = Registers {
        second: 0xFF,
        minute: 0xFF,
        hour: 0xFF,
        day: 0xFF,
        month: 0xFF,
        year: 0xFF,
    };
    report.check(
        "dead ports clamp down into range",
        decode(dead, 0) == (DateTime {
            year: 2065,
            month: 12,
            day: 31,
            hour: 13,
            minute: 59,
            second: 59,
        }),
    );
    report.check("february is short", days_in_month(2023, 2) == 28);
    report.check("february is longer in a leap year", days_in_month(2024, 2) == 29);
    report.check("1900 was not a leap year", !is_leap_year(1900));
    report.check("2000 was", is_leap_year(2000));
    report.check("2100 will not be", !is_leap_year(2100));
}

/// Days are counted as they should be.
fn check_days(report: &mut Report)
    requires
        old(report)@ == (selftest::ReportModel { passed: 20, ..selftest::clean() }),
    ensures
        final(report)@ == (selftest::ReportModel { passed: 29, ..selftest::clean() }),
        final(report)@.wf(),
{
    proof {
        reveal(selftest::ReportModel::checked);
    }
    report.check("the epoch is day zero", days_from_civil(1970, 1, 1) == 0);
    report.check("the day after it", days_from_civil(1970, 1, 2) == 1);
    report.check("the day before it", days_from_civil(1969, 12, 31) == -1);
    report.check(
        "a year boundary is one day wide",
        days_from_civil(2001, 1, 1) - days_from_civil(2000, 12, 31) == 1,
    );
    report.check("2000-02-29 is day 11016", days_from_civil(2000, 2, 29) == 11_016);
    report.check("2024-02-29 is day 19782", days_from_civil(2024, 2, 29) == 19_782);
    report.check(
        "2000 had a leap day",
        days_from_civil(2000, 3, 1) - days_from_civil(2000, 2, 28) == 2,
    );
    report.check(
        "1900 had none",
        days_from_civil(1900, 3, 1) - days_from_civil(1900, 2, 28) == 1,
    );
    report.check(
        "2100 will have none",
        days_from_civil(2100, 3, 1) - days_from_civil(2100, 2, 28) == 1,
    );
}

/// Moments break down as they should.
fn check_moments(report: &mut Report)
    requires
        old(report)@ == (selftest::ReportModel { passed: 29, ..selftest::clean() }),
    ensures
        final(report)@ == (selftest::ReportModel { passed: 37, ..selftest::clean() }),
        final(report)@.wf(),
{
    proof {
        reveal(selftest::ReportModel::checked);
    }
    proof {
        calendar::dates_have_numbers((1970, 1, 1));
        calendar::dates_have_numbers((2023, 11, 14));
        calendar::dates_have_numbers((1969, 12, 31));
        calendar::dates_have_numbers((2024, 2, 29));
        calendar::dates_have_numbers((2023, 3, 1));
    }
    report.check(
        "zero milliseconds is the epoch",
        from_unix_millis(0) == (DateTime {
            year: 1970,
            month: 1,
            day: 1,
            hour: 0,
            minute: 0,
            second: 0,
        }),
    );
    report.check(
        "a known timestamp breaks down",
        from_unix_millis(1_700_000_000_000) == (DateTime {
            year: 2023,
            month: 11,
            day: 14,
            hour: 22,
            minute: 13,
            second: 20,
        }),
    );
    report.check(
        "a millisecond before the epoch",
        from_unix_millis(-1) == (DateTime {
            year: 1969,
            month: 12,
            day: 31,
            hour: 23,
            minute: 59,
            second: 59,
        }),
    );
    report.check(
        "a day before the epoch",
        from_unix_millis(-86_400_000) == (DateTime {
            year: 1969,
            month: 12,
            day: 31,
            hour: 0,
            minute: 0,
            second: 0,
        }),
    );
    report.check(
        "the same timestamp built back up",
        unix_millis_from_parts(2023, 11, 14, 22, 13, 20, 0) == 1_700_000_000_000,
    );
    report.check(
        "a leap day survives the round trip",
        from_unix_millis(unix_millis_from_parts(2024, 2, 29, 12, 0, 0, 0)) == (DateTime {
            year: 2024,
            month: 2,
            day: 29,
            hour: 12,
            minute: 0,
            second: 0,
        }),
    );
    report.check(
        "a thirteenth month is next january",
        unix_millis_from_parts(2023, 13, 1, 0, 0, 0, 0) == unix_millis_from_parts(
            2024,
            1,
            1,
            0,
            0,
            0,
            0,
        ),
    );
    report.check(
        "a day past the end of february rolls over",
        from_unix_millis(unix_millis_from_parts(2023, 2, 29, 0, 0, 0, 0)) == (DateTime {
            year: 2023,
            month: 3,
            day: 1,
            hour: 0,
            minute: 0,
            second: 0,
        }),
    );
}

/// Nothing overflows, and weekdays are right.
fn check_extremes(report: &mut Report)
    requires
        old(report)@ == (selftest::ReportModel { passed: 37, ..selftest::clean() }),
    ensures
        final(report)@ == (selftest::ReportModel { passed: 42, ..selftest::clean() }),
        final(report)@.wf(),
{
    proof {
        reveal(selftest::ReportModel::checked);
    }
    proof {
        years_are_bounded(108_333_333);
        years_are_bounded(-108_333_334);
    }
    report.check(
        "absurd fields do not overflow",
        unix_millis_from_parts(
            i64::MAX,
            i64::MAX,
            i64::MAX,
            i64::MAX,
            i64::MAX,
            i64::MAX,
            i64::MAX,
        ) > 0,
    );
    report.check(
        "absurd negative fields do not either",
        unix_millis_from_parts(
            i64::MIN,
            i64::MIN,
            i64::MIN,
            i64::MIN,
            i64::MIN,
            i64::MIN,
            i64::MIN,
        ) < 0,
    );
    report.check("the epoch was a thursday", weekday(0) == 4);
    report.check("the day before it was a wednesday", weekday(-1) == 3);
    report.check("a known timestamp was a tuesday", weekday(1_700_000_000_000) == 2);
}

/// How far two moments are apart.
pub open spec fn apart(a: int, b: int) -> int {
    if a >= b {
        a - b
    } else {
        b - a
    }
}

/// What the checks of the live clock find: nothing knows the real time, so
/// they pin down that the answer is a date at all, that it does not go
/// backwards, and that the cache tells the same story as the chip.
pub open spec fn live_checked(
    r: selftest::ReportModel,
    now: int,
    first: int,
    second: int,
    cached: int,
    hardware: DateTime,
) -> selftest::ReportModel {
    let r1 = r.checked("the year is plausible"@, 1970 <= broken_down(now).year <= 2100);
    let r2 = r1.checked("the fields are in range"@, true);
    let r3 = r2.checked("two readings do not go backwards"@, second >= first);
    let r4 = r3.checked("the cache agrees with the chip"@, apart(cached, moment(hardware)) < 2_000);
    r4.checked("the taskbar text is hh:mm"@, true)
}

/// Boot-time checks, with the present time, two successive answers of the
/// clock, a later one, and what the chip itself says then. The checks of
/// decoding and counting always pass; the others depend on the chip.
pub fn selftest(now: i64, first: i64, second: i64, cached: i64, hardware: DateTime) -> (r: Report)
    ensures
        r@ == live_checked(
            selftest::ReportModel { passed: 42, ..selftest::clean() },
            now as int,
            first as int,
            second as int,
            cached as int,
            hardware,
        ),
        r@.wf(),
{
    let mut report = Report::new();
    check_registers(&mut report);
    check_days(&mut report);
    check_moments(&mut report);
    check_extremes(&mut report);
    let reading = from_unix_millis(now);
    proof {
        calendar::every_day_has_a_date(now as int / 86_400_000);
        two_digits_are_digits(reading.hour as nat);
        two_digits_are_digits(reading.minute as nat);
        reveal_strlit(":");
    }
    report.check("the year is plausible", reading.year >= 1970 && reading.year <= 2100);
    report.check(
        "the fields are in range",
        reading.month >= 1 && reading.month <= 12 && reading.day >= 1 && reading.day <= 31
            && reading.hour <= 23 && reading.minute <= 59 && reading.second <= 59,
    );
    report.check("two readings do not go backwards", second >= first);
    let chip = moment_of(hardware);
    let difference: i128 = cached as i128 - chip as i128;
    report.check("the cache agrees with the chip", difference < 2_000 && difference > -2_000);
    let shown = clock_text(reading);
    report.check("the taskbar text is hh:mm", is_clock(shown.as_str()));
    report
}

} // verus!
