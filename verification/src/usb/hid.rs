//! HID boot-protocol keyboard and mouse reports.
//!
//! Boot protocol is fixed-size and layout-stable (8-byte keyboard, 3+ byte
//! mouse), so no report descriptor has to be read.

use vstd::prelude::*;

use crate::keys::{DecodedKey, KeyCode};

verus! {

/// A held key starts repeating after this long, and then at this interval.
pub const REPEAT_DELAY_US: u64 = 500_000;

pub const REPEAT_INTERVAL_US: u64 = 40_000;

/// The key that is repeating, if any (`code` zero means none), the modifiers
/// it was pressed with, and when it is next due. A steadily held key sends no
/// reports, so the repeats come from a clock. Only one key repeats at a time.
#[derive(Debug, Clone, Copy, PartialEq, Eq, Structural)]
pub struct Repeat {
    pub code: u8,
    pub mods: u8,
    pub at_us: u64,
}

/// What a keyboard report says: whether Ctrl is down, and the keys that were
/// pressed since the report before it.
pub struct KeyboardEvents {
    pub ctrl_held: bool,
    pub keys: Vec<DecodedKey>,
}

/// A relative mouse movement with the state of its buttons.
#[derive(Debug, Clone, Copy, PartialEq, Eq, Structural)]
pub struct MouseMovement {
    pub dx: i32,
    pub dy: i32,
    pub left: bool,
    pub right: bool,
    pub wheel: i8,
}

impl Repeat {
    pub fn new() -> (r: Self)
        ensures
            r == (Repeat { code: 0, mods: 0, at_us: 0 }),
    {
        Repeat { code: 0, mods: 0, at_us: 0 }
    }
}

/// Either Shift key (modifier bits 1 and 5).
pub open spec fn shifted(mods: u8) -> bool {
    mods & 0x22 != 0
}

/// Either Ctrl key (modifier bits 0 and 4).
pub open spec fn ctrl(mods: u8) -> bool {
    mods & 0x11 != 0
}

fn shift(mods: u8) -> (r: bool)
    ensures
        r == shifted(mods),
{
    mods & 0x22 != 0
}

pub open spec fn typed(c: char) -> Option<DecodedKey> {
    Some(DecodedKey::Unicode(c))
}

pub open spec fn pressed(k: KeyCode) -> Option<DecodedKey> {
    Some(DecodedKey::RawKey(k))
}

/// The key a HID usage stands for on a US keyboard.
pub open spec fn usage_key(usage: u8, sh: bool) -> Option<DecodedKey> {
    let u = usage as int;
    if 0x04 <= u <= 0x1D {
        typed(if sh { (u - 0x04 + 'A' as int) as char } else { (u - 0x04 + 'a' as int) as char })
    } else if 0x1E <= u <= 0x27 {
        typed(if sh { "!@#$%^&*()"@[u - 0x1E] } else { "1234567890"@[u - 0x1E] })
    } else if 0x2D <= u <= 0x31 {
        typed(if sh { "_+{}|"@[u - 0x2D] } else { "-=[]\\"@[u - 0x2D] })
    } else if 0x33 <= u <= 0x38 {
        typed(if sh { ":\"~<>?"@[u - 0x33] } else { ";'`,./"@[u - 0x33] })
    } else {
        match usage {
            0x28 => typed('\n'),
            0x29 => pressed(KeyCode::Escape),
            0x2A => typed('\x08'),
            0x2B => typed('\t'),
            0x2C => typed(' '),
            0x3A => pressed(KeyCode::F1),
            0x3B => pressed(KeyCode::F2),
            0x3C => pressed(KeyCode::F3),
            0x3D => pressed(KeyCode::F4),
            0x3E => pressed(KeyCode::F5),
            0x3F => pressed(KeyCode::F6),
            0x40 => pressed(KeyCode::F7),
            0x41 => pressed(KeyCode::F8),
            0x42 => pressed(KeyCode::F9),
            0x43 => pressed(KeyCode::F10),
            0x44 => pressed(KeyCode::F11),
            0x45 => pressed(KeyCode::F12),
            0x4A => pressed(KeyCode::Home),
            0x4B => pressed(KeyCode::PageUp),
            0x4C => pressed(KeyCode::Delete),
            0x4D => pressed(KeyCode::End),
            0x4E => pressed(KeyCode::PageDown),
            0x4F => pressed(KeyCode::ArrowRight),
            0x50 => pressed(KeyCode::ArrowLeft),
            0x51 => pressed(KeyCode::ArrowDown),
            0x52 => pressed(KeyCode::ArrowUp),
            _ => None,
        }
    }
}

fn pick(sh: bool, up: char, down: char) -> (r: Option<DecodedKey>)
    ensures
        r == typed(if sh { up } else { down }),
{
    Some(DecodedKey::Unicode(if sh { up } else { down }))
}

pub fn hid_usage_to_key(usage: u8, mods: u8) -> (r: Option<DecodedKey>)
    ensures
        r == usage_key(usage, shifted(mods)),
{
    let sh = shift(mods);
    if 0x04 <= usage && usage <= 0x1D {
        let base: u8 = if sh { 65 + (usage - 0x04) } else { 97 + (usage - 0x04) };
        return Some(DecodedKey::Unicode(base as char));
    }
    proof {
        reveal_strlit("!@#$%^&*()");
        reveal_strlit("1234567890");
        reveal_strlit("_+{}|");
        reveal_strlit("-=[]\\");
        reveal_strlit(":\"~<>?");
        reveal_strlit(";'`,./");
    }
    match usage {
        0x1E => pick(sh, '!', '1'),
        0x1F => pick(sh, '@', '2'),
        0x20 => pick(sh, '#', '3'),
        0x21 => pick(sh, '$', '4'),
        0x22 => pick(sh, '%', '5'),
        0x23 => pick(sh, '^', '6'),
        0x24 => pick(sh, '&', '7'),
        0x25 => pick(sh, '*', '8'),
        0x26 => pick(sh, '(', '9'),
        0x27 => pick(sh, ')', '0'),
        0x28 => Some(DecodedKey::Unicode('\n')),
        0x29 => Some(DecodedKey::RawKey(KeyCode::Escape)),
        0x2A => Some(DecodedKey::Unicode('\x08')),
        0x2B => Some(DecodedKey::Unicode('\t')),
        0x2C => Some(DecodedKey::Unicode(' ')),
        0x2D => pick(sh, '_', '-'),
        0x2E => pick(sh, '+', '='),
        0x2F => pick(sh, '{', '['),
        0x30 => pick(sh, '}', ']'),
        0x31 => pick(sh, '|', '\\'),
        0x33 => pick(sh, ':', ';'),
        0x34 => pick(sh, '"', '\''),
        0x35 => pick(sh, '~', '`'),
        0x36 => pick(sh, '<', ','),
        0x37 => pick(sh, '>', '.'),
        0x38 => pick(sh, '?', '/'),
        0x3A => Some(DecodedKey::RawKey(KeyCode::F1)),
        0x3B => Some(DecodedKey::RawKey(KeyCode::F2)),
        0x3C => Some(DecodedKey::RawKey(KeyCode::F3)),
        0x3D => Some(DecodedKey::RawKey(KeyCode::F4)),
        0x3E => Some(DecodedKey::RawKey(KeyCode::F5)),
        0x3F => Some(DecodedKey::RawKey(KeyCode::F6)),
        0x40 => Some(DecodedKey::RawKey(KeyCode::F7)),
        0x41 => Some(DecodedKey::RawKey(KeyCode::F8)),
        0x42 => Some(DecodedKey::RawKey(KeyCode::F9)),
        0x43 => Some(DecodedKey::RawKey(KeyCode::F10)),
        0x44 => Some(DecodedKey::RawKey(KeyCode::F11)),
        0x45 => Some(DecodedKey::RawKey(KeyCode::F12)),
        0x4A => Some(DecodedKey::RawKey(KeyCode::Home)),
        0x4B => Some(DecodedKey::RawKey(KeyCode::PageUp)),
        0x4C => Some(DecodedKey::RawKey(KeyCode::Delete)),
        0x4D => Some(DecodedKey::RawKey(KeyCode::End)),
        0x4E => Some(DecodedKey::RawKey(KeyCode::PageDown)),
        0x4F => Some(DecodedKey::RawKey(KeyCode::ArrowRight)),
        0x50 => Some(DecodedKey::RawKey(KeyCode::ArrowLeft)),
        0x51 => Some(DecodedKey::RawKey(KeyCode::ArrowDown)),
        0x52 => Some(DecodedKey::RawKey(KeyCode::ArrowUp)),
        _ => None,
    }
}

/// The six key slots of a report.
pub open spec fn held(report: Seq<u8>) -> Seq<u8> {
    report.skip(2)
}

/// A slot that holds a key which the report before did not have. Zero is an
/// empty slot and one says that too many keys are down.
pub open spec fn fresh(prev: Seq<u8>, code: u8) -> bool {
    code != 0 && code != 1 && !held(prev).contains(code)
}

/// The characters and keys of the fresh slots among `codes`, in order.
pub open spec fn fresh_keys(prev: Seq<u8>, codes: Seq<u8>, mods: u8) -> Seq<DecodedKey>
    decreases codes.len(),
{
    if codes.len() == 0 {
        Seq::empty()
    } else {
        let before = fresh_keys(prev, codes.drop_last(), mods);
        match usage_key(codes.last(), shifted(mods)) {
            Some(k) if fresh(prev, codes.last()) => before.push(k),
            _ => before,
        }
    }
}

/// The last fresh slot arms the repeat.
pub open spec fn armed(r: Repeat, prev: Seq<u8>, codes: Seq<u8>, mods: u8, now: u64) -> Repeat
    decreases codes.len(),
{
    if codes.len() == 0 {
        r
    } else if fresh(prev, codes.last()) {
        Repeat { code: codes.last(), mods, at_us: (now + REPEAT_DELAY_US) as u64 }
    } else {
        armed(r, prev, codes.drop_last(), mods, now)
    }
}

/// A key that is no longer held stops repeating.
pub open spec fn after_report(r: Repeat, prev: Seq<u8>, report: Seq<u8>, now: u64) -> Repeat {
    let a = armed(r, prev, held(report), report[0], now);
    if held(report).contains(a.code) {
        a
    } else {
        Repeat { code: 0, ..a }
    }
}

fn holds(report: &[u8; 8], code: u8) -> (r: bool)
    ensures
        r == held(report@).contains(code),
{
    let mut i: usize = 2;
    while i < 8
        invariant
            2 <= i <= 8,
            forall|j: int| 2 <= j < i ==> report@[j] != code,
        decreases 8 - i,
    {
        if report[i] == code {
            assert(held(report@)[i - 2] == code);
            return true;
        }
        i = i + 1;
    }
    proof {
        if held(report@).contains(code) {
            let j = choose|j: int| 0 <= j < held(report@).len() && held(report@)[j] == code;
            assert(report@[j + 2] == code);
        }
    }
    false
}

/// Diff `prev` → `report`: the newly pressed keys, with the repeat timer armed
/// or disarmed as they ask.
pub fn handle_keyboard_report(
    repeat: &mut Repeat,
    prev: &[u8; 8],
    report: &[u8; 8],
    now: u64,
) -> (r: KeyboardEvents)
    requires
        now <= u64::MAX - REPEAT_DELAY_US,
    ensures
        r.ctrl_held == ctrl(report@[0]),
        r.keys@ == fresh_keys(prev@, held(report@), report@[0]),
        *final(repeat) == after_report(*old(repeat), prev@, report@, now),
{
    let mods: u8 = report[0];
    let mut keys: Vec<DecodedKey> = Vec::new();
    let ghost codes = held(report@);
    let mut i: usize = 2;
    assert(codes.take(0) =~= Seq::<u8>::empty());
    while i < 8
        invariant
            2 <= i <= 8,
            mods == report@[0],
            codes == held(report@),
            now <= u64::MAX - REPEAT_DELAY_US,
            keys@ == fresh_keys(prev@, codes.take(i - 2), mods),
            *repeat == armed(*old(repeat), prev@, codes.take(i - 2), mods, now),
        decreases 8 - i,
    {
        let code: u8 = report[i];
        proof {
            let t = codes.take(i - 1);
            assert(t.drop_last() =~= codes.take(i - 2));
            assert(t.last() == code);
        }
        if code != 0 && code != 1 && !holds(prev, code) {
            match hid_usage_to_key(code, mods) {
                Some(key) => {
                    keys.push(key);
                },
                None => {},
            }
            repeat.code = code;
            repeat.mods = mods;
            repeat.at_us = now + REPEAT_DELAY_US;
        }
        i = i + 1;
    }
    assert(codes.take(i - 2) =~= codes);
    if repeat.code != 0 && !holds(report, repeat.code) {
        repeat.code = 0;
    }
    KeyboardEvents { ctrl_held: mods & 0x11 != 0, keys }
}

/// The next repeat, if one is armed and due. Called on every poll, whether or
/// not a report came.
pub fn tick(repeat: &mut Repeat, now: u64) -> (r: Option<DecodedKey>)
    requires
        now <= u64::MAX - REPEAT_INTERVAL_US,
    ensures
        old(repeat).code == 0 || now < old(repeat).at_us ==> r is None && *final(repeat) == *old(
            repeat,
        ),
        old(repeat).code != 0 && now >= old(repeat).at_us ==> {
            &&& r == usage_key(old(repeat).code, shifted(old(repeat).mods))
            &&& *final(repeat) == (Repeat {
                at_us: (now + REPEAT_INTERVAL_US) as u64,
                ..*old(repeat)
            })
        },
{
    if repeat.code == 0 || now < repeat.at_us {
        return None;
    }
    let key = hid_usage_to_key(repeat.code, repeat.mods);
    repeat.at_us = now + REPEAT_INTERVAL_US;
    key
}

pub open spec fn signed(b: u8) -> int {
    if b < 128 {
        b as int
    } else {
        b - 256
    }
}

fn as_signed(b: u8) -> (r: i8)
    ensures
        r == signed(b),
{
    if b < 128 {
        b as i8
    } else {
        (b as i16 - 256) as i8
    }
}

/// Parse a boot mouse report (3 bytes minimum; the fourth is a wheel).
pub fn handle_mouse_report(report: &[u8]) -> (r: Option<MouseMovement>)
    ensures
        report@.len() < 3 <==> r is None,
        r matches Some(m) ==> {
            &&& m.dx == signed(report@[1])
            &&& m.dy == signed(report@[2])
            &&& m.wheel == (if report@.len() >= 4 { signed(report@[3]) } else { 0 })
            &&& m.left == (report@[0] & 1 != 0)
            &&& m.right == (report@[0] & 2 != 0)
        },
{
    if report.len() < 3 {
        return None;
    }
    let buttons: u8 = report[0];
    let wheel: i8 = if report.len() >= 4 { as_signed(report[3]) } else { 0 };
    Some(
        MouseMovement {
            dx: as_signed(report[1]) as i32,
            dy: as_signed(report[2]) as i32,
            left: buttons & 1 != 0,
            right: buttons & 2 != 0,
            wheel,
        },
    )
}

/// A key repeats only while it is held: after any report, the repeating key is
/// one of the keys the report shows, or there is none.
pub proof fn only_held_keys_repeat(r: Repeat, prev: Seq<u8>, report: Seq<u8>, now: u64)
    ensures
        after_report(r, prev, report, now).code == 0 || held(report).contains(
            after_report(r, prev, report, now).code,
        ),
{
}

/// An unchanged report presses nothing and leaves a held repeat as it was.
pub proof fn steady_report_changes_nothing(r: Repeat, report: Seq<u8>, now: u64)
    requires
        report.len() == 8,
        held(report).contains(r.code),
    ensures
        fresh_keys(report, held(report), report[0]) == Seq::<DecodedKey>::empty(),
        after_report(r, report, report, now) == r,
{
    steady_prefix(r, report, held(report), now);
}

proof fn steady_prefix(r: Repeat, report: Seq<u8>, codes: Seq<u8>, now: u64)
    requires
        forall|i: int| 0 <= i < codes.len() ==> held(report).contains(#[trigger] codes[i]),
    ensures
        fresh_keys(report, codes, report[0]) == Seq::<DecodedKey>::empty(),
        armed(r, report, codes, report[0], now) == r,
    decreases codes.len(),
{
    if codes.len() > 0 {
        assert(held(report).contains(codes[codes.len() - 1]));
        assert forall|i: int| 0 <= i < codes.drop_last().len() implies held(report).contains(
            #[trigger] codes.drop_last()[i],
        ) by {
            assert(codes.drop_last()[i] == codes[i]);
        }
        steady_prefix(r, report, codes.drop_last(), now);
    }
}

/// Letters and digits are where the usage numbers count them from, and with
/// Shift a letter is the capital of what it is without.
pub proof fn letters_and_digits_are_in_order(u: u8)
    ensures
        0x04 <= u <= 0x1D ==> (match (usage_key(u, false), usage_key(u, true)) {
            (Some(DecodedKey::Unicode(a)), Some(DecodedKey::Unicode(b))) => {
                &&& a as int - 'a' as int == u - 0x04
                &&& b as int - 'A' as int == u - 0x04
            },
            _ => false,
        }),
        0x1E <= u <= 0x26 ==> (usage_key(u, false) matches Some(DecodedKey::Unicode(a)) && a as int
            - '1' as int == u - 0x1E),
        usage_key(0x27, false) == Some(DecodedKey::Unicode('0')),
{
    reveal_strlit("1234567890");
}

/// Each key that types nothing has a usage of its own, with Shift or without.
pub proof fn other_keys_have_one_usage(u: u8, sh: bool)
    ensures
        usage_key(u, sh) == Some(DecodedKey::RawKey(KeyCode::Escape)) <==> u == 0x29,
        usage_key(u, sh) == Some(DecodedKey::RawKey(KeyCode::F1)) <==> u == 0x3A,
        usage_key(u, sh) == Some(DecodedKey::RawKey(KeyCode::F2)) <==> u == 0x3B,
        usage_key(u, sh) == Some(DecodedKey::RawKey(KeyCode::F3)) <==> u == 0x3C,
        usage_key(u, sh) == Some(DecodedKey::RawKey(KeyCode::F4)) <==> u == 0x3D,
        usage_key(u, sh) == Some(DecodedKey::RawKey(KeyCode::F5)) <==> u == 0x3E,
        usage_key(u, sh) == Some(DecodedKey::RawKey(KeyCode::F6)) <==> u == 0x3F,
        usage_key(u, sh) == Some(DecodedKey::RawKey(KeyCode::F7)) <==> u == 0x40,
        usage_key(u, sh) == Some(DecodedKey::RawKey(KeyCode::F8)) <==> u == 0x41,
        usage_key(u, sh) == Some(DecodedKey::RawKey(KeyCode::F9)) <==> u == 0x42,
        usage_key(u, sh) == Some(DecodedKey::RawKey(KeyCode::F10)) <==> u == 0x43,
        usage_key(u, sh) == Some(DecodedKey::RawKey(KeyCode::F11)) <==> u == 0x44,
        usage_key(u, sh) == Some(DecodedKey::RawKey(KeyCode::F12)) <==> u == 0x45,
        usage_key(u, sh) == Some(DecodedKey::RawKey(KeyCode::Home)) <==> u == 0x4A,
        usage_key(u, sh) == Some(DecodedKey::RawKey(KeyCode::PageUp)) <==> u == 0x4B,
        usage_key(u, sh) == Some(DecodedKey::RawKey(KeyCode::Delete)) <==> u == 0x4C,
        usage_key(u, sh) == Some(DecodedKey::RawKey(KeyCode::End)) <==> u == 0x4D,
        usage_key(u, sh) == Some(DecodedKey::RawKey(KeyCode::PageDown)) <==> u == 0x4E,
        usage_key(u, sh) == Some(DecodedKey::RawKey(KeyCode::ArrowRight)) <==> u == 0x4F,
        usage_key(u, sh) == Some(DecodedKey::RawKey(KeyCode::ArrowLeft)) <==> u == 0x50,
        usage_key(u, sh) == Some(DecodedKey::RawKey(KeyCode::ArrowDown)) <==> u == 0x51,
        usage_key(u, sh) == Some(DecodedKey::RawKey(KeyCode::ArrowUp)) <==> u == 0x52,
        usage_key(u, sh) == Some(DecodedKey::Unicode('\n')) <==> u == 0x28,
        usage_key(u, sh) == Some(DecodedKey::Unicode('\x08')) <==> u == 0x2A,
        usage_key(u, sh) == Some(DecodedKey::Unicode('\t')) <==> u == 0x2B,
        usage_key(u, sh) == Some(DecodedKey::Unicode(' ')) <==> u == 0x2C,
{
    reveal_strlit("!@#$%^&*()");
    reveal_strlit("1234567890");
    reveal_strlit("_+{}|");
    reveal_strlit("-=[]\\");
    reveal_strlit(":\"~<>?");
    reveal_strlit(";'`,./");
}

/// No two keys type the same, with Shift or without.
#[verifier::spinoff_prover]
#[verifier::rlimit(60)]
pub proof fn no_two_keys_are_alike(u: u8, v: u8, sh: bool)
    requires
        usage_key(u, sh) is Some,
        usage_key(u, sh) == usage_key(v, sh),
    ensures
        u == v,
{
    reveal_strlit("!@#$%^&*()");
    reveal_strlit("1234567890");
    reveal_strlit("_+{}|");
    reveal_strlit("-=[]\\");
    reveal_strlit(":\"~<>?");
    reveal_strlit(";'`,./");
}

/// Either of the two Shift keys shifts, either Ctrl key counts as Ctrl, and no
/// other modifier does.
pub proof fn both_sides_count(mods: u8)
    ensures
        shifted(mods) <==> mods as int / 2 % 2 == 1 || mods as int / 32 % 2 == 1,
        ctrl(mods) <==> mods as int % 2 == 1 || mods as int / 16 % 2 == 1,
{
    assert((mods & 0x22 != 0) <==> (mods / 2 % 2 == 1 || mods / 32 % 2 == 1)) by (bit_vector);
    assert((mods & 0x11 != 0) <==> (mods % 2 == 1 || mods / 16 % 2 == 1)) by (bit_vector);
}

/// A key that is down now and was not before is reported, and nothing is
/// reported but such keys.
pub proof fn new_keys_are_reported(prev: Seq<u8>, codes: Seq<u8>, mods: u8, i: int)
    ensures
        0 <= i < codes.len() && codes[i] > 1 && !prev.skip(2).contains(codes[i]) ==> (match usage_key(
            codes[i],
            shifted(mods),
        ) {
            Some(k) => fresh_keys(prev, codes, mods).contains(k),
            None => true,
        }),
        forall|k: DecodedKey| #[trigger]
            fresh_keys(prev, codes, mods).contains(k) ==> exists|j: int|
                0 <= j < codes.len() && #[trigger] codes[j] > 1 && !prev.skip(2).contains(codes[j])
                    && usage_key(codes[j], shifted(mods)) == Some(k),
        fresh_keys(prev, codes, mods).len() <= codes.len(),
    decreases codes.len(),
{
    if codes.len() > 0 {
        let n = codes.len() - 1;
        let init = codes.drop_last();
        new_keys_are_reported(prev, init, mods, i);
        let before = fresh_keys(prev, init, mods);
        let all = fresh_keys(prev, codes, mods);
        if 0 <= i < n {
            assert(init[i] == codes[i]);
            match usage_key(codes[i], shifted(mods)) {
                Some(k) => {
                    if before.contains(k) {
                        let j = choose|j: int| 0 <= j < before.len() && before[j] == k;
                        assert(all[j] == k);
                    }
                },
                None => {},
            }
        } else if i == n {
            if all.len() > before.len() {
                assert(all[all.len() - 1] == all.last());
            }
        }
        assert forall|k: DecodedKey| #[trigger] all.contains(k) implies exists|j: int|
            0 <= j < codes.len() && #[trigger] codes[j] > 1 && !prev.skip(2).contains(codes[j])
                && usage_key(codes[j], shifted(mods)) == Some(k) by {
            let m = choose|m: int| 0 <= m < all.len() && all[m] == k;
            if m < before.len() {
                assert(before[m] == k);
                assert(before.contains(k));
                let j = choose|j: int|
                    0 <= j < init.len() && #[trigger] init[j] > 1 && !prev.skip(2).contains(init[j])
                        && usage_key(init[j], shifted(mods)) == Some(k);
                assert(codes[j] == init[j]);
            } else {
                assert(codes[n] == codes.last());
            }
        }
    }
}

/// A key that is pressed anew begins to repeat half a second later, and none
/// that is let go of goes on.
pub proof fn a_new_key_repeats_after_a_while(
    r: Repeat,
    prev: Seq<u8>,
    report: Seq<u8>,
    now: u64,
    i: int,
)
    requires
        report.len() == 8,
        2 <= i < 8,
        report[i] > 1,
        !prev.skip(2).contains(report[i]),
        forall|j: int| i < j < 8 ==> #[trigger] report[j] <= 1,
        now <= u64::MAX - 500_000,
    ensures
        after_report(r, prev, report, now) == (Repeat {
            code: report[i],
            mods: report[0],
            at_us: (now + 500_000) as u64,
        }),
{
    let codes = held(report);
    assert(codes[i - 2] == report[i]);
    assert forall|j: int| i - 2 < j < codes.len() implies #[trigger] codes[j] <= 1 by {
        assert(codes[j] == report[j + 2]);
    }
    the_last_is_armed(r, prev, codes, report[0], now, i - 2);
    assert(codes.contains(report[i]));
}

proof fn the_last_is_armed(r: Repeat, prev: Seq<u8>, codes: Seq<u8>, mods: u8, now: u64, i: int)
    requires
        0 <= i < codes.len(),
        codes[i] > 1,
        !prev.skip(2).contains(codes[i]),
        forall|j: int| i < j < codes.len() ==> #[trigger] codes[j] <= 1,
    ensures
        armed(r, prev, codes, mods, now) == (Repeat {
            code: codes[i],
            mods,
            at_us: (now + REPEAT_DELAY_US) as u64,
        }),
    decreases codes.len(),
{
    if i < codes.len() - 1 {
        assert(codes[codes.len() - 1] <= 1);
        the_last_is_armed(r, prev, codes.drop_last(), mods, now, i);
    }
}

/// A signed byte is the number it is in two's complement.
pub proof fn signed_bytes_wrap(b: u8)
    ensures
        -128 <= signed(b) <= 127,
        (signed(b) - b) % 256 == 0,
{
}

} // verus!
