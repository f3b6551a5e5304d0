//! The calls that programs make of the kernel.
//!
//! A call arrives as a number and six registers. Reading a program's memory is
//! left to the program around this library: [`user_range`] says which part of
//! it a call speaks of, and [`dispatch_syscall`] takes what was read there.

use vstd::prelude::*;
use vstd::string::*;

use crate::text;
use crate::window::calls;
use crate::window::calls::{
    sys_add_button, sys_add_label, sys_create_window, sys_get_event, sys_set_footer,
    sys_update_widget,
};
use crate::window::manager::{Desktop, DesktopModel};
use crate::window::widget;
use crate::window::widget::WinAction;

verus! {

pub const SYS_WRITE: u64 = 1;

pub const SYS_EXIT: u64 = 2;

pub const SYS_YIELD: u64 = 3;

/// Move the heap break, for a C library's `malloc`.
pub const SYS_SBRK: u64 = 4;

/// Milliseconds since the Unix epoch.
pub const SYS_TIME_MS: u64 = 5;

pub const SYS_GUI_CREATE_WINDOW: u64 = 10;

pub const SYS_GUI_ADD_BUTTON: u64 = 11;

pub const SYS_GUI_ADD_LABEL: u64 = 12;

pub const SYS_GUI_GET_EVENT: u64 = 13;

pub const SYS_GUI_UPDATE_WIDGET: u64 = 14;

pub const SYS_GUI_SET_FOOTER: u64 = 15;

/// What a call returns that is refused.
pub const ERROR: u64 = 0xffff_ffff_ffff_ffff;

/// Most bytes of a program's output that are captured, so that a program stuck
/// in a loop cannot fill the heap.
pub const CAPTURE_LIMIT: usize = 16_384;

// ── Registers ───────────────────────────────────────────────────────────────

/// A call as it arrives: its number and its arguments.
#[derive(Clone, Copy, Debug, PartialEq, Eq, Structural)]
pub struct Trap {
    pub nr: u64,
    pub a1: u64,
    pub a2: u64,
    pub a3: u64,
    pub a4: u64,
    pub a5: u64,
    pub a6: u64,
}

/// A part of a program's memory.
#[derive(Clone, Copy, Debug, PartialEq, Eq, Structural)]
pub struct Range {
    pub at: u64,
    pub len: u64,
}

/// What a call asks for.
#[derive(Clone, Copy, Debug, PartialEq, Eq, Structural)]
pub enum Call {
    Write(Range),
    Exit(u64),
    Yield,
    Sbrk(i64),
    Time,
    CreateWindow { title: Range, w: u64, h: u64 },
    AddButton { win: u64, x: u64, y: u64, w: u64, h: u64, text: Range, action_id: u64 },
    AddLabel { win: u64, x: u64, y: u64, text: Range },
    GetEvent(u64),
    UpdateWidget { win: u64, widget: u64, text: Range },
    SetFooter { win: u64, text: Range },
    Unknown,
}

/// The two halves of a register that holds two numbers.
pub open spec fn high(n: u64) -> u64 {
    n / 0x1_0000_0000
}

pub open spec fn low(n: u64) -> u64 {
    n % 0x1_0000_0000
}

/// A register read as a signed number.
pub open spec fn signed(n: u64) -> i64 {
    (if n < 0x8000_0000_0000_0000 {
        n as int
    } else {
        n - 0x1_0000_0000_0000_0000
    }) as i64
}

fn as_signed(n: u64) -> (r: i64)
    ensures
        r == signed(n),
{
    if n < 0x8000_0000_0000_0000 {
        n as i64
    } else {
        -((0xffff_ffff_ffff_ffff - n) as i64) - 1
    }
}

pub open spec fn asked(t: Trap) -> Call {
    if t.nr == SYS_WRITE {
        Call::Write(Range { at: t.a1, len: t.a2 })
    } else if t.nr == SYS_EXIT {
        Call::Exit(t.a1)
    } else if t.nr == SYS_YIELD {
        Call::Yield
    } else if t.nr == SYS_SBRK {
        Call::Sbrk(signed(t.a1))
    } else if t.nr == SYS_TIME_MS {
        Call::Time
    } else if t.nr == SYS_GUI_CREATE_WINDOW {
        Call::CreateWindow {
            title: Range { at: t.a1, len: t.a2 },
            w: high(t.a3),
            h: low(t.a3),
        }
    } else if t.nr == SYS_GUI_ADD_BUTTON {
        Call::AddButton {
            win: t.a1,
            x: high(t.a2),
            y: low(t.a2),
            w: high(t.a3),
            h: low(t.a3),
            text: Range { at: t.a4, len: t.a5 },
            action_id: t.a6,
        }
    } else if t.nr == SYS_GUI_ADD_LABEL {
        Call::AddLabel {
            win: t.a1,
            x: high(t.a2),
            y: low(t.a2),
            text: Range { at: t.a3, len: t.a4 },
        }
    } else if t.nr == SYS_GUI_GET_EVENT {
        Call::GetEvent(t.a1)
    } else if t.nr == SYS_GUI_UPDATE_WIDGET {
        Call::UpdateWidget { win: t.a1, widget: t.a2, text: Range { at: t.a3, len: t.a4 } }
    } else if t.nr == SYS_GUI_SET_FOOTER {
        Call::SetFooter { win: t.a1, text: Range { at: t.a2, len: t.a3 } }
    } else {
        Call::Unknown
    }
}

/// Read a call.
pub fn decode(t: Trap) -> (r: Call)
    ensures
        r == asked(t),
{
    match t.nr {
        1 => Call::Write(Range { at: t.a1, len: t.a2 }),
        2 => Call::Exit(t.a1),
        3 => Call::Yield,
        4 => Call::Sbrk(as_signed(t.a1)),
        5 => Call::Time,
        10 => Call::CreateWindow {
            title: Range { at: t.a1, len: t.a2 },
            w: t.a3 / 0x1_0000_0000,
            h: t.a3 % 0x1_0000_0000,
        },
        11 => Call::AddButton {
            win: t.a1,
            x: t.a2 / 0x1_0000_0000,
            y: t.a2 % 0x1_0000_0000,
            w: t.a3 / 0x1_0000_0000,
            h: t.a3 % 0x1_0000_0000,
            text: Range { at: t.a4, len: t.a5 },
            action_id: t.a6,
        },
        12 => Call::AddLabel {
            win: t.a1,
            x: t.a2 / 0x1_0000_0000,
            y: t.a2 % 0x1_0000_0000,
            text: Range { at: t.a3, len: t.a4 },
        },
        13 => Call::GetEvent(t.a1),
        14 => Call::UpdateWidget { win: t.a1, widget: t.a2, text: Range { at: t.a3, len: t.a4 } },
        15 => Call::SetFooter { win: t.a1, text: Range { at: t.a2, len: t.a3 } },
        _ => Call::Unknown,
    }
}

/// The memory that a call speaks of.
pub open spec fn range_of(c: Call) -> Option<Range> {
    match c {
        Call::Write(r) => Some(r),
        Call::CreateWindow { title, .. } => Some(title),
        Call::AddButton { text, .. } => Some(text),
        Call::AddLabel { text, .. } => Some(text),
        Call::UpdateWidget { text, .. } => Some(text),
        Call::SetFooter { text, .. } => Some(text),
        _ => None,
    }
}

/// The part of the caller's memory that has to be read for a call.
pub fn user_range(t: Trap) -> (r: Option<Range>)
    ensures
        r == range_of(asked(t)),
{
    match decode(t) {
        Call::Write(r) => Some(r),
        Call::CreateWindow { title, .. } => Some(title),
        Call::AddButton { text, .. } => Some(text),
        Call::AddLabel { text, .. } => Some(text),
        Call::UpdateWidget { text, .. } => Some(text),
        Call::SetFooter { text, .. } => Some(text),
        _ => None,
    }
}

// ── Output ──────────────────────────────────────────────────────────────────

/// A byte of a program's output as a character.
pub open spec fn printable(b: u8) -> char {
    if b == 10 || b == 13 || b == 9 || (0x20 <= b <= 0x7e) {
        b as char
    } else {
        '?'
    }
}

fn as_printable(b: u8) -> (r: char)
    ensures
        r == printable(b),
{
    if b == 10 || b == 13 || b == 9 || (0x20 <= b && b <= 0x7e) {
        b as char
    } else {
        '?'
    }
}

pub open spec fn output(bytes: Seq<u8>) -> Seq<char> {
    bytes.map_values(|b: u8| printable(b))
}

/// The output with more of it, as far as there is room.
pub open spec fn captured(buf: Seq<char>, bytes: Seq<u8>) -> Seq<char> {
    if buf.len() >= CAPTURE_LIMIT {
        buf
    } else if buf.len() + bytes.len() <= CAPTURE_LIMIT {
        buf + output(bytes)
    } else {
        (buf + output(bytes)).take(CAPTURE_LIMIT as int)
    }
}

/// A program's output, while it is kept from the console.
pub struct Capture {
    pub text: Option<String>,
}

pub open spec fn option_view(o: Option<String>) -> Option<Seq<char>> {
    match o {
        Some(s) => Some(s@),
        None => None,
    }
}

impl View for Capture {
    type V = Option<Seq<char>>;

    open spec fn view(&self) -> Option<Seq<char>> {
        option_view(self.text)
    }
}

impl Capture {
    pub fn new() -> (r: Self)
        ensures
            r@ is None,
    {
        Capture { text: None }
    }
}

/// Keep what programs print from now on.
pub fn begin_capture(capture: &mut Capture)
    ensures
        final(capture)@ == Some(Seq::<char>::empty()),
{
    let s = String::new();
    assert(s@ =~= Seq::empty());
    capture.text = Some(s);
}

/// Stop, and hand out everything that was kept.
pub fn end_capture(capture: &mut Capture) -> (r: String)
    ensures
        final(capture)@ is None,
        r@ == (match old(capture)@ {
            Some(t) => t,
            None => Seq::empty(),
        }),
{
    match capture.text.take() {
        Some(t) => t,
        None => {
            let s = String::new();
            assert(s@ =~= Seq::empty());
            s
        },
    }
}

fn push_output(buf: &mut String, bytes: &Vec<u8>)
    ensures
        final(buf)@ == captured(old(buf)@, bytes@),
{
    let mut room: usize = buf.as_str().unicode_len();
    let ghost start = buf@;
    let mut i: usize = 0;
    assert(output(bytes@.take(0)) =~= Seq::empty());
    assert(buf@ =~= start + output(bytes@.take(0)));
    while i < bytes.len() && room < CAPTURE_LIMIT
        invariant
            i <= bytes@.len(),
            room == buf@.len(),
            buf@ == start + output(bytes@.take(i as int)),
            i > 0 ==> room <= CAPTURE_LIMIT,
        decreases bytes@.len() - i,
    {
        buf.push(as_printable(bytes[i]));
        room = room + 1;
        i = i + 1;
        assert(buf@ =~= start + output(bytes@.take(i as int)));
    }
    assert(bytes@.take(bytes@.len() as int) =~= bytes@);
    assert(buf@ =~= captured(start, bytes@));
}

fn output_text(bytes: &Vec<u8>) -> (r: String)
    ensures
        r@ == output(bytes@),
{
    let mut s = String::new();
    let mut i: usize = 0;
    assert(s@ =~= output(bytes@.take(0)));
    while i < bytes.len()
        invariant
            i <= bytes@.len(),
            s@ == output(bytes@.take(i as int)),
        decreases bytes@.len() - i,
    {
        s.push(as_printable(bytes[i]));
        i = i + 1;
        assert(s@ =~= output(bytes@.take(i as int)));
    }
    assert(bytes@.take(i as int) =~= bytes@);
    s
}

// ── Dispatch ────────────────────────────────────────────────────────────────

/// What is done about a call.
pub enum Reply<T = String> {
    /// Return this to the caller.
    Value(u64),
    /// Print this on the console, then return the number.
    Print(T, u64),
    /// End the caller, with this code.
    Exit(u64),
    /// Let another process run, then return zero.
    Yield,
    /// Move the caller's heap break.
    Sbrk(i64),
    /// Return the time.
    Time,
}

impl View for Reply {
    type V = Reply<Seq<char>>;

    open spec fn view(&self) -> Reply<Seq<char>> {
        match *self {
            Reply::Value(v) => Reply::Value(v),
            Reply::Print(t, v) => Reply::Print(t@, v),
            Reply::Exit(c) => Reply::Exit(c),
            Reply::Yield => Reply::Yield,
            Reply::Sbrk(n) => Reply::Sbrk(n),
            Reply::Time => Reply::Time,
        }
    }
}

/// What the kernel keeps for calls: the desktop and the captured output.
pub ghost struct State {
    pub desk: DesktopModel,
    pub capture: Option<Seq<char>>,
}

/// A text in a program's memory, or what stands for one that is not text.
pub open spec fn text_or(bytes: Seq<u8>, fallback: Seq<char>) -> Seq<char> {
    if vstd::utf8::valid_utf8(bytes) {
        vstd::utf8::decode_utf8(bytes)
    } else {
        fallback
    }
}

/// A call of the desktop, with the bytes that it speaks of.
pub open spec fn on_desktop(d: DesktopModel, pid: Option<u64>, c: Call, bytes: Seq<u8>) -> (
    DesktopModel,
    u64,
) {
    match c {
        Call::CreateWindow { w, h, .. } => calls::window_created(
            d,
            pid,
            text_or(bytes, "User App"@),
            w as usize,
            h as usize,
        ),
        Call::AddButton { win, x, y, w, h, action_id, .. } => calls::widget_added(
            d,
            pid,
            win,
            widget::button_of(
                x as usize,
                y as usize,
                calls::dim(w as usize, 0),
                calls::dim(h as usize, 0),
                text::clipped(text_or(bytes, ""@), calls::MAX_USER_TEXT_LEN as int),
                WinAction::User(action_id),
            ),
        ),
        Call::AddLabel { win, x, y, .. } => calls::widget_added(
            d,
            pid,
            win,
            widget::label_of(
                x as usize,
                y as usize,
                text::clipped(text_or(bytes, ""@), calls::MAX_USER_TEXT_LEN as int),
            ),
        ),
        Call::UpdateWidget { win, widget, .. } => calls::widget_updated(
            d,
            pid,
            win,
            widget,
            text_or(bytes, ""@),
        ),
        Call::SetFooter { win, .. } => calls::footer_set(d, pid, win, text_or(bytes, ""@)),
        _ => (d, ERROR),
    }
}

/// What a call does. `bytes` is the memory that it speaks of, `None` where
/// that is not the caller's.
pub open spec fn dispatched(
    s: State,
    pid: Option<u64>,
    c: Call,
    bytes: Option<Seq<u8>>,
) -> (State, Reply<Seq<char>>) {
    match c {
        Call::Exit(code) => (s, Reply::Exit(code)),
        Call::Yield => (s, Reply::Yield),
        Call::Sbrk(n) => (s, Reply::Sbrk(n)),
        Call::Time => (s, Reply::Time),
        Call::GetEvent(win) => {
            let (d, v) = calls::event_taken(s.desk, pid, win);
            (State { desk: d, ..s }, Reply::Value(v))
        },
        Call::Unknown => (s, Reply::Value(ERROR)),
        Call::Write(range) => match bytes {
            None => (s, Reply::Value(ERROR)),
            Some(b) => match s.capture {
                Some(buf) => (
                    State { capture: Some(captured(buf, b)), ..s },
                    Reply::Value(range.len),
                ),
                None => (s, Reply::Print(output(b), range.len)),
            },
        },
        _ => match bytes {
            None => (s, Reply::Value(ERROR)),
            Some(b) => {
                let (d, v) = on_desktop(s.desk, pid, c, b);
                (State { desk: d, ..s }, Reply::Value(v))
            },
        },
    }
}

fn text_of(bytes: &Vec<u8>, fallback: &str) -> (r: String)
    ensures
        r@ == text_or(bytes@, fallback@),
{
    match text::decode_text(bytes.as_slice()) {
        Some(t) => t,
        None => fallback.to_owned(),
    }
}

fn call_desktop(desk: &mut Desktop, pid: Option<u64>, c: Call, bytes: &Vec<u8>) -> (r: u64)
    requires
        old(desk)@.wf(),
        exists|t: Trap| asked(t) == c,
    ensures
        (final(desk)@, r) == on_desktop(old(desk)@, pid, c, bytes@),
        final(desk)@.wf(),
{
    match c {
        Call::CreateWindow { w, h, .. } => {
            let t = text_of(bytes, "User App");
            sys_create_window(desk, pid, t.as_str(), w as usize, h as usize)
        },
        Call::AddButton { win, x, y, w, h, action_id, .. } => {
            let t = text_of(bytes, "");
            sys_add_button(
                desk,
                pid,
                win,
                x as usize,
                y as usize,
                w as usize,
                h as usize,
                t.as_str(),
                action_id,
            )
        },
        Call::AddLabel { win, x, y, .. } => {
            let t = text_of(bytes, "");
            sys_add_label(desk, pid, win, x as usize, y as usize, t.as_str())
        },
        Call::UpdateWidget { win, widget, .. } => {
            let t = text_of(bytes, "");
            sys_update_widget(desk, pid, win, widget, t.as_str())
        },
        Call::SetFooter { win, .. } => {
            let t = text_of(bytes, "");
            sys_set_footer(desk, pid, win, t.as_str())
        },
        _ => ERROR,
    }
}

/// Carry out a call of a process. `bytes` is what was read of the memory that
/// [`user_range`] names; `None` where that memory is not the caller's.
pub fn dispatch_syscall(
    desk: &mut Desktop,
    capture: &mut Capture,
    pid: Option<u64>,
    t: Trap,
    bytes: &Option<Vec<u8>>,
) -> (r: Reply)
    requires
        old(desk)@.wf(),
    ensures
        (State { desk: final(desk)@, capture: final(capture)@ }, r@) == dispatched(
            State { desk: old(desk)@, capture: old(capture)@ },
            pid,
            asked(t),
            match *bytes {
                Some(b) => Some(b@),
                None => None,
            },
        ),
        final(desk)@.wf(),
{
    let c = decode(t);
    match c {
        Call::Exit(code) => Reply::Exit(code),
        Call::Yield => Reply::Yield,
        Call::Sbrk(n) => Reply::Sbrk(n),
        Call::Time => Reply::Time,
        Call::GetEvent(win) => Reply::Value(sys_get_event(desk, pid, win)),
        Call::Unknown => Reply::Value(ERROR),
        Call::Write(range) => match bytes {
            None => Reply::Value(ERROR),
            Some(b) => match capture.text.take() {
                Some(kept) => {
                    let mut kept = kept;
                    push_output(&mut kept, b);
                    capture.text = Some(kept);
                    Reply::Value(range.len)
                },
                None => Reply::Print(output_text(b), range.len),
            },
        },
        _ => match bytes {
            None => Reply::Value(ERROR),
            Some(b) => Reply::Value(call_desktop(desk, pid, c, b)),
        },
    }
}

/// A program's captured output stays within its bound, however much the
/// program prints.
pub proof fn captures_are_bounded(buf: Seq<char>, bytes: Seq<u8>)
    requires
        buf.len() <= CAPTURE_LIMIT,
    ensures
        captured(buf, bytes).len() <= CAPTURE_LIMIT,
        buf.is_prefix_of(captured(buf, bytes)),
{
    assert(captured(buf, bytes).take(buf.len() as int) =~= buf);
}

/// A call with memory that is not the caller's changes nothing.
pub proof fn foreign_memory_changes_nothing(s: State, pid: Option<u64>, t: Trap)
    requires
        range_of(asked(t)) is Some,
    ensures
        dispatched(s, pid, asked(t), None) == (s, Reply::<Seq<char>>::Value(ERROR)),
{
}

// ── Entering the kernel ─────────────────────────────────────────────────────

/// The user's registers that a call must not change, kept while another
/// process runs.
#[derive(Clone, Copy, Debug, PartialEq, Eq, Structural)]
pub struct SavedCalleeRegs {
    pub rbx: u64,
    pub rbp: u64,
    pub r12: u64,
    pub r13: u64,
    pub r14: u64,
    pub r15: u64,
}

/// The value of the register that names the segments for entering the kernel
/// and leaving it. Leaving adds 16 to the user's selector.
pub fn star_value(kernel_cs: u16, user_cs: u16) -> (r: u64)
    requires
        user_cs >= 16,
    ensures
        r == kernel_cs * 0x1_0000_0000 + (user_cs - 16) * 0x1_0000_0000_0000,
{
    kernel_cs as u64 * 0x1_0000_0000 + (user_cs - 16) as u64 * 0x1_0000_0000_0000
}

// ── Laws ────────────────────────────────────────────────────────────────────

/// Each number asks for one thing, with its arguments from the registers in
/// order, and a number that means nothing is refused.
pub proof fn each_number_asks_for_one_thing(t: Trap)
    ensures
        t.nr == 1 <==> asked(t) is Write,
        t.nr == 2 <==> asked(t) is Exit,
        t.nr == 3 <==> asked(t) is Yield,
        t.nr == 4 <==> asked(t) is Sbrk,
        t.nr == 5 <==> asked(t) is Time,
        t.nr == 10 <==> asked(t) is CreateWindow,
        t.nr == 11 <==> asked(t) is AddButton,
        t.nr == 12 <==> asked(t) is AddLabel,
        t.nr == 13 <==> asked(t) is GetEvent,
        t.nr == 14 <==> asked(t) is UpdateWidget,
        t.nr == 15 <==> asked(t) is SetFooter,
        t.nr == 1 ==> asked(t) == Call::Write(Range { at: t.a1, len: t.a2 }),
        t.nr == 2 ==> asked(t) == Call::Exit(t.a1),
        t.nr == 13 ==> asked(t) == Call::GetEvent(t.a1),
        t.nr == 14 ==> asked(t) == (Call::UpdateWidget {
            win: t.a1,
            widget: t.a2,
            text: Range { at: t.a3, len: t.a4 },
        }),
        t.nr == 15 ==> asked(t) == (Call::SetFooter {
            win: t.a1,
            text: Range { at: t.a2, len: t.a3 },
        }),
{
}

/// A program's output is one character for each byte: printable ASCII and line
/// ends as they are, and a question mark for anything else.
pub proof fn output_is_byte_for_byte(bytes: Seq<u8>, i: int)
    requires
        0 <= i < bytes.len(),
    ensures
        output(bytes).len() == bytes.len(),
        32 <= bytes[i] <= 126 || bytes[i] == 9 || bytes[i] == 10 || bytes[i] == 13
            ==> output(bytes)[i] as int == bytes[i],
        !(32 <= bytes[i] <= 126 || bytes[i] == 9 || bytes[i] == 10 || bytes[i] == 13)
            ==> output(bytes)[i] == '?',
{
}

/// While it is captured, everything a program prints is kept, one piece behind
/// the other, and none of it reaches the console; else all of it does. Either
/// way the program is told that all was written.
pub proof fn output_goes_to_one_place(s: State, pid: Option<u64>, r: Range, a: Seq<u8>, b: Seq<u8>)
    requires
        a.len() + b.len() <= 16_384,
    ensures
        s.capture is None ==> dispatched(s, pid, Call::Write(r), Some(a)) == (
            s,
            Reply::Print(output(a), r.len),
        ),
        s.capture == Some(Seq::<char>::empty()) ==> {
            let (s1, r1) = dispatched(s, pid, Call::Write(r), Some(a));
            let (s2, r2) = dispatched(s1, pid, Call::Write(r), Some(b));
            &&& r1 == Reply::<Seq<char>>::Value(r.len)
            &&& r2 == Reply::<Seq<char>>::Value(r.len)
            &&& s1.capture == Some(output(a))
            &&& s2.capture == Some(output(a + b))
            &&& s2.desk == s.desk
        },
{
    assert(Seq::<char>::empty() + output(a) =~= output(a));
    assert(output(a) + output(b) =~= output(a + b));
}

} // verus!
