//! What a program puts into registers to call the kernel, and what it makes
//! of the answer.

use vstd::prelude::*;

use crate::syscall;
use crate::syscall::{
    Range, Trap, ERROR, SYS_EXIT, SYS_GUI_ADD_BUTTON, SYS_GUI_ADD_LABEL, SYS_GUI_CREATE_WINDOW,
    SYS_GUI_GET_EVENT, SYS_GUI_SET_FOOTER, SYS_GUI_UPDATE_WIDGET, SYS_SBRK, SYS_TIME_MS, SYS_WRITE,
    SYS_YIELD,
};
use crate::window::calls;

verus! {

/// Something that happened to a window.
#[derive(Clone, Copy, Debug, PartialEq, Eq, Structural)]
pub enum GuiEvent {
    Nothing,
    ButtonClicked { action_id: u64 },
}

pub open spec fn trap(nr: u64, a1: u64, a2: u64, a3: u64, a4: u64, a5: u64, a6: u64) -> Trap {
    Trap { nr, a1, a2, a3, a4, a5, a6 }
}

/// A call with three arguments.
pub fn syscall3(nr: u64, a1: u64, a2: u64, a3: u64) -> (r: Trap)
    ensures
        r == trap(nr, a1, a2, a3, 0, 0, 0),
{
    Trap { nr, a1, a2, a3, a4: 0, a5: 0, a6: 0 }
}

/// A call with six arguments.
pub fn syscall6(nr: u64, a1: u64, a2: u64, a3: u64, a4: u64, a5: u64, a6: u64) -> (r: Trap)
    ensures
        r == trap(nr, a1, a2, a3, a4, a5, a6),
{
    Trap { nr, a1, a2, a3, a4, a5, a6 }
}

/// Two numbers in one register.
pub open spec fn packed(a: u64, b: u64) -> u64 {
    (a << 32) | b
}

fn pack(a: u64, b: u64) -> (r: u64)
    ensures
        r == packed(a, b),
{
    (a << 32) | b
}

/// Two numbers come out of a register as they went in, if both fit in half of
/// it.
pub proof fn packed_numbers_come_apart(a: u64, b: u64)
    requires
        a < 0x1_0000_0000,
        b < 0x1_0000_0000,
    ensures
        syscall::high(packed(a, b)) == a,
        syscall::low(packed(a, b)) == b,
{
    assert(((a << 32) | b) / 0x1_0000_0000 == a && ((a << 32) | b) % 0x1_0000_0000 == b)
        by (bit_vector)
        requires
            a < 0x1_0000_0000u64,
            b < 0x1_0000_0000u64,
    ;
}

/// Print bytes.
pub fn write(buf: Range) -> (r: Trap)
    ensures
        r == trap(SYS_WRITE, buf.at, buf.len, 0, 0, 0, 0),
{
    syscall3(SYS_WRITE, buf.at, buf.len, 0)
}

/// Let another process run.
pub fn yield_now() -> (r: Trap)
    ensures
        r == trap(SYS_YIELD, 0, 0, 0, 0, 0, 0),
{
    syscall3(SYS_YIELD, 0, 0, 0)
}

/// A signed number as a register holds it.
pub open spec fn unsigned(n: i64) -> u64 {
    (if n >= 0 {
        n as int
    } else {
        n + 0x1_0000_0000_0000_0000
    }) as u64
}

/// Move the heap break by so many bytes.
pub fn sbrk(increment: i64) -> (r: Trap)
    ensures
        r == trap(SYS_SBRK, unsigned(increment), 0, 0, 0, 0, 0),
{
    let n: u64 = if increment >= 0 {
        increment as u64
    } else {
        0xffff_ffff_ffff_ffff - ((-(increment + 1)) as u64)
    };
    syscall3(SYS_SBRK, n, 0, 0)
}

/// Where the heap break was; `None` if the heap cannot grow that far.
pub fn sbrk_result(reply: u64) -> (r: Option<u64>)
    ensures
        r == (if reply == ERROR {
            None
        } else {
            Some(reply)
        }),
{
    if reply == ERROR {
        None
    } else {
        Some(reply)
    }
}

/// Ask for the milliseconds since the epoch.
pub fn time_millis() -> (r: Trap)
    ensures
        r == trap(SYS_TIME_MS, 0, 0, 0, 0, 0, 0),
{
    syscall3(SYS_TIME_MS, 0, 0, 0)
}

/// End the program.
pub fn exit(code: u64) -> (r: Trap)
    ensures
        r == trap(SYS_EXIT, code, 0, 0, 0, 0, 0),
{
    syscall3(SYS_EXIT, code, 0, 0)
}

pub fn gui_create_window(title: Range, w: u64, h: u64) -> (r: Trap)
    ensures
        r == trap(SYS_GUI_CREATE_WINDOW, title.at, title.len, packed(w, h), 0, 0, 0),
{
    syscall3(SYS_GUI_CREATE_WINDOW, title.at, title.len, pack(w, h))
}

pub fn gui_add_button(
    win_handle: u64,
    x: u64,
    y: u64,
    w: u64,
    h: u64,
    text: Range,
    action_id: u64,
) -> (r: Trap)
    ensures
        r == trap(
            SYS_GUI_ADD_BUTTON,
            win_handle,
            packed(x, y),
            packed(w, h),
            text.at,
            text.len,
            action_id,
        ),
{
    syscall6(
        SYS_GUI_ADD_BUTTON,
        win_handle,
        pack(x, y),
        pack(w, h),
        text.at,
        text.len,
        action_id,
    )
}

pub fn gui_add_label(win_handle: u64, x: u64, y: u64, text: Range) -> (r: Trap)
    ensures
        r == trap(SYS_GUI_ADD_LABEL, win_handle, packed(x, y), text.at, text.len, 0, 0),
{
    syscall6(SYS_GUI_ADD_LABEL, win_handle, pack(x, y), text.at, text.len, 0, 0)
}

/// Ask for the next event of a window.
pub fn gui_get_event(win_handle: u64) -> (r: Trap)
    ensures
        r == trap(SYS_GUI_GET_EVENT, win_handle, 0, 0, 0, 0, 0),
{
    syscall3(SYS_GUI_GET_EVENT, win_handle, 0, 0)
}

/// The event that an answer stands for.
pub open spec fn event_of(reply: u64) -> GuiEvent {
    if reply & 0xFF == 1 {
        GuiEvent::ButtonClicked { action_id: reply >> 8 }
    } else {
        GuiEvent::Nothing
    }
}

/// The event that the kernel's answer stands for.
pub fn event(reply: u64) -> (r: GuiEvent)
    ensures
        r == event_of(reply),
{
    if reply == 0 {
        assert(0u64 & 0xFF == 0) by (bit_vector);
        return GuiEvent::Nothing;
    }
    if reply & 0xFF == 1 {
        GuiEvent::ButtonClicked { action_id: reply >> 8 }
    } else {
        GuiEvent::Nothing
    }
}

pub fn gui_update_widget(win_handle: u64, widget_handle: u64, text: Range) -> (r: Trap)
    ensures
        r == trap(
            SYS_GUI_UPDATE_WIDGET,
            win_handle,
            widget_handle,
            text.at,
            text.len,
            0,
            0,
        ),
{
    syscall6(SYS_GUI_UPDATE_WIDGET, win_handle, widget_handle, text.at, text.len, 0, 0)
}

/// Set the text along the bottom of a window.
pub fn gui_set_footer(win_handle: u64, text: Range) -> (r: Trap)
    ensures
        r == trap(SYS_GUI_SET_FOOTER, win_handle, text.at, text.len, 0, 0, 0),
{
    syscall3(SYS_GUI_SET_FOOTER, win_handle, text.at, text.len)
}

/// The kernel understands what a program asks of a window, as long as every
/// coordinate fits in half a register.
pub proof fn the_kernel_reads_what_programs_send(
    win: u64,
    x: u64,
    y: u64,
    w: u64,
    h: u64,
    text: Range,
    action_id: u64,
)
    requires
        x < 0x1_0000_0000,
        y < 0x1_0000_0000,
        w < 0x1_0000_0000,
        h < 0x1_0000_0000,
    ensures
        syscall::asked(
            trap(SYS_GUI_CREATE_WINDOW, text.at, text.len, packed(w, h), 0, 0, 0),
        ) == (syscall::Call::CreateWindow { title: text, w, h }),
        syscall::asked(
            trap(
                SYS_GUI_ADD_BUTTON,
                win,
                packed(x, y),
                packed(w, h),
                text.at,
                text.len,
                action_id,
            ),
        ) == (syscall::Call::AddButton { win, x, y, w, h, text, action_id }),
        syscall::asked(
            trap(SYS_GUI_ADD_LABEL, win, packed(x, y), text.at, text.len, 0, 0),
        ) == (syscall::Call::AddLabel { win, x, y, text }),
{
    packed_numbers_come_apart(x, y);
    packed_numbers_come_apart(w, h);
}

/// A heap increment arrives with its sign.
pub proof fn increments_keep_their_sign(n: i64)
    ensures
        syscall::asked(trap(SYS_SBRK, unsigned(n), 0, 0, 0, 0, 0)) == syscall::Call::Sbrk(n),
{
}

/// A click that the kernel queued for a window reaches its program with the
/// number that the program gave the button. Numbers of more than 56 bits do
/// not fit into the answer and are left out.
pub proof fn clicks_reach_the_program(action_id: u64)
    requires
        action_id < 0x100_0000_0000_0000,
    ensures
        event_of(calls::encoded(action_id)) == (GuiEvent::ButtonClicked { action_id }),
{
    calls::events_decode(action_id);
}

} // verus!
