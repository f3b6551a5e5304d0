//! What a userspace program may ask of the desktop.
//!
//! Everything here is reachable from an untrusted program, so two rules apply
//! throughout: a process may only touch windows it created, and every
//! allocation a call can trigger is bounded. The caller is named by its
//! process id; a call without one is refused.

use vstd::prelude::*;

use crate::text;
use crate::window::events;
use crate::window::manager;
use crate::window::manager::{Desktop, DesktopModel, ManagerModel};
use crate::window::state;
use crate::window::state::{Window, WindowModel};
use crate::window::widget;
use crate::window::widget::{WinAction, Widget};

verus! {

/// Per-process window budget.
pub const MAX_WINDOWS_PER_PROCESS: usize = 8;

/// Widgets a single window may hold.
pub const MAX_WIDGETS_PER_WINDOW: usize = 128;

/// Cap on any userspace-supplied string, in bytes.
pub const MAX_USER_TEXT_LEN: usize = 256;

/// Largest window a process may ask for, in pixels.
pub const MAX_USER_WINDOW_DIM: usize = 4096;

/// Undelivered events retained per window before the oldest are dropped.
pub const MAX_PENDING_EVENTS: usize = 256;

/// The answer to a call that is refused.
pub const REFUSED: u64 = 0xFFFF_FFFF_FFFF_FFFF;

// ── Ownership ───────────────────────────────────────────────────────────────

pub open spec fn with_id(id: u64) -> spec_fn(WindowModel) -> bool {
    |w: WindowModel| w.id == id
}

/// The window of that handle, if the caller made it, or -1: a caller cannot
/// tell a handle that belongs to somebody else from one that is not live.
pub open spec fn owned_at(ws: Seq<WindowModel>, id: u64, pid: Option<u64>) -> int {
    let i = manager::first_where(ws, with_id(id));
    if i < ws.len() && pid is Some && ws[i].owner_pid == pid {
        i
    } else {
        -1
    }
}

/// How many windows a process has.
pub open spec fn owned_count(ws: Seq<WindowModel>, pid: u64) -> nat
    decreases ws.len(),
{
    if ws.len() == 0 {
        0
    } else {
        owned_count(ws.drop_last(), pid) + if ws.last().owner_pid == Some(pid) {
            1nat
        } else {
            0
        }
    }
}

/// Look up a window the caller is allowed to touch.
fn owned_window_index(windows: &Vec<Window>, id: u64, pid: Option<u64>) -> (r: Option<usize>)
    ensures
        ({
            let i = owned_at(manager::windows_view(windows@), id, pid);
            r == manager::index(i, i >= 0) && (r matches Some(k) ==> k == i && k < windows@.len())
        }),
{
    let ghost ws = manager::windows_view(windows@);
    let mut i: usize = 0;
    while i < windows.len()
        invariant
            i <= windows@.len(),
            ws == manager::windows_view(windows@),
            forall|j: int| 0 <= j < i ==> (#[trigger] ws[j]).id != id,
        decreases windows@.len() - i,
    {
        assert(ws[i as int] == windows@[i as int]@);
        if windows[i].id == id {
            proof {
                manager::first_where_at(ws, with_id(id), i as int);
            }
            return match (windows[i].owner_pid, pid) {
                (Some(owner), Some(caller)) => if owner == caller {
                    Some(i)
                } else {
                    None
                },
                _ => None,
            };
        }
        i = i + 1;
    }
    proof {
        manager::first_where_at(ws, with_id(id), i as int);
    }
    None
}

/// Truncate userspace text on a character boundary so a huge string cannot be
/// used to exhaust the heap.
fn clamp_user_text(s: &str) -> (r: String)
    ensures
        r@ == text::clipped(s@, MAX_USER_TEXT_LEN as int),
{
    text::clip(s, MAX_USER_TEXT_LEN)
}

// ── Calls ───────────────────────────────────────────────────────────────────

pub open spec fn dim(n: usize, lo: int) -> usize {
    state::at_most(state::at_least(n as int, lo), MAX_USER_WINDOW_DIM as int) as usize
}

/// A process's new window, staggered by how many are open.
pub open spec fn user_window(n: int, pid: u64, title: Seq<char>, w: usize, h: usize) -> WindowModel {
    WindowModel {
        owner_pid: Some(pid),
        ..state::fresh_window(
            (100 + (n * 20) % 400) as i32,
            (100 + (n * 20) % 300) as i32,
            dim(w, 64),
            dim(h, 48),
            text::clipped(title, MAX_USER_TEXT_LEN as int),
        )
    }
}

pub open spec fn window_created(
    d: DesktopModel,
    pid: Option<u64>,
    title: Seq<char>,
    w: usize,
    h: usize,
) -> (DesktopModel, u64) {
    match pid {
        Some(p) if owned_count(d.wm.windows, p) < MAX_WINDOWS_PER_PROCESS => (
            DesktopModel {
                wm: manager::spawned(
                    d.wm,
                    user_window(d.wm.windows.len() as int, p, title, w, h),
                ),
                ..d
            }.redraw(),
            d.wm.next_id,
        ),
        _ => (d, REFUSED),
    }
}

#[verifier::rlimit(60)]
pub fn sys_create_window(
    desk: &mut Desktop,
    pid: Option<u64>,
    title: &str,
    w: usize,
    h: usize,
) -> (r: u64)
    requires
        old(desk)@.wf(),
    ensures
        (final(desk)@, r) == window_created(old(desk)@, pid, title@, w, h),
        final(desk)@.wf(),
{
    let pid = match pid {
        Some(p) => p,
        None => {
            return REFUSED;
        },
    };
    let title = clamp_user_text(title);
    let w: usize = if w < 64 {
        64
    } else if w > MAX_USER_WINDOW_DIM {
        MAX_USER_WINDOW_DIM
    } else {
        w
    };
    let h: usize = if h < 48 {
        48
    } else if h > MAX_USER_WINDOW_DIM {
        MAX_USER_WINDOW_DIM
    } else {
        h
    };
    let ghost ws = desk@.wm.windows;
    let mut owned: usize = 0;
    let mut i: usize = 0;
    assert(ws.take(0) =~= Seq::empty());
    while i < desk.wm.windows.len()
        invariant
            i <= desk.wm.windows@.len(),
            ws == desk@.wm.windows,
            owned == owned_count(ws.take(i as int), pid),
            owned <= i,
        decreases desk.wm.windows@.len() - i,
    {
        assert(ws.take(i + 1).drop_last() =~= ws.take(i as int));
        assert(ws[i as int] == desk.wm.windows@[i as int]@);
        if let Some(p) = desk.wm.windows[i].owner_pid {
            if p == pid {
                owned = owned + 1;
            }
        }
        i = i + 1;
    }
    assert(ws.take(i as int) =~= ws);
    if owned >= MAX_WINDOWS_PER_PROCESS {
        return REFUSED;
    }
    let n: usize = desk.wm.windows.len();
    proof {
        stagger(n as int);
    }
    let x: i32 = 100 + (n % 20) as i32 * 20;
    let y: i32 = 100 + (n % 15) as i32 * 20;
    let mut win = Window::new(x, y, w, h, title.as_str());
    win.owner_pid = Some(pid);
    let id: u64 = desk.wm.next_id;
    desk.wm.spawn(win);
    desk.dirty = true;
    id
}

proof fn stagger(n: int)
    requires
        n >= 0,
    ensures
        (n * 20) % 400 == (n % 20) * 20,
        (n * 20) % 300 == (n % 15) * 20,
{
}

/// A window with one widget more.
pub open spec fn extended(w: WindowModel, wgt: Widget<Seq<char>>) -> WindowModel {
    WindowModel { widgets: w.widgets.push(wgt), ..w }
}

pub open spec fn widget_added(
    d: DesktopModel,
    pid: Option<u64>,
    handle: u64,
    wgt: Widget<Seq<char>>,
) -> (DesktopModel, u64) {
    let i = owned_at(d.wm.windows, handle, pid);
    if i >= 0 && d.wm.windows[i].widgets.len() < MAX_WIDGETS_PER_WINDOW {
        (
            d.set_window(i, extended(d.wm.windows[i], wgt)).redraw(),
            d.wm.windows[i].widgets.len() as u64,
        )
    } else {
        (d, REFUSED)
    }
}

fn add_widget(desk: &mut Desktop, pid: Option<u64>, win_handle: u64, wgt: Widget) -> (r: u64)
    requires
        old(desk)@.wf(),
    ensures
        (final(desk)@, r) == widget_added(old(desk)@, pid, win_handle, wgt@),
        final(desk)@.wf(),
{
    match owned_window_index(&desk.wm.windows, win_handle, pid) {
        Some(i) => {
            let ghost before = desk.wm.windows@;
            assert(desk@.wm.windows[i as int] == before[i as int]@);
            assert(desk@.wm.windows[i as int].wf());
            if desk.wm.windows[i].widgets.len() >= MAX_WIDGETS_PER_WINDOW {
                return REFUSED;
            }
            let handle: u64 = desk.wm.windows[i].widgets.len() as u64;
            desk.wm.windows[i].widgets.push(wgt);
            proof {
                let w = desk.wm.windows@[i as int];
                assert(w@.widgets =~= before[i as int]@.widgets.push(wgt@));
                manager::view_updated(before, i as int, w);
            }
            desk.dirty = true;
            handle
        },
        None => REFUSED,
    }
}

pub fn sys_add_button(
    desk: &mut Desktop,
    pid: Option<u64>,
    win_handle: u64,
    x: usize,
    y: usize,
    w: usize,
    h: usize,
    text: &str,
    action_id: u64,
) -> (r: u64)
    requires
        old(desk)@.wf(),
    ensures
        (final(desk)@, r) == widget_added(
            old(desk)@,
            pid,
            win_handle,
            widget::button_of(
                x,
                y,
                dim(w, 0),
                dim(h, 0),
                text::clipped(text@, MAX_USER_TEXT_LEN as int),
                WinAction::User(action_id),
            ),
        ),
        final(desk)@.wf(),
{
    let text = clamp_user_text(text);
    let w: usize = if w > MAX_USER_WINDOW_DIM { MAX_USER_WINDOW_DIM } else { w };
    let h: usize = if h > MAX_USER_WINDOW_DIM { MAX_USER_WINDOW_DIM } else { h };
    let wgt = Widget::button(x, y, w, h, text.as_str(), WinAction::User(action_id));
    add_widget(desk, pid, win_handle, wgt)
}

pub fn sys_add_label(
    desk: &mut Desktop,
    pid: Option<u64>,
    win_handle: u64,
    x: usize,
    y: usize,
    text: &str,
) -> (r: u64)
    requires
        old(desk)@.wf(),
    ensures
        (final(desk)@, r) == widget_added(
            old(desk)@,
            pid,
            win_handle,
            widget::label_of(x, y, text::clipped(text@, MAX_USER_TEXT_LEN as int)),
        ),
        final(desk)@.wf(),
{
    let text = clamp_user_text(text);
    let wgt = Widget::label(x, y, text.as_str());
    add_widget(desk, pid, win_handle, wgt)
}

/// An event as the number that a program gets: its kind in the low byte, the
/// action above it. A zero is no event.
pub open spec fn encoded(action_id: u64) -> u64 {
    (action_id << 8) | 1
}

pub open spec fn event_taken(d: DesktopModel, pid: Option<u64>, handle: u64) -> (DesktopModel, u64) {
    let i = owned_at(d.wm.windows, handle, pid);
    if i < 0 {
        (d, REFUSED)
    } else if d.wm.windows[i].user_events.len() == 0 {
        (d, 0)
    } else {
        (
            d.set_window(
                i,
                WindowModel {
                    user_events: d.wm.windows[i].user_events.skip(1),
                    ..d.wm.windows[i]
                },
            ),
            encoded(d.wm.windows[i].user_events[0]),
        )
    }
}

/// The oldest event of a window. Without one this is a poll: it answers at
/// once, and programs yield between polls.
pub fn sys_get_event(desk: &mut Desktop, pid: Option<u64>, win_handle: u64) -> (r: u64)
    requires
        old(desk)@.wf(),
    ensures
        (final(desk)@, r) == event_taken(old(desk)@, pid, win_handle),
        final(desk)@.wf(),
{
    match owned_window_index(&desk.wm.windows, win_handle, pid) {
        Some(i) => {
            let ghost before = desk.wm.windows@;
            assert(desk@.wm.windows[i as int] == before[i as int]@);
            assert(desk@.wm.windows[i as int].wf());
            let event = events::dequeue(&mut desk.wm.windows[i].user_events);
            proof {
                let w = desk.wm.windows@[i as int];
                assert(w@.widgets =~= before[i as int]@.widgets);
                manager::view_updated(before, i as int, w);
                if event is None {
                    assert(w@ == before[i as int]@);
                    assert(manager::windows_view(before).update(i as int, before[i as int]@)
                        =~= manager::windows_view(before));
                }
            }
            match event {
                Some(action_id) => (action_id << 8) | 1,
                None => 0,
            }
        },
        None => REFUSED,
    }
}

pub open spec fn footer_set(d: DesktopModel, pid: Option<u64>, handle: u64, t: Seq<char>) -> (
    DesktopModel,
    u64,
) {
    let i = owned_at(d.wm.windows, handle, pid);
    if i >= 0 {
        (
            d.set_window(
                i,
                WindowModel {
                    footer: Some(text::clipped(t, MAX_USER_TEXT_LEN as int)),
                    ..d.wm.windows[i]
                },
            ).redraw(),
            0,
        )
    } else {
        (d, REFUSED)
    }
}

pub fn sys_set_footer(desk: &mut Desktop, pid: Option<u64>, win_handle: u64, text: &str) -> (r: u64)
    requires
        old(desk)@.wf(),
    ensures
        (final(desk)@, r) == footer_set(old(desk)@, pid, win_handle, text@),
        final(desk)@.wf(),
{
    let text = clamp_user_text(text);
    match owned_window_index(&desk.wm.windows, win_handle, pid) {
        Some(i) => {
            let ghost before = desk.wm.windows@;
            assert(desk@.wm.windows[i as int] == before[i as int]@);
            assert(desk@.wm.windows[i as int].wf());
            desk.wm.windows[i].footer = Some(text);
            proof {
                let w = desk.wm.windows@[i as int];
                assert(w@.widgets =~= before[i as int]@.widgets);
                manager::view_updated(before, i as int, w);
            }
            desk.dirty = true;
            0
        },
        None => REFUSED,
    }
}

/// A widget with the text a program gives it, where it has a text of its own
/// to show.
pub open spec fn retexted(wgt: Widget<Seq<char>>, t: Seq<char>) -> Widget<Seq<char>> {
    match wgt {
        Widget::Label { .. } => widget::with_text(wgt, t),
        Widget::Button { x, y, w, h, label: _, state, action, icon } => Widget::Button {
            x,
            y,
            w,
            h,
            label: t,
            state,
            action,
            icon,
        },
        Widget::TextBox { .. } => widget::with_text(wgt, t),
        Widget::TextArea { .. } => widget::with_text(wgt, t),
        other => other,
    }
}

pub open spec fn widget_updated(
    d: DesktopModel,
    pid: Option<u64>,
    handle: u64,
    which: u64,
    t: Seq<char>,
) -> (DesktopModel, u64) {
    let i = owned_at(d.wm.windows, handle, pid);
    if i >= 0 && which < d.wm.windows[i].widgets.len() {
        let w = d.wm.windows[i];
        (
            d.set_window(
                i,
                WindowModel {
                    widgets: w.widgets.update(
                        which as int,
                        retexted(
                            w.widgets[which as int],
                            text::clipped(t, MAX_USER_TEXT_LEN as int),
                        ),
                    ),
                    ..w
                },
            ).redraw(),
            0,
        )
    } else {
        (d, REFUSED)
    }
}

pub fn sys_update_widget(
    desk: &mut Desktop,
    pid: Option<u64>,
    win_handle: u64,
    widget_handle: u64,
    text: &str,
) -> (r: u64)
    requires
        old(desk)@.wf(),
    ensures
        (final(desk)@, r) == widget_updated(old(desk)@, pid, win_handle, widget_handle, text@),
        final(desk)@.wf(),
{
    let text = clamp_user_text(text);
    match owned_window_index(&desk.wm.windows, win_handle, pid) {
        Some(i) => {
            let ghost before = desk.wm.windows@;
            assert(desk@.wm.windows[i as int] == before[i as int]@);
            assert(desk@.wm.windows[i as int].wf());
            if widget_handle >= desk.wm.windows[i].widgets.len() as u64 {
                return REFUSED;
            }
            let k: usize = widget_handle as usize;
            set_widget_text(&mut desk.wm.windows[i], k, text);
            proof {
                manager::view_updated(before, i as int, desk.wm.windows@[i as int]);
            }
            desk.dirty = true;
            0
        },
        None => REFUSED,
    }
}

fn set_widget_text(win: &mut Window, k: usize, t: String)
    requires
        k < old(win)@.widgets.len(),
    ensures
        final(win)@ == (WindowModel {
            widgets: old(win)@.widgets.update(k as int, retexted(old(win)@.widgets[k as int], t@)),
            ..old(win)@
        }),
{
    match &mut win.widgets[k] {
        Widget::Label { text, .. } => {
            *text = t;
        },
        Widget::Button { label, .. } => {
            *label = t;
        },
        Widget::TextBox { text, .. } => {
            *text = t;
        },
        Widget::TextArea { text, .. } => {
            *text = t;
        },
        _ => {},
    }
    assert(win@.widgets =~= old(win)@.widgets.update(
        k as int,
        retexted(old(win)@.widgets[k as int], t@),
    ));
}

pub open spec fn not_of(pid: u64) -> spec_fn(WindowModel) -> bool {
    |w: WindowModel| w.owner_pid != Some(pid)
}

/// The desktop without the windows of a process. A removed window shifts
/// every later one, so a drag in flight ends.
pub open spec fn process_gone(d: DesktopModel, pid: u64) -> DesktopModel {
    if owned_count(d.wm.windows, pid) > 0 {
        DesktopModel {
            wm: ManagerModel {
                windows: d.wm.windows.filter(not_of(pid)),
                dragging: None,
                ..d.wm
            },
            ..d
        }.redraw()
    } else {
        d
    }
}

/// Close every window belonging to `pid`. Called during process teardown.
#[verifier::rlimit(60)]
pub fn close_windows_for_pid(desk: &mut Desktop, pid: u64)
    requires
        old(desk)@.wf(),
    ensures
        final(desk)@ == process_gone(old(desk)@, pid),
        final(desk)@.wf(),
{
    let ghost d0 = desk@;
    let ghost ws = desk@.wm.windows;
    let ghost all = desk.wm.windows@;
    let before: usize = desk.wm.windows.len();
    let mut i: usize = 0;
    let ghost mut seen: int = 0;
    assert(ws.take(0).filter(not_of(pid)) =~= Seq::empty()) by {
        reveal(Seq::filter);
    }
    assert(ws.take(0) =~= Seq::empty());
    assert(ws.skip(0) =~= ws);
    while i < desk.wm.windows.len()
        invariant
            d0 == old(desk)@,
            d0.wf(),
            ws == d0.wm.windows,
            0 <= seen <= ws.len(),
            i <= desk.wm.windows@.len(),
            desk.wm.windows@.len() - i == ws.len() - seen,
            desk@ == (DesktopModel {
                wm: ManagerModel { windows: desk@.wm.windows, ..d0.wm },
                ..d0
            }),
            desk@.wm.windows.take(i as int) == ws.take(seen).filter(not_of(pid)),
            desk@.wm.windows.skip(i as int) == ws.skip(seen),
            owned_count(ws.take(seen), pid) == seen - i,
        decreases desk.wm.windows@.len() - i,
    {
        let ghost cur = desk@.wm.windows;
        proof {
            assert(ws.take(seen + 1).drop_last() =~= ws.take(seen));
            assert(cur[i as int] == cur.skip(i as int)[0]);
            assert(ws.skip(seen)[0] == ws[seen]);
            assert(cur[i as int] == desk.wm.windows@[i as int]@);
            assert(ws.skip(seen).skip(1) =~= ws.skip(seen + 1));
            assert(cur.skip(i as int).skip(1) =~= cur.skip(i + 1));
            reveal(Seq::filter);
        }
        let mine = match desk.wm.windows[i].owner_pid {
            Some(p) => p == pid,
            None => false,
        };
        if mine {
            desk.wm.windows.remove(i);
            proof {
                assert(desk@.wm.windows =~= cur.remove(i as int));
                assert(desk@.wm.windows.take(i as int) =~= cur.take(i as int));
                assert(desk@.wm.windows.skip(i as int) =~= cur.skip(i + 1));
                seen = seen + 1;
            }
        } else {
            proof {
                assert(cur.take(i + 1) =~= cur.take(i as int).push(cur[i as int]));
                seen = seen + 1;
            }
            i = i + 1;
        }
    }
    proof {
        assert(ws.take(seen) =~= ws);
        assert(desk@.wm.windows.take(i as int) =~= desk@.wm.windows);
        if owned_count(ws, pid) == 0 {
            none_owned(ws, pid);
        }
        filter_keeps_wf(ws, pid, d0.wm.next_id);
    }
    if desk.wm.windows.len() != before {
        desk.wm.dragging = None;
        desk.dirty = true;
    }
}

proof fn none_owned(ws: Seq<WindowModel>, pid: u64)
    requires
        owned_count(ws, pid) == 0,
    ensures
        ws.filter(not_of(pid)) == ws,
    decreases ws.len(),
{
    reveal(Seq::filter);
    if ws.len() > 0 {
        none_owned(ws.drop_last(), pid);
        assert(ws.drop_last().push(ws.last()) =~= ws);
    } else {
        assert(ws.filter(not_of(pid)) =~= ws);
    }
}

proof fn filter_keeps_wf(ws: Seq<WindowModel>, pid: u64, next: u64)
    requires
        forall|i: int|
            0 <= i < ws.len() ==> (#[trigger] ws[i]).wf() && manager::handed_out(ws[i].id, next),
    ensures
        forall|i: int|
            0 <= i < ws.filter(not_of(pid)).len() ==> (#[trigger] ws.filter(not_of(pid))[i]).wf()
                && ws.filter(not_of(pid))[i].owner_pid != Some(pid) && manager::handed_out(
                ws.filter(not_of(pid))[i].id,
                next,
            ),
    decreases ws.len(),
{
    reveal(Seq::filter);
    if ws.len() > 0 {
        assert forall|i: int| 0 <= i < ws.drop_last().len() implies (
        #[trigger] ws.drop_last()[i]).wf() && manager::handed_out(ws.drop_last()[i].id, next) by {
            assert(ws[i].wf());
        }
        filter_keeps_wf(ws.drop_last(), pid, next);
        assert(ws.last() == ws[ws.len() - 1]);
    }
}

// ── Delivering clicks ───────────────────────────────────────────────────────

/// A queue with one event more, the oldest dropped to keep within the limit.
pub open spec fn delivered(q: Seq<u64>, action_id: u64) -> Seq<u64> {
    if q.len() >= MAX_PENDING_EVENTS {
        q.skip(q.len() - MAX_PENDING_EVENTS + 1).push(action_id)
    } else {
        q.push(action_id)
    }
}

/// Queue a button click for the program of the top window; the result is the
/// handle of the window whose sleeper is to be woken.
pub fn deliver_click(desk: &mut Desktop, action_id: u64) -> (r: Option<u64>)
    requires
        old(desk)@.wf(),
    ensures
        ({
            let d = old(desk)@;
            let t = manager::top(d.wm);
            if t >= 0 {
                let w = d.wm.windows[t];
                &&& final(desk)@ == d.set_window(
                    t,
                    WindowModel { user_events: delivered(w.user_events, action_id), ..w },
                )
                &&& r == (if w.id != 0 {
                    Some(w.id)
                } else {
                    None
                })
            } else {
                final(desk)@ == d && r is None
            }
        }),
        final(desk)@.wf(),
{
    match desk.wm.topmost_idx() {
        Some(t) => {
            let ghost before = desk.wm.windows@;
            assert(desk@.wm.windows[t as int] == before[t as int]@);
            assert(desk@.wm.windows[t as int].wf());
            deliver(&mut desk.wm.windows[t], action_id);
            proof {
                manager::view_updated(before, t as int, desk.wm.windows@[t as int]);
            }
            let id: u64 = desk.wm.windows[t].id;
            if id != 0 {
                Some(id)
            } else {
                None
            }
        },
        None => None,
    }
}

fn deliver(win: &mut Window, action_id: u64)
    ensures
        final(win)@ == (WindowModel {
            user_events: delivered(old(win)@.user_events, action_id),
            ..old(win)@
        }),
        final(win).id == old(win).id,
{
    let ghost q0 = events::queued(win.user_events);
    let ghost w0 = *win;
    let mut n: usize = events::queue_len(&win.user_events);
    let ghost n0 = n;
    assert(q0.skip(0) =~= q0);
    while n >= MAX_PENDING_EVENTS
        invariant
            n <= n0,
            n0 == q0.len(),
            n == events::queued(win.user_events).len(),
            n < n0 ==> n >= MAX_PENDING_EVENTS - 1,
            events::queued(win.user_events) == q0.skip(n0 - n),
            *win == (Window { user_events: win.user_events, ..w0 }),
        decreases n,
    {
        let ghost cur = events::queued(win.user_events);
        let _ = events::dequeue(&mut win.user_events);
        assert(cur.skip(1) =~= q0.skip(n0 - n + 1));
        n = n - 1;
    }
    events::enqueue(&mut win.user_events, action_id);
}

// ── Laws ────────────────────────────────────────────────────────────────────

/// A program decodes the event that was put in, as long as its action fits
/// above the kind byte.
pub proof fn events_decode(action_id: u64)
    requires
        action_id < 0x100_0000_0000_0000,
    ensures
        encoded(action_id) != 0,
        encoded(action_id) & 0xFF == 1,
        encoded(action_id) >> 8 == action_id,
        encoded(action_id) != REFUSED,
{
    assert(((action_id << 8) | 1) != 0 && ((action_id << 8) | 1) & 0xFF == 1 && ((action_id << 8)
        | 1) >> 8 == action_id && ((action_id << 8) | 1) != 0xFFFF_FFFF_FFFF_FFFF) by (bit_vector)
        requires
            action_id < 0x100_0000_0000_0000u64,
    ;
}

/// No call of one process changes a window that another made, or one that no
/// process made.
pub proof fn calls_touch_only_the_callers_windows(
    d: DesktopModel,
    pid: Option<u64>,
    handle: u64,
    which: u64,
    t: Seq<char>,
    wgt: Widget<Seq<char>>,
    w: usize,
    h: usize,
    j: int,
)
    requires
        0 <= j < d.wm.windows.len(),
        pid is None || d.wm.windows[j].owner_pid != pid,
    ensures
        widget_added(d, pid, handle, wgt).0.wm.windows[j] == d.wm.windows[j],
        event_taken(d, pid, handle).0.wm.windows[j] == d.wm.windows[j],
        footer_set(d, pid, handle, t).0.wm.windows[j] == d.wm.windows[j],
        widget_updated(d, pid, handle, which, t).0.wm.windows[j] == d.wm.windows[j],
        window_created(d, pid, t, w, h).0.wm.windows[j] == d.wm.windows[j],
{
    manager::first_where_bounds(d.wm.windows, with_id(handle));
}

/// A caller learns the same of somebody else's window as of none at all.
pub proof fn foreign_handles_look_dead(
    d: DesktopModel,
    pid: Option<u64>,
    handle: u64,
    which: u64,
    t: Seq<char>,
    wgt: Widget<Seq<char>>,
)
    requires
        owned_at(d.wm.windows, handle, pid) < 0,
    ensures
        widget_added(d, pid, handle, wgt) == (d, REFUSED),
        event_taken(d, pid, handle) == (d, REFUSED),
        footer_set(d, pid, handle, t) == (d, REFUSED),
        widget_updated(d, pid, handle, which, t) == (d, REFUSED),
{
}

/// Within the limits on what a process may hold.
pub open spec fn within_quota(d: DesktopModel) -> bool {
    &&& forall|p: u64| #[trigger] owned_count(d.wm.windows, p) <= MAX_WINDOWS_PER_PROCESS
    &&& forall|i: int|
        0 <= i < d.wm.windows.len() && (#[trigger] d.wm.windows[i]).owner_pid is Some
            ==> d.wm.windows[i].widgets.len() <= MAX_WIDGETS_PER_WINDOW
            && d.wm.windows[i].user_events.len() <= MAX_PENDING_EVENTS
}

proof fn count_updated(ws: Seq<WindowModel>, i: int, w: WindowModel, pid: u64)
    requires
        0 <= i < ws.len(),
        w.owner_pid == ws[i].owner_pid,
    ensures
        owned_count(ws.update(i, w), pid) == owned_count(ws, pid),
    decreases ws.len(),
{
    if i < ws.len() - 1 {
        assert(ws.update(i, w).drop_last() =~= ws.drop_last().update(i, w));
        count_updated(ws.drop_last(), i, w, pid);
    } else {
        assert(ws.update(i, w).drop_last() =~= ws.drop_last());
    }
}

/// Every allocation a call can trigger is bounded: no call takes the desktop
/// past the limits, and no text it stores is longer than allowed.
#[verifier::rlimit(60)]
pub proof fn calls_stay_within_quota(
    d: DesktopModel,
    pid: Option<u64>,
    handle: u64,
    which: u64,
    t: Seq<char>,
    wgt: Widget<Seq<char>>,
    w: usize,
    h: usize,
)
    requires
        within_quota(d),
    ensures
        within_quota(window_created(d, pid, t, w, h).0),
        within_quota(widget_added(d, pid, handle, wgt).0),
        within_quota(event_taken(d, pid, handle).0),
        within_quota(footer_set(d, pid, handle, t).0),
        within_quota(widget_updated(d, pid, handle, which, t).0),
{
    let ws = d.wm.windows;
    let i = owned_at(ws, handle, pid);
    manager::first_where_bounds(ws, with_id(handle));
    assert forall|p: u64| true implies #[trigger] owned_count(
        window_created(d, pid, t, w, h).0.wm.windows,
        p,
    ) <= MAX_WINDOWS_PER_PROCESS by {
        let e = window_created(d, pid, t, w, h).0;
        assert(owned_count(ws, p) <= MAX_WINDOWS_PER_PROCESS);
        if e.wm.windows.len() > ws.len() {
            assert(e.wm.windows.drop_last() =~= ws);
        }
    }
    if i >= 0 {
        let cur = ws[i];
        let a = extended(cur, wgt);
        let b = WindowModel { user_events: cur.user_events.skip(1), ..cur };
        let c = WindowModel {
            footer: Some(text::clipped(t, MAX_USER_TEXT_LEN as int)),
            ..cur
        };
        let e = WindowModel {
            widgets: cur.widgets.update(
                which as int,
                retexted(
                    cur.widgets[which as int],
                    text::clipped(t, MAX_USER_TEXT_LEN as int),
                ),
            ),
            ..cur
        };
        assert forall|p: u64| true implies #[trigger] owned_count(ws.update(i, a), p)
            <= MAX_WINDOWS_PER_PROCESS by {
            count_updated(ws, i, a, p);
        }
        assert forall|p: u64| true implies #[trigger] owned_count(ws.update(i, b), p)
            <= MAX_WINDOWS_PER_PROCESS by {
            count_updated(ws, i, b, p);
        }
        assert forall|p: u64| true implies #[trigger] owned_count(ws.update(i, c), p)
            <= MAX_WINDOWS_PER_PROCESS by {
            count_updated(ws, i, c, p);
        }
        assert forall|p: u64| true implies #[trigger] owned_count(ws.update(i, e), p)
            <= MAX_WINDOWS_PER_PROCESS by {
            count_updated(ws, i, e, p);
        }
    }
}

/// A click that waits is what the window's program gets next, after all that
/// waited before it.
pub proof fn clicks_arrive_in_order(q: Seq<u64>, action_id: u64)
    ensures
        delivered(q, action_id).len() <= MAX_PENDING_EVENTS,
        delivered(q, action_id).last() == action_id,
        q.len() < MAX_PENDING_EVENTS ==> delivered(q, action_id).drop_last() == q,
{
    if q.len() < MAX_PENDING_EVENTS {
        assert(delivered(q, action_id).drop_last() =~= q);
    }
}

/// Nothing of a process that is gone stays on the desktop, and every other
/// window does.
pub proof fn teardown_is_complete(d: DesktopModel, pid: u64, i: int)
    requires
        d.wf(),
        0 <= i < process_gone(d, pid).wm.windows.len(),
    ensures
        process_gone(d, pid).wm.windows == d.wm.windows.filter(not_of(pid)),
        process_gone(d, pid).wm.windows[i].owner_pid != Some(pid),
{
    if owned_count(d.wm.windows, pid) == 0 {
        none_owned(d.wm.windows, pid);
    }
    filter_keeps_wf(d.wm.windows, pid, d.wm.next_id);
}

/// A window that a program asks for is what it asked for: in front, with its
/// title as far as there is room, as large as it said within the limits, and
/// its handle leads to it.
pub proof fn windows_are_made_as_asked(
    d: DesktopModel,
    pid: u64,
    title: Seq<char>,
    w: usize,
    h: usize,
)
    requires
        d.wf(),
        d.wm.next_id < u64::MAX,
        owned_count(d.wm.windows, pid) < 8,
        text::byte_len(title) <= 256,
    ensures
        ({
            let (e, handle) = window_created(d, Some(pid), title, w, h);
            let i = d.wm.windows.len() as int;
            let win = e.wm.windows[i];
            &&& e.wm.windows.len() == i + 1
            &&& owned_at(e.wm.windows, handle, Some(pid)) == i
            &&& win.id == handle
            &&& win.owner_pid == Some(pid)
            &&& win.title == title
            &&& win.widgets.len() == 0
            &&& win.user_events.len() == 0
            &&& !win.minimized
            &&& 64 <= w <= 4096 ==> win.w == w
            &&& 48 <= h <= 4096 ==> win.h == h
            &&& 64 <= win.w <= 4096 && 48 <= win.h <= 4096
            &&& e.dirty
        }),
{
    let (e, handle) = window_created(d, Some(pid), title, w, h);
    let i = d.wm.windows.len() as int;
    let ws = e.wm.windows;
    assert forall|j: int| 0 <= j < i implies !with_id(handle)(#[trigger] ws[j]) by {
        assert(ws[j] == d.wm.windows[j]);
        assert(manager::handed_out(d.wm.windows[j].id, d.wm.next_id));
    }
    manager::first_where_at(ws, with_id(handle), i);
    if title.len() > 0 {
        assert(text::clipped(title, 256) == title);
    }
}

/// A program has at most so many windows, and no process has any made for it
/// without a number of its own.
pub proof fn windows_are_refused_beyond_the_quota(
    d: DesktopModel,
    pid: Option<u64>,
    title: Seq<char>,
    w: usize,
    h: usize,
)
    requires
        pid is None || owned_count(d.wm.windows, pid->0) >= 8,
    ensures
        window_created(d, pid, title, w, h) == (d, 0xFFFF_FFFF_FFFF_FFFFu64),
{
}

/// A widget is put behind the others of its window, and the answer is its
/// number there.
pub proof fn widgets_are_added_behind_the_others(
    d: DesktopModel,
    pid: Option<u64>,
    handle: u64,
    wgt: Widget<Seq<char>>,
    j: int,
)
    requires
        d.wf(),
        owned_at(d.wm.windows, handle, pid) >= 0,
        d.wm.windows[owned_at(d.wm.windows, handle, pid)].widgets.len() < 128,
        0 <= j < d.wm.windows[owned_at(d.wm.windows, handle, pid)].widgets.len(),
    ensures
        ({
            let i = owned_at(d.wm.windows, handle, pid);
            let (e, n) = widget_added(d, pid, handle, wgt);
            &&& n == d.wm.windows[i].widgets.len()
            &&& e.wm.windows[i].widgets.len() == n + 1
            &&& e.wm.windows[i].widgets[n as int] == wgt
            &&& e.wm.windows[i].widgets[j] == d.wm.windows[i].widgets[j]
            &&& e.wm.windows[i].title == d.wm.windows[i].title
            &&& e.dirty
        }),
{
    manager::first_where_bounds(d.wm.windows, with_id(handle));
}

/// A program that sets the text of one of its widgets changes that text and
/// nothing else: what it is, where it is and what it does stay.
pub proof fn widget_texts_are_set_alone(
    d: DesktopModel,
    pid: Option<u64>,
    handle: u64,
    which: u64,
    t: Seq<char>,
    j: int,
)
    requires
        owned_at(d.wm.windows, handle, pid) >= 0,
        which < d.wm.windows[owned_at(d.wm.windows, handle, pid)].widgets.len(),
        0 <= j < d.wm.windows[owned_at(d.wm.windows, handle, pid)].widgets.len(),
        text::byte_len(t) <= 256,
    ensures
        ({
            let i = owned_at(d.wm.windows, handle, pid);
            let (e, r) = widget_updated(d, pid, handle, which, t);
            let before = d.wm.windows[i].widgets;
            let after = e.wm.windows[i].widgets;
            &&& r == 0
            &&& after.len() == before.len()
            &&& j != which ==> after[j] == before[j]
            &&& widget::bounds_of(after[which as int]) == widget::bounds_of(before[which as int])
            &&& before[which as int] is Label ==> after[which as int] is Label
                && after[which as int]->Label_text == t
            &&& before[which as int] is Button ==> after[which as int] is Button
                && after[which as int]->Button_label == t && after[which as int]->Button_action
                == before[which as int]->Button_action
        }),
{
    manager::first_where_bounds(d.wm.windows, with_id(handle));
    if t.len() > 0 {
        assert(text::clipped(t, 256) == t);
    }
}

/// The footer that a program sets is shown, and nothing else changes.
pub proof fn footers_are_set(d: DesktopModel, pid: Option<u64>, handle: u64, t: Seq<char>)
    requires
        owned_at(d.wm.windows, handle, pid) >= 0,
        text::byte_len(t) <= 256,
    ensures
        ({
            let i = owned_at(d.wm.windows, handle, pid);
            let (e, r) = footer_set(d, pid, handle, t);
            &&& r == 0
            &&& e.wm.windows[i] == (WindowModel { footer: Some(t), ..d.wm.windows[i] })
        }),
{
    manager::first_where_bounds(d.wm.windows, with_id(handle));
    if t.len() > 0 {
        assert(text::clipped(t, 256) == t);
    }
}

/// Events are taken in the order they were queued, each once; with none left
/// the answer is zero and nothing changes.
pub proof fn events_are_taken_once(d: DesktopModel, pid: Option<u64>, handle: u64)
    requires
        owned_at(d.wm.windows, handle, pid) >= 0,
    ensures
        ({
            let i = owned_at(d.wm.windows, handle, pid);
            let q = d.wm.windows[i].user_events;
            let (e, r) = event_taken(d, pid, handle);
            &&& q.len() == 0 ==> e == d && r == 0
            &&& q.len() > 0 ==> r == encoded(q[0]) && q == seq![q[0]]
                + e.wm.windows[i].user_events
            &&& e.wm.windows[i].widgets == d.wm.windows[i].widgets
        }),
{
    manager::first_where_bounds(d.wm.windows, with_id(handle));
    let q = d.wm.windows[owned_at(d.wm.windows, handle, pid)].user_events;
    if q.len() > 0 {
        assert(q =~= seq![q[0]] + q.skip(1));
    }
}

/// A handle leads to a window of the caller's, the one that has it; a process
/// reaches each of its windows by its own handle.
pub proof fn handles_lead_to_their_window(d: DesktopModel, i: int, pid: u64)
    requires
        d.wf(),
        0 <= i < d.wm.windows.len(),
        d.wm.windows[i].owner_pid == Some(pid),
        forall|j: int|
            0 <= j < i ==> (#[trigger] d.wm.windows[j]).id != d.wm.windows[i].id,
    ensures
        owned_at(d.wm.windows, d.wm.windows[i].id, Some(pid)) == i,
{
    manager::first_where_at(d.wm.windows, with_id(d.wm.windows[i].id), i);
}

} // verus!
