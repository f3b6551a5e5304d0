//! The window manager and the desktop around it.

use vstd::prelude::*;

use crate::text;
use crate::window::state;
use crate::window::state::{Window, SPAN};
use crate::window::widget;
use crate::window::widget::{FileDialogTarget, Widget, WindowKind};

verus! {

pub struct WindowManager {
    pub windows: Vec<Window>,
    /// The window being dragged and where in it the pointer took hold.
    pub dragging: Option<(usize, i32, i32)>,
    pub last_mouse: (i32, i32),
    pub mouse_left_down: bool,
    /// The next window's handle. Handles are never reused, so that moving
    /// windows about does not change what a handle means.
    pub next_id: u64,
}

pub ghost struct ManagerModel {
    pub windows: Seq<state::WindowModel>,
    pub dragging: Option<(usize, i32, i32)>,
    pub last_mouse: (i32, i32),
    pub mouse_left_down: bool,
    pub next_id: u64,
}

pub open spec fn windows_view(v: Seq<Window>) -> Seq<state::WindowModel> {
    v.map_values(|w: Window| w@)
}

impl View for WindowManager {
    type V = ManagerModel;

    open spec fn view(&self) -> ManagerModel {
        ManagerModel {
            windows: windows_view(self.windows@),
            dragging: self.dragging,
            last_mouse: self.last_mouse,
            mouse_left_down: self.mouse_left_down,
            next_id: self.next_id,
        }
    }
}

pub open spec fn on_screen(p: (i32, i32)) -> bool {
    0 <= p.0 < SPAN && 0 <= p.1 < SPAN
}

impl ManagerModel {
    pub open spec fn wf(self) -> bool {
        &&& forall|i: int| 0 <= i < self.windows.len() ==> (#[trigger] self.windows[i]).wf()
        &&& self.dragging matches Some((_, ox, oy)) ==> on_screen((ox, oy))
        &&& on_screen(self.last_mouse)
        &&& forall|i: int|
            0 <= i < self.windows.len() ==> handed_out((#[trigger] self.windows[i]).id, self.next_id)
    }
}

/// Whether a handle has been given to a window already, `next` being the one
/// for the next window. There is a last handle.
pub open spec fn handed_out(id: u64, next: u64) -> bool {
    id < next || next == u64::MAX
}

// ── Searching the window list ───────────────────────────────────────────────

/// The last window for which `p` holds, or -1.
pub open spec fn last_where(
    ws: Seq<state::WindowModel>,
    p: spec_fn(state::WindowModel) -> bool,
) -> int
    decreases ws.len(),
{
    if ws.len() == 0 {
        -1
    } else if p(ws.last()) {
        ws.len() - 1
    } else {
        last_where(ws.drop_last(), p)
    }
}

/// The first window for which `p` holds, or the number of windows.
pub open spec fn first_where(
    ws: Seq<state::WindowModel>,
    p: spec_fn(state::WindowModel) -> bool,
) -> int
    decreases ws.len(),
{
    if ws.len() == 0 || p(ws[0]) {
        0
    } else {
        1 + first_where(ws.skip(1), p)
    }
}

pub proof fn last_where_at(
    ws: Seq<state::WindowModel>,
    p: spec_fn(state::WindowModel) -> bool,
    i: int,
)
    requires
        -1 <= i < ws.len(),
        i >= 0 ==> p(ws[i]),
        forall|j: int| i < j < ws.len() ==> !p(#[trigger] ws[j]),
    ensures
        last_where(ws, p) == i,
    decreases ws.len(),
{
    if i < ws.len() - 1 {
        assert(!p(ws[ws.len() - 1]));
        assert forall|j: int| i < j < ws.drop_last().len() implies !p(
            #[trigger] ws.drop_last()[j],
        ) by {
            assert(ws.drop_last()[j] == ws[j]);
        }
        last_where_at(ws.drop_last(), p, i);
    }
}

pub proof fn last_where_bounds(
    ws: Seq<state::WindowModel>,
    p: spec_fn(state::WindowModel) -> bool,
)
    ensures
        -1 <= last_where(ws, p) < ws.len(),
        last_where(ws, p) >= 0 ==> p(ws[last_where(ws, p)]),
    decreases ws.len(),
{
    if ws.len() > 0 && !p(ws.last()) {
        last_where_bounds(ws.drop_last(), p);
    }
}

pub proof fn first_where_at(
    ws: Seq<state::WindowModel>,
    p: spec_fn(state::WindowModel) -> bool,
    i: int,
)
    requires
        0 <= i <= ws.len(),
        i < ws.len() ==> p(ws[i]),
        forall|j: int| 0 <= j < i ==> !p(#[trigger] ws[j]),
    ensures
        first_where(ws, p) == i,
    decreases ws.len(),
{
    if i > 0 {
        assert(!p(ws[0]));
        assert forall|j: int| 0 <= j < i - 1 implies !p(#[trigger] ws.skip(1)[j]) by {
            assert(ws.skip(1)[j] == ws[j + 1]);
        }
        first_where_at(ws.skip(1), p, i - 1);
    }
}

pub proof fn first_where_bounds(
    ws: Seq<state::WindowModel>,
    p: spec_fn(state::WindowModel) -> bool,
)
    ensures
        0 <= first_where(ws, p) <= ws.len(),
        first_where(ws, p) < ws.len() ==> p(ws[first_where(ws, p)]),
        forall|j: int| 0 <= j < first_where(ws, p) ==> !p(#[trigger] ws[j]),
    decreases ws.len(),
{
    if ws.len() > 0 && !p(ws[0]) {
        first_where_bounds(ws.skip(1), p);
        assert forall|j: int| 0 <= j < first_where(ws, p) implies !p(#[trigger] ws[j]) by {
            if j > 0 {
                assert(ws.skip(1)[j - 1] == ws[j]);
            }
        }
    }
}

pub open spec fn shown() -> spec_fn(state::WindowModel) -> bool {
    |w: state::WindowModel| !w.minimized
}

pub open spec fn of_kind(k: WindowKind) -> spec_fn(state::WindowModel) -> bool {
    |w: state::WindowModel| w.kind == k
}

pub open spec fn under(px: int, py: int) -> spec_fn(state::WindowModel) -> bool {
    |w: state::WindowModel| state::inside(w, px, py)
}

/// The topmost window that is shown, or -1.
pub open spec fn top(m: ManagerModel) -> int {
    last_where(m.windows, shown())
}

/// The topmost window under a point, or -1.
pub open spec fn top_at(m: ManagerModel, px: int, py: int) -> int {
    last_where(m.windows, under(px, py))
}

/// The lowest window of a kind, or the number of windows.
pub open spec fn first_of(m: ManagerModel, k: WindowKind) -> int {
    first_where(m.windows, of_kind(k))
}

/// The topmost window of a kind, or -1.
pub open spec fn last_of(m: ManagerModel, k: WindowKind) -> int {
    last_where(m.windows, of_kind(k))
}

pub open spec fn index(i: int, found: bool) -> Option<usize> {
    if found {
        Some(i as usize)
    } else {
        None
    }
}

// ── Changing it ─────────────────────────────────────────────────────────────

/// The window at `i` shown again and put on top of all others.
pub open spec fn raised(m: ManagerModel, i: int) -> ManagerModel {
    if 0 <= i < m.windows.len() {
        ManagerModel {
            windows: m.windows.remove(i).push(
                state::WindowModel { minimized: false, ..m.windows[i] },
            ),
            ..m
        }
    } else {
        m
    }
}

/// A new window on top, under the next handle.
pub open spec fn spawned(m: ManagerModel, w: state::WindowModel) -> ManagerModel {
    ManagerModel {
        windows: m.windows.push(state::WindowModel { id: m.next_id, ..w }),
        next_id: if m.next_id < u64::MAX {
            (m.next_id + 1) as u64
        } else {
            u64::MAX
        },
        ..m
    }
}

/// Handles are not reused: a new window's is larger than those of all open
/// windows, and what is handed out later is larger still.
pub proof fn handles_are_not_reused(m: ManagerModel, w: state::WindowModel, i: int)
    requires
        m.wf(),
        m.next_id < u64::MAX,
        0 <= i < m.windows.len(),
    ensures
        ({
            let e = spawned(m, w);
            &&& m.windows[i].id < e.windows.last().id
            &&& e.windows.last().id < e.next_id
            &&& e.windows[i].id == m.windows[i].id
        }),
{
}

pub open spec fn replaced(m: ManagerModel, i: int, w: state::WindowModel) -> ManagerModel {
    ManagerModel { windows: m.windows.update(i, w), ..m }
}

pub proof fn view_updated(s: Seq<Window>, i: int, w: Window)
    requires
        0 <= i < s.len(),
    ensures
        windows_view(s.update(i, w)) == windows_view(s).update(i, w@),
{
    assert(windows_view(s.update(i, w)) =~= windows_view(s).update(i, w@));
}

impl WindowManager {
    pub fn new() -> (r: Self)
        ensures
            r@ == (ManagerModel {
                windows: Seq::empty(),
                dragging: None,
                last_mouse: (0, 0),
                mouse_left_down: false,
                next_id: 1,
            }),
            r@.wf(),
    {
        let r = WindowManager {
            windows: Vec::new(),
            dragging: None,
            last_mouse: (0, 0),
            mouse_left_down: false,
            next_id: 1,
        };
        assert(r@.windows =~= Seq::empty());
        r
    }

    pub fn clear(&mut self)
        ensures
            final(self)@ == (ManagerModel { windows: Seq::empty(), dragging: None, ..old(self)@ }),
    {
        self.windows.clear();
        self.dragging = None;
        assert(self@.windows =~= Seq::empty());
    }

    pub fn spawn(&mut self, w: Window)
        ensures
            final(self)@ == spawned(old(self)@, w@),
            old(self)@.wf() && w@.wf() ==> final(self)@.wf(),
    {
        let mut w = w;
        w.id = self.next_id;
        if self.next_id < u64::MAX {
            self.next_id = self.next_id + 1;
        }
        self.windows.push(w);
        assert(self@.windows =~= spawned(old(self)@, w@).windows);
    }

    pub fn topmost_at(&self, px: i32, py: i32) -> (r: Option<usize>)
        requires
            self@.wf(),
        ensures
            r == index(top_at(self@, px as int, py as int), top_at(self@, px as int, py as int) >= 0),
            r matches Some(i) ==> i < self.windows@.len() && i == top_at(self@, px as int, py as int)
                && state::inside(self@.windows[i as int], px as int, py as int),
    {
        let mut i: usize = self.windows.len();
        while i > 0
            invariant
                i <= self.windows@.len(),
                self@.wf(),
                forall|j: int|
                    i <= j < self.windows@.len() ==> !state::inside(
                        #[trigger] self@.windows[j],
                        px as int,
                        py as int,
                    ),
            decreases i,
        {
            assert(self@.windows[i - 1].wf());
            if self.windows[i - 1].contains(px, py) {
                proof {
                    last_where_at(self@.windows, under(px as int, py as int), i - 1);
                }
                return Some(i - 1);
            }
            i = i - 1;
        }
        proof {
            last_where_at(self@.windows, under(px as int, py as int), -1);
        }
        None
    }

    pub fn topmost_idx(&self) -> (r: Option<usize>)
        ensures
            r == index(top(self@), top(self@) >= 0),
            r matches Some(i) ==> i < self.windows@.len() && i == top(self@),
    {
        let mut i: usize = self.windows.len();
        while i > 0
            invariant
                i <= self.windows@.len(),
                forall|j: int|
                    i <= j < self.windows@.len() ==> (#[trigger] self@.windows[j]).minimized,
            decreases i,
        {
            assert(self@.windows[i - 1].minimized == self.windows@[i - 1].minimized);
            if !self.windows[i - 1].minimized {
                proof {
                    last_where_at(self@.windows, shown(), i - 1);
                }
                return Some(i - 1);
            }
            i = i - 1;
        }
        proof {
            last_where_at(self@.windows, shown(), -1);
        }
        None
    }

    /// The lowest window of a kind.
    pub fn find_kind(&self, kind: WindowKind) -> (r: Option<usize>)
        ensures
            r == index(first_of(self@, kind), first_of(self@, kind) < self.windows@.len()),
            r matches Some(i) ==> i < self.windows@.len() && i == first_of(self@, kind)
                && self.windows@[i as int].kind == kind,
            r is None ==> first_of(self@, kind) == self.windows@.len(),
    {
        let mut i: usize = 0;
        while i < self.windows.len()
            invariant
                i <= self.windows@.len(),
                forall|j: int| 0 <= j < i ==> (#[trigger] self@.windows[j]).kind != kind,
            decreases self.windows@.len() - i,
        {
            assert(self@.windows[i as int].kind == self.windows@[i as int].kind);
            if self.windows[i].kind == kind {
                proof {
                    first_where_at(self@.windows, of_kind(kind), i as int);
                }
                return Some(i);
            }
            i = i + 1;
        }
        proof {
            first_where_at(self@.windows, of_kind(kind), i as int);
        }
        None
    }

    /// The topmost window of a kind.
    pub fn find_last_kind(&self, kind: WindowKind) -> (r: Option<usize>)
        ensures
            r == index(last_of(self@, kind), last_of(self@, kind) >= 0),
            r matches Some(i) ==> i < self.windows@.len() && i == last_of(self@, kind)
                && self.windows@[i as int].kind == kind,
            r is None ==> last_of(self@, kind) == -1,
    {
        let mut i: usize = self.windows.len();
        while i > 0
            invariant
                i <= self.windows@.len(),
                forall|j: int|
                    i <= j < self.windows@.len() ==> (#[trigger] self@.windows[j]).kind != kind,
            decreases i,
        {
            assert(self@.windows[i - 1].kind == self.windows@[i - 1].kind);
            if self.windows[i - 1].kind == kind {
                proof {
                    last_where_at(self@.windows, of_kind(kind), i - 1);
                }
                return Some(i - 1);
            }
            i = i - 1;
        }
        proof {
            last_where_at(self@.windows, of_kind(kind), -1);
        }
        None
    }

    pub fn raise(&mut self, idx: usize)
        ensures
            final(self)@ == raised(old(self)@, idx as int),
            old(self)@.wf() ==> final(self)@.wf(),
    {
        if idx >= self.windows.len() {
            return;
        }
        let ghost before = self.windows@;
        let mut w = self.windows.remove(idx);
        w.minimized = false;
        self.windows.push(w);
        proof {
            assert(self.windows@ =~= before.remove(idx as int).push(w));
            assert(self@.windows =~= raised(old(self)@, idx as int).windows);
            if old(self)@.wf() {
                assert forall|i: int| 0 <= i < self@.windows.len() implies (
                #[trigger] self@.windows[i]).wf() by {
                    if i < idx {
                        assert(self@.windows[i] == old(self)@.windows[i]);
                    } else if i < self@.windows.len() - 1 {
                        assert(self@.windows[i] == old(self)@.windows[i + 1]);
                    } else {
                        assert(old(self)@.windows[idx as int].wf());
                    }
                }
            }
        }
    }
}

// ── Desktop ─────────────────────────────────────────────────────────────────

/// Everything the desktop remembers.
pub struct Desktop {
    pub gui_mode: bool,
    pub dirty: bool,
    /// Hover-only dirty: redraw the top window without a full desktop pass.
    pub hover_dirty: bool,
    pub last_tick_sec: u64,
    pub cursor_blink: bool,
    pub dark_theme: bool,
    pub wm: WindowManager,
    pub screen: (usize, usize),
    pub notepad_scratch: String,
    /// Last path Notepad saved or loaded.
    pub notepad_path: String,
    pub code_scratch: String,
    /// Last path the Code Editor saved or loaded.
    pub code_path: String,
    /// Clipboard of the Code Editor.
    pub clipboard: String,
    /// Current folder of the File Explorer.
    pub fm_path: String,
    /// Current folder for Save As / Open dialogs.
    pub dialog_path: String,
    pub dialog_target: FileDialogTarget,
    /// Text waiting to be written by Save As.
    pub save_as_pending: String,
    /// What the browser's context menu was opened over.
    pub menu_image: Option<String>,
    pub menu_link: Option<String>,
}

pub ghost struct DesktopModel {
    pub gui_mode: bool,
    pub dirty: bool,
    pub hover_dirty: bool,
    pub last_tick_sec: u64,
    pub cursor_blink: bool,
    pub dark_theme: bool,
    pub wm: ManagerModel,
    pub screen: (usize, usize),
    pub notepad_scratch: Seq<char>,
    pub notepad_path: Seq<char>,
    pub code_scratch: Seq<char>,
    pub code_path: Seq<char>,
    pub clipboard: Seq<char>,
    pub fm_path: Seq<char>,
    pub dialog_path: Seq<char>,
    pub dialog_target: FileDialogTarget,
    pub save_as_pending: Seq<char>,
    pub menu_image: Option<Seq<char>>,
    pub menu_link: Option<Seq<char>>,
}

impl View for Desktop {
    type V = DesktopModel;

    open spec fn view(&self) -> DesktopModel {
        DesktopModel {
            gui_mode: self.gui_mode,
            dirty: self.dirty,
            hover_dirty: self.hover_dirty,
            last_tick_sec: self.last_tick_sec,
            cursor_blink: self.cursor_blink,
            dark_theme: self.dark_theme,
            wm: self.wm@,
            screen: self.screen,
            notepad_scratch: self.notepad_scratch@,
            notepad_path: self.notepad_path@,
            code_scratch: self.code_scratch@,
            code_path: self.code_path@,
            clipboard: self.clipboard@,
            fm_path: self.fm_path@,
            dialog_path: self.dialog_path@,
            dialog_target: self.dialog_target,
            save_as_pending: self.save_as_pending@,
            menu_image: state::footer_view(self.menu_image),
            menu_link: state::footer_view(self.menu_link),
        }
    }
}

impl DesktopModel {
    pub open spec fn wf(self) -> bool {
        self.wm.wf() && self.screen.0 <= SPAN && self.screen.1 <= SPAN
    }

    pub open spec fn redraw(self) -> DesktopModel {
        DesktopModel { dirty: true, ..self }
    }

    pub open spec fn set_window(self, i: int, w: state::WindowModel) -> DesktopModel {
        DesktopModel { wm: replaced(self.wm, i, w), ..self }
    }
}

impl Desktop {
    /// The desktop before anything was opened. Without a known screen it takes
    /// one of 1280×720.
    pub fn new(screen: Option<(usize, usize)>) -> (r: Self)
        requires
            screen matches Some((w, h)) ==> w <= SPAN && h <= SPAN,
        ensures
            r@ == first_desktop(screen),
            r@.wf(),
    {
        let screen = match screen {
            Some(s) => s,
            None => (1280, 720),
        };
        Desktop {
            gui_mode: false,
            dirty: false,
            hover_dirty: false,
            last_tick_sec: u64::MAX,
            cursor_blink: true,
            dark_theme: false,
            wm: WindowManager::new(),
            screen,
            notepad_scratch: String::new(),
            notepad_path: String::new(),
            code_scratch: String::new(),
            code_path: String::new(),
            clipboard: String::new(),
            fm_path: String::new(),
            dialog_path: String::new(),
            dialog_target: FileDialogTarget::Notepad,
            save_as_pending: String::new(),
            menu_image: None,
            menu_link: None,
        }
    }
}

pub open spec fn first_desktop(screen: Option<(usize, usize)>) -> DesktopModel {
    DesktopModel {
        gui_mode: false,
        dirty: false,
        hover_dirty: false,
        last_tick_sec: u64::MAX,
        cursor_blink: true,
        dark_theme: false,
        wm: ManagerModel {
            windows: Seq::empty(),
            dragging: None,
            last_mouse: (0, 0),
            mouse_left_down: false,
            next_id: 1,
        },
        screen: match screen {
            Some(s) => s,
            None => (1280, 720),
        },
        notepad_scratch: Seq::empty(),
        notepad_path: Seq::empty(),
        code_scratch: Seq::empty(),
        code_path: Seq::empty(),
        clipboard: Seq::empty(),
        fm_path: Seq::empty(),
        dialog_path: Seq::empty(),
        dialog_target: FileDialogTarget::Notepad,
        save_as_pending: Seq::empty(),
        menu_image: None,
        menu_link: None,
    }
}

pub fn is_gui_mode(desk: &Desktop) -> (r: bool)
    ensures
        r == desk@.gui_mode,
{
    desk.gui_mode
}

pub fn request_redraw(desk: &mut Desktop)
    ensures
        final(desk)@ == old(desk)@.redraw(),
{
    desk.dirty = true;
}

pub fn take_redraw_request(desk: &mut Desktop) -> (r: bool)
    ensures
        r == old(desk)@.dirty,
        final(desk)@ == (DesktopModel { dirty: false, ..old(desk)@ }),
{
    let r = desk.dirty;
    desk.dirty = false;
    r
}

pub fn take_hover_redraw_request(desk: &mut Desktop) -> (r: bool)
    ensures
        r == old(desk)@.hover_dirty,
        final(desk)@ == (DesktopModel { hover_dirty: false, ..old(desk)@ }),
{
    let r = desk.hover_dirty;
    desk.hover_dirty = false;
    r
}

pub fn cursor_blink_enabled(desk: &Desktop) -> (r: bool)
    ensures
        r == desk@.cursor_blink,
{
    desk.cursor_blink
}

/// Switch to the desktop. Any windows already open stay open.
pub fn enter_gui_mode(desk: &mut Desktop)
    ensures
        final(desk)@ == (DesktopModel {
            gui_mode: true,
            last_tick_sec: u64::MAX,
            dirty: true,
            ..old(desk)@
        }),
{
    desk.gui_mode = true;
    desk.last_tick_sec = u64::MAX;
    desk.dirty = true;
}

/// Leave the desktop and close every window; the screen is to be cleared.
pub fn exit_gui_mode(desk: &mut Desktop)
    ensures
        final(desk)@ == (DesktopModel {
            gui_mode: false,
            dirty: false,
            wm: ManagerModel { windows: Seq::empty(), dragging: None, ..old(desk)@.wm },
            ..old(desk)@
        }),
{
    desk.gui_mode = false;
    desk.dirty = false;
    desk.wm.clear();
}

// ── Labels ──────────────────────────────────────────────────────────────────

/// The window with the text of its `i`-th widget replaced, if that is a label.
pub open spec fn labelled(w: state::WindowModel, i: int, t: Seq<char>) -> state::WindowModel {
    if 0 <= i < w.widgets.len() && w.widgets[i] is Label {
        state::WindowModel { widgets: w.widgets.update(i, widget::with_text(w.widgets[i], t)), ..w }
    } else {
        w
    }
}

pub fn set_label_text(win: &mut Window, label_idx: usize, text: &str)
    ensures
        final(win)@ == labelled(old(win)@, label_idx as int, text@),
        old(win)@.wf() ==> final(win)@.wf(),
{
    if label_idx < win.widgets.len() {
        if let Widget::Label { text: t, .. } = &mut win.widgets[label_idx] {
            *t = text.to_owned();
        }
    }
    assert(win@.widgets =~= labelled(old(win)@, label_idx as int, text@).widgets);
}

// ── Laws ────────────────────────────────────────────────────────────────────

proof fn nothing_after_the_last(
    ws: Seq<state::WindowModel>,
    p: spec_fn(state::WindowModel) -> bool,
    j: int,
)
    requires
        last_where(ws, p) < j < ws.len(),
        0 <= j,
    ensures
        !p(ws[j]),
    decreases ws.len(),
{
    if !p(ws.last()) {
        if j < ws.len() - 1 {
            nothing_after_the_last(ws.drop_last(), p, j);
        }
    }
}

/// A click goes to the window one sees: the point is on it, and no window above
/// it is there. Where there is none, no window that is shown covers the point.
pub proof fn clicks_go_to_the_window_on_top(m: ManagerModel, px: int, py: int, j: int)
    requires
        top_at(m, px, py) < j < m.windows.len(),
        0 <= j,
    ensures
        top_at(m, px, py) >= 0 ==> !m.windows[top_at(m, px, py)].minimized && {
            let w = m.windows[top_at(m, px, py)];
            w.x <= px < w.x + w.w && w.y <= py < w.y + w.h
        },
        m.windows[j].minimized || !(m.windows[j].x <= px < m.windows[j].x + m.windows[j].w
            && m.windows[j].y <= py < m.windows[j].y + m.windows[j].h),
{
    last_where_bounds(m.windows, under(px, py));
    nothing_after_the_last(m.windows, under(px, py), j);
}

/// The window in front is the highest that is not minimized.
pub proof fn the_window_in_front_is_shown(m: ManagerModel, j: int)
    requires
        top(m) < j < m.windows.len(),
        0 <= j,
    ensures
        top(m) >= 0 ==> !m.windows[top(m)].minimized,
        m.windows[j].minimized,
{
    last_where_bounds(m.windows, shown());
    nothing_after_the_last(m.windows, shown(), j);
}

/// A window of a kind is found where there is one: the lowest and the highest
/// of them are of that kind, and none lies outside the two.
pub proof fn windows_are_found_by_kind(m: ManagerModel, k: WindowKind, j: int)
    requires
        0 <= j < m.windows.len(),
        m.windows[j].kind == k,
    ensures
        0 <= first_of(m, k) <= j <= last_of(m, k) < m.windows.len(),
        m.windows[first_of(m, k)].kind == k,
        m.windows[last_of(m, k)].kind == k,
{
    let p = of_kind(k);
    assert(p(m.windows[j]));
    first_where_bounds(m.windows, p);
    last_where_bounds(m.windows, p);
    if last_of(m, k) < j {
        nothing_after_the_last(m.windows, p, j);
    }
}

/// A new window is in front, with a handle of its own, and the others stay as
/// they were.
pub proof fn new_windows_are_in_front(m: ManagerModel, w: state::WindowModel, i: int)
    requires
        !w.minimized,
        0 <= i < m.windows.len(),
    ensures
        spawned(m, w).windows.len() == m.windows.len() + 1,
        spawned(m, w).windows[i] == m.windows[i],
        top(spawned(m, w)) == m.windows.len(),
        spawned(m, w).windows[m.windows.len() as int] == (state::WindowModel { id: m.next_id, ..w }),
{
    last_where_at(spawned(m, w).windows, shown(), m.windows.len() as int);
}

/// A label set shows the text; nothing else of the window changes, and nothing
/// at all where there is no label.
pub proof fn labels_are_set_alone(w: state::WindowModel, i: int, t: Seq<char>, j: int)
    requires
        0 <= i < w.widgets.len(),
        0 <= j < w.widgets.len(),
    ensures
        w.widgets[i] is Label ==> labelled(w, i, t).widgets[i]->Label_text == t && labelled(
            w,
            i,
            t,
        ).widgets[i]->Label_x == w.widgets[i]->Label_x && labelled(w, i, t).widgets[i]->Label_y
            == w.widgets[i]->Label_y,
        !(w.widgets[i] is Label) ==> labelled(w, i, t) == w,
        j != i ==> labelled(w, i, t).widgets[j] == w.widgets[j],
        labelled(w, i, t).app == w.app,
        labelled(w, i, t).title == w.title,
        labelled(w, i, t).footer == w.footer,
{
}
/// A window that is raised is shown in front, and the others keep their order.
pub proof fn raised_windows_are_in_front(m: ManagerModel, i: int, j: int)
    requires
        0 <= i < m.windows.len(),
        0 <= j < m.windows.len() - 1,
    ensures
        ({
            let r = raised(m, i);
            let n = m.windows.len() - 1;
            &&& r.windows.len() == m.windows.len()
            &&& top(r) == n
            &&& r.windows[n] == (state::WindowModel { minimized: false, ..m.windows[i] })
            &&& r.windows[j] == m.windows[if j < i { j } else { j + 1 }]
        }),
{
    let r = raised(m, i);
    last_where_at(r.windows, shown(), m.windows.len() - 1);
}

} // verus!
