//! The mouse: hovering, dragging, and what a press lands on.

use vstd::prelude::*;
use vstd::string::*;

use crate::text;
use crate::window::editor;
use crate::window::files;
use crate::window::manager;
use crate::window::manager::{Desktop, DesktopModel, ManagerModel, WindowManager};
use crate::window::metrics;
use crate::window::paint;
use crate::window::state;
use crate::window::state::{AppModel, AppState, Window, WindowModel, DESKBAR_H, SPAN};
use crate::window::widget;
use crate::window::widget::{BtnState, PaintTool, WinAction, Widget, WindowKind};

verus! {

/// Widgets past this index belong to the browser's context menu.
pub const BROWSER_WIDGET_BASE: usize = 8;

pub const BROWSER_PADDING: usize = 4;

/// What is left to do after a mouse button changed.
#[derive(Debug, Clone, Copy, PartialEq, Eq, Structural)]
pub enum MouseOutcome {
    /// This action is to be applied.
    Act(WinAction),
    /// End the process whose window was closed.
    Terminate(u64),
    /// Open the entry that is selected in the File Explorer.
    OpenEntry,
    /// Open the entry that is selected in the file dialog.
    OpenDialogEntry,
    /// Ask the page what lies under this point of it, and open the context
    /// menu at the pointer with the answer.
    PageMenu { x: usize, y: usize },
    /// Tell the page that this point of its canvas was clicked.
    PageClick { x: usize, y: usize },
    /// Take the caret out of any field on the page.
    BlurPage,
}

pub open spec fn nothing() -> MouseOutcome {
    MouseOutcome::Act(WinAction::Nothing)
}

// ── Desktop chrome ──────────────────────────────────────────────────────────

pub const DESK_ICON_W: usize = 112;

pub const DESK_ICON_H: usize = 108;

pub const DESK_ICON_X0: usize = 18;

pub const DESK_ICON_Y0: usize = 18;

/// From one desktop icon down to the next: its height and a gap.
pub const DESK_ICON_STEP: usize = 122;

/// The desktop icons, top to bottom, and what a double click on each opens.
pub open spec fn desktop_action(i: int) -> WinAction {
    if i == 0 {
        WinAction::OpenMyComputer
    } else if i == 1 {
        WinAction::OpenDrive(3)
    } else if i == 2 {
        WinAction::OpenBrowser
    } else if i == 3 {
        WinAction::OpenApplications
    } else {
        WinAction::OpenInstaller
    }
}

/// The desktop icon under a point, or -1.
pub open spec fn icon_under(px: int, py: int) -> int {
    let y = py - DESK_ICON_Y0;
    if DESK_ICON_X0 <= px <= DESK_ICON_X0 + DESK_ICON_W && 0 <= y < 5 * DESK_ICON_STEP && y % (
    DESK_ICON_STEP as int) < DESK_ICON_H {
        y / (DESK_ICON_STEP as int)
    } else {
        -1
    }
}

/// A point belongs to the desktop icon that is drawn around it.
pub proof fn icons_are_where_they_are_drawn(i: int, px: int, py: int)
    requires
        0 <= i < 5,
    ensures
        ({
            let top = DESK_ICON_Y0 + i * DESK_ICON_STEP;
            icon_under(px, py) == i <==> DESK_ICON_X0 <= px <= DESK_ICON_X0 + DESK_ICON_W && top
                <= py < top + DESK_ICON_H
        }),
{
}

/// Which desktop icon was clicked, or none.
pub fn desktop_icon_at(px: i32, py: i32) -> (r: Option<usize>)
    ensures
        r == manager::index(
            icon_under(px as int, py as int),
            icon_under(px as int, py as int) >= 0,
        ),
        r matches Some(i) ==> i < 5,
{
    if px < 18 || px > 130 || py < 18 {
        return None;
    }
    let y: usize = (py - 18) as usize;
    let i: usize = y / DESK_ICON_STEP;
    if i < 5 && y % DESK_ICON_STEP < DESK_ICON_H {
        Some(i)
    } else {
        None
    }
}

/// The top of the taskbar.
pub open spec fn bar_top(screen: (usize, usize)) -> int {
    state::desk_height(screen)
}

pub open spec fn on_apps_button(screen: (usize, usize), px: int, py: int) -> bool {
    bar_top(screen) + 4 <= py < bar_top(screen) + 40 && 8 <= px < 156
}

pub open spec fn on_shutdown_button(screen: (usize, usize), px: int, py: int) -> bool {
    bar_top(screen) + 4 <= py < bar_top(screen) + 40 && 166 <= px < 266
}

fn bar_y(screen: (usize, usize)) -> (r: i32)
    requires
        screen.1 <= SPAN,
    ensures
        r == bar_top(screen),
        0 <= r <= SPAN,
{
    if screen.1 >= DESKBAR_H {
        (screen.1 - DESKBAR_H) as i32
    } else {
        0
    }
}

/// True when the point is inside the taskbar's Applications button.
pub fn taskbar_apps_btn_at(screen: (usize, usize), px: i32, py: i32) -> (r: bool)
    requires
        screen.1 <= SPAN,
    ensures
        r == on_apps_button(screen, px as int, py as int),
{
    let y: i32 = bar_y(screen);
    py >= y + 4 && py < y + 40 && px >= 8 && px < 156
}

/// True when the point is inside the taskbar's Shutdown button.
pub fn taskbar_shutdown_btn_at(screen: (usize, usize), px: i32, py: i32) -> (r: bool)
    requires
        screen.1 <= SPAN,
    ensures
        r == on_shutdown_button(screen, px as int, py as int),
{
    let y: i32 = bar_y(screen);
    py >= y + 4 && py < y + 40 && px >= 166 && px < 266
}

/// The width of a minimized window's tile, by its title.
pub open spec fn tile_width(title: Seq<char>) -> int {
    let n = if title.len() < 10 {
        title.len() as int
    } else {
        10
    };
    state::at_most(state::at_least(n * metrics::CHAR_W + 42, 88), 156)
}

pub fn tile_w(title: &str) -> (r: usize)
    ensures
        r == tile_width(title@),
        88 <= r <= 156,
{
    let len: usize = title.unicode_len();
    let n: usize = if len < 10 { len } else { 10 };
    let w: usize = n * metrics::char_w() + 42;
    if w < 88 {
        88
    } else if w > 156 {
        156
    } else {
        w
    }
}

/// The tile under a point among those of the windows from `i` on, the first of
/// them at `tx`; -1 if there is none. Tiles stop where the clock begins.
pub open spec fn tile_from(
    ws: Seq<WindowModel>,
    i: int,
    tx: int,
    sw: int,
    px: int,
) -> int
    decreases ws.len() - i,
{
    if i < 0 || i >= ws.len() {
        -1
    } else if !ws[i].minimized {
        tile_from(ws, i + 1, tx, sw, px)
    } else {
        let tw = tile_width(ws[i].title);
        if tx + tw + 160 > sw {
            -1
        } else if tx <= px < tx + tw {
            i
        } else {
            tile_from(ws, i + 1, tx + tw + 8, sw, px)
        }
    }
}

pub open spec fn tile_under(d: DesktopModel, px: int, py: int) -> int {
    if bar_top(d.screen) + 4 <= py < bar_top(d.screen) + 36 {
        tile_from(d.wm.windows, 0, 278, d.screen.0 as int, px)
    } else {
        -1
    }
}

proof fn tile_from_bounds(ws: Seq<WindowModel>, i: int, tx: int, sw: int, px: int)
    requires
        0 <= i,
    ensures
        -1 <= tile_from(ws, i, tx, sw, px) < ws.len(),
    decreases ws.len() - i,
{
    if i < ws.len() {
        if !ws[i].minimized {
            tile_from_bounds(ws, i + 1, tx, sw, px);
        } else {
            tile_from_bounds(ws, i + 1, tx + tile_width(ws[i].title) + 8, sw, px);
        }
    }
}

/// Which minimized taskbar tile was clicked, if any.
pub fn taskbar_minimized_at(desk: &Desktop, px: i32, py: i32) -> (r: Option<usize>)
    requires
        desk@.wf(),
    ensures
        r == manager::index(
            tile_under(desk@, px as int, py as int),
            tile_under(desk@, px as int, py as int) >= 0,
        ),
        r matches Some(i) ==> i < desk.wm.windows@.len() && i == tile_under(
            desk@,
            px as int,
            py as int,
        ),
{
    let y: i32 = bar_y(desk.screen);
    if py < y + 4 || py >= y + 36 {
        return None;
    }
    let sw: usize = desk.screen.0;
    let mut tx: usize = 278;
    let mut i: usize = 0;
    let ghost ws = desk@.wm.windows;
    while i < desk.wm.windows.len()
        invariant
            i <= desk.wm.windows@.len(),
            278 <= tx <= 278 + sw,
            sw <= SPAN,
            ws == desk@.wm.windows,
            tile_from(ws, 0, 278, sw as int, px as int) == tile_from(
                ws,
                i as int,
                tx as int,
                sw as int,
                px as int,
            ),
            tile_under(desk@, px as int, py as int) == tile_from(ws, 0, 278, sw as int, px as int),
        decreases desk.wm.windows@.len() - i,
    {
        assert(ws[i as int] == desk.wm.windows@[i as int]@);
        if desk.wm.windows[i].minimized {
            let tw: usize = tile_w(desk.wm.windows[i].title.as_str());
            if tx + tw + 160 > sw {
                return None;
            }
            if px >= tx as i32 && px < tx as i32 + tw as i32 {
                return Some(i);
            }
            tx = tx + tw + 8;
        }
        i = i + 1;
    }
    None
}

// ── Buttons ─────────────────────────────────────────────────────────────────

/// A button under a pointer that moved: hovered if it is the one that was
/// hit, and no longer if it is not. A pressed one stays pressed.
pub open spec fn hovered(wgt: Widget<Seq<char>>, on: bool) -> Widget<Seq<char>> {
    match wgt {
        Widget::Button { state: s, .. } => widget::with_button_state(
            wgt,
            if s == BtnState::Pressed {
                BtnState::Pressed
            } else if on {
                BtnState::Hover
            } else {
                BtnState::Normal
            },
        ),
        other => other,
    }
}

pub open spec fn hover_window(w: WindowModel, on: int) -> WindowModel {
    WindowModel { widgets: w.widgets.map(|i: int, wgt: Widget<Seq<char>>| hovered(wgt, i == on)), ..w }
}

fn hover_widget(wgt: &mut Widget, on: bool) -> (changed: bool)
    ensures
        final(wgt)@ == hovered(old(wgt)@, on),
        changed == (final(wgt)@ != old(wgt)@),
{
    if let Widget::Button { state, .. } = wgt {
        let desired = if *state == BtnState::Pressed {
            BtnState::Pressed
        } else if on {
            BtnState::Hover
        } else {
            BtnState::Normal
        };
        if desired != *state {
            *state = desired;
            return true;
        }
    }
    false
}

#[verifier::rlimit(60)]
fn hover(win: &mut Window, on: Option<usize>) -> (changed: bool)
    ensures
        final(win)@ == hover_window(
            old(win)@,
            match on {
                Some(i) => i as int,
                None => -1,
            },
        ),
        changed == (final(win)@ != old(win)@),
        old(win)@.wf() ==> final(win)@.wf(),
{
    let ghost k = match on {
        Some(i) => i as int,
        None => -1,
    };
    let mut changed = false;
    let mut i: usize = 0;
    let ghost before = *win;
    while i < win.widgets.len()
        invariant
            i <= win.widgets@.len(),
            win.widgets@.len() == before.widgets@.len(),
            *win == (Window { widgets: win.widgets, ..before }),
            k == match on {
                Some(i) => i as int,
                None => -1,
            },
            forall|j: int|
                0 <= j < i ==> (#[trigger] win.widgets@[j])@ == hovered(
                    before.widgets@[j]@,
                    j == k,
                ),
            forall|j: int| i <= j < win.widgets@.len() ==> win.widgets@[j] == before.widgets@[j],
            changed == (exists|j: int|
                0 <= j < i && (#[trigger] win.widgets@[j])@ != before.widgets@[j]@),
        decreases win.widgets@.len() - i,
    {
        let here = match on {
            Some(h) => h == i,
            None => false,
        };
        let ghost mid = win.widgets@;
        let c = hover_widget(&mut win.widgets[i], here);
        proof {
            if changed {
                let j = choose|j: int|
                    0 <= j < i && (#[trigger] mid[j])@ != before.widgets@[j]@;
                assert(win.widgets@[j] == mid[j]);
            }
            if c {
                assert(win.widgets@[i as int]@ != before.widgets@[i as int]@);
            }
            assert forall|j: int| 0 <= j < i implies #[trigger] win.widgets@[j] == mid[j] by {}
        }
        if c {
            changed = true;
        }
        i = i + 1;
    }
    proof {
        assert(win@.widgets =~= hover_window(old(win)@, k).widgets);
        if changed {
            let j = choose|j: int|
                0 <= j < i && (#[trigger] win.widgets@[j])@ != before.widgets@[j]@;
            assert(win@.widgets[j] != old(win)@.widgets[j]);
        } else {
            assert(win@.widgets =~= old(win)@.widgets) by {
                assert forall|j: int| 0 <= j < win@.widgets.len() implies win@.widgets[j] == old(
                    win,
                )@.widgets[j] by {
                    assert(win.widgets@[j]@ == before.widgets@[j]@);
                }
            }
        }
    }
    changed
}

/// A button that was let go.
pub open spec fn released(wgt: Widget<Seq<char>>) -> Widget<Seq<char>> {
    match wgt {
        Widget::Button { state: BtnState::Pressed, .. } => widget::with_button_state(
            wgt,
            BtnState::Normal,
        ),
        other => other,
    }
}

/// A window whose buttons were let go; a stroke in progress ends.
pub open spec fn let_go(w: WindowModel) -> WindowModel {
    WindowModel {
        widgets: w.widgets.map_values(|wgt: Widget<Seq<char>>| released(wgt)),
        app: match w.app {
            AppModel::Paint(p) if p.drawing => AppModel::Paint(
                state::PaintModel { drawing: false, last: None, ..p },
            ),
            other => other,
        },
        ..w
    }
}

fn release_widget(wgt: &mut Widget) -> (changed: bool)
    ensures
        final(wgt)@ == released(old(wgt)@),
        changed == (final(wgt)@ != old(wgt)@),
{
    if let Widget::Button { state, .. } = wgt {
        if *state == BtnState::Pressed {
            *state = BtnState::Normal;
            return true;
        }
    }
    false
}

#[verifier::rlimit(60)]
fn release_window(win: &mut Window) -> (changed: bool)
    ensures
        final(win)@ == let_go(old(win)@),
        changed == (final(win)@.widgets != old(win)@.widgets),
        old(win)@.wf() ==> final(win)@.wf(),
{
    let mut changed = false;
    let mut i: usize = 0;
    let ghost before = *win;
    while i < win.widgets.len()
        invariant
            i <= win.widgets@.len(),
            win.widgets@.len() == before.widgets@.len(),
            *win == (Window { widgets: win.widgets, ..before }),
            forall|j: int|
                0 <= j < i ==> (#[trigger] win.widgets@[j])@ == released(before.widgets@[j]@),
            forall|j: int| i <= j < win.widgets@.len() ==> win.widgets@[j] == before.widgets@[j],
            changed == (exists|j: int|
                0 <= j < i && (#[trigger] win.widgets@[j])@ != before.widgets@[j]@),
        decreases win.widgets@.len() - i,
    {
        let ghost mid = win.widgets@;
        let c = release_widget(&mut win.widgets[i]);
        proof {
            if changed {
                let j = choose|j: int|
                    0 <= j < i && (#[trigger] mid[j])@ != before.widgets@[j]@;
                assert(win.widgets@[j] == mid[j]);
            }
            if c {
                assert(win.widgets@[i as int]@ != before.widgets@[i as int]@);
            }
            assert forall|j: int| 0 <= j < i implies #[trigger] win.widgets@[j] == mid[j] by {}
        }
        if c {
            changed = true;
        }
        i = i + 1;
    }
    match &mut win.app {
        AppState::Paint(p) => {
            if p.drawing {
                p.drawing = false;
                p.last = None;
            }
        },
        _ => {},
    }
    proof {
        assert(win@.widgets =~= let_go(old(win)@).widgets);
        if changed {
            let j = choose|j: int|
                0 <= j < i && (#[trigger] win.widgets@[j])@ != before.widgets@[j]@;
            assert(win@.widgets[j] != old(win)@.widgets[j]);
        } else {
            assert(win@.widgets =~= old(win)@.widgets) by {
                assert forall|j: int| 0 <= j < win@.widgets.len() implies win@.widgets[j] == old(
                    win,
                )@.widgets[j] by {
                    assert(win.widgets@[j]@ == before.widgets@[j]@);
                }
            }
        }
    }
    changed
}

/// The left button let go: nothing is dragged any more, every pressed button
/// springs back, and the screen is redrawn if one did.
pub open spec fn mouse_up(d: DesktopModel) -> DesktopModel {
    let ws = d.wm.windows.map_values(|w: WindowModel| let_go(w));
    DesktopModel {
        wm: ManagerModel { windows: ws, dragging: None, mouse_left_down: false, ..d.wm },
        dirty: d.dirty || exists|i: int|
            0 <= i < d.wm.windows.len() && (#[trigger] ws[i]).widgets != d.wm.windows[i].widgets,
        ..d
    }
}

#[verifier::rlimit(60)]
fn release_all(desk: &mut Desktop)
    requires
        old(desk)@.wf(),
    ensures
        final(desk)@ == mouse_up(old(desk)@),
        final(desk)@.wf(),
{
    desk.wm.mouse_left_down = false;
    desk.wm.dragging = None;
    let mut changed = false;
    let mut i: usize = 0;
    let ghost before = old(desk).wm.windows@;
    let ghost base = *desk;
    assert forall|j: int| 0 <= j < before.len() implies (#[trigger] before[j])@.wf() by {
        assert(old(desk)@.wm.windows[j].wf());
    }
    while i < desk.wm.windows.len()
        invariant
            i <= desk.wm.windows@.len(),
            desk.wm.windows@.len() == before.len(),
            *desk == (Desktop {
                wm: WindowManager { windows: desk.wm.windows, ..base.wm },
                ..base
            }),
            forall|j: int|
                0 <= j < before.len() ==> (#[trigger] before[j])@.wf(),
            forall|j: int|
                0 <= j < i ==> (#[trigger] desk.wm.windows@[j])@ == let_go(before[j]@),
            forall|j: int|
                0 <= j < i ==> (#[trigger] desk.wm.windows@[j])@.wf(),
            forall|j: int| i <= j < before.len() ==> desk.wm.windows@[j] == before[j],
            changed == (exists|j: int|
                0 <= j < i && (#[trigger] desk.wm.windows@[j])@.widgets != before[j]@.widgets),
        decreases desk.wm.windows@.len() - i,
    {
        let ghost mid = desk.wm.windows@;
        assert(before[i as int]@.wf());
        let c = release_window(&mut desk.wm.windows[i]);
        proof {
            if changed {
                let j = choose|j: int|
                    0 <= j < i && (#[trigger] mid[j])@.widgets != before[j]@.widgets;
                assert(desk.wm.windows@[j] == mid[j]);
            }
            if c {
                assert(desk.wm.windows@[i as int]@.widgets != before[i as int]@.widgets);
            }
            assert forall|j: int| 0 <= j < i implies #[trigger] desk.wm.windows@[j] == mid[j] by {}
        }
        if c {
            changed = true;
        }
        i = i + 1;
    }
    if changed {
        desk.dirty = true;
    }
    proof {
        let out = mouse_up(old(desk)@);
        assert(desk@.wm.windows =~= out.wm.windows);
        assert forall|j: int| 0 <= j < before.len() implies (#[trigger] out.wm.windows[j]).widgets
            == desk.wm.windows@[j]@.widgets by {}
        if changed {
            let j = choose|j: int|
                0 <= j < i && (#[trigger] desk.wm.windows@[j])@.widgets != before[j]@.widgets;
            assert(out.wm.windows[j].widgets != old(desk)@.wm.windows[j].widgets);
        } else {
            assert forall|j: int| 0 <= j < before.len() implies (
            #[trigger] out.wm.windows[j]).widgets == old(desk)@.wm.windows[j].widgets by {
                assert(desk.wm.windows@[j]@.widgets == before[j]@.widgets);
            }
        }
        assert forall|j: int| 0 <= j < desk@.wm.windows.len() implies (
        #[trigger] desk@.wm.windows[j]).wf() by {
            assert(desk.wm.windows@[j]@.wf());
        }
    }
}

// ── Dragging ────────────────────────────────────────────────────────────────

/// The first canvas among a window's widgets.
pub open spec fn first_canvas(ws: Seq<Widget<Seq<char>>>) -> Option<(usize, usize, usize, usize)>
    decreases ws.len(),
{
    if ws.len() == 0 {
        None
    } else {
        match ws[0] {
            Widget::Canvas { x, y, w, h } => Some((x, y, w, h)),
            _ => first_canvas(ws.skip(1)),
        }
    }
}

pub fn find_canvas(win: &Window) -> (r: Option<(usize, usize, usize, usize)>)
    ensures
        r == first_canvas(win@.widgets),
{
    let mut i: usize = 0;
    let ghost ws = win@.widgets;
    assert(ws.skip(0) =~= ws);
    while i < win.widgets.len()
        invariant
            i <= win.widgets@.len(),
            ws == win@.widgets,
            first_canvas(ws) == first_canvas(ws.skip(i as int)),
        decreases win.widgets@.len() - i,
    {
        assert(ws.skip(i as int)[0] == win.widgets@[i as int]@);
        assert(ws.skip(i as int).skip(1) =~= ws.skip(i + 1));
        match &win.widgets[i] {
            Widget::Canvas { x, y, w, h } => {
                return Some((*x, *y, *w, *h));
            },
            _ => {},
        }
        i = i + 1;
    }
    None
}

/// A point of the content seen from the corner of a canvas, if it is on it.
pub open spec fn on_widget(at: (usize, usize, usize, usize), lx: int, ly: int) -> Option<(u16, u16)> {
    let cx = at.0 as i32;
    let cy = at.1 as i32;
    if cx <= lx && lx < cx.wrapping_add(at.2 as i32) && cy <= ly && ly < cy.wrapping_add(
        at.3 as i32,
    ) {
        Some(((lx - cx) as u16, (ly - cy) as u16))
    } else {
        None
    }
}

fn point_on(at: (usize, usize, usize, usize), lx: i32, ly: i32) -> (r: Option<(u16, u16)>)
    requires
        -0x4000_0000 <= lx <= 0x3FFF_FFFF,
        -0x4000_0000 <= ly <= 0x3FFF_FFFF,
    ensures
        r == on_widget(at, lx as int, ly as int),
{
    let cx: i32 = at.0 as i32;
    let cy: i32 = at.1 as i32;
    if cx <= lx && lx < cx.wrapping_add(at.2 as i32) && cy <= ly && ly < cy.wrapping_add(
        at.3 as i32,
    ) {
        let dx: i64 = lx as i64 - cx as i64;
        let dy: i64 = ly as i64 - cy as i64;
        Some((dx as u16, dy as u16))
    } else {
        None
    }
}

pub open spec fn ink(p: state::PaintModel) -> u32 {
    if p.tool == PaintTool::Eraser {
        paint::CANVAS_BG
    } else {
        p.color
    }
}

/// The picture after the pointer was dragged to a point of the canvas.
pub open spec fn dragged_to(p: state::PaintModel, to: (u16, u16)) -> state::PaintModel {
    let cw = p.cw as int;
    let r = p.brush as int;
    state::PaintModel {
        canvas: match p.last {
            Some(from) => paint::stroked(p.canvas, cw, from, to, r, ink(p)),
            None => paint::stamped(p.canvas, cw, to.0 as int, to.1 as int, r, ink(p)),
        },
        last: Some(to),
        ..p
    }
}

/// A Paint window after its canvas was drawn on, if it was.
pub open spec fn paint_drag(w: WindowModel, mx: int, my: int) -> Option<WindowModel> {
    match (w.app, first_canvas(w.widgets)) {
        (AppModel::Paint(p), Some(at)) if w.kind == WindowKind::Paint && p.drawing => match on_widget(
            at,
            mx - files::origin(w).0,
            my - files::origin(w).1,
        ) {
            Some(to) => Some(WindowModel { app: AppModel::Paint(dragged_to(p, to)), ..w }),
            None => None,
        },
        _ => None,
    }
}

fn try_paint_drag(win: &mut Window, mx: i32, my: i32) -> (r: bool)
    requires
        old(win)@.wf(),
        manager::on_screen((mx, my)),
    ensures
        r == (paint_drag(old(win)@, mx as int, my as int) is Some),
        r ==> final(win)@ == paint_drag(old(win)@, mx as int, my as int)->0,
        !r ==> final(win)@ == old(win)@,
        final(win)@.wf(),
{
    if win.kind != WindowKind::Paint {
        return false;
    }
    let at = match find_canvas(win) {
        Some(at) => at,
        None => {
            return false;
        },
    };
    let (ox, oy) = win.content_origin();
    let to = match point_on(at, mx - ox, my - oy) {
        Some(to) => to,
        None => {
            return false;
        },
    };
    match &mut win.app {
        AppState::Paint(p) => {
            if !p.drawing {
                return false;
            }
            let ink = if p.tool == PaintTool::Eraser { paint::CANVAS_BG } else { p.color };
            match p.last {
                Some(from) => {
                    paint::paint_stroke(&mut p.canvas, p.cw, p.ch, from, to, p.brush, ink);
                },
                None => {
                    paint::paint_stamp(
                        &mut p.canvas,
                        p.cw,
                        p.ch,
                        to.0 as i32,
                        to.1 as i32,
                        p.brush,
                        ink,
                    );
                },
            }
            p.last = Some(to);
            true
        },
        _ => false,
    }
}

/// Where a point of the screen lies in a code area at `(x, y)` of the content.
pub open spec fn in_area(w: WindowModel, x: usize, y: usize, mx: int, my: int) -> (i32, i32) {
    (
        ((mx - files::origin(w).0) as i32).wrapping_sub(x as i32),
        ((my - files::origin(w).1) as i32).wrapping_sub(y as i32),
    )
}

/// A window whose focused code area had its selection dragged, if it had one.
pub open spec fn code_drag(w: WindowModel, mx: int, my: int) -> Option<WindowModel> {
    match w.focused_widget {
        Some(f) if f < w.widgets.len() => match w.widgets[f as int] {
            Widget::CodeArea { x, y, w: bw, h, text: t, cursor, selection } if selection is Some => {
                let p = in_area(w, x, y, mx, my);
                Some(
                    WindowModel {
                        widgets: w.widgets.update(
                            f as int,
                            Widget::CodeArea {
                                x,
                                y,
                                w: bw,
                                h,
                                text: t,
                                cursor: editor::char_at(
                                    t,
                                    bw as int,
                                    h as int,
                                    cursor as int,
                                    p.0 as int,
                                    p.1 as int,
                                ) as usize,
                                selection,
                            },
                        ),
                        ..w
                    },
                )
            },
            _ => None,
        },
        _ => None,
    }
}

fn try_code_area_drag_select(win: &mut Window, mx: i32, my: i32) -> (r: bool)
    requires
        old(win)@.wf(),
        manager::on_screen((mx, my)),
    ensures
        r == (code_drag(old(win)@, mx as int, my as int) is Some),
        r ==> final(win)@ == code_drag(old(win)@, mx as int, my as int)->0,
        !r ==> final(win)@ == old(win)@,
        final(win)@.wf(),
{
    let f: usize = match win.focused_widget {
        Some(f) => f,
        None => {
            return false;
        },
    };
    let (ox, oy) = win.content_origin();
    let mut r = false;
    if f < win.widgets.len() {
        if let Widget::CodeArea { x, y, w, h, text: t, cursor, selection } = &mut win.widgets[f] {
            if selection.is_some() {
                let lx: i32 = (mx - ox).wrapping_sub(*x as i32);
                let ly: i32 = (my - oy).wrapping_sub(*y as i32);
                *cursor = editor::code_area_cursor_at(t.as_str(), *w, *h, *cursor, lx, ly);
                r = true;
            }
        }
    }
    proof {
        if r {
            assert(win@.widgets =~= (code_drag(old(win)@, mx as int, my as int)->0).widgets);
        } else {
            assert(win@.widgets =~= old(win)@.widgets);
        }
    }
    r
}

/// The pointer moved to a point of the screen: a dragged window follows it,
/// or a stroke or a selection does, or else buttons under it light up.
pub open spec fn mouse_moved(d0: DesktopModel, x: int, y: int) -> DesktopModel {
    let d = DesktopModel {
        wm: ManagerModel { last_mouse: (x as i32, y as i32), ..d0.wm },
        ..d0
    };
    let i = manager::top(d.wm);
    match d.wm.dragging {
        Some((k, ox, oy)) => if k < d.wm.windows.len() {
            d.set_window(
                k as int,
                WindowModel {
                    x: (x - ox) as i32,
                    y: (y - oy) as i32,
                    ..d.wm.windows[k as int]
                },
            ).redraw()
        } else {
            d.redraw()
        },
        None => if i < 0 {
            d
        } else {
            let w = d.wm.windows[i];
            let drawn = paint_drag(w, x, y);
            let selected = code_drag(w, x, y);
            let hover = hover_window(w, files::widget_under(w, x, y));
            if d.wm.mouse_left_down && drawn is Some {
                d.set_window(i, drawn->0).redraw()
            } else if d.wm.mouse_left_down && selected is Some {
                d.set_window(i, selected->0).redraw()
            } else {
                DesktopModel { hover_dirty: d.hover_dirty || hover != w, ..d.set_window(i, hover) }
            }
        },
    }
}

#[verifier::spinoff_prover]
#[verifier::rlimit(60)]
pub fn handle_mouse_move(desk: &mut Desktop, x: usize, y: usize)
    requires
        old(desk)@.wf(),
        x < SPAN,
        y < SPAN,
    ensures
        final(desk)@ == mouse_moved(old(desk)@, x as int, y as int),
        final(desk)@.wf(),
{
    let mx: i32 = x as i32;
    let my: i32 = y as i32;
    desk.wm.last_mouse = (mx, my);
    if let Some((k, ox, oy)) = desk.wm.dragging {
        if k < desk.wm.windows.len() {
            assert(desk@.wm.windows[k as int].wf());
            desk.wm.windows[k].x = mx - ox;
            desk.wm.windows[k].y = my - oy;
            proof {
                let w = desk.wm.windows@[k as int];
                assert(desk.wm.windows@ =~= old(desk).wm.windows@.update(k as int, w));
                manager::view_updated(old(desk).wm.windows@, k as int, w);
            }
        }
        desk.dirty = true;
        return;
    }
    let i: usize = match desk.wm.topmost_idx() {
        Some(i) => i,
        None => {
            return;
        },
    };
    assert(desk@.wm.windows[i as int].wf());
    let ghost before = desk.wm.windows@;
    if desk.wm.mouse_left_down {
        let drawn = try_paint_drag(&mut desk.wm.windows[i], mx, my);
        proof {
            manager::view_updated(before, i as int, desk.wm.windows@[i as int]);
            assert(desk@.wm.windows.update(i as int, desk@.wm.windows[i as int])
                =~= desk@.wm.windows);
            if !drawn {
                assert(manager::windows_view(before).update(i as int, before[i as int]@)
                    =~= manager::windows_view(before));
            }
        }
        if drawn {
            desk.dirty = true;
            return;
        }
        let ghost mid = desk.wm.windows@;
        let selected = try_code_area_drag_select(&mut desk.wm.windows[i], mx, my);
        proof {
            manager::view_updated(mid, i as int, desk.wm.windows@[i as int]);
            if !selected {
                assert(manager::windows_view(mid).update(i as int, mid[i as int]@)
                    =~= manager::windows_view(mid));
            }
        }
        if selected {
            desk.dirty = true;
            return;
        }
    }
    let ghost mid = desk.wm.windows@;
    assert(manager::windows_view(mid) =~= manager::windows_view(before));
    assert(mid[i as int]@ == manager::windows_view(before)[i as int]);
    let on = desk.wm.windows[i].widget_at(mx, my);
    proof {
        hit_bounds(
            mid[i as int]@.widgets,
            mx - files::origin(mid[i as int]@).0,
            my - files::origin(mid[i as int]@).1,
        );
    }
    let changed = hover(&mut desk.wm.windows[i], on);
    proof {
        manager::view_updated(mid, i as int, desk.wm.windows@[i as int]);
    }
    if changed {
        desk.hover_dirty = true;
    }
}

pub proof fn hit_bounds(ws: Seq<Widget<Seq<char>>>, lx: int, ly: int)
    ensures
        -1 <= files::hit(ws, lx, ly) < ws.len(),
        files::hit(ws, lx, ly) >= 0 ==> widget::covers(ws[files::hit(ws, lx, ly)], lx, ly),
    decreases ws.len(),
{
    if ws.len() > 0 && !widget::covers(ws.last(), lx, ly) {
        hit_bounds(ws.drop_last(), lx, ly);
    }
}

/// Moving the pointer never opens, closes or reorders windows.
pub proof fn moving_keeps_the_windows(d: DesktopModel, x: int, y: int, j: int)
    requires
        0 <= j < d.wm.windows.len(),
    ensures
        mouse_moved(d, x, y).wm.windows.len() == d.wm.windows.len(),
        mouse_moved(d, x, y).wm.windows[j].id == d.wm.windows[j].id,
        mouse_moved(d, x, y).wm.windows[j].kind == d.wm.windows[j].kind,
{
    manager::last_where_bounds(d.wm.windows, manager::shown());
}

// ── Pressing ────────────────────────────────────────────────────────────────

/// The picture after its canvas was pressed at a point.
pub open spec fn pressed_at(p: state::PaintModel, at: (u16, u16)) -> state::PaintModel {
    if p.tool == PaintTool::Fill {
        state::PaintModel {
            canvas: paint::flooded(
                p.canvas,
                p.cw as int,
                p.ch as int,
                at.0 as int,
                at.1 as int,
                p.color,
            ),
            ..p
        }
    } else {
        state::PaintModel {
            canvas: paint::stamped(
                p.canvas,
                p.cw as int,
                at.0 as int,
                at.1 as int,
                p.brush as int,
                ink(p),
            ),
            drawing: true,
            last: Some(at),
            ..p
        }
    }
}

/// What pressing a widget does to its window, and what is left to do.
pub open spec fn widget_pressed(w: WindowModel, i: int, mx: int, my: int, dbl: bool) -> (
    WindowModel,
    MouseOutcome,
) {
    match w.widgets[i] {
        Widget::TextBox { .. } => (
            WindowModel {
                focused_widget: Some(i as usize),
                replace_on_type: w.focused_widget != Some(i as usize),
                ..w
            },
            match w.app {
                AppModel::Browser(b) if b.page is Some => MouseOutcome::BlurPage,
                _ => nothing(),
            },
        ),
        Widget::TextArea { .. } => (
            WindowModel { focused_widget: Some(i as usize), replace_on_type: false, ..w },
            nothing(),
        ),
        Widget::CodeArea { x, y, w: bw, h, text: t, cursor, .. } => {
            let p = in_area(w, x, y, mx, my);
            let at = editor::char_at(
                t,
                bw as int,
                h as int,
                cursor as int,
                p.0 as int,
                p.1 as int,
            ) as usize;
            let (from, to) = if dbl {
                editor::word_bounds(t, at as int)
            } else {
                (at, at)
            };
            (
                WindowModel {
                    focused_widget: Some(i as usize),
                    replace_on_type: false,
                    widgets: w.widgets.update(
                        i,
                        Widget::CodeArea { x, y, w: bw, h, text: t, cursor: to, selection: Some(from) },
                    ),
                    ..w
                },
                nothing(),
            )
        },
        Widget::Button { action, .. } => (
            WindowModel {
                widgets: w.widgets.update(
                    i,
                    widget::with_button_state(w.widgets[i], BtnState::Pressed),
                ),
                ..w
            },
            MouseOutcome::Act(action),
        ),
        Widget::Checkbox { x, y, w: bw, h, label, checked, action } => (
            WindowModel {
                widgets: w.widgets.update(
                    i,
                    Widget::Checkbox { x, y, w: bw, h, label, checked: !checked, action },
                ),
                ..w
            },
            MouseOutcome::Act(action),
        ),
        Widget::Swatch { action, .. } => (w, MouseOutcome::Act(action)),
        Widget::Canvas { x, y, w: bw, h } => {
            let w1 = WindowModel { focused_widget: None, ..w };
            match on_widget(
                (x, y, bw, h),
                mx - files::origin(w).0,
                my - files::origin(w).1,
            ) {
                Some(at) => match w.app {
                    AppModel::Browser(_) => (
                        files::menu_closed(w1, BROWSER_WIDGET_BASE as int),
                        MouseOutcome::PageClick { x: at.0 as usize, y: at.1 as usize },
                    ),
                    AppModel::Paint(p) => (
                        WindowModel { app: AppModel::Paint(pressed_at(p, at)), ..w1 },
                        nothing(),
                    ),
                    _ => (w1, nothing()),
                },
                None => (w1, nothing()),
            }
        },
        _ => (w, nothing()),
    }
}

fn press_code_area(
    win: &mut Window,
    i: usize,
    mx: i32,
    my: i32,
    dbl: bool,
)
    requires
        old(win)@.wf(),
        manager::on_screen((mx, my)),
        i < old(win)@.widgets.len(),
        old(win)@.widgets[i as int] is CodeArea,
    ensures
        final(win)@ == widget_pressed(old(win)@, i as int, mx as int, my as int, dbl).0,
{
    let (ox, oy) = win.content_origin();
    win.focused_widget = Some(i);
    win.replace_on_type = false;
    if let Widget::CodeArea { x, y, w, h, text: t, cursor, selection } = &mut win.widgets[i] {
        let lx: i32 = (mx - ox).wrapping_sub(*x as i32);
        let ly: i32 = (my - oy).wrapping_sub(*y as i32);
        let at: usize = editor::code_area_cursor_at(t.as_str(), *w, *h, *cursor, lx, ly);
        if dbl {
            let chars = text::chars_of(t.as_str());
            let (from, to) = editor::word_bounds_at(chars.as_slice(), at);
            *selection = Some(from);
            *cursor = to;
        } else {
            *cursor = at;
            *selection = Some(at);
        }
    }
    assert(win@.widgets =~= widget_pressed(old(win)@, i as int, mx as int, my as int, dbl).0.widgets);
}

#[verifier::rlimit(60)]
fn press_canvas(win: &mut Window, at: Option<(u16, u16)>) -> (r: MouseOutcome)
    requires
        old(win)@.wf(),
    ensures
        final(win)@.wf(),
        ({
            let w1 = WindowModel { focused_widget: None, ..old(win)@ };
            (final(win)@, r) == match at {
                Some(p) => match w1.app {
                    AppModel::Browser(_) => (
                        files::menu_closed(w1, BROWSER_WIDGET_BASE as int),
                        MouseOutcome::PageClick { x: p.0 as usize, y: p.1 as usize },
                    ),
                    AppModel::Paint(q) => (
                        WindowModel { app: AppModel::Paint(pressed_at(q, p)), ..w1 },
                        nothing(),
                    ),
                    _ => (w1, nothing()),
                },
                None => (w1, nothing()),
            }
        }),
{
    win.focused_widget = None;
    let at = match at {
        Some(p) => p,
        None => {
            return MouseOutcome::Act(WinAction::Nothing);
        },
    };
    let page = match &win.app {
        AppState::Browser(_) => true,
        _ => false,
    };
    if page {
        files::close_menu(win, BROWSER_WIDGET_BASE);
        return MouseOutcome::PageClick { x: at.0 as usize, y: at.1 as usize };
    }
    match &mut win.app {
        AppState::Paint(p) => {
            if p.tool == PaintTool::Fill {
                paint::paint_fill(
                    &mut p.canvas,
                    p.cw,
                    p.ch,
                    at.0 as usize,
                    at.1 as usize,
                    p.color,
                );
            } else {
                let ink = if p.tool == PaintTool::Eraser { paint::CANVAS_BG } else { p.color };
                paint::paint_stamp(
                    &mut p.canvas,
                    p.cw,
                    p.ch,
                    at.0 as i32,
                    at.1 as i32,
                    p.brush,
                    ink,
                );
                p.drawing = true;
                p.last = Some(at);
            }
        },
        _ => {},
    }
    MouseOutcome::Act(WinAction::Nothing)
}

/// Which of the ways of being pressed a widget has.
enum Pressable {
    Field,
    Area,
    Code,
    Plain(WinAction),
    Canvas(usize, usize, usize, usize),
    Dead,
}

#[verifier::rlimit(60)]
fn press_widget(win: &mut Window, i: usize, mx: i32, my: i32, dbl: bool) -> (r: MouseOutcome)
    requires
        old(win)@.wf(),
        manager::on_screen((mx, my)),
        i < old(win)@.widgets.len(),
    ensures
        (final(win)@, r) == widget_pressed(old(win)@, i as int, mx as int, my as int, dbl),
        final(win)@.wf(),
{
    let (ox, oy) = win.content_origin();
    let what = match &mut win.widgets[i] {
        Widget::TextBox { .. } => Pressable::Field,
        Widget::TextArea { .. } => Pressable::Area,
        Widget::CodeArea { .. } => Pressable::Code,
        Widget::Button { state, action, .. } => {
            *state = BtnState::Pressed;
            Pressable::Plain(*action)
        },
        Widget::Checkbox { checked, action, .. } => {
            *checked = !*checked;
            Pressable::Plain(*action)
        },
        Widget::Swatch { action, .. } => Pressable::Plain(*action),
        Widget::Canvas { x, y, w, h } => Pressable::Canvas(*x, *y, *w, *h),
        _ => Pressable::Dead,
    };
    proof {
        let got = win@.widgets[i as int];
        assert(win@.widgets =~= old(win)@.widgets.update(i as int, got));
        assert(old(win)@.widgets.update(i as int, old(win)@.widgets[i as int])
            =~= old(win)@.widgets);
    }
    match what {
        Pressable::Field => {
            let same = match win.focused_widget {
                Some(f) => f == i,
                None => false,
            };
            win.focused_widget = Some(i);
            win.replace_on_type = !same;
            match &win.app {
                AppState::Browser(b) => {
                    if b.page.is_some() {
                        MouseOutcome::BlurPage
                    } else {
                        MouseOutcome::Act(WinAction::Nothing)
                    }
                },
                _ => MouseOutcome::Act(WinAction::Nothing),
            }
        },
        Pressable::Area => {
            win.focused_widget = Some(i);
            win.replace_on_type = false;
            MouseOutcome::Act(WinAction::Nothing)
        },
        Pressable::Code => {
            press_code_area(win, i, mx, my, dbl);
            MouseOutcome::Act(WinAction::Nothing)
        },
        Pressable::Plain(a) => MouseOutcome::Act(a),
        Pressable::Canvas(x, y, w, h) => {
            let at = point_on((x, y, w, h), mx - ox, my - oy);
            press_canvas(win, at)
        },
        Pressable::Dead => MouseOutcome::Act(WinAction::Nothing),
    }
}

/// A press inside a window below its titlebar.
pub open spec fn content_pressed(w: WindowModel, mx: int, my: int, dbl: bool) -> (
    WindowModel,
    MouseOutcome,
) {
    let i = files::widget_under(w, mx, my);
    if i >= 0 {
        widget_pressed(w, i, mx, my, dbl)
    } else {
        (WindowModel { focused_widget: None, ..w }, nothing())
    }
}

/// The desktop once its top window was closed.
pub open spec fn top_closed(d: DesktopModel) -> DesktopModel {
    DesktopModel {
        wm: ManagerModel { windows: d.wm.windows.drop_last(), dragging: None, ..d.wm },
        ..d
    }
}

/// The desktop once its top window took a new shape.
pub open spec fn top_reshaped(d: DesktopModel, w: WindowModel) -> DesktopModel {
    DesktopModel { wm: ManagerModel { dragging: None, ..d.wm }, ..d }.set_window(
        d.wm.windows.len() - 1,
        w,
    )
}

/// A press on the top window: its chrome, its titlebar or its content takes
/// the press.
pub open spec fn top_pressed(d: DesktopModel, mx: int, my: int, dbl: bool) -> (
    DesktopModel,
    MouseOutcome,
) {
    let top = d.wm.windows.len() - 1;
    let w = d.wm.windows[top];
    if state::on_chrome(w, 0, mx, my) {
        (
            top_closed(d),
            match w.owner_pid {
                Some(pid) => MouseOutcome::Terminate(pid),
                None => nothing(),
            },
        )
    } else if state::on_chrome(w, 3, mx, my) {
        (top_reshaped(d, state::minimized_of(w)), nothing())
    } else if state::on_chrome(w, 2, mx, my) {
        (top_reshaped(d, state::restored_of(w, d.screen)), nothing())
    } else if state::on_chrome(w, 1, mx, my) {
        (top_reshaped(d, state::maximized_of(w, d.screen)), nothing())
    } else if state::on_titlebar(w, mx, my) {
        if w.maximized {
            (d, nothing())
        } else {
            (
                DesktopModel {
                    wm: ManagerModel {
                        dragging: Some((top as usize, (mx - w.x) as i32, (my - w.y) as i32)),
                        ..d.wm
                    },
                    ..d
                },
                nothing(),
            )
        }
    } else {
        let (w1, r) = content_pressed(w, mx, my, dbl);
        (d.set_window(top, w1), r)
    }
}

/// A press on the window at `k`, which comes to the front.
pub open spec fn window_pressed(d: DesktopModel, k: int, mx: int, my: int, dbl: bool) -> (
    DesktopModel,
    MouseOutcome,
) {
    top_pressed(DesktopModel { wm: manager::raised(d.wm, k), ..d }.redraw(), mx, my, dbl)
}

fn close_top(desk: &mut Desktop) -> (r: MouseOutcome)
    requires
        old(desk)@.wf(),
        old(desk).wm.windows@.len() > 0,
    ensures
        final(desk)@ == top_closed(old(desk)@),
        final(desk)@.wf(),
        r == (match old(desk)@.wm.windows.last().owner_pid {
            Some(pid) => MouseOutcome::Terminate(pid),
            None => nothing(),
        }),
{
    let ghost d = desk@;
    let closed = desk.wm.windows.pop();
    desk.wm.dragging = None;
    proof {
        assert(desk@.wm.windows =~= d.wm.windows.drop_last());
        assert forall|j: int| 0 <= j < desk@.wm.windows.len() implies (
        #[trigger] desk@.wm.windows[j]).wf() by {
            assert(d.wm.windows[j].wf());
        }
    }
    match closed {
        Some(w) => match w.owner_pid {
            Some(pid) => MouseOutcome::Terminate(pid),
            None => MouseOutcome::Act(WinAction::Nothing),
        },
        None => MouseOutcome::Act(WinAction::Nothing),
    }
}

/// How a chrome button reshapes its window: 1 to maximise, 2 to restore, 3 to
/// minimise.
pub open spec fn reshaped(w: WindowModel, button: int, screen: (usize, usize)) -> WindowModel {
    if button == 3 {
        state::minimized_of(w)
    } else if button == 2 {
        state::restored_of(w, screen)
    } else {
        state::maximized_of(w, screen)
    }
}

fn reshape_top(desk: &mut Desktop, button: u8)
    requires
        old(desk)@.wf(),
        old(desk).wm.windows@.len() > 0,
    ensures
        final(desk)@ == top_reshaped(
            old(desk)@,
            reshaped(old(desk)@.wm.windows.last(), button as int, old(desk)@.screen),
        ),
        final(desk)@.wf(),
{
    let top: usize = desk.wm.windows.len() - 1;
    let ghost before = desk.wm.windows@;
    let screen = desk.screen;
    assert(desk@.wm.windows[top as int].wf());
    if button == 3 {
        desk.wm.windows[top].apply_minimize();
    } else if button == 2 {
        desk.wm.windows[top].apply_restore_mid(screen);
    } else {
        desk.wm.windows[top].apply_maximize(screen);
    }
    desk.wm.dragging = None;
    proof {
        manager::view_updated(before, top as int, desk.wm.windows@[top as int]);
    }
}

fn press_content(win: &mut Window, mx: i32, my: i32, dbl: bool) -> (r: MouseOutcome)
    requires
        old(win)@.wf(),
        manager::on_screen((mx, my)),
    ensures
        (final(win)@, r) == content_pressed(old(win)@, mx as int, my as int, dbl),
        final(win)@.wf(),
{
    match win.widget_at(mx, my) {
        Some(i) => press_widget(win, i, mx, my, dbl),
        None => {
            win.focused_widget = None;
            MouseOutcome::Act(WinAction::Nothing)
        },
    }
}

fn press_top(desk: &mut Desktop, mx: i32, my: i32, dbl: bool) -> (r: MouseOutcome)
    requires
        old(desk)@.wf(),
        manager::on_screen((mx, my)),
        old(desk).wm.windows@.len() > 0,
    ensures
        (final(desk)@, r) == top_pressed(old(desk)@, mx as int, my as int, dbl),
        final(desk)@.wf(),
{
    let top: usize = desk.wm.windows.len() - 1;
    let ghost before = desk.wm.windows@;
    assert(desk@.wm.windows[top as int].wf());
    if desk.wm.windows[top].in_close_btn(mx, my) {
        return close_top(desk);
    }
    if desk.wm.windows[top].in_min_btn(mx, my) {
        reshape_top(desk, 3);
        return MouseOutcome::Act(WinAction::Nothing);
    }
    if desk.wm.windows[top].in_mid_btn(mx, my) {
        reshape_top(desk, 2);
        return MouseOutcome::Act(WinAction::Nothing);
    }
    if desk.wm.windows[top].in_max_btn(mx, my) {
        reshape_top(desk, 1);
        return MouseOutcome::Act(WinAction::Nothing);
    }
    if desk.wm.windows[top].in_titlebar(mx, my) {
        if !desk.wm.windows[top].maximized {
            let ox: i32 = mx - desk.wm.windows[top].x;
            let oy: i32 = my - desk.wm.windows[top].y;
            desk.wm.dragging = Some((top, ox, oy));
        }
        return MouseOutcome::Act(WinAction::Nothing);
    }
    let r = press_content(&mut desk.wm.windows[top], mx, my, dbl);
    proof {
        manager::view_updated(before, top as int, desk.wm.windows@[top as int]);
    }
    r
}

fn press_window(desk: &mut Desktop, k: usize, mx: i32, my: i32, dbl: bool) -> (r: MouseOutcome)
    requires
        old(desk)@.wf(),
        manager::on_screen((mx, my)),
        k < old(desk).wm.windows@.len(),
    ensures
        (final(desk)@, r) == window_pressed(old(desk)@, k as int, mx as int, my as int, dbl),
        final(desk)@.wf(),
{
    desk.wm.raise(k);
    desk.dirty = true;
    press_top(desk, mx, my, dbl)
}

/// The left button pressed at the pointer.
pub open spec fn mouse_down(d: DesktopModel, dbl: bool) -> (DesktopModel, MouseOutcome) {
    let mx = d.wm.last_mouse.0 as int;
    let my = d.wm.last_mouse.1 as int;
    let tile = tile_under(d, mx, my);
    let down = DesktopModel { wm: ManagerModel { mouse_left_down: true, ..d.wm }, ..d };
    let k = manager::top_at(d.wm, mx, my);
    if tile >= 0 {
        (DesktopModel { wm: manager::raised(d.wm, tile), ..d }.redraw(), nothing())
    } else if k >= 0 {
        window_pressed(down, k, mx, my, dbl)
    } else if on_apps_button(d.screen, mx, my) {
        (down, MouseOutcome::Act(WinAction::OpenApplications))
    } else if on_shutdown_button(d.screen, mx, my) {
        (down, MouseOutcome::Act(WinAction::Shutdown))
    } else if dbl && icon_under(mx, my) >= 0 {
        (down, MouseOutcome::Act(desktop_action(icon_under(mx, my))))
    } else {
        (down, nothing())
    }
}

fn press(desk: &mut Desktop, dbl: bool) -> (r: MouseOutcome)
    requires
        old(desk)@.wf(),
    ensures
        (final(desk)@, r) == mouse_down(old(desk)@, dbl),
        final(desk)@.wf(),
{
    let (mx, my) = desk.wm.last_mouse;
    if let Some(i) = taskbar_minimized_at(desk, mx, my) {
        desk.wm.raise(i);
        desk.dirty = true;
        return MouseOutcome::Act(WinAction::Nothing);
    }
    let hit = desk.wm.topmost_at(mx, my);
    desk.wm.mouse_left_down = true;
    match hit {
        Some(k) => press_window(desk, k, mx, my, dbl),
        None => {
            if taskbar_apps_btn_at(desk.screen, mx, my) {
                return MouseOutcome::Act(WinAction::OpenApplications);
            }
            if taskbar_shutdown_btn_at(desk.screen, mx, my) {
                return MouseOutcome::Act(WinAction::Shutdown);
            }
            if dbl {
                if let Some(i) = desktop_icon_at(mx, my) {
                    let a = match i {
                        0 => WinAction::OpenMyComputer,
                        1 => WinAction::OpenDrive(3),
                        2 => WinAction::OpenBrowser,
                        3 => WinAction::OpenApplications,
                        _ => WinAction::OpenInstaller,
                    };
                    return MouseOutcome::Act(a);
                }
            }
            MouseOutcome::Act(WinAction::Nothing)
        },
    }
}

// ── Windows that see the mouse first ────────────────────────────────────────

/// A button change that a file dialog, a File Explorer or a browser deals
/// with before anything else: the desktop after it, and what is left to do if
/// it was dealt with.
pub open spec fn dialog_intercept(d: DesktopModel, pressed: bool, dbl: bool) -> (
    DesktopModel,
    Option<MouseOutcome>,
) {
    let mx = d.wm.last_mouse.0 as int;
    let my = d.wm.last_mouse.1 as int;
    let k = manager::top_at(d.wm, mx, my);
    if !(pressed || dbl) || k < 0 || d.wm.windows[k].kind != WindowKind::FileDialog {
        (d, None)
    } else {
        let d1 = DesktopModel { wm: manager::raised(d.wm, k), ..d };
        let top = d1.wm.windows.len() - 1;
        let w = d1.wm.windows[top];
        if state::on_chrome(w, 0, mx, my) || state::on_titlebar(w, mx, my) {
            (d1, None)
        } else {
            let (w1, used, open) = files::dialog_mouse(w, mx, my, true, dbl);
            let d2 = d1.set_window(top, w1);
            if used {
                (
                    d2.redraw(),
                    Some(if open { MouseOutcome::OpenDialogEntry } else { nothing() }),
                )
            } else {
                (d2, None)
            }
        }
    }
}

fn file_dialog_intercept(desk: &mut Desktop, pressed: bool, dbl: bool) -> (r: Option<MouseOutcome>)
    requires
        old(desk)@.wf(),
    ensures
        (final(desk)@, r) == dialog_intercept(old(desk)@, pressed, dbl),
        final(desk)@.wf(),
{
    if !pressed && !dbl {
        return None;
    }
    let (mx, my) = desk.wm.last_mouse;
    let k: usize = match desk.wm.topmost_at(mx, my) {
        Some(k) => k,
        None => {
            return None;
        },
    };
    if desk.wm.windows[k].kind != WindowKind::FileDialog {
        return None;
    }
    desk.wm.raise(k);
    let top: usize = desk.wm.windows.len() - 1;
    let ghost before = desk.wm.windows@;
    assert(desk@.wm.windows[top as int].wf());
    if desk.wm.windows[top].in_close_btn(mx, my) || desk.wm.windows[top].in_titlebar(mx, my) {
        return None;
    }
    let (used, open) = files::file_dialog_handle_mouse(
        &mut desk.wm.windows[top],
        mx,
        my,
        true,
        dbl,
    );
    proof {
        manager::view_updated(before, top as int, desk.wm.windows@[top as int]);
    }
    if used {
        desk.dirty = true;
        Some(
            if open {
                MouseOutcome::OpenDialogEntry
            } else {
                MouseOutcome::Act(WinAction::Nothing)
            },
        )
    } else {
        None
    }
}

pub open spec fn explorer_intercept(d: DesktopModel, left: bool, right: bool, dbl: bool) -> (
    DesktopModel,
    Option<MouseOutcome>,
) {
    let mx = d.wm.last_mouse.0 as int;
    let my = d.wm.last_mouse.1 as int;
    let k = manager::top_at(d.wm, mx, my);
    if !(left || right || dbl) || k < 0 || d.wm.windows[k].kind != WindowKind::FileManager {
        (d, None)
    } else {
        let d1 = DesktopModel { wm: manager::raised(d.wm, k), ..d };
        let top = d1.wm.windows.len() - 1;
        let w = d1.wm.windows[top];
        if state::on_chrome(w, 0, mx, my) || state::on_titlebar(w, mx, my) {
            (d1, None)
        } else {
            let (w1, used, open) = files::explorer_mouse(w, mx, my, left, right, dbl);
            let d2 = d1.set_window(top, w1);
            if used {
                (d2.redraw(), Some(if open { MouseOutcome::OpenEntry } else { nothing() }))
            } else {
                (d2, None)
            }
        }
    }
}

#[verifier::rlimit(60)]
fn file_manager_intercept(desk: &mut Desktop, left: bool, right: bool, dbl: bool) -> (r: Option<
    MouseOutcome,
>)
    requires
        old(desk)@.wf(),
    ensures
        (final(desk)@, r) == explorer_intercept(old(desk)@, left, right, dbl),
        final(desk)@.wf(),
{
    if !left && !right && !dbl {
        return None;
    }
    let (mx, my) = desk.wm.last_mouse;
    let k: usize = match desk.wm.topmost_at(mx, my) {
        Some(k) => k,
        None => {
            return None;
        },
    };
    if desk.wm.windows[k].kind != WindowKind::FileManager {
        return None;
    }
    desk.wm.raise(k);
    let top: usize = desk.wm.windows.len() - 1;
    let ghost before = desk.wm.windows@;
    assert(desk@.wm.windows[top as int].wf());
    if desk.wm.windows[top].in_close_btn(mx, my) || desk.wm.windows[top].in_titlebar(mx, my) {
        return None;
    }
    let (used, open) = files::file_manager_handle_mouse(
        &mut desk.wm.windows[top],
        mx,
        my,
        left,
        right,
        dbl,
    );
    proof {
        manager::view_updated(before, top as int, desk.wm.windows@[top as int]);
    }
    if used {
        desk.dirty = true;
        Some(
            if open {
                MouseOutcome::OpenEntry
            } else {
                MouseOutcome::Act(WinAction::Nothing)
            },
        )
    } else {
        None
    }
}

/// A canvas in screen coordinates; what is off the left or top edge begins at
/// zero.
pub open spec fn canvas_on_screen(w: WindowModel) -> Option<(usize, usize, usize, usize)> {
    match first_canvas(w.widgets) {
        Some((x, y, cw, ch)) => Some(
            (
                state::at_least(
                    (files::origin(w).0 as i32).wrapping_add(x as i32) as int,
                    0,
                ) as usize,
                state::at_least(
                    (files::origin(w).1 as i32).wrapping_add(y as i32) as int,
                    0,
                ) as usize,
                cw,
                ch,
            ),
        ),
        None => None,
    }
}

pub fn find_canvas_screen(win: &Window) -> (r: Option<(usize, usize, usize, usize)>)
    requires
        win@.wf(),
    ensures
        r == canvas_on_screen(win@),
        r matches Some((x, y, _, _)) ==> x < 0x8000_0000 && y < 0x8000_0000,
{
    let (ox, oy) = win.content_origin();
    match find_canvas(win) {
        Some((x, y, w, h)) => {
            let sx: i32 = ox.wrapping_add(x as i32);
            let sy: i32 = oy.wrapping_add(y as i32);
            Some(
                (
                    if sx > 0 {
                        sx as usize
                    } else {
                        0
                    },
                    if sy > 0 {
                        sy as usize
                    } else {
                        0
                    },
                    w,
                    h,
                ),
            )
        },
        None => None,
    }
}

pub open spec fn scroll_of(w: WindowModel) -> usize {
    match w.app {
        AppModel::Browser(b) => b.scroll,
        _ => 0,
    }
}

/// A right-click over a browser: on the page it asks for the context menu,
/// beside it any open menu closes.
pub open spec fn page_intercept(d: DesktopModel, right: bool) -> (
    DesktopModel,
    Option<MouseOutcome>,
) {
    let mx = d.wm.last_mouse.0 as int;
    let my = d.wm.last_mouse.1 as int;
    let k = manager::top_at(d.wm, mx, my);
    if !right || k < 0 || d.wm.windows[k].kind != WindowKind::Browser {
        (d, None)
    } else {
        let d1 = DesktopModel { wm: manager::raised(d.wm, k), ..d };
        let top = d1.wm.windows.len() - 1;
        let w = d1.wm.windows[top];
        if state::on_chrome(w, 0, mx, my) || state::on_titlebar(w, mx, my) {
            (d1, None)
        } else {
            match canvas_on_screen(w) {
                None => (d1, None),
                Some((cx, cy, cw, ch)) => if mx < cx || mx >= cx + cw || my < cy || my >= cy + ch {
                    (
                        d1.set_window(
                            top,
                            files::menu_closed(w, BROWSER_WIDGET_BASE as int),
                        ).redraw(),
                        Some(nothing()),
                    )
                } else {
                    (
                        d1,
                        Some(
                            MouseOutcome::PageMenu {
                                x: state::less(mx - cx, BROWSER_PADDING as int) as usize,
                                y: page_y(my - cy, scroll_of(w)),
                            },
                        ),
                    )
                },
            }
        }
    }
}

/// A height above the top of the document, from one above the canvas.
pub open spec fn page_y(y: int, scroll: usize) -> usize {
    state::less((y as usize).wrapping_add(scroll) as int, BROWSER_PADDING as int) as usize
}

#[verifier::rlimit(60)]
fn browser_intercept(desk: &mut Desktop, right: bool) -> (r: Option<MouseOutcome>)
    requires
        old(desk)@.wf(),
    ensures
        (final(desk)@, r) == page_intercept(old(desk)@, right),
        final(desk)@.wf(),
{
    if !right {
        return None;
    }
    let (mx, my) = desk.wm.last_mouse;
    let k: usize = match desk.wm.topmost_at(mx, my) {
        Some(k) => k,
        None => {
            return None;
        },
    };
    if desk.wm.windows[k].kind != WindowKind::Browser {
        return None;
    }
    desk.wm.raise(k);
    let top: usize = desk.wm.windows.len() - 1;
    let ghost before = desk.wm.windows@;
    assert(desk@.wm.windows[top as int].wf());
    if desk.wm.windows[top].in_close_btn(mx, my) || desk.wm.windows[top].in_titlebar(mx, my) {
        return None;
    }
    let (cx, cy, cw, ch) = match find_canvas_screen(&desk.wm.windows[top]) {
        Some(c) => c,
        None => {
            return None;
        },
    };
    let ux: usize = mx as usize;
    let uy: usize = my as usize;
    if ux < cx || ux - cx >= cw || uy < cy || uy - cy >= ch {
        files::close_menu(&mut desk.wm.windows[top], BROWSER_WIDGET_BASE);
        proof {
            manager::view_updated(before, top as int, desk.wm.windows@[top as int]);
        }
        desk.dirty = true;
        return Some(MouseOutcome::Act(WinAction::Nothing));
    }
    let scroll: usize = match &desk.wm.windows[top].app {
        AppState::Browser(b) => b.scroll,
        _ => 0,
    };
    let x: usize = ux - cx;
    let y: usize = (uy - cy).wrapping_add(scroll);
    Some(
        MouseOutcome::PageMenu {
            x: if x >= BROWSER_PADDING {
                x - BROWSER_PADDING
            } else {
                0
            },
            y: if y >= BROWSER_PADDING {
                y - BROWSER_PADDING
            } else {
                0
            },
        },
    )
}

// ── Dispatch ────────────────────────────────────────────────────────────────

/// A change of the mouse buttons, with the pointer where it last was.
pub open spec fn buttons_changed(
    d: DesktopModel,
    left: bool,
    prev_left: bool,
    right: bool,
    prev_right: bool,
    dbl: bool,
) -> (DesktopModel, MouseOutcome) {
    let press = left && !prev_left;
    let (d1, r1) = dialog_intercept(d, press, dbl);
    if r1 is Some {
        (d1, r1->0)
    } else {
        let (d2, r2) = explorer_intercept(d1, press, right && !prev_right, dbl);
        if r2 is Some {
            (d2, r2->0)
        } else {
            let (d3, r3) = page_intercept(d2, right && !prev_right);
            if r3 is Some {
                (d3, r3->0)
            } else if press {
                mouse_down(d3, dbl)
            } else if !left && prev_left {
                (mouse_up(d3), nothing())
            } else {
                (d3, nothing())
            }
        }
    }
}

pub fn handle_mouse_button(
    desk: &mut Desktop,
    left: bool,
    prev_left: bool,
    right: bool,
    prev_right: bool,
    dbl: bool,
) -> (r: MouseOutcome)
    requires
        old(desk)@.wf(),
    ensures
        (final(desk)@, r) == buttons_changed(old(desk)@, left, prev_left, right, prev_right, dbl),
        final(desk)@.wf(),
{
    let pressed = left && !prev_left;
    let right_edge = right && !prev_right;
    if let Some(r) = file_dialog_intercept(desk, pressed, dbl) {
        return r;
    }
    if let Some(r) = file_manager_intercept(desk, pressed, right_edge, dbl) {
        return r;
    }
    if let Some(r) = browser_intercept(desk, right_edge) {
        return r;
    }
    if pressed {
        return press(desk, dbl);
    }
    if !left && prev_left {
        release_all(desk);
    }
    MouseOutcome::Act(WinAction::Nothing)
}

/// Route a wheel movement to whatever is under it. Only the browser scrolls.
/// The wheel reports up as negative, which is the opposite of the scroll
/// direction.
pub fn handle_mouse_wheel(desk: &Desktop, delta: i8) -> (r: Option<WinAction>)
    ensures
        r == (if manager::top(desk@.wm) >= 0 && desk@.wm.windows[manager::top(desk@.wm)].kind
            == WindowKind::Browser {
            Some(
                WinAction::BrowserScroll(
                    (if delta > 3 {
                        -3int
                    } else if delta < -3 {
                        3int
                    } else {
                        -delta
                    }) as i8,
                ),
            )
        } else {
            None
        }),
{
    match desk.wm.topmost_idx() {
        Some(i) => {
            if desk.wm.windows[i].kind != WindowKind::Browser {
                return None;
            }
            let d: i8 = if delta > 3 {
                3
            } else if delta < -3 {
                -3
            } else {
                delta
            };
            Some(WinAction::BrowserScroll(-d))
        },
        None => None,
    }
}

/// After the button is let go, nothing is dragged and no button stays pressed.
pub proof fn release_ends_everything(d: DesktopModel, i: int, j: int)
    requires
        0 <= i < d.wm.windows.len(),
        0 <= j < d.wm.windows[i].widgets.len(),
    ensures
        mouse_up(d).wm.dragging is None,
        !mouse_up(d).wm.mouse_left_down,
        mouse_up(d).wm.windows[i].widgets[j] matches Widget::Button { state: s, .. } ==> s
            != BtnState::Pressed,
        mouse_up(d).wm.windows[i].app matches AppModel::Paint(p) ==> !p.drawing,
{
}

/// Raising a window moves it to the top, unhides it, and keeps every other
/// window and the order among them.
pub proof fn raising_keeps_the_others(m: ManagerModel, i: int)
    requires
        0 <= i < m.windows.len(),
    ensures
        manager::raised(m, i).windows.len() == m.windows.len(),
        manager::raised(m, i).windows.drop_last() == m.windows.remove(i),
        manager::raised(m, i).windows.last().id == m.windows[i].id,
        manager::top(manager::raised(m, i)) == m.windows.len() - 1,
{
    assert(manager::raised(m, i).windows.drop_last() =~= m.windows.remove(i));
}

/// A window taken by its titlebar follows the pointer: however far the pointer
/// moves, the window moves as far, and no other window moves.
pub proof fn dragged_windows_follow_the_pointer(
    d: DesktopModel,
    mx: int,
    my: int,
    x: int,
    y: int,
    dbl: bool,
    j: int,
)
    requires
        d.wf(),
        d.wm.windows.len() > 0,
        d.wm.windows.len() <= usize::MAX,
        0 <= j < d.wm.windows.len() - 1,
        0 <= mx < 0x100_0000,
        0 <= my < 0x100_0000,
        0 <= x < 0x100_0000,
        0 <= y < 0x100_0000,
        ({
            let w = d.wm.windows[d.wm.windows.len() - 1];
            &&& state::on_titlebar(w, mx, my)
            &&& !w.maximized
            &&& forall|k: int| 0 <= k <= 3 ==> !#[trigger] state::on_chrome(w, k, mx, my)
        }),
    ensures
        ({
            let top = d.wm.windows.len() - 1;
            let w = d.wm.windows[top];
            let held = top_pressed(d, mx, my, dbl).0;
            let moved = mouse_moved(held, x, y);
            &&& moved.wm.windows[top].x == w.x + (x - mx)
            &&& moved.wm.windows[top].y == w.y + (y - my)
            &&& moved.wm.windows[top].w == w.w && moved.wm.windows[top].h == w.h
            &&& moved.wm.windows[j] == d.wm.windows[j]
            &&& mouse_up(moved).wm.dragging is None
        }),
{
    let w = d.wm.windows[d.wm.windows.len() - 1];
    assert(w.wf());
    assert(!state::on_chrome(w, 0, mx, my));
    assert(!state::on_chrome(w, 1, mx, my));
    assert(!state::on_chrome(w, 2, mx, my));
    assert(!state::on_chrome(w, 3, mx, my));
}

/// The buttons of a titlebar do what they are for: the rightmost closes the
/// window, and ends the program that it belongs to; the next ones maximise it,
/// bring it back and minimise it. The other windows stay as they are.
pub proof fn titlebar_buttons_do_their_part(d: DesktopModel, mx: int, my: int, dbl: bool, j: int)
    requires
        d.wm.windows.len() > 0,
        0 <= j < d.wm.windows.len() - 1,
    ensures
        ({
            let top = d.wm.windows.len() - 1;
            let w = d.wm.windows[top];
            let (e, r) = top_pressed(d, mx, my, dbl);
            &&& state::on_chrome(w, 0, mx, my) ==> e.wm.windows == d.wm.windows.drop_last() && r
                == (match w.owner_pid {
                Some(pid) => MouseOutcome::Terminate(pid),
                None => MouseOutcome::Act(WinAction::Nothing),
            })
            &&& state::on_chrome(w, 1, mx, my) && !w.maximized ==> e.wm.windows[top].maximized
            &&& state::on_chrome(w, 2, mx, my) ==> !e.wm.windows[top].maximized
                && !e.wm.windows[top].minimized
            &&& state::on_chrome(w, 3, mx, my) ==> e.wm.windows[top].minimized
            &&& e.wm.windows[j] == d.wm.windows[j]
            &&& e.wm.windows.len() < d.wm.windows.len() ==> state::on_chrome(w, 0, mx, my)
            &&& r is Terminate ==> state::on_chrome(w, 0, mx, my)
        }),
{
    let top = d.wm.windows.len() - 1;
    let w = d.wm.windows[top];
    hit_bounds(w.widgets, mx - files::origin(w).0, my - files::origin(w).1);
    assert(state::playfield_of(w).maximized == w.maximized);
}

/// A press on a button asks for its action and shows it pressed; a box is
/// ticked or unticked, twice over as it was; a field gets the focus. No other
/// widget changes.
pub proof fn widgets_do_what_they_are_for(
    w: WindowModel,
    i: int,
    mx: int,
    my: int,
    dbl: bool,
    j: int,
)
    requires
        0 <= i < w.widgets.len(),
        w.widgets.len() <= usize::MAX,
        0 <= j < w.widgets.len(),
        j != i,
        !(w.widgets[i] is Canvas),
    ensures
        ({
            let (v, r) = widget_pressed(w, i, mx, my, dbl);
            &&& v.widgets[j] == w.widgets[j]
            &&& w.widgets[i] is Button ==> r == MouseOutcome::Act(w.widgets[i]->Button_action)
                && v.widgets[i]->Button_state == BtnState::Pressed && v.widgets[i]->Button_action
                == w.widgets[i]->Button_action
            &&& w.widgets[i] is Swatch ==> r == MouseOutcome::Act(w.widgets[i]->Swatch_action)
            &&& w.widgets[i] is Checkbox ==> r == MouseOutcome::Act(w.widgets[i]->Checkbox_action)
                && v.widgets[i]->Checkbox_checked == !w.widgets[i]->Checkbox_checked
                && widget_pressed(v, i, mx, my, dbl).0.widgets[i] == w.widgets[i]
            &&& w.widgets[i] is TextBox || w.widgets[i] is TextArea || w.widgets[i] is CodeArea
                ==> v.focused_widget == Some(i as usize)
            &&& w.widgets[i] is CodeArea ==> v.widgets[i]->CodeArea_text
                == w.widgets[i]->CodeArea_text
            &&& w.widgets[i] is CodeArea && !dbl ==> v.widgets[i]->CodeArea_selection == Some(
                v.widgets[i]->CodeArea_cursor,
            )
            &&& v.app == w.app && v.title == w.title
        }),
{
}

/// Pressing the canvas paints there: the brush with its colour, the eraser with
/// white, and the bucket with its colour wherever the region reaches. The
/// pixel under the pointer always has the new colour.
pub proof fn pressing_paints_the_pixel(p: state::PaintModel, at: (u16, u16))
    requires
        p.wf(),
        at.0 < p.cw,
        at.1 < p.ch,
    ensures
        ({
            let q = pressed_at(p, at);
            let i = at.1 * p.cw + at.0;
            &&& q.canvas.len() == p.canvas.len()
            &&& p.tool == PaintTool::Eraser ==> q.canvas[i] == 0xFFFFFF
            &&& p.tool != PaintTool::Eraser ==> q.canvas[i] == p.color
            &&& p.tool != PaintTool::Fill ==> q.drawing && q.last == Some(at)
            &&& p.tool == PaintTool::Fill ==> q.drawing == p.drawing
            &&& q.color == p.color && q.brush == p.brush && q.tool == p.tool
        }),
{
    let cw = p.cw as int;
    let ch = p.ch as int;
    let x = at.0 as int;
    let y = at.1 as int;
    assert(paint::bitmap(p.canvas, cw, ch));
    paint::a_stamp_is_a_disc(p.canvas, cw, ch, x, y, p.brush as int, ink(p), x, y);
    assert(0 <= p.brush * p.brush) by (nonlinear_arith);
    paint::a_fill_colours_its_start(p.canvas, cw, ch, x, y, p.color);
}

/// Dragging paints without gaps: both the pixel where the pointer was and the
/// one where it is now are painted, and the next stroke goes on from there.
pub proof fn dragging_paints_without_gaps(p: state::PaintModel, from: (u16, u16), to: (u16, u16))
    requires
        p.wf(),
        p.last == Some(from),
        from.0 < p.cw,
        from.1 < p.ch,
        to.0 < p.cw,
        to.1 < p.ch,
    ensures
        ({
            let q = dragged_to(p, to);
            let c: u32 = if p.tool == PaintTool::Eraser {
                0xFFFFFF
            } else {
                p.color
            };
            &&& q.last == Some(to)
            &&& q.canvas[from.1 * p.cw + from.0] == c
            &&& q.canvas[to.1 * p.cw + to.0] == c
            &&& q.canvas.len() == p.canvas.len()
        }),
{
    assert(paint::bitmap(p.canvas, p.cw as int, p.ch as int));
    paint::a_stroke_joins_its_ends(
        p.canvas,
        p.cw as int,
        p.ch as int,
        from,
        to,
        p.brush as int,
        ink(p),
    );
}

/// The pointer lights up the button it is on and no other, and presses none.
pub proof fn only_the_button_under_the_pointer_lights_up(w: WindowModel, on: int, i: int)
    requires
        0 <= i < w.widgets.len(),
        w.widgets[i] is Button,
        w.widgets[i]->Button_state != BtnState::Pressed,
    ensures
        hover_window(w, on).widgets[i]->Button_state == (if i == on {
            BtnState::Hover
        } else {
            BtnState::Normal
        }),
        hover_window(w, on).widgets[i]->Button_action == w.widgets[i]->Button_action,
        hover_window(w, on).widgets.len() == w.widgets.len(),
{
}

/// The two buttons of the taskbar share no point, and with no window in the way
/// each does its own.
pub proof fn taskbar_buttons_do_their_part(d: DesktopModel, dbl: bool)
    requires
        tile_under(d, d.wm.last_mouse.0 as int, d.wm.last_mouse.1 as int) < 0,
        manager::top_at(d.wm, d.wm.last_mouse.0 as int, d.wm.last_mouse.1 as int) < 0,
    ensures
        ({
            let x = d.wm.last_mouse.0;
            let y = d.wm.last_mouse.1;
            let bar = d.screen.1 - 40;
            let r = mouse_down(d, dbl).1;
            &&& d.screen.1 >= 40 && bar + 4 <= y < bar + 40 && 8 <= x < 156 ==> r
                == MouseOutcome::Act(WinAction::OpenApplications)
            &&& d.screen.1 >= 40 && bar + 4 <= y < bar + 40 && 166 <= x < 266 ==> r
                == MouseOutcome::Act(WinAction::Shutdown)
            &&& d.screen.1 >= 40 && r == MouseOutcome::Act(WinAction::Shutdown) ==> bar + 4 <= y
                < bar + 40 && 166 <= x < 266
            &&& mouse_down(d, dbl).0.wm.windows == d.wm.windows
        }),
{
}

/// A tile of the taskbar brings its window back to the front.
pub proof fn tiles_bring_windows_back(d: DesktopModel, dbl: bool)
    requires
        tile_under(d, d.wm.last_mouse.0 as int, d.wm.last_mouse.1 as int) >= 0,
    ensures
        ({
            let k = tile_under(d, d.wm.last_mouse.0 as int, d.wm.last_mouse.1 as int);
            let e = mouse_down(d, dbl).0;
            &&& 0 <= k < d.wm.windows.len()
            &&& d.wm.windows[k].minimized
            &&& e.wm.windows.last() == (WindowModel { minimized: false, ..d.wm.windows[k] })
            &&& e.wm.windows.len() == d.wm.windows.len()
        }),
{
    tile_is_of_a_hidden_window(d.wm.windows, 0, 278, d.screen.0 as int, d.wm.last_mouse.0 as int);
}

proof fn tile_is_of_a_hidden_window(ws: Seq<WindowModel>, i: int, tx: int, sw: int, px: int)
    ensures
        tile_from(ws, i, tx, sw, px) >= 0 ==> tile_from(ws, i, tx, sw, px) < ws.len()
            && ws[tile_from(ws, i, tx, sw, px)].minimized,
    decreases ws.len() - i,
{
    if 0 <= i < ws.len() {
        if !ws[i].minimized {
            tile_is_of_a_hidden_window(ws, i + 1, tx, sw, px);
        } else {
            tile_is_of_a_hidden_window(ws, i + 1, tx + tile_width(ws[i].title) + 8, sw, px);
        }
    }
}

/// A click on the page is told to the page where it was made on the canvas.
pub proof fn the_page_hears_where_it_was_clicked(
    at: (usize, usize, usize, usize),
    lx: int,
    ly: int,
)
    requires
        at.0 + at.2 <= 0x100_0000,
        at.1 + at.3 <= 0x100_0000,
        at.2 <= 0xFFFF,
        at.3 <= 0xFFFF,
    ensures
        on_widget(at, lx, ly) is Some <==> at.0 <= lx < at.0 + at.2 && at.1 <= ly < at.1 + at.3,
        on_widget(at, lx, ly) matches Some(p) ==> p.0 == lx - at.0 && p.1 == ly - at.1,
{
}

} // verus!
