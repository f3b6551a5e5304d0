//! What the buttons, menus and keys of the desktop's own windows do.

use vstd::prelude::*;
use vstd::string::*;

use crate::text;
use crate::window::apps;
use crate::window::apps::wallpaper_text;
use crate::window::browser;
use crate::window::browser::{
    browser_back, browser_close_top_menu, browser_open_menu_target, browser_reload, browser_scroll,
    browser_scroll_to, typed_address,
};
use crate::window::calc::{calc_press, CalcKey};
use crate::window::calls;
use crate::window::calls::deliver_click;
use crate::window::dialog;
use crate::window::dialog::{
    file_dialog_close, file_dialog_confirm_open, file_dialog_confirm_save, file_dialog_up,
    open_file_dialog, DialogStep,
};
use crate::window::documents;
use crate::window::documents::{code_editor_new, code_editor_save, notepad_clear, notepad_save};
use crate::window::explorer;
use crate::window::explorer::{
    file_manager_delete, file_manager_go_up, file_manager_open_selected,
    file_manager_preview_selection_or_readme, file_manager_set_wallpaper, fm_close_top_file_menu,
    set_view, FileStep,
};
use crate::window::files;
use crate::window::installer;
use crate::window::installer::{installer_back, installer_next, installer_pick, installer_start, Start};
use crate::window::manager;
use crate::window::manager::{exit_gui_mode, set_label_text, Desktop, DesktopModel, ManagerModel};
use crate::window::paint::{CANVAS_BG, PAINT_PALETTE};
use crate::window::state;
use crate::window::state::{
    AppModel, AppState, Game, PaintModel, SnakeModel, Window, WindowModel,
};
use crate::window::widget;
use crate::window::widget::{
    FileDialogMode, FileDialogTarget, FmViewMode, PaintTool, WinAction, Widget, WindowKind,
};

verus! {

// ── Paint ───────────────────────────────────────────────────────────────────

pub open spec fn wiped(p: PaintModel) -> PaintModel {
    PaintModel {
        canvas: Seq::new(p.canvas.len(), |i: int| CANVAS_BG),
        drawing: false,
        last: None,
        ..p
    }
}

pub open spec fn picture_wiped() -> spec_fn(WindowModel) -> WindowModel {
    |w: WindowModel|
        match w.app {
            AppModel::Paint(p) => WindowModel { app: AppModel::Paint(wiped(p)), ..w },
            _ => w,
        }
}

fn wipe(win: &mut Window)
    requires
        old(win)@.wf(),
    ensures
        final(win)@ == picture_wiped()(old(win)@),
        final(win)@.wf(),
{
    match &mut win.app {
        AppState::Paint(p) => {
            let n: usize = p.canvas.len();
            p.canvas = vec![CANVAS_BG;n];
            p.drawing = false;
            p.last = None;
            assert(p.canvas@ =~= Seq::new(n as nat, |i: int| CANVAS_BG));
        },
        _ => {},
    }
}

/// Start over with a blank picture.
pub fn paint_clear(desk: &mut Desktop)
    requires
        old(desk)@.wf(),
    ensures
        final(desk)@ == documents::on_top(old(desk)@, WindowKind::Paint, picture_wiped()),
        final(desk)@.wf(),
{
    if let Some(i) = desk.wm.find_last_kind(WindowKind::Paint) {
        let ghost before = desk.wm.windows@;
        assert(desk@.wm.windows[i as int].wf());
        wipe(&mut desk.wm.windows[i]);
        proof {
            manager::view_updated(before, i as int, desk.wm.windows@[i as int]);
        }
    }
    desk.dirty = true;
}

/// Picking a colour implies painting with it: the eraser is put away.
pub open spec fn inked(p: PaintModel, idx: u8) -> PaintModel {
    PaintModel {
        color: PAINT_PALETTE[idx as int],
        tool: if p.tool == PaintTool::Eraser {
            PaintTool::Brush
        } else {
            p.tool
        },
        ..p
    }
}

/// A colour chip, marked if it is the one that was picked.
pub open spec fn chip_marked(wgt: Widget<Seq<char>>, idx: u8) -> Widget<Seq<char>> {
    match wgt {
        Widget::Swatch { x, y, w, h, color, selected, action } => Widget::Swatch {
            x,
            y,
            w,
            h,
            color,
            selected: action == WinAction::PaintColor(idx),
            action,
        },
        _ => wgt,
    }
}

pub open spec fn colour_picked(idx: u8) -> spec_fn(WindowModel) -> WindowModel {
    |w: WindowModel|
        if idx < 16 {
            WindowModel {
                app: match w.app {
                    AppModel::Paint(p) => AppModel::Paint(inked(p, idx)),
                    a => a,
                },
                widgets: w.widgets.map_values(|g: Widget<Seq<char>>| chip_marked(g, idx)),
                ..w
            }
        } else {
            w
        }
}

fn mark_chip(wgt: &mut Widget, idx: u8)
    ensures
        final(wgt)@ == chip_marked(old(wgt)@, idx),
{
    if let Widget::Swatch { selected, action, .. } = wgt {
        *selected = match *action {
            WinAction::PaintColor(i) => i == idx,
            _ => false,
        };
    }
}

fn mark_chips(win: &mut Window, idx: u8)
    ensures
        final(win)@ == (WindowModel {
            widgets: old(win)@.widgets.map_values(|g: Widget<Seq<char>>| chip_marked(g, idx)),
            ..old(win)@
        }),
{
    let ghost start = win@;
    let mut i: usize = 0;
    while i < win.widgets.len()
        invariant
            i <= win.widgets@.len(),
            win.widgets@.len() == start.widgets.len(),
            win@ == (WindowModel { widgets: win@.widgets, ..start }),
            forall|j: int| 0 <= j < i ==> #[trigger] win.widgets@[j]@ == chip_marked(start.widgets[j], idx),
            forall|j: int| i <= j < start.widgets.len() ==> #[trigger] win.widgets@[j]@ == start.widgets[j],
        decreases win.widgets@.len() - i,
    {
        assert(win.widgets@[i as int]@ == start.widgets[i as int]);
        mark_chip(&mut win.widgets[i], idx);
        i = i + 1;
    }
    assert(win@.widgets =~= start.widgets.map_values(
        |g: Widget<Seq<char>>| chip_marked(g, idx),
    ));
}

fn pick_colour(win: &mut Window, idx: u8)
    requires
        old(win)@.wf(),
    ensures
        final(win)@ == colour_picked(idx)(old(win)@),
        final(win)@.wf(),
{
    if idx >= 16 {
        return;
    }
    match &mut win.app {
        AppState::Paint(p) => {
            p.color = PAINT_PALETTE[idx as usize];
            if p.tool == PaintTool::Eraser {
                p.tool = PaintTool::Brush;
            }
        },
        _ => {},
    }
    mark_chips(win, idx);
}

/// Paint with the given colour of the palette from now on.
pub fn paint_set_color(desk: &mut Desktop, idx: u8)
    requires
        old(desk)@.wf(),
    ensures
        final(desk)@ == documents::on_top(old(desk)@, WindowKind::Paint, colour_picked(idx)),
        final(desk)@.wf(),
{
    if let Some(i) = desk.wm.find_last_kind(WindowKind::Paint) {
        let ghost before = desk.wm.windows@;
        assert(desk@.wm.windows[i as int].wf());
        pick_colour(&mut desk.wm.windows[i], idx);
        proof {
            manager::view_updated(before, i as int, desk.wm.windows@[i as int]);
        }
    }
    desk.dirty = true;
}

pub open spec fn brush_set(size: u8) -> spec_fn(WindowModel) -> WindowModel {
    |w: WindowModel|
        match w.app {
            AppModel::Paint(p) => WindowModel {
                app: AppModel::Paint(PaintModel { brush: size as usize, ..p }),
                ..w
            },
            _ => w,
        }
}

fn pick_brush(win: &mut Window, size: u8)
    requires
        old(win)@.wf(),
    ensures
        final(win)@ == brush_set(size)(old(win)@),
        final(win)@.wf(),
{
    match &mut win.app {
        AppState::Paint(p) => {
            p.brush = size as usize;
        },
        _ => {},
    }
}

pub fn paint_set_brush(desk: &mut Desktop, size: u8)
    requires
        old(desk)@.wf(),
    ensures
        final(desk)@ == documents::on_top(old(desk)@, WindowKind::Paint, brush_set(size)),
        final(desk)@.wf(),
{
    if let Some(i) = desk.wm.find_last_kind(WindowKind::Paint) {
        let ghost before = desk.wm.windows@;
        assert(desk@.wm.windows[i as int].wf());
        pick_brush(&mut desk.wm.windows[i], size);
        proof {
            manager::view_updated(before, i as int, desk.wm.windows@[i as int]);
        }
    }
    desk.dirty = true;
}

pub open spec fn tool_set(tool: PaintTool) -> spec_fn(WindowModel) -> WindowModel {
    |w: WindowModel|
        match w.app {
            AppModel::Paint(p) => WindowModel {
                app: AppModel::Paint(PaintModel { tool, ..p }),
                ..w
            },
            _ => w,
        }
}

fn pick_tool(win: &mut Window, tool: PaintTool)
    requires
        old(win)@.wf(),
    ensures
        final(win)@ == tool_set(tool)(old(win)@),
        final(win)@.wf(),
{
    match &mut win.app {
        AppState::Paint(p) => {
            p.tool = tool;
        },
        _ => {},
    }
}

pub fn paint_set_tool(desk: &mut Desktop, tool: PaintTool)
    requires
        old(desk)@.wf(),
    ensures
        final(desk)@ == documents::on_top(old(desk)@, WindowKind::Paint, tool_set(tool)),
        final(desk)@.wf(),
{
    if let Some(i) = desk.wm.find_last_kind(WindowKind::Paint) {
        let ghost before = desk.wm.windows@;
        assert(desk@.wm.windows[i as int].wf());
        pick_tool(&mut desk.wm.windows[i], tool);
        proof {
            manager::view_updated(before, i as int, desk.wm.windows@[i as int]);
        }
    }
    desk.dirty = true;
}

// ── Games ───────────────────────────────────────────────────────────────────

/// A new game on the same grid.
pub open spec fn restarted(s: SnakeModel, now: u64) -> SnakeModel {
    SnakeModel {
        grid_w: s.grid_w,
        grid_h: s.grid_h,
        last_step_ticks: now,
        ..apps::first_snake()
    }
}

pub open spec fn snake_restarted(now: u64) -> spec_fn(WindowModel) -> WindowModel {
    |w: WindowModel|
        match w.app {
            AppModel::Snake(s) => manager::labelled(
                WindowModel { app: AppModel::Snake(restarted(s, now)), ..w },
                2,
                "Score: 0"@,
            ),
            _ => w,
        }
}

fn restart_snake(win: &mut Window, now: u64)
    requires
        old(win)@.wf(),
    ensures
        final(win)@ == snake_restarted(now)(old(win)@),
        final(win)@.wf(),
{
    match &mut win.app {
        AppState::Snake(s) => {
            proof {
                reveal(SnakeModel::wf);
            }
            let mut fresh = apps::new_snake();
            fresh.grid_w = s.grid_w;
            fresh.grid_h = s.grid_h;
            fresh.last_step_ticks = now;
            *s = fresh;
        },
        _ => {
            return;
        },
    }
    set_label_text(win, 2, "Score: 0");
}

pub fn snake_restart(desk: &mut Desktop, now: u64)
    requires
        old(desk)@.wf(),
    ensures
        final(desk)@ == documents::on_top(old(desk)@, WindowKind::Snake, snake_restarted(now)),
        final(desk)@.wf(),
{
    if let Some(i) = desk.wm.find_last_kind(WindowKind::Snake) {
        let ghost before = desk.wm.windows@;
        assert(desk@.wm.windows[i as int].wf());
        restart_snake(&mut desk.wm.windows[i], now);
        proof {
            manager::view_updated(before, i as int, desk.wm.windows@[i as int]);
        }
    }
    desk.dirty = true;
}

/// A turn asked for is remembered unless the game is over or it leads
/// straight back.
pub open spec fn steered(dx: i8, dy: i8) -> spec_fn(WindowModel) -> WindowModel {
    |w: WindowModel|
        match w.app {
            AppModel::Snake(s) => if s.game_over || (dx + s.dir.0 == 0 && dy + s.dir.1 == 0) {
                w
            } else {
                WindowModel {
                    app: AppModel::Snake(SnakeModel { pending_dir: (dx, dy), ..s }),
                    ..w
                }
            },
            _ => w,
        }
}

fn steer(win: &mut Window, dx: i8, dy: i8)
    requires
        old(win)@.wf(),
        state::short((dx, dy)),
    ensures
        final(win)@ == steered(dx, dy)(old(win)@),
        final(win)@.wf(),
{
    match &mut win.app {
        AppState::Snake(s) => {
            proof {
                reveal(SnakeModel::wf);
            }
            if !s.game_over && !(dx + s.dir.0 == 0 && dy + s.dir.1 == 0) {
                s.pending_dir = (dx, dy);
            }
        },
        _ => {},
    }
}

/// Turn the snake.
pub fn snake_turn(desk: &mut Desktop, dx: i8, dy: i8)
    requires
        old(desk)@.wf(),
        state::short((dx, dy)),
    ensures
        final(desk)@ == documents::on_top(old(desk)@, WindowKind::Snake, steered(dx, dy)),
        final(desk)@.wf(),
{
    if let Some(i) = desk.wm.find_last_kind(WindowKind::Snake) {
        let ghost before = desk.wm.windows@;
        assert(desk@.wm.windows[i as int].wf());
        steer(&mut desk.wm.windows[i], dx, dy);
        proof {
            manager::view_updated(before, i as int, desk.wm.windows@[i as int]);
        }
    }
    desk.dirty = true;
}

/// A game that its engine started over, with the engine's status line.
pub open spec fn game_restarted(kind: WindowKind, now: u64, line: Seq<char>) -> spec_fn(
    WindowModel,
) -> WindowModel {
    |w: WindowModel|
        match (kind, w.app) {
            (WindowKind::Breakout, AppModel::Breakout(g)) => manager::labelled(
                WindowModel { app: AppModel::Breakout(anew(g, now)), ..w },
                2,
                line,
            ),
            (WindowKind::Racing, AppModel::Racing(g)) => manager::labelled(
                WindowModel { app: AppModel::Racing(anew(g, now)), ..w },
                2,
                line,
            ),
            (WindowKind::Invaders, AppModel::Invaders(g)) => manager::labelled(
                WindowModel { app: AppModel::Invaders(anew(g, now)), ..w },
                2,
                line,
            ),
            _ => w,
        }
}

pub open spec fn anew(g: Game, now: u64) -> Game {
    Game { game_over: false, won: false, last_step_ticks: now, ..g }
}

fn renew(g: &mut Game, now: u64)
    ensures
        *final(g) == anew(*old(g), now),
{
    g.game_over = false;
    g.won = false;
    g.last_step_ticks = now;
}

fn restart_game(win: &mut Window, kind: WindowKind, now: u64, line: &str)
    requires
        old(win)@.wf(),
    ensures
        final(win)@ == game_restarted(kind, now, line@)(old(win)@),
        final(win)@.wf(),
{
    match (kind, &mut win.app) {
        (WindowKind::Breakout, AppState::Breakout(g)) => renew(g, now),
        (WindowKind::Racing, AppState::Racing(g)) => renew(g, now),
        (WindowKind::Invaders, AppState::Invaders(g)) => renew(g, now),
        _ => {
            return;
        },
    }
    set_label_text(win, 2, line);
}

fn restart_top(desk: &mut Desktop, kind: WindowKind, now: u64, line: &str)
    requires
        old(desk)@.wf(),
    ensures
        final(desk)@ == documents::on_top(old(desk)@, kind, game_restarted(kind, now, line@)),
        final(desk)@.wf(),
{
    if let Some(i) = desk.wm.find_last_kind(kind) {
        let ghost before = desk.wm.windows@;
        assert(desk@.wm.windows[i as int].wf());
        restart_game(&mut desk.wm.windows[i], kind, now, line);
        proof {
            manager::view_updated(before, i as int, desk.wm.windows@[i as int]);
        }
    }
    desk.dirty = true;
}

pub fn breakout_restart(desk: &mut Desktop, now: u64, line: &str)
    requires
        old(desk)@.wf(),
    ensures
        final(desk)@ == documents::on_top(
            old(desk)@,
            WindowKind::Breakout,
            game_restarted(WindowKind::Breakout, now, line@),
        ),
        final(desk)@.wf(),
{
    restart_top(desk, WindowKind::Breakout, now, line);
}

pub fn racing_restart(desk: &mut Desktop, now: u64, line: &str)
    requires
        old(desk)@.wf(),
    ensures
        final(desk)@ == documents::on_top(
            old(desk)@,
            WindowKind::Racing,
            game_restarted(WindowKind::Racing, now, line@),
        ),
        final(desk)@.wf(),
{
    restart_top(desk, WindowKind::Racing, now, line);
}

pub fn invaders_restart(desk: &mut Desktop, now: u64, line: &str)
    requires
        old(desk)@.wf(),
    ensures
        final(desk)@ == documents::on_top(
            old(desk)@,
            WindowKind::Invaders,
            game_restarted(WindowKind::Invaders, now, line@),
        ),
        final(desk)@.wf(),
{
    restart_top(desk, WindowKind::Invaders, now, line);
}

/// The alphabet game's choices on its three buttons, and its status line.
pub open spec fn abc_refreshed(w: WindowModel, status: Seq<char>, labels: Seq<Seq<char>>) -> WindowModel {
    if w.app is Abc {
        let w1 = manager::labelled(w, 2, status);
        WindowModel {
            widgets: Seq::new(
                w1.widgets.len(),
                |i: int|
                    if 3 <= i < 6 && w1.widgets[i] is Button {
                        widget::with_text(w1.widgets[i], labels[i - 3])
                    } else {
                        w1.widgets[i]
                    },
            ),
            ..w1
        }
    } else {
        w
    }
}

/// The window with a button's text replaced, if that widget is a button.
pub open spec fn renamed(w: WindowModel, i: int, t: Seq<char>) -> WindowModel {
    if 0 <= i < w.widgets.len() && w.widgets[i] is Button {
        WindowModel { widgets: w.widgets.update(i, widget::with_text(w.widgets[i], t)), ..w }
    } else {
        w
    }
}

fn rename(win: &mut Window, i: usize, t: &str)
    ensures
        final(win)@ == renamed(old(win)@, i as int, t@),
{
    if i < win.widgets.len() {
        if let Widget::Button { label, .. } = &mut win.widgets[i] {
            *label = t.to_owned();
        }
    }
    assert(win@.widgets =~= renamed(old(win)@, i as int, t@).widgets);
}

pub fn abc_refresh_buttons(win: &mut Window, status: &str, labels: &Vec<String>)
    requires
        labels@.len() == 3,
    ensures
        final(win)@ == abc_refreshed(old(win)@, status@, text::strings(labels@)),
        old(win)@.wf() ==> final(win)@.wf(),
{
    match &win.app {
        AppState::Abc => {},
        _ => {
            return;
        },
    }
    set_label_text(win, 2, status);
    rename(win, 3, labels[0].as_str());
    rename(win, 4, labels[1].as_str());
    rename(win, 5, labels[2].as_str());
    assert(win@.widgets =~= abc_refreshed(old(win)@, status@, text::strings(labels@)).widgets);
}

// ── Settings ────────────────────────────────────────────────────────────────

/// A checkbox of the Settings window, ticked or not.
pub open spec fn ticked(i: int, on: bool) -> spec_fn(WindowModel) -> WindowModel {
    |w: WindowModel|
        if 0 <= i < w.widgets.len() {
            match w.widgets[i] {
                Widget::Checkbox { x, y, w: gw, h, label, checked, action } => WindowModel {
                    widgets: w.widgets.update(
                        i,
                        Widget::Checkbox { x, y, w: gw, h, label, checked: on, action },
                    ),
                    ..w
                },
                _ => w,
            }
        } else {
            w
        }
}

fn tick_box(win: &mut Window, i: usize, on: bool)
    requires
        old(win)@.wf(),
    ensures
        final(win)@ == ticked(i as int, on)(old(win)@),
        final(win)@.wf(),
{
    if i < win.widgets.len() {
        if let Widget::Checkbox { checked, .. } = &mut win.widgets[i] {
            *checked = on;
        }
    }
    assert(win@.widgets =~= ticked(i as int, on)(old(win)@).widgets);
}

fn tick_top(desk: &mut Desktop, i: usize, on: bool)
    requires
        old(desk)@.wf(),
    ensures
        final(desk)@ == documents::on_top(old(desk)@, WindowKind::Settings, ticked(i as int, on)),
        final(desk)@.wf(),
{
    if let Some(k) = desk.wm.find_last_kind(WindowKind::Settings) {
        let ghost before = desk.wm.windows@;
        assert(desk@.wm.windows[k as int].wf());
        tick_box(&mut desk.wm.windows[k], i, on);
        proof {
            manager::view_updated(before, k as int, desk.wm.windows@[k as int]);
        }
    }
    desk.dirty = true;
}

pub open spec fn blink_toggled(d: DesktopModel) -> DesktopModel {
    documents::on_top(
        DesktopModel { cursor_blink: !d.cursor_blink, ..d },
        WindowKind::Settings,
        ticked(1, !d.cursor_blink),
    )
}

pub fn toggle_cursor_blink(desk: &mut Desktop)
    requires
        old(desk)@.wf(),
    ensures
        final(desk)@ == blink_toggled(old(desk)@),
        final(desk)@.wf(),
{
    let on = !desk.cursor_blink;
    desk.cursor_blink = on;
    tick_top(desk, 1, on);
}

pub open spec fn theme_toggled(d: DesktopModel) -> DesktopModel {
    documents::on_top(
        DesktopModel { dark_theme: !d.dark_theme, ..d },
        WindowKind::Settings,
        ticked(2, !d.dark_theme),
    )
}

/// The wallpaper has to be drawn again afterwards.
pub fn toggle_dark_theme(desk: &mut Desktop)
    requires
        old(desk)@.wf(),
    ensures
        final(desk)@ == theme_toggled(old(desk)@),
        final(desk)@.wf(),
{
    let on = !desk.dark_theme;
    desk.dark_theme = on;
    tick_top(desk, 2, on);
}

/// Every open Settings window names the wallpaper in use.
pub open spec fn wallpaper_named(d: DesktopModel, path: Option<Seq<char>>) -> DesktopModel {
    DesktopModel {
        wm: ManagerModel {
            windows: d.wm.windows.map_values(
                |w: WindowModel|
                    if w.kind == WindowKind::Settings {
                        manager::labelled(w, 3, apps::wallpaper_line(path))
                    } else {
                        w
                    },
            ),
            ..d.wm
        },
        ..d
    }
}

/// Keep the Settings window honest about which wallpaper is in use: it can
/// also be changed from Files or the browser while Settings is open.
pub fn refresh_settings_wallpaper_line(desk: &mut Desktop, path: &Option<String>)
    requires
        old(desk)@.wf(),
    ensures
        final(desk)@ == wallpaper_named(old(desk)@, state::footer_view(*path)),
        final(desk)@.wf(),
{
    let line = wallpaper_text(path);
    let ghost start = desk@;
    let ghost goal = wallpaper_named(start, state::footer_view(*path)).wm.windows;
    let mut i: usize = 0;
    while i < desk.wm.windows.len()
        invariant
            i <= desk.wm.windows@.len(),
            desk@.wf(),
            line@ == apps::wallpaper_line(state::footer_view(*path)),
            goal == wallpaper_named(start, state::footer_view(*path)).wm.windows,
            goal.len() == start.wm.windows.len(),
            desk.wm.windows@.len() == start.wm.windows.len(),
            desk@ == (DesktopModel {
                wm: ManagerModel { windows: desk@.wm.windows, ..start.wm },
                ..start
            }),
            desk@.wm.windows =~= goal.take(i as int) + start.wm.windows.skip(i as int),
        decreases desk.wm.windows@.len() - i,
    {
        let ghost before = desk.wm.windows@;
        assert(desk@.wm.windows[i as int] == start.wm.windows[i as int]);
        assert(desk@.wm.windows[i as int] == before[i as int]@);
        if desk.wm.windows[i].kind == WindowKind::Settings {
            set_label_text(&mut desk.wm.windows[i], 3, line.as_str());
            proof {
                manager::view_updated(before, i as int, desk.wm.windows@[i as int]);
            }
        }
        proof {
            assert(desk@.wm.windows[i as int] == goal[i as int]);
            assert forall|j: int| 0 <= j < goal.len() && j != i implies #[trigger] desk@.wm.windows[j]
                == manager::windows_view(before)[j] by {}
            assert(desk@.wm.windows =~= goal.take(i + 1) + start.wm.windows.skip(i + 1));
        }
        i = i + 1;
    }
    assert(desk@.wm.windows =~= goal);
}

// ── Opening windows ─────────────────────────────────────────────────────────

/// The first window of that kind brought to the front, or else the new one.
pub open spec fn raised_or_spawned(d: DesktopModel, kind: WindowKind, fresh: WindowModel) -> DesktopModel {
    let i = manager::first_of(d.wm, kind);
    DesktopModel {
        wm: if i < d.wm.windows.len() {
            manager::raised(d.wm, i)
        } else {
            manager::spawned(d.wm, fresh)
        },
        ..d
    }
}

pub fn raise_or_spawn(desk: &mut Desktop, kind: WindowKind, fresh: Window)
    requires
        old(desk)@.wf(),
        fresh@.wf(),
    ensures
        final(desk)@ == raised_or_spawned(old(desk)@, kind, fresh@),
        final(desk)@.wf(),
{
    if let Some(i) = desk.wm.find_kind(kind) {
        desk.wm.raise(i);
    } else {
        desk.wm.spawn(fresh);
    }
}

/// Whether a browser has no page yet.
pub open spec fn blank_browser(w: WindowModel) -> bool {
    w.kind == WindowKind::Browser && (w.app matches AppModel::Browser(b) && b.page is None)
}

/// Open the browser. The result says whether it is to go to its start page:
/// an empty canvas under a filled-in address bar reads as broken.
pub fn open_browser(desk: &mut Desktop, fresh: Window) -> (r: bool)
    requires
        old(desk)@.wf(),
        fresh@.wf(),
    ensures
        final(desk)@ == raised_or_spawned(old(desk)@, WindowKind::Browser, fresh@).redraw(),
        final(desk)@.wf(),
        r == exists|i: int|
            0 <= i < final(desk)@.wm.windows.len() && blank_browser(
                #[trigger] final(desk)@.wm.windows[i],
            ),
{
    raise_or_spawn(desk, WindowKind::Browser, fresh);
    desk.dirty = true;
    let mut i: usize = 0;
    while i < desk.wm.windows.len()
        invariant
            i <= desk.wm.windows@.len(),
            desk@ == raised_or_spawned(old(desk)@, WindowKind::Browser, fresh@).redraw(),
            desk@.wf(),
            forall|j: int| 0 <= j < i ==> !blank_browser(#[trigger] desk@.wm.windows[j]),
        decreases desk.wm.windows@.len() - i,
    {
        assert(desk@.wm.windows[i as int] == desk.wm.windows@[i as int]@);
        if desk.wm.windows[i].kind == WindowKind::Browser {
            if let AppState::Browser(b) = &desk.wm.windows[i].app {
                if b.page.is_none() {
                    assert(blank_browser(desk@.wm.windows[i as int]));
                    return true;
                }
            }
        }
        i = i + 1;
    }
    false
}

/// A game's clock set, so that it does not catch up on the time before it was
/// opened.
pub open spec fn clock_set(now: u64) -> spec_fn(WindowModel) -> WindowModel {
    |w: WindowModel|
        match w.app {
            AppModel::Snake(s) => WindowModel {
                app: AppModel::Snake(SnakeModel { last_step_ticks: now, ..s }),
                ..w
            },
            AppModel::Breakout(g) => WindowModel {
                app: AppModel::Breakout(Game { last_step_ticks: now, ..g }),
                ..w
            },
            AppModel::Racing(g) => WindowModel {
                app: AppModel::Racing(Game { last_step_ticks: now, ..g }),
                ..w
            },
            AppModel::Invaders(g) => WindowModel {
                app: AppModel::Invaders(Game { last_step_ticks: now, ..g }),
                ..w
            },
            _ => w,
        }
}

fn set_clock(win: &mut Window, now: u64)
    requires
        old(win)@.wf(),
    ensures
        final(win)@ == clock_set(now)(old(win)@),
        final(win)@.wf(),
{
    proof {
        reveal(SnakeModel::wf);
    }
    match &mut win.app {
        AppState::Snake(s) => {
            s.last_step_ticks = now;
        },
        AppState::Breakout(g) => {
            g.last_step_ticks = now;
        },
        AppState::Racing(g) => {
            g.last_step_ticks = now;
        },
        AppState::Invaders(g) => {
            g.last_step_ticks = now;
        },
        _ => {},
    }
}

/// Whether opening a window of this kind is left to other actions.
pub open spec fn not_launched(kind: WindowKind) -> bool {
    kind == WindowKind::FileDialog || kind == WindowKind::Generic || kind == WindowKind::MyComputer
}

pub open spec fn is_game(kind: WindowKind) -> bool {
    kind == WindowKind::Snake || kind == WindowKind::Breakout || kind == WindowKind::Racing || kind
        == WindowKind::Invaders
}

/// A program of the desktop opened, or brought to the front.
pub open spec fn launched(d: DesktopModel, kind: WindowKind, fresh: WindowModel, now: u64) -> DesktopModel {
    if not_launched(kind) {
        d.redraw()
    } else if is_game(kind) {
        documents::on_first(raised_or_spawned(d, kind, fresh), kind, clock_set(now)).redraw()
    } else {
        raised_or_spawned(d, kind, fresh).redraw()
    }
}

/// What a program needs once it is open.
#[derive(Clone, Copy, Debug, PartialEq, Eq, Structural)]
pub enum Launch {
    Done,
    /// List the Explorer's folder.
    List,
    /// Go to the browser's start page.
    StartPage,
}

/// Open one of the desktop's own programs. `fresh` is a new window of that
/// kind, as [`crate::window::launch`] makes it, used if none is open.
pub fn launch_builtin(desk: &mut Desktop, kind: WindowKind, fresh: Window, now: u64) -> (r: Launch)
    requires
        old(desk)@.wf(),
        fresh@.wf(),
        fresh@.kind == kind,
    ensures
        final(desk)@ == launched(old(desk)@, kind, fresh@, now),
        final(desk)@.wf(),
        r == (if kind == WindowKind::FileManager {
            Launch::List
        } else if kind == WindowKind::Browser && (exists|i: int|
            0 <= i < final(desk)@.wm.windows.len() && blank_browser(
                #[trigger] final(desk)@.wm.windows[i],
            )) {
            Launch::StartPage
        } else {
            Launch::Done
        }),
{
    match kind {
        WindowKind::FileDialog | WindowKind::Generic | WindowKind::MyComputer => {
            desk.dirty = true;
            Launch::Done
        },
        WindowKind::Browser => {
            if open_browser(desk, fresh) {
                Launch::StartPage
            } else {
                Launch::Done
            }
        },
        WindowKind::Snake | WindowKind::Breakout | WindowKind::Racing | WindowKind::Invaders => {
            raise_or_spawn(desk, kind, fresh);
            if let Some(i) = desk.wm.find_kind(kind) {
                let ghost before = desk.wm.windows@;
                assert(desk@.wm.windows[i as int].wf());
                set_clock(&mut desk.wm.windows[i], now);
                proof {
                    manager::view_updated(before, i as int, desk.wm.windows@[i as int]);
                }
            }
            desk.dirty = true;
            Launch::Done
        },
        WindowKind::FileManager => {
            raise_or_spawn(desk, kind, fresh);
            desk.dirty = true;
            Launch::List
        },
        _ => {
            raise_or_spawn(desk, kind, fresh);
            desk.dirty = true;
            Launch::Done
        },
    }
}

/// One of the five drives of My Computer.
pub open spec fn drive_path(n: u8) -> Seq<char> {
    if n == 1 {
        "/init"@
    } else if n == 2 {
        "/data"@
    } else if n == 3 {
        "/disk"@
    } else if n == 4 {
        "/usb"@
    } else {
        "/fat"@
    }
}

pub open spec fn drive_opened(d: DesktopModel, n: u8) -> DesktopModel {
    DesktopModel {
        fm_path: drive_path(n),
        wm: manager::spawned(
            dialog::without_first(d.wm, WindowKind::FileManager),
            apps::file_manager_window(drive_path(n)),
        ),
        ..d
    }.redraw()
}

/// Open a drive in a new Explorer window, in place of the one that is open.
/// Its folder has to be listed next.
pub fn open_drive(desk: &mut Desktop, n: u8)
    requires
        old(desk)@.wf(),
    ensures
        final(desk)@ == drive_opened(old(desk)@, n),
        final(desk)@.wf(),
{
    let path: &str = match n {
        1 => "/init",
        2 => "/data",
        3 => "/disk",
        4 => "/usb",
        _ => "/fat",
    };
    desk.fm_path = path.to_owned();
    if let Some(i) = desk.wm.find_kind(WindowKind::FileManager) {
        let ghost before = desk.wm.windows@;
        let gone = desk.wm.windows.remove(i);
        assert(desk@.wm.windows =~= manager::windows_view(before).remove(i as int));
    }
    let fresh = apps::create_file_manager_window(path);
    desk.wm.spawn(fresh);
    desk.dirty = true;
}

// ── The terminal window ─────────────────────────────────────────────────────

/// What a command line asks for.
pub enum Ask<T = String> {
    /// Print this.
    Say(T),
    /// The time since boot, see [`uptime_line`].
    Uptime,
    /// How full the heap is, see [`heap_line`].
    Memory,
    Version,
    /// List a folder, see [`listing_text`].
    List(T),
    /// Print a file, see [`file_text`].
    Print(T),
}

impl View for Ask {
    type V = Ask<Seq<char>>;

    open spec fn view(&self) -> Ask<Seq<char>> {
        match *self {
            Ask::Say(t) => Ask::Say(t@),
            Ask::Uptime => Ask::Uptime,
            Ask::Memory => Ask::Memory,
            Ask::Version => Ask::Version,
            Ask::List(t) => Ask::List(t@),
            Ask::Print(t) => Ask::Print(t@),
        }
    }
}

pub open spec fn help_text() -> Seq<char> {
    "Commands:\n  help                 show this message\n  clear                clear the screen\n  ls [path]            list files (/, /fat, /init)\n  cat <path>           print a file\n  uptime               seconds since boot\n  mem                  heap usage\n  version              OS101 version\n  echo <text>          print text"@
}

/// What the terminal takes for the request to clear it.
pub open spec fn clear_mark() -> Seq<char> {
    "\x01CLEAR\x01"@
}

pub open spec fn asked(cmd: Seq<char>) -> Ask<Seq<char>> {
    let c = text::trimmed(cmd);
    if c.len() == 0 || c == "echo"@ {
        Ask::Say(Seq::empty())
    } else if c == "help"@ {
        Ask::Say(help_text())
    } else if c == "clear"@ {
        Ask::Say(clear_mark())
    } else if c == "uptime"@ {
        Ask::Uptime
    } else if c == "mem"@ {
        Ask::Memory
    } else if c == "version"@ {
        Ask::Version
    } else if c == "ls"@ {
        Ask::List("/"@)
    } else if text::has_prefix(c, "ls "@) {
        Ask::List(text::trimmed(c.skip("ls "@.len() as int)))
    } else if text::has_prefix(c, "cat "@) {
        Ask::Print(text::trimmed(c.skip("cat "@.len() as int)))
    } else if text::has_prefix(c, "echo "@) {
        Ask::Say(c.skip("echo "@.len() as int))
    } else {
        Ask::Say("unknown command: "@ + c + " — try `help`"@)
    }
}

/// Read a command line of the terminal window.
pub fn run_terminal_command(cmd: &str) -> (r: Ask)
    ensures
        r@ == asked(cmd@),
{
    let c = text::trim(cmd);
    let c = c.as_str();
    if c.unicode_len() == 0 || text::same(c, "echo") {
        let s = String::new();
        assert(s@ =~= Seq::empty());
        return Ask::Say(s);
    }
    if text::same(c, "help") {
        return Ask::Say(
            "Commands:\n  help                 show this message\n  clear                clear the screen\n  ls [path]            list files (/, /fat, /init)\n  cat <path>           print a file\n  uptime               seconds since boot\n  mem                  heap usage\n  version              OS101 version\n  echo <text>          print text".to_owned(),
        );
    }
    if text::same(c, "clear") {
        return Ask::Say("\x01CLEAR\x01".to_owned());
    }
    if text::same(c, "uptime") {
        return Ask::Uptime;
    }
    if text::same(c, "mem") {
        return Ask::Memory;
    }
    if text::same(c, "version") {
        return Ask::Version;
    }
    if text::same(c, "ls") {
        return Ask::List("/".to_owned());
    }
    if let Some(path) = text::strip_prefix(c, "ls ") {
        return Ask::List(text::trim(path.as_str()));
    }
    if let Some(path) = text::strip_prefix(c, "cat ") {
        return Ask::Print(text::trim(path.as_str()));
    }
    if let Some(rest) = text::strip_prefix(c, "echo ") {
        return Ask::Say(rest);
    }
    let mut s = "unknown command: ".to_owned();
    s.append(c);
    s.append(" — try `help`");
    Ask::Say(s)
}

pub open spec fn uptime(t: nat) -> Seq<char> {
    "up "@ + text::two_digits(t / 18 / 3600) + ":"@ + text::two_digits((t / 18 / 60) % 60) + ":"@
        + text::two_digits((t / 18) % 60) + "  ("@ + text::decimal(t) + " ticks)"@
}

/// The answer to `uptime`, from the ticks since boot, of which there are
/// eighteen in a second.
pub fn uptime_line(t: u64) -> (r: String)
    ensures
        r@ == uptime(t as nat),
{
    let secs: u64 = t / 18;
    let mut s = "up ".to_owned();
    text::push_two_digits(&mut s, secs / 3600);
    s.append(":");
    text::push_two_digits(&mut s, (secs / 60) % 60);
    s.append(":");
    text::push_two_digits(&mut s, secs % 60);
    s.append("  (");
    text::push_decimal(&mut s, t);
    s.append(" ticks)");
    s
}

/// The answer to `mem`.
pub fn heap_line(used: u64, size: u64) -> (r: String)
    ensures
        r@ == "heap: "@ + text::decimal(used as nat) + " / "@ + text::decimal(size as nat)
            + " bytes used"@,
{
    let mut s = "heap: ".to_owned();
    text::push_decimal(&mut s, used);
    s.append(" / ");
    text::push_decimal(&mut s, size);
    s.append(" bytes used");
    s
}

/// The answer to `ls`.
pub fn listing_text(list: &Result<Vec<String>, String>) -> (r: String)
    ensures
        r@ == (match *list {
            Ok(v) => text::joined(text::strings(v@), "\n"@),
            Err(e) => "ls: "@ + e@,
        }),
{
    match list {
        Ok(v) => text::join(v, "\n"),
        Err(e) => {
            let mut s = "ls: ".to_owned();
            s.append(e.as_str());
            s
        },
    }
}

/// The answer to `cat`: the text without the line ends that close it.
pub fn file_text(read: &Result<Vec<u8>, String>) -> (r: String)
    ensures
        r@ == (match *read {
            Ok(v) => if vstd::utf8::valid_utf8(v@) {
                text::trim_end_of(vstd::utf8::decode_utf8(v@), '\n')
            } else {
                "binary: "@ + text::decimal(v@.len()) + " bytes"@
            },
            Err(e) => "cat: "@ + e@,
        }),
{
    match read {
        Ok(v) => match text::decode_text(v.as_slice()) {
            Some(t) => text::trim_end_matches(t.as_str(), '\n'),
            None => {
                let mut s = "binary: ".to_owned();
                text::push_decimal(&mut s, v.len() as u64);
                s.append(" bytes");
                s
            },
        },
        Err(e) => {
            let mut s = "cat: ".to_owned();
            s.append(e.as_str());
            s
        },
    }
}

/// The output of a command, in the label of the terminal in front.
pub open spec fn answered(d: DesktopModel, output: Seq<char>) -> DesktopModel {
    let t = manager::top(d.wm);
    (if t >= 0 && d.wm.windows[t].kind == WindowKind::Terminal {
        d.set_window(t, manager::labelled(d.wm.windows[t], 3, output))
    } else {
        d
    }).redraw()
}

pub fn terminal_answer(desk: &mut Desktop, output: &str)
    requires
        old(desk)@.wf(),
    ensures
        final(desk)@ == answered(old(desk)@, output@),
        final(desk)@.wf(),
{
    if let Some(t) = desk.wm.topmost_idx() {
        assert(desk@.wm.windows[t as int] == desk.wm.windows@[t as int]@);
        if desk.wm.windows[t].kind == WindowKind::Terminal {
            let ghost before = desk.wm.windows@;
            set_label_text(&mut desk.wm.windows[t], 3, output);
            proof {
                manager::view_updated(before, t as int, desk.wm.windows@[t as int]);
            }
        }
    }
    desk.dirty = true;
}

// ── Every action ────────────────────────────────────────────────────────────

/// A move in a game that an engine of its own plays.
#[derive(Clone, Copy, Debug, PartialEq, Eq, Structural)]
pub enum GameMove {
    Restart,
    Left,
    Right,
    Fire,
    Faster,
    Slower,
    /// A choice of the alphabet game.
    Pick(u8),
    /// The next letter of the alphabet game.
    Next,
}

/// What is left to do once an action has been applied to the desktop.
pub enum Effect<T = String> {
    Done,
    /// End the process whose window was closed.
    EndProcess(u64),
    /// A step of the File Explorer.
    Files(FileStep<T>),
    /// List the Explorer's folder, for a new folder in it.
    NameFolder,
    /// List the Explorer's folder, for a new file in it.
    NameFile,
    /// Forget the picture on the desktop, and say so in Settings.
    DrawnWallpaper,
    /// Draw the wallpaper again.
    RedrawWallpaper,
    /// A step of a file dialog.
    Dialog(DialogStep<T>),
    /// Run a command line, for [`terminal_answer`].
    Command(T),
    Build,
    Run,
    /// Work out what was typed into the address bar and go there.
    Search(T),
    /// Search for pictures of what was typed.
    Pictures(T),
    /// Go to an address, and remember the one that is left.
    Visit(T),
    /// Go to an address without remembering the one that is left.
    Revisit(T),
    /// Go to the start page.
    StartPage,
    /// Send the form that the caret is in.
    Submit,
    SavePicture,
    HangPicture,
    /// A move for the game's engine.
    Play(WindowKind, GameMove),
    /// Open a window of this kind, or bring it to the front.
    Open(WindowKind),
    /// Start a program of the launcher.
    Launch(u8),
    /// Copy the system from one disk to another.
    Install { source: u8, target: u8 },
    Reboot,
    PowerOff,
    /// Wake the process that waits for an event of this window.
    Wake(u64),
}

impl View for Effect {
    type V = Effect<Seq<char>>;

    open spec fn view(&self) -> Effect<Seq<char>> {
        match *self {
            Effect::Done => Effect::Done,
            Effect::EndProcess(p) => Effect::EndProcess(p),
            Effect::Files(f) => Effect::Files(f@),
            Effect::NameFolder => Effect::NameFolder,
            Effect::NameFile => Effect::NameFile,
            Effect::DrawnWallpaper => Effect::DrawnWallpaper,
            Effect::RedrawWallpaper => Effect::RedrawWallpaper,
            Effect::Dialog(f) => Effect::Dialog(f@),
            Effect::Command(t) => Effect::Command(t@),
            Effect::Build => Effect::Build,
            Effect::Run => Effect::Run,
            Effect::Search(t) => Effect::Search(t@),
            Effect::Pictures(t) => Effect::Pictures(t@),
            Effect::Visit(t) => Effect::Visit(t@),
            Effect::Revisit(t) => Effect::Revisit(t@),
            Effect::StartPage => Effect::StartPage,
            Effect::Submit => Effect::Submit,
            Effect::SavePicture => Effect::SavePicture,
            Effect::HangPicture => Effect::HangPicture,
            Effect::Play(k, m) => Effect::Play(k, m),
            Effect::Open(k) => Effect::Open(k),
            Effect::Launch(i) => Effect::Launch(i),
            Effect::Install { source, target } => Effect::Install { source, target },
            Effect::Reboot => Effect::Reboot,
            Effect::PowerOff => Effect::PowerOff,
            Effect::Wake(id) => Effect::Wake(id),
        }
    }
}

pub type Acted = (DesktopModel, Effect<Seq<char>>);

// Windows in general.

/// The front window closed; the process that it belonged to ends.
pub open spec fn front_closed(d: DesktopModel) -> Acted {
    let n = d.wm.windows.len();
    if n > 0 {
        (
            DesktopModel {
                wm: ManagerModel { windows: d.wm.windows.drop_last(), dragging: None, ..d.wm },
                ..d
            }.redraw(),
            match d.wm.windows.last().owner_pid {
                Some(p) => Effect::EndProcess(p),
                None => Effect::Done,
            },
        )
    } else {
        (DesktopModel { wm: ManagerModel { dragging: None, ..d.wm }, ..d }.redraw(), Effect::Done)
    }
}

fn close_front(desk: &mut Desktop) -> (r: Effect)
    requires
        old(desk)@.wf(),
    ensures
        (final(desk)@, r@) == front_closed(old(desk)@),
        final(desk)@.wf(),
{
    let ghost before = desk@.wm.windows;
    let closed = desk.wm.windows.pop();
    desk.wm.dragging = None;
    desk.dirty = true;
    match closed {
        Some(w) => {
            assert(before.last() == w@);
            assert(desk@.wm.windows =~= before.drop_last());
            match w.owner_pid {
                Some(p) => Effect::EndProcess(p),
                None => Effect::Done,
            }
        },
        None => {
            assert(desk@.wm.windows =~= before);
            Effect::Done
        },
    }
}

pub open spec fn emptied(w: WindowModel) -> WindowModel {
    WindowModel {
        widgets: w.widgets.map_values(
            |g: Widget<Seq<char>>|
                if g is TextBox {
                    widget::with_text(g, Seq::empty())
                } else {
                    g
                },
        ),
        ..w
    }
}

fn empty_box(wgt: &mut Widget)
    ensures
        final(wgt)@ == (if old(wgt)@ is TextBox {
            widget::with_text(old(wgt)@, Seq::empty())
        } else {
            old(wgt)@
        }),
{
    if let Widget::TextBox { text, .. } = wgt {
        *text = String::new();
        assert(text@ =~= Seq::empty());
    }
}

fn empty_boxes(win: &mut Window)
    requires
        old(win)@.wf(),
    ensures
        final(win)@ == emptied(old(win)@),
        final(win)@.wf(),
{
    let ghost start = win@;
    let mut i: usize = 0;
    while i < win.widgets.len()
        invariant
            i <= win.widgets@.len(),
            win.widgets@.len() == start.widgets.len(),
            win@ == (WindowModel { widgets: win@.widgets, ..start }),
            forall|j: int| 0 <= j < i ==> #[trigger] win.widgets@[j]@ == emptied(start).widgets[j],
            forall|j: int| i <= j < start.widgets.len() ==> #[trigger] win.widgets@[j]@ == start.widgets[j],
        decreases win.widgets@.len() - i,
    {
        assert(win.widgets@[i as int]@ == start.widgets[i as int]);
        empty_box(&mut win.widgets[i]);
        i = i + 1;
    }
    assert(win@.widgets =~= emptied(start).widgets);
}

pub open spec fn front_emptied(d: DesktopModel) -> DesktopModel {
    let t = manager::top(d.wm);
    (if t >= 0 {
        d.set_window(t, emptied(d.wm.windows[t]))
    } else {
        d
    }).redraw()
}

fn empty_front(desk: &mut Desktop)
    requires
        old(desk)@.wf(),
    ensures
        final(desk)@ == front_emptied(old(desk)@),
        final(desk)@.wf(),
{
    if let Some(t) = desk.wm.topmost_idx() {
        let ghost before = desk.wm.windows@;
        assert(desk@.wm.windows[t as int].wf());
        empty_boxes(&mut desk.wm.windows[t]);
        proof {
            manager::view_updated(before, t as int, desk.wm.windows@[t as int]);
        }
    }
    desk.dirty = true;
}

pub open spec fn click_passed_on(d: DesktopModel, id: u64) -> Acted {
    let t = manager::top(d.wm);
    if t >= 0 {
        let w = d.wm.windows[t];
        (
            d.set_window(
                t,
                WindowModel { user_events: calls::delivered(w.user_events, id), ..w },
            ),
            if w.id != 0 {
                Effect::Wake(w.id)
            } else {
                Effect::Done
            },
        )
    } else {
        (d, Effect::Done)
    }
}

pub open spec fn window_acted(d: DesktopModel, a: WinAction) -> Acted {
    match a {
        WinAction::Close => front_closed(d),
        WinAction::ClearTextbox => (front_emptied(d), Effect::Done),
        WinAction::User(id) => click_passed_on(d, id),
        WinAction::ExitGui => (
            DesktopModel {
                gui_mode: false,
                dirty: false,
                wm: ManagerModel { windows: Seq::empty(), dragging: None, ..d.wm },
                ..d
            },
            Effect::Done,
        ),
        WinAction::ToggleCursorBlink => (blink_toggled(d), Effect::Done),
        WinAction::ToggleDarkTheme => (theme_toggled(d), Effect::RedrawWallpaper),
        WinAction::ResetWallpaper => (d.redraw(), Effect::DrawnWallpaper),
        WinAction::OpenMyComputer => (d, Effect::Open(WindowKind::MyComputer)),
        WinAction::OpenInstaller => (d, Effect::Open(WindowKind::Installer)),
        WinAction::OpenApplications => (d, Effect::Open(WindowKind::Launcher)),
        WinAction::OpenBrowser => (d, Effect::Open(WindowKind::Browser)),
        WinAction::OpenDrive(n) => (drive_opened(d, n), Effect::Files(FileStep::List)),
        WinAction::LaunchApp(i) => (d, Effect::Launch(i)),
        WinAction::Shutdown => (d, Effect::PowerOff),
        WinAction::InstallerReboot => (d, Effect::Reboot),
        _ => (d, Effect::Done),
    }
}

fn act_on_windows(desk: &mut Desktop, action: WinAction) -> (r: Effect)
    requires
        old(desk)@.wf(),
    ensures
        (final(desk)@, r@) == window_acted(old(desk)@, action),
        final(desk)@.wf(),
{
    match action {
        WinAction::Close => close_front(desk),
        WinAction::ClearTextbox => {
            empty_front(desk);
            Effect::Done
        },
        WinAction::User(id) => match deliver_click(desk, id) {
            Some(w) => Effect::Wake(w),
            None => Effect::Done,
        },
        WinAction::ExitGui => {
            exit_gui_mode(desk);
            Effect::Done
        },
        WinAction::ToggleCursorBlink => {
            toggle_cursor_blink(desk);
            Effect::Done
        },
        WinAction::ToggleDarkTheme => {
            toggle_dark_theme(desk);
            Effect::RedrawWallpaper
        },
        WinAction::ResetWallpaper => {
            desk.dirty = true;
            Effect::DrawnWallpaper
        },
        WinAction::OpenMyComputer => Effect::Open(WindowKind::MyComputer),
        WinAction::OpenInstaller => Effect::Open(WindowKind::Installer),
        WinAction::OpenApplications => Effect::Open(WindowKind::Launcher),
        WinAction::OpenBrowser => Effect::Open(WindowKind::Browser),
        WinAction::OpenDrive(n) => {
            open_drive(desk, n);
            Effect::Files(FileStep::List)
        },
        WinAction::LaunchApp(i) => Effect::Launch(i),
        WinAction::Shutdown => Effect::PowerOff,
        WinAction::InstallerReboot => Effect::Reboot,
        _ => Effect::Done,
    }
}

// Files and documents.

pub open spec fn listing_asked(d: DesktopModel) -> Acted {
    let t = manager::top(d.wm);
    if t >= 0 && d.wm.windows[t].kind == WindowKind::FileManager {
        (explorer::menu_dismissed(d).redraw(), Effect::Files(FileStep::List))
    } else {
        (d.redraw(), Effect::Done)
    }
}

pub open spec fn then_redrawn(p: (DesktopModel, FileStep<Seq<char>>)) -> Acted {
    (p.0.redraw(), Effect::Files(p.1))
}

/// The text in the terminal's input box.
pub open spec fn command_typed(w: WindowModel) -> Seq<char> {
    if w.widgets.len() > 1 {
        match w.widgets[1] {
            Widget::TextBox { text, .. } => text,
            _ => Seq::empty(),
        }
    } else {
        Seq::empty()
    }
}

pub open spec fn command_asked(d: DesktopModel) -> Acted {
    let t = manager::top(d.wm);
    (
        d.redraw(),
        if t >= 0 && d.wm.windows[t].kind == WindowKind::Terminal {
            Effect::Command(command_typed(d.wm.windows[t]))
        } else {
            Effect::Done
        },
    )
}

pub open spec fn explorer_acted(d: DesktopModel, a: WinAction) -> Acted {
    match a {
        WinAction::RefreshFiles => listing_asked(d),
        WinAction::OpenReadme => (d, Effect::Files(FileStep::Readme)),
        WinAction::FmUp => then_redrawn(explorer::gone_up(d)),
        WinAction::FmNewFolder => (d, Effect::NameFolder),
        WinAction::FmNewFile => (d, Effect::NameFile),
        WinAction::FmDelete => then_redrawn(explorer::removal_asked(d)),
        WinAction::FmOpen => then_redrawn(explorer::entry_opened(explorer::menu_dismissed(d))),
        WinAction::FmSetWallpaper => then_redrawn(explorer::wallpaper_asked(d)),
        WinAction::FmPreview => then_redrawn(explorer::preview_asked(explorer::menu_dismissed(d))),
        WinAction::FmViewList => (
            documents::on_first(
                explorer::menu_dismissed(d),
                WindowKind::FileManager,
                explorer::viewed(FmViewMode::List),
            ).redraw(),
            Effect::Files(FileStep::List),
        ),
        WinAction::FmViewIcons => (
            documents::on_first(
                explorer::menu_dismissed(d),
                WindowKind::FileManager,
                explorer::viewed(FmViewMode::LargeIcons),
            ).redraw(),
            Effect::Files(FileStep::List),
        ),
        _ => (d, Effect::Done),
    }
}

pub open spec fn document_acted(d: DesktopModel, a: WinAction, has_disk: bool) -> Acted {
    match a {
        WinAction::FileDialogSave => {
            let p = dialog::save_confirmed(d, has_disk);
            (p.0, Effect::Dialog(p.1))
        },
        WinAction::FileDialogOpen => {
            let p = dialog::open_confirmed(d);
            (p.0, Effect::Dialog(p.1))
        },
        WinAction::FileDialogCancel => (dialog::dialog_closed(d), Effect::Done),
        WinAction::FileDialogUp => (
            DesktopModel { dialog_path: explorer::parent_of(d.dialog_path), ..d }.redraw(),
            Effect::Dialog(DialogStep::List),
        ),
        WinAction::TerminalRun => command_asked(d),
        WinAction::NotepadSave => (
            dialog::dialog_opened(
                documents::notepad_kept(d),
                FileDialogMode::Save,
                FileDialogTarget::Notepad,
                has_disk,
            ),
            Effect::Dialog(DialogStep::List),
        ),
        WinAction::NotepadLoad => (
            dialog::dialog_opened(d, FileDialogMode::Open, FileDialogTarget::Notepad, has_disk),
            Effect::Dialog(DialogStep::List),
        ),
        WinAction::NotepadClear => (
            documents::on_top(
                d,
                WindowKind::Notepad,
                documents::repaged(Seq::empty(), d.notepad_path),
            ),
            Effect::Done,
        ),
        WinAction::CodeNew => (
            documents::on_top(
                DesktopModel { code_path: Seq::empty(), code_scratch: Seq::empty(), ..d },
                WindowKind::CodeEditor,
                documents::program_set(apps::code_template(), Seq::empty()),
            ),
            Effect::Done,
        ),
        WinAction::CodeOpen => (
            dialog::dialog_opened(d, FileDialogMode::Open, FileDialogTarget::CodeEditor, has_disk),
            Effect::Dialog(DialogStep::List),
        ),
        WinAction::CodeSave => (
            dialog::dialog_opened(
                documents::program_kept(d),
                FileDialogMode::Save,
                FileDialogTarget::CodeEditor,
                has_disk,
            ),
            Effect::Dialog(DialogStep::List),
        ),
        WinAction::CodeBuild => (d, Effect::Build),
        WinAction::CodeRun => (d, Effect::Run),
        _ => (d, Effect::Done),
    }
}

fn ask_for_listing(desk: &mut Desktop) -> (r: Effect)
    requires
        old(desk)@.wf(),
    ensures
        (final(desk)@, r@) == listing_asked(old(desk)@),
        final(desk)@.wf(),
{
    if let Some(t) = desk.wm.topmost_idx() {
        assert(desk@.wm.windows[t as int] == desk.wm.windows@[t as int]@);
        if desk.wm.windows[t].kind == WindowKind::FileManager {
            fm_close_top_file_menu(desk);
            desk.dirty = true;
            return Effect::Files(FileStep::List);
        }
    }
    desk.dirty = true;
    Effect::Done
}

fn ask_for_command(desk: &mut Desktop) -> (r: Effect)
    requires
        old(desk)@.wf(),
    ensures
        (final(desk)@, r@) == command_asked(old(desk)@),
        final(desk)@.wf(),
{
    desk.dirty = true;
    if let Some(t) = desk.wm.topmost_idx() {
        let win = &desk.wm.windows[t];
        assert(desk@.wm.windows[t as int] == win@);
        if win.kind == WindowKind::Terminal {
            let mut cmd = String::new();
            assert(cmd@ =~= Seq::empty());
            if win.widgets.len() > 1 {
                assert(win@.widgets[1] == win.widgets@[1]@);
                if let Widget::TextBox { text, .. } = &win.widgets[1] {
                    cmd = text.as_str().to_owned();
                }
            }
            return Effect::Command(cmd);
        }
    }
    Effect::Done
}

fn act_on_explorer(desk: &mut Desktop, action: WinAction) -> (r: Effect)
    requires
        old(desk)@.wf(),
    ensures
        (final(desk)@, r@) == explorer_acted(old(desk)@, action),
        final(desk)@.wf(),
{
    match action {
        WinAction::RefreshFiles => ask_for_listing(desk),
        WinAction::OpenReadme => Effect::Files(FileStep::Readme),
        WinAction::FmUp => {
            let step = file_manager_go_up(desk);
            desk.dirty = true;
            Effect::Files(step)
        },
        WinAction::FmNewFolder => Effect::NameFolder,
        WinAction::FmNewFile => Effect::NameFile,
        WinAction::FmDelete => {
            let step = file_manager_delete(desk);
            desk.dirty = true;
            Effect::Files(step)
        },
        WinAction::FmOpen => {
            fm_close_top_file_menu(desk);
            let step = file_manager_open_selected(desk);
            desk.dirty = true;
            Effect::Files(step)
        },
        WinAction::FmSetWallpaper => {
            let step = file_manager_set_wallpaper(desk);
            desk.dirty = true;
            Effect::Files(step)
        },
        WinAction::FmPreview => {
            fm_close_top_file_menu(desk);
            let step = file_manager_preview_selection_or_readme(desk);
            desk.dirty = true;
            Effect::Files(step)
        },
        WinAction::FmViewList => {
            set_view(desk, FmViewMode::List);
            desk.dirty = true;
            Effect::Files(FileStep::List)
        },
        WinAction::FmViewIcons => {
            set_view(desk, FmViewMode::LargeIcons);
            desk.dirty = true;
            Effect::Files(FileStep::List)
        },
        _ => Effect::Done,
    }
}

fn act_on_documents(desk: &mut Desktop, action: WinAction, has_disk: bool) -> (r: Effect)
    requires
        old(desk)@.wf(),
    ensures
        (final(desk)@, r@) == document_acted(old(desk)@, action, has_disk),
        final(desk)@.wf(),
{
    match action {
        WinAction::FileDialogSave => Effect::Dialog(file_dialog_confirm_save(desk, has_disk)),
        WinAction::FileDialogOpen => Effect::Dialog(file_dialog_confirm_open(desk)),
        WinAction::FileDialogCancel => {
            file_dialog_close(desk);
            Effect::Done
        },
        WinAction::FileDialogUp => {
            file_dialog_up(desk);
            Effect::Dialog(DialogStep::List)
        },
        WinAction::TerminalRun => ask_for_command(desk),
        WinAction::NotepadSave => {
            notepad_save(desk);
            open_file_dialog(desk, FileDialogMode::Save, FileDialogTarget::Notepad, has_disk);
            Effect::Dialog(DialogStep::List)
        },
        WinAction::NotepadLoad => {
            open_file_dialog(desk, FileDialogMode::Open, FileDialogTarget::Notepad, has_disk);
            Effect::Dialog(DialogStep::List)
        },
        WinAction::NotepadClear => {
            notepad_clear(desk);
            Effect::Done
        },
        WinAction::CodeNew => {
            code_editor_new(desk);
            Effect::Done
        },
        WinAction::CodeOpen => {
            open_file_dialog(desk, FileDialogMode::Open, FileDialogTarget::CodeEditor, has_disk);
            Effect::Dialog(DialogStep::List)
        },
        WinAction::CodeSave => {
            code_editor_save(desk);
            open_file_dialog(desk, FileDialogMode::Save, FileDialogTarget::CodeEditor, has_disk);
            Effect::Dialog(DialogStep::List)
        },
        WinAction::CodeBuild => Effect::Build,
        WinAction::CodeRun => Effect::Run,
        _ => Effect::Done,
    }
}

// The browser.

pub open spec fn typed_in_front(d: DesktopModel) -> Option<Seq<char>> {
    let i = manager::last_of(d.wm, WindowKind::Browser);
    if i >= 0 {
        Some(browser::address(d.wm.windows[i]))
    } else {
        None
    }
}

pub open spec fn browser_acted(d: DesktopModel, a: WinAction) -> Acted {
    match a {
        WinAction::BrowserGo => (
            d.redraw(),
            match typed_in_front(d) {
                Some(t) => Effect::Search(t),
                None => Effect::Done,
            },
        ),
        WinAction::BrowserBack => {
            let p = browser::gone_back(browser::menu_dismissed(d));
            (
                p.0,
                match p.1 {
                    Some(u) => Effect::Revisit(u),
                    None => Effect::Done,
                },
            )
        },
        WinAction::BrowserHome => (d, Effect::StartPage),
        WinAction::BrowserImages => (
            d.redraw(),
            Effect::Pictures(
                match typed_in_front(d) {
                    Some(t) => t,
                    None => Seq::empty(),
                },
            ),
        ),
        WinAction::BrowserReload => {
            let d1 = browser::menu_dismissed(d);
            (
                d1.redraw(),
                match browser::front(d1) {
                    Some(b) if b.current.len() > 0 => Effect::Revisit(b.current),
                    _ => Effect::Done,
                },
            )
        },
        WinAction::BrowserScroll(dir) => (
            documents::on_top(d, WindowKind::Browser, browser::scrolled(dir)),
            Effect::Done,
        ),
        WinAction::BrowserScrollTo(offset) => (
            documents::on_top(
                browser::menu_dismissed(d),
                WindowKind::Browser,
                browser::scrolled_to(offset),
            ),
            Effect::Done,
        ),
        WinAction::BrowserOpenImage => (
            browser::menu_dismissed(d),
            match browser::menu_target(d) {
                Some(u) => Effect::Visit(u),
                None => Effect::Done,
            },
        ),
        WinAction::BrowserSaveImage => (browser::menu_dismissed(d), Effect::SavePicture),
        WinAction::BrowserImageWallpaper => (browser::menu_dismissed(d), Effect::HangPicture),
        WinAction::BrowserSubmit => (d, Effect::Submit),
        _ => (d, Effect::Done),
    }
}

fn act_on_browser(desk: &mut Desktop, action: WinAction) -> (r: Effect)
    requires
        old(desk)@.wf(),
    ensures
        (final(desk)@, r@) == browser_acted(old(desk)@, action),
        final(desk)@.wf(),
{
    match action {
        WinAction::BrowserGo => match typed_address(desk) {
            Some(t) => Effect::Search(t),
            None => Effect::Done,
        },
        WinAction::BrowserBack => {
            browser_close_top_menu(desk);
            match browser_back(desk) {
                Some(u) => Effect::Revisit(u),
                None => Effect::Done,
            }
        },
        WinAction::BrowserHome => Effect::StartPage,
        WinAction::BrowserImages => match typed_address(desk) {
            Some(t) => Effect::Pictures(t),
            None => {
                let none = String::new();
                assert(none@ =~= Seq::empty());
                Effect::Pictures(none)
            },
        },
        WinAction::BrowserReload => {
            browser_close_top_menu(desk);
            match browser_reload(desk) {
                Some(u) => Effect::Revisit(u),
                None => Effect::Done,
            }
        },
        WinAction::BrowserScroll(dir) => {
            browser_scroll(desk, dir);
            Effect::Done
        },
        WinAction::BrowserScrollTo(offset) => {
            browser_close_top_menu(desk);
            browser_scroll_to(desk, offset);
            Effect::Done
        },
        WinAction::BrowserOpenImage => match browser_open_menu_target(desk) {
            Some(u) => Effect::Visit(u),
            None => Effect::Done,
        },
        WinAction::BrowserSaveImage => {
            browser_close_top_menu(desk);
            Effect::SavePicture
        },
        WinAction::BrowserImageWallpaper => {
            browser_close_top_menu(desk);
            Effect::HangPicture
        },
        WinAction::BrowserSubmit => Effect::Submit,
        _ => Effect::Done,
    }
}

// Paint, games, the calculator and the installer.

/// The calculator key that an action stands for.
pub open spec fn calc_key(a: WinAction) -> Option<CalcKey> {
    match a {
        WinAction::CalcDigit(d) => Some(
            if d == 255 {
                CalcKey::Back
            } else {
                CalcKey::Digit(d)
            },
        ),
        WinAction::CalcSign => Some(CalcKey::Sign),
        WinAction::CalcOp(op) => Some(CalcKey::Op(op)),
        WinAction::CalcEq => Some(CalcKey::Equals),
        WinAction::CalcClear => Some(CalcKey::Clear),
        _ => None,
    }
}

fn calc_key_of(a: WinAction) -> (r: Option<CalcKey>)
    ensures
        r == calc_key(a),
{
    match a {
        WinAction::CalcDigit(d) => if d == 255 {
            Some(CalcKey::Back)
        } else {
            Some(CalcKey::Digit(d))
        },
        WinAction::CalcSign => Some(CalcKey::Sign),
        WinAction::CalcOp(op) => Some(CalcKey::Op(op)),
        WinAction::CalcEq => Some(CalcKey::Equals),
        WinAction::CalcClear => Some(CalcKey::Clear),
        _ => None,
    }
}

pub open spec fn calculated(k: CalcKey) -> spec_fn(WindowModel) -> WindowModel {
    |w: WindowModel| crate::window::calc::window_pressed(w, k)
}

fn calculate(desk: &mut Desktop, k: CalcKey)
    requires
        old(desk)@.wf(),
    ensures
        final(desk)@ == documents::on_top(old(desk)@, WindowKind::Calculator, calculated(k)),
        final(desk)@.wf(),
{
    if let Some(i) = desk.wm.find_last_kind(WindowKind::Calculator) {
        let ghost before = desk.wm.windows@;
        assert(desk@.wm.windows[i as int].wf());
        calc_press(&mut desk.wm.windows[i], k);
        proof {
            manager::view_updated(before, i as int, desk.wm.windows@[i as int]);
        }
    }
    desk.dirty = true;
}

/// The engine's game and move that an action stands for.
pub open spec fn game_move(a: WinAction) -> Option<(WindowKind, GameMove)> {
    match a {
        WinAction::BreakoutRestart => Some((WindowKind::Breakout, GameMove::Restart)),
        WinAction::BreakoutLeft => Some((WindowKind::Breakout, GameMove::Left)),
        WinAction::BreakoutRight => Some((WindowKind::Breakout, GameMove::Right)),
        WinAction::BreakoutFaster => Some((WindowKind::Breakout, GameMove::Faster)),
        WinAction::BreakoutSlower => Some((WindowKind::Breakout, GameMove::Slower)),
        WinAction::RacingRestart => Some((WindowKind::Racing, GameMove::Restart)),
        WinAction::RacingLeft => Some((WindowKind::Racing, GameMove::Left)),
        WinAction::RacingRight => Some((WindowKind::Racing, GameMove::Right)),
        WinAction::RacingFaster => Some((WindowKind::Racing, GameMove::Faster)),
        WinAction::RacingSlower => Some((WindowKind::Racing, GameMove::Slower)),
        WinAction::InvadersRestart => Some((WindowKind::Invaders, GameMove::Restart)),
        WinAction::InvadersLeft => Some((WindowKind::Invaders, GameMove::Left)),
        WinAction::InvadersRight => Some((WindowKind::Invaders, GameMove::Right)),
        WinAction::InvadersFire => Some((WindowKind::Invaders, GameMove::Fire)),
        WinAction::InvadersFaster => Some((WindowKind::Invaders, GameMove::Faster)),
        WinAction::InvadersSlower => Some((WindowKind::Invaders, GameMove::Slower)),
        WinAction::AbcPick(i) => Some((WindowKind::Abc, GameMove::Pick(i))),
        WinAction::AbcNext => Some((WindowKind::Abc, GameMove::Next)),
        _ => None,
    }
}

fn game_move_of(a: WinAction) -> (r: Option<(WindowKind, GameMove)>)
    ensures
        r == game_move(a),
{
    match a {
        WinAction::BreakoutRestart => Some((WindowKind::Breakout, GameMove::Restart)),
        WinAction::BreakoutLeft => Some((WindowKind::Breakout, GameMove::Left)),
        WinAction::BreakoutRight => Some((WindowKind::Breakout, GameMove::Right)),
        WinAction::BreakoutFaster => Some((WindowKind::Breakout, GameMove::Faster)),
        WinAction::BreakoutSlower => Some((WindowKind::Breakout, GameMove::Slower)),
        WinAction::RacingRestart => Some((WindowKind::Racing, GameMove::Restart)),
        WinAction::RacingLeft => Some((WindowKind::Racing, GameMove::Left)),
        WinAction::RacingRight => Some((WindowKind::Racing, GameMove::Right)),
        WinAction::RacingFaster => Some((WindowKind::Racing, GameMove::Faster)),
        WinAction::RacingSlower => Some((WindowKind::Racing, GameMove::Slower)),
        WinAction::InvadersRestart => Some((WindowKind::Invaders, GameMove::Restart)),
        WinAction::InvadersLeft => Some((WindowKind::Invaders, GameMove::Left)),
        WinAction::InvadersRight => Some((WindowKind::Invaders, GameMove::Right)),
        WinAction::InvadersFire => Some((WindowKind::Invaders, GameMove::Fire)),
        WinAction::InvadersFaster => Some((WindowKind::Invaders, GameMove::Faster)),
        WinAction::InvadersSlower => Some((WindowKind::Invaders, GameMove::Slower)),
        WinAction::AbcPick(i) => Some((WindowKind::Abc, GameMove::Pick(i))),
        WinAction::AbcNext => Some((WindowKind::Abc, GameMove::Next)),
        _ => None,
    }
}

pub open spec fn installer_forward() -> spec_fn(WindowModel) -> WindowModel {
    |w: WindowModel|
        match w.app {
            AppModel::Installer(s) => installer::stepped(w, installer::forward(s)),
            _ => w,
        }
}

pub open spec fn installer_backward() -> spec_fn(WindowModel) -> WindowModel {
    |w: WindowModel|
        match w.app {
            AppModel::Installer(s) if 0 < s.step < 3 => installer::stepped(
                w,
                state::InstallerModel {
                    step: (s.step - 1) as u8,
                    status: "Choose carefully — install erases the target disk."@,
                    ..s
                },
            ),
            _ => w,
        }
}

pub open spec fn installer_picked(i: u8) -> spec_fn(WindowModel) -> WindowModel {
    |w: WindowModel|
        match w.app {
            AppModel::Installer(s) if i < s.targets.len() => installer::stepped(
                w,
                state::InstallerModel {
                    selected: Some(i as usize),
                    status: "Selected: "@ + s.targets[i as int].label,
                    ..s
                },
            ),
            _ => w,
        }
}

/// The wizard's last step, on the first installer window.
pub open spec fn install_asked(d: DesktopModel) -> Acted {
    let i = manager::first_of(d.wm, WindowKind::Installer);
    if i < d.wm.windows.len() {
        let (w, s) = installer::started(d.wm.windows[i]);
        match s {
            Start::Copy { source, target } => (
                d.set_window(i, w).redraw(),
                Effect::Install { source, target },
            ),
            Start::Refused => (d.set_window(i, w).redraw(), Effect::Done),
            Start::Ignored => (d.set_window(i, w), Effect::Done),
        }
    } else {
        (d, Effect::Done)
    }
}

fn ask_for_install(desk: &mut Desktop) -> (r: Effect)
    requires
        old(desk)@.wf(),
    ensures
        (final(desk)@, r@) == install_asked(old(desk)@),
        final(desk)@.wf(),
{
    if let Some(i) = desk.wm.find_kind(WindowKind::Installer) {
        let ghost before = desk.wm.windows@;
        assert(desk@.wm.windows[i as int].wf());
        let s = installer_start(&mut desk.wm.windows[i]);
        proof {
            manager::view_updated(before, i as int, desk.wm.windows@[i as int]);
        }
        match s {
            Start::Copy { source, target } => {
                desk.dirty = true;
                Effect::Install { source, target }
            },
            Start::Refused => {
                desk.dirty = true;
                Effect::Done
            },
            Start::Ignored => Effect::Done,
        }
    } else {
        Effect::Done
    }
}

fn install_forward(desk: &mut Desktop)
    requires
        old(desk)@.wf(),
    ensures
        final(desk)@ == documents::on_top(old(desk)@, WindowKind::Installer, installer_forward()),
        final(desk)@.wf(),
{
    if let Some(i) = desk.wm.find_last_kind(WindowKind::Installer) {
        let ghost before = desk.wm.windows@;
        assert(desk@.wm.windows[i as int].wf());
        installer_next(&mut desk.wm.windows[i]);
        proof {
            manager::view_updated(before, i as int, desk.wm.windows@[i as int]);
        }
    }
    desk.dirty = true;
}

fn install_backward(desk: &mut Desktop)
    requires
        old(desk)@.wf(),
    ensures
        final(desk)@ == documents::on_top(old(desk)@, WindowKind::Installer, installer_backward()),
        final(desk)@.wf(),
{
    if let Some(i) = desk.wm.find_last_kind(WindowKind::Installer) {
        let ghost before = desk.wm.windows@;
        assert(desk@.wm.windows[i as int].wf());
        installer_back(&mut desk.wm.windows[i]);
        proof {
            manager::view_updated(before, i as int, desk.wm.windows@[i as int]);
        }
    }
    desk.dirty = true;
}

fn install_onto(desk: &mut Desktop, k: u8)
    requires
        old(desk)@.wf(),
    ensures
        final(desk)@ == documents::on_top(old(desk)@, WindowKind::Installer, installer_picked(k)),
        final(desk)@.wf(),
{
    if let Some(i) = desk.wm.find_last_kind(WindowKind::Installer) {
        let ghost before = desk.wm.windows@;
        assert(desk@.wm.windows[i as int].wf());
        installer_pick(&mut desk.wm.windows[i], k);
        proof {
            manager::view_updated(before, i as int, desk.wm.windows@[i as int]);
        }
    }
    desk.dirty = true;
}

pub open spec fn program_acted(d: DesktopModel, a: WinAction, now: u64) -> Acted {
    match a {
        WinAction::PaintClear => (
            documents::on_top(d, WindowKind::Paint, picture_wiped()),
            Effect::Done,
        ),
        WinAction::PaintColor(i) => (
            documents::on_top(d, WindowKind::Paint, colour_picked(i)),
            Effect::Done,
        ),
        WinAction::PaintBrush(n) => (
            documents::on_top(d, WindowKind::Paint, brush_set(n)),
            Effect::Done,
        ),
        WinAction::PaintTool(t) => (
            documents::on_top(d, WindowKind::Paint, tool_set(t)),
            Effect::Done,
        ),
        WinAction::SnakeRestart => (
            documents::on_top(d, WindowKind::Snake, snake_restarted(now)),
            Effect::Done,
        ),
        WinAction::SnakeDir(dx, dy) => (
            documents::on_top(d, WindowKind::Snake, steered(dx, dy)),
            Effect::Done,
        ),
        WinAction::InstallerNext => (
            documents::on_top(d, WindowKind::Installer, installer_forward()),
            Effect::Done,
        ),
        WinAction::InstallerBack => (
            documents::on_top(d, WindowKind::Installer, installer_backward()),
            Effect::Done,
        ),
        WinAction::InstallerPick(i) => (
            documents::on_top(d, WindowKind::Installer, installer_picked(i)),
            Effect::Done,
        ),
        WinAction::InstallerStart => install_asked(d),
        _ => match calc_key(a) {
            Some(k) => (
                documents::on_top(d, WindowKind::Calculator, calculated(k)),
                Effect::Done,
            ),
            None => match game_move(a) {
                Some((k, m)) => (d.redraw(), Effect::Play(k, m)),
                None => (d, Effect::Done),
            },
        },
    }
}

fn act_on_programs(desk: &mut Desktop, action: WinAction, now: u64) -> (r: Effect)
    requires
        old(desk)@.wf(),
        action matches WinAction::SnakeDir(dx, dy) ==> state::short((dx, dy)),
    ensures
        (final(desk)@, r@) == program_acted(old(desk)@, action, now),
        final(desk)@.wf(),
{
    match action {
        WinAction::PaintClear => paint_clear(desk),
        WinAction::PaintColor(i) => paint_set_color(desk, i),
        WinAction::PaintBrush(n) => paint_set_brush(desk, n),
        WinAction::PaintTool(t) => paint_set_tool(desk, t),
        WinAction::SnakeRestart => snake_restart(desk, now),
        WinAction::SnakeDir(dx, dy) => snake_turn(desk, dx, dy),
        WinAction::InstallerNext => install_forward(desk),
        WinAction::InstallerBack => install_backward(desk),
        WinAction::InstallerPick(i) => install_onto(desk, i),
        WinAction::InstallerStart => {
            return ask_for_install(desk);
        },
        _ => {
            if let Some(k) = calc_key_of(action) {
                calculate(desk, k);
            } else if let Some((k, m)) = game_move_of(action) {
                desk.dirty = true;
                return Effect::Play(k, m);
            }
        },
    }
    Effect::Done
}

/// Which part of the desktop an action is for.
#[derive(Clone, Copy, Debug, PartialEq, Eq, Structural)]
pub enum Part {
    Windows,
    Explorer,
    Documents,
    Browser,
    Programs,
}

pub open spec fn part(a: WinAction) -> Part {
    match a {
        WinAction::Nothing | WinAction::BreakoutStop | WinAction::Close | WinAction::ClearTextbox
        | WinAction::User(_) | WinAction::ExitGui | WinAction::ToggleCursorBlink
        | WinAction::ToggleDarkTheme | WinAction::ResetWallpaper | WinAction::OpenMyComputer
        | WinAction::OpenInstaller | WinAction::OpenApplications | WinAction::OpenBrowser
        | WinAction::OpenDrive(_) | WinAction::LaunchApp(_) | WinAction::Shutdown
        | WinAction::InstallerReboot => Part::Windows,
        WinAction::RefreshFiles | WinAction::OpenReadme | WinAction::FmUp | WinAction::FmNewFolder
        | WinAction::FmNewFile | WinAction::FmDelete | WinAction::FmOpen
        | WinAction::FmSetWallpaper | WinAction::FmPreview | WinAction::FmViewList
        | WinAction::FmViewIcons => Part::Explorer,
        WinAction::FileDialogSave | WinAction::FileDialogOpen
        | WinAction::FileDialogCancel | WinAction::FileDialogUp | WinAction::TerminalRun
        | WinAction::NotepadSave | WinAction::NotepadLoad | WinAction::NotepadClear
        | WinAction::CodeNew | WinAction::CodeOpen | WinAction::CodeSave | WinAction::CodeBuild
        | WinAction::CodeRun => Part::Documents,
        WinAction::BrowserGo | WinAction::BrowserBack | WinAction::BrowserHome
        | WinAction::BrowserImages | WinAction::BrowserReload | WinAction::BrowserScroll(_)
        | WinAction::BrowserScrollTo(_) | WinAction::BrowserOpenImage | WinAction::BrowserSaveImage
        | WinAction::BrowserImageWallpaper | WinAction::BrowserSubmit => Part::Browser,
        _ => Part::Programs,
    }
}

fn part_of(a: WinAction) -> (r: Part)
    ensures
        r == part(a),
{
    match a {
        WinAction::Nothing | WinAction::BreakoutStop | WinAction::Close | WinAction::ClearTextbox
        | WinAction::User(_) | WinAction::ExitGui | WinAction::ToggleCursorBlink
        | WinAction::ToggleDarkTheme | WinAction::ResetWallpaper | WinAction::OpenMyComputer
        | WinAction::OpenInstaller | WinAction::OpenApplications | WinAction::OpenBrowser
        | WinAction::OpenDrive(_) | WinAction::LaunchApp(_) | WinAction::Shutdown
        | WinAction::InstallerReboot => Part::Windows,
        WinAction::RefreshFiles | WinAction::OpenReadme | WinAction::FmUp | WinAction::FmNewFolder
        | WinAction::FmNewFile | WinAction::FmDelete | WinAction::FmOpen
        | WinAction::FmSetWallpaper | WinAction::FmPreview | WinAction::FmViewList
        | WinAction::FmViewIcons => Part::Explorer,
        WinAction::FileDialogSave | WinAction::FileDialogOpen
        | WinAction::FileDialogCancel | WinAction::FileDialogUp | WinAction::TerminalRun
        | WinAction::NotepadSave | WinAction::NotepadLoad | WinAction::NotepadClear
        | WinAction::CodeNew | WinAction::CodeOpen | WinAction::CodeSave | WinAction::CodeBuild
        | WinAction::CodeRun => Part::Documents,
        WinAction::BrowserGo | WinAction::BrowserBack | WinAction::BrowserHome
        | WinAction::BrowserImages | WinAction::BrowserReload | WinAction::BrowserScroll(_)
        | WinAction::BrowserScrollTo(_) | WinAction::BrowserOpenImage | WinAction::BrowserSaveImage
        | WinAction::BrowserImageWallpaper | WinAction::BrowserSubmit => Part::Browser,
        _ => Part::Programs,
    }
}

pub open spec fn acted(d: DesktopModel, a: WinAction, has_disk: bool, now: u64) -> Acted {
    match part(a) {
        Part::Windows => window_acted(d, a),
        Part::Explorer => explorer_acted(d, a),
        Part::Documents => document_acted(d, a, has_disk),
        Part::Browser => browser_acted(d, a),
        Part::Programs => program_acted(d, a, now),
    }
}

/// Carry out an action of a button, menu or key. What only the machine can do
/// is handed back. `now` is the time in clock ticks, and `has_disk` says
/// whether there is a disk to keep documents on.
pub fn apply_action(desk: &mut Desktop, action: WinAction, has_disk: bool, now: u64) -> (r: Effect)
    requires
        old(desk)@.wf(),
        action matches WinAction::SnakeDir(dx, dy) ==> state::short((dx, dy)),
    ensures
        (final(desk)@, r@) == acted(old(desk)@, action, has_disk, now),
        final(desk)@.wf(),
{
    match part_of(action) {
        Part::Windows => act_on_windows(desk, action),
        Part::Explorer => act_on_explorer(desk, action),
        Part::Documents => act_on_documents(desk, action, has_disk),
        Part::Browser => act_on_browser(desk, action),
        Part::Programs => act_on_programs(desk, action, now),
    }
}

/// A setting that is toggled twice is as it was.
pub proof fn toggles_undo_themselves(d: DesktopModel)
    ensures
        blink_toggled(blink_toggled(d)).cursor_blink == d.cursor_blink,
        theme_toggled(theme_toggled(d)).dark_theme == d.dark_theme,
{
}

/// The settings window shows the state of the setting it toggles.
pub proof fn settings_are_shown(d: DesktopModel)
    requires
        d.wf(),
    ensures
        ({
            let d1 = blink_toggled(d);
            let i = manager::last_of(d.wm, WindowKind::Settings);
            i >= 0 && d.wm.windows[i].widgets.len() > 1 && d.wm.windows[i].widgets[1] is Checkbox
                ==> (d1.wm.windows[i].widgets[1] matches Widget::Checkbox { checked, .. } && checked
                == d1.cursor_blink)
        }),
{
    manager::last_where_bounds(d.wm.windows, manager::of_kind(WindowKind::Settings));
}

/// Launching a program of which at most one window is open: exactly one is
/// open afterwards, in front and not minimized, no other window is closed and
/// all keep their order. A kind that is not launched opens nothing. The screen
/// is redrawn.
pub proof fn launched_programs_are_in_front(
    d: DesktopModel,
    kind: WindowKind,
    fresh: WindowModel,
    now: u64,
)
    requires
        d.wf(),
        fresh.kind == kind,
        !fresh.minimized,
        forall|i: int, j: int|
            0 <= i < j < d.wm.windows.len() && #[trigger] d.wm.windows[i].kind == kind
                ==> #[trigger] d.wm.windows[j].kind != kind,
    ensures
        ({
            let ws = launched(d, kind, fresh, now).wm.windows;
            let before = d.wm.windows;
            let i = manager::first_of(d.wm, kind);
            &&& launched(d, kind, fresh, now).dirty
            &&& if not_launched(kind) {
                ws == before
            } else {
                &&& ws.len() > 0
                &&& ws.last().kind == kind
                &&& !ws.last().minimized
                &&& ws.drop_last() == (if i < before.len() {
                    before.remove(i)
                } else {
                    before
                })
                &&& forall|k: int| 0 <= k < ws.len() - 1 ==> (#[trigger] ws[k]).kind != kind
            }
        }),
{
    let before = d.wm.windows;
    let i = manager::first_of(d.wm, kind);
    manager::first_where_bounds(before, manager::of_kind(kind));
    if !not_launched(kind) {
        let d1 = raised_or_spawned(d, kind, fresh);
        let n = d1.wm.windows.len() - 1;
        let rest = if i < before.len() {
            before.remove(i)
        } else {
            before
        };
        assert(d1.wm.windows.drop_last() =~= rest);
        assert forall|k: int| 0 <= k < n implies (#[trigger] d1.wm.windows[k]).kind != kind by {
            assert(d1.wm.windows[k] == rest[k]);
            if i < before.len() {
                assert(before[i].kind == kind);
                if k < i {
                    assert(rest[k] == before[k]);
                    assert(!manager::of_kind(kind)(before[k]));
                } else {
                    assert(rest[k] == before[k + 1]);
                }
            } else {
                assert(!manager::of_kind(kind)(before[k]));
            }
        }
        assert(d1.wm.windows[n].kind == kind);
        manager::first_where_at(d1.wm.windows, manager::of_kind(kind), n);
        let ws = launched(d, kind, fresh, now).wm.windows;
        assert(ws.drop_last() =~= rest);
    }
}

} // verus!
