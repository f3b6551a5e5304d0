//! The desktop's state: windows, the window manager, and what the built-in
//! apps remember.

use vstd::prelude::*;

use crossbeam_queue::SegQueue;

use crate::color::Color;
use crate::text;
use crate::window::events;
use crate::window::widget;
use crate::window::widget::{FileDialogMode, FmViewMode, PaintTool, Widget, WindowKind};

verus! {

pub const TITLEBAR_H: usize = 26;

pub const BORDER: usize = 2;

pub const CLOSE_BTN: usize = 14;

/// Height of the status band at the bottom of a window.
pub const FOOTER_H: usize = 20;

/// Height of the taskbar.
pub const DESKBAR_H: usize = 40;

/// No screen, and so no window on it, is wider or higher than this.
pub const SPAN: usize = 0x100_0000;

// ── Per-app state ───────────────────────────────────────────────────────────

pub struct Calculator {
    pub lhs: Option<i64>,
    pub op: Option<char>,
    pub entry: String,
    pub new_entry: bool,
}

pub ghost struct CalculatorModel {
    pub lhs: Option<i64>,
    pub op: Option<char>,
    pub entry: Seq<char>,
    pub new_entry: bool,
}

impl View for Calculator {
    type V = CalculatorModel;

    open spec fn view(&self) -> CalculatorModel {
        CalculatorModel {
            lhs: self.lhs,
            op: self.op,
            entry: self.entry@,
            new_entry: self.new_entry,
        }
    }
}

pub struct Browser {
    /// The height of the document on screen, in pixels; `None` before
    /// anything is loaded.
    pub page: Option<usize>,
    /// Vertical scroll offset into the page, in pixels.
    pub scroll: usize,
    /// Message shown in the footer: what is loading, or what went wrong.
    pub status: String,
    /// Previously visited URLs, for the Back button.
    pub history: Vec<String>,
    /// Where the current page came from, after redirects.
    pub current: String,
}

pub ghost struct BrowserModel {
    pub page: Option<usize>,
    pub scroll: usize,
    pub status: Seq<char>,
    pub history: Seq<Seq<char>>,
    pub current: Seq<char>,
}

impl View for Browser {
    type V = BrowserModel;

    open spec fn view(&self) -> BrowserModel {
        BrowserModel {
            page: self.page,
            scroll: self.scroll,
            status: self.status@,
            history: text::strings(self.history@),
            current: self.current@,
        }
    }
}

pub struct Paint {
    /// The picture, one colour per canvas pixel, row-major.
    pub canvas: Vec<Color>,
    pub cw: usize,
    pub ch: usize,
    pub drawing: bool,
    pub last: Option<(u16, u16)>,
    pub color: Color,
    /// Brush radius in pixels; the stroke is a filled circle of this size.
    pub brush: usize,
    pub tool: PaintTool,
}

pub ghost struct PaintModel {
    pub canvas: Seq<Color>,
    pub cw: usize,
    pub ch: usize,
    pub drawing: bool,
    pub last: Option<(u16, u16)>,
    pub color: Color,
    pub brush: usize,
    pub tool: PaintTool,
}

impl View for Paint {
    type V = PaintModel;

    open spec fn view(&self) -> PaintModel {
        PaintModel {
            canvas: self.canvas@,
            cw: self.cw,
            ch: self.ch,
            drawing: self.drawing,
            last: self.last,
            color: self.color,
            brush: self.brush,
            tool: self.tool,
        }
    }
}

impl PaintModel {
    /// The bitmap has one colour for every pixel.
    pub open spec fn wf(self) -> bool {
        &&& self.canvas.len() == self.cw * self.ch
        &&& self.cw <= 0x8000
        &&& self.ch <= 0x8000
        &&& self.brush <= 255
    }
}

pub struct Snake {
    pub grid_w: u8,
    pub grid_h: u8,
    pub snake: Vec<(i16, i16)>,
    pub dir: (i8, i8),
    pub pending_dir: (i8, i8),
    pub food: (i16, i16),
    pub game_over: bool,
    pub score: u32,
    pub rng: u32,
    pub last_step_ticks: u64,
}

pub ghost struct SnakeModel {
    pub grid_w: u8,
    pub grid_h: u8,
    pub snake: Seq<(i16, i16)>,
    pub dir: (i8, i8),
    pub pending_dir: (i8, i8),
    pub food: (i16, i16),
    pub game_over: bool,
    pub score: u32,
    pub rng: u32,
    pub last_step_ticks: u64,
}

impl View for Snake {
    type V = SnakeModel;

    open spec fn view(&self) -> SnakeModel {
        SnakeModel {
            grid_w: self.grid_w,
            grid_h: self.grid_h,
            snake: self.snake@,
            dir: self.dir,
            pending_dir: self.pending_dir,
            food: self.food,
            game_over: self.game_over,
            score: self.score,
            rng: self.rng,
            last_step_ticks: self.last_step_ticks,
        }
    }
}

pub open spec fn on_grid(cell: (i16, i16), grid_w: u8, grid_h: u8) -> bool {
    0 <= cell.0 < grid_w && 0 <= cell.1 < grid_h
}

/// A direction so small that two of them can be added in its own type.
pub open spec fn short(dir: (i8, i8)) -> bool {
    -63 <= dir.0 <= 63 && -63 <= dir.1 <= 63
}

impl SnakeModel {
    /// The snake and its food are on the grid, no two parts of the snake
    /// share a cell, and a point was scored for no more parts than there are.
    /// A new game fits the grid.
    #[verifier::opaque]
    pub open spec fn wf(self) -> bool {
        &&& self.grid_w >= 11 && self.grid_h >= 6
        &&& self.snake.len() > 0
        &&& on_grid(self.food, self.grid_w, self.grid_h)
        &&& forall|i: int|
            0 <= i < self.snake.len() ==> on_grid(#[trigger] self.snake[i], self.grid_w, self.grid_h)
        &&& self.snake.no_duplicates()
        &&& short(self.dir)
        &&& short(self.pending_dir)
        &&& self.score <= self.snake.len()
    }
}

/// What the desktop keeps of a game that an engine of its own plays.
#[derive(Debug, Clone, Copy, PartialEq, Eq, Structural)]
pub struct Game {
    pub game_over: bool,
    pub won: bool,
    pub last_step_ticks: u64,
    /// The size of the playfield.
    pub w: usize,
    pub h: usize,
}

/// A scrollback buffer plus the line the user is currently typing.
pub struct Terminal {
    /// Rendered history, one already-emitted line each.
    pub scrollback: Vec<String>,
    /// The line being typed (no prompt prefix).
    pub input: String,
    /// Cursor blink state, flipped about every half second.
    pub blink_on: bool,
    /// Last tick at which the blink state flipped.
    pub last_blink_tick: u64,
}

pub ghost struct TerminalModel {
    pub scrollback: Seq<Seq<char>>,
    pub input: Seq<char>,
    pub blink_on: bool,
    pub last_blink_tick: u64,
}

impl View for Terminal {
    type V = TerminalModel;

    open spec fn view(&self) -> TerminalModel {
        TerminalModel {
            scrollback: text::strings(self.scrollback@),
            input: self.input@,
            blink_on: self.blink_on,
            last_blink_tick: self.last_blink_tick,
        }
    }
}

/// File explorer: listing and selection.
pub struct FileManager {
    pub entries: Vec<String>,
    pub selected: Option<usize>,
    pub view_mode: FmViewMode,
}

pub ghost struct FileManagerModel {
    pub entries: Seq<Seq<char>>,
    pub selected: Option<usize>,
    pub view_mode: FmViewMode,
}

impl View for FileManager {
    type V = FileManagerModel;

    open spec fn view(&self) -> FileManagerModel {
        FileManagerModel {
            entries: text::strings(self.entries@),
            selected: self.selected,
            view_mode: self.view_mode,
        }
    }
}

/// Save As / Open picker.
pub struct FileDialog {
    pub mode: FileDialogMode,
    pub entries: Vec<String>,
    pub selected: Option<usize>,
}

pub ghost struct FileDialogModel {
    pub mode: FileDialogMode,
    pub entries: Seq<Seq<char>>,
    pub selected: Option<usize>,
}

impl View for FileDialog {
    type V = FileDialogModel;

    open spec fn view(&self) -> FileDialogModel {
        FileDialogModel {
            mode: self.mode,
            entries: text::strings(self.entries@),
            selected: self.selected,
        }
    }
}

/// A disk: its number among those found, and what it is called on screen.
pub struct Disk<T = String> {
    pub id: u8,
    pub label: T,
}

impl View for Disk {
    type V = Disk<Seq<char>>;

    open spec fn view(&self) -> Disk<Seq<char>> {
        Disk { id: self.id, label: self.label@ }
    }
}

pub open spec fn disks_view(v: Seq<Disk>) -> Seq<Disk<Seq<char>>> {
    v.map_values(|d: Disk| d@)
}

/// Multi-step permanent installer.
pub struct Installer {
    /// 0 = welcome, 1 = pick target, 2 = type ERASE, 3 = done / error.
    pub step: u8,
    pub source: Disk,
    /// Parallel to the on-screen target buttons.
    pub targets: Vec<Disk>,
    pub selected: Option<usize>,
    pub status: String,
}

pub ghost struct InstallerModel {
    pub step: u8,
    pub source: Disk<Seq<char>>,
    pub targets: Seq<Disk<Seq<char>>>,
    pub selected: Option<usize>,
    pub status: Seq<char>,
}

impl View for Installer {
    type V = InstallerModel;

    open spec fn view(&self) -> InstallerModel {
        InstallerModel {
            step: self.step,
            source: self.source@,
            targets: disks_view(self.targets@),
            selected: self.selected,
            status: self.status@,
        }
    }
}

pub enum AppState {
    Plain,
    Calculator(Calculator),
    Browser(Browser),
    Paint(Paint),
    Snake(Snake),
    Breakout(Game),
    Abc,
    Racing(Game),
    Invaders(Game),
    ImageView,
    Settings,
    Terminal(Terminal),
    FileManager(FileManager),
    FileDialog(FileDialog),
    Installer(Installer),
}

pub ghost enum AppModel {
    Plain,
    Calculator(CalculatorModel),
    Browser(BrowserModel),
    Paint(PaintModel),
    Snake(SnakeModel),
    Breakout(Game),
    Abc,
    Racing(Game),
    Invaders(Game),
    ImageView,
    Settings,
    Terminal(TerminalModel),
    FileManager(FileManagerModel),
    FileDialog(FileDialogModel),
    Installer(InstallerModel),
}

impl View for AppState {
    type V = AppModel;

    open spec fn view(&self) -> AppModel {
        match *self {
            AppState::Plain => AppModel::Plain,
            AppState::Calculator(s) => AppModel::Calculator(s@),
            AppState::Browser(s) => AppModel::Browser(s@),
            AppState::Paint(s) => AppModel::Paint(s@),
            AppState::Snake(s) => AppModel::Snake(s@),
            AppState::Breakout(s) => AppModel::Breakout(s),
            AppState::Abc => AppModel::Abc,
            AppState::Racing(s) => AppModel::Racing(s),
            AppState::Invaders(s) => AppModel::Invaders(s),
            AppState::ImageView => AppModel::ImageView,
            AppState::Settings => AppModel::Settings,
            AppState::Terminal(s) => AppModel::Terminal(s@),
            AppState::FileManager(s) => AppModel::FileManager(s@),
            AppState::FileDialog(s) => AppModel::FileDialog(s@),
            AppState::Installer(s) => AppModel::Installer(s@),
        }
    }
}

// ── Window ──────────────────────────────────────────────────────────────────

pub struct Window {
    /// Stable handle used in GUI syscalls.
    pub id: u64,
    pub x: i32,
    pub y: i32,
    pub w: usize,
    pub h: usize,
    pub title: String,
    pub widgets: Vec<Widget>,
    pub kind: WindowKind,
    pub focused_widget: Option<usize>,
    /// Set when a text field has just been focused by a click, so the next
    /// thing typed replaces its contents instead of being appended.
    pub replace_on_type: bool,
    pub app: AppState,
    pub user_events: SegQueue<u64>,
    /// Status text drawn at the bottom of the window.
    pub footer: Option<String>,
    /// PID of the userspace process that created this window, or `None` for
    /// built-ins.
    pub owner_pid: Option<u64>,
    /// Hidden to the taskbar until restored.
    pub minimized: bool,
    /// Filling the desktop area (minus the taskbar).
    pub maximized: bool,
    /// Geometry to restore after maximize / mid / minimize.
    pub restore: Option<(i32, i32, usize, usize)>,
}

pub ghost struct WindowModel {
    pub id: u64,
    pub x: i32,
    pub y: i32,
    pub w: usize,
    pub h: usize,
    pub title: Seq<char>,
    pub widgets: Seq<Widget<Seq<char>>>,
    pub kind: WindowKind,
    pub focused_widget: Option<usize>,
    pub replace_on_type: bool,
    pub app: AppModel,
    pub user_events: Seq<u64>,
    pub footer: Option<Seq<char>>,
    pub owner_pid: Option<u64>,
    pub minimized: bool,
    pub maximized: bool,
    pub restore: Option<(i32, i32, usize, usize)>,
}

pub open spec fn footer_view(f: Option<String>) -> Option<Seq<char>> {
    match f {
        Some(s) => Some(s@),
        None => None,
    }
}

impl View for Window {
    type V = WindowModel;

    open spec fn view(&self) -> WindowModel {
        WindowModel {
            id: self.id,
            x: self.x,
            y: self.y,
            w: self.w,
            h: self.h,
            title: self.title@,
            widgets: widget::widgets_view(self.widgets@),
            kind: self.kind,
            focused_widget: self.focused_widget,
            replace_on_type: self.replace_on_type,
            app: self.app@,
            user_events: events::queued(self.user_events),
            footer: footer_view(self.footer),
            owner_pid: self.owner_pid,
            minimized: self.minimized,
            maximized: self.maximized,
            restore: self.restore,
        }
    }
}

pub open spec fn on_span(x: int, y: int) -> bool {
    -SPAN <= x <= SPAN && -SPAN <= y <= SPAN
}

impl WindowModel {
    /// A window's place and size stay within what a screen can have.
    pub open spec fn wf(self) -> bool {
        &&& on_span(self.x as int, self.y as int)
        &&& self.w <= SPAN
        &&& self.h <= SPAN
        &&& self.restore matches Some((x, y, w, h)) ==> on_span(x as int, y as int) && w <= SPAN
            && h <= SPAN
        &&& self.app matches AppModel::Paint(p) ==> p.wf()
        &&& self.app matches AppModel::Snake(s) ==> s.wf()
    }
}

/// A window as it is first made.
pub open spec fn fresh_window(x: i32, y: i32, w: usize, h: usize, title: Seq<char>) -> WindowModel {
    WindowModel {
        id: 0,
        x,
        y,
        w,
        h,
        title,
        widgets: Seq::empty(),
        kind: WindowKind::Generic,
        focused_widget: None,
        replace_on_type: false,
        app: AppModel::Plain,
        user_events: Seq::empty(),
        footer: None,
        owner_pid: None,
        minimized: false,
        maximized: false,
        restore: None,
    }
}

pub open spec fn inside(w: WindowModel, px: int, py: int) -> bool {
    !w.minimized && w.x <= px < w.x + w.w && w.y <= py < w.y + w.h
}

pub open spec fn on_titlebar(w: WindowModel, px: int, py: int) -> bool {
    inside(w, px, py) && py < w.y + TITLEBAR_H
}

/// The left edge of a titlebar button; close is rightmost, and max, mid and
/// min sit to its left.
pub open spec fn chrome_x(w: WindowModel, from_right: int) -> int {
    w.x + w.w - 19 - from_right * 18
}

pub open spec fn on_chrome(w: WindowModel, from_right: int, px: int, py: int) -> bool {
    chrome_x(w, from_right) <= px < chrome_x(w, from_right) + 14 && w.y + 5 <= py < w.y + 19
}

/// Remembers the geometry unless one is remembered or the window is maximized.
pub open spec fn remembered(w: WindowModel) -> WindowModel {
    if w.restore is None && !w.maximized {
        WindowModel { restore: Some((w.x, w.y, w.w, w.h)), ..w }
    } else {
        w
    }
}

pub open spec fn minimized_of(w: WindowModel) -> WindowModel {
    WindowModel { minimized: true, maximized: false, ..remembered(w) }
}

pub open spec fn at_least(a: int, b: int) -> int {
    if a >= b {
        a
    } else {
        b
    }
}

pub open spec fn at_most(a: int, b: int) -> int {
    if a <= b {
        a
    } else {
        b
    }
}

/// `a - b`, or zero where that is negative.
pub open spec fn less(a: int, b: int) -> int {
    if a >= b {
        a - b
    } else {
        0
    }
}

pub open spec fn desk_height(screen: (usize, usize)) -> int {
    less(screen.1 as int, DESKBAR_H as int)
}

/// A comfortable medium size, for a window with nothing to go back to.
pub open spec fn medium_of(w: WindowModel, screen: (usize, usize)) -> WindowModel {
    let sw = screen.0 as int;
    let dh = desk_height(screen);
    let nw = at_most(at_least(sw * 55 / 100, 420), less(sw, 40));
    let nh = at_most(at_least(dh * 60 / 100, 320), less(dh, 20));
    WindowModel {
        minimized: false,
        maximized: false,
        w: nw as usize,
        h: nh as usize,
        x: (less(sw, nw) / 2) as i32,
        y: (less(dh, nh) / 3) as i32,
        ..w
    }
}

pub open spec fn restored_of(w: WindowModel, screen: (usize, usize)) -> WindowModel {
    match w.restore {
        Some((x, y, ww, hh)) => playfield_of(
            WindowModel {
                minimized: false,
                maximized: false,
                restore: None,
                x,
                y,
                w: ww,
                h: hh,
                ..w
            },
        ),
        None => playfield_of(medium_of(w, screen)),
    }
}

pub open spec fn maximized_of(w: WindowModel, screen: (usize, usize)) -> WindowModel {
    if w.maximized {
        restored_of(w, screen)
    } else {
        playfield_of(
            WindowModel {
                minimized: false,
                maximized: true,
                x: 0,
                y: 0,
                w: screen.0,
                h: desk_height(screen) as usize,
                ..remembered(w)
            },
        )
    }
}

// ── Games that fill their window ────────────────────────────────────────────

/// Where a game keeps its buttons: the distance from the left edge and from
/// the bottom of the playfield.
pub open spec fn button_slot(kind: WindowKind, i: int) -> Option<(usize, usize)> {
    match kind {
        WindowKind::Breakout => if i == 3 {
            Some((12, 28))
        } else if i == 4 {
            Some((100, 28))
        } else if i == 5 {
            Some((188, 28))
        } else if i == 6 {
            Some((268, 28))
        } else if i == 7 {
            Some((348, 28))
        } else {
            None
        },
        WindowKind::Invaders => if i == 3 {
            Some((12, 28))
        } else if i == 4 {
            Some((84, 28))
        } else if i == 5 {
            Some((180, 28))
        } else if i == 6 {
            Some((252, 28))
        } else if i == 7 {
            Some((332, 28))
        } else if i == 8 {
            Some((412, 28))
        } else {
            None
        },
        WindowKind::Racing => if i == 3 {
            Some((12, 28))
        } else if i == 4 {
            Some((92, 28))
        } else if i == 5 {
            Some((172, 28))
        } else if i == 6 {
            Some((252, 28))
        } else if i == 7 {
            Some((12, 76))
        } else {
            None
        },
        _ => None,
    }
}

pub open spec fn is_playfield(kind: WindowKind) -> bool {
    kind == WindowKind::Breakout || kind == WindowKind::Invaders || kind == WindowKind::Racing
}

pub open spec fn playfield_w(w: WindowModel) -> int {
    at_least(less(less(w.w as int, 4), 24), 200)
}

pub open spec fn playfield_h(w: WindowModel) -> int {
    let controls = if w.kind == WindowKind::Racing {
        130int
    } else {
        90
    };
    at_least(less(less(w.h as int, 48), 36 + controls), 160)
}

/// A game's widget, moved to where the playfield's size puts it.
pub open spec fn placed(
    kind: WindowKind,
    i: int,
    wgt: Widget<Seq<char>>,
    cw: int,
    ch: int,
) -> Widget<Seq<char>> {
    match wgt {
        Widget::Canvas { x, y, .. } if i == 1 => Widget::Canvas { x, y, w: cw as usize, h: ch as usize },
        Widget::Label { x, text, .. } if i == 2 => Widget::Label { x, y: (ch + 44) as usize, text },
        Widget::Button { w, h, label, state, action, icon, .. } if button_slot(kind, i) is Some => {
            let (bx, dy) = button_slot(kind, i)->0;
            Widget::Button {
                x: at_most(bx as int, less(cw, 72)) as usize,
                y: (ch + 44 + dy) as usize,
                w,
                h,
                label,
                state,
                action,
                icon,
            }
        },
        other => other,
    }
}

pub open spec fn resized(app: AppModel, kind: WindowKind, cw: int, ch: int) -> AppModel {
    match app {
        AppModel::Breakout(g) if kind == WindowKind::Breakout => AppModel::Breakout(
            Game { w: cw as usize, h: ch as usize, ..g },
        ),
        AppModel::Invaders(g) if kind == WindowKind::Invaders => AppModel::Invaders(
            Game { w: cw as usize, h: ch as usize, ..g },
        ),
        AppModel::Racing(g) if kind == WindowKind::Racing => AppModel::Racing(
            Game { w: cw as usize, h: ch as usize, ..g },
        ),
        other => other,
    }
}

/// A game's canvas and control strip stretched to fill its window; any other
/// window is left as it is.
pub open spec fn playfield_of(w: WindowModel) -> WindowModel {
    if is_playfield(w.kind) {
        let cw = playfield_w(w);
        let ch = playfield_h(w);
        WindowModel {
            widgets: w.widgets.map(|i: int, wgt: Widget<Seq<char>>| placed(w.kind, i, wgt, cw, ch)),
            app: resized(w.app, w.kind, cw, ch),
            ..w
        }
    } else {
        w
    }
}

fn slot_of(kind: WindowKind, i: usize) -> (r: Option<(usize, usize)>)
    ensures
        r == button_slot(kind, i as int),
        r matches Some((x, dy)) ==> x <= 412 && dy <= 76,
{
    match kind {
        WindowKind::Breakout => match i {
            3 => Some((12, 28)),
            4 => Some((100, 28)),
            5 => Some((188, 28)),
            6 => Some((268, 28)),
            7 => Some((348, 28)),
            _ => None,
        },
        WindowKind::Invaders => match i {
            3 => Some((12, 28)),
            4 => Some((84, 28)),
            5 => Some((180, 28)),
            6 => Some((252, 28)),
            7 => Some((332, 28)),
            8 => Some((412, 28)),
            _ => None,
        },
        WindowKind::Racing => match i {
            3 => Some((12, 28)),
            4 => Some((92, 28)),
            5 => Some((172, 28)),
            6 => Some((252, 28)),
            7 => Some((12, 76)),
            _ => None,
        },
        _ => None,
    }
}

fn place_widget(wgt: &mut Widget, kind: WindowKind, i: usize, cw: usize, ch: usize)
    requires
        cw <= SPAN,
        ch <= SPAN,
    ensures
        final(wgt)@ == placed(kind, i as int, old(wgt)@, cw as int, ch as int),
{
    let slot = slot_of(kind, i);
    match wgt {
        Widget::Canvas { w, h, .. } => {
            if i == 1 {
                *w = cw;
                *h = ch;
            }
        },
        Widget::Label { y, .. } => {
            if i == 2 {
                *y = ch + 44;
            }
        },
        Widget::Button { x, y, .. } => {
            if let Some((bx, dy)) = slot {
                let room: usize = if cw >= 72 { cw - 72 } else { 0 };
                *x = if bx <= room { bx } else { room };
                *y = ch + 44 + dy;
            }
        },
        _ => {},
    }
}

/// Stretch a game's canvas (and its control strip) to fill the window.
#[verifier::rlimit(60)]
pub fn layout_kids_playfield(win: &mut Window)
    requires
        old(win)@.wf(),
    ensures
        final(win)@ == playfield_of(old(win)@),
        final(win)@.wf(),
{
    match win.kind {
        WindowKind::Breakout | WindowKind::Invaders | WindowKind::Racing => {},
        _ => {
            return;
        },
    }
    let content_w: usize = if win.w >= 4 { win.w - 4 } else { 0 };
    let content_h: usize = if win.h >= 48 { win.h - 48 } else { 0 };
    let controls: usize = if win.kind == WindowKind::Racing { 130 } else { 90 };
    let room_w: usize = if content_w >= 24 { content_w - 24 } else { 0 };
    let room_h: usize = if content_h >= 36 + controls { content_h - 36 - controls } else { 0 };
    let cw: usize = if room_w >= 200 { room_w } else { 200 };
    let ch: usize = if room_h >= 160 { room_h } else { 160 };
    let ghost before = *win;
    let mut i: usize = 0;
    while i < win.widgets.len()
        invariant
            i <= win.widgets@.len(),
            win.widgets@.len() == before.widgets@.len(),
            cw <= SPAN,
            ch <= SPAN,
            *win == (Window { widgets: win.widgets, ..before }),
            forall|j: int|
                0 <= j < i ==> (#[trigger] win.widgets@[j])@ == placed(
                    before.kind,
                    j,
                    before.widgets@[j]@,
                    cw as int,
                    ch as int,
                ),
            forall|j: int| i <= j < win.widgets@.len() ==> win.widgets@[j] == before.widgets@[j],
        decreases win.widgets@.len() - i,
    {
        let kind = win.kind;
        place_widget(&mut win.widgets[i], kind, i, cw, ch);
        i = i + 1;
    }
    let kind = win.kind;
    match &mut win.app {
        AppState::Breakout(g) => {
            if kind == WindowKind::Breakout {
                g.w = cw;
                g.h = ch;
            }
        },
        AppState::Invaders(g) => {
            if kind == WindowKind::Invaders {
                g.w = cw;
                g.h = ch;
            }
        },
        AppState::Racing(g) => {
            if kind == WindowKind::Racing {
                g.w = cw;
                g.h = ch;
            }
        },
        _ => {},
    }
    assert(win@.widgets =~= playfield_of(old(win)@).widgets);
}

impl Window {
    pub fn new(x: i32, y: i32, w: usize, h: usize, title: &str) -> (r: Self)
        ensures
            r@ == fresh_window(x, y, w, h, title@),
    {
        let r = Window {
            id: 0,
            x,
            y,
            w,
            h,
            title: title.to_owned(),
            widgets: Vec::new(),
            kind: WindowKind::Generic,
            focused_widget: None,
            replace_on_type: false,
            app: AppState::Plain,
            user_events: events::new_queue(),
            footer: None,
            owner_pid: None,
            minimized: false,
            maximized: false,
            restore: None,
        };
        assert(r@.widgets =~= Seq::empty());
        r
    }

    pub fn with_kind(self, kind: WindowKind) -> (r: Self)
        ensures
            r@ == (WindowModel { kind, ..self@ }),
    {
        let mut w = self;
        w.kind = kind;
        w
    }

    pub fn with_app(self, app: AppState) -> (r: Self)
        ensures
            r@ == (WindowModel { app: app@, ..self@ }),
    {
        let mut w = self;
        w.app = app;
        w
    }

    pub fn with_footer(self, text: &str) -> (r: Self)
        ensures
            r@ == (WindowModel { footer: Some(text@), ..self@ }),
    {
        let mut w = self;
        w.footer = Some(text.to_owned());
        w
    }

    pub fn add(self, widget: Widget) -> (r: Self)
        ensures
            r@ == (WindowModel { widgets: self@.widgets.push(widget@), ..self@ }),
    {
        let mut w = self;
        w.widgets.push(widget);
        assert(w@.widgets =~= self@.widgets.push(widget@));
        w
    }

    pub fn contains(&self, px: i32, py: i32) -> (r: bool)
        requires
            self@.wf(),
        ensures
            r == inside(self@, px as int, py as int),
    {
        if self.minimized {
            return false;
        }
        px >= self.x && px < self.x + self.w as i32 && py >= self.y && py < self.y + self.h as i32
    }

    pub fn in_titlebar(&self, px: i32, py: i32) -> (r: bool)
        requires
            self@.wf(),
        ensures
            r == on_titlebar(self@, px as int, py as int),
    {
        self.contains(px, py) && py < self.y + TITLEBAR_H as i32
    }

    fn chrome_btn_rect(&self, index_from_right: i32) -> (r: (i32, i32, usize, usize))
        requires
            self@.wf(),
            0 <= index_from_right <= 3,
        ensures
            r.0 == chrome_x(self@, index_from_right as int),
            r.1 == self.y + 5,
            r.2 == CLOSE_BTN,
            r.3 == CLOSE_BTN,
    {
        let x: i32 = self.x + self.w as i32 - CLOSE_BTN as i32 - 5 - index_from_right * 18;
        let y: i32 = self.y + 5;
        (x, y, CLOSE_BTN, CLOSE_BTN)
    }

    pub fn close_btn_rect(&self) -> (r: (i32, i32, usize, usize))
        requires
            self@.wf(),
        ensures
            r.0 == chrome_x(self@, 0),
            r.1 == self.y + 5,
            r.2 == CLOSE_BTN,
            r.3 == CLOSE_BTN,
    {
        self.chrome_btn_rect(0)
    }

    pub fn max_btn_rect(&self) -> (r: (i32, i32, usize, usize))
        requires
            self@.wf(),
        ensures
            r.0 == chrome_x(self@, 1),
            r.1 == self.y + 5,
            r.2 == CLOSE_BTN,
            r.3 == CLOSE_BTN,
    {
        self.chrome_btn_rect(1)
    }

    pub fn mid_btn_rect(&self) -> (r: (i32, i32, usize, usize))
        requires
            self@.wf(),
        ensures
            r.0 == chrome_x(self@, 2),
            r.1 == self.y + 5,
            r.2 == CLOSE_BTN,
            r.3 == CLOSE_BTN,
    {
        self.chrome_btn_rect(2)
    }

    pub fn min_btn_rect(&self) -> (r: (i32, i32, usize, usize))
        requires
            self@.wf(),
        ensures
            r.0 == chrome_x(self@, 3),
            r.1 == self.y + 5,
            r.2 == CLOSE_BTN,
            r.3 == CLOSE_BTN,
    {
        self.chrome_btn_rect(3)
    }

    fn in_chrome_btn(&self, index_from_right: i32, px: i32, py: i32) -> (r: bool)
        requires
            self@.wf(),
            0 <= index_from_right <= 3,
        ensures
            r == on_chrome(self@, index_from_right as int, px as int, py as int),
    {
        let (cx, cy, cw, ch) = self.chrome_btn_rect(index_from_right);
        px >= cx && px < cx + cw as i32 && py >= cy && py < cy + ch as i32
    }

    pub fn in_close_btn(&self, px: i32, py: i32) -> (r: bool)
        requires
            self@.wf(),
        ensures
            r == on_chrome(self@, 0, px as int, py as int),
    {
        self.in_chrome_btn(0, px, py)
    }

    pub fn in_max_btn(&self, px: i32, py: i32) -> (r: bool)
        requires
            self@.wf(),
        ensures
            r == on_chrome(self@, 1, px as int, py as int),
    {
        self.in_chrome_btn(1, px, py)
    }

    pub fn in_mid_btn(&self, px: i32, py: i32) -> (r: bool)
        requires
            self@.wf(),
        ensures
            r == on_chrome(self@, 2, px as int, py as int),
    {
        self.in_chrome_btn(2, px, py)
    }

    pub fn in_min_btn(&self, px: i32, py: i32) -> (r: bool)
        requires
            self@.wf(),
        ensures
            r == on_chrome(self@, 3, px as int, py as int),
    {
        self.in_chrome_btn(3, px, py)
    }

    fn save_restore_if_needed(&mut self)
        ensures
            final(self)@ == remembered(old(self)@),
    {
        if self.restore.is_none() && !self.maximized {
            self.restore = Some((self.x, self.y, self.w, self.h));
        }
    }

    pub fn apply_minimize(&mut self)
        ensures
            final(self)@ == minimized_of(old(self)@),
            old(self)@.wf() ==> final(self)@.wf(),
    {
        self.save_restore_if_needed();
        self.minimized = true;
        self.maximized = false;
    }

    pub fn apply_restore_mid(&mut self, screen: (usize, usize))
        requires
            old(self)@.wf(),
            screen.0 <= SPAN,
            screen.1 <= SPAN,
        ensures
            final(self)@ == restored_of(old(self)@, screen),
            final(self)@.wf(),
    {
        self.minimized = false;
        match self.restore {
            Some((x, y, w, h)) => {
                self.restore = None;
                self.x = x;
                self.y = y;
                self.w = w;
                self.h = h;
                self.maximized = false;
                layout_kids_playfield(self);
                return;
            },
            None => {},
        }
        let (sw, sh) = screen;
        let desk_h: usize = if sh >= DESKBAR_H { sh - DESKBAR_H } else { 0 };
        let wide: usize = sw * 55 / 100;
        let wide: usize = if wide >= 420 { wide } else { 420 };
        let room: usize = if sw >= 40 { sw - 40 } else { 0 };
        self.w = if wide <= room { wide } else { room };
        let tall: usize = desk_h * 60 / 100;
        let tall: usize = if tall >= 320 { tall } else { 320 };
        let room: usize = if desk_h >= 20 { desk_h - 20 } else { 0 };
        self.h = if tall <= room { tall } else { room };
        self.x = ((sw - self.w) / 2) as i32;
        self.y = ((desk_h - self.h) / 3) as i32;
        self.maximized = false;
        layout_kids_playfield(self);
    }

    pub fn apply_maximize(&mut self, screen: (usize, usize))
        requires
            old(self)@.wf(),
            screen.0 <= SPAN,
            screen.1 <= SPAN,
        ensures
            final(self)@ == maximized_of(old(self)@, screen),
            final(self)@.wf(),
    {
        self.minimized = false;
        if self.maximized {
            self.apply_restore_mid(screen);
            return;
        }
        self.save_restore_if_needed();
        let (sw, sh) = screen;
        self.x = 0;
        self.y = 0;
        self.w = sw;
        self.h = if sh >= DESKBAR_H { sh - DESKBAR_H } else { 0 };
        self.maximized = true;
        layout_kids_playfield(self);
    }
}

// ── Laws ────────────────────────────────────────────────────────────────────

/// A window that is minimized or maximized goes back to where it was and as
/// large as it was. While it is minimized no point of the screen is on it;
/// while it is maximized it fills the screen above the taskbar.
pub proof fn windows_go_back_to_their_place(w: WindowModel, screen: (usize, usize), px: int, py: int)
    requires
        !w.maximized,
        !w.minimized,
        w.restore is None,
        screen.1 >= 40,
    ensures
        ({
            let m = maximized_of(w, screen);
            let back = maximized_of(m, screen);
            let hidden = minimized_of(w);
            let shown = restored_of(hidden, screen);
            &&& m.maximized && m.x == 0 && m.y == 0 && m.w == screen.0 && m.h == screen.1 - 40
            &&& back.x == w.x && back.y == w.y && back.w == w.w && back.h == w.h
            &&& !back.maximized && !back.minimized && back.restore is None
            &&& hidden.minimized && !inside(hidden, px, py)
            &&& shown.x == w.x && shown.y == w.y && shown.w == w.w && shown.h == w.h
            &&& !shown.maximized && !shown.minimized && shown.restore is None
            &&& inside(shown, px, py) == inside(w, px, py)
            &&& m.id == w.id && back.id == w.id && hidden.id == w.id && shown.id == w.id
            &&& back.title == w.title && hidden.title == w.title && hidden.app == w.app
        }),
{
}

/// A window with nothing to go back to becomes a medium one that lies wholly on
/// the screen, above the taskbar.
pub proof fn medium_windows_are_on_screen(w: WindowModel, screen: (usize, usize))
    requires
        w.restore is None,
        40 <= screen.0 <= SPAN,
        60 <= screen.1 <= SPAN,
    ensures
        ({
            let m = restored_of(w, screen);
            &&& 0 <= m.x && m.x + m.w <= screen.0
            &&& 0 <= m.y && m.y + m.h <= screen.1 - 40
            &&& !m.minimized && !m.maximized
        }),
{
}

/// The buttons of a titlebar lie on it and share no point, as long as the
/// window is wide enough for four.
pub proof fn titlebar_buttons_lie_apart(w: WindowModel, a: int, b: int, px: int, py: int)
    requires
        0 <= a <= 3,
        0 <= b <= 3,
        w.w >= 73,
        w.h >= 26,
        !w.minimized,
    ensures
        on_chrome(w, a, px, py) ==> on_titlebar(w, px, py),
        on_chrome(w, a, px, py) && on_chrome(w, b, px, py) ==> a == b,
        on_chrome(w, 0, w.x + w.w - 12, w.y + 12),
{
}

/// Whether a point is on a window is a matter of its four edges: the upper and
/// the left one belong to it, the lower and the right one do not.
pub proof fn edges_bound_the_window(w: WindowModel, px: int, py: int)
    requires
        !w.minimized,
        w.w > 0,
        w.h > 0,
    ensures
        inside(w, w.x as int, w.y as int),
        inside(w, w.x + w.w - 1, w.y + w.h - 1),
        px < w.x || py < w.y || px >= w.x + w.w || py >= w.y + w.h ==> !inside(w, px, py),
        on_titlebar(w, px, py) <==> inside(w, px, py) && py - w.y < 26,
{
}

/// A game's playfield fills its window: the canvas grows with it, the line of
/// text lies below the canvas and every button below that, and no widget but
/// those moves.
pub proof fn playfields_fill_their_window(w: WindowModel, i: int)
    requires
        is_playfield(w.kind),
        0 <= i < w.widgets.len(),
        w.w >= 300,
        w.h >= 400,
        w.w <= SPAN,
        w.h <= SPAN,
    ensures
        ({
            let p = playfield_of(w);
            let cw = w.w - 28;
            let below = w.h - 84 - (if w.kind == WindowKind::Racing {
                130int
            } else {
                90
            });
            &&& p.widgets.len() == w.widgets.len()
            &&& i == 1 && w.widgets[i] is Canvas ==> p.widgets[i] == (Widget::Canvas::<Seq<char>> {
                x: w.widgets[i]->Canvas_x,
                y: w.widgets[i]->Canvas_y,
                w: cw as usize,
                h: below as usize,
            })
            &&& w.widgets[i] is Button ==> p.widgets[i] is Button && p.widgets[i]->Button_action
                == w.widgets[i]->Button_action && p.widgets[i]->Button_label
                == w.widgets[i]->Button_label
            &&& w.widgets[i] is Button && button_slot(w.kind, i) is Some ==> p.widgets[i]->Button_y
                > below + 44
            &&& i == 2 && w.widgets[i] is Label ==> p.widgets[i]->Label_y == below + 44
                && p.widgets[i]->Label_text == w.widgets[i]->Label_text
        }),
{
}

} // verus!
