//! What happens on every timer tick: the monitor's readings, the terminal's
//! cursor, and the games' and pages' turns.

use vstd::prelude::*;

use crate::sound::Cue;
use crate::text;
use crate::window::manager;
use crate::window::manager::{set_label_text, Desktop, DesktopModel, ManagerModel};
use crate::window::mouse::BROWSER_PADDING;
use crate::window::snake;
use crate::window::state;
use crate::window::state::{AppModel, AppState, Game, Window, WindowModel};
use crate::window::widget::WindowKind;

verus! {

/// Timer ticks per second.
pub const TICKS_PER_SEC: u64 = 18;

/// Ticks between two flips of the terminal's cursor.
pub const BLINK_TICKS: u64 = 9;

/// Ticks between two steps of the snake.
pub const SNAKE_TICKS: u64 = 5;

/// Height of the browser's canvas.
pub const BROWSER_CANVAS_H: usize = 424;

/// What is left to do after a tick: windows are named by their place in the
/// stack, each list in stacking order.
pub struct TickWork {
    /// Browser windows with a page, whose scripts are to have their turn.
    pub pages: Vec<usize>,
    /// What the snakes are to be heard of.
    pub cues: Vec<Cue>,
    /// The games that are to go one step.
    pub breakout: Vec<usize>,
    pub racing: Vec<usize>,
    pub invaders: Vec<usize>,
}

// ── One window ──────────────────────────────────────────────────────────────

/// The monitor's three readings.
pub open spec fn uptime_text(sec: nat) -> Seq<char> {
    "uptime: Boot+"@ + clock_text(sec)
}

/// Hours, minutes and seconds, two digits each at least.
pub open spec fn clock_text(sec: nat) -> Seq<char> {
    text::two_digits(sec / 3600) + ":"@ + text::two_digits((sec / 60) % 60) + ":"@
        + text::two_digits(sec % 60)
}

pub open spec fn heap_text(used: nat, size: nat) -> Seq<char> {
    "heap: "@ + text::decimal(used) + " / "@ + text::decimal(size) + " bytes"@
}

pub open spec fn monitored(w: WindowModel, now: u64, used: u64, size: u64) -> WindowModel {
    manager::labelled(
        manager::labelled(
            manager::labelled(w, 0, uptime_text((now / TICKS_PER_SEC) as nat)),
            1,
            "ticks: "@ + text::decimal(now as nat),
        ),
        2,
        heap_text(used as nat, size as nat),
    )
}

pub open spec fn since(now: u64, last: u64) -> int {
    state::less(now as int, last as int)
}

pub open spec fn blinks(w: WindowModel, now: u64) -> bool {
    w.kind == WindowKind::Terminal && (w.app matches AppModel::Terminal(t) && since(
        now,
        t.last_blink_tick,
    ) >= BLINK_TICKS)
}

pub open spec fn snake_due(w: WindowModel, now: u64) -> bool {
    w.kind == WindowKind::Snake && !w.minimized && (w.app matches AppModel::Snake(s)
        && !s.game_over && since(now, s.last_step_ticks) >= SNAKE_TICKS)
}

/// How many ticks a game of this kind waits between steps, and whether it
/// stops when it is won.
pub open spec fn game_of(w: WindowModel) -> Option<(Game, int)> {
    match w.app {
        AppModel::Breakout(g) if w.kind == WindowKind::Breakout => Some((g, 1)),
        AppModel::Racing(g) if w.kind == WindowKind::Racing => Some((g, 2)),
        AppModel::Invaders(g) if w.kind == WindowKind::Invaders => Some((g, 2)),
        _ => None,
    }
}

/// A race is never won, so only its end stops it.
pub open spec fn game_due(w: WindowModel, now: u64) -> bool {
    !w.minimized && (game_of(w) matches Some((g, wait)) && !g.game_over && (w.kind
        == WindowKind::Racing || !g.won) && since(now, g.last_step_ticks) >= wait)
}

pub open spec fn marked(app: AppModel, now: u64) -> AppModel {
    match app {
        AppModel::Breakout(g) => AppModel::Breakout(Game { last_step_ticks: now, ..g }),
        AppModel::Racing(g) => AppModel::Racing(Game { last_step_ticks: now, ..g }),
        AppModel::Invaders(g) => AppModel::Invaders(Game { last_step_ticks: now, ..g }),
        other => other,
    }
}

/// A window one tick later; `fresh` when a new second has begun.
pub open spec fn ticked(w: WindowModel, now: u64, fresh: bool, used: u64, size: u64) -> WindowModel {
    if w.kind == WindowKind::Monitor && fresh {
        monitored(w, now, used, size)
    } else if blinks(w, now) {
        match w.app {
            AppModel::Terminal(t) => WindowModel {
                app: AppModel::Terminal(
                    state::TerminalModel { blink_on: !t.blink_on, last_blink_tick: now, ..t },
                ),
                ..w
            },
            _ => w,
        }
    } else if snake_due(w, now) {
        snake::window_stepped(w, now)
    } else if game_due(w, now) {
        WindowModel { app: marked(w.app, now), ..w }
    } else {
        w
    }
}

/// Whether the tick changes what a window shows.
pub open spec fn stirs(w: WindowModel, now: u64, fresh: bool) -> bool {
    ||| w.kind == WindowKind::Monitor && fresh
    ||| blinks(w, now)
    ||| snake_due(w, now)
    ||| game_due(w, now)
}

fn gap(now: u64, last: u64) -> (r: u64)
    ensures
        r == since(now, last),
{
    if now >= last {
        now - last
    } else {
        0
    }
}

fn monitor_tick(win: &mut Window, now: u64, used: u64, size: u64)
    ensures
        final(win)@ == monitored(old(win)@, now, used, size),
        old(win)@.wf() ==> final(win)@.wf(),
{
    let sec: u64 = now / TICKS_PER_SEC;
    let mut line = "uptime: Boot+".to_owned();
    push_clock(&mut line, sec);
    set_label_text(win, 0, line.as_str());
    let mut line = "ticks: ".to_owned();
    text::push_decimal(&mut line, now);
    set_label_text(win, 1, line.as_str());
    let mut line = "heap: ".to_owned();
    text::push_decimal(&mut line, used);
    line.append(" / ");
    text::push_decimal(&mut line, size);
    line.append(" bytes");
    assert(line@ =~= heap_text(used as nat, size as nat));
    set_label_text(win, 2, line.as_str());
}

pub fn push_clock(line: &mut String, sec: u64)
    ensures
        final(line)@ == old(line)@ + clock_text(sec as nat),
{
    text::push_two_digits(line, sec / 3600);
    line.append(":");
    text::push_two_digits(line, (sec / 60) % 60);
    line.append(":");
    text::push_two_digits(line, sec % 60);
    assert(line@ =~= old(line)@ + clock_text(sec as nat));
}

/// What a window's tick leaves to be done.
#[derive(Debug, Clone, Copy, PartialEq, Eq, Structural)]
pub enum Turn {
    /// Nothing changed.
    Still,
    /// The window shows something new.
    Changed,
    /// The snake moved, and is heard.
    Heard(Cue),
    /// The game's engine is to step.
    Game,
}

pub open spec fn turn_of(w: WindowModel, now: u64, fresh: bool) -> Turn {
    if w.kind == WindowKind::Monitor && fresh {
        Turn::Changed
    } else if blinks(w, now) {
        Turn::Changed
    } else if snake_due(w, now) {
        match w.app {
            AppModel::Snake(s) => match snake::step_cue(s) {
                Some(c) => Turn::Heard(c),
                None => Turn::Changed,
            },
            _ => Turn::Changed,
        }
    } else if game_due(w, now) {
        Turn::Game
    } else {
        Turn::Still
    }
}

#[verifier::rlimit(60)]
fn window_tick(win: &mut Window, now: u64, fresh: bool, used: u64, size: u64) -> (r: Turn)
    requires
        old(win)@.wf(),
    ensures
        final(win)@ == ticked(old(win)@, now, fresh, used, size),
        final(win)@.wf(),
        r == turn_of(old(win)@, now, fresh),
{
    match win.kind {
        WindowKind::Monitor => {
            if fresh {
                monitor_tick(win, now, used, size);
                return Turn::Changed;
            }
            Turn::Still
        },
        WindowKind::Terminal => {
            match &mut win.app {
                AppState::Terminal(t) => {
                    if gap(now, t.last_blink_tick) >= BLINK_TICKS {
                        t.blink_on = !t.blink_on;
                        t.last_blink_tick = now;
                        return Turn::Changed;
                    }
                },
                _ => {},
            }
            Turn::Still
        },
        WindowKind::Snake => {
            let due = match &win.app {
                AppState::Snake(s) => !win.minimized && !s.game_over && gap(now, s.last_step_ticks)
                    >= SNAKE_TICKS,
                _ => false,
            };
            if !due {
                return Turn::Still;
            }
            match snake::snake_step(win, now) {
                Some(c) => Turn::Heard(c),
                None => Turn::Changed,
            }
        },
        WindowKind::Breakout => {
            let minimized = win.minimized;
            match &mut win.app {
                AppState::Breakout(g) => {
                    if !minimized && !g.game_over && !g.won && gap(now, g.last_step_ticks) >= 1 {
                        g.last_step_ticks = now;
                        return Turn::Game;
                    }
                },
                _ => {},
            }
            Turn::Still
        },
        WindowKind::Racing => {
            let minimized = win.minimized;
            match &mut win.app {
                AppState::Racing(g) => {
                    if !minimized && !g.game_over && gap(now, g.last_step_ticks) >= 2 {
                        g.last_step_ticks = now;
                        return Turn::Game;
                    }
                },
                _ => {},
            }
            Turn::Still
        },
        WindowKind::Invaders => {
            let minimized = win.minimized;
            match &mut win.app {
                AppState::Invaders(g) => {
                    if !minimized && !g.game_over && !g.won && gap(now, g.last_step_ticks) >= 2 {
                        g.last_step_ticks = now;
                        return Turn::Game;
                    }
                },
                _ => {},
            }
            Turn::Still
        },
        _ => Turn::Still,
    }
}

// ── The whole desktop ───────────────────────────────────────────────────────

pub open spec fn has_page(w: WindowModel) -> bool {
    w.kind == WindowKind::Browser && (w.app matches AppModel::Browser(b) && b.page is Some)
}

/// The places below `n` of the windows that pass a test.
pub open spec fn places(
    ws: Seq<WindowModel>,
    test: spec_fn(WindowModel) -> bool,
    n: int,
) -> Seq<usize>
    decreases n,
{
    if n <= 0 {
        Seq::empty()
    } else if test(ws[n - 1]) {
        places(ws, test, n - 1).push((n - 1) as usize)
    } else {
        places(ws, test, n - 1)
    }
}

pub open spec fn with_page() -> spec_fn(WindowModel) -> bool {
    |w: WindowModel| has_page(w)
}

pub open spec fn playing(kind: WindowKind, now: u64) -> spec_fn(WindowModel) -> bool {
    |w: WindowModel| w.kind == kind && game_due(w, now)
}

/// What the snakes of the first `n` windows are to be heard of.
pub open spec fn heard(ws: Seq<WindowModel>, now: u64, n: int) -> Seq<Cue>
    decreases n,
{
    if n <= 0 {
        Seq::empty()
    } else {
        let before = heard(ws, now, n - 1);
        match ws[n - 1].app {
            AppModel::Snake(s) if snake_due(ws[n - 1], now) => match snake::step_cue(s) {
                Some(c) => before.push(c),
                None => before,
            },
            _ => before,
        }
    }
}

pub open spec fn fresh_second(d: DesktopModel, now: u64) -> bool {
    now / TICKS_PER_SEC != d.last_tick_sec
}

/// The desktop one tick later.
pub open spec fn desktop_ticked(d: DesktopModel, now: u64, used: u64, size: u64) -> DesktopModel {
    let fresh = fresh_second(d, now);
    DesktopModel {
        wm: ManagerModel {
            windows: d.wm.windows.map_values(|w: WindowModel| ticked(w, now, fresh, used, size)),
            ..d.wm
        },
        last_tick_sec: now / TICKS_PER_SEC,
        dirty: d.dirty || exists|i: int|
            0 <= i < d.wm.windows.len() && stirs(#[trigger] d.wm.windows[i], now, fresh),
        ..d
    }
}

/// Called for every timer tick, with what the heap has in use and in all.
/// The scripts and game engines named in the result are to have their turn,
/// and [`PageTurns`] or [`game_stepped`] is to be told what came of it.
#[verifier::rlimit(60)]
pub fn tick(desk: &mut Desktop, now_ticks: u64, heap_used: u64, heap_size: u64) -> (r: TickWork)
    requires
        old(desk)@.wf(),
    ensures
        final(desk)@ == desktop_ticked(old(desk)@, now_ticks, heap_used, heap_size),
        final(desk)@.wf(),
        ({
            let ws = old(desk)@.wm.windows;
            let n = ws.len() as int;
            &&& r.pages@ == places(ws, with_page(), n)
            &&& r.cues@ == heard(ws, now_ticks, n)
            &&& r.breakout@ == places(ws, playing(WindowKind::Breakout, now_ticks), n)
            &&& r.racing@ == places(ws, playing(WindowKind::Racing, now_ticks), n)
            &&& r.invaders@ == places(ws, playing(WindowKind::Invaders, now_ticks), n)
        }),
{
    let fresh = now_ticks / TICKS_PER_SEC != desk.last_tick_sec;
    let mut work = TickWork {
        pages: Vec::new(),
        cues: Vec::new(),
        breakout: Vec::new(),
        racing: Vec::new(),
        invaders: Vec::new(),
    };
    let mut changed = false;
    let ghost ws = desk@.wm.windows;
    let ghost d0 = desk@;
    let mut i: usize = 0;
    while i < desk.wm.windows.len()
        invariant
            d0 == old(desk)@,
            d0.wf(),
            ws == d0.wm.windows,
            fresh == fresh_second(d0, now_ticks),
            i <= desk.wm.windows@.len(),
            desk.wm.windows@.len() == ws.len(),
            desk@ == (DesktopModel {
                wm: ManagerModel { windows: desk@.wm.windows, ..d0.wm },
                ..d0
            }),
            forall|j: int|
                0 <= j < i ==> #[trigger] desk@.wm.windows[j] == ticked(
                    ws[j],
                    now_ticks,
                    fresh,
                    heap_used,
                    heap_size,
                ) && desk@.wm.windows[j].wf(),
            forall|j: int| i <= j < ws.len() ==> #[trigger] desk@.wm.windows[j] == ws[j],
            changed == exists|j: int| 0 <= j < i && stirs(#[trigger] ws[j], now_ticks, fresh),
            work.pages@ == places(ws, with_page(), i as int),
            work.cues@ == heard(ws, now_ticks, i as int),
            work.breakout@ == places(ws, playing(WindowKind::Breakout, now_ticks), i as int),
            work.racing@ == places(ws, playing(WindowKind::Racing, now_ticks), i as int),
            work.invaders@ == places(ws, playing(WindowKind::Invaders, now_ticks), i as int),
        decreases ws.len() - i,
    {
        let ghost before = desk.wm.windows@;
        let ghost w0 = ws[i as int];
        assert(desk@.wm.windows[i as int] == w0);
        assert(w0.wf());
        let kind = desk.wm.windows[i].kind;
        let page = match &desk.wm.windows[i].app {
            AppState::Browser(b) => kind == WindowKind::Browser && b.page.is_some(),
            _ => false,
        };
        if page {
            work.pages.push(i);
        }
        let turn = window_tick(&mut desk.wm.windows[i], now_ticks, fresh, heap_used, heap_size);
        proof {
            manager::view_updated(before, i as int, desk.wm.windows@[i as int]);
        }
        match turn {
            Turn::Still => {},
            Turn::Changed => {
                changed = true;
            },
            Turn::Heard(c) => {
                changed = true;
                work.cues.push(c);
            },
            Turn::Game => {
                changed = true;
                match kind {
                    WindowKind::Breakout => {
                        work.breakout.push(i);
                    },
                    WindowKind::Racing => {
                        work.racing.push(i);
                    },
                    _ => {
                        work.invaders.push(i);
                    },
                }
            },
        }
        assert((turn != Turn::Still) == stirs(w0, now_ticks, fresh));
        i = i + 1;
    }
    desk.last_tick_sec = now_ticks / TICKS_PER_SEC;
    if changed {
        desk.dirty = true;
    }
    assert(desk@.wm.windows =~= desktop_ticked(d0, now_ticks, heap_used, heap_size).wm.windows);
    work
}

// ── What came of a turn ─────────────────────────────────────────────────────

/// The furthest that a page of this height scrolls.
pub open spec fn scroll_limit(height: usize) -> int {
    state::less(height as int, BROWSER_CANVAS_H - 2 * BROWSER_PADDING)
}

/// A browser window whose scripts changed its page to a new height: a timer
/// may have shortened the page out from under the viewport.
pub open spec fn pumped(w: WindowModel, height: usize) -> WindowModel {
    match w.app {
        AppModel::Browser(b) => WindowModel {
            app: AppModel::Browser(
                state::BrowserModel {
                    page: Some(height),
                    scroll: state::at_most(b.scroll as int, scroll_limit(height)) as usize,
                    ..b
                },
            ),
            ..w
        },
        _ => w,
    }
}

/// A page's scripts had their turn and changed the page.
pub fn page_pumped(desk: &mut Desktop, i: usize, height: usize)
    requires
        old(desk)@.wf(),
        i < old(desk).wm.windows@.len(),
    ensures
        final(desk)@ == old(desk)@.set_window(
            i as int,
            pumped(old(desk)@.wm.windows[i as int], height),
        ).redraw(),
        final(desk)@.wf(),
{
    let ghost before = desk.wm.windows@;
    assert(desk@.wm.windows[i as int].wf());
    let room: usize = BROWSER_CANVAS_H - 2 * BROWSER_PADDING;
    let limit: usize = if height >= room { height - room } else { 0 };
    match &mut desk.wm.windows[i].app {
        AppState::Browser(b) => {
            b.page = Some(height);
            if b.scroll > limit {
                b.scroll = limit;
            }
        },
        _ => {},
    }
    proof {
        let w = desk.wm.windows@[i as int];
        assert(w@.widgets =~= before[i as int]@.widgets);
        manager::view_updated(before, i as int, w);
    }
    desk.dirty = true;
}

/// A game's engine went one step: how the game now stands, and its status
/// line.
pub open spec fn game_shown(w: WindowModel, game_over: bool, won: bool, line: Seq<char>) -> WindowModel {
    manager::labelled(WindowModel { app: judged(w.app, game_over, won), ..w }, 2, line)
}

pub open spec fn judged(app: AppModel, game_over: bool, won: bool) -> AppModel {
    match app {
        AppModel::Breakout(g) => AppModel::Breakout(Game { game_over, won, ..g }),
        AppModel::Racing(g) => AppModel::Racing(Game { game_over, won, ..g }),
        AppModel::Invaders(g) => AppModel::Invaders(Game { game_over, won, ..g }),
        other => other,
    }
}

pub fn game_stepped(win: &mut Window, game_over: bool, won: bool, line: &str)
    requires
        old(win)@.wf(),
    ensures
        final(win)@ == game_shown(old(win)@, game_over, won, line@),
        final(win)@.wf(),
{
    match &mut win.app {
        AppState::Breakout(g) => {
            g.game_over = game_over;
            g.won = won;
        },
        AppState::Racing(g) => {
            g.game_over = game_over;
            g.won = won;
        },
        AppState::Invaders(g) => {
            g.game_over = game_over;
            g.won = won;
        },
        _ => {},
    }
    set_label_text(win, 2, line);
}

// ── The pages' turns ────────────────────────────────────────────────────────

/// Where a page is in its turn: before anything else it is asked for an
/// address, whether or not there is work for it; then for work; and after it
/// ran, for an address again.
#[derive(Debug, Clone, Copy, PartialEq, Eq, Structural)]
pub enum PageStage {
    Before,
    Work,
    Run,
    After,
}

/// What is to be asked of a page's scripts next, the page named by the place
/// of its window.
pub enum PageAsk {
    /// Take the address that the scripts want to go to.
    Address(usize),
    /// Whether the scripts have anything to do.
    Work(usize),
    /// Let the scripts run.
    Run(usize),
    /// Every page had its turn; this is where to go, if anywhere.
    Done(Option<String>),
}

/// What a page's scripts answered: the page's new height where running them
/// changed the page.
pub enum PageSaid {
    Address(Option<String>),
    Work(bool),
    Ran(Option<usize>),
}

#[verifier::ext_equal]
pub enum PageAskModel {
    Address(usize),
    Work(usize),
    Run(usize),
    Done(Option<Seq<char>>),
}

#[verifier::ext_equal]
pub enum PageSaidModel {
    Address(Option<Seq<char>>),
    Work(bool),
    Ran(Option<usize>),
}

impl View for PageAsk {
    type V = PageAskModel;

    open spec fn view(&self) -> PageAskModel {
        match *self {
            PageAsk::Address(i) => PageAskModel::Address(i),
            PageAsk::Work(i) => PageAskModel::Work(i),
            PageAsk::Run(i) => PageAskModel::Run(i),
            PageAsk::Done(a) => PageAskModel::Done(state::footer_view(a)),
        }
    }
}

impl View for PageSaid {
    type V = PageSaidModel;

    open spec fn view(&self) -> PageSaidModel {
        match *self {
            PageSaid::Address(a) => PageSaidModel::Address(state::footer_view(a)),
            PageSaid::Work(b) => PageSaidModel::Work(b),
            PageSaid::Ran(h) => PageSaidModel::Ran(h),
        }
    }
}

/// The turns of the pages that a tick named, one page after the other. The
/// first address that any of them gives is kept, and no page is asked for
/// another: what it has waits for the next tick.
pub struct PageTurns {
    pages: Vec<usize>,
    at: usize,
    stage: PageStage,
    address: Option<String>,
}

#[verifier::ext_equal]
pub struct PageTurnsModel {
    pub pages: Seq<usize>,
    pub at: int,
    pub stage: PageStage,
    pub address: Option<Seq<char>>,
}

impl View for PageTurns {
    type V = PageTurnsModel;

    closed spec fn view(&self) -> PageTurnsModel {
        PageTurnsModel {
            pages: self.pages@,
            at: self.at as int,
            stage: self.stage,
            address: state::footer_view(self.address),
        }
    }
}

impl PageTurnsModel {
    /// A page is asked for an address only while there is none.
    pub open spec fn wf(self) -> bool {
        &&& 0 <= self.at <= self.pages.len()
        &&& self.address is Some ==> self.stage == PageStage::Work || self.stage == PageStage::Run
    }

    pub open spec fn onward(self) -> PageTurnsModel {
        PageTurnsModel {
            at: self.at + 1,
            stage: if self.address is Some {
                PageStage::Work
            } else {
                PageStage::Before
            },
            ..self
        }
    }

    pub open spec fn ask(self) -> PageAskModel {
        if self.at >= self.pages.len() {
            PageAskModel::Done(self.address)
        } else {
            match self.stage {
                PageStage::Before | PageStage::After => PageAskModel::Address(self.pages[self.at]),
                PageStage::Work => PageAskModel::Work(self.pages[self.at]),
                PageStage::Run => PageAskModel::Run(self.pages[self.at]),
            }
        }
    }

    /// Whether this answers what is asked.
    pub open spec fn answered_by(self, said: PageSaidModel) -> bool {
        match self.ask() {
            PageAskModel::Address(_) => said is Address,
            PageAskModel::Work(_) => said is Work,
            PageAskModel::Run(_) => said is Ran,
            PageAskModel::Done(_) => false,
        }
    }

    /// After an answer; what answers nothing that was asked is passed over.
    pub open spec fn after(self, said: PageSaidModel) -> PageTurnsModel {
        if !self.answered_by(said) {
            self
        } else {
            match said {
                PageSaidModel::Address(address) => if self.stage == PageStage::Before {
                    PageTurnsModel { stage: PageStage::Work, address, ..self }
                } else {
                    (PageTurnsModel { address, ..self }).onward()
                },
                PageSaidModel::Work(true) => PageTurnsModel { stage: PageStage::Run, ..self },
                PageSaidModel::Work(false) => self.onward(),
                PageSaidModel::Ran(_) => if self.address is Some {
                    self.onward()
                } else {
                    PageTurnsModel { stage: PageStage::After, ..self }
                },
            }
        }
    }

    /// How many answers are awaited at most.
    pub open spec fn left(self) -> int {
        if self.at >= self.pages.len() {
            0
        } else {
            4 * (self.pages.len() - self.at) - match self.stage {
                PageStage::Before => 0int,
                PageStage::Work => 1,
                PageStage::Run => 2,
                PageStage::After => 3,
            }
        }
    }
}

/// The desktop after an answer: only a page that its scripts changed, in a
/// window that is still there, changes anything.
pub open spec fn page_ran(d: DesktopModel, t: PageTurnsModel, said: PageSaidModel) -> DesktopModel {
    match (t.ask(), said) {
        (PageAskModel::Run(i), PageSaidModel::Ran(Some(height))) if i < d.wm.windows.len() =>
            d.set_window(i as int, pumped(d.wm.windows[i as int], height)).redraw(),
        _ => d,
    }
}

impl PageTurns {
    pub fn new(pages: Vec<usize>) -> (r: PageTurns)
        ensures
            r@ == (PageTurnsModel {
                pages: pages@,
                at: 0,
                stage: PageStage::Before,
                address: None,
            }),
            r@.wf(),
    {
        PageTurns { pages, at: 0, stage: PageStage::Before, address: None }
    }

    pub fn ask(&self) -> (r: PageAsk)
        ensures
            r@ == self@.ask(),
    {
        if self.at >= self.pages.len() {
            return PageAsk::Done(
                match &self.address {
                    Some(a) => Some(a.as_str().to_owned()),
                    None => None,
                },
            );
        }
        let page = self.pages[self.at];
        match self.stage {
            PageStage::Before | PageStage::After => PageAsk::Address(page),
            PageStage::Work => PageAsk::Work(page),
            PageStage::Run => PageAsk::Run(page),
        }
    }

    fn onward(&mut self)
        requires
            old(self)@.at < old(self)@.pages.len(),
        ensures
            final(self)@ == old(self)@.onward(),
    {
        assert(self.pages.len() == self.pages@.len());
        self.at = self.at + 1;
        self.stage = if self.address.is_some() {
            PageStage::Work
        } else {
            PageStage::Before
        };
    }

    /// A page answered: the desktop is brought up to date, and the turns go
    /// on.
    pub fn answer(&mut self, desk: &mut Desktop, said: PageSaid)
        requires
            old(self)@.wf(),
            old(desk)@.wf(),
        ensures
            final(self)@ == old(self)@.after(said@),
            final(self)@.wf(),
            final(desk)@ == page_ran(old(desk)@, old(self)@, said@),
            final(desk)@.wf(),
    {
        match (self.ask(), said) {
            (PageAsk::Address(_), PageSaid::Address(address)) => {
                self.address = address;
                match self.stage {
                    PageStage::Before => {
                        self.stage = PageStage::Work;
                    },
                    _ => {
                        self.onward();
                    },
                }
            },
            (PageAsk::Work(_), PageSaid::Work(work)) => {
                if work {
                    self.stage = PageStage::Run;
                } else {
                    self.onward();
                }
            },
            (PageAsk::Run(i), PageSaid::Ran(height)) => {
                match height {
                    Some(height) => {
                        if i < desk.wm.windows.len() {
                            page_pumped(desk, i, height);
                        }
                    },
                    None => {},
                }
                if self.address.is_some() {
                    self.onward();
                } else {
                    self.stage = PageStage::After;
                }
            },
            _ => {},
        }
    }
}

// ── Laws ────────────────────────────────────────────────────────────────────

/// A tick opens, closes, moves and reorders no window, and steals no focus.
pub proof fn ticks_keep_the_windows(d: DesktopModel, now: u64, used: u64, size: u64, i: int)
    requires
        0 <= i < d.wm.windows.len(),
    ensures
        ({
            let e = desktop_ticked(d, now, used, size);
            let a = d.wm.windows[i];
            let b = e.wm.windows[i];
            &&& e.wm.windows.len() == d.wm.windows.len()
            &&& b.id == a.id
            &&& b.kind == a.kind
            &&& (b.x, b.y, b.w, b.h) == (a.x, a.y, a.w, a.h)
            &&& b.focused_widget == a.focused_widget
            &&& b.widgets.len() == a.widgets.len()
            &&& b.minimized == a.minimized
        }),
{
}

/// A tick that asks for no redraw changed no window.
pub proof fn a_quiet_tick_changes_nothing(d: DesktopModel, now: u64, used: u64, size: u64, i: int)
    requires
        0 <= i < d.wm.windows.len(),
        !desktop_ticked(d, now, used, size).dirty,
    ensures
        desktop_ticked(d, now, used, size).wm.windows[i] == d.wm.windows[i],
{
    assert(!stirs(d.wm.windows[i], now, fresh_second(d, now)));
}

/// The first address that a page's scripts gave is where the browser goes:
/// no later answer replaces it.
pub proof fn the_first_address_wins(t: PageTurnsModel, said: PageSaidModel)
    requires
        t.wf(),
        t.address is Some,
    ensures
        t.after(said).address == t.address,
{
}

/// Every answer brings the turns nearer to their end, so that all pages have
/// had their turn after four answers each at most.
pub proof fn turns_end(t: PageTurnsModel, said: PageSaidModel)
    requires
        t.wf(),
        t.answered_by(said),
    ensures
        t.after(said).wf(),
        0 <= t.after(said).left() < t.left() <= 4 * t.pages.len(),
{
}

/// The uptime shows hours, minutes and seconds that add up to it.
pub proof fn the_uptime_adds_up(sec: nat)
    requires
        sec < 360_000,
    ensures
        clock_text(sec).len() == 8,
        clock_text(sec)[2] == ':',
        clock_text(sec)[5] == ':',
        ({
            let h = text::digits_value(clock_text(sec).subrange(0, 2));
            let m = text::digits_value(clock_text(sec).subrange(3, 5));
            let s = text::digits_value(clock_text(sec).subrange(6, 8));
            &&& m < 60 && s < 60
            &&& h * 3600 + m * 60 + s == sec
        }),
{
    reveal_strlit(":");
    let h: nat = sec / 3600;
    let m: nat = (sec / 60) % 60;
    let s: nat = sec % 60;
    assert(h < 100);
    text::two_digits_are_two(h);
    text::two_digits_are_two(m);
    text::two_digits_are_two(s);
    assert(clock_text(sec).subrange(0, 2) =~= text::two_digits(h));
    assert(clock_text(sec).subrange(3, 5) =~= text::two_digits(m));
    assert(clock_text(sec).subrange(6, 8) =~= text::two_digits(s));
    assert(h == sec / 60 / 60);
}

/// A snake goes one step when its time has come, and neither before, nor when
/// its game is over, nor while its window is hidden.
pub proof fn the_snake_steps_in_time(
    w: WindowModel,
    s: state::SnakeModel,
    now: u64,
    fresh: bool,
    used: u64,
    size: u64,
)
    requires
        w.kind == WindowKind::Snake,
        w.app == AppModel::Snake(s),
        now >= s.last_step_ticks,
    ensures
        !s.game_over && !w.minimized && now - s.last_step_ticks >= 5 ==> ticked(
            w,
            now,
            fresh,
            used,
            size,
        ).app == AppModel::Snake(snake::stepped(s, now)),
        s.game_over || w.minimized || now - s.last_step_ticks < 5 ==> ticked(
            w,
            now,
            fresh,
            used,
            size,
        ) == w,
{
}

/// A game's engine is to step when its time has come, and never once it is over
/// or hidden.
pub proof fn finished_games_stand_still(w: WindowModel, now: u64)
    requires
        w.minimized || (w.app matches AppModel::Breakout(g) && (g.game_over || g.won)) || (
        w.app matches AppModel::Invaders(g) && (g.game_over || g.won)) || (
        w.app matches AppModel::Racing(g) && g.game_over),
    ensures
        !game_due(w, now),
{
}

/// The places that are named are those of the windows that pass the test, each
/// once and in order.
pub proof fn places_are_those_that_pass(
    ws: Seq<WindowModel>,
    test: spec_fn(WindowModel) -> bool,
    n: int,
    i: int,
)
    requires
        0 <= n <= ws.len() <= usize::MAX,
        0 <= i < n,
    ensures
        places(ws, test, n).contains(i as usize) <==> test(ws[i]),
        forall|k: int|
            0 <= k < places(ws, test, n).len() ==> (#[trigger] places(ws, test, n)[k]) < n && test(
                ws[places(ws, test, n)[k] as int],
            ),
        forall|k: int, l: int|
            0 <= k < l < places(ws, test, n).len() ==> places(ws, test, n)[k] < places(
                ws,
                test,
                n,
            )[l],
    decreases n,
{
    let all = places(ws, test, n);
    let before = places(ws, test, n - 1);
    if n - 1 > 0 {
        places_are_those_that_pass(ws, test, n - 1, if i < n - 1 { i } else { 0 });
    }
    if test(ws[n - 1]) {
        assert(all == before.push((n - 1) as usize));
        assert(all[all.len() - 1] == n - 1);
        if i < n - 1 && before.contains(i as usize) {
            let k = choose|k: int| 0 <= k < before.len() && before[k] == i as usize;
            assert(all[k] == i as usize);
        }
        if i < n - 1 && all.contains(i as usize) {
            let k = choose|k: int| 0 <= k < all.len() && all[k] == i as usize;
            assert(k < before.len());
            assert(before[k] == i as usize);
        }
        assert forall|k: int| 0 <= k < all.len() implies (#[trigger] all[k]) < n && test(
            ws[all[k] as int],
        ) by {
            if k < before.len() {
                assert(all[k] == before[k]);
            }
        }
    } else if i == n - 1 && all.contains(i as usize) {
        let k = choose|k: int| 0 <= k < all.len() && all[k] == i as usize;
        assert(before[k] < n - 1);
    }
}

/// A page that became shorter is still on view: the scroll position never lies
/// beyond its end.
pub proof fn shortened_pages_stay_on_view(w: WindowModel, b: state::BrowserModel, height: usize)
    requires
        w.app == AppModel::Browser(b),
    ensures
        pumped(w, height).app matches AppModel::Browser(c) && c.page == Some(height) && c.scroll
            <= b.scroll && (height >= 416 ==> c.scroll <= height - 416) && (height < 416
            ==> c.scroll == 0) && (b.scroll + 416 <= height ==> c.scroll == b.scroll),
{
}

/// The monitor shows the time since the start, the ticks and the heap.
pub proof fn the_monitor_is_up_to_date(w: WindowModel, now: u64, used: u64, size: u64)
    requires
        w.kind == WindowKind::Monitor,
        w.widgets.len() > 2,
        w.widgets[0] is Label,
        w.widgets[1] is Label,
        w.widgets[2] is Label,
    ensures
        ({
            let v = ticked(w, now, true, used, size);
            &&& v.widgets[0]->Label_text == "uptime: Boot+"@ + clock_text((now / 18) as nat)
            &&& v.widgets[1]->Label_text == "ticks: "@ + text::decimal(now as nat)
            &&& v.widgets[2]->Label_text == "heap: "@ + text::decimal(used as nat) + " / "@
                + text::decimal(size as nat) + " bytes"@
        }),
{
}

} // verus!
