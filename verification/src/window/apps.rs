//! The windows of the built-in apps as they are first opened.

use vstd::prelude::*;
use vstd::string::*;

use crate::color::Color;
use crate::text;
use crate::window::files;
use crate::window::files::{fm_display_name, FD_LIST_Y0, FD_ROWS, FM_FILE_Y0, FM_LIST_LABEL_X, FM_ROWS, FM_ROW_H};
use crate::window::paint;
use crate::window::paint::PAINT_PALETTE;
use crate::window::state;
use crate::window::state::{
    AppModel, AppState, Browser, Calculator, Disk, FileDialog, FileManager, Game, Paint, Snake,
    Terminal, Window, WindowModel, SPAN,
};
use crate::window::status;
use crate::window::status::{file_line, notepad_status};
use crate::window::tick;
use crate::window::widget;
use crate::window::widget::{
    FileDialogMode, FileDialogTarget, FmViewMode, Icon, PaintTool, WinAction, Widget, WindowKind,
};

verus! {

/// A calculator that shows zero.
pub open spec fn calculator_window() -> WindowModel {
    WindowModel {
        kind: WindowKind::Calculator,
        footer: Some(""@),
        app: AppModel::Calculator(
            state::CalculatorModel { lhs: None, op: None, entry: "0"@, new_entry: true },
        ),
        widgets: seq![
            widget::label_of(12, 22, "                   0"@),
            widget::button_of(12, 76, 54, 42, "C"@, WinAction::CalcClear),
            widget::button_of(74, 76, 54, 42, "<-"@, WinAction::CalcDigit(255)),
            widget::button_of(136, 76, 54, 42, "+/-"@, WinAction::CalcSign),
            widget::button_of(198, 76, 54, 42, "/"@, WinAction::CalcOp('/')),
            widget::button_of(12, 126, 54, 42, "7"@, WinAction::CalcDigit(7)),
            widget::button_of(74, 126, 54, 42, "8"@, WinAction::CalcDigit(8)),
            widget::button_of(136, 126, 54, 42, "9"@, WinAction::CalcDigit(9)),
            widget::button_of(198, 126, 54, 42, "*"@, WinAction::CalcOp('*')),
            widget::button_of(12, 176, 54, 42, "4"@, WinAction::CalcDigit(4)),
            widget::button_of(74, 176, 54, 42, "5"@, WinAction::CalcDigit(5)),
            widget::button_of(136, 176, 54, 42, "6"@, WinAction::CalcDigit(6)),
            widget::button_of(198, 176, 54, 42, "-"@, WinAction::CalcOp('-')),
            widget::button_of(12, 226, 54, 42, "1"@, WinAction::CalcDigit(1)),
            widget::button_of(74, 226, 54, 42, "2"@, WinAction::CalcDigit(2)),
            widget::button_of(136, 226, 54, 42, "3"@, WinAction::CalcDigit(3)),
            widget::button_of(198, 226, 54, 42, "+"@, WinAction::CalcOp('+')),
            widget::button_of(12, 276, 116, 42, "0"@, WinAction::CalcDigit(0)),
            widget::button_of(136, 276, 54, 42, "."@, WinAction::Nothing),
            widget::button_of(198, 276, 54, 42, "="@, WinAction::CalcEq),
        ],
        ..state::fresh_window(260, 110, 268, 380, "Calculator"@)
    }
}

/// A calculator that shows zero.
pub fn create_calculator_window() -> (r: Window)
    ensures
        r@ == calculator_window(),
        r@.wf(),
{
    let w = Window::new(260, 110, 268, 380, "Calculator").with_kind(WindowKind::Calculator).with_footer("").with_app(AppState::Calculator(Calculator { lhs: None, op: None, entry: "0".to_owned(), new_entry: true }));
    let w = w.add(Widget::label(12, 22, "                   0"));
    let w = w.add(Widget::button(12, 76, 54, 42, "C", WinAction::CalcClear));
    let w = w.add(Widget::button(74, 76, 54, 42, "<-", WinAction::CalcDigit(255)));
    let w = w.add(Widget::button(136, 76, 54, 42, "+/-", WinAction::CalcSign));
    let w = w.add(Widget::button(198, 76, 54, 42, "/", WinAction::CalcOp('/')));
    let w = w.add(Widget::button(12, 126, 54, 42, "7", WinAction::CalcDigit(7)));
    let w = w.add(Widget::button(74, 126, 54, 42, "8", WinAction::CalcDigit(8)));
    let w = w.add(Widget::button(136, 126, 54, 42, "9", WinAction::CalcDigit(9)));
    let w = w.add(Widget::button(198, 126, 54, 42, "*", WinAction::CalcOp('*')));
    let w = w.add(Widget::button(12, 176, 54, 42, "4", WinAction::CalcDigit(4)));
    let w = w.add(Widget::button(74, 176, 54, 42, "5", WinAction::CalcDigit(5)));
    let w = w.add(Widget::button(136, 176, 54, 42, "6", WinAction::CalcDigit(6)));
    let w = w.add(Widget::button(198, 176, 54, 42, "-", WinAction::CalcOp('-')));
    let w = w.add(Widget::button(12, 226, 54, 42, "1", WinAction::CalcDigit(1)));
    let w = w.add(Widget::button(74, 226, 54, 42, "2", WinAction::CalcDigit(2)));
    let w = w.add(Widget::button(136, 226, 54, 42, "3", WinAction::CalcDigit(3)));
    let w = w.add(Widget::button(198, 226, 54, 42, "+", WinAction::CalcOp('+')));
    let w = w.add(Widget::button(12, 276, 116, 42, "0", WinAction::CalcDigit(0)));
    let w = w.add(Widget::button(136, 276, 54, 42, ".", WinAction::Nothing));
    let w = w.add(Widget::button(198, 276, 54, 42, "=", WinAction::CalcEq));
    assert(w@.widgets =~= calculator_window().widgets);
    w
}

/// An empty terminal: one canvas that fills the window.
pub open spec fn terminal_window() -> WindowModel {
    WindowModel {
        kind: WindowKind::Terminal,
        app: AppModel::Terminal(
            state::TerminalModel { scrollback: Seq::empty(), input: Seq::empty(), blink_on: true, last_blink_tick: 0 },
        ),
        widgets: seq![
            widget::canvas_of(0, 0, 616, 334),
        ],
        ..state::fresh_window(200, 100, 620, 360, "Terminal"@)
    }
}

/// An empty terminal: one canvas that fills the window.
pub fn create_terminal_window() -> (r: Window)
    ensures
        r@ == terminal_window(),
        r@.wf(),
{
    let w = Window::new(200, 100, 620, 360, "Terminal").with_kind(WindowKind::Terminal).with_app(AppState::Terminal(Terminal { scrollback: Vec::new(), input: String::new(), blink_on: true, last_blink_tick: 0 }));
    let w = w.add(Widget::canvas(0, 0, 616, 334));
    assert(text::strings(Seq::<String>::empty()) =~= Seq::empty());
    assert(w@.widgets =~= terminal_window().widgets);
    w
}

/// The clock and monitor, with its first readings.
pub open spec fn monitor_window(ticks: u64, used: u64, size: u64) -> WindowModel {
    WindowModel {
        kind: WindowKind::Monitor,
        footer: Some("Live system stats — updates once per second."@),
        widgets: seq![
            widget::label_of(10, 10, tick::uptime_text((ticks / tick::TICKS_PER_SEC) as nat)),
            widget::label_of(10, 32, "ticks: "@ + text::decimal(ticks as nat)),
            widget::label_of(10, 54, tick::heap_text(used as nat, size as nat)),
        ],
        ..state::fresh_window(700, 260, 360, 190, "Clock & Monitor"@)
    }
}

/// The clock and monitor, with its first readings.
pub fn create_monitor_window(ticks: u64, used: u64, size: u64) -> (r: Window)
    ensures
        r@ == monitor_window(ticks, used, size),
        r@.wf(),
{
    let mut uptime = "uptime: Boot+".to_owned();
    tick::push_clock(&mut uptime, ticks / tick::TICKS_PER_SEC);
    let mut count = "ticks: ".to_owned();
    text::push_decimal(&mut count, ticks);
    let mut heap = "heap: ".to_owned();
    text::push_decimal(&mut heap, used);
    heap.append(" / ");
    text::push_decimal(&mut heap, size);
    heap.append(" bytes");
    assert(heap@ =~= tick::heap_text(used as nat, size as nat));
    let w = Window::new(700, 260, 360, 190, "Clock & Monitor").with_kind(WindowKind::Monitor).with_footer("Live system stats — updates once per second.");
    let w = w.add(Widget::label(10, 10, uptime.as_str()));
    let w = w.add(Widget::label(10, 32, count.as_str()));
    let w = w.add(Widget::label(10, 54, heap.as_str()));
    assert(w@.widgets =~= monitor_window(ticks, used, size).widgets);
    w
}

/// The game as it begins: three parts in the middle, going right.
pub open spec fn first_snake() -> state::SnakeModel {
    state::SnakeModel {
        grid_w: 14,
        grid_h: 10,
        snake: seq![(7i16, 5i16), (6i16, 5i16), (5i16, 5i16)],
        dir: (1, 0),
        pending_dir: (1, 0),
        food: (10, 5),
        game_over: false,
        score: 0,
        rng: 0xDEAD_BEEF,
        last_step_ticks: 0,
    }
}

pub fn new_snake() -> (r: Snake)
    ensures
        r@ == first_snake(),
        r@.wf(),
{
    let mut snake: Vec<(i16, i16)> = Vec::new();
    snake.push((7, 5));
    snake.push((6, 5));
    snake.push((5, 5));
    assert(snake@ =~= first_snake().snake);
    proof {
        reveal(state::SnakeModel::wf);
    }
    Snake {
        grid_w: 14,
        grid_h: 10,
        snake,
        dir: (1, 0),
        pending_dir: (1, 0),
        food: (10, 5),
        game_over: false,
        score: 0,
        rng: 0xDEAD_BEEF,
        last_step_ticks: 0,
    }
}

/// A new game of Snake.
pub open spec fn snake_window() -> WindowModel {
    WindowModel {
        kind: WindowKind::Snake,
        footer: Some("Arrows or big buttons.  R restarts."@),
        app: AppModel::Snake(first_snake()),
        widgets: seq![
            widget::label_of(12, 10, "Eat the yellow apples!"@),
            widget::canvas_of(12, 36, 336, 240),
            widget::label_of(12, 284, "Score: 0"@),
            widget::button_of(12, 312, 56, 44, "Up"@, WinAction::SnakeDir(0, -1i8)),
            widget::button_of(72, 312, 56, 44, "Left"@, WinAction::SnakeDir(-1i8, 0)),
            widget::button_of(132, 312, 56, 44, "Down"@, WinAction::SnakeDir(0, 1)),
            widget::button_of(192, 312, 56, 44, "Right"@, WinAction::SnakeDir(1, 0)),
            widget::button_of(260, 312, 100, 44, "Restart"@, WinAction::SnakeRestart),
        ],
        ..state::fresh_window(260, 80, 360, 440, "Snake"@)
    }
}

/// A new game of Snake.
pub fn create_snake_window() -> (r: Window)
    ensures
        r@ == snake_window(),
        r@.wf(),
{
    let w = Window::new(260, 80, 360, 440, "Snake").with_kind(WindowKind::Snake).with_footer("Arrows or big buttons.  R restarts.").with_app(AppState::Snake(new_snake()));
    let w = w.add(Widget::label(12, 10, "Eat the yellow apples!"));
    let w = w.add(Widget::canvas(12, 36, 336, 240));
    let w = w.add(Widget::label(12, 284, "Score: 0"));
    let w = w.add(Widget::button(12, 312, 56, 44, "Up", WinAction::SnakeDir(0, -1i8)));
    let w = w.add(Widget::button(72, 312, 56, 44, "Left", WinAction::SnakeDir(-1i8, 0)));
    let w = w.add(Widget::button(132, 312, 56, 44, "Down", WinAction::SnakeDir(0, 1)));
    let w = w.add(Widget::button(192, 312, 56, 44, "Right", WinAction::SnakeDir(1, 0)));
    let w = w.add(Widget::button(260, 312, 100, 44, "Restart", WinAction::SnakeRestart));
    assert(w@.widgets =~= snake_window().widgets);
    w
}

/// `percent` of a screen's extent, but at least `least` and short of the
/// whole by `margin`.
pub open spec fn share(extent: usize, percent: int, least: usize, margin: int) -> int {
    state::at_most(state::at_least(extent * percent / 100, least as int), extent - margin)
}

fn share_of(extent: usize, percent: usize, least: usize, margin: usize) -> (r: usize)
    requires
        extent <= SPAN,
        percent <= 100,
        least + margin <= extent,
    ensures
        r == share(extent, percent as int, least, margin as int),
        r <= extent - margin,
{
    assert(extent * percent <= extent * 100) by (nonlinear_arith)
        requires
            percent <= 100,
    ;
    let part: usize = extent * percent / 100;
    let part: usize = if part >= least { part } else { least };
    if part <= extent - margin {
        part
    } else {
        extent - margin
    }
}

/// Breakout, on more than half of the screen; `least` is the smallest playfield.
pub open spec fn breakout_window(screen: (usize, usize), least: (usize, usize)) -> WindowModel {
    let cw = share(screen.0, 55, least.0, 80);
    let ch = share(screen.1, 50, least.1, 220);
    let pad = (ch + 44) as usize;
    WindowModel {
        kind: WindowKind::Breakout,
        footer: Some("← → paddle   ↑ faster   ↓ slower   Space unused"@),
        app: AppModel::Breakout(
            Game { game_over: false, won: false, last_step_ticks: 0, w: cw as usize, h: ch as usize },
        ),
        widgets: seq![
            widget::label_of(12, 10, "Break the rainbow bricks!"@),
            widget::canvas_of(12, 36, cw as usize, ch as usize),
            widget::label_of(12, pad, "Score 0   Hearts 3   Speed 3  (↑↓)"@),
            widget::button_of(12, (pad + 28) as usize, 80, 40, "<<"@, WinAction::BreakoutLeft),
            widget::button_of(100, (pad + 28) as usize, 80, 40, ">>"@, WinAction::BreakoutRight),
            widget::button_of(188, (pad + 28) as usize, 72, 40, "Speed+"@, WinAction::BreakoutFaster),
            widget::button_of(268, (pad + 28) as usize, 72, 40, "Speed-"@, WinAction::BreakoutSlower),
            widget::button_of(348, (pad + 28) as usize, 100, 40, "Restart"@, WinAction::BreakoutRestart),
        ],
        ..state::fresh_window((state::less(screen.0 as int, cw + 24) / 2) as i32, 40, (cw + 24) as usize, (ch + 160) as usize, "Breakout"@)
    }
}

/// Breakout, on more than half of the screen; `least` is the smallest playfield.
pub fn create_breakout_window(screen: (usize, usize), least: (usize, usize)) -> (r: Window)
    requires
        screen.0 <= SPAN,
        screen.1 <= SPAN,
        least.0 + 80 <= screen.0,
        least.1 + 220 <= screen.1,
    ensures
        r@ == breakout_window(screen, least),
        r@.wf(),
{
    let (sw, sh) = screen;
    let cw: usize = share_of(sw, 55, least.0, 80);
    let ch: usize = share_of(sh, 50, least.1, 220);
    let pad: usize = ch + 44;
    let room: usize = if sw >= cw + 24 { (sw - cw - 24) / 2 } else { 0 };
    let game = Game { game_over: false, won: false, last_step_ticks: 0, w: cw, h: ch };
    let w = Window::new(room as i32, 40, cw + 24, ch + 160, "Breakout").with_kind(WindowKind::Breakout).with_footer("← → paddle   ↑ faster   ↓ slower   Space unused").with_app(AppState::Breakout(game));
    let w = w.add(Widget::label(12, 10, "Break the rainbow bricks!"));
    let w = w.add(Widget::canvas(12, 36, cw, ch));
    let w = w.add(Widget::label(12, pad, "Score 0   Hearts 3   Speed 3  (↑↓)"));
    let w = w.add(Widget::button(12, pad + 28, 80, 40, "<<", WinAction::BreakoutLeft));
    let w = w.add(Widget::button(100, pad + 28, 80, 40, ">>", WinAction::BreakoutRight));
    let w = w.add(Widget::button(188, pad + 28, 72, 40, "Speed+", WinAction::BreakoutFaster));
    let w = w.add(Widget::button(268, pad + 28, 72, 40, "Speed-", WinAction::BreakoutSlower));
    let w = w.add(Widget::button(348, pad + 28, 100, 40, "Restart", WinAction::BreakoutRestart));
    assert(w@.widgets =~= breakout_window(screen, least).widgets);
    w
}

/// Space Invaders, on more than half of the screen; `least` is the smallest playfield.
pub open spec fn invaders_window(screen: (usize, usize), least: (usize, usize)) -> WindowModel {
    let cw = share(screen.0, 55, least.0, 80);
    let ch = share(screen.1, 50, least.1, 230);
    let pad = (ch + 44) as usize;
    WindowModel {
        kind: WindowKind::Invaders,
        footer: Some("← → move   Space = rapid fire   ↑ faster   ↓ slower"@),
        app: AppModel::Invaders(
            Game { game_over: false, won: false, last_step_ticks: 0, w: cw as usize, h: ch as usize },
        ),
        widgets: seq![
            widget::label_of(12, 10, "Protect the planet!"@),
            widget::canvas_of(12, 36, cw as usize, ch as usize),
            widget::label_of(12, pad, "Score 0   Lives 3   Speed 3  (↑↓)"@),
            widget::button_of(12, (pad + 28) as usize, 64, 40, "<<"@, WinAction::InvadersLeft),
            widget::button_of(84, (pad + 28) as usize, 88, 40, "Fire!"@, WinAction::InvadersFire),
            widget::button_of(180, (pad + 28) as usize, 64, 40, ">>"@, WinAction::InvadersRight),
            widget::button_of(252, (pad + 28) as usize, 72, 40, "Speed+"@, WinAction::InvadersFaster),
            widget::button_of(332, (pad + 28) as usize, 72, 40, "Speed-"@, WinAction::InvadersSlower),
            widget::button_of(412, (pad + 28) as usize, 96, 40, "Restart"@, WinAction::InvadersRestart),
        ],
        ..state::fresh_window((state::less(screen.0 as int, cw + 24) / 2) as i32, 30, (cw + 24) as usize, (ch + 170) as usize, "Space Invaders"@)
    }
}

/// Space Invaders, on more than half of the screen; `least` is the smallest playfield.
pub fn create_invaders_window(screen: (usize, usize), least: (usize, usize)) -> (r: Window)
    requires
        screen.0 <= SPAN,
        screen.1 <= SPAN,
        least.0 + 80 <= screen.0,
        least.1 + 230 <= screen.1,
    ensures
        r@ == invaders_window(screen, least),
        r@.wf(),
{
    let (sw, sh) = screen;
    let cw: usize = share_of(sw, 55, least.0, 80);
    let ch: usize = share_of(sh, 50, least.1, 230);
    let pad: usize = ch + 44;
    let room: usize = if sw >= cw + 24 { (sw - cw - 24) / 2 } else { 0 };
    let game = Game { game_over: false, won: false, last_step_ticks: 0, w: cw, h: ch };
    let w = Window::new(room as i32, 30, cw + 24, ch + 170, "Space Invaders").with_kind(WindowKind::Invaders).with_footer("← → move   Space = rapid fire   ↑ faster   ↓ slower").with_app(AppState::Invaders(game));
    let w = w.add(Widget::label(12, 10, "Protect the planet!"));
    let w = w.add(Widget::canvas(12, 36, cw, ch));
    let w = w.add(Widget::label(12, pad, "Score 0   Lives 3   Speed 3  (↑↓)"));
    let w = w.add(Widget::button(12, pad + 28, 64, 40, "<<", WinAction::InvadersLeft));
    let w = w.add(Widget::button(84, pad + 28, 88, 40, "Fire!", WinAction::InvadersFire));
    let w = w.add(Widget::button(180, pad + 28, 64, 40, ">>", WinAction::InvadersRight));
    let w = w.add(Widget::button(252, pad + 28, 72, 40, "Speed+", WinAction::InvadersFaster));
    let w = w.add(Widget::button(332, pad + 28, 72, 40, "Speed-", WinAction::InvadersSlower));
    let w = w.add(Widget::button(412, pad + 28, 96, 40, "Restart", WinAction::InvadersRestart));
    assert(w@.widgets =~= invaders_window(screen, least).widgets);
    w
}

fn at_least_of(a: usize, b: usize) -> (r: usize)
    ensures
        r == state::at_least(a as int, b as int),
{
    if a >= b {
        a
    } else {
        b
    }
}

fn at_most_of(a: usize, b: usize) -> (r: usize)
    ensures
        r == state::at_most(a as int, b as int),
{
    if a <= b {
        a
    } else {
        b
    }
}

/// Race Cars, a tall and narrow playfield; `least` is the smallest one.
pub open spec fn racing_window(screen: (usize, usize), least: (usize, usize)) -> WindowModel {
    let cw = state::at_most(state::at_least(least.0 as int, screen.0 * 22 / 100), 360);
    let ch = state::at_most(state::at_least(least.1 as int, screen.1 * 45 / 100), 520);
    let pad = (ch + 44) as usize;
    WindowModel {
        kind: WindowKind::Racing,
        footer: Some("← → steer   ↑ faster   ↓ slower"@),
        app: AppModel::Racing(
            Game { game_over: false, won: false, last_step_ticks: 0, w: cw as usize, h: ch as usize },
        ),
        widgets: seq![
            widget::label_of(12, 10, "Go go go!"@),
            widget::canvas_of(12, 36, cw as usize, ch as usize),
            widget::label_of(12, pad, "Score 0   Speed 4  (↑ faster ↓ slower)"@),
            widget::button_of(12, (pad + 28) as usize, 72, 40, "<<"@, WinAction::RacingLeft),
            widget::button_of(92, (pad + 28) as usize, 72, 40, ">>"@, WinAction::RacingRight),
            widget::button_of(172, (pad + 28) as usize, 72, 40, "Speed+"@, WinAction::RacingFaster),
            widget::button_of(252, (pad + 28) as usize, 72, 40, "Speed-"@, WinAction::RacingSlower),
            widget::button_of(12, (pad + 76) as usize, 110, 40, "Restart"@, WinAction::RacingRestart),
        ],
        ..state::fresh_window((state::less(screen.0 as int, cw + 24) / 2) as i32, 30, (cw + 24) as usize, (ch + 210) as usize, "Race Cars"@)
    }
}

/// Race Cars, a tall and narrow playfield; `least` is the smallest one.
pub fn create_racing_window(screen: (usize, usize), least: (usize, usize)) -> (r: Window)
    requires
        screen.0 <= SPAN,
        screen.1 <= SPAN,
    ensures
        r@ == racing_window(screen, least),
        r@.wf(),
{
    let (sw, sh) = screen;
    let cw: usize = at_most_of(at_least_of(least.0, sw * 22 / 100), 360);
    let ch: usize = at_most_of(at_least_of(least.1, sh * 45 / 100), 520);
    let pad: usize = ch + 44;
    let room: usize = if sw >= cw + 24 { (sw - cw - 24) / 2 } else { 0 };
    let game = Game { game_over: false, won: false, last_step_ticks: 0, w: cw, h: ch };
    let w = Window::new(room as i32, 30, cw + 24, ch + 210, "Race Cars").with_kind(WindowKind::Racing).with_footer("← → steer   ↑ faster   ↓ slower").with_app(AppState::Racing(game));
    let w = w.add(Widget::label(12, 10, "Go go go!"));
    let w = w.add(Widget::canvas(12, 36, cw, ch));
    let w = w.add(Widget::label(12, pad, "Score 0   Speed 4  (↑ faster ↓ slower)"));
    let w = w.add(Widget::button(12, pad + 28, 72, 40, "<<", WinAction::RacingLeft));
    let w = w.add(Widget::button(92, pad + 28, 72, 40, ">>", WinAction::RacingRight));
    let w = w.add(Widget::button(172, pad + 28, 72, 40, "Speed+", WinAction::RacingFaster));
    let w = w.add(Widget::button(252, pad + 28, 72, 40, "Speed-", WinAction::RacingSlower));
    let w = w.add(Widget::button(12, pad + 76, 110, 40, "Restart", WinAction::RacingRestart));
    assert(w@.widgets =~= racing_window(screen, least).widgets);
    w
}

/// The letters game: the engine gives the three choices and the status line.
pub open spec fn abc_window(canvas: (usize, usize), a: Seq<char>, b: Seq<char>, c: Seq<char>, status: Seq<char>) -> WindowModel {
    let pad = (canvas.1 + 44) as usize;
    WindowModel {
        kind: WindowKind::Abc,
        footer: Some("Tap the letter that matches the big one."@),
        app: AppModel::Abc,
        widgets: seq![
            widget::label_of(12, 10, "Learn your letters!"@),
            widget::canvas_of(12, 36, canvas.0, canvas.1),
            widget::label_of(12, pad, status),
            widget::button_of(12, (pad + 28) as usize, 100, 56, a, WinAction::AbcPick(0)),
            widget::button_of(120, (pad + 28) as usize, 100, 56, b, WinAction::AbcPick(1)),
            widget::button_of(228, (pad + 28) as usize, 100, 56, c, WinAction::AbcPick(2)),
        ],
        ..state::fresh_window(240, 70, (canvas.0 + 24) as usize, (canvas.1 + 180) as usize, "ABC Fun"@)
    }
}

/// The letters game: the engine gives the three choices and the status line.
pub fn create_abc_window(canvas: (usize, usize), a: &str, b: &str, c: &str, status: &str) -> (r: Window)
    requires
        canvas.0 + 24 <= SPAN,
        canvas.1 + 180 <= SPAN,
    ensures
        r@ == abc_window(canvas, a@, b@, c@, status@),
        r@.wf(),
{
    let pad: usize = canvas.1 + 44;
    let w = Window::new(240, 70, canvas.0 + 24, canvas.1 + 180, "ABC Fun").with_kind(WindowKind::Abc).with_footer("Tap the letter that matches the big one.").with_app(AppState::Abc);
    let w = w.add(Widget::label(12, 10, "Learn your letters!"));
    let w = w.add(Widget::canvas(12, 36, canvas.0, canvas.1));
    let w = w.add(Widget::label(12, pad, status));
    let w = w.add(Widget::button(12, pad + 28, 100, 56, a, WinAction::AbcPick(0)));
    let w = w.add(Widget::button(120, pad + 28, 100, 56, b, WinAction::AbcPick(1)));
    let w = w.add(Widget::button(228, pad + 28, 100, 56, c, WinAction::AbcPick(2)));
    assert(w@.widgets =~= abc_window(canvas, a@, b@, c@, status@).widgets);
    w
}

pub open spec fn photo_caption(photo: Option<(usize, usize)>) -> Seq<char> {
    match photo {
        Some((w, h)) => "hera.bmp  ("@ + text::decimal(w as nat) + "×"@ + text::decimal(h as nat)
            + ", 24-bit colour)"@,
        None => "hera.bmp  (decode failed)"@,
    }
}

/// The photograph and its size, if it could be decoded.
pub open spec fn image_view_window(photo: Option<(usize, usize)>) -> WindowModel {
    WindowModel {
        kind: WindowKind::ImageView,
        footer: Some("Embedded bitmap preview."@),
        app: AppModel::ImageView,
        widgets: seq![
            widget::label_of(10, 8, photo_caption(photo)),
            widget::canvas_of(10, 36, 400, 280),
        ],
        ..state::fresh_window(340, 160, 420, 360, "Image Viewer"@)
    }
}

/// The photograph and its size, if it could be decoded.
pub fn create_image_view_window(photo: Option<(usize, usize)>) -> (r: Window)
    ensures
        r@ == image_view_window(photo),
        r@.wf(),
{
    let caption = match photo {
        Some((w, h)) => {
            let mut s = "hera.bmp  (".to_owned();
            text::push_decimal(&mut s, w as u64);
            s.append("×");
            text::push_decimal(&mut s, h as u64);
            s.append(", 24-bit colour)");
            s
        },
        None => "hera.bmp  (decode failed)".to_owned(),
    };
    assert(caption@ =~= photo_caption(photo));
    let w = Window::new(340, 160, 420, 360, "Image Viewer").with_kind(WindowKind::ImageView).with_footer("Embedded bitmap preview.").with_app(AppState::ImageView);
    let w = w.add(Widget::label(10, 8, caption.as_str()));
    let w = w.add(Widget::canvas(10, 36, 400, 280));
    assert(w@.widgets =~= image_view_window(photo).widgets);
    w
}

pub open spec fn wallpaper_line(path: Option<Seq<char>>) -> Seq<char> {
    match path {
        Some(p) => "Wallpaper: "@ + p,
        None => "Wallpaper: the drawn dusk scene"@,
    }
}

/// What Settings says of the wallpaper in use.
pub fn wallpaper_text(path: &Option<String>) -> (r: String)
    ensures
        r@ == wallpaper_line(state::footer_view(*path)),
{
    match path {
        Some(p) => {
            let mut s = "Wallpaper: ".to_owned();
            s.append(p.as_str());
            s
        },
        None => "Wallpaper: the drawn dusk scene".to_owned(),
    }
}

/// The settings as they stand, and which wallpaper is in use.
pub open spec fn settings_window(blink: bool, dark: bool, wallpaper: Option<Seq<char>>) -> WindowModel {
    WindowModel {
        kind: WindowKind::Settings,
        footer: Some("The wallpaper choice is kept on the data disk; the toggles are not."@),
        app: AppModel::Settings,
        widgets: seq![
            widget::label_of(10, 8, "Appearance & Behaviour"@),
            widget::checkbox_of(10, 40, 350, 30, "Blink shell cursor"@, blink, WinAction::ToggleCursorBlink),
            widget::checkbox_of(10, 76, 350, 30, "Dark desktop theme"@, dark, WinAction::ToggleDarkTheme),
            widget::label_of(10, 118, wallpaper_line(wallpaper)),
            widget::button_of(10, 142, 190, 30, "Use the drawn scene"@, WinAction::ResetWallpaper),
            widget::label_of(10, 184, "Right-click a picture in Files to set it."@),
        ],
        ..state::fresh_window(340, 160, 420, 260, "Settings"@)
    }
}

/// The settings as they stand, and which wallpaper is in use.
pub fn create_settings_window(blink: bool, dark: bool, wallpaper: &Option<String>) -> (r: Window)
    ensures
        r@ == settings_window(blink, dark, state::footer_view(*wallpaper)),
        r@.wf(),
{
    let line = wallpaper_text(wallpaper);
    let w = Window::new(340, 160, 420, 260, "Settings").with_kind(WindowKind::Settings).with_footer("The wallpaper choice is kept on the data disk; the toggles are not.").with_app(AppState::Settings);
    let w = w.add(Widget::label(10, 8, "Appearance & Behaviour"));
    let w = w.add(Widget::checkbox(10, 40, 350, 30, "Blink shell cursor", blink, WinAction::ToggleCursorBlink));
    let w = w.add(Widget::checkbox(10, 76, 350, 30, "Dark desktop theme", dark, WinAction::ToggleDarkTheme));
    let w = w.add(Widget::label(10, 118, line.as_str()));
    let w = w.add(Widget::button(10, 142, 190, 30, "Use the drawn scene", WinAction::ResetWallpaper));
    let w = w.add(Widget::label(10, 184, "Right-click a picture in Files to set it."));
    assert(w@.widgets =~= settings_window(blink, dark, state::footer_view(*wallpaper)).widgets);
    w
}

/// Who made this, and which version it is.
pub open spec fn about_window(version: Seq<char>) -> WindowModel {
    WindowModel {
        kind: WindowKind::About,
        footer: Some("Made with care for Inaaya & Aayan."@),
        app: AppModel::ImageView,
        widgets: seq![
            widget::canvas_of(16, 16, 180, 180),
            widget::label_of(214, 20, "Developed by"@),
            widget::label_of(214, 44, "SM Mamunur Rahaman Hera"@),
            widget::label_of(214, 68, "(Father of: Inaaya & Aayan)"@),
            widget::label_of(214, 100, "Software Engineer, Bangladesh"@),
            widget::label_of(214, 124, "OS101  ·  v"@ + version),
            widget::label_of(214, 156, "linkedin.com/in/sm-mamunur-rahman"@),
            widget::label_of(16, 210, "A tiny OS that wants to grow up — neon desktop,"@),
            widget::label_of(16, 232, "kid games, C apps, and a browser that tries."@),
            widget::label_of(16, 262, "https://www.linkedin.com/in/sm-mamunur-rahman/"@),
            widget::button_of(16, 300, 140, 36, "Close"@, WinAction::Close),
        ],
        ..state::fresh_window(260, 40, 560, 420, "About OS101"@)
    }
}

/// Who made this, and which version it is.
pub fn create_about_window(version: &str) -> (r: Window)
    ensures
        r@ == about_window(version@),
        r@.wf(),
{
    let mut line = "OS101  ·  v".to_owned();
    line.append(version);
    let w = Window::new(260, 40, 560, 420, "About OS101").with_kind(WindowKind::About).with_footer("Made with care for Inaaya & Aayan.").with_app(AppState::ImageView);
    let w = w.add(Widget::canvas(16, 16, 180, 180));
    let w = w.add(Widget::label(214, 20, "Developed by"));
    let w = w.add(Widget::label(214, 44, "SM Mamunur Rahaman Hera"));
    let w = w.add(Widget::label(214, 68, "(Father of: Inaaya & Aayan)"));
    let w = w.add(Widget::label(214, 100, "Software Engineer, Bangladesh"));
    let w = w.add(Widget::label(214, 124, line.as_str()));
    let w = w.add(Widget::label(214, 156, "linkedin.com/in/sm-mamunur-rahman"));
    let w = w.add(Widget::label(16, 210, "A tiny OS that wants to grow up — neon desktop,"));
    let w = w.add(Widget::label(16, 232, "kid games, C apps, and a browser that tries."));
    let w = w.add(Widget::label(16, 262, "https://www.linkedin.com/in/sm-mamunur-rahman/"));
    let w = w.add(Widget::button(16, 300, 140, 36, "Close", WinAction::Close));
    assert(w@.widgets =~= about_window(version@).widgets);
    w
}

/// A browser with nothing loaded; `home` is in the address bar, so that Go works straight away.
pub open spec fn browser_window(home: Seq<char>) -> WindowModel {
    WindowModel {
        kind: WindowKind::Browser,
        footer: Some("Type words to search, or an address to go there. Right-click a picture to save it."@),
        app: AppModel::Browser(
            state::BrowserModel {
                page: None,
                scroll: 0,
                status: "Ready."@,
                history: Seq::empty(),
                current: Seq::empty(),
            },
        ),
        widgets: seq![
            widget::button_of(10, 8, 54, 26, "Back"@, WinAction::BrowserBack),
            widget::button_of(68, 8, 54, 26, "Home"@, WinAction::BrowserHome),
            widget::textbox_of(126, 8, 394, 26, home),
            widget::button_of(526, 8, 70, 26, "Images"@, WinAction::BrowserImages),
            widget::button_of(600, 8, 54, 26, "Go"@, WinAction::BrowserGo),
            widget::canvas_of(10, 42, 652, 424),
            widget::button_of(10, 472, 54, 26, "Up"@, WinAction::BrowserScroll(-1i8)),
            widget::button_of(68, 472, 54, 26, "Down"@, WinAction::BrowserScroll(1)),
        ],
        ..state::fresh_window(120, 60, 672, 554, "Web Browser"@)
    }
}

/// A browser with nothing loaded; `home` is in the address bar, so that Go works straight away.
pub fn create_browser_window(home: &str) -> (r: Window)
    ensures
        r@ == browser_window(home@),
        r@.wf(),
{
    let w = Window::new(120, 60, 672, 554, "Web Browser").with_kind(WindowKind::Browser).with_footer("Type words to search, or an address to go there. Right-click a picture to save it.").with_app(AppState::Browser(Browser { page: None, scroll: 0, status: "Ready.".to_owned(), history: Vec::new(), current: String::new() }));
    let w = w.add(Widget::button(10, 8, 54, 26, "Back", WinAction::BrowserBack));
    let w = w.add(Widget::button(68, 8, 54, 26, "Home", WinAction::BrowserHome));
    let w = w.add(Widget::TextBox { x: 126, y: 8, w: 394, h: 26, text: home.to_owned() });
    let w = w.add(Widget::button(526, 8, 70, 26, "Images", WinAction::BrowserImages));
    let w = w.add(Widget::button(600, 8, 54, 26, "Go", WinAction::BrowserGo));
    let w = w.add(Widget::canvas(10, 42, 652, 424));
    let w = w.add(Widget::button(10, 472, 54, 26, "Up", WinAction::BrowserScroll(-1i8)));
    let w = w.add(Widget::button(68, 472, 54, 26, "Down", WinAction::BrowserScroll(1)));
    assert(text::strings(Seq::<String>::empty()) =~= Seq::empty());
    assert(w@.widgets =~= browser_window(home@).widgets);
    w
}

/// Notepad with the text it was left with: menu strip, ruled paper, status footer.
pub open spec fn notepad_window(scratch: Seq<char>, path: Seq<char>) -> WindowModel {
    WindowModel {
        kind: WindowKind::Notepad,
        footer: Some(status::notepad_line(scratch, path)),
        focused_widget: Some(4),
        widgets: seq![
            widget::button_of(10, 6, 88, 26, "Save"@, WinAction::NotepadSave),
            widget::button_of(104, 6, 88, 26, "Load"@, WinAction::NotepadLoad),
            widget::button_of(198, 6, 88, 26, "Clear"@, WinAction::NotepadClear),
            widget::label_of(300, 10, status::file_label(path)),
            Widget::TextArea { x: 10, y: 38, w: 620, h: 340, text: scratch },
        ],
        ..state::fresh_window(180, 50, 644, 438, "Notepad"@)
    }
}

/// Notepad with the text it was left with: menu strip, ruled paper, status footer.
pub fn create_notepad_window(scratch: &str, path: &str) -> (r: Window)
    ensures
        r@ == notepad_window(scratch@, path@),
        r@.wf(),
{
    let footer = notepad_status(scratch, path);
    let line = file_line(path);
    let w = Window::new(180, 50, 644, 438, "Notepad").with_kind(WindowKind::Notepad).with_footer(footer.as_str());
    let w = w.add(Widget::button(10, 6, 88, 26, "Save", WinAction::NotepadSave));
    let w = w.add(Widget::button(104, 6, 88, 26, "Load", WinAction::NotepadLoad));
    let w = w.add(Widget::button(198, 6, 88, 26, "Clear", WinAction::NotepadClear));
    let w = w.add(Widget::label(300, 10, line.as_str()));
    let w = w.add(Widget::TextArea { x: 10, y: 38, w: 620, h: 340, text: scratch.to_owned() });
    let mut w = w;
    w.focused_widget = Some(4);
    assert(w@.widgets =~= notepad_window(scratch@, path@).widgets);
    w
}

/// What a new program starts from.
pub open spec fn code_template() -> Seq<char> {
    "#include <stdio.h>\n\nint main(void) {\n    printf(\"Hello, OS101!\\n\");\n    return 0;\n}\n"@
}

pub fn template() -> (r: String)
    ensures
        r@ == code_template(),
{
    "#include <stdio.h>\n\nint main(void) {\n    printf(\"Hello, OS101!\\n\");\n    return 0;\n}\n".to_owned()
}

/// The program the editor opens with: the one it was left with, or the
/// template if there was none.
pub open spec fn first_program(scratch: Seq<char>, path: Seq<char>) -> Seq<char> {
    if scratch.len() == 0 && path.len() == 0 {
        code_template()
    } else {
        scratch
    }
}

/// The Code Editor with the program it was left with, the caret at its end.
pub open spec fn code_editor_window(scratch: Seq<char>, path: Seq<char>) -> WindowModel {
    WindowModel {
        kind: WindowKind::CodeEditor,
        footer: Some("Write C, then Build to compile or Run to compile + execute."@),
        focused_widget: Some(6),
        widgets: seq![
            widget::button_of(10, 6, 68, 26, "New"@, WinAction::CodeNew),
            widget::button_of(82, 6, 68, 26, "Open"@, WinAction::CodeOpen),
            widget::button_of(154, 6, 68, 26, "Save"@, WinAction::CodeSave),
            widget::button_of(226, 6, 78, 26, "Build"@, WinAction::CodeBuild),
            widget::button_of(308, 6, 68, 26, "Run"@, WinAction::CodeRun),
            widget::label_of(388, 10, status::file_label(path)),
            Widget::CodeArea {
                x: 10,
                y: 38,
                w: 760,
                h: 340,
                text: first_program(scratch, path),
                cursor: first_program(scratch, path).len() as usize,
                selection: None,
            },
            Widget::OutputArea { x: 10, y: 386, w: 760, h: 120, text: Seq::empty(), error: false },
        ],
        ..state::fresh_window(140, 30, 784, 566, "Code Editor"@)
    }
}

/// The Code Editor with the program it was left with, the caret at its end.
pub fn create_code_editor_window(scratch: &str, path: &str) -> (r: Window)
    ensures
        r@ == code_editor_window(scratch@, path@),
        r@.wf(),
{
    let line = file_line(path);
    let program = if scratch.unicode_len() == 0 && path.unicode_len() == 0 {
        template()
    } else {
        scratch.to_owned()
    };
    let cursor: usize = program.as_str().unicode_len();
    let w = Window::new(140, 30, 784, 566, "Code Editor").with_kind(WindowKind::CodeEditor).with_footer("Write C, then Build to compile or Run to compile + execute.");
    let w = w.add(Widget::button(10, 6, 68, 26, "New", WinAction::CodeNew));
    let w = w.add(Widget::button(82, 6, 68, 26, "Open", WinAction::CodeOpen));
    let w = w.add(Widget::button(154, 6, 68, 26, "Save", WinAction::CodeSave));
    let w = w.add(Widget::button(226, 6, 78, 26, "Build", WinAction::CodeBuild));
    let w = w.add(Widget::button(308, 6, 68, 26, "Run", WinAction::CodeRun));
    let w = w.add(Widget::label(388, 10, line.as_str()));
    let w = w.add(Widget::CodeArea { x: 10, y: 38, w: 760, h: 340, text: program, cursor, selection: None });
    let w = w.add(Widget::output_area(10, 386, 760, 120));
    let mut w = w;
    w.focused_widget = Some(6);
    assert(w@.widgets =~= code_editor_window(scratch@, path@).widgets);
    w
}

// ── Applications ────────────────────────────────────────────────────────────

/// How many rows of four a list takes.
pub open spec fn app_rows(n: int) -> int {
    (n + 3) / 4
}

/// How high the grid of apps is.
pub open spec fn grid_height(n: int) -> int {
    app_rows(n) * 64 + state::less(app_rows(n), 1) * 12
}

pub open spec fn app_button(names: Seq<Seq<char>>, icons: Seq<Icon>, i: int) -> Widget<Seq<char>> {
    widget::icon_button_of(
        (16 + (i % 4) * 182) as usize,
        (44 + (i / 4) * 76) as usize,
        168,
        64,
        names[i],
        WinAction::LaunchApp(i as u8),
        icons[i],
    )
}

pub open spec fn app_buttons(names: Seq<Seq<char>>, icons: Seq<Icon>) -> Seq<Widget<Seq<char>>> {
    Seq::new(names.len(), |i: int| app_button(names, icons, i))
}

/// The launcher: a grid of all apps, four to a row, and the way out below.
pub open spec fn launcher_window(names: Seq<Seq<char>>, icons: Seq<Icon>) -> WindowModel {
    let n = names.len() as int;
    let exit_y = (62 + grid_height(n)) as usize;
    WindowModel {
        kind: WindowKind::Launcher,
        footer: Some("Games, learning tools, and creative apps — click to open."@),
        widgets: seq![
            widget::label_of(14, 12, "Favorites · "@ + text::decimal(names.len()) + " apps"@),
        ] + app_buttons(names, icons) + seq![
            widget::button_of(380, exit_y, 168, 64, "Shutdown"@, WinAction::Shutdown),
            widget::button_of(562, exit_y, 168, 64, "Exit desktop"@, WinAction::ExitGui),
        ],
        ..state::fresh_window(48, 36, 746, (196 + grid_height(n)) as usize, "Applications"@)
    }
}

/// The launcher for the apps of these names, each with an icon.
pub fn create_launcher_window(names: &Vec<String>, icons: &Vec<Icon>) -> (r: Window)
    requires
        names@.len() == icons@.len(),
        names@.len() <= 0x1_0000,
    ensures
        r@ == launcher_window(text::strings(names@), icons@),
        r@.wf(),
{
    let n: usize = names.len();
    let ghost ns = text::strings(names@);
    let rows: usize = (n + 3) / 4;
    let grid_h: usize = rows * 64 + (if rows >= 1 { rows - 1 } else { 0 }) * 12;
    let mut heading = "Favorites · ".to_owned();
    text::push_decimal(&mut heading, n as u64);
    heading.append(" apps");
    let mut w = Window::new(48, 36, 746, 196 + grid_h, "Applications").with_kind(
        WindowKind::Launcher,
    ).with_footer("Games, learning tools, and creative apps — click to open.").add(
        Widget::label(14, 12, heading.as_str()),
    );
    let ghost w0 = w@;
    let ghost all = app_buttons(ns, icons@);
    let mut i: usize = 0;
    assert(w@.widgets =~= w0.widgets + all.take(0));
    while i < n
        invariant
            i <= n,
            n == names@.len(),
            n == icons@.len(),
            n <= 0x1_0000,
            ns == text::strings(names@),
            all == app_buttons(ns, icons@),
            w@ == (WindowModel { widgets: w0.widgets + all.take(i as int), ..w0 }),
        decreases n - i,
    {
        let b = Widget::icon_button(
            16 + (i % 4) * 182,
            44 + (i / 4) * 76,
            168,
            64,
            names[i].as_str(),
            WinAction::LaunchApp(i as u8),
            icons[i],
        );
        let ghost before = w@;
        w = w.add(b);
        proof {
            assert(b@ == app_button(ns, icons@, i as int));
            assert(all.take(i + 1) =~= all.take(i as int).push(b@));
            assert(w@.widgets =~= w0.widgets + all.take(i + 1));
        }
        i = i + 1;
    }
    assert(all.take(i as int) =~= all);
    let exit_y: usize = 62 + grid_h;
    let w = w.add(Widget::button(380, exit_y, 168, 64, "Shutdown", WinAction::Shutdown));
    let w = w.add(Widget::button(562, exit_y, 168, 64, "Exit desktop", WinAction::ExitGui));
    assert(w@.widgets =~= launcher_window(ns, icons@).widgets);
    w
}

// ── My Computer ─────────────────────────────────────────────────────────────

/// What is known of the drives.
pub struct Drives {
    /// How many entries the FAT volume has, if it can be read.
    pub fat: Option<u64>,
    /// How many files the initial RAM disk has.
    pub init: u64,
    /// Bytes used and in all on the data disk, if it can be read.
    pub disk: Option<(u64, u64)>,
    pub has_disk: bool,
    /// The same of a USB drive.
    pub usb: Option<(u64, u64)>,
    pub has_usb: bool,
    /// Whether a USB drive is plugged in, readable or not.
    pub usb_attached: bool,
    pub icon: Icon,
}

pub open spec fn kib_used(used: u64, total: u64) -> Seq<char> {
    text::decimal((used / 1024) as nat) + " of "@ + text::decimal((total / 1024) as nat)
        + " KiB used)"@
}

pub open spec fn fat_line(d: Drives) -> Seq<char> {
    match d.fat {
        Some(n) => "Local Disk (/fat)  —  FAT32 demo  ("@ + text::decimal(n as nat) + " entries)"@,
        None => "Local Disk (/fat)  —  (unavailable)"@,
    }
}

pub open spec fn init_line(d: Drives) -> Seq<char> {
    "RAM disk (/init)  —  initramfs  ("@ + text::decimal(d.init as nat) + " files)"@
}

pub open spec fn disk_line(d: Drives) -> Seq<char> {
    match d.disk {
        Some((used, total)) => "Files (/disk)  —  hard disk, kept across reboots  ("@ + kib_used(
            used,
            total,
        ),
        None => "Files (/disk)  —  no data disk attached"@,
    }
}

pub open spec fn usb_line(d: Drives) -> Seq<char> {
    match d.usb {
        Some((used, total)) => "USB Drive (/usb)  —  FAT32, read/write  ("@ + kib_used(
            used,
            total,
        ),
        None => if d.usb_attached {
            "USB Drive (/usb)  —  attached, but not FAT32 (not mounted)"@
        } else {
            "USB Drive (/usb)  —  no USB drive attached"@
        },
    }
}

/// Opening a drive, where there is one.
pub open spec fn drive_action(there: bool, n: u8) -> WinAction {
    if there {
        WinAction::OpenDrive(n)
    } else {
        WinAction::Nothing
    }
}

pub open spec fn my_computer_window(d: Drives) -> WindowModel {
    WindowModel {
        kind: WindowKind::MyComputer,
        footer: Some("Click a drive. /data is writable (RAM); /fat and /init are read-only."@),
        widgets: seq![
            widget::label_of(10, 10, "Devices and drives:"@),
            widget::icon_button_of(
                10,
                36,
                456,
                44,
                disk_line(d),
                drive_action(d.has_disk, 3),
                d.icon,
            ),
            widget::icon_button_of(
                10,
                86,
                456,
                44,
                fat_line(d),
                drive_action(d.fat is Some, 0),
                d.icon,
            ),
            widget::icon_button_of(
                10,
                136,
                456,
                44,
                init_line(d),
                WinAction::OpenDrive(1),
                d.icon,
            ),
            widget::icon_button_of(
                10,
                186,
                456,
                44,
                "Data (/data)  —  read/write RAM (folders & files, lost on reset)"@,
                WinAction::OpenDrive(2),
                d.icon,
            ),
            widget::icon_button_of(
                10,
                236,
                456,
                44,
                usb_line(d),
                drive_action(d.has_usb, 4),
                d.icon,
            ),
            widget::label_of(10, 294, "Downloads are saved to /disk/downloads."@),
        ],
        ..state::fresh_window(200, 100, 480, 410, "My Computer"@)
    }
}

fn push_kib_used(s: &mut String, used: u64, total: u64)
    ensures
        final(s)@ == old(s)@ + kib_used(used, total),
{
    text::push_decimal(s, used / 1024);
    s.append(" of ");
    text::push_decimal(s, total / 1024);
    s.append(" KiB used)");
    assert(s@ =~= old(s)@ + kib_used(used, total));
}

fn open_if(there: bool, n: u8) -> (r: WinAction)
    ensures
        r == drive_action(there, n),
{
    if there {
        WinAction::OpenDrive(n)
    } else {
        WinAction::Nothing
    }
}

/// A summary of the drives; clicking one opens it.
#[verifier::rlimit(60)]
pub fn create_my_computer_window(d: &Drives) -> (r: Window)
    ensures
        r@ == my_computer_window(*d),
        r@.wf(),
{
    let fat = match d.fat {
        Some(n) => {
            let mut s = "Local Disk (/fat)  —  FAT32 demo  (".to_owned();
            text::push_decimal(&mut s, n);
            s.append(" entries)");
            s
        },
        None => "Local Disk (/fat)  —  (unavailable)".to_owned(),
    };
    assert(fat@ =~= fat_line(*d));
    let mut init = "RAM disk (/init)  —  initramfs  (".to_owned();
    text::push_decimal(&mut init, d.init);
    init.append(" files)");
    assert(init@ =~= init_line(*d));
    let disk = match d.disk {
        Some((used, total)) => {
            let mut s = "Files (/disk)  —  hard disk, kept across reboots  (".to_owned();
            push_kib_used(&mut s, used, total);
            s
        },
        None => "Files (/disk)  —  no data disk attached".to_owned(),
    };
    let usb = match d.usb {
        Some((used, total)) => {
            let mut s = "USB Drive (/usb)  —  FAT32, read/write  (".to_owned();
            push_kib_used(&mut s, used, total);
            s
        },
        None => if d.usb_attached {
            "USB Drive (/usb)  —  attached, but not FAT32 (not mounted)".to_owned()
        } else {
            "USB Drive (/usb)  —  no USB drive attached".to_owned()
        },
    };
    let w = Window::new(200, 100, 480, 410, "My Computer").with_kind(
        WindowKind::MyComputer,
    ).with_footer("Click a drive. /data is writable (RAM); /fat and /init are read-only.").add(
        Widget::label(10, 10, "Devices and drives:"),
    );
    let w = w.add(
        Widget::icon_button(10, 36, 456, 44, disk.as_str(), open_if(d.has_disk, 3), d.icon),
    );
    let w = w.add(
        Widget::icon_button(10, 86, 456, 44, fat.as_str(), open_if(d.fat.is_some(), 0), d.icon),
    );
    let w = w.add(
        Widget::icon_button(10, 136, 456, 44, init.as_str(), WinAction::OpenDrive(1), d.icon),
    );
    let w = w.add(
        Widget::icon_button(
            10,
            186,
            456,
            44,
            "Data (/data)  —  read/write RAM (folders & files, lost on reset)",
            WinAction::OpenDrive(2),
            d.icon,
        ),
    );
    let w = w.add(
        Widget::icon_button(10, 236, 456, 44, usb.as_str(), open_if(d.has_usb, 4), d.icon),
    );
    let w = w.add(Widget::label(10, 294, "Downloads are saved to /disk/downloads."));
    assert(w@.widgets =~= my_computer_window(*d).widgets);
    w
}

// ── File Explorer ───────────────────────────────────────────────────────────

/// Empty labels, one row each.
pub open spec fn blank_rows(x: usize, y0: usize, n: int) -> Seq<Widget<Seq<char>>> {
    Seq::new(n as nat, |i: int| widget::label_of(x, (y0 + i * FM_ROW_H) as usize, ""@))
}

fn add_blank_rows(w: Window, x: usize, y0: usize, n: usize) -> (r: Window)
    requires
        y0 <= 0x1_0000,
        n <= 0x100,
    ensures
        r@ == (WindowModel { widgets: w@.widgets + blank_rows(x, y0, n as int), ..w@ }),
{
    let ghost w0 = w@;
    let mut w = w;
    let mut i: usize = 0;
    assert(w@.widgets =~= w0.widgets + blank_rows(x, y0, 0));
    while i < n
        invariant
            i <= n <= 0x100,
            y0 <= 0x1_0000,
            w@ == (WindowModel { widgets: w0.widgets + blank_rows(x, y0, i as int), ..w0 }),
        decreases n - i,
    {
        w = w.add(Widget::label(x, y0 + i * FM_ROW_H, ""));
        assert(w@.widgets =~= w0.widgets + blank_rows(x, y0, i + 1));
        i = i + 1;
    }
    w
}

pub open spec fn file_manager_window(path: Seq<char>) -> WindowModel {
    WindowModel {
        kind: WindowKind::FileManager,
        app: AppModel::FileManager(
            state::FileManagerModel {
                entries: Seq::empty(),
                selected: None,
                view_mode: FmViewMode::List,
            },
        ),
        footer: Some("List or Icons view · dbl-click opens · /disk and /data are writable."@),
        widgets: seq![widget::label_of(10, 8, ""@)] + blank_rows(
            FM_LIST_LABEL_X,
            FM_FILE_Y0,
            FM_ROWS as int,
        ) + seq![
            widget::button_of(10, 32, 52, 24, "Up"@, WinAction::FmUp),
            widget::button_of(68, 32, 92, 24, "New folder"@, WinAction::FmNewFolder),
            widget::button_of(166, 32, 80, 24, "New file"@, WinAction::FmNewFile),
            widget::button_of(252, 32, 72, 24, "Refresh"@, WinAction::RefreshFiles),
            widget::button_of(330, 32, 72, 24, "Preview"@, WinAction::FmPreview),
            widget::button_of(408, 32, 64, 24, "Icons"@, WinAction::FmViewIcons),
            widget::button_of(478, 32, 56, 24, "List"@, WinAction::FmViewList),
            widget::label_of(10, 300, "Preview:"@),
            widget::label_of(10, 320, ""@),
        ],
        ..state::fresh_window(320, 80, 640, 480, files::explorer_title(path))
    }
}

/// An empty File Explorer for a folder; the listing comes later.
pub fn create_file_manager_window(path: &str) -> (r: Window)
    ensures
        r@ == file_manager_window(path@),
        r@.wf(),
{
    let title = files::title_for(path);
    let w = Window::new(320, 80, 640, 480, title.as_str()).with_kind(
        WindowKind::FileManager,
    ).with_app(
        AppState::FileManager(
            FileManager { entries: Vec::new(), selected: None, view_mode: FmViewMode::List },
        ),
    ).with_footer("List or Icons view · dbl-click opens · /disk and /data are writable.").add(
        Widget::label(10, 8, ""),
    );
    let w = add_blank_rows(w, FM_LIST_LABEL_X, FM_FILE_Y0, FM_ROWS);
    let w = w.add(Widget::button(10, 32, 52, 24, "Up", WinAction::FmUp));
    let w = w.add(Widget::button(68, 32, 92, 24, "New folder", WinAction::FmNewFolder));
    let w = w.add(Widget::button(166, 32, 80, 24, "New file", WinAction::FmNewFile));
    let w = w.add(Widget::button(252, 32, 72, 24, "Refresh", WinAction::RefreshFiles));
    let w = w.add(Widget::button(330, 32, 72, 24, "Preview", WinAction::FmPreview));
    let w = w.add(Widget::button(408, 32, 64, 24, "Icons", WinAction::FmViewIcons));
    let w = w.add(Widget::button(478, 32, 56, 24, "List", WinAction::FmViewList));
    let w = w.add(Widget::label(10, 300, "Preview:"));
    let w = w.add(Widget::label(10, 320, ""));
    assert(text::strings(Seq::<String>::empty()) =~= Seq::empty());
    assert(w@.widgets =~= file_manager_window(path@).widgets);
    w
}

// ── File dialogs ────────────────────────────────────────────────────────────

/// The name a Save As dialog offers: that of the file being edited, or a name
/// for a new one.
pub open spec fn offered_name(mode: FileDialogMode, target: FileDialogTarget, path: Seq<char>) -> Seq<char> {
    match mode {
        FileDialogMode::Open => ""@,
        FileDialogMode::Save => if path.len() > 0 {
            files::base_name(path)
        } else {
            match target {
                FileDialogTarget::Notepad => "notepad.c"@,
                FileDialogTarget::CodeEditor => "untitled.c"@,
            }
        },
    }
}

pub open spec fn file_dialog_window(
    mode: FileDialogMode,
    target: FileDialogTarget,
    path: Seq<char>,
) -> WindowModel {
    let save = mode == FileDialogMode::Save;
    WindowModel {
        kind: WindowKind::FileDialog,
        app: AppModel::FileDialog(
            state::FileDialogModel { mode, entries: Seq::empty(), selected: None },
        ),
        footer: Some("Pick a folder, type a name, then Save / Open. Writable: /disk /data"@),
        focused_widget: Some(10),
        replace_on_type: true,
        widgets: seq![widget::label_of(10, 8, "Location:"@)] + blank_rows(
            30,
            FD_LIST_Y0,
            FD_ROWS as int,
        ) + seq![
            widget::button_of(10, 28, 56, 22, "Up"@, WinAction::FileDialogUp),
            widget::textbox_of(10, 220, 280, 28, offered_name(mode, target, path)),
            widget::button_of(
                300,
                218,
                80,
                32,
                if save {
                    "Save"@
                } else {
                    "Open"@
                },
                if save {
                    WinAction::FileDialogSave
                } else {
                    WinAction::FileDialogOpen
                },
            ),
            widget::button_of(388, 218, 80, 32, "Cancel"@, WinAction::FileDialogCancel),
        ],
        ..state::fresh_window(
            300,
            100,
            480,
            340,
            if save {
                "Save As"@
            } else {
                "Open File"@
            },
        )
    }
}

/// A dialog for the app that `target` names, which is editing `path`.
pub fn create_file_dialog_window(
    mode: FileDialogMode,
    target: FileDialogTarget,
    path: &str,
) -> (r: Window)
    ensures
        r@ == file_dialog_window(mode, target, path@),
        r@.wf(),
{
    let save = mode == FileDialogMode::Save;
    let name = if !save {
        "".to_owned()
    } else if path.unicode_len() > 0 {
        fm_display_name(path)
    } else {
        match target {
            FileDialogTarget::Notepad => "notepad.c".to_owned(),
            FileDialogTarget::CodeEditor => "untitled.c".to_owned(),
        }
    };
    let title = if save { "Save As" } else { "Open File" };
    let confirm = if save { "Save" } else { "Open" };
    let action = if save { WinAction::FileDialogSave } else { WinAction::FileDialogOpen };
    let w = Window::new(300, 100, 480, 340, title).with_kind(WindowKind::FileDialog).with_app(
        AppState::FileDialog(FileDialog { mode, entries: Vec::new(), selected: None }),
    ).with_footer("Pick a folder, type a name, then Save / Open. Writable: /disk /data").add(
        Widget::label(10, 8, "Location:"),
    );
    let w = add_blank_rows(w, 30, FD_LIST_Y0, FD_ROWS);
    let w = w.add(Widget::button(10, 28, 56, 22, "Up", WinAction::FileDialogUp));
    let w = w.add(Widget::TextBox { x: 10, y: 220, w: 280, h: 28, text: name });
    let w = w.add(Widget::button(300, 218, 80, 32, confirm, action));
    let w = w.add(Widget::button(388, 218, 80, 32, "Cancel", WinAction::FileDialogCancel));
    let mut w = w;
    w.focused_widget = Some(10);
    w.replace_on_type = true;
    assert(text::strings(Seq::<String>::empty()) =~= Seq::empty());
    assert(w@.widgets =~= file_dialog_window(mode, target, path@).widgets);
    w
}

// ── Paint ───────────────────────────────────────────────────────────────────

/// A colour chip; the red one is chosen at first.
pub open spec fn chip(i: int) -> Widget<Seq<char>> {
    Widget::Swatch {
        x: (10 + (i % 8) * 30) as usize,
        y: (292 + (i / 8) * 30) as usize,
        w: 26,
        h: 26,
        color: PAINT_PALETTE[i],
        selected: i == 4,
        action: WinAction::PaintColor(i as u8),
    }
}

pub open spec fn chips() -> Seq<Widget<Seq<char>>> {
    Seq::new(16, |i: int| chip(i))
}

pub open spec fn first_picture() -> state::PaintModel {
    state::PaintModel {
        canvas: Seq::new(135000, |i: int| paint::CANVAS_BG),
        cw: 500,
        ch: 270,
        drawing: false,
        last: None,
        color: PAINT_PALETTE[4],
        brush: 3,
        tool: PaintTool::Brush,
    }
}

pub open spec fn paint_window() -> WindowModel {
    WindowModel {
        kind: WindowKind::Paint,
        app: AppModel::Paint(first_picture()),
        footer: Some("Drag to draw.  Pick a colour, brush size, or tool below."@),
        widgets: seq![widget::canvas_of(10, 10, 500, 270)] + chips() + seq![
            widget::button_of(262, 292, 38, 26, "S"@, WinAction::PaintBrush(1)),
            widget::button_of(304, 292, 38, 26, "M"@, WinAction::PaintBrush(3)),
            widget::button_of(346, 292, 38, 26, "L"@, WinAction::PaintBrush(7)),
            widget::button_of(262, 322, 38, 26, "XL"@, WinAction::PaintBrush(14)),
            widget::button_of(10, 356, 90, 28, "Brush"@, WinAction::PaintTool(PaintTool::Brush)),
            widget::button_of(106, 356, 90, 28, "Eraser"@, WinAction::PaintTool(PaintTool::Eraser)),
            widget::button_of(202, 356, 90, 28, "Fill"@, WinAction::PaintTool(PaintTool::Fill)),
            widget::button_of(298, 356, 90, 28, "Clear"@, WinAction::PaintClear),
        ],
        ..state::fresh_window(240, 110, 520, 470, "Paint"@)
    }
}

/// A blank sheet, the palette under it and the tools beside that.
#[verifier::rlimit(60)]
pub fn create_paint_window() -> (r: Window)
    ensures
        r@ == paint_window(),
        r@.wf(),
{
    let canvas: Vec<Color> = vec![paint::CANVAS_BG; 135000];
    assert(canvas@ =~= first_picture().canvas);
    let w = Window::new(240, 110, 520, 470, "Paint").with_kind(WindowKind::Paint).with_footer(
        "Drag to draw.  Pick a colour, brush size, or tool below.",
    ).with_app(
        AppState::Paint(
            Paint {
                canvas,
                cw: 500,
                ch: 270,
                drawing: false,
                last: None,
                color: PAINT_PALETTE[4],
                brush: 3,
                tool: PaintTool::Brush,
            },
        ),
    );
    let mut w = w.add(Widget::canvas(10, 10, 500, 270));
    let ghost w0 = w@;
    let mut i: usize = 0;
    assert(w@.widgets =~= w0.widgets + chips().take(0));
    while i < 16
        invariant
            i <= 16,
            w@ == (WindowModel { widgets: w0.widgets + chips().take(i as int), ..w0 }),
        decreases 16 - i,
    {
        let c = Widget::Swatch {
            x: 10 + (i % 8) * 30,
            y: 292 + (i / 8) * 30,
            w: 26,
            h: 26,
            color: PAINT_PALETTE[i],
            selected: i == 4,
            action: WinAction::PaintColor(i as u8),
        };
        w = w.add(c);
        proof {
            assert(c@ == chip(i as int));
            assert(chips().take(i + 1) =~= chips().take(i as int).push(c@));
            assert(w@.widgets =~= w0.widgets + chips().take(i + 1));
        }
        i = i + 1;
    }
    assert(chips().take(i as int) =~= chips());
    let w = w.add(Widget::button(262, 292, 38, 26, "S", WinAction::PaintBrush(1)));
    let w = w.add(Widget::button(304, 292, 38, 26, "M", WinAction::PaintBrush(3)));
    let w = w.add(Widget::button(346, 292, 38, 26, "L", WinAction::PaintBrush(7)));
    let w = w.add(Widget::button(262, 322, 38, 26, "XL", WinAction::PaintBrush(14)));
    let w = w.add(Widget::button(10, 356, 90, 28, "Brush", WinAction::PaintTool(PaintTool::Brush)));
    let w = w.add(
        Widget::button(106, 356, 90, 28, "Eraser", WinAction::PaintTool(PaintTool::Eraser)),
    );
    let w = w.add(Widget::button(202, 356, 90, 28, "Fill", WinAction::PaintTool(PaintTool::Fill)));
    let w = w.add(Widget::button(298, 356, 90, 28, "Clear", WinAction::PaintClear));
    assert(w@.widgets =~= paint_window().widgets);
    w
}

} // verus!
