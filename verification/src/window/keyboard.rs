//! Keys: which window and which widget they go to, and what they do there.

use vstd::prelude::*;
use vstd::string::*;

use crate::keys::{DecodedKey, KeyCode};
use crate::text;
use crate::window::editor;
use crate::window::editor::KeyUse;
use crate::window::manager;
use crate::window::manager::{Desktop, DesktopModel};
use crate::window::metrics;
use crate::window::state;
use crate::window::state::{AppModel, AppState, Window, WindowModel};
use crate::window::status;
use crate::window::widget::{WinAction, Widget, WindowKind};

verus! {

/// Index of the address bar in the browser window's widget list.
pub const BROWSER_ADDRESS_BAR: usize = 2;

pub const TERMINAL_INPUT_CAP: usize = 240;

pub const TERMINAL_SCROLLBACK_CAP: usize = 300;

pub const TEXT_AREA_CAP: usize = 4096;

/// What a key tells the engine of a game.
#[derive(Debug, Clone, Copy, PartialEq, Eq, Structural)]
pub enum GameInput {
    Nudge(i8),
    Faster,
    Slower,
    Fire,
}

/// What is left to do after a key.
pub enum KeyOutcome<T = String> {
    /// The key is dealt with, and this action is to be applied; `None` if
    /// nobody wanted the key.
    Done(Option<WinAction>),
    /// Open the app launcher.
    OpenLauncher,
    /// Start the game in the top window afresh.
    Restart(WindowKind),
    /// Hand this to the engine of the game in the top window.
    Play(WindowKind, GameInput),
    /// Run this command line and hand the output to the terminal.
    Command(T),
    /// Ask the page in the top window what it makes of the key, and go on
    /// with the answer.
    AskPage,
}

impl View for KeyOutcome {
    type V = KeyOutcome<Seq<char>>;

    open spec fn view(&self) -> KeyOutcome<Seq<char>> {
        match *self {
            KeyOutcome::Done(a) => KeyOutcome::Done(a),
            KeyOutcome::OpenLauncher => KeyOutcome::OpenLauncher,
            KeyOutcome::Restart(k) => KeyOutcome::Restart(k),
            KeyOutcome::Play(k, i) => KeyOutcome::Play(k, i),
            KeyOutcome::Command(s) => KeyOutcome::Command(s@),
            KeyOutcome::AskPage => KeyOutcome::AskPage,
        }
    }
}

pub type KeyOutcomeModel = KeyOutcome<Seq<char>>;

/// What a page made of a key: what a focused field asks for, and whether a
/// handler on the document kept the key for itself.
#[derive(Debug, Clone, Copy, PartialEq, Eq, Structural)]
pub struct PageReply {
    pub field: Option<WinAction>,
    pub prevented: bool,
}

pub open spec fn handled() -> KeyOutcomeModel {
    KeyOutcome::Done(Some(WinAction::Nothing))
}

// ── Widgets ─────────────────────────────────────────────────────────────────

pub open spec fn is_enter(k: DecodedKey) -> bool {
    k == DecodedKey::Unicode('\n') || k == DecodedKey::Unicode('\r')
}

/// A one-line field after a key. The first character after a click replaces
/// what was there; a field takes four times what fits in its width.
pub open spec fn field_after(t: Seq<char>, w: int, replace: bool, k: DecodedKey) -> Seq<char> {
    match k {
        DecodedKey::Unicode(c) if !is_enter(k) => {
            let t0 = if replace {
                Seq::empty()
            } else {
                t
            };
            if c == '\x08' {
                text::popped(t0)
            } else if t0.len() < state::less(w, 8) / (metrics::CHAR_W as int) * 4 {
                t0.push(c)
            } else {
                t0
            }
        },
        _ => t,
    }
}

fn key_in_field(t: &mut String, w: usize, replace: bool, k: DecodedKey)
    ensures
        final(t)@ == field_after(old(t)@, w as int, replace, k),
{
    match k {
        DecodedKey::Unicode(c) => {
            if c != '\n' && c != '\r' {
                if replace {
                    *t = String::new();
                }
                if c == '\x08' {
                    text::pop_char(t);
                } else {
                    let room: usize = if w >= 8 { w - 8 } else { 0 };
                    let max_chars: usize = room / metrics::char_w();
                    if t.as_str().unicode_len() < max_chars * 4 {
                        t.push(c);
                    }
                }
            }
        },
        _ => {},
    }
}

/// A plain text area after a key.
pub open spec fn area_after(t: Seq<char>, k: DecodedKey) -> Seq<char> {
    match k {
        DecodedKey::Unicode(c) => if c == '\x08' {
            text::popped(t)
        } else if is_enter(k) {
            t.push('\n')
        } else if text::byte_len(t) < TEXT_AREA_CAP {
            t.push(c)
        } else {
            t
        },
        _ => t,
    }
}

fn key_in_area(t: &mut String, k: DecodedKey)
    ensures
        final(t)@ == area_after(old(t)@, k),
{
    match k {
        DecodedKey::Unicode(c) => {
            if c == '\x08' {
                text::pop_char(t);
            } else if c == '\n' || c == '\r' {
                t.push('\n');
            } else {
                let bytes = t.as_str().as_bytes();
                if bytes.len() < TEXT_AREA_CAP {
                    t.push(c);
                }
            }
        },
        _ => {},
    }
}

pub open spec fn with_widget(w: WindowModel, f: int, wgt: Widget<Seq<char>>) -> WindowModel {
    WindowModel { widgets: w.widgets.update(f, wgt), ..w }
}

/// What the desktop keeps outside its windows that keys can see.
pub ghost struct Papers {
    pub clip: Seq<char>,
    pub notepad_path: Seq<char>,
    pub code_path: Seq<char>,
}

/// What a key does: the window it went to afterwards, the clipboard, whether
/// the screen is out of date, and what is left to do.
pub ghost struct KeyEffect {
    pub win: WindowModel,
    pub clip: Seq<char>,
    pub redraw: bool,
    pub outcome: KeyOutcomeModel,
}

pub open spec fn papers(d: DesktopModel) -> Papers {
    Papers { clip: d.clipboard, notepad_path: d.notepad_path, code_path: d.code_path }
}

/// Nobody wanted the key.
pub open spec fn unwanted(w: WindowModel, clip: Seq<char>) -> KeyEffect {
    KeyEffect { win: w, clip, redraw: false, outcome: KeyOutcome::Done(None) }
}

/// The key is dealt with and changed what is on screen.
pub open spec fn shows(w: WindowModel, clip: Seq<char>) -> KeyEffect {
    KeyEffect { win: w, clip, redraw: true, outcome: handled() }
}

/// A key for the widget at `f` of a window.
pub open spec fn in_widget(w: WindowModel, f: int, p: Papers, k: DecodedKey, ctrl: bool) -> KeyEffect {
    // Any key ends the just-clicked state: one keypress, one chance.
    let w1 = WindowModel { replace_on_type: false, ..w };
    if f >= w.widgets.len() {
        unwanted(w1, p.clip)
    } else {
        match w.widgets[f] {
            Widget::TextBox { x, y, w: bw, h, text: t } => {
                let t1 = field_after(t, bw as int, w.replace_on_type, k);
                let w2 = with_widget(w1, f, Widget::TextBox { x, y, w: bw, h, text: t1 });
                if k is RawKey {
                    unwanted(w2, p.clip)
                } else if is_enter(k) && w.kind == WindowKind::Browser {
                    KeyEffect {
                        win: w2,
                        clip: p.clip,
                        redraw: false,
                        outcome: KeyOutcome::Done(Some(WinAction::BrowserGo)),
                    }
                } else {
                    shows(w2, p.clip)
                }
            },
            Widget::TextArea { x, y, w: bw, h, text: t } => {
                let w2 = with_widget(
                    w1,
                    f,
                    Widget::TextArea { x, y, w: bw, h, text: area_after(t, k) },
                );
                if k is RawKey {
                    unwanted(w2, p.clip)
                } else {
                    shows(status::notepad_refreshed(w2, p.notepad_path), p.clip)
                }
            },
            Widget::CodeArea { x, y, w: bw, h, text: t, cursor, selection } => {
                let before = editor::Edit { text: t, cursor, selection, clip: p.clip };
                let (e, used) = editor::code_key(before, bw as int, k, ctrl);
                let w2 = with_widget(
                    w1,
                    f,
                    Widget::CodeArea {
                        x,
                        y,
                        w: bw,
                        h,
                        text: e.text,
                        cursor: e.cursor,
                        selection: e.selection,
                    },
                );
                match used {
                    KeyUse::Ignored => unwanted(w2, e.clip),
                    KeyUse::Selected => shows(w2, e.clip),
                    KeyUse::Changed => shows(status::code_refreshed(w2, p.code_path), e.clip),
                }
            },
            _ => unwanted(w1, p.clip),
        }
    }
}

/// A key for the focused widget of a window.
pub open spec fn in_focus(w: WindowModel, p: Papers, k: DecodedKey, ctrl: bool) -> KeyEffect {
    match w.focused_widget {
        None => unwanted(w, p.clip),
        Some(f) => in_widget(w, f as int, p, k, ctrl),
    }
}

/// The desktop after a key went to the window at `i`.
pub open spec fn after_key(d: DesktopModel, i: int, e: KeyEffect) -> DesktopModel {
    DesktopModel {
        clipboard: e.clip,
        dirty: d.dirty || e.redraw,
        wm: manager::replaced(d.wm, i, e.win),
        ..d
    }
}

/// What became of a key in one widget of a window.
#[derive(Debug, Clone, Copy, PartialEq, Eq, Structural)]
enum InWidget {
    Unwanted,
    Field,
    Area,
    Code(KeyUse),
}

#[verifier::rlimit(60)]
fn key_in_window(
    win: &mut Window,
    clipboard: &mut String,
    f: usize,
    k: DecodedKey,
    ctrl: bool,
) -> (r: InWidget)
    ensures
        old(win)@.wf() ==> final(win)@.wf(),
        ({
            let w = old(win)@;
            let w1 = WindowModel { replace_on_type: false, ..w };
            let v = final(win)@;
            let clip = final(clipboard)@;
            if f >= w.widgets.len() {
                v == w1 && r == InWidget::Unwanted && clip == old(clipboard)@
            } else {
                match w.widgets[f as int] {
                    Widget::TextBox { x, y, w: bw, h, text: t } => {
                        &&& v == with_widget(
                            w1,
                            f as int,
                            Widget::TextBox {
                                x,
                                y,
                                w: bw,
                                h,
                                text: field_after(t, bw as int, w.replace_on_type, k),
                            },
                        )
                        &&& r == InWidget::Field
                        &&& clip == old(clipboard)@
                    },
                    Widget::TextArea { x, y, w: bw, h, text: t } => {
                        &&& v == with_widget(
                            w1,
                            f as int,
                            Widget::TextArea { x, y, w: bw, h, text: area_after(t, k) },
                        )
                        &&& r == InWidget::Area
                        &&& clip == old(clipboard)@
                    },
                    Widget::CodeArea { x, y, w: bw, h, text: t, cursor, selection } => {
                        let before = editor::Edit {
                            text: t,
                            cursor,
                            selection,
                            clip: old(clipboard)@,
                        };
                        let (e, used) = editor::code_key(before, bw as int, k, ctrl);
                        &&& v == with_widget(
                            w1,
                            f as int,
                            Widget::CodeArea {
                                x,
                                y,
                                w: bw,
                                h,
                                text: e.text,
                                cursor: e.cursor,
                                selection: e.selection,
                            },
                        )
                        &&& r == InWidget::Code(used)
                        &&& clip == e.clip
                    },
                    _ => v == w1 && r == InWidget::Unwanted && clip == old(clipboard)@,
                }
            }
        }),
{
    let replace = win.replace_on_type;
    win.replace_on_type = false;
    let mut r = InWidget::Unwanted;
    if f < win.widgets.len() {
        match &mut win.widgets[f] {
            Widget::TextBox { text: t, w, .. } => {
                key_in_field(t, *w, replace, k);
                r = InWidget::Field;
            },
            Widget::TextArea { text: t, .. } => {
                key_in_area(t, k);
                r = InWidget::Area;
            },
            Widget::CodeArea { w, text: t, cursor, selection, .. } => {
                let used = editor::code_area_key(t, cursor, selection, clipboard, *w, k, ctrl);
                r = InWidget::Code(used);
            },
            _ => {},
        }
    }
    proof {
        if f < old(win)@.widgets.len() {
            let got = win@.widgets[f as int];
            assert(win@.widgets =~= old(win)@.widgets.update(f as int, got));
            assert(old(win)@.widgets.update(f as int, old(win)@.widgets[f as int])
                =~= old(win)@.widgets);
        } else {
            assert(win@.widgets =~= old(win)@.widgets);
        }
    }
    r
}

#[verifier::rlimit(60)]
fn key_in_focus(
    win: &mut Window,
    clipboard: &mut String,
    notepad_path: &str,
    code_path: &str,
    k: DecodedKey,
    ctrl: bool,
) -> (r: (Option<WinAction>, bool))
    ensures
        old(win)@.wf() ==> final(win)@.wf(),
        ({
            let p = Papers {
                clip: old(clipboard)@,
                notepad_path: notepad_path@,
                code_path: code_path@,
            };
            KeyEffect {
                win: final(win)@,
                clip: final(clipboard)@,
                redraw: r.1,
                outcome: KeyOutcome::Done(r.0),
            } == in_focus(old(win)@, p, k, ctrl)
        }),
{
    let f: usize = match win.focused_widget {
        Some(f) => f,
        None => {
            return (None, false);
        },
    };
    let kind = win.kind;
    let used = key_in_window(win, clipboard, f, k, ctrl);
    let raw = match k {
        DecodedKey::RawKey(_) => true,
        _ => false,
    };
    match used {
        InWidget::Unwanted => (None, false),
        InWidget::Field => {
            let enter = match k {
                DecodedKey::Unicode(c) => c == '\n' || c == '\r',
                _ => false,
            };
            if raw {
                (None, false)
            } else if enter && kind == WindowKind::Browser {
                (Some(WinAction::BrowserGo), false)
            } else {
                (Some(WinAction::Nothing), true)
            }
        },
        InWidget::Area => {
            if raw {
                (None, false)
            } else {
                status::notepad_refresh_status(win, notepad_path);
                (Some(WinAction::Nothing), true)
            }
        },
        InWidget::Code(KeyUse::Ignored) => (None, false),
        InWidget::Code(KeyUse::Selected) => (Some(WinAction::Nothing), true),
        InWidget::Code(KeyUse::Changed) => {
            status::code_editor_refresh_status(win, code_path);
            (Some(WinAction::Nothing), true)
        },
    }
}

// ── Games ───────────────────────────────────────────────────────────────────

pub open spec fn letter(k: DecodedKey, low: char, up: char) -> bool {
    k == DecodedKey::Unicode(low) || k == DecodedKey::Unicode(up)
}

/// The keys of the three arcade games: steer, change speed, and fire in the
/// one that shoots.
pub open spec fn game_key(kind: WindowKind, k: DecodedKey) -> Option<GameInput> {
    if k == DecodedKey::RawKey(KeyCode::ArrowLeft) || letter(k, 'a', 'A') {
        Some(GameInput::Nudge(-1i8))
    } else if k == DecodedKey::RawKey(KeyCode::ArrowRight) || letter(k, 'd', 'D') {
        Some(GameInput::Nudge(1))
    } else if k == DecodedKey::RawKey(KeyCode::ArrowUp) || letter(k, 'w', 'W') {
        Some(GameInput::Faster)
    } else if k == DecodedKey::RawKey(KeyCode::ArrowDown) || letter(k, 's', 'S') {
        Some(GameInput::Slower)
    } else if kind == WindowKind::Invaders && k == DecodedKey::Unicode(' ') {
        Some(GameInput::Fire)
    } else {
        None
    }
}

fn game_input(kind: WindowKind, k: DecodedKey) -> (r: Option<GameInput>)
    ensures
        r == game_key(kind, k),
{
    match k {
        DecodedKey::RawKey(KeyCode::ArrowLeft) => Some(GameInput::Nudge(-1i8)),
        DecodedKey::RawKey(KeyCode::ArrowRight) => Some(GameInput::Nudge(1)),
        DecodedKey::RawKey(KeyCode::ArrowUp) => Some(GameInput::Faster),
        DecodedKey::RawKey(KeyCode::ArrowDown) => Some(GameInput::Slower),
        DecodedKey::Unicode(c) => {
            if c == 'a' || c == 'A' {
                Some(GameInput::Nudge(-1i8))
            } else if c == 'd' || c == 'D' {
                Some(GameInput::Nudge(1))
            } else if c == 'w' || c == 'W' {
                Some(GameInput::Faster)
            } else if c == 's' || c == 'S' {
                Some(GameInput::Slower)
            } else if c == ' ' && kind == WindowKind::Invaders {
                Some(GameInput::Fire)
            } else {
                None
            }
        },
        _ => None,
    }
}

pub open spec fn is_arcade(kind: WindowKind) -> bool {
    kind == WindowKind::Breakout || kind == WindowKind::Racing || kind == WindowKind::Invaders
}

/// Whether a window of an arcade game has its game in it.
pub open spec fn has_game(w: WindowModel) -> bool {
    match w.kind {
        WindowKind::Breakout => w.app is Breakout,
        WindowKind::Racing => w.app is Racing,
        WindowKind::Invaders => w.app is Invaders,
        _ => false,
    }
}

fn window_has_game(w: &Window) -> (r: bool)
    ensures
        r == has_game(w@),
{
    match (w.kind, &w.app) {
        (WindowKind::Breakout, AppState::Breakout(_)) => true,
        (WindowKind::Racing, AppState::Racing(_)) => true,
        (WindowKind::Invaders, AppState::Invaders(_)) => true,
        _ => false,
    }
}

/// The direction an arrow key stands for.
pub open spec fn arrow(k: DecodedKey) -> Option<(i8, i8)> {
    match k {
        DecodedKey::RawKey(KeyCode::ArrowUp) => Some((0i8, -1i8)),
        DecodedKey::RawKey(KeyCode::ArrowDown) => Some((0i8, 1i8)),
        DecodedKey::RawKey(KeyCode::ArrowLeft) => Some((-1i8, 0i8)),
        DecodedKey::RawKey(KeyCode::ArrowRight) => Some((1i8, 0i8)),
        _ => None,
    }
}

/// Whether an arrow points straight against the way the snake is going.
pub open spec fn against(arrow: (i8, i8), dir: (i8, i8)) -> bool {
    if arrow.0 == 0 {
        dir.1 == -arrow.1
    } else {
        dir.0 == -arrow.0
    }
}

/// The snake's window after an arrow key that it accepts.
pub open spec fn snake_turned(w: WindowModel, k: DecodedKey) -> Option<WindowModel> {
    match (w.app, arrow(k)) {
        (AppModel::Snake(s), Some(a)) if !against(a, s.dir) => Some(
            WindowModel {
                app: AppModel::Snake(state::SnakeModel { pending_dir: a, ..s }),
                ..w
            },
        ),
        _ => None,
    }
}

fn turn_snake(win: &mut Window, k: DecodedKey) -> (r: bool)
    ensures
        r == (snake_turned(old(win)@, k) is Some),
        r ==> final(win)@ == snake_turned(old(win)@, k)->0,
        !r ==> final(win)@ == old(win)@,
        old(win)@.wf() ==> final(win)@.wf(),
{
    proof {
        reveal(state::SnakeModel::wf);
    }
    match &mut win.app {
        AppState::Snake(s) => match k {
            DecodedKey::RawKey(KeyCode::ArrowUp) => {
                if s.dir.1 != 1 {
                    s.pending_dir = (0, -1);
                    return true;
                }
                false
            },
            DecodedKey::RawKey(KeyCode::ArrowDown) => {
                if s.dir.1 != -1 {
                    s.pending_dir = (0, 1);
                    return true;
                }
                false
            },
            DecodedKey::RawKey(KeyCode::ArrowLeft) => {
                if s.dir.0 != 1 {
                    s.pending_dir = (-1, 0);
                    return true;
                }
                false
            },
            DecodedKey::RawKey(KeyCode::ArrowRight) => {
                if s.dir.0 != -1 {
                    s.pending_dir = (1, 0);
                    return true;
                }
                false
            },
            _ => false,
        },
        _ => false,
    }
}

// ── Terminal ────────────────────────────────────────────────────────────────

pub open spec fn prompt_line(cmd: Seq<char>) -> Seq<char> {
    "os101$ "@ + cmd
}

/// The newest lines of a scrollback, no more than it may hold.
pub open spec fn capped(lines: Seq<Seq<char>>) -> Seq<Seq<char>> {
    if lines.len() > TERMINAL_SCROLLBACK_CAP {
        lines.skip(lines.len() - TERMINAL_SCROLLBACK_CAP)
    } else {
        lines
    }
}

pub open spec fn is_printable(c: char) -> bool {
    c >= ' ' && c != '\x7f'
}

/// A terminal after a key, and the command line it submitted.
pub open spec fn terminal_key(t: state::TerminalModel, k: DecodedKey) -> Option<
    (state::TerminalModel, Option<Seq<char>>),
> {
    match k {
        DecodedKey::Unicode(c) => if c == '\x08' {
            Some(
                (
                    state::TerminalModel { input: text::popped(t.input), blink_on: true, ..t },
                    None,
                ),
            )
        } else if is_enter(k) {
            let cmd = text::trimmed(t.input);
            let lines = t.scrollback.push(prompt_line(cmd));
            Some(
                (
                    state::TerminalModel {
                        input: Seq::empty(),
                        blink_on: true,
                        scrollback: if cmd.len() == 0 {
                            capped(lines)
                        } else {
                            lines
                        },
                        ..t
                    },
                    if cmd.len() == 0 {
                        None
                    } else {
                        Some(cmd)
                    },
                ),
            )
        } else if is_printable(c) {
            Some(
                (
                    state::TerminalModel {
                        input: if t.input.len() < TERMINAL_INPUT_CAP {
                            t.input.push(c)
                        } else {
                            t.input
                        },
                        blink_on: true,
                        ..t
                    },
                    None,
                ),
            )
        } else {
            None
        },
        _ => None,
    }
}

/// Whether a terminal window takes a key at all.
pub open spec fn terminal_takes(k: DecodedKey) -> bool {
    match k {
        DecodedKey::Unicode(c) => c == '\x08' || is_enter(k) || is_printable(c),
        _ => false,
    }
}

fn cap_lines(lines: &mut Vec<String>)
    ensures
        text::strings(final(lines)@) == capped(text::strings(old(lines)@)),
{
    let n: usize = lines.len();
    if n > TERMINAL_SCROLLBACK_CAP {
        let tail = lines.split_off(n - TERMINAL_SCROLLBACK_CAP);
        *lines = tail;
    }
    assert(text::strings(lines@) =~= capped(text::strings(old(lines)@)));
}

fn key_in_terminal(t: &mut state::Terminal, k: DecodedKey) -> (r: Option<Option<String>>)
    ensures
        match r {
            Some(None) => terminal_key(old(t)@, k) == Some((final(t)@, None::<Seq<char>>)),
            Some(Some(cmd)) => terminal_key(old(t)@, k) == Some((final(t)@, Some(cmd@))),
            None => terminal_key(old(t)@, k) is None && final(t)@ == old(t)@,
        },
{
    match k {
        DecodedKey::Unicode(c) => {
            if c == '\x08' {
                text::pop_char(&mut t.input);
                t.blink_on = true;
                Some(None)
            } else if c == '\n' || c == '\r' {
                t.blink_on = true;
                let cmd = text::trim(t.input.as_str());
                t.input = String::new();
                let line = String::from_str("os101$ ").concat(cmd.as_str());
                t.scrollback.push(line);
                assert(text::strings(t.scrollback@) =~= text::strings(old(t).scrollback@).push(
                    line@,
                ));
                if cmd.as_str().is_empty() {
                    cap_lines(&mut t.scrollback);
                    Some(None)
                } else {
                    Some(Some(cmd))
                }
            } else if c >= ' ' && c != '\x7f' {
                if t.input.as_str().unicode_len() < TERMINAL_INPUT_CAP {
                    t.input.push(c);
                }
                t.blink_on = true;
                Some(None)
            } else {
                None
            }
        },
        _ => None,
    }
}

/// The answer that asks for the screen to be cleared.
pub open spec fn clear_mark() -> Seq<char> {
    "\x01CLEAR\x01"@
}

/// A terminal after the output of a command.
pub open spec fn terminal_shown(t: state::TerminalModel, output: Seq<char>) -> state::TerminalModel {
    state::TerminalModel {
        scrollback: capped(
            if output == clear_mark() {
                Seq::empty()
            } else if output.len() == 0 {
                t.scrollback
            } else {
                t.scrollback + text::split(output, '\n')
            },
        ),
        ..t
    }
}

pub open spec fn output_shown(d: DesktopModel, output: Seq<char>) -> DesktopModel {
    let i = manager::top(d.wm);
    if i >= 0 {
        let w = d.wm.windows[i];
        match w.app {
            AppModel::Terminal(t) if w.kind == WindowKind::Terminal => d.set_window(
                i,
                WindowModel { app: AppModel::Terminal(terminal_shown(t, output)), ..w },
            ).redraw(),
            _ => d.redraw(),
        }
    } else {
        d.redraw()
    }
}

fn show_output(t: &mut state::Terminal, output: &str)
    ensures
        final(t)@ == terminal_shown(old(t)@, output@),
{
    if text::same(output, "\x01CLEAR\x01") {
        t.scrollback = Vec::new();
        assert(text::strings(t.scrollback@) =~= Seq::empty());
    } else if !output.is_empty() {
        let mut lines = text::split_text(output, '\n');
        let ghost more = lines@;
        t.scrollback.append(&mut lines);
        assert(text::strings(t.scrollback@) =~= text::strings(old(t).scrollback@) + text::strings(
            more,
        ));
    }
    cap_lines(&mut t.scrollback);
}

/// Hands the output of a command to the terminal that submitted it.
pub fn terminal_output(desk: &mut Desktop, output: &str)
    requires
        old(desk)@.wf(),
    ensures
        final(desk)@ == output_shown(old(desk)@, output@),
        final(desk)@.wf(),
{
    desk.dirty = true;
    if let Some(i) = desk.wm.topmost_idx() {
        assert(desk@.wm.windows[i as int].wf());
        if desk.wm.windows[i].kind == WindowKind::Terminal {
            if let AppState::Terminal(t) = &mut desk.wm.windows[i].app {
                show_output(t, output);
            }
        }
        proof {
            let w = desk.wm.windows@[i as int];
            assert(desk.wm.windows@ =~= old(desk).wm.windows@.update(i as int, w));
            manager::view_updated(old(desk).wm.windows@, i as int, w);
            assert(old(desk)@.wm.windows.update(i as int, old(desk)@.wm.windows[i as int])
                =~= old(desk)@.wm.windows);
        }
    }
}

// ── Browser ─────────────────────────────────────────────────────────────────

/// The keys that move a page, while the address bar does not have the focus.
pub open spec fn scroll_key(k: DecodedKey) -> Option<WinAction> {
    match k {
        DecodedKey::RawKey(KeyCode::ArrowDown) => Some(WinAction::BrowserScroll(1)),
        DecodedKey::RawKey(KeyCode::ArrowUp) => Some(WinAction::BrowserScroll(-1i8)),
        DecodedKey::RawKey(KeyCode::PageDown) => Some(WinAction::BrowserScroll(3)),
        DecodedKey::RawKey(KeyCode::PageUp) => Some(WinAction::BrowserScroll(-3i8)),
        DecodedKey::Unicode(' ') => Some(WinAction::BrowserScroll(3)),
        DecodedKey::RawKey(KeyCode::Home) => Some(WinAction::BrowserScrollTo(0)),
        DecodedKey::RawKey(KeyCode::End) => Some(WinAction::BrowserScrollTo(usize::MAX)),
        _ => None,
    }
}

fn scroll_action(k: DecodedKey) -> (r: Option<WinAction>)
    ensures
        r == scroll_key(k),
{
    match k {
        DecodedKey::RawKey(KeyCode::ArrowDown) => Some(WinAction::BrowserScroll(1)),
        DecodedKey::RawKey(KeyCode::ArrowUp) => Some(WinAction::BrowserScroll(-1i8)),
        DecodedKey::RawKey(KeyCode::PageDown) => Some(WinAction::BrowserScroll(3)),
        DecodedKey::RawKey(KeyCode::PageUp) => Some(WinAction::BrowserScroll(-3i8)),
        DecodedKey::Unicode(' ') => Some(WinAction::BrowserScroll(3)),
        DecodedKey::RawKey(KeyCode::Home) => Some(WinAction::BrowserScrollTo(0)),
        DecodedKey::RawKey(KeyCode::End) => Some(WinAction::BrowserScrollTo(usize::MAX)),
        _ => None,
    }
}

/// What a key does in a browser once the page has said its part.
pub open spec fn page_effect(w: WindowModel, p: Papers, k: DecodedKey, ctrl: bool, reply: PageReply) -> KeyEffect {
    if reply.field is Some {
        KeyEffect { win: w, clip: p.clip, redraw: true, outcome: KeyOutcome::Done(reply.field) }
    } else if reply.prevented {
        shows(w, p.clip)
    } else if scroll_key(k) is Some {
        KeyEffect { win: w, clip: p.clip, redraw: false, outcome: KeyOutcome::Done(scroll_key(k)) }
    } else {
        in_focus(w, p, k, ctrl)
    }
}

pub open spec fn page_step(d: DesktopModel, k: DecodedKey, ctrl: bool, reply: PageReply) -> (
    DesktopModel,
    KeyOutcomeModel,
) {
    let i = manager::top(d.wm);
    if i < 0 {
        (d, KeyOutcome::Done(None))
    } else {
        let e = page_effect(d.wm.windows[i], papers(d), k, ctrl, reply);
        (after_key(d, i, e), e.outcome)
    }
}

/// Goes on with a key after the page in the top window was asked about it.
#[verifier::spinoff_prover]
#[verifier::rlimit(60)]
pub fn handle_page_key(desk: &mut Desktop, k: DecodedKey, ctrl: bool, reply: PageReply) -> (
    r: Option<WinAction>)
    requires
        old(desk)@.wf(),
    ensures
        (final(desk)@, KeyOutcome::<Seq<char>>::Done(r)) == page_step(old(desk)@, k, ctrl, reply),
        final(desk)@.wf(),
{
    let i: usize = match desk.wm.topmost_idx() {
        Some(i) => i,
        None => {
            return None;
        },
    };
    proof {
        assert(desk@.wm.windows[i as int].wf());
        assert(desk@.wm.windows.update(i as int, desk@.wm.windows[i as int]) =~= desk@.wm.windows);
    }
    if let Some(a) = reply.field {
        desk.dirty = true;
        return Some(a);
    }
    if reply.prevented {
        desk.dirty = true;
        return Some(WinAction::Nothing);
    }
    if let Some(a) = scroll_action(k) {
        return Some(a);
    }
    let (r, redraw) = key_in_focus(
        &mut desk.wm.windows[i],
        &mut desk.clipboard,
        desk.notepad_path.as_str(),
        desk.code_path.as_str(),
        k,
        ctrl,
    );
    proof {
        manager::view_updated(old(desk).wm.windows@, i as int, desk.wm.windows@[i as int]);
    }
    if redraw {
        desk.dirty = true;
    }
    r
}

// ── Dispatch ────────────────────────────────────────────────────────────────

/// What a key does in the topmost window.
pub open spec fn window_effect(w: WindowModel, p: Papers, k: DecodedKey, ctrl: bool) -> KeyEffect {
    if w.kind == WindowKind::Snake && snake_turned(w, k) is Some {
        shows(snake_turned(w, k)->0, p.clip)
    } else if (w.kind == WindowKind::Snake || is_arcade(w.kind)) && letter(k, 'r', 'R') {
        KeyEffect { win: w, clip: p.clip, redraw: false, outcome: KeyOutcome::Restart(w.kind) }
    } else if is_arcade(w.kind) && has_game(w) && game_key(w.kind, k) is Some {
        KeyEffect {
            win: w,
            clip: p.clip,
            redraw: true,
            outcome: KeyOutcome::Play(w.kind, game_key(w.kind, k)->0),
        }
    } else if w.kind == WindowKind::Terminal {
        if !terminal_takes(k) {
            unwanted(w, p.clip)
        } else {
            match w.app {
                AppModel::Terminal(t) => {
                    let (t1, cmd) = terminal_key(t, k)->0;
                    KeyEffect {
                        win: WindowModel { app: AppModel::Terminal(t1), ..w },
                        clip: p.clip,
                        redraw: true,
                        outcome: match cmd {
                            Some(c) => KeyOutcome::Command(c),
                            None => handled(),
                        },
                    }
                },
                _ => shows(w, p.clip),
            }
        }
    } else if w.kind == WindowKind::Browser && w.focused_widget != Some(BROWSER_ADDRESS_BAR) {
        KeyEffect { win: w, clip: p.clip, redraw: false, outcome: KeyOutcome::AskPage }
    } else {
        in_focus(w, p, k, ctrl)
    }
}

pub open spec fn key_step(d: DesktopModel, k: DecodedKey, ctrl: bool) -> (
    DesktopModel,
    KeyOutcomeModel,
) {
    if k == DecodedKey::Unicode('\x1b') || k == DecodedKey::RawKey(KeyCode::Escape) {
        (d, KeyOutcome::Done(Some(WinAction::ExitGui)))
    } else if k == DecodedKey::RawKey(KeyCode::F2) {
        (d, KeyOutcome::OpenLauncher)
    } else if manager::top(d.wm) < 0 {
        (d, KeyOutcome::Done(None))
    } else {
        let i = manager::top(d.wm);
        let e = window_effect(d.wm.windows[i], papers(d), k, ctrl);
        (after_key(d, i, e), e.outcome)
    }
}

#[verifier::rlimit(60)]
fn key_for_window(
    win: &mut Window,
    clipboard: &mut String,
    notepad_path: &str,
    code_path: &str,
    k: DecodedKey,
    ctrl: bool,
) -> (r: (KeyOutcome, bool))
    ensures
        old(win)@.wf() ==> final(win)@.wf(),
        ({
            let p = Papers {
                clip: old(clipboard)@,
                notepad_path: notepad_path@,
                code_path: code_path@,
            };
            KeyEffect {
                win: final(win)@,
                clip: final(clipboard)@,
                redraw: r.1,
                outcome: r.0@,
            } == window_effect(old(win)@, p, k, ctrl)
        }),
{
    let kind = win.kind;
    if kind == WindowKind::Snake {
        if turn_snake(win, k) {
            return (KeyOutcome::Done(Some(WinAction::Nothing)), true);
        }
    }
    let restart = match k {
        DecodedKey::Unicode(c) => c == 'r' || c == 'R',
        _ => false,
    };
    let arcade = kind == WindowKind::Breakout || kind == WindowKind::Racing || kind
        == WindowKind::Invaders;
    if (kind == WindowKind::Snake || arcade) && restart {
        return (KeyOutcome::Restart(kind), false);
    }
    if arcade && window_has_game(win) {
        if let Some(input) = game_input(kind, k) {
            return (KeyOutcome::Play(kind, input), true);
        }
    }
    if kind == WindowKind::Terminal {
        let takes = match k {
            DecodedKey::Unicode(c) => c == '\x08' || c == '\n' || c == '\r' || (c >= ' ' && c
                != '\x7f'),
            _ => false,
        };
        if !takes {
            return (KeyOutcome::Done(None), false);
        }
        let mut cmd: Option<String> = None;
        if let AppState::Terminal(t) = &mut win.app {
            match key_in_terminal(t, k) {
                Some(c) => {
                    cmd = c;
                },
                None => {},
            }
        }
        return match cmd {
            Some(c) => (KeyOutcome::Command(c), true),
            None => (KeyOutcome::Done(Some(WinAction::Nothing)), true),
        };
    }
    if kind == WindowKind::Browser {
        let on_bar = match win.focused_widget {
            Some(f) => f == BROWSER_ADDRESS_BAR,
            None => false,
        };
        if !on_bar {
            return (KeyOutcome::AskPage, false);
        }
    }
    let (a, redraw) = key_in_focus(win, clipboard, notepad_path, code_path, k, ctrl);
    (KeyOutcome::Done(a), redraw)
}

/// Routes a key: Escape leaves the desktop, F2 opens the launcher from
/// anywhere, and everything else goes to the topmost window.
pub fn handle_key(desk: &mut Desktop, k: DecodedKey, ctrl: bool) -> (r: KeyOutcome)
    requires
        old(desk)@.wf(),
    ensures
        (final(desk)@, r@) == key_step(old(desk)@, k, ctrl),
        final(desk)@.wf(),
{
    match k {
        DecodedKey::Unicode('\x1b') => {
            return KeyOutcome::Done(Some(WinAction::ExitGui));
        },
        DecodedKey::RawKey(KeyCode::Escape) => {
            return KeyOutcome::Done(Some(WinAction::ExitGui));
        },
        DecodedKey::RawKey(KeyCode::F2) => {
            return KeyOutcome::OpenLauncher;
        },
        _ => {},
    }
    let i: usize = match desk.wm.topmost_idx() {
        Some(i) => i,
        None => {
            return KeyOutcome::Done(None);
        },
    };
    assert(desk@.wm.windows[i as int].wf());
    let (r, redraw) = key_for_window(
        &mut desk.wm.windows[i],
        &mut desk.clipboard,
        desk.notepad_path.as_str(),
        desk.code_path.as_str(),
        k,
        ctrl,
    );
    proof {
        manager::view_updated(old(desk).wm.windows@, i as int, desk.wm.windows@[i as int]);
    }
    if redraw {
        desk.dirty = true;
    }
    r
}

/// A key never opens, closes, moves or reorders windows: the list keeps its
/// length, and every window but the topmost one is untouched.
pub proof fn keys_touch_only_the_top_window(d: DesktopModel, k: DecodedKey, ctrl: bool, j: int)
    requires
        0 <= j < d.wm.windows.len(),
        j != manager::top(d.wm),
    ensures
        key_step(d, k, ctrl).0.wm.windows.len() == d.wm.windows.len(),
        key_step(d, k, ctrl).0.wm.windows[j] == d.wm.windows[j],
{
    manager::last_where_bounds(d.wm.windows, manager::shown());
}

// ── Laws ────────────────────────────────────────────────────────────────────

/// A field takes a character at its end while there is room, and backspace
/// takes it back; just after a click the first character begins anew. The enter
/// key and keys that type nothing leave it alone.
pub proof fn fields_grow_at_the_end(t: Seq<char>, w: int, c: char, k: KeyCode)
    requires
        c != '\x08',
        c != '\n',
        c != '\r',
        w >= 8 + metrics::CHAR_W,
        t.len() < (w - 8) / (metrics::CHAR_W as int) * 4,
    ensures
        field_after(t, w, false, DecodedKey::Unicode(c)) == t.push(c),
        field_after(
            field_after(t, w, false, DecodedKey::Unicode(c)),
            w,
            false,
            DecodedKey::Unicode('\x08'),
        ) == t,
        field_after(t, w, true, DecodedKey::Unicode(c)) == seq![c],
        field_after(t, w, false, DecodedKey::Unicode('\n')) == t,
        field_after(t, w, false, DecodedKey::RawKey(k)) == t,
        t.len() == 0 ==> field_after(t, w, false, DecodedKey::Unicode('\x08')) == t,
{
    assert(t.push(c).drop_last() =~= t);
    let d = metrics::CHAR_W as int;
    assert((w - 8) / d >= 1) by (nonlinear_arith)
        requires
            w - 8 >= d,
            d > 0,
    ;
    assert(Seq::<char>::empty().push(c) =~= seq![c]);
}

/// A text area takes a character at its end, the enter key begins a new line
/// there, and backspace takes the last of either back.
pub proof fn areas_grow_at_the_end(t: Seq<char>, c: char, k: KeyCode)
    requires
        c != '\x08',
        c != '\n',
        c != '\r',
        text::byte_len(t) < 4096,
    ensures
        area_after(t, DecodedKey::Unicode(c)) == t.push(c),
        area_after(t, DecodedKey::Unicode('\n')) == t.push('\n'),
        area_after(t, DecodedKey::Unicode('\r')) == t.push('\n'),
        area_after(area_after(t, DecodedKey::Unicode(c)), DecodedKey::Unicode('\x08')) == t,
        area_after(area_after(t, DecodedKey::Unicode('\n')), DecodedKey::Unicode('\x08')) == t,
        area_after(t, DecodedKey::RawKey(k)) == t,
{
    assert(t.push(c).drop_last() =~= t);
    assert(t.push('\n').drop_last() =~= t);
}

/// What is typed goes to the widget that has the focus, and to no other.
pub proof fn typing_goes_to_the_focus(w: WindowModel, p: Papers, k: DecodedKey, ctrl: bool, j: int)
    requires
        w.kind != WindowKind::Notepad,
        w.kind != WindowKind::CodeEditor,
        0 <= j < w.widgets.len(),
        w.focused_widget != Some(j as usize),
        w.widgets.len() <= usize::MAX,
    ensures
        in_focus(w, p, k, ctrl).win.widgets[j] == w.widgets[j],
        in_focus(w, p, k, ctrl).win.widgets.len() == w.widgets.len(),
        in_focus(w, p, k, ctrl).win.title == w.title,
        in_focus(w, p, k, ctrl).win.app == w.app,
{
}

/// Notepad's page shows what is typed: the character goes to the end of its
/// text, and the screen is drawn anew.
pub proof fn notepad_shows_what_is_typed(w: WindowModel, p: Papers, c: char)
    requires
        w.kind == WindowKind::Notepad,
        w.focused_widget == Some(4usize),
        w.widgets.len() > 4,
        w.widgets[4] is TextArea,
        c != '\x08',
        c != '\n',
        c != '\r',
        text::byte_len(w.widgets[4]->TextArea_text) < 4096,
    ensures
        ({
            let e = window_effect(w, p, DecodedKey::Unicode(c), false);
            &&& e.win.widgets[4]->TextArea_text == w.widgets[4]->TextArea_text.push(c)
            &&& e.redraw
            &&& e.clip == p.clip
        }),
{
}

/// The code area under the focus is edited as its keys say, with the desktop's
/// clipboard.
pub proof fn programs_are_edited_in_the_code_area(
    w: WindowModel,
    p: Papers,
    k: DecodedKey,
    ctrl: bool,
)
    requires
        w.kind == WindowKind::CodeEditor,
        w.focused_widget == Some(6usize),
        w.widgets.len() > 6,
        w.widgets[6] is CodeArea,
    ensures
        ({
            let before = editor::Edit {
                text: w.widgets[6]->CodeArea_text,
                cursor: w.widgets[6]->CodeArea_cursor,
                selection: w.widgets[6]->CodeArea_selection,
                clip: p.clip,
            };
            let after = editor::code_key(before, w.widgets[6]->CodeArea_w as int, k, ctrl).0;
            let e = window_effect(w, p, k, ctrl);
            &&& e.win.widgets[6]->CodeArea_text == after.text
            &&& e.win.widgets[6]->CodeArea_cursor == after.cursor
            &&& e.win.widgets[6]->CodeArea_selection == after.selection
            &&& e.clip == after.clip
        }),
{
}

/// The arrows point where they say, left and up being less, and opposite keys
/// in opposite directions.
pub proof fn arrows_point_their_way(k: DecodedKey)
    ensures
        arrow(k) == Some((0i8, -1i8)) <==> k == DecodedKey::RawKey(KeyCode::ArrowUp),
        arrow(k) == Some((0i8, 1i8)) <==> k == DecodedKey::RawKey(KeyCode::ArrowDown),
        arrow(k) == Some((-1i8, 0i8)) <==> k == DecodedKey::RawKey(KeyCode::ArrowLeft),
        arrow(k) == Some((1i8, 0i8)) <==> k == DecodedKey::RawKey(KeyCode::ArrowRight),
        scroll_key(k) == Some(WinAction::BrowserScroll(1)) <==> k == DecodedKey::RawKey(
            KeyCode::ArrowDown,
        ),
        scroll_key(k) == Some(WinAction::BrowserScroll(-1i8)) <==> k == DecodedKey::RawKey(
            KeyCode::ArrowUp,
        ),
        scroll_key(k) == Some(WinAction::BrowserScroll(-3i8)) <==> k == DecodedKey::RawKey(
            KeyCode::PageUp,
        ),
        scroll_key(k) == Some(WinAction::BrowserScroll(3)) <==> k == DecodedKey::RawKey(
            KeyCode::PageDown,
        ) || k == DecodedKey::Unicode(' '),
        scroll_key(k) == Some(WinAction::BrowserScrollTo(0)) <==> k == DecodedKey::RawKey(
            KeyCode::Home,
        ),
{
}

/// The snake turns where an arrow points, except straight back.
pub proof fn the_snake_turns_with_the_arrows(w: WindowModel, s: state::SnakeModel, k: DecodedKey)
    requires
        w.app == AppModel::Snake(s),
        s.dir == (0i8, 1i8) || s.dir == (0i8, -1i8) || s.dir == (1i8, 0i8) || s.dir == (-1i8, 0i8),
        arrow(k) is Some,
    ensures
        ({
            let a = arrow(k)->0;
            let back = a.0 == -s.dir.0 && a.1 == -s.dir.1;
            &&& back <==> snake_turned(w, k) is None
            &&& !back ==> snake_turned(w, k) == Some(
                WindowModel {
                    app: AppModel::Snake(state::SnakeModel { pending_dir: a, ..s }),
                    ..w
                },
            )
        }),
{
}

/// The arcade games are steered left and right, sped up and slowed down, by the
/// arrows and by the letters that lie like them; only one of them shoots.
pub proof fn games_are_steered(kind: WindowKind, k: DecodedKey)
    ensures
        game_key(kind, k) == Some(GameInput::Nudge(-1i8)) <==> k == DecodedKey::RawKey(
            KeyCode::ArrowLeft,
        ) || k == DecodedKey::Unicode('a') || k == DecodedKey::Unicode('A'),
        game_key(kind, k) == Some(GameInput::Nudge(1)) <==> k == DecodedKey::RawKey(
            KeyCode::ArrowRight,
        ) || k == DecodedKey::Unicode('d') || k == DecodedKey::Unicode('D'),
        game_key(kind, k) == Some(GameInput::Faster) <==> k == DecodedKey::RawKey(KeyCode::ArrowUp)
            || k == DecodedKey::Unicode('w') || k == DecodedKey::Unicode('W'),
        game_key(kind, k) == Some(GameInput::Slower) <==> k == DecodedKey::RawKey(
            KeyCode::ArrowDown,
        ) || k == DecodedKey::Unicode('s') || k == DecodedKey::Unicode('S'),
        game_key(kind, k) == Some(GameInput::Fire) <==> kind == WindowKind::Invaders && k
            == DecodedKey::Unicode(' '),
{
}

/// A terminal takes printable characters at the end of its line, and backspace
/// takes them back; the enter key runs the line without the blanks around it,
/// shows it behind the prompt and begins an empty one. An empty line runs
/// nothing.
pub proof fn terminals_run_the_line(t: state::TerminalModel, c: char)
    requires
        t.input.len() < 240,
        c >= ' ',
        c != '\x7f',
    ensures
        ({
            let typed = terminal_key(t, DecodedKey::Unicode(c))->0;
            let back = terminal_key(typed.0, DecodedKey::Unicode('\x08'))->0;
            let (run, cmd) = terminal_key(t, DecodedKey::Unicode('\n'))->0;
            let line = text::trimmed(t.input);
            &&& typed.0.input == t.input.push(c) && typed.1 is None
            &&& back.0.input == t.input && back.1 is None
            &&& typed.0.scrollback == t.scrollback
            &&& run.input.len() == 0
            &&& line.len() > 0 ==> cmd == Some(line) && run.scrollback == t.scrollback.push(
                "os101$ "@ + line,
            )
            &&& line.len() == 0 ==> cmd is None
        }),
{
    assert(t.input.push(c).drop_last() =~= t.input);
}

/// What a command prints is shown line by line behind what was there, of which
/// the newest lines are kept; the clear mark empties the screen.
pub proof fn output_is_shown_below(t: state::TerminalModel, output: Seq<char>, i: int)
    requires
        output.len() > 0,
        output != clear_mark(),
    ensures
        terminal_shown(t, output).scrollback.len() <= 300,
        t.scrollback.len() + text::split(output, '\n').len() <= 300 ==> terminal_shown(
            t,
            output,
        ).scrollback == t.scrollback + text::split(output, '\n'),
        ({
            let all = t.scrollback + text::split(output, '\n');
            let kept = terminal_shown(t, output).scrollback;
            0 <= i < kept.len() ==> kept[kept.len() - 1 - i] == all[all.len() - 1 - i]
        }),
        terminal_shown(t, clear_mark()).scrollback.len() == 0,
        terminal_shown(t, output).input == t.input,
{
}

/// Escape leaves the desktop and F2 opens the launcher, whatever is open; no
/// other key leaves the desktop but through a window.
pub proof fn escape_leaves_the_desktop(d: DesktopModel, k: DecodedKey, ctrl: bool)
    ensures
        k == DecodedKey::Unicode('\x1b') || k == DecodedKey::RawKey(KeyCode::Escape) ==> key_step(
            d,
            k,
            ctrl,
        ) == (d, KeyOutcome::<Seq<char>>::Done(Some(WinAction::ExitGui))),
        key_step(d, k, ctrl).1 is OpenLauncher <==> k == DecodedKey::RawKey(KeyCode::F2),
        key_step(d, k, ctrl).1 == KeyOutcome::<Seq<char>>::Done(Some(WinAction::ExitGui)) ==> k
            == DecodedKey::Unicode('\x1b') || k == DecodedKey::RawKey(KeyCode::Escape),
{
}

} // verus!
