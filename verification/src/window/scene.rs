//! Drawing what the apps show, the windows around them and the desktop.

use vstd::prelude::*;
use vstd::string::*;

use crate::color;
use crate::color::Color;
use crate::text;
use crate::theme;
use crate::window::draw;
use crate::window::draw::{
    columns, draw_icon, draw_line, draw_text, emit, fill, least, minus, most, plus, stroke, times,
    Cmd, DrawCmd, Source,
};
use crate::window::files;
use crate::window::files::{
    fm_display_name, FD_LIST_Y0, FD_ROWS, FM_FILE_Y0, FM_ICON_X, FM_LG_CELL_H, FM_LG_CELL_W, FM_LG_COLS,
    FM_LG_ICON, FM_LG_VISIBLE, FM_LG_Y0, FM_ROWS, FM_ROW_H,
};
use crate::window::manager;
use crate::window::manager::{Desktop, DesktopModel};
use crate::window::metrics;
use crate::window::mouse;
use crate::window::mouse::{
    find_canvas_screen, tile_w, DESK_ICON_STEP, DESK_ICON_W, DESK_ICON_X0, DESK_ICON_Y0,
};
use crate::window::render;
use crate::window::render::{render_widget, ICON_FILL, ICON_SIZE, LINE_STEP};
use crate::window::state;
use crate::window::state::{
    AppModel, AppState, FileDialog, FileManager, Snake, Terminal, Window, WindowModel, BORDER,
    CLOSE_BTN, DESKBAR_H, FOOTER_H, TITLEBAR_H,
};
use crate::window::tick;
use crate::window::widget::{FmViewMode, Icon, Widget, WindowKind};

verus! {

pub const ICON_OUTLINE: Color = 0x0EA5E9;

pub const SNAKE_GRID_BG: Color = 0x0C4A6E;

pub const SNAKE_BODY: Color = 0x4ADE80;

pub const SNAKE_HEAD: Color = 0xBBF7D0;

pub const SNAKE_FOOD: Color = 0xFACC15;

pub const PAGE_BG: Color = 0xFBFCFD;

/// Text on a dark badge.
pub const BRIGHT: Color = 0xECFEFF;

/// What is selected in a list.
pub const SELECTED_BG: Color = 0x164E63;

/// How many kinds of window there are.
pub const KINDS: usize = 21;

/// The artwork, and what else the picture on screen depends on besides the
/// desktop itself.
pub struct Look {
    /// The icon of each kind of window, and the colour it goes by.
    pub kinds: Vec<(Icon, Color)>,
    /// The icons on the desktop, top to bottom.
    pub desktop: Vec<Icon>,
    pub apps: Icon,
    pub power: Icon,
    pub folder: Icon,
    pub file: Icon,
    /// The size of the embedded photograph, if it could be decoded.
    pub photo: Option<(usize, usize)>,
    /// The colours of the characters in the Code Editor.
    pub code: Vec<Color>,
}

impl Look {
    /// There is an icon for every kind of window and every desktop tile.
    pub open spec fn wf(self) -> bool {
        self.kinds@.len() == KINDS && self.desktop@.len() == 5
    }
}

pub open spec fn place_of(kind: WindowKind) -> int {
    match kind {
        WindowKind::Generic => 0,
        WindowKind::Launcher => 1,
        WindowKind::Calculator => 2,
        WindowKind::FileManager => 3,
        WindowKind::Terminal => 4,
        WindowKind::Monitor => 5,
        WindowKind::Notepad => 6,
        WindowKind::Paint => 7,
        WindowKind::Snake => 8,
        WindowKind::Breakout => 9,
        WindowKind::Abc => 10,
        WindowKind::Racing => 11,
        WindowKind::Invaders => 12,
        WindowKind::ImageView => 13,
        WindowKind::Settings => 14,
        WindowKind::About => 15,
        WindowKind::MyComputer => 16,
        WindowKind::Browser => 17,
        WindowKind::CodeEditor => 18,
        WindowKind::Installer => 19,
        WindowKind::FileDialog => 20,
    }
}

/// Where a kind of window stands in [`Look::kinds`].
pub fn kind_index(kind: WindowKind) -> (r: usize)
    ensures
        r == place_of(kind),
        r < KINDS,
{
    match kind {
        WindowKind::Generic => 0,
        WindowKind::Launcher => 1,
        WindowKind::Calculator => 2,
        WindowKind::FileManager => 3,
        WindowKind::Terminal => 4,
        WindowKind::Monitor => 5,
        WindowKind::Notepad => 6,
        WindowKind::Paint => 7,
        WindowKind::Snake => 8,
        WindowKind::Breakout => 9,
        WindowKind::Abc => 10,
        WindowKind::Racing => 11,
        WindowKind::Invaders => 12,
        WindowKind::ImageView => 13,
        WindowKind::Settings => 14,
        WindowKind::About => 15,
        WindowKind::MyComputer => 16,
        WindowKind::Browser => 17,
        WindowKind::CodeEditor => 18,
        WindowKind::Installer => 19,
        WindowKind::FileDialog => 20,
    }
}

// ── Snake ───────────────────────────────────────────────────────────────────

/// A canvas on screen: its place and size.
pub type Area = (usize, usize, usize, usize);

/// A cell of the grid, smaller than its place by `inset` on each side.
pub open spec fn cell_cmd(
    a: Area,
    cell: (usize, usize),
    at: (i16, i16),
    inset: usize,
    c: Color,
) -> Cmd {
    draw::fill_of(
        plus(plus(a.0, times(at.0 as usize, cell.0)), inset),
        plus(plus(a.1, times(at.1 as usize, cell.1)), inset),
        minus(cell.0, (inset + inset) as usize),
        minus(cell.1, (inset + inset) as usize),
        c,
    )
}

/// The parts of the snake from the `i`-th on, head first.
pub open spec fn body_cmds(
    a: Area,
    cell: (usize, usize),
    parts: Seq<(i16, i16)>,
    i: int,
) -> Seq<Cmd>
    decreases parts.len() - i,
{
    if i >= parts.len() {
        Seq::empty()
    } else {
        let rest = body_cmds(a, cell, parts, i + 1);
        if parts[i].0 < 0 || parts[i].1 < 0 {
            rest
        } else {
            seq![
                cell_cmd(
                    a,
                    cell,
                    parts[i],
                    1,
                    if i == 0 {
                        SNAKE_HEAD
                    } else {
                        SNAKE_BODY
                    },
                ),
            ] + rest
        }
    }
}

pub open spec fn snake_cmds(s: state::SnakeModel, a: Area) -> Seq<Cmd> {
    let cell = (
        a.2 / most(s.grid_w as usize, 1),
        a.3 / most(s.grid_h as usize, 1),
    );
    let ground = seq![
        draw::fill_of(a.0, a.1, a.2, a.3, SNAKE_GRID_BG),
        draw::stroke_of(a.0, a.1, a.2, a.3, theme::WINDOW_BORDER),
    ];
    let food = if s.food.0 >= 0 && s.food.1 >= 0 {
        seq![cell_cmd(a, cell, s.food, 2, SNAKE_FOOD)]
    } else {
        Seq::empty()
    };
    let over = if s.game_over {
        seq![
            draw::text_of(
                plus(a.0, 24),
                minus(plus(a.1, a.3 / 2), 8),
                "Oh no!  Tap Restart"@,
                0xFDE68A,
                SNAKE_GRID_BG,
                minus(a.2, 40),
            ),
        ]
    } else {
        Seq::empty()
    };
    ground + food + body_cmds(a, cell, s.snake, 0) + over
}

fn draw_cell(
    out: &mut Vec<DrawCmd>,
    a: Area,
    cell: (usize, usize),
    at: (i16, i16),
    inset: usize,
    c: Color,
)
    requires
        at.0 >= 0,
        at.1 >= 0,
        inset <= 2,
    ensures
        draw::drawn(final(out)@) == draw::drawn(old(out)@).push(cell_cmd(a, cell, at, inset, c)),
{
    fill(
        out,
        plus(plus(a.0, times(at.0 as usize, cell.0)), inset),
        plus(plus(a.1, times(at.1 as usize, cell.1)), inset),
        minus(cell.0, inset + inset),
        minus(cell.1, inset + inset),
        c,
    );
}

fn render_snake(out: &mut Vec<DrawCmd>, s: &Snake, a: Area)
    ensures
        draw::drawn(final(out)@) == draw::drawn(old(out)@) + snake_cmds(s@, a),
{
    let ghost base = draw::drawn(out@);
    let cell = (a.2 / most(s.grid_w as usize, 1), a.3 / most(s.grid_h as usize, 1));
    fill(out, a.0, a.1, a.2, a.3, SNAKE_GRID_BG);
    stroke(out, a.0, a.1, a.2, a.3, theme::WINDOW_BORDER);
    if s.food.0 >= 0 && s.food.1 >= 0 {
        draw_cell(out, a, cell, s.food, 2, SNAKE_FOOD);
    }
    let ghost ground = draw::drawn(out@);
    let ghost goal = ground + body_cmds(a, cell, s.snake@, 0);
    let mut i: usize = 0;
    while i < s.snake.len()
        invariant
            i <= s.snake@.len(),
            goal == draw::drawn(out@) + body_cmds(a, cell, s.snake@, i as int),
        decreases s.snake@.len() - i,
    {
        let ghost before = draw::drawn(out@);
        let (gx, gy) = s.snake[i];
        if gx >= 0 && gy >= 0 {
            let c = if i == 0 { SNAKE_HEAD } else { SNAKE_BODY };
            draw_cell(out, a, cell, (gx, gy), 1, c);
            assert(before + body_cmds(a, cell, s.snake@, i as int) =~= draw::drawn(out@)
                + body_cmds(a, cell, s.snake@, i + 1));
        }
        i = i + 1;
    }
    assert(draw::drawn(out@) =~= goal);
    if s.game_over {
        draw_text(
            out,
            plus(a.0, 24),
            minus(plus(a.1, a.3 / 2), 8),
            "Oh no!  Tap Restart",
            0xFDE68A,
            SNAKE_GRID_BG,
            minus(a.2, 40),
        );
    }
    assert(draw::drawn(out@) =~= base + snake_cmds(s@, a));
}

// ── Terminal ────────────────────────────────────────────────────────────────

/// A line cut into pieces of `cols` characters from its character `i` on.
pub open spec fn pieces(s: Seq<char>, i: int, cols: int) -> Seq<Seq<char>>
    decreases s.len() - i,
{
    if i >= s.len() || cols < 1 {
        Seq::empty()
    } else if i + cols < s.len() {
        seq![s.subrange(i, i + cols)] + pieces(s, i + cols, cols)
    } else {
        seq![s.subrange(i, s.len() as int)]
    }
}

/// A line as it is wrapped; an empty one takes a row too.
pub open spec fn wrapped(s: Seq<char>, cols: int) -> Seq<Seq<char>> {
    if s.len() == 0 {
        seq![s]
    } else {
        pieces(s, 0, cols)
    }
}

pub open spec fn all_wrapped(lines: Seq<Seq<char>>, cols: int) -> Seq<Seq<char>>
    decreases lines.len(),
{
    if lines.len() == 0 {
        Seq::empty()
    } else {
        all_wrapped(lines.drop_last(), cols) + wrapped(lines.last(), cols)
    }
}

fn push_wrapped(rows: &mut Vec<String>, s: &str, cols: usize)
    requires
        cols >= 1,
    ensures
        text::strings(final(rows)@) == text::strings(old(rows)@) + wrapped(s@, cols as int),
{
    let ghost before = text::strings(rows@);
    let chars = text::chars_of(s);
    if chars.len() == 0 {
        rows.push(s.to_owned());
        assert(text::strings(rows@) =~= before + wrapped(s@, cols as int));
        return;
    }
    let mut i: usize = 0;
    while i < chars.len()
        invariant
            i <= chars@.len(),
            cols >= 1,
            text::strings(rows@) + pieces(chars@, i as int, cols as int) == before + pieces(
                chars@,
                0,
                cols as int,
            ),
        decreases chars@.len() - i,
    {
        let ghost now = text::strings(rows@);
        let e: usize = if cols < chars.len() - i { i + cols } else { chars.len() };
        let piece = text::string_between(chars.as_slice(), i, e);
        rows.push(piece);
        proof {
            assert(text::strings(rows@) =~= now.push(piece@));
            assert(now + pieces(chars@, i as int, cols as int) =~= text::strings(rows@) + pieces(
                chars@,
                e as int,
                cols as int,
            ));
        }
        i = e;
    }
    assert(text::strings(rows@) =~= before + wrapped(s@, cols as int));
}

/// One row of the terminal, and the cursor behind the last row.
pub open spec fn term_row(
    row: Seq<char>,
    prompt: bool,
    cursor: bool,
    x: usize,
    y: usize,
    width: usize,
    right: usize,
) -> Seq<Cmd> {
    let fg = if prompt && text::has_prefix(row, "os101$"@) {
        theme::SUCCESS
    } else {
        theme::CONSOLE_TEXT
    };
    let cx = plus(x, columns(row.len() as usize));
    seq![draw::text_of(x, y, row, fg, theme::CONSOLE_BG, width)] + if cursor && plus(
        cx,
        metrics::CHAR_W,
    ) <= right {
        seq![draw::fill_of(cx, y, metrics::CHAR_W, metrics::ROW_H, theme::CONSOLE_TEXT)]
    } else {
        Seq::empty()
    }
}

/// The rows from the `i`-th on, the first of them at `y`, as far as they fit
/// above `bottom`. Those from `first_prompt` on are the line being typed.
pub open spec fn term_rows(
    rows: Seq<Seq<char>>,
    first_prompt: int,
    blink: bool,
    i: int,
    y: usize,
    a: Area,
) -> Seq<Cmd>
    decreases rows.len() - i,
{
    let bottom = minus(plus(a.1, a.3), 6);
    if i >= rows.len() || y + metrics::ROW_H > bottom {
        Seq::empty()
    } else {
        term_row(
            rows[i],
            i >= first_prompt,
            blink && i == rows.len() - 1,
            plus(a.0, 6),
            y,
            minus(a.2, 12),
            minus(plus(a.0, a.2), 6),
        ) + term_rows(rows, first_prompt, blink, i + 1, plus(y, LINE_STEP), a)
    }
}

pub open spec fn term_cols(a: Area) -> int {
    most(minus(a.2, 12) / metrics::CHAR_W, 1) as int
}

/// The terminal: as many rows as fit, scrolled to the bottom.
pub open spec fn terminal_cmds(t: state::TerminalModel, a: Area) -> Seq<Cmd> {
    let cols = term_cols(a);
    let lines = all_wrapped(t.scrollback, cols);
    let rows = lines + wrapped("os101$ "@ + t.input, cols);
    let room = minus(a.3, 12) / LINE_STEP;
    seq![draw::fill_of(a.0, a.1, a.2, a.3, theme::CONSOLE_BG)] + term_rows(
        rows,
        lines.len() as int,
        t.blink_on,
        minus(rows.len() as usize, room) as int,
        plus(a.1, 6),
        a,
    )
}

fn render_term_row(
    out: &mut Vec<DrawCmd>,
    row: &String,
    prompt: bool,
    cursor: bool,
    x: usize,
    y: usize,
    width: usize,
    right: usize,
)
    ensures
        draw::drawn(final(out)@) == draw::drawn(old(out)@) + term_row(
            row@,
            prompt,
            cursor,
            x,
            y,
            width,
            right,
        ),
{
    let fg = if prompt && text::starts_with(row.as_str(), "os101$") {
        theme::SUCCESS
    } else {
        theme::CONSOLE_TEXT
    };
    draw_text(out, x, y, row.as_str(), fg, theme::CONSOLE_BG, width);
    if cursor {
        let cx = plus(x, columns(row.as_str().unicode_len()));
        if plus(cx, metrics::char_w()) <= right {
            fill(out, cx, y, metrics::char_w(), metrics::row_h(), theme::CONSOLE_TEXT);
        }
    }
    assert(draw::drawn(out@) =~= draw::drawn(old(out)@) + term_row(
        row@,
        prompt,
        cursor,
        x,
        y,
        width,
        right,
    ));
}

fn terminal_rows(t: &Terminal, cols: usize) -> (r: (Vec<String>, usize))
    requires
        cols >= 1,
    ensures
        ({
            let lines = all_wrapped(t@.scrollback, cols as int);
            text::strings(r.0@) == lines + wrapped("os101$ "@ + t@.input, cols as int) && r.1
                == lines.len()
        }),
{
    let mut rows: Vec<String> = Vec::new();
    let ghost sb = text::strings(t.scrollback@);
    let mut k: usize = 0;
    assert(sb.take(0) =~= Seq::empty());
    assert(text::strings(rows@) =~= all_wrapped(sb.take(0), cols as int));
    while k < t.scrollback.len()
        invariant
            k <= t.scrollback@.len(),
            cols >= 1,
            sb == text::strings(t.scrollback@),
            text::strings(rows@) == all_wrapped(sb.take(k as int), cols as int),
        decreases t.scrollback@.len() - k,
    {
        push_wrapped(&mut rows, t.scrollback[k].as_str(), cols);
        assert(sb.take(k + 1).drop_last() =~= sb.take(k as int));
        assert(sb.take(k + 1).last() == sb[k as int]);
        k = k + 1;
    }
    assert(sb.take(k as int) =~= sb);
    let first_prompt: usize = rows.len();
    assert(text::strings(rows@).len() == rows@.len());
    let mut prompt = "os101$ ".to_owned();
    prompt.append(t.input.as_str());
    push_wrapped(&mut rows, prompt.as_str(), cols);
    (rows, first_prompt)
}

#[verifier::rlimit(60)]
fn render_terminal(out: &mut Vec<DrawCmd>, t: &Terminal, a: Area)
    ensures
        draw::drawn(final(out)@) == draw::drawn(old(out)@) + terminal_cmds(t@, a),
{
    let ghost base = draw::drawn(out@);
    fill(out, a.0, a.1, a.2, a.3, theme::CONSOLE_BG);
    let width = minus(a.2, 12);
    let cols = most(width / metrics::char_w(), 1);
    let (rows, first_prompt) = terminal_rows(t, cols);
    let ghost rs = text::strings(rows@);
    let room: usize = minus(a.3, 12) / LINE_STEP;
    let start = minus(rows.len(), room);
    let bottom = minus(plus(a.1, a.3), 6);
    let right = minus(plus(a.0, a.2), 6);
    let blink = t.blink_on;
    let mut i = start;
    let mut y = plus(a.1, 6);
    let ghost goal = draw::drawn(out@) + term_rows(
        rs,
        first_prompt as int,
        blink,
        i as int,
        y,
        a,
    );
    while i < rows.len() && bottom >= metrics::ROW_H && y <= bottom - metrics::ROW_H
        invariant
            i <= rows@.len(),
            rs == text::strings(rows@),
            bottom == minus(plus(a.1, a.3), 6),
            right == minus(plus(a.0, a.2), 6),
            width == minus(a.2, 12),
            goal == draw::drawn(out@) + term_rows(
                rs,
                first_prompt as int,
                blink,
                i as int,
                y,
                a,
            ),
        decreases rows@.len() - i,
    {
        let ghost before = draw::drawn(out@);
        let last = i == rows.len() - 1;
        render_term_row(
            out,
            &rows[i],
            i >= first_prompt,
            blink && last,
            plus(a.0, 6),
            y,
            width,
            right,
        );
        proof {
            let head = term_row(
                rs[i as int],
                i >= first_prompt,
                blink && last,
                plus(a.0, 6),
                y,
                width,
                right,
            );
            let rest = term_rows(rs, first_prompt as int, blink, i + 1, plus(y, LINE_STEP), a);
            assert(before + (head + rest) =~= (before + head) + rest);
        }
        y = plus(y, LINE_STEP);
        i = i + 1;
    }
    assert(draw::drawn(out@) =~= goal);
    assert(draw::drawn(out@) =~= base + terminal_cmds(t@, a));
}

// ── Lists of files ──────────────────────────────────────────────────────────

pub open spec fn entry_icon(e: Seq<char>, look: Look) -> Icon {
    if text::has_suffix(e, "/"@) {
        look.folder
    } else {
        look.file
    }
}

fn icon_for_entry(e: &String, look: &Look) -> (r: Icon)
    ensures
        r == entry_icon(e@, *look),
{
    if text::ends_with(e.as_str(), "/") {
        look.folder
    } else {
        look.file
    }
}

/// A place in the content that is never left of or above the screen.
pub open spec fn content_at(w: WindowModel) -> (usize, usize) {
    (
        state::at_least(files::origin(w).0, 0) as usize,
        state::at_least(files::origin(w).1, 0) as usize,
    )
}

fn content_corner(win: &Window) -> (r: (usize, usize))
    requires
        win@.wf(),
    ensures
        r == content_at(win@),
        r.0 <= 0x200_0000,
        r.1 <= 0x200_0000,
{
    let (ox, oy) = win.content_origin();
    (
        if ox > 0 {
            ox as usize
        } else {
            0
        },
        if oy > 0 {
            oy as usize
        } else {
            0
        },
    )
}

/// The icon of the `i`-th row of a list.
pub open spec fn row_icon(
    x: usize,
    oy: usize,
    y0: usize,
    e: Seq<char>,
    i: int,
    look: Look,
) -> Cmd {
    draw::icon_of(
        x,
        (oy + y0 + i * FM_ROW_H + 1) as usize,
        ICON_SIZE,
        entry_icon(e, look),
        ICON_OUTLINE,
        ICON_FILL,
        theme::ACCENT,
    )
}

/// The icons beside the rows of a list from the `i`-th on.
pub open spec fn list_cmds(
    o: (usize, usize),
    entries: Seq<Seq<char>>,
    i: int,
    look: Look,
) -> Seq<Cmd>
    decreases FM_ROWS - i,
{
    if i >= entries.len() || i >= FM_ROWS {
        Seq::empty()
    } else {
        seq![row_icon((o.0 + FM_ICON_X) as usize, o.1, FM_FILE_Y0, entries[i], i, look)]
            + list_cmds(o, entries, i + 1, look)
    }
}

fn render_list(out: &mut Vec<DrawCmd>, o: (usize, usize), entries: &Vec<String>, look: &Look)
    requires
        o.0 <= 0x200_0000,
        o.1 <= 0x200_0000,
    ensures
        draw::drawn(final(out)@) == draw::drawn(old(out)@) + list_cmds(
            o,
            text::strings(entries@),
            0,
            *look,
        ),
{
    let ghost es = text::strings(entries@);
    let ghost goal = draw::drawn(out@) + list_cmds(o, es, 0, *look);
    let mut i: usize = 0;
    while i < entries.len() && i < FM_ROWS
        invariant
            o.0 <= 0x200_0000,
            o.1 <= 0x200_0000,
            i <= FM_ROWS,
            es == text::strings(entries@),
            goal == draw::drawn(out@) + list_cmds(o, es, i as int, *look),
        decreases FM_ROWS - i,
    {
        let ghost before = draw::drawn(out@);
        let icon = icon_for_entry(&entries[i], look);
        draw_icon(
            out,
            o.0 + FM_ICON_X,
            o.1 + FM_FILE_Y0 + i * FM_ROW_H + 1,
            ICON_SIZE,
            icon,
            ICON_OUTLINE,
            ICON_FILL,
            theme::ACCENT,
        );
        assert(before + list_cmds(o, es, i as int, *look) =~= draw::drawn(out@) + list_cmds(
            o,
            es,
            i + 1,
            *look,
        ));
        i = i + 1;
    }
    assert(draw::drawn(out@) =~= goal);
}

/// One large icon with its name under it.
pub open spec fn tile_cmds(
    o: (usize, usize),
    e: Seq<char>,
    i: int,
    selected: bool,
    look: Look,
) -> Seq<Cmd> {
    let x = (o.0 + 10 + (i % FM_LG_COLS as int) * FM_LG_CELL_W) as usize;
    let y = (o.1 + FM_LG_Y0 + (i / FM_LG_COLS as int) * FM_LG_CELL_H) as usize;
    let icon = entry_icon(e, look);
    let short = text::first(files::base_name(e), 10);
    let mark = if selected {
        seq![
            draw::fill_of(x, y, 100, 88, SELECTED_BG),
            draw::stroke_of(x, y, 100, 88, theme::ACCENT),
        ]
    } else {
        Seq::empty()
    };
    mark + seq![
        draw::icon_of(
            (x + 30) as usize,
            (y + 8) as usize,
            FM_LG_ICON,
            icon,
            ICON_OUTLINE,
            ICON_FILL,
            icon.accent,
        ),
        draw::text_of(
            plus(x, minus(100, columns(short.len() as usize)) / 2),
            (y + 54) as usize,
            short,
            theme::TEXT,
            if selected {
                SELECTED_BG
            } else {
                theme::WINDOW_BG
            },
            96,
        ),
    ]
}

fn render_tile(
    out: &mut Vec<DrawCmd>,
    o: (usize, usize),
    e: &String,
    i: usize,
    selected: bool,
    look: &Look,
)
    requires
        o.0 <= 0x200_0000,
        o.1 <= 0x200_0000,
        i < FM_LG_VISIBLE,
    ensures
        draw::drawn(final(out)@) == draw::drawn(old(out)@) + tile_cmds(
            o,
            e@,
            i as int,
            selected,
            *look,
        ),
{
    let x: usize = o.0 + 10 + (i % FM_LG_COLS) * FM_LG_CELL_W;
    let y: usize = o.1 + FM_LG_Y0 + (i / FM_LG_COLS) * FM_LG_CELL_H;
    if selected {
        fill(out, x, y, 100, 88, SELECTED_BG);
        stroke(out, x, y, 100, 88, theme::ACCENT);
    }
    let icon = icon_for_entry(e, look);
    draw_icon(out, x + 30, y + 8, FM_LG_ICON, icon, ICON_OUTLINE, ICON_FILL, icon.accent);
    let name = fm_display_name(e.as_str());
    let short = text::first_chars(name.as_str(), 10);
    let nx = plus(x, minus(100, columns(short.as_str().unicode_len())) / 2);
    let bg = if selected { SELECTED_BG } else { theme::WINDOW_BG };
    draw_text(out, nx, y + 54, short.as_str(), theme::TEXT, bg, 96);
    assert(draw::drawn(out@) =~= draw::drawn(old(out)@) + tile_cmds(
        o,
        e@,
        i as int,
        selected,
        *look,
    ));
}

pub open spec fn tiles_cmds(
    o: (usize, usize),
    entries: Seq<Seq<char>>,
    selected: Option<usize>,
    i: int,
    look: Look,
) -> Seq<Cmd>
    decreases FM_LG_VISIBLE - i,
{
    if i >= entries.len() || i >= FM_LG_VISIBLE {
        Seq::empty()
    } else {
        tile_cmds(o, entries[i], i, selected == Some(i as usize), look) + tiles_cmds(
            o,
            entries,
            selected,
            i + 1,
            look,
        )
    }
}

fn chosen(selected: Option<usize>, i: usize) -> (r: bool)
    ensures
        r == (selected == Some(i)),
{
    match selected {
        Some(s) => s == i,
        None => false,
    }
}

fn render_tiles(
    out: &mut Vec<DrawCmd>,
    o: (usize, usize),
    entries: &Vec<String>,
    selected: Option<usize>,
    look: &Look,
)
    requires
        o.0 <= 0x200_0000,
        o.1 <= 0x200_0000,
    ensures
        draw::drawn(final(out)@) == draw::drawn(old(out)@) + tiles_cmds(
            o,
            text::strings(entries@),
            selected,
            0,
            *look,
        ),
{
    let ghost es = text::strings(entries@);
    let ghost goal = draw::drawn(out@) + tiles_cmds(o, es, selected, 0, *look);
    let mut i: usize = 0;
    while i < entries.len() && i < FM_LG_VISIBLE
        invariant
            o.0 <= 0x200_0000,
            o.1 <= 0x200_0000,
            i <= FM_LG_VISIBLE,
            es == text::strings(entries@),
            goal == draw::drawn(out@) + tiles_cmds(o, es, selected, i as int, *look),
        decreases FM_LG_VISIBLE - i,
    {
        let ghost before = draw::drawn(out@);
        let here = chosen(selected, i);
        render_tile(out, o, &entries[i], i, here, look);
        proof {
            let a = tile_cmds(o, es[i as int], i as int, here, *look);
            let b = tiles_cmds(o, es, selected, i + 1, *look);
            assert(before + (a + b) =~= (before + a) + b);
        }
        i = i + 1;
    }
    assert(draw::drawn(out@) =~= goal);
}

/// The rows of a file dialog from the `i`-th on.
pub open spec fn dialog_cmds(
    o: (usize, usize),
    w: usize,
    entries: Seq<Seq<char>>,
    selected: Option<usize>,
    i: int,
    look: Look,
) -> Seq<Cmd>
    decreases FD_ROWS - i,
{
    if i >= entries.len() || i >= FD_ROWS {
        Seq::empty()
    } else {
        let mark = if selected == Some(i as usize) {
            seq![
                draw::fill_of(
                    (o.0 + 8) as usize,
                    (o.1 + FD_LIST_Y0 + i * FM_ROW_H) as usize,
                    minus(w, 20),
                    FM_ROW_H,
                    SELECTED_BG,
                ),
            ]
        } else {
            Seq::empty()
        };
        mark.push(row_icon((o.0 + 10) as usize, o.1, FD_LIST_Y0, entries[i], i, look))
            + dialog_cmds(o, w, entries, selected, i + 1, look)
    }
}

fn render_dialog(
    out: &mut Vec<DrawCmd>,
    o: (usize, usize),
    w: usize,
    entries: &Vec<String>,
    selected: Option<usize>,
    look: &Look,
)
    requires
        o.0 <= 0x200_0000,
        o.1 <= 0x200_0000,
    ensures
        draw::drawn(final(out)@) == draw::drawn(old(out)@) + dialog_cmds(
            o,
            w,
            text::strings(entries@),
            selected,
            0,
            *look,
        ),
{
    let ghost es = text::strings(entries@);
    let ghost goal = draw::drawn(out@) + dialog_cmds(o, w, es, selected, 0, *look);
    let mut i: usize = 0;
    while i < entries.len() && i < FD_ROWS
        invariant
            o.0 <= 0x200_0000,
            o.1 <= 0x200_0000,
            i <= FD_ROWS,
            es == text::strings(entries@),
            goal == draw::drawn(out@) + dialog_cmds(o, w, es, selected, i as int, *look),
        decreases FD_ROWS - i,
    {
        let ghost before = draw::drawn(out@);
        let top: usize = o.1 + FD_LIST_Y0 + i * FM_ROW_H;
        if chosen(selected, i) {
            fill(out, o.0 + 8, top, minus(w, 20), FM_ROW_H, SELECTED_BG);
        }
        let icon = icon_for_entry(&entries[i], look);
        draw_icon(
            out,
            o.0 + 10,
            top + 1,
            ICON_SIZE,
            icon,
            ICON_OUTLINE,
            ICON_FILL,
            theme::ACCENT,
        );
        assert(before + dialog_cmds(o, w, es, selected, i as int, *look) =~= draw::drawn(out@)
            + dialog_cmds(o, w, es, selected, i + 1, *look));
        i = i + 1;
    }
    assert(draw::drawn(out@) =~= goal);
}

// ── Apps ────────────────────────────────────────────────────────────────────

/// The photograph in the middle of its canvas, cut off at the edges.
pub open spec fn photo_cmds(a: Area, photo: Option<(usize, usize)>) -> Seq<Cmd> {
    seq![
        draw::fill_of(a.0, a.1, a.2, a.3, theme::FIELD_BG),
        match photo {
            Some((pw, ph)) => DrawCmd::Blit {
                x: plus(a.0, minus(a.2, pw) / 2),
                y: plus(a.1, minus(a.3, ph) / 2),
                w: least(pw, a.2),
                h: least(ph, a.3),
                stride: pw,
                from: Source::Photograph,
            },
            None => draw::text_of(
                plus(a.0, 10),
                plus(a.1, a.3 / 2),
                "(failed to decode embedded BMP)"@,
                theme::WARNING,
                theme::FIELD_BG,
                minus(a.2, 20),
            ),
        },
    ]
}

/// The page, or what to do while there is none.
pub open spec fn page_cmds(a: Area, page: bool, id: u64) -> Seq<Cmd> {
    if page {
        seq![DrawCmd::Engine { x: a.0, y: a.1, w: a.2, h: a.3, id }]
    } else {
        seq![
            draw::fill_of(a.0, a.1, a.2, a.3, PAGE_BG),
            draw::text_of(
                plus(a.0, 4),
                plus(a.1, 4),
                "Type words to search, or an address to go there."@,
                theme::TEXT_MUTED,
                PAGE_BG,
                minus(a.2, 8),
            ),
            draw::text_of(
                plus(a.0, 4),
                plus(a.1, 20),
                "Run `net up` in the shell first if nothing loads."@,
                theme::TEXT_MUTED,
                PAGE_BG,
                minus(a.2, 8),
            ),
        ]
    }
}

/// What an app draws into its window; without a canvas, an app that needs
/// one draws nothing.
#[verifier::opaque]
pub open spec fn app_cmds(w: WindowModel, look: Look) -> Seq<Cmd> {
    let canvas = mouse::canvas_on_screen(w);
    match w.app {
        AppModel::FileManager(f) => match f.view_mode {
            FmViewMode::List => list_cmds(content_at(w), f.entries, 0, look),
            FmViewMode::LargeIcons => tiles_cmds(content_at(w), f.entries, f.selected, 0, look),
        },
        AppModel::FileDialog(f) => dialog_cmds(
            content_at(w),
            w.w,
            f.entries,
            f.selected,
            0,
            look,
        ),
        _ => match canvas {
            None => Seq::empty(),
            Some(a) => match w.app {
                AppModel::Browser(b) => page_cmds(a, b.page is Some, w.id),
                AppModel::Paint(p) => seq![
                    DrawCmd::Blit {
                        x: a.0,
                        y: a.1,
                        w: least(p.cw, a.2),
                        h: least(p.ch, a.3),
                        stride: p.cw,
                        from: Source::Window(w.id),
                    },
                ],
                AppModel::Snake(s) => snake_cmds(s, a),
                AppModel::Breakout(_) => seq![engine_cmd(a, w.id)],
                AppModel::Abc => seq![engine_cmd(a, w.id)],
                AppModel::Racing(_) => seq![engine_cmd(a, w.id)],
                AppModel::Invaders(_) => seq![engine_cmd(a, w.id)],
                AppModel::Terminal(t) => terminal_cmds(t, a),
                AppModel::ImageView => photo_cmds(a, look.photo),
                _ => Seq::empty(),
            },
        },
    }
}

pub open spec fn engine_cmd(a: Area, id: u64) -> Cmd {
    DrawCmd::Engine { x: a.0, y: a.1, w: a.2, h: a.3, id }
}

fn render_photo(out: &mut Vec<DrawCmd>, a: Area, photo: Option<(usize, usize)>)
    ensures
        draw::drawn(final(out)@) == draw::drawn(old(out)@) + photo_cmds(a, photo),
{
    fill(out, a.0, a.1, a.2, a.3, theme::FIELD_BG);
    match photo {
        Some((pw, ph)) => {
            emit(
                out,
                DrawCmd::Blit {
                    x: plus(a.0, minus(a.2, pw) / 2),
                    y: plus(a.1, minus(a.3, ph) / 2),
                    w: least(pw, a.2),
                    h: least(ph, a.3),
                    stride: pw,
                    from: Source::Photograph,
                },
            );
        },
        None => {
            draw_text(
                out,
                plus(a.0, 10),
                plus(a.1, a.3 / 2),
                "(failed to decode embedded BMP)",
                theme::WARNING,
                theme::FIELD_BG,
                minus(a.2, 20),
            );
        },
    }
    assert(draw::drawn(out@) =~= draw::drawn(old(out)@) + photo_cmds(a, photo));
}

fn render_browser(out: &mut Vec<DrawCmd>, a: Area, page: bool, id: u64)
    ensures
        draw::drawn(final(out)@) == draw::drawn(old(out)@) + page_cmds(a, page, id),
{
    if page {
        emit(out, DrawCmd::Engine { x: a.0, y: a.1, w: a.2, h: a.3, id });
    } else {
        fill(out, a.0, a.1, a.2, a.3, PAGE_BG);
        draw_text(
            out,
            plus(a.0, 4),
            plus(a.1, 4),
            "Type words to search, or an address to go there.",
            theme::TEXT_MUTED,
            PAGE_BG,
            minus(a.2, 8),
        );
        draw_text(
            out,
            plus(a.0, 4),
            plus(a.1, 20),
            "Run `net up` in the shell first if nothing loads.",
            theme::TEXT_MUTED,
            PAGE_BG,
            minus(a.2, 8),
        );
    }
    assert(draw::drawn(out@) =~= draw::drawn(old(out)@) + page_cmds(a, page, id));
}

#[verifier::rlimit(60)]
pub fn render_app(out: &mut Vec<DrawCmd>, win: &Window, look: &Look)
    requires
        win@.wf(),
    ensures
        draw::drawn(final(out)@) == draw::drawn(old(out)@) + app_cmds(win@, *look),
{
    proof {
        reveal(app_cmds);
    }
    let ghost base = draw::drawn(out@);
    let canvas = find_canvas_screen(win);
    match (&win.app, canvas) {
        (AppState::FileManager(f), _) => {
            let o = content_corner(win);
            match f.view_mode {
                FmViewMode::List => render_list(out, o, &f.entries, look),
                FmViewMode::LargeIcons => render_tiles(out, o, &f.entries, f.selected, look),
            }
        },
        (AppState::FileDialog(f), _) => {
            let o = content_corner(win);
            render_dialog(out, o, win.w, &f.entries, f.selected, look);
        },
        (AppState::Browser(b), Some(a)) => {
            render_browser(out, a, b.page.is_some(), win.id);
        },
        (AppState::Paint(p), Some(a)) => {
            emit(
                out,
                DrawCmd::Blit {
                    x: a.0,
                    y: a.1,
                    w: least(p.cw, a.2),
                    h: least(p.ch, a.3),
                    stride: p.cw,
                    from: Source::Window(win.id),
                },
            );
        },
        (AppState::Snake(s), Some(a)) => {
            render_snake(out, s, a);
        },
        (AppState::Breakout(_), Some(a)) => {
            emit(out, DrawCmd::Engine { x: a.0, y: a.1, w: a.2, h: a.3, id: win.id });
        },
        (AppState::Abc, Some(a)) => {
            emit(out, DrawCmd::Engine { x: a.0, y: a.1, w: a.2, h: a.3, id: win.id });
        },
        (AppState::Racing(_), Some(a)) => {
            emit(out, DrawCmd::Engine { x: a.0, y: a.1, w: a.2, h: a.3, id: win.id });
        },
        (AppState::Invaders(_), Some(a)) => {
            emit(out, DrawCmd::Engine { x: a.0, y: a.1, w: a.2, h: a.3, id: win.id });
        },
        (AppState::Terminal(t), Some(a)) => {
            render_terminal(out, t, a);
        },
        (AppState::ImageView, Some(a)) => {
            render_photo(out, a, look.photo);
        },
        _ => {},
    }
    assert(draw::drawn(out@) =~= base + app_cmds(win@, *look));
}

// ── Windows ─────────────────────────────────────────────────────────────────

/// A titlebar button; one that is off the left or top edge is not drawn.
pub open spec fn chrome_cmds(x: int, y: int, bg: Color, glyph: Seq<Cmd>) -> Seq<Cmd> {
    if x < 0 || y < 0 {
        Seq::empty()
    } else {
        seq![
            draw::fill_of(x as usize, y as usize, CLOSE_BTN, CLOSE_BTN, bg),
            draw::stroke_of(x as usize, y as usize, CLOSE_BTN, CLOSE_BTN, color::darker(bg, 30)),
        ] + glyph
    }
}

/// A short bar.
pub open spec fn min_glyph(x: int, y: int) -> Seq<Cmd> {
    seq![draw::fill_of((x + 3) as usize, (y + 7) as usize, 8, 2, BRIGHT)]
}

/// Two squares, one over the other.
pub open spec fn mid_glyph(x: int, y: int) -> Seq<Cmd> {
    seq![
        draw::stroke_of((x + 3) as usize, (y + 4) as usize, 7, 7, BRIGHT),
        draw::stroke_of((x + 5) as usize, (y + 2) as usize, 7, 7, BRIGHT),
    ]
}

/// One square.
pub open spec fn max_glyph(x: int, y: int) -> Seq<Cmd> {
    seq![draw::stroke_of((x + 3) as usize, (y + 3) as usize, 8, 8, BRIGHT)]
}

/// A cross.
pub open spec fn close_glyph(x: int, y: int) -> Seq<Cmd> {
    seq![
        draw::line_of((x + 2) as i32, (y + 2) as i32, (x + 11) as i32, (y + 11) as i32, BRIGHT),
        draw::line_of((x + 11) as i32, (y + 2) as i32, (x + 2) as i32, (y + 11) as i32, BRIGHT),
    ]
}

/// The four titlebar buttons, left to right.
#[verifier::opaque]
pub open spec fn buttons_cmds(w: WindowModel) -> Seq<Cmd> {
    let y = w.y + 5;
    let x3 = state::chrome_x(w, 3);
    let x2 = state::chrome_x(w, 2);
    let x1 = state::chrome_x(w, 1);
    let x0 = state::chrome_x(w, 0);
    chrome_cmds(x3, y, 0x334155, min_glyph(x3, y)) + chrome_cmds(x2, y, 0x334155, mid_glyph(x2, y))
        + chrome_cmds(x1, y, 0x334155, max_glyph(x1, y)) + chrome_cmds(
        x0,
        y,
        theme::CLOSE_BUTTON,
        close_glyph(x0, y),
    )
}

fn render_chrome(out: &mut Vec<DrawCmd>, x: usize, y: usize, bg: Color)
    ensures
        draw::drawn(final(out)@) == draw::drawn(old(out)@).push(
            draw::fill_of(x, y, CLOSE_BTN, CLOSE_BTN, bg),
        ).push(draw::stroke_of(x, y, CLOSE_BTN, CLOSE_BTN, color::darker(bg, 30))),
{
    fill(out, x, y, CLOSE_BTN, CLOSE_BTN, bg);
    stroke(out, x, y, CLOSE_BTN, CLOSE_BTN, color::darken(bg, 30));
}

fn render_min(out: &mut Vec<DrawCmd>, x: i32, y: i32)
    requires
        x <= 0x200_0000,
        y <= 0x200_0000,
    ensures
        draw::drawn(final(out)@) == draw::drawn(old(out)@) + chrome_cmds(
            x as int,
            y as int,
            0x334155,
            min_glyph(x as int, y as int),
        ),
{
    if x >= 0 && y >= 0 {
        render_chrome(out, x as usize, y as usize, 0x334155);
        fill(out, x as usize + 3, y as usize + 7, 8, 2, BRIGHT);
    }
    assert(draw::drawn(out@) =~= draw::drawn(old(out)@) + chrome_cmds(
        x as int,
        y as int,
        0x334155,
        min_glyph(x as int, y as int),
    ));
}

fn render_mid(out: &mut Vec<DrawCmd>, x: i32, y: i32)
    requires
        x <= 0x200_0000,
        y <= 0x200_0000,
    ensures
        draw::drawn(final(out)@) == draw::drawn(old(out)@) + chrome_cmds(
            x as int,
            y as int,
            0x334155,
            mid_glyph(x as int, y as int),
        ),
{
    if x >= 0 && y >= 0 {
        render_chrome(out, x as usize, y as usize, 0x334155);
        stroke(out, x as usize + 3, y as usize + 4, 7, 7, BRIGHT);
        stroke(out, x as usize + 5, y as usize + 2, 7, 7, BRIGHT);
    }
    assert(draw::drawn(out@) =~= draw::drawn(old(out)@) + chrome_cmds(
        x as int,
        y as int,
        0x334155,
        mid_glyph(x as int, y as int),
    ));
}

fn render_max(out: &mut Vec<DrawCmd>, x: i32, y: i32)
    requires
        x <= 0x200_0000,
        y <= 0x200_0000,
    ensures
        draw::drawn(final(out)@) == draw::drawn(old(out)@) + chrome_cmds(
            x as int,
            y as int,
            0x334155,
            max_glyph(x as int, y as int),
        ),
{
    if x >= 0 && y >= 0 {
        render_chrome(out, x as usize, y as usize, 0x334155);
        stroke(out, x as usize + 3, y as usize + 3, 8, 8, BRIGHT);
    }
    assert(draw::drawn(out@) =~= draw::drawn(old(out)@) + chrome_cmds(
        x as int,
        y as int,
        0x334155,
        max_glyph(x as int, y as int),
    ));
}

fn render_close(out: &mut Vec<DrawCmd>, x: i32, y: i32)
    requires
        x <= 0x200_0000,
        y <= 0x200_0000,
    ensures
        draw::drawn(final(out)@) == draw::drawn(old(out)@) + chrome_cmds(
            x as int,
            y as int,
            theme::CLOSE_BUTTON,
            close_glyph(x as int, y as int),
        ),
{
    if x >= 0 && y >= 0 {
        render_chrome(out, x as usize, y as usize, theme::CLOSE_BUTTON);
        draw_line(out, x + 2, y + 2, x + 11, y + 11, BRIGHT);
        draw_line(out, x + 11, y + 2, x + 2, y + 11, BRIGHT);
    }
    assert(draw::drawn(out@) =~= draw::drawn(old(out)@) + chrome_cmds(
        x as int,
        y as int,
        theme::CLOSE_BUTTON,
        close_glyph(x as int, y as int),
    ));
}

fn render_buttons(out: &mut Vec<DrawCmd>, win: &Window)
    requires
        win@.wf(),
    ensures
        draw::drawn(final(out)@) == draw::drawn(old(out)@) + buttons_cmds(win@),
{
    proof {
        reveal(buttons_cmds);
    }
    let (x, y, _, _) = win.min_btn_rect();
    render_min(out, x, y);
    let (x, y, _, _) = win.mid_btn_rect();
    render_mid(out, x, y);
    let (x, y, _, _) = win.max_btn_rect();
    render_max(out, x, y);
    let (x, y, _, _) = win.close_btn_rect();
    render_close(out, x, y);
    assert(draw::drawn(out@) =~= draw::drawn(old(out)@) + buttons_cmds(win@));
}

/// The colours of a titlebar, top and bottom; that of the window in front
/// takes on the colour its kind goes by.
pub open spec fn title_colors(is_top: bool, accent: Color) -> (Color, Color) {
    if is_top {
        (
            color::lighter(color::blend(theme::TITLEBAR_ACTIVE, accent, 35), 4),
            color::darker(theme::TITLEBAR_ACTIVE, 6),
        )
    } else {
        (theme::TITLEBAR_INACTIVE, color::darker(theme::TITLEBAR_INACTIVE, 4))
    }
}

/// Shadow, background, titlebar, border, icon and title.
#[verifier::opaque]
pub open spec fn frame_cmds(w: WindowModel, is_top: bool, look: Look) -> Seq<Cmd> {
    let sx = state::at_least(w.x as int, 0) as usize;
    let sy = state::at_least(w.y as int, 0) as usize;
    let (icon, accent) = look.kinds@[place_of(w.kind)];
    let (top, bottom) = title_colors(is_top, accent);
    let shadow = if is_top {
        seq![draw::fill_of((sx + 3) as usize, (sy + 3) as usize, w.w, w.h, theme::WINDOW_SHADOW)]
    } else {
        Seq::empty()
    };
    let left = (sx + 27) as usize;
    shadow + seq![
        draw::fill_of(sx, sy, w.w, w.h, theme::WINDOW_BG),
        DrawCmd::Gradient { x: sx, y: sy, w: w.w, h: TITLEBAR_H, top, bottom },
        draw::fill_of(
            sx,
            (sy + TITLEBAR_H) as usize,
            w.w,
            1,
            color::darker(
                theme::ACCENT,
                if is_top {
                    0
                } else {
                    50
                },
            ),
        ),
        draw::stroke_of(
            sx,
            sy,
            w.w,
            w.h,
            if is_top {
                theme::WINDOW_BORDER_ACTIVE
            } else {
                theme::WINDOW_BORDER
            },
        ),
        draw::icon_of(
            (sx + 5) as usize,
            (sy + 5) as usize,
            ICON_SIZE,
            icon,
            ICON_OUTLINE,
            ICON_FILL,
            accent,
        ),
        draw::text_of(
            left,
            (sy + 5) as usize,
            w.title,
            if is_top {
                theme::TITLEBAR_TEXT
            } else {
                theme::TITLEBAR_TEXT_INACTIVE
            },
            if is_top {
                theme::TITLEBAR_ACTIVE
            } else {
                theme::TITLEBAR_INACTIVE
            },
            minus((sx + minus(w.w, 80)) as usize, left),
        ),
    ]
}

#[verifier::spinoff_prover]
#[verifier::rlimit(60)]
fn render_frame(out: &mut Vec<DrawCmd>, win: &Window, is_top: bool, look: &Look)
    requires
        win@.wf(),
        look.wf(),
    ensures
        draw::drawn(final(out)@) == draw::drawn(old(out)@) + frame_cmds(win@, is_top, *look),
{
    proof {
        reveal(frame_cmds);
    }
    let sx: usize = if win.x > 0 { win.x as usize } else { 0 };
    let sy: usize = if win.y > 0 { win.y as usize } else { 0 };
    if is_top {
        fill(out, sx + 3, sy + 3, win.w, win.h, theme::WINDOW_SHADOW);
    }
    fill(out, sx, sy, win.w, win.h, theme::WINDOW_BG);
    let tb_bg = if is_top { theme::TITLEBAR_ACTIVE } else { theme::TITLEBAR_INACTIVE };
    let (icon, accent) = look.kinds[kind_index(win.kind)];
    let (top, bottom) = if is_top {
        (color::lighten(color::lerp(tb_bg, accent, 35), 4), color::darken(tb_bg, 6))
    } else {
        (tb_bg, color::darken(tb_bg, 4))
    };
    emit(out, DrawCmd::Gradient { x: sx, y: sy, w: win.w, h: TITLEBAR_H, top, bottom });
    let dim: u32 = if is_top { 0 } else { 50 };
    fill(out, sx, sy + TITLEBAR_H, win.w, 1, color::darken(theme::ACCENT, dim));
    let border = if is_top { theme::WINDOW_BORDER_ACTIVE } else { theme::WINDOW_BORDER };
    stroke(out, sx, sy, win.w, win.h, border);
    draw_icon(out, sx + 5, sy + 5, ICON_SIZE, icon, ICON_OUTLINE, ICON_FILL, accent);
    let left: usize = sx + 27;
    let room = minus(sx + minus(win.w, 80), left);
    let fg = if is_top { theme::TITLEBAR_TEXT } else { theme::TITLEBAR_TEXT_INACTIVE };
    draw_text(out, left, sy + 5, win.title.as_str(), fg, tb_bg, room);
    assert(draw::drawn(out@) =~= draw::drawn(old(out)@) + frame_cmds(win@, is_top, *look));
}

/// The widgets from the `i`-th up to the `j`-th.
pub open spec fn widgets_cmds(w: WindowModel, i: int, j: int, colors: Seq<Color>) -> Seq<Cmd>
    decreases j - i,
{
    if i >= j {
        Seq::empty()
    } else {
        render::widget_cmds(
            (files::origin(w).0 as i32, files::origin(w).1 as i32),
            minus(w.w, 4),
            w.widgets[i],
            w.focused_widget == Some(i as usize),
            w.kind == WindowKind::Notepad,
            colors,
        ) + widgets_cmds(w, i + 1, j, colors)
    }
}

fn render_widgets(out: &mut Vec<DrawCmd>, win: &Window, from: usize, to: usize, colors: &[Color])
    requires
        win@.wf(),
        from <= to <= win@.widgets.len(),
    ensures
        draw::drawn(final(out)@) == draw::drawn(old(out)@) + widgets_cmds(
            win@,
            from as int,
            to as int,
            colors@,
        ),
{
    let origin = win.content_origin();
    let content_w = minus(win.w, 4);
    let paper = win.kind == WindowKind::Notepad;
    let ghost goal = draw::drawn(out@) + widgets_cmds(win@, from as int, to as int, colors@);
    let mut i = from;
    while i < to
        invariant
            i <= to <= win@.widgets.len(),
            origin == (files::origin(win@).0 as i32, files::origin(win@).1 as i32),
            content_w == minus(win@.w, 4),
            paper == (win@.kind == WindowKind::Notepad),
            goal == draw::drawn(out@) + widgets_cmds(win@, i as int, to as int, colors@),
        decreases to - i,
    {
        let ghost before = draw::drawn(out@);
        let focused = chosen(win.focused_widget, i);
        render_widget(out, origin, content_w, &win.widgets[i], focused, paper, colors);
        proof {
            let a = render::widget_cmds(
                origin,
                content_w,
                win@.widgets[i as int],
                focused,
                paper,
                colors@,
            );
            let b = widgets_cmds(win@, i + 1, to as int, colors@);
            assert(before + (a + b) =~= (before + a) + b);
        }
        i = i + 1;
    }
    assert(draw::drawn(out@) =~= goal);
}

/// The place behind the first canvas from `i` on, or behind all widgets.
/// What comes after the canvas, such as a context menu, is drawn over what
/// the app draws.
pub open spec fn overlay_from(ws: Seq<Widget<Seq<char>>>, i: int) -> int
    decreases ws.len() - i,
{
    if i >= ws.len() {
        ws.len() as int
    } else if ws[i] is Canvas {
        i + 1
    } else {
        overlay_from(ws, i + 1)
    }
}

fn overlay(win: &Window) -> (r: usize)
    ensures
        r == overlay_from(win@.widgets, 0),
        r <= win@.widgets.len(),
{
    let mut i: usize = 0;
    while i < win.widgets.len()
        invariant
            i <= win.widgets@.len(),
            overlay_from(win@.widgets, 0) == overlay_from(win@.widgets, i as int),
        decreases win.widgets@.len() - i,
    {
        assert(win@.widgets[i as int] == win.widgets@[i as int]@);
        match win.widgets[i] {
            Widget::Canvas { .. } => {
                return i + 1;
            },
            _ => {},
        }
        i = i + 1;
    }
    i
}

/// The status band at the bottom.
#[verifier::opaque]
pub open spec fn footer_cmds(w: WindowModel) -> Seq<Cmd> {
    let sx = state::at_least(w.x as int, 0);
    let sy = state::at_least(w.y as int, 0);
    let paper = w.kind == WindowKind::Notepad;
    match w.footer {
        Some(t) if w.h > 48 => {
            let x = (sx + BORDER) as usize;
            let y = (sy + w.h - 22) as usize;
            let fw = minus(w.w, 4);
            let bg: Color = if paper {
                0xF1F5F9
            } else {
                0x020617
            };
            seq![
                draw::fill_of(x, y, fw, FOOTER_H, bg),
                draw::line_of(
                    x as i32,
                    y as i32,
                    (x + fw - 1) as i32,
                    y as i32,
                    if paper {
                        0xCBD5E1
                    } else {
                        theme::WINDOW_BORDER
                    },
                ),
                draw::text_of(
                    (x + 8) as usize,
                    (y + 2) as usize,
                    t,
                    if paper {
                        0x334155
                    } else {
                        theme::TEXT_MUTED
                    },
                    bg,
                    minus(fw, 16),
                ),
            ]
        },
        _ => Seq::empty(),
    }
}

fn render_footer(out: &mut Vec<DrawCmd>, win: &Window)
    requires
        win@.wf(),
    ensures
        draw::drawn(final(out)@) == draw::drawn(old(out)@) + footer_cmds(win@),
{
    proof {
        reveal(footer_cmds);
    }
    let paper = win.kind == WindowKind::Notepad;
    let bg = if paper { 0xF1F5F9 } else { 0x020617 };
    match &win.footer {
        Some(t) => {
            if win.h > 48 {
                let x: usize = (if win.x > 0 { win.x as usize } else { 0 }) + BORDER;
                let y: usize = (if win.y > 0 { win.y as usize } else { 0 }) + win.h - 22;
                let fw = minus(win.w, 4);
                fill(out, x, y, fw, FOOTER_H, bg);
                let rule = if paper { 0xCBD5E1 } else { theme::WINDOW_BORDER };
                draw_line(out, x as i32, y as i32, (x + fw) as i32 - 1, y as i32, rule);
                let fg = if paper { 0x334155 } else { theme::TEXT_MUTED };
                draw_text(out, x + 8, y + 2, t.as_str(), fg, bg, minus(fw, 16));
            }
        },
        None => {},
    }
    assert(draw::drawn(out@) =~= draw::drawn(old(out)@) + footer_cmds(win@));
}

/// A window and everything in it; one that lies wholly left of or above the
/// screen is not drawn.
#[verifier::opaque]
pub open spec fn window_cmds(w: WindowModel, is_top: bool, look: Look) -> Seq<Cmd> {
    let over = overlay_from(w.widgets, 0);
    if w.x + w.w <= 0 || w.y + w.h <= 0 {
        Seq::empty()
    } else {
        frame_cmds(w, is_top, look) + buttons_cmds(w) + widgets_cmds(w, 0, over, look.code@)
            + app_cmds(w, look) + widgets_cmds(w, over, w.widgets.len() as int, look.code@)
            + footer_cmds(w)
    }
}

pub fn render_window(out: &mut Vec<DrawCmd>, win: &Window, is_top: bool, look: &Look)
    requires
        win@.wf(),
        look.wf(),
    ensures
        draw::drawn(final(out)@) == draw::drawn(old(out)@) + window_cmds(win@, is_top, *look),
{
    proof {
        reveal(window_cmds);
    }
    let ghost base = draw::drawn(out@);
    if win.x + win.w as i32 <= 0 || win.y + win.h as i32 <= 0 {
        assert(draw::drawn(out@) =~= base + window_cmds(win@, is_top, *look));
        return;
    }
    let over = overlay(win);
    let colors = look.code.as_slice();
    render_frame(out, win, is_top, look);
    render_buttons(out, win);
    render_widgets(out, win, 0, over, colors);
    render_app(out, win, look);
    render_widgets(out, win, over, win.widgets.len(), colors);
    render_footer(out, win);
    proof {
        let a = frame_cmds(win@, is_top, *look);
        let b = buttons_cmds(win@);
        let c = widgets_cmds(win@, 0, over as int, look.code@);
        let d = app_cmds(win@, *look);
        let e = widgets_cmds(win@, over as int, win@.widgets.len() as int, look.code@);
        let f = footer_cmds(win@);
        assert(base + a + b + c + d + e + f =~= base + (a + b + c + d + e + f));
    }
}

// ── The desktop ─────────────────────────────────────────────────────────────

/// The icons on the desktop, top to bottom: the label, and the kind of window
/// that lends its colour.
pub open spec fn desktop_tile(i: int) -> (Seq<char>, WindowKind) {
    if i == 0 {
        ("My Computer"@, WindowKind::MyComputer)
    } else if i == 1 {
        ("Files"@, WindowKind::FileManager)
    } else if i == 2 {
        ("Web"@, WindowKind::Browser)
    } else if i == 3 {
        ("Apps"@, WindowKind::Launcher)
    } else {
        ("Install"@, WindowKind::Installer)
    }
}

/// A badge with an icon, and the label on a plate of its own under it.
pub open spec fn desktop_icon_cmds(
    x: usize,
    y: usize,
    label: Seq<char>,
    icon: Icon,
    accent: Color,
) -> Seq<Cmd> {
    let bx = plus(x, 24);
    let lw = columns(label.len() as usize);
    let plate = least(plus(lw, 16), DESK_ICON_W);
    let px = plus(x, minus(DESK_ICON_W, plate) / 2);
    let py = plus(y, 72);
    seq![
        draw::fill_of(bx, y, 64, 64, 0x111827),
        draw::stroke_of(bx, y, 64, 64, accent),
        draw::stroke_of(plus(bx, 2), plus(y, 2), 60, 60, color::darker(accent, 35)),
        draw::icon_of(
            plus(bx, 8),
            plus(y, 8),
            48,
            icon,
            accent,
            ICON_FILL,
            color::lighter(accent, 40),
        ),
        draw::fill_of(px, py, plate, 22, 0x0F172A),
        draw::stroke_of(px, py, plate, 22, color::darker(accent, 20)),
        draw::text_of(
            plus(px, minus(plate, lw) / 2),
            plus(py, 3),
            label,
            BRIGHT,
            0x0F172A,
            plate,
        ),
    ]
}

fn draw_desktop_icon(
    out: &mut Vec<DrawCmd>,
    x: usize,
    y: usize,
    label: &str,
    icon: Icon,
    accent: Color,
)
    ensures
        draw::drawn(final(out)@) == draw::drawn(old(out)@) + desktop_icon_cmds(
            x,
            y,
            label@,
            icon,
            accent,
        ),
{
    let bx = plus(x, 24);
    fill(out, bx, y, 64, 64, 0x111827);
    stroke(out, bx, y, 64, 64, accent);
    stroke(out, plus(bx, 2), plus(y, 2), 60, 60, color::darken(accent, 35));
    draw_icon(
        out,
        plus(bx, 8),
        plus(y, 8),
        48,
        icon,
        accent,
        ICON_FILL,
        color::lighten(accent, 40),
    );
    let lw = columns(label.unicode_len());
    let plate = least(plus(lw, 16), DESK_ICON_W);
    let px = plus(x, minus(DESK_ICON_W, plate) / 2);
    let py = plus(y, 72);
    fill(out, px, py, plate, 22, 0x0F172A);
    stroke(out, px, py, plate, 22, color::darken(accent, 20));
    draw_text(
        out,
        plus(px, minus(plate, lw) / 2),
        plus(py, 3),
        label,
        BRIGHT,
        0x0F172A,
        plate,
    );
    assert(draw::drawn(out@) =~= draw::drawn(old(out)@) + desktop_icon_cmds(
        x,
        y,
        label@,
        icon,
        accent,
    ));
}

/// The desktop icons from the `i`-th on.
pub open spec fn desktop_icons(i: int, look: Look) -> Seq<Cmd>
    decreases 5 - i,
{
    if i >= 5 {
        Seq::empty()
    } else {
        desktop_icon_cmds(
            DESK_ICON_X0,
            (DESK_ICON_Y0 + i * DESK_ICON_STEP) as usize,
            desktop_tile(i).0,
            look.desktop@[i],
            look.kinds@[place_of(desktop_tile(i).1)].1,
        ) + desktop_icons(i + 1, look)
    }
}

pub open spec fn desktop_cmds(screen: (usize, usize), dark: bool, look: Look) -> Seq<Cmd> {
    seq![DrawCmd::Wallpaper { w: screen.0, h: minus(screen.1, DESKBAR_H), dark }] + desktop_icons(
        0,
        look,
    )
}

fn paint_desktop(out: &mut Vec<DrawCmd>, screen: (usize, usize), dark: bool, look: &Look)
    requires
        look.wf(),
    ensures
        draw::drawn(final(out)@) == draw::drawn(old(out)@) + desktop_cmds(screen, dark, *look),
{
    let ghost base = draw::drawn(out@);
    emit(out, DrawCmd::Wallpaper { w: screen.0, h: minus(screen.1, DESKBAR_H), dark });
    let ghost goal = draw::drawn(out@) + desktop_icons(0, *look);
    let mut i: usize = 0;
    while i < 5
        invariant
            i <= 5,
            look.wf(),
            goal == draw::drawn(out@) + desktop_icons(i as int, *look),
        decreases 5 - i,
    {
        let ghost before = draw::drawn(out@);
        let (label, kind) = match i {
            0 => ("My Computer", WindowKind::MyComputer),
            1 => ("Files", WindowKind::FileManager),
            2 => ("Web", WindowKind::Browser),
            3 => ("Apps", WindowKind::Launcher),
            _ => ("Install", WindowKind::Installer),
        };
        let accent = look.kinds[kind_index(kind)].1;
        let icon = look.desktop[i];
        draw_desktop_icon(out, DESK_ICON_X0, DESK_ICON_Y0 + i * DESK_ICON_STEP, label, icon, accent);
        proof {
            let a = desktop_icon_cmds(
                DESK_ICON_X0,
                (DESK_ICON_Y0 + i * DESK_ICON_STEP) as usize,
                label@,
                icon,
                accent,
            );
            let b = desktop_icons(i + 1, *look);
            assert(before + (a + b) =~= (before + a) + b);
        }
        i = i + 1;
    }
    assert(draw::drawn(out@) =~= base + desktop_cmds(screen, dark, *look));
}

/// A minimized window on the taskbar.
#[verifier::opaque]
pub open spec fn task_cmds(w: WindowModel, x: usize, bar: usize, look: Look) -> Seq<Cmd> {
    let tw = mouse::tile_width(w.title) as usize;
    let (icon, accent) = look.kinds@[place_of(w.kind)];
    seq![
        draw::fill_of(x, (bar + 4) as usize, tw, 32, theme::TASKBAR_ITEM_ACTIVE),
        draw::stroke_of(x, (bar + 4) as usize, tw, 32, theme::ACCENT),
        draw::icon_of(
            (x + 7) as usize,
            (bar + 10) as usize,
            20,
            icon,
            ICON_OUTLINE,
            ICON_FILL,
            accent,
        ),
        draw::text_of(
            (x + 33) as usize,
            (bar + 12) as usize,
            text::first(w.title, 10),
            theme::STATUS_TEXT,
            theme::TASKBAR_ITEM_ACTIVE,
            minus(tw, 38),
        ),
    ]
}

/// The tiles of the minimized windows from the `i`-th on, the first of them
/// at `x`. Tiles stop where the clock begins.
pub open spec fn tasks_cmds(
    ws: Seq<WindowModel>,
    i: int,
    x: int,
    screen: (usize, usize),
    look: Look,
) -> Seq<Cmd>
    decreases ws.len() - i,
{
    if i >= ws.len() {
        Seq::empty()
    } else if !ws[i].minimized {
        tasks_cmds(ws, i + 1, x, screen, look)
    } else {
        let tw = mouse::tile_width(ws[i].title);
        if x + tw + 160 > screen.0 {
            Seq::empty()
        } else {
            task_cmds(ws[i], x as usize, minus(screen.1, DESKBAR_H), look) + tasks_cmds(
                ws,
                i + 1,
                x + tw + 8,
                screen,
                look,
            )
        }
    }
}

fn render_task(out: &mut Vec<DrawCmd>, win: &Window, x: usize, bar: usize, look: &Look)
    requires
        look.wf(),
        x <= 0x200_0000,
        bar <= 0x200_0000,
    ensures
        draw::drawn(final(out)@) == draw::drawn(old(out)@) + task_cmds(win@, x, bar, *look),
{
    proof {
        reveal(task_cmds);
    }
    let title = text::first_chars(win.title.as_str(), 10);
    let tw = tile_w(win.title.as_str());
    fill(out, x, bar + 4, tw, 32, theme::TASKBAR_ITEM_ACTIVE);
    stroke(out, x, bar + 4, tw, 32, theme::ACCENT);
    let (icon, accent) = look.kinds[kind_index(win.kind)];
    draw_icon(out, x + 7, bar + 10, 20, icon, ICON_OUTLINE, ICON_FILL, accent);
    draw_text(
        out,
        x + 33,
        bar + 12,
        title.as_str(),
        theme::STATUS_TEXT,
        theme::TASKBAR_ITEM_ACTIVE,
        minus(tw, 38),
    );
    assert(draw::drawn(out@) =~= draw::drawn(old(out)@) + task_cmds(win@, x, bar, *look));
}

fn render_tasks(out: &mut Vec<DrawCmd>, desk: &Desktop, look: &Look)
    requires
        desk@.wf(),
        look.wf(),
    ensures
        draw::drawn(final(out)@) == draw::drawn(old(out)@) + tasks_cmds(
            desk@.wm.windows,
            0,
            278,
            desk@.screen,
            *look,
        ),
{
    let ghost ws = desk@.wm.windows;
    let screen = desk.screen;
    let bar = minus(screen.1, DESKBAR_H);
    let ghost goal = draw::drawn(out@) + tasks_cmds(ws, 0, 278, screen, *look);
    let mut i: usize = 0;
    let mut x: usize = 278;
    while i < desk.wm.windows.len()
        invariant
            i <= desk.wm.windows@.len(),
            ws == desk@.wm.windows,
            screen == desk@.screen,
            screen.0 <= state::SPAN,
            bar == minus(screen.1, DESKBAR_H),
            bar <= state::SPAN,
            look.wf(),
            goal == draw::drawn(old(out)@) + tasks_cmds(ws, 0, 278, screen, *look),
            278 <= x <= 0x100_0200,
            goal == draw::drawn(out@) + tasks_cmds(ws, i as int, x as int, screen, *look),
        decreases desk.wm.windows@.len() - i,
    {
        let ghost before = draw::drawn(out@);
        assert(ws[i as int] == desk.wm.windows@[i as int]@);
        if desk.wm.windows[i].minimized {
            let tw = tile_w(desk.wm.windows[i].title.as_str());
            if x + tw + 160 > screen.0 {
                assert(draw::drawn(out@) =~= goal);
                return;
            }
            render_task(out, &desk.wm.windows[i], x, bar, look);
            proof {
                let a = task_cmds(ws[i as int], x, bar, *look);
                let b = tasks_cmds(ws, i + 1, x + tw + 8, screen, *look);
                assert(before + (a + b) =~= (before + a) + b);
            }
            x = x + tw + 8;
        }
        i = i + 1;
    }
    assert(draw::drawn(out@) =~= goal);
}

/// The bar itself and its two buttons.
#[verifier::opaque]
pub open spec fn bar_cmds(screen: (usize, usize), look: Look) -> Seq<Cmd> {
    let bar = minus(screen.1, DESKBAR_H);
    let by = (bar + 4) as usize;
    let iy = (bar + 10) as usize;
    let ly = (bar + 12) as usize;
    seq![
        draw::fill_of(0, bar, screen.0, DESKBAR_H, theme::TASKBAR_BG),
        draw::fill_of(0, bar, screen.0, 2, theme::TASKBAR_ACCENT),
        draw::fill_of(8, by, 148, 32, 0x164E63),
        draw::stroke_of(8, by, 148, 32, theme::ACCENT),
        draw::icon_of(18, iy, 20, look.apps, theme::ACCENT, ICON_FILL, BRIGHT),
        draw::text_of(44, ly, "Applications"@, BRIGHT, 0x164E63, 84),
        draw::fill_of(166, by, 100, 32, 0x7F1D1D),
        draw::stroke_of(166, by, 100, 32, 0xF43F5E),
        draw::icon_of(174, iy, 20, look.power, 0xFECACA, 0x7F1D1D, 0xF43F5E),
        draw::text_of(200, ly, "Shutdown"@, 0xFECACA, 0x7F1D1D, 62),
    ]
}

/// The wall clock and the time since boot.
pub open spec fn clock_line(clock: Seq<char>, ticks: u64) -> Seq<char> {
    clock + "  \u{b7}  "@ + tick::clock_text((ticks / tick::TICKS_PER_SEC) as nat)
}

pub open spec fn clock_cmds(screen: (usize, usize), line: Seq<char>) -> Seq<Cmd> {
    let bar = minus(screen.1, DESKBAR_H);
    let cw = columns(line.len() as usize);
    let cx = minus(screen.0, plus(cw, 18));
    seq![
        draw::fill_of(minus(cx, 10), (bar + 4) as usize, plus(cw, 20), 32, theme::TASKBAR_ITEM),
        draw::stroke_of(minus(cx, 10), (bar + 4) as usize, plus(cw, 20), 32, theme::WINDOW_BORDER),
        draw::text_of(
            cx,
            (bar + 12) as usize,
            line,
            theme::STATUS_TEXT,
            theme::TASKBAR_ITEM,
            plus(cw, 4),
        ),
    ]
}

pub open spec fn taskbar_cmds(d: DesktopModel, clock: Seq<char>, ticks: u64, look: Look) -> Seq<Cmd> {
    bar_cmds(d.screen, look) + tasks_cmds(d.wm.windows, 0, 278, d.screen, look) + clock_cmds(
        d.screen,
        clock_line(clock, ticks),
    )
}

fn render_bar(out: &mut Vec<DrawCmd>, screen: (usize, usize), look: &Look)
    requires
        screen.1 <= state::SPAN,
    ensures
        draw::drawn(final(out)@) == draw::drawn(old(out)@) + bar_cmds(screen, *look),
{
    proof {
        reveal(bar_cmds);
    }
    let bar = minus(screen.1, DESKBAR_H);
    let by: usize = bar + 4;
    fill(out, 0, bar, screen.0, DESKBAR_H, theme::TASKBAR_BG);
    fill(out, 0, bar, screen.0, 2, theme::TASKBAR_ACCENT);
    fill(out, 8, by, 148, 32, 0x164E63);
    stroke(out, 8, by, 148, 32, theme::ACCENT);
    draw_icon(out, 18, bar + 10, 20, look.apps, theme::ACCENT, ICON_FILL, BRIGHT);
    draw_text(out, 44, bar + 12, "Applications", BRIGHT, 0x164E63, 84);
    fill(out, 166, by, 100, 32, 0x7F1D1D);
    stroke(out, 166, by, 100, 32, 0xF43F5E);
    draw_icon(out, 174, bar + 10, 20, look.power, 0xFECACA, 0x7F1D1D, 0xF43F5E);
    draw_text(out, 200, bar + 12, "Shutdown", 0xFECACA, 0x7F1D1D, 62);
    assert(draw::drawn(out@) =~= draw::drawn(old(out)@) + bar_cmds(screen, *look));
}

fn paint_taskbar(out: &mut Vec<DrawCmd>, desk: &Desktop, clock: &str, ticks: u64, look: &Look)
    requires
        desk@.wf(),
        look.wf(),
    ensures
        draw::drawn(final(out)@) == draw::drawn(old(out)@) + taskbar_cmds(
            desk@,
            clock@,
            ticks,
            *look,
        ),
{
    let ghost base = draw::drawn(out@);
    let screen = desk.screen;
    render_bar(out, screen, look);
    render_tasks(out, desk, look);
    let ghost so_far = draw::drawn(out@);
    let mut line = clock.to_owned();
    line.append("  \u{b7}  ");
    tick::push_clock(&mut line, ticks / tick::TICKS_PER_SEC);
    assert(line@ =~= clock_line(clock@, ticks));
    let bar = minus(screen.1, DESKBAR_H);
    let cw = columns(line.as_str().unicode_len());
    let cx = minus(screen.0, plus(cw, 18));
    fill(out, minus(cx, 10), bar + 4, plus(cw, 20), 32, theme::TASKBAR_ITEM);
    stroke(out, minus(cx, 10), bar + 4, plus(cw, 20), 32, theme::WINDOW_BORDER);
    draw_text(
        out,
        cx,
        bar + 12,
        line.as_str(),
        theme::STATUS_TEXT,
        theme::TASKBAR_ITEM,
        plus(cw, 4),
    );
    proof {
        let a = bar_cmds(screen, *look);
        let b = tasks_cmds(desk@.wm.windows, 0, 278, screen, *look);
        let c = clock_cmds(screen, clock_line(clock@, ticks));
        assert(draw::drawn(out@) =~= so_far + c);
        assert(base + a + b + c =~= base + (a + b + c));
    }
}

/// The windows from the `i`-th on, bottom to top; hidden ones are left out.
pub open spec fn stack_cmds(ws: Seq<WindowModel>, i: int, top: int, look: Look) -> Seq<Cmd>
    decreases ws.len() - i,
{
    if i >= ws.len() {
        Seq::empty()
    } else if ws[i].minimized {
        stack_cmds(ws, i + 1, top, look)
    } else {
        window_cmds(ws[i], i == top, look) + stack_cmds(ws, i + 1, top, look)
    }
}

/// The whole screen: the desktop, the windows, and the taskbar over them, so
/// that it stays visible even under a window that overlaps it.
pub open spec fn screen_cmds(d: DesktopModel, clock: Seq<char>, ticks: u64, look: Look) -> Seq<Cmd> {
    desktop_cmds(d.screen, d.dark_theme, look) + stack_cmds(
        d.wm.windows,
        0,
        manager::top(d.wm),
        look,
    ) + taskbar_cmds(d, clock, ticks, look)
}

/// Everything on screen, in drawing order. `clock` is the wall clock as text.
pub fn render(desk: &Desktop, clock: &str, ticks: u64, look: &Look) -> (out: Vec<DrawCmd>)
    requires
        desk@.wf(),
        look.wf(),
    ensures
        draw::drawn(out@) == screen_cmds(desk@, clock@, ticks, *look),
{
    let mut out: Vec<DrawCmd> = Vec::new();
    assert(draw::drawn(out@) =~= Seq::empty());
    paint_desktop(&mut out, desk.screen, desk.dark_theme, look);
    let ghost a = desktop_cmds(desk@.screen, desk@.dark_theme, *look);
    assert(draw::drawn(out@) =~= a);
    let top = desk.wm.topmost_idx();
    let ghost t = manager::top(desk@.wm);
    let ghost ws = desk@.wm.windows;
    let ghost b = stack_cmds(ws, 0, t, *look);
    let mut i: usize = 0;
    while i < desk.wm.windows.len()
        invariant
            i <= desk.wm.windows@.len(),
            desk@.wf(),
            look.wf(),
            ws == desk@.wm.windows,
            top matches Some(k) ==> k == t,
            top is None ==> t < 0,
            a + b == draw::drawn(out@) + stack_cmds(ws, i as int, t, *look),
        decreases desk.wm.windows@.len() - i,
    {
        let ghost before = draw::drawn(out@);
        assert(ws[i as int] == desk.wm.windows@[i as int]@);
        assert(ws[i as int].wf());
        if !desk.wm.windows[i].minimized {
            let is_top = chosen(top, i);
            render_window(&mut out, &desk.wm.windows[i], is_top, look);
            proof {
                let x = window_cmds(ws[i as int], is_top, *look);
                let y = stack_cmds(ws, i + 1, t, *look);
                assert(before + (x + y) =~= (before + x) + y);
            }
        }
        i = i + 1;
    }
    assert(draw::drawn(out@) =~= a + b);
    paint_taskbar(&mut out, desk, clock, ticks, look);
    out
}

/// Fast path for button hover: only the window in front is drawn again.
pub fn render_top_window(desk: &Desktop, look: &Look) -> (out: Vec<DrawCmd>)
    requires
        desk@.wf(),
        look.wf(),
    ensures
        draw::drawn(out@) == (if manager::top(desk@.wm) >= 0 {
            window_cmds(desk@.wm.windows[manager::top(desk@.wm)], true, *look)
        } else {
            Seq::empty()
        }),
{
    let mut out: Vec<DrawCmd> = Vec::new();
    assert(draw::drawn(out@) =~= Seq::empty());
    if let Some(t) = desk.wm.topmost_idx() {
        assert(desk@.wm.windows[t as int] == desk.wm.windows@[t as int]@);
        assert(desk@.wm.windows[t as int].wf());
        render_window(&mut out, &desk.wm.windows[t], true, look);
        assert(draw::drawn(out@) =~= window_cmds(desk@.wm.windows[t as int], true, *look));
    }
    out
}

/// A minimized window leaves no trace but its tile: the stack is drawn as if
/// it were not there.
pub proof fn minimized_windows_are_not_drawn(ws: Seq<WindowModel>, i: int, top: int, look: Look)
    requires
        0 <= i < ws.len(),
        ws[i].minimized,
    ensures
        stack_cmds(ws, i, top, look) == stack_cmds(ws, i + 1, top, look),
{
}

/// Where a tile is drawn is where a click finds it.
pub proof fn tiles_are_where_they_are_drawn(
    ws: Seq<WindowModel>,
    i: int,
    x: int,
    screen: (usize, usize),
    px: int,
    look: Look,
)
    requires
        0 <= i < ws.len(),
        ws[i].minimized,
        0 <= x,
        x + mouse::tile_width(ws[i].title) + 160 <= screen.0,
        x <= px < x + mouse::tile_width(ws[i].title),
    ensures
        mouse::tile_from(ws, i, x, screen.0 as int, px) == i,
        tasks_cmds(ws, i, x, screen, look)[0] == draw::fill_of(
            x as usize,
            (minus(screen.1, DESKBAR_H) + 4) as usize,
            mouse::tile_width(ws[i].title) as usize,
            32,
            theme::TASKBAR_ITEM_ACTIVE,
        ),
{
    reveal(task_cmds);
}

} // verus!
