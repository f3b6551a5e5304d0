//! Drawing widgets, windows and the desktop.

use vstd::prelude::*;
use vstd::string::*;

use crate::color;
use crate::color::Color;
use crate::text;
use crate::theme;
use crate::window::draw;
use crate::window::draw::{
    centred, columns, draw_icon, draw_line, draw_text, emit, fill, least, minus, most, on_screen,
    plus, stroke, Cmd, DrawCmd,
};
use crate::window::editor;
use crate::window::metrics;
use crate::window::widget::{BtnState, Icon, Widget};

verus! {

/// The side of an icon at its own size.
pub const ICON_SIZE: usize = 16;

/// What icons are filled with.
pub const ICON_FILL: Color = 0x0B1220;

/// From one row of text to the next.
pub const LINE_STEP: usize = 18;

pub const FIELD_FOCUSED: Color = 0x083344;

pub const CODE_BG: Color = 0x1E1E2E;

pub const SELECTION_BG: Color = 0x264F78;

// ── Buttons ─────────────────────────────────────────────────────────────────

pub open spec fn button_bg(state: BtnState) -> Color {
    match state {
        BtnState::Normal => theme::BUTTON_BG,
        BtnState::Hover => theme::BUTTON_HOVER,
        BtnState::Pressed => theme::ACCENT_PRESSED,
    }
}

pub open spec fn button_border(state: BtnState) -> Color {
    match state {
        BtnState::Normal => color::darker(theme::BUTTON_BORDER, 30),
        BtnState::Hover => theme::BUTTON_BORDER,
        BtnState::Pressed => color::lighter(theme::ACCENT_PRESSED, 20),
    }
}

/// The size of the icon on a button this high.
pub open spec fn glyph_of(h: usize) -> usize {
    if h >= 56 {
        28
    } else if h >= 40 {
        22
    } else {
        ICON_SIZE
    }
}

/// An icon on its badge, and the label to the right of it.
pub open spec fn icon_and_label(
    sx: usize,
    sy: usize,
    w: usize,
    h: usize,
    label: Seq<char>,
    ic: Icon,
    bg: Color,
) -> Seq<Cmd> {
    let glyph = glyph_of(h);
    let ix = plus(sx, 10);
    let iy = plus(sy, minus(h, glyph) / 2);
    let badge = plus(glyph, 6);
    let left = plus(plus(ix, glyph), 12);
    seq![
        draw::fill_of(minus(ix, 3), minus(iy, 3), badge, badge, color::darker(ic.accent, 30)),
        draw::stroke_of(minus(ix, 3), minus(iy, 3), badge, badge, ic.accent),
        draw::icon_of(ix, iy, glyph, ic, ic.accent, ICON_FILL, color::lighter(ic.accent, 40)),
        draw::text_of(
            left,
            centred(sy, h),
            label,
            theme::BUTTON_TEXT,
            bg,
            minus(plus(sx, minus(w, 8)), left),
        ),
    ]
}

pub open spec fn button_cmds(
    sx: usize,
    sy: usize,
    w: usize,
    h: usize,
    label: Seq<char>,
    state: BtnState,
    icon: Option<Icon>,
) -> Seq<Cmd> {
    let bg = button_bg(state);
    let face = seq![
        draw::fill_of(sx, sy, w, h, bg),
        draw::stroke_of(sx, sy, w, h, button_border(state)),
    ];
    let bar = if state != BtnState::Normal {
        seq![draw::fill_of(sx, sy, 2, h, theme::ACCENT)]
    } else {
        Seq::empty()
    };
    let inside = match icon {
        Some(ic) if h >= 20 && w >= 31 => icon_and_label(sx, sy, w, h, label, ic, bg),
        _ => seq![
            draw::text_of(
                plus(sx, minus(w, columns(label.len() as usize)) / 2),
                centred(sy, h),
                label,
                theme::BUTTON_TEXT,
                bg,
                minus(w, 8),
            ),
        ],
    };
    face + bar + inside
}

#[verifier::rlimit(60)]
fn render_button(
    out: &mut Vec<DrawCmd>,
    sx: usize,
    sy: usize,
    w: usize,
    h: usize,
    label: &str,
    state: BtnState,
    icon: Option<Icon>,
)
    ensures
        draw::drawn(final(out)@) == draw::drawn(old(out)@) + button_cmds(
            sx,
            sy,
            w,
            h,
            label@,
            state,
            icon,
        ),
{
    let bg = match state {
        BtnState::Normal => theme::BUTTON_BG,
        BtnState::Hover => theme::BUTTON_HOVER,
        BtnState::Pressed => theme::ACCENT_PRESSED,
    };
    let border = match state {
        BtnState::Normal => color::darken(theme::BUTTON_BORDER, 30),
        BtnState::Hover => theme::BUTTON_BORDER,
        BtnState::Pressed => color::lighten(theme::ACCENT_PRESSED, 20),
    };
    fill(out, sx, sy, w, h, bg);
    stroke(out, sx, sy, w, h, border);
    if state != BtnState::Normal {
        fill(out, sx, sy, 2, h, theme::ACCENT);
    }
    match icon {
        Some(ic) => {
            if h >= 20 && w >= 24 + metrics::char_w() {
                let glyph: usize = if h >= 56 {
                    28
                } else if h >= 40 {
                    22
                } else {
                    ICON_SIZE
                };
                let ix = plus(sx, 10);
                let iy = plus(sy, minus(h, glyph) / 2);
                let badge = plus(glyph, 6);
                fill(out, minus(ix, 3), minus(iy, 3), badge, badge, color::darken(ic.accent, 30));
                stroke(out, minus(ix, 3), minus(iy, 3), badge, badge, ic.accent);
                draw_icon(
                    out,
                    ix,
                    iy,
                    glyph,
                    ic,
                    ic.accent,
                    ICON_FILL,
                    color::lighten(ic.accent, 40),
                );
                let left = plus(plus(ix, glyph), 12);
                let room = minus(plus(sx, minus(w, 8)), left);
                draw_text(out, left, centred(sy, h), label, theme::BUTTON_TEXT, bg, room);
                assert(draw::drawn(out@) =~= draw::drawn(old(out)@) + button_cmds(
                    sx,
                    sy,
                    w,
                    h,
                    label@,
                    state,
                    icon,
                ));
                return;
            }
        },
        None => {},
    }
    let lw = columns(label.unicode_len());
    draw_text(
        out,
        plus(sx, minus(w, lw) / 2),
        centred(sy, h),
        label,
        theme::BUTTON_TEXT,
        bg,
        minus(w, 8),
    );
    assert(draw::drawn(out@) =~= draw::drawn(old(out)@) + button_cmds(
        sx,
        sy,
        w,
        h,
        label@,
        state,
        icon,
    ));
}

// ── Text fields ─────────────────────────────────────────────────────────────

/// The end of a text, no more than `n` characters of it.
pub open spec fn tail(s: Seq<char>, n: int) -> Seq<char> {
    if s.len() > n {
        s.skip(s.len() - n)
    } else {
        s
    }
}

pub open spec fn field_bg(focused: bool) -> Color {
    if focused {
        FIELD_FOCUSED
    } else {
        theme::FIELD_BG
    }
}

pub open spec fn textbox_cmds(
    sx: usize,
    sy: usize,
    w: usize,
    h: usize,
    t: Seq<char>,
    focused: bool,
) -> Seq<Cmd> {
    let bg = field_bg(focused);
    let shown = tail(t, (minus(w, 8) / metrics::CHAR_W) as int);
    let tx = plus(sx, 4);
    let ty = centred(sy, h);
    let field = seq![
        draw::fill_of(sx, sy, w, h, bg),
        draw::stroke_of(sx, sy, w, h, theme::WINDOW_BORDER),
        draw::text_of(tx, ty, shown, theme::TEXT, bg, minus(w, 8)),
    ];
    if focused {
        field.push(
            draw::fill_of(
                plus(tx, columns(shown.len() as usize)),
                ty,
                1,
                metrics::ROW_H,
                theme::ACCENT,
            ),
        )
    } else {
        field
    }
}

fn render_textbox(
    out: &mut Vec<DrawCmd>,
    sx: usize,
    sy: usize,
    w: usize,
    h: usize,
    t: &str,
    focused: bool,
)
    ensures
        draw::drawn(final(out)@) == draw::drawn(old(out)@) + textbox_cmds(
            sx,
            sy,
            w,
            h,
            t@,
            focused,
        ),
{
    let bg = if focused { FIELD_FOCUSED } else { theme::FIELD_BG };
    fill(out, sx, sy, w, h, bg);
    stroke(out, sx, sy, w, h, theme::WINDOW_BORDER);
    let room: usize = minus(w, 8) / metrics::char_w();
    let chars = text::chars_of(t);
    let from: usize = minus(chars.len(), room);
    let shown = text::string_between(chars.as_slice(), from, chars.len());
    assert(shown@ =~= tail(t@, room as int));
    let tx = plus(sx, 4);
    let ty = centred(sy, h);
    draw_text(out, tx, ty, shown.as_str(), theme::TEXT, bg, minus(w, 8));
    if focused {
        let n: usize = chars.len() - from;
        fill(out, plus(tx, columns(n)), ty, 1, metrics::row_h(), theme::ACCENT);
    }
    assert(draw::drawn(out@) =~= draw::drawn(old(out)@) + textbox_cmds(sx, sy, w, h, t@, focused));
}

// ── Wrapped text ────────────────────────────────────────────────────────────

/// A text pane: where its rows begin, how many characters fit on one, the
/// edge below which no row is drawn, and the colours.
pub struct Pane {
    pub x: usize,
    pub max_chars: usize,
    pub max_y: usize,
    pub width: usize,
    pub fg: Color,
    pub bg: Color,
}

/// How far a pane has been filled: what was drawn, where the next row goes,
/// and where the last row was and how many characters it had.
#[verifier::ext_equal]
pub ghost struct Flow {
    pub cmds: Seq<Cmd>,
    pub y: usize,
    pub last_y: usize,
    pub last_n: usize,
}

/// Whether another row fits.
pub open spec fn fits(y: usize, max_y: usize) -> bool {
    y + metrics::ROW_H <= max_y
}

/// One line, from its character `i` on, cut into rows.
pub open spec fn line_flow(f: Flow, line: Seq<char>, i: int, p: Pane) -> Flow
    decreases usize::MAX - f.y,
{
    if i >= line.len() || !fits(f.y, p.max_y) {
        f
    } else {
        let e = if i + p.max_chars < line.len() {
            i + p.max_chars
        } else {
            line.len() as int
        };
        line_flow(
            Flow {
                cmds: f.cmds.push(
                    draw::text_of(p.x, f.y, line.subrange(i, e), p.fg, p.bg, p.width),
                ),
                y: plus(f.y, LINE_STEP),
                last_y: f.y,
                last_n: (e - i) as usize,
            },
            line,
            e,
            p,
        )
    }
}

/// Whole lines; an empty one takes a row and draws nothing.
pub open spec fn text_flow(f: Flow, lines: Seq<Seq<char>>, p: Pane) -> Flow
    decreases lines.len(),
{
    if lines.len() == 0 || !fits(f.y, p.max_y) {
        f
    } else if lines[0].len() == 0 {
        text_flow(
            Flow { y: plus(f.y, LINE_STEP), last_y: f.y, last_n: 0, ..f },
            lines.skip(1),
            p,
        )
    } else {
        text_flow(line_flow(f, lines[0], 0, p), lines.skip(1), p)
    }
}

/// Draw `t` into a pane from `y` down; the result is where the last row went
/// and how many characters it had.
#[verifier::rlimit(60)]
fn flow(out: &mut Vec<DrawCmd>, t: &str, y: usize, p: &Pane) -> (r: (usize, usize))
    ensures
        ({
            let f = text_flow(
                Flow { cmds: draw::drawn(old(out)@), y, last_y: y, last_n: 0 },
                text::split(t@, '\n'),
                *p,
            );
            draw::drawn(final(out)@) == f.cmds && r.0 == f.last_y && r.1 == f.last_n
        }),
{
    let lines = text::split_text(t, '\n');
    let ghost ls = text::strings(lines@);
    let ghost goal = text_flow(
        Flow { cmds: draw::drawn(out@), y, last_y: y, last_n: 0 },
        ls,
        *p,
    );
    let mut y = y;
    let mut last_y = y;
    let mut last_n: usize = 0;
    let mut k: usize = 0;
    assert(ls.skip(0) =~= ls);
    while k < lines.len() && p.max_y >= metrics::ROW_H && y <= p.max_y - metrics::ROW_H
        invariant
            k <= lines@.len(),
            ls == text::strings(lines@),
            goal == text_flow(
                Flow { cmds: draw::drawn(out@), y, last_y, last_n },
                ls.skip(k as int),
                *p,
            ),
        decreases lines@.len() - k,
    {
        let chars = text::chars_of(lines[k].as_str());
        let ghost f0 = Flow { cmds: draw::drawn(out@), y, last_y, last_n };
        proof {
            assert(ls.skip(k as int)[0] == ls[k as int]);
            assert(ls.skip(k as int).skip(1) =~= ls.skip(k + 1));
            assert(chars@ == ls[k as int]);
        }
        if chars.len() == 0 {
            last_n = 0;
            last_y = y;
            y = plus(y, LINE_STEP);
        } else {
            let ghost row = line_flow(f0, chars@, 0, *p);
            let mut i: usize = 0;
            while i < chars.len() && p.max_y >= metrics::ROW_H && y <= p.max_y - metrics::ROW_H
                invariant
                    i <= chars@.len(),
                    row == line_flow(
                        Flow { cmds: draw::drawn(out@), y, last_y, last_n },
                        chars@,
                        i as int,
                        *p,
                    ),
                decreases usize::MAX - y,
            {
                let e: usize = if p.max_chars < chars.len() - i {
                    i + p.max_chars
                } else {
                    chars.len()
                };
                let chunk = text::string_between(chars.as_slice(), i, e);
                draw_text(out, p.x, y, chunk.as_str(), p.fg, p.bg, p.width);
                last_n = e - i;
                last_y = y;
                y = plus(y, LINE_STEP);
                i = e;
            }
            assert(row == Flow { cmds: draw::drawn(out@), y, last_y, last_n });
        }
        k = k + 1;
    }
    (last_y, last_n)
}

/// The ruled lines of a sheet of paper from `y` down to `bottom`.
pub open spec fn rules(sx: usize, y: usize, w: usize, bottom: usize) -> Seq<Cmd>
    decreases usize::MAX - y,
{
    if y + 1 < bottom {
        seq![draw::fill_of(plus(sx, 4), y, minus(w, 8), 1, 0xE2E8F0)] + rules(
            sx,
            plus(y, LINE_STEP),
            w,
            bottom,
        )
    } else {
        Seq::empty()
    }
}

/// The colours of a text area: background, text and border. On paper it is
/// dark on cream.
pub open spec fn area_colors(focused: bool, paper: bool) -> (Color, Color, Color) {
    if paper {
        (
            0xFFFDF5,
            0x1E293B,
            if focused {
                theme::ACCENT
            } else {
                0xCBD5E1
            },
        )
    } else {
        (field_bg(focused), theme::TEXT, theme::WINDOW_BORDER)
    }
}

pub open spec fn area_pane(
    sx: usize,
    sy: usize,
    w: usize,
    h: usize,
    focused: bool,
    paper: bool,
) -> Pane {
    let left = if paper {
        34usize
    } else {
        4
    };
    let inner = minus(w, (left + 4) as usize);
    Pane {
        x: plus(sx, left),
        max_chars: inner / metrics::CHAR_W,
        max_y: plus(sy, minus(h, 4)),
        width: inner,
        fg: area_colors(focused, paper).1,
        bg: area_colors(focused, paper).0,
    }
}

pub open spec fn textarea_cmds(
    sx: usize,
    sy: usize,
    w: usize,
    h: usize,
    t: Seq<char>,
    focused: bool,
    paper: bool,
) -> Seq<Cmd> {
    let (bg, fg, border) = area_colors(focused, paper);
    let sheet = seq![draw::fill_of(sx, sy, w, h, bg), draw::stroke_of(sx, sy, w, h, border)] + if paper {
        rules(sx, plus(sy, 22), w, plus(sy, h)).push(
            draw::fill_of(plus(sx, 28), plus(sy, 4), 1, minus(h, 8), 0xFCA5A5),
        )
    } else {
        Seq::empty()
    };
    let p = area_pane(sx, sy, w, h, focused, paper);
    let y = plus(sy, 4);
    let f = text_flow(
        Flow { cmds: sheet, y, last_y: y, last_n: 0 },
        text::split(t, '\n'),
        p,
    );
    let cx = plus(p.x, columns(f.last_n));
    if focused && cx + 1 < minus(plus(sx, w), 2) {
        f.cmds.push(
            draw::fill_of(
                cx,
                f.last_y,
                2,
                metrics::ROW_H,
                if paper {
                    0x0F172A
                } else {
                    theme::ACCENT
                },
            ),
        )
    } else {
        f.cmds
    }
}

/// What was drawn before does not change how a text is laid out.
proof fn line_flow_shift(base: Seq<Cmd>, f: Flow, line: Seq<char>, i: int, p: Pane)
    ensures
        line_flow(Flow { cmds: base + f.cmds, ..f }, line, i, p) == (Flow {
            cmds: base + line_flow(f, line, i, p).cmds,
            ..line_flow(f, line, i, p)
        }),
    decreases usize::MAX - f.y,
{
    if !(i >= line.len() || !fits(f.y, p.max_y)) {
        let e = if i + p.max_chars < line.len() {
            i + p.max_chars
        } else {
            line.len() as int
        };
        let c = draw::text_of(p.x, f.y, line.subrange(i, e), p.fg, p.bg, p.width);
        let g = Flow {
            cmds: f.cmds.push(c),
            y: plus(f.y, LINE_STEP),
            last_y: f.y,
            last_n: (e - i) as usize,
        };
        assert((base + f.cmds).push(c) =~= base + f.cmds.push(c));
        line_flow_shift(base, g, line, e, p);
    }
}

proof fn text_flow_shift(base: Seq<Cmd>, f: Flow, lines: Seq<Seq<char>>, p: Pane)
    ensures
        text_flow(Flow { cmds: base + f.cmds, ..f }, lines, p) == (Flow {
            cmds: base + text_flow(f, lines, p).cmds,
            ..text_flow(f, lines, p)
        }),
    decreases lines.len(),
{
    if lines.len() == 0 || !fits(f.y, p.max_y) {
    } else if lines[0].len() == 0 {
        text_flow_shift(
            base,
            Flow { y: plus(f.y, LINE_STEP), last_y: f.y, last_n: 0, ..f },
            lines.skip(1),
            p,
        );
    } else {
        line_flow_shift(base, f, lines[0], 0, p);
        text_flow_shift(base, line_flow(f, lines[0], 0, p), lines.skip(1), p);
    }
}

fn render_paper(out: &mut Vec<DrawCmd>, sx: usize, sy: usize, w: usize, h: usize)
    ensures
        draw::drawn(final(out)@) == draw::drawn(old(out)@) + rules(
            sx,
            plus(sy, 22),
            w,
            plus(sy, h),
        ).push(draw::fill_of(plus(sx, 28), plus(sy, 4), 1, minus(h, 8), 0xFCA5A5)),
{
    let bottom = plus(sy, h);
    let mut y = plus(sy, 22);
    let ghost goal = draw::drawn(out@) + rules(sx, y, w, bottom);
    while bottom > 0 && y < bottom - 1
        invariant
            goal == draw::drawn(out@) + rules(sx, y, w, bottom),
        decreases usize::MAX - y,
    {
        let ghost before = draw::drawn(out@);
        fill(out, plus(sx, 4), y, minus(w, 8), 1, 0xE2E8F0);
        proof {
            let c = draw::fill_of(plus(sx, 4), y, minus(w, 8), 1, 0xE2E8F0);
            assert(before + rules(sx, y, w, bottom) =~= before.push(c) + rules(
                sx,
                plus(y, LINE_STEP),
                w,
                bottom,
            ));
        }
        y = plus(y, LINE_STEP);
    }
    assert(goal =~= draw::drawn(out@));
    fill(out, plus(sx, 28), plus(sy, 4), 1, minus(h, 8), 0xFCA5A5);
    assert(draw::drawn(out@) =~= draw::drawn(old(out)@) + rules(
        sx,
        plus(sy, 22),
        w,
        plus(sy, h),
    ).push(draw::fill_of(plus(sx, 28), plus(sy, 4), 1, minus(h, 8), 0xFCA5A5)));
}

#[verifier::rlimit(60)]
fn render_textarea(
    out: &mut Vec<DrawCmd>,
    sx: usize,
    sy: usize,
    w: usize,
    h: usize,
    t: &str,
    focused: bool,
    paper: bool,
)
    ensures
        draw::drawn(final(out)@) == draw::drawn(old(out)@) + textarea_cmds(
            sx,
            sy,
            w,
            h,
            t@,
            focused,
            paper,
        ),
{
    let ghost base = draw::drawn(out@);
    let (bg, fg, border) = if paper {
        (0xFFFDF5, 0x1E293B, if focused { theme::ACCENT } else { 0xCBD5E1 })
    } else {
        (if focused { FIELD_FOCUSED } else { theme::FIELD_BG }, theme::TEXT, theme::WINDOW_BORDER)
    };
    fill(out, sx, sy, w, h, bg);
    stroke(out, sx, sy, w, h, border);
    if paper {
        render_paper(out, sx, sy, w, h);
    }
    let left: usize = if paper { 34 } else { 4 };
    let inner = minus(w, left + 4);
    let p = Pane {
        x: plus(sx, left),
        max_chars: inner / metrics::char_w(),
        max_y: plus(sy, minus(h, 4)),
        width: inner,
        fg,
        bg,
    };
    let y = plus(sy, 4);
    let ghost sheet = seq![
        draw::fill_of(sx, sy, w, h, bg),
        draw::stroke_of(sx, sy, w, h, border),
    ] + if paper {
        rules(sx, plus(sy, 22), w, plus(sy, h)).push(
            draw::fill_of(plus(sx, 28), plus(sy, 4), 1, minus(h, 8), 0xFCA5A5),
        )
    } else {
        Seq::empty()
    };
    proof {
        assert(draw::drawn(out@) =~= base + sheet);
        text_flow_shift(
            base,
            Flow { cmds: sheet, y, last_y: y, last_n: 0 },
            text::split(t@, '\n'),
            p,
        );
    }
    let (last_y, last_n) = flow(out, t, y, &p);
    if focused {
        let cx = plus(p.x, columns(last_n));
        let edge = minus(plus(sx, w), 2);
        if edge > 0 && cx < edge - 1 {
            let cur = if paper { 0x0F172A } else { theme::ACCENT };
            fill(out, cx, last_y, 2, metrics::row_h(), cur);
        }
    }
    assert(draw::drawn(out@) =~= base + textarea_cmds(sx, sy, w, h, t@, focused, paper));
}

pub open spec fn output_pane(sx: usize, sy: usize, w: usize, h: usize, error: bool) -> Pane {
    let inner = minus(w, 10);
    Pane {
        x: plus(sx, 6),
        max_chars: most(inner / metrics::CHAR_W, 1),
        max_y: plus(sy, minus(h, 4)),
        width: inner,
        fg: if error {
            0xF87171
        } else {
            0x86EFAC
        },
        bg: 0x0B1220,
    }
}

pub open spec fn output_cmds(
    sx: usize,
    sy: usize,
    w: usize,
    h: usize,
    t: Seq<char>,
    error: bool,
) -> Seq<Cmd> {
    let y = plus(sy, 4);
    text_flow(
        Flow {
            cmds: seq![
                draw::fill_of(sx, sy, w, h, 0x0B1220),
                draw::stroke_of(sx, sy, w, h, theme::WINDOW_BORDER),
            ],
            y,
            last_y: y,
            last_n: 0,
        },
        text::split(t, '\n'),
        output_pane(sx, sy, w, h, error),
    ).cmds
}

fn render_output(
    out: &mut Vec<DrawCmd>,
    sx: usize,
    sy: usize,
    w: usize,
    h: usize,
    t: &str,
    error: bool,
)
    ensures
        draw::drawn(final(out)@) == draw::drawn(old(out)@) + output_cmds(sx, sy, w, h, t@, error),
{
    let ghost base = draw::drawn(out@);
    fill(out, sx, sy, w, h, 0x0B1220);
    stroke(out, sx, sy, w, h, theme::WINDOW_BORDER);
    let inner = minus(w, 10);
    let p = Pane {
        x: plus(sx, 6),
        max_chars: most(inner / metrics::char_w(), 1),
        max_y: plus(sy, minus(h, 4)),
        width: inner,
        fg: if error { 0xF87171 } else { 0x86EFAC },
        bg: 0x0B1220,
    };
    let y = plus(sy, 4);
    proof {
        let sheet = seq![
            draw::fill_of(sx, sy, w, h, 0x0B1220),
            draw::stroke_of(sx, sy, w, h, theme::WINDOW_BORDER),
        ];
        assert(draw::drawn(out@) =~= base + sheet);
        text_flow_shift(
            base,
            Flow { cmds: sheet, y, last_y: y, last_n: 0 },
            text::split(t@, '\n'),
            p,
        );
    }
    flow(out, t, y, &p);
}

// ── Code ────────────────────────────────────────────────────────────────────

/// The colour of a character; what the highlighter did not get to is plain.
pub open spec fn ink_at(colors: Seq<Color>, j: int) -> Color {
    if j < colors.len() {
        colors[j]
    } else {
        theme::TEXT
    }
}

pub open spec fn runs_of(s: Seq<char>, colors: Seq<Color>, from: int, to: int) -> Seq<(char, Color)> {
    Seq::new((to - from) as nat, |k: int| (s[from + k], ink_at(colors, from + k)))
}

fn runs(s: &Vec<char>, colors: &[Color], from: usize, to: usize) -> (r: Vec<(char, Color)>)
    requires
        from <= to <= s@.len(),
    ensures
        r@ == runs_of(s@, colors@, from as int, to as int),
{
    let mut r: Vec<(char, Color)> = Vec::new();
    let mut j = from;
    while j < to
        invariant
            from <= j <= to <= s@.len(),
            r@ == runs_of(s@, colors@, from as int, j as int),
        decreases to - j,
    {
        let ink = if j < colors.len() { colors[j] } else { theme::TEXT };
        r.push((s[j], ink));
        assert(r@ =~= runs_of(s@, colors@, from as int, j + 1));
        j = j + 1;
    }
    assert(r@ =~= runs_of(s@, colors@, from as int, to as int));
    r
}

/// A stretch of a code row, `cols` columns into it.
pub open spec fn stretch(
    s: Seq<char>,
    colors: Seq<Color>,
    from: int,
    to: int,
    p: (usize, usize, usize),
    cols: int,
    bg: Color,
) -> Cmd {
    DrawCmd::Runs {
        x: plus(p.0, columns(cols as usize)),
        y: p.1,
        runs: runs_of(s, colors, from, to),
        bg,
        max_w: minus(p.2, columns(cols as usize)),
    }
}

/// One row of code: what is selected of it on the selection's background, the
/// rest on the pane's. `p` is where the row begins and how wide it is.
pub open spec fn row_cmds(
    s: Seq<char>,
    colors: Seq<Color>,
    row: (usize, usize),
    sel: Option<(usize, usize)>,
    p: (usize, usize, usize),
) -> Seq<Cmd> {
    let (start, end) = row;
    let from = match sel {
        Some((lo, _)) => most(lo, start),
        None => end,
    };
    let to = match sel {
        Some((_, hi)) => least(hi, end),
        None => end,
    };
    if from >= to {
        seq![stretch(s, colors, start as int, end as int, p, 0, CODE_BG)]
    } else {
        let before = if from > start {
            seq![stretch(s, colors, start as int, from as int, p, 0, CODE_BG)]
        } else {
            Seq::empty()
        };
        let after = if to < end {
            seq![stretch(s, colors, to as int, end as int, p, to - start, CODE_BG)]
        } else {
            Seq::empty()
        };
        before.push(stretch(s, colors, from as int, to as int, p, from - start, SELECTION_BG)) + after
    }
}

fn draw_stretch(
    out: &mut Vec<DrawCmd>,
    s: &Vec<char>,
    colors: &[Color],
    from: usize,
    to: usize,
    p: (usize, usize, usize),
    cols: usize,
    bg: Color,
)
    requires
        from <= to <= s@.len(),
    ensures
        draw::drawn(final(out)@) == draw::drawn(old(out)@).push(
            stretch(s@, colors@, from as int, to as int, p, cols as int, bg),
        ),
{
    let dx = columns(cols);
    let runs = runs(s, colors, from, to);
    emit(out, DrawCmd::Runs { x: plus(p.0, dx), y: p.1, runs, bg, max_w: minus(p.2, dx) });
}

fn render_row(
    out: &mut Vec<DrawCmd>,
    s: &Vec<char>,
    colors: &[Color],
    row: (usize, usize),
    sel: Option<(usize, usize)>,
    p: (usize, usize, usize),
)
    requires
        row.0 <= row.1 <= s@.len(),
    ensures
        draw::drawn(final(out)@) == draw::drawn(old(out)@) + row_cmds(s@, colors@, row, sel, p),
{
    let (start, end) = row;
    let (from, to) = match sel {
        Some((lo, hi)) => (most(lo, start), least(hi, end)),
        None => (end, end),
    };
    if from >= to {
        draw_stretch(out, s, colors, start, end, p, 0, CODE_BG);
    } else {
        if from > start {
            draw_stretch(out, s, colors, start, from, p, 0, CODE_BG);
        }
        draw_stretch(out, s, colors, from, to, p, from - start, SELECTION_BG);
        if to < end {
            draw_stretch(out, s, colors, to, end, p, to - start, CODE_BG);
        }
    }
    assert(draw::drawn(out@) =~= draw::drawn(old(out)@) + row_cmds(s@, colors@, row, sel, p));
}

/// The rows from `i` up to `last`, the first of them at `y`.
pub open spec fn code_cmds(
    s: Seq<char>,
    colors: Seq<Color>,
    rows: Seq<(usize, usize)>,
    sel: Option<(usize, usize)>,
    i: int,
    last: int,
    p: (usize, usize, usize),
) -> Seq<Cmd>
    decreases last - i,
{
    if i >= last {
        Seq::empty()
    } else {
        row_cmds(s, colors, rows[i], sel, p) + code_cmds(
            s,
            colors,
            rows,
            sel,
            i + 1,
            last,
            (p.0, plus(p.1, LINE_STEP), p.2),
        )
    }
}

/// A selection within a text: from its first to behind its last character.
pub open spec fn selected_in(len: usize, cursor: usize, selection: Option<usize>) -> Option<
    (usize, usize),
> {
    match selection {
        Some(a) => {
            let a = least(a, len);
            if a == cursor {
                None
            } else {
                Some((least(a, cursor), most(a, cursor)))
            }
        },
        None => None,
    }
}

/// A code area: the rows around the caret, and the caret when it has the
/// focus.
pub open spec fn codearea_cmds(
    sx: usize,
    sy: usize,
    w: usize,
    h: usize,
    s: Seq<char>,
    cursor: usize,
    selection: Option<usize>,
    colors: Seq<Color>,
    focused: bool,
) -> Seq<Cmd> {
    let border = if focused {
        theme::ACCENT
    } else {
        theme::WINDOW_BORDER
    };
    let pane = seq![draw::fill_of(sx, sy, w, h, CODE_BG), draw::stroke_of(sx, sy, w, h, border)];
    let rows = editor::code_rows(s, editor::row_chars(w as int));
    let caret = least(cursor, s.len() as usize);
    let r = editor::row_of(rows, caret as int) as usize;
    let visible = editor::visible_rows(h as int) as usize;
    let first = editor::top_row(s, w as int, h as int, cursor as int) as usize;
    let last = least(plus(first, visible), rows.len() as usize);
    let x = plus(sx, 6);
    let top = plus(sy, 4);
    let code = code_cmds(
        s,
        colors,
        rows,
        selected_in(s.len() as usize, caret, selection),
        first as int,
        last as int,
        (x, top, minus(w, 10)),
    );
    let cx = plus(x, columns(editor::col_of(rows, caret as int) as usize));
    pane + code + caret_cmds(
        cx,
        caret_y(top, (r - first) as nat),
        plus(sx, minus(w, 2)),
        focused,
    )
}

/// A caret, where there is room for it before the edge.
pub open spec fn caret_cmds(cx: usize, cy: usize, edge: usize, focused: bool) -> Seq<Cmd> {
    if focused && cx + 1 < edge {
        seq![draw::fill_of(cx, cy, 2, metrics::ROW_H, 0xE2E8F0)]
    } else {
        Seq::empty()
    }
}

fn render_caret(out: &mut Vec<DrawCmd>, cx: usize, cy: usize, edge: usize, focused: bool)
    ensures
        draw::drawn(final(out)@) == draw::drawn(old(out)@) + caret_cmds(cx, cy, edge, focused),
{
    if focused && edge > 0 && cx < edge - 1 {
        fill(out, cx, cy, 2, metrics::row_h(), 0xE2E8F0);
    }
    assert(draw::drawn(out@) =~= draw::drawn(old(out)@) + caret_cmds(cx, cy, edge, focused));
}

/// Where the `n`-th row below `top` is.
pub open spec fn caret_y(top: usize, n: nat) -> usize
    decreases n,
{
    if n == 0 {
        top
    } else {
        plus(caret_y(top, (n - 1) as nat), LINE_STEP)
    }
}

/// Draw the rows; the result is where the caret's row is.
#[verifier::rlimit(60)]
fn render_rows(
    out: &mut Vec<DrawCmd>,
    s: &Vec<char>,
    colors: &[Color],
    rows: &Vec<(usize, usize)>,
    sel: Option<(usize, usize)>,
    first: usize,
    last: usize,
    caret_row: usize,
    p: (usize, usize, usize),
) -> (r: usize)
    requires
        editor::chained(rows@, 0, s@.len() as int),
        first <= caret_row < last <= rows@.len(),
    ensures
        draw::drawn(final(out)@) == draw::drawn(old(out)@) + code_cmds(
            s@,
            colors@,
            rows@,
            sel,
            first as int,
            last as int,
            p,
        ),
        r == caret_y(p.1, (caret_row - first) as nat),
{
    let ghost goal = draw::drawn(out@) + code_cmds(
        s@,
        colors@,
        rows@,
        sel,
        first as int,
        last as int,
        p,
    );
    let mut i = first;
    let mut y = p.1;
    let mut caret = p.1;
    while i < last
        invariant
            first <= i <= last <= rows@.len(),
            first <= caret_row < last,
            editor::chained(rows@, 0, s@.len() as int),
            y == caret_y(p.1, (i - first) as nat),
            i > caret_row ==> caret == caret_y(p.1, (caret_row - first) as nat),
            goal == draw::drawn(out@) + code_cmds(
                s@,
                colors@,
                rows@,
                sel,
                i as int,
                last as int,
                (p.0, y, p.2),
            ),
        decreases last - i,
    {
        let ghost before = draw::drawn(out@);
        assert(rows@[i as int].0 <= rows@[i as int].1 <= s@.len());
        render_row(out, s, colors, rows[i], sel, (p.0, y, p.2));
        if i == caret_row {
            caret = y;
        }
        proof {
            let a = row_cmds(s@, colors@, rows@[i as int], sel, (p.0, y, p.2));
            let b = code_cmds(
                s@,
                colors@,
                rows@,
                sel,
                i + 1,
                last as int,
                (p.0, plus(y, LINE_STEP), p.2),
            );
            assert(before + (a + b) =~= (before + a) + b);
        }
        y = plus(y, LINE_STEP);
        i = i + 1;
    }
    assert(goal =~= draw::drawn(out@));
    caret
}

#[verifier::rlimit(60)]
fn render_codearea(
    out: &mut Vec<DrawCmd>,
    sx: usize,
    sy: usize,
    w: usize,
    h: usize,
    t: &str,
    cursor: usize,
    selection: Option<usize>,
    colors: &[Color],
    focused: bool,
)
    ensures
        draw::drawn(final(out)@) == draw::drawn(old(out)@) + codearea_cmds(
            sx,
            sy,
            w,
            h,
            t@,
            cursor,
            selection,
            colors@,
            focused,
        ),
{
    let ghost base = draw::drawn(out@);
    let border = if focused { theme::ACCENT } else { theme::WINDOW_BORDER };
    fill(out, sx, sy, w, h, CODE_BG);
    stroke(out, sx, sy, w, h, border);
    let chars = text::chars_of(t);
    let rows = editor::wrap_rows(chars.as_slice(), editor::code_area_max_chars(w));
    let caret = least(cursor, chars.len());
    let (r, col) = editor::cursor_row_col(rows.as_slice(), caret);
    let visible = editor::shown_rows(h);
    let first = editor::scrolled_to(r, visible);
    let last = least(plus(first, visible), rows.len());
    let sel = match selection {
        Some(a) => {
            let a = least(a, chars.len());
            if a == caret {
                None
            } else {
                Some((least(a, caret), most(a, caret)))
            }
        },
        None => None,
    };
    let x = plus(sx, 6);
    let top = plus(sy, 4);
    let p = (x, top, minus(w, 10));
    let cy = render_rows(out, &chars, colors, &rows, sel, first, last, r, p);
    let ghost pane = seq![
        draw::fill_of(sx, sy, w, h, CODE_BG),
        draw::stroke_of(sx, sy, w, h, border),
    ];
    let ghost code = code_cmds(chars@, colors@, rows@, sel, first as int, last as int, p);
    let ghost mid = base.push(pane[0]).push(pane[1]);
    assert(draw::drawn(out@) == mid + code);
    let cx = plus(x, columns(col));
    let edge = plus(sx, minus(w, 2));
    render_caret(out, cx, cy, edge, focused);
    proof {
        let caret = caret_cmds(cx, cy, edge, focused);
        assert(mid + code + caret =~= base + (pane + code + caret));
        assert(codearea_cmds(sx, sy, w, h, t@, cursor, selection, colors@, focused) == pane + code
            + caret);
    }
}

/// Whatever is typed where, the caret's row is among those on screen.
pub proof fn the_caret_stays_on_screen(s: Seq<char>, w: int, h: int, cursor: int)
    requires
        0 <= cursor <= s.len(),
    ensures
        ({
            let r = editor::row_of(editor::code_rows(s, editor::row_chars(w)), cursor);
            let first = editor::top_row(s, w, h, cursor);
            first <= r < first + editor::visible_rows(h)
        }),
{
    editor::row_of_bounds(editor::code_rows(s, editor::row_chars(w)), cursor);
}

/// Each row of a code area is drawn in its place: so many rows below the first
/// one as it has rows before it on screen.
pub proof fn rows_are_drawn_in_place(
    s: Seq<char>,
    colors: Seq<Color>,
    rows: Seq<(usize, usize)>,
    sel: Option<(usize, usize)>,
    i: int,
    k: int,
    last: int,
    p: (usize, usize, usize),
)
    requires
        i <= k < last,
    ensures
        ({
            let y = caret_y(p.1, (k - i) as nat);
            code_cmds(s, colors, rows, sel, i, last, p) == code_cmds(s, colors, rows, sel, i, k, p)
                + row_cmds(s, colors, rows[k], sel, (p.0, y, p.2)) + code_cmds(
                s,
                colors,
                rows,
                sel,
                k + 1,
                last,
                (p.0, plus(y, LINE_STEP), p.2),
            )
        }),
    decreases k - i,
{
    let next = (p.0, plus(p.1, LINE_STEP), p.2);
    let head = row_cmds(s, colors, rows[i], sel, p);
    if i < k {
        rows_are_drawn_in_place(s, colors, rows, sel, i + 1, k, last, next);
        caret_y_from_next(p.1, (k - i - 1) as nat);
        let y = caret_y(p.1, (k - i) as nat);
        let a = code_cmds(s, colors, rows, sel, i + 1, k, next);
        let b = row_cmds(s, colors, rows[k], sel, (p.0, y, p.2));
        let c = code_cmds(s, colors, rows, sel, k + 1, last, (p.0, plus(y, LINE_STEP), p.2));
        assert(head + (a + b + c) =~= (head + a) + b + c);
    } else {
        let c = code_cmds(s, colors, rows, sel, k + 1, last, next);
        assert(head + c =~= Seq::<Cmd>::empty() + head + c);
    }
}

proof fn caret_y_from_next(top: usize, n: nat)
    ensures
        caret_y(plus(top, LINE_STEP), n) == caret_y(top, n + 1),
    decreases n,
{
    if n > 0 {
        caret_y_from_next(top, (n - 1) as nat);
    } else {
        assert(caret_y(top, 1) == plus(caret_y(top, 0), LINE_STEP));
    }
}

proof fn caret_y_is_linear(top: usize, n: nat)
    requires
        top + n * LINE_STEP <= usize::MAX,
    ensures
        caret_y(top, n) == top + n * LINE_STEP,
    decreases n,
{
    if n > 0 {
        caret_y_is_linear(top, (n - 1) as nat);
    }
}

/// Clicking and drawing agree: a click on a character that is on screen, in
/// whichever row and however far the text is scrolled, gives that character.
/// `k` is its row and `j` its place in the text; the click is at `(lx, ly)`
/// from the corner of the code area, which is at `(sx, sy)`.
pub proof fn clicks_hit_what_is_drawn(
    s: Seq<char>,
    w: usize,
    h: usize,
    cursor: usize,
    sx: usize,
    sy: usize,
    k: int,
    j: int,
    lx: int,
    ly: int,
)
    requires
        s.len() <= usize::MAX,
        ({
            let rows = editor::code_rows(s, editor::row_chars(w as int));
            let first = editor::top_row(s, w as int, h as int, cursor as int);
            let top = caret_y(plus(sy, 4), (k - first) as nat);
            let left = plus(plus(sx, 6), columns((j - rows[k].0) as usize));
            &&& first <= k < first + editor::visible_rows(h as int)
            &&& k < rows.len()
            &&& rows[k].0 <= j < rows[k].1
            &&& top <= sy + ly < top + LINE_STEP
            &&& left <= sx + lx < left + metrics::CHAR_W
            &&& sy + 4 + (k - first) * LINE_STEP <= usize::MAX
            &&& sx + 6 + (j - rows[k].0) * metrics::CHAR_W <= usize::MAX
        }),
    ensures
        editor::char_at(s, w as int, h as int, cursor as int, lx, ly) == j,
{
    let first = editor::top_row(s, w as int, h as int, cursor as int);
    editor::rows_cover_the_text(s, editor::row_chars(w as int), 0);
    caret_y_is_linear(plus(sy, 4), (k - first) as nat);
    let c = j - editor::code_rows(s, editor::row_chars(w as int))[k].0;
    assert(columns(c as usize) == c * 7);
    assert((ly - 4) / 18 == k - first);
    assert((lx - 6) / 7 == c);
}

// ── All widgets ─────────────────────────────────────────────────────────────

pub open spec fn swatch_cmds(
    sx: usize,
    sy: usize,
    w: usize,
    h: usize,
    c: Color,
    selected: bool,
) -> Seq<Cmd> {
    if selected {
        seq![
            draw::fill_of(sx, sy, w, h, c),
            draw::stroke_of(sx, sy, w, h, theme::TEXT),
            draw::stroke_of(plus(sx, 1), plus(sy, 1), minus(w, 2), minus(h, 2), theme::ACCENT),
        ]
    } else {
        seq![draw::fill_of(sx, sy, w, h, c), draw::stroke_of(sx, sy, w, h, theme::WINDOW_BORDER)]
    }
}

pub open spec fn checkbox_cmds(
    sx: usize,
    sy: usize,
    w: usize,
    h: usize,
    label: Seq<char>,
    checked: bool,
) -> Seq<Cmd> {
    let by = plus(sy, minus(h, 16) / 2);
    let frame = seq![
        draw::fill_of(sx, by, 16, 16, theme::FIELD_BG),
        draw::stroke_of(sx, by, 16, 16, theme::WINDOW_BORDER),
    ];
    let tick = if checked {
        seq![
            draw::line_of(
                plus(sx, 3) as i32,
                plus(by, 8) as i32,
                plus(sx, 7) as i32,
                plus(by, 12) as i32,
                theme::BUTTON_TEXT,
            ),
            draw::line_of(
                plus(sx, 7) as i32,
                plus(by, 12) as i32,
                plus(sx, 13) as i32,
                plus(by, 3) as i32,
                theme::BUTTON_TEXT,
            ),
        ]
    } else {
        Seq::empty()
    };
    (frame + tick).push(
        draw::text_of(
            plus(sx, 24),
            centred(sy, h),
            label,
            theme::TEXT,
            theme::WINDOW_BG,
            minus(w, 28),
        ),
    )
}

fn render_checkbox(
    out: &mut Vec<DrawCmd>,
    sx: usize,
    sy: usize,
    w: usize,
    h: usize,
    label: &str,
    checked: bool,
)
    ensures
        draw::drawn(final(out)@) == draw::drawn(old(out)@) + checkbox_cmds(
            sx,
            sy,
            w,
            h,
            label@,
            checked,
        ),
{
    let by = plus(sy, minus(h, 16) / 2);
    fill(out, sx, by, 16, 16, theme::FIELD_BG);
    stroke(out, sx, by, 16, 16, theme::WINDOW_BORDER);
    if checked {
        draw_line(
            out,
            plus(sx, 3) as i32,
            plus(by, 8) as i32,
            plus(sx, 7) as i32,
            plus(by, 12) as i32,
            theme::BUTTON_TEXT,
        );
        draw_line(
            out,
            plus(sx, 7) as i32,
            plus(by, 12) as i32,
            plus(sx, 13) as i32,
            plus(by, 3) as i32,
            theme::BUTTON_TEXT,
        );
    }
    draw_text(
        out,
        plus(sx, 24),
        centred(sy, h),
        label,
        theme::TEXT,
        theme::WINDOW_BG,
        minus(w, 28),
    );
    assert(draw::drawn(out@) =~= draw::drawn(old(out)@) + checkbox_cmds(
        sx,
        sy,
        w,
        h,
        label@,
        checked,
    ));
}

/// A widget in a window whose content begins at `origin` and is `content_w`
/// wide. `paper` makes text areas look like paper; `colors` are those of the
/// characters of a code area.
#[verifier::opaque]
pub open spec fn widget_cmds(
    origin: (i32, i32),
    content_w: usize,
    wgt: Widget<Seq<char>>,
    focused: bool,
    paper: bool,
    colors: Seq<Color>,
) -> Seq<Cmd> {
    let (ox, oy) = origin;
    match wgt {
        Widget::Label { x, y, text } => seq![
            draw::text_of(
                on_screen(ox, x),
                on_screen(oy, y),
                text,
                theme::TEXT,
                theme::WINDOW_BG,
                minus(content_w, plus(x, 4)),
            ),
        ],
        Widget::Button { x, y, w, h, label, state, icon, .. } => button_cmds(
            on_screen(ox, x),
            on_screen(oy, y),
            w,
            h,
            label,
            state,
            icon,
        ),
        Widget::TextBox { x, y, w, h, text } => textbox_cmds(
            on_screen(ox, x),
            on_screen(oy, y),
            w,
            h,
            text,
            focused,
        ),
        Widget::TextArea { x, y, w, h, text } => textarea_cmds(
            on_screen(ox, x),
            on_screen(oy, y),
            w,
            h,
            text,
            focused,
            paper,
        ),
        Widget::CodeArea { x, y, w, h, text, cursor, selection } => codearea_cmds(
            on_screen(ox, x),
            on_screen(oy, y),
            w,
            h,
            text,
            cursor,
            selection,
            colors,
            focused,
        ),
        Widget::OutputArea { x, y, w, h, text, error } => output_cmds(
            on_screen(ox, x),
            on_screen(oy, y),
            w,
            h,
            text,
            error,
        ),
        Widget::Canvas { x, y, w, h } => seq![
            draw::fill_of(on_screen(ox, x), on_screen(oy, y), w, h, 0xFFFFFF),
            draw::stroke_of(on_screen(ox, x), on_screen(oy, y), w, h, theme::WINDOW_BORDER),
        ],
        Widget::Swatch { x, y, w, h, color, selected, .. } => swatch_cmds(
            on_screen(ox, x),
            on_screen(oy, y),
            w,
            h,
            color,
            selected,
        ),
        Widget::Checkbox { x, y, w, h, label, checked, .. } => checkbox_cmds(
            on_screen(ox, x),
            on_screen(oy, y),
            w,
            h,
            label,
            checked,
        ),
    }
}

#[verifier::rlimit(60)]
pub fn render_widget(
    out: &mut Vec<DrawCmd>,
    origin: (i32, i32),
    content_w: usize,
    wgt: &Widget,
    focused: bool,
    paper: bool,
    colors: &[Color],
)
    ensures
        draw::drawn(final(out)@) == draw::drawn(old(out)@) + widget_cmds(
            origin,
            content_w,
            wgt@,
            focused,
            paper,
            colors@,
        ),
{
    proof {
        reveal(widget_cmds);
    }
    let (ox, oy) = origin;
    match wgt {
        Widget::Label { x, y, text } => {
            draw_text(
                out,
                on_screen(ox, *x),
                on_screen(oy, *y),
                text.as_str(),
                theme::TEXT,
                theme::WINDOW_BG,
                minus(content_w, plus(*x, 4)),
            );
        },
        Widget::Button { x, y, w, h, label, state, icon, .. } => {
            render_button(
                out,
                on_screen(ox, *x),
                on_screen(oy, *y),
                *w,
                *h,
                label.as_str(),
                *state,
                *icon,
            );
        },
        Widget::TextBox { x, y, w, h, text } => {
            render_textbox(
                out,
                on_screen(ox, *x),
                on_screen(oy, *y),
                *w,
                *h,
                text.as_str(),
                focused,
            );
        },
        Widget::TextArea { x, y, w, h, text } => {
            render_textarea(
                out,
                on_screen(ox, *x),
                on_screen(oy, *y),
                *w,
                *h,
                text.as_str(),
                focused,
                paper,
            );
        },
        Widget::CodeArea { x, y, w, h, text, cursor, selection } => {
            render_codearea(
                out,
                on_screen(ox, *x),
                on_screen(oy, *y),
                *w,
                *h,
                text.as_str(),
                *cursor,
                *selection,
                colors,
                focused,
            );
        },
        Widget::OutputArea { x, y, w, h, text, error } => {
            render_output(
                out,
                on_screen(ox, *x),
                on_screen(oy, *y),
                *w,
                *h,
                text.as_str(),
                *error,
            );
        },
        Widget::Canvas { x, y, w, h } => {
            fill(out, on_screen(ox, *x), on_screen(oy, *y), *w, *h, 0xFFFFFF);
            stroke(out, on_screen(ox, *x), on_screen(oy, *y), *w, *h, theme::WINDOW_BORDER);
        },
        Widget::Swatch { x, y, w, h, color, selected, .. } => {
            let sx = on_screen(ox, *x);
            let sy = on_screen(oy, *y);
            fill(out, sx, sy, *w, *h, *color);
            if *selected {
                stroke(out, sx, sy, *w, *h, theme::TEXT);
                stroke(out, plus(sx, 1), plus(sy, 1), minus(*w, 2), minus(*h, 2), theme::ACCENT);
            } else {
                stroke(out, sx, sy, *w, *h, theme::WINDOW_BORDER);
            }
        },
        Widget::Checkbox { x, y, w, h, label, checked, .. } => {
            render_checkbox(
                out,
                on_screen(ox, *x),
                on_screen(oy, *y),
                *w,
                *h,
                label.as_str(),
                *checked,
            );
        },
    }
    assert(draw::drawn(out@) =~= draw::drawn(old(out)@) + widget_cmds(
        origin,
        content_w,
        wgt@,
        focused,
        paper,
        colors@,
    ));
}

} // verus!
