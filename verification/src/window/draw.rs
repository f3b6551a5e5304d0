//! What is drawn, as a list of commands for the framebuffer, and the screen
//! arithmetic behind it. Coordinates stop at the edges of their type.

use vstd::prelude::*;

use crate::color::Color;
use crate::window::metrics;
use crate::window::widget::Icon;

verus! {

/// Where the pixels of a picture come from.
#[derive(Debug, Copy, Clone, PartialEq, Eq, Structural)]
pub enum Source {
    /// The bitmap that the window of this handle holds.
    Window(u64),
    /// The embedded photograph.
    Photograph,
}

/// One thing to draw. The text in it is a `String`, and a sequence of
/// characters in contracts.
pub enum DrawCmd<T = String, R = Vec<(char, Color)>> {
    Fill { x: usize, y: usize, w: usize, h: usize, color: Color },
    Stroke { x: usize, y: usize, w: usize, h: usize, color: Color },
    /// From `top` at the top edge to `bottom` at the bottom edge.
    Gradient { x: usize, y: usize, w: usize, h: usize, top: Color, bottom: Color },
    /// Text cut off after `max_w` pixels.
    Text { x: usize, y: usize, text: T, fg: Color, bg: Color, max_w: usize },
    /// Text in which every character has a colour of its own.
    Runs { x: usize, y: usize, runs: R, bg: Color, max_w: usize },
    Line { x0: i32, y0: i32, x1: i32, y1: i32, color: Color },
    Icon { x: usize, y: usize, size: usize, icon: Icon, outline: Color, fill: Color, accent: Color },
    /// `w` by `h` pixels of a bitmap whose rows are `stride` pixels long.
    Blit { x: usize, y: usize, w: usize, h: usize, stride: usize, from: Source },
    /// What the engine of this window's game or page draws in a rectangle.
    Engine { x: usize, y: usize, w: usize, h: usize, id: u64 },
    Wallpaper { w: usize, h: usize, dark: bool },
    /// Text in one of the font's sizes, of which only the rows from `top` up to
    /// `bottom` are drawn: it may begin above them.
    Styled {
        x: usize,
        y: i64,
        text: T,
        fg: Color,
        bg: Color,
        max_w: usize,
        size: u8,
        bold: bool,
        top: usize,
        bottom: usize,
    },
    /// A picture stretched to `w` by `h` pixels, of which only what is left of
    /// `right` and on the rows from `top` up to `bottom` is drawn.
    Scaled {
        x: usize,
        y: i64,
        w: u64,
        h: u64,
        picture: u64,
        right: usize,
        top: usize,
        bottom: usize,
    },
}

pub type Cmd = DrawCmd<Seq<char>, Seq<(char, Color)>>;

impl View for DrawCmd {
    type V = DrawCmd<Seq<char>, Seq<(char, Color)>>;

    open spec fn view(&self) -> DrawCmd<Seq<char>, Seq<(char, Color)>> {
        match *self {
            DrawCmd::Fill { x, y, w, h, color } => DrawCmd::Fill { x, y, w, h, color },
            DrawCmd::Stroke { x, y, w, h, color } => DrawCmd::Stroke { x, y, w, h, color },
            DrawCmd::Gradient { x, y, w, h, top, bottom } => DrawCmd::Gradient {
                x,
                y,
                w,
                h,
                top,
                bottom,
            },
            DrawCmd::Text { x, y, text, fg, bg, max_w } => DrawCmd::Text {
                x,
                y,
                text: text@,
                fg,
                bg,
                max_w,
            },
            DrawCmd::Runs { x, y, runs, bg, max_w } => DrawCmd::Runs { x, y, runs: runs@, bg, max_w },
            DrawCmd::Line { x0, y0, x1, y1, color } => DrawCmd::Line { x0, y0, x1, y1, color },
            DrawCmd::Icon { x, y, size, icon, outline, fill, accent } => DrawCmd::Icon {
                x,
                y,
                size,
                icon,
                outline,
                fill,
                accent,
            },
            DrawCmd::Blit { x, y, w, h, stride, from } => DrawCmd::Blit { x, y, w, h, stride, from },
            DrawCmd::Engine { x, y, w, h, id } => DrawCmd::Engine { x, y, w, h, id },
            DrawCmd::Wallpaper { w, h, dark } => DrawCmd::Wallpaper { w, h, dark },
            DrawCmd::Styled { x, y, text, fg, bg, max_w, size, bold, top, bottom } => {
                DrawCmd::Styled { x, y, text: text@, fg, bg, max_w, size, bold, top, bottom }
            },
            DrawCmd::Scaled { x, y, w, h, picture, right, top, bottom } => {
                DrawCmd::Scaled { x, y, w, h, picture, right, top, bottom }
            },
        }
    }
}

pub open spec fn drawn(v: Seq<DrawCmd>) -> Seq<Cmd> {
    v.map_values(|c: DrawCmd| c@)
}

pub fn emit(out: &mut Vec<DrawCmd>, c: DrawCmd)
    ensures
        drawn(final(out)@) == drawn(old(out)@).push(c@),
{
    out.push(c);
    assert(drawn(out@) =~= drawn(old(out)@).push(c@));
}

// ── Commands ────────────────────────────────────────────────────────────────

pub open spec fn fill_of(x: usize, y: usize, w: usize, h: usize, color: Color) -> Cmd {
    DrawCmd::Fill { x, y, w, h, color }
}

pub open spec fn stroke_of(x: usize, y: usize, w: usize, h: usize, color: Color) -> Cmd {
    DrawCmd::Stroke { x, y, w, h, color }
}

pub open spec fn text_of(
    x: usize,
    y: usize,
    text: Seq<char>,
    fg: Color,
    bg: Color,
    max_w: usize,
) -> Cmd {
    DrawCmd::Text { x, y, text, fg, bg, max_w }
}

pub open spec fn line_of(x0: i32, y0: i32, x1: i32, y1: i32, color: Color) -> Cmd {
    DrawCmd::Line { x0, y0, x1, y1, color }
}

pub open spec fn icon_of(
    x: usize,
    y: usize,
    size: usize,
    icon: Icon,
    outline: Color,
    fill: Color,
    accent: Color,
) -> Cmd {
    DrawCmd::Icon { x, y, size, icon, outline, fill, accent }
}

pub fn fill(out: &mut Vec<DrawCmd>, x: usize, y: usize, w: usize, h: usize, color: Color)
    ensures
        drawn(final(out)@) == drawn(old(out)@).push(fill_of(x, y, w, h, color)),
{
    emit(out, DrawCmd::Fill { x, y, w, h, color });
}

pub fn stroke(out: &mut Vec<DrawCmd>, x: usize, y: usize, w: usize, h: usize, color: Color)
    ensures
        drawn(final(out)@) == drawn(old(out)@).push(stroke_of(x, y, w, h, color)),
{
    emit(out, DrawCmd::Stroke { x, y, w, h, color });
}

pub fn draw_text(
    out: &mut Vec<DrawCmd>,
    x: usize,
    y: usize,
    s: &str,
    fg: Color,
    bg: Color,
    max_w: usize,
)
    ensures
        drawn(final(out)@) == drawn(old(out)@).push(text_of(x, y, s@, fg, bg, max_w)),
{
    emit(out, DrawCmd::Text { x, y, text: s.to_owned(), fg, bg, max_w });
}

pub fn draw_line(out: &mut Vec<DrawCmd>, x0: i32, y0: i32, x1: i32, y1: i32, color: Color)
    ensures
        drawn(final(out)@) == drawn(old(out)@).push(line_of(x0, y0, x1, y1, color)),
{
    emit(out, DrawCmd::Line { x0, y0, x1, y1, color });
}

pub fn draw_icon(
    out: &mut Vec<DrawCmd>,
    x: usize,
    y: usize,
    size: usize,
    icon: Icon,
    outline: Color,
    fill: Color,
    accent: Color,
)
    ensures
        drawn(final(out)@) == drawn(old(out)@).push(
            icon_of(x, y, size, icon, outline, fill, accent),
        ),
{
    emit(out, DrawCmd::Icon { x, y, size, icon, outline, fill, accent });
}

// ── Screen arithmetic ───────────────────────────────────────────────────────

pub open spec fn spec_plus(a: usize, b: usize) -> usize {
    if a + b <= usize::MAX {
        (a + b) as usize
    } else {
        usize::MAX
    }
}

#[verifier::when_used_as_spec(spec_plus)]
pub fn plus(a: usize, b: usize) -> (r: usize)
    ensures
        r == spec_plus(a, b),
{
    if a <= usize::MAX - b {
        a + b
    } else {
        usize::MAX
    }
}

pub open spec fn spec_minus(a: usize, b: usize) -> usize {
    if a >= b {
        (a - b) as usize
    } else {
        0
    }
}

#[verifier::when_used_as_spec(spec_minus)]
pub fn minus(a: usize, b: usize) -> (r: usize)
    ensures
        r == spec_minus(a, b),
{
    if a >= b {
        a - b
    } else {
        0
    }
}

pub open spec fn spec_times(a: usize, b: usize) -> usize {
    if a * b <= usize::MAX {
        (a * b) as usize
    } else {
        usize::MAX
    }
}

#[verifier::when_used_as_spec(spec_times)]
pub fn times(a: usize, b: usize) -> (r: usize)
    ensures
        r == spec_times(a, b),
{
    match a.checked_mul(b) {
        Some(n) => n,
        None => usize::MAX,
    }
}

pub open spec fn spec_least(a: usize, b: usize) -> usize {
    if a <= b {
        a
    } else {
        b
    }
}

#[verifier::when_used_as_spec(spec_least)]
pub fn least(a: usize, b: usize) -> (r: usize)
    ensures
        r == spec_least(a, b),
{
    if a <= b {
        a
    } else {
        b
    }
}

pub open spec fn spec_most(a: usize, b: usize) -> usize {
    if a >= b {
        a
    } else {
        b
    }
}

#[verifier::when_used_as_spec(spec_most)]
pub fn most(a: usize, b: usize) -> (r: usize)
    ensures
        r == spec_most(a, b),
{
    if a >= b {
        a
    } else {
        b
    }
}

/// Where something `n` characters wide ends.
pub open spec fn spec_columns(n: usize) -> usize {
    spec_times(n, metrics::CHAR_W)
}

#[verifier::when_used_as_spec(spec_columns)]
pub fn columns(n: usize) -> (r: usize)
    ensures
        r == spec_columns(n),
{
    times(n, metrics::char_w())
}

/// A widget's place on screen; what is off the left or top edge begins at
/// zero.
pub open spec fn spec_on_screen(origin: i32, at: usize) -> usize {
    let p = origin.wrapping_add(at as i32);
    if p > 0 {
        p as usize
    } else {
        0
    }
}

#[verifier::when_used_as_spec(spec_on_screen)]
pub fn on_screen(origin: i32, at: usize) -> (r: usize)
    ensures
        r == spec_on_screen(origin, at),
{
    let p: i32 = origin.wrapping_add(at as i32);
    if p > 0 {
        p as usize
    } else {
        0
    }
}

/// Where text one row high sits in the middle of something `h` high.
pub open spec fn spec_centred(y: usize, h: usize) -> usize {
    spec_plus(y, spec_minus(h, metrics::ROW_H) / 2)
}

#[verifier::when_used_as_spec(spec_centred)]
pub fn centred(y: usize, h: usize) -> (r: usize)
    ensures
        r == spec_centred(y, h),
{
    plus(y, minus(h, metrics::row_h()) / 2)
}

} // verus!
