//! A laid-out page on its canvas: every item is cut to the part of it that is
//! on view, so that nothing of the page lands on the window around it.

use vstd::prelude::*;

use crate::color::Color;
use crate::window::browser;
use crate::window::browser::{
    browser_draw_field, clip_box, draw_scrollbar, near, scrollbar_cmds, shown, viewport, visible,
    Viewport, BROWSER_GUTTER,
};
use crate::window::draw;
use crate::window::draw::{drawn, emit, fill, fill_of, minus, Cmd, DrawCmd};
use crate::window::mouse::BROWSER_PADDING;
use crate::window::state;

verus! {

/// The colour of what is typed into a field.
pub const BROWSER_FIELD_TEXT: Color = 0x0F172A;

/// What stands in a field that can be typed into: the rows of it that fit, and
/// where among them the caret is.
pub struct FieldText {
    pub rows: Vec<String>,
    pub caret_row: usize,
    pub caret_col: usize,
    /// Distance from the frame to the text.
    pub inset: usize,
    pub char_w: usize,
    pub row_h: usize,
    /// Which of the font's sizes it is set in.
    pub size: u8,
}

impl FieldText {
    pub open spec fn wf(self) -> bool {
        &&& self.rows@.len() <= 0xffff
        &&& self.caret_row <= 0xffff && self.caret_col <= 0xffff
        &&& self.inset <= 0xffff
        &&& 1 <= self.char_w <= 0xffff
        &&& 1 <= self.row_h <= 0xffff
    }
}

/// A place on a page, in whole pixels from the page's own origin.
#[derive(Debug, Copy, Clone)]
pub struct Place {
    pub x: i64,
    pub y: i64,
    pub w: i64,
    pub h: i64,
}

impl Place {
    pub open spec fn wf(self) -> bool {
        near(self.x as int) && near(self.y as int) && near(self.w as int) && near(self.h as int)
    }
}

/// One thing that the layout of a page has put somewhere.
pub enum PageItem {
    Solid { place: Place, color: Color },
    Text {
        place: Place,
        text: String,
        color: Color,
        size: u8,
        bold: bool,
        underline: bool,
        strike: bool,
    },
    /// A form control. One that cannot be typed into holds no text of its own.
    Field {
        place: Place,
        button: bool,
        supported: bool,
        focused: bool,
        text: Option<FieldText>,
    },
    /// A picture, by its number once it has arrived.
    Picture { place: Place, loaded: Option<u64> },
}

impl PageItem {
    pub open spec fn wf(self) -> bool {
        match self {
            PageItem::Solid { place, .. } => place.wf(),
            PageItem::Text { place, .. } => place.wf(),
            PageItem::Field { place, text, .. } => {
                &&& place.wf()
                &&& match text {
                    Some(t) => t.wf(),
                    None => true,
                }
            },
            PageItem::Picture { place, .. } => place.wf(),
        }
    }
}

// ── Text ────────────────────────────────────────────────────────────────────

/// A line one pixel high, where its row is on view.
pub open spec fn rule_cmds(v: Viewport, x: int, y: int, w: int, color: Color) -> Seq<Cmd> {
    if v.top <= y < v.bottom {
        seq![fill_of(x as usize, y as usize, w as usize, 1, color)]
    } else {
        Seq::empty()
    }
}

pub open spec fn nothing_unless(wanted: bool, c: Seq<Cmd>) -> Seq<Cmd> {
    if wanted {
        c
    } else {
        Seq::empty()
    }
}

/// Half of a length, towards zero.
pub open spec fn half(n: int) -> int {
    if n >= 0 {
        n / 2
    } else {
        -((-n) / 2)
    }
}

/// A run of text and the lines under and through it, none of them past the
/// right edge of the canvas.
pub open spec fn text_item_cmds(
    v: Viewport,
    p: Place,
    text: Seq<char>,
    color: Color,
    ground: Color,
    size: u8,
    bold: bool,
    underline: bool,
    strike: bool,
) -> Seq<Cmd> {
    let top = v.origin_y + p.y;
    let left = v.origin_x + state::at_least(p.x as int, 0);
    if visible(v, top, p.h as int) is None || left >= v.right {
        Seq::empty()
    } else {
        let room = v.right - left;
        let w = state::at_most(state::at_least(p.w as int, 0), room);
        seq![
            DrawCmd::Styled {
                x: left as usize,
                y: top as i64,
                text,
                fg: color,
                bg: ground,
                max_w: room as usize,
                size,
                bold,
                top: v.top as usize,
                bottom: v.bottom as usize,
            },
        ] + nothing_unless(underline, rule_cmds(v, left, top + p.h - 2, w, color))
            + nothing_unless(strike, rule_cmds(v, left, top + half(p.h as int), w, color))
    }
}

fn draw_rule(out: &mut Vec<DrawCmd>, v: &Viewport, x: usize, y: i64, w: usize, color: Color)
    requires
        v.wf(),
    ensures
        drawn(final(out)@) == drawn(old(out)@) + rule_cmds(
            *v,
            x as int,
            y as int,
            w as int,
            color,
        ),
{
    if v.top <= y && y < v.bottom {
        fill(out, x, y as usize, w, 1, color);
    }
    assert(drawn(out@) =~= drawn(old(out)@) + rule_cmds(*v, x as int, y as int, w as int, color));
}

/// Draw a run of text of the page.
pub fn draw_text_item(
    out: &mut Vec<DrawCmd>,
    v: &Viewport,
    p: &Place,
    text: &String,
    colors: (Color, Color),
    size: u8,
    bold: bool,
    underline: bool,
    strike: bool,
)
    requires
        v.wf(),
        p.wf(),
    ensures
        drawn(final(out)@) == drawn(old(out)@) + text_item_cmds(
            *v,
            *p,
            text@,
            colors.0,
            colors.1,
            size,
            bold,
            underline,
            strike,
        ),
{
    let ghost start = drawn(out@);
    let (color, ground) = colors;
    let top: i64 = v.origin_y + p.y;
    let left: i64 = v.origin_x + (if p.x >= 0 { p.x } else { 0 });
    let ghost whole = text_item_cmds(*v, *p, text@, color, ground, size, bold, underline, strike);
    if top + p.h <= v.top || top >= v.bottom || left >= v.right {
        assert(drawn(out@) =~= start + whole);
        return ;
    }
    let room: i64 = v.right - left;
    let wide: i64 = if p.w >= 0 { p.w } else { 0 };
    let w: i64 = if wide <= room { wide } else { room };
    emit(
        out,
        DrawCmd::Styled {
            x: left as usize,
            y: top,
            text: text.clone(),
            fg: color,
            bg: ground,
            max_w: room as usize,
            size,
            bold,
            top: v.top as usize,
            bottom: v.bottom as usize,
        },
    );
    if underline {
        draw_rule(out, v, left as usize, top + p.h - 2, w as usize, color);
    }
    if strike {
        let middle: i64 = if p.h >= 0 { p.h / 2 } else { -((-p.h) / 2) };
        draw_rule(out, v, left as usize, top + middle, w as usize, color);
    }
    assert(drawn(out@) =~= start + whole);
}

// ── Fields ──────────────────────────────────────────────────────────────────

/// What is typed into a field whose visible box is `b`, row by row from `top`.
pub open spec fn field_rows(
    v: Viewport,
    b: (int, int, int, int),
    top: int,
    ground: Color,
    t: FieldText,
) -> Seq<Cmd> {
    Seq::new(
        t.rows@.len(),
        |i: int|
            DrawCmd::Styled {
                x: (b.0 + t.inset) as usize,
                y: (top + t.inset + i * t.row_h) as i64,
                text: t.rows@[i]@,
                fg: BROWSER_FIELD_TEXT,
                bg: ground,
                max_w: state::at_least(b.2 - 2 * t.inset, 0) as usize,
                size: t.size,
                bold: false,
                top: v.top as usize,
                bottom: v.bottom as usize,
            },
    )
}

/// The caret of the field that has the keyboard, cut to the rows on view and
/// left out where it is past the right edge of its box.
pub open spec fn caret_cmds(
    v: Viewport,
    b: (int, int, int, int),
    top: int,
    t: FieldText,
) -> Seq<Cmd> {
    let x = b.0 + t.inset + t.caret_col * t.char_w;
    let y = top + t.inset + t.caret_row * t.row_h;
    let from = state::at_least(y, v.top as int);
    let to = state::at_most(y + t.row_h, v.bottom as int);
    if to > from && x < b.0 + b.2 {
        seq![fill_of(x as usize, from as usize, 1, (to - from) as usize, BROWSER_FIELD_TEXT)]
    } else {
        Seq::empty()
    }
}

pub open spec fn field_ground(button: bool, supported: bool) -> Color {
    if button {
        browser::BROWSER_BUTTON_BG
    } else if !supported {
        browser::BROWSER_FIELD_FLAT
    } else {
        browser::BROWSER_FIELD_BG
    }
}

pub open spec fn field_edge(focused: bool) -> Color {
    if focused {
        browser::BROWSER_FIELD_FOCUS
    } else {
        browser::BROWSER_FIELD_EDGE
    }
}

/// A form control: its box, then what stands in it, then the caret.
pub open spec fn field_item_cmds(
    v: Viewport,
    p: Place,
    button: bool,
    supported: bool,
    focused: bool,
    text: Option<FieldText>,
) -> Seq<Cmd> {
    let top = v.origin_y + p.y;
    let ground = field_ground(button, supported);
    match shown(v, p.x as int, p.y as int, p.w as int, p.h as int) {
        Some(b) => browser::field_cmds(
            v,
            b,
            top,
            state::at_least(p.h as int, 1),
            ground,
            field_edge(focused),
        ) + match text {
            Some(t) => field_rows(v, b, top, ground, t) + nothing_unless(
                focused,
                caret_cmds(v, b, top, t),
            ),
            None => Seq::empty(),
        },
        None => Seq::empty(),
    }
}

/// Distances inside a field do not run out of their type.
proof fn steps_fit(n: int, step: int)
    requires
        0 <= n <= 0xffff,
        0 <= step <= 0xffff,
    ensures
        0 <= n * step <= 0xfffe_0001,
{
    assert(0 <= n * step <= 0xfffe_0001) by (nonlinear_arith)
        requires
            0 <= n <= 0xffff,
            0 <= step <= 0xffff,
    ;
}

fn draw_field_rows(
    out: &mut Vec<DrawCmd>,
    v: &Viewport,
    b: (usize, usize, usize, usize),
    top: i64,
    ground: Color,
    t: &FieldText,
)
    requires
        v.wf(),
        t.wf(),
        b.0 + b.2 <= 0x7fff_ffff,
        -0x2_0000_0000 <= top <= 0x2_0000_0000,
    ensures
        drawn(final(out)@) == drawn(old(out)@) + field_rows(
            *v,
            (b.0 as int, b.1 as int, b.2 as int, b.3 as int),
            top as int,
            ground,
            *t,
        ),
{
    let ghost start = drawn(out@);
    let ghost box_of = (b.0 as int, b.1 as int, b.2 as int, b.3 as int);
    let ghost all = field_rows(*v, box_of, top as int, ground, *t);
    let room: usize = minus(b.2, 2 * t.inset);
    let mut i: usize = 0;
    assert(all.take(0) =~= Seq::<Cmd>::empty());
    assert(drawn(out@) =~= start + all.take(0));
    while i < t.rows.len()
        invariant
            i <= t.rows@.len(),
            v.wf(),
            t.wf(),
            b.0 + b.2 <= 0x7fff_ffff,
            -0x2_0000_0000 <= top <= 0x2_0000_0000,
            room == state::at_least(b.2 - 2 * t.inset, 0),
            box_of == (b.0 as int, b.1 as int, b.2 as int, b.3 as int),
            all == field_rows(*v, box_of, top as int, ground, *t),
            drawn(out@) == start + all.take(i as int),
        decreases t.rows@.len() - i,
    {
        proof {
            steps_fit(i as int, t.row_h as int);
        }
        let down: i64 = (i as i64) * (t.row_h as i64);
        emit(
            out,
            DrawCmd::Styled {
                x: b.0 + t.inset,
                y: top + t.inset as i64 + down,
                text: t.rows[i].clone(),
                fg: BROWSER_FIELD_TEXT,
                bg: ground,
                max_w: room,
                size: t.size,
                bold: false,
                top: v.top as usize,
                bottom: v.bottom as usize,
            },
        );
        assert(all.take(i + 1) =~= all.take(i as int).push(all[i as int]));
        assert(drawn(out@) =~= start + all.take(i + 1));
        i = i + 1;
    }
    assert(all.take(all.len() as int) =~= all);
}

fn draw_caret(
    out: &mut Vec<DrawCmd>,
    v: &Viewport,
    b: (usize, usize, usize, usize),
    top: i64,
    t: &FieldText,
)
    requires
        v.wf(),
        t.wf(),
        b.0 + b.2 <= 0x7fff_ffff,
        -0x2_0000_0000 <= top <= 0x2_0000_0000,
    ensures
        drawn(final(out)@) == drawn(old(out)@) + caret_cmds(
            *v,
            (b.0 as int, b.1 as int, b.2 as int, b.3 as int),
            top as int,
            *t,
        ),
{
    let ghost start = drawn(out@);
    proof {
        steps_fit(t.caret_col as int, t.char_w as int);
        steps_fit(t.caret_row as int, t.row_h as int);
    }
    let x: i64 = b.0 as i64 + t.inset as i64 + (t.caret_col as i64) * (t.char_w as i64);
    let y: i64 = top + t.inset as i64 + (t.caret_row as i64) * (t.row_h as i64);
    let from: i64 = if y >= v.top { y } else { v.top };
    let end: i64 = y + t.row_h as i64;
    let to: i64 = if end <= v.bottom { end } else { v.bottom };
    if to > from && x < b.0 as i64 + b.2 as i64 {
        fill(out, x as usize, from as usize, 1, (to - from) as usize, BROWSER_FIELD_TEXT);
    }
    assert(drawn(out@) =~= start + caret_cmds(
        *v,
        (b.0 as int, b.1 as int, b.2 as int, b.3 as int),
        top as int,
        *t,
    ));
}

/// Draw a form control of the page.
pub fn draw_field_item(
    out: &mut Vec<DrawCmd>,
    v: &Viewport,
    p: &Place,
    button: bool,
    supported: bool,
    focused: bool,
    text: &Option<FieldText>,
)
    requires
        v.wf(),
        p.wf(),
        match *text {
            Some(t) => t.wf(),
            None => true,
        },
    ensures
        drawn(final(out)@) == drawn(old(out)@) + field_item_cmds(
            *v,
            *p,
            button,
            supported,
            focused,
            *text,
        ),
{
    let ghost start = drawn(out@);
    let ghost whole = field_item_cmds(*v, *p, button, supported, focused, *text);
    let colors = browser::field_look(button, supported, focused);
    let top: i64 = v.origin_y + p.y;
    browser_draw_field(out, v, p.x, p.y, p.w, p.h, colors);
    if let Some(b) = clip_box(v, p.x, p.y, p.w, p.h) {
        if let Some(t) = text {
            draw_field_rows(out, v, b, top, colors.0, t);
            if focused {
                draw_caret(out, v, b, top, t);
            }
        }
    }
    assert(drawn(out@) =~= start + whole);
}

// ── Items ───────────────────────────────────────────────────────────────────

/// A picture, stretched to its place; nothing until it has arrived.
pub open spec fn picture_cmds(v: Viewport, p: Place, loaded: Option<u64>) -> Seq<Cmd> {
    let top = v.origin_y + p.y;
    let left = v.origin_x + state::at_least(p.x as int, 0);
    let h = state::at_least(p.h as int, 1);
    match loaded {
        Some(picture) if visible(v, top, h) is Some && left < v.right => seq![
            DrawCmd::Scaled {
                x: left as usize,
                y: top as i64,
                w: state::at_least(p.w as int, 1) as u64,
                h: h as u64,
                picture,
                right: v.right as usize,
                top: v.top as usize,
                bottom: v.bottom as usize,
            },
        ],
        _ => Seq::empty(),
    }
}

/// What is drawn of one item of a page with the given ground.
pub open spec fn page_item_cmds(v: Viewport, item: PageItem, ground: Color) -> Seq<Cmd> {
    match item {
        PageItem::Solid { place, color } => match shown(
            v,
            place.x as int,
            place.y as int,
            place.w as int,
            place.h as int,
        ) {
            Some(b) => seq![
                fill_of(b.0 as usize, b.1 as usize, b.2 as usize, b.3 as usize, color),
            ],
            None => Seq::empty(),
        },
        PageItem::Text { place, text, color, size, bold, underline, strike } => text_item_cmds(
            v,
            place,
            text@,
            color,
            ground,
            size,
            bold,
            underline,
            strike,
        ),
        PageItem::Field { place, button, supported, focused, text } => field_item_cmds(
            v,
            place,
            button,
            supported,
            focused,
            text,
        ),
        PageItem::Picture { place, loaded } => picture_cmds(v, place, loaded),
    }
}

/// What is drawn of a page, item after item: a later one covers an earlier one.
pub open spec fn items_cmds(v: Viewport, items: Seq<PageItem>, ground: Color) -> Seq<Cmd>
    decreases items.len(),
{
    if items.len() == 0 {
        Seq::empty()
    } else {
        items_cmds(v, items.drop_last(), ground) + page_item_cmds(v, items.last(), ground)
    }
}

/// Draw one item of a page.
pub fn draw_page_item(out: &mut Vec<DrawCmd>, v: &Viewport, item: &PageItem, ground: Color)
    requires
        v.wf(),
        item.wf(),
    ensures
        drawn(final(out)@) == drawn(old(out)@) + page_item_cmds(*v, *item, ground),
{
    let ghost start = drawn(out@);
    match item {
        PageItem::Solid { place, color } => {
            if let Some(b) = clip_box(v, place.x, place.y, place.w, place.h) {
                fill(out, b.0, b.1, b.2, b.3, *color);
            }
        },
        PageItem::Text { place, text, color, size, bold, underline, strike } => {
            draw_text_item(
                out,
                v,
                place,
                text,
                (*color, ground),
                *size,
                *bold,
                *underline,
                *strike,
            );
        },
        PageItem::Field { place, button, supported, focused, text } => {
            draw_field_item(out, v, place, *button, *supported, *focused, text);
        },
        PageItem::Picture { place, loaded } => {
            let top: i64 = v.origin_y + place.y;
            let left: i64 = v.origin_x + (if place.x >= 0 { place.x } else { 0 });
            let h: i64 = if place.h >= 1 { place.h } else { 1 };
            let w: i64 = if place.w >= 1 { place.w } else { 1 };
            if top + h > v.top && top < v.bottom && left < v.right {
                if let Some(picture) = loaded {
                    emit(
                        out,
                        DrawCmd::Scaled {
                            x: left as usize,
                            y: top,
                            w: w as u64,
                            h: h as u64,
                            picture: *picture,
                            right: v.right as usize,
                            top: v.top as usize,
                            bottom: v.bottom as usize,
                        },
                    );
                }
            }
        },
    }
    assert(drawn(out@) =~= start + page_item_cmds(*v, *item, ground));
}

/// Draw the items of a page in their order.
pub fn draw_page(out: &mut Vec<DrawCmd>, v: &Viewport, items: &Vec<PageItem>, background: Color)
    requires
        v.wf(),
        forall|i: int| 0 <= i < items@.len() ==> (#[trigger] items@[i]).wf(),
    ensures
        drawn(final(out)@) == drawn(old(out)@) + items_cmds(*v, items@, background),
{
    let ghost start = drawn(out@);
    let mut i: usize = 0;
    assert(drawn(out@) =~= start + items_cmds(*v, items@.take(0), background));
    while i < items.len()
        invariant
            i <= items@.len(),
            v.wf(),
            forall|i: int| 0 <= i < items@.len() ==> (#[trigger] items@[i]).wf(),
            drawn(out@) == start + items_cmds(*v, items@.take(i as int), background),
        decreases items@.len() - i,
    {
        let ghost before = drawn(out@);
        draw_page_item(out, v, &items[i], background);
        proof {
            let next = items@.take(i + 1);
            assert(next.drop_last() =~= items@.take(i as int));
            assert(next.last() == items@[i as int]);
            assert(drawn(out@) =~= start + items_cmds(*v, next, background));
        }
        i = i + 1;
    }
    assert(items@.take(items@.len() as int) =~= items@);
}

// ── The canvas ──────────────────────────────────────────────────────────────

/// The canvas of a browser: its ground, the page scrolled by so much, and the
/// scroll thumb over it.
pub open spec fn canvas_cmds(
    a: (usize, usize, usize, usize),
    items: Seq<PageItem>,
    height: usize,
    scroll: usize,
    background: Color,
) -> Seq<Cmd> {
    let v = Viewport {
        origin_x: (a.0 + BROWSER_PADDING) as i64,
        origin_y: (a.1 + BROWSER_PADDING - scroll) as i64,
        top: a.1 as i64,
        bottom: (a.1 + a.3) as i64,
        right: (a.0 + a.2 - BROWSER_GUTTER) as i64,
    };
    seq![fill_of(a.0, a.1, a.2, a.3, background)] + items_cmds(v, items, background)
        + scrollbar_cmds(a, height, scroll)
}

/// Draw a page that is so high on the given area of the screen.
pub fn render_page(
    out: &mut Vec<DrawCmd>,
    area: (usize, usize, usize, usize),
    items: &Vec<PageItem>,
    height: usize,
    scroll: usize,
    background: Color,
)
    requires
        area.0 + area.2 <= 0x7fff_0000,
        area.1 + area.3 <= 0x7fff_0000,
        scroll <= 0x7fff_0000,
        area.2 >= BROWSER_GUTTER,
        area.3 >= 12,
        forall|i: int| 0 <= i < items@.len() ==> (#[trigger] items@[i]).wf(),
    ensures
        drawn(final(out)@) == drawn(old(out)@) + canvas_cmds(
            area,
            items@,
            height,
            scroll,
            background,
        ),
{
    let ghost start = drawn(out@);
    let (x, y, w, h) = area;
    let v = viewport(x, y, w, h, scroll);
    fill(out, x, y, w, h, background);
    draw_page(out, &v, items, background);
    draw_scrollbar(out, x, y, w, h, height, scroll);
    assert(drawn(out@) =~= start + canvas_cmds(area, items@, height, scroll, background));
}

/// Whether a command leaves everything outside the canvas as it is.
pub open spec fn on_canvas(v: Viewport, c: Cmd) -> bool {
    match c {
        DrawCmd::Fill { x, y, w, h, .. } => {
            &&& v.origin_x <= x && x + w <= v.right
            &&& v.top <= y && y + h <= v.bottom
        },
        DrawCmd::Styled { x, max_w, top, bottom, .. } => {
            &&& v.origin_x <= x && (max_w > 0 ==> x + max_w <= v.right)
            &&& top == v.top && bottom == v.bottom
        },
        DrawCmd::Scaled { x, right, top, bottom, .. } => {
            &&& v.origin_x <= x && right == v.right
            &&& top == v.top && bottom == v.bottom
        },
        _ => false,
    }
}

/// Whether all of the commands do so.
pub open spec fn all_on_canvas(v: Viewport, s: Seq<Cmd>) -> bool {
    forall|i: int| 0 <= i < s.len() ==> on_canvas(v, #[trigger] s[i])
}

proof fn joined_on_canvas(v: Viewport, s: Seq<Cmd>, t: Seq<Cmd>)
    requires
        all_on_canvas(v, s),
        all_on_canvas(v, t),
    ensures
        all_on_canvas(v, s + t),
{
    assert forall|i: int| 0 <= i < (s + t).len() implies on_canvas(v, #[trigger] (s + t)[i]) by {
        if i < s.len() {
            assert((s + t)[i] == s[i]);
        } else {
            assert((s + t)[i] == t[i - s.len()]);
        }
    }
}

proof fn rules_on_canvas(v: Viewport, x: int, y: int, w: int, color: Color)
    requires
        v.wf(),
        v.origin_x <= x,
        0 <= w,
        x + w <= v.right,
    ensures
        all_on_canvas(v, rule_cmds(v, x, y, w, color)),
{
}

proof fn text_on_canvas(
    v: Viewport,
    p: Place,
    text: Seq<char>,
    color: Color,
    ground: Color,
    size: u8,
    bold: bool,
    underline: bool,
    strike: bool,
)
    requires
        v.wf(),
        p.wf(),
    ensures
        all_on_canvas(
            v,
            text_item_cmds(v, p, text, color, ground, size, bold, underline, strike),
        ),
{
    let top = v.origin_y + p.y;
    let left = v.origin_x + state::at_least(p.x as int, 0);
    if !(visible(v, top, p.h as int) is None || left >= v.right) {
        let room = v.right - left;
        let w = state::at_most(state::at_least(p.w as int, 0), room);
        let first = seq![
            DrawCmd::<Seq<char>, Seq<(char, Color)>>::Styled {
                x: left as usize,
                y: top as i64,
                text,
                fg: color,
                bg: ground,
                max_w: room as usize,
                size,
                bold,
                top: v.top as usize,
                bottom: v.bottom as usize,
            },
        ];
        let under = nothing_unless(underline, rule_cmds(v, left, top + p.h - 2, w, color));
        let through = nothing_unless(strike, rule_cmds(v, left, top + half(p.h as int), w, color));
        rules_on_canvas(v, left, top + p.h - 2, w, color);
        rules_on_canvas(v, left, top + half(p.h as int), w, color);
        assert(on_canvas(v, first[0]));
        joined_on_canvas(v, first, under);
        joined_on_canvas(v, first + under, through);
    }
}

proof fn frames_on_canvas(
    v: Viewport,
    b: (int, int, int, int),
    top: int,
    height: int,
    fill: Color,
    edge: Color,
)
    requires
        v.wf(),
        v.origin_x <= b.0,
        b.0 + b.2 <= v.right,
        b.2 >= 1,
        b.3 >= 0,
        v.top <= b.1,
        b.1 + b.3 <= v.bottom,
    ensures
        all_on_canvas(v, browser::field_cmds(v, b, top, height, fill, edge)),
{
}

proof fn typed_on_canvas(
    v: Viewport,
    b: (int, int, int, int),
    top: int,
    ground: Color,
    focused: bool,
    t: FieldText,
)
    requires
        v.wf(),
        t.wf(),
        v.origin_x <= b.0,
        b.0 + b.2 <= v.right,
        b.2 >= 1,
    ensures
        all_on_canvas(
            v,
            field_rows(v, b, top, ground, t) + nothing_unless(focused, caret_cmds(v, b, top, t)),
        ),
{
    steps_fit(t.caret_col as int, t.char_w as int);
    steps_fit(t.caret_row as int, t.row_h as int);
    let rows = field_rows(v, b, top, ground, t);
    let caret = nothing_unless(focused, caret_cmds(v, b, top, t));
    assert(all_on_canvas(v, rows));
    assert(all_on_canvas(v, caret));
    joined_on_canvas(v, rows, caret);
}

/// Nothing that is drawn of an item leaves the canvas: boxes, lines and carets
/// lie on it, and text and pictures are drawn with its edges as their limits.
pub proof fn items_stay_on_their_canvas(v: Viewport, item: PageItem, ground: Color)
    requires
        v.wf(),
        item.wf(),
    ensures
        all_on_canvas(v, page_item_cmds(v, item, ground)),
{
    match item {
        PageItem::Text { place, text, color, size, bold, underline, strike } => {
            text_on_canvas(v, place, text@, color, ground, size, bold, underline, strike);
        },
        PageItem::Field { place, button, supported, focused, text } => {
            let top = v.origin_y + place.y;
            let h = state::at_least(place.h as int, 1);
            let fill = field_ground(button, supported);
            let edge = field_edge(focused);
            if let Some(b) = shown(
                v,
                place.x as int,
                place.y as int,
                place.w as int,
                place.h as int,
            ) {
                frames_on_canvas(v, b, top, h, fill, edge);
                let frame = browser::field_cmds(v, b, top, h, fill, edge);
                match text {
                    Some(t) => {
                        typed_on_canvas(v, b, top, fill, focused, t);
                        joined_on_canvas(
                            v,
                            frame,
                            field_rows(v, b, top, fill, t) + nothing_unless(
                                focused,
                                caret_cmds(v, b, top, t),
                            ),
                        );
                    },
                    None => {
                        joined_on_canvas(v, frame, Seq::empty());
                    },
                }
            }
        },
        _ => {},
    }
}

/// A page is drawn on its canvas and nowhere else, whatever is on it and
/// wherever it is scrolled to.
pub proof fn a_page_stays_on_its_canvas(v: Viewport, items: Seq<PageItem>, ground: Color)
    requires
        v.wf(),
        forall|i: int| 0 <= i < items.len() ==> (#[trigger] items[i]).wf(),
    ensures
        all_on_canvas(v, items_cmds(v, items, ground)),
    decreases items.len(),
{
    if items.len() > 0 {
        let before = items.drop_last();
        assert forall|i: int| 0 <= i < before.len() implies (#[trigger] before[i]).wf() by {
            assert(before[i] == items[i]);
        }
        a_page_stays_on_its_canvas(v, before, ground);
        items_stay_on_their_canvas(v, items.last(), ground);
        joined_on_canvas(
            v,
            items_cmds(v, before, ground),
            page_item_cmds(v, items.last(), ground),
        );
    }
}

} // verus!
