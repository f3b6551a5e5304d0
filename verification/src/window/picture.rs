//! What is to be seen on the desktop: things are drawn where they can be
//! clicked, in the order in which they lie over each other, and show what they
//! stand for.

use vstd::prelude::*;
use vstd::string::*;

use crate::color::Color;
use crate::text;
use crate::theme;
use crate::window::draw::{Cmd, DrawCmd, Source};
use crate::window::files;
use crate::window::manager::DesktopModel;
use crate::window::mouse;
use crate::window::scene;
use crate::window::scene::{Area, Look};
use crate::window::state;
use crate::window::state::WindowModel;
use crate::window::widget::{FmViewMode, Icon};

verus! {

proof fn pieces_make_up_the_rest(s: Seq<char>, i: int, cols: int, k: int)
    requires
        0 <= i < s.len(),
        cols >= 1,
        0 <= k < scene::pieces(s, i, cols).len(),
    ensures
        ({
            let v = scene::pieces(s, i, cols);
            &&& v.len() > 0
            &&& text::joined(v, Seq::empty()) == s.skip(i)
            &&& 0 < v[k].len() <= cols
            &&& k + 1 < v.len() ==> v[k].len() == cols
        }),
    decreases s.len() - i,
{
    let v = scene::pieces(s, i, cols);
    if i + cols < s.len() {
        let one = s.subrange(i, i + cols);
        let rest = scene::pieces(s, i + cols, cols);
        assert(rest.len() > 0);
        pieces_make_up_the_rest(s, i + cols, cols, if k > 0 { k - 1 } else { 0 });
        text::joining_goes_part_by_part(one, rest, Seq::empty());
        assert(one + Seq::<char>::empty() + s.skip(i + cols) =~= s.skip(i));
        if k > 0 {
            assert(v[k] == rest[k - 1]);
        }
    } else {
        assert(s.subrange(i, s.len() as int) =~= s.skip(i));
        assert(v =~= seq![s.skip(i)]);
        text::joining_goes_part_by_part(s.skip(i), Seq::empty(), Seq::empty());
    }
}

/// A line of the terminal is cut into rows that together are the line. Every
/// row but the last one is full.
pub proof fn rows_make_up_the_line(s: Seq<char>, cols: int, k: int)
    requires
        cols >= 1,
        0 <= k < scene::wrapped(s, cols).len(),
    ensures
        ({
            let v = scene::wrapped(s, cols);
            &&& text::joined(v, Seq::empty()) == s
            &&& v[k].len() <= cols
            &&& k + 1 < v.len() ==> v[k].len() == cols
        }),
{
    if s.len() == 0 {
        text::joining_goes_part_by_part(s, Seq::empty(), Seq::empty());
    } else {
        pieces_make_up_the_rest(s, 0, cols, k);
        assert(s.skip(0) =~= s);
    }
}

/// Each row of the terminal that fits is shown, one below the other.
pub proof fn rows_are_shown_below_each_other(
    rows: Seq<Seq<char>>,
    first_prompt: int,
    blink: bool,
    i: int,
    y: usize,
    a: Area,
    k: int,
) -> (at: int)
    requires
        0 <= i,
        0 <= k,
        i + k < rows.len(),
        a.0 + 6 <= usize::MAX,
        a.1 + a.3 <= usize::MAX,
        y + 18 * k + 16 <= a.1 + a.3 - 6,
        a.3 >= 6,
    ensures
        ({
            let v = scene::term_rows(rows, first_prompt, blink, i, y, a);
            &&& 0 <= at < v.len()
            &&& v[at] matches DrawCmd::Text { x, y: down, text, .. } && x == a.0 + 6 && down == y + 18
                * k && text == rows[i + k]
        }),
    decreases k,
{
    let v = scene::term_rows(rows, first_prompt, blink, i, y, a);
    if k == 0 {
        0
    } else {
        let next = (y + 18) as usize;
        let rest = scene::term_rows(rows, first_prompt, blink, i + 1, next, a);
        let at = rows_are_shown_below_each_other(rows, first_prompt, blink, i + 1, next, a, k - 1);
        let n = v.len() - rest.len();
        assert(v[n + at] == rest[at]);
        n + at
    }
}

/// Every part of the snake is drawn in its cell of the grid, and only the head
/// stands out.
pub proof fn the_snake_is_drawn_cell_by_cell(
    a: Area,
    cell: (usize, usize),
    parts: Seq<(i16, i16)>,
    i: int,
    k: int,
)
    requires
        0 <= i <= k < parts.len(),
        forall|j: int|
            0 <= j < parts.len() ==> (#[trigger] parts[j]).0 >= 0 && parts[j].1 >= 0,
        cell.0 >= 2,
        cell.1 >= 2,
        a.0 + (parts[k].0 + 1) * cell.0 <= usize::MAX,
        a.1 + (parts[k].1 + 1) * cell.1 <= usize::MAX,
    ensures
        scene::body_cmds(a, cell, parts, i).len() == parts.len() - i,
        scene::body_cmds(a, cell, parts, i)[k - i] matches DrawCmd::Fill { x, y, w, h, color } && {
            &&& x == a.0 + parts[k].0 * cell.0 + 1
            &&& y == a.1 + parts[k].1 * cell.1 + 1
            &&& w == cell.0 - 2
            &&& h == cell.1 - 2
            &&& color == if k == 0 { scene::SNAKE_HEAD } else { scene::SNAKE_BODY }
        },
        scene::SNAKE_HEAD != scene::SNAKE_BODY,
    decreases parts.len() - i,
{
    if i < k {
        the_snake_is_drawn_cell_by_cell(a, cell, parts, i + 1, k);
    } else {
        let px = parts[k].0 as int;
        let py = parts[k].1 as int;
        assert((px + 1) * cell.0 == px * cell.0 + cell.0 && 0 <= px * cell.0) by (nonlinear_arith)
            requires
                px >= 0,
                cell.0 >= 2,
        ;
        assert((py + 1) * cell.1 == py * cell.1 + cell.1 && 0 <= py * cell.1) by (nonlinear_arith)
            requires
                py >= 0,
                cell.1 >= 2,
        ;
        if i + 1 < parts.len() {
            bodies_are_drawn_whole(a, cell, parts, i + 1);
        }
    }
}

proof fn bodies_are_drawn_whole(a: Area, cell: (usize, usize), parts: Seq<(i16, i16)>, i: int)
    requires
        0 <= i <= parts.len(),
        forall|j: int|
            0 <= j < parts.len() ==> (#[trigger] parts[j]).0 >= 0 && parts[j].1 >= 0,
    ensures
        scene::body_cmds(a, cell, parts, i).len() == parts.len() - i,
    decreases parts.len() - i,
{
    if i < parts.len() {
        bodies_are_drawn_whole(a, cell, parts, i + 1);
    }
}

/// The titlebar buttons are drawn where they can be clicked: from the right,
/// the one that closes, the one that maximizes, the one that makes it medium
/// and the one that minimizes.
pub proof fn titlebar_buttons_are_drawn_where_they_are(w: WindowModel, px: int, py: int)
    requires
        w.y >= 0,
        w.y + w.h <= 0x7fff_ffff,
        w.x + w.w <= 0x7fff_ffff,
        w.x + w.w >= 73,
    ensures
        ({
            let v = scene::buttons_cmds(w);
            &&& v.len() == 14
            &&& filled(v[0], px, py) <==> state::on_chrome(w, 3, px, py)
            &&& filled(v[3], px, py) <==> state::on_chrome(w, 2, px, py)
            &&& filled(v[7], px, py) <==> state::on_chrome(w, 1, px, py)
            &&& filled(v[10], px, py) <==> state::on_chrome(w, 0, px, py)
            &&& v[10] matches DrawCmd::Fill { color, .. } && color == theme::CLOSE_BUTTON
            &&& v[12] is Line && v[13] is Line
        }),
{
    reveal(scene::buttons_cmds);
}

/// Whether a pixel is covered by a rectangle.
pub open spec fn filled(c: Cmd, px: int, py: int) -> bool {
    c matches DrawCmd::Fill { x, y, w, h, .. } && x <= px < x + w && y <= py < y + h
}

/// Whether a pixel is covered by an icon.
pub open spec fn pictured(c: Cmd, px: int, py: int) -> bool {
    c matches DrawCmd::Icon { x, y, size, .. } && x <= px < x + size && y <= py < y + size
}

/// The large icons of the explorer lie where a click selects them, with the
/// beginning of the name below, and only the one that is selected is marked.
pub proof fn large_icons_lie_where_they_are_clicked(
    o: (usize, usize),
    e: Seq<char>,
    i: int,
    look: Look,
    px: int,
    py: int,
)
    requires
        0 <= i < 10,
        o.0 + 1000 <= usize::MAX,
        o.1 + 1000 <= usize::MAX,
    ensures
        ({
            let v = scene::tile_cmds(o, e, i, false, look);
            let m = scene::tile_cmds(o, e, i, true, look);
            &&& v.len() == 2 && m.len() == 4
            &&& m[2] == v[0]
            &&& pictured(v[0], px, py) ==> files::entry_at(
                FmViewMode::LargeIcons,
                px - o.0,
                py - o.1,
            ) == Some(i as usize)
            &&& filled(m[0], px, py) ==> files::entry_at(
                FmViewMode::LargeIcons,
                px - o.0,
                py - o.1,
            ) == Some(i as usize)
            &&& v[1] matches DrawCmd::Text { text, .. } && text == text::first(
                files::base_name(e),
                10,
            )
        }),
{
    files::entries_are_hit_where_they_are(px - o.0, py - o.1, i as usize);
}

/// The icons beside a list lie in their rows, and folders look different from
/// files.
pub proof fn list_icons_lie_in_their_rows(
    o: (usize, usize),
    e: Seq<char>,
    i: int,
    look: Look,
    px: int,
    py: int,
)
    requires
        0 <= i < 12,
        o.0 + 1000 <= usize::MAX,
        o.1 + 1000 <= usize::MAX,
    ensures
        ({
            let c = scene::row_icon((o.0 + 10) as usize, o.1, files::FM_FILE_Y0, e, i, look);
            &&& pictured(c, px, py) ==> files::entry_at(FmViewMode::List, px - o.0, py - o.1) == Some(
                i as usize,
            )
            &&& c matches DrawCmd::Icon { icon, .. } && icon == (if e.len() > 0 && e.last() == '/' {
                look.folder
            } else {
                look.file
            })
        }),
{
    files::entries_are_hit_where_they_are(px - o.0, py - o.1, i as usize);
    reveal_strlit("/");
    let slash = "/"@;
    assert(slash[0] == '/' && slash.len() == 1);
    if e.len() > 0 {
        let tail = e.skip(e.len() - 1);
        assert(tail[0] == e.last() && tail.len() == 1);
        if e.last() == '/' {
            assert(tail =~= slash);
        }
    }
}

/// The rows of a list have their icons in order, as many as there are entries
/// and rows.
pub proof fn lists_have_an_icon_per_row(
    o: (usize, usize),
    entries: Seq<Seq<char>>,
    i: int,
    look: Look,
    k: int,
)
    requires
        0 <= i <= k < entries.len(),
        k < 12,
    ensures
        scene::list_cmds(o, entries, i, look).len() == (if entries.len() < 12 {
            entries.len() as int
        } else {
            12
        }) - i,
        scene::list_cmds(o, entries, i, look)[k - i] == scene::row_icon(
            (o.0 + 10) as usize,
            o.1,
            62,
            entries[k],
            k,
            look,
        ),
    decreases 12 - i,
{
    if i < k {
        lists_have_an_icon_per_row(o, entries, i + 1, look, k);
    } else {
        list_icons_are_counted(o, entries, i + 1, look);
    }
}

proof fn list_icons_are_counted(o: (usize, usize), entries: Seq<Seq<char>>, i: int, look: Look)
    requires
        0 <= i <= entries.len(),
        i <= 12,
    ensures
        scene::list_cmds(o, entries, i, look).len() == (if entries.len() < 12 {
            entries.len() as int
        } else {
            12
        }) - i,
    decreases 12 - i,
{
    if i < entries.len() && i < 12 {
        list_icons_are_counted(o, entries, i + 1, look);
    }
}

/// A desktop icon lies where a click opens it.
pub proof fn desktop_icons_lie_where_they_are_clicked(
    i: int,
    label: Seq<char>,
    icon: Icon,
    accent: Color,
    px: int,
    py: int,
)
    requires
        0 <= i < 5,
    ensures
        ({
            let v = scene::desktop_icon_cmds(18, (18 + 122 * i) as usize, label, icon, accent);
            &&& filled(v[0], px, py) ==> mouse::icon_under(px, py) == i
            &&& pictured(v[3], px, py) ==> mouse::icon_under(px, py) == i
            &&& v[3] matches DrawCmd::Icon { icon: shown, .. } && shown == icon
            &&& v[6] matches DrawCmd::Text { text, .. } && text == label
        }),
{
    let top = 18 + 122 * i;
    let y = py - 18;
    if 0 <= y - 122 * i < 108 {
        assert(y / 122 == i && y % 122 == y - 122 * i);
    }
}

/// Windows are drawn from the back to the front, and hidden ones not at all.
pub proof fn windows_are_drawn_from_the_back(
    ws: Seq<WindowModel>,
    w: WindowModel,
    i: int,
    top: int,
    look: Look,
)
    requires
        0 <= i <= ws.len(),
    ensures
        scene::stack_cmds(ws.push(w), i, top, look) == scene::stack_cmds(ws, i, top, look) + (
        if w.minimized {
            Seq::empty()
        } else {
            scene::window_cmds(w, ws.len() == top, look)
        }),
    decreases ws.len() - i,
{
    let v = ws.push(w);
    let last = if w.minimized {
        Seq::empty()
    } else {
        scene::window_cmds(w, ws.len() == top, look)
    };
    if i < ws.len() {
        windows_are_drawn_from_the_back(ws, w, i + 1, top, look);
        assert(v[i] == ws[i]);
        assert(scene::stack_cmds(v, i, top, look) =~= scene::stack_cmds(ws, i, top, look) + last);
    } else {
        assert(v[i] == w);
        let n = ws.len() as int;
        assert(scene::stack_cmds(v, n + 1, top, look) =~= Seq::<Cmd>::empty());
        assert(scene::stack_cmds(ws, n, top, look) =~= Seq::<Cmd>::empty());
        assert(scene::stack_cmds(v, n, top, look) =~= last);
        assert(scene::stack_cmds(ws, n, top, look) + last =~= last);
    }
}

/// A window shows its title, and only the one in front casts a shadow.
pub proof fn windows_show_their_title(w: WindowModel, is_top: bool, look: Look)
    requires
        look.wf(),
    ensures
        ({
            let v = scene::frame_cmds(w, is_top, look);
            &&& v.len() == (if is_top { 7int } else { 6 })
            &&& v.last() matches DrawCmd::Text { text, .. } && text == w.title
            &&& is_top ==> (v[0] matches DrawCmd::Fill { color, .. } && color
                == theme::WINDOW_SHADOW)
            &&& v[v.len() - 6] matches DrawCmd::Fill { w: wide, h, .. } && wide == w.w && h == w.h
        }),
{
    reveal(scene::frame_cmds);
}

/// A window that has something to say at its bottom says it, if it is
/// high enough.
pub proof fn footers_are_shown(w: WindowModel, t: Seq<char>)
    ensures
        w.footer == Some(t) && w.h > 48 ==> scene::footer_cmds(w).len() == 3 && (
        scene::footer_cmds(w)[2] matches DrawCmd::Text { text, .. } && text == t),
        w.footer is None ==> scene::footer_cmds(w).len() == 0,
{
    reveal(scene::footer_cmds);
}

/// The desktop lies behind everything, and the taskbar over everything, with
/// the clock drawn last.
pub proof fn the_taskbar_lies_over_the_windows(
    d: DesktopModel,
    clock: Seq<char>,
    ticks: u64,
    look: Look,
)
    ensures
        ({
            let v = scene::screen_cmds(d, clock, ticks, look);
            &&& v.len() > 0
            &&& v[0] matches DrawCmd::Wallpaper { w, dark, .. } && w == d.screen.0 && dark
                == d.dark_theme
            &&& v.last() matches DrawCmd::Text { text, .. } && text == scene::clock_line(clock, ticks)
            &&& text::has_prefix(scene::clock_line(clock, ticks), clock)
        }),
{
    let v = scene::screen_cmds(d, clock, ticks, look);
    let c = scene::clock_cmds(d.screen, scene::clock_line(clock, ticks));
    assert(v.last() == c[2]);
    let l = scene::clock_line(clock, ticks);
    assert(l.take(clock.len() as int) =~= clock);
}

/// The photograph lies in the middle of its canvas, and nothing of it
/// outside.
pub proof fn the_photograph_lies_in_the_middle(a: Area, pw: usize, ph: usize)
    requires
        a.0 + a.2 <= usize::MAX,
        a.1 + a.3 <= usize::MAX,
    ensures
        scene::photo_cmds(a, Some((pw, ph)))[1] matches DrawCmd::Blit { x, y, w, h, stride, from }
            && {
            let left = x - a.0;
            let right = a.0 + a.2 - (x + w);
            let above = y - a.1;
            let below = a.1 + a.3 - (y + h);
            &&& 0 <= left <= right <= left + 1
            &&& 0 <= above <= below <= above + 1
            &&& w == pw || w == a.2
            &&& h == ph || h == a.3
            &&& stride == pw
            &&& from == Source::Photograph
        },
{
}

} // verus!
