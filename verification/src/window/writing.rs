//! What is written on the screen: widgets and pages show the text that they
//! hold, all of it and in order, and each program opens a window of its own.

use vstd::prelude::*;
use vstd::string::*;

use crate::color::Color;
use crate::text;
use crate::window::apps;
use crate::window::browser;
use crate::window::browser::Viewport;
use crate::window::draw::{Cmd, DrawCmd};
use crate::window::launch;
use crate::window::launch::Facts;
use crate::window::manager::DesktopModel;
use crate::window::page;
use crate::window::page::{PageItem, Place};
use crate::window::render;
use crate::window::render::{Flow, Pane};
use crate::window::widget::{BtnState, Icon, WindowKind};

verus! {

/// A button fills its place and shows its label, and looks different while the
/// pointer is on it and while it is pressed.
pub proof fn buttons_show_their_label(
    x: usize,
    y: usize,
    w: usize,
    h: usize,
    label: Seq<char>,
    state: BtnState,
    icon: Option<Icon>,
    other: BtnState,
)
    ensures
        ({
            let v = render::button_cmds(x, y, w, h, label, state, icon);
            &&& v.len() >= 3
            &&& v[0] matches DrawCmd::Fill { x: left, y: top, w: wide, h: high, color } && left == x
                && top == y && wide == w && high == h && color == render::button_bg(state)
            &&& v.last() matches DrawCmd::Text { text, .. } && text == label
        }),
        state != other ==> render::button_bg(state) != render::button_bg(other),
{
}

/// A field shows the end of its text, as much of it as there is room for, and
/// the caret stands right behind it.
pub proof fn fields_show_the_end_of_their_text(
    x: usize,
    y: usize,
    w: usize,
    h: usize,
    t: Seq<char>,
)
    requires
        8 <= w,
        x + w <= usize::MAX,
        y + h <= usize::MAX,
    ensures
        ({
            let room = (w - 8) / 7;
            let v = render::textbox_cmds(x, y, w, h, t, false);
            let f = render::textbox_cmds(x, y, w, h, t, true);
            &&& v.len() == 3 && f.len() == 4
            &&& v[2] matches DrawCmd::Text { x: left, text, .. } && left == x + 4
                && text::has_suffix(t, text) && text.len() == (if t.len() <= room {
                t.len() as int
            } else {
                room
            })
            &&& f[2] matches DrawCmd::Text { x: left, text, .. } && (f[3] matches DrawCmd::Fill {
                x: caret,
                ..
            } && caret == left + 7 * text.len())
        }),
{
    let room = (w - 8) as usize / 7;
    let shown = render::tail(t, room as int);
    assert(shown.len() <= room);
    assert(t.skip(t.len() - shown.len()) =~= shown);
    assert(7 * shown.len() <= w - 8);
}

/// The texts that are drawn, one behind the other.
pub open spec fn written(v: Seq<Cmd>) -> Seq<char>
    decreases v.len(),
{
    if v.len() == 0 {
        Seq::empty()
    } else {
        written(v.drop_last()) + match v.last() {
            DrawCmd::Text { text, .. } => text,
            _ => Seq::empty(),
        }
    }
}

/// A line that is too long for a pane goes on in the next row: its rows
/// together are the line, none is longer than fits, and they lie below each
/// other.
pub proof fn lines_go_on_in_the_next_row(f: Flow, line: Seq<char>, i: int, p: Pane)
    requires
        0 <= i <= line.len(),
        p.max_chars >= 1,
        f.y + 18 * (line.len() - i) + 16 <= p.max_y,
        line.len() <= usize::MAX,
    ensures
        ({
            let g = render::line_flow(f, line, i, p);
            &&& written(g.cmds) == written(f.cmds) + line.skip(i)
            &&& g.cmds.len() >= f.cmds.len()
            &&& g.cmds.take(f.cmds.len() as int) == f.cmds
            &&& g.y == f.y + 18 * (g.cmds.len() - f.cmds.len())
            &&& forall|k: int|
                f.cmds.len() <= k < g.cmds.len() ==> (#[trigger] g.cmds[k] matches DrawCmd::Text {
                    x,
                    y,
                    text,
                    ..
                } && x == p.x && y == f.y + 18 * (k - f.cmds.len()) && 0 < text.len() <= p.max_chars)
        }),
    decreases line.len() - i,
{
    let g = render::line_flow(f, line, i, p);
    if i >= line.len() {
        assert(line.skip(i) =~= Seq::<char>::empty());
        assert(written(f.cmds) + line.skip(i) =~= written(f.cmds));
        assert(g == f);
        assert(g.cmds.take(f.cmds.len() as int) =~= f.cmds);
    } else {
        let e = if i + p.max_chars < line.len() {
            i + p.max_chars
        } else {
            line.len() as int
        };
        let n = f.cmds.len() as int;
        let c: Cmd = DrawCmd::Text {
            x: p.x,
            y: f.y,
            text: line.subrange(i, e),
            fg: p.fg,
            bg: p.bg,
            max_w: p.width,
        };
        let next = Flow {
            cmds: f.cmds.push(c),
            y: (f.y + 18) as usize,
            last_y: f.y,
            last_n: (e - i) as usize,
        };
        lines_go_on_in_the_next_row(next, line, e, p);
        assert(next.cmds.drop_last() =~= f.cmds);
        assert(written(next.cmds) == written(f.cmds) + line.subrange(i, e));
        assert(g == render::line_flow(next, line, e, p));
        assert(line.subrange(i, e) + line.skip(e) =~= line.skip(i));
        assert(written(g.cmds) =~= written(f.cmds) + line.skip(i));
        assert(g.cmds.take(n) =~= g.cmds.take(n + 1).take(n));
        assert(next.cmds.take(n) =~= f.cmds);
        assert(g.cmds[n] == g.cmds.take(n + 1)[n]);
        assert(g.cmds[n] == c);
    }
}

/// Each character of a row of code is drawn in its column and its colour, and
/// stands out exactly if it is selected.
pub proof fn selected_characters_stand_out(
    s: Seq<char>,
    colors: Seq<Color>,
    row: (usize, usize),
    sel: Option<(usize, usize)>,
    p: (usize, usize, usize),
    j: int,
) -> (at: (int, int))
    requires
        row.0 <= j < row.1 <= s.len(),
        p.0 + 7 * (row.1 - row.0) <= usize::MAX,
    ensures
        ({
            let v = render::row_cmds(s, colors, row, sel, p);
            &&& 0 <= at.0 < v.len()
            &&& v[at.0] matches DrawCmd::Runs { x, y, runs, bg, .. } && {
                &&& y == p.1
                &&& 0 <= at.1 < runs.len()
                &&& runs[at.1].0 == s[j]
                &&& j < colors.len() ==> runs[at.1].1 == colors[j]
                &&& x + 7 * at.1 == p.0 + 7 * (j - row.0)
                &&& bg == render::SELECTION_BG <==> (sel matches Some((lo, hi)) && lo <= j < hi)
            }
        }),
{
    let (start, end) = row;
    let from: usize = match sel {
        Some((lo, _)) => if lo >= start {
            lo
        } else {
            start
        },
        None => end,
    };
    let to: usize = match sel {
        Some((_, hi)) => if hi <= end {
            hi
        } else {
            end
        },
        None => end,
    };
    let v = render::row_cmds(s, colors, row, sel, p);
    if from >= to {
        (0, j - start)
    } else {
        let k: int = if from > start {
            1
        } else {
            0
        };
        if j < from {
            (0, j - start)
        } else if j < to {
            assert(v[k] == render::stretch(
                s,
                colors,
                from as int,
                to as int,
                p,
                from - start,
                render::SELECTION_BG,
            ));
            (k, j - from)
        } else {
            assert(v[k + 1] == render::stretch(
                s,
                colors,
                to as int,
                end as int,
                p,
                to - start,
                render::CODE_BG,
            ));
            (k + 1, j - to)
        }
    }
}

/// A selection is what lies between its two ends, whichever comes first.
pub proof fn selections_have_two_ends(len: usize, a: usize, b: usize)
    requires
        a <= len,
        b <= len,
    ensures
        a < b ==> render::selected_in(len, a, Some(b)) == Some((a, b)),
        a < b ==> render::selected_in(len, b, Some(a)) == Some((a, b)),
        render::selected_in(len, a, Some(a)) is None,
        render::selected_in(len, a, None) is None,
{
}

/// A page is drawn item by item, the later ones over the earlier ones.
pub proof fn pages_are_drawn_item_by_item(
    v: Viewport,
    a: Seq<PageItem>,
    b: Seq<PageItem>,
    one: PageItem,
    ground: Color,
)
    ensures
        page::items_cmds(v, seq![one], ground) == page::page_item_cmds(v, one, ground),
        page::items_cmds(v, a + b, ground) == page::items_cmds(v, a, ground) + page::items_cmds(
            v,
            b,
            ground,
        ),
    decreases b.len(),
{
    let s = seq![one];
    assert(s.drop_last() =~= Seq::<PageItem>::empty());
    assert(page::items_cmds(v, s.drop_last(), ground) =~= Seq::<Cmd>::empty());
    assert(page::items_cmds(v, s, ground) =~= page::page_item_cmds(v, one, ground));
    if b.len() == 0 {
        assert(a + b =~= a);
        assert(page::items_cmds(v, a, ground) + page::items_cmds(v, b, ground) =~= page::items_cmds(
            v,
            a,
            ground,
        ));
    } else {
        pages_are_drawn_item_by_item(v, a, b.drop_last(), one, ground);
        assert((a + b).drop_last() =~= a + b.drop_last());
        assert(page::items_cmds(v, a + b, ground) =~= page::items_cmds(v, a, ground)
            + page::items_cmds(v, b, ground));
    }
}

/// A run of text on a page lies where the layout put it, moved with the
/// page, in its colour and size; a line under it lies at its bottom
/// and one through it in its middle.
pub proof fn text_lies_where_the_layout_put_it(
    v: Viewport,
    p: Place,
    t: Seq<char>,
    color: Color,
    ground: Color,
    size: u8,
    bold: bool,
)
    requires
        v.wf(),
        p.wf(),
        p.x >= 0,
        p.h >= 2,
        p.w >= 0,
        v.top <= v.origin_y + p.y,
        v.origin_y + p.y + p.h <= v.bottom,
        v.origin_x + p.x + p.w <= v.right,
        v.origin_x + p.x < v.right,
    ensures
        ({
            let plain = page::text_item_cmds(v, p, t, color, ground, size, bold, false, false);
            let under = page::text_item_cmds(v, p, t, color, ground, size, bold, true, false);
            let through = page::text_item_cmds(v, p, t, color, ground, size, bold, false, true);
            &&& plain.len() == 1 && under.len() == 2 && through.len() == 2
            &&& under[0] == plain[0] && through[0] == plain[0]
            &&& plain[0] matches DrawCmd::Styled { x, y, text, fg, bg, size: z, bold: b, .. } && x
                == v.origin_x + p.x && y == v.origin_y + p.y && text == t && fg == color && bg
                == ground && z == size && b == bold
            &&& under[1] matches DrawCmd::Fill { x, y, w, h, color: c } && x == v.origin_x + p.x && y
                == v.origin_y + p.y + p.h - 2 && w == p.w && h == 1 && c == color
            &&& through[1] matches DrawCmd::Fill { x, y, w, h, color: c } && x == v.origin_x + p.x
                && y == v.origin_y + p.y + p.h / 2 && w == p.w && h == 1 && c == color
        }),
{
}

/// A picture is drawn at its place once it is there, as large as the layout
/// wants it, and not before.
pub proof fn pictures_are_drawn_once_they_are_there(v: Viewport, p: Place, number: u64)
    requires
        v.wf(),
        p.wf(),
        p.x >= 0,
        p.w >= 1,
        p.h >= 1,
        v.top <= v.origin_y + p.y < v.bottom,
        v.origin_x + p.x < v.right,
    ensures
        page::picture_cmds(v, p, None).len() == 0,
        page::picture_cmds(v, p, Some(number)).len() == 1,
        page::picture_cmds(v, p, Some(number))[0] matches DrawCmd::Scaled { x, y, w, h, picture, .. }
            && x == v.origin_x + p.x && y == v.origin_y + p.y && w == p.w && h == p.h && picture
            == number,
{
}

/// What is scrolled off the page is not drawn, and what is half on view is cut
/// at the edge.
pub proof fn boxes_are_cut_at_the_edge(v: Viewport, x: int, y: int, w: int, h: int)
    requires
        v.wf(),
        0 <= x,
        w >= 1,
        h >= 1,
    ensures
        ({
            let top = v.origin_y + y;
            let s = browser::shown(v, x, y, w, h);
            &&& s is Some <==> top < v.bottom && top + h > v.top && v.origin_x + x < v.right
            &&& s matches Some(b) ==> {
                &&& b.0 == v.origin_x + x
                &&& b.1 == top || (b.1 == v.top && top < v.top)
                &&& b.1 + b.3 == top + h || (b.1 + b.3 == v.bottom && top + h > v.bottom)
                &&& b.0 + b.2 == v.origin_x + x + w || (b.0 + b.2 == v.right && v.origin_x + x + w
                    > v.right)
            }
        }),
{
}

/// Every program opens a window of its own kind.
pub proof fn programs_open_their_own_window(d: DesktopModel, kind: WindowKind, f: Facts)
    ensures
        launch::first_window(d, kind, f) matches Some(w) ==> w.kind == kind && !w.minimized
            && !w.maximized,
        launch::first_window(d, kind, f) is None <==> kind == WindowKind::FileDialog || kind
            == WindowKind::Generic || kind == WindowKind::MyComputer,
{
}

/// Each drive says how full it is, and one that is not there cannot be
/// opened.
pub proof fn drives_say_how_full_they_are(d: apps::Drives, used: u64, total: u64, n: u8)
    ensures
        d.disk == Some((used, total)) ==> text::occurs(
            apps::disk_line(d),
            text::decimal((used / 1024) as nat) + " of "@ + text::decimal((total / 1024) as nat)
                + " KiB"@,
        ),
        d.usb == Some((used, total)) ==> text::occurs(
            apps::usb_line(d),
            text::decimal((used / 1024) as nat) + " of "@ + text::decimal((total / 1024) as nat)
                + " KiB"@,
        ),
        d.fat == Some(total) ==> text::occurs(
            apps::fat_line(d),
            text::decimal(total as nat) + " entries"@,
        ),
        apps::drive_action(true, n) != apps::drive_action(false, n),
{
    let k = text::decimal((used / 1024) as nat) + " of "@ + text::decimal((total / 1024) as nat)
        + " KiB"@;
    reveal_strlit(" KiB used)");
    reveal_strlit(" KiB");
    reveal_strlit(" entries)");
    reveal_strlit(" entries");
    if d.disk == Some((used, total)) {
        let l = apps::disk_line(d);
        let a = "Files (/disk)  —  hard disk, kept across reboots  ("@;
        assert(l.skip(a.len() as int).take(k.len() as int) =~= k);
    }
    if d.usb == Some((used, total)) {
        let l = apps::usb_line(d);
        let a = "USB Drive (/usb)  —  FAT32, read/write  ("@;
        assert(l.skip(a.len() as int).take(k.len() as int) =~= k);
    }
    if d.fat == Some(total) {
        let l = apps::fat_line(d);
        let a = "Local Disk (/fat)  —  FAT32 demo  ("@;
        let e = text::decimal(total as nat) + " entries"@;
        assert(l.skip(a.len() as int).take(e.len() as int) =~= e);
    }
}

} // verus!
