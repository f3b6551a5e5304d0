//! The File Explorer and the Save As / Open dialog.

use vstd::prelude::*;
use vstd::string::*;

use crate::text;
use crate::window::manager;
use crate::window::state;
use crate::window::state::{AppModel, AppState, Window, WindowModel};
use crate::window::widget;
use crate::window::widget::{FmViewMode, WinAction, Widget};

verus! {

/// File Explorer layout: widget 0 is the header, 1 to 12 the list rows, then
/// the toolbar and the preview; from 22 on stands the context menu.
pub const FM_ROWS: usize = 12;

pub const FM_FILE_Y0: usize = 62;

pub const FM_ROW_H: usize = 18;

pub const FM_WIDGET_BASE: usize = 22;

pub const FM_ICON_X: usize = 10;

/// List text starts to the right of a 16×16 icon.
pub const FM_LIST_LABEL_X: usize = 30;

pub const FM_PREVIEW_BODY: usize = 21;

/// Large-icons grid.
pub const FM_LG_COLS: usize = 5;

pub const FM_LG_CELL_W: usize = 108;

pub const FM_LG_CELL_H: usize = 96;

pub const FM_LG_ICON: usize = 40;

pub const FM_LG_Y0: usize = 62;

pub const FM_LG_VISIBLE: usize = 10;

/// Save As / Open dialog: widget 0 is the location, 1 to 8 the rows, then Up,
/// the name box, Save/Open and Cancel.
pub const FD_ROWS: usize = 8;

pub const FD_LIST_Y0: usize = 56;

pub const FD_NAME_BOX: usize = 10;

// ── Hit testing ─────────────────────────────────────────────────────────────

/// The top-left corner of a window's content.
pub open spec fn origin(w: WindowModel) -> (int, int) {
    (w.x + 2, w.y + 26)
}

/// The last widget that covers a point of the content, or -1. Later widgets
/// are drawn over earlier ones, so the last one is on top.
pub open spec fn hit(ws: Seq<Widget<Seq<char>>>, lx: int, ly: int) -> int
    decreases ws.len(),
{
    if ws.len() == 0 {
        -1
    } else if widget::covers(ws.last(), lx, ly) {
        ws.len() - 1
    } else {
        hit(ws.drop_last(), lx, ly)
    }
}

pub open spec fn widget_under(w: WindowModel, sx: int, sy: int) -> int {
    hit(w.widgets, sx - origin(w).0, sy - origin(w).1)
}

proof fn hit_at(ws: Seq<Widget<Seq<char>>>, lx: int, ly: int, i: int)
    requires
        -1 <= i < ws.len(),
        i >= 0 ==> widget::covers(ws[i], lx, ly),
        forall|j: int| i < j < ws.len() ==> !widget::covers(#[trigger] ws[j], lx, ly),
    ensures
        hit(ws, lx, ly) == i,
    decreases ws.len(),
{
    if i < ws.len() - 1 {
        assert(!widget::covers(ws[ws.len() - 1], lx, ly));
        assert forall|j: int| i < j < ws.drop_last().len() implies !widget::covers(
            #[trigger] ws.drop_last()[j],
            lx,
            ly,
        ) by {
            assert(ws.drop_last()[j] == ws[j]);
        }
        hit_at(ws.drop_last(), lx, ly, i);
    }
}

fn widget_covers(wgt: &Widget, lx: i32, ly: i32) -> (r: bool)
    ensures
        r == widget::covers(wgt@, lx as int, ly as int),
{
    match wgt.bounds() {
        Some((x, y, w, h)) => (x as i32) <= lx && lx < (x.wrapping_add(w) as i32) && (y as i32)
            <= ly && ly < (y.wrapping_add(h) as i32),
        None => false,
    }
}

impl Window {
    pub fn content_origin(&self) -> (r: (i32, i32))
        requires
            self@.wf(),
        ensures
            r.0 == origin(self@).0,
            r.1 == origin(self@).1,
    {
        (self.x + 2, self.y + 26)
    }

    pub fn widget_at(&self, sx: i32, sy: i32) -> (r: Option<usize>)
        requires
            self@.wf(),
            manager::on_screen((sx, sy)),
        ensures
            r == manager::index(
                widget_under(self@, sx as int, sy as int),
                widget_under(self@, sx as int, sy as int) >= 0,
            ),
            r matches Some(i) ==> i < self.widgets@.len() && i == widget_under(
                self@,
                sx as int,
                sy as int,
            ) && widget::covers(
                self@.widgets[i as int],
                sx - origin(self@).0,
                sy - origin(self@).1,
            ),
    {
        let (ox, oy) = self.content_origin();
        let lx: i32 = sx - ox;
        let ly: i32 = sy - oy;
        let mut i: usize = self.widgets.len();
        while i > 0
            invariant
                i <= self.widgets@.len(),
                lx == sx - origin(self@).0,
                ly == sy - origin(self@).1,
                forall|j: int|
                    i <= j < self.widgets@.len() ==> !widget::covers(
                        #[trigger] self@.widgets[j],
                        lx as int,
                        ly as int,
                    ),
            decreases i,
        {
            assert(self@.widgets[i - 1] == self.widgets@[i - 1]@);
            if widget_covers(&self.widgets[i - 1], lx, ly) {
                proof {
                    hit_at(self@.widgets, lx as int, ly as int, i - 1);
                }
                return Some(i - 1);
            }
            i = i - 1;
        }
        proof {
            hit_at(self@.widgets, lx as int, ly as int, -1);
        }
        None
    }
}

// ── Rows of labels ──────────────────────────────────────────────────────────

/// The window with the labels from `from` on showing these texts.
pub open spec fn rows_labelled(w: WindowModel, from: int, texts: Seq<Seq<char>>) -> WindowModel {
    WindowModel {
        widgets: w.widgets.map(
            |i: int, wgt: Widget<Seq<char>>|
                if from <= i < from + texts.len() && wgt is Label {
                    widget::with_text(wgt, texts[i - from])
                } else {
                    wgt
                },
        ),
        ..w
    }
}

pub fn set_labels(win: &mut Window, from: usize, texts: &Vec<String>)
    requires
        from <= 16,
        texts@.len() <= 16,
    ensures
        final(win)@ == rows_labelled(old(win)@, from as int, text::strings(texts@)),
        old(win)@.wf() ==> final(win)@.wf(),
{
    let mut k: usize = 0;
    let ghost all = text::strings(texts@);
    assert(win@.widgets =~= rows_labelled(win@, from as int, all.take(0)).widgets);
    while k < texts.len()
        invariant
            k <= texts@.len() <= 16,
            from <= 16,
            all == text::strings(texts@),
            win@ == rows_labelled(old(win)@, from as int, all.take(k as int)),
            old(win)@.wf() ==> win@.wf(),
        decreases texts@.len() - k,
    {
        manager::set_label_text(win, from + k, texts[k].as_str());
        assert(all.take(k + 1) =~= all.take(k as int).push(texts@[k as int]@));
        assert(win@.widgets =~= rows_labelled(old(win)@, from as int, all.take(k + 1)).widgets);
        k = k + 1;
    }
    assert(all.take(k as int) =~= all);
}

// ── Paths ───────────────────────────────────────────────────────────────────

/// The last part of a path.
pub open spec fn base_name(path: Seq<char>) -> Seq<char> {
    let p = text::trim_end_of(path, '/');
    p.skip(text::find_last(p, '/') + 1)
}

pub fn fm_display_name(path: &str) -> (r: String)
    ensures
        r@ == base_name(path@),
{
    let p = text::trim_end_matches(path, '/');
    let v = text::chars_of(p.as_str());
    let at: usize = text::find_last_char(v.as_slice(), '/');
    let r = text::string_between(v.as_slice(), at, v.len());
    assert(r@ =~= base_name(path@));
    r
}

/// The folders that can be written to.
pub open spec fn writable(path: Seq<char>) -> bool {
    text::has_prefix(path, "/data"@) || text::has_prefix(path, "/disk"@) || text::has_prefix(
        path,
        "/usb"@,
    )
}

pub fn fm_is_writable_path(path: &str) -> (r: bool)
    ensures
        r == writable(path@),
{
    text::starts_with(path, "/data") || text::starts_with(path, "/disk") || text::starts_with(
        path,
        "/usb",
    )
}

pub open spec fn at_root(path: Seq<char>) -> bool {
    path.len() == 0 || path == "/"@
}

pub fn is_root(path: &str) -> (r: bool)
    ensures
        r == at_root(path@),
{
    path.is_empty() || text::same(path, "/")
}

/// Where something new goes: `/data` from the top, the current folder where
/// it can be written to, and nowhere otherwise.
pub open spec fn working_parent(path: Seq<char>) -> Seq<char> {
    if at_root(path) {
        "/data"@
    } else if writable(path) {
        path
    } else {
        Seq::empty()
    }
}

pub fn fm_working_parent(path: &str) -> (r: String)
    ensures
        r@ == working_parent(path@),
{
    if is_root(path) {
        String::from_str("/data")
    } else if fm_is_writable_path(path) {
        path.to_owned()
    } else {
        String::new()
    }
}

/// The `n`-th name to try: the name itself, then with `_2`, `_3` and so on,
/// in front of the extension where a file has one.
pub open spec fn candidate(base: Seq<char>, n: int, is_dir: bool) -> Seq<char> {
    let dot = text::find_last(base, '.');
    if n == 1 {
        base
    } else if is_dir || dot < 0 {
        base + "_"@ + text::decimal(n as nat)
    } else {
        base.take(dot) + "_"@ + text::decimal(n as nat) + base.skip(dot)
    }
}

pub open spec fn child(parent: Seq<char>, name: Seq<char>) -> Seq<char> {
    text::trim_end_of(parent, '/') + "/"@ + name
}

/// Whether a listing already has this name. A folder is listed with a slash
/// at its end.
pub open spec fn taken(list: Seq<Seq<char>>, parent: Seq<char>, name: Seq<char>, is_dir: bool) -> bool {
    let full = child(parent, name);
    if is_dir {
        exists|k: int|
            0 <= k < list.len() && text::trim_end_of(#[trigger] list[k], '/') == text::trim_end_of(
                full + "/"@,
                '/',
            )
    } else {
        exists|k: int| 0 <= k < list.len() && #[trigger] list[k] == full
    }
}

/// The first of the names from the `n`-th on that is free, or the plain name
/// if none is.
pub open spec fn free_name(
    list: Seq<Seq<char>>,
    parent: Seq<char>,
    base: Seq<char>,
    is_dir: bool,
    n: int,
) -> Seq<char>
    decreases 256 - n,
{
    if n >= 256 {
        base
    } else if !taken(list, parent, candidate(base, n, is_dir), is_dir) {
        candidate(base, n, is_dir)
    } else {
        free_name(list, parent, base, is_dir, n + 1)
    }
}

fn name_candidate(base: &str, n: u64, is_dir: bool) -> (r: String)
    ensures
        r@ == candidate(base@, n as int, is_dir),
{
    if n == 1 {
        return base.to_owned();
    }
    let v = text::chars_of(base);
    let dot: usize = text::find_last_char(v.as_slice(), '.');
    if is_dir || dot == 0 {
        let mut s = base.to_owned();
        s.append("_");
        text::push_decimal(&mut s, n);
        s
    } else {
        let mut s = text::string_between(v.as_slice(), 0, dot - 1);
        assert(s@ =~= base@.take(dot - 1));
        s.append("_");
        text::push_decimal(&mut s, n);
        let ext = text::string_between(v.as_slice(), dot - 1, v.len());
        assert(ext@ =~= base@.skip(dot - 1));
        s.append(ext.as_str());
        s
    }
}

pub fn child_path(parent: &str, name: &str) -> (r: String)
    ensures
        r@ == child(parent@, name@),
{
    let mut s = text::trim_end_matches(parent, '/');
    s.append("/");
    s.append(name);
    s
}

fn is_taken(list: &Vec<String>, parent: &str, name: &str, is_dir: bool) -> (r: bool)
    ensures
        r == taken(text::strings(list@), parent@, name@, is_dir),
{
    let full = child_path(parent, name);
    let wanted = if is_dir {
        let mut f = full.clone();
        f.append("/");
        text::trim_end_matches(f.as_str(), '/')
    } else {
        full
    };
    let ghost all = text::strings(list@);
    let mut k: usize = 0;
    while k < list.len()
        invariant
            k <= list@.len(),
            all == text::strings(list@),
            is_dir ==> wanted@ == text::trim_end_of(child(parent@, name@) + "/"@, '/'),
            !is_dir ==> wanted@ == child(parent@, name@),
            forall|j: int|
                0 <= j < k ==> (if is_dir {
                    text::trim_end_of(#[trigger] all[j], '/') != wanted@
                } else {
                    all[j] != wanted@
                }),
        decreases list@.len() - k,
    {
        assert(all[k as int] == list@[k as int]@);
        let same = if is_dir {
            text::same(
                text::trim_end_matches(list[k].as_str(), '/').as_str(),
                wanted.as_str(),
            )
        } else {
            text::same(list[k].as_str(), wanted.as_str())
        };
        if same {
            return true;
        }
        k = k + 1;
    }
    false
}

/// A name like `base` that nothing in `parent` has yet. Where the folder
/// could not be listed the name is taken as it is.
pub fn fm_unique_name(list: Option<&Vec<String>>, parent: &str, base: &str, is_dir: bool) -> (r:
    String)
    ensures
        r@ == match list {
            None => base@,
            Some(v) => free_name(text::strings(v@), parent@, base@, is_dir, 1),
        },
{
    let v = match list {
        Some(v) => v,
        None => {
            return base.to_owned();
        },
    };
    let ghost all = text::strings(v@);
    let mut n: u64 = 1;
    while n < 256
        invariant
            1 <= n <= 256,
            list == Some(v),
            all == text::strings(v@),
            free_name(all, parent@, base@, is_dir, 1) == free_name(
                all,
                parent@,
                base@,
                is_dir,
                n as int,
            ),
        decreases 256 - n,
    {
        let c = name_candidate(base, n, is_dir);
        if !is_taken(v, parent, c.as_str(), is_dir) {
            return c;
        }
        n = n + 1;
    }
    base.to_owned()
}

/// A new name clashes with nothing in the folder, unless 255 names are taken.
pub proof fn a_free_name_is_free(
    list: Seq<Seq<char>>,
    parent: Seq<char>,
    base: Seq<char>,
    is_dir: bool,
    n: int,
)
    requires
        1 <= n,
        exists|m: int| n <= m < 256 && !taken(list, parent, #[trigger] candidate(base, m, is_dir), is_dir),
    ensures
        !taken(list, parent, free_name(list, parent, base, is_dir, n), is_dir),
    decreases 256 - n,
{
    let m = choose|m: int|
        n <= m < 256 && !taken(list, parent, #[trigger] candidate(base, m, is_dir), is_dir);
    if taken(list, parent, candidate(base, n, is_dir), is_dir) {
        assert(m != n);
        a_free_name_is_free(list, parent, base, is_dir, n + 1);
    }
}

/// Does this name look like a picture the OS could open?
pub open spec fn picture_name(name: Seq<char>) -> bool {
    let l = text::lowered(text::trim_end_of(name, '/'));
    text::has_suffix(l, ".png"@) || text::has_suffix(l, ".jpg"@) || text::has_suffix(l, ".jpeg"@)
        || text::has_suffix(l, ".bmp"@)
}

pub fn looks_like_picture(name: &str) -> (r: bool)
    ensures
        r == picture_name(name@),
{
    let l = text::lowercase(text::trim_end_matches(name, '/').as_str());
    let l = l.as_str();
    text::ends_with(l, ".png") || text::ends_with(l, ".jpg") || text::ends_with(l, ".jpeg")
        || text::ends_with(l, ".bmp")
}

/// `.c` and `.h` files open in the Code Editor, every other text in Notepad.
pub open spec fn c_source(path: Seq<char>) -> bool {
    text::has_suffix(text::lowered(path), ".c"@) || text::has_suffix(text::lowered(path), ".h"@)
}

pub fn is_c_source_path(path: &str) -> (r: bool)
    ensures
        r == c_source(path@),
{
    let l = text::lowercase(path);
    text::ends_with(l.as_str(), ".c") || text::ends_with(l.as_str(), ".h")
}

// ── File Explorer ───────────────────────────────────────────────────────────

pub open spec fn view_mode(w: WindowModel) -> FmViewMode {
    match w.app {
        AppModel::FileManager(f) => f.view_mode,
        _ => FmViewMode::List,
    }
}

/// The entry at a point of the content.
pub open spec fn entry_at(mode: FmViewMode, lx: int, ly: int) -> Option<usize> {
    match mode {
        FmViewMode::List => if 62 <= ly < 62 + 12 * 18 {
            Some(((ly - 62) / 18) as usize)
        } else {
            None
        },
        FmViewMode::LargeIcons => {
            let col = (lx - 10) / 108;
            let row = (ly - 62) / 96;
            if ly < 62 || lx < 10 || col >= 5 || row * 5 + col >= 10 {
                None
            } else {
                Some((row * 5 + col) as usize)
            }
        },
    }
}

fn mode_of(win: &Window) -> (r: FmViewMode)
    ensures
        r == view_mode(win@),
{
    match &win.app {
        AppState::FileManager(f) => f.view_mode,
        _ => FmViewMode::List,
    }
}

pub fn file_manager_entry_at(win: &Window, lx: i32, ly: i32) -> (r: Option<usize>)
    ensures
        r == entry_at(view_mode(win@), lx as int, ly as int),
{
    match mode_of(win) {
        FmViewMode::List => {
            if ly < 62 {
                return None;
            }
            let r: usize = (ly - 62) as usize / FM_ROW_H;
            if r < FM_ROWS {
                Some(r)
            } else {
                None
            }
        },
        FmViewMode::LargeIcons => {
            if ly < 62 || lx < 10 {
                return None;
            }
            let col: usize = (lx - 10) as usize / FM_LG_CELL_W;
            let row: usize = (ly - 62) as usize / FM_LG_CELL_H;
            if col >= FM_LG_COLS {
                return None;
            }
            let idx: usize = row * FM_LG_COLS + col;
            if idx < FM_LG_VISIBLE {
                Some(idx)
            } else {
                None
            }
        },
    }
}

pub open spec fn entry_text(entries: Seq<Seq<char>>, i: int) -> Seq<char> {
    if i < entries.len() {
        entries[i]
    } else {
        Seq::empty()
    }
}

/// The list rows, with the selected one marked.
pub open spec fn marked_rows(entries: Seq<Seq<char>>, selected: Option<usize>) -> Seq<Seq<char>> {
    Seq::new(
        FM_ROWS as nat,
        |i: int|
            if selected == Some(i as usize) {
                "> "@ + entry_text(entries, i)
            } else {
                entry_text(entries, i)
            },
    )
}

/// The list rows brought up to date; large icons have none.
pub open spec fn rows_shown(w: WindowModel) -> WindowModel {
    match w.app {
        AppModel::FileManager(f) if f.view_mode == FmViewMode::List => rows_labelled(
            w,
            1,
            marked_rows(f.entries, f.selected),
        ),
        _ => w,
    }
}

fn entry_or_empty(entries: &Vec<String>, i: usize) -> (r: String)
    ensures
        r@ == entry_text(text::strings(entries@), i as int),
{
    if i < entries.len() {
        entries[i].clone()
    } else {
        String::new()
    }
}

fn row_texts(entries: &Vec<String>, selected: Option<usize>) -> (r: Vec<String>)
    ensures
        text::strings(r@) == marked_rows(text::strings(entries@), selected),
        r@.len() == FM_ROWS,
{
    let mut r: Vec<String> = Vec::new();
    let mut i: usize = 0;
    while i < FM_ROWS
        invariant
            i <= FM_ROWS,
            r@.len() == i,
            forall|j: int|
                0 <= j < i ==> (#[trigger] r@[j])@ == marked_rows(
                    text::strings(entries@),
                    selected,
                )[j],
        decreases FM_ROWS - i,
    {
        let t = entry_or_empty(entries, i);
        let marked = match selected {
            Some(s) => s == i,
            None => false,
        };
        let line = if marked { String::from_str("> ").concat(t.as_str()) } else { t };
        r.push(line);
        i = i + 1;
    }
    assert(text::strings(r@) =~= marked_rows(text::strings(entries@), selected));
    r
}

pub fn file_manager_update_row_labels(win: &mut Window)
    ensures
        final(win)@ == rows_shown(old(win)@),
        old(win)@.wf() ==> final(win)@.wf(),
{
    let rows = match &win.app {
        AppState::FileManager(f) => {
            if f.view_mode != FmViewMode::List {
                return;
            }
            row_texts(&f.entries, f.selected)
        },
        _ => {
            return;
        },
    };
    set_labels(win, 1, &rows);
}

/// Another entry selected, or none.
pub open spec fn selection_set(w: WindowModel, row: Option<usize>) -> WindowModel {
    match w.app {
        AppModel::FileManager(f) => rows_shown(
            WindowModel {
                app: AppModel::FileManager(state::FileManagerModel { selected: row, ..f }),
                ..w
            },
        ),
        _ => w,
    }
}

pub fn file_manager_set_selection(win: &mut Window, row: Option<usize>)
    ensures
        final(win)@ == selection_set(old(win)@, row),
        old(win)@.wf() ==> final(win)@.wf(),
{
    match &mut win.app {
        AppState::FileManager(f) => {
            f.selected = row;
        },
        _ => {
            return;
        },
    }
    file_manager_update_row_labels(win);
}

/// The window without the widgets from `base` on: the context menu closed.
pub open spec fn menu_closed(w: WindowModel, base: int) -> WindowModel {
    if w.widgets.len() > base {
        WindowModel { widgets: w.widgets.take(base), ..w }
    } else {
        w
    }
}

pub fn close_menu(win: &mut Window, base: usize)
    ensures
        final(win)@ == menu_closed(old(win)@, base as int),
        old(win)@.wf() ==> final(win)@.wf(),
{
    if win.widgets.len() > base {
        win.widgets.truncate(base);
        assert(win@.widgets =~= old(win)@.widgets.take(base as int));
    }
}

pub fn fm_close_menu(win: &mut Window)
    ensures
        final(win)@ == menu_closed(old(win)@, FM_WIDGET_BASE as int),
        old(win)@.wf() ==> final(win)@.wf(),
{
    close_menu(win, FM_WIDGET_BASE);
}

/// Whether the selected entry could be a picture.
pub open spec fn picture_selected(w: WindowModel) -> bool {
    match w.app {
        AppModel::FileManager(f) => match f.selected {
            Some(i) => i < f.entries.len() && picture_name(f.entries[i as int]),
            None => false,
        },
        _ => false,
    }
}

/// The commands of the context menu; the wallpaper command only for a file
/// that could be a picture.
pub open spec fn menu_items(picture: bool) -> Seq<(Seq<char>, WinAction)> {
    let head = seq![("Open"@, WinAction::FmOpen)];
    let middle = if picture {
        seq![("Set as wallpaper"@, WinAction::FmSetWallpaper)]
    } else {
        Seq::empty()
    };
    head + middle + seq![
        ("New folder"@, WinAction::FmNewFolder),
        ("New file"@, WinAction::FmNewFile),
        ("Delete"@, WinAction::FmDelete),
        ("Refresh"@, WinAction::RefreshFiles),
    ]
}

/// Where the menu opens: near the pointer, and never far down.
pub open spec fn menu_y(w: WindowModel, my: int) -> int {
    let v = my - origin(w).1 - 4;
    if 0 <= v <= 200 {
        v
    } else {
        200
    }
}

pub open spec fn menu_buttons(items: Seq<(Seq<char>, WinAction)>, ly: int) -> Seq<
    Widget<Seq<char>>,
> {
    Seq::new(
        items.len(),
        |i: int|
            widget::button_of(120, (ly + i * 28) as usize, 140, 24, items[i].0, items[i].1),
    )
}

/// The context menu opened.
pub open spec fn context_opened(w: WindowModel, my: int) -> WindowModel {
    let c = menu_closed(w, FM_WIDGET_BASE as int);
    WindowModel {
        widgets: c.widgets + menu_buttons(menu_items(picture_selected(w)), menu_y(w, my)),
        ..c
    }
}

fn has_picture_selected(win: &Window) -> (r: bool)
    ensures
        r == picture_selected(win@),
{
    match &win.app {
        AppState::FileManager(f) => match f.selected {
            Some(i) => i < f.entries.len() && looks_like_picture(f.entries[i].as_str()),
            None => false,
        },
        _ => false,
    }
}

pub fn file_manager_open_context(win: &mut Window, my: i32)
    requires
        old(win)@.wf(),
        manager::on_screen((0, my)),
    ensures
        final(win)@ == context_opened(old(win)@, my as int),
        final(win)@.wf(),
{
    fm_close_menu(win);
    let (_ox, oy) = win.content_origin();
    let v: i32 = my - oy - 4;
    let ly: usize = if 0 <= v && v <= 200 { v as usize } else { 200 };
    let picture = has_picture_selected(win);
    let ghost before = win@.widgets;
    win.widgets.push(Widget::button(120, ly, 140, 24, "Open", WinAction::FmOpen));
    let mut y: usize = ly + 28;
    if picture {
        win.widgets.push(
            Widget::button(120, y, 140, 24, "Set as wallpaper", WinAction::FmSetWallpaper),
        );
        y = y + 28;
    }
    win.widgets.push(Widget::button(120, y, 140, 24, "New folder", WinAction::FmNewFolder));
    win.widgets.push(Widget::button(120, y + 28, 140, 24, "New file", WinAction::FmNewFile));
    win.widgets.push(Widget::button(120, y + 56, 140, 24, "Delete", WinAction::FmDelete));
    win.widgets.push(Widget::button(120, y + 84, 140, 24, "Refresh", WinAction::RefreshFiles));
    assert(win@.widgets =~= before + menu_buttons(menu_items(picture), ly as int));
}

/// A mouse press in a File Explorer: the window after it, whether it was
/// used, and whether the selected entry is to be opened.
pub open spec fn explorer_mouse(
    w: WindowModel,
    mx: int,
    my: int,
    left_edge: bool,
    right_edge: bool,
    dbl: bool,
) -> (WindowModel, bool, bool) {
    let on = widget_under(w, mx, my);
    let entry = entry_at(view_mode(w), mx - origin(w).0, my - origin(w).1);
    let n = match w.app {
        AppModel::FileManager(f) => f.entries.len(),
        _ => 0,
    };
    let chosen = match entry {
        Some(i) if i < n => Some(i),
        _ => None,
    };
    if right_edge {
        if on >= 0 {
            (w, false, false)
        } else {
            (
                context_opened(selection_set(menu_closed(w, FM_WIDGET_BASE as int), chosen), my),
                true,
                false,
            )
        }
    } else if !left_edge {
        (w, false, false)
    } else if on >= 0 {
        (
            if on < FM_WIDGET_BASE {
                menu_closed(w, FM_WIDGET_BASE as int)
            } else {
                w
            },
            false,
            false,
        )
    } else {
        (
            selection_set(menu_closed(w, FM_WIDGET_BASE as int), chosen),
            true,
            dbl && chosen is Some,
        )
    }
}

/// Right-click, list selection and double-click in a File Explorer. The
/// second answer says that the selected entry is to be opened.
pub fn file_manager_handle_mouse(
    win: &mut Window,
    mx: i32,
    my: i32,
    left_edge: bool,
    right_edge: bool,
    dbl: bool,
) -> (r: (bool, bool))
    requires
        old(win)@.wf(),
        manager::on_screen((mx, my)),
    ensures
        (final(win)@, r.0, r.1) == explorer_mouse(
            old(win)@,
            mx as int,
            my as int,
            left_edge,
            right_edge,
            dbl,
        ),
        final(win)@.wf(),
{
    if !right_edge && !left_edge {
        return (false, false);
    }
    let (ox, oy) = win.content_origin();
    let lx: i32 = mx - ox;
    let ly: i32 = my - oy;
    let n: usize = match &win.app {
        AppState::FileManager(f) => f.entries.len(),
        _ => 0,
    };
    let chosen = match file_manager_entry_at(win, lx, ly) {
        Some(row) => if row < n {
            Some(row)
        } else {
            None
        },
        None => None,
    };
    if let Some(wi) = win.widget_at(mx, my) {
        if !right_edge && wi < FM_WIDGET_BASE {
            fm_close_menu(win);
        }
        return (false, false);
    }
    fm_close_menu(win);
    file_manager_set_selection(win, chosen);
    if right_edge {
        file_manager_open_context(win, my);
        return (true, false);
    }
    (true, dbl && chosen.is_some())
}

pub open spec fn explorer_title(path: Seq<char>) -> Seq<char> {
    if path.len() == 0 {
        "File Explorer"@
    } else {
        "File Explorer — "@ + path
    }
}

pub open spec fn shown_folder(path: Seq<char>) -> Seq<char> {
    if path.len() == 0 {
        "/"@
    } else {
        path
    }
}

pub open spec fn location_line(path: Seq<char>, n: int, mode: FmViewMode) -> Seq<char> {
    "Location: "@ + shown_folder(path) + "  —  "@ + text::decimal(n as nat) + " items  ·  "@ + (
    match mode {
        FmViewMode::List => "List"@,
        FmViewMode::LargeIcons => "Icons"@,
    }) + " view"@
}

pub open spec fn visible_rows(mode: FmViewMode) -> int {
    match mode {
        FmViewMode::List => FM_ROWS as int,
        FmViewMode::LargeIcons => FM_LG_VISIBLE as int,
    }
}

/// A File Explorer showing a fresh listing, with nothing selected.
pub open spec fn listing_shown(w: WindowModel, path: Seq<char>, files: Seq<Seq<char>>) -> WindowModel {
    let mode = view_mode(w);
    let w1 = if text::has_prefix(w.title, "File Explorer"@) {
        WindowModel { title: explorer_title(path), ..w }
    } else {
        w
    };
    let w2 = manager::labelled(
        w1,
        0,
        location_line(path, state::at_most(files.len() as int, visible_rows(mode)), mode),
    );
    let rows = if mode == FmViewMode::List {
        marked_rows(files, None)
    } else {
        marked_rows(Seq::empty(), None)
    };
    let w3 = rows_labelled(w2, 1, rows);
    match w3.app {
        AppModel::FileManager(f) => WindowModel {
            app: AppModel::FileManager(
                state::FileManagerModel { entries: files, selected: None, ..f },
            ),
            ..w3
        },
        _ => w3,
    }
}

pub fn folder_shown(path: &str) -> (r: String)
    ensures
        r@ == shown_folder(path@),
{
    if path.is_empty() {
        String::from_str("/")
    } else {
        path.to_owned()
    }
}

pub fn title_for(path: &str) -> (r: String)
    ensures
        r@ == explorer_title(path@),
{
    if path.is_empty() {
        String::from_str("File Explorer")
    } else {
        String::from_str("File Explorer — ").concat(path)
    }
}

/// Shows the files of a folder; a folder that could not be listed has none.
pub fn refresh_file_manager(win: &mut Window, path: &str, files: Vec<String>)
    ensures
        final(win)@ == listing_shown(old(win)@, path@, text::strings(files@)),
        old(win)@.wf() ==> final(win)@.wf(),
{
    if text::starts_with(win.title.as_str(), "File Explorer") {
        win.title = title_for(path);
    }
    let mode = mode_of(win);
    let visible: usize = match mode {
        FmViewMode::List => FM_ROWS,
        FmViewMode::LargeIcons => FM_LG_VISIBLE,
    };
    let n: usize = if files.len() <= visible { files.len() } else { visible };
    let mut line = String::from_str("Location: ");
    line.append(folder_shown(path).as_str());
    line.append("  —  ");
    text::push_decimal(&mut line, n as u64);
    line.append(" items  ·  ");
    line.append(
        match mode {
            FmViewMode::List => "List",
            FmViewMode::LargeIcons => "Icons",
        },
    );
    line.append(" view");
    manager::set_label_text(win, 0, line.as_str());
    let none: Vec<String> = Vec::new();
    assert(text::strings(none@) =~= Seq::empty());
    let rows = match mode {
        FmViewMode::List => row_texts(&files, None),
        FmViewMode::LargeIcons => row_texts(&none, None),
    };
    set_labels(win, 1, &rows);
    match &mut win.app {
        AppState::FileManager(f) => {
            f.entries = files;
            f.selected = None;
        },
        _ => {},
    }
}

// ── Save As / Open dialog ───────────────────────────────────────────────────

/// The dialog's rows: the names of the entries, with the selected one marked.
pub open spec fn dialog_rows(entries: Seq<Seq<char>>, selected: Option<usize>) -> Seq<Seq<char>> {
    Seq::new(
        FD_ROWS as nat,
        |i: int|
            (if selected == Some(i as usize) {
                "> "@
            } else {
                "  "@
            }) + (if i < entries.len() {
                base_name(entries[i])
            } else {
                ""@
            }),
    )
}

fn dialog_texts(entries: &Vec<String>, selected: Option<usize>) -> (r: Vec<String>)
    ensures
        text::strings(r@) == dialog_rows(text::strings(entries@), selected),
        r@.len() == FD_ROWS,
{
    let mut r: Vec<String> = Vec::new();
    let mut i: usize = 0;
    while i < FD_ROWS
        invariant
            i <= FD_ROWS,
            r@.len() == i,
            forall|j: int|
                0 <= j < i ==> (#[trigger] r@[j])@ == dialog_rows(
                    text::strings(entries@),
                    selected,
                )[j],
        decreases FD_ROWS - i,
    {
        let marked = match selected {
            Some(s) => s == i,
            None => false,
        };
        let mut line = if marked { String::from_str("> ") } else { String::from_str("  ") };
        if i < entries.len() {
            line.append(fm_display_name(entries[i].as_str()).as_str());
        } else {
            line.append("");
        }
        r.push(line);
        i = i + 1;
    }
    assert(text::strings(r@) =~= dialog_rows(text::strings(entries@), selected));
    r
}

pub open spec fn name_box(w: WindowModel, t: Seq<char>) -> WindowModel {
    if FD_NAME_BOX < w.widgets.len() && w.widgets[FD_NAME_BOX as int] is TextBox {
        WindowModel {
            widgets: w.widgets.update(
                FD_NAME_BOX as int,
                widget::with_text(w.widgets[FD_NAME_BOX as int], t),
            ),
            ..w
        }
    } else {
        w
    }
}

fn set_name_box(win: &mut Window, t: &str)
    ensures
        final(win)@ == name_box(old(win)@, t@),
        old(win)@.wf() ==> final(win)@.wf(),
{
    if FD_NAME_BOX < win.widgets.len() {
        if let Widget::TextBox { text: b, .. } = &mut win.widgets[FD_NAME_BOX] {
            *b = t.to_owned();
        }
    }
    assert(win@.widgets =~= name_box(old(win)@, t@).widgets);
}

/// A mouse press in a file dialog: the window after it, whether it was used,
/// and whether the selected entry is to be opened. Picking a file puts its
/// name into the name box.
pub open spec fn dialog_mouse(w: WindowModel, mx: int, my: int, pressed: bool, dbl: bool) -> (
    WindowModel,
    bool,
    bool,
) {
    let ly = my - origin(w).1;
    let row = (ly - 56) / 18;
    if !pressed || widget_under(w, mx, my) >= 0 {
        (w, false, false)
    } else if ly < 56 || row >= FD_ROWS {
        (w, true, false)
    } else {
        match w.app {
            AppModel::FileDialog(f) => if row >= f.entries.len() {
                (
                    WindowModel {
                        app: AppModel::FileDialog(state::FileDialogModel { selected: None, ..f }),
                        ..w
                    },
                    true,
                    false,
                )
            } else {
                let sel = Some(row as usize);
                let w1 = WindowModel {
                    app: AppModel::FileDialog(state::FileDialogModel { selected: sel, ..f }),
                    ..w
                };
                let w2 = if text::has_suffix(f.entries[row], "/"@) {
                    w1
                } else {
                    name_box(w1, base_name(f.entries[row]))
                };
                (rows_labelled(w2, 1, dialog_rows(f.entries, sel)), true, dbl)
            },
            _ => (w, true, false),
        }
    }
}

pub fn file_dialog_handle_mouse(win: &mut Window, mx: i32, my: i32, pressed: bool, dbl: bool) -> (r:
    (bool, bool))
    requires
        old(win)@.wf(),
        manager::on_screen((mx, my)),
    ensures
        (final(win)@, r.0, r.1) == dialog_mouse(old(win)@, mx as int, my as int, pressed, dbl),
        final(win)@.wf(),
{
    if !pressed {
        return (false, false);
    }
    if win.widget_at(mx, my).is_some() {
        return (false, false);
    }
    let (_ox, oy) = win.content_origin();
    let ly: i32 = my - oy;
    if ly < 56 {
        return (true, false);
    }
    let row: usize = (ly - 56) as usize / FM_ROW_H;
    if row >= FD_ROWS {
        return (true, false);
    }
    let mut rows: Vec<String> = Vec::new();
    let mut name: Option<String> = None;
    match &mut win.app {
        AppState::FileDialog(f) => {
            if row >= f.entries.len() {
                f.selected = None;
                return (true, false);
            }
            f.selected = Some(row);
            rows = dialog_texts(&f.entries, f.selected);
            if !text::ends_with(f.entries[row].as_str(), "/") {
                name = Some(fm_display_name(f.entries[row].as_str()));
            }
        },
        _ => {
            return (true, false);
        },
    }
    match name {
        Some(t) => {
            set_name_box(win, t.as_str());
        },
        None => {},
    }
    set_labels(win, 1, &rows);
    (true, dbl)
}

pub open spec fn dialog_location(path: Seq<char>, n: int) -> Seq<char> {
    "Location: "@ + shown_folder(path) + "  —  "@ + text::decimal(n as nat) + " items"@
}

/// A file dialog showing a fresh listing, with nothing selected. A row that
/// was selected keeps its mark until the next click.
pub open spec fn dialog_listing(w: WindowModel, path: Seq<char>, files: Seq<Seq<char>>) -> WindowModel {
    let w1 = manager::labelled(
        w,
        0,
        dialog_location(path, state::at_most(files.len() as int, FD_ROWS as int)),
    );
    match w1.app {
        AppModel::FileDialog(f) => WindowModel {
            app: AppModel::FileDialog(
                state::FileDialogModel { entries: files, selected: None, ..f },
            ),
            ..rows_labelled(w1, 1, dialog_rows(files, f.selected))
        },
        _ => rows_labelled(w1, 1, dialog_rows(files, None)),
    }
}

pub fn refresh_file_dialog(win: &mut Window, path: &str, files: Vec<String>)
    ensures
        final(win)@ == dialog_listing(old(win)@, path@, text::strings(files@)),
        old(win)@.wf() ==> final(win)@.wf(),
{
    let n: usize = if files.len() <= FD_ROWS { files.len() } else { FD_ROWS };
    let mut line = String::from_str("Location: ");
    line.append(folder_shown(path).as_str());
    line.append("  —  ");
    text::push_decimal(&mut line, n as u64);
    line.append(" items");
    manager::set_label_text(win, 0, line.as_str());
    let selected = match &win.app {
        AppState::FileDialog(f) => f.selected,
        _ => None,
    };
    let rows = dialog_texts(&files, selected);
    set_labels(win, 1, &rows);
    match &mut win.app {
        AppState::FileDialog(f) => {
            f.entries = files;
            f.selected = None;
        },
        _ => {},
    }
}

// ── Laws ────────────────────────────────────────────────────────────────────

/// A click goes to the widget on top: it covers the point, and none after it
/// does; where there is none, no widget covers the point.
pub proof fn clicks_go_to_the_widget_on_top(ws: Seq<Widget<Seq<char>>>, lx: int, ly: int, j: int)
    requires
        hit(ws, lx, ly) < j < ws.len(),
        0 <= j,
    ensures
        -1 <= hit(ws, lx, ly),
        hit(ws, lx, ly) >= 0 ==> widget::covers(ws[hit(ws, lx, ly)], lx, ly),
        !widget::covers(ws[j], lx, ly),
    decreases ws.len(),
{
    hit_is_on_it(ws, lx, ly);
    if j < ws.len() - 1 {
        clicks_go_to_the_widget_on_top(ws.drop_last(), lx, ly, j);
    }
}

proof fn hit_is_on_it(ws: Seq<Widget<Seq<char>>>, lx: int, ly: int)
    ensures
        -1 <= hit(ws, lx, ly) < ws.len(),
        hit(ws, lx, ly) >= 0 ==> widget::covers(ws[hit(ws, lx, ly)], lx, ly),
    decreases ws.len(),
{
    if ws.len() > 0 && !widget::covers(ws.last(), lx, ly) {
        hit_is_on_it(ws.drop_last(), lx, ly);
    }
}

pub open spec fn slashless(s: Seq<char>) -> bool {
    forall|i: int| 0 <= i < s.len() ==> #[trigger] s[i] != '/'
}

/// The last part of a path is the name behind the last slash, and slashes at
/// the end do not count; a name without a folder is itself.
pub proof fn the_last_part_is_the_name(parent: Seq<char>, name: Seq<char>, n: nat)
    requires
        name.len() > 0,
        slashless(name),
    ensures
        base_name(parent + "/"@ + name) == name,
        base_name(parent + "/"@ + name + Seq::new(n, |i: int| '/')) == name,
        base_name(name) == name,
        base_name(child(parent, name)) == name,
{
    reveal_strlit("/");
    name_of(parent + "/"@, name, n);
    name_of(parent + "/"@, name, 0);
    name_of(Seq::empty(), name, 0);
    name_of(text::trim_end_of(parent, '/') + "/"@, name, 0);
    let none = Seq::new(0, |i: int| '/');
    assert(parent + "/"@ + name + none =~= parent + "/"@ + name);
    assert(Seq::<char>::empty() + name + none =~= name);
    assert(text::trim_end_of(parent, '/') + "/"@ + name + none =~= child(parent, name));
}

proof fn name_of(head: Seq<char>, name: Seq<char>, n: nat)
    requires
        name.len() > 0,
        slashless(name),
        head.len() > 0 ==> head.last() == '/',
    ensures
        base_name(head + name + Seq::new(n, |i: int| '/')) == name,
{
    let p = head + name;
    assert(name[name.len() - 1] != '/');
    assert(p.last() == name[name.len() - 1]);
    text::trimming_an_end_removes_all_of_it(p, '/', n);
    let at = head.len() - 1;
    assert forall|j: int| at < j < p.len() implies p[j] != '/' by {
        assert(p[j] == name[j - head.len()]);
    }
    text::find_last_at(p, '/', at);
    assert(p.skip(at + 1) =~= name);
}

/// What can be written to is what lies on the three disks that keep files.
pub proof fn only_disks_can_be_written_to(x: Seq<char>)
    ensures
        writable("/data"@ + x),
        writable("/disk"@ + x),
        writable("/usb"@ + x),
        writable(x) ==> x.len() >= 4 && x[0] == '/' && (x[1] == 'd' && (x[2] == 'a' || x[2] == 'i')
            || x[1] == 'u' && x[2] == 's' && x[3] == 'b'),
        !writable("/fat"@ + x),
        !writable(Seq::empty()),
{
    reveal_strlit("/data");
    reveal_strlit("/disk");
    reveal_strlit("/usb");
    reveal_strlit("/fat");
    assert(("/data"@ + x).take(5) =~= "/data"@);
    assert(("/disk"@ + x).take(5) =~= "/disk"@);
    assert(("/usb"@ + x).take(4) =~= "/usb"@);
    shares_letters(x, "/data"@);
    shares_letters(x, "/disk"@);
    shares_letters(x, "/usb"@);
    let f = "/fat"@ + x;
    assert(f[1] == 'f');
    shares_letters(f, "/data"@);
    shares_letters(f, "/disk"@);
    shares_letters(f, "/usb"@);
}

proof fn shares_letters(s: Seq<char>, p: Seq<char>)
    ensures
        text::has_prefix(s, p) ==> forall|i: int| 0 <= i < p.len() ==> s[i] == p[i],
{
    assert forall|i: int| text::has_prefix(s, p) && 0 <= i < p.len() implies s[i] == p[i] by {
        assert(s.take(p.len() as int)[i] == s[i]);
    }
}

/// Something new goes into the folder that is open, into `/data` from the top,
/// and nowhere else.
pub proof fn new_things_stay_in_the_open_folder(path: Seq<char>)
    ensures
        path.len() == 0 || path == "/"@ ==> working_parent(path) == "/data"@,
        !(path.len() == 0 || path == "/"@) && writable(path) ==> working_parent(path) == path,
        !(path.len() == 0 || path == "/"@) && !writable(path) ==> working_parent(path).len() == 0,
{
}

/// A name that is free is used as it is; of several that are taken the first
/// free one in the row is used.
pub proof fn the_first_free_name_is_used(
    list: Seq<Seq<char>>,
    parent: Seq<char>,
    base: Seq<char>,
    is_dir: bool,
    n: int,
    k: int,
)
    requires
        1 <= n <= k < 256,
        !taken(list, parent, candidate(base, k, is_dir), is_dir),
        forall|m: int| n <= m < k ==> taken(list, parent, #[trigger] candidate(base, m, is_dir), is_dir),
    ensures
        free_name(list, parent, base, is_dir, n) == candidate(base, k, is_dir),
        candidate(base, 1, is_dir) == base,
    decreases k - n,
{
    if n < k {
        assert(taken(list, parent, candidate(base, n, is_dir), is_dir));
        the_first_free_name_is_used(list, parent, base, is_dir, n + 1, k);
    }
}

/// The names in the row all differ, and a file keeps its extension.
pub proof fn candidates_differ(stem: Seq<char>, ext: Seq<char>, m: int, n: int)
    requires
        2 <= m < n <= 255,
        forall|i: int| 0 <= i < ext.len() ==> #[trigger] ext[i] != '.',
    ensures
        candidate(stem + "."@ + ext, m, false) == stem + "_"@ + text::decimal(m as nat) + "."@ + ext,
        candidate(stem, m, true) == stem + "_"@ + text::decimal(m as nat),
        candidate(stem, m, true) != candidate(stem, n, true),
        candidate(stem, m, true) != stem,
{
    reveal_strlit(".");
    reveal_strlit("_");
    let base = stem + "."@ + ext;
    let at = stem.len() as int;
    assert forall|j: int| at < j < base.len() implies base[j] != '.' by {
        assert(base[j] == ext[j - at - 1]);
    }
    assert(base[at] == '.');
    text::find_last_at(base, '.', at);
    assert(base.take(at) =~= stem);
    assert(base.skip(at) =~= "."@ + ext);
    assert(candidate(base, m, false) =~= stem + "_"@ + text::decimal(m as nat) + "."@ + ext);
    text::natural_numerals_read_back(m as nat, 255);
    text::natural_numerals_read_back(n as nat, 255);
    let a = stem + "_"@ + text::decimal(m as nat);
    let b = stem + "_"@ + text::decimal(n as nat);
    assert(a.skip(at + 1) =~= text::decimal(m as nat));
    assert(b.skip(at + 1) =~= text::decimal(n as nat));
}

/// Pictures are told by their extension, in capitals or not.
pub proof fn pictures_are_told_by_extension(x: Seq<char>, name: Seq<char>)
    ensures
        picture_name(x + ".png"@),
        picture_name(x + ".jpg"@),
        picture_name(x + ".jpeg"@),
        picture_name(x + ".bmp"@),
        picture_name(text::lowered(name)) == picture_name(name),
        name.len() > 0 && name.last() != '/' && text::lower(name.last()) != 'g' && text::lower(
            name.last(),
        ) != 'p' ==> !picture_name(name),
{
    reveal_strlit(".png");
    reveal_strlit(".jpg");
    reveal_strlit(".jpeg");
    reveal_strlit(".bmp");
    assert(text::lowered(".png"@) =~= ".png"@);
    assert(text::lowered(".jpg"@) =~= ".jpg"@);
    assert(text::lowered(".jpeg"@) =~= ".jpeg"@);
    assert(text::lowered(".bmp"@) =~= ".bmp"@);
    extension_stays(x, ".png"@);
    extension_stays(x, ".jpg"@);
    extension_stays(x, ".jpeg"@);
    extension_stays(x, ".bmp"@);
    lowering_keeps_slashes(name);
    assert(text::lowered(text::lowered(text::trim_end_of(name, '/'))) =~= text::lowered(
        text::trim_end_of(name, '/'),
    ));
    if name.len() > 0 && name.last() != '/' {
        let l = text::lowered(name);
        assert(l.last() == text::lower(name.last()));
        if l.len() >= 4 {
            assert(l.skip(l.len() - 4).last() == l.last());
        }
        if l.len() >= 5 {
            assert(l.skip(l.len() - 5).last() == l.last());
        }
    }
}

proof fn extension_stays(x: Seq<char>, e: Seq<char>)
    requires
        e.len() > 0,
        e.last() != '/',
        text::lowered(e) == e,
    ensures
        text::has_suffix(text::lowered(text::trim_end_of(x + e, '/')), e),
{
    let s = x + e;
    assert(s.last() == e.last());
    let l = text::lowered(s);
    assert(l.skip(l.len() - e.len()) =~= text::lowered(e));
}

proof fn lowering_keeps_slashes(s: Seq<char>)
    ensures
        text::trim_end_of(text::lowered(s), '/') == text::lowered(text::trim_end_of(s, '/')),
    decreases s.len(),
{
    let l = text::lowered(s);
    if s.len() > 0 {
        assert(l.last() == text::lower(s.last()));
        assert(text::lower(s.last()) == '/' <==> s.last() == '/');
        assert(l.drop_last() =~= text::lowered(s.drop_last()));
        lowering_keeps_slashes(s.drop_last());
    }
}

/// C programs are told by their extension, in capitals or not.
pub proof fn programs_are_told_by_extension(x: Seq<char>, path: Seq<char>)
    ensures
        c_source(x + ".c"@),
        c_source(x + ".h"@),
        c_source(text::lowered(path)) == c_source(path),
        path.len() > 0 && text::lower(path.last()) != 'c' && text::lower(path.last()) != 'h'
            ==> !c_source(path),
{
    reveal_strlit(".c");
    reveal_strlit(".h");
    let a = text::lowered(x + ".c"@);
    let b = text::lowered(x + ".h"@);
    assert(a.skip(a.len() - 2) =~= ".c"@);
    assert(b.skip(b.len() - 2) =~= ".h"@);
    assert(text::lowered(text::lowered(path)) =~= text::lowered(path));
    if path.len() > 1 {
        let l = text::lowered(path);
        assert(l.skip(l.len() - 2).last() == text::lower(path.last()));
    }
}

/// The entry under the pointer is the one whose row, or whose cell, the pointer
/// is in.
pub proof fn entries_are_hit_where_they_are(lx: int, ly: int, i: usize)
    ensures
        entry_at(FmViewMode::List, lx, ly) == Some(i) <==> i < 12 && 62 + 18 * i <= ly < 62 + 18 * (i
            + 1),
        entry_at(FmViewMode::LargeIcons, lx, ly) == Some(i) <==> i < 10 && 10 + 108 * (i as int % 5)
            <= lx < 10 + 108 * (i as int % 5 + 1) && 62 + 96 * (i as int / 5) <= ly < 62 + 96 * (
        i as int / 5 + 1),
{
    let col = (lx - 10) / 108;
    let row = (ly - 62) / 96;
    if lx >= 10 && ly >= 62 && col < 5 && row * 5 + col < 10 {
        assert((row * 5 + col) % 5 == col && (row * 5 + col) / 5 == row);
    }
    if i < 10 && 10 + 108 * (i as int % 5) <= lx < 10 + 108 * (i as int % 5 + 1) && 62 + 96 * (
    i as int / 5) <= ly < 62 + 96 * (i as int / 5 + 1) {
        assert(col == i as int % 5 && row == i as int / 5);
    }
}

/// A click on an entry selects it, a second one opens it; a click beside all of
/// them selects none.
pub proof fn a_click_selects_the_entry(
    w: WindowModel,
    f: state::FileManagerModel,
    mx: int,
    my: int,
    dbl: bool,
)
    requires
        w.app == AppModel::FileManager(f),
        widget_under(w, mx, my) < 0,
    ensures
        ({
            let (v, used, open) = explorer_mouse(w, mx, my, true, false, dbl);
            let at = entry_at(f.view_mode, mx - w.x - 2, my - w.y - 26);
            let on = at is Some && at->0 < f.entries.len();
            &&& used
            &&& v.app == AppModel::FileManager(
                state::FileManagerModel {
                    selected: if on {
                        at
                    } else {
                        None
                    },
                    ..f
                },
            )
            &&& open == (dbl && on)
        }),
{
}

/// The context menu's commands do what they say, and a wallpaper is only
/// offered for a picture.
pub proof fn the_menu_does_what_it_says(picture: bool, i: int)
    requires
        0 <= i < menu_items(picture).len(),
    ensures
        menu_items(picture)[i].0 == "Open"@ <==> menu_items(picture)[i].1 == WinAction::FmOpen,
        menu_items(picture)[i].0 == "New folder"@ <==> menu_items(picture)[i].1
            == WinAction::FmNewFolder,
        menu_items(picture)[i].0 == "New file"@ <==> menu_items(picture)[i].1
            == WinAction::FmNewFile,
        menu_items(picture)[i].0 == "Delete"@ <==> menu_items(picture)[i].1 == WinAction::FmDelete,
        menu_items(picture)[i].0 == "Refresh"@ <==> menu_items(picture)[i].1
            == WinAction::RefreshFiles,
        menu_items(picture)[i].1 == WinAction::FmSetWallpaper ==> picture,
        menu_items(picture).len() == (if picture {
            6nat
        } else {
            5
        }),
{
    menu_words();
}

proof fn menu_words()
    ensures
        "Open"@.len() == 4,
        "Set as wallpaper"@.len() == 16,
        "New folder"@.len() == 10,
        "New file"@.len() == 8,
        "Delete"@.len() == 6,
        "Refresh"@.len() == 7,
{
    reveal_strlit("Open");
    reveal_strlit("Set as wallpaper");
    reveal_strlit("New folder");
    reveal_strlit("New file");
    reveal_strlit("Delete");
    reveal_strlit("Refresh");
}

/// A fresh listing is shown row by row, each entry in its own, and none of it
/// is selected.
pub proof fn listings_are_shown_in_order(
    w: WindowModel,
    f: state::FileManagerModel,
    path: Seq<char>,
    files: Seq<Seq<char>>,
    i: int,
)
    requires
        w.app == AppModel::FileManager(f),
        f.view_mode == FmViewMode::List,
        0 <= i < 12,
        i + 1 < w.widgets.len(),
        w.widgets[i + 1] is Label,
    ensures
        ({
            let v = listing_shown(w, path, files);
            &&& v.widgets[i + 1]->Label_text == (if i < files.len() {
                files[i]
            } else {
                Seq::empty()
            })
            &&& v.app == AppModel::FileManager(
                state::FileManagerModel { entries: files, selected: None, ..f },
            )
        }),
{
}

/// Picking a file in a dialog puts its name into the name box and marks its
/// row; picking a folder only marks it.
pub proof fn picking_a_file_names_it(
    w: WindowModel,
    f: state::FileDialogModel,
    mx: int,
    my: int,
    dbl: bool,
    i: usize,
)
    requires
        w.app == AppModel::FileDialog(f),
        widget_under(w, mx, my) < 0,
        i < 8,
        i < f.entries.len(),
        56 + 18 * i <= my - w.y - 26 < 56 + 18 * (i + 1),
        w.widgets.len() > 10,
        w.widgets[10] is TextBox,
    ensures
        ({
            let (v, used, open) = dialog_mouse(w, mx, my, true, dbl);
            &&& used
            &&& open == dbl
            &&& v.app == AppModel::FileDialog(
                state::FileDialogModel { selected: Some(i), ..f },
            )
            &&& v.widgets[10]->TextBox_text == (if text::has_suffix(f.entries[i as int], "/"@) {
                w.widgets[10]->TextBox_text
            } else {
                base_name(f.entries[i as int])
            })
        }),
{
    let ly = my - origin(w).1;
    assert((ly - 56) / 18 == i);
}

} // verus!
