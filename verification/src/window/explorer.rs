//! What the File Explorer does with the files it shows. Files are read and
//! changed by the program around this library: a step here says what is to be
//! done next, and a second function takes what came of it.

use vstd::prelude::*;
use vstd::string::*;
use vstd::utf8::*;

use crate::text;
use crate::wallpaper;
use crate::wallpaper::{Image, Wallpaper, WallpaperModel};
use crate::window::actions;
use crate::window::documents;
use crate::window::documents::{foot_first, open_path_in_code_editor, open_path_in_notepad};
use crate::window::files;
use crate::window::files::{
    child_path, close_menu, fm_is_writable_path, fm_unique_name, fm_working_parent, is_c_source_path,
    is_root, refresh_file_manager, FM_PREVIEW_BODY, FM_WIDGET_BASE,
};
use crate::window::manager;
use crate::window::manager::{set_label_text, Desktop, DesktopModel};
use crate::window::state;
use crate::window::state::{AppModel, AppState, Window, WindowModel};
use crate::window::widget::{FmViewMode, WindowKind};

verus! {

/// What is to be done next.
pub enum FileStep<T = String> {
    /// Nothing.
    Done,
    /// List the Explorer's folder, for [`explorer_listed`].
    List,
    /// Read a file to open it, for [`entry_read`].
    Open(T),
    /// Read a file to preview it, for [`do_file_preview`].
    Preview(T),
    /// Read the folder's introduction, for [`file_manager_preview_readme`].
    Readme,
    /// Make a folder, for [`created`].
    MakeFolder(T),
    /// Make an empty file, for [`created`].
    MakeFile(T),
    /// Remove a file or folder, for [`removed`].
    Remove(T),
    /// Hang a picture on the desktop, for [`wallpaper_tried`].
    Wallpaper(T),
}

impl View for FileStep {
    type V = FileStep<Seq<char>>;

    open spec fn view(&self) -> FileStep<Seq<char>> {
        match *self {
            FileStep::Done => FileStep::Done,
            FileStep::List => FileStep::List,
            FileStep::Open(p) => FileStep::Open(p@),
            FileStep::Preview(p) => FileStep::Preview(p@),
            FileStep::Readme => FileStep::Readme,
            FileStep::MakeFolder(p) => FileStep::MakeFolder(p@),
            FileStep::MakeFile(p) => FileStep::MakeFile(p@),
            FileStep::Remove(p) => FileStep::Remove(p@),
            FileStep::Wallpaper(p) => FileStep::Wallpaper(p@),
        }
    }
}

pub type Step = FileStep<Seq<char>>;

// ── Selections ──────────────────────────────────────────────────────────────

/// What is selected in a window, if it is a File Explorer.
pub open spec fn picked(w: WindowModel) -> Option<Seq<char>> {
    match w.app {
        AppModel::FileManager(f) => match f.selected {
            Some(i) => if i < f.entries.len() {
                Some(f.entries[i as int])
            } else {
                None
            },
            None => None,
        },
        _ => None,
    }
}

fn picked_in(win: &Window) -> (r: Option<String>)
    ensures
        state::footer_view(r) == picked(win@),
{
    match &win.app {
        AppState::FileManager(f) => match f.selected {
            Some(i) => if i < f.entries.len() {
                assert(f@.entries[i as int] == f.entries@[i as int]@);
                Some(f.entries[i].as_str().to_owned())
            } else {
                None
            },
            None => None,
        },
        _ => None,
    }
}

/// Whether the window in front is a File Explorer.
pub open spec fn explorer_on_top(d: DesktopModel) -> bool {
    let t = manager::top(d.wm);
    t >= 0 && d.wm.windows[t].kind == WindowKind::FileManager && d.wm.windows[t].app is FileManager
}

/// What is selected in the window in front.
pub open spec fn top_pick(d: DesktopModel) -> Option<Seq<char>> {
    let t = manager::top(d.wm);
    if t >= 0 {
        picked(d.wm.windows[t])
    } else {
        None
    }
}

fn explorer_in_front(desk: &Desktop) -> (r: bool)
    ensures
        r == explorer_on_top(desk@),
{
    match desk.wm.topmost_idx() {
        Some(t) => {
            assert(desk@.wm.windows[t as int] == desk.wm.windows@[t as int]@);
            desk.wm.windows[t].kind == WindowKind::FileManager && match &desk.wm.windows[t].app {
                AppState::FileManager(_) => true,
                _ => false,
            }
        },
        None => false,
    }
}

fn pick_in_front(desk: &Desktop) -> (r: Option<String>)
    ensures
        state::footer_view(r) == top_pick(desk@),
{
    match desk.wm.topmost_idx() {
        Some(t) => {
            assert(desk@.wm.windows[t as int] == desk.wm.windows@[t as int]@);
            picked_in(&desk.wm.windows[t])
        },
        None => None,
    }
}

/// The context menu of the Explorer in front closed.
pub open spec fn menu_dismissed(d: DesktopModel) -> DesktopModel {
    let t = manager::top(d.wm);
    if t >= 0 && d.wm.windows[t].kind == WindowKind::FileManager {
        d.set_window(t, files::menu_closed(d.wm.windows[t], FM_WIDGET_BASE as int))
    } else {
        d
    }
}

pub fn fm_close_top_file_menu(desk: &mut Desktop)
    requires
        old(desk)@.wf(),
    ensures
        final(desk)@ == menu_dismissed(old(desk)@),
        final(desk)@.wf(),
{
    if let Some(t) = desk.wm.topmost_idx() {
        assert(desk@.wm.windows[t as int] == desk.wm.windows@[t as int]@);
        assert(desk@.wm.windows[t as int].wf());
        if desk.wm.windows[t].kind == WindowKind::FileManager {
            let ghost before = desk.wm.windows@;
            close_menu(&mut desk.wm.windows[t], FM_WIDGET_BASE);
            proof {
                manager::view_updated(before, t as int, desk.wm.windows@[t as int]);
            }
        }
    }
}

/// A line in the footer of the File Explorer.
pub open spec fn noted(d: DesktopModel, t: Seq<char>) -> DesktopModel {
    documents::on_first(d, WindowKind::FileManager, documents::footed(t))
}

pub fn fm_set_footer_top(desk: &mut Desktop, msg: &str)
    requires
        old(desk)@.wf(),
    ensures
        final(desk)@ == noted(old(desk)@, msg@),
        final(desk)@.wf(),
{
    foot_first(desk, WindowKind::FileManager, msg);
}

pub open spec fn listing(path: Seq<char>, names: Seq<Seq<char>>) -> spec_fn(WindowModel) -> WindowModel {
    |w: WindowModel| files::listing_shown(w, path, names)
}

/// The Explorer's folder was listed.
pub fn explorer_listed(desk: &mut Desktop, names: Vec<String>)
    requires
        old(desk)@.wf(),
    ensures
        final(desk)@ == documents::on_first(
            old(desk)@,
            WindowKind::FileManager,
            listing(old(desk)@.fm_path, text::strings(names@)),
        ),
        final(desk)@.wf(),
{
    if let Some(i) = desk.wm.find_kind(WindowKind::FileManager) {
        let ghost before = desk.wm.windows@;
        assert(desk@.wm.windows[i as int].wf());
        refresh_file_manager(&mut desk.wm.windows[i], desk.fm_path.as_str(), names);
        proof {
            manager::view_updated(before, i as int, desk.wm.windows@[i as int]);
        }
    }
}

// ── Moving about ────────────────────────────────────────────────────────────

/// The folder above; the one above a top folder is the root.
pub open spec fn parent_of(path: Seq<char>) -> Seq<char> {
    let p = text::trim_end_of(path, '/');
    let i = text::find_last(p, '/');
    if i <= 0 {
        "/"@
    } else {
        p.take(i)
    }
}

pub fn path_parent(path: &str) -> (r: String)
    ensures
        r@ == parent_of(path@),
{
    let p = text::trim_end_matches(path, '/');
    let v = text::chars_of(p.as_str());
    let at: usize = text::find_last_char(v.as_slice(), '/');
    if at <= 1 {
        return "/".to_owned();
    }
    let r = text::string_between(v.as_slice(), 0, at - 1);
    assert(r@ =~= parent_of(path@));
    r
}

pub open spec fn gone_up(d: DesktopModel) -> (DesktopModel, Step) {
    if files::at_root(d.fm_path) {
        (noted(d, "Already at top (virtual root)."@), FileStep::Done)
    } else {
        let p = parent_of(d.fm_path);
        (
            DesktopModel {
                fm_path: if p == "/"@ {
                    Seq::empty()
                } else {
                    p
                },
                ..d
            },
            FileStep::List,
        )
    }
}

/// Go to the parent folder.
pub fn file_manager_go_up(desk: &mut Desktop) -> (r: FileStep)
    requires
        old(desk)@.wf(),
    ensures
        (final(desk)@, r@) == gone_up(old(desk)@),
        final(desk)@.wf(),
{
    if is_root(desk.fm_path.as_str()) {
        fm_set_footer_top(desk, "Already at top (virtual root).");
        return FileStep::Done;
    }
    let p = path_parent(desk.fm_path.as_str());
    desk.fm_path = if text::same(p.as_str(), "/") {
        String::new()
    } else {
        p
    };
    FileStep::List
}

/// Opening what is selected: a folder is entered, a file is to be read.
pub open spec fn entry_opened(d: DesktopModel) -> (DesktopModel, Step) {
    if !explorer_on_top(d) {
        (d, FileStep::Done)
    } else {
        match top_pick(d) {
            None => (d, FileStep::Done),
            Some(p) => if text::has_suffix(p, "/"@) {
                (DesktopModel { fm_path: text::trim_end_of(p, '/'), ..d }, FileStep::List)
            } else {
                (d, FileStep::Open(p))
            },
        }
    }
}

pub fn file_manager_open_selected(desk: &mut Desktop) -> (r: FileStep)
    requires
        old(desk)@.wf(),
    ensures
        (final(desk)@, r@) == entry_opened(old(desk)@),
        final(desk)@.wf(),
{
    if !explorer_in_front(desk) {
        return FileStep::Done;
    }
    match pick_in_front(desk) {
        None => FileStep::Done,
        Some(p) => if text::ends_with(p.as_str(), "/") {
            desk.fm_path = text::trim_end_matches(p.as_str(), '/');
            FileStep::List
        } else {
            FileStep::Open(p)
        },
    }
}

// ── Opening and previewing files ────────────────────────────────────────────

/// What reading a file gave.
pub enum FileRead<T = String, B = Vec<u8>> {
    /// Why it could not be read.
    Failed(T),
    /// A picture: its format, its size if it can be decoded, and how many
    /// bytes it takes.
    Picture { format: T, size: Option<(u64, u64)>, bytes: u64 },
    /// Anything else.
    Bytes(B),
}

impl View for FileRead {
    type V = FileRead<Seq<char>, Seq<u8>>;

    open spec fn view(&self) -> FileRead<Seq<char>, Seq<u8>> {
        match *self {
            FileRead::Failed(e) => FileRead::Failed(e@),
            FileRead::Picture { format, size, bytes } => FileRead::Picture {
                format: format@,
                size,
                bytes,
            },
            FileRead::Bytes(b) => FileRead::Bytes(b@),
        }
    }
}

/// What the preview says of a file. A picture shown as text would be a
/// screenful of noise, so it is described instead.
pub open spec fn preview_text(read: FileRead<Seq<char>, Seq<u8>>) -> Seq<char> {
    match read {
        FileRead::Failed(e) => "(cannot read: "@ + e + ")"@,
        FileRead::Picture { format, size: Some((w, h)), bytes } => format + " picture — "@
            + text::decimal(w as nat) + " × "@ + text::decimal(h as nat) + " pixels, "@
            + text::decimal(bytes as nat)
            + " bytes. Right-click it to set it as the desktop wallpaper."@,
        FileRead::Picture { format, size: None, bytes } => format + " picture, "@ + text::decimal(
            bytes as nat,
        ) + " bytes — this OS cannot decode this variant."@,
        FileRead::Bytes(b) => {
            let s = if valid_utf8(b) {
                decode_utf8(b)
            } else {
                Seq::empty()
            };
            if s.len() > 900 {
                s.take(900) + " …"@
            } else {
                s
            }
        },
    }
}

pub open spec fn preview_footer(path: Seq<char>) -> Seq<char> {
    "Preview: "@ + if path.len() > 48 {
        path.take(45) + "…"@
    } else {
        path
    }
}

pub open spec fn previewed(body: Seq<char>, footer: Seq<char>) -> spec_fn(WindowModel) -> WindowModel {
    |w: WindowModel|
        WindowModel {
            footer: Some(footer),
            ..manager::labelled(w, FM_PREVIEW_BODY as int, body)
        }
}

fn preview_body(read: &FileRead) -> (r: String)
    ensures
        r@ == preview_text(read@),
{
    let mut s = String::new();
    match read {
        FileRead::Failed(e) => {
            s.append("(cannot read: ");
            s.append(e.as_str());
            s.append(")");
        },
        FileRead::Picture { format, size, bytes } => {
            s.append(format.as_str());
            match size {
                Some((w, h)) => {
                    s.append(" picture — ");
                    text::push_decimal(&mut s, *w);
                    s.append(" × ");
                    text::push_decimal(&mut s, *h);
                    s.append(" pixels, ");
                    text::push_decimal(&mut s, *bytes);
                    s.append(" bytes. Right-click it to set it as the desktop wallpaper.");
                },
                None => {
                    s.append(" picture, ");
                    text::push_decimal(&mut s, *bytes);
                    s.append(" bytes — this OS cannot decode this variant.");
                },
            }
        },
        FileRead::Bytes(b) => {
            if let Some(t) = text::decode_text(b.as_slice()) {
                let v = text::chars_of(t.as_str());
                if v.len() > 900 {
                    s = text::string_between(v.as_slice(), 0, 900);
                    s.append(" …");
                } else {
                    s = t;
                }
            }
        },
    }
    assert(s@ =~= preview_text(read@));
    s
}

fn show_preview(win: &mut Window, body: &str, footer: String)
    ensures
        final(win)@ == previewed(body@, footer@)(old(win)@),
        old(win)@.wf() ==> final(win)@.wf(),
{
    set_label_text(win, FM_PREVIEW_BODY, body);
    win.footer = Some(footer);
}

/// A file was read for the preview.
pub fn do_file_preview(desk: &mut Desktop, path: &str, read: &FileRead)
    requires
        old(desk)@.wf(),
    ensures
        final(desk)@ == documents::on_first(
            old(desk)@,
            WindowKind::FileManager,
            previewed(preview_text(read@), preview_footer(path@)),
        ),
        final(desk)@.wf(),
{
    let body = preview_body(read);
    let mut footer = "Preview: ".to_owned();
    let v = text::chars_of(path);
    if v.len() > 48 {
        footer.append(text::string_between(v.as_slice(), 0, 45).as_str());
        footer.append("…");
    } else {
        footer.append(path);
    }
    assert(footer@ =~= preview_footer(path@));
    if let Some(i) = desk.wm.find_kind(WindowKind::FileManager) {
        let ghost before = desk.wm.windows@;
        assert(desk@.wm.windows[i as int].wf());
        show_preview(&mut desk.wm.windows[i], body.as_str(), footer);
        proof {
            manager::view_updated(before, i as int, desk.wm.windows@[i as int]);
        }
    }
}

/// A file that was read to be opened: C sources go to the Code Editor, other
/// text to Notepad, and what is no text is described in the preview.
pub open spec fn file_opened(
    d: DesktopModel,
    path: Seq<char>,
    read: FileRead<Seq<char>, Seq<u8>>,
) -> DesktopModel {
    match read {
        FileRead::Bytes(b) if valid_utf8(b) => if files::c_source(path) {
            documents::opened_in_editor(d, path, decode_utf8(b))
        } else {
            documents::opened_in_notepad(d, path, decode_utf8(b))
        },
        _ => documents::on_first(
            d,
            WindowKind::FileManager,
            previewed(preview_text(read), preview_footer(path)),
        ),
    }
}

pub fn entry_read(desk: &mut Desktop, path: &str, read: &FileRead)
    requires
        old(desk)@.wf(),
    ensures
        final(desk)@ == file_opened(old(desk)@, path@, read@),
        final(desk)@.wf(),
{
    if let FileRead::Bytes(b) = read {
        if let Some(t) = text::decode_text(b.as_slice()) {
            if is_c_source_path(path) {
                open_path_in_code_editor(desk, path, t.as_str());
            } else {
                open_path_in_notepad(desk, path, t.as_str());
            }
            return;
        }
    }
    do_file_preview(desk, path, read);
}

/// The Preview button: a file is to be read, a folder is not previewed, and
/// with nothing selected the folder introduces itself.
pub open spec fn preview_asked(d: DesktopModel) -> (DesktopModel, Step) {
    if !explorer_on_top(d) {
        (d, FileStep::Done)
    } else {
        match top_pick(d) {
            None => (d, FileStep::Readme),
            Some(p) => if text::has_suffix(p, "/"@) {
                (
                    noted(d, "Select a file, or open the folder with double-click."@),
                    FileStep::Done,
                )
            } else {
                (d, FileStep::Preview(p))
            },
        }
    }
}

pub fn file_manager_preview_selection_or_readme(desk: &mut Desktop) -> (r: FileStep)
    requires
        old(desk)@.wf(),
    ensures
        (final(desk)@, r@) == preview_asked(old(desk)@),
        final(desk)@.wf(),
{
    if !explorer_in_front(desk) {
        return FileStep::Done;
    }
    match pick_in_front(desk) {
        None => FileStep::Readme,
        Some(p) => if text::ends_with(p.as_str(), "/") {
            fm_set_footer_top(desk, "Select a file, or open the folder with double-click.");
            FileStep::Done
        } else {
            FileStep::Preview(p)
        },
    }
}

/// The two files that introduce a folder: the second stands in for the first.
pub open spec fn introductions(path: Seq<char>) -> (Seq<char>, Seq<char>) {
    let p = if path.len() == 0 {
        "/fat"@
    } else {
        path
    };
    (
        text::trim_end_of(p, '/') + "/readme.txt"@,
        text::trim_end_of(p, '/') + "/welcome.txt"@,
    )
}

pub fn introduction_paths(path: &str) -> (r: (String, String))
    ensures
        (r.0@, r.1@) == introductions(path@),
{
    let p = if path.unicode_len() == 0 {
        text::trim_end_matches("/fat", '/')
    } else {
        text::trim_end_matches(path, '/')
    };
    let mut a = p.as_str().to_owned();
    a.append("/readme.txt");
    let mut b = p;
    b.append("/welcome.txt");
    (a, b)
}

/// A text on one line.
pub open spec fn one_line(s: Seq<char>) -> Seq<char>
    decreases s.len(),
{
    if s.len() == 0 {
        Seq::empty()
    } else if s.last() == '\n' {
        one_line(s.drop_last()) + " | "@
    } else {
        one_line(s.drop_last()).push(s.last())
    }
}

fn joined_lines(s: &str) -> (r: String)
    ensures
        r@ == one_line(s@),
{
    let v = text::chars_of(s);
    let mut r = String::new();
    let mut i: usize = 0;
    assert(v@.take(0) =~= Seq::empty());
    while i < v.len()
        invariant
            i <= v@.len(),
            r@ == one_line(v@.take(i as int)),
        decreases v@.len() - i,
    {
        proof {
            assert(v@.take(i + 1).drop_last() =~= v@.take(i as int));
            assert(v@.take(i + 1).last() == v@[i as int]);
        }
        if v[i] == '\n' {
            r.append(" | ");
        } else {
            r.push(v[i]);
        }
        i = i + 1;
    }
    assert(v@.take(i as int) =~= v@);
    r
}

/// The text of an introduction: the bytes that were read, or why they could
/// not be.
pub open spec fn introduction_text(path: Seq<char>, read: Result<Seq<u8>, Seq<char>>) -> Seq<char> {
    match read {
        Ok(b) => if valid_utf8(b) {
            one_line(decode_utf8(b))
        } else {
            "(binary)"@
        },
        Err(e) => path + ": "@ + e,
    }
}

pub open spec fn read_view(r: Result<Vec<u8>, String>) -> Result<Seq<u8>, Seq<char>> {
    match r {
        Ok(v) => Ok(v@),
        Err(e) => Err(e@),
    }
}

/// The first introduction if it could be read, else the second, as it is.
pub open spec fn readme_shown(
    d: DesktopModel,
    readme: Result<Seq<u8>, Seq<char>>,
    welcome: Result<Seq<u8>, Seq<char>>,
) -> DesktopModel {
    let (a, b) = introductions(d.fm_path);
    let body = if readme is Ok {
        introduction_text(a, readme)
    } else {
        introduction_text(b, welcome)
    };
    let t = manager::top(d.wm);
    if t >= 0 && d.wm.windows[t].kind == WindowKind::FileManager {
        d.set_window(
            t,
            previewed(body, "Preview: README / welcome (no file selected)."@)(d.wm.windows[t]),
        )
    } else {
        d
    }
}

/// The introductions were read.
pub fn file_manager_preview_readme(
    desk: &mut Desktop,
    readme: &Result<Vec<u8>, String>,
    welcome: &Result<Vec<u8>, String>,
)
    requires
        old(desk)@.wf(),
    ensures
        final(desk)@ == readme_shown(old(desk)@, read_view(*readme), read_view(*welcome)),
        final(desk)@.wf(),
{
    let (a, b) = introduction_paths(desk.fm_path.as_str());
    let body = match readme {
        Ok(_) => introduction(a.as_str(), readme),
        Err(_) => introduction(b.as_str(), welcome),
    };
    if let Some(t) = desk.wm.topmost_idx() {
        assert(desk@.wm.windows[t as int] == desk.wm.windows@[t as int]@);
        assert(desk@.wm.windows[t as int].wf());
        if desk.wm.windows[t].kind == WindowKind::FileManager {
            let ghost before = desk.wm.windows@;
            show_preview(
                &mut desk.wm.windows[t],
                body.as_str(),
                "Preview: README / welcome (no file selected).".to_owned(),
            );
            proof {
                manager::view_updated(before, t as int, desk.wm.windows@[t as int]);
            }
        }
    }
}

fn introduction(path: &str, read: &Result<Vec<u8>, String>) -> (r: String)
    ensures
        r@ == introduction_text(path@, read_view(*read)),
{
    match read {
        Ok(b) => match text::decode_text(b.as_slice()) {
            Some(t) => joined_lines(t.as_str()),
            None => "(binary)".to_owned(),
        },
        Err(e) => {
            let mut s = path.to_owned();
            s.append(": ");
            s.append(e.as_str());
            s
        },
    }
}

// ── Changing files ──────────────────────────────────────────────────────────

/// What was listed of the folder that something new goes into; without a
/// listing there is nothing to avoid.
pub open spec fn listed_view(l: Option<Vec<String>>) -> Option<Seq<Seq<char>>> {
    match l {
        Some(v) => Some(text::strings(v@)),
        None => None,
    }
}

pub open spec fn new_path(parent: Seq<char>, base: Seq<char>, is_dir: bool, list: Option<Seq<Seq<char>>>) -> Seq<char> {
    files::child(
        parent,
        match list {
            None => base,
            Some(l) => files::free_name(l, parent, base, is_dir, 1),
        },
    )
}

pub open spec fn folder_asked(d: DesktopModel, list: Option<Seq<Seq<char>>>) -> (DesktopModel, Step) {
    let parent = files::working_parent(d.fm_path);
    if parent.len() == 0 || !files::writable(parent) {
        (
            noted(d, "Create folders on /data only. Open the Data drive."@),
            FileStep::Done,
        )
    } else {
        (d, FileStep::MakeFolder(new_path(parent, "New folder"@, true, list)))
    }
}

/// The New folder button; `list` is what the folder it goes into holds.
pub fn file_manager_new_folder(desk: &mut Desktop, list: &Option<Vec<String>>) -> (r: FileStep)
    requires
        old(desk)@.wf(),
    ensures
        (final(desk)@, r@) == folder_asked(old(desk)@, listed_view(*list)),
        final(desk)@.wf(),
{
    let parent = fm_working_parent(desk.fm_path.as_str());
    if parent.as_str().unicode_len() == 0 || !fm_is_writable_path(parent.as_str()) {
        fm_set_footer_top(desk, "Create folders on /data only. Open the Data drive.");
        return FileStep::Done;
    }
    let name = fm_unique_name(list.as_ref(), parent.as_str(), "New folder", true);
    FileStep::MakeFolder(child_path(parent.as_str(), name.as_str()))
}

pub open spec fn file_asked(d: DesktopModel, list: Option<Seq<Seq<char>>>) -> (DesktopModel, Step) {
    let parent = files::working_parent(d.fm_path);
    if parent.len() == 0 || !files::writable(parent) {
        (noted(d, "Create files on /data only."@), FileStep::Done)
    } else {
        (d, FileStep::MakeFile(new_path(parent, "untitled.txt"@, false, list)))
    }
}

/// The New file button; `list` is what the folder it goes into holds.
pub fn file_manager_new_file(desk: &mut Desktop, list: &Option<Vec<String>>) -> (r: FileStep)
    requires
        old(desk)@.wf(),
    ensures
        (final(desk)@, r@) == file_asked(old(desk)@, listed_view(*list)),
        final(desk)@.wf(),
{
    let parent = fm_working_parent(desk.fm_path.as_str());
    if parent.as_str().unicode_len() == 0 || !fm_is_writable_path(parent.as_str()) {
        fm_set_footer_top(desk, "Create files on /data only.");
        return FileStep::Done;
    }
    let name = fm_unique_name(list.as_ref(), parent.as_str(), "untitled.txt", false);
    FileStep::MakeFile(child_path(parent.as_str(), name.as_str()))
}

/// What is said of something new, and whether the folder is to be listed
/// again.
pub open spec fn creation_noted(
    d: DesktopModel,
    path: Seq<char>,
    folder: bool,
    failure: Option<Seq<char>>,
) -> (DesktopModel, Step) {
    match failure {
        None => (noted(d, "Created "@ + path), FileStep::List),
        Some(e) => (
            noted(
                d,
                (if folder {
                    "mkdir: "@
                } else {
                    "file: "@
                }) + e,
            ),
            FileStep::Done,
        ),
    }
}

/// A folder or file was made, or could not be.
pub fn created(desk: &mut Desktop, path: &str, folder: bool, failure: &Option<String>) -> (r: FileStep)
    requires
        old(desk)@.wf(),
    ensures
        (final(desk)@, r@) == creation_noted(
            old(desk)@,
            path@,
            folder,
            state::footer_view(*failure),
        ),
        final(desk)@.wf(),
{
    match failure {
        None => {
            let mut line = "Created ".to_owned();
            line.append(path);
            fm_set_footer_top(desk, line.as_str());
            FileStep::List
        },
        Some(e) => {
            let mut line = if folder {
                "mkdir: ".to_owned()
            } else {
                "file: ".to_owned()
            };
            line.append(e.as_str());
            fm_set_footer_top(desk, line.as_str());
            FileStep::Done
        },
    }
}

pub open spec fn removal_asked(d: DesktopModel) -> (DesktopModel, Step) {
    if !explorer_on_top(d) {
        (d, FileStep::Done)
    } else {
        match top_pick(d) {
            None => (d, FileStep::Done),
            Some(p) => if !files::writable(p) {
                (noted(d, "Delete only on /data (read-only else)."@), FileStep::Done)
            } else {
                (d, FileStep::Remove(text::trim_end_of(p, '/')))
            },
        }
    }
}

pub fn file_manager_delete(desk: &mut Desktop) -> (r: FileStep)
    requires
        old(desk)@.wf(),
    ensures
        (final(desk)@, r@) == removal_asked(old(desk)@),
        final(desk)@.wf(),
{
    if !explorer_in_front(desk) {
        return FileStep::Done;
    }
    match pick_in_front(desk) {
        None => FileStep::Done,
        Some(p) => {
            if !fm_is_writable_path(p.as_str()) {
                fm_set_footer_top(desk, "Delete only on /data (read-only else).");
                return FileStep::Done;
            }
            FileStep::Remove(text::trim_end_matches(p.as_str(), '/'))
        },
    }
}

pub open spec fn removal_noted(d: DesktopModel, failure: Option<Seq<char>>) -> (DesktopModel, Step) {
    match failure {
        None => (noted(d, "Deleted."@), FileStep::List),
        Some(e) => (noted(d, "remove: "@ + e), FileStep::Done),
    }
}

/// Something was removed, or could not be.
pub fn removed(desk: &mut Desktop, failure: &Option<String>) -> (r: FileStep)
    requires
        old(desk)@.wf(),
    ensures
        (final(desk)@, r@) == removal_noted(old(desk)@, state::footer_view(*failure)),
        final(desk)@.wf(),
{
    match failure {
        None => {
            fm_set_footer_top(desk, "Deleted.");
            FileStep::List
        },
        Some(e) => {
            let mut line = "remove: ".to_owned();
            line.append(e.as_str());
            fm_set_footer_top(desk, line.as_str());
            FileStep::Done
        },
    }
}

// ── Wallpaper ───────────────────────────────────────────────────────────────

/// A line in the footer of the window in front, if it is a File Explorer.
pub open spec fn noted_in_front(d: DesktopModel, t: Seq<char>) -> DesktopModel {
    let i = manager::top(d.wm);
    if i >= 0 && d.wm.windows[i].kind == WindowKind::FileManager {
        d.set_window(i, documents::footed(t)(d.wm.windows[i]))
    } else {
        d
    }
}

fn note_in_front(desk: &mut Desktop, t: &str)
    requires
        old(desk)@.wf(),
    ensures
        final(desk)@ == noted_in_front(old(desk)@, t@),
        final(desk)@.wf(),
{
    if let Some(i) = desk.wm.topmost_idx() {
        assert(desk@.wm.windows[i as int] == desk.wm.windows@[i as int]@);
        assert(desk@.wm.windows[i as int].wf());
        if desk.wm.windows[i].kind == WindowKind::FileManager {
            let ghost before = desk.wm.windows@;
            desk.wm.windows[i].footer = Some(t.to_owned());
            proof {
                let w = desk.wm.windows@[i as int];
                assert(w@.widgets =~= before[i as int]@.widgets);
                manager::view_updated(before, i as int, w);
            }
        }
    }
}

pub open spec fn wallpaper_asked(d: DesktopModel) -> (DesktopModel, Step) {
    let e = menu_dismissed(d);
    match top_pick(d) {
        None => (noted_in_front(e, "Select a picture first."@), FileStep::Done),
        Some(p) => (e, FileStep::Wallpaper(p)),
    }
}

pub fn file_manager_set_wallpaper(desk: &mut Desktop) -> (r: FileStep)
    requires
        old(desk)@.wf(),
    ensures
        (final(desk)@, r@) == wallpaper_asked(old(desk)@),
        final(desk)@.wf(),
{
    let pick = pick_in_front(desk);
    fm_close_top_file_menu(desk);
    match pick {
        None => {
            note_in_front(desk, "Select a picture first.");
            FileStep::Done
        },
        Some(p) => FileStep::Wallpaper(p),
    }
}

/// What is said of a picture that was to be hung.
pub open spec fn wallpaper_note(path: Seq<char>, failure: Option<Seq<char>>) -> Seq<char> {
    match failure {
        None => "Wallpaper set from "@ + path,
        Some(e) => e,
    }
}

/// A picture was hung on the desktop, or could not be.
pub fn wallpaper_tried(desk: &mut Desktop, path: &str, failure: &Option<String>)
    requires
        old(desk)@.wf(),
    ensures
        final(desk)@ == noted_in_front(
            old(desk)@,
            wallpaper_note(path@, state::footer_view(*failure)),
        ),
        final(desk)@.wf(),
{
    match failure {
        None => {
            let mut line = "Wallpaper set from ".to_owned();
            line.append(path);
            note_in_front(desk, line.as_str());
        },
        Some(e) => {
            note_in_front(desk, e.as_str());
        },
    }
}

/// Why a file cannot be hung: what format it is in, if that is known.
pub open spec fn undecodable(path: Seq<char>, format: Option<Seq<char>>) -> Seq<char> {
    path + " is a "@ + (match format {
        Some(f) => f,
        None => "unrecognised"@,
    }) + " file this OS cannot decode"@
}

/// What came of reading a picture.
pub enum Picture {
    /// Why the file could not be read.
    Unreadable(String),
    /// It could be read but not decoded: its format, if that is known.
    Undecodable(Option<String>),
    Decoded(Image),
}

/// Why a picture cannot be hung, if it cannot.
pub open spec fn refusal(path: Seq<char>, got: Picture) -> Option<Seq<char>> {
    match got {
        Picture::Unreadable(e) => Some(e@),
        Picture::Undecodable(format) => Some(undecodable(path, state::footer_view(format))),
        Picture::Decoded(_) => None,
    }
}

fn undecodable_line(path: &str, format: &Option<String>) -> (r: String)
    ensures
        r@ == undecodable(path@, state::footer_view(*format)),
{
    let mut s = path.to_owned();
    s.append(" is a ");
    match format {
        Some(f) => s.append(f.as_str()),
        None => s.append("unrecognised"),
    }
    s.append(" file this OS cannot decode");
    s
}

/// Hang a picture on the desktop: it is remembered with its path, an open
/// Settings window names it, and the desktop is drawn again. One that cannot be
/// hung changes nothing.
pub fn set_wallpaper_from(desk: &mut Desktop, wall: &mut Wallpaper, path: &str, got: Picture) -> (r:
    Result<(), String>)
    requires
        old(desk)@.wf(),
        old(wall)@.wf(),
        got matches Picture::Decoded(image) ==> image@.fits(),
    ensures
        match got {
            Picture::Decoded(image) => {
                &&& r is Ok
                &&& final(wall)@ == (WallpaperModel { cache: None, picture: Some((path@, image@)) })
                &&& wallpaper::path_of(final(wall)@) == Some(path@)
                &&& final(desk)@ == actions::wallpaper_named(old(desk)@, Some(path@)).redraw()
            },
            _ => {
                &&& r is Err
                &&& refusal(path@, got) == Some((r->Err_0)@)
                &&& final(wall)@ == old(wall)@
                &&& final(desk)@ == old(desk)@
            },
        },
        final(desk)@.wf(),
        final(wall)@.wf(),
{
    match got {
        Picture::Unreadable(e) => Err(e),
        Picture::Undecodable(format) => Err(undecodable_line(path, &format)),
        Picture::Decoded(image) => {
            wallpaper::set_picture(wall, path, image);
            let named = wallpaper::picture_path(wall);
            actions::refresh_settings_wallpaper_line(desk, &named);
            desk.dirty = true;
            Ok(())
        },
    }
}

/// What is said where the choice could not be recorded for the next boot. The
/// picture is on the desktop all the same.
pub fn unrecorded_line(e: &str) -> (r: String)
    ensures
        r@ == "[wallpaper] could not record the choice: "@ + e@,
{
    let mut s = "[wallpaper] could not record the choice: ".to_owned();
    s.append(e);
    s
}

/// What is said at boot of a remembered picture that does not load.
pub open spec fn lost_wallpaper(path: Seq<char>) -> Seq<char> {
    "Saved wallpaper "@ + path + " could not be loaded — using the drawn one"@
}

/// The remembered picture at boot: with one remembered and loaded it is hung,
/// and one that does not load is reported.
pub fn restore_wallpaper(
    wall: &mut Wallpaper,
    remembered: &Option<String>,
    loaded: Option<Image>,
) -> (r: Option<String>)
    requires
        old(wall)@.wf(),
        loaded matches Some(image) ==> image@.fits(),
    ensures
        match (state::footer_view(*remembered), loaded) {
            (None, _) => r is None && final(wall)@ == old(wall)@,
            (Some(p), Some(image)) => r is None && final(wall)@ == (WallpaperModel {
                cache: None,
                picture: Some((p, image@)),
            }),
            (Some(p), None) => r is Some && (r->0)@ == lost_wallpaper(p) && final(wall)@ == old(
                wall,
            )@,
        },
        final(wall)@.wf(),
{
    let path = match remembered {
        None => {
            return None;
        },
        Some(p) => p.as_str(),
    };
    match loaded {
        Some(image) => {
            wallpaper::set_picture(wall, path, image);
            None
        },
        None => {
            let mut s = "Saved wallpaper ".to_owned();
            s.append(path);
            s.append(" could not be loaded — using the drawn one");
            Some(s)
        },
    }
}

// ── Views ───────────────────────────────────────────────────────────────────

pub open spec fn viewed(mode: FmViewMode) -> spec_fn(WindowModel) -> WindowModel {
    |w: WindowModel|
        match w.app {
            AppModel::FileManager(f) => WindowModel {
                app: AppModel::FileManager(state::FileManagerModel { view_mode: mode, ..f }),
                ..w
            },
            _ => w,
        }
}

/// List rows or large icons; the folder is to be listed again.
pub fn set_view(desk: &mut Desktop, mode: FmViewMode)
    requires
        old(desk)@.wf(),
    ensures
        final(desk)@ == documents::on_first(
            menu_dismissed(old(desk)@),
            WindowKind::FileManager,
            viewed(mode),
        ),
        final(desk)@.wf(),
{
    fm_close_top_file_menu(desk);
    if let Some(i) = desk.wm.find_kind(WindowKind::FileManager) {
        let ghost before = desk.wm.windows@;
        assert(desk@.wm.windows[i as int].wf());
        match &mut desk.wm.windows[i].app {
            AppState::FileManager(f) => {
                f.view_mode = mode;
            },
            _ => {},
        }
        proof {
            let w = desk.wm.windows@[i as int];
            assert(w@.widgets =~= before[i as int]@.widgets);
            assert(w@ == viewed(mode)(before[i as int]@));
            manager::view_updated(before, i as int, w);
        }
    }
}

// ── Laws ────────────────────────────────────────────────────────────────────

/// Nothing is made, written to or removed outside the folders that can be
/// written to.
pub proof fn only_writable_folders_change(d: DesktopModel, list: Option<Seq<Seq<char>>>)
    ensures
        folder_asked(d, list).1 is MakeFolder ==> files::writable(
            files::working_parent(d.fm_path),
        ),
        file_asked(d, list).1 is MakeFile ==> files::writable(files::working_parent(d.fm_path)),
        removal_asked(d).1 is Remove ==> files::writable(top_pick(d)->0),
{
}

/// Going up from a folder inside another leads to that other folder.
pub proof fn up_leaves_the_folder(parent: Seq<char>, name: Seq<char>)
    requires
        parent.len() > 0,
        parent.last() != '/',
        parent[0] == '/',
        name.len() > 0,
        forall|i: int| 0 <= i < name.len() ==> name[i] != '/',
    ensures
        parent_of(parent + "/"@ + name) == parent,
{
    reveal_strlit("/");
    let p = parent + "/"@ + name;
    assert(p.last() == name.last());
    assert(text::trim_end_of(p, '/') == p);
    text::find_last_at(p, '/', parent.len() as int);
    assert(p.take(parent.len() as int) =~= parent);
}

/// Opening a folder enters it, and going up leaves it again; opening a file
/// asks for that file and nothing else.
pub proof fn folders_are_entered_and_left(
    d: DesktopModel,
    parent: Seq<char>,
    name: Seq<char>,
    p: Seq<char>,
)
    requires
        explorer_on_top(d),
        top_pick(d) == Some(p),
        parent.len() > 1,
        parent.last() != '/',
        parent[0] == '/',
        name.len() > 0,
        forall|i: int| 0 <= i < name.len() ==> name[i] != '/',
    ensures
        p == parent + "/"@ + name + "/"@ ==> {
            let (e, s) = entry_opened(d);
            &&& e.fm_path == parent + "/"@ + name
            &&& s is List
            &&& gone_up(e).0.fm_path == parent
            &&& gone_up(e).1 is List
        },
        p.len() > 0 && p.last() != '/' ==> entry_opened(d) == (d, FileStep::Open(p)),
{
    reveal_strlit("/");
    let inner = parent + "/"@ + name;
    assert(inner.last() == name.last());
    if p == inner + "/"@ {
        assert(p.skip(p.len() - 1) =~= "/"@);
        text::trimming_an_end_removes_all_of_it(inner, '/', 1);
        assert(inner + Seq::new(1, |i: int| '/') =~= p);
        up_leaves_the_folder(parent, name);
        assert(inner.len() > 1);
        assert(inner != "/"@);
        assert(parent != "/"@);
    }
    if p.len() > 0 && p.last() != '/' {
        if p.skip(p.len() - 1) == "/"@ {
            assert(p.skip(p.len() - 1)[0] == p.last());
        }
    }
}

/// From a top folder, up leads to the root; from the root it leads nowhere.
pub proof fn up_ends_at_the_root(d: DesktopModel, name: Seq<char>)
    requires
        name.len() > 0,
        forall|i: int| 0 <= i < name.len() ==> name[i] != '/',
    ensures
        d.fm_path == "/"@ + name ==> gone_up(d).0.fm_path.len() == 0 && gone_up(d).1 is List,
        d.fm_path.len() == 0 || d.fm_path == "/"@ ==> gone_up(d).0.fm_path == d.fm_path && gone_up(
            d,
        ).1 is Done,
{
    reveal_strlit("/");
    let p = "/"@ + name;
    assert(p.last() == name[name.len() - 1]);
    assert(p.len() > 1);
    assert forall|j: int| 0 < j < p.len() implies p[j] != '/' by {
        assert(p[j] == name[j - 1]);
    }
    text::find_last_at(p, '/', 0);
    assert(text::trim_end_of(p, '/') == p);
}

/// What is deleted is what is selected, and only where files can be deleted; a
/// folder is named without its slash. Nothing is deleted without a selection.
pub proof fn only_the_selection_is_deleted(d: DesktopModel)
    ensures
        match removal_asked(d).1 {
            FileStep::Remove(q) => {
                &&& explorer_on_top(d)
                &&& top_pick(d) is Some
                &&& files::writable(top_pick(d)->0)
                &&& q == text::trim_end_of(top_pick(d)->0, '/')
            },
            _ => true,
        },
        explorer_on_top(d) && top_pick(d) is Some && files::writable(top_pick(d)->0)
            ==> removal_asked(d).1 is Remove,
        removal_asked(d).0.wm.windows.len() == d.wm.windows.len(),
        removal_asked(d).0.fm_path == d.fm_path,
{
    manager::first_where_bounds(d.wm.windows, manager::of_kind(WindowKind::FileManager));
}

/// Something new is made in the folder that is open, under a name that is not
/// taken there.
pub proof fn new_things_get_a_free_name(d: DesktopModel, list: Seq<Seq<char>>, n: int)
    requires
        files::writable(d.fm_path),
        !files::at_root(d.fm_path),
        1 <= n < 256,
        !files::taken(list, d.fm_path, files::candidate("New folder"@, n, true), true),
        !files::taken(list, d.fm_path, files::candidate("untitled.txt"@, n, false), false),
    ensures
        folder_asked(d, Some(list)).1 matches FileStep::MakeFolder(p) && exists|name: Seq<char>|
            p == #[trigger] files::child(d.fm_path, name) && !files::taken(
                list,
                d.fm_path,
                name,
                true,
            ),
        file_asked(d, Some(list)).1 matches FileStep::MakeFile(p) && exists|name: Seq<char>|
            p == #[trigger] files::child(d.fm_path, name) && !files::taken(
                list,
                d.fm_path,
                name,
                false,
            ),
{
    let _ = files::candidate("New folder"@, n, true);
    files::a_free_name_is_free(list, d.fm_path, "New folder"@, true, 1);
    files::a_free_name_is_free(list, d.fm_path, "untitled.txt"@, false, 1);
    let a = files::free_name(list, d.fm_path, "New folder"@, true, 1);
    let b = files::free_name(list, d.fm_path, "untitled.txt"@, false, 1);
    assert(new_path(d.fm_path, "New folder"@, true, Some(list)) == files::child(d.fm_path, a));
    assert(new_path(d.fm_path, "untitled.txt"@, false, Some(list)) == files::child(d.fm_path, b));
}

/// A short text is previewed whole, a long one by its beginning.
pub proof fn previews_begin_the_text(b: Seq<u8>)
    requires
        valid_utf8(b),
    ensures
        decode_utf8(b).len() <= 900 ==> preview_text(FileRead::Bytes(b)) == decode_utf8(b),
        decode_utf8(b).len() > 900 ==> preview_text(FileRead::Bytes(b)).take(900)
            == decode_utf8(b).take(900) && preview_text(FileRead::Bytes(b)).len() == 902,
{
    reveal_strlit(" …");
    let s = decode_utf8(b);
    if s.len() > 900 {
        assert((s.take(900) + " …"@).take(900) =~= s.take(900));
    }
}

/// A text put on one line keeps everything but its line ends, each of which
/// becomes a bar.
pub proof fn lines_are_joined_by_bars(a: Seq<char>, b: Seq<char>)
    ensures
        one_line(a + seq!['\n'] + b) == one_line(a) + " | "@ + one_line(b),
        !a.contains('\n') ==> one_line(a) == a,
    decreases b.len(), a.len(),
{
    let s = a + seq!['\n'] + b;
    if b.len() == 0 {
        assert(s.drop_last() =~= a);
        assert(one_line(a) + " | "@ + one_line(b) =~= one_line(a) + " | "@);
    } else {
        assert(s.drop_last() =~= a + seq!['\n'] + b.drop_last());
        assert(s.last() == b.last());
        lines_are_joined_by_bars(a, b.drop_last());
        assert(one_line(s) =~= one_line(a) + " | "@ + one_line(b));
    }
    if !a.contains('\n') {
        plain_lines_stay(a);
    }
}

proof fn plain_lines_stay(a: Seq<char>)
    requires
        !a.contains('\n'),
    ensures
        one_line(a) == a,
    decreases a.len(),
{
    if a.len() > 0 {
        assert(a[a.len() - 1] != '\n');
        assert forall|k: int| 0 <= k < a.drop_last().len() implies a.drop_last()[k] != '\n' by {
            assert(a[k] != '\n');
        }
        plain_lines_stay(a.drop_last());
        assert(a.drop_last().push(a.last()) =~= a);
    } else {
        assert(a =~= Seq::empty());
    }
}

/// A program opens in the Code Editor and any other text in Notepad, in front
/// and under its own path.
pub proof fn files_open_in_their_program(d: DesktopModel, path: Seq<char>, b: Seq<u8>)
    requires
        valid_utf8(b),
        manager::first_of(d.wm, WindowKind::CodeEditor) >= d.wm.windows.len(),
        manager::first_of(d.wm, WindowKind::Notepad) >= d.wm.windows.len(),
    ensures
        ({
            let e = file_opened(d, path, FileRead::Bytes(b));
            let w = e.wm.windows.last();
            &&& e.wm.windows.len() == d.wm.windows.len() + 1
            &&& files::c_source(path) ==> w.kind == WindowKind::CodeEditor && e.code_path == path
                && e.code_scratch == decode_utf8(b) && e.notepad_path == d.notepad_path
            &&& !files::c_source(path) ==> w.kind == WindowKind::Notepad && e.notepad_path == path
                && e.notepad_scratch == decode_utf8(b) && e.code_path == d.code_path
        }),
{
}

} // verus!
