//! Save As and Open. Files are read and written by the program around this
//! library: a step here says what is to be done next, and a second function
//! takes what came of it.

use vstd::prelude::*;
use vstd::string::*;
use vstd::utf8::*;

use crate::text;
use crate::window::apps;
use crate::window::apps::create_file_dialog_window;
use crate::window::documents;
use crate::window::documents::{
    code_editor_set_path_label, foot_top, notepad_set_path_label, set_top_page, set_top_program,
};
use crate::window::explorer;
use crate::window::explorer::path_parent;
use crate::window::files;
use crate::window::files::{fm_is_writable_path, is_root, refresh_file_dialog, FD_NAME_BOX};
use crate::window::manager;
use crate::window::manager::{Desktop, DesktopModel, ManagerModel};
use crate::window::state;
use crate::window::state::{AppModel, AppState, Window, WindowModel};
use crate::window::widget::{FileDialogMode, FileDialogTarget, Widget, WindowKind};

verus! {

/// What is to be done next.
pub enum DialogStep<T = String> {
    /// Nothing.
    Done,
    /// List the dialog's folder, for [`dialog_listed`].
    List,
    /// Make the folder if need be and write the text, for [`file_dialog_saved`].
    Write { folder: T, path: T, text: T },
    /// Read a file, for [`file_dialog_opened`].
    Read(T),
}

impl View for DialogStep {
    type V = DialogStep<Seq<char>>;

    open spec fn view(&self) -> DialogStep<Seq<char>> {
        match *self {
            DialogStep::Done => DialogStep::Done,
            DialogStep::List => DialogStep::List,
            DialogStep::Write { folder, path, text } => DialogStep::Write {
                folder: folder@,
                path: path@,
                text: text@,
            },
            DialogStep::Read(p) => DialogStep::Read(p@),
        }
    }
}

pub type Step = DialogStep<Seq<char>>;

/// The folder that documents go to by default.
pub open spec fn home_folder(has_disk: bool) -> Seq<char> {
    if has_disk {
        "/disk"@
    } else {
        "/data"@
    }
}

fn home(has_disk: bool) -> (r: String)
    ensures
        r@ == home_folder(has_disk),
{
    if has_disk {
        "/disk".to_owned()
    } else {
        "/data".to_owned()
    }
}

// ── Opening and closing the dialog ──────────────────────────────────────────

/// The stack without its lowest window of a kind.
pub open spec fn without_first(m: ManagerModel, k: WindowKind) -> ManagerModel {
    let i = manager::first_of(m, k);
    if i < m.windows.len() {
        ManagerModel { windows: m.windows.remove(i), ..m }
    } else {
        m
    }
}

fn remove_first(desk: &mut Desktop, kind: WindowKind) -> (r: bool)
    requires
        old(desk)@.wf(),
    ensures
        final(desk)@ == (DesktopModel { wm: without_first(old(desk)@.wm, kind), ..old(desk)@ }),
        final(desk)@.wf(),
        r == (manager::first_of(old(desk)@.wm, kind) < old(desk)@.wm.windows.len()),
{
    match desk.wm.find_kind(kind) {
        Some(i) => {
            let ghost ws = desk@.wm.windows;
            desk.wm.windows.remove(i);
            proof {
                assert(desk@.wm.windows =~= ws.remove(i as int));
                assert forall|j: int| 0 <= j < desk@.wm.windows.len() implies (
                #[trigger] desk@.wm.windows[j]).wf() by {
                    if j < i {
                        assert(ws[j].wf());
                    } else {
                        assert(ws[j + 1].wf());
                    }
                }
            }
            true
        },
        None => false,
    }
}

/// The path of the document that a dialog acts on.
pub open spec fn target_path(d: DesktopModel, target: FileDialogTarget) -> Seq<char> {
    match target {
        FileDialogTarget::Notepad => d.notepad_path,
        FileDialogTarget::CodeEditor => d.code_path,
    }
}

/// The desktop with a dialog open, and no other: in the folder it was last
/// in, if that can be written to.
pub open spec fn dialog_opened(
    d: DesktopModel,
    mode: FileDialogMode,
    target: FileDialogTarget,
    has_disk: bool,
) -> DesktopModel {
    DesktopModel {
        dialog_target: target,
        dialog_path: if d.dialog_path.len() == 0 || !files::writable(d.dialog_path) {
            home_folder(has_disk)
        } else {
            d.dialog_path
        },
        wm: manager::spawned(
            without_first(d.wm, WindowKind::FileDialog),
            apps::file_dialog_window(mode, target, target_path(d, target)),
        ),
        ..d
    }.redraw()
}

/// Open a dialog; its folder is to be listed.
pub fn open_file_dialog(
    desk: &mut Desktop,
    mode: FileDialogMode,
    target: FileDialogTarget,
    has_disk: bool,
)
    requires
        old(desk)@.wf(),
    ensures
        final(desk)@ == dialog_opened(old(desk)@, mode, target, has_disk),
        final(desk)@.wf(),
{
    desk.dialog_target = target;
    if desk.dialog_path.as_str().unicode_len() == 0 || !fm_is_writable_path(
        desk.dialog_path.as_str(),
    ) {
        desk.dialog_path = home(has_disk);
    }
    remove_first(desk, WindowKind::FileDialog);
    let w = match target {
        FileDialogTarget::Notepad => create_file_dialog_window(
            mode,
            target,
            desk.notepad_path.as_str(),
        ),
        FileDialogTarget::CodeEditor => create_file_dialog_window(
            mode,
            target,
            desk.code_path.as_str(),
        ),
    };
    desk.wm.spawn(w);
    desk.dirty = true;
}

pub open spec fn listing(path: Seq<char>, names: Seq<Seq<char>>) -> spec_fn(WindowModel) -> WindowModel {
    |w: WindowModel| files::dialog_listing(w, path, names)
}

/// The dialog's folder was listed.
pub fn dialog_listed(desk: &mut Desktop, names: Vec<String>)
    requires
        old(desk)@.wf(),
    ensures
        final(desk)@ == documents::on_first(
            old(desk)@,
            WindowKind::FileDialog,
            listing(old(desk)@.dialog_path, text::strings(names@)),
        ),
        final(desk)@.wf(),
{
    if let Some(i) = desk.wm.find_kind(WindowKind::FileDialog) {
        let ghost before = desk.wm.windows@;
        assert(desk@.wm.windows[i as int].wf());
        refresh_file_dialog(&mut desk.wm.windows[i], desk.dialog_path.as_str(), names);
        proof {
            manager::view_updated(before, i as int, desk.wm.windows@[i as int]);
        }
    }
}

pub open spec fn dialog_closed(d: DesktopModel) -> DesktopModel {
    let m = without_first(d.wm, WindowKind::FileDialog);
    DesktopModel {
        wm: if m.windows.len() < d.wm.windows.len() {
            ManagerModel { dragging: None, ..m }
        } else {
            m
        },
        ..d
    }.redraw()
}

pub fn file_dialog_close(desk: &mut Desktop)
    requires
        old(desk)@.wf(),
    ensures
        final(desk)@ == dialog_closed(old(desk)@),
        final(desk)@.wf(),
{
    proof {
        manager::first_where_bounds(desk@.wm.windows, manager::of_kind(WindowKind::FileDialog));
    }
    if remove_first(desk, WindowKind::FileDialog) {
        desk.wm.dragging = None;
    }
    desk.dirty = true;
}

/// The Up button; the folder is to be listed.
pub fn file_dialog_up(desk: &mut Desktop)
    requires
        old(desk)@.wf(),
    ensures
        final(desk)@ == (DesktopModel {
            dialog_path: explorer::parent_of(old(desk)@.dialog_path),
            ..old(desk)@
        }).redraw(),
        final(desk)@.wf(),
{
    desk.dialog_path = path_parent(desk.dialog_path.as_str());
    desk.dirty = true;
}

// ── Save ────────────────────────────────────────────────────────────────────

/// The name typed into a dialog.
pub open spec fn typed_name(w: WindowModel) -> Seq<char> {
    if w.widgets.len() > FD_NAME_BOX {
        match w.widgets[FD_NAME_BOX as int] {
            Widget::TextBox { text, .. } => text::trimmed(text),
            _ => Seq::empty(),
        }
    } else {
        Seq::empty()
    }
}

fn name_in(win: &Window) -> (r: String)
    ensures
        r@ == typed_name(win@),
{
    if win.widgets.len() > FD_NAME_BOX {
        assert(win@.widgets[FD_NAME_BOX as int] == win.widgets@[FD_NAME_BOX as int]@);
        match &win.widgets[FD_NAME_BOX] {
            Widget::TextBox { text, .. } => text::trim(text.as_str()),
            _ => String::new(),
        }
    } else {
        String::new()
    }
}

pub open spec fn said(d: DesktopModel, t: Seq<char>) -> DesktopModel {
    documents::on_top(d, WindowKind::FileDialog, documents::footed(t))
}

fn say(desk: &mut Desktop, t: &str)
    requires
        old(desk)@.wf(),
    ensures
        final(desk)@ == said(old(desk)@, t@),
        final(desk)@.wf(),
{
    foot_top(desk, WindowKind::FileDialog, t);
}

/// The folder a document is saved in: at the root, the default one.
pub open spec fn save_folder(path: Seq<char>, has_disk: bool) -> Seq<char> {
    if files::at_root(path) {
        home_folder(has_disk)
    } else {
        text::trim_end_of(path, '/')
    }
}

/// The Save button: a name without slashes and a folder that can be written
/// to are needed before anything is written.
pub open spec fn save_confirmed(d: DesktopModel, has_disk: bool) -> (DesktopModel, Step) {
    let i = manager::first_of(d.wm, WindowKind::FileDialog);
    if i >= d.wm.windows.len() {
        (d, DialogStep::Done)
    } else {
        let name = typed_name(d.wm.windows[i]);
        let folder = save_folder(d.dialog_path, has_disk);
        if name.len() == 0 || text::find(name, '/') < name.len() {
            (said(d, "Enter a file name (no slashes)."@), DialogStep::Done)
        } else if !files::writable(folder) {
            (said(d, "Folder is read-only. Use /disk or /data."@), DialogStep::Done)
        } else {
            (
                d,
                DialogStep::Write { folder, path: folder + "/"@ + name, text: d.save_as_pending },
            )
        }
    }
}

pub fn file_dialog_confirm_save(desk: &mut Desktop, has_disk: bool) -> (r: DialogStep)
    requires
        old(desk)@.wf(),
    ensures
        (final(desk)@, r@) == save_confirmed(old(desk)@, has_disk),
        final(desk)@.wf(),
{
    let i: usize = match desk.wm.find_kind(WindowKind::FileDialog) {
        Some(i) => i,
        None => {
            return DialogStep::Done;
        },
    };
    assert(desk@.wm.windows[i as int] == desk.wm.windows@[i as int]@);
    let name = name_in(&desk.wm.windows[i]);
    let v = text::chars_of(name.as_str());
    if v.len() == 0 || text::find_char(v.as_slice(), '/') < v.len() {
        say(desk, "Enter a file name (no slashes).");
        return DialogStep::Done;
    }
    let folder = if is_root(desk.dialog_path.as_str()) {
        home(has_disk)
    } else {
        text::trim_end_matches(desk.dialog_path.as_str(), '/')
    };
    if !fm_is_writable_path(folder.as_str()) {
        say(desk, "Folder is read-only. Use /disk or /data.");
        return DialogStep::Done;
    }
    let mut path = folder.as_str().to_owned();
    path.append("/");
    path.append(name.as_str());
    DialogStep::Write { folder, path, text: desk.save_as_pending.as_str().to_owned() }
}

/// A document was written: its app takes on the new path and says so.
pub open spec fn save_done(d: DesktopModel, path: Seq<char>) -> DesktopModel {
    match d.dialog_target {
        FileDialogTarget::Notepad => {
            let e = dialog_closed(
                DesktopModel { notepad_path: path, notepad_scratch: d.save_as_pending, ..d },
            );
            documents::on_top(
                documents::on_top(e, WindowKind::Notepad, documents::notepad_named(path)),
                WindowKind::Notepad,
                documents::footed("Saved to "@ + path),
            )
        },
        FileDialogTarget::CodeEditor => {
            let e = dialog_closed(
                DesktopModel { code_path: path, code_scratch: d.save_as_pending, ..d },
            );
            documents::on_top(
                documents::on_top(e, WindowKind::CodeEditor, documents::code_named(path)),
                WindowKind::CodeEditor,
                documents::footed("Saved to "@ + path),
            )
        },
    }
}

pub open spec fn saved(d: DesktopModel, path: Seq<char>, failure: Option<Seq<char>>) -> DesktopModel {
    match failure {
        None => save_done(d, path),
        Some(e) => said(d, "Save failed: "@ + e),
    }
}

/// The document was written, or could not be.
pub fn file_dialog_saved(desk: &mut Desktop, path: &str, failure: &Option<String>)
    requires
        old(desk)@.wf(),
    ensures
        final(desk)@ == saved(old(desk)@, path@, state::footer_view(*failure)),
        final(desk)@.wf(),
{
    match failure {
        None => {
            let mut line = "Saved to ".to_owned();
            line.append(path);
            match desk.dialog_target {
                FileDialogTarget::Notepad => {
                    desk.notepad_path = path.to_owned();
                    desk.notepad_scratch = desk.save_as_pending.as_str().to_owned();
                    file_dialog_close(desk);
                    notepad_set_path_label(desk);
                    foot_top(desk, WindowKind::Notepad, line.as_str());
                },
                FileDialogTarget::CodeEditor => {
                    desk.code_path = path.to_owned();
                    desk.code_scratch = desk.save_as_pending.as_str().to_owned();
                    file_dialog_close(desk);
                    code_editor_set_path_label(desk);
                    foot_top(desk, WindowKind::CodeEditor, line.as_str());
                },
            }
        },
        Some(e) => {
            let mut line = "Save failed: ".to_owned();
            line.append(e.as_str());
            say(desk, line.as_str());
        },
    }
}

// ── Open ────────────────────────────────────────────────────────────────────

/// A path chosen in a dialog: a folder is entered, a file is to be read.
pub open spec fn path_chosen(d: DesktopModel, path: Seq<char>) -> (DesktopModel, Step) {
    if text::has_suffix(path, "/"@) {
        (
            DesktopModel { dialog_path: text::trim_end_of(path, '/'), ..d }.redraw(),
            DialogStep::List,
        )
    } else {
        (d, DialogStep::Read(path))
    }
}

pub fn file_dialog_open_path(desk: &mut Desktop, path: &str) -> (r: DialogStep)
    requires
        old(desk)@.wf(),
    ensures
        (final(desk)@, r@) == path_chosen(old(desk)@, path@),
        final(desk)@.wf(),
{
    if text::ends_with(path, "/") {
        desk.dialog_path = text::trim_end_matches(path, '/');
        desk.dirty = true;
        return DialogStep::List;
    }
    DialogStep::Read(path.to_owned())
}

/// What is selected in a dialog.
pub open spec fn dialog_pick(w: WindowModel) -> Option<Option<Seq<char>>> {
    match w.app {
        AppModel::FileDialog(f) => match f.selected {
            Some(i) => if i < f.entries.len() {
                Some(Some(f.entries[i as int]))
            } else {
                Some(None)
            },
            None => None,
        },
        _ => None,
    }
}

/// The Open button: what is selected, or else what is typed.
pub open spec fn open_confirmed(d: DesktopModel) -> (DesktopModel, Step) {
    let i = manager::first_of(d.wm, WindowKind::FileDialog);
    if i >= d.wm.windows.len() || !(d.wm.windows[i].app is FileDialog) {
        (d, DialogStep::Done)
    } else {
        let w = d.wm.windows[i];
        match dialog_pick(w) {
            Some(Some(e)) => path_chosen(d, e),
            Some(None) => (said(d, "Select a file or type a name."@), DialogStep::Done),
            None => if typed_name(w).len() == 0 {
                (said(d, "Select a file or type a name."@), DialogStep::Done)
            } else {
                path_chosen(d, save_folder(d.dialog_path, true) + "/"@ + typed_name(w))
            },
        }
    }
}

fn pick_in(win: &Window) -> (r: Option<Option<String>>)
    ensures
        match r {
            Some(o) => dialog_pick(win@) == Some(state::footer_view(o)),
            None => dialog_pick(win@) is None,
        },
{
    match &win.app {
        AppState::FileDialog(f) => match f.selected {
            Some(i) => if i < f.entries.len() {
                assert(f@.entries[i as int] == f.entries@[i as int]@);
                Some(Some(f.entries[i].as_str().to_owned()))
            } else {
                Some(None)
            },
            None => None,
        },
        _ => None,
    }
}

pub fn file_dialog_confirm_open(desk: &mut Desktop) -> (r: DialogStep)
    requires
        old(desk)@.wf(),
    ensures
        (final(desk)@, r@) == open_confirmed(old(desk)@),
        final(desk)@.wf(),
{
    let i: usize = match desk.wm.find_kind(WindowKind::FileDialog) {
        Some(i) => i,
        None => {
            return DialogStep::Done;
        },
    };
    assert(desk@.wm.windows[i as int] == desk.wm.windows@[i as int]@);
    match &desk.wm.windows[i].app {
        AppState::FileDialog(_) => {},
        _ => {
            return DialogStep::Done;
        },
    }
    let pick = pick_in(&desk.wm.windows[i]);
    let name = name_in(&desk.wm.windows[i]);
    match pick {
        Some(Some(e)) => file_dialog_open_path(desk, e.as_str()),
        Some(None) => {
            say(desk, "Select a file or type a name.");
            DialogStep::Done
        },
        None => {
            if name.as_str().unicode_len() == 0 {
                say(desk, "Select a file or type a name.");
                return DialogStep::Done;
            }
            let mut path = if is_root(desk.dialog_path.as_str()) {
                "/disk".to_owned()
            } else {
                text::trim_end_matches(desk.dialog_path.as_str(), '/')
            };
            path.append("/");
            path.append(name.as_str());
            file_dialog_open_path(desk, path.as_str())
        },
    }
}

/// A file in a dialog was double-clicked: folders are entered, and an Open
/// dialog opens files.
pub open spec fn activated(d: DesktopModel) -> (DesktopModel, Step) {
    let i = manager::first_of(d.wm, WindowKind::FileDialog);
    if i >= d.wm.windows.len() {
        (d, DialogStep::Done)
    } else {
        match (d.wm.windows[i].app, dialog_pick(d.wm.windows[i])) {
            (AppModel::FileDialog(f), Some(Some(e))) => if text::has_suffix(e, "/"@) || f.mode
                == FileDialogMode::Open {
                path_chosen(d, e)
            } else {
                (d, DialogStep::Done)
            },
            _ => (d, DialogStep::Done),
        }
    }
}

pub fn file_dialog_activate_selected(desk: &mut Desktop) -> (r: DialogStep)
    requires
        old(desk)@.wf(),
    ensures
        (final(desk)@, r@) == activated(old(desk)@),
        final(desk)@.wf(),
{
    let i: usize = match desk.wm.find_kind(WindowKind::FileDialog) {
        Some(i) => i,
        None => {
            return DialogStep::Done;
        },
    };
    assert(desk@.wm.windows[i as int] == desk.wm.windows@[i as int]@);
    let opens = match &desk.wm.windows[i].app {
        AppState::FileDialog(f) => f.mode == FileDialogMode::Open,
        _ => {
            return DialogStep::Done;
        },
    };
    match pick_in(&desk.wm.windows[i]) {
        Some(Some(e)) => if text::ends_with(e.as_str(), "/") || opens {
            file_dialog_open_path(desk, e.as_str())
        } else {
            DialogStep::Done
        },
        _ => DialogStep::Done,
    }
}

/// A text file that was opened goes to the app the dialog is for.
pub open spec fn text_opened(d: DesktopModel, path: Seq<char>, t: Seq<char>) -> DesktopModel {
    dialog_closed(
        match d.dialog_target {
            FileDialogTarget::Notepad => documents::on_top(
                DesktopModel { notepad_scratch: t, notepad_path: path, ..d },
                WindowKind::Notepad,
                documents::repaged(t, path),
            ),
            FileDialogTarget::CodeEditor => documents::on_top(
                DesktopModel { code_scratch: t, code_path: path, ..d },
                WindowKind::CodeEditor,
                documents::program_set(t, path),
            ),
        },
    )
}

pub open spec fn opened(
    d: DesktopModel,
    path: Seq<char>,
    read: Result<Seq<u8>, Seq<char>>,
) -> DesktopModel {
    match read {
        Ok(b) => if valid_utf8(b) {
            text_opened(d, path, decode_utf8(b))
        } else {
            said(d, "File is not UTF-8 text."@)
        },
        Err(e) => said(d, "Open failed: "@ + e),
    }
}

/// The file was read, or could not be.
pub fn file_dialog_opened(desk: &mut Desktop, path: &str, read: &Result<Vec<u8>, String>)
    requires
        old(desk)@.wf(),
    ensures
        final(desk)@ == opened(old(desk)@, path@, explorer::read_view(*read)),
        final(desk)@.wf(),
{
    match read {
        Ok(b) => match text::decode_text(b.as_slice()) {
            Some(t) => {
                match desk.dialog_target {
                    FileDialogTarget::Notepad => {
                        desk.notepad_scratch = t.as_str().to_owned();
                        desk.notepad_path = path.to_owned();
                        set_top_page(desk, t.as_str());
                    },
                    FileDialogTarget::CodeEditor => {
                        desk.code_scratch = t.as_str().to_owned();
                        desk.code_path = path.to_owned();
                        set_top_program(desk, t.as_str());
                    },
                }
                file_dialog_close(desk);
            },
            None => {
                say(desk, "File is not UTF-8 text.");
            },
        },
        Err(e) => {
            let mut line = "Open failed: ".to_owned();
            line.append(e.as_str());
            say(desk, line.as_str());
        },
    }
}

// ── Laws ────────────────────────────────────────────────────────────────────

/// Nothing is written outside the folders that can be written to, nor under a
/// name that reaches into another folder.
pub proof fn saves_stay_in_writable_folders(d: DesktopModel, has_disk: bool)
    requires
        save_confirmed(d, has_disk).1 is Write,
    ensures
        ({
            let s = save_confirmed(d, has_disk).1;
            let w = d.wm.windows[manager::first_of(d.wm, WindowKind::FileDialog)];
            &&& files::writable(s->folder)
            &&& s->path == s->folder + "/"@ + typed_name(w)
            &&& typed_name(w).len() > 0
            &&& forall|i: int| 0 <= i < typed_name(w).len() ==> typed_name(w)[i] != '/'
            &&& s->text == d.save_as_pending
        }),
{
    let w = d.wm.windows[manager::first_of(d.wm, WindowKind::FileDialog)];
    let name = typed_name(w);
    text::find_bounds(name, '/');
    no_char(name, '/');
}

proof fn no_char(s: Seq<char>, c: char)
    requires
        text::find(s, c) >= s.len(),
    ensures
        forall|i: int| 0 <= i < s.len() ==> s[i] != c,
    decreases s.len(),
{
    if s.len() > 0 {
        no_char(s.skip(1), c);
        assert forall|i: int| 0 <= i < s.len() implies s[i] != c by {
            if i > 0 {
                assert(s.skip(1)[i - 1] == s[i]);
            }
        }
    }
}

/// A dialog for saving that was opened on a document offers its name again.
pub proof fn a_saved_document_keeps_its_name(d: DesktopModel, has_disk: bool)
    requires
        d.notepad_path.len() > 0,
    ensures
        ({
            let e = dialog_opened(d, FileDialogMode::Save, FileDialogTarget::Notepad, has_disk);
            e.wm.windows.last().widgets[FD_NAME_BOX as int] matches Widget::TextBox { text: t, .. }
                && t == files::base_name(d.notepad_path)
        }),
{
}

/// A document that was saved belongs to its program under the new path, with
/// the text that was written; the other program keeps its own. The dialog is
/// gone.
pub proof fn a_saved_document_takes_its_path(d: DesktopModel, path: Seq<char>, why: Seq<char>)
    ensures
        ({
            let e = saved(d, path, None);
            let m = d.dialog_target == FileDialogTarget::Notepad;
            &&& m ==> e.notepad_path == path && e.notepad_scratch == d.save_as_pending
                && e.code_path == d.code_path && e.code_scratch == d.code_scratch
            &&& !m ==> e.code_path == path && e.code_scratch == d.save_as_pending
                && e.notepad_path == d.notepad_path && e.notepad_scratch == d.notepad_scratch
            &&& manager::first_of(d.wm, WindowKind::FileDialog) < d.wm.windows.len()
                ==> e.wm.windows.len() == d.wm.windows.len() - 1
        }),
        ({
            let e = saved(d, path, Some(why));
            &&& e.notepad_path == d.notepad_path && e.code_path == d.code_path
            &&& e.wm.windows.len() == d.wm.windows.len()
        }),
{
    manager::first_where_bounds(d.wm.windows, manager::of_kind(WindowKind::FileDialog));
    manager::last_where_bounds(d.wm.windows, manager::of_kind(WindowKind::FileDialog));
    let m = without_first(d.wm, WindowKind::FileDialog);
    let notepad = manager::of_kind(WindowKind::Notepad);
    let editor = manager::of_kind(WindowKind::CodeEditor);
    manager::last_where_bounds(m.windows, notepad);
    manager::last_where_bounds(m.windows, editor);
    let i = manager::last_where(m.windows, notepad);
    let j = manager::last_where(m.windows, editor);
    if i >= 0 {
        let ws = m.windows.update(i, documents::notepad_named(path)(m.windows[i]));
        manager::last_where_bounds(ws, notepad);
    }
    if j >= 0 {
        let ws = m.windows.update(j, documents::code_named(path)(m.windows[j]));
        manager::last_where_bounds(ws, editor);
    }
}

/// The Open button reads what is selected, or the name that is typed in the
/// folder that is shown; a folder that is selected is entered instead.
pub proof fn open_reads_what_was_chosen(d: DesktopModel, e: Seq<char>)
    requires
        manager::first_of(d.wm, WindowKind::FileDialog) < d.wm.windows.len(),
        d.wm.windows[manager::first_of(d.wm, WindowKind::FileDialog)].app is FileDialog,
    ensures
        ({
            let w = d.wm.windows[manager::first_of(d.wm, WindowKind::FileDialog)];
            let f = w.app->FileDialog_0;
            &&& f.selected is Some && f.selected->0 < f.entries.len() && f.entries[f.selected->0 as int]
                == e && e.len() > 0 && e.last() != '/' ==> open_confirmed(d) == (
                d,
                DialogStep::Read(e),
            )
            &&& f.selected is Some && f.selected->0 < f.entries.len() && f.entries[f.selected->0 as int]
                == e + "/"@ && e.len() > 0 && e.last() != '/' ==> open_confirmed(d).1 is List
                && open_confirmed(d).0.dialog_path == e
            &&& f.selected is None && typed_name(w).len() == 0 ==> open_confirmed(d).1 is Done
            &&& f.selected is None && typed_name(w).len() > 0 && typed_name(w).last() != '/'
                && !files::at_root(d.dialog_path) && d.dialog_path.last() != '/' ==> open_confirmed(
                d,
            ) == (d, DialogStep::Read(d.dialog_path + "/"@ + typed_name(w)))
        }),
{
    reveal_strlit("/");
    let w = d.wm.windows[manager::first_of(d.wm, WindowKind::FileDialog)];
    if e.len() > 0 && e.last() != '/' {
        if e.skip(e.len() - 1) == "/"@ {
            assert(e.skip(e.len() - 1)[0] == e.last());
        }
        let g = e + "/"@;
        assert(g.skip(g.len() - 1) =~= "/"@);
        text::trimming_an_end_removes_all_of_it(e, '/', 1);
        assert(e + Seq::new(1, |i: int| '/') =~= g);
    }
    if typed_name(w).len() > 0 && typed_name(w).last() != '/' && !files::at_root(d.dialog_path)
        && d.dialog_path.last() != '/' {
        let p = d.dialog_path + "/"@ + typed_name(w);
        assert(save_folder(d.dialog_path, true) == d.dialog_path);
        assert(p.last() == typed_name(w).last());
        if p.skip(p.len() - 1) == "/"@ {
            assert(p.skip(p.len() - 1)[0] == p.last());
        }
    }
}

/// A text that was opened goes to the program that the dialog was opened for,
/// and the other one keeps its own; what is no text changes no document.
pub proof fn an_opened_text_goes_to_its_program(d: DesktopModel, path: Seq<char>, b: Seq<u8>)
    ensures
        ({
            let e = opened(d, path, Ok(b));
            let m = d.dialog_target == FileDialogTarget::Notepad;
            &&& valid_utf8(b) && m ==> e.notepad_path == path && e.notepad_scratch == decode_utf8(b)
                && e.code_path == d.code_path && e.code_scratch == d.code_scratch
            &&& valid_utf8(b) && !m ==> e.code_path == path && e.code_scratch == decode_utf8(b)
                && e.notepad_path == d.notepad_path && e.notepad_scratch == d.notepad_scratch
            &&& !valid_utf8(b) ==> e.notepad_path == d.notepad_path && e.notepad_scratch
                == d.notepad_scratch && e.code_path == d.code_path && e.code_scratch
                == d.code_scratch
        }),
{
}

/// There is one dialog: a new one takes the place of the one that was open, in
/// front of everything, in a folder that can be written to.
pub proof fn there_is_one_dialog(
    d: DesktopModel,
    mode: FileDialogMode,
    target: FileDialogTarget,
    has_disk: bool,
)
    ensures
        ({
            let e = dialog_opened(d, mode, target, has_disk);
            &&& e.wm.windows.last().kind == WindowKind::FileDialog
            &&& e.wm.windows.last().app matches AppModel::FileDialog(f) && f.mode == mode
            &&& e.dialog_target == target
            &&& files::writable(e.dialog_path)
            &&& manager::first_of(d.wm, WindowKind::FileDialog) < d.wm.windows.len()
                ==> e.wm.windows.len() == d.wm.windows.len()
            &&& manager::first_of(d.wm, WindowKind::FileDialog) >= d.wm.windows.len()
                ==> e.wm.windows.len() == d.wm.windows.len() + 1
        }),
{
    files::only_disks_can_be_written_to(Seq::empty());
    assert("/disk"@ + Seq::<char>::empty() =~= "/disk"@);
    assert("/data"@ + Seq::<char>::empty() =~= "/data"@);
    manager::first_where_bounds(d.wm.windows, manager::of_kind(WindowKind::FileDialog));
}

} // verus!
