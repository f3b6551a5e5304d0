//! What Notepad and the Code Editor do with their documents.

use vstd::prelude::*;
use vstd::string::*;

use crate::text;
use crate::window::apps;
use crate::window::apps::{create_code_editor_window, create_notepad_window, template};
use crate::window::manager;
use crate::window::manager::{Desktop, DesktopModel};
use crate::window::state;
use crate::window::state::{Window, WindowModel};
use crate::window::status;
use crate::window::status::{
    code_editor_refresh_status, notepad_refresh_status, CODE_OUTPUT, CODE_TEXT, NOTEPAD_TEXT,
};
use crate::window::widget;
use crate::window::widget::{Widget, WindowKind};

verus! {

// ── One window ──────────────────────────────────────────────────────────────

/// The desktop with its lowest window of a kind changed; without one it is as
/// it was.
pub open spec fn on_first(
    d: DesktopModel,
    k: WindowKind,
    f: spec_fn(WindowModel) -> WindowModel,
) -> DesktopModel {
    let i = manager::first_of(d.wm, k);
    if i < d.wm.windows.len() {
        d.set_window(i, f(d.wm.windows[i]))
    } else {
        d
    }
}

/// The desktop with its topmost window of a kind changed, and drawn anew.
pub open spec fn on_top(
    d: DesktopModel,
    k: WindowKind,
    f: spec_fn(WindowModel) -> WindowModel,
) -> DesktopModel {
    let i = manager::last_of(d.wm, k);
    (if i >= 0 {
        d.set_window(i, f(d.wm.windows[i]))
    } else {
        d
    }).redraw()
}

pub open spec fn footed(t: Seq<char>) -> spec_fn(WindowModel) -> WindowModel {
    |w: WindowModel| WindowModel { footer: Some(t), ..w }
}

/// Puts a line in the footer of the topmost window of a kind.
pub fn foot_top(desk: &mut Desktop, kind: WindowKind, t: &str)
    requires
        old(desk)@.wf(),
    ensures
        final(desk)@ == on_top(old(desk)@, kind, footed(t@)),
        final(desk)@.wf(),
{
    if let Some(i) = desk.wm.find_last_kind(kind) {
        let ghost before = desk.wm.windows@;
        assert(desk@.wm.windows[i as int].wf());
        desk.wm.windows[i].footer = Some(t.to_owned());
        proof {
            let w = desk.wm.windows@[i as int];
            assert(w@.widgets =~= before[i as int]@.widgets);
            manager::view_updated(before, i as int, w);
        }
    }
    desk.dirty = true;
}

/// Puts a line in the footer of the lowest window of a kind.
pub fn foot_first(desk: &mut Desktop, kind: WindowKind, t: &str)
    requires
        old(desk)@.wf(),
    ensures
        final(desk)@ == on_first(old(desk)@, kind, footed(t@)),
        final(desk)@.wf(),
{
    if let Some(i) = desk.wm.find_kind(kind) {
        let ghost before = desk.wm.windows@;
        assert(desk@.wm.windows[i as int].wf());
        desk.wm.windows[i].footer = Some(t.to_owned());
        proof {
            let w = desk.wm.windows@[i as int];
            assert(w@.widgets =~= before[i as int]@.widgets);
            manager::view_updated(before, i as int, w);
        }
    }
}

// ── Notepad ─────────────────────────────────────────────────────────────────

/// The text on Notepad's page, if there is a page.
pub open spec fn page_text(w: WindowModel) -> Option<Seq<char>> {
    if w.widgets.len() > NOTEPAD_TEXT {
        match w.widgets[NOTEPAD_TEXT as int] {
            Widget::TextArea { text, .. } => Some(text),
            _ => None,
        }
    } else {
        None
    }
}

/// Notepad with another text on its page.
pub open spec fn repaged(t: Seq<char>, path: Seq<char>) -> spec_fn(WindowModel) -> WindowModel {
    |w: WindowModel|
        status::notepad_refreshed(
            if page_text(w) is Some {
                WindowModel {
                    widgets: w.widgets.update(
                        NOTEPAD_TEXT as int,
                        widget::with_text(w.widgets[NOTEPAD_TEXT as int], t),
                    ),
                    ..w
                }
            } else {
                w
            },
            path,
        )
}

fn set_page(win: &mut Window, t: &str, path: &str)
    requires
        old(win)@.wf(),
    ensures
        final(win)@ == repaged(t@, path@)(old(win)@),
        final(win)@.wf(),
{
    if win.widgets.len() > NOTEPAD_TEXT {
        if let Widget::TextArea { text, .. } = &mut win.widgets[NOTEPAD_TEXT] {
            *text = t.to_owned();
        }
    }
    proof {
        let w1 = if page_text(old(win)@) is Some {
            old(win)@.widgets.update(
                NOTEPAD_TEXT as int,
                widget::with_text(old(win)@.widgets[NOTEPAD_TEXT as int], t@),
            )
        } else {
            old(win)@.widgets
        };
        assert(win@.widgets =~= w1);
    }
    notepad_refresh_status(win, path);
}

fn page_of(win: &Window) -> (r: Option<String>)
    ensures
        state::footer_view(r) == page_text(win@),
{
    if win.widgets.len() > NOTEPAD_TEXT {
        assert(win@.widgets[NOTEPAD_TEXT as int] == win.widgets@[NOTEPAD_TEXT as int]@);
        match &win.widgets[NOTEPAD_TEXT] {
            Widget::TextArea { text, .. } => Some(text.as_str().to_owned()),
            _ => None,
        }
    } else {
        None
    }
}

/// The desktop with a file open in Notepad. There is one Notepad: opening a
/// second file replaces what it shows.
pub open spec fn opened_in_notepad(d: DesktopModel, path: Seq<char>, t: Seq<char>) -> DesktopModel {
    let d1 = DesktopModel { notepad_scratch: t, notepad_path: path, ..d };
    let i = manager::first_of(d.wm, WindowKind::Notepad);
    (if i < d.wm.windows.len() {
        let d2 = DesktopModel { wm: manager::raised(d1.wm, i), ..d1 };
        let top = d2.wm.windows.len() - 1;
        d2.set_window(top, repaged(t, path)(d2.wm.windows[top]))
    } else {
        DesktopModel { wm: manager::spawned(d1.wm, apps::notepad_window(t, path)), ..d1 }
    }).redraw()
}

pub fn open_path_in_notepad(desk: &mut Desktop, path: &str, t: &str)
    requires
        old(desk)@.wf(),
    ensures
        final(desk)@ == opened_in_notepad(old(desk)@, path@, t@),
        final(desk)@.wf(),
{
    desk.notepad_scratch = t.to_owned();
    desk.notepad_path = path.to_owned();
    match desk.wm.find_kind(WindowKind::Notepad) {
        Some(i) => {
            desk.wm.raise(i);
            let top: usize = desk.wm.windows.len() - 1;
            let ghost before = desk.wm.windows@;
            assert(desk@.wm.windows[top as int].wf());
            set_page(&mut desk.wm.windows[top], t, path);
            proof {
                manager::view_updated(before, top as int, desk.wm.windows@[top as int]);
            }
        },
        None => {
            desk.wm.spawn(create_notepad_window(t, path));
        },
    }
    desk.dirty = true;
}

/// Notepad's text is kept for a Save As dialog, which is to be opened next.
pub open spec fn notepad_kept(d: DesktopModel) -> DesktopModel {
    let i = manager::last_of(d.wm, WindowKind::Notepad);
    (if i >= 0 && page_text(d.wm.windows[i]) is Some {
        let t = page_text(d.wm.windows[i])->0;
        DesktopModel { save_as_pending: t, notepad_scratch: t, ..d }
    } else {
        d
    }).redraw()
}

pub fn notepad_save(desk: &mut Desktop)
    requires
        old(desk)@.wf(),
    ensures
        final(desk)@ == notepad_kept(old(desk)@),
        final(desk)@.wf(),
{
    if let Some(i) = desk.wm.find_last_kind(WindowKind::Notepad) {
        assert(desk@.wm.windows[i as int] == desk.wm.windows@[i as int]@);
        if let Some(t) = page_of(&desk.wm.windows[i]) {
            desk.save_as_pending = t.as_str().to_owned();
            desk.notepad_scratch = t;
        }
    }
    desk.dirty = true;
}

pub fn notepad_clear(desk: &mut Desktop)
    requires
        old(desk)@.wf(),
    ensures
        final(desk)@ == on_top(
            old(desk)@,
            WindowKind::Notepad,
            repaged(Seq::empty(), old(desk)@.notepad_path),
        ),
        final(desk)@.wf(),
{
    set_top_page(desk, "");
    proof {
        reveal_strlit("");
        assert(""@ =~= Seq::empty());
    }
}

/// Another text on the page of the topmost Notepad.
pub fn set_top_page(desk: &mut Desktop, t: &str)
    requires
        old(desk)@.wf(),
    ensures
        final(desk)@ == on_top(
            old(desk)@,
            WindowKind::Notepad,
            repaged(t@, old(desk)@.notepad_path),
        ),
        final(desk)@.wf(),
{
    if let Some(i) = desk.wm.find_last_kind(WindowKind::Notepad) {
        let ghost before = desk.wm.windows@;
        assert(desk@.wm.windows[i as int].wf());
        set_page(&mut desk.wm.windows[i], t, desk.notepad_path.as_str());
        proof {
            manager::view_updated(before, i as int, desk.wm.windows@[i as int]);
        }
    }
    desk.dirty = true;
}

pub open spec fn notepad_named(path: Seq<char>) -> spec_fn(WindowModel) -> WindowModel {
    |w: WindowModel| status::notepad_refreshed(w, path)
}

/// The path label and status of the topmost Notepad brought up to date.
pub fn notepad_set_path_label(desk: &mut Desktop)
    requires
        old(desk)@.wf(),
    ensures
        final(desk)@ == on_top(
            old(desk)@,
            WindowKind::Notepad,
            notepad_named(old(desk)@.notepad_path),
        ),
        final(desk)@.wf(),
{
    if let Some(i) = desk.wm.find_last_kind(WindowKind::Notepad) {
        let ghost before = desk.wm.windows@;
        assert(desk@.wm.windows[i as int].wf());
        notepad_refresh_status(&mut desk.wm.windows[i], desk.notepad_path.as_str());
        proof {
            manager::view_updated(before, i as int, desk.wm.windows@[i as int]);
        }
    }
    desk.dirty = true;
}

// ── Code Editor ─────────────────────────────────────────────────────────────

/// The program in the editor, if there is one.
pub open spec fn program_text(w: WindowModel) -> Option<Seq<char>> {
    if w.widgets.len() > CODE_TEXT {
        match w.widgets[CODE_TEXT as int] {
            Widget::CodeArea { text, .. } => Some(text),
            _ => None,
        }
    } else {
        None
    }
}

/// A code area with another program, the caret at its end.
pub open spec fn programmed(wgt: Widget<Seq<char>>, t: Seq<char>) -> Widget<Seq<char>> {
    match wgt {
        Widget::CodeArea { x, y, w, h, .. } => Widget::CodeArea {
            x,
            y,
            w,
            h,
            text: t,
            cursor: t.len() as usize,
            selection: None,
        },
        other => other,
    }
}

/// An output pane with another text.
pub open spec fn reported(wgt: Widget<Seq<char>>, t: Seq<char>, error: bool) -> Widget<Seq<char>> {
    match wgt {
        Widget::OutputArea { x, y, w, h, .. } => Widget::OutputArea { x, y, w, h, text: t, error },
        other => other,
    }
}

/// The editor's widgets with another program and another output.
pub open spec fn editor_widgets(
    ws: Seq<Widget<Seq<char>>>,
    program: Option<Seq<char>>,
    output: Seq<char>,
    error: bool,
) -> Seq<Widget<Seq<char>>> {
    ws.map(
        |i: int, wgt: Widget<Seq<char>>|
            if i == CODE_TEXT && program is Some {
                programmed(wgt, program->0)
            } else if i == CODE_OUTPUT {
                reported(wgt, output, error)
            } else {
                wgt
            },
    )
}

pub open spec fn output_set(t: Seq<char>, error: bool) -> spec_fn(WindowModel) -> WindowModel {
    |w: WindowModel| WindowModel { widgets: editor_widgets(w.widgets, None, t, error), ..w }
}

pub open spec fn program_set(t: Seq<char>, path: Seq<char>) -> spec_fn(WindowModel) -> WindowModel {
    |w: WindowModel|
        status::code_refreshed(
            WindowModel { widgets: editor_widgets(w.widgets, Some(t), Seq::empty(), false), ..w },
            path,
        )
}

fn set_output(win: &mut Window, t: &str, is_error: bool)
    requires
        old(win)@.wf(),
    ensures
        final(win)@ == output_set(t@, is_error)(old(win)@),
        final(win)@.wf(),
{
    if win.widgets.len() > CODE_OUTPUT {
        if let Widget::OutputArea { text, error, .. } = &mut win.widgets[CODE_OUTPUT] {
            *text = t.to_owned();
            *error = is_error;
        }
    }
    assert(win@.widgets =~= editor_widgets(old(win)@.widgets, None, t@, is_error));
}

fn set_program(win: &mut Window, t: &str, path: &str)
    requires
        old(win)@.wf(),
    ensures
        final(win)@ == program_set(t@, path@)(old(win)@),
        final(win)@.wf(),
{
    let n: usize = t.unicode_len();
    if win.widgets.len() > CODE_TEXT {
        if let Widget::CodeArea { text, cursor, selection, .. } = &mut win.widgets[CODE_TEXT] {
            *text = t.to_owned();
            *cursor = n;
            *selection = None;
        }
    }
    set_output(win, "", false);
    proof {
        reveal_strlit("");
        assert(""@ =~= Seq::empty());
        assert(win@.widgets =~= editor_widgets(old(win)@.widgets, Some(t@), Seq::empty(), false));
    }
    code_editor_refresh_status(win, path);
}

fn program_of(win: &Window) -> (r: Option<String>)
    ensures
        state::footer_view(r) == program_text(win@),
{
    if win.widgets.len() > CODE_TEXT {
        assert(win@.widgets[CODE_TEXT as int] == win.widgets@[CODE_TEXT as int]@);
        match &win.widgets[CODE_TEXT] {
            Widget::CodeArea { text, .. } => Some(text.as_str().to_owned()),
            _ => None,
        }
    } else {
        None
    }
}

/// The desktop with a file open in the Code Editor, of which there is one.
pub open spec fn opened_in_editor(d: DesktopModel, path: Seq<char>, t: Seq<char>) -> DesktopModel {
    let d1 = DesktopModel { code_scratch: t, code_path: path, ..d };
    let i = manager::first_of(d.wm, WindowKind::CodeEditor);
    (if i < d.wm.windows.len() {
        let d2 = DesktopModel { wm: manager::raised(d1.wm, i), ..d1 };
        let top = d2.wm.windows.len() - 1;
        d2.set_window(top, program_set(t, path)(d2.wm.windows[top]))
    } else {
        DesktopModel { wm: manager::spawned(d1.wm, apps::code_editor_window(t, path)), ..d1 }
    }).redraw()
}

pub fn open_path_in_code_editor(desk: &mut Desktop, path: &str, t: &str)
    requires
        old(desk)@.wf(),
    ensures
        final(desk)@ == opened_in_editor(old(desk)@, path@, t@),
        final(desk)@.wf(),
{
    desk.code_scratch = t.to_owned();
    desk.code_path = path.to_owned();
    match desk.wm.find_kind(WindowKind::CodeEditor) {
        Some(i) => {
            desk.wm.raise(i);
            let top: usize = desk.wm.windows.len() - 1;
            let ghost before = desk.wm.windows@;
            assert(desk@.wm.windows[top as int].wf());
            set_program(&mut desk.wm.windows[top], t, path);
            proof {
                manager::view_updated(before, top as int, desk.wm.windows@[top as int]);
            }
        },
        None => {
            desk.wm.spawn(create_code_editor_window(t, path));
        },
    }
    desk.dirty = true;
}

/// Another program in the topmost editor.
pub fn set_top_program(desk: &mut Desktop, t: &str)
    requires
        old(desk)@.wf(),
    ensures
        final(desk)@ == on_top(
            old(desk)@,
            WindowKind::CodeEditor,
            program_set(t@, old(desk)@.code_path),
        ),
        final(desk)@.wf(),
{
    if let Some(i) = desk.wm.find_last_kind(WindowKind::CodeEditor) {
        let ghost before = desk.wm.windows@;
        assert(desk@.wm.windows[i as int].wf());
        set_program(&mut desk.wm.windows[i], t, desk.code_path.as_str());
        proof {
            manager::view_updated(before, i as int, desk.wm.windows@[i as int]);
        }
    }
    desk.dirty = true;
}

/// A new program: the editor starts from the template again.
pub fn code_editor_new(desk: &mut Desktop)
    requires
        old(desk)@.wf(),
    ensures
        final(desk)@ == on_top(
            DesktopModel { code_path: Seq::empty(), code_scratch: Seq::empty(), ..old(desk)@ },
            WindowKind::CodeEditor,
            program_set(apps::code_template(), Seq::empty()),
        ),
        final(desk)@.wf(),
{
    desk.code_path = String::new();
    desk.code_scratch = String::new();
    let t = template();
    set_top_program(desk, t.as_str());
}

/// The program is kept for a Save As dialog, which is to be opened next.
pub open spec fn program_kept(d: DesktopModel) -> DesktopModel {
    let i = manager::last_of(d.wm, WindowKind::CodeEditor);
    (if i >= 0 && program_text(d.wm.windows[i]) is Some {
        let t = program_text(d.wm.windows[i])->0;
        DesktopModel { save_as_pending: t, code_scratch: t, ..d }
    } else {
        d
    }).redraw()
}

pub fn code_editor_save(desk: &mut Desktop)
    requires
        old(desk)@.wf(),
    ensures
        final(desk)@ == program_kept(old(desk)@),
        final(desk)@.wf(),
{
    if let Some(i) = desk.wm.find_last_kind(WindowKind::CodeEditor) {
        assert(desk@.wm.windows[i as int] == desk.wm.windows@[i as int]@);
        if let Some(t) = program_of(&desk.wm.windows[i]) {
            desk.save_as_pending = t.as_str().to_owned();
            desk.code_scratch = t;
        }
    }
    desk.dirty = true;
}

pub fn code_editor_set_output(desk: &mut Desktop, t: &str, error: bool)
    requires
        old(desk)@.wf(),
    ensures
        final(desk)@ == on_top(old(desk)@, WindowKind::CodeEditor, output_set(t@, error)),
        final(desk)@.wf(),
{
    if let Some(i) = desk.wm.find_last_kind(WindowKind::CodeEditor) {
        let ghost before = desk.wm.windows@;
        assert(desk@.wm.windows[i as int].wf());
        set_output(&mut desk.wm.windows[i], t, error);
        proof {
            manager::view_updated(before, i as int, desk.wm.windows@[i as int]);
        }
    }
    desk.dirty = true;
}

pub open spec fn code_named(path: Seq<char>) -> spec_fn(WindowModel) -> WindowModel {
    |w: WindowModel| status::code_refreshed(w, path)
}

/// The path label and status of the topmost editor brought up to date.
pub fn code_editor_set_path_label(desk: &mut Desktop)
    requires
        old(desk)@.wf(),
    ensures
        final(desk)@ == on_top(
            old(desk)@,
            WindowKind::CodeEditor,
            code_named(old(desk)@.code_path),
        ),
        final(desk)@.wf(),
{
    if let Some(i) = desk.wm.find_last_kind(WindowKind::CodeEditor) {
        let ghost before = desk.wm.windows@;
        assert(desk@.wm.windows[i as int].wf());
        code_editor_refresh_status(&mut desk.wm.windows[i], desk.code_path.as_str());
        proof {
            manager::view_updated(before, i as int, desk.wm.windows@[i as int]);
        }
    }
    desk.dirty = true;
}

// ── Building and running ────────────────────────────────────────────────────

/// Where a program without a path is written.
pub open spec fn default_source(has_disk: bool) -> Seq<char> {
    if has_disk {
        "/disk/untitled.c"@
    } else {
        "/data/untitled.c"@
    }
}

/// A program that is to be written before it is built.
pub struct Source {
    pub path: String,
    pub text: String,
    /// The folder to be made first, for a program that had no path.
    pub folder: Option<String>,
}

/// The desktop before a build: the program has a path and is remembered.
pub open spec fn persisted(d: DesktopModel, has_disk: bool) -> DesktopModel {
    let i = manager::last_of(d.wm, WindowKind::CodeEditor);
    let d1 = d.redraw();
    if i < 0 {
        d1
    } else {
        DesktopModel {
            code_path: if d.code_path.len() == 0 {
                default_source(has_disk)
            } else {
                d.code_path
            },
            code_scratch: match program_text(d.wm.windows[i]) {
                Some(t) => t,
                None => Seq::empty(),
            },
            ..d1
        }
    }
}

/// The first half of Build and Run: what is on screen is to be written, saved
/// or not. There is nothing to build without an editor.
pub fn code_editor_persist(desk: &mut Desktop, has_disk: bool) -> (r: Option<Source>)
    requires
        old(desk)@.wf(),
    ensures
        final(desk)@ == persisted(old(desk)@, has_disk),
        final(desk)@.wf(),
        r is Some <==> manager::last_of(old(desk)@.wm, WindowKind::CodeEditor) >= 0,
        r matches Some(s) ==> {
            &&& s.path@ == final(desk)@.code_path
            &&& s.text@ == final(desk)@.code_scratch
            &&& state::footer_view(s.folder) == (if old(desk)@.code_path.len() > 0 {
                None
            } else if has_disk {
                Some("/disk"@)
            } else {
                Some("/data"@)
            })
        },
{
    desk.dirty = true;
    match desk.wm.find_last_kind(WindowKind::CodeEditor) {
        Some(i) => {
            assert(desk@.wm.windows[i as int] == desk.wm.windows@[i as int]@);
            let program = match program_of(&desk.wm.windows[i]) {
                Some(t) => t,
                None => String::new(),
            };
            let mut folder = None;
            if desk.code_path.as_str().unicode_len() == 0 {
                if has_disk {
                    folder = Some("/disk".to_owned());
                    desk.code_path = "/disk/untitled.c".to_owned();
                } else {
                    folder = Some("/data".to_owned());
                    desk.code_path = "/data/untitled.c".to_owned();
                }
            }
            desk.code_scratch = program.as_str().to_owned();
            Some(Source { path: desk.code_path.as_str().to_owned(), text: program, folder })
        },
        None => None,
    }
}

/// The program file next to its source.
pub open spec fn binary_of(src: Seq<char>) -> Seq<char> {
    if text::has_suffix(src, ".c"@) {
        src.take(src.len() - 2)
    } else {
        src
    }
}

pub fn binary_path(src: &str) -> (r: String)
    ensures
        r@ == binary_of(src@),
{
    if text::ends_with(src, ".c") {
        proof {
            reveal_strlit(".c");
        }
        let v = text::chars_of(src);
        let r = text::string_between(v.as_slice(), 0, v.len() - 2);
        assert(r@ =~= src@.take(src@.len() - 2));
        r
    } else {
        src.to_owned()
    }
}

/// What a compilation came to.
pub struct Built<T = String> {
    pub ok: bool,
    /// Where the compiler says it put the program.
    pub output_path: Option<T>,
    pub diagnostics: T,
}

impl View for Built {
    type V = Built<Seq<char>>;

    open spec fn view(&self) -> Built<Seq<char>> {
        Built {
            ok: self.ok,
            output_path: state::footer_view(self.output_path),
            diagnostics: self.diagnostics@,
        }
    }
}

/// What the output pane says of a build.
pub open spec fn build_report(binary: Seq<char>, b: Built<Seq<char>>) -> Seq<char> {
    if b.ok {
        let path = match b.output_path {
            Some(p) => p,
            None => binary,
        };
        "Build succeeded → "@ + path + "\n"@ + if b.diagnostics.len() > 0 {
            b.diagnostics + "\n"@
        } else {
            Seq::empty()
        }
    } else {
        "Build failed:\n"@ + if b.diagnostics.len() > 0 {
            b.diagnostics
        } else {
            "(no diagnostics — check the source compiles with `cc` from the terminal)"@
        }
    }
}

/// The second half of a build, with what the compiler made of the source: the
/// result is the program to run, if there is one.
pub fn code_editor_built(desk: &mut Desktop, binary: &str, b: &Built) -> (r: Option<String>)
    requires
        old(desk)@.wf(),
    ensures
        final(desk)@ == on_top(
            old(desk)@,
            WindowKind::CodeEditor,
            output_set(build_report(binary@, b@), !b.ok),
        ),
        final(desk)@.wf(),
        state::footer_view(r) == (if b.ok {
            Some(binary@)
        } else {
            None
        }),
{
    let mut report = String::new();
    if b.ok {
        report.append("Build succeeded → ");
        match &b.output_path {
            Some(p) => report.append(p.as_str()),
            None => report.append(binary),
        }
        report.append("\n");
        if b.diagnostics.as_str().unicode_len() > 0 {
            report.append(b.diagnostics.as_str());
            report.append("\n");
        }
    } else {
        report.append("Build failed:\n");
        if b.diagnostics.as_str().unicode_len() > 0 {
            report.append(b.diagnostics.as_str());
        } else {
            report.append("(no diagnostics — check the source compiles with `cc` from the terminal)");
        }
    }
    assert(report@ =~= build_report(binary@, b@));
    code_editor_set_output(desk, report.as_str(), !b.ok);
    if b.ok {
        Some(binary.to_owned())
    } else {
        None
    }
}

/// What is said of a source that could not be written.
pub open spec fn unsaved_line(e: Seq<char>) -> Seq<char> {
    "Could not save source: "@ + e
}

pub fn code_editor_not_saved(desk: &mut Desktop, e: &str)
    requires
        old(desk)@.wf(),
    ensures
        final(desk)@ == on_top(
            old(desk)@,
            WindowKind::CodeEditor,
            output_set(unsaved_line(e@), true),
        ),
        final(desk)@.wf(),
{
    let mut line = "Could not save source: ".to_owned();
    line.append(e);
    code_editor_set_output(desk, line.as_str(), true);
}

/// What the output pane says of a run.
pub open spec fn run_report(binary: Seq<char>, output: Seq<char>, running: bool) -> Seq<char> {
    "Build succeeded → "@ + binary + "\n--- Program output ---\n"@ + (if output.len() == 0 {
        "(no output)\n"@
    } else if text::has_suffix(output, "\n"@) {
        output
    } else {
        output + "\n"@
    }) + if running {
        "--- still running (yielded) ---"@
    } else {
        "--- exited ---"@
    }
}

/// The end of a run: what the program printed, and how many processes there
/// were before it and after it.
pub fn code_editor_ran(desk: &mut Desktop, binary: &str, output: &str, before: usize, after: usize)
    requires
        old(desk)@.wf(),
    ensures
        final(desk)@ == on_top(
            old(desk)@,
            WindowKind::CodeEditor,
            output_set(run_report(binary@, output@, after > before), false),
        ),
        final(desk)@.wf(),
{
    let mut report = "Build succeeded → ".to_owned();
    report.append(binary);
    report.append("\n--- Program output ---\n");
    if output.unicode_len() == 0 {
        report.append("(no output)\n");
    } else {
        report.append(output);
        if !text::ends_with(output, "\n") {
            report.append("\n");
        }
    }
    if after > before {
        report.append("--- still running (yielded) ---");
    } else {
        report.append("--- exited ---");
    }
    assert(report@ =~= run_report(binary@, output@, after > before));
    code_editor_set_output(desk, report.as_str(), false);
}

/// What came of running a program that was built.
pub enum RunEnd<T = String> {
    /// Why its file could not be read.
    Unreadable(T),
    /// Why it could not be started.
    NotStarted(T),
    /// What it printed.
    Printed(T),
}

impl View for RunEnd {
    type V = RunEnd<Seq<char>>;

    open spec fn view(&self) -> RunEnd<Seq<char>> {
        match *self {
            RunEnd::Unreadable(e) => RunEnd::Unreadable(e@),
            RunEnd::NotStarted(e) => RunEnd::NotStarted(e@),
            RunEnd::Printed(t) => RunEnd::Printed(t@),
        }
    }
}

/// What the output pane then says, and whether that is an error.
pub open spec fn run_end_report(binary: Seq<char>, end: RunEnd<Seq<char>>, running: bool) -> (
    Seq<char>,
    bool,
) {
    match end {
        RunEnd::Unreadable(e) => (
            "Run failed: could not read "@ + binary + ": "@ + e,
            true,
        ),
        RunEnd::NotStarted(e) => (run_report(binary, "spawn failed: "@ + e, running), false),
        RunEnd::Printed(t) => (run_report(binary, t, running), false),
    }
}

/// The end of Run, after the build: `before` and `after` count the processes
/// before the program and after it.
pub fn code_editor_run(
    desk: &mut Desktop,
    binary: &str,
    end: &RunEnd,
    before: usize,
    after: usize,
)
    requires
        old(desk)@.wf(),
    ensures
        ({
            let (t, error) = run_end_report(binary@, end@, after > before);
            final(desk)@ == on_top(old(desk)@, WindowKind::CodeEditor, output_set(t, error))
        }),
        final(desk)@.wf(),
{
    match end {
        RunEnd::Unreadable(e) => {
            let mut line = "Run failed: could not read ".to_owned();
            line.append(binary);
            line.append(": ");
            line.append(e.as_str());
            code_editor_set_output(desk, line.as_str(), true);
        },
        RunEnd::NotStarted(e) => {
            let mut line = "spawn failed: ".to_owned();
            line.append(e.as_str());
            code_editor_ran(desk, binary, line.as_str(), before, after);
        },
        RunEnd::Printed(t) => {
            code_editor_ran(desk, binary, t.as_str(), before, after);
        },
    }
}

// ── Laws ────────────────────────────────────────────────────────────────────

/// A file that was opened is what the page then shows and what is remembered,
/// whether or not Notepad was open.
pub proof fn opening_shows_the_file(d: DesktopModel, path: Seq<char>, t: Seq<char>)
    requires
        manager::first_of(d.wm, WindowKind::Notepad) < d.wm.windows.len() ==> page_text(
            d.wm.windows[manager::first_of(d.wm, WindowKind::Notepad)],
        ) is Some,
    ensures
        ({
            let e = opened_in_notepad(d, path, t);
            &&& page_text(e.wm.windows.last()) == Some(t)
            &&& e.wm.windows.last().kind == WindowKind::Notepad
            &&& e.notepad_path == path
            &&& e.notepad_scratch == t
        }),
{
    manager::first_where_bounds(d.wm.windows, manager::of_kind(WindowKind::Notepad));
}

/// Opening a program shows it in the editor, in front, with the caret at its
/// end and the output of the last one gone.
pub proof fn opening_shows_the_program(d: DesktopModel, path: Seq<char>, t: Seq<char>)
    requires
        path.len() > 0,
        t.len() <= usize::MAX,
        manager::first_of(d.wm, WindowKind::CodeEditor) < d.wm.windows.len() ==> {
            let w = d.wm.windows[manager::first_of(d.wm, WindowKind::CodeEditor)];
            w.widgets.len() > 7 && w.widgets[6] is CodeArea && w.widgets[7] is OutputArea
        },
    ensures
        ({
            let e = opened_in_editor(d, path, t);
            let w = e.wm.windows.last();
            &&& program_text(w) == Some(t)
            &&& w.widgets[6]->CodeArea_cursor == t.len()
            &&& w.widgets[6]->CodeArea_selection is None
            &&& w.widgets[7]->OutputArea_text.len() == 0
            &&& w.kind == WindowKind::CodeEditor
            &&& e.code_path == path
            &&& e.code_scratch == t
        }),
{
    let i = manager::first_of(d.wm, WindowKind::CodeEditor);
    manager::first_where_bounds(d.wm.windows, manager::of_kind(WindowKind::CodeEditor));
    if i < d.wm.windows.len() {
        assert(d.wm.windows[i].kind == WindowKind::CodeEditor);
    }
}

/// What a Save As dialog will write is the text on screen.
pub proof fn what_is_saved_is_on_screen(d: DesktopModel, t: Seq<char>)
    ensures
        manager::last_of(d.wm, WindowKind::Notepad) >= 0 && page_text(
            d.wm.windows[manager::last_of(d.wm, WindowKind::Notepad)],
        ) == Some(t) ==> notepad_kept(d).save_as_pending == t && notepad_kept(d).notepad_scratch
            == t,
        manager::last_of(d.wm, WindowKind::CodeEditor) >= 0 && program_text(
            d.wm.windows[manager::last_of(d.wm, WindowKind::CodeEditor)],
        ) == Some(t) ==> program_kept(d).save_as_pending == t && program_kept(d).code_scratch == t,
        notepad_kept(d).wm == d.wm,
        program_kept(d).wm == d.wm,
{
}

/// What is built is the program on screen, written to its own file; one that
/// has none yet gets one.
pub proof fn what_is_built_is_on_screen(d: DesktopModel, has_disk: bool, t: Seq<char>)
    requires
        manager::last_of(d.wm, WindowKind::CodeEditor) >= 0,
        program_text(d.wm.windows[manager::last_of(d.wm, WindowKind::CodeEditor)]) == Some(t),
    ensures
        persisted(d, has_disk).code_scratch == t,
        d.code_path.len() > 0 ==> persisted(d, has_disk).code_path == d.code_path,
        d.code_path.len() == 0 ==> persisted(d, has_disk).code_path.len() > 0,
        persisted(d, has_disk).wm == d.wm,
{
    reveal_strlit("/disk/untitled.c");
    reveal_strlit("/data/untitled.c");
}

/// A program is built next to its source, without the extension.
pub proof fn programs_lie_next_to_their_source(x: Seq<char>)
    ensures
        binary_of(x + ".c"@) == x,
        !text::has_suffix(x, ".c"@) ==> binary_of(x) == x,
{
    reveal_strlit(".c");
    let s = x + ".c"@;
    assert(s.skip(s.len() - 2) =~= ".c"@);
    assert(s.take(s.len() - 2) =~= x);
}

/// Everything that the compiler and the program say is shown.
pub proof fn reports_hold_what_was_said(binary: Seq<char>, b: Built<Seq<char>>, out: Seq<char>, running: bool)
    ensures
        b.diagnostics.len() > 0 ==> text::occurs(build_report(binary, b), b.diagnostics),
        b.ok && b.output_path is None ==> text::occurs(build_report(binary, b), binary),
        b.ok && b.output_path is Some ==> text::occurs(build_report(binary, b), b.output_path->0),
        out.len() > 0 ==> text::occurs(run_report(binary, out, running), out),
        text::occurs(run_report(binary, out, running), binary),
{
    let r = build_report(binary, b);
    if b.ok {
        let path = match b.output_path {
            Some(p) => p,
            None => binary,
        };
        let head = "Build succeeded → "@;
        let n = head.len() as int;
        assert(r.skip(n).take(path.len() as int) =~= path);
        if b.diagnostics.len() > 0 {
            let m = n + path.len() + "\n"@.len();
            assert(r.skip(m).take(b.diagnostics.len() as int) =~= b.diagnostics);
        }
    } else if b.diagnostics.len() > 0 {
        let n = "Build failed:\n"@.len() as int;
        assert(r.skip(n).take(b.diagnostics.len() as int) =~= b.diagnostics);
    }
    let s = run_report(binary, out, running);
    let n = "Build succeeded → "@.len() as int;
    assert(s.skip(n).take(binary.len() as int) =~= binary);
    if out.len() > 0 {
        let m = n + binary.len() + "\n--- Program output ---\n"@.len();
        assert(s.skip(m).take(out.len() as int) =~= out);
    }
}

/// What a build says is shown in the output pane, and the program stays as it
/// was.
pub proof fn output_is_shown_beside_the_program(w: WindowModel, t: Seq<char>, error: bool)
    requires
        w.widgets.len() > 7,
        w.widgets[7] is OutputArea,
    ensures
        output_set(t, error)(w).widgets[7]->OutputArea_text == t,
        output_set(t, error)(w).widgets[7]->OutputArea_error == error,
        output_set(t, error)(w).widgets[6] == w.widgets[6],
        output_set(t, error)(w).widgets.len() == w.widgets.len(),
{
}

/// A change of the lowest, or of the topmost, window of a kind leaves every
/// other window alone.
pub proof fn one_window_changes(
    d: DesktopModel,
    k: WindowKind,
    f: spec_fn(WindowModel) -> WindowModel,
    j: int,
)
    requires
        0 <= j < d.wm.windows.len(),
    ensures
        on_first(d, k, f).wm.windows.len() == d.wm.windows.len(),
        on_top(d, k, f).wm.windows.len() == d.wm.windows.len(),
        d.wm.windows[j].kind != k ==> on_first(d, k, f).wm.windows[j] == d.wm.windows[j] && on_top(
            d,
            k,
            f,
        ).wm.windows[j] == d.wm.windows[j],
        on_first(d, k, f).wm.windows[j] == d.wm.windows[j] || on_first(d, k, f).wm.windows[j] == f(
            d.wm.windows[j],
        ),
{
    manager::first_where_bounds(d.wm.windows, manager::of_kind(k));
    manager::last_where_bounds(d.wm.windows, manager::of_kind(k));
}

} // verus!
