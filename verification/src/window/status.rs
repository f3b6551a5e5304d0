//! The status lines of the two editors.

use vstd::prelude::*;
use vstd::string::*;

use crate::text;
use crate::window::manager;
use crate::window::state;
use crate::window::state::Window;
use crate::window::widget::{Widget, WindowKind};

verus! {

/// Where the text area of Notepad and of the Code Editor stand in their
/// windows, and the Code Editor's output pane.
pub const NOTEPAD_TEXT: usize = 4;

pub const CODE_TEXT: usize = 6;

pub const CODE_OUTPUT: usize = 7;

pub open spec fn path_shown(path: Seq<char>) -> Seq<char> {
    if path.len() == 0 {
        "(unsaved)"@
    } else {
        path
    }
}

pub fn shown_path(path: &str) -> (r: String)
    ensures
        r@ == path_shown(path@),
{
    if path.is_empty() {
        String::from_str("(unsaved)")
    } else {
        path.to_owned()
    }
}

/// Line, column and length of a text with the caret at its end.
pub open spec fn notepad_line(t: Seq<char>, path: Seq<char>) -> Seq<char> {
    "Ln "@ + text::decimal(text::count(t, '\n') + 1) + "  Col "@ + text::decimal(
        (t.len() - text::find_last(t, '\n')) as nat,
    ) + "  |  "@ + text::decimal(t.len()) + " chars  |  "@ + path_shown(path)
}

pub fn notepad_status(t: &str, path: &str) -> (r: String)
    ensures
        r@ == notepad_line(t@, path@),
{
    let chars = text::chars_of(t);
    let n: usize = chars.len();
    let lines: usize = text::count_char(t, '\n');
    let last: usize = text::find_last_char(chars.as_slice(), '\n');
    let mut s = String::from_str("Ln ");
    text::push_count(&mut s, lines as u128 + 1);
    s.append("  Col ");
    text::push_count(&mut s, (n - last) as u128 + 1);
    s.append("  |  ");
    text::push_decimal(&mut s, n as u64);
    s.append(" chars  |  ");
    s.append(shown_path(path).as_str());
    s
}

pub open spec fn file_label(path: Seq<char>) -> Seq<char> {
    "File  ·  "@ + path_shown(path)
}

pub fn file_line(path: &str) -> (r: String)
    ensures
        r@ == file_label(path@),
{
    String::from_str("File  ·  ").concat(shown_path(path).as_str())
}

/// Notepad's status line and path label, brought up to date. Another window
/// is left alone.
pub open spec fn notepad_refreshed(w: state::WindowModel, path: Seq<char>) -> state::WindowModel {
    if w.kind != WindowKind::Notepad {
        w
    } else {
        let f = if 4 < w.widgets.len() {
            match w.widgets[4] {
                Widget::TextArea { text: t, .. } => Some(notepad_line(t, path)),
                _ => w.footer,
            }
        } else {
            w.footer
        };
        manager::labelled(state::WindowModel { footer: f, ..w }, 3, file_label(path))
    }
}

pub fn notepad_refresh_status(win: &mut Window, path: &str)
    ensures
        final(win)@ == notepad_refreshed(old(win)@, path@),
        old(win)@.wf() ==> final(win)@.wf(),
{
    if win.kind != WindowKind::Notepad {
        return;
    }
    if NOTEPAD_TEXT < win.widgets.len() {
        if let Widget::TextArea { text: t, .. } = &win.widgets[NOTEPAD_TEXT] {
            win.footer = Some(notepad_status(t.as_str(), path));
        }
    }
    manager::set_label_text(win, 3, file_line(path).as_str());
}

pub open spec fn code_line(t: Seq<char>) -> Seq<char> {
    text::decimal(text::count(t, '\n') + 1) + " lines  ·  "@ + text::decimal(t.len())
        + " chars  ·  Build compiles, Run compiles + executes."@
}

pub fn code_status(t: &str) -> (r: String)
    ensures
        r@ == code_line(t@),
{
    let n: usize = t.unicode_len();
    let lines: usize = text::count_char(t, '\n');
    let mut s = String::new();
    text::push_count(&mut s, lines as u128 + 1);
    assert(s@ =~= text::decimal(text::count(t@, '\n') + 1));
    s.append(" lines  ·  ");
    text::push_decimal(&mut s, n as u64);
    s.append(" chars  ·  Build compiles, Run compiles + executes.");
    s
}

/// The Code Editor's status line and path label, brought up to date. Another
/// window is left alone.
pub open spec fn code_refreshed(w: state::WindowModel, path: Seq<char>) -> state::WindowModel {
    if w.kind != WindowKind::CodeEditor {
        w
    } else {
        let f = if 6 < w.widgets.len() {
            match w.widgets[6] {
                Widget::CodeArea { text: t, .. } => Some(code_line(t)),
                _ => w.footer,
            }
        } else {
            w.footer
        };
        manager::labelled(state::WindowModel { footer: f, ..w }, 5, file_label(path))
    }
}

pub fn code_editor_refresh_status(win: &mut Window, path: &str)
    ensures
        final(win)@ == code_refreshed(old(win)@, path@),
        old(win)@.wf() ==> final(win)@.wf(),
{
    if win.kind != WindowKind::CodeEditor {
        return;
    }
    if CODE_TEXT < win.widgets.len() {
        if let Widget::CodeArea { text: t, .. } = &win.widgets[CODE_TEXT] {
            win.footer = Some(code_status(t.as_str()));
        }
    }
    manager::set_label_text(win, 5, file_line(path).as_str());
}

/// The status line counts: the line is one more than the line ends before the
/// end of the text, the column one more than the characters behind the last of
/// them, and every character of the text counts.
pub proof fn the_status_line_counts(a: Seq<char>, b: Seq<char>, path: Seq<char>)
    requires
        !b.contains('\n'),
        path.len() > 0,
    ensures
        notepad_line(a + seq!['\n'] + b, path) == "Ln "@ + text::decimal(text::count(a, '\n') + 2)
            + "  Col "@ + text::decimal(b.len() + 1) + "  |  "@ + text::decimal(
            a.len() + 1 + b.len(),
        ) + " chars  |  "@ + path,
        notepad_line(b, path) == "Ln "@ + text::decimal(1) + "  Col "@ + text::decimal(b.len() + 1)
            + "  |  "@ + text::decimal(b.len()) + " chars  |  "@ + path,
{
    let s = a + seq!['\n'] + b;
    assert forall|j: int| a.len() < j < s.len() implies s[j] != '\n' by {
        assert(s[j] == b[j - a.len() - 1]);
    }
    text::find_last_at(s, '\n', a.len() as int);
    text::counts_add_up(a + seq!['\n'], b, '\n');
    text::counts_add_up(a, seq!['\n'], '\n');
    text::counts_add_up(Seq::empty(), b, '\n');
    assert forall|j: int| -1 < j < b.len() implies b[j] != '\n' by {
        assert(b.contains(b[j]));
    }
    text::find_last_at(b, '\n', -1);
}

} // verus!
