//! What the desktop says of what it did: every notice names the thing that it
//! is about, and a failure is told as it came.

use vstd::prelude::*;
use vstd::string::*;

use crate::keys::DecodedKey;
use crate::text;
use crate::window::browser;
use crate::window::dialog;
use crate::window::dialog::DialogStep;
use crate::window::draw::DrawCmd;
use crate::window::editor;
use crate::window::explorer;
use crate::window::explorer::FileStep;
use crate::window::manager;
use crate::window::manager::DesktopModel;
use crate::window::page;
use crate::window::page::PageItem;
use crate::window::state::{AppModel, Game, WindowModel};
use crate::window::tick;
use crate::window::widget::{FileDialogMode, WindowKind};

verus! {

/// A folder is introduced by its own `readme.txt`, and else by
/// its `welcome.txt`; a slash at its end makes no difference.
pub proof fn folders_are_introduced_by_their_readme(path: Seq<char>)
    requires
        path.len() > 0,
        path.last() != '/',
    ensures
        explorer::introductions(path) == (path + "/readme.txt"@, path + "/welcome.txt"@),
        explorer::introductions(path.push('/')) == explorer::introductions(path),
{
    text::trimming_an_end_removes_all_of_it(path, '/', 0);
    text::trimming_an_end_removes_all_of_it(path, '/', 1);
    assert(path + Seq::new(0, |i: int| '/') =~= path);
    assert(path + Seq::new(1, |i: int| '/') =~= path.push('/'));
}

/// What was made is named below the explorer and the folder is listed again;
/// what could not be made is explained there, and nothing is listed.
pub proof fn new_things_are_named(
    d: DesktopModel,
    path: Seq<char>,
    folder: bool,
    why: Seq<char>,
    i: int,
)
    requires
        0 <= i < d.wm.windows.len(),
        manager::first_of(d.wm, WindowKind::FileManager) == i,
    ensures
        ({
            let made = explorer::creation_noted(d, path, folder, None);
            let failed = explorer::creation_noted(d, path, folder, Some(why));
            let gone = explorer::removal_noted(d, None);
            let kept = explorer::removal_noted(d, Some(why));
            &&& made.1 == FileStep::<Seq<char>>::List && gone.1 == FileStep::<Seq<char>>::List
            &&& failed.1 == FileStep::<Seq<char>>::Done && kept.1 == FileStep::<Seq<char>>::Done
            &&& made.0.wm.windows[i].footer matches Some(t) && text::has_suffix(t, path)
            &&& failed.0.wm.windows[i].footer matches Some(t) && text::has_suffix(t, why)
            &&& kept.0.wm.windows[i].footer matches Some(t) && text::has_suffix(t, why)
            &&& gone.0.wm.windows[i].footer == Some("Deleted."@)
        }),
        text::has_suffix(explorer::wallpaper_note(path, None), path),
        explorer::wallpaper_note(path, Some(why)) == why,
{
    let a = "Created "@ + path;
    assert(a.skip(a.len() - path.len()) =~= path);
    let b = "mkdir: "@ + why;
    assert(b.skip(b.len() - why.len()) =~= why);
    let c = "file: "@ + why;
    assert(c.skip(c.len() - why.len()) =~= why);
    let e = "remove: "@ + why;
    assert(e.skip(e.len() - why.len()) =~= why);
    let f = "Wallpaper set from "@ + path;
    assert(f.skip(f.len() - path.len()) =~= path);
}

/// A picture is saved under the extension of its type.
pub proof fn pictures_are_saved_under_their_type(a: Seq<char>, b: Seq<char>)
    ensures
        browser::extension(a + "png"@ + b) == "png"@,
        !text::occurs(a + "gif"@ + b, "png"@) ==> browser::extension(a + "gif"@ + b) == "gif"@,
        !text::occurs(a, "png"@) && !text::occurs(a, "gif"@) ==> browser::extension(a) == "jpg"@,
{
    let p = a + "png"@ + b;
    assert(p.skip(a.len() as int).take("png"@.len() as int) =~= "png"@);
    let g = a + "gif"@ + b;
    assert(g.skip(a.len() as int).take("gif"@.len() as int) =~= "gif"@);
}

/// A page hears of a printable character under that character and its number.
pub proof fn pages_hear_the_character(c: char)
    requires
        ' ' <= c,
    ensures
        browser::key_known_as(DecodedKey::Unicode(c)) == (seq![c], c as u32),
        c != '"' && c != '\\' ==> browser::key_detail(DecodedKey::Unicode(c)) == "{\"key\":\""@ + seq![
            c,
        ] + "\",\"keyCode\":"@ + text::decimal(c as nat) + "}"@,
{
    let s = seq![c];
    assert(s.skip(1) =~= Seq::<char>::empty());
    assert(browser::escaped(s.skip(1)) =~= Seq::<char>::empty());
    assert(s[0] == c);
    if c != '"' && c != '\\' {
        assert(browser::escaped(s) =~= s);
    }
}

/// A double click takes the whole word under it: all characters of its class,
/// and nothing else. The underscore belongs to words.
pub proof fn a_double_click_takes_the_word(a: Seq<char>, w: Seq<char>, b: Seq<char>, idx: int, k: u8)
    requires
        a.len() <= idx < a.len() + w.len(),
        (a + w + b).len() <= usize::MAX,
    ensures
        (forall|i: int| 0 <= i < w.len() ==> #[trigger] editor::char_class(w[i]) == k) && (a.len() > 0
            ==> editor::char_class(a.last()) != k) && (b.len() > 0 ==> editor::char_class(b[0]) != k)
            ==> editor::word_bounds(a + w + b, idx) == (
            a.len() as usize,
            (a.len() + w.len()) as usize,
        ),
        editor::char_class('_') == 0,
{
    let s = a + w + b;
    editor::a_word_is_a_run(s, idx);
    let x = editor::run_start(s, idx);
    let y = editor::run_end(s, idx);
    let lo = a.len() as int;
    let hi = lo + w.len();
    if (forall|i: int| 0 <= i < w.len() ==> #[trigger] editor::char_class(w[i]) == k) && (a.len() > 0
        ==> editor::char_class(a.last()) != k) && (b.len() > 0 ==> editor::char_class(b[0]) != k) {
        assert forall|j: int| lo <= j < hi implies #[trigger] editor::char_class(s[j]) == k by {
            assert(s[j] == w[j - lo]);
            assert(editor::char_class(w[j - lo]) == k);
        }
        assert(editor::char_class(s[idx]) == k);
        if a.len() > 0 {
            assert(s[lo - 1] == a.last());
        }
        if b.len() > 0 {
            assert(s[hi] == b[0]);
        }
        if x < lo {
            assert(editor::char_class(s[lo - 1]) == k);
        }
        if x > lo {
            assert(editor::char_class(s[x - 1]) == k);
        }
        if y > hi {
            assert(editor::char_class(s[hi]) == k);
        }
        if y < hi {
            assert(editor::char_class(s[y]) == k);
        }
    }
}

/// A game's window tells how the game stands, in the words of its engine.
pub proof fn games_show_how_they_stand(
    w: WindowModel,
    g: Game,
    game_over: bool,
    won: bool,
    line: Seq<char>,
)
    requires
        w.widgets.len() > 2,
        w.widgets[2] is Label,
    ensures
        ({
            let r = tick::game_shown(w, game_over, won, line);
            &&& r.widgets[2]->Label_text == line
            &&& w.app == AppModel::Breakout(g) ==> r.app == AppModel::Breakout(
                (Game { game_over, won, ..g }),
            )
            &&& w.app == AppModel::Racing(g) ==> r.app == AppModel::Racing(
                (Game { game_over, won, ..g }),
            )
            &&& w.app == AppModel::Invaders(g) ==> r.app == AppModel::Invaders(
                (Game { game_over, won, ..g }),
            )
        }),
{
    let v = WindowModel { app: tick::judged(w.app, game_over, won), ..w };
    manager::labels_are_set_alone(v, 2, line, 2);
}

/// A double click on a file opens it in an Open dialog and does nothing in a
/// Save dialog; a folder is chosen in both.
pub proof fn double_clicks_open_in_a_dialog(d: DesktopModel, e: Seq<char>, i: int)
    requires
        0 <= i < d.wm.windows.len(),
        manager::first_of(d.wm, WindowKind::FileDialog) == i,
        d.wm.windows[i].app is FileDialog,
        dialog::dialog_pick(d.wm.windows[i]) == Some(Some(e)),
    ensures
        ({
            let mode = d.wm.windows[i].app->FileDialog_0.mode;
            let folder = e.len() > 0 && e.last() == '/';
            &&& folder || mode == FileDialogMode::Open ==> dialog::activated(d)
                == dialog::path_chosen(d, e)
            &&& !folder && mode == FileDialogMode::Save ==> dialog::activated(d) == (
                d,
                DialogStep::<Seq<char>>::Done,
            )
        }),
{
    reveal_strlit("/");
    let slash = "/"@;
    assert(slash[0] == '/' && slash.len() == 1);
    if e.len() > 0 {
        let tail = e.skip(e.len() - 1);
        assert(tail[0] == e.last() && tail.len() == 1);
        if e.last() == '/' {
            assert(tail =~= slash);
        }
    }
}

/// A page lies on its own background, and the scroll thumb over the page.
pub proof fn pages_lie_on_their_background(
    a: (usize, usize, usize, usize),
    items: Seq<PageItem>,
    height: usize,
    scroll: usize,
    background: u32,
)
    ensures
        ({
            let v = page::canvas_cmds(a, items, height, scroll, background);
            &&& v.len() > 0
            &&& v[0] matches DrawCmd::Fill { x, y, w, h, color } && x == a.0 && y == a.1 && w == a.2
                && h == a.3 && color == background
            &&& height > a.3 && a.3 >= 8 ==> v.len() >= 3 && v.last() is Fill
        }),
{
}

/// What stands in front of a text as often as it likes is taken off whole.
pub proof fn what_stands_in_front_is_taken_off(s: Seq<char>, p: Seq<char>)
    requires
        p.len() > 0,
    ensures
        text::trim_start_of(p + s, p) == text::trim_start_of(s, p),
        !text::has_prefix(s, p) ==> text::trim_start_of(s, p) == s,
{
    let t = p + s;
    assert(t.take(p.len() as int) =~= p);
    assert(t.skip(p.len() as int) =~= s);
}

/// The line of a page begins with its title, and tells what a script
/// complained of.
pub proof fn pages_are_summed_up(title: Seq<char>, note: Seq<char>, height: usize, e: Seq<char>)
    requires
        title.len() > 0,
        note.len() > 0,
        title[0] != ' ',
        note[0] != ' ',
    ensures
        text::has_prefix(browser::page_summary(title, note, height, None), title),
        text::occurs(browser::page_summary(title, note, height, None), note),
        text::has_suffix(
            browser::page_summary(title, note, height, None),
            ", "@ + text::decimal((height / 16) as nat) + " lines"@,
        ),
        text::has_prefix(browser::page_summary(title, note, height, Some(e)), note),
        text::has_suffix(browser::page_summary(title, note, height, Some(e)), e),
{
    reveal_strlit(" — ");
    let dash = " — "@;
    assert(dash[0] == ' ' && dash.len() == 3);
    let rows = text::decimal((height / 16) as nat);
    let a = title + dash + note + ", "@ + rows + " lines"@;
    let b = note + " — script error: "@ + e;
    if text::has_prefix(a, dash) {
        assert(a.take(3)[0] == title[0]);
    }
    if text::has_prefix(b, dash) {
        assert(b.take(3)[0] == note[0]);
    }
    what_stands_in_front_is_taken_off(a, dash);
    what_stands_in_front_is_taken_off(b, dash);
    assert(a.take(title.len() as int) =~= title);
    let at = title.len() + 3;
    assert(a.skip(at as int).take(note.len() as int) =~= note);
    let end = ", "@ + rows + " lines"@;
    assert(a.skip(a.len() - end.len()) =~= end);
    assert(b.take(note.len() as int) =~= note);
    assert(b.skip(b.len() - e.len()) =~= e);
}

} // verus!
