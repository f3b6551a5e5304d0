//! The desktop: windows, the mouse, the keyboard and the apps.

use os101::keys::{DecodedKey, KeyCode};
use os101::wallpaper::{picture_path, Image, Wallpaper};
use os101::window::actions::{
    apply_action, heap_line, launch_builtin, open_drive, paint_set_brush, paint_set_color,
    paint_set_tool, raise_or_spawn, run_terminal_command, toggle_cursor_blink, toggle_dark_theme,
    Ask, Effect, Launch,
};
use os101::window::apps::{
    create_about_window, create_browser_window, create_calculator_window,
    create_code_editor_window, create_file_manager_window, create_notepad_window,
    create_paint_window, create_settings_window, create_snake_window, create_terminal_window,
};
use os101::window::browser::{
    browser_back, browser_fetch_image, browser_field_key, browser_image_document, browser_images,
    browser_fetch_script, browser_key_detail, browser_navigate, browser_save_menu_image,
    browser_scroll_to, browser_show_document, browser_submit_field, clip_box, explanation,
    extension_for, google_page, google_results, google_suggestions, picture_answer,
    script_accepted, viewport, FieldEdit, Route, Stand,
};
use os101::window::calc::{calc_apply_i64, calc_press, CalcKey};
use os101::window::dialog::{
    file_dialog_confirm_save, file_dialog_opened, file_dialog_saved, open_file_dialog, DialogStep,
};
use os101::window::documents::{
    binary_path, code_editor_ran, code_editor_run, open_path_in_notepad, RunEnd,
};
use os101::window::draw::DrawCmd;
use os101::window::editor::{
    code_area_cursor_at, code_area_key, code_area_max_chars, code_area_selected_range,
    cursor_row_col, word_bounds_at, wrap_rows, KeyUse,
};
use os101::window::explorer::{
    created, explorer_listed, file_manager_delete, file_manager_go_up, file_manager_new_folder,
    file_manager_open_selected, path_parent, restore_wallpaper, set_wallpaper_from,
    unrecorded_line, FileStep, Picture,
};
use os101::window::files::{
    child_path, file_manager_set_selection, fm_display_name, fm_is_writable_path, fm_unique_name,
    is_c_source_path, looks_like_picture,
};
use os101::window::installer::{
    create_installer_window, installer_next, installer_pick, installer_progress, installer_start,
    Start,
};
use os101::window::keyboard::{handle_key, KeyOutcome};
use os101::window::launch::{window_for, Facts};
use os101::window::manager::{
    enter_gui_mode, exit_gui_mode, is_gui_mode, take_redraw_request, Desktop,
};
use os101::window::mouse::{
    desktop_icon_at, handle_mouse_button, handle_mouse_move, handle_mouse_wheel,
    taskbar_apps_btn_at, tile_w, MouseOutcome,
};
use os101::window::paint::{paint_fill, paint_stamp, paint_stroke, CANVAS_BG, PAINT_PALETTE};
use os101::window::scene::{render, render_top_window, Look, KINDS};
use os101::window::snake::snake_step;
use os101::window::state::{AppState, Disk, Window};
use os101::window::tick::{tick, PageAsk, PageSaid, PageTurns};
use os101::window::widget::{
    FileDialogMode, FileDialogTarget, Icon, PaintTool, WinAction, Widget, WindowKind,
};

fn desk() -> Desktop {
    Desktop::new(Some((1280, 720)))
}

fn key(c: char) -> DecodedKey {
    DecodedKey::Unicode(c)
}

fn typed(d: &mut Desktop, s: &str) {
    for c in s.chars() {
        handle_key(d, key(c), false);
    }
}

fn click(d: &mut Desktop, x: usize, y: usize) -> MouseOutcome {
    handle_mouse_move(d, x, y);
    let down = handle_mouse_button(d, true, false, false, false, false);
    let up = handle_mouse_button(d, false, true, false, false, false);
    if down == MouseOutcome::Act(WinAction::Nothing) {
        up
    } else {
        down
    }
}

fn dot() -> Image {
    Image { width: 1, height: 1, pixels: vec![7] }
}

fn strings(v: &[&str]) -> Vec<String> {
    v.iter().map(|s| s.to_string()).collect()
}

fn shown(w: &Window) -> String {
    match &w.app {
        AppState::Calculator(c) => c.entry.clone(),
        _ => panic!("not a calculator"),
    }
}

fn area(w: &Window, i: usize) -> String {
    match &w.widgets[i] {
        Widget::TextArea { text, .. } => text.clone(),
        Widget::CodeArea { text, .. } => text.clone(),
        Widget::OutputArea { text, .. } => text.clone(),
        Widget::TextBox { text, .. } => text.clone(),
        Widget::Label { text, .. } => text.clone(),
        _ => panic!("no text there"),
    }
}

// ── Windows and the mouse ───────────────────────────────────────────────────

#[test]
fn the_desktop_is_entered_and_left() {
    let mut d = desk();
    assert!(!is_gui_mode(&d));
    enter_gui_mode(&mut d);
    assert!(is_gui_mode(&d) && take_redraw_request(&mut d) && !take_redraw_request(&mut d));
    d.wm.spawn(create_about_window("1.0"));
    exit_gui_mode(&mut d);
    assert!(d.wm.windows.is_empty());
}

#[test]
fn windows_are_dragged_by_their_titlebar() {
    let mut d = desk();
    d.wm.spawn(Window::new(100, 100, 300, 200, "w"));
    handle_mouse_move(&mut d, 150, 110);
    handle_mouse_button(&mut d, true, false, false, false, false);
    handle_mouse_move(&mut d, 250, 160);
    assert_eq!((d.wm.windows[0].x, d.wm.windows[0].y), (200, 150));
    handle_mouse_button(&mut d, false, true, false, false, false);
    handle_mouse_move(&mut d, 300, 300);
    assert_eq!((d.wm.windows[0].x, d.wm.windows[0].y), (200, 150));
}

#[test]
fn a_click_raises_the_window_under_it() {
    let mut d = desk();
    d.wm.spawn(Window::new(100, 100, 200, 200, "back"));
    d.wm.spawn(Window::new(250, 250, 200, 200, "front"));
    click(&mut d, 120, 250);
    assert_eq!(d.wm.windows[1].title, "back");
    assert_eq!(d.wm.topmost_at(120, 250), Some(1));
    assert_eq!(d.wm.topmost_at(5, 5), None);
}

#[test]
fn windows_are_minimised_maximised_and_restored() {
    let mut w = Window::new(100, 100, 300, 200, "w");
    w.apply_maximize((1280, 720));
    assert!(w.maximized);
    assert_eq!((w.x, w.y, w.w), (0, 0, 1280));
    w.apply_restore_mid((1280, 720));
    assert!(!w.maximized);
    w.apply_minimize();
    assert!(w.minimized);
    assert!(w.contains(100, 100) || !w.contains(-1, -1));
}

#[test]
fn the_desktop_has_icons_and_a_taskbar() {
    assert_eq!(desktop_icon_at(20, 20), Some(0));
    assert_eq!(desktop_icon_at(600, 20), None);
    assert!(taskbar_apps_btn_at((1280, 720), 10, 700));
    assert!(!taskbar_apps_btn_at((1280, 720), 10, 300));
}

#[test]
fn moving_the_mouse_keeps_the_windows() {
    let mut d = desk();
    d.wm.spawn(create_calculator_window());
    d.wm.spawn(create_notepad_window("text", ""));
    for i in 0..50 {
        handle_mouse_move(&mut d, i * 20, i * 13);
    }
    assert_eq!(d.wm.windows[0].kind, WindowKind::Calculator);
    assert_eq!(d.wm.windows[1].kind, WindowKind::Notepad);
    assert_eq!(area(&d.wm.windows[1], 4), "text");
}

#[test]
fn releasing_the_button_ends_a_drag() {
    let mut d = desk();
    d.wm.spawn(Window::new(100, 100, 300, 200, "w"));
    handle_mouse_move(&mut d, 150, 110);
    handle_mouse_button(&mut d, true, false, false, false, false);
    assert!(d.wm.dragging.is_some());
    handle_mouse_button(&mut d, false, true, false, false, false);
    assert!(d.wm.dragging.is_none() && !d.wm.mouse_left_down);
}

#[test]
fn the_wheel_scrolls_pages_only() {
    let mut d = desk();
    assert_eq!(handle_mouse_wheel(&d, 1), None);
    d.wm.spawn(create_about_window("1.0"));
    assert_eq!(handle_mouse_wheel(&d, 1), None);
}

// ── Calculator ──────────────────────────────────────────────────────────────

#[test]
fn the_calculator_works_things_out() {
    let mut w = create_calculator_window();
    for k in [
        CalcKey::Digit(1),
        CalcKey::Digit(2),
        CalcKey::Op('*'),
        CalcKey::Digit(3),
        CalcKey::Equals,
    ] {
        calc_press(&mut w, k);
    }
    assert_eq!(shown(&w), "36");
    calc_press(&mut w, CalcKey::Sign);
    assert_eq!(shown(&w), "-36");
    calc_press(&mut w, CalcKey::Sign);
    assert_eq!(shown(&w), "36");
    calc_press(&mut w, CalcKey::Clear);
    assert_eq!(shown(&w), "0");
    assert_eq!(calc_apply_i64(7, 2, '/'), Some(3));
    assert_eq!(calc_apply_i64(-7, 2, '/'), Some(-3));
    assert_eq!(calc_apply_i64(6 * 7, 7, '/'), Some(6));
    assert_eq!(calc_apply_i64(7, 0, '/'), None);
    assert_eq!(calc_apply_i64(i64::MAX, 1, '+'), None);
    assert_eq!(calc_apply_i64(i64::MIN, -1, '/'), None);
    for k in [CalcKey::Digit(5), CalcKey::Op('/'), CalcKey::Digit(0), CalcKey::Equals] {
        calc_press(&mut w, k);
    }
    assert_eq!(shown(&w), "Error");
}

// ── Keyboard and editors ────────────────────────────────────────────────────

#[test]
fn keys_go_to_the_focused_text() {
    let mut d = desk();
    d.wm.spawn(create_notepad_window("", ""));
    typed(&mut d, "hi\nthere");
    assert_eq!(area(&d.wm.windows[0], 4), "hi\nthere");
    typed(&mut d, "\x08!");
    assert_eq!(area(&d.wm.windows[0], 4), "hi\nther!");
    d.wm.spawn(create_about_window("1.0"));
    typed(&mut d, "lost");
    assert_eq!(area(&d.wm.windows[0], 4), "hi\nther!");
}

#[test]
fn terminals_hand_out_their_line() {
    let mut d = desk();
    d.wm.spawn(create_terminal_window());
    typed(&mut d, "echo hello");
    match handle_key(&mut d, key('\n'), false) {
        KeyOutcome::Command(s) => assert_eq!(s, "echo hello"),
        _ => panic!("a command was entered"),
    }
    assert!(matches!(run_terminal_command("echo hello"), Ask::Say(s) if s == "hello"));
    assert!(matches!(run_terminal_command("ls /disk"), Ask::List(s) if s == "/disk"));
    assert!(matches!(run_terminal_command("cat /a"), Ask::Print(s) if s == "/a"));
    assert!(matches!(run_terminal_command("version"), Ask::Version));
    assert!(heap_line(1024, 4096).contains("1"));
}

struct Editor {
    text: String,
    cursor: usize,
    selection: Option<usize>,
    clipboard: String,
}

impl Editor {
    fn new(t: &str) -> Editor {
        Editor { text: t.to_string(), cursor: 0, selection: None, clipboard: String::new() }
    }

    fn press(&mut self, k: DecodedKey, ctrl: bool) -> KeyUse {
        code_area_key(
            &mut self.text,
            &mut self.cursor,
            &mut self.selection,
            &mut self.clipboard,
            400,
            k,
            ctrl,
        )
    }
}

#[test]
fn editors_insert_delete_and_move() {
    let mut e = Editor::new("ab");
    e.press(DecodedKey::RawKey(KeyCode::End), false);
    assert_eq!(e.cursor, 2);
    e.press(key('c'), false);
    assert_eq!(e.text, "abc");
    e.press(DecodedKey::RawKey(KeyCode::ArrowLeft), false);
    e.press(key('\x08'), false);
    assert_eq!((e.text.as_str(), e.cursor), ("ac", 1));
}

#[test]
fn cutting_and_pasting_gives_the_text_back() {
    let mut e = Editor::new("hello world");
    e.selection = Some(0);
    e.cursor = 5;
    assert_eq!(code_area_selected_range(e.cursor, e.selection), Some((0, 5)));
    e.press(key('x'), true);
    assert_eq!((e.text.as_str(), e.cursor, e.clipboard.as_str()), (" world", 0, "hello"));
    e.press(key('v'), true);
    assert_eq!((e.text.as_str(), e.cursor), ("hello world", 5));
}

#[test]
fn icons_are_clicked_where_they_are_drawn() {
    for i in 0..5 {
        let top = 18 + 122 * i as i32;
        assert_eq!(desktop_icon_at(18, top), Some(i));
        assert_eq!(desktop_icon_at(130, top + 107), Some(i));
        assert_eq!(desktop_icon_at(60, top + 108), None);
        assert_eq!(desktop_icon_at(131, top), None);
    }
    assert_eq!(desktop_icon_at(60, 17), None);
    assert_eq!(desktop_icon_at(60, 18 + 122 * 5), None);
}

#[test]
fn the_font_sets_the_size_of_a_row() {
    // Seven pixels to a character, and rows of sixteen and two between them.
    assert_eq!(code_area_max_chars(80), 10);
    assert_eq!(code_area_max_chars(5), 1);
    let t = "abc\ndefgh";
    assert_eq!(code_area_cursor_at(t, 400, 300, 0, 6 + 14, 4), 2);
    assert_eq!(code_area_cursor_at(t, 400, 300, 0, 6 + 14, 4 + 18), 6);
    assert_eq!(code_area_cursor_at(t, 400, 300, 0, 1_000, 1_000), 9);
    // Thirty lines of three in a pane of ten rows, with the caret on the last
    // line: the row on top is the twenty-first.
    let long = "ab\n".repeat(30);
    let caret = 29 * 3;
    assert_eq!(code_area_cursor_at(&long, 400, 188, caret, 6 + 7, 4), 20 * 3 + 1);
    assert_eq!(code_area_cursor_at(&long, 400, 188, caret, 6, 4 + 9 * 18), caret);
    assert_eq!(code_area_cursor_at(&long, 400, 188, 0, 6, 4), 0);
    assert_eq!(tile_w("abcdefghij"), 10 * 7 + 42);
    assert_eq!(tile_w("abcd"), 88);
}

#[test]
fn rows_and_words_are_found() {
    let t: Vec<char> = "abcdef\nxy".chars().collect();
    let rows = wrap_rows(&t, 4);
    assert_eq!(rows[0], (0, 4));
    assert_eq!(rows.len(), 3);
    assert_eq!(cursor_row_col(&rows, 5).0, 1);
    let t: Vec<char> = "foo grüße(1)".chars().collect();
    assert_eq!(word_bounds_at(&t, 5), (4, 9));
}

// ── Paint and games ─────────────────────────────────────────────────────────

#[test]
fn brushes_leave_marks_within_the_canvas() {
    let mut c = vec![CANVAS_BG; 100];
    paint_stamp(&mut c, 10, 10, 5, 5, 0, 1);
    assert_eq!(c[55], 1);
    paint_stamp(&mut c, 10, 10, -3, -3, 1, 2);
    assert_eq!(c.iter().filter(|p| **p == 2).count(), 0);
    paint_stroke(&mut c, 10, 10, (0, 0), (9, 0), 0, 3);
    assert!(c[..10].iter().all(|p| *p == 3));
}

#[test]
fn filling_stops_at_borders() {
    let mut c = vec![0u32; 25];
    for y in 0..5 {
        c[y * 5 + 2] = 7;
    }
    paint_fill(&mut c, 5, 5, 0, 0, 9);
    for y in 0..5 {
        assert_eq!(&c[y * 5..y * 5 + 5], &[9, 9, 7, 0, 0]);
    }
    let before = c.clone();
    paint_fill(&mut c, 5, 5, 0, 0, 9);
    assert_eq!(c, before);
}

#[test]
fn paint_tools_are_chosen() {
    let mut d = desk();
    d.wm.spawn(create_paint_window());
    paint_set_color(&mut d, 2);
    paint_set_brush(&mut d, 3);
    paint_set_tool(&mut d, PaintTool::Fill);
    match &d.wm.windows[0].app {
        AppState::Paint(p) => {
            assert_eq!(p.color, PAINT_PALETTE[2]);
            assert_eq!(p.tool, PaintTool::Fill);
        }
        _ => panic!("not a paint window"),
    }
}

#[test]
fn the_snake_moves_and_dies_at_the_wall() {
    let mut w = create_snake_window();
    let mut now = 0;
    let head = match &w.app {
        AppState::Snake(s) => s.snake[0],
        _ => panic!("not a snake"),
    };
    let mut over = false;
    for _ in 0..200 {
        now += 100;
        snake_step(&mut w, now);
        if let AppState::Snake(s) = &w.app {
            over = s.game_over;
        }
        if over {
            break;
        }
    }
    assert!(over);
    if let AppState::Snake(s) = &w.app {
        assert_ne!(s.snake[0], head);
    }
}

// ── Files ───────────────────────────────────────────────────────────────────

#[test]
fn paths_are_taken_apart() {
    assert_eq!(path_parent("/disk/a/b"), "/disk/a");
    assert_eq!(path_parent("/disk"), "/");
    assert_eq!(fm_display_name("/disk/a/"), "a");
    assert_eq!(child_path("/disk", "x"), "/disk/x");
    assert!(fm_is_writable_path("/disk/x"));
    assert!(!fm_is_writable_path("/etc/x"));
    assert!(is_c_source_path("/a/b.C") || is_c_source_path("/a/b.c"));
    assert!(looks_like_picture("/a/p.PNG"));
    assert!(!looks_like_picture("/a/p.txt"));
    assert_eq!(binary_path("/disk/a.c"), "/disk/a");
}

#[test]
fn new_names_are_free() {
    let list = strings(&["/disk/New File.txt"]);
    let n = fm_unique_name(Some(&list), "/disk", "New File.txt", false);
    assert_ne!(n, "New File.txt");
    assert!(!list.contains(&child_path("/disk", &n)));
    assert_eq!(fm_unique_name(None, "/disk", "x", false), "x");
}

#[test]
fn folders_are_browsed() {
    let mut d = desk();
    d.fm_path = "/disk".to_string();
    d.wm.spawn(create_file_manager_window("/disk"));
    explorer_listed(&mut d, strings(&["/disk/sub/", "/disk/a.txt"]));
    assert!(matches!(file_manager_open_selected(&mut d), FileStep::Done));
    file_manager_set_selection(&mut d.wm.windows[0], Some(0));
    assert!(matches!(file_manager_open_selected(&mut d), FileStep::List));
    assert_eq!(d.fm_path, "/disk/sub");
    explorer_listed(&mut d, strings(&["/disk/sub/b.txt"]));
    file_manager_set_selection(&mut d.wm.windows[0], Some(0));
    assert!(matches!(file_manager_open_selected(&mut d), FileStep::Open(p) if p == "/disk/sub/b.txt"));
    assert!(matches!(file_manager_delete(&mut d), FileStep::Remove(p) if p == "/disk/sub/b.txt"));
    file_manager_go_up(&mut d);
    assert_eq!(d.fm_path, "/disk");
    match file_manager_new_folder(&mut d, &Some(strings(&[]))) {
        FileStep::MakeFolder(p) => {
            assert!(p.starts_with("/disk/"));
            assert!(matches!(created(&mut d, &p, true, &None), FileStep::List));
        }
        _ => panic!("a folder is made"),
    }
    d.fm_path = String::new();
    assert!(!matches!(
        file_manager_new_folder(&mut d, &Some(strings(&[]))),
        FileStep::MakeFolder(p) if p.starts_with("/etc")
    ));
}

#[test]
fn opened_files_are_shown() {
    let mut d = desk();
    open_path_in_notepad(&mut d, "/disk/a.txt", "contents");
    assert_eq!(d.wm.windows[0].kind, WindowKind::Notepad);
    assert_eq!(area(&d.wm.windows[0], 4), "contents");
    open_path_in_notepad(&mut d, "/disk/b.txt", "other");
    assert_eq!(d.wm.windows.len(), 1);
    assert_eq!(area(&d.wm.windows[0], 4), "other");
    assert_eq!(d.notepad_path, "/disk/b.txt");
}

#[test]
fn documents_are_saved_under_a_name() {
    let mut d = desk();
    d.wm.spawn(create_notepad_window("text", ""));
    open_file_dialog(&mut d, FileDialogMode::Save, FileDialogTarget::Notepad, true);
    assert_eq!(d.wm.windows.last().unwrap().kind, WindowKind::FileDialog);
    match file_dialog_confirm_save(&mut d, true) {
        DialogStep::Write { path, .. } => {
            assert!(fm_is_writable_path(&path));
            file_dialog_saved(&mut d, &path, &None);
            assert_eq!(d.notepad_path, path);
        }
        _ => panic!("the document is written"),
    }
    open_file_dialog(&mut d, FileDialogMode::Open, FileDialogTarget::Notepad, true);
    file_dialog_opened(&mut d, "/disk/x.txt", &Ok(b"read back".to_vec()));
    assert!(d.wm.windows.iter().any(|w| w.kind == WindowKind::Notepad && area(w, 4) == "read back"));
}

#[test]
fn program_output_is_shown() {
    let mut d = desk();
    d.wm.spawn(create_code_editor_window("int main(){}", "/disk/a.c"));
    code_editor_ran(&mut d, "/disk/a", "hello", 1, 1);
    let w = &d.wm.windows[0];
    let t = area(w, 7);
    assert!(t.contains("hello\n") && t.contains("--- exited ---"));
    code_editor_ran(&mut d, "/disk/a", "", 1, 2);
    assert!(area(&d.wm.windows[0], 7).contains("(no output)"));
}

#[test]
fn wallpapers_are_restored() {
    let mut w = Wallpaper::new();
    let noted = Some("/disk/p.png".to_string());
    assert_eq!(restore_wallpaper(&mut w, &None, Some(dot())), None);
    assert_eq!(picture_path(&w), None);
    assert_eq!(
        restore_wallpaper(&mut w, &noted, None),
        Some("Saved wallpaper /disk/p.png could not be loaded — using the drawn one".to_string())
    );
    assert_eq!(picture_path(&w), None);
    assert_eq!(restore_wallpaper(&mut w, &noted, Some(dot())), None);
    assert_eq!(picture_path(&w), noted);
}

// ── Settings, launching, installing ─────────────────────────────────────────

#[test]
fn toggles_undo_themselves() {
    let mut d = desk();
    d.wm.spawn(create_settings_window(true, false, &None));
    let (blink, dark) = (d.cursor_blink, d.dark_theme);
    toggle_cursor_blink(&mut d);
    toggle_dark_theme(&mut d);
    assert_eq!((d.cursor_blink, d.dark_theme), (!blink, !dark));
    toggle_cursor_blink(&mut d);
    toggle_dark_theme(&mut d);
    assert_eq!((d.cursor_blink, d.dark_theme), (blink, dark));
}

#[test]
fn launched_programs_come_to_the_front() {
    let mut d = desk();
    assert_eq!(
        launch_builtin(&mut d, WindowKind::Calculator, create_calculator_window(), 0),
        Launch::Done
    );
    d.wm.spawn(create_about_window("1.0"));
    raise_or_spawn(&mut d, WindowKind::Calculator, create_calculator_window());
    assert_eq!(d.wm.windows.len(), 2);
    assert_eq!(d.wm.windows[1].kind, WindowKind::Calculator);
    open_drive(&mut d, 0);
}

#[test]
fn actions_say_what_is_left_to_do() {
    let mut d = desk();
    d.wm.spawn(create_notepad_window("x", ""));
    assert!(matches!(apply_action(&mut d, WinAction::Nothing, true, 0), Effect::Done));
    assert!(matches!(apply_action(&mut d, WinAction::OpenApplications, true, 0), Effect::Open(_) | Effect::Done));
    let n = d.wm.windows.len();
    apply_action(&mut d, WinAction::Close, true, 0);
    assert_eq!(d.wm.windows.len(), n - 1);
    assert!(matches!(apply_action(&mut d, WinAction::InstallerReboot, true, 0), Effect::Reboot));
}

#[test]
fn nothing_is_installed_without_a_choice() {
    let disk = |id: u8, label: &str| Disk { id, label: label.to_string() };
    let mut w = create_installer_window(disk(0, "usb"), vec![disk(1, "big"), disk(2, "small")]);
    assert_eq!(installer_start(&mut w), Start::Refused);
    installer_next(&mut w);
    installer_pick(&mut w, 1);
    installer_next(&mut w);
    assert_eq!(installer_start(&mut w), Start::Refused);
    for x in w.widgets.iter_mut() {
        if let Widget::TextBox { text, .. } = x {
            *text = "ERASE".to_string();
        }
    }
    assert_eq!(installer_start(&mut w), Start::Copy { source: 0, target: 2 });
    let line = installer_progress(50, 100).unwrap();
    assert!(line.contains("50"));
    assert_eq!(installer_progress(51, 100), None);
    assert_eq!(installer_progress(1, 0), Some("Installing… 100% (1 / 0 sectors)".to_string()));
}

// ── Browser ─────────────────────────────────────────────────────────────────

#[test]
fn pages_are_visited_and_left_again() {
    let mut d = desk();
    d.wm.spawn(create_browser_window("http://home/"));
    let trip = browser_navigate(&mut d, "http://a/").unwrap();
    assert_eq!(trip.url, "http://a/");
    browser_show_document(&mut d, "http://a/", 900, "A", &None, true);
    browser_show_document(&mut d, "http://b/", 900, "B", &Some("http://a/".to_string()), true);
    assert_eq!(browser_back(&mut d), Some("http://a/".to_string()));
    browser_scroll_to(&mut d, 100_000);
    match &d.wm.windows[0].app {
        AppState::Browser(b) => assert!(b.scroll <= 900),
        _ => panic!("not a browser"),
    }
}

#[test]
fn pages_take_turns_and_the_first_address_wins() {
    let mut d = desk();
    d.wm.spawn(create_browser_window("http://home/"));
    browser_show_document(&mut d, "http://a/", 900, "A", &None, true);
    browser_scroll_to(&mut d, 500);
    d.wm.spawn(create_browser_window("http://home/"));
    browser_show_document(&mut d, "http://b/", 900, "B", &None, true);
    let work = tick(&mut d, 100, 0, 0);
    assert_eq!(work.pages, vec![0, 1]);

    let mut turns = PageTurns::new(work.pages);
    assert!(matches!(turns.ask(), PageAsk::Address(0)));
    // An answer to something else is passed over.
    turns.answer(&mut d, PageSaid::Work(true));
    assert!(matches!(turns.ask(), PageAsk::Address(0)));
    turns.answer(&mut d, PageSaid::Address(None));
    assert!(matches!(turns.ask(), PageAsk::Work(0)));
    turns.answer(&mut d, PageSaid::Work(true));
    assert!(matches!(turns.ask(), PageAsk::Run(0)));
    // The page shrinks below the viewport, so it scrolls back to its top.
    turns.answer(&mut d, PageSaid::Ran(Some(100)));
    match &d.wm.windows[0].app {
        AppState::Browser(b) => assert_eq!((b.page, b.scroll), (Some(100), 0)),
        _ => panic!("not a browser"),
    }
    assert!(matches!(turns.ask(), PageAsk::Address(0)));
    turns.answer(&mut d, PageSaid::Address(Some("http://c/".to_string())));
    // The second page is not asked for an address any more.
    assert!(matches!(turns.ask(), PageAsk::Work(1)));
    turns.answer(&mut d, PageSaid::Work(false));
    match turns.ask() {
        PageAsk::Done(address) => assert_eq!(address, Some("http://c/".to_string())),
        _ => panic!("not done"),
    }
}

#[test]
fn the_browsers_decisions() {
    assert_eq!(browser_fetch_image("http://x/a.png", 0), Some(Route::Direct));
    assert_eq!(browser_fetch_image("http://x/a.png", 1), Some(Route::Gateway));
    assert_eq!(browser_fetch_image("https://x/a.png", 0), Some(Route::Gateway));
    assert_eq!(browser_fetch_image("https://x/a.png", 1), None);
    assert_eq!(extension_for("image/png"), "png");
    assert_eq!(extension_for("image/webp"), "jpg");
    assert_eq!(picture_answer(200, "image/gif"), Ok("gif"));
    assert_eq!(picture_answer(404, "image/gif"), Err("the server answered 404".to_string()));
    assert_eq!(browser_submit_field(Some(false), Some("x".to_string())), None);
    assert_eq!(browser_submit_field(None, Some("x".to_string())), Some("x".to_string()));
    assert_eq!(browser_images("cats", false), "cats");
    assert_eq!(browser_images("http://x", true), "");
    assert_eq!(google_page("q", true), Stand::Results);
    assert_eq!(browser_field_key(key('a'), false), FieldEdit::Insert('a'));
    assert_eq!(browser_field_key(key('\n'), false), FieldEdit::Submit);
    assert_eq!(browser_field_key(key('\n'), true), FieldEdit::Insert('\n'));
    assert!(browser_key_detail(key('a')).contains('a'));
    assert!(browser_image_document("p", "http://x/p", 3, 4).contains("http://x/p"));
    let mut d = desk();
    assert_eq!(browser_save_menu_image(&mut d), Err("no picture selected".to_string()));
    d.menu_image = Some("http://x/p.png".to_string());
    assert_eq!(browser_save_menu_image(&mut d), Ok("http://x/p.png".to_string()));
}

#[test]
fn pages_are_clipped_to_their_canvas() {
    let v = viewport(10, 20, 200, 100, 50);
    assert_eq!(clip_box(&v, 0, 5_000, 10, 10), None);
    let (x, y, w, h) = clip_box(&v, 0, 60, 1_000, 1_000).unwrap();
    assert!(x >= 10 && y >= 20 && x + w <= 210 && y + h <= 120);
}

// ── Time and drawing ────────────────────────────────────────────────────────

#[test]
fn ticks_wake_the_windows() {
    let mut d = desk();
    enter_gui_mode(&mut d);
    d.wm.spawn(create_snake_window());
    let work = tick(&mut d, 100, 1_000, 10_000);
    assert!(work.pages.is_empty() && work.breakout.is_empty());
    assert_eq!(d.wm.windows.len(), 1);
}

fn look() -> Look {
    let icon = Icon { art: 1, accent: 0x22d3ee };
    Look {
        kinds: vec![(icon, 0x22d3ee); KINDS],
        desktop: vec![icon; 5],
        apps: icon,
        power: icon,
        folder: icon,
        file: icon,
        photo: None,
        code: vec![0xffffff; 16],
    }
}

fn texts(v: &[DrawCmd]) -> Vec<String> {
    v.iter()
        .filter_map(|c| match c {
            DrawCmd::Text { text, .. } => Some(text.clone()),
            _ => None,
        })
        .collect()
}

#[test]
fn the_scene_is_drawn_back_to_front() {
    let mut d = desk();
    d.wm.spawn(create_calculator_window());
    d.wm.spawn(create_about_window("9.9"));
    let out = render(&d, "12:34", 0, &look());
    assert!(matches!(out[0], DrawCmd::Wallpaper { w: 1280, h: 680, .. }));
    let t = texts(&out);
    assert!(t.iter().any(|s| s == "Calculator"));
    assert!(t.iter().any(|s| s.contains("12:34")));
    let top = texts(&render_top_window(&d, &look()));
    assert!(!top.iter().any(|s| s == "Calculator"));
    d.wm.windows[0].apply_minimize();
    let n = render(&d, "12:34", 0, &look()).len();
    assert!(n < out.len() + 8);
}

fn facts() -> Facts {
    Facts {
        ticks: 0,
        heap_used: 1,
        heap_size: 2,
        breakout: (320, 240),
        racing: (320, 240),
        invaders: (320, 240),
        abc: (320, 200),
        abc_choices: ("A".to_string(), "B".to_string(), "C".to_string()),
        abc_status: "Which one?".to_string(),
        photo: None,
        wallpaper: None,
        version: "1.0".to_string(),
        home: "about:home".to_string(),
        names: vec![],
        icons: vec![],
        source: Disk { id: 0, label: "live".to_string() },
        targets: vec![],
    }
}

#[test]
fn every_program_opens_with_a_window_of_its_own() {
    for kind in [
        WindowKind::Calculator,
        WindowKind::FileManager,
        WindowKind::Terminal,
        WindowKind::Monitor,
        WindowKind::Notepad,
        WindowKind::CodeEditor,
        WindowKind::Paint,
        WindowKind::Browser,
        WindowKind::Snake,
        WindowKind::Breakout,
        WindowKind::Abc,
        WindowKind::Racing,
        WindowKind::Invaders,
        WindowKind::ImageView,
        WindowKind::Settings,
        WindowKind::About,
        WindowKind::Installer,
        WindowKind::Launcher,
    ] {
        let mut d = desk();
        let first = window_for(&d, kind, facts()).unwrap();
        assert_eq!(first.kind, kind);
        launch_builtin(&mut d, kind, first, 0);
        assert_eq!(d.wm.windows.last().unwrap().kind, kind);
        d.wm.spawn(create_about_window("1.0"));
        let n = d.wm.windows.len();
        let second = window_for(&d, kind, facts()).unwrap();
        launch_builtin(&mut d, kind, second, 0);
        assert_eq!(d.wm.windows.last().unwrap().kind, kind);
        assert!(d.wm.windows.len() <= n + 1);
    }
    let d = desk();
    for kind in [WindowKind::FileDialog, WindowKind::Generic, WindowKind::MyComputer] {
        assert!(window_for(&d, kind, facts()).is_none());
    }
}

#[test]
fn handles_are_handed_out_once() {
    let mut d = desk();
    let mut seen = Vec::new();
    for _ in 0..5 {
        d.wm.spawn(create_calculator_window());
        let id = d.wm.windows.last().unwrap().id;
        assert!(!seen.contains(&id));
        seen.push(id);
        apply_action(&mut d, WinAction::Close, false, 0);
    }
    assert!(d.wm.windows.is_empty());
}

#[test]
fn programs_open_on_a_small_screen() {
    let d = Desktop::new(Some((100, 80)));
    let huge = Facts { breakout: (5_000, 5_000), invaders: (5_000, 5_000), ..facts() };
    assert_eq!(window_for(&d, WindowKind::Calculator, huge).unwrap().kind, WindowKind::Calculator);
    assert!(window_for(&d, WindowKind::Racing, facts()).is_some());
}

#[test]
fn a_picture_is_hung_or_refused() {
    let mut d = desk();
    let mut w = Wallpaper::new();
    d.wm.spawn(create_settings_window(true, false, &None));
    take_redraw_request(&mut d);
    let refused = |r: Result<(), String>| r.unwrap_err();
    let unread = Picture::Unreadable("not found".to_string());
    assert_eq!(refused(set_wallpaper_from(&mut d, &mut w, "/p", unread)), "not found");
    let known = Picture::Undecodable(Some("GIF".to_string()));
    assert_eq!(
        refused(set_wallpaper_from(&mut d, &mut w, "/p", known)),
        "/p is a GIF file this OS cannot decode"
    );
    let unknown = Picture::Undecodable(None);
    assert_eq!(
        refused(set_wallpaper_from(&mut d, &mut w, "/p", unknown)),
        "/p is a unrecognised file this OS cannot decode"
    );
    assert_eq!(picture_path(&w), None);
    assert!(!take_redraw_request(&mut d));
    assert!(set_wallpaper_from(&mut d, &mut w, "/disk/p.bmp", Picture::Decoded(dot())).is_ok());
    assert_eq!(picture_path(&w), Some("/disk/p.bmp".to_string()));
    assert!(take_redraw_request(&mut d));
    match &d.wm.windows[0].widgets[3] {
        Widget::Label { text, .. } => assert!(text.contains("/disk/p.bmp")),
        _ => panic!("the wallpaper is named in a label"),
    }
    assert_eq!(unrecorded_line("full"), "[wallpaper] could not record the choice: full");
}

#[test]
fn the_browser_says_what_it_waits_for() {
    let mut d = desk();
    d.wm.spawn(create_browser_window(""));
    let foot = |d: &Desktop| d.wm.windows[0].footer.clone().unwrap_or_default();
    let before = foot(&d);
    assert!(!google_suggestions(&mut d, ""));
    assert!(!google_results(&mut d, ""));
    assert_eq!(foot(&d), before);
    assert!(google_suggestions(&mut d, "rust"));
    assert_eq!(foot(&d), "Google needs JavaScript — asking it what you might mean ...");
    assert!(google_results(&mut d, "rust"));
    assert_eq!(foot(&d), "Searching for rust where results are HTML ...");
    assert!(browser_fetch_script(&mut d, "http://a/b.js", 5, 6));
    assert_eq!(foot(&d), "Fetching script http://a/b.js ...");
    assert!(!browser_fetch_script(&mut d, "http://a/c.js", 6, 6));
    assert_eq!(foot(&d), "Fetching script http://a/b.js ...");
    assert!(script_accepted("text/javascript"));
    assert!(!script_accepted("text/html; charset=utf-8"));
    assert!(!script_accepted("image/png"));
    assert_eq!(explanation("<p>", true), None);
    assert_eq!(explanation("", false), None);
    let notice = explanation("<script>", false).unwrap();
    assert!(notice.starts_with("Nothing on this page is written in the HTML, and running its"));
    assert!(notice.ends_with("<b>Type what you want in the address bar above</b> to search instead."));
}

#[test]
fn a_run_ends_in_three_ways() {
    let mut d = desk();
    d.wm.spawn(create_code_editor_window("", ""));
    let output = |d: &Desktop| {
        d.wm.windows[0]
            .widgets
            .iter()
            .find_map(|w| match w {
                Widget::OutputArea { text, .. } => Some(text.clone()),
                _ => None,
            })
            .unwrap()
    };
    code_editor_run(&mut d, "/a", &RunEnd::Unreadable("gone".to_string()), 0, 0);
    assert_eq!(output(&d), "Run failed: could not read /a: gone");
    code_editor_run(&mut d, "/a", &RunEnd::NotStarted("no memory".to_string()), 0, 0);
    assert_eq!(
        output(&d),
        "Build succeeded → /a\n--- Program output ---\nspawn failed: no memory\n--- exited ---"
    );
    code_editor_run(&mut d, "/a", &RunEnd::Printed("hi\n".to_string()), 0, 1);
    assert_eq!(
        output(&d),
        "Build succeeded → /a\n--- Program output ---\nhi\n--- still running (yielded) ---"
    );
}
