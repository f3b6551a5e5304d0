//! What the controls of the desktop are for: each button of a program asks for
//! what its label says, and each action does what it is named for and nothing
//! else.

use vstd::prelude::*;
use vstd::string::*;

use crate::text;
use crate::window::actions;
use crate::window::actions::{Ask, Effect, GameMove};
use crate::window::apps;
use crate::window::browser;
use crate::window::calc::CalcKey;
use crate::window::installer;
use crate::window::manager;
use crate::window::manager::DesktopModel;
use crate::window::state;
use crate::window::state::{AppModel, PaintModel, SnakeModel, WindowModel};
use crate::window::widget::{FileDialogMode, FileDialogTarget, Icon, PaintTool, Widget, WinAction, WindowKind};

verus! {

// ── Buttons ─────────────────────────────────────────────────────────────────

/// Whether a widget is a button with this label.
pub open spec fn says(wgt: Widget<Seq<char>>, label: Seq<char>) -> bool {
    wgt matches Widget::Button { label: l, .. } && l == label
}

/// Whether a widget is a button that asks for this action.
pub open spec fn asks(wgt: Widget<Seq<char>>, action: WinAction) -> bool {
    wgt matches Widget::Button { action: a, .. } && a == action
}

/// Each key of the calculator does what is written on it.
pub proof fn calculator_keys_say_what_they_do(i: int)
    requires
        0 <= i < apps::calculator_window().widgets.len(),
    ensures
        says(apps::calculator_window().widgets[i], "C"@) <==> asks(apps::calculator_window().widgets[i], WinAction::CalcClear),
        says(apps::calculator_window().widgets[i], "<-"@) <==> asks(apps::calculator_window().widgets[i], WinAction::CalcDigit(255)),
        says(apps::calculator_window().widgets[i], "+/-"@) <==> asks(apps::calculator_window().widgets[i], WinAction::CalcSign),
        says(apps::calculator_window().widgets[i], "="@) <==> asks(apps::calculator_window().widgets[i], WinAction::CalcEq),
        says(apps::calculator_window().widgets[i], "+"@) <==> asks(apps::calculator_window().widgets[i], WinAction::CalcOp('+')),
        says(apps::calculator_window().widgets[i], "-"@) <==> asks(apps::calculator_window().widgets[i], WinAction::CalcOp('-')),
        says(apps::calculator_window().widgets[i], "*"@) <==> asks(apps::calculator_window().widgets[i], WinAction::CalcOp('*')),
        says(apps::calculator_window().widgets[i], "/"@) <==> asks(apps::calculator_window().widgets[i], WinAction::CalcOp('/')),
        says(apps::calculator_window().widgets[i], "0"@) <==> asks(apps::calculator_window().widgets[i], WinAction::CalcDigit(0)),
        says(apps::calculator_window().widgets[i], "1"@) <==> asks(apps::calculator_window().widgets[i], WinAction::CalcDigit(1)),
        says(apps::calculator_window().widgets[i], "2"@) <==> asks(apps::calculator_window().widgets[i], WinAction::CalcDigit(2)),
        says(apps::calculator_window().widgets[i], "3"@) <==> asks(apps::calculator_window().widgets[i], WinAction::CalcDigit(3)),
        says(apps::calculator_window().widgets[i], "4"@) <==> asks(apps::calculator_window().widgets[i], WinAction::CalcDigit(4)),
        says(apps::calculator_window().widgets[i], "5"@) <==> asks(apps::calculator_window().widgets[i], WinAction::CalcDigit(5)),
        says(apps::calculator_window().widgets[i], "6"@) <==> asks(apps::calculator_window().widgets[i], WinAction::CalcDigit(6)),
        says(apps::calculator_window().widgets[i], "7"@) <==> asks(apps::calculator_window().widgets[i], WinAction::CalcDigit(7)),
        says(apps::calculator_window().widgets[i], "8"@) <==> asks(apps::calculator_window().widgets[i], WinAction::CalcDigit(8)),
        says(apps::calculator_window().widgets[i], "9"@) <==> asks(apps::calculator_window().widgets[i], WinAction::CalcDigit(9)),
{
    reveal_strlit("C");
    reveal_strlit("<-");
    reveal_strlit("+/-");
    reveal_strlit("=");
    reveal_strlit("+");
    reveal_strlit("-");
    reveal_strlit("*");
    reveal_strlit("/");
    reveal_strlit("0");
    reveal_strlit("1");
    reveal_strlit("2");
    reveal_strlit("3");
    reveal_strlit("4");
    reveal_strlit("5");
    reveal_strlit("6");
    reveal_strlit("7");
    reveal_strlit("8");
    reveal_strlit("9");
    assert("C"@.len() == 1 && "C"@[0] == 'C');
    assert("<-"@.len() == 2 && "<-"@[0] == '<' && "<-"@[1] == '-');
    assert("+/-"@.len() == 3 && "+/-"@[0] == '+' && "+/-"@[1] == '/');
    assert("="@.len() == 1 && "="@[0] == '=');
    assert("+"@.len() == 1 && "+"@[0] == '+');
    assert("-"@.len() == 1 && "-"@[0] == '-');
    assert("*"@.len() == 1 && "*"@[0] == '*');
    assert("/"@.len() == 1 && "/"@[0] == '/');
    assert("0"@.len() == 1 && "0"@[0] == '0');
    assert("1"@.len() == 1 && "1"@[0] == '1');
    assert("2"@.len() == 1 && "2"@[0] == '2');
    assert("3"@.len() == 1 && "3"@[0] == '3');
    assert("4"@.len() == 1 && "4"@[0] == '4');
    assert("5"@.len() == 1 && "5"@[0] == '5');
    assert("6"@.len() == 1 && "6"@[0] == '6');
    assert("7"@.len() == 1 && "7"@[0] == '7');
    assert("8"@.len() == 1 && "8"@[0] == '8');
    assert("9"@.len() == 1 && "9"@[0] == '9');
    reveal_strlit(".");
    assert("."@.len() == 1 && "."@[0] == '.');
}

/// Each button of Notepad does what is written on it.
pub proof fn notepad_buttons_say_what_they_do(scratch: Seq<char>, path: Seq<char>, i: int)
    requires
        0 <= i < apps::notepad_window(scratch, path).widgets.len(),
    ensures
        says(apps::notepad_window(scratch, path).widgets[i], "Save"@) <==> asks(apps::notepad_window(scratch, path).widgets[i], WinAction::NotepadSave),
        says(apps::notepad_window(scratch, path).widgets[i], "Load"@) <==> asks(apps::notepad_window(scratch, path).widgets[i], WinAction::NotepadLoad),
        says(apps::notepad_window(scratch, path).widgets[i], "Clear"@) <==> asks(apps::notepad_window(scratch, path).widgets[i], WinAction::NotepadClear),
{
    reveal_strlit("Save");
    reveal_strlit("Load");
    reveal_strlit("Clear");
    assert("Save"@.len() == 4 && "Save"@[0] == 'S' && "Save"@[1] == 'a');
    assert("Load"@.len() == 4 && "Load"@[0] == 'L' && "Load"@[1] == 'o');
    assert("Clear"@.len() == 5 && "Clear"@[0] == 'C' && "Clear"@[1] == 'l');
}

/// Each button of the Code Editor does what is written on it.
pub proof fn editor_buttons_say_what_they_do(scratch: Seq<char>, path: Seq<char>, i: int)
    requires
        0 <= i < apps::code_editor_window(scratch, path).widgets.len(),
    ensures
        says(apps::code_editor_window(scratch, path).widgets[i], "New"@) <==> asks(apps::code_editor_window(scratch, path).widgets[i], WinAction::CodeNew),
        says(apps::code_editor_window(scratch, path).widgets[i], "Open"@) <==> asks(apps::code_editor_window(scratch, path).widgets[i], WinAction::CodeOpen),
        says(apps::code_editor_window(scratch, path).widgets[i], "Save"@) <==> asks(apps::code_editor_window(scratch, path).widgets[i], WinAction::CodeSave),
        says(apps::code_editor_window(scratch, path).widgets[i], "Build"@) <==> asks(apps::code_editor_window(scratch, path).widgets[i], WinAction::CodeBuild),
        says(apps::code_editor_window(scratch, path).widgets[i], "Run"@) <==> asks(apps::code_editor_window(scratch, path).widgets[i], WinAction::CodeRun),
{
    reveal_strlit("New");
    reveal_strlit("Open");
    reveal_strlit("Save");
    reveal_strlit("Build");
    reveal_strlit("Run");
    assert("New"@.len() == 3 && "New"@[0] == 'N' && "New"@[1] == 'e');
    assert("Open"@.len() == 4 && "Open"@[0] == 'O' && "Open"@[1] == 'p');
    assert("Save"@.len() == 4 && "Save"@[0] == 'S' && "Save"@[1] == 'a');
    assert("Build"@.len() == 5 && "Build"@[0] == 'B' && "Build"@[1] == 'u');
    assert("Run"@.len() == 3 && "Run"@[0] == 'R' && "Run"@[1] == 'u');
}

/// Each button of the browser does what is written on it.
pub proof fn browser_buttons_say_what_they_do(home: Seq<char>, i: int)
    requires
        0 <= i < apps::browser_window(home).widgets.len(),
    ensures
        says(apps::browser_window(home).widgets[i], "Back"@) <==> asks(apps::browser_window(home).widgets[i], WinAction::BrowserBack),
        says(apps::browser_window(home).widgets[i], "Home"@) <==> asks(apps::browser_window(home).widgets[i], WinAction::BrowserHome),
        says(apps::browser_window(home).widgets[i], "Images"@) <==> asks(apps::browser_window(home).widgets[i], WinAction::BrowserImages),
        says(apps::browser_window(home).widgets[i], "Go"@) <==> asks(apps::browser_window(home).widgets[i], WinAction::BrowserGo),
        says(apps::browser_window(home).widgets[i], "Up"@) <==> asks(apps::browser_window(home).widgets[i], WinAction::BrowserScroll(-1i8)),
        says(apps::browser_window(home).widgets[i], "Down"@) <==> asks(apps::browser_window(home).widgets[i], WinAction::BrowserScroll(1)),
{
    reveal_strlit("Back");
    reveal_strlit("Home");
    reveal_strlit("Images");
    reveal_strlit("Go");
    reveal_strlit("Up");
    reveal_strlit("Down");
    assert("Back"@.len() == 4 && "Back"@[0] == 'B' && "Back"@[1] == 'a');
    assert("Home"@.len() == 4 && "Home"@[0] == 'H' && "Home"@[1] == 'o');
    assert("Images"@.len() == 6 && "Images"@[0] == 'I' && "Images"@[1] == 'm');
    assert("Go"@.len() == 2 && "Go"@[0] == 'G' && "Go"@[1] == 'o');
    assert("Up"@.len() == 2 && "Up"@[0] == 'U' && "Up"@[1] == 'p');
    assert("Down"@.len() == 4 && "Down"@[0] == 'D' && "Down"@[1] == 'o');
}

/// Each button of the snake game steers where it says.
pub proof fn snake_buttons_say_what_they_do(i: int)
    requires
        0 <= i < apps::snake_window().widgets.len(),
    ensures
        says(apps::snake_window().widgets[i], "Up"@) <==> asks(apps::snake_window().widgets[i], WinAction::SnakeDir(0, -1i8)),
        says(apps::snake_window().widgets[i], "Down"@) <==> asks(apps::snake_window().widgets[i], WinAction::SnakeDir(0, 1)),
        says(apps::snake_window().widgets[i], "Left"@) <==> asks(apps::snake_window().widgets[i], WinAction::SnakeDir(-1i8, 0)),
        says(apps::snake_window().widgets[i], "Right"@) <==> asks(apps::snake_window().widgets[i], WinAction::SnakeDir(1, 0)),
        says(apps::snake_window().widgets[i], "Restart"@) <==> asks(apps::snake_window().widgets[i], WinAction::SnakeRestart),
{
    reveal_strlit("Up");
    reveal_strlit("Down");
    reveal_strlit("Left");
    reveal_strlit("Right");
    reveal_strlit("Restart");
    assert("Up"@.len() == 2 && "Up"@[0] == 'U' && "Up"@[1] == 'p');
    assert("Down"@.len() == 4 && "Down"@[0] == 'D' && "Down"@[1] == 'o');
    assert("Left"@.len() == 4 && "Left"@[0] == 'L' && "Left"@[1] == 'e');
    assert("Right"@.len() == 5 && "Right"@[0] == 'R' && "Right"@[1] == 'i');
    assert("Restart"@.len() == 7 && "Restart"@[0] == 'R' && "Restart"@[1] == 'e');
}

/// Each button of this game does what is written on it.
pub proof fn breakout_buttons_say_what_they_do(screen: (usize, usize), least: (usize, usize), i: int)
    requires
        0 <= i < apps::breakout_window(screen, least).widgets.len(),
    ensures
        says(apps::breakout_window(screen, least).widgets[i], "<<"@) <==> asks(apps::breakout_window(screen, least).widgets[i], WinAction::BreakoutLeft),
        says(apps::breakout_window(screen, least).widgets[i], ">>"@) <==> asks(apps::breakout_window(screen, least).widgets[i], WinAction::BreakoutRight),
        says(apps::breakout_window(screen, least).widgets[i], "Speed+"@) <==> asks(apps::breakout_window(screen, least).widgets[i], WinAction::BreakoutFaster),
        says(apps::breakout_window(screen, least).widgets[i], "Speed-"@) <==> asks(apps::breakout_window(screen, least).widgets[i], WinAction::BreakoutSlower),
        says(apps::breakout_window(screen, least).widgets[i], "Restart"@) <==> asks(apps::breakout_window(screen, least).widgets[i], WinAction::BreakoutRestart),
{
    reveal_strlit("<<");
    reveal_strlit(">>");
    reveal_strlit("Speed+");
    reveal_strlit("Speed-");
    reveal_strlit("Restart");
    assert("<<"@.len() == 2 && "<<"@[0] == '<' && "<<"@[1] == '<');
    assert(">>"@.len() == 2 && ">>"@[0] == '>' && ">>"@[1] == '>');
    assert("Speed+"@.len() == 6 && "Speed+"@[0] == 'S' && "Speed+"@[1] == 'p');
    assert("Speed-"@.len() == 6 && "Speed-"@[0] == 'S' && "Speed-"@[1] == 'p');
    assert("Restart"@.len() == 7 && "Restart"@[0] == 'R' && "Restart"@[1] == 'e');
    assert("Speed+"@[5] == '+' && "Speed-"@[5] == '-');
}

/// Each button of this game does what is written on it.
pub proof fn invaders_buttons_say_what_they_do(screen: (usize, usize), least: (usize, usize), i: int)
    requires
        0 <= i < apps::invaders_window(screen, least).widgets.len(),
    ensures
        says(apps::invaders_window(screen, least).widgets[i], "<<"@) <==> asks(apps::invaders_window(screen, least).widgets[i], WinAction::InvadersLeft),
        says(apps::invaders_window(screen, least).widgets[i], ">>"@) <==> asks(apps::invaders_window(screen, least).widgets[i], WinAction::InvadersRight),
        says(apps::invaders_window(screen, least).widgets[i], "Speed+"@) <==> asks(apps::invaders_window(screen, least).widgets[i], WinAction::InvadersFaster),
        says(apps::invaders_window(screen, least).widgets[i], "Speed-"@) <==> asks(apps::invaders_window(screen, least).widgets[i], WinAction::InvadersSlower),
        says(apps::invaders_window(screen, least).widgets[i], "Restart"@) <==> asks(apps::invaders_window(screen, least).widgets[i], WinAction::InvadersRestart),
        says(apps::invaders_window(screen, least).widgets[i], "Fire!"@) <==> asks(apps::invaders_window(screen, least).widgets[i], WinAction::InvadersFire),
{
    reveal_strlit("<<");
    reveal_strlit(">>");
    reveal_strlit("Speed+");
    reveal_strlit("Speed-");
    reveal_strlit("Restart");
    reveal_strlit("Fire!");
    assert("<<"@.len() == 2 && "<<"@[0] == '<' && "<<"@[1] == '<');
    assert(">>"@.len() == 2 && ">>"@[0] == '>' && ">>"@[1] == '>');
    assert("Speed+"@.len() == 6 && "Speed+"@[0] == 'S' && "Speed+"@[1] == 'p');
    assert("Speed-"@.len() == 6 && "Speed-"@[0] == 'S' && "Speed-"@[1] == 'p');
    assert("Restart"@.len() == 7 && "Restart"@[0] == 'R' && "Restart"@[1] == 'e');
    assert("Fire!"@.len() == 5 && "Fire!"@[0] == 'F' && "Fire!"@[1] == 'i');
    assert("Speed+"@[5] == '+' && "Speed-"@[5] == '-');
}

/// Each button of this game does what is written on it.
pub proof fn racing_buttons_say_what_they_do(screen: (usize, usize), least: (usize, usize), i: int)
    requires
        0 <= i < apps::racing_window(screen, least).widgets.len(),
    ensures
        says(apps::racing_window(screen, least).widgets[i], "<<"@) <==> asks(apps::racing_window(screen, least).widgets[i], WinAction::RacingLeft),
        says(apps::racing_window(screen, least).widgets[i], ">>"@) <==> asks(apps::racing_window(screen, least).widgets[i], WinAction::RacingRight),
        says(apps::racing_window(screen, least).widgets[i], "Speed+"@) <==> asks(apps::racing_window(screen, least).widgets[i], WinAction::RacingFaster),
        says(apps::racing_window(screen, least).widgets[i], "Speed-"@) <==> asks(apps::racing_window(screen, least).widgets[i], WinAction::RacingSlower),
        says(apps::racing_window(screen, least).widgets[i], "Restart"@) <==> asks(apps::racing_window(screen, least).widgets[i], WinAction::RacingRestart),
{
    reveal_strlit("<<");
    reveal_strlit(">>");
    reveal_strlit("Speed+");
    reveal_strlit("Speed-");
    reveal_strlit("Restart");
    assert("<<"@.len() == 2 && "<<"@[0] == '<' && "<<"@[1] == '<');
    assert(">>"@.len() == 2 && ">>"@[0] == '>' && ">>"@[1] == '>');
    assert("Speed+"@.len() == 6 && "Speed+"@[0] == 'S' && "Speed+"@[1] == 'p');
    assert("Speed-"@.len() == 6 && "Speed-"@[0] == 'S' && "Speed-"@[1] == 'p');
    assert("Restart"@.len() == 7 && "Restart"@[0] == 'R' && "Restart"@[1] == 'e');
    assert("Speed+"@[5] == '+' && "Speed-"@[5] == '-');
}

/// Each button of the File Explorer does what is written on it.
pub proof fn explorer_buttons_say_what_they_do(path: Seq<char>, i: int)
    requires
        0 <= i < apps::file_manager_window(path).widgets.len(),
    ensures
        says(apps::file_manager_window(path).widgets[i], "Up"@) <==> asks(apps::file_manager_window(path).widgets[i], WinAction::FmUp),
        says(apps::file_manager_window(path).widgets[i], "New folder"@) <==> asks(apps::file_manager_window(path).widgets[i], WinAction::FmNewFolder),
        says(apps::file_manager_window(path).widgets[i], "New file"@) <==> asks(apps::file_manager_window(path).widgets[i], WinAction::FmNewFile),
        says(apps::file_manager_window(path).widgets[i], "Refresh"@) <==> asks(apps::file_manager_window(path).widgets[i], WinAction::RefreshFiles),
        says(apps::file_manager_window(path).widgets[i], "Preview"@) <==> asks(apps::file_manager_window(path).widgets[i], WinAction::FmPreview),
        says(apps::file_manager_window(path).widgets[i], "Icons"@) <==> asks(apps::file_manager_window(path).widgets[i], WinAction::FmViewIcons),
        says(apps::file_manager_window(path).widgets[i], "List"@) <==> asks(apps::file_manager_window(path).widgets[i], WinAction::FmViewList),
{
    reveal_strlit("Up");
    reveal_strlit("New folder");
    reveal_strlit("New file");
    reveal_strlit("Refresh");
    reveal_strlit("Preview");
    reveal_strlit("Icons");
    reveal_strlit("List");
    assert("Up"@.len() == 2 && "Up"@[0] == 'U' && "Up"@[1] == 'p');
    assert("New folder"@.len() == 10 && "New folder"@[0] == 'N' && "New folder"@[1] == 'e');
    assert("New file"@.len() == 8 && "New file"@[0] == 'N' && "New file"@[1] == 'e');
    assert("Refresh"@.len() == 7 && "Refresh"@[0] == 'R' && "Refresh"@[1] == 'e');
    assert("Preview"@.len() == 7 && "Preview"@[0] == 'P' && "Preview"@[1] == 'r');
    assert("Icons"@.len() == 5 && "Icons"@[0] == 'I' && "Icons"@[1] == 'c');
    assert("List"@.len() == 4 && "List"@[0] == 'L' && "List"@[1] == 'i');
}

/// Each button of a file dialog does what is written on it.
pub proof fn dialog_buttons_say_what_they_do(mode: FileDialogMode, target: FileDialogTarget, path: Seq<char>, i: int)
    requires
        0 <= i < apps::file_dialog_window(mode, target, path).widgets.len(),
    ensures
        says(apps::file_dialog_window(mode, target, path).widgets[i], "Up"@) <==> asks(apps::file_dialog_window(mode, target, path).widgets[i], WinAction::FileDialogUp),
        says(apps::file_dialog_window(mode, target, path).widgets[i], "Save"@) <==> asks(apps::file_dialog_window(mode, target, path).widgets[i], WinAction::FileDialogSave),
        says(apps::file_dialog_window(mode, target, path).widgets[i], "Open"@) <==> asks(apps::file_dialog_window(mode, target, path).widgets[i], WinAction::FileDialogOpen),
        says(apps::file_dialog_window(mode, target, path).widgets[i], "Cancel"@) <==> asks(apps::file_dialog_window(mode, target, path).widgets[i], WinAction::FileDialogCancel),
{
    reveal_strlit("Up");
    reveal_strlit("Save");
    reveal_strlit("Open");
    reveal_strlit("Cancel");
    assert("Up"@.len() == 2 && "Up"@[0] == 'U' && "Up"@[1] == 'p');
    assert("Save"@.len() == 4 && "Save"@[0] == 'S' && "Save"@[1] == 'a');
    assert("Open"@.len() == 4 && "Open"@[0] == 'O' && "Open"@[1] == 'p');
    assert("Cancel"@.len() == 6 && "Cancel"@[0] == 'C' && "Cancel"@[1] == 'a');
}

/// Each program of the launcher is started by the button that bears its name
/// and its icon.
pub proof fn launcher_buttons_start_their_program(names: Seq<Seq<char>>, icons: Seq<Icon>, i: int)
    requires
        names.len() == icons.len(),
        0 <= i < names.len() <= 256,
    ensures
        apps::launcher_window(names, icons).widgets[i + 1] is Button,
        says(apps::launcher_window(names, icons).widgets[i + 1], names[i]),
        asks(apps::launcher_window(names, icons).widgets[i + 1], WinAction::LaunchApp(i as u8)),
        apps::launcher_window(names, icons).widgets[i + 1]->Button_icon == Some(icons[i]),
{
}

/// A drive of My Computer opens where there is one, and nothing where there is
/// none.
pub proof fn drives_open_where_they_are(d: apps::Drives)
    ensures
        ({
            let ws = apps::my_computer_window(d).widgets;
            &&& asks(ws[1], WinAction::OpenDrive(3)) <==> d.has_disk
            &&& asks(ws[2], WinAction::OpenDrive(0)) <==> d.fat is Some
            &&& asks(ws[3], WinAction::OpenDrive(1))
            &&& asks(ws[4], WinAction::OpenDrive(2))
            &&& asks(ws[5], WinAction::OpenDrive(4)) <==> d.has_usb
            &&& says(ws[1], apps::disk_line(d)) && says(ws[2], apps::fat_line(d))
            &&& says(ws[3], apps::init_line(d)) && says(ws[5], apps::usb_line(d))
        }),
{
}

/// The boxes of the settings show what is set, and toggle that.
pub proof fn settings_show_what_is_set(blink: bool, dark: bool, path: Option<Seq<char>>)
    ensures
        ({
            let ws = apps::settings_window(blink, dark, path).widgets;
            &&& ws[1]->Checkbox_checked == blink && ws[1]->Checkbox_action
                == WinAction::ToggleCursorBlink
            &&& ws[2]->Checkbox_checked == dark && ws[2]->Checkbox_action
                == WinAction::ToggleDarkTheme
            &&& asks(ws[4], WinAction::ResetWallpaper)
        }),
{
}

/// A colour chip of Paint has the colour that it picks.
pub proof fn chips_pick_their_colour(i: int, p: PaintModel)
    requires
        0 <= i < 16,
    ensures
        apps::chip(i)->Swatch_action == WinAction::PaintColor(i as u8),
        actions::inked(p, i as u8).color == apps::chip(i)->Swatch_color,
{
}

// ── Actions ─────────────────────────────────────────────────────────────────

/// The machine is switched off, restarted or wiped by no action but the one
/// that is for it; and so it is with everything else that reaches out of the
/// desktop.
#[verifier::spinoff_prover]
#[verifier::rlimit(60)]
pub proof fn effects_need_their_action(d: DesktopModel, a: WinAction, has_disk: bool, now: u64)
    ensures
        ({
            let e = actions::acted(d, a, has_disk, now).1;
            &&& e is PowerOff <==> a == WinAction::Shutdown
            &&& e is Reboot <==> a == WinAction::InstallerReboot
            &&& e is Install ==> a == WinAction::InstallerStart
            &&& e is Build <==> a == WinAction::CodeBuild
            &&& e is Run <==> a == WinAction::CodeRun
            &&& e is Submit <==> a == WinAction::BrowserSubmit
            &&& e is StartPage <==> a == WinAction::BrowserHome
            &&& e is SavePicture <==> a == WinAction::BrowserSaveImage
            &&& e is HangPicture <==> a == WinAction::BrowserImageWallpaper
            &&& e is NameFolder <==> a == WinAction::FmNewFolder
            &&& e is NameFile <==> a == WinAction::FmNewFile
            &&& e is DrawnWallpaper <==> a == WinAction::ResetWallpaper
            &&& e is RedrawWallpaper <==> a == WinAction::ToggleDarkTheme
            &&& e is Launch ==> a is LaunchApp
            &&& e is EndProcess ==> a == WinAction::Close
            &&& e is Wake ==> a is User
            &&& e is Files && e->Files_0 is Remove ==> a == WinAction::FmDelete
            &&& e is Dialog && e->Dialog_0 is Write ==> a == WinAction::FileDialogSave
            &&& e is Search ==> a == WinAction::BrowserGo
            &&& e is Visit ==> a == WinAction::BrowserOpenImage
            &&& a matches WinAction::LaunchApp(i) ==> e == Effect::<Seq<char>>::Launch(i)
            &&& a == WinAction::OpenBrowser ==> e == Effect::<Seq<char>>::Open(WindowKind::Browser)
            &&& a == WinAction::OpenInstaller ==> e == Effect::<Seq<char>>::Open(
                WindowKind::Installer,
            )
            &&& a == WinAction::OpenApplications ==> e == Effect::<Seq<char>>::Open(
                WindowKind::Launcher,
            )
            &&& a == WinAction::OpenMyComputer ==> e == Effect::<Seq<char>>::Open(
                WindowKind::MyComputer,
            )
        }),
{
}

/// Closing takes the window in front away and no other, and ends the program
/// that it belongs to.
pub proof fn closing_takes_the_front_window(d: DesktopModel, has_disk: bool, now: u64)
    requires
        d.wm.windows.len() > 0,
    ensures
        ({
            let (e, r) = actions::acted(d, WinAction::Close, has_disk, now);
            &&& e.wm.windows == d.wm.windows.drop_last()
            &&& e.wm.dragging is None
            &&& e.dirty
            &&& r == (match d.wm.windows.last().owner_pid {
                Some(p) => Effect::<Seq<char>>::EndProcess(p),
                None => Effect::Done,
            })
        }),
{
}

/// A click on a program's button is queued for the window in front, behind the
/// clicks that wait, and its program is woken.
pub proof fn clicks_are_passed_to_the_program(d: DesktopModel, id: u64, has_disk: bool, now: u64)
    requires
        d.wf(),
        manager::top(d.wm) >= 0,
    ensures
        ({
            let t = manager::top(d.wm);
            let (e, r) = actions::acted(d, WinAction::User(id), has_disk, now);
            let q = d.wm.windows[t].user_events;
            &&& q.len() < 256 ==> e.wm.windows[t].user_events == q.push(id)
            &&& d.wm.windows[t].id != 0 ==> r == Effect::<Seq<char>>::Wake(d.wm.windows[t].id)
            &&& e.wm.windows.len() == d.wm.windows.len()
            &&& e.wm.windows[t].widgets == d.wm.windows[t].widgets
        }),
{
    manager::last_where_bounds(d.wm.windows, manager::shown());
}

/// Leaving the desktop closes every window and leaves the graphics.
pub proof fn leaving_closes_everything(d: DesktopModel, has_disk: bool, now: u64)
    ensures
        !actions::acted(d, WinAction::ExitGui, has_disk, now).0.gui_mode,
        actions::acted(d, WinAction::ExitGui, has_disk, now).0.wm.windows.len() == 0,
{
}

/// Picking a colour paints with it and puts the eraser away; the other tools
/// stay. Only its own chip is marked, and the picture stays as it is.
pub proof fn colours_are_picked(w: WindowModel, p: PaintModel, idx: u8, j: int)
    requires
        w.app == AppModel::Paint(p),
        idx < 16,
        0 <= j < w.widgets.len(),
    ensures
        ({
            let v = actions::colour_picked(idx)(w);
            &&& v.app matches AppModel::Paint(q) && q.canvas == p.canvas && q.brush == p.brush && (
            p.tool == PaintTool::Eraser ==> q.tool == PaintTool::Brush) && (p.tool
                != PaintTool::Eraser ==> q.tool == p.tool)
            &&& w.widgets[j] is Swatch ==> v.widgets[j]->Swatch_selected == (
            w.widgets[j]->Swatch_action == WinAction::PaintColor(idx))
                && v.widgets[j]->Swatch_action == w.widgets[j]->Swatch_action
            &&& !(w.widgets[j] is Swatch) ==> v.widgets[j] == w.widgets[j]
        }),
{
}

/// Clearing makes every pixel white; setting the brush or the tool sets that
/// alone.
pub proof fn paint_settings_change_alone(w: WindowModel, p: PaintModel, size: u8, t: PaintTool, i: int)
    requires
        w.app == AppModel::Paint(p),
        0 <= i < p.canvas.len(),
    ensures
        actions::picture_wiped()(w).app matches AppModel::Paint(q) && q.canvas.len()
            == p.canvas.len() && q.canvas[i] == 0xFFFFFF && q.color == p.color && q.brush == p.brush
            && q.tool == p.tool,
        actions::brush_set(size)(w).app == AppModel::Paint(
            PaintModel { brush: size as usize, ..p },
        ),
        actions::tool_set(t)(w).app == AppModel::Paint(PaintModel { tool: t, ..p }),
{
}

/// A new game of snake starts from nothing on the same grid; a turn is taken
/// up unless the game is over or it would lead straight back.
pub proof fn snakes_start_and_turn(w: WindowModel, s: SnakeModel, now: u64, dx: i8, dy: i8)
    requires
        w.app == AppModel::Snake(s),
        -1 <= dx <= 1,
        -1 <= dy <= 1,
    ensures
        actions::snake_restarted(now)(w).app matches AppModel::Snake(t) && t.score == 0
            && !t.game_over && t.grid_w == s.grid_w && t.grid_h == s.grid_h && t.last_step_ticks
            == now && t.snake.len() == 3,
        s.game_over || (dx == -s.dir.0 && dy == -s.dir.1) ==> actions::steered(dx, dy)(w) == w,
        !s.game_over && !(dx == -s.dir.0 && dy == -s.dir.1) ==> actions::steered(dx, dy)(w).app
            == AppModel::Snake(SnakeModel { pending_dir: (dx, dy), ..s }),
{
}

/// Each drive has its own folder, in which it is opened.
pub proof fn drives_open_in_their_folder(d: DesktopModel, n: u8)
    ensures
        actions::drive_opened(d, n).fm_path == actions::drive_path(n),
        actions::drive_opened(d, n).wm.windows.last().kind == WindowKind::FileManager,
        n == 1 ==> actions::drive_path(n) == "/init"@,
        n == 2 ==> actions::drive_path(n) == "/data"@,
        n == 3 ==> actions::drive_path(n) == "/disk"@,
        n == 4 ==> actions::drive_path(n) == "/usb"@,
        n == 0 || n > 4 ==> actions::drive_path(n) == "/fat"@,
{
}

/// The installer's back button undoes its next button, and picking a disk
/// selects it.
pub proof fn the_installer_goes_both_ways(w: WindowModel, s: state::InstallerModel, i: u8)
    requires
        w.app == AppModel::Installer(s),
    ensures
        s.step < 2 && installer::forward(s).step == s.step + 1 ==> (actions::installer_backward()(
            actions::installer_forward()(w),
        ).app matches AppModel::Installer(t) && t.step == s.step && t.selected == s.selected
            && t.targets == s.targets),
        i < s.targets.len() ==> (actions::installer_picked(i)(w).app matches AppModel::Installer(t)
            && t.selected == Some(i as usize) && t.step == s.step),
        i >= s.targets.len() ==> actions::installer_picked(i)(w) == w,
{
}

/// Emptying a window empties its fields and nothing else.
pub proof fn only_fields_are_emptied(w: WindowModel, i: int)
    requires
        0 <= i < w.widgets.len(),
    ensures
        w.widgets[i] is TextBox ==> actions::emptied(w).widgets[i]->TextBox_text.len() == 0,
        !(w.widgets[i] is TextBox) ==> actions::emptied(w).widgets[i] == w.widgets[i],
{
}

/// The calculator's buttons press its keys.
pub proof fn calculator_actions_are_keys(a: WinAction, d: u8, op: char)
    ensures
        d != 255 ==> actions::calc_key(WinAction::CalcDigit(d)) == Some(CalcKey::Digit(d)),
        actions::calc_key(WinAction::CalcDigit(255)) == Some(CalcKey::Back),
        actions::calc_key(WinAction::CalcOp(op)) == Some(CalcKey::Op(op)),
        actions::calc_key(a) == Some(CalcKey::Equals) <==> a == WinAction::CalcEq,
        actions::calc_key(a) == Some(CalcKey::Clear) <==> a == WinAction::CalcClear,
        actions::calc_key(a) == Some(CalcKey::Sign) <==> a == WinAction::CalcSign,
{
}

/// A game's buttons are moves in that game.
pub proof fn game_actions_are_moves(a: WinAction)
    ensures
        actions::game_move(a) == Some((WindowKind::Breakout, GameMove::Left)) <==> a
            == WinAction::BreakoutLeft,
        actions::game_move(a) == Some((WindowKind::Breakout, GameMove::Right)) <==> a
            == WinAction::BreakoutRight,
        actions::game_move(a) == Some((WindowKind::Breakout, GameMove::Faster)) <==> a
            == WinAction::BreakoutFaster,
        actions::game_move(a) == Some((WindowKind::Breakout, GameMove::Slower)) <==> a
            == WinAction::BreakoutSlower,
        actions::game_move(a) == Some((WindowKind::Breakout, GameMove::Restart)) <==> a
            == WinAction::BreakoutRestart,
        actions::game_move(a) == Some((WindowKind::Racing, GameMove::Left)) <==> a
            == WinAction::RacingLeft,
        actions::game_move(a) == Some((WindowKind::Racing, GameMove::Right)) <==> a
            == WinAction::RacingRight,
        actions::game_move(a) == Some((WindowKind::Racing, GameMove::Faster)) <==> a
            == WinAction::RacingFaster,
        actions::game_move(a) == Some((WindowKind::Racing, GameMove::Slower)) <==> a
            == WinAction::RacingSlower,
        actions::game_move(a) == Some((WindowKind::Racing, GameMove::Restart)) <==> a
            == WinAction::RacingRestart,
        actions::game_move(a) == Some((WindowKind::Invaders, GameMove::Left)) <==> a
            == WinAction::InvadersLeft,
        actions::game_move(a) == Some((WindowKind::Invaders, GameMove::Right)) <==> a
            == WinAction::InvadersRight,
        actions::game_move(a) == Some((WindowKind::Invaders, GameMove::Fire)) <==> a
            == WinAction::InvadersFire,
        actions::game_move(a) == Some((WindowKind::Invaders, GameMove::Faster)) <==> a
            == WinAction::InvadersFaster,
        actions::game_move(a) == Some((WindowKind::Invaders, GameMove::Slower)) <==> a
            == WinAction::InvadersSlower,
        actions::game_move(a) == Some((WindowKind::Invaders, GameMove::Restart)) <==> a
            == WinAction::InvadersRestart,
        actions::game_move(a) == Some((WindowKind::Abc, GameMove::Next)) <==> a
            == WinAction::AbcNext,
        a matches WinAction::AbcPick(i) ==> actions::game_move(a) == Some(
            (WindowKind::Abc, GameMove::Pick(i)),
        ),
{
}

/// Going, going back and reloading lead where the browser in front says: what
/// is typed into it, the address that was left last, and the one that is shown.
pub proof fn the_browser_goes_where_it_says(d: DesktopModel, b: state::BrowserModel)
    requires
        browser::front(d) == Some(b),
        manager::top(d.wm) == manager::last_of(d.wm, WindowKind::Browser),
    ensures
        actions::browser_acted(d, WinAction::BrowserGo).1 == Effect::Search(
            browser::address(d.wm.windows[manager::last_of(d.wm, WindowKind::Browser)]),
        ),
        actions::browser_acted(d, WinAction::BrowserHome).1 is StartPage,
{
}

// ── The terminal's commands ─────────────────────────────────────────────────

/// A terminal's line asks for what its first word says; `echo` gives back the
/// rest, and what is not known is named.
pub proof fn terminal_lines_are_read(x: Seq<char>)
    requires
        x.len() > 0,
        text::bare(x),
    ensures
        actions::asked("ls "@ + x) == Ask::List(x),
        actions::asked("cat "@ + x) == Ask::Print(x),
        actions::asked("echo "@ + x) == Ask::Say(x),
{
    reveal_strlit("echo");
    reveal_strlit("help");
    reveal_strlit("clear");
    reveal_strlit("uptime");
    reveal_strlit("mem");
    reveal_strlit("version");
    reveal_strlit("ls");
    reveal_strlit("ls ");
    reveal_strlit("cat ");
    reveal_strlit("echo ");
    whole("ls "@, x);
    whole("cat "@, x);
    whole("echo "@, x);
    assert(("ls "@ + x)[2] == ' ' && ("cat "@ + x)[3] == ' ' && ("echo "@ + x)[4] == ' ');
    assert(("cat "@ + x).take(3)[0] == 'c');
    assert(("echo "@ + x).take(3)[0] == 'e');
    assert(("echo "@ + x).take(4)[0] == 'e');
    assert("ls "@[0] == 'l' && "cat "@[0] == 'c');
    assert(("ls "@ + x).len() >= 4);
    assert(("cat "@ + x).len() >= 5);
    assert(("echo "@ + x).len() >= 6);
    assert(("ls "@ + x)[0] == 'l' && ("cat "@ + x)[0] == 'c' && ("echo "@ + x)[0] == 'e');
    assert("help"@[0] == 'h' && "clear"@[1] == 'l' && ("cat "@ + x)[1] == 'a');
    assert("uptime"@[0] == 'u' && "mem"@[0] == 'm' && "version"@[0] == 'v');
}

proof fn whole(head: Seq<char>, x: Seq<char>)
    requires
        x.len() > 0,
        text::bare(x),
        head.len() > 0,
        !text::white_space(head[0]),
    ensures
        text::trimmed(head + x) == head + x,
        text::has_prefix(head + x, head),
        (head + x).skip(head.len() as int) == x,
        text::trimmed(x) == x,
{
    let s = head + x;
    assert(s[0] == head[0]);
    assert(s[s.len() - 1] == x[x.len() - 1]);
    text::trimming_removes_the_ends(Seq::empty(), s, Seq::empty());
    assert(Seq::<char>::empty() + s + Seq::<char>::empty() =~= s);
    text::trimming_removes_the_ends(Seq::empty(), x, Seq::empty());
    assert(Seq::<char>::empty() + x + Seq::<char>::empty() =~= x);
    assert(s.take(head.len() as int) =~= head);
    assert(s.skip(head.len() as int) =~= x);
}
// ── Programs and settings ───────────────────────────────────────────────────

/// Opening a program shows a window of it in front. One that is open already
/// is brought forward, and no second one is opened.
pub proof fn programs_are_opened_once(
    d: DesktopModel,
    kind: WindowKind,
    fresh: WindowModel,
    now: u64,
    j: int,
)
    requires
        !actions::not_launched(kind),
        fresh.kind == kind,
        !fresh.minimized,
        0 <= j < d.wm.windows.len(),
    ensures
        ({
            let r = actions::raised_or_spawned(d, kind, fresh);
            let n = r.wm.windows.len() - 1;
            &&& manager::top(r.wm) == n
            &&& r.wm.windows[n].kind == kind
            &&& d.wm.windows[j].kind == kind ==> r.wm.windows.len() == d.wm.windows.len()
            &&& r.wm.windows.len() > d.wm.windows.len() ==> r.wm.windows[n] == (WindowModel {
                id: d.wm.next_id,
                ..fresh
            }) && r.wm.windows[j] == d.wm.windows[j]
            &&& !actions::is_game(kind) ==> actions::launched(d, kind, fresh, now).wm == r.wm
            &&& actions::launched(d, kind, fresh, now).wm.windows.len() == r.wm.windows.len()
        }),
{
    let i = manager::first_of(d.wm, kind);
    manager::first_where_bounds(d.wm.windows, manager::of_kind(kind));
    if d.wm.windows[j].kind == kind {
        manager::windows_are_found_by_kind(d.wm, kind, j);
    }
    if i < d.wm.windows.len() {
        let r = manager::raised(d.wm, i);
        manager::last_where_at(r.windows, manager::shown(), d.wm.windows.len() - 1);
    } else {
        manager::new_windows_are_in_front(d.wm, fresh, j);
    }
    let r = actions::raised_or_spawned(d, kind, fresh);
    manager::first_where_bounds(r.wm.windows, manager::of_kind(kind));
}

/// A setting is switched, and switched back by switching it again; the
/// other stays as it is, and the box in the window shows how it stands.
pub proof fn settings_are_switched_alone(d: DesktopModel, i: int)
    requires
        0 <= i < d.wm.windows.len(),
        d.wm.windows[i].kind == WindowKind::Settings,
        forall|j: int|
            0 <= j < d.wm.windows.len() && j != i ==> (#[trigger] d.wm.windows[j]).kind
                != WindowKind::Settings,
        d.wm.windows[i].widgets.len() > 2,
        d.wm.windows[i].widgets[1] is Checkbox,
        d.wm.windows[i].widgets[2] is Checkbox,
    ensures
        ({
            let b = actions::blink_toggled(d);
            let t = actions::theme_toggled(d);
            &&& b.cursor_blink == !d.cursor_blink && b.dark_theme == d.dark_theme
            &&& t.dark_theme == !d.dark_theme && t.cursor_blink == d.cursor_blink
            &&& actions::blink_toggled(b).cursor_blink == d.cursor_blink
            &&& actions::theme_toggled(t).dark_theme == d.dark_theme
            &&& b.wm.windows[i].widgets[1] matches Widget::Checkbox { checked, .. } && checked
                == b.cursor_blink
            &&& t.wm.windows[i].widgets[2] matches Widget::Checkbox { checked, .. } && checked
                == t.dark_theme
            &&& b.wm.windows[i].widgets[2] == d.wm.windows[i].widgets[2]
            &&& t.wm.windows[i].widgets[1] == d.wm.windows[i].widgets[1]
        }),
{
    manager::last_where_at(d.wm.windows, manager::of_kind(WindowKind::Settings), i);
}

/// The wallpaper in use is named in every window of the settings, and in no
/// other window.
pub proof fn the_wallpaper_is_named(d: DesktopModel, path: Seq<char>, i: int)
    requires
        0 <= i < d.wm.windows.len(),
        d.wm.windows[i].widgets.len() > 3,
        d.wm.windows[i].widgets[3] is Label,
    ensures
        ({
            let w = actions::wallpaper_named(d, Some(path)).wm.windows[i];
            &&& d.wm.windows[i].kind == WindowKind::Settings ==> text::has_suffix(
                w.widgets[3]->Label_text,
                path,
            )
            &&& d.wm.windows[i].kind != WindowKind::Settings ==> w == d.wm.windows[i]
        }),
{
    let l = apps::wallpaper_line(Some(path));
    assert(l.skip(l.len() - path.len()) =~= path);
    manager::labels_are_set_alone(d.wm.windows[i], 3, l, 3);
}

/// The letters game shows its three choices on its three buttons, and its
/// line below.
pub proof fn the_choices_are_shown(
    w: WindowModel,
    status: Seq<char>,
    labels: Seq<Seq<char>>,
    i: int,
)
    requires
        w.app is Abc,
        w.widgets.len() >= 6,
        labels.len() == 3,
        0 <= i < 3,
        w.widgets[2] is Label,
        w.widgets[3 + i] is Button,
    ensures
        says(actions::abc_refreshed(w, status, labels).widgets[3 + i], labels[i]),
        actions::abc_refreshed(w, status, labels).widgets[2]->Label_text == status,
        w.widgets[3 + i] matches Widget::Button { action, .. } && asks(
            actions::abc_refreshed(w, status, labels).widgets[3 + i],
            action,
        ),
{
    manager::labels_are_set_alone(w, 2, status, 3 + i);
}

/// A game that starts over keeps its playfield, and shows what its engine
/// says; a game of another kind is left alone.
pub proof fn games_start_over_on_their_playfield(w: WindowModel, g: state::Game, now: u64, line: Seq<char>)
    requires
        w.app == AppModel::Breakout(g),
        w.widgets.len() > 2,
        w.widgets[2] is Label,
    ensures
        ({
            let r = actions::game_restarted(WindowKind::Breakout, now, line)(w);
            &&& r.app matches AppModel::Breakout(h) && !h.game_over && !h.won && h.w == g.w && h.h
                == g.h && h.last_step_ticks == now
            &&& r.widgets[2]->Label_text == line
        }),
        actions::game_restarted(WindowKind::Racing, now, line)(w) == w,
        actions::game_restarted(WindowKind::Invaders, now, line)(w) == w,
{
    let v = WindowModel { app: AppModel::Breakout(actions::anew(g, now)), ..w };
    manager::labels_are_set_alone(v, 2, line, 2);
}

} // verus!
