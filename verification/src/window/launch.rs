//! Which window each of the desktop's own programs opens with.

use vstd::prelude::*;

use crate::text;
use crate::window::actions;
use crate::window::apps;
use crate::window::installer;
use crate::window::manager::{Desktop, DesktopModel};
use crate::window::state;
use crate::window::state::{Disk, Window, WindowModel, SPAN};
use crate::window::widget::{Icon, WindowKind};

verus! {

/// What the windows show of the rest of the system.
pub struct Facts {
    pub ticks: u64,
    pub heap_used: u64,
    pub heap_size: u64,
    /// The smallest playfields of the games.
    pub breakout: (usize, usize),
    pub racing: (usize, usize),
    pub invaders: (usize, usize),
    /// The letters' canvas, the three choices and the line below them.
    pub abc: (usize, usize),
    pub abc_choices: (String, String, String),
    pub abc_status: String,
    /// The size of the picture that the viewer has, if any.
    pub photo: Option<(usize, usize)>,
    pub wallpaper: Option<String>,
    pub version: String,
    /// The browser's start page.
    pub home: String,
    /// The programs of the launcher.
    pub names: Vec<String>,
    pub icons: Vec<Icon>,
    /// The disk that the system runs from, and the others.
    pub source: Disk,
    pub targets: Vec<Disk>,
}

/// Whether a game or the launcher can be laid out on a screen. Any other
/// program opens on every screen.
pub open spec fn fits(kind: WindowKind, f: Facts, screen: (usize, usize)) -> bool {
    &&& kind == WindowKind::Breakout ==> f.breakout.0 + 80 <= screen.0 && f.breakout.1 + 220
        <= screen.1
    &&& kind == WindowKind::Invaders ==> f.invaders.0 + 80 <= screen.0 && f.invaders.1 + 230
        <= screen.1
    &&& kind == WindowKind::Abc ==> f.abc.0 + 24 <= SPAN && f.abc.1 + 180 <= SPAN
    &&& kind == WindowKind::Launcher ==> f.names@.len() == f.icons@.len() <= 0x1_0000
}

/// A new window of a program; none for those that other actions open.
pub open spec fn first_window(d: DesktopModel, kind: WindowKind, f: Facts) -> Option<WindowModel> {
    match kind {
        WindowKind::Calculator => Some(apps::calculator_window()),
        WindowKind::FileManager => Some(apps::file_manager_window(d.fm_path)),
        WindowKind::Terminal => Some(apps::terminal_window()),
        WindowKind::Monitor => Some(apps::monitor_window(f.ticks, f.heap_used, f.heap_size)),
        WindowKind::Notepad => Some(apps::notepad_window(d.notepad_scratch, d.notepad_path)),
        WindowKind::CodeEditor => Some(apps::code_editor_window(d.code_scratch, d.code_path)),
        WindowKind::Paint => Some(apps::paint_window()),
        WindowKind::Browser => Some(apps::browser_window(f.home@)),
        WindowKind::Snake => Some(apps::snake_window()),
        WindowKind::Breakout => Some(apps::breakout_window(d.screen, f.breakout)),
        WindowKind::Abc => Some(
            apps::abc_window(
                f.abc,
                f.abc_choices.0@,
                f.abc_choices.1@,
                f.abc_choices.2@,
                f.abc_status@,
            ),
        ),
        WindowKind::Racing => Some(apps::racing_window(d.screen, f.racing)),
        WindowKind::Invaders => Some(apps::invaders_window(d.screen, f.invaders)),
        WindowKind::ImageView => Some(apps::image_view_window(f.photo)),
        WindowKind::Settings => Some(
            apps::settings_window(d.cursor_blink, d.dark_theme, state::footer_view(f.wallpaper)),
        ),
        WindowKind::About => Some(apps::about_window(f.version@)),
        WindowKind::Installer => Some(
            installer::installer_window(f.source@, state::disks_view(f.targets@)),
        ),
        WindowKind::Launcher => Some(apps::launcher_window(text::strings(f.names@), f.icons@)),
        WindowKind::FileDialog | WindowKind::Generic | WindowKind::MyComputer => None,
    }
}

/// A new window of a program; none for those that other actions open.
pub fn window_for(desk: &Desktop, kind: WindowKind, f: Facts) -> (r: Option<Window>)
    requires
        desk@.wf(),
        fits(kind, f, desk.screen),
    ensures
        r is None <==> actions::not_launched(kind),
        match r {
            Some(w) => {
                &&& first_window(desk@, kind, f) == Some(w@)
                &&& w@.kind == kind
                &&& !w@.minimized
                &&& w@.wf()
            },
            None => first_window(desk@, kind, f) is None,
        },
{
    match kind {
        WindowKind::Calculator => Some(apps::create_calculator_window()),
        WindowKind::FileManager => Some(apps::create_file_manager_window(desk.fm_path.as_str())),
        WindowKind::Terminal => Some(apps::create_terminal_window()),
        WindowKind::Monitor => Some(
            apps::create_monitor_window(f.ticks, f.heap_used, f.heap_size),
        ),
        WindowKind::Notepad => Some(
            apps::create_notepad_window(desk.notepad_scratch.as_str(), desk.notepad_path.as_str()),
        ),
        WindowKind::CodeEditor => Some(
            apps::create_code_editor_window(desk.code_scratch.as_str(), desk.code_path.as_str()),
        ),
        WindowKind::Paint => Some(apps::create_paint_window()),
        WindowKind::Browser => Some(apps::create_browser_window(f.home.as_str())),
        WindowKind::Snake => Some(apps::create_snake_window()),
        WindowKind::Breakout => Some(apps::create_breakout_window(desk.screen, f.breakout)),
        WindowKind::Abc => Some(
            apps::create_abc_window(
                f.abc,
                f.abc_choices.0.as_str(),
                f.abc_choices.1.as_str(),
                f.abc_choices.2.as_str(),
                f.abc_status.as_str(),
            ),
        ),
        WindowKind::Racing => Some(apps::create_racing_window(desk.screen, f.racing)),
        WindowKind::Invaders => Some(apps::create_invaders_window(desk.screen, f.invaders)),
        WindowKind::ImageView => Some(apps::create_image_view_window(f.photo)),
        WindowKind::Settings => Some(
            apps::create_settings_window(desk.cursor_blink, desk.dark_theme, &f.wallpaper),
        ),
        WindowKind::About => Some(apps::create_about_window(f.version.as_str())),
        WindowKind::Installer => Some(installer::create_installer_window(f.source, f.targets)),
        WindowKind::Launcher => Some(apps::create_launcher_window(&f.names, &f.icons)),
        WindowKind::FileDialog | WindowKind::Generic | WindowKind::MyComputer => None,
    }
}

} // verus!
