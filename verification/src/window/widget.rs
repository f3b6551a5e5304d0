//! Widgets and what they ask for.

use vstd::prelude::*;

use crate::color::Color;

verus! {

#[derive(Debug, Copy, Clone, PartialEq, Eq, Structural)]
pub enum BtnState {
    Normal,
    Hover,
    Pressed,
}

/// File Explorer view: list rows or large icons.
#[derive(Debug, Copy, Clone, PartialEq, Eq, Structural)]
pub enum FmViewMode {
    List,
    LargeIcons,
}

/// Save As / Open file dialog mode.
#[derive(Debug, Copy, Clone, PartialEq, Eq, Structural)]
pub enum FileDialogMode {
    Save,
    Open,
}

/// Which app the Save As / Open dialog is acting on.
#[derive(Debug, Copy, Clone, PartialEq, Eq, Structural)]
pub enum FileDialogTarget {
    Notepad,
    CodeEditor,
}

#[derive(Debug, Clone, Copy, PartialEq, Eq, Structural)]
pub enum PaintTool {
    Brush,
    Eraser,
    /// Flood fill from the clicked pixel across the contiguous region of
    /// whatever colour was there.
    Fill,
}

#[derive(Debug, Clone, Copy, PartialEq, Eq, Structural)]
pub enum WinAction {
    Nothing,
    Close,
    ClearTextbox,
    RefreshFiles,
    OpenReadme,
    /// Preview selected file or open selected folder.
    FmPreview,
    FmUp,
    FmNewFolder,
    FmNewFile,
    FmDelete,
    FmOpen,
    /// Switch File Explorer to list rows.
    FmViewList,
    /// Switch File Explorer to large icons.
    FmViewIcons,
    /// Make the selected picture the desktop wallpaper.
    FmSetWallpaper,
    /// Go back to the wallpaper the OS draws itself.
    ResetWallpaper,
    TerminalRun,
    NotepadSave,
    NotepadLoad,
    NotepadClear,
    CodeNew,
    CodeOpen,
    CodeSave,
    CodeBuild,
    CodeRun,
    /// Save As dialog: confirm write.
    FileDialogSave,
    /// Open dialog: load selected file.
    FileDialogOpen,
    /// Dismiss Save As / Open dialog.
    FileDialogCancel,
    /// Navigate up one folder in the file dialog.
    FileDialogUp,
    BrowserGo,
    BrowserBack,
    BrowserHome,
    BrowserScroll(i8),
    /// Jump the page to an absolute offset; `usize::MAX` means the bottom.
    BrowserScrollTo(usize),
    /// Search for pictures matching whatever is in the address bar.
    BrowserImages,
    /// Reload the page that is on screen.
    BrowserReload,
    /// Open the picture the context menu was raised over.
    BrowserOpenImage,
    /// Save that picture to the downloads folder.
    BrowserSaveImage,
    /// Save it and make it the desktop wallpaper.
    BrowserImageWallpaper,
    /// Send the form the caret is in, which is what Enter in a field does.
    BrowserSubmit,
    PaintClear,
    /// Select palette entry `n` as the brush colour.
    PaintColor(u8),
    /// Select brush radius `n`.
    PaintBrush(u8),
    /// Select brush / eraser / fill.
    PaintTool(PaintTool),
    SnakeRestart,
    SnakeDir(i8, i8),
    BreakoutRestart,
    BreakoutLeft,
    BreakoutRight,
    BreakoutStop,
    BreakoutFaster,
    BreakoutSlower,
    AbcPick(u8),
    AbcNext,
    RacingRestart,
    RacingLeft,
    RacingRight,
    RacingFaster,
    RacingSlower,
    InvadersRestart,
    InvadersLeft,
    InvadersRight,
    InvadersFire,
    InvadersFaster,
    InvadersSlower,
    ToggleCursorBlink,
    ToggleDarkTheme,
    CalcDigit(u8),
    CalcOp(char),
    CalcEq,
    CalcClear,
    CalcSign,
    LaunchApp(u8),
    /// My Computer: open a drive in File Explorer.
    OpenDrive(u8),
    /// Open the Applications (launcher) window.
    OpenApplications,
    /// Open the My Computer window.
    OpenMyComputer,
    /// Open the permanent OS installer wizard.
    OpenInstaller,
    /// Open the web browser.
    OpenBrowser,
    /// Power off.
    Shutdown,
    InstallerNext,
    InstallerBack,
    /// Pick target disk by index in the wizard's current list.
    InstallerPick(u8),
    /// Confirm wipe (textbox must contain ERASE) and start copying.
    InstallerStart,
    InstallerReboot,
    /// An action generated by a userspace application.
    User(u64),
    ExitGui,
}

#[derive(Debug, Clone, Copy, PartialEq, Eq, Structural)]
pub enum GuiEvent {
    Nothing,
    ButtonClicked { action_id: u64 },
}

#[derive(Debug, Copy, Clone, PartialEq, Eq, Structural)]
pub enum WindowKind {
    Generic,
    Launcher,
    Calculator,
    FileManager,
    Terminal,
    Monitor,
    Notepad,
    Paint,
    Snake,
    Breakout,
    Abc,
    Racing,
    Invaders,
    ImageView,
    Settings,
    About,
    MyComputer,
    Browser,
    CodeEditor,
    /// Wipe a disk and copy this live system onto it permanently.
    Installer,
    /// Modal Save As / Open file dialog (not listed in the app launcher).
    FileDialog,
}

/// A 16×16 icon: which artwork it is, and the colour that goes with it.
#[derive(Debug, Copy, Clone, PartialEq, Eq, Structural)]
pub struct Icon {
    pub art: u16,
    pub accent: Color,
}

/// A widget. The text in it is a `String`, and a sequence of characters in
/// contracts.
pub enum Widget<T = String> {
    Label { x: usize, y: usize, text: T },
    Button {
        x: usize,
        y: usize,
        w: usize,
        h: usize,
        label: T,
        state: BtnState,
        action: WinAction,
        /// Optional icon drawn left of the label.
        icon: Option<Icon>,
    },
    TextBox { x: usize, y: usize, w: usize, h: usize, text: T },
    /// Multi-line input area — Enter inserts a newline; simple wrap-on-render.
    TextArea { x: usize, y: usize, w: usize, h: usize, text: T },
    /// Multi-line input area with a caret: click to place it, arrow keys
    /// (plus Home/End) move it, and typing/Backspace/Delete act at its
    /// position rather than always at the end of the buffer.
    CodeArea {
        x: usize,
        y: usize,
        w: usize,
        h: usize,
        text: T,
        /// Character index into `text`.
        cursor: usize,
        /// The other end of a selection, as a character index. `None` means
        /// no selection; one that equals the cursor counts as none too.
        selection: Option<usize>,
    },
    /// Read-only, wrapped, multi-line text. Never takes keyboard focus.
    OutputArea { x: usize, y: usize, w: usize, h: usize, text: T, error: bool },
    /// Drawable region — painting is owned by the window's `AppState`.
    Canvas { x: usize, y: usize, w: usize, h: usize },
    Checkbox {
        x: usize,
        y: usize,
        w: usize,
        h: usize,
        label: T,
        checked: bool,
        action: WinAction,
    },
    /// A flat colour chip that behaves like a button.
    Swatch {
        x: usize,
        y: usize,
        w: usize,
        h: usize,
        color: Color,
        selected: bool,
        action: WinAction,
    },
}

impl View for Widget {
    type V = Widget<Seq<char>>;

    open spec fn view(&self) -> Widget<Seq<char>> {
        match *self {
            Widget::Label { x, y, text } => Widget::Label { x, y, text: text@ },
            Widget::Button { x, y, w, h, label, state, action, icon } => Widget::Button {
                x,
                y,
                w,
                h,
                label: label@,
                state,
                action,
                icon,
            },
            Widget::TextBox { x, y, w, h, text } => Widget::TextBox { x, y, w, h, text: text@ },
            Widget::TextArea { x, y, w, h, text } => Widget::TextArea { x, y, w, h, text: text@ },
            Widget::CodeArea { x, y, w, h, text, cursor, selection } => Widget::CodeArea {
                x,
                y,
                w,
                h,
                text: text@,
                cursor,
                selection,
            },
            Widget::OutputArea { x, y, w, h, text, error } => Widget::OutputArea {
                x,
                y,
                w,
                h,
                text: text@,
                error,
            },
            Widget::Canvas { x, y, w, h } => Widget::Canvas { x, y, w, h },
            Widget::Checkbox { x, y, w, h, label, checked, action } => Widget::Checkbox {
                x,
                y,
                w,
                h,
                label: label@,
                checked,
                action,
            },
            Widget::Swatch { x, y, w, h, color, selected, action } => Widget::Swatch {
                x,
                y,
                w,
                h,
                color,
                selected,
                action,
            },
        }
    }
}

pub type WidgetModel = Widget<Seq<char>>;

pub open spec fn label_of(x: usize, y: usize, text: Seq<char>) -> WidgetModel {
    Widget::Label { x, y, text }
}

pub open spec fn button_of(
    x: usize,
    y: usize,
    w: usize,
    h: usize,
    label: Seq<char>,
    action: WinAction,
) -> WidgetModel {
    Widget::Button { x, y, w, h, label, state: BtnState::Normal, action, icon: None }
}

pub open spec fn icon_button_of(
    x: usize,
    y: usize,
    w: usize,
    h: usize,
    label: Seq<char>,
    action: WinAction,
    icon: Icon,
) -> WidgetModel {
    Widget::Button { x, y, w, h, label, state: BtnState::Normal, action, icon: Some(icon) }
}

pub open spec fn textbox_of(x: usize, y: usize, w: usize, h: usize, text: Seq<char>) -> WidgetModel {
    Widget::TextBox { x, y, w, h, text }
}

pub open spec fn canvas_of(x: usize, y: usize, w: usize, h: usize) -> WidgetModel {
    Widget::Canvas { x, y, w, h }
}

pub open spec fn checkbox_of(
    x: usize,
    y: usize,
    w: usize,
    h: usize,
    label: Seq<char>,
    checked: bool,
    action: WinAction,
) -> WidgetModel {
    Widget::Checkbox { x, y, w, h, label, checked, action }
}

impl Widget {
    pub fn label(x: usize, y: usize, text: &str) -> (r: Self)
        ensures
            r@ == label_of(x, y, text@),
    {
        Widget::Label { x, y, text: text.to_owned() }
    }

    pub fn button(x: usize, y: usize, w: usize, h: usize, label: &str, action: WinAction) -> (r: Self)
        ensures
            r@ == button_of(x, y, w, h, label@, action),
    {
        Widget::Button {
            x,
            y,
            w,
            h,
            label: label.to_owned(),
            state: BtnState::Normal,
            action,
            icon: None,
        }
    }

    pub fn icon_button(
        x: usize,
        y: usize,
        w: usize,
        h: usize,
        label: &str,
        action: WinAction,
        icon: Icon,
    ) -> (r: Self)
        ensures
            r@ == icon_button_of(x, y, w, h, label@, action, icon),
    {
        Widget::Button {
            x,
            y,
            w,
            h,
            label: label.to_owned(),
            state: BtnState::Normal,
            action,
            icon: Some(icon),
        }
    }

    pub fn textbox(x: usize, y: usize, w: usize, h: usize) -> (r: Self)
        ensures
            r@ == textbox_of(x, y, w, h, Seq::empty()),
    {
        Widget::TextBox { x, y, w, h, text: String::new() }
    }

    pub fn textarea(x: usize, y: usize, w: usize, h: usize) -> (r: Self)
        ensures
            r@ == (Widget::<Seq<char>>::TextArea { x, y, w, h, text: Seq::empty() }),
    {
        Widget::TextArea { x, y, w, h, text: String::new() }
    }

    pub fn code_area(x: usize, y: usize, w: usize, h: usize) -> (r: Self)
        ensures
            r@ == (Widget::<Seq<char>>::CodeArea {
                x,
                y,
                w,
                h,
                text: Seq::empty(),
                cursor: 0,
                selection: None,
            }),
    {
        Widget::CodeArea { x, y, w, h, text: String::new(), cursor: 0, selection: None }
    }

    pub fn output_area(x: usize, y: usize, w: usize, h: usize) -> (r: Self)
        ensures
            r@ == (Widget::<Seq<char>>::OutputArea { x, y, w, h, text: Seq::empty(), error: false }),
    {
        Widget::OutputArea { x, y, w, h, text: String::new(), error: false }
    }

    pub fn canvas(x: usize, y: usize, w: usize, h: usize) -> (r: Self)
        ensures
            r@ == canvas_of(x, y, w, h),
    {
        Widget::Canvas { x, y, w, h }
    }

    pub fn swatch(x: usize, y: usize, w: usize, h: usize, color: Color, action: WinAction) -> (r: Self)
        ensures
            r@ == (Widget::<Seq<char>>::Swatch { x, y, w, h, color, selected: false, action }),
    {
        Widget::Swatch { x, y, w, h, color, selected: false, action }
    }

    pub fn checkbox(
        x: usize,
        y: usize,
        w: usize,
        h: usize,
        label: &str,
        checked: bool,
        action: WinAction,
    ) -> (r: Self)
        ensures
            r@ == checkbox_of(x, y, w, h, label@, checked, action),
    {
        Widget::Checkbox { x, y, w, h, label: label.to_owned(), checked, action }
    }

    /// The rectangle that takes clicks; a label takes none.
    pub fn bounds(&self) -> (r: Option<(usize, usize, usize, usize)>)
        ensures
            r == bounds_of(self@),
    {
        match self {
            Widget::Label { .. } => None,
            Widget::Button { x, y, w, h, .. } => Some((*x, *y, *w, *h)),
            Widget::TextBox { x, y, w, h, .. } => Some((*x, *y, *w, *h)),
            Widget::TextArea { x, y, w, h, .. } => Some((*x, *y, *w, *h)),
            Widget::CodeArea { x, y, w, h, .. } => Some((*x, *y, *w, *h)),
            Widget::OutputArea { x, y, w, h, .. } => Some((*x, *y, *w, *h)),
            Widget::Canvas { x, y, w, h } => Some((*x, *y, *w, *h)),
            Widget::Checkbox { x, y, w, h, .. } => Some((*x, *y, *w, *h)),
            Widget::Swatch { x, y, w, h, .. } => Some((*x, *y, *w, *h)),
        }
    }
}

pub open spec fn bounds_of(wgt: WidgetModel) -> Option<(usize, usize, usize, usize)> {
    match wgt {
        Widget::Label { .. } => None,
        Widget::Button { x, y, w, h, .. } => Some((x, y, w, h)),
        Widget::TextBox { x, y, w, h, .. } => Some((x, y, w, h)),
        Widget::TextArea { x, y, w, h, .. } => Some((x, y, w, h)),
        Widget::CodeArea { x, y, w, h, .. } => Some((x, y, w, h)),
        Widget::OutputArea { x, y, w, h, .. } => Some((x, y, w, h)),
        Widget::Canvas { x, y, w, h } => Some((x, y, w, h)),
        Widget::Checkbox { x, y, w, h, .. } => Some((x, y, w, h)),
        Widget::Swatch { x, y, w, h, .. } => Some((x, y, w, h)),
    }
}

/// Whether a point of the window's content lies on a widget. Positions are
/// taken as 32-bit numbers, as the screen's are.
pub open spec fn covers(wgt: WidgetModel, lx: int, ly: int) -> bool {
    bounds_of(wgt) matches Some((x, y, w, h)) && (x as i32) <= lx && lx < (x.wrapping_add(w) as i32)
        && (y as i32) <= ly && ly < (y.wrapping_add(h) as i32)
}

/// The text a widget shows or holds.
pub open spec fn with_text(wgt: WidgetModel, t: Seq<char>) -> WidgetModel {
    match wgt {
        Widget::Label { x, y, .. } => Widget::Label { x, y, text: t },
        Widget::Button { x, y, w, h, state, action, icon, .. } => Widget::Button {
            x,
            y,
            w,
            h,
            label: t,
            state,
            action,
            icon,
        },
        Widget::TextBox { x, y, w, h, .. } => Widget::TextBox { x, y, w, h, text: t },
        Widget::TextArea { x, y, w, h, .. } => Widget::TextArea { x, y, w, h, text: t },
        other => other,
    }
}

pub open spec fn with_button_state(wgt: WidgetModel, s: BtnState) -> WidgetModel {
    match wgt {
        Widget::Button { x, y, w, h, label, action, icon, .. } => Widget::Button {
            x,
            y,
            w,
            h,
            label,
            state: s,
            action,
            icon,
        },
        other => other,
    }
}

pub open spec fn widgets_view(v: Seq<Widget>) -> Seq<WidgetModel> {
    v.map_values(|w: Widget| w@)
}

/// A new text changes nothing of a widget but its text: it stays where it was,
/// as large, and does what it did.
pub proof fn texts_change_alone(wgt: WidgetModel, t: Seq<char>, lx: int, ly: int)
    ensures
        bounds_of(with_text(wgt, t)) == bounds_of(wgt),
        covers(with_text(wgt, t), lx, ly) == covers(wgt, lx, ly),
        wgt matches Widget::Label { x, y, text } ==> with_text(wgt, t) == (Widget::Label {
            x,
            y,
            text: t,
        }),
        wgt is Button ==> with_text(wgt, t)->Button_label == t && with_text(wgt, t)->Button_action
            == wgt->Button_action && with_text(wgt, t)->Button_state == wgt->Button_state,
        wgt is TextBox ==> with_text(wgt, t)->TextBox_text == t,
        wgt is TextArea ==> with_text(wgt, t)->TextArea_text == t,
        with_text(with_text(wgt, t), t) == with_text(wgt, t),
{
}

/// How a button is drawn does not change where it is nor what it does.
pub proof fn button_states_change_alone(wgt: WidgetModel, s: BtnState, lx: int, ly: int)
    ensures
        bounds_of(with_button_state(wgt, s)) == bounds_of(wgt),
        covers(with_button_state(wgt, s), lx, ly) == covers(wgt, lx, ly),
        wgt is Button ==> with_button_state(wgt, s)->Button_state == s && with_button_state(
            wgt,
            s,
        )->Button_action == wgt->Button_action && with_button_state(wgt, s)->Button_label
            == wgt->Button_label,
        !(wgt is Button) ==> with_button_state(wgt, s) == wgt,
{
}

/// A point is on a widget when it is within its four edges, the upper and the
/// left one included; a label is never clicked.
pub proof fn edges_bound_the_widget(wgt: WidgetModel, lx: int, ly: int)
    requires
        bounds_of(wgt) matches Some((x, y, w, h)) ==> x + w <= i32::MAX && y + h <= i32::MAX,
    ensures
        covers(wgt, lx, ly) <==> (match bounds_of(wgt) {
            Some((x, y, w, h)) => x <= lx < x + w && y <= ly < y + h,
            None => false,
        }),
        bounds_of(wgt) is None <==> wgt is Label,
{
}

} // verus!
