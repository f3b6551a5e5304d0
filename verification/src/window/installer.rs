//! The wizard that copies a live system onto a disk for good.

use vstd::prelude::*;
use vstd::string::*;

use crate::text;
use crate::window::draw::{plus, times};
use crate::window::state;
use crate::window::state::{
    AppModel, AppState, Disk, Installer, InstallerModel, Window, WindowModel,
};
use crate::window::widget;
use crate::window::widget::{WinAction, Widget, WindowKind};

verus! {

// ── Widgets ─────────────────────────────────────────────────────────────────

pub open spec fn source_line(label: Seq<char>) -> Seq<char> {
    "Source: "@ + label
}

/// A target's button, marked if it is the one chosen.
pub open spec fn target_label(d: Disk<Seq<char>>, chosen: bool) -> Seq<char> {
    (if chosen {
        "[*] "@
    } else {
        "[ ] "@
    }) + d.label
}

pub open spec fn target_button(s: InstallerModel, i: int) -> Widget<Seq<char>> {
    widget::button_of(
        16,
        plus(128, times(i as usize, 40)),
        480,
        32,
        target_label(s.targets[i], s.selected == Some(i as usize)),
        WinAction::InstallerPick(i as u8),
    )
}

pub open spec fn target_buttons(s: InstallerModel) -> Seq<Widget<Seq<char>>> {
    Seq::new(s.targets.len(), |i: int| target_button(s, i))
}

/// What is about to be erased.
pub open spec fn doomed(s: InstallerModel) -> Seq<char> {
    match s.selected {
        Some(i) if i < s.targets.len() => s.targets[i as int].label,
        _ => "(none)"@,
    }
}

pub open spec fn heading(s: InstallerModel) -> Seq<Widget<Seq<char>>> {
    seq![
        widget::label_of(16, 12, "Install OS101 permanently"@),
        widget::label_of(16, 36, source_line(s.source.label)),
        widget::label_of(16, 60, s.status),
    ]
}

pub open spec fn welcome_page() -> Seq<Widget<Seq<char>>> {
    seq![
        widget::label_of(
            16,
            100,
            "Booted from this install medium. Next: pick the disk to erase."@,
        ),
        widget::label_of(
            16,
            124,
            "Supports ATA/IDE disks and UHCI USB sticks (not NVMe/AHCI yet)."@,
        ),
        widget::button_of(16, 200, 120, 36, "Next"@, WinAction::InstallerNext),
        widget::button_of(148, 200, 100, 36, "Close"@, WinAction::Close),
    ]
}

pub open spec fn target_page(s: InstallerModel) -> Seq<Widget<Seq<char>>> {
    seq![widget::label_of(16, 96, "Choose the target disk (will be wiped):"@)] + (if s.targets.len()
        == 0 {
        seq![
            widget::label_of(
                16,
                128,
                "No eligible target. Add another disk and reopen Installer."@,
            ),
        ]
    } else {
        target_buttons(s)
    }) + seq![
        widget::button_of(16, 340, 100, 36, "Back"@, WinAction::InstallerBack),
        widget::button_of(128, 340, 120, 36, "Next"@, WinAction::InstallerNext),
    ]
}

pub open spec fn confirm_page(s: InstallerModel) -> Seq<Widget<Seq<char>>> {
    seq![
        widget::label_of(16, 96, "About to ERASE: "@ + doomed(s)),
        widget::label_of(16, 120, "Type ERASE below, then click Install."@),
        widget::textbox_of(16, 156, 200, 28, Seq::empty()),
        widget::button_of(16, 220, 100, 36, "Back"@, WinAction::InstallerBack),
        widget::button_of(128, 220, 140, 36, "Install"@, WinAction::InstallerStart),
    ]
}

pub open spec fn done_page() -> Seq<Widget<Seq<char>>> {
    seq![
        widget::label_of(
            16,
            120,
            "You can remove the install USB and reboot from the target disk."@,
        ),
        widget::button_of(16, 200, 140, 36, "Reboot"@, WinAction::InstallerReboot),
        widget::button_of(168, 200, 100, 36, "Close"@, WinAction::Close),
    ]
}

pub open spec fn page(s: InstallerModel) -> Seq<Widget<Seq<char>>> {
    if s.step == 0 {
        welcome_page()
    } else if s.step == 1 {
        target_page(s)
    } else if s.step == 2 {
        confirm_page(s)
    } else {
        done_page()
    }
}

/// The window rebuilt for its step; the confirmation box gets the focus.
pub open spec fn rebuilt(w: WindowModel) -> WindowModel {
    match w.app {
        AppModel::Installer(s) => {
            let w1 = WindowModel { widgets: heading(s) + page(s), ..w };
            if s.step == 2 {
                WindowModel { focused_widget: Some(5), replace_on_type: true, ..w1 }
            } else {
                w1
            }
        },
        _ => w,
    }
}

fn build_heading(s: &Installer) -> (r: Vec<Widget>)
    ensures
        widget::widgets_view(r@) == heading(s@),
{
    let mut v: Vec<Widget> = Vec::new();
    v.push(Widget::label(16, 12, "Install OS101 permanently"));
    let mut line = "Source: ".to_owned();
    line.append(s.source.label.as_str());
    v.push(Widget::label(16, 36, line.as_str()));
    v.push(Widget::label(16, 60, s.status.as_str()));
    assert(widget::widgets_view(v@) =~= heading(s@));
    v
}

fn build_welcome(v: &mut Vec<Widget>)
    ensures
        widget::widgets_view(final(v)@) == widget::widgets_view(old(v)@) + welcome_page(),
{
    v.push(
        Widget::label(16, 100, "Booted from this install medium. Next: pick the disk to erase."),
    );
    v.push(
        Widget::label(16, 124, "Supports ATA/IDE disks and UHCI USB sticks (not NVMe/AHCI yet)."),
    );
    v.push(Widget::button(16, 200, 120, 36, "Next", WinAction::InstallerNext));
    v.push(Widget::button(148, 200, 100, 36, "Close", WinAction::Close));
    assert(widget::widgets_view(v@) =~= widget::widgets_view(old(v)@) + welcome_page());
}

#[verifier::rlimit(60)]
fn build_targets(v: &mut Vec<Widget>, s: &Installer)
    ensures
        widget::widgets_view(final(v)@) == widget::widgets_view(old(v)@) + target_page(s@),
{
    let ghost base = widget::widgets_view(v@);
    let ghost m = s@;
    v.push(Widget::label(16, 96, "Choose the target disk (will be wiped):"));
    let ghost head = seq![widget::label_of(16, 96, "Choose the target disk (will be wiped):"@)];
    assert(widget::widgets_view(v@) =~= base + head);
    if s.targets.len() == 0 {
        v.push(Widget::label(16, 128, "No eligible target. Add another disk and reopen Installer."));
    } else {
        let mut i: usize = 0;
        assert(widget::widgets_view(v@) =~= base + head + target_buttons(m).take(0));
        while i < s.targets.len()
            invariant
                i <= s.targets@.len(),
                m == s@,
                widget::widgets_view(v@) == base + head + target_buttons(m).take(i as int),
            decreases s.targets@.len() - i,
        {
            let ghost before = widget::widgets_view(v@);
            let chosen = match s.selected {
                Some(k) => k == i,
                None => false,
            };
            let mut label = if chosen {
                "[*] ".to_owned()
            } else {
                "[ ] ".to_owned()
            };
            label.append(s.targets[i].label.as_str());
            let b = Widget::button(
                16,
                plus(128, times(i, 40)),
                480,
                32,
                label.as_str(),
                WinAction::InstallerPick(i as u8),
            );
            v.push(b);
            proof {
                assert(m.targets[i as int] == s.targets@[i as int]@);
                assert(b@ == target_button(m, i as int));
                assert(widget::widgets_view(v@) =~= before.push(b@));
                assert(target_buttons(m).take(i + 1) =~= target_buttons(m).take(i as int).push(b@));
            }
            i = i + 1;
        }
        assert(target_buttons(m).take(i as int) =~= target_buttons(m));
    }
    let ghost mid = if m.targets.len() == 0 {
        seq![
            widget::label_of(
                16,
                128,
                "No eligible target. Add another disk and reopen Installer."@,
            ),
        ]
    } else {
        target_buttons(m)
    };
    assert(widget::widgets_view(v@) =~= base + head + mid);
    let ghost before = widget::widgets_view(v@);
    let back = Widget::button(16, 340, 100, 36, "Back", WinAction::InstallerBack);
    let next = Widget::button(128, 340, 120, 36, "Next", WinAction::InstallerNext);
    v.push(back);
    v.push(next);
    proof {
        let tail = seq![back@, next@];
        assert(widget::widgets_view(v@) =~= before + tail);
        assert(target_page(m) == head + mid + tail);
        assert(base + head + mid + tail =~= base + (head + mid + tail));
    }
}

fn build_confirm(v: &mut Vec<Widget>, s: &Installer)
    ensures
        widget::widgets_view(final(v)@) == widget::widgets_view(old(v)@) + confirm_page(s@),
{
    let mut line = "About to ERASE: ".to_owned();
    match s.selected {
        Some(i) => {
            if i < s.targets.len() {
                assert(s@.targets[i as int] == s.targets@[i as int]@);
                line.append(s.targets[i].label.as_str());
            } else {
                line.append("(none)");
            }
        },
        None => {
            line.append("(none)");
        },
    }
    v.push(Widget::label(16, 96, line.as_str()));
    v.push(Widget::label(16, 120, "Type ERASE below, then click Install."));
    v.push(Widget::textbox(16, 156, 200, 28));
    v.push(Widget::button(16, 220, 100, 36, "Back", WinAction::InstallerBack));
    v.push(Widget::button(128, 220, 140, 36, "Install", WinAction::InstallerStart));
    assert(widget::widgets_view(v@) =~= widget::widgets_view(old(v)@) + confirm_page(s@));
}

fn build_done(v: &mut Vec<Widget>)
    ensures
        widget::widgets_view(final(v)@) == widget::widgets_view(old(v)@) + done_page(),
{
    v.push(
        Widget::label(16, 120, "You can remove the install USB and reboot from the target disk."),
    );
    v.push(Widget::button(16, 200, 140, 36, "Reboot", WinAction::InstallerReboot));
    v.push(Widget::button(168, 200, 100, 36, "Close", WinAction::Close));
    assert(widget::widgets_view(v@) =~= widget::widgets_view(old(v)@) + done_page());
}

pub fn rebuild_installer_widgets(win: &mut Window)
    ensures
        final(win)@ == rebuilt(old(win)@),
        old(win)@.wf() ==> final(win)@.wf(),
{
    let (widgets, step) = match &win.app {
        AppState::Installer(s) => {
            let mut v = build_heading(s);
            match s.step {
                0 => build_welcome(&mut v),
                1 => build_targets(&mut v, s),
                2 => build_confirm(&mut v, s),
                _ => build_done(&mut v),
            }
            (v, s.step)
        },
        _ => {
            return;
        },
    };
    win.widgets = widgets;
    if step == 2 {
        win.focused_widget = Some(5);
        win.replace_on_type = true;
    }
}

// ── Opening it ──────────────────────────────────────────────────────────────

pub open spec fn first_step(source: Disk<Seq<char>>, targets: Seq<Disk<Seq<char>>>) -> InstallerModel {
    InstallerModel {
        step: 0,
        source,
        targets,
        selected: None,
        status: if targets.len() == 0 {
            "No other disk found. Attach a second IDE disk or USB stick."@
        } else {
            "This live USB/ISO can install OS101 onto another disk permanently."@
        },
    }
}

pub open spec fn installer_window(source: Disk<Seq<char>>, targets: Seq<Disk<Seq<char>>>) -> WindowModel {
    rebuilt(
        WindowModel {
            kind: WindowKind::Installer,
            app: AppModel::Installer(first_step(source, targets)),
            footer: Some(
                "Copies this system onto the chosen disk. Existing data is erased."@,
            ),
            ..state::fresh_window(200, 60, 560, 420, "Install OS101"@)
        },
    )
}

/// The wizard's first page, for the disk the system runs from and the disks
/// it could be copied to.
pub fn create_installer_window(source: Disk, targets: Vec<Disk>) -> (r: Window)
    ensures
        r@ == installer_window(source@, state::disks_view(targets@)),
        r@.wf(),
{
    let status = if targets.len() == 0 {
        "No other disk found. Attach a second IDE disk or USB stick.".to_owned()
    } else {
        "This live USB/ISO can install OS101 onto another disk permanently.".to_owned()
    };
    let mut w = Window::new(200, 60, 560, 420, "Install OS101").with_kind(
        WindowKind::Installer,
    ).with_app(
        AppState::Installer(Installer { step: 0, source, targets, selected: None, status }),
    ).with_footer("Copies this system onto the chosen disk. Existing data is erased.");
    rebuild_installer_widgets(&mut w);
    w
}

// ── Steps ───────────────────────────────────────────────────────────────────

/// The Next button: from the welcome to the choice of a disk, and with one
/// chosen to the confirmation.
pub open spec fn forward(s: InstallerModel) -> InstallerModel {
    if s.step == 0 {
        InstallerModel { step: 1, status: "Select a target disk, then click Next."@, ..s }
    } else if s.step == 1 {
        if s.selected is None || s.targets.len() == 0 {
            InstallerModel { status: "Pick a target disk first."@, ..s }
        } else {
            InstallerModel { step: 2, status: "Type ERASE to confirm the wipe."@, ..s }
        }
    } else {
        s
    }
}

pub open spec fn stepped(w: WindowModel, s: InstallerModel) -> WindowModel {
    rebuilt(WindowModel { app: AppModel::Installer(s), ..w })
}

pub fn installer_next(win: &mut Window)
    requires
        old(win)@.wf(),
    ensures
        final(win)@ == (match old(win)@.app {
            AppModel::Installer(s) => stepped(old(win)@, forward(s)),
            _ => old(win)@,
        }),
        final(win)@.wf(),
{
    match &mut win.app {
        AppState::Installer(s) => match s.step {
            0 => {
                s.step = 1;
                s.status = "Select a target disk, then click Next.".to_owned();
            },
            1 => {
                if s.selected.is_none() || s.targets.len() == 0 {
                    s.status = "Pick a target disk first.".to_owned();
                } else {
                    s.step = 2;
                    s.status = "Type ERASE to confirm the wipe.".to_owned();
                }
            },
            _ => {},
        },
        _ => {
            return;
        },
    }
    rebuild_installer_widgets(win);
}

pub fn installer_back(win: &mut Window)
    requires
        old(win)@.wf(),
    ensures
        final(win)@ == (match old(win)@.app {
            AppModel::Installer(s) if 0 < s.step < 3 => stepped(
                old(win)@,
                InstallerModel {
                    step: (s.step - 1) as u8,
                    status: "Choose carefully — install erases the target disk."@,
                    ..s
                },
            ),
            _ => old(win)@,
        }),
        final(win)@.wf(),
{
    match &mut win.app {
        AppState::Installer(s) => {
            if !(s.step > 0 && s.step < 3) {
                return;
            }
            s.step = s.step - 1;
            s.status = "Choose carefully — install erases the target disk.".to_owned();
        },
        _ => {
            return;
        },
    }
    rebuild_installer_widgets(win);
}

pub fn installer_pick(win: &mut Window, i: u8)
    requires
        old(win)@.wf(),
    ensures
        final(win)@ == (match old(win)@.app {
            AppModel::Installer(s) if i < s.targets.len() => stepped(
                old(win)@,
                InstallerModel {
                    selected: Some(i as usize),
                    status: "Selected: "@ + s.targets[i as int].label,
                    ..s
                },
            ),
            _ => old(win)@,
        }),
        final(win)@.wf(),
{
    match &mut win.app {
        AppState::Installer(s) => {
            let k: usize = i as usize;
            if k >= s.targets.len() {
                return;
            }
            let mut line = "Selected: ".to_owned();
            line.append(s.targets[k].label.as_str());
            s.selected = Some(k);
            s.status = line;
        },
        _ => {
            return;
        },
    }
    rebuild_installer_widgets(win);
}

/// The window with another status line, without rebuilding it.
pub open spec fn with_status(w: WindowModel, t: Seq<char>) -> WindowModel {
    let app = match w.app {
        AppModel::Installer(s) => AppModel::Installer(InstallerModel { status: t, ..s }),
        other => other,
    };
    let widgets = if w.widgets.len() > 2 && w.widgets[2] is Label {
        w.widgets.update(2, widget::with_text(w.widgets[2], t))
    } else {
        w.widgets
    };
    WindowModel { app, widgets, ..w }
}

pub fn installer_set_status(win: &mut Window, t: &str)
    ensures
        final(win)@ == with_status(old(win)@, t@),
        old(win)@.wf() ==> final(win)@.wf(),
{
    match &mut win.app {
        AppState::Installer(s) => {
            s.status = t.to_owned();
        },
        _ => {},
    }
    if win.widgets.len() > 2 {
        if let Widget::Label { text, .. } = &mut win.widgets[2] {
            *text = t.to_owned();
        }
    }
    assert(win@.widgets =~= with_status(old(win)@, t@).widgets);
}

/// The text of the first text box from the `i`-th widget on, or none.
pub open spec fn typed_from(ws: Seq<Widget<Seq<char>>>, i: int) -> Seq<char>
    decreases ws.len() - i,
{
    if i >= ws.len() {
        Seq::empty()
    } else {
        match ws[i] {
            Widget::TextBox { text, .. } => text,
            _ => typed_from(ws, i + 1),
        }
    }
}

fn typed(win: &Window) -> (r: String)
    ensures
        r@ == typed_from(win@.widgets, 0),
{
    let mut i: usize = 0;
    while i < win.widgets.len()
        invariant
            i <= win.widgets@.len(),
            typed_from(win@.widgets, 0) == typed_from(win@.widgets, i as int),
        decreases win.widgets@.len() - i,
    {
        assert(win@.widgets[i as int] == win.widgets@[i as int]@);
        match &win.widgets[i] {
            Widget::TextBox { text, .. } => {
                return text.as_str().to_owned();
            },
            _ => {},
        }
        i = i + 1;
    }
    String::new()
}

/// What the Install button comes to.
#[derive(Debug, Clone, Copy, PartialEq, Eq, Structural)]
pub enum Start {
    /// The disks to copy from and to.
    Copy { source: u8, target: u8 },
    /// Something is missing, and the status line says what.
    Refused,
    /// There is nothing to do.
    Ignored,
}

/// The Install button. Nothing is copied unless the word was typed and a
/// disk was chosen.
pub open spec fn started(w: WindowModel) -> (WindowModel, Start) {
    if text::trimmed(typed_from(w.widgets, 0)) != "ERASE"@ {
        (with_status(w, "Type ERASE (all caps) in the box first."@), Start::Refused)
    } else {
        match w.app {
            AppModel::Installer(s) => match s.selected {
                None => (with_status(w, "No target selected."@), Start::Refused),
                Some(i) => if i < s.targets.len() {
                    (
                        rebuilt(with_status(w, "Installing… do not power off."@)),
                        Start::Copy { source: s.source.id, target: s.targets[i as int].id },
                    )
                } else {
                    (w, Start::Ignored)
                },
            },
            _ => (w, Start::Ignored),
        }
    }
}

pub fn installer_start(win: &mut Window) -> (r: Start)
    requires
        old(win)@.wf(),
    ensures
        (final(win)@, r) == started(old(win)@),
        final(win)@.wf(),
{
    let word = typed(win);
    let word = text::trim(word.as_str());
    if !text::same(word.as_str(), "ERASE") {
        installer_set_status(win, "Type ERASE (all caps) in the box first.");
        return Start::Refused;
    }
    let (source, target) = match &win.app {
        AppState::Installer(s) => match s.selected {
            None => (s.source.id, None),
            Some(i) => {
                if i >= s.targets.len() {
                    return Start::Ignored;
                }
                assert(s@.targets[i as int] == s.targets@[i as int]@);
                (s.source.id, Some(s.targets[i].id))
            },
        },
        _ => {
            return Start::Ignored;
        },
    };
    match target {
        None => {
            installer_set_status(win, "No target selected.");
            Start::Refused
        },
        Some(target) => {
            installer_set_status(win, "Installing… do not power off.");
            rebuild_installer_widgets(win);
            Start::Copy { source, target }
        },
    }
}

/// What became of a copy: nothing to complain about, or why it failed.
pub open spec fn outcome_line(failure: Option<Seq<char>>) -> Seq<char> {
    match failure {
        None => "Install finished. Remove the USB/ISO and reboot from the target disk."@,
        Some(e) => "Install failed: "@ + e,
    }
}

pub fn installer_finished(win: &mut Window, failure: &Option<String>)
    requires
        old(win)@.wf(),
    ensures
        final(win)@ == (match old(win)@.app {
            AppModel::Installer(s) => stepped(
                old(win)@,
                InstallerModel {
                    step: 3,
                    status: outcome_line(state::footer_view(*failure)),
                    ..s
                },
            ),
            _ => old(win)@,
        }),
        final(win)@.wf(),
{
    match &mut win.app {
        AppState::Installer(s) => {
            s.step = 3;
            s.status = match failure {
                None => "Install finished. Remove the USB/ISO and reboot from the target disk.".to_owned(),
                Some(e) => {
                    let mut line = "Install failed: ".to_owned();
                    line.append(e.as_str());
                    line
                },
            };
        },
        _ => {
            return;
        },
    }
    rebuild_installer_widgets(win);
}

// ── Progress ────────────────────────────────────────────────────────────────

/// How much is done, in percent; nothing to do is all done.
pub open spec fn percent_done(done: u32, total: u32) -> int {
    if total == 0 {
        100
    } else {
        done as int * 100 / total as int
    }
}

/// Every second percent is shown, and the end.
pub open spec fn worth_showing(done: u32, total: u32) -> bool {
    (percent_done(done, total) as u32) % 2 == 0 || done == total
}

pub open spec fn progress_line(done: u32, total: u32) -> Seq<char> {
    "Installing… "@ + text::decimal((percent_done(done, total) as u32) as nat) + "% ("@
        + text::decimal(done as nat) + " / "@ + text::decimal(total as nat) + " sectors)"@
}

/// What to show of a copy in progress, if anything.
pub fn installer_progress(done: u32, total: u32) -> (r: Option<String>)
    ensures
        match r {
            Some(s) => worth_showing(done, total) && s@ == progress_line(done, total),
            None => !worth_showing(done, total),
        },
{
    let pct: u32 = if total == 0 {
        100
    } else {
        let p: u64 = done as u64 * 100 / total as u64;
        p as u32
    };
    if pct % 2 != 0 && done != total {
        return None;
    }
    let mut s = "Installing… ".to_owned();
    text::push_decimal(&mut s, pct as u64);
    s.append("% (");
    text::push_decimal(&mut s, done as u64);
    s.append(" / ");
    text::push_decimal(&mut s, total as u64);
    s.append(" sectors)");
    assert(s@ =~= progress_line(done, total));
    Some(s)
}

// ── Laws ────────────────────────────────────────────────────────────────────

/// No disk is written to unless the word ERASE stands in the box, and then
/// only the one that was chosen.
pub proof fn nothing_is_erased_unasked(w: WindowModel)
    requires
        started(w).1 is Copy,
    ensures
        text::trimmed(typed_from(w.widgets, 0)) == "ERASE"@,
        w.app matches AppModel::Installer(s) && s.selected is Some && s.selected->0
            < s.targets.len() && started(w).1->target == s.targets[s.selected->0 as int].id
            && started(w).1->source == s.source.id,
{
}

/// The confirmation page is only reached with a disk chosen.
pub proof fn confirmation_needs_a_disk(s: InstallerModel)
    requires
        s.step <= 1,
        forward(s).step == 2,
    ensures
        s.selected is Some,
        s.targets.len() > 0,
{
}

/// A copy that goes from nothing to all of it stays between 0 and 100.
pub proof fn progress_is_a_percentage(done: u32, total: u32)
    requires
        done <= total,
    ensures
        0 <= percent_done(done, total) <= 100,
        done == total ==> percent_done(done, total) == 100 && worth_showing(done, total),
{
    if total > 0 {
        assert(0 <= done as int * 100 / total as int <= 100) by (nonlinear_arith)
            requires
                done <= total,
                total > 0,
        ;
        if done == total {
            assert(total as int * 100 / total as int == 100) by (nonlinear_arith)
                requires
                    total > 0,
            ;
        }
    }
}

/// The copy begins exactly when the word was typed and a disk is chosen: from
/// the disk the system runs from, to the chosen one.
pub proof fn the_copy_goes_to_the_chosen_disk(w: WindowModel, s: InstallerModel)
    requires
        w.app == AppModel::Installer(s),
    ensures
        started(w).1 is Copy <==> text::trimmed(typed_from(w.widgets, 0)) == "ERASE"@ && s.selected
            is Some && s.selected->0 < s.targets.len(),
        started(w).1 matches Start::Copy { source, target } ==> source == s.source.id && target
            == s.targets[s.selected->0 as int].id,
{
}

/// The confirmation names the disk that will be erased, and the box below it is
/// where the word is typed.
pub proof fn the_confirmation_names_the_disk(w: WindowModel, s: InstallerModel, i: usize, t: Seq<char>)
    requires
        w.app == AppModel::Installer(s),
        s.step == 2,
        s.selected == Some(i),
        i < s.targets.len(),
        text::trimmed(t) == "ERASE"@,
    ensures
        ({
            let v = rebuilt(w);
            let typed = WindowModel {
                widgets: v.widgets.update(5, widget::with_text(v.widgets[5], t)),
                ..v
            };
            &&& v.widgets[3]->Label_text == "About to ERASE: "@ + s.targets[i as int].label
            &&& v.focused_widget == Some(5usize)
            &&& v.widgets[5] is TextBox
            &&& started(typed).1 == (Start::Copy {
                source: s.source.id,
                target: s.targets[i as int].id,
            })
            &&& !(started(v).1 is Copy)
        }),
{
    let v = rebuilt(w);
    let typed = WindowModel {
        widgets: v.widgets.update(5, widget::with_text(v.widgets[5], t)),
        ..v
    };
    reveal_with_fuel(typed_from, 7);
    reveal_strlit("ERASE");
    assert(typed_from(typed.widgets, 0) == t);
    assert(typed_from(v.widgets, 0) == Seq::<char>::empty());
    assert(text::trimmed(Seq::<char>::empty()).len() == 0);
}

/// Each target has a button that picks it and bears its name, and only the one
/// that is chosen is marked.
pub proof fn targets_are_picked_by_their_button(s: InstallerModel, i: int)
    requires
        0 <= i < s.targets.len() <= 256,
    ensures
        target_buttons(s)[i]->Button_action == WinAction::InstallerPick(i as u8),
        s.selected == Some(i as usize) ==> target_buttons(s)[i]->Button_label == "[*] "@
            + s.targets[i].label,
        s.selected != Some(i as usize) ==> target_buttons(s)[i]->Button_label == "[ ] "@
            + s.targets[i].label,
        target_buttons(s).len() == s.targets.len(),
{
}

/// The steps follow each other one at a time, and what was chosen is kept.
pub proof fn steps_follow_each_other(s: InstallerModel)
    ensures
        forward(s).step == s.step || forward(s).step == s.step + 1,
        s.step == 0 ==> forward(s).step == 1,
        s.step == 1 && s.selected is Some && s.targets.len() > 0 ==> forward(s).step == 2,
        s.step == 1 && s.selected is None ==> forward(s).step == 1,
        forward(s).selected == s.selected,
        forward(s).targets == s.targets,
        forward(s).source == s.source,
{
}

/// The percentage is that of the sectors copied, rounded down.
pub proof fn the_percentage_is_exact(done: u32, total: u32)
    requires
        done <= total,
        total > 0,
    ensures
        percent_done(done, total) * total <= done * 100 < (percent_done(done, total) + 1) * total,
{
    let n = done * 100;
    let d = total as int;
    assert((n / d) * d <= n < (n / d + 1) * d) by (nonlinear_arith)
        requires
            d > 0,
    ;
}

} // verus!
