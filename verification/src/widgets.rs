//! Clickable on-screen buttons.
//!
//! A tiny widget layer that lives below the shell's scrollable text area and
//! above the status bar. Each button knows its bounds, its label and what it
//! does on a click.

use vstd::prelude::*;
use vstd::string::*;

use crate::color::Color;
use crate::theme;

verus! {

/// What happens when a button is clicked.
#[derive(Clone, Copy, Debug, PartialEq, Eq, Structural)]
pub enum Action {
    Clear,
    Help,
    Reboot,
    Shutdown,
}

#[derive(Clone, Copy, Debug, PartialEq, Eq, Structural)]
pub enum State {
    Normal,
    Hover,
    Pressed,
}

#[derive(Clone, Copy, Debug)]
pub struct Button {
    pub x: usize,
    pub y: usize,
    pub w: usize,
    pub h: usize,
    pub label: &'static str,
    pub action: Action,
    pub state: State,
}

/// Whether a point is on a button.
pub open spec fn covers(b: Button, px: int, py: int) -> bool {
    b.x <= px < b.x + b.w && b.y <= py < b.y + b.h
}

impl Button {
    pub fn contains(&self, px: usize, py: usize) -> (r: bool)
        ensures
            r == covers(*self, px as int, py as int),
    {
        px >= self.x && px - self.x < self.w && py >= self.y && py - self.y < self.h
    }
}

/// Where the row of buttons is: above the status bar, whatever the height of
/// the screen.
pub open spec fn row_y(screen_h: int) -> int {
    if screen_h < 112 {
        8
    } else {
        screen_h - 104
    }
}

pub open spec fn label_of(a: Action) -> Seq<char> {
    match a {
        Action::Clear => "Clear"@,
        Action::Help => "Help"@,
        Action::Reboot => "Reboot"@,
        Action::Shutdown => "Shutdown"@,
    }
}

pub open spec fn action_of(i: int) -> Action {
    if i == 0 {
        Action::Clear
    } else if i == 1 {
        Action::Help
    } else if i == 2 {
        Action::Reboot
    } else {
        Action::Shutdown
    }
}

/// Button `i` of the row.
pub open spec fn is_button(b: Button, i: int, screen_h: int) -> bool {
    &&& b.x == 16 + i * 152
    &&& b.y == row_y(screen_h)
    &&& b.w == 140
    &&& b.h == 28
    &&& b.action == action_of(i)
    &&& b.label@ == label_of(action_of(i))
    &&& b.state == State::Normal
}

/// Lay the buttons out along the bottom of the screen.
pub fn build(screen_h: usize) -> (r: Vec<Button>)
    ensures
        r@.len() == 4,
        forall|i: int| 0 <= i < 4 ==> is_button(#[trigger] r@[i], i, screen_h as int),
{
    let y: usize = if screen_h < 112 { 8 } else { screen_h - 104 };
    let mut v: Vec<Button> = Vec::new();
    v.push(
        Button {
            x: 16,
            y,
            w: 140,
            h: 28,
            label: "Clear",
            action: Action::Clear,
            state: State::Normal,
        },
    );
    v.push(
        Button {
            x: 168,
            y,
            w: 140,
            h: 28,
            label: "Help",
            action: Action::Help,
            state: State::Normal,
        },
    );
    v.push(
        Button {
            x: 320,
            y,
            w: 140,
            h: 28,
            label: "Reboot",
            action: Action::Reboot,
            state: State::Normal,
        },
    );
    v.push(
        Button {
            x: 472,
            y,
            w: 140,
            h: 28,
            label: "Shutdown",
            action: Action::Shutdown,
            state: State::Normal,
        },
    );
    v
}

/// No two buttons of the row share a point.
pub proof fn buttons_do_not_overlap(
    a: Button,
    b: Button,
    i: int,
    j: int,
    screen_h: int,
    px: int,
    py: int,
)
    requires
        0 <= i < 4,
        0 <= j < 4,
        i != j,
        is_button(a, i, screen_h),
        is_button(b, j, screen_h),
    ensures
        !(covers(a, px, py) && covers(b, px, py)),
{
}

/// Find the first button that contains the point, if any.
pub fn hit(buttons: &Vec<Button>, px: usize, py: usize) -> (r: Option<usize>)
    ensures
        match r {
            Some(i) => {
                &&& i < buttons@.len()
                &&& covers(buttons@[i as int], px as int, py as int)
                &&& forall|j: int|
                    0 <= j < i ==> !covers(#[trigger] buttons@[j], px as int, py as int)
            },
            None => forall|j: int|
                0 <= j < buttons@.len() ==> !covers(
                    #[trigger] buttons@[j],
                    px as int,
                    py as int,
                ),
        },
{
    let mut i: usize = 0;
    while i < buttons.len()
        invariant
            i <= buttons@.len(),
            forall|j: int| 0 <= j < i ==> !covers(#[trigger] buttons@[j], px as int, py as int),
        decreases buttons@.len() - i,
    {
        if buttons[i].contains(px, py) {
            return Some(i);
        }
        i = i + 1;
    }
    None
}

/// A button as it is drawn.
#[derive(Clone, Copy, Debug)]
pub struct Drawn {
    pub x: usize,
    pub y: usize,
    pub w: usize,
    pub h: usize,
    pub label: &'static str,
    pub bg: Color,
    pub fg: Color,
}

/// Background and text colour of a state.
pub open spec fn colors_of(s: State) -> (Color, Color) {
    match s {
        State::Normal => (theme::BUTTON_BG, theme::BUTTON_TEXT),
        State::Hover => (theme::BUTTON_HOVER, theme::TEXT),
        State::Pressed => (theme::ACCENT, theme::TEXT_ON_ACCENT),
    }
}

pub open spec fn drawing(b: Button) -> Drawn {
    Drawn {
        x: b.x,
        y: b.y,
        w: b.w,
        h: b.h,
        label: b.label,
        bg: colors_of(b.state).0,
        fg: colors_of(b.state).1,
    }
}

/// How a button is drawn in its state.
pub fn render(b: &Button) -> (r: Drawn)
    ensures
        r == drawing(*b),
{
    let (bg, fg) = match b.state {
        State::Normal => (theme::BUTTON_BG, theme::BUTTON_TEXT),
        State::Hover => (theme::BUTTON_HOVER, theme::TEXT),
        State::Pressed => (theme::ACCENT, theme::TEXT_ON_ACCENT),
    };
    Drawn { x: b.x, y: b.y, w: b.w, h: b.h, label: b.label, bg, fg }
}

pub fn render_all(buttons: &Vec<Button>) -> (r: Vec<Drawn>)
    ensures
        r@ == buttons@.map_values(|b: Button| drawing(b)),
{
    let mut v: Vec<Drawn> = Vec::new();
    let mut i: usize = 0;
    let ghost goal = buttons@.map_values(|b: Button| drawing(b));
    assert(v@ =~= goal.take(0));
    while i < buttons.len()
        invariant
            i <= buttons@.len(),
            goal == buttons@.map_values(|b: Button| drawing(b)),
            v@ == goal.take(i as int),
        decreases buttons@.len() - i,
    {
        v.push(render(&buttons[i]));
        i = i + 1;
        assert(v@ =~= goal.take(i as int));
    }
    assert(goal.take(i as int) =~= goal);
    v
}

/// Describe what an action did, for echoing to the shell or status bar.
pub fn describe(a: Action) -> (r: String)
    ensures
        r@ == (match a {
            Action::Clear => "[button] Clear"@,
            Action::Help => "[button] Help"@,
            Action::Reboot => "[button] Reboot (double-click to confirm)"@,
            Action::Shutdown => "[button] Shutdown (double-click to confirm)"@,
        }),
{
    match a {
        Action::Clear => "[button] Clear".to_owned(),
        Action::Help => "[button] Help".to_owned(),
        Action::Reboot => "[button] Reboot (double-click to confirm)".to_owned(),
        Action::Shutdown => "[button] Shutdown (double-click to confirm)".to_owned(),
    }
}

/// A click anywhere on a button hits that button and no other, and the button
/// does what its label says. The row lies on a screen that is high enough for
/// it.
pub proof fn buttons_do_what_they_say(b: Button, i: int, screen_h: int, px: int, py: int)
    requires
        0 <= i < 4,
        is_button(b, i, screen_h),
        0 <= screen_h,
    ensures
        b.label@ == "Clear"@ <==> b.action is Clear,
        b.label@ == "Help"@ <==> b.action is Help,
        b.label@ == "Reboot"@ <==> b.action is Reboot,
        b.label@ == "Shutdown"@ <==> b.action is Shutdown,
        covers(b, px, py) <==> 0 <= px - b.x < b.w && 0 <= py - b.y < b.h,
        screen_h >= 112 ==> b.y + b.h <= screen_h,
{
    reveal_strlit("Clear");
    reveal_strlit("Help");
    reveal_strlit("Reboot");
    reveal_strlit("Shutdown");
    assert("Clear"@.len() == 5 && "Help"@.len() == 4 && "Reboot"@.len() == 6 && "Shutdown"@.len()
        == 8);
    let label = b.label@;
    assert(label == label_of(b.action));
    assert(label.len() == 5 <==> b.action is Clear);
    assert(label.len() == 4 <==> b.action is Help);
    assert(label.len() == 6 <==> b.action is Reboot);
    assert(label.len() == 8 <==> b.action is Shutdown);
}

/// A button is drawn where it is hit.
pub proof fn buttons_are_drawn_where_they_are(b: Button)
    ensures
        drawing(b).x == b.x && drawing(b).y == b.y && drawing(b).w == b.w && drawing(b).h == b.h
            && drawing(b).label == b.label,
{
}

} // verus!
