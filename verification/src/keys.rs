//! Keys as the keyboard drivers report them.

use vstd::prelude::*;

verus! {

/// A key on the keyboard, by its place rather than by what it types.
#[derive(Debug, Clone, Copy, PartialEq, Eq, Structural)]
pub enum KeyCode {
    Escape,
    F1,
    F2,
    F3,
    F4,
    F5,
    F6,
    F7,
    F8,
    F9,
    F10,
    F11,
    F12,
    PrintScreen,
    SysRq,
    ScrollLock,
    PauseBreak,
    Oem8,
    Key1,
    Key2,
    Key3,
    Key4,
    Key5,
    Key6,
    Key7,
    Key8,
    Key9,
    Key0,
    OemMinus,
    OemPlus,
    Backspace,
    Insert,
    Home,
    PageUp,
    NumpadLock,
    NumpadDivide,
    NumpadMultiply,
    NumpadSubtract,
    Tab,
    Q,
    W,
    E,
    R,
    T,
    Y,
    U,
    I,
    O,
    P,
    Oem4,
    Oem6,
    Oem5,
    Oem7,
    Delete,
    End,
    PageDown,
    Numpad7,
    Numpad8,
    Numpad9,
    NumpadAdd,
    CapsLock,
    A,
    S,
    D,
    F,
    G,
    H,
    J,
    K,
    L,
    Oem1,
    Oem3,
    Return,
    Numpad4,
    Numpad5,
    Numpad6,
    LShift,
    Z,
    X,
    C,
    V,
    B,
    N,
    M,
    OemComma,
    OemPeriod,
    Oem2,
    RShift,
    ArrowUp,
    Numpad1,
    Numpad2,
    Numpad3,
    NumpadEnter,
    LControl,
    LWin,
    LAlt,
    Spacebar,
    RAltGr,
    RWin,
    Apps,
    RControl,
    ArrowLeft,
    ArrowDown,
    ArrowRight,
    Numpad0,
    NumpadPeriod,
    Oem9,
    Oem10,
    Oem11,
    Oem12,
    Oem13,
    PrevTrack,
    NextTrack,
    Mute,
    Calculator,
    Play,
    Stop,
    VolumeDown,
    VolumeUp,
    WWWHome,
    PowerOnTestOk,
    TooManyKeys,
    RControl2,
    RAlt2,
}

/// What pressing a key amounts to: a character, or a key that types none.
#[derive(Debug, Clone, Copy, PartialEq, Eq, Structural)]
pub enum DecodedKey {
    RawKey(KeyCode),
    Unicode(char),
}

impl KeyCode {
    /// The name a key goes by.
    pub open spec fn spec_name(self) -> Seq<char> {
        match self {
            KeyCode::Escape => "Escape"@,
            KeyCode::F1 => "F1"@,
            KeyCode::F2 => "F2"@,
            KeyCode::F3 => "F3"@,
            KeyCode::F4 => "F4"@,
            KeyCode::F5 => "F5"@,
            KeyCode::F6 => "F6"@,
            KeyCode::F7 => "F7"@,
            KeyCode::F8 => "F8"@,
            KeyCode::F9 => "F9"@,
            KeyCode::F10 => "F10"@,
            KeyCode::F11 => "F11"@,
            KeyCode::F12 => "F12"@,
            KeyCode::PrintScreen => "PrintScreen"@,
            KeyCode::SysRq => "SysRq"@,
            KeyCode::ScrollLock => "ScrollLock"@,
            KeyCode::PauseBreak => "PauseBreak"@,
            KeyCode::Oem8 => "Oem8"@,
            KeyCode::Key1 => "Key1"@,
            KeyCode::Key2 => "Key2"@,
            KeyCode::Key3 => "Key3"@,
            KeyCode::Key4 => "Key4"@,
            KeyCode::Key5 => "Key5"@,
            KeyCode::Key6 => "Key6"@,
            KeyCode::Key7 => "Key7"@,
            KeyCode::Key8 => "Key8"@,
            KeyCode::Key9 => "Key9"@,
            KeyCode::Key0 => "Key0"@,
            KeyCode::OemMinus => "OemMinus"@,
            KeyCode::OemPlus => "OemPlus"@,
            KeyCode::Backspace => "Backspace"@,
            KeyCode::Insert => "Insert"@,
            KeyCode::Home => "Home"@,
            KeyCode::PageUp => "PageUp"@,
            KeyCode::NumpadLock => "NumpadLock"@,
            KeyCode::NumpadDivide => "NumpadDivide"@,
            KeyCode::NumpadMultiply => "NumpadMultiply"@,
            KeyCode::NumpadSubtract => "NumpadSubtract"@,
            KeyCode::Tab => "Tab"@,
            KeyCode::Q => "Q"@,
            KeyCode::W => "W"@,
            KeyCode::E => "E"@,
            KeyCode::R => "R"@,
            KeyCode::T => "T"@,
            KeyCode::Y => "Y"@,
            KeyCode::U => "U"@,
            KeyCode::I => "I"@,
            KeyCode::O => "O"@,
            KeyCode::P => "P"@,
            KeyCode::Oem4 => "Oem4"@,
            KeyCode::Oem6 => "Oem6"@,
            KeyCode::Oem5 => "Oem5"@,
            KeyCode::Oem7 => "Oem7"@,
            KeyCode::Delete => "Delete"@,
            KeyCode::End => "End"@,
            KeyCode::PageDown => "PageDown"@,
            KeyCode::Numpad7 => "Numpad7"@,
            KeyCode::Numpad8 => "Numpad8"@,
            KeyCode::Numpad9 => "Numpad9"@,
            KeyCode::NumpadAdd => "NumpadAdd"@,
            KeyCode::CapsLock => "CapsLock"@,
            KeyCode::A => "A"@,
            KeyCode::S => "S"@,
            KeyCode::D => "D"@,
            KeyCode::F => "F"@,
            KeyCode::G => "G"@,
            KeyCode::H => "H"@,
            KeyCode::J => "J"@,
            KeyCode::K => "K"@,
            KeyCode::L => "L"@,
            KeyCode::Oem1 => "Oem1"@,
            KeyCode::Oem3 => "Oem3"@,
            KeyCode::Return => "Return"@,
            KeyCode::Numpad4 => "Numpad4"@,
            KeyCode::Numpad5 => "Numpad5"@,
            KeyCode::Numpad6 => "Numpad6"@,
            KeyCode::LShift => "LShift"@,
            KeyCode::Z => "Z"@,
            KeyCode::X => "X"@,
            KeyCode::C => "C"@,
            KeyCode::V => "V"@,
            KeyCode::B => "B"@,
            KeyCode::N => "N"@,
            KeyCode::M => "M"@,
            KeyCode::OemComma => "OemComma"@,
            KeyCode::OemPeriod => "OemPeriod"@,
            KeyCode::Oem2 => "Oem2"@,
            KeyCode::RShift => "RShift"@,
            KeyCode::ArrowUp => "ArrowUp"@,
            KeyCode::Numpad1 => "Numpad1"@,
            KeyCode::Numpad2 => "Numpad2"@,
            KeyCode::Numpad3 => "Numpad3"@,
            KeyCode::NumpadEnter => "NumpadEnter"@,
            KeyCode::LControl => "LControl"@,
            KeyCode::LWin => "LWin"@,
            KeyCode::LAlt => "LAlt"@,
            KeyCode::Spacebar => "Spacebar"@,
            KeyCode::RAltGr => "RAltGr"@,
            KeyCode::RWin => "RWin"@,
            KeyCode::Apps => "Apps"@,
            KeyCode::RControl => "RControl"@,
            KeyCode::ArrowLeft => "ArrowLeft"@,
            KeyCode::ArrowDown => "ArrowDown"@,
            KeyCode::ArrowRight => "ArrowRight"@,
            KeyCode::Numpad0 => "Numpad0"@,
            KeyCode::NumpadPeriod => "NumpadPeriod"@,
            KeyCode::Oem9 => "Oem9"@,
            KeyCode::Oem10 => "Oem10"@,
            KeyCode::Oem11 => "Oem11"@,
            KeyCode::Oem12 => "Oem12"@,
            KeyCode::Oem13 => "Oem13"@,
            KeyCode::PrevTrack => "PrevTrack"@,
            KeyCode::NextTrack => "NextTrack"@,
            KeyCode::Mute => "Mute"@,
            KeyCode::Calculator => "Calculator"@,
            KeyCode::Play => "Play"@,
            KeyCode::Stop => "Stop"@,
            KeyCode::VolumeDown => "VolumeDown"@,
            KeyCode::VolumeUp => "VolumeUp"@,
            KeyCode::WWWHome => "WWWHome"@,
            KeyCode::PowerOnTestOk => "PowerOnTestOk"@,
            KeyCode::TooManyKeys => "TooManyKeys"@,
            KeyCode::RControl2 => "RControl2"@,
            KeyCode::RAlt2 => "RAlt2"@,
        }
    }

    pub fn name(self) -> (r: &'static str)
        ensures
            r@ == self.spec_name(),
    {
        match self {
            KeyCode::Escape => "Escape",
            KeyCode::F1 => "F1",
            KeyCode::F2 => "F2",
            KeyCode::F3 => "F3",
            KeyCode::F4 => "F4",
            KeyCode::F5 => "F5",
            KeyCode::F6 => "F6",
            KeyCode::F7 => "F7",
            KeyCode::F8 => "F8",
            KeyCode::F9 => "F9",
            KeyCode::F10 => "F10",
            KeyCode::F11 => "F11",
            KeyCode::F12 => "F12",
            KeyCode::PrintScreen => "PrintScreen",
            KeyCode::SysRq => "SysRq",
            KeyCode::ScrollLock => "ScrollLock",
            KeyCode::PauseBreak => "PauseBreak",
            KeyCode::Oem8 => "Oem8",
            KeyCode::Key1 => "Key1",
            KeyCode::Key2 => "Key2",
            KeyCode::Key3 => "Key3",
            KeyCode::Key4 => "Key4",
            KeyCode::Key5 => "Key5",
            KeyCode::Key6 => "Key6",
            KeyCode::Key7 => "Key7",
            KeyCode::Key8 => "Key8",
            KeyCode::Key9 => "Key9",
            KeyCode::Key0 => "Key0",
            KeyCode::OemMinus => "OemMinus",
            KeyCode::OemPlus => "OemPlus",
            KeyCode::Backspace => "Backspace",
            KeyCode::Insert => "Insert",
            KeyCode::Home => "Home",
            KeyCode::PageUp => "PageUp",
            KeyCode::NumpadLock => "NumpadLock",
            KeyCode::NumpadDivide => "NumpadDivide",
            KeyCode::NumpadMultiply => "NumpadMultiply",
            KeyCode::NumpadSubtract => "NumpadSubtract",
            KeyCode::Tab => "Tab",
            KeyCode::Q => "Q",
            KeyCode::W => "W",
            KeyCode::E => "E",
            KeyCode::R => "R",
            KeyCode::T => "T",
            KeyCode::Y => "Y",
            KeyCode::U => "U",
            KeyCode::I => "I",
            KeyCode::O => "O",
            KeyCode::P => "P",
            KeyCode::Oem4 => "Oem4",
            KeyCode::Oem6 => "Oem6",
            KeyCode::Oem5 => "Oem5",
            KeyCode::Oem7 => "Oem7",
            KeyCode::Delete => "Delete",
            KeyCode::End => "End",
            KeyCode::PageDown => "PageDown",
            KeyCode::Numpad7 => "Numpad7",
            KeyCode::Numpad8 => "Numpad8",
            KeyCode::Numpad9 => "Numpad9",
            KeyCode::NumpadAdd => "NumpadAdd",
            KeyCode::CapsLock => "CapsLock",
            KeyCode::A => "A",
            KeyCode::S => "S",
            KeyCode::D => "D",
            KeyCode::F => "F",
            KeyCode::G => "G",
            KeyCode::H => "H",
            KeyCode::J => "J",
            KeyCode::K => "K",
            KeyCode::L => "L",
            KeyCode::Oem1 => "Oem1",
            KeyCode::Oem3 => "Oem3",
            KeyCode::Return => "Return",
            KeyCode::Numpad4 => "Numpad4",
            KeyCode::Numpad5 => "Numpad5",
            KeyCode::Numpad6 => "Numpad6",
            KeyCode::LShift => "LShift",
            KeyCode::Z => "Z",
            KeyCode::X => "X",
            KeyCode::C => "C",
            KeyCode::V => "V",
            KeyCode::B => "B",
            KeyCode::N => "N",
            KeyCode::M => "M",
            KeyCode::OemComma => "OemComma",
            KeyCode::OemPeriod => "OemPeriod",
            KeyCode::Oem2 => "Oem2",
            KeyCode::RShift => "RShift",
            KeyCode::ArrowUp => "ArrowUp",
            KeyCode::Numpad1 => "Numpad1",
            KeyCode::Numpad2 => "Numpad2",
            KeyCode::Numpad3 => "Numpad3",
            KeyCode::NumpadEnter => "NumpadEnter",
            KeyCode::LControl => "LControl",
            KeyCode::LWin => "LWin",
            KeyCode::LAlt => "LAlt",
            KeyCode::Spacebar => "Spacebar",
            KeyCode::RAltGr => "RAltGr",
            KeyCode::RWin => "RWin",
            KeyCode::Apps => "Apps",
            KeyCode::RControl => "RControl",
            KeyCode::ArrowLeft => "ArrowLeft",
            KeyCode::ArrowDown => "ArrowDown",
            KeyCode::ArrowRight => "ArrowRight",
            KeyCode::Numpad0 => "Numpad0",
            KeyCode::NumpadPeriod => "NumpadPeriod",
            KeyCode::Oem9 => "Oem9",
            KeyCode::Oem10 => "Oem10",
            KeyCode::Oem11 => "Oem11",
            KeyCode::Oem12 => "Oem12",
            KeyCode::Oem13 => "Oem13",
            KeyCode::PrevTrack => "PrevTrack",
            KeyCode::NextTrack => "NextTrack",
            KeyCode::Mute => "Mute",
            KeyCode::Calculator => "Calculator",
            KeyCode::Play => "Play",
            KeyCode::Stop => "Stop",
            KeyCode::VolumeDown => "VolumeDown",
            KeyCode::VolumeUp => "VolumeUp",
            KeyCode::WWWHome => "WWWHome",
            KeyCode::PowerOnTestOk => "PowerOnTestOk",
            KeyCode::TooManyKeys => "TooManyKeys",
            KeyCode::RControl2 => "RControl2",
            KeyCode::RAlt2 => "RAlt2",
        }
    }
}

} // verus!
