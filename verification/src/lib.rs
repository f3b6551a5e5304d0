//! OS101: the decision logic of a small hobby operating system.
//!
//! The desktop, the shell, the package format, the calendar, the USB stack and
//! the script host of OS101 are written here as functions over plain state.
//! What touches hardware, the file system or the network is left to the
//! program around this library: a function here says what is to be done, the
//! program does it and hands back what came of it.

pub mod color;
pub mod keys;
pub mod package;
pub mod quickjs;
pub mod rtc;
pub mod selftest;
pub mod shell;
pub mod sound;
pub mod syscall;
pub mod tcc;
pub mod text;
pub mod theme;
pub mod usb;
pub mod user;
pub mod vbe;
pub mod wallpaper;
pub mod widgets;
pub mod window;
pub mod words;
