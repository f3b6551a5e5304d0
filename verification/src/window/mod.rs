//! Windowing, widgets, and GUI apps.
//!
//! Windows live in a z-ordered list; the last entry is the topmost one. Each
//! window owns a small list of widgets plus optional per-app state. Every
//! function here works on the desktop's state alone: where the file system,
//! the network, a game engine or a page's scripts have to be asked, the
//! function says what to ask for, and a second one takes the answer.

pub mod actions;
pub mod apps;
pub mod browser;
pub mod calc;
pub mod calls;
pub mod controls;
pub mod dialog;
pub mod documents;
pub mod draw;
pub mod editor;
pub mod events;
pub mod explorer;
pub mod files;
pub mod installer;
pub mod keyboard;
pub mod launch;
pub mod manager;
pub mod metrics;
pub mod mouse;
pub mod notices;
pub mod page;
pub mod paint;
pub mod picture;
pub mod render;
pub mod scene;
pub mod snake;
pub mod state;
pub mod status;
pub mod tick;
pub mod widget;
pub mod writing;
