//! Central colour palette — sharp, dark, futuristic.
//!
//! Flat panels, cyan accents, no soft pastels. The shell shares the same dark
//! base so the whole machine feels like one UI.

use vstd::prelude::*;

use crate::color::Color;

verus! {

// ── Desktop ────────────────────────────────────────────────────────────────

pub const DESKTOP_TOP: Color = 0x020617;

pub const DESKTOP_BOTTOM: Color = 0x0F172A;

// ── Window chrome ──────────────────────────────────────────────────────────

pub const WINDOW_BG: Color = 0x0B1220;

pub const WINDOW_BORDER: Color = 0x1E293B;

pub const WINDOW_BORDER_ACTIVE: Color = 0x22D3EE;

pub const WINDOW_SHADOW: Color = 0x000000;

pub const TITLEBAR_ACTIVE: Color = 0x083344;

pub const TITLEBAR_INACTIVE: Color = 0x111827;

pub const TITLEBAR_TEXT: Color = 0xECFEFF;

pub const TITLEBAR_TEXT_INACTIVE: Color = 0x64748B;

pub const CLOSE_BUTTON: Color = 0xF43F5E;

pub const CLOSE_BUTTON_HOVER: Color = 0xFB7185;

// ── Text ───────────────────────────────────────────────────────────────────

pub const TEXT: Color = 0xE2E8F0;

pub const TEXT_MUTED: Color = 0x94A3B8;

pub const TEXT_ON_ACCENT: Color = 0x020617;

// ── Controls ───────────────────────────────────────────────────────────────

pub const BUTTON_BG: Color = 0x111827;

pub const BUTTON_HOVER: Color = 0x164E63;

pub const BUTTON_PRESSED: Color = 0x0891B2;

pub const BUTTON_BORDER: Color = 0x22D3EE;

pub const BUTTON_TEXT: Color = 0xECFEFF;

pub const ACCENT: Color = 0x22D3EE;

pub const ACCENT_HOVER: Color = 0x67E8F9;

pub const ACCENT_PRESSED: Color = 0x06B6D4;

pub const FIELD_BG: Color = 0x020617;

pub const FIELD_BORDER: Color = 0x334155;

pub const FIELD_FOCUS: Color = 0x22D3EE;

// ── Taskbar / status ───────────────────────────────────────────────────────

pub const TASKBAR_BG: Color = 0x020617;

pub const TASKBAR_ITEM: Color = 0x0F172A;

pub const TASKBAR_ITEM_ACTIVE: Color = 0x164E63;

pub const TASKBAR_ACCENT: Color = 0x22D3EE;

pub const STATUS_BG: Color = 0x020617;

pub const STATUS_TEXT: Color = 0xA5F3FC;

// ── Semantic ───────────────────────────────────────────────────────────────

pub const SUCCESS: Color = 0x34D399;

pub const WARNING: Color = 0xFBBF24;

pub const ERROR: Color = 0xF43F5E;

pub const INFO: Color = 0x38BDF8;

// ── Console / shell ────────────────────────────────────────────────────────

pub const CONSOLE_BG: Color = 0x020617;

pub const CONSOLE_TEXT: Color = 0xE2E8F0;

pub const CONSOLE_CURSOR: Color = 0x22D3EE;

// ── Per-app accents ────────────────────────────────────────────────────────

pub const APP_ACCENTS: [Color; 8] = [
    0x22D3EE,
    0x34D399,
    0xA78BFA,
    0xF472B6,
    0xFBBF24,
    0x60A5FA,
    0xFB7185,
    0x2DD4BF,
];

/// The accent of the app at this place; the eight colours repeat.
pub fn app_accent(index: usize) -> (c: Color)
    ensures
        c == APP_ACCENTS@[index as int % 8],
{
    let all = APP_ACCENTS;
    all[index % 8]
}

} // verus!
