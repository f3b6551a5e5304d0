//! The buttons below the shell, and the display modes.

use os101::theme;
use os101::usb::uhci::{Bar, PciEntry};
use os101::vbe;
use os101::vbe::{Attempt, Mode};
use os101::widgets::{build, describe, hit, render, render_all, Action, State};

#[test]
fn buttons_stand_in_a_row() {
    let b = build(720);
    assert_eq!(b.len(), 4);
    assert_eq!((b[0].x, b[0].y, b[0].w, b[0].h), (16, 616, 140, 28));
    assert_eq!((b[3].x, b[3].label), (472, "Shutdown"));
    assert_eq!(build(50)[0].y, 8);
    assert_eq!(hit(&b, 168, 616), Some(1));
    assert_eq!(hit(&b, 157, 616), None);
    assert_eq!(hit(&b, 20, 644), None);
    assert!(b[0].contains(155, 643));
}

#[test]
fn buttons_show_their_state() {
    let mut b = build(720);
    b[1].state = State::Pressed;
    let d = render_all(&b);
    assert_eq!((d[0].bg, d[0].fg), (theme::BUTTON_BG, theme::BUTTON_TEXT));
    assert_eq!((d[1].bg, d[1].fg), (theme::ACCENT, theme::TEXT_ON_ACCENT));
    b[1].state = State::Hover;
    assert_eq!(render(&b[1]).bg, theme::BUTTON_HOVER);
    assert_eq!(describe(Action::Reboot), "[button] Reboot (double-click to confirm)");
    assert_eq!(describe(Action::Clear), "[button] Clear");
}

#[test]
fn modes_are_tried_within_the_cards_limits() {
    let caps = Mode { width: 2560, height: 1600, bpp: 32 };
    let was = Mode { width: 1280, height: 720, bpp: 24 };
    assert_eq!(
        vbe::set_mode(1920, 1080, caps, was),
        Attempt::Try(Mode { width: 1920, height: 1080, bpp: 32 })
    );
    assert_eq!(vbe::set_mode(3840, 1080, caps, was), Attempt::Restore(was));
    assert_eq!(
        vbe::set_mode(1920, 1080, Mode { bpp: 24, ..caps }, was),
        Attempt::Restore(was)
    );
    let m = Mode { width: 1920, height: 1080, bpp: 32 };
    let w = vbe::apply(m);
    assert_eq!((w[0].reg, w[0].value), (vbe::ENABLE, 0));
    assert_eq!((w[9].reg, w[9].value), (vbe::ENABLE, 0x41));
    assert!(vbe::accepted(m, 0x41, 1920, 1080));
    assert!(!vbe::accepted(m, 0x40, 1920, 1080));
    assert!(!vbe::accepted(m, 0x41, 1280, 1080));
    let f = vbe::conclude(m, true, was).unwrap();
    assert_eq!((f.byte_len, f.stride), (8_294_400, 1920));
    assert_eq!(vbe::conclude(m, false, was), Err(was));
    assert!(vbe::is_present(0xb0c5));
    assert!(!vbe::is_present(0xb0c6));
}

#[test]
fn the_framebuffer_is_the_displays_first_region() {
    let nic = PciEntry { vendor: 1, device: 1, class: 2, subclass: 0, prog_if: 0, bar0: None, bar4: None };
    let vga = PciEntry { class: 3, bar0: Some(Bar::Memory(0xfd00_0000)), ..nic };
    assert_eq!(vbe::linear_framebuffer_base(&vec![nic, vga]), Some((1, 0xfd00_0000)));
    assert_eq!(vbe::linear_framebuffer_base(&vec![nic]), None);
    let io = PciEntry { bar0: Some(Bar::Io(0x100)), ..vga };
    assert_eq!(vbe::linear_framebuffer_base(&vec![io, vga]), None);
}
