//! Programs: their calls, their windows and their events.

use os101::syscall::{
    begin_capture, decode, dispatch_syscall, end_capture, star_value, user_range, Call, Capture,
    Range, Reply, Trap, CAPTURE_LIMIT, ERROR,
};
use os101::user;
use os101::user::GuiEvent;
use os101::window::calls::{
    close_windows_for_pid, deliver_click, sys_add_button, sys_add_label, sys_create_window,
    sys_get_event, sys_set_footer, sys_update_widget, MAX_PENDING_EVENTS, MAX_WINDOWS_PER_PROCESS,
    REFUSED,
};
use os101::window::manager::Desktop;
use os101::window::widget::Widget;

fn desk() -> Desktop {
    Desktop::new(Some((1280, 720)))
}

fn call(d: &mut Desktop, c: &mut Capture, pid: u64, t: Trap, bytes: &[u8]) -> u64 {
    match dispatch_syscall(d, c, Some(pid), t, &Some(bytes.to_vec())) {
        Reply::Value(v) => v,
        _ => panic!("a value was expected"),
    }
}

#[test]
fn what_programs_send_is_what_the_kernel_reads() {
    let text = Range { at: 0x4000, len: 5 };
    assert_eq!(decode(user::write(text)), Call::Write(text));
    assert_eq!(decode(user::exit(3)), Call::Exit(3));
    assert_eq!(decode(user::yield_now()), Call::Yield);
    assert_eq!(decode(user::sbrk(-4096)), Call::Sbrk(-4096));
    assert_eq!(decode(user::time_millis()), Call::Time);
    assert_eq!(
        decode(user::gui_create_window(text, 300, 200)),
        Call::CreateWindow { title: text, w: 300, h: 200 }
    );
    assert_eq!(
        decode(user::gui_add_button(7, 1, 2, 3, 4, text, 99)),
        Call::AddButton { win: 7, x: 1, y: 2, w: 3, h: 4, text, action_id: 99 }
    );
    assert_eq!(decode(user::gui_add_label(7, 1, 2, text)), Call::AddLabel { win: 7, x: 1, y: 2, text });
    assert_eq!(decode(user::gui_get_event(7)), Call::GetEvent(7));
    assert_eq!(
        decode(user::gui_update_widget(7, 1, text)),
        Call::UpdateWidget { win: 7, widget: 1, text }
    );
    assert_eq!(decode(user::gui_set_footer(7, text)), Call::SetFooter { win: 7, text });
    assert_eq!(decode(user::syscall3(999, 0, 0, 0)), Call::Unknown);
    assert_eq!(user_range(user::write(text)), Some(text));
    assert_eq!(user_range(user::exit(1)), None);
    assert_eq!(user::sbrk_result(u64::MAX), None);
    assert_eq!(user::sbrk_result(4096), Some(4096));
}

#[test]
fn a_program_opens_a_window_and_hears_clicks() {
    let mut d = desk();
    let mut c = Capture::new();
    let r = Range { at: 1, len: 4 };
    let win = call(&mut d, &mut c, 5, user::gui_create_window(r, 300, 200), b"Demo");
    assert_ne!(win, ERROR);
    assert_eq!(d.wm.windows[0].title, "Demo");
    assert_eq!(d.wm.windows[0].owner_pid, Some(5));
    let b = call(&mut d, &mut c, 5, user::gui_add_button(win, 10, 10, 80, 24, r, 42), b"Go");
    assert_ne!(b, ERROR);
    assert_eq!(user::event(sys_get_event(&mut d, Some(5), win)), GuiEvent::Nothing);
    deliver_click(&mut d, 42);
    deliver_click(&mut d, 43);
    assert_eq!(
        user::event(sys_get_event(&mut d, Some(5), win)),
        GuiEvent::ButtonClicked { action_id: 42 }
    );
    assert_eq!(
        user::event(sys_get_event(&mut d, Some(5), win)),
        GuiEvent::ButtonClicked { action_id: 43 }
    );
    assert_eq!(user::event(sys_get_event(&mut d, Some(5), win)), GuiEvent::Nothing);
}

#[test]
fn events_do_not_pile_up() {
    let mut d = desk();
    let win = sys_create_window(&mut d, Some(1), "w", 100, 100);
    for i in 0..(MAX_PENDING_EVENTS as u64 + 10) {
        deliver_click(&mut d, i);
    }
    let mut n = 0;
    while sys_get_event(&mut d, Some(1), win) != 0 {
        n += 1;
    }
    assert_eq!(n, MAX_PENDING_EVENTS);
}

#[test]
fn programs_reach_only_their_own_windows() {
    let mut d = desk();
    let win = sys_create_window(&mut d, Some(1), "mine", 100, 100);
    assert_eq!(sys_add_label(&mut d, Some(2), win, 0, 0, "x"), REFUSED);
    assert_eq!(sys_set_footer(&mut d, Some(2), win, "x"), REFUSED);
    assert_eq!(sys_set_footer(&mut d, None, win, "x"), REFUSED);
    assert_eq!(sys_create_window(&mut d, None, "x", 100, 100), REFUSED);
    let label = sys_add_label(&mut d, Some(1), win, 4, 5, "old");
    assert_ne!(label, REFUSED);
    assert_ne!(sys_update_widget(&mut d, Some(1), win, label, "new"), REFUSED);
    assert!(matches!(&d.wm.windows[0].widgets[label as usize], Widget::Label { text, .. } if text == "new"));
    assert_eq!(sys_update_widget(&mut d, Some(1), win, 77, "new"), REFUSED);
    assert_ne!(sys_set_footer(&mut d, Some(1), win, "foot"), REFUSED);
    assert_eq!(d.wm.windows[0].footer, Some("foot".to_string()));
}

#[test]
fn programs_have_a_quota_of_windows() {
    let mut d = desk();
    for _ in 0..MAX_WINDOWS_PER_PROCESS {
        assert_ne!(sys_create_window(&mut d, Some(1), "w", 100, 100), REFUSED);
    }
    assert_eq!(sys_create_window(&mut d, Some(1), "w", 100, 100), REFUSED);
    let other = sys_create_window(&mut d, Some(2), "w", 1, 99_999);
    assert_ne!(other, REFUSED);
    let w = d.wm.windows.last().unwrap();
    assert_eq!((w.w, w.h), (64, 4096));
    close_windows_for_pid(&mut d, 1);
    assert_eq!(d.wm.windows.len(), 1);
    assert_eq!(sys_add_button(&mut d, Some(1), other, 0, 0, 9, 9, "b", 1), REFUSED);
}

#[test]
fn output_is_printed_or_captured() {
    let mut d = desk();
    let mut c = Capture::new();
    let t = user::write(Range { at: 0, len: 4 });
    match dispatch_syscall(&mut d, &mut c, Some(1), t, &Some(b"a\x01b\n".to_vec())) {
        Reply::Print(s, n) => assert_eq!((s.as_str(), n), ("a?b\n", 4)),
        _ => panic!("it is printed"),
    }
    begin_capture(&mut c);
    assert_eq!(call(&mut d, &mut c, 1, t, b"hey!"), 4);
    assert_eq!(call(&mut d, &mut c, 1, t, &vec![b'x'; CAPTURE_LIMIT]), 4);
    let s = end_capture(&mut c);
    assert_eq!(s.len(), CAPTURE_LIMIT);
    assert!(s.starts_with("hey!xxx"));
    assert_eq!(end_capture(&mut c), "");
    assert!(matches!(dispatch_syscall(&mut d, &mut c, Some(1), t, &None), Reply::Value(ERROR)));
    assert!(matches!(dispatch_syscall(&mut d, &mut c, Some(1), user::exit(9), &None), Reply::Exit(9)));
    assert!(matches!(dispatch_syscall(&mut d, &mut c, Some(1), user::yield_now(), &None), Reply::Yield));
    assert!(matches!(dispatch_syscall(&mut d, &mut c, Some(1), user::sbrk(16), &None), Reply::Sbrk(16)));
    assert!(matches!(dispatch_syscall(&mut d, &mut c, Some(1), user::time_millis(), &None), Reply::Time));
}

#[test]
fn segments_are_packed_for_the_processor() {
    assert_eq!(star_value(0x08, 0x1b) >> 32 & 0xffff, 0x08);
}
