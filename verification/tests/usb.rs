//! USB: descriptors, attaching devices, hubs, polling and drives.

use os101::keys::DecodedKey;
use os101::usb;
use os101::usb::attach::{
    attach_from_address0, attach_step, control_in, control_out, enumerate_hub, hub_step,
    iface_class, parse_hid_boot, parse_msc, try_msc, Ask, HidKind, HubNext, HubStage, Next, Stage,
    Uhci,
};
use os101::usb::hid::{handle_keyboard_report, handle_mouse_report, hid_usage_to_key, tick, Repeat};
use os101::usb::msc;
use os101::usb::msc::{BotNext, Opened, Opening, Phase, Reply, UsbDisk};
use os101::usb::poll::{Event, Probe, Seen};
use os101::usb::uhci;
use os101::usb::uhci::{Bar, Bring, Bulk, PciEntry, Report};

const BASE: u32 = 0x0010_0000;

/// A configuration of a boot keyboard: one interface, one interrupt endpoint.
fn keyboard_config() -> Vec<u8> {
    vec![
        9, 2, 34, 0, 1, 1, 0, 0xa0, 50, // configuration
        9, 4, 0, 0, 1, 3, 1, 1, 0, // interface: HID, boot, keyboard
        9, 0x21, 0x11, 1, 0, 1, 0x22, 63, 0, // HID descriptor
        7, 5, 0x81, 3, 8, 0, 10, // endpoint 1 in, interrupt, 8 bytes
    ]
}

fn storage_config() -> Vec<u8> {
    vec![
        9, 2, 32, 0, 1, 1, 0, 0x80, 50, // configuration
        9, 4, 0, 0, 2, 8, 6, 0x50, 0, // interface: mass storage, SCSI, bulk-only
        7, 5, 0x81, 2, 64, 0, 0, // endpoint 1 in, bulk
        7, 5, 0x02, 2, 0, 2, 0, // endpoint 2 out, bulk, 512 bytes
    ]
}

#[test]
fn tokens_put_fields_side_by_side() {
    let t = uhci::token(7, 0, 0, 5, uhci::PID_SETUP);
    assert_eq!(t, (7 << 21) | (5 << 8) | 0x2d);
    let t = uhci::token(0x7ff, 1, 2, 3, uhci::PID_IN);
    assert_eq!((t >> 21, (t >> 19) & 1, (t >> 15) & 15, (t >> 8) & 127, t & 255), (0x7ff, 1, 2, 3, 0x69));
}

#[test]
fn control_transfers_are_chains_of_descriptors() {
    let p = uhci::run_control(BASE, 1, 18, true, 8).unwrap();
    assert_eq!(p.tds.len(), 5);
    for i in 0..4 {
        assert_eq!(p.tds[i].off, uhci::CTRL_TD + 16 * i);
        assert_eq!(p.tds[i].td.link, BASE + p.tds[i + 1].off as u32 + 4);
    }
    assert_eq!(p.tds[4].td.link, 1);
    assert_eq!(p.watch, p.tds[4].off);
    // 8 + 8 + 2 bytes, with toggles 1, 0, 1
    let lens: Vec<u32> = p.tds[1..4].iter().map(|t| (t.td.token >> 21) + 1).collect();
    assert_eq!(lens, vec![8, 8, 2]);
    let toggles: Vec<u32> = p.tds[1..4].iter().map(|t| (t.td.token >> 19) & 1).collect();
    assert_eq!(toggles, vec![1, 0, 1]);
    assert_eq!(p.tds[2].td.buffer, BASE + uhci::DATA_BUF as u32 + 8);
    // The status goes the other way.
    assert_eq!(p.tds[4].td.token & 0xff, 0xe1);
    assert!(uhci::run_control(BASE, 1, 8 * 15, true, 8).is_none());
    assert_eq!(uhci::run_control(BASE, 1, 0, false, 8).unwrap().tds.len(), 2);
    assert_eq!(uhci::transfer_links(BASE), (BASE + 4096 + 2, BASE + 4112 + 4));
    assert_eq!(uhci::setup_packet(0x80, 6, 0x0100, 0, 18), vec![0x80, 6, 0, 1, 0, 0, 18, 0]);
}

#[test]
fn bulk_transfers_keep_the_toggle() {
    match uhci::bulk_transfer(BASE, 2, 1, uhci::PID_OUT, 31, 8, true) {
        Bulk::Ready(r) => {
            let p = r.plan;
            assert_eq!(p.tds.len(), 4);
            assert!(r.toggle);
            assert_eq!((r.len, r.rest), (31, 0));
            assert_eq!(p.tds[3].td.link, 1);
            assert_eq!(p.tds[3].td.token >> 21, 6);
            assert_eq!((p.tds[0].td.token >> 19) & 1, 1);
            assert_eq!((p.tds[1].td.token >> 19) & 1, 0);
        }
        _ => panic!("31 bytes fit"),
    }
    assert!(matches!(uhci::bulk_transfer(BASE, 2, 1, uhci::PID_OUT, 0, 8, true), Bulk::Nothing));
    let long = uhci::bulk_transfer(BASE, 2, 1, uhci::PID_OUT, 1_025, 64, true);
    assert!(matches!(long, Bulk::TooLong));
}

#[test]
fn bulk_transfers_get_through_for_every_packet_size() {
    for mps in [8usize, 16, 32, 64] {
        for len in [1usize, 13, 129, 512, 1_000, 1_024] {
            let (mut left, mut toggle, mut packets) = (len, false, 0);
            while left > 0 {
                match uhci::bulk_transfer(BASE, 2, 1, uhci::PID_IN, left, mps as u16, toggle) {
                    Bulk::Ready(r) => {
                        assert!(r.plan.tds.len() <= 16);
                        assert_eq!(r.len + r.rest, left);
                        assert!(r.rest == 0 || r.len % mps == 0);
                        for (i, td) in r.plan.tds.iter().enumerate() {
                            let bit = (td.td.token >> 19) & 1;
                            assert_eq!(bit == 1, toggle != (i % 2 == 1));
                        }
                        packets += r.plan.tds.len();
                        toggle = r.toggle;
                        left = r.rest;
                    }
                    _ => panic!("it fits"),
                }
            }
            assert_eq!(packets, (len + mps - 1) / mps);
            assert_eq!(toggle, packets % 2 == 1);
        }
    }
}

#[test]
fn transfers_end_or_time_out() {
    assert_eq!(uhci::transfer_outcome(0x0080_0000, 10), None);
    assert_eq!(uhci::transfer_outcome(0x0080_0000, 41), Some(false));
    assert_eq!(uhci::transfer_outcome(0x0000_0007, 10), Some(true));
    assert_eq!(uhci::transfer_outcome(0x0040_0000, 10), Some(false));
    assert_eq!(uhci::report_state(0x0080_0000, 8), Report::Pending);
    assert_eq!(uhci::report_state(3, 8), Report::Arrived(4));
    assert_eq!(uhci::report_state(0x7ff, 8), Report::Lost);
    assert_eq!(uhci::report_state(0x0004_0000, 8), Report::Lost);
    assert_eq!(uhci::ticks_for(50), 1);
    assert_eq!(uhci::ticks_for(60), 2);
}

#[test]
fn ports_are_reset_and_enabled() {
    assert_eq!(uhci::port_register(1), 0x12);
    assert!(uhci::port_connected(0x0001));
    assert_eq!(uhci::port_in_reset(0x0001), 0x0201);
    assert_eq!(uhci::port_out_of_reset(0x0201), 0x0001);
    assert_eq!(uhci::port_enabling(0x0001), 0x0007);
    assert!(uhci::port_enabled(0x0005));
    let steps = uhci::reset_and_start(BASE);
    assert_eq!(steps[0], Bring::Word(0, 4));
    assert_eq!(steps.last(), Some(&Bring::Word(0, 0x81)));
}

#[test]
fn configurations_are_walked() {
    let k = parse_hid_boot(&keyboard_config()).unwrap();
    assert_eq!((k.iface, k.endpoint, k.max_packet, k.kind), (0, 1, 8, HidKind::Keyboard));
    assert_eq!(iface_class(&keyboard_config()), Some(3));
    assert!(parse_msc(&keyboard_config()).is_none());
    let s = parse_msc(&storage_config()).unwrap();
    assert_eq!((s.ep_in.endpoint, s.ep_in.max_packet), (1, 64));
    assert_eq!((s.ep_out.endpoint, s.ep_out.max_packet), (2, 512));
    assert!(parse_hid_boot(&storage_config()).is_none());
    assert!(parse_hid_boot(&vec![]).is_none());
    assert!(parse_hid_boot(&vec![9, 4]).is_none());
    assert_eq!(iface_class(&vec![0, 0, 0]), None);
    let mut cut = keyboard_config();
    cut.truncate(30);
    assert!(parse_hid_boot(&cut).is_none());
}

fn ask_of(n: Next) -> (Stage, Ask) {
    match n {
        Next::Ask(s, a) => (s, a),
        _ => panic!("more was to be asked"),
    }
}

fn attach_keyboard(u: &mut Uhci) -> usize {
    let (s, a) = attach_from_address0();
    assert_eq!((a.addr, a.len, a.value), (0, 8, 0x100));
    let (s, a) = ask_of(attach_step(u, s, Some(vec![18, 1, 0, 2, 0, 0, 0, 8])));
    assert_eq!((a.req, a.len), (5, 0));
    let addr = a.value as u8;
    let (s, a) = ask_of(attach_step(u, s, Some(vec![])));
    assert_eq!((a.addr, a.len), (addr, 18));
    let (s, a) = ask_of(attach_step(u, s, None));
    assert_eq!((a.value, a.len), (0x200, 9));
    let cfg = keyboard_config();
    let (s, a) = ask_of(attach_step(u, s, Some(cfg[..9].to_vec())));
    assert_eq!(a.len, 34);
    let (s, a) = ask_of(attach_step(u, s, Some(cfg)));
    assert_eq!((a.req, a.value), (9, 1));
    let (s, a) = ask_of(attach_step(u, s, Some(vec![])));
    assert_eq!((a.bm, a.req), (0x21, 0x0b));
    let (s, a) = ask_of(attach_step(u, s, None));
    assert_eq!((a.bm, a.req), (0x21, 0x0a));
    match attach_step(u, s, None) {
        Next::Armed(p) => {
            assert_eq!(p.td.token & 0xff, 0x69);
            p.off
        }
        _ => panic!("a keyboard is armed"),
    }
}

#[test]
fn a_keyboard_is_attached() {
    let mut u = Uhci::new(0xc000, BASE);
    let off = attach_keyboard(&mut u);
    assert_eq!(off, uhci::INT_TD);
    assert_eq!(u.devices.len(), 1);
    assert_eq!(u.next_addr, 2);
    assert_eq!(u.frames[0], BASE + uhci::INT_TD as u32 + 4);
    assert_eq!(u.frames[1], 1);
    assert_eq!(u.frames[8], u.frames[0]);
    attach_keyboard(&mut u);
    assert_eq!(u.frames[0], BASE + uhci::INT_TD as u32 + 4);
    assert_eq!(u.frames[1], BASE + uhci::INT_TD as u32 + 16 + 4);
    assert_eq!(u.status_line(), "USB: UHCI @ I/O 0xc000, kbd@1, kbd@2");
    assert_eq!(usb::init(&Some(u)), "USB: UHCI online (2 HID devices)");
}

#[test]
fn a_drive_is_attached() {
    let mut u = Uhci::new(0x60, BASE);
    let cfg = storage_config();
    let (s, _) = ask_of(try_msc(&u, 3, 64));
    let (s, a) = ask_of(attach_step(&mut u, s, Some(cfg[..9].to_vec())));
    assert_eq!(a.len, 32);
    let (s, _) = ask_of(attach_step(&mut u, s, Some(cfg)));
    assert_eq!(attach_step(&mut u, s, Some(vec![])), Next::Done);
    let d = u.msc.unwrap();
    assert_eq!((d.addr, d.ep_in, d.ep_out, d.mps_in, d.mps_out), (3, 1, 2, 64, 64));
    assert_eq!(u.status_line(), "USB: UHCI @ I/O 0x60, mass-storage@3");
    assert_eq!(try_msc(&u, 4, 8), Next::Done);
    let mut c = Some(u);
    assert!(usb::has_msc(&c));
    assert!(usb::take_new_msc(&mut c));
    assert!(!usb::take_new_msc(&mut c));
}

#[test]
fn devices_that_do_not_answer_are_left() {
    let mut u = Uhci::new(0x60, BASE);
    let (s, _) = attach_from_address0();
    assert_eq!(attach_step(&mut u, s, None), Next::Done);
    let (s, _) = attach_from_address0();
    let (s, _) = ask_of(attach_step(&mut u, s, Some(vec![18, 1, 0, 2, 9, 0, 0, 0])));
    let (s, a) = ask_of(attach_step(&mut u, s, Some(vec![])));
    assert_eq!(a.max_packet, 8);
    // The class in the first eight bytes says that it is a hub.
    assert_eq!(attach_step(&mut u, s, None), Next::Hub(1, 8, false));
    assert!(u.devices.is_empty());
    assert_eq!(
        u.status_line(),
        "USB: UHCI @ I/O 0x60, no devices (try -device usb-kbd -device usb-mouse -device usb-storage)"
    );
}

fn hub_ask(n: HubNext) -> (HubStage, Ask) {
    match n {
        HubNext::Ask(s, a) => (s, a),
        _ => panic!("more was to be asked"),
    }
}

#[test]
fn hubs_are_powered_and_searched() {
    let u = Uhci::new(0x60, BASE);
    let (s, a) = enumerate_hub(2, 64);
    assert_eq!((a.addr, a.len), (2, 9));
    let (s, _) = hub_ask(hub_step(&u, 2, 64, s, Some(vec![9, 2, 25, 0, 1, 7, 0, 0, 0])));
    let (s, _) = hub_ask(hub_step(&u, 2, 64, s, Some(vec![])));
    let (s, a) = hub_ask(hub_step(&u, 2, 64, s, Some(vec![9, 0x29, 2, 0, 0, 0, 0, 0, 0])));
    assert_eq!((a.req, a.value, a.index), (3, 8, 1));
    let (s, a) = hub_ask(hub_step(&u, 2, 64, s, None));
    assert_eq!(a.index, 2);
    let (s, a) = hub_ask(hub_step(&u, 2, 64, s, None));
    assert_eq!((a.index, a.wait, a.len), (1, 100, 4));
    // Nothing on port 1.
    let (s, a) = hub_ask(hub_step(&u, 2, 64, s, Some(vec![0, 1, 0, 0])));
    assert_eq!(a.index, 2);
    let (s, a) = hub_ask(hub_step(&u, 2, 64, s, Some(vec![1, 1, 1, 0])));
    assert_eq!((a.req, a.value), (3, 4));
    let (s, _) = hub_ask(hub_step(&u, 2, 64, s, None));
    let (s, a) = hub_ask(hub_step(&u, 2, 64, s, Some(vec![1, 1, 0, 0])));
    assert_eq!((a.len, a.wait), (4, 10));
    let (s, a) = hub_ask(hub_step(&u, 2, 64, s, Some(vec![1, 1, 0x10, 0])));
    assert_eq!((a.req, a.value), (1, 20));
    let (s, a) = hub_ask(hub_step(&u, 2, 64, s, None));
    assert_eq!((a.req, a.value), (1, 16));
    let s = match hub_step(&u, 2, 64, s, None) {
        HubNext::Attach(s) => s,
        _ => panic!("a device is to be attached"),
    };
    assert_eq!(hub_step(&u, 2, 64, s, None), HubNext::Done);
}

#[test]
fn requests_become_transfers() {
    let u = Uhci::new(0x60, BASE);
    let (_, a) = attach_from_address0();
    let (setup, plan) = control_in(&u, &a).unwrap();
    assert_eq!(setup, vec![0x80, 6, 0, 1, 0, 0, 8, 0]);
    assert_eq!(plan.tds.len(), 3);
    let (setup, plan) = control_out(&u, &a, &vec![]).unwrap();
    assert_eq!(setup[6], 0);
    assert_eq!(plan.tds.len(), 2);
    assert!(control_out(&u, &a, &vec![0; 65]).is_none());
}

fn pci(vendor: u16, device: u16, class: u8, subclass: u8, prog_if: u8, bar4: Option<Bar>) -> PciEntry {
    PciEntry { vendor, device, class, subclass, prog_if, bar0: None, bar4 }
}

#[test]
fn controllers_are_found() {
    let known = pci(0x8086, 0x7020, 0x0c, 3, 0, Some(Bar::Io(0x1_c040)));
    let other = pci(0x1234, 0x1, 0x0c, 3, 0, Some(Bar::Io(0xd000)));
    let none = pci(0x1234, 0x1, 0x02, 0, 0, None);
    match Uhci::probe(&vec![none, other, known], Some(BASE)) {
        Probe::Found(i, u) => assert_eq!((i, u.io_base), (2, 0xc040)),
        _ => panic!("the known one is found"),
    }
    assert!(matches!(Uhci::probe(&vec![none, other], Some(BASE)), Probe::Found(1, _)));
    assert!(matches!(Uhci::probe(&vec![none], Some(BASE)), Probe::Absent));
    assert!(matches!(Uhci::probe(&vec![other], None), Probe::Absent));
    let mmio = pci(0x8086, 0x7020, 0x0c, 3, 0, Some(Bar::Memory(0xf000_0000)));
    assert!(matches!(
        Uhci::probe(&vec![mmio], Some(BASE)),
        Probe::Unreachable("USB: UHCI BAR is MMIO — expected I/O space")
    ));
    assert_eq!(usb::init(&None), "USB: no UHCI controller found — PS/2 input only");
    assert_eq!(usb::status_line(&None), "USB: no UHCI controller");
    assert_eq!(Uhci::new(0, BASE).enumerate_ports(1), Some(1));
    assert_eq!(Uhci::new(0, BASE).enumerate_ports(2), None);
}

#[test]
fn ports_are_seen_once() {
    let mut u = Uhci::new(0, BASE);
    assert!(u.wants_port(0));
    u.see_port(0);
    assert!(!u.wants_port(0));
    assert!(u.wants_port(1));
    assert!(!u.is_full());
}

#[test]
fn keyboards_are_polled() {
    let mut u = Uhci::new(0, BASE);
    attach_keyboard(&mut u);
    let mut ctrl = Some(u);
    let mut repeat = Repeat::new();
    let waiting = vec![Seen { status: 0x0080_0000, buffer: vec![0; 8] }];
    let (p, key) = usb::poll(&mut ctrl, &waiting, &mut repeat, 1_000);
    assert!(p.events.is_empty() && p.writes.is_empty() && key.is_none());
    let pressed = vec![Seen { status: 7, buffer: vec![0x02, 0, 0x04, 0, 0, 0, 0, 0] }];
    let (p, _) = usb::poll(&mut ctrl, &pressed, &mut repeat, 2_000);
    assert_eq!(p.writes.len(), 1);
    match &p.events[0] {
        Event::Keyboard(k) => assert_eq!(k.keys, vec![DecodedKey::Unicode('A')]),
        _ => panic!("a keyboard reports keys"),
    }
    // Held: no new key, but it repeats half a second later.
    let (p, key) = usb::poll(&mut ctrl, &pressed, &mut repeat, 502_001);
    match &p.events[0] {
        Event::Keyboard(k) => assert!(k.keys.is_empty()),
        _ => panic!("a keyboard reports keys"),
    }
    assert_eq!(key, Some(DecodedKey::Unicode('A')));
    let released = vec![Seen { status: 7, buffer: vec![0; 8] }];
    usb::poll(&mut ctrl, &released, &mut repeat, 600_000);
    assert_eq!(tick(&mut repeat, 2_000_000), None);
    let (p, key) = usb::poll(&mut None, &vec![], &mut repeat, 5);
    assert!(p.events.is_empty() && key.is_none());
}

#[test]
fn hid_reports_are_read() {
    assert_eq!(hid_usage_to_key(0x1e, 0), Some(DecodedKey::Unicode('1')));
    assert_eq!(hid_usage_to_key(0x1e, 0x20), Some(DecodedKey::Unicode('!')));
    assert_eq!(hid_usage_to_key(0xff, 0), None);
    let m = handle_mouse_report(&[1, 0xff, 2, 0xfe]).unwrap();
    assert_eq!((m.dx, m.dy, m.left, m.right, m.wheel), (-1, 2, true, false, -2));
    assert_eq!(handle_mouse_report(&[1, 2]), None);
    let mut r = Repeat::new();
    let k = handle_keyboard_report(&mut r, &[0; 8], &[1, 0, 0x05, 0, 0, 0, 0, 0], 0);
    assert!(k.ctrl_held);
    assert_eq!(k.keys, vec![DecodedKey::Unicode('b')]);
}

#[test]
fn command_blocks_are_laid_out() {
    let c = msc::read10(0x01020304, 1024).ok().unwrap();
    assert_eq!(c.cdb, vec![0x28, 0, 1, 2, 3, 4, 0, 0, 2, 0]);
    let b = msc::build_cbw(7, 1024, true, &c.cdb);
    assert_eq!(b.len(), 31);
    assert_eq!(&b[..15], &[0x55, 0x53, 0x42, 0x43, 7, 0, 0, 0, 0, 4, 0, 0, 0x80, 0, 10]);
    assert_eq!(&b[15..25], &c.cdb[..]);
    assert_eq!(&b[25..], &[0; 6]);
    assert_eq!(msc::read10(0, 100).err(), Some("USB read is not a whole number of sectors"));
    assert_eq!(msc::read10(0, 0).err(), Some("USB read is not a whole number of sectors"));
    assert_eq!(msc::read10(0, 512 * 65_536).err(), Some("USB read is longer than 65535 sectors"));
    assert_eq!(msc::write10(0, 1).err(), Some("USB write is not a whole number of sectors"));
    assert_eq!(msc::write10(0, 512 * 65_536).err(), Some("USB write is longer than 65535 sectors"));
    assert!(!msc::write10(0, 512).ok().unwrap().data_in);
    assert_eq!(msc::inquiry().cdb[4], 36);
    assert_eq!(msc::next_tag(u32::MAX), 0);
}

#[test]
fn status_blocks_are_judged() {
    let mut csw = vec![0x55, 0x53, 0x42, 0x53, 9, 0, 0, 0, 0, 0, 0, 0, 0];
    assert_eq!(msc::command(&Reply::Status(csw.clone()), 9), Ok(()));
    assert_eq!(msc::command(&Reply::Status(csw.clone()), 8), Err("mass storage: CSW tag mismatch"));
    csw[12] = 1;
    assert_eq!(msc::command(&Reply::Status(csw.clone()), 9), Err("mass storage: SCSI command failed"));
    csw[0] = 0;
    assert_eq!(msc::command(&Reply::Status(csw), 9), Err("mass storage: bad CSW signature"));
    assert_eq!(msc::command(&Reply::NoController, 9), Err("no USB controller"));
    assert_eq!(msc::command(&Reply::Failed, 9), Err("USB mass-storage transfer failed"));
}

#[test]
fn transactions_move_command_data_and_status() {
    let mut u = Uhci::new(0, BASE);
    assert!(u.msc_bot_transfer(0, true).is_none());
    let cfg = storage_config();
    let (s, _) = ask_of(try_msc(&u, 3, 64));
    let (s, _) = ask_of(attach_step(&mut u, s, Some(cfg[..9].to_vec())));
    let (s, _) = ask_of(attach_step(&mut u, s, Some(cfg)));
    attach_step(&mut u, s, Some(vec![]));
    let mut b = u.msc_bot_transfer(1_536, true).unwrap();
    let mut lens = Vec::new();
    loop {
        lens.push(u.bot_plan(&b).plan.tds.len());
        match u.bot_step(b, true) {
            BotNext::More(m) => b = m,
            BotNext::Done => break,
            BotNext::Failed => panic!("nothing failed"),
        }
    }
    // 31 bytes, 1024, 512, 13, in packets of 64
    assert_eq!(lens, vec![1, 16, 8, 1]);
    let d = u.msc.unwrap();
    assert!(d.out_toggle && d.in_toggle);
    let b = u.msc_bot_transfer(0, false).unwrap();
    assert_eq!(b.phase, Phase::Command);
    assert_eq!(u.bot_step(b, false), BotNext::Failed);
    // The same data over packets of eight: sixteen at a time.
    let mut small = d;
    small.mps_in = 8;
    u.msc = Some(small);
    let mut b = u.msc_bot_transfer(512, true).unwrap();
    let mut rounds = Vec::new();
    loop {
        rounds.push((b.phase, b.sent, u.bot_plan(&b).len));
        match u.bot_step(b, true) {
            BotNext::More(m) => b = m,
            BotNext::Done => break,
            BotNext::Failed => panic!("nothing failed"),
        }
    }
    let data = Phase::Data { at: 0 };
    assert_eq!(
        rounds,
        vec![
            (Phase::Command, 0, 31),
            (data, 0, 128),
            (data, 128, 128),
            (data, 256, 128),
            (data, 384, 128),
            (Phase::Status, 0, 13),
        ]
    );
    // 64 packets of data and two of status leave the toggle as it was.
    assert_eq!(u.msc.unwrap().in_toggle, d.in_toggle);
}

#[test]
fn drives_are_opened() {
    assert!(matches!(UsbDisk::open(false), Opened::Unusable(None)));
    assert!(matches!(UsbDisk::open(true), Opened::Ask(Opening::Ready(1), _)));
    assert!(matches!(
        UsbDisk::open_step(Opening::Ready(1), false, &vec![]),
        Opened::Ask(Opening::Sense(1), _)
    ));
    assert!(matches!(
        UsbDisk::open_step(Opening::Sense(5), false, &vec![]),
        Opened::Ask(Opening::Capacity, _)
    ));
    let answer = vec![0, 0, 0x7f, 0xff, 0, 0, 2, 0];
    assert_eq!(msc::capacity(&answer), (32_768, 512));
    match UsbDisk::open_step(Opening::Capacity, true, &answer) {
        Opened::Disk(d, line) => {
            assert_eq!(d.sector_count(), 32_768);
            assert_eq!(line, "USB: mass storage ready — 32768 sectors (16 MiB)");
        }
        _ => panic!("the drive is ready"),
    }
    let odd = vec![0, 0, 0, 1, 0, 0, 0x10, 0];
    match UsbDisk::open_step(Opening::Capacity, true, &odd) {
        Opened::Unusable(Some(s)) => {
            assert_eq!(s, "USB: drive uses 4096-byte sectors, only 512 is supported")
        }
        _ => panic!("only 512 is supported"),
    }
    assert!(matches!(
        UsbDisk::open_step(Opening::Capacity, false, &vec![]),
        Opened::Unusable(None)
    ));
}

#[test]
fn a_drive_is_attached_beside_a_full_table() {
    let mut u = Uhci::new(0xc000, BASE);
    for _ in 0..uhci::MAX_DEVICES {
        attach_keyboard(&mut u);
    }
    assert_eq!(u.devices.len(), uhci::MAX_DEVICES);
    let cfg = storage_config();
    let (s, _) = ask_of(try_msc(&u, 9, 64));
    let (s, _) = ask_of(attach_step(&mut u, s, Some(cfg[..9].to_vec())));
    let (s, _) = ask_of(attach_step(&mut u, s, Some(cfg)));
    assert_eq!(attach_step(&mut u, s, Some(vec![])), Next::Done);
    assert_eq!(u.devices.len(), uhci::MAX_DEVICES);
    assert_eq!(u.msc.unwrap().addr, 9);
}
