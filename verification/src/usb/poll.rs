//! Finding the controller, and hearing from the devices attached to it.

use vstd::prelude::*;
use vstd::string::*;

use crate::keys::DecodedKey;
use crate::text;
use crate::text::{join, push_decimal};
use crate::usb::attach::{HidDevice, HidKind, Uhci, UhciModel};
use crate::usb::hid;
use crate::usb::hid::{
    handle_keyboard_report, handle_mouse_report, KeyboardEvents, MouseMovement, Repeat,
    REPEAT_DELAY_US,
};
use crate::usb::uhci;
use crate::usb::uhci::{
    find_controller, reactivate_interrupt_td, report_state, Bar, PciEntry, Placed, Report,
    MAX_DEVICES, MAX_PORTS,
};
use crate::words;
use crate::words::push_hex;

verus! {

// ── Finding the controller ──────────────────────────────────────────────────

/// What came of looking for a controller.
pub enum Probe {
    /// There is none, or no memory to share with it.
    Absent,
    /// There is one, but its registers are in memory, which this driver does
    /// not reach.
    Unreachable(&'static str),
    /// There is one: its place among the devices of the bus. It is to be
    /// enabled, and to be started.
    Found(usize, Uhci),
}

/// The ports of a device of the bus.
pub open spec fn ports_of(d: PciEntry) -> Option<Bar> {
    if d.bar4 is Some {
        d.bar4
    } else {
        d.bar0
    }
}

pub open spec fn nowhere(v: Seq<PciEntry>) -> bool {
    forall|i: int| 0 <= i < v.len() ==> !uhci::known(#[trigger] v[i]) && !uhci::of_class(v[i])
}

impl Uhci {
    /// Look for a controller among the devices of the bus. `dma` is where it
    /// would find the shared memory, if there is any to be had.
    pub fn probe(bus: &Vec<PciEntry>, dma: Option<u32>) -> (r: Probe)
        requires
            dma matches Some(base) ==> uhci::reachable(base),
        ensures
            match r {
                Probe::Absent => nowhere(bus@) || exists|i: int| #[trigger]
                    uhci::chosen(bus@, i) && (ports_of(bus@[i]) is None || (ports_of(
                        bus@[i],
                    ) matches Some(Bar::Io(_)) && dma is None)),
                Probe::Unreachable(e) => e@ == "USB: UHCI BAR is MMIO — expected I/O space"@
                    && exists|i: int| #[trigger]
                    uhci::chosen(bus@, i) && ports_of(bus@[i]) matches Some(Bar::Memory(_)),
                Probe::Found(i, u) => {
                    &&& uhci::chosen(bus@, i as int)
                    &&& dma is Some
                    &&& ports_of(bus@[i as int]) matches Some(Bar::Io(a))
                    &&& u@ == UhciModel::fresh((a as int % 0x1_0000) as u16, dma->0)
                    &&& u@.wf()
                },
            },
    {
        match find_controller(bus) {
            None => Probe::Absent,
            Some(i) => {
                let d = bus[i];
                assert(uhci::chosen(bus@, i as int));
                let bar = if d.bar4.is_some() { d.bar4 } else { d.bar0 };
                match bar {
                    None => Probe::Absent,
                    Some(Bar::Memory(_)) => Probe::Unreachable(
                        "USB: UHCI BAR is MMIO — expected I/O space",
                    ),
                    Some(Bar::Io(a)) => match dma {
                        None => Probe::Absent,
                        Some(base) => Probe::Found(i, Uhci::new((a % 0x1_0000) as u16, base)),
                    },
                }
            },
        }
    }

    /// The next port to look at, from this one on, when the controller has
    /// just been started.
    pub fn enumerate_ports(&self, port: usize) -> (r: Option<usize>)
        ensures
            r == (if port < MAX_PORTS && self@.devices.len() < MAX_DEVICES {
                Some(port)
            } else {
                None
            }),
    {
        if port < MAX_PORTS && self.devices.len() < MAX_DEVICES {
            Some(port)
        } else {
            None
        }
    }
}

/// There is at most one controller to choose.
pub proof fn the_choice_is_unique(v: Seq<PciEntry>, i: int, j: int)
    requires
        uhci::chosen(v, i),
        uhci::chosen(v, j),
    ensures
        i == j,
{
    if i < j {
        assert(v[i] == v[i]);
    }
    if j < i {
        assert(v[j] == v[j]);
    }
}

// ── Reports ─────────────────────────────────────────────────────────────────

/// What was found in the shared memory for a device: the state of its
/// descriptor, and its report.
pub struct Seen {
    pub status: u32,
    pub buffer: Vec<u8>,
}

pub enum Event {
    Keyboard(KeyboardEvents),
    Mouse(MouseMovement),
}

pub ghost enum EventModel {
    Keyboard(bool, Seq<DecodedKey>),
    Mouse(MouseMovement),
}

impl View for Event {
    type V = EventModel;

    open spec fn view(&self) -> EventModel {
        match *self {
            Event::Keyboard(k) => EventModel::Keyboard(k.ctrl_held, k.keys@),
            Event::Mouse(m) => EventModel::Mouse(m),
        }
    }
}

pub open spec fn event_models(v: Seq<Event>) -> Seq<EventModel> {
    v.map_values(|e: Event| e@)
}

/// Byte `i` of a report of which so many bytes have arrived.
pub open spec fn report_byte(buf: Seq<u8>, len: int, i: int) -> u8 {
    if i < len {
        buf[i]
    } else {
        0
    }
}

pub open spec fn report_of(buf: Seq<u8>, len: int) -> [u8; 8] {
    [
        report_byte(buf, len, 0),
        report_byte(buf, len, 1),
        report_byte(buf, len, 2),
        report_byte(buf, len, 3),
        report_byte(buf, len, 4),
        report_byte(buf, len, 5),
        report_byte(buf, len, 6),
        report_byte(buf, len, 7),
    ]
}

fn byte_of(buf: &Vec<u8>, len: usize, i: usize) -> (r: u8)
    requires
        i < 8 <= buf@.len(),
    ensures
        r == report_byte(buf@, len as int, i as int),
{
    if i < len {
        buf[i]
    } else {
        0
    }
}

fn read_report(buf: &Vec<u8>, len: usize) -> (r: [u8; 8])
    requires
        8 <= buf@.len(),
    ensures
        r == report_of(buf@, len as int),
{
    [
        byte_of(buf, len, 0),
        byte_of(buf, len, 1),
        byte_of(buf, len, 2),
        byte_of(buf, len, 3),
        byte_of(buf, len, 4),
        byte_of(buf, len, 5),
        byte_of(buf, len, 6),
        byte_of(buf, len, 7),
    ]
}

/// How a mouse has moved, by a report of which so many bytes have arrived.
/// What has not arrived counts as 0; the wheel is read only where it has.
pub open spec fn movement(buf: Seq<u8>, len: int) -> MouseMovement {
    MouseMovement {
        dx: hid::signed(report_byte(buf, len, 1)) as i32,
        dy: hid::signed(report_byte(buf, len, 2)) as i32,
        left: report_byte(buf, len, 0) & 1 != 0,
        right: report_byte(buf, len, 0) & 2 != 0,
        wheel: (if len >= 4 {
            hid::signed(report_byte(buf, len, 3))
        } else {
            0
        }) as i8,
    }
}

fn read_movement(buf: &Vec<u8>, len: usize) -> (r: MouseMovement)
    requires
        8 <= buf@.len(),
        len <= 4,
    ensures
        r == movement(buf@, len as int),
{
    let mut v: Vec<u8> = Vec::new();
    v.push(byte_of(buf, len, 0));
    v.push(byte_of(buf, len, 1));
    v.push(byte_of(buf, len, 2));
    if len >= 4 {
        v.push(byte_of(buf, len, 3));
    }
    match handle_mouse_report(v.as_slice()) {
        Some(m) => m,
        None => MouseMovement { dx: 0, dy: 0, left: false, right: false, wheel: 0 },
    }
}

/// What has come of polling some of the devices.
pub ghost struct PollModel {
    pub devices: Seq<HidDevice>,
    pub repeat: Repeat,
    pub events: Seq<EventModel>,
    pub writes: Seq<Placed>,
}

/// The descriptor that asks a device again.
pub open spec fn rearmed(base: u32, d: HidDevice) -> Placed {
    uhci::interrupt_td(base, d.td_slot as int, d.addr, d.endpoint, d.report_len as int)
}

/// Poll device `i`: nothing happens while it is still being asked. Otherwise it
/// is asked again, and where a report has arrived without an error, it is
/// taken.
pub open spec fn polled_one(
    base: u32,
    p: PollModel,
    i: int,
    status: u32,
    buffer: Seq<u8>,
    now: u64,
) -> PollModel {
    let d = p.devices[i];
    if status & uhci::TD_ACTIVE != 0 {
        p
    } else {
        let again = PollModel { writes: p.writes.push(rearmed(base, d)), ..p };
        match uhci::report_len(status, d.report_len as int) {
            None => again,
            Some(len) => {
                let report = report_of(buffer, len);
                match d.kind {
                    HidKind::Keyboard => PollModel {
                        devices: p.devices.update(i, HidDevice { prev_kbd: report, ..d }),
                        repeat: hid::after_report(p.repeat, d.prev_kbd@, report@, now),
                        events: p.events.push(
                            EventModel::Keyboard(
                                hid::ctrl(report@[0]),
                                hid::fresh_keys(d.prev_kbd@, hid::held(report@), report@[0]),
                            ),
                        ),
                        ..again
                    },
                    HidKind::Mouse => PollModel {
                        events: p.events.push(EventModel::Mouse(movement(buffer, len))),
                        ..again
                    },
                }
            },
        }
    }
}

/// Poll the first `n` devices, one after the other.
pub open spec fn polled(
    u: UhciModel,
    repeat: Repeat,
    seen: Seq<Seen>,
    now: u64,
    n: nat,
) -> PollModel
    decreases n,
{
    if n == 0 {
        PollModel { devices: u.devices, repeat, events: Seq::empty(), writes: Seq::empty() }
    } else {
        let k = (n - 1) as nat;
        polled_one(
            u.base,
            polled(u, repeat, seen, now, k),
            k as int,
            seen[k as int].status,
            seen[k as int].buffer@,
            now,
        )
    }
}

/// What came of polling: what has happened, and the descriptors to write.
pub struct Polled {
    pub events: Vec<Event>,
    pub writes: Vec<Placed>,
}

impl Uhci {
    fn poll_one(
        &mut self,
        i: usize,
        seen: &Seen,
        repeat: &mut Repeat,
        now: u64,
        out: &mut Polled,
    )
        requires
            old(self)@.wf(),
            i < old(self)@.devices.len(),
            seen.buffer@.len() >= 8,
            now <= u64::MAX - REPEAT_DELAY_US,
        ensures
            final(self)@.wf(),
            ({
                let p = polled_one(
                    old(self)@.base,
                    PollModel {
                        devices: old(self)@.devices,
                        repeat: *old(repeat),
                        events: event_models(old(out).events@),
                        writes: old(out).writes@,
                    },
                    i as int,
                    seen.status,
                    seen.buffer@,
                    now,
                );
                &&& final(self)@ == (UhciModel { devices: p.devices, ..old(self)@ })
                &&& *final(repeat) == p.repeat
                &&& event_models(final(out).events@) == p.events
                &&& final(out).writes@ == p.writes
            }),
    {
        let d = self.devices[i];
        let ghost events = out.events@;
        let state = report_state(seen.status, d.report_len);
        match state {
            Report::Pending => {
                return ;
            },
            Report::Lost => {},
            Report::Arrived(len) => match d.kind {
                HidKind::Keyboard => {
                    let report = read_report(&seen.buffer, len);
                    let e = Event::Keyboard(
                        handle_keyboard_report(repeat, &d.prev_kbd, &report, now),
                    );
                    proof {
                        assert(event_models(events.push(e)) =~= event_models(events).push(e@));
                    }
                    out.events.push(e);
                    let d2 = HidDevice { prev_kbd: report, ..d };
                    self.devices.set(i, d2);
                },
                HidKind::Mouse => {
                    let e = Event::Mouse(read_movement(&seen.buffer, len));
                    proof {
                        assert(event_models(events.push(e)) =~= event_models(events).push(e@));
                    }
                    out.events.push(e);
                },
            },
        }
        out.writes.push(
            reactivate_interrupt_td(self.base, d.td_slot, d.addr, d.endpoint, d.report_len),
        );
    }

    /// Poll every device.
    pub fn poll(&mut self, seen: &Vec<Seen>, repeat: &mut Repeat, now: u64) -> (r: Polled)
        requires
            old(self)@.wf(),
            seen@.len() == old(self)@.devices.len(),
            forall|i: int| 0 <= i < seen@.len() ==> (#[trigger] seen@[i]).buffer@.len() >= 8,
            now <= u64::MAX - REPEAT_DELAY_US,
        ensures
            final(self)@.wf(),
            ({
                let p = polled(old(self)@, *old(repeat), seen@, now, seen@.len());
                &&& final(self)@ == (UhciModel { devices: p.devices, ..old(self)@ })
                &&& *final(repeat) == p.repeat
                &&& event_models(r.events@) == p.events
                &&& r.writes@ == p.writes
            }),
    {
        let mut out = Polled { events: Vec::new(), writes: Vec::new() };
        assert(event_models(out.events@) =~= Seq::empty());
        let n: usize = self.devices.len();
        let mut i: usize = 0;
        while i < n
            invariant
                i <= n,
                n == seen@.len(),
                n == self@.devices.len(),
                self@.wf(),
                forall|j: int| 0 <= j < seen@.len() ==> (#[trigger] seen@[j]).buffer@.len() >= 8,
                now <= u64::MAX - REPEAT_DELAY_US,
                ({
                    let p = polled(old(self)@, *old(repeat), seen@, now, i as nat);
                    &&& self@ == (UhciModel { devices: p.devices, ..old(self)@ })
                    &&& *repeat == p.repeat
                    &&& event_models(out.events@) == p.events
                    &&& out.writes@ == p.writes
                }),
            decreases n - i,
        {
            self.poll_one(i, &seen[i], repeat, now, &mut out);
            i = i + 1;
        }
        out
    }
}

// ── Status ──────────────────────────────────────────────────────────────────

pub open spec fn hex_width(n: u16) -> nat {
    if n < 0x10 {
        1
    } else if n < 0x100 {
        2
    } else if n < 0x1000 {
        3
    } else {
        4
    }
}

pub open spec fn device_text(d: HidDevice) -> Seq<char> {
    (match d.kind {
        HidKind::Keyboard => "kbd"@,
        HidKind::Mouse => "mouse"@,
    }) + "@"@ + text::decimal(d.addr as nat)
}

pub open spec fn parts_of(u: UhciModel) -> Seq<Seq<char>> {
    let hids = u.devices.map_values(|d: HidDevice| device_text(d));
    match u.msc {
        Some(m) => hids.push("mass-storage@"@ + text::decimal(m.addr as nat)),
        None => hids,
    }
}

pub open spec fn status_of(u: UhciModel) -> Seq<char> {
    "USB: UHCI @ I/O 0x"@ + words::hex(u.io_base as nat, hex_width(u.io_base)) + (if parts_of(
        u,
    ).len() == 0 {
        ", no devices (try -device usb-kbd -device usb-mouse -device usb-storage)"@
    } else {
        ", "@ + text::joined(parts_of(u), ", "@)
    })
}

fn device_line(d: &HidDevice) -> (r: String)
    ensures
        r@ == device_text(*d),
{
    let mut s = match d.kind {
        HidKind::Keyboard => "kbd".to_owned(),
        HidKind::Mouse => "mouse".to_owned(),
    };
    s.append("@");
    push_decimal(&mut s, d.addr as u64);
    s
}

impl Uhci {
    /// What is attached, in one line.
    pub fn status_line(&self) -> (r: String)
        ensures
            r@ == status_of(self@),
    {
        let mut parts: Vec<String> = Vec::new();
        let ghost hids = self.devices@.map_values(|d: HidDevice| device_text(d));
        let mut i: usize = 0;
        assert(text::strings(parts@) =~= hids.take(0));
        while i < self.devices.len()
            invariant
                i <= self.devices@.len(),
                hids == self.devices@.map_values(|d: HidDevice| device_text(d)),
                text::strings(parts@) == hids.take(i as int),
            decreases self.devices@.len() - i,
        {
            let line = device_line(&self.devices[i]);
            let ghost before = parts@;
            parts.push(line);
            proof {
                assert(hids[i as int] == line@);
                assert(hids.take(i + 1) =~= hids.take(i as int).push(line@));
                assert(text::strings(parts@) =~= text::strings(before).push(line@));
            }
            i = i + 1;
        }
        assert(hids.take(i as int) =~= hids);
        match &self.msc {
            Some(m) => {
                let mut s = "mass-storage@".to_owned();
                push_decimal(&mut s, m.addr as u64);
                parts.push(s);
                assert(text::strings(parts@) =~= hids.push(s@));
            },
            None => {},
        }
        assert(text::strings(parts@) =~= parts_of(self@));
        let width: usize = if self.io_base < 0x10 {
            1
        } else if self.io_base < 0x100 {
            2
        } else if self.io_base < 0x1000 {
            3
        } else {
            4
        };
        let mut s = "USB: UHCI @ I/O 0x".to_owned();
        push_hex(&mut s, self.io_base as u64, width);
        if parts.len() == 0 {
            s.append(", no devices (try -device usb-kbd -device usb-mouse -device usb-storage)");
        } else {
            s.append(", ");
            let list = join(&parts, ", ");
            s.append(list.as_str());
        }
        assert(s@ =~= status_of(self@));
        s
    }
}

/// A mouse report moves the pointer by its signed bytes, and its two lowest
/// bits are the buttons.
pub proof fn mouse_reports_are_read(buf: Seq<u8>, len: int)
    requires
        3 <= len <= buf.len(),
    ensures
        ({
            let m = movement(buf, len);
            &&& -128 <= m.dx <= 127 && (m.dx - buf[1]) % 256 == 0
            &&& -128 <= m.dy <= 127 && (m.dy - buf[2]) % 256 == 0
            &&& m.left <==> buf[0] as int % 2 == 1
            &&& m.right <==> buf[0] as int / 2 % 2 == 1
            &&& len == 3 ==> m.wheel == 0
            &&& len >= 4 ==> -128 <= m.wheel <= 127 && (m.wheel - buf[3]) % 256 == 0
        }),
{
    let b: u8 = buf[0];
    assert((b & 1 != 0) <==> b % 2 == 1) by (bit_vector);
    assert((b & 2 != 0) <==> b / 2 % 2 == 1) by (bit_vector);
    hid::signed_bytes_wrap(buf[1]);
    hid::signed_bytes_wrap(buf[2]);
    if len >= 4 {
        hid::signed_bytes_wrap(buf[3]);
    }
}

/// Devices that have nothing to say are left alone: nothing happened, and none
/// is asked anew.
pub proof fn busy_devices_are_left_alone(
    u: UhciModel,
    repeat: Repeat,
    seen: Seq<Seen>,
    now: u64,
    n: nat,
)
    requires
        n <= seen.len(),
        forall|i: int| 0 <= i < n ==> (#[trigger] seen[i]).status & uhci::TD_ACTIVE != 0,
    ensures
        polled(u, repeat, seen, now, n).events == Seq::<EventModel>::empty(),
        polled(u, repeat, seen, now, n).writes == Seq::<Placed>::empty(),
        polled(u, repeat, seen, now, n).devices == u.devices,
        polled(u, repeat, seen, now, n).repeat == repeat,
    decreases n,
{
    if n > 0 {
        busy_devices_are_left_alone(u, repeat, seen, now, (n - 1) as nat);
        assert(seen[n - 1].status & uhci::TD_ACTIVE != 0);
    }
}

} // verus!
