//! Attaching devices: reading their descriptors, giving them addresses and
//! setting them up, directly or behind a hub.
//!
//! The requests themselves go over the bus, which is not this library's: each
//! step says what to ask for next, and the next step is given the answer.

use vstd::prelude::*;

use crate::usb::uhci;
use crate::usb::uhci::{
    arm_interrupt_td, reactivate_interrupt_td, run_control, setup_packet, Placed, Plan,
    DATA_ROOM, FRAMES, LINK_TERM, MAX_DEVICES, MAX_PORTS, REPORT_BUF,
};

verus! {

// ── Descriptors ─────────────────────────────────────────────────────────────

#[derive(Clone, Copy, Debug, PartialEq, Eq, Structural)]
pub enum HidKind {
    Keyboard,
    Mouse,
}

/// Whether a whole descriptor stands at `i`.
pub open spec fn stands(cfg: Seq<u8>, i: int) -> bool {
    0 <= i && i + 1 < cfg.len() && cfg[i] >= 2 && i + cfg[i] <= cfg.len()
}

/// Whether it describes an interface, and whether an endpoint.
pub open spec fn is_interface(cfg: Seq<u8>, i: int) -> bool {
    cfg[i + 1] == 4 && cfg[i] >= 9
}

pub open spec fn is_endpoint(cfg: Seq<u8>, i: int) -> bool {
    cfg[i + 1] == 5 && cfg[i] >= 7
}

/// The class of the first interface from `i` on.
pub open spec fn class_from(cfg: Seq<u8>, i: int) -> Option<u8>
    decreases cfg.len() - i,
{
    if !stands(cfg, i) {
        None
    } else if is_interface(cfg, i) {
        Some(cfg[i + 5])
    } else {
        class_from(cfg, i + cfg[i])
    }
}

/// First interface class in a configuration descriptor, if any.
pub fn iface_class(cfg: &Vec<u8>) -> (r: Option<u8>)
    ensures
        r == class_from(cfg@, 0),
{
    let mut i: usize = 0;
    while i < cfg.len() && i + 1 < cfg.len()
        invariant
            i <= cfg@.len(),
            class_from(cfg@, 0) == class_from(cfg@, i as int),
        decreases cfg@.len() - i,
    {
        let len: usize = cfg[i] as usize;
        if len < 2 || len > cfg.len() - i {
            return None;
        }
        if cfg[i + 1] == 4 && len >= 9 {
            return Some(cfg[i + 5]);
        }
        i = i + len;
    }
    None
}

/// An interface as its descriptor describes it.
#[derive(Clone, Copy, Debug, PartialEq, Eq, Structural)]
pub struct Interface {
    pub number: u8,
    pub class: u8,
    pub sub: u8,
    pub proto: u8,
}

pub open spec fn interface_at(cfg: Seq<u8>, i: int) -> Interface {
    Interface { number: cfg[i + 2], class: cfg[i + 5], sub: cfg[i + 6], proto: cfg[i + 7] }
}

fn read_interface(cfg: &Vec<u8>, i: usize) -> (r: Interface)
    requires
        i + 9 <= cfg@.len(),
    ensures
        r == interface_at(cfg@, i as int),
{
    assert(cfg.len() == cfg@.len());
    Interface { number: cfg[i + 2], class: cfg[i + 5], sub: cfg[i + 6], proto: cfg[i + 7] }
}

/// What an interface is taken for. Boot keyboards and mice say so; some mice
/// give no protocol until one is set, and a HID that is not a boot device is
/// taken for a mouse.
pub open spec fn hid_kind(f: Interface) -> Option<HidKind> {
    if f.class == 3 && f.sub == 1 && f.proto == 1 {
        Some(HidKind::Keyboard)
    } else if f.class == 3 && f.sub == 1 && (f.proto == 2 || f.proto == 0) {
        Some(HidKind::Mouse)
    } else if f.class == 3 && f.sub == 0 {
        Some(HidKind::Mouse)
    } else {
        None
    }
}

fn kind_of(f: &Interface) -> (r: Option<HidKind>)
    ensures
        r == hid_kind(*f),
{
    if f.class == 3 && f.sub == 1 && f.proto == 1 {
        Some(HidKind::Keyboard)
    } else if f.class == 3 && f.sub == 1 && (f.proto == 2 || f.proto == 0) {
        Some(HidKind::Mouse)
    } else if f.class == 3 && f.sub == 0 {
        Some(HidKind::Mouse)
    } else {
        None
    }
}

/// A keyboard or mouse: its interface, its endpoint and that endpoint's
/// packet size.
#[derive(Clone, Copy, Debug, PartialEq, Eq, Structural)]
pub struct Boot {
    pub iface: u8,
    pub endpoint: u8,
    pub max_packet: u16,
    pub kind: HidKind,
}

pub open spec fn packet_size(cfg: Seq<u8>, i: int) -> u16 {
    let n = cfg[i + 4] + cfg[i + 5] * 256;
    if n < 1 {
        1
    } else {
        n as u16
    }
}

fn read_packet_size(cfg: &Vec<u8>, i: usize) -> (r: u16)
    requires
        i + 7 <= cfg@.len(),
    ensures
        r == packet_size(cfg@, i as int),
{
    assert(cfg.len() == cfg@.len());
    let n: u16 = cfg[i + 4] as u16 + cfg[i + 5] as u16 * 256;
    if n < 1 {
        1
    } else {
        n
    }
}

/// Whether an endpoint is one that reports come in over.
pub open spec fn reports(cfg: Seq<u8>, i: int) -> bool {
    cfg[i + 2] & 0x80 != 0 && cfg[i + 3] & 3 == 3
}

/// The first endpoint from `i` on that belongs to a keyboard or mouse and
/// brings in reports; `last` is the interface last seen.
pub open spec fn boot_from(cfg: Seq<u8>, i: int, last: Interface) -> Option<Boot>
    decreases cfg.len() - i,
{
    if !stands(cfg, i) {
        None
    } else if is_interface(cfg, i) {
        boot_from(cfg, i + cfg[i], interface_at(cfg, i))
    } else if is_endpoint(cfg, i) && hid_kind(last) is Some && reports(cfg, i) {
        Some(
            Boot {
                iface: last.number,
                endpoint: cfg[i + 2] & 0x0f,
                max_packet: packet_size(cfg, i),
                kind: hid_kind(last)->0,
            },
        )
    } else {
        boot_from(cfg, i + cfg[i], last)
    }
}

pub open spec fn no_interface() -> Interface {
    Interface { number: 0, class: 0, sub: 0, proto: 0 }
}

/// Walk a configuration descriptor for a HID boot keyboard or mouse.
pub fn parse_hid_boot(cfg: &Vec<u8>) -> (r: Option<Boot>)
    ensures
        r == boot_from(cfg@, 0, no_interface()),
{
    let mut i: usize = 0;
    let mut last = Interface { number: 0, class: 0, sub: 0, proto: 0 };
    while i < cfg.len() && i + 1 < cfg.len()
        invariant
            i <= cfg@.len(),
            boot_from(cfg@, 0, no_interface()) == boot_from(cfg@, i as int, last),
        decreases cfg@.len() - i,
    {
        let len: usize = cfg[i] as usize;
        if len < 2 || len > cfg.len() - i {
            return None;
        }
        if cfg[i + 1] == 4 && len >= 9 {
            last = read_interface(cfg, i);
        } else if cfg[i + 1] == 5 && len >= 7 {
            match kind_of(&last) {
                Some(kind) => {
                    if cfg[i + 2] & 0x80 != 0 && cfg[i + 3] & 3 == 3 {
                        return Some(
                            Boot {
                                iface: last.number,
                                endpoint: cfg[i + 2] & 0x0f,
                                max_packet: read_packet_size(cfg, i),
                                kind,
                            },
                        );
                    }
                },
                None => {},
            }
        }
        i = i + len;
    }
    None
}

/// A bulk endpoint and its packet size.
#[derive(Clone, Copy, Debug, PartialEq, Eq, Structural)]
pub struct Pipe {
    pub endpoint: u8,
    pub max_packet: u16,
}

/// The two bulk endpoints of a drive, for reading and for writing.
#[derive(Clone, Copy, Debug, PartialEq, Eq, Structural)]
pub struct Pipes {
    pub ep_in: Pipe,
    pub ep_out: Pipe,
}

/// What has been seen of a mass-storage device.
#[derive(Clone, Copy, Debug, PartialEq, Eq, Structural)]
pub struct Storage {
    pub iface: u8,
    pub is_msc: bool,
    pub ep_in: Option<Pipe>,
    pub ep_out: Option<Pipe>,
}

/// Whether an interface is mass storage over bulk-only transport, with any of
/// the command sets that make no difference to the transport.
pub open spec fn stores(f: Interface) -> bool {
    f.class == 8 && (f.sub == 2 || f.sub == 4 || f.sub == 5 || f.sub == 6) && f.proto == 0x50
}

pub open spec fn complete(s: Storage) -> bool {
    s.is_msc && s.ep_in is Some && s.ep_out is Some
}

pub open spec fn with_endpoint(cfg: Seq<u8>, i: int, s: Storage) -> Storage {
    let pipe = Some(Pipe { endpoint: cfg[i + 2] & 0x0f, max_packet: packet_size(cfg, i) });
    if cfg[i + 3] & 3 != 2 {
        s
    } else if cfg[i + 2] & 0x80 != 0 {
        Storage { ep_in: pipe, ..s }
    } else {
        Storage { ep_out: pipe, ..s }
    }
}

/// What has been seen at the end of the walk: of the first interface that is
/// complete when the next one begins, or else of the last one.
pub open spec fn storage_from(cfg: Seq<u8>, i: int, s: Storage) -> Storage
    decreases cfg.len() - i,
{
    if !stands(cfg, i) {
        s
    } else if is_interface(cfg, i) {
        if complete(s) {
            s
        } else {
            storage_from(
                cfg,
                i + cfg[i],
                Storage {
                    iface: cfg[i + 2],
                    is_msc: stores(interface_at(cfg, i)),
                    ep_in: None,
                    ep_out: None,
                },
            )
        }
    } else if is_endpoint(cfg, i) && s.is_msc {
        storage_from(cfg, i + cfg[i], with_endpoint(cfg, i, s))
    } else {
        storage_from(cfg, i + cfg[i], s)
    }
}

pub open spec fn no_storage() -> Storage {
    Storage { iface: 0, is_msc: false, ep_in: None, ep_out: None }
}

pub open spec fn msc_pipes(cfg: Seq<u8>) -> Option<Pipes> {
    let s = storage_from(cfg, 0, no_storage());
    match (s.ep_in, s.ep_out) {
        (Some(i), Some(o)) => Some(Pipes { ep_in: i, ep_out: o }),
        _ => None,
    }
}

/// Walk a configuration descriptor for a mass-storage interface: its two bulk
/// endpoints, for reading and for writing.
pub fn parse_msc(cfg: &Vec<u8>) -> (r: Option<Pipes>)
    ensures
        r == msc_pipes(cfg@),
{
    let mut i: usize = 0;
    let mut s = Storage { iface: 0, is_msc: false, ep_in: None, ep_out: None };
    let ghost goal = storage_from(cfg@, 0, no_storage());
    let mut go = true;
    while go && i < cfg.len() && i + 1 < cfg.len()
        invariant
            i <= cfg@.len(),
            go ==> goal == storage_from(cfg@, i as int, s),
            !go ==> goal == s,
        decreases (if go { 1int } else { 0 }), cfg@.len() - i,
    {
        let len: usize = cfg[i] as usize;
        if len < 2 || len > cfg.len() - i {
            go = false;
        } else if cfg[i + 1] == 4 && len >= 9 {
            if s.is_msc && s.ep_in.is_some() && s.ep_out.is_some() {
                go = false;
            } else {
                let f = read_interface(cfg, i);
                s = Storage {
                    iface: f.number,
                    is_msc: f.class == 8 && (f.sub == 2 || f.sub == 4 || f.sub == 5 || f.sub == 6)
                        && f.proto == 0x50,
                    ep_in: None,
                    ep_out: None,
                };
                i = i + len;
            }
        } else {
            if cfg[i + 1] == 5 && len >= 7 && s.is_msc {
                let pipe = Pipe {
                    endpoint: cfg[i + 2] & 0x0f,
                    max_packet: read_packet_size(cfg, i),
                };
                if cfg[i + 3] & 3 == 2 {
                    if cfg[i + 2] & 0x80 != 0 {
                        s = Storage { ep_in: Some(pipe), ..s };
                    } else {
                        s = Storage { ep_out: Some(pipe), ..s };
                    }
                }
            }
            i = i + len;
        }
    }
    assert(goal == s);
    match s.ep_in {
        Some(a) => match s.ep_out {
            Some(b) => Some(Pipes { ep_in: a, ep_out: b }),
            None => None,
        },
        None => None,
    }
}

// ── The controller's devices ────────────────────────────────────────────────

/// A keyboard or mouse that is polled.
#[derive(Clone, Copy, Debug, PartialEq, Eq)]
pub struct HidDevice {
    pub addr: u8,
    pub endpoint: u8,
    pub max_packet: u16,
    pub kind: HidKind,
    /// Which interrupt descriptor is its own.
    pub td_slot: usize,
    pub buf_off: usize,
    /// The last report of a keyboard.
    pub prev_kbd: [u8; 8],
    pub report_len: usize,
}

/// A drive: its bulk endpoints and their toggles.
#[derive(Clone, Copy, Debug, PartialEq, Eq, Structural)]
pub struct MscDevice {
    pub addr: u8,
    pub ep_in: u8,
    pub ep_out: u8,
    pub mps_in: u16,
    pub mps_out: u16,
    pub in_toggle: bool,
    pub out_toggle: bool,
}

/// A controller and what is attached to it.
pub struct Uhci {
    pub io_base: u16,
    /// Where the controller finds the shared memory.
    pub base: u32,
    /// The frame list, as it is while no transfer runs.
    pub frames: Vec<u32>,
    pub next_addr: u8,
    pub devices: Vec<HidDevice>,
    /// At most one drive.
    pub msc: Option<MscDevice>,
    pub msc_just_attached: bool,
    pub ports_seen: Vec<bool>,
}

pub ghost struct UhciModel {
    pub io_base: u16,
    pub base: u32,
    pub frames: Seq<u32>,
    pub next_addr: u8,
    pub devices: Seq<HidDevice>,
    pub msc: Option<MscDevice>,
    pub msc_just_attached: bool,
    pub ports_seen: Seq<bool>,
}

impl View for Uhci {
    type V = UhciModel;

    open spec fn view(&self) -> UhciModel {
        UhciModel {
            io_base: self.io_base,
            base: self.base,
            frames: self.frames@,
            next_addr: self.next_addr,
            devices: self.devices@,
            msc: self.msc,
            msc_just_attached: self.msc_just_attached,
            ports_seen: self.ports_seen@,
        }
    }
}

pub open spec fn report_length(k: HidKind) -> usize {
    match k {
        HidKind::Keyboard => 8,
        HidKind::Mouse => 4,
    }
}

impl UhciModel {
    /// No more devices than there are descriptors for, each with its own.
    pub open spec fn wf(self) -> bool {
        &&& uhci::reachable(self.base)
        &&& self.frames.len() == FRAMES
        &&& self.ports_seen.len() == MAX_PORTS
        &&& self.devices.len() <= MAX_DEVICES
        &&& forall|i: int| #![trigger self.devices[i]]
            0 <= i < self.devices.len() ==> {
                &&& self.devices[i].td_slot == i
                &&& self.devices[i].buf_off == REPORT_BUF + i * 16
                &&& self.devices[i].report_len == report_length(self.devices[i].kind)
            }
        &&& self.msc is Some ==> 1 <= (self.msc->0).mps_in <= 64 && 1 <= (self.msc->0).mps_out <= 64
    }

    /// Without devices, and with an empty frame list.
    pub open spec fn fresh(io_base: u16, base: u32) -> UhciModel {
        UhciModel {
            io_base,
            base,
            frames: Seq::new(FRAMES as nat, |i: int| LINK_TERM),
            next_addr: 1,
            devices: Seq::empty(),
            msc: None,
            msc_just_attached: false,
            ports_seen: seq![false, false],
        }
    }
}

impl Uhci {
    pub fn new(io_base: u16, base: u32) -> (r: Self)
        requires
            uhci::reachable(base),
        ensures
            r@ == UhciModel::fresh(io_base, base),
            r@.wf(),
    {
        let mut frames: Vec<u32> = Vec::new();
        let mut i: usize = 0;
        while i < FRAMES
            invariant
                i <= FRAMES,
                frames@ == Seq::new(i as nat, |j: int| LINK_TERM),
            decreases FRAMES - i,
        {
            frames.push(LINK_TERM);
            i = i + 1;
            assert(frames@ =~= Seq::new(i as nat, |j: int| LINK_TERM));
        }
        let mut ports_seen: Vec<bool> = Vec::new();
        ports_seen.push(false);
        ports_seen.push(false);
        assert(ports_seen@ =~= seq![false, false]);
        Uhci {
            io_base,
            base,
            frames,
            next_addr: 1,
            devices: Vec::new(),
            msc: None,
            msc_just_attached: false,
            ports_seen,
        }
    }

    /// Whether a port is worth looking at: nothing has been seen on it, and
    /// there is room for a device.
    pub fn wants_port(&self, port: usize) -> (r: bool)
        requires
            self@.wf(),
            port < MAX_PORTS,
        ensures
            r == (!self@.ports_seen[port as int] && self@.devices.len() < MAX_DEVICES),
    {
        !self.ports_seen[port] && self.devices.len() < MAX_DEVICES
    }

    /// Note that a port has been reset with a device on it.
    pub fn see_port(&mut self, port: usize)
        requires
            old(self)@.wf(),
            port < MAX_PORTS,
        ensures
            final(self)@ == (UhciModel {
                ports_seen: old(self)@.ports_seen.update(port as int, true),
                ..old(self)@
            }),
            final(self)@.wf(),
    {
        self.ports_seen.set(port, true);
    }

    pub fn has_msc(&self) -> (r: bool)
        ensures
            r == (self@.msc is Some),
    {
        self.msc.is_some()
    }

    /// Consume the "a mass-storage device just showed up" flag.
    pub fn take_msc_just_attached(&mut self) -> (r: bool)
        ensures
            r == old(self)@.msc_just_attached,
            final(self)@ == (UhciModel { msc_just_attached: false, ..old(self)@ }),
    {
        let r = self.msc_just_attached;
        self.msc_just_attached = false;
        r
    }

    /// Stop looking for devices once there is room for no more.
    pub fn is_full(&self) -> (r: bool)
        ensures
            r == (self@.devices.len() >= MAX_DEVICES),
    {
        self.devices.len() >= MAX_DEVICES
    }
}

// ── Requests ────────────────────────────────────────────────────────────────

/// A control request, after a wait of so many milliseconds. `len` bytes are to
/// be read; where it is 0, there is no data.
#[derive(Clone, Copy, Debug, PartialEq, Eq, Structural)]
pub struct Ask {
    pub wait: u32,
    pub addr: u8,
    pub bm: u8,
    pub req: u8,
    pub value: u16,
    pub index: u16,
    pub len: usize,
    pub max_packet: u16,
}

pub open spec fn at_least_8(mps: u16) -> u16 {
    if mps < 8 {
        8
    } else {
        mps
    }
}

/// The transfer of a request: what goes into the setup buffer, and the plan.
/// `None` where it takes too many descriptors, and so fails.
pub fn control_in(u: &Uhci, ask: &Ask) -> (r: Option<(Vec<u8>, Plan)>)
    requires
        u@.wf(),
        0 < ask.len <= DATA_ROOM,
    ensures
        ({
            let mps = at_least_8(ask.max_packet) as int;
            match r {
                Some((setup, plan)) => {
                    &&& uhci::packets(ask.len as int, mps) + 2 <= uhci::MAX_TDS
                    &&& setup@ == uhci::setup_bytes(
                        ask.bm,
                        ask.req,
                        ask.value,
                        ask.index,
                        ask.len as nat,
                    )
                    &&& plan.tds@ == uhci::control_tds(u@.base, ask.addr, ask.len as int, true, mps)
                    &&& plan.watch == uhci::CTRL_TD + 16 + uhci::packets(ask.len as int, mps) * 16
                },
                None => uhci::packets(ask.len as int, mps) + 2 > uhci::MAX_TDS,
            }
        }),
{
    let mps: u16 = if ask.max_packet < 8 { 8 } else { ask.max_packet };
    match run_control(u.base, ask.addr, ask.len, true, mps) {
        Some(plan) => Some((setup_packet(ask.bm, ask.req, ask.value, ask.index, ask.len), plan)),
        None => None,
    }
}

/// Most bytes that a control request may send.
pub const MAX_OUT: usize = 64;

/// The transfer of a request that sends data, or none. `None` where it is too
/// much.
pub fn control_out(u: &Uhci, ask: &Ask, data: &Vec<u8>) -> (r: Option<(Vec<u8>, Plan)>)
    requires
        u@.wf(),
    ensures
        ({
            let mps = at_least_8(ask.max_packet) as int;
            let n = data@.len() as int;
            match r {
                Some((setup, plan)) => {
                    &&& n <= MAX_OUT
                    &&& setup@ == uhci::setup_bytes(
                        ask.bm,
                        ask.req,
                        ask.value,
                        ask.index,
                        n as nat,
                    )
                    &&& plan.tds@ == uhci::control_tds(u@.base, ask.addr, n, false, mps)
                    &&& plan.watch == uhci::CTRL_TD + 16 + uhci::packets(n, mps) * 16
                },
                None => n > MAX_OUT,
            }
        }),
{
    if data.len() > MAX_OUT {
        return None;
    }
    let mps: u16 = if ask.max_packet < 8 { 8 } else { ask.max_packet };
    proof {
        let n = data@.len() as int;
        let m = mps as int;
        assert((n + m - 1) / m <= 8) by (nonlinear_arith)
            requires
                0 <= n <= 64,
                m >= 8,
        ;
    }
    match run_control(u.base, ask.addr, data.len(), false, mps) {
        Some(plan) => Some((setup_packet(ask.bm, ask.req, ask.value, ask.index, data.len()), plan)),
        None => None,
    }
}

pub open spec fn get_descriptor(addr: u8, value: u16, len: usize, mps: u16) -> Ask {
    Ask { wait: 0, addr, bm: 0x80, req: 6, value, index: 0, len, max_packet: mps }
}

pub open spec fn set_configuration(addr: u8, value: u8, mps: u16) -> Ask {
    Ask { wait: 0, addr, bm: 0, req: 9, value: value as u16, index: 0, len: 0, max_packet: mps }
}

pub open spec fn hid_request(addr: u8, req: u8, iface: u8, mps: u16) -> Ask {
    Ask { wait: 0, addr, bm: 0x21, req, value: 0, index: iface as u16, len: 0, max_packet: mps }
}

fn ask_descriptor(addr: u8, value: u16, len: usize, mps: u16) -> (r: Ask)
    ensures
        r == get_descriptor(addr, value, len, mps),
{
    Ask { wait: 0, addr, bm: 0x80, req: 6, value, index: 0, len, max_packet: mps }
}

fn ask_configuration(addr: u8, value: u8, mps: u16) -> (r: Ask)
    ensures
        r == set_configuration(addr, value, mps),
{
    Ask { wait: 0, addr, bm: 0, req: 9, value: value as u16, index: 0, len: 0, max_packet: mps }
}

fn ask_hid(addr: u8, req: u8, iface: u8, mps: u16) -> (r: Ask)
    ensures
        r == hid_request(addr, req, iface, mps),
{
    Ask { wait: 0, addr, bm: 0x21, req, value: 0, index: iface as u16, len: 0, max_packet: mps }
}

// ── A device ────────────────────────────────────────────────────────────────

/// How far the attaching of a device has come: what has been asked for.
#[derive(Clone, Copy, Debug, PartialEq, Eq, Structural)]
pub enum Stage {
    /// The first eight bytes of its descriptor.
    First,
    /// To take an address.
    Address { mps: u16, class: u8 },
    /// The whole of its descriptor.
    Describe { addr: u8, mps: u16, class: u8 },
    /// The head of its configuration, and then all of it.
    Header { addr: u8, mps: u16 },
    Config { addr: u8, mps: u16, total: usize },
    /// To take its configuration, as a hub that does not say so at first.
    HubInterface { addr: u8, mps: u16 },
    /// To take its configuration, the boot protocol and to report only changes.
    Configure { addr: u8, mps: u16, boot: Boot },
    Protocol { addr: u8, mps: u16, boot: Boot },
    Idle { addr: u8, mps: u16, boot: Boot },
    /// The head of its configuration and all of it, as a drive.
    MscHeader { addr: u8, mps: u16 },
    MscConfig { addr: u8, mps: u16, total: usize },
    /// To take its configuration, as a drive.
    MscConfigure { addr: u8, mps: u16, pipes: Pipes },
}

/// What is to be done next.
#[derive(Clone, Copy, Debug, PartialEq, Eq, Structural)]
pub enum Next {
    /// Ask this, and come back with the answer.
    Ask(Stage, Ask),
    /// It is a hub: attach what is behind it. If the flag is set, come back
    /// afterwards.
    Hub(u8, u16, bool),
    /// It is a keyboard or mouse: write this descriptor and the frame list.
    Armed(Placed),
    /// There is nothing more to do.
    Done,
}

/// How many bytes are asked for at a stage.
pub open spec fn asked(s: Stage) -> nat {
    match s {
        Stage::First => 8,
        Stage::Describe { .. } => 18,
        Stage::Header { .. } => 9,
        Stage::MscHeader { .. } => 9,
        Stage::Config { total, .. } => total as nat,
        Stage::MscConfig { total, .. } => total as nat,
        _ => 0,
    }
}

/// What the stages hold to.
pub open spec fn sound(s: Stage) -> bool {
    match s {
        Stage::Config { total, .. } => 9 < total <= 256,
        Stage::MscConfig { total, .. } => 9 < total <= 256,
        _ => true,
    }
}

pub open spec fn fits(s: Stage, answer: Option<Seq<u8>>) -> bool {
    answer matches Some(v) ==> v.len() == asked(s)
}

/// How long a configuration is, by its head.
pub open spec fn total_length(h: Seq<u8>) -> int {
    h[2] + h[3] * 256
}

/// Not a keyboard or mouse: try it as a drive, if there is none yet.
pub open spec fn otherwise(u: UhciModel, addr: u8, mps: u16) -> Next {
    if u.msc is None {
        Next::Ask(Stage::MscHeader { addr, mps }, get_descriptor(addr, 0x200, 9, mps))
    } else {
        Next::Done
    }
}

/// What is made of its configuration.
pub open spec fn classified(u: UhciModel, addr: u8, mps: u16, cfg: Seq<u8>) -> Next {
    if class_from(cfg, 0) == Some(9u8) {
        Next::Ask(Stage::HubInterface { addr, mps }, set_configuration(addr, cfg[5], mps))
    } else {
        match boot_from(cfg, 0, no_interface()) {
            Some(boot) => Next::Ask(
                Stage::Configure { addr, mps, boot },
                set_configuration(addr, cfg[5], mps),
            ),
            None => otherwise(u, addr, mps),
        }
    }
}

/// What is made of a drive's configuration.
pub open spec fn classified_msc(addr: u8, mps: u16, cfg: Seq<u8>) -> Next {
    match msc_pipes(cfg) {
        Some(pipes) => Next::Ask(
            Stage::MscConfigure { addr, mps, pipes },
            set_configuration(addr, cfg[5], mps),
        ),
        None => Next::Done,
    }
}

/// The next device in a free slot.
pub open spec fn new_device(u: UhciModel, addr: u8, boot: Boot) -> HidDevice {
    HidDevice {
        addr,
        endpoint: boot.endpoint,
        max_packet: boot.max_packet,
        kind: boot.kind,
        td_slot: u.devices.len() as usize,
        buf_off: (REPORT_BUF + u.devices.len() * 16) as usize,
        prev_kbd: [0u8, 0u8, 0u8, 0u8, 0u8, 0u8, 0u8, 0u8],
        report_len: report_length(boot.kind),
    }
}

pub open spec fn with_device(u: UhciModel, addr: u8, boot: Boot) -> UhciModel {
    UhciModel {
        devices: u.devices.push(new_device(u, addr, boot)),
        frames: uhci::armed(u.frames, u.base, u.devices.len() as int),
        ..u
    }
}

pub open spec fn clamped(mps: u16) -> u16 {
    uhci::bulk_mps(mps) as u16
}

pub open spec fn with_drive(u: UhciModel, addr: u8, pipes: Pipes) -> UhciModel {
    UhciModel {
        msc: Some(
            MscDevice {
                addr,
                ep_in: pipes.ep_in.endpoint,
                ep_out: pipes.ep_out.endpoint,
                mps_in: clamped(pipes.ep_in.max_packet),
                mps_out: clamped(pipes.ep_out.max_packet),
                in_toggle: false,
                out_toggle: false,
            },
        ),
        msc_just_attached: true,
        ..u
    }
}

pub open spec fn address_after(a: u8) -> u8 {
    if a == 255 {
        255
    } else {
        (a + 1) as u8
    }
}

pub open spec fn first_packet_size(d: Seq<u8>) -> u16 {
    if d[7] == 0 {
        8
    } else {
        d[7] as u16
    }
}

/// What follows an answer, and what it makes of the controller's devices.
pub open spec fn attached(u: UhciModel, s: Stage, answer: Option<Seq<u8>>) -> (UhciModel, Next) {
    match s {
        Stage::First => match answer {
            None => (u, Next::Done),
            Some(d) => (
                u,
                Next::Ask(
                    Stage::Address { mps: first_packet_size(d), class: d[4] },
                    Ask {
                        wait: 0,
                        addr: 0,
                        bm: 0,
                        req: 5,
                        value: u.next_addr as u16,
                        index: 0,
                        len: 0,
                        max_packet: 8,
                    },
                ),
            ),
        },
        Stage::Address { mps, class } => match answer {
            None => (u, Next::Done),
            Some(_) => (
                UhciModel { next_addr: address_after(u.next_addr), ..u },
                Next::Ask(
                    Stage::Describe { addr: u.next_addr, mps, class },
                    get_descriptor(u.next_addr, 0x100, 18, mps),
                ),
            ),
        },
        Stage::Describe { addr, mps, class } => {
            let c = match answer {
                Some(d) => d[4],
                None => class,
            };
            if c == 9 {
                (u, Next::Hub(addr, mps, false))
            } else {
                (u, Next::Ask(Stage::Header { addr, mps }, get_descriptor(addr, 0x200, 9, mps)))
            }
        },
        Stage::Header { addr, mps } => match answer {
            None => (u, otherwise(u, addr, mps)),
            Some(h) => if total_length(h) < 9 || total_length(h) > 256 {
                (u, otherwise(u, addr, mps))
            } else if total_length(h) == 9 {
                (u, classified(u, addr, mps, h))
            } else {
                (
                    u,
                    Next::Ask(
                        Stage::Config { addr, mps, total: total_length(h) as usize },
                        get_descriptor(addr, 0x200, total_length(h) as usize, mps),
                    ),
                )
            },
        },
        Stage::Config { addr, mps, .. } => match answer {
            None => (u, otherwise(u, addr, mps)),
            Some(cfg) => (u, classified(u, addr, mps, cfg)),
        },
        Stage::HubInterface { addr, mps } => (u, Next::Hub(addr, mps, true)),
        Stage::Configure { addr, mps, boot } => match answer {
            None => (u, otherwise(u, addr, mps)),
            Some(_) => (
                u,
                Next::Ask(
                    Stage::Protocol { addr, mps, boot },
                    hid_request(addr, 0x0b, boot.iface, mps),
                ),
            ),
        },
        Stage::Protocol { addr, mps, boot } => (
            u,
            Next::Ask(Stage::Idle { addr, mps, boot }, hid_request(addr, 0x0a, boot.iface, mps)),
        ),
        Stage::Idle { addr, mps, boot } => (
            with_device(u, addr, boot),
            Next::Armed(
                uhci::interrupt_td(
                    u.base,
                    u.devices.len() as int,
                    addr,
                    boot.endpoint,
                    report_length(boot.kind) as int,
                ),
            ),
        ),
        Stage::MscHeader { addr, mps } => match answer {
            None => (u, Next::Done),
            Some(h) => if total_length(h) < 9 || total_length(h) > 256 {
                (u, Next::Done)
            } else if total_length(h) == 9 {
                (u, classified_msc(addr, mps, h))
            } else {
                (
                    u,
                    Next::Ask(
                        Stage::MscConfig { addr, mps, total: total_length(h) as usize },
                        get_descriptor(addr, 0x200, total_length(h) as usize, mps),
                    ),
                )
            },
        },
        Stage::MscConfig { addr, mps, .. } => match answer {
            None => (u, Next::Done),
            Some(cfg) => (u, classified_msc(addr, mps, cfg)),
        },
        Stage::MscConfigure { addr, mps, pipes } => match answer {
            None => (u, Next::Done),
            Some(_) => (with_drive(u, addr, pipes), Next::Done),
        },
    }
}

pub open spec fn answer_of(a: Option<Vec<u8>>) -> Option<Seq<u8>> {
    match a {
        Some(v) => Some(v@),
        None => None,
    }
}

/// Begin with whatever answers at address 0 after a port was reset.
pub fn attach_from_address0() -> (r: (Stage, Ask))
    ensures
        r == (Stage::First, get_descriptor(0, 0x100, 8, 8)),
{
    (Stage::First, ask_descriptor(0, 0x100, 8, 8))
}

/// Go on where it is no keyboard or mouse, or where what is behind a hub has
/// been attached.
pub fn try_msc(u: &Uhci, addr: u8, mps: u16) -> (r: Next)
    ensures
        r == otherwise(u@, addr, mps),
{
    if u.msc.is_none() {
        Next::Ask(Stage::MscHeader { addr, mps }, ask_descriptor(addr, 0x200, 9, mps))
    } else {
        Next::Done
    }
}

fn classify(u: &Uhci, addr: u8, mps: u16, cfg: &Vec<u8>) -> (r: Next)
    requires
        cfg@.len() >= 9,
    ensures
        r == classified(u@, addr, mps, cfg@),
{
    match iface_class(cfg) {
        Some(c) => {
            if c == 9 {
                return Next::Ask(
                    Stage::HubInterface { addr, mps },
                    ask_configuration(addr, cfg[5], mps),
                );
            }
        },
        None => {},
    }
    match parse_hid_boot(cfg) {
        Some(boot) => Next::Ask(
            Stage::Configure { addr, mps, boot },
            ask_configuration(addr, cfg[5], mps),
        ),
        None => try_msc(u, addr, mps),
    }
}

fn classify_msc(addr: u8, mps: u16, cfg: &Vec<u8>) -> (r: Next)
    requires
        cfg@.len() >= 9,
    ensures
        r == classified_msc(addr, mps, cfg@),
{
    match parse_msc(cfg) {
        Some(pipes) => Next::Ask(
            Stage::MscConfigure { addr, mps, pipes },
            ask_configuration(addr, cfg[5], mps),
        ),
        None => Next::Done,
    }
}

fn length_of(h: &Vec<u8>) -> (r: usize)
    requires
        h@.len() >= 9,
    ensures
        r == total_length(h@),
{
    h[2] as usize + h[3] as usize * 256
}

/// Set up a keyboard or mouse: it takes the next slot, and the frames that
/// belong to it.
pub fn finish_hid_attach(u: &mut Uhci, addr: u8, boot: Boot) -> (r: Placed)
    requires
        old(u)@.wf(),
        old(u)@.devices.len() < MAX_DEVICES,
    ensures
        final(u)@ == with_device(old(u)@, addr, boot),
        final(u)@.wf(),
        r == uhci::interrupt_td(
            old(u)@.base,
            old(u)@.devices.len() as int,
            addr,
            boot.endpoint,
            report_length(boot.kind) as int,
        ),
{
    let slot: usize = u.devices.len();
    let report_len: usize = match boot.kind {
        HidKind::Keyboard => 8,
        HidKind::Mouse => 4,
    };
    let td = reactivate_interrupt_td(u.base, slot, addr, boot.endpoint, report_len);
    arm_interrupt_td(&mut u.frames, u.base, slot);
    let d = HidDevice {
        addr,
        endpoint: boot.endpoint,
        max_packet: boot.max_packet,
        kind: boot.kind,
        td_slot: slot,
        buf_off: REPORT_BUF + slot * 16,
        prev_kbd: [0u8, 0u8, 0u8, 0u8, 0u8, 0u8, 0u8, 0u8],
        report_len,
    };
    u.devices.push(d);
    td
}

/// Set up a drive.
pub fn finish_msc_attach(u: &mut Uhci, addr: u8, pipes: Pipes)
    requires
        old(u)@.wf(),
    ensures
        final(u)@ == with_drive(old(u)@, addr, pipes),
        final(u)@.wf(),
{
    let a = pipes.ep_in;
    let b = pipes.ep_out;
    let mps_in: u16 = if a.max_packet < 1 {
        1
    } else if a.max_packet > 64 {
        64
    } else {
        a.max_packet
    };
    let mps_out: u16 = if b.max_packet < 1 {
        1
    } else if b.max_packet > 64 {
        64
    } else {
        b.max_packet
    };
    u.msc = Some(
        MscDevice {
            addr,
            ep_in: a.endpoint,
            ep_out: b.endpoint,
            mps_in,
            mps_out,
            in_toggle: false,
            out_toggle: false,
        },
    );
    u.msc_just_attached = true;
}

/// Take the answer to a request, and say what to do next.
pub fn attach_step(u: &mut Uhci, s: Stage, answer: Option<Vec<u8>>) -> (r: Next)
    requires
        old(u)@.wf(),
        s is Idle ==> old(u)@.devices.len() < MAX_DEVICES,
        sound(s),
        fits(s, answer_of(answer)),
    ensures
        (final(u)@, r) == attached(old(u)@, s, answer_of(answer)),
        final(u)@.wf(),
        r matches Next::Ask(t, a) ==> sound(t) && a.len == asked(t),
{
    match s {
        Stage::First => match answer {
            None => Next::Done,
            Some(d) => {
                let mps: u16 = if d[7] == 0 { 8 } else { d[7] as u16 };
                Next::Ask(
                    Stage::Address { mps, class: d[4] },
                    Ask {
                        wait: 0,
                        addr: 0,
                        bm: 0,
                        req: 5,
                        value: u.next_addr as u16,
                        index: 0,
                        len: 0,
                        max_packet: 8,
                    },
                )
            },
        },
        Stage::Address { mps, class } => match answer {
            None => Next::Done,
            Some(_) => {
                let addr: u8 = u.next_addr;
                if addr < 255 {
                    u.next_addr = addr + 1;
                }
                Next::Ask(
                    Stage::Describe { addr, mps, class },
                    ask_descriptor(addr, 0x100, 18, mps),
                )
            },
        },
        Stage::Describe { addr, mps, class } => {
            let c: u8 = match answer {
                Some(d) => d[4],
                None => class,
            };
            if c == 9 {
                Next::Hub(addr, mps, false)
            } else {
                Next::Ask(Stage::Header { addr, mps }, ask_descriptor(addr, 0x200, 9, mps))
            }
        },
        Stage::Header { addr, mps } => match answer {
            None => try_msc(u, addr, mps),
            Some(h) => {
                let total: usize = length_of(&h);
                if total < 9 || total > 256 {
                    try_msc(u, addr, mps)
                } else if total == 9 {
                    classify(u, addr, mps, &h)
                } else {
                    Next::Ask(
                        Stage::Config { addr, mps, total },
                        ask_descriptor(addr, 0x200, total, mps),
                    )
                }
            },
        },
        Stage::Config { addr, mps, .. } => match answer {
            None => try_msc(u, addr, mps),
            Some(cfg) => classify(u, addr, mps, &cfg),
        },
        Stage::HubInterface { addr, mps } => Next::Hub(addr, mps, true),
        Stage::Configure { addr, mps, boot } => match answer {
            None => try_msc(u, addr, mps),
            Some(_) => Next::Ask(
                Stage::Protocol { addr, mps, boot },
                ask_hid(addr, 0x0b, boot.iface, mps),
            ),
        },
        Stage::Protocol { addr, mps, boot } => Next::Ask(
            Stage::Idle { addr, mps, boot },
            ask_hid(addr, 0x0a, boot.iface, mps),
        ),
        Stage::Idle { addr, boot, .. } => Next::Armed(finish_hid_attach(u, addr, boot)),
        Stage::MscHeader { addr, mps } => match answer {
            None => Next::Done,
            Some(h) => {
                let total: usize = length_of(&h);
                if total < 9 || total > 256 {
                    Next::Done
                } else if total == 9 {
                    classify_msc(addr, mps, &h)
                } else {
                    Next::Ask(
                        Stage::MscConfig { addr, mps, total },
                        ask_descriptor(addr, 0x200, total, mps),
                    )
                }
            },
        },
        Stage::MscConfig { addr, mps, .. } => match answer {
            None => Next::Done,
            Some(cfg) => classify_msc(addr, mps, &cfg),
        },
        Stage::MscConfigure { addr, pipes, .. } => match answer {
            None => Next::Done,
            Some(_) => {
                finish_msc_attach(u, addr, pipes);
                Next::Done
            },
        },
    }
}

/// How many more requests there can be.
pub open spec fn requests_left(s: Stage) -> nat {
    match s {
        Stage::First => 11,
        Stage::Address { .. } => 10,
        Stage::Describe { .. } => 9,
        Stage::Header { .. } => 8,
        Stage::Config { .. } => 7,
        Stage::HubInterface { .. } => 6,
        Stage::Configure { .. } => 6,
        Stage::Protocol { .. } => 5,
        Stage::Idle { .. } => 4,
        Stage::MscHeader { .. } => 3,
        Stage::MscConfig { .. } => 2,
        Stage::MscConfigure { .. } => 1,
    }
}

/// Attaching a device comes to an end, whatever it answers.
pub proof fn attaching_ends(u: UhciModel, s: Stage, answer: Option<Seq<u8>>)
    ensures
        attached(u, s, answer).1 matches Next::Ask(t, _) ==> requests_left(t) < requests_left(s),
{
}

/// Attaching a device takes nothing away from those that are attached
/// already, and changes neither the frames that they use nor the drive.
pub proof fn attached_devices_stay(u: UhciModel, s: Stage, answer: Option<Seq<u8>>, i: int, f: int)
    requires
        u.wf(),
        s is Idle ==> u.devices.len() < MAX_DEVICES,
        0 <= i < u.devices.len(),
        i <= f < FRAMES,
        (f - i) % 8 == 0,
        u.msc is Some ==> !(s is MscConfigure),
    ensures
        ({
            let w = attached(u, s, answer).0;
            &&& w.devices[i] == u.devices[i]
            &&& w.frames[f] == u.frames[f]
            &&& u.msc is Some ==> w.msc == u.msc
        }),
{
}

/// A drive is looked for only while there is none.
pub proof fn one_drive_at_most(u: UhciModel, s: Stage, answer: Option<Seq<u8>>)
    requires
        u.msc is Some,
        !(s is MscHeader || s is MscConfig || s is MscConfigure),
    ensures
        attached(u, s, answer).1 matches Next::Ask(t, _) ==> !(t is MscHeader || t is MscConfig
            || t is MscConfigure),
{
}

// ── A hub ───────────────────────────────────────────────────────────────────

/// How far a hub has come: what has been asked of it. Ports count from 1.
#[derive(Clone, Copy, Debug, PartialEq, Eq, Structural)]
pub enum HubStage {
    Header,
    Configure,
    Descriptor,
    Power { ports: u8, port: u8 },
    Status { ports: u8, port: u8 },
    Reset { ports: u8, port: u8 },
    Settle { ports: u8, port: u8, tries: u8 },
    ClearReset { ports: u8, port: u8 },
    ClearConnection { ports: u8, port: u8 },
    /// A device is being attached.
    Attach { ports: u8, port: u8 },
}

#[derive(Clone, Copy, Debug, PartialEq, Eq, Structural)]
pub enum HubNext {
    Ask(HubStage, Ask),
    /// Wait 10 ms, attach what answers at address 0, and come back.
    Attach(HubStage),
    Done,
}

pub open spec fn hub_asked(s: HubStage) -> nat {
    match s {
        HubStage::Header => 9,
        HubStage::Descriptor => 9,
        HubStage::Status { .. } => 4,
        HubStage::Settle { .. } => 4,
        _ => 0,
    }
}

pub open spec fn hub_sound(s: HubStage) -> bool {
    match s {
        HubStage::Header => true,
        HubStage::Configure => true,
        HubStage::Descriptor => true,
        HubStage::Power { ports, port } => 1 <= port <= ports <= 8,
        HubStage::Status { ports, port } => 1 <= port <= ports <= 8,
        HubStage::Reset { ports, port } => 1 <= port <= ports <= 8,
        HubStage::Settle { ports, port, tries } => 1 <= port <= ports <= 8 && tries < 20,
        HubStage::ClearReset { ports, port } => 1 <= port <= ports <= 8,
        HubStage::ClearConnection { ports, port } => 1 <= port <= ports <= 8,
        HubStage::Attach { ports, port } => 1 <= port <= ports <= 8,
    }
}

/// A request about a port that sends nothing, and one for a port's state.
pub open spec fn port_request(addr: u8, req: u8, feature: u16, port: u8, mps: u16) -> Ask {
    Ask {
        wait: 0,
        addr,
        bm: 0x23,
        req,
        value: feature,
        index: port as u16,
        len: 0,
        max_packet: mps,
    }
}

pub open spec fn port_status(addr: u8, port: u8, wait: u32, mps: u16) -> Ask {
    Ask { wait, addr, bm: 0xa3, req: 0, value: 0, index: port as u16, len: 4, max_packet: mps }
}

fn ask_port(addr: u8, req: u8, feature: u16, port: u8, mps: u16) -> (r: Ask)
    ensures
        r == port_request(addr, req, feature, port, mps),
{
    Ask {
        wait: 0,
        addr,
        bm: 0x23,
        req,
        value: feature,
        index: port as u16,
        len: 0,
        max_packet: mps,
    }
}

fn ask_status(addr: u8, port: u8, wait: u32, mps: u16) -> (r: Ask)
    ensures
        r == port_status(addr, port, wait, mps),
{
    Ask { wait, addr, bm: 0xa3, req: 0, value: 0, index: port as u16, len: 4, max_packet: mps }
}

/// Look at a port next, if there is one and room for a device.
pub open spec fn look_at(n: nat, addr: u8, mps: u16, ports: u8, port: int, wait: u32) -> HubNext {
    if port > ports || n >= MAX_DEVICES {
        HubNext::Done
    } else {
        HubNext::Ask(
            HubStage::Status { ports, port: port as u8 },
            port_status(addr, port as u8, wait, mps),
        )
    }
}

pub open spec fn port_count(d: Seq<u8>) -> u8 {
    if d[2] < 1 {
        1
    } else if d[2] > 8 {
        8
    } else {
        d[2]
    }
}

/// What follows an answer of a hub, when there are `n` devices.
pub open spec fn hub_next(
    n: nat,
    addr: u8,
    mps: u16,
    s: HubStage,
    answer: Option<Seq<u8>>,
) -> HubNext {
    match s {
        HubStage::Header => match answer {
            None => HubNext::Done,
            Some(h) => HubNext::Ask(HubStage::Configure, set_configuration(addr, h[5], mps)),
        },
        HubStage::Configure => match answer {
            None => HubNext::Done,
            Some(_) => HubNext::Ask(
                HubStage::Descriptor,
                Ask {
                    wait: 0,
                    addr,
                    bm: 0xa0,
                    req: 6,
                    value: 0x2900,
                    index: 0,
                    len: 9,
                    max_packet: mps,
                },
            ),
        },
        HubStage::Descriptor => match answer {
            None => HubNext::Done,
            Some(d) => HubNext::Ask(
                HubStage::Power { ports: port_count(d), port: 1 },
                port_request(addr, 3, 8, 1, mps),
            ),
        },
        HubStage::Power { ports, port } => if port < ports {
            HubNext::Ask(
                HubStage::Power { ports, port: (port + 1) as u8 },
                port_request(addr, 3, 8, (port + 1) as u8, mps),
            )
        } else {
            look_at(n, addr, mps, ports, 1, 100)
        },
        HubStage::Status { ports, port } => match answer {
            None => look_at(n, addr, mps, ports, port + 1, 0),
            Some(st) => if st[0] & 1 == 0 {
                look_at(n, addr, mps, ports, port + 1, 0)
            } else {
                HubNext::Ask(HubStage::Reset { ports, port }, port_request(addr, 3, 4, port, mps))
            },
        },
        HubStage::Reset { ports, port } => HubNext::Ask(
            HubStage::Settle { ports, port, tries: 0 },
            port_status(addr, port, 60, mps),
        ),
        HubStage::Settle { ports, port, tries } => {
            let again = match answer {
                None => false,
                Some(st) => st[2] & 0x10 == 0 && tries + 1 < 20,
            };
            if again {
                HubNext::Ask(
                    HubStage::Settle { ports, port, tries: (tries + 1) as u8 },
                    port_status(addr, port, 10, mps),
                )
            } else {
                HubNext::Ask(
                    HubStage::ClearReset { ports, port },
                    port_request(addr, 1, 20, port, mps),
                )
            }
        },
        HubStage::ClearReset { ports, port } => HubNext::Ask(
            HubStage::ClearConnection { ports, port },
            port_request(addr, 1, 16, port, mps),
        ),
        HubStage::ClearConnection { ports, port } => HubNext::Attach(
            HubStage::Attach { ports, port },
        ),
        HubStage::Attach { ports, port } => look_at(n, addr, mps, ports, port + 1, 0),
    }
}

/// Begin with a hub: power and reset each of its ports, and attach whatever
/// appears.
pub fn enumerate_hub(addr: u8, mps: u16) -> (r: (HubStage, Ask))
    ensures
        r == (HubStage::Header, get_descriptor(addr, 0x200, 9, mps)),
{
    (HubStage::Header, ask_descriptor(addr, 0x200, 9, mps))
}

fn look(u: &Uhci, addr: u8, mps: u16, ports: u8, port: u8, wait: u32) -> (r: HubNext)
    ensures
        r == look_at(u@.devices.len(), addr, mps, ports, port as int, wait),
{
    if port > ports || u.devices.len() >= MAX_DEVICES {
        HubNext::Done
    } else {
        HubNext::Ask(HubStage::Status { ports, port }, ask_status(addr, port, wait, mps))
    }
}

/// Take a hub's answer, and say what to do next.
pub fn hub_step(u: &Uhci, addr: u8, mps: u16, s: HubStage, answer: Option<Vec<u8>>) -> (r: HubNext)
    requires
        hub_sound(s),
        answer_of(answer) matches Some(v) ==> v.len() == hub_asked(s),
    ensures
        r == hub_next(u@.devices.len(), addr, mps, s, answer_of(answer)),
        r matches HubNext::Ask(t, a) ==> hub_sound(t) && a.len == hub_asked(t),
        r matches HubNext::Attach(t) ==> hub_sound(t),
{
    match s {
        HubStage::Header => match answer {
            None => HubNext::Done,
            Some(h) => HubNext::Ask(HubStage::Configure, ask_configuration(addr, h[5], mps)),
        },
        HubStage::Configure => match answer {
            None => HubNext::Done,
            Some(_) => HubNext::Ask(
                HubStage::Descriptor,
                Ask {
                    wait: 0,
                    addr,
                    bm: 0xa0,
                    req: 6,
                    value: 0x2900,
                    index: 0,
                    len: 9,
                    max_packet: mps,
                },
            ),
        },
        HubStage::Descriptor => match answer {
            None => HubNext::Done,
            Some(d) => {
                let ports: u8 = if d[2] < 1 {
                    1
                } else if d[2] > 8 {
                    8
                } else {
                    d[2]
                };
                HubNext::Ask(HubStage::Power { ports, port: 1 }, ask_port(addr, 3, 8, 1, mps))
            },
        },
        HubStage::Power { ports, port } => if port < ports {
            HubNext::Ask(
                HubStage::Power { ports, port: port + 1 },
                ask_port(addr, 3, 8, port + 1, mps),
            )
        } else {
            look(u, addr, mps, ports, 1, 100)
        },
        HubStage::Status { ports, port } => match answer {
            None => look(u, addr, mps, ports, port + 1, 0),
            Some(st) => if st[0] & 1 == 0 {
                look(u, addr, mps, ports, port + 1, 0)
            } else {
                HubNext::Ask(HubStage::Reset { ports, port }, ask_port(addr, 3, 4, port, mps))
            },
        },
        HubStage::Reset { ports, port } => HubNext::Ask(
            HubStage::Settle { ports, port, tries: 0 },
            ask_status(addr, port, 60, mps),
        ),
        HubStage::Settle { ports, port, tries } => {
            let again = match answer {
                None => false,
                Some(st) => st[2] & 0x10 == 0 && tries + 1 < 20,
            };
            if again {
                HubNext::Ask(
                    HubStage::Settle { ports, port, tries: tries + 1 },
                    ask_status(addr, port, 10, mps),
                )
            } else {
                HubNext::Ask(
                    HubStage::ClearReset { ports, port },
                    ask_port(addr, 1, 20, port, mps),
                )
            }
        },
        HubStage::ClearReset { ports, port } => HubNext::Ask(
            HubStage::ClearConnection { ports, port },
            ask_port(addr, 1, 16, port, mps),
        ),
        HubStage::ClearConnection { ports, port } => HubNext::Attach(
            HubStage::Attach { ports, port },
        ),
        HubStage::Attach { ports, port } => look(u, addr, mps, ports, port + 1, 0),
    }
}

/// How much more a hub can ask for.
pub open spec fn hub_left(s: HubStage) -> int {
    match s {
        HubStage::Header => 502,
        HubStage::Configure => 501,
        HubStage::Descriptor => 500,
        HubStage::Power { ports, port } => 400 + ports - port,
        HubStage::Status { ports, port } => 25 + (ports - port) * 30,
        HubStage::Reset { ports, port } => 24 + (ports - port) * 30,
        HubStage::Settle { ports, port, tries } => 23 - tries + (ports - port) * 30,
        HubStage::ClearReset { ports, port } => 3 + (ports - port) * 30,
        HubStage::ClearConnection { ports, port } => 2 + (ports - port) * 30,
        HubStage::Attach { ports, port } => 1 + (ports - port) * 30,
    }
}

/// A hub is done with at some point, whatever it answers.
pub proof fn hubs_end(n: nat, addr: u8, mps: u16, s: HubStage, answer: Option<Seq<u8>>)
    requires
        hub_sound(s),
    ensures
        match hub_next(n, addr, mps, s, answer) {
            HubNext::Ask(t, _) => 0 <= hub_left(t) < hub_left(s),
            HubNext::Attach(t) => 0 <= hub_left(t) < hub_left(s),
            HubNext::Done => true,
        },
{
}

/// A device is attached behind a hub only while there is room for it, and only
/// once its port has been found connected and has been reset.
pub proof fn hubs_respect_the_limit(n: nat, addr: u8, mps: u16, s: HubStage, answer: Option<Seq<u8>>)
    requires
        n >= MAX_DEVICES,
    ensures
        hub_next(n, addr, mps, s, answer) matches HubNext::Ask(t, _) ==> !(t is Status),
        hub_next(n, addr, mps, s, answer) is Attach ==> s is ClearConnection,
{
}
proof fn walks_do_not_look_back(d: Seq<u8>, cfg: Seq<u8>, i: int, last: Interface, s: Storage)
    requires
        0 <= i,
    ensures
        boot_from(d + cfg, d.len() + i, last) == boot_from(cfg, i, last),
        storage_from(d + cfg, d.len() + i, s) == storage_from(cfg, i, s),
        class_from(d + cfg, d.len() + i) == class_from(cfg, i),
    decreases cfg.len() - i,
{
    let all = d + cfg;
    let k = d.len() + i;
    if i < cfg.len() {
        assert forall|j: int| 0 <= j && i + j < cfg.len() implies #[trigger] cfg[i + j] == all[k + j]
            by {
            assert(all[k + j] == cfg[k + j - d.len()]);
        }
        assert(cfg[i + 0] == all[k + 0]);
        if i + 1 < cfg.len() {
            assert(cfg[i + 1] == all[k + 1]);
        }
    }
    assert(stands(all, k) == stands(cfg, i));
    if stands(cfg, i) {
        let n = cfg[i] as int;
        if n >= 7 {
            assert(cfg[i + 2] == all[k + 2] && cfg[i + 3] == all[k + 3] && cfg[i + 4] == all[k + 4]
                && cfg[i + 5] == all[k + 5] && cfg[i + 6] == all[k + 6]);
        }
        if n >= 9 {
            assert(cfg[i + 7] == all[k + 7]);
        }
        let f = if is_interface(cfg, i) {
            interface_at(cfg, i)
        } else {
            last
        };
        let t = if is_interface(cfg, i) {
            Storage {
                iface: cfg[i + 2],
                is_msc: stores(interface_at(cfg, i)),
                ep_in: None,
                ep_out: None,
            }
        } else if is_endpoint(cfg, i) && s.is_msc {
            with_endpoint(cfg, i, s)
        } else {
            s
        };
        walks_do_not_look_back(d, cfg, i + n, f, t);
    }
}

/// Descriptors of other kinds make no difference to what a device is.
pub proof fn other_descriptors_are_passed_over(d: Seq<u8>, cfg: Seq<u8>, last: Interface, s: Storage)
    requires
        2 <= d.len() <= 255,
        d[0] == d.len(),
        d[1] != 4,
        d[1] != 5,
    ensures
        boot_from(d + cfg, 0, last) == boot_from(cfg, 0, last),
        storage_from(d + cfg, 0, s) == storage_from(cfg, 0, s),
        class_from(d + cfg, 0) == class_from(cfg, 0),
{
    let all = d + cfg;
    assert(all[0] == d[0] && all[1] == d[1]);
    assert(stands(all, 0));
    walks_do_not_look_back(d, cfg, 0, last, s);
}

/// An interface descriptor with these numbers, and an endpoint descriptor.
pub open spec fn describes_interface(d: Seq<u8>, f: Interface) -> bool {
    &&& d.len() == 9
    &&& d[0] == 9 && d[1] == 4
    &&& d[2] == f.number && d[5] == f.class && d[6] == f.sub && d[7] == f.proto
}

pub open spec fn describes_endpoint(d: Seq<u8>, address: u8, attributes: u8, size: u16) -> bool {
    &&& d.len() == 7
    &&& d[0] == 7 && d[1] == 5
    &&& d[2] == address && d[3] == attributes
    &&& d[4] + 256 * d[5] == size
}

/// A keyboard and a mouse are known by their interface, and are heard over the
/// first endpoint of it that brings in reports.
pub proof fn keyboards_and_mice_are_known_by_their_interface(
    f: Interface,
    i: Seq<u8>,
    e: Seq<u8>,
    rest: Seq<u8>,
    last: Interface,
    address: u8,
    size: u16,
)
    requires
        describes_interface(i, f),
        describes_endpoint(e, address, 3, size),
        0x81 <= address <= 0x8f,
        size > 0,
    ensures
        ({
            let b = boot_from(i + e + rest, 0, last);
            &&& f.class == 3 && f.sub == 1 && f.proto == 1 ==> b == Some(
                Boot {
                    iface: f.number,
                    endpoint: (address - 0x80) as u8,
                    max_packet: size,
                    kind: HidKind::Keyboard,
                },
            )
            &&& f.class == 3 && f.sub == 1 && f.proto == 2 ==> b == Some(
                Boot {
                    iface: f.number,
                    endpoint: (address - 0x80) as u8,
                    max_packet: size,
                    kind: HidKind::Mouse,
                },
            )
            &&& f.class != 3 ==> b == boot_from(rest, 0, f)
        }),
{
    let all = i + e + rest;
    assert(all =~= i + (e + rest));
    let more = e + rest;
    assert(all[0] == 9 && all[1] == 4 && all[2] == i[2] && all[5] == i[5] && all[6] == i[6] && all[7]
        == i[7]);
    assert(stands(all, 0));
    walks_do_not_look_back(i, more, 0, f, no_storage());
    assert(boot_from(all, 0, last) == boot_from(more, 0, f));
    assert(more[0] == 7 && more[1] == 5 && more[2] == e[2] && more[3] == e[3] && more[4] == e[4]
        && more[5] == e[5]);
    assert(stands(more, 0));
    walks_do_not_look_back(e, rest, 0, f, no_storage());
    assert(address & 0x0f == address - 0x80) by (bit_vector)
        requires
            0x81 <= address <= 0x8f,
    ;
    assert(address & 0x80 != 0) by (bit_vector)
        requires
            0x81 <= address <= 0x8f,
    ;
    assert(3u8 & 3 == 3) by (bit_vector);
}

/// A drive is known by its interface, and is read over the bulk endpoint that
/// leads in and written over the one that leads out, whichever comes first.
pub proof fn drives_are_known_by_their_interface(
    f: Interface,
    i: Seq<u8>,
    a: Seq<u8>,
    b: Seq<u8>,
    ep_in: u8,
    ep_out: u8,
    size_in: u16,
    size_out: u16,
    swapped: bool,
)
    requires
        describes_interface(i, f),
        describes_endpoint(
            if swapped {
                b
            } else {
                a
            },
            ep_in,
            2,
            size_in,
        ),
        describes_endpoint(
            if swapped {
                a
            } else {
                b
            },
            ep_out,
            2,
            size_out,
        ),
        0x81 <= ep_in <= 0x8f,
        1 <= ep_out <= 0x0f,
        size_in > 0,
        size_out > 0,
    ensures
        f.class == 8 && f.sub == 6 && f.proto == 0x50 ==> msc_pipes(i + a + b) == Some(
            Pipes {
                ep_in: Pipe { endpoint: (ep_in - 0x80) as u8, max_packet: size_in },
                ep_out: Pipe { endpoint: ep_out, max_packet: size_out },
            },
        ),
        f.class != 8 || f.proto != 0x50 ==> msc_pipes(i + a + b) is None,
{
    let all = i + a + b;
    let none = Seq::<u8>::empty();
    assert(all =~= i + (a + b));
    let s = Storage { iface: f.number, is_msc: stores(f), ep_in: None, ep_out: None };
    assert(all[0] == 9 && all[1] == 4 && all[2] == i[2] && all[5] == i[5] && all[6] == i[6] && all[7]
        == i[7]);
    assert(stands(all, 0));
    assert(interface_at(all, 0) == f);
    walks_do_not_look_back(i, a + b, 0, f, s);
    let two = a + b;
    assert(storage_from(all, 0, no_storage()) == storage_from(two, 0, s));
    assert(two[0] == 7 && two[1] == 5 && two[2] == a[2] && two[3] == a[3] && two[4] == a[4] && two[5]
        == a[5]);
    assert(stands(two, 0));
    let t = if s.is_msc {
        with_endpoint(two, 0, s)
    } else {
        s
    };
    walks_do_not_look_back(a, b, 0, f, t);
    assert(storage_from(two, 0, s) == storage_from(b, 0, t));
    assert(stands(b, 0));
    assert(!stands(b, 7));
    let u = if t.is_msc {
        with_endpoint(b, 0, t)
    } else {
        t
    };
    assert(storage_from(b, 7, u) == u);
    assert(storage_from(b, 0, t) == u);
    assert(ep_in & 0x0f == ep_in - 0x80 && ep_in & 0x80 != 0) by (bit_vector)
        requires
            0x81 <= ep_in <= 0x8f,
    ;
    assert(ep_out & 0x0f == ep_out && ep_out & 0x80 == 0) by (bit_vector)
        requires
            1 <= ep_out <= 0x0f,
    ;
    assert(2u8 & 3 == 2) by (bit_vector);
}

/// Every device gets an address of its own, and is spoken to under it from
/// then on.
pub proof fn devices_get_their_own_address(u: UhciModel, d: Seq<u8>, e: Seq<u8>)
    requires
        d.len() == 8,
        u.next_addr < 127,
    ensures
        ({
            let first = attached(u, Stage::First, Some(d));
            &&& first.0 == u
            &&& first.1 matches Next::Ask(s, a) && {
                let second = attached(u, s, Some(e));
                &&& a.addr == 0 && a.req == 5 && a.value == u.next_addr && a.len == 0
                &&& second.0.next_addr == u.next_addr + 1
                &&& second.0.devices == u.devices && second.0.msc == u.msc
                &&& second.1 matches Next::Ask(_, b) && b.addr == u.next_addr && b.bm == 0x80
                    && b.req == 6 && b.value == 0x100
                &&& attached(u, s, None) == (u, Next::Done)
            }
        }),
{
}

/// A keyboard or mouse is configured, told to use the boot protocol, told to
/// report only changes, and joins the devices that are polled.
pub proof fn keyboards_and_mice_are_set_up(
    u: UhciModel,
    addr: u8,
    mps: u16,
    boot: Boot,
    ok: Seq<u8>,
    p: Option<Seq<u8>>,
    q: Option<Seq<u8>>,
)
    requires
        u.wf(),
        u.devices.len() < MAX_DEVICES,
        addr <= 127,
        boot.endpoint <= 15,
    ensures
        ({
            let one = attached(u, Stage::Configure { addr, mps, boot }, Some(ok));
            &&& one.1 matches Next::Ask(s, a) && {
                let two = attached(one.0, s, p);
                &&& a.addr == addr && a.bm == 0x21 && a.req == 0x0b && a.value == 0 && a.index
                    == boot.iface
                &&& two.1 matches Next::Ask(t, b) && {
                    let three = attached(two.0, t, q);
                    let dev = three.0.devices.last();
                    &&& b.addr == addr && b.bm == 0x21 && b.req == 0x0a && b.value == 0 && b.index
                        == boot.iface
                    &&& three.0.devices.drop_last() == u.devices
                    &&& dev.addr == addr && dev.endpoint == boot.endpoint && dev.kind == boot.kind
                    &&& dev.report_len == (if boot.kind is Keyboard { 8int } else { 4 })
                    &&& three.1 matches Next::Armed(w) && {
                        &&& (w.td.token >> 8) & 127 == addr
                        &&& (w.td.token >> 15) & 15 == boot.endpoint
                        &&& w.td.token & 0xff == 0x69
                        &&& w.td.token >> 21 == dev.report_len - 1
                        &&& w.td.buffer == u.base + dev.buf_off
                    }
                }
            }
        }),
{
    let n = u.devices.len() as int;
    let len = report_length(boot.kind) as int;
    uhci::tokens_hold_their_fields((len - 1) as u32, 0, boot.endpoint, addr, uhci::PID_IN);
    assert(with_device(u, addr, boot).devices.drop_last() =~= u.devices);
}

/// A drive that was configured is the controller's drive, over the endpoints
/// that it named.
pub proof fn drives_are_set_up(u: UhciModel, addr: u8, mps: u16, pipes: Pipes, ok: Seq<u8>)
    requires
        1 <= pipes.ep_in.max_packet <= 64,
        1 <= pipes.ep_out.max_packet <= 64,
    ensures
        ({
            let r = attached(u, Stage::MscConfigure { addr, mps, pipes }, Some(ok));
            &&& r.1 is Done
            &&& r.0.msc matches Some(d) && d.addr == addr && d.ep_in == pipes.ep_in.endpoint && d.ep_out
                == pipes.ep_out.endpoint && d.mps_in == pipes.ep_in.max_packet && d.mps_out
                == pipes.ep_out.max_packet && !d.in_toggle && !d.out_toggle
            &&& r.0.msc_just_attached
            &&& r.0.devices == u.devices && r.0.frames == u.frames
        }),
        attached(u, Stage::MscConfigure { addr, mps, pipes }, None) == (u, Next::Done),
{
}
/// A hub's ports are looked at one after the other, and where something is
/// plugged in, that port is reset and what answers there is attached.
pub proof fn every_port_is_looked_at(
    n: nat,
    addr: u8,
    mps: u16,
    ports: u8,
    port: u8,
    status: Seq<u8>,
    any: Option<Seq<u8>>,
)
    requires
        1 <= port < ports <= 8,
        n < MAX_DEVICES,
        status.len() == 4,
    ensures
        ({
            let plugged = status[0] as int % 2 == 1;
            let seen = hub_next(n, addr, mps, HubStage::Status { ports, port }, Some(status));
            let after = hub_next(n, addr, mps, HubStage::Attach { ports, port }, any);
            &&& !plugged ==> (seen matches HubNext::Ask(s, a) && s == (HubStage::Status {
                ports,
                port: (port + 1) as u8,
            }) && a.index == port + 1 && a.bm == 0xa3 && a.addr == addr)
            &&& plugged ==> (seen matches HubNext::Ask(s, a) && a.index == port && a.bm == 0x23
                && a.req == 3 && a.value == 4 && a.addr == addr && s == (HubStage::Reset {
                ports,
                port,
            }))
            &&& after matches HubNext::Ask(s, a) && s == (HubStage::Status {
                ports,
                port: (port + 1) as u8,
            }) && a.index == port + 1
        }),
        hub_next(n, addr, mps, HubStage::Attach { ports, port: ports }, any) is Done,
        hub_next(n, addr, mps, HubStage::ClearConnection { ports, port }, any) == HubNext::Attach(
            HubStage::Attach { ports, port },
        ),
        hub_next(n, addr, mps, HubStage::Power { ports, port }, any) matches HubNext::Ask(_, a)
            && a.index == port + 1 && a.req == 3 && a.value == 8,
{
    let b = status[0];
    assert(b & 1 == b % 2) by (bit_vector);
}

} // verus!
