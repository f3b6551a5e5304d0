//! USB: a UHCI host controller, HID boot keyboards and mice, and drives.
//!
//! There is no full USB stack: just enough of UHCI to enumerate ports, speak
//! control and bulk transfers, and poll the interrupt endpoints of boot
//! devices.

use vstd::prelude::*;
use vstd::string::*;

use crate::keys::DecodedKey;
use crate::text;
use crate::text::push_decimal;
use crate::usb::attach::{Uhci, UhciModel};
use crate::usb::hid::{tick, Repeat, REPEAT_DELAY_US, REPEAT_INTERVAL_US};
use crate::usb::poll::{Polled, Seen};

pub mod attach;
pub mod hid;
pub mod msc;
pub mod poll;
pub mod uhci;

verus! {

/// What the kernel says once it has looked for a controller: with how many
/// devices it came up, if there is one.
pub open spec fn init_line(found: Option<usize>) -> Seq<char> {
    match found {
        Some(n) => "USB: UHCI online ("@ + text::decimal(n as nat) + " HID device"@ + (if n == 1 {
            ""@
        } else {
            "s"@
        }) + ")"@,
        None => "USB: no UHCI controller found — PS/2 input only"@,
    }
}

pub fn init(ctrl: &Option<Uhci>) -> (r: String)
    ensures
        r@ == init_line(
            match *ctrl {
                Some(u) => Some(u@.devices.len() as usize),
                None => None,
            },
        ),
{
    match ctrl {
        Some(u) => {
            let n: usize = u.devices.len();
            let mut s = "USB: UHCI online (".to_owned();
            push_decimal(&mut s, n as u64);
            s.append(" HID device");
            if n == 1 {
                s.append("");
            } else {
                s.append("s");
            }
            s.append(")");
            s
        },
        None => "USB: no UHCI controller found — PS/2 input only".to_owned(),
    }
}

/// The state of polling that a poll without a controller leaves.
pub open spec fn nothing_heard(r: Polled) -> bool {
    r.events@.len() == 0 && r.writes@.len() == 0
}

/// Poll the controller, if there is one, and then the clock: keys repeat
/// whether or not a report has come.
pub fn poll(
    ctrl: &mut Option<Uhci>,
    seen: &Vec<Seen>,
    repeat: &mut Repeat,
    now: u64,
) -> (r: (Polled, Option<DecodedKey>))
    requires
        *old(ctrl) matches Some(u) ==> u@.wf() && seen@.len() == u@.devices.len(),
        forall|i: int| 0 <= i < seen@.len() ==> (#[trigger] seen@[i]).buffer@.len() >= 8,
        now <= u64::MAX - REPEAT_DELAY_US,
    ensures
        ({
            let heard = match *old(ctrl) {
                Some(u) => poll::polled(u@, *old(repeat), seen@, now, seen@.len()).repeat,
                None => *old(repeat),
            };
            &&& match *old(ctrl) {
                Some(u) => {
                    let p = poll::polled(u@, *old(repeat), seen@, now, seen@.len());
                    &&& *final(ctrl) matches Some(w)
                    &&& w@ == (UhciModel { devices: p.devices, ..u@ })
                    &&& w@.wf()
                    &&& poll::event_models(r.0.events@) == p.events
                    &&& r.0.writes@ == p.writes
                },
                None => *final(ctrl) is None && nothing_heard(r.0),
            }
            &&& if heard.code == 0 || now < heard.at_us {
                r.1 is None && *final(repeat) == heard
            } else {
                &&& r.1 == hid::usage_key(heard.code, hid::shifted(heard.mods))
                &&& *final(repeat) == (Repeat {
                    at_us: (now + REPEAT_INTERVAL_US) as u64,
                    ..heard
                })
            }
        }),
{
    let out = match ctrl.take() {
        Some(mut u) => {
            let p = u.poll(seen, repeat, now);
            *ctrl = Some(u);
            p
        },
        None => Polled { events: Vec::new(), writes: Vec::new() },
    };
    let key = tick(repeat, now);
    (out, key)
}

/// Short status string for the shell.
pub fn status_line(ctrl: &Option<Uhci>) -> (r: String)
    ensures
        r@ == (match *ctrl {
            Some(u) => poll::status_of(u@),
            None => "USB: no UHCI controller"@,
        }),
{
    match ctrl {
        Some(u) => u.status_line(),
        None => "USB: no UHCI controller".to_owned(),
    }
}

/// Is a drive attached?
pub fn has_msc(ctrl: &Option<Uhci>) -> (r: bool)
    ensures
        r == (*ctrl matches Some(u) && u@.msc is Some),
{
    match ctrl {
        Some(u) => u.has_msc(),
        None => false,
    }
}

/// Consume the "a drive just appeared" flag.
pub fn take_new_msc(ctrl: &mut Option<Uhci>) -> (r: bool)
    ensures
        r == (*old(ctrl) matches Some(u) && u@.msc_just_attached),
        match *old(ctrl) {
            Some(u) => *final(ctrl) matches Some(w) && w@ == (UhciModel {
                msc_just_attached: false,
                ..u@
            }),
            None => *final(ctrl) is None,
        },
{
    match ctrl.take() {
        Some(mut u) => {
            let r = u.take_msc_just_attached();
            *ctrl = Some(u);
            r
        },
        None => false,
    }
}

} // verus!
