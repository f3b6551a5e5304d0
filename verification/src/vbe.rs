//! Bochs VBE mode setting: a bigger screen than the boot loader hands over.
//!
//! The display adapters of several emulators expose a small register window
//! through which any resolution can be asked for. Here it is decided what to
//! write to it and what to make of what it reads; cards without this interface
//! are left alone.

use vstd::prelude::*;

use crate::usb::uhci::{Bar, PciEntry};

verus! {

/// Registers.
pub const ID: u16 = 0;

pub const XRES: u16 = 1;

pub const YRES: u16 = 2;

pub const DEPTH: u16 = 3;

pub const ENABLE: u16 = 4;

pub const BANK: u16 = 5;

pub const VIRT_WIDTH: u16 = 6;

pub const VIRT_HEIGHT: u16 = 7;

pub const X_OFFSET: u16 = 8;

pub const Y_OFFSET: u16 = 9;

/// Bits of [`ENABLE`]: off; on, with a linear framebuffer; and a state in
/// which the card reports its maximums.
pub const DISABLED: u16 = 0x00;

pub const ENABLED_LFB: u16 = 0x41;

pub const GETCAPS: u16 = 0x02;

/// Revisions of the interface.
pub const ID_MIN: u16 = 0xb0c0;

pub const ID_MAX: u16 = 0xb0c5;

/// 32 bits keep every pixel aligned.
pub const BPP: u16 = 32;

/// A resolution and colour depth.
#[derive(Clone, Copy, Debug, PartialEq, Eq, Structural)]
pub struct Mode {
    pub width: u16,
    pub height: u16,
    pub bpp: u16,
}

/// A value for a register.
#[derive(Clone, Copy, Debug, PartialEq, Eq, Structural)]
pub struct RegWrite {
    pub reg: u16,
    pub value: u16,
}

/// What programs a mode.
pub open spec fn mode_writes(m: Mode) -> Seq<RegWrite> {
    seq![
        RegWrite { reg: ENABLE, value: DISABLED },
        RegWrite { reg: XRES, value: m.width },
        RegWrite { reg: YRES, value: m.height },
        RegWrite { reg: DEPTH, value: m.bpp },
        RegWrite { reg: VIRT_WIDTH, value: m.width },
        RegWrite { reg: VIRT_HEIGHT, value: m.height },
        RegWrite { reg: BANK, value: 0 },
        RegWrite { reg: X_OFFSET, value: 0 },
        RegWrite { reg: Y_OFFSET, value: 0 },
        RegWrite { reg: ENABLE, value: ENABLED_LFB },
    ]
}

pub fn apply(m: Mode) -> (r: Vec<RegWrite>)
    ensures
        r@ == mode_writes(m),
{
    let mut v: Vec<RegWrite> = Vec::new();
    v.push(RegWrite { reg: ENABLE, value: DISABLED });
    v.push(RegWrite { reg: XRES, value: m.width });
    v.push(RegWrite { reg: YRES, value: m.height });
    v.push(RegWrite { reg: DEPTH, value: m.bpp });
    v.push(RegWrite { reg: VIRT_WIDTH, value: m.width });
    v.push(RegWrite { reg: VIRT_HEIGHT, value: m.height });
    v.push(RegWrite { reg: BANK, value: 0 });
    v.push(RegWrite { reg: X_OFFSET, value: 0 });
    v.push(RegWrite { reg: Y_OFFSET, value: 0 });
    v.push(RegWrite { reg: ENABLE, value: ENABLED_LFB });
    assert(v@ =~= mode_writes(m));
    v
}

/// Whether the card took a mode, by what its registers read. It silently
/// refuses what does not fit in its memory.
pub fn accepted(m: Mode, enable: u16, xres: u16, yres: u16) -> (r: bool)
    ensures
        r == (enable & 1 != 0 && xres == m.width && yres == m.height),
{
    enable & 1 != 0 && xres == m.width && yres == m.height
}

/// Whether the interface is there at all.
pub fn is_present(id: u16) -> (r: bool)
    ensures
        r == (ID_MIN <= id <= ID_MAX),
{
    ID_MIN <= id && id <= ID_MAX
}

/// The first display controller of the bus.
pub open spec fn is_display(v: Seq<PciEntry>, i: int) -> bool {
    0 <= i < v.len() && v[i].class == 3 && forall|j: int| 0 <= j < i ==> (#[trigger] v[j]).class != 3
}

/// Base of the linear framebuffer: the display controller's first memory
/// region, and the controller's place on the bus, where it is to be enabled.
pub fn linear_framebuffer_base(bus: &Vec<PciEntry>) -> (r: Option<(usize, u64)>)
    ensures
        match r {
            Some((i, base)) => is_display(bus@, i as int) && bus@[i as int].bar0 == Some(
                Bar::Memory(base),
            ) && base != 0,
            None => (forall|j: int| 0 <= j < bus@.len() ==> (#[trigger] bus@[j]).class != 3)
                || exists|i: int| #[trigger]
                is_display(bus@, i) && !(bus@[i].bar0 matches Some(Bar::Memory(b)) && b != 0),
        },
{
    let mut i: usize = 0;
    while i < bus.len()
        invariant
            i <= bus@.len(),
            forall|j: int| 0 <= j < i ==> (#[trigger] bus@[j]).class != 3,
        decreases bus@.len() - i,
    {
        if bus[i].class == 3 {
            assert(is_display(bus@, i as int));
            return match bus[i].bar0 {
                Some(Bar::Memory(base)) => if base != 0 {
                    Some((i, base))
                } else {
                    None
                },
                _ => None,
            };
        }
        i = i + 1;
    }
    None
}

/// A framebuffer, as the screen needs to know it. Its pixels are four bytes
/// each, blue first.
#[derive(Clone, Copy, Debug, PartialEq, Eq, Structural)]
pub struct FrameInfo {
    pub byte_len: usize,
    pub width: usize,
    pub height: usize,
    pub bytes_per_pixel: usize,
    pub stride: usize,
}

/// Whether a card can do a resolution, by its maximums.
pub open spec fn within(width: u16, height: u16, caps: Mode) -> bool {
    width <= caps.width && height <= caps.height && BPP <= caps.bpp
}

/// What to do about a mode.
#[derive(Clone, Copy, Debug, PartialEq, Eq, Structural)]
pub enum Attempt {
    /// The card cannot do it: program the mode it was in.
    Restore(Mode),
    /// Program this mode, and look whether the card took it.
    Try(Mode),
}

/// Decide on a resolution, once the card has said what it can do at most.
/// Asking has lost the mode that it was in.
pub fn set_mode(width: u16, height: u16, caps: Mode, previous: Mode) -> (r: Attempt)
    ensures
        r == (if within(width, height, caps) {
            Attempt::Try(Mode { width, height, bpp: BPP })
        } else {
            Attempt::Restore(previous)
        }),
{
    if width > caps.width || height > caps.height || BPP > caps.bpp {
        Attempt::Restore(previous)
    } else {
        Attempt::Try(Mode { width, height, bpp: BPP })
    }
}

/// The framebuffer of a mode that the card took, or the mode to go back to.
pub fn conclude(wanted: Mode, took: bool, previous: Mode) -> (r: Result<FrameInfo, Mode>)
    requires
        wanted.width * wanted.height * 4 <= usize::MAX,
    ensures
        r == (if took {
            Ok::<FrameInfo, Mode>(
                FrameInfo {
                    byte_len: (wanted.width * wanted.height * 4) as usize,
                    width: wanted.width as usize,
                    height: wanted.height as usize,
                    bytes_per_pixel: 4,
                    stride: wanted.width as usize,
                },
            )
        } else {
            Err(previous)
        }),
{
    if !took {
        return Err(previous);
    }
    let width: usize = wanted.width as usize;
    let height: usize = wanted.height as usize;
    assert(0 <= width * height <= width * height * 4) by (nonlinear_arith)
        requires
            0 <= width,
            0 <= height,
    ;
    Ok(FrameInfo { byte_len: width * height * 4, width, height, bytes_per_pixel: 4, stride: width })
}

/// On failure the screen does not go dark: a card that refuses a mode is put
/// back into the one it was in, and otherwise the mode asked for is on.
pub proof fn the_screen_stays_on(m: Mode)
    ensures
        mode_writes(m).len() > 0,
        mode_writes(m).last() == (RegWrite { reg: ENABLE, value: ENABLED_LFB }),
        ENABLED_LFB & 1 != 0,
{
    assert(0x41u16 & 1 != 0) by (bit_vector);
}

/// What a register holds after some writes: what was last written to it.
pub open spec fn register_after(w: Seq<RegWrite>, reg: u16) -> Option<u16>
    decreases w.len(),
{
    if w.len() == 0 {
        None
    } else if w.last().reg == reg {
        Some(w.last().value)
    } else {
        register_after(w.drop_last(), reg)
    }
}

/// After the writes the card's registers hold the mode, the picture begins at
/// the first pixel, and the screen was off while they changed.
pub proof fn the_mode_is_programmed(m: Mode)
    ensures
        register_after(mode_writes(m), 1) == Some(m.width),
        register_after(mode_writes(m), 2) == Some(m.height),
        register_after(mode_writes(m), 3) == Some(m.bpp),
        register_after(mode_writes(m), 6) == Some(m.width),
        register_after(mode_writes(m), 7) == Some(m.height),
        register_after(mode_writes(m), 8) == Some(0u16),
        register_after(mode_writes(m), 9) == Some(0u16),
        mode_writes(m)[0] == (RegWrite { reg: 4, value: 0 }),
        forall|i: int|
            0 < i < mode_writes(m).len() - 1 ==> (#[trigger] mode_writes(m)[i]).reg != 4,
{
    reveal_with_fuel(register_after, 11);
    let w = mode_writes(m);
    assert(w.drop_last() =~= w.take(9));
    assert(w.take(9).drop_last() =~= w.take(8));
    assert(w.take(8).drop_last() =~= w.take(7));
    assert(w.take(7).drop_last() =~= w.take(6));
    assert(w.take(6).drop_last() =~= w.take(5));
    assert(w.take(5).drop_last() =~= w.take(4));
    assert(w.take(4).drop_last() =~= w.take(3));
    assert(w.take(3).drop_last() =~= w.take(2));
}

} // verus!
