//! USB mass storage: bulk-only transport, and the handful of SCSI commands
//! that a flash drive needs.
//!
//! A command travels in three parts: a command block out, data either way, and
//! a status block in. Moving the bytes is left to the program around this
//! library; here they are laid out and read.

use vstd::prelude::*;
use vstd::string::*;

use crate::package;
use crate::text;
use crate::text::push_decimal;
use crate::usb::attach::{MscDevice, Uhci, UhciModel};
use crate::usb::uhci;
use crate::usb::uhci::{bulk_transfer, next_round, Bulk, Plan, Round, PID_IN, PID_OUT};

verus! {

// ── Command and status blocks ───────────────────────────────────────────────

/// "USBC" and "USBS".
pub const CBW_SIG: u32 = 0x4342_5355;

pub const CSW_SIG: u32 = 0x5342_5355;

pub const CBW_LEN: usize = 31;

pub const CSW_LEN: usize = 13;

/// Four bytes, the least significant one first.
pub open spec fn le_bytes(n: u32) -> Seq<u8> {
    seq![
        (n as int % 256) as u8,
        (n as int / 256 % 256) as u8,
        (n as int / 0x1_0000 % 256) as u8,
        (n as int / 0x100_0000) as u8,
    ]
}

fn push_le(v: &mut Vec<u8>, n: u32)
    ensures
        final(v)@ == old(v)@ + le_bytes(n),
{
    v.push((n % 256) as u8);
    v.push((n / 256 % 256) as u8);
    v.push((n / 0x1_0000 % 256) as u8);
    v.push((n / 0x100_0000) as u8);
    assert(v@ =~= old(v)@ + le_bytes(n));
}

pub open spec fn zeros(n: int) -> Seq<u8> {
    Seq::new(n as nat, |i: int| 0u8)
}

pub open spec fn shortened(cdb: Seq<u8>) -> Seq<u8> {
    if cdb.len() <= 16 {
        cdb
    } else {
        cdb.take(16)
    }
}

/// A command block: its signature, a tag, how much data goes which way, the
/// first unit, and the command, filled up with zeroes.
pub open spec fn cbw_bytes(tag: u32, len: u32, data_in: bool, cdb: Seq<u8>) -> Seq<u8> {
    let c = shortened(cdb);
    le_bytes(CBW_SIG) + le_bytes(tag) + le_bytes(len) + seq![
        if data_in {
            0x80u8
        } else {
            0u8
        },
        0u8,
        c.len() as u8,
    ] + c + zeros(16 - c.len())
}

pub fn build_cbw(tag: u32, transfer_len: u32, data_in: bool, cdb: &Vec<u8>) -> (r: Vec<u8>)
    ensures
        r@ == cbw_bytes(tag, transfer_len, data_in, cdb@),
        r@.len() == CBW_LEN,
{
    let mut v: Vec<u8> = Vec::new();
    push_le(&mut v, CBW_SIG);
    push_le(&mut v, tag);
    push_le(&mut v, transfer_len);
    v.push(if data_in { 0x80 } else { 0 });
    v.push(0);
    let n: usize = if cdb.len() <= 16 { cdb.len() } else { 16 };
    v.push(n as u8);
    let ghost c = shortened(cdb@);
    let ghost head = v@;
    let mut i: usize = 0;
    assert(v@ =~= head + c.take(0));
    while i < n
        invariant
            i <= n <= 16,
            n == c.len(),
            c == shortened(cdb@),
            head.len() == 15,
            v@ == head + c.take(i as int),
        decreases n - i,
    {
        v.push(cdb[i]);
        assert(c[i as int] == cdb@[i as int]);
        assert(c.take(i + 1) =~= c.take(i as int).push(c[i as int]));
        i = i + 1;
        assert(v@ =~= head + c.take(i as int));
    }
    assert(c.take(n as int) =~= c);
    let mut k: usize = n;
    assert(v@ =~= head + c + zeros(0));
    while k < 16
        invariant
            n <= k <= 16,
            v@ == head + c + zeros(k - n),
        decreases 16 - k,
    {
        v.push(0);
        k = k + 1;
        assert(zeros(k - n) =~= zeros(k - n - 1).push(0u8));
        assert(v@ =~= head + c + zeros(k - n));
    }
    assert(v@ =~= cbw_bytes(tag, transfer_len, data_in, cdb@));
    v
}

/// What is made of a status block.
pub open spec fn status_of(csw: Seq<u8>, tag: u32) -> Result<(), Seq<char>> {
    if package::le32(csw, 0) != CSW_SIG {
        Err("mass storage: bad CSW signature"@)
    } else if package::le32(csw, 4) != tag {
        Err("mass storage: CSW tag mismatch"@)
    } else if csw[12] != 0 {
        Err("mass storage: SCSI command failed"@)
    } else {
        Ok(())
    }
}

pub open spec fn result_text<T>(r: Result<T, &'static str>) -> Result<T, Seq<char>> {
    match r {
        Ok(v) => Ok(v),
        Err(e) => Err(e@),
    }
}

fn read_le(v: &Vec<u8>, at: usize) -> (r: u32)
    requires
        at + 4 <= v@.len(),
    ensures
        r == package::le32(v@, at as int),
{
    assert(v.len() == v@.len());
    v[at] as u32 + v[at + 1] as u32 * 256 + v[at + 2] as u32 * 0x1_0000 + v[at + 3] as u32
        * 0x100_0000
}

fn check_csw(csw: &Vec<u8>, tag: u32) -> (r: Result<(), &'static str>)
    requires
        csw@.len() == CSW_LEN,
    ensures
        result_text(r) == status_of(csw@, tag),
{
    if read_le(csw, 0) != CSW_SIG {
        return Err("mass storage: bad CSW signature");
    }
    if read_le(csw, 4) != tag {
        return Err("mass storage: CSW tag mismatch");
    }
    if csw[12] != 0 {
        return Err("mass storage: SCSI command failed");
    }
    Ok(())
}

/// What came of moving a command's bytes.
pub enum Reply {
    NoController,
    Failed,
    /// The status block.
    Status(Vec<u8>),
}

/// What came of a command with this tag.
pub fn command(reply: &Reply, tag: u32) -> (r: Result<(), &'static str>)
    requires
        reply matches Reply::Status(csw) ==> csw@.len() == CSW_LEN,
    ensures
        result_text(r) == (match *reply {
            Reply::NoController => Err("no USB controller"@),
            Reply::Failed => Err("USB mass-storage transfer failed"@),
            Reply::Status(csw) => status_of(csw@, tag),
        }),
{
    match reply {
        Reply::NoController => Err("no USB controller"),
        Reply::Failed => Err("USB mass-storage transfer failed"),
        Reply::Status(csw) => check_csw(csw, tag),
    }
}

/// The tag after this one. Tags wrap around.
pub fn next_tag(tag: u32) -> (r: u32)
    ensures
        r == (tag + 1) % 0x1_0000_0000,
{
    if tag == u32::MAX {
        0
    } else {
        tag + 1
    }
}

/// A drive that answers a command with the tag of its command block and
/// reports success is believed, and one that answers with another tag is not.
pub proof fn answers_belong_to_their_command(
    tag: u32,
    len: u32,
    data_in: bool,
    cdb: Seq<u8>,
    csw: Seq<u8>,
)
    requires
        csw.len() == CSW_LEN,
    ensures
        status_of(csw, tag) is Ok <==> csw.take(4) == le_bytes(CSW_SIG) && csw.subrange(4, 8)
            == cbw_bytes(tag, len, data_in, cdb).subrange(4, 8) && csw[12] == 0,
{
    let cbw = cbw_bytes(tag, len, data_in, cdb);
    assert(cbw.subrange(4, 8) =~= le_bytes(tag));
    le_round_trip(csw, 0, CSW_SIG);
    le_round_trip(csw, 4, tag);
    assert(csw.take(4) =~= csw.subrange(0, 4));
}

proof fn le_round_trip(v: Seq<u8>, at: int, n: u32)
    requires
        0 <= at,
        at + 4 <= v.len(),
    ensures
        package::le32(v, at) == n <==> v.subrange(at, at + 4) == le_bytes(n),
{
    let s = v.subrange(at, at + 4);
    if s == le_bytes(n) {
        assert(v[at] == s[0] && v[at + 1] == s[1] && v[at + 2] == s[2] && v[at + 3] == s[3]);
        digits_add_up(n as int);
    }
    if package::le32(v, at) == n {
        digits_are_unique(v[at] as int, v[at + 1] as int, v[at + 2] as int, v[at + 3] as int);
        assert(s =~= le_bytes(n));
    }
}

proof fn digits_add_up(n: int)
    requires
        0 <= n < 0x1_0000_0000,
    ensures
        n % 256 + n / 256 % 256 * 256 + n / 0x1_0000 % 256 * 0x1_0000 + n / 0x100_0000 * 0x100_0000
            == n,
{
    assert(n / 0x1_0000 == n / 256 / 256);
    assert(n / 0x100_0000 == n / 0x1_0000 / 256);
}

proof fn digits_are_unique(a: int, b: int, c: int, d: int)
    requires
        0 <= a < 256,
        0 <= b < 256,
        0 <= c < 256,
        0 <= d < 256,
    ensures
        ({
            let n = a + b * 256 + c * 0x1_0000 + d * 0x100_0000;
            &&& n % 256 == a
            &&& n / 256 % 256 == b
            &&& n / 0x1_0000 % 256 == c
            &&& n / 0x100_0000 == d
        }),
{
    let n = a + b * 256 + c * 0x1_0000 + d * 0x100_0000;
    assert(n / 256 == b + c * 256 + d * 0x1_0000);
    assert(n / 0x1_0000 == c + d * 256);
}

// ── Commands ────────────────────────────────────────────────────────────────

/// A SCSI command: its bytes, and how much data goes which way.
pub struct Scsi {
    pub cdb: Vec<u8>,
    pub len: usize,
    pub data_in: bool,
}

fn six(a: u8, e: u8, len: usize, data_in: bool) -> (r: Scsi)
    ensures
        r.cdb@ == seq![a, 0u8, 0u8, 0u8, e, 0u8],
        r.len == len,
        r.data_in == data_in,
{
    let mut cdb: Vec<u8> = Vec::new();
    cdb.push(a);
    cdb.push(0);
    cdb.push(0);
    cdb.push(0);
    cdb.push(e);
    cdb.push(0);
    assert(cdb@ =~= seq![a, 0u8, 0u8, 0u8, e, 0u8]);
    Scsi { cdb, len, data_in }
}

pub fn test_unit_ready() -> (r: Scsi)
    ensures
        r.cdb@ == ready_cdb(),
        r.len == 0,
        !r.data_in,
{
    six(0, 0, 0, false)
}

/// Clears whatever condition a drive raises right after it is powered on.
pub fn request_sense() -> (r: Scsi)
    ensures
        r.cdb@ == sense_cdb(),
        r.len == 18,
        r.data_in,
{
    six(3, 18, 18, true)
}

/// The command that asks what a drive is.
pub open spec fn inquiry_cdb() -> Seq<u8> {
    seq![0x12u8, 0u8, 0u8, 0u8, 36u8, 0u8]
}

pub fn inquiry() -> (r: Scsi)
    ensures
        r.cdb@ == seq![0x12u8, 0u8, 0u8, 0u8, 36u8, 0u8],
        r.cdb@ == inquiry_cdb(),
        r.len == 36,
        r.data_in,
{
    six(0x12, 36, 36, true)
}

/// A ten-byte command about so many sectors from `lba` on.
pub open spec fn ten(op: u8, lba: u32, count: int) -> Seq<u8> {
    seq![
        op,
        0u8,
        (lba as int / 0x100_0000) as u8,
        (lba as int / 0x1_0000 % 256) as u8,
        (lba as int / 256 % 256) as u8,
        (lba as int % 256) as u8,
        0u8,
        (count / 256) as u8,
        (count % 256) as u8,
        0u8,
    ]
}

fn ten_bytes(op: u8, lba: u32, count: usize) -> (r: Vec<u8>)
    requires
        count <= 0xffff,
    ensures
        r@ == ten(op, lba, count as int),
{
    let mut v: Vec<u8> = Vec::new();
    v.push(op);
    v.push(0);
    v.push((lba / 0x100_0000) as u8);
    v.push((lba / 0x1_0000 % 256) as u8);
    v.push((lba / 256 % 256) as u8);
    v.push((lba % 256) as u8);
    v.push(0);
    v.push((count / 256) as u8);
    v.push((count % 256) as u8);
    v.push(0);
    assert(v@ =~= ten(op, lba, count as int));
    v
}

/// The command that asks how large a drive is.
pub open spec fn capacity_cdb() -> Seq<u8> {
    ten(0x25, 0, 0)
}

pub fn read_capacity10() -> (r: Scsi)
    ensures
        r.cdb@ == ten(0x25, 0, 0),
        r.cdb@ == capacity_cdb(),
        r.len == 8,
        r.data_in,
{
    Scsi { cdb: ten_bytes(0x25, 0, 0), len: 8, data_in: true }
}

/// Four bytes, the most significant one first.
pub open spec fn be32(v: Seq<u8>, at: int) -> int {
    v[at] * 0x100_0000 + v[at + 1] * 0x1_0000 + v[at + 2] * 256 + v[at + 3]
}

fn read_be(v: &Vec<u8>, at: usize) -> (r: u32)
    requires
        at + 4 <= v@.len(),
    ensures
        r == be32(v@, at as int),
{
    assert(v.len() == v@.len());
    v[at] as u32 * 0x100_0000 + v[at + 1] as u32 * 0x1_0000 + v[at + 2] as u32 * 256 + v[at + 3]
        as u32
}

/// What a drive's capacity is, by its answer: how many sectors, and how many
/// bytes each. It gives the last sector, so there is one more.
pub open spec fn capacity_of(v: Seq<u8>) -> (u32, u32) {
    (
        (if be32(v, 0) == 0xffff_ffff {
            be32(v, 0)
        } else {
            be32(v, 0) + 1
        }) as u32,
        be32(v, 4) as u32,
    )
}

pub fn capacity(answer: &Vec<u8>) -> (r: (u32, u32))
    requires
        answer@.len() == 8,
    ensures
        r == capacity_of(answer@),
{
    let last: u32 = read_be(answer, 0);
    let sectors: u32 = if last == u32::MAX { last } else { last + 1 };
    (sectors, read_be(answer, 4))
}

/// The commands for reading and for writing so many bytes from a sector on.
pub open spec fn read_cdb(lba: u32, len: int) -> Seq<u8> {
    ten(0x28, lba, len / 512)
}

pub open spec fn write_cdb(lba: u32, len: int) -> Seq<u8> {
    ten(0x2a, lba, len / 512)
}

/// Read `len` bytes from sector `lba` on.
pub fn read10(lba: u32, len: usize) -> (r: Result<Scsi, &'static str>)
    ensures
        match r {
            Ok(c) => {
                &&& len > 0 && len % 512 == 0 && len / 512 <= 0xffff
                &&& c.cdb@ == ten(0x28, lba, len as int / 512)
                &&& c.cdb@ == read_cdb(lba, len as int)
                &&& c.len == len
                &&& c.data_in
            },
            Err(e) => if len == 0 || len % 512 != 0 {
                e@ == "USB read is not a whole number of sectors"@
            } else {
                len / 512 > 0xffff && e@ == "USB read is longer than 65535 sectors"@
            },
        },
{
    if len == 0 || len % 512 != 0 {
        return Err("USB read is not a whole number of sectors");
    }
    if len / 512 > 0xffff {
        return Err("USB read is longer than 65535 sectors");
    }
    Ok(Scsi { cdb: ten_bytes(0x28, lba, len / 512), len, data_in: true })
}

/// Write `len` bytes from sector `lba` on.
pub fn write10(lba: u32, len: usize) -> (r: Result<Scsi, &'static str>)
    ensures
        match r {
            Ok(c) => {
                &&& len > 0 && len % 512 == 0 && len / 512 <= 0xffff
                &&& c.cdb@ == ten(0x2a, lba, len as int / 512)
                &&& c.cdb@ == write_cdb(lba, len as int)
                &&& c.len == len
                &&& !c.data_in
            },
            Err(e) => if len == 0 || len % 512 != 0 {
                e@ == "USB write is not a whole number of sectors"@
            } else {
                len / 512 > 0xffff && e@ == "USB write is longer than 65535 sectors"@
            },
        },
{
    if len == 0 || len % 512 != 0 {
        return Err("USB write is not a whole number of sectors");
    }
    if len / 512 > 0xffff {
        return Err("USB write is longer than 65535 sectors");
    }
    Ok(Scsi { cdb: ten_bytes(0x2a, lba, len / 512), len, data_in: false })
}

/// A command for sectors names the sectors that it is given: the first one and
/// their number can be read back from it.
pub proof fn commands_name_their_sectors(op: u8, lba: u32, count: int)
    requires
        0 <= count <= 0xffff,
    ensures
        be32(ten(op, lba, count), 2) == lba,
        ten(op, lba, count)[7] * 256 + ten(op, lba, count)[8] == count,
        ten(op, lba, count)[0] == op,
{
}

// ── Moving the bytes ────────────────────────────────────────────────────────

/// Most data in one bulk transfer. It is a multiple of every packet size that
/// bulk endpoints have.
pub const CHUNK: usize = 1_024;

/// Where a transaction has come to.
#[derive(Clone, Copy, Debug, PartialEq, Eq, Structural)]
pub enum Phase {
    /// The command block goes out.
    Command,
    /// Data from `at` on goes either way.
    Data { at: usize },
    /// The status block comes in.
    Status,
}

/// A transaction: how many bytes of its phase were moved in earlier rounds,
/// and the toggles that the endpoints have by now.
#[derive(Clone, Copy, Debug, PartialEq, Eq, Structural)]
pub struct Bot {
    pub len: usize,
    pub data_in: bool,
    pub phase: Phase,
    pub sent: usize,
    pub in_toggle: bool,
    pub out_toggle: bool,
}

pub open spec fn bot_wf(b: Bot) -> bool {
    &&& b.phase matches Phase::Data { at } ==> at < b.len
    &&& b.sent < phase_len(b)
}

/// Whether a phase brings data in.
pub open spec fn inward(b: Bot) -> bool {
    match b.phase {
        Phase::Command => false,
        Phase::Data { .. } => b.data_in,
        Phase::Status => true,
    }
}

/// How many bytes a phase moves.
pub open spec fn phase_len(b: Bot) -> int {
    match b.phase {
        Phase::Command => CBW_LEN as int,
        Phase::Data { at } => if b.len - at < CHUNK {
            b.len - at
        } else {
            CHUNK as int
        },
        Phase::Status => CSW_LEN as int,
    }
}

/// The packet size of the endpoint that a phase uses.
pub open spec fn phase_mps(d: MscDevice, b: Bot) -> int {
    uhci::bulk_mps(
        if inward(b) {
            d.mps_in
        } else {
            d.mps_out
        },
    )
}

/// How many bytes the next round of a phase moves.
pub open spec fn round_of(d: MscDevice, b: Bot) -> int {
    uhci::round_len(phase_len(b) - b.sent, phase_mps(d, b))
}

/// What comes after a phase.
pub open spec fn phase_after(b: Bot) -> Phase {
    match b.phase {
        Phase::Command => if b.len > 0 {
            Phase::Data { at: 0 }
        } else {
            Phase::Status
        },
        Phase::Data { at } => if at + phase_len(b) < b.len {
            Phase::Data { at: (at + phase_len(b)) as usize }
        } else {
            Phase::Status
        },
        Phase::Status => Phase::Status,
    }
}

/// Whether a phase is over with its next round.
pub open spec fn last_round(d: MscDevice, b: Bot) -> bool {
    b.sent + round_of(d, b) >= phase_len(b)
}

/// The transaction once a round of its phase is over.
pub open spec fn moved(d: MscDevice, b: Bot) -> Bot {
    let n = uhci::packets(round_of(d, b), phase_mps(d, b));
    let over = last_round(d, b);
    Bot {
        phase: if over {
            phase_after(b)
        } else {
            b.phase
        },
        sent: if over {
            0
        } else {
            (b.sent + round_of(d, b)) as usize
        },
        in_toggle: if inward(b) {
            uhci::toggled(b.in_toggle, n)
        } else {
            b.in_toggle
        },
        out_toggle: if inward(b) {
            b.out_toggle
        } else {
            uhci::toggled(b.out_toggle, n)
        },
        ..b
    }
}

/// The transaction once its phase is over, after however many rounds.
pub open spec fn phase_over(d: MscDevice, b: Bot) -> Bot
    decreases phase_len(b) - b.sent,
{
    if last_round(d, b) || round_of(d, b) <= 0 || b.sent + round_of(d, b) > usize::MAX {
        moved(d, b)
    } else {
        phase_over(d, moved(d, b))
    }
}

/// What follows a phase.
#[derive(Clone, Copy, Debug, PartialEq, Eq, Structural)]
pub enum BotNext {
    More(Bot),
    Done,
    Failed,
}

impl Uhci {
    /// Begin a transaction with the drive, if there is one.
    pub fn msc_bot_transfer(&self, len: usize, data_in: bool) -> (r: Option<Bot>)
        ensures
            r == (match self@.msc {
                Some(d) => Some(
                    Bot {
                        len,
                        data_in,
                        phase: Phase::Command,
                        sent: 0,
                        in_toggle: d.in_toggle,
                        out_toggle: d.out_toggle,
                    },
                ),
                None => None,
            }),
    {
        match &self.msc {
            Some(d) => Some(
                Bot {
                    len,
                    data_in,
                    phase: Phase::Command,
                    sent: 0,
                    in_toggle: d.in_toggle,
                    out_toggle: d.out_toggle,
                },
            ),
            None => None,
        }
    }

    /// The next round of a phase: `b.sent` bytes of the phase went before it.
    pub fn bot_plan(&self, b: &Bot) -> (r: Round)
        requires
            self@.wf(),
            self@.msc is Some,
            bot_wf(*b),
        ensures
            ({
                let d = self@.msc->0;
                let n = uhci::packets(round_of(d, *b), phase_mps(d, *b));
                &&& r.len == round_of(d, *b)
                &&& r.rest == phase_len(*b) - b.sent - r.len
                &&& 0 < n <= uhci::MAX_TDS
                &&& r.plan.tds@ == (if inward(*b) {
                    uhci::bulk_tds(
                        self@.base,
                        d.addr,
                        d.ep_in,
                        PID_IN,
                        r.len as int,
                        phase_mps(d, *b),
                        b.in_toggle,
                    )
                } else {
                    uhci::bulk_tds(
                        self@.base,
                        d.addr,
                        d.ep_out,
                        PID_OUT,
                        r.len as int,
                        phase_mps(d, *b),
                        b.out_toggle,
                    )
                })
                &&& r.plan.watch == uhci::CTRL_TD + (n - 1) * 16
                &&& r.toggle == (if inward(*b) {
                    moved(d, *b).in_toggle
                } else {
                    moved(d, *b).out_toggle
                })
            }),
    {
        let len: usize = phase_bytes(b) - b.sent;
        let is_in = brings_in(b);
        let planned = match &self.msc {
            Some(d) => if is_in {
                bulk_transfer(self.base, d.addr, d.ep_in, PID_IN, len, d.mps_in, b.in_toggle)
            } else {
                bulk_transfer(self.base, d.addr, d.ep_out, PID_OUT, len, d.mps_out, b.out_toggle)
            },
            None => Bulk::Nothing,
        };
        match planned {
            Bulk::Ready(round) => round,
            _ => {
                assert(false);
                Round {
                    plan: Plan { tds: Vec::new(), watch: 0 },
                    len: 0,
                    rest: 0,
                    toggle: false,
                }
            },
        }
    }

    /// Take the outcome of a round. The endpoints keep their new toggles once
    /// the whole transaction is over, and only then.
    pub fn bot_step(&mut self, b: Bot, ok: bool) -> (r: BotNext)
        requires
            old(self)@.wf(),
            old(self)@.msc is Some,
            bot_wf(b),
        ensures
            final(self)@.wf(),
            ({
                let d = old(self)@.msc->0;
                let m = moved(d, b);
                if !ok {
                    r == BotNext::Failed && final(self)@ == old(self)@
                } else if b.phase is Status && last_round(d, b) {
                    &&& r == BotNext::Done
                    &&& final(self)@ == (UhciModel {
                        msc: Some(
                            MscDevice { in_toggle: m.in_toggle, out_toggle: m.out_toggle, ..d },
                        ),
                        ..old(self)@
                    })
                } else {
                    &&& r == BotNext::More(m)
                    &&& bot_wf(m)
                    &&& final(self)@ == old(self)@
                }
            }),
    {
        if !ok {
            return BotNext::Failed;
        }
        let d = match self.msc {
            Some(d) => d,
            None => {
                return BotNext::Failed;
            },
        };
        let is_in = brings_in(&b);
        let all: usize = phase_bytes(&b);
        let (n, toggle) = if is_in {
            next_round(all - b.sent, d.mps_in, b.in_toggle)
        } else {
            next_round(all - b.sent, d.mps_out, b.out_toggle)
        };
        let in_toggle = if is_in { toggle } else { b.in_toggle };
        let out_toggle = if is_in { b.out_toggle } else { toggle };
        if n < all - b.sent {
            return BotNext::More(Bot { sent: b.sent + n, in_toggle, out_toggle, ..b });
        }
        let phase = match b.phase {
            Phase::Command => if b.len > 0 {
                Phase::Data { at: 0 }
            } else {
                Phase::Status
            },
            Phase::Data { at } => if all < b.len - at {
                Phase::Data { at: at + all }
            } else {
                Phase::Status
            },
            Phase::Status => {
                self.msc = Some(MscDevice { in_toggle, out_toggle, ..d });
                return BotNext::Done;
            },
        };
        BotNext::More(Bot { phase, sent: 0, in_toggle, out_toggle, ..b })
    }
}

fn phase_bytes(b: &Bot) -> (r: usize)
    requires
        bot_wf(*b),
    ensures
        r == phase_len(*b),
{
    match b.phase {
        Phase::Command => CBW_LEN,
        Phase::Data { at } => if b.len - at < CHUNK {
            b.len - at
        } else {
            CHUNK
        },
        Phase::Status => CSW_LEN,
    }
}

fn brings_in(b: &Bot) -> (r: bool)
    ensures
        r == inward(*b),
{
    match b.phase {
        Phase::Command => false,
        Phase::Data { .. } => b.data_in,
        Phase::Status => true,
    }
}

/// Every phase gets through, for every packet size: its endpoint's toggle
/// flips once for each packet of what was left of it, the other endpoint's
/// stays, and the next phase begins.
pub proof fn phases_get_through(d: MscDevice, b: Bot)
    requires
        bot_wf(b),
    ensures
        ({
            let e = phase_over(d, b);
            let n = uhci::packets(phase_len(b) - b.sent, phase_mps(d, b));
            &&& e.phase == phase_after(b)
            &&& e.sent == 0
            &&& e.len == b.len && e.data_in == b.data_in
            &&& e.in_toggle == (if inward(b) {
                uhci::toggled(b.in_toggle, n)
            } else {
                b.in_toggle
            })
            &&& e.out_toggle == (if inward(b) {
                b.out_toggle
            } else {
                uhci::toggled(b.out_toggle, n)
            })
        }),
    decreases phase_len(b) - b.sent,
{
    let left = phase_len(b) - b.sent;
    let mps = phase_mps(d, b);
    assert(uhci::packets(round_of(d, b), mps) > 0 && 0 < round_of(d, b) <= left) by {
        uhci::round_fits(left, mps);
    }
    if !last_round(d, b) {
        uhci::rounds_are_made_of_packets(left, mps, 0);
        phases_get_through(d, moved(d, b));
    }
}

/// Only the last packet of the data can be short: every packet of a round
/// with data behind it is full, for each packet size that bulk endpoints have.
/// An earlier short packet would look like the end to the drive.
pub proof fn only_the_last_packet_is_short(d: MscDevice, b: Bot, at: usize, i: int)
    requires
        bot_wf(b),
        b.phase == (Phase::Data { at }),
        at + b.sent + round_of(d, b) < b.len,
        ({
            let mps = phase_mps(d, b);
            mps == 8 || mps == 16 || mps == 32 || mps == 64
        }),
        b.sent as int % phase_mps(d, b) == 0,
        0 <= i < uhci::packets(round_of(d, b), phase_mps(d, b)),
    ensures
        uhci::packet_len(round_of(d, b), phase_mps(d, b), i) == phase_mps(d, b),
        last_round(d, b) || moved(d, b).sent as int % phase_mps(d, b) == 0,
{
    let mps = phase_mps(d, b);
    let n = round_of(d, b);
    uhci::round_fits(phase_len(b) - b.sent, mps);
    uhci::packets_cover_the_data(n, mps, i);
    if last_round(d, b) {
        assert(phase_len(b) == 1024);
    }
    assert(n % mps == 0);
    assert(i * mps + mps <= n) by (nonlinear_arith)
        requires
            n % mps == 0,
            0 <= i * mps < n,
            mps == 8 || mps == 16 || mps == 32 || mps == 64,
    ;
}

/// The data of a transaction is moved without a gap: what a round moves lies
/// directly behind what the rounds before it moved.
pub proof fn the_data_is_moved_in_order(d: MscDevice, b: Bot, at: usize)
    requires
        bot_wf(b),
        b.phase == (Phase::Data { at }),
    ensures
        0 < round_of(d, b) <= CHUNK,
        at + b.sent + round_of(d, b) <= b.len,
        match moved(d, b).phase {
            Phase::Data { at: next } => next + moved(d, b).sent == at + b.sent + round_of(d, b),
            Phase::Status => at + b.sent + round_of(d, b) == b.len,
            Phase::Command => false,
        },
{
    uhci::round_fits(phase_len(b) - b.sent, phase_mps(d, b));
}

// ── The drive ───────────────────────────────────────────────────────────────

/// A flash drive's sectors of 512 bytes.
#[derive(Clone, Copy, Debug, PartialEq, Eq, Structural)]
pub struct UsbDisk {
    pub sectors: u32,
}

/// How many times a drive is asked whether it is ready.
pub const READY_TRIES: u8 = 5;

/// What a drive has been asked.
#[derive(Clone, Copy, Debug, PartialEq, Eq, Structural)]
pub enum Opening {
    /// Whether it is ready, for the n-th time.
    Ready(u8),
    /// What is wrong. Four clock ticks later it is asked again.
    Sense(u8),
    /// How large it is.
    Capacity,
}

/// What came of opening a drive.
pub enum Opened {
    /// Ask this next.
    Ask(Opening, Scsi),
    /// It cannot be used; there may be something to say about it.
    Unusable(Option<String>),
    Disk(UsbDisk, String),
}

pub open spec fn disk_line(sectors: u32) -> Seq<char> {
    "USB: mass storage ready — "@ + text::decimal(sectors as nat) + " sectors ("@
        + text::decimal((sectors / 2048) as nat) + " MiB)"@
}

pub open spec fn size_line(size: u32) -> Seq<char> {
    "USB: drive uses "@ + text::decimal(size as nat)
        + "-byte sectors, only 512 is supported"@
}

/// Whether this is asked next.
pub open spec fn asks(r: Opened, o: Opening, cdb: Seq<u8>, len: int) -> bool {
    r matches Opened::Ask(p, c) && p == o && c.cdb@ == cdb && c.len == len && c.data_in == (len > 0)
}

pub open spec fn ready_cdb() -> Seq<u8> {
    seq![0u8, 0u8, 0u8, 0u8, 0u8, 0u8]
}

pub open spec fn sense_cdb() -> Seq<u8> {
    seq![3u8, 0u8, 0u8, 0u8, 18u8, 0u8]
}

impl UsbDisk {
    /// Begin: ask the drive, if there is one, whether it is ready.
    pub fn open(has_msc: bool) -> (r: Opened)
        ensures
            has_msc ==> asks(r, Opening::Ready(1), ready_cdb(), 0),
            !has_msc ==> r == Opened::Unusable(None),
    {
        if has_msc {
            Opened::Ask(Opening::Ready(1), test_unit_ready())
        } else {
            Opened::Unusable(None)
        }
    }

    /// Take the drive's answer. Drives often raise a condition when they are
    /// attached, and settle down once they have been asked for it.
    pub fn open_step(o: Opening, ok: bool, answer: &Vec<u8>) -> (r: Opened)
        requires
            o is Capacity && ok ==> answer@.len() == 8,
            o matches Opening::Ready(n) ==> 1 <= n <= READY_TRIES,
            o matches Opening::Sense(n) ==> 1 <= n <= READY_TRIES,
        ensures
            match o {
                Opening::Ready(n) => if ok {
                    asks(r, Opening::Capacity, ten(0x25, 0, 0), 8)
                } else {
                    asks(r, Opening::Sense(n), sense_cdb(), 18)
                },
                Opening::Sense(n) => if n < READY_TRIES {
                    asks(r, Opening::Ready((n + 1) as u8), ready_cdb(), 0)
                } else {
                    asks(r, Opening::Capacity, ten(0x25, 0, 0), 8)
                },
                Opening::Capacity => {
                    let (sectors, size) = capacity_of(answer@);
                    if !ok {
                        r == Opened::Unusable(None)
                    } else if sectors == 0 {
                        r matches Opened::Unusable(Some(s)) && s@
                            == "USB: drive answered but reports zero sectors"@
                    } else if size != 512 {
                        r matches Opened::Unusable(Some(s)) && s@ == size_line(size)
                    } else {
                        r matches Opened::Disk(d, s) && d.sectors == sectors && s@ == disk_line(
                            sectors,
                        )
                    }
                },
            },
    {
        match o {
            Opening::Ready(n) => if ok {
                Opened::Ask(Opening::Capacity, read_capacity10())
            } else {
                Opened::Ask(Opening::Sense(n), request_sense())
            },
            Opening::Sense(n) => if n < READY_TRIES {
                Opened::Ask(Opening::Ready(n + 1), test_unit_ready())
            } else {
                Opened::Ask(Opening::Capacity, read_capacity10())
            },
            Opening::Capacity => {
                if !ok {
                    return Opened::Unusable(None);
                }
                let (sectors, size) = capacity(answer);
                if sectors == 0 {
                    return Opened::Unusable(
                        Some("USB: drive answered but reports zero sectors".to_owned()),
                    );
                }
                if size != 512 {
                    let mut s = "USB: drive uses ".to_owned();
                    push_decimal(&mut s, size as u64);
                    s.append("-byte sectors, only 512 is supported");
                    return Opened::Unusable(Some(s));
                }
                let mut s = "USB: mass storage ready — ".to_owned();
                push_decimal(&mut s, sectors as u64);
                s.append(" sectors (");
                push_decimal(&mut s, (sectors / 2048) as u64);
                s.append(" MiB)");
                Opened::Disk(UsbDisk { sectors }, s)
            },
        }
    }

    pub fn sector_count(&self) -> (r: u32)
        ensures
            r == self.sectors,
    {
        self.sectors
    }
}
proof fn four_bytes_make_up_the_number(n: u32)
    ensures
        ({
            let b = le_bytes(n);
            &&& b.len() == 4
            &&& b[0] + 256 * b[1] + 65536 * b[2] + 16777216 * b[3] == n
        }),
{
}

/// How a command block is laid out: `USBC`, the tag, the length and
/// the direction of the data, unit 0, and then the command with its length,
/// filled up to sixteen bytes.
#[verifier::spinoff_prover]
#[verifier::rlimit(60)]
pub proof fn command_blocks_are_laid_out(tag: u32, len: u32, data_in: bool, cdb: Seq<u8>)
    requires
        cdb.len() <= 16,
    ensures
        ({
            let b = cbw_bytes(tag, len, data_in, cdb);
            &&& b.len() == 31
            &&& b.take(4) == seq![0x55u8, 0x53u8, 0x42u8, 0x43u8]
            &&& b[4] + 256 * b[5] + 65536 * b[6] + 16777216 * b[7] == tag
            &&& b[8] + 256 * b[9] + 65536 * b[10] + 16777216 * b[11] == len
            &&& b[12] == if data_in { 0x80int } else { 0 }
            &&& b[13] == 0
            &&& b[14] == cdb.len()
            &&& b.subrange(15, 15 + cdb.len() as int) == cdb
            &&& forall|i: int| 15 + cdb.len() <= i < 31 ==> #[trigger] b[i] == 0
        }),
{
    let b = cbw_bytes(tag, len, data_in, cdb);
    let s = le_bytes(CBW_SIG);
    let t = le_bytes(tag);
    let l = le_bytes(len);
    four_bytes_make_up_the_number(tag);
    four_bytes_make_up_the_number(len);
    let fill = zeros(16 - cdb.len());
    assert(s =~= seq![0x55u8, 0x53u8, 0x42u8, 0x43u8]);
    assert(b.take(4) =~= s);
    assert(b[4] == t[0] && b[5] == t[1] && b[6] == t[2] && b[7] == t[3]);
    assert(b[8] == l[0] && b[9] == l[1] && b[10] == l[2] && b[11] == l[3]);
    assert(b.subrange(15, 15 + cdb.len() as int) =~= cdb);
    assert forall|i: int| 15 + cdb.len() <= i < 31 implies #[trigger] b[i] == 0 by {
        assert(b[i] == fill[i - 15 - cdb.len()]);
    }
}

/// A drive names its last sector, so it has one more than that. It
/// answers with the most significant byte first.
pub proof fn drives_name_their_last_sector(v: Seq<u8>, last: u32, size: u32)
    requires
        v.len() == 8,
        last == 16777216 * v[0] + 65536 * v[1] + 256 * v[2] + v[3],
        size == 16777216 * v[4] + 65536 * v[5] + 256 * v[6] + v[7],
        last < u32::MAX,
    ensures
        capacity_of(v) == ((last + 1) as u32, size),
{
}

/// A transaction goes out, moves its data, and ends with the status. Only
/// the data goes the way that was asked for.
pub proof fn transactions_go_through_their_phases(b: Bot)
    requires
        bot_wf(b),
    ensures
        b.phase is Command ==> !inward(b) && phase_len(b) == 31,
        b.phase is Status ==> inward(b) && phase_len(b) == 13,
        b.phase is Data ==> inward(b) == b.data_in && 0 < phase_len(b) <= 1024,
        b.phase is Command && b.len == 0 ==> phase_after(b) is Status,
        b.phase is Command && b.len > 0 ==> phase_after(b) == (Phase::Data { at: 0 }),
        b.phase matches Phase::Data { at } ==> {
            ||| at + phase_len(b) == b.len && phase_after(b) is Status
            ||| phase_after(b) == (Phase::Data { at: (at + 1024) as usize }) && at + 1024 < b.len
        },
{
}

/// A drive that is not ready is asked what is wrong, and its line tells how
/// many sectors and megabytes there are.
pub proof fn drives_are_asked_in_their_language(sectors: u32)
    ensures
        ready_cdb().len() == 6 && ready_cdb()[0] == 0x00,
        sense_cdb().len() == 6 && sense_cdb()[0] == 0x03 && sense_cdb()[4] == 18,
        text::occurs(disk_line(sectors), text::decimal(sectors as nat) + " sectors ("@),
        text::has_suffix(disk_line(sectors), "("@ + text::decimal((sectors / 2048) as nat) + " MiB)"@),
{
    let l = disk_line(sectors);
    let a = "USB: mass storage ready — "@;
    let n = text::decimal(sectors as nat);
    let m = text::decimal((sectors / 2048) as nat);
    reveal_strlit(" sectors (");
    reveal_strlit("(");
    let p = n + " sectors ("@;
    assert(l.skip(a.len() as int).take(p.len() as int) =~= p);
    let e = "("@ + m + " MiB)"@;
    assert(l.skip(l.len() - e.len()) =~= e);
}

/// A read asks for reading and a write for writing, by the numbers that
/// drives know them by, and each for as many sectors as there are bytes for.
pub proof fn reads_read_and_writes_write(lba: u32, len: int)
    requires
        len >= 0,
        len % 512 == 0,
        len / 512 <= 0xffff,
    ensures
        read_cdb(lba, len)[0] == 0x28,
        write_cdb(lba, len)[0] == 0x2a,
        read_cdb(lba, len).skip(1) == write_cdb(lba, len).skip(1),
        be32(write_cdb(lba, len), 2) == lba,
        512 * (write_cdb(lba, len)[7] * 256 + write_cdb(lba, len)[8]) == len,
        capacity_cdb()[0] == 0x25,
        inquiry_cdb()[0] == 0x12 && inquiry_cdb()[4] == 36,
{
    commands_name_their_sectors(0x2a, lba, len / 512);
    assert(read_cdb(lba, len).skip(1) =~= write_cdb(lba, len).skip(1));
}

} // verus!
