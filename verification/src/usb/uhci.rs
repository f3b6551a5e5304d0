//! A minimal driver for UHCI host controllers: the descriptors that a transfer
//! needs, and what is made of what the controller writes into them.
//!
//! The controller reads a list of frames, queues and transfer descriptors in a
//! piece of memory that it shares with the driver. Writing that memory, reading
//! it back and reaching the controller's ports is left to the program around
//! this library.

use vstd::prelude::*;

verus! {

/// Length of the shared memory.
pub const DMA_LEN: usize = 16_384;

/// Where in the shared memory things are: the frame list is at its start, then
/// a queue and descriptors for one transfer at a time, the descriptors of
/// interrupt endpoints, and buffers.
pub const CTRL_QH: usize = 4_096;

pub const CTRL_TD: usize = 4_112;

pub const INT_TD: usize = 4_368;

pub const REPORT_BUF: usize = 4_432;

pub const SETUP_BUF: usize = 4_944;

pub const DATA_BUF: usize = 4_960;

/// Most bytes that fit behind [`DATA_BUF`].
pub const DATA_ROOM: usize = 11_424;

pub const FRAMES: usize = 1_024;

/// Most descriptors of one transfer.
pub const MAX_TDS: usize = 16;

pub const MAX_PORTS: usize = 2;

pub const MAX_DEVICES: usize = 4;

/// A link that leads nowhere, to a queue, and to a descriptor that is to be
/// worked on before the next queue.
pub const LINK_TERM: u32 = 1;

pub const LINK_QH: u32 = 2;

pub const LINK_DEPTH: u32 = 4;

/// The descriptor is the controller's to work on.
pub const TD_ACTIVE: u32 = 0x0080_0000;

/// Any of the errors that end a descriptor.
pub const TD_ERRORS: u32 = 0x007c_0000;

/// The states in which descriptors are handed over, with three tries each: of
/// a transfer, of its data, of its end, and of data that ends it.
pub const STATUS_SETUP: u32 = 0x1880_0000;

pub const STATUS_DATA: u32 = 0x3880_0000;

pub const STATUS_END: u32 = 0x1980_0000;

pub const STATUS_LAST_DATA: u32 = 0x3980_0000;

pub const PID_SETUP: u8 = 0x2d;

pub const PID_IN: u8 = 0x69;

pub const PID_OUT: u8 = 0xe1;

/// How long a transfer may take, in clock ticks.
pub const TRANSFER_TICKS: u64 = 40;

// ── Descriptors ─────────────────────────────────────────────────────────────

/// A transfer descriptor.
#[derive(Clone, Copy, Debug, PartialEq, Eq, Structural)]
pub struct Td {
    pub link: u32,
    pub status: u32,
    pub token: u32,
    pub buffer: u32,
}

/// A descriptor and where in the shared memory it goes.
#[derive(Clone, Copy, Debug, PartialEq, Eq, Structural)]
pub struct Placed {
    pub off: usize,
    pub td: Td,
}

/// Where the controller finds the shared memory: page-aligned, and all of it
/// within reach of 32 bits.
pub open spec fn reachable(base: u32) -> bool {
    base as int % 4096 == 0 && base + DMA_LEN <= 0x1_0000_0000
}

/// The word that says what to transfer, and with whom.
pub open spec fn token_of(maxlen: u32, toggle: u32, ep: u8, addr: u8, pid: u8) -> u32 {
    ((maxlen & 0x7ff) << 21) | ((toggle & 1) << 19) | ((ep as u32) << 15) | ((addr as u32) << 8) | (
    pid as u32)
}

pub fn token(maxlen: u32, toggle: u32, ep: u8, addr: u8, pid: u8) -> (r: u32)
    ensures
        r == token_of(maxlen, toggle, ep, addr, pid),
{
    ((maxlen & 0x7ff) << 21) | ((toggle & 1) << 19) | ((ep as u32) << 15) | ((addr as u32) << 8) | (
    pid as u32)
}

/// Every field of a token can be read back from it, where the endpoint and
/// the address are ones that USB has.
pub proof fn tokens_hold_their_fields(maxlen: u32, toggle: u32, ep: u8, addr: u8, pid: u8)
    requires
        maxlen <= 0x7ff,
        toggle <= 1,
        ep <= 15,
        addr <= 127,
    ensures
        ({
            let t = token_of(maxlen, toggle, ep, addr, pid);
            &&& t >> 21 == maxlen
            &&& (t >> 19) & 1 == toggle
            &&& (t >> 15) & 15 == ep
            &&& (t >> 8) & 127 == addr
            &&& t & 0xff == pid
        }),
{
    let e = ep as u32;
    let a = addr as u32;
    let p = pid as u32;
    assert(({
        let t = ((maxlen & 0x7ff) << 21) | ((toggle & 1) << 19) | (e << 15) | (a << 8) | p;
        t >> 21 == maxlen && (t >> 19) & 1 == toggle && (t >> 15) & 15 == e && (t >> 8) & 127 == a
            && t & 0xff == p
    })) by (bit_vector)
        requires
            maxlen <= 0x7ff,
            toggle <= 1,
            e <= 15,
            a <= 127,
            p <= 255,
    ;
}

// ── Packets ─────────────────────────────────────────────────────────────────

/// How many packets so many bytes take.
pub open spec fn packets(len: int, mps: int) -> int {
    if len == 0 {
        0
    } else {
        (len + mps - 1) / mps
    }
}

/// How long packet `i` is.
pub open spec fn packet_len(len: int, mps: int, i: int) -> int {
    if len - i * mps < mps {
        len - i * mps
    } else {
        mps
    }
}

/// The packets of a transfer follow each other and cover all of its data:
/// each starts where the one before it ends, none is empty or too long, and
/// the last one ends with the data.
pub proof fn packets_cover_the_data(len: int, mps: int, i: int)
    requires
        len >= 0,
        mps >= 1,
        0 <= i < packets(len, mps),
    ensures
        1 <= packet_len(len, mps, i) <= mps,
        i + 1 < packets(len, mps) ==> i * mps + packet_len(len, mps, i) == (i + 1) * mps,
        i + 1 == packets(len, mps) ==> i * mps + packet_len(len, mps, i) == len,
        0 <= i * mps < len,
{
    let n = packets(len, mps);
    vstd::arithmetic::div_mod::lemma_fundamental_div_mod(len + mps - 1, mps);
    vstd::arithmetic::div_mod::lemma_mod_bound(len + mps - 1, mps);
    let r = (len + mps - 1) % mps;
    assert(len + mps - 1 == mps * n + r);
    assert(mps * n == n * mps) by (nonlinear_arith);
    assert((n - 1) * mps == n * mps - mps) by (nonlinear_arith);
    assert((i + 1) * mps == i * mps + mps) by (nonlinear_arith);
    assert(0 <= i * mps) by (nonlinear_arith)
        requires
            0 <= i,
            mps >= 1,
    ;
    assert(i * mps <= (n - 1) * mps) by (nonlinear_arith)
        requires
            i <= n - 1,
            mps >= 1,
    ;
    if i + 1 < n {
        assert((i + 1) * mps <= (n - 1) * mps) by (nonlinear_arith)
            requires
                i + 1 <= n - 1,
                mps >= 1,
        ;
    } else {
        assert(i == n - 1);
    }
}

fn packet_count(len: usize, mps: usize) -> (r: usize)
    requires
        len <= DATA_ROOM,
        1 <= mps <= 0x1_0000,
    ensures
        r == packets(len as int, mps as int),
        r <= len,
{
    if len == 0 {
        0
    } else {
        proof {
            vstd::arithmetic::div_mod::lemma_fundamental_div_mod(len + mps - 1, mps as int);
            vstd::arithmetic::div_mod::lemma_mod_bound(len + mps - 1, mps as int);
            let q = (len + mps - 1) / (mps as int);
            let m = mps as int;
            assert(q <= len) by (nonlinear_arith)
                requires
                    len + m - 1 == m * q + (len + m - 1) % m,
                    0 <= (len + m - 1) % m,
                    m >= 1,
                    len >= 1,
            ;
        }
        (len + mps - 1) / mps
    }
}

// ── Control transfers ───────────────────────────────────────────────────────

/// The eight bytes that begin a control transfer.
pub open spec fn setup_bytes(bm: u8, req: u8, value: u16, index: u16, len: nat) -> Seq<u8> {
    seq![
        bm,
        req,
        (value as int % 256) as u8,
        (value as int / 256) as u8,
        (index as int % 256) as u8,
        (index as int / 256) as u8,
        (len as int % 256) as u8,
        (len as int / 256 % 256) as u8,
    ]
}

pub fn setup_packet(bm: u8, req: u8, value: u16, index: u16, len: usize) -> (r: Vec<u8>)
    ensures
        r@ == setup_bytes(bm, req, value, index, len as nat),
{
    let mut v: Vec<u8> = Vec::new();
    v.push(bm);
    v.push(req);
    v.push((value % 256) as u8);
    v.push((value / 256) as u8);
    v.push((index % 256) as u8);
    v.push((index / 256) as u8);
    v.push((len % 256) as u8);
    v.push((len / 256 % 256) as u8);
    assert(v@ =~= setup_bytes(bm, req, value, index, len as nat));
    v
}

/// A transfer ready to be handed to the controller.
pub struct Plan {
    /// The descriptors to write.
    pub tds: Vec<Placed>,
    /// The descriptor whose state says when the transfer is over.
    pub watch: usize,
}

/// What every frame leads to while a transfer runs, and what the queue there
/// leads to.
pub open spec fn frame_link(base: u32) -> u32 {
    (base + CTRL_QH + LINK_QH) as u32
}

pub open spec fn queue_link(base: u32) -> u32 {
    (base + CTRL_TD + LINK_DEPTH) as u32
}

pub fn transfer_links(base: u32) -> (r: (u32, u32))
    requires
        reachable(base),
    ensures
        r == (frame_link(base), queue_link(base)),
{
    (base + 4_096 + 2, base + 4_112 + 4)
}

pub open spec fn link_to(base: u32, off: int) -> u32 {
    (base + off + LINK_DEPTH) as u32
}

/// The descriptor that begins a control transfer.
pub open spec fn setup_td(base: u32, addr: u8) -> Placed {
    Placed {
        off: CTRL_TD,
        td: Td {
            link: link_to(base, CTRL_TD + 16),
            status: STATUS_SETUP,
            token: token_of(7, 0, 0, addr, PID_SETUP),
            buffer: (base + SETUP_BUF) as u32,
        },
    }
}

/// The descriptor of packet `i` of its data. The first one is DATA1, and they
/// alternate from there.
pub open spec fn data_td(base: u32, addr: u8, pid: u8, len: int, mps: int, i: int) -> Placed {
    Placed {
        off: (CTRL_TD + 16 + i * 16) as usize,
        td: Td {
            link: link_to(base, CTRL_TD + 32 + i * 16),
            status: STATUS_DATA,
            token: token_of(
                (packet_len(len, mps, i) - 1) as u32,
                ((i + 1) % 2) as u32,
                0,
                addr,
                pid,
            ),
            buffer: (base + DATA_BUF + i * mps) as u32,
        },
    }
}

/// The descriptor that ends it: an empty packet the other way.
pub open spec fn status_td(addr: u8, n: int, pid: u8) -> Placed {
    Placed {
        off: (CTRL_TD + 16 + n * 16) as usize,
        td: Td {
            link: LINK_TERM,
            status: STATUS_END,
            token: token_of(0x7ff, 1, 0, addr, pid),
            buffer: 0,
        },
    }
}

pub open spec fn data_pid(data_in: bool) -> u8 {
    if data_in {
        PID_IN
    } else {
        PID_OUT
    }
}

pub open spec fn status_pid(len: int, data_in: bool) -> u8 {
    if len > 0 && data_in {
        PID_OUT
    } else {
        PID_IN
    }
}

pub open spec fn control_tds(base: u32, addr: u8, len: int, data_in: bool, mps: int) -> Seq<Placed> {
    let n = packets(len, mps);
    seq![setup_td(base, addr)] + Seq::new(
        n as nat,
        |i: int| data_td(base, addr, data_pid(data_in), len, mps, i),
    ) + seq![status_td(addr, n, status_pid(len, data_in))]
}

/// Plan a control transfer: SETUP, then data in packets, then STATUS. `None`
/// where that takes more descriptors than there are.
pub fn run_control(base: u32, addr: u8, data_len: usize, data_in: bool, max_packet: u16) -> (r: Option<
    Plan,
>)
    requires
        reachable(base),
        data_len <= DATA_ROOM,
        max_packet >= 1,
    ensures
        match r {
            Some(p) => {
                &&& packets(data_len as int, max_packet as int) + 2 <= MAX_TDS
                &&& p.tds@ == control_tds(
                    base,
                    addr,
                    data_len as int,
                    data_in,
                    max_packet as int,
                )
                &&& p.watch == CTRL_TD + 16 + packets(data_len as int, max_packet as int) * 16
            },
            None => packets(data_len as int, max_packet as int) + 2 > MAX_TDS,
        },
{
    let mps: usize = max_packet as usize;
    let n: usize = packet_count(data_len, mps);
    if n + 2 > MAX_TDS {
        return None;
    }
    let mut tds: Vec<Placed> = Vec::new();
    tds.push(
        Placed {
            off: CTRL_TD,
            td: Td {
                link: base + 4_128 + 4,
                status: STATUS_SETUP,
                token: token(7, 0, 0, addr, PID_SETUP),
                buffer: base + 4_944,
            },
        },
    );
    let pid = if data_in { PID_IN } else { PID_OUT };
    let ghost goal = Seq::new(
        n as nat,
        |i: int| data_td(base, addr, pid, data_len as int, mps as int, i),
    );
    let mut i: usize = 0;
    let mut off: usize = 0;
    assert(tds@ =~= seq![setup_td(base, addr)] + goal.take(0));
    while i < n
        invariant
            i <= n,
            n + 2 <= MAX_TDS,
            n == packets(data_len as int, mps as int),
            data_len <= DATA_ROOM,
            1 <= mps <= 0xffff,
            reachable(base),
            off == i * mps,
            off <= 14 * 0xffff,
            goal == Seq::new(
                n as nat,
                |j: int| data_td(base, addr, pid, data_len as int, mps as int, j),
            ),
            tds@ == seq![setup_td(base, addr)] + goal.take(i as int),
        decreases n - i,
    {
        proof {
            packets_cover_the_data(data_len as int, mps as int, i as int);
            assert((i + 1) * mps == i * mps + mps) by (nonlinear_arith);
            assert((i + 1) * mps <= 14 * 0xffff) by (nonlinear_arith)
                requires
                    i + 1 <= 14,
                    mps <= 0xffff,
            ;
        }
        let chunk: usize = if data_len - off < mps { data_len - off } else { mps };
        let placed = Placed {
            off: CTRL_TD + 16 + i * 16,
            td: Td {
                link: base + 4_144 + (i as u32) * 16 + 4,
                status: STATUS_DATA,
                token: token((chunk - 1) as u32, ((i + 1) % 2) as u32, 0, addr, pid),
                buffer: base + 4_960 + off as u32,
            },
        };
        tds.push(placed);
        proof {
            assert(placed == goal[i as int]);
            assert(goal.take(i + 1) =~= goal.take(i as int).push(placed));
            assert(tds@ =~= seq![setup_td(base, addr)] + goal.take(i + 1));
        }
        off = off + mps;
        i = i + 1;
    }
    let back = if data_len > 0 && data_in { PID_OUT } else { PID_IN };
    tds.push(
        Placed {
            off: CTRL_TD + 16 + n * 16,
            td: Td {
                link: LINK_TERM,
                status: STATUS_END,
                token: token(0x7ff, 1, 0, addr, back),
                buffer: 0,
            },
        },
    );
    assert(goal.take(n as int) =~= goal);
    assert(tds@ =~= control_tds(base, addr, data_len as int, data_in, mps as int));
    Some(Plan { tds, watch: CTRL_TD + 16 + n * 16 })
}

/// The descriptors of a control transfer form one chain: each leads to the
/// one behind it, the last to none, and all lie in the memory set aside for
/// them.
pub proof fn control_descriptors_form_a_chain(
    base: u32,
    addr: u8,
    len: int,
    data_in: bool,
    mps: int,
    i: int,
)
    requires
        reachable(base),
        len >= 0,
        mps >= 1,
        packets(len, mps) + 2 <= MAX_TDS,
        0 <= i < control_tds(base, addr, len, data_in, mps).len(),
    ensures
        ({
            let v = control_tds(base, addr, len, data_in, mps);
            &&& v[i].off == CTRL_TD + i * 16
            &&& v[i].off + 16 <= INT_TD
            &&& i + 1 < v.len() ==> v[i].td.link == base + v[i + 1].off + LINK_DEPTH
            &&& i + 1 == v.len() ==> v[i].td.link == LINK_TERM
        }),
{
    if len > 0 {
        packets_nonneg(len, mps);
    }
}

proof fn packets_nonneg(len: int, mps: int)
    requires
        len > 0,
        mps >= 1,
    ensures
        packets(len, mps) >= 0,
{
    vstd::arithmetic::div_mod::lemma_div_pos_is_pos(len + mps - 1, mps);
}

// ── Bulk transfers ──────────────────────────────────────────────────────────

/// The packet size that a bulk endpoint is used with.
pub open spec fn bulk_mps(mps: u16) -> int {
    if mps < 1 {
        1
    } else if mps > 64 {
        64
    } else {
        mps as int
    }
}

/// The toggle of packet `i`, when the first one has this toggle.
pub open spec fn toggled(first: bool, i: int) -> bool {
    if i % 2 == 0 {
        first
    } else {
        !first
    }
}

pub open spec fn bulk_td(
    base: u32,
    addr: u8,
    ep: u8,
    pid: u8,
    len: int,
    mps: int,
    toggle: bool,
    i: int,
) -> Placed {
    let last = i + 1 == packets(len, mps);
    Placed {
        off: (CTRL_TD + i * 16) as usize,
        td: Td {
            link: if last {
                LINK_TERM
            } else {
                link_to(base, CTRL_TD + 16 + i * 16)
            },
            status: if last {
                STATUS_LAST_DATA
            } else {
                STATUS_DATA
            },
            token: token_of(
                (packet_len(len, mps, i) - 1) as u32,
                if toggled(toggle, i) {
                    1
                } else {
                    0
                },
                ep,
                addr,
                pid,
            ),
            buffer: (base + DATA_BUF + i * mps) as u32,
        },
    }
}

pub open spec fn bulk_tds(
    base: u32,
    addr: u8,
    ep: u8,
    pid: u8,
    len: int,
    mps: int,
    toggle: bool,
) -> Seq<Placed> {
    Seq::new(
        packets(len, mps) as nat,
        |i: int| bulk_td(base, addr, ep, pid, len, mps, toggle, i),
    )
}

/// Most bytes of one bulk transfer.
pub const BULK_MAX: usize = 1_024;

/// How many bytes are moved at a time: as many whole packets as there are
/// descriptors, or all that is left.
pub open spec fn round_len(len: int, mps: int) -> int {
    if len < MAX_TDS * mps {
        len
    } else {
        MAX_TDS * mps
    }
}

/// The toggle of an endpoint once a transfer with this toggle is over, one
/// round after the other.
pub open spec fn toggle_after(toggle: bool, len: int, mps: int) -> bool
    decreases len,
{
    let n = round_len(len, mps);
    if len <= 0 || n <= 0 {
        toggle
    } else {
        toggle_after(toggled(toggle, packets(n, mps)), len - n, mps)
    }
}

/// A transfer flips its toggle once for each of its packets, in however many
/// rounds it is moved.
pub proof fn rounds_flip_once_per_packet(toggle: bool, len: int, mps: int)
    requires
        len >= 0,
        mps >= 1,
    ensures
        toggle_after(toggle, len, mps) == toggled(toggle, packets(len, mps)),
    decreases len,
{
    let n = round_len(len, mps);
    if len > 0 {
        packets_nonneg(n, mps);
        if n < len {
            full_round(mps);
            packets_of_the_rest(len, mps);
            rounds_flip_once_per_packet(toggled(toggle, packets(n, mps)), len - n, mps);
        } else {
            assert(toggle_after(toggled(toggle, packets(n, mps)), 0, mps) == toggled(
                toggle,
                packets(n, mps),
            ));
        }
    }
}

/// The rounds of a transfer cut it between packets: each but the last is made
/// of full packets, and the packets of all rounds are those of the whole.
pub proof fn rounds_are_made_of_packets(len: int, mps: int, i: int)
    requires
        len > 0,
        mps >= 1,
        0 <= i < packets(round_len(len, mps), mps),
    ensures
        0 < round_len(len, mps) <= len,
        packets(round_len(len, mps), mps) <= MAX_TDS,
        packets(len, mps) == packets(round_len(len, mps), mps) + packets(
            len - round_len(len, mps),
            mps,
        ),
        packet_len(round_len(len, mps), mps, i) == packet_len(len, mps, i),
{
    let n = round_len(len, mps);
    round_fits(len, mps);
    full_round(mps);
    packets_cover_the_data(n, mps, i);
    if n < len {
        packets_of_the_rest(len, mps);
        packets_nonneg(len - n, mps);
        packets_cover_the_data(len, mps, i);
        assert((i + 1) * mps <= 16 * mps) by (nonlinear_arith)
            requires
                i + 1 <= 16,
                mps >= 1,
        ;
        assert((i + 1) * mps == i * mps + mps) by (nonlinear_arith);
    }
}

proof fn full_round(mps: int)
    requires
        mps >= 1,
    ensures
        packets(MAX_TDS * mps, mps) == MAX_TDS,
{
    vstd::arithmetic::div_mod::lemma_fundamental_div_mod_converse(
        MAX_TDS * mps + mps - 1,
        mps,
        MAX_TDS as int,
        mps - 1,
    );
}

proof fn packets_of_the_rest(len: int, mps: int)
    requires
        mps >= 1,
        len > MAX_TDS * mps,
    ensures
        packets(len, mps) == MAX_TDS + packets(len - MAX_TDS * mps, mps),
{
    vstd::arithmetic::div_mod::lemma_hoist_over_denominator(
        len - MAX_TDS * mps + mps - 1,
        MAX_TDS as int,
        mps as nat,
    );
}

/// A round moves something, and there are descriptors for it.
pub proof fn round_fits(len: int, mps: int)
    requires
        len > 0,
        mps >= 1,
    ensures
        0 < round_len(len, mps) <= len,
        0 < packets(round_len(len, mps), mps) <= MAX_TDS,
{
    let n = round_len(len, mps);
    full_round(mps);
    packets_nonneg(n, mps);
    vstd::arithmetic::div_mod::lemma_div_is_ordered(n + mps - 1, MAX_TDS * mps + mps - 1, mps);
    vstd::arithmetic::div_mod::lemma_div_is_ordered(mps, n + mps - 1, mps);
    vstd::arithmetic::div_mod::lemma_div_by_self(mps);
}

/// A bulk transfer.
pub enum Bulk {
    /// There is nothing to transfer.
    Nothing,
    /// It is longer than one transfer may be.
    TooLong,
    /// The first round of it.
    Ready(Round),
}

/// A part of a bulk transfer that is moved at a time.
pub struct Round {
    pub plan: Plan,
    /// How many bytes it moves, at [`DATA_BUF`].
    pub len: usize,
    /// How many bytes are left for later rounds.
    pub rest: usize,
    /// The toggle that the endpoint has once the round succeeded.
    pub toggle: bool,
}

fn bulk_size(mps: u16) -> (r: usize)
    ensures
        r == bulk_mps(mps),
{
    if mps < 1 {
        1
    } else if mps > 64 {
        64
    } else {
        mps as usize
    }
}

/// How many bytes the next round moves of `len` that are left, and the toggle
/// after it.
pub fn next_round(len: usize, mps: u16, toggle: bool) -> (r: (usize, bool))
    requires
        len <= BULK_MAX,
    ensures
        r.0 == round_len(len as int, bulk_mps(mps)),
        r.1 == toggled(toggle, packets(r.0 as int, bulk_mps(mps))),
{
    let mps: usize = bulk_size(mps);
    let n: usize = if len < MAX_TDS * mps { len } else { MAX_TDS * mps };
    let count: usize = packet_count(n, mps);
    (n, if count % 2 == 0 { toggle } else { !toggle })
}

/// Plan the first round of a bulk transfer over one endpoint, in packets. What
/// is left is planned again, with the new toggle, once the round is over.
pub fn bulk_transfer(
    base: u32,
    addr: u8,
    ep: u8,
    pid: u8,
    len: usize,
    mps: u16,
    toggle: bool,
) -> (r: Bulk)
    requires
        reachable(base),
    ensures
        match r {
            Bulk::Nothing => len == 0,
            Bulk::TooLong => len > BULK_MAX,
            Bulk::Ready(round) => {
                let size = bulk_mps(mps);
                let n = packets(round.len as int, size);
                &&& 0 < len <= BULK_MAX
                &&& round.len == round_len(len as int, size)
                &&& round.rest == len - round.len
                &&& 0 < n <= MAX_TDS
                &&& round.plan.tds@ == bulk_tds(
                    base,
                    addr,
                    ep,
                    pid,
                    round.len as int,
                    size,
                    toggle,
                )
                &&& round.plan.watch == CTRL_TD + (n - 1) * 16
                &&& round.toggle == toggled(toggle, n)
                &&& toggle_after(round.toggle, round.rest as int, size) == toggled(
                    toggle,
                    packets(len as int, size),
                )
            },
        },
{
    if len == 0 {
        return Bulk::Nothing;
    }
    if len > BULK_MAX {
        return Bulk::TooLong;
    }
    let size: u16 = mps;
    let mps: usize = bulk_size(mps);
    let ghost whole = len as int;
    proof {
        round_fits(whole, mps as int);
        rounds_flip_once_per_packet(toggle, whole, mps as int);
    }
    let (round, _) = next_round(len, size, toggle);
    let rest: usize = len - round;
    let len: usize = round;
    let n: usize = packet_count(len, mps);
    let mut tds: Vec<Placed> = Vec::new();
    let ghost goal = bulk_tds(base, addr, ep, pid, len as int, mps as int, toggle);
    let mut i: usize = 0;
    let mut off: usize = 0;
    let mut tgl = toggle;
    assert(tds@ =~= goal.take(0));
    while i < n
        invariant
            i <= n <= MAX_TDS,
            n == packets(len as int, mps as int),
            0 < len <= DATA_ROOM,
            1 <= mps <= 64,
            reachable(base),
            off == i * mps,
            off <= 16 * 64,
            tgl == toggled(toggle, i as int),
            goal == bulk_tds(base, addr, ep, pid, len as int, mps as int, toggle),
            tds@ == goal.take(i as int),
        decreases n - i,
    {
        proof {
            packets_cover_the_data(len as int, mps as int, i as int);
            assert((i + 1) * mps == i * mps + mps) by (nonlinear_arith);
            assert((i + 1) * mps <= 16 * 64) by (nonlinear_arith)
                requires
                    i + 1 <= 16,
                    mps <= 64,
            ;
        }
        let chunk: usize = if len - off < mps { len - off } else { mps };
        let last = i + 1 == n;
        let placed = Placed {
            off: CTRL_TD + i * 16,
            td: Td {
                link: if last { LINK_TERM } else { base + 4_128 + (i as u32) * 16 + 4 },
                status: if last { STATUS_LAST_DATA } else { STATUS_DATA },
                token: token((chunk - 1) as u32, if tgl { 1 } else { 0 }, ep, addr, pid),
                buffer: base + 4_960 + off as u32,
            },
        };
        tds.push(placed);
        proof {
            assert(placed == goal[i as int]);
            assert(goal.take(i + 1) =~= goal.take(i as int).push(placed));
        }
        tgl = !tgl;
        off = off + mps;
        i = i + 1;
    }
    assert(goal.take(n as int) =~= goal);
    Bulk::Ready(
        Round { plan: Plan { tds, watch: CTRL_TD + (n - 1) * 16 }, len, rest, toggle: tgl },
    )
}

/// The toggles of a bulk endpoint alternate from packet to packet, also from
/// the last packet of one transfer to the first of the next.
pub proof fn toggles_alternate(first: bool, i: int)
    requires
        i >= 0,
    ensures
        toggled(first, 0) == first,
        toggled(first, i + 1) == !toggled(first, i),
{
}

// ── Waiting ─────────────────────────────────────────────────────────────────

/// Whether a transfer is over, and how it ended.
pub open spec fn outcome(status: u32, waited: u64) -> Option<bool> {
    if status & TD_ACTIVE == 0 {
        Some(status & TD_ERRORS == 0)
    } else if waited > TRANSFER_TICKS {
        Some(false)
    } else {
        None
    }
}

/// Look at the descriptor that a transfer ends with; `waited` is the time
/// since it began, in clock ticks.
pub fn transfer_outcome(status: u32, waited: u64) -> (r: Option<bool>)
    ensures
        r == outcome(status, waited),
{
    if status & TD_ACTIVE == 0 {
        Some(status & TD_ERRORS == 0)
    } else if waited > TRANSFER_TICKS {
        Some(false)
    } else {
        None
    }
}

/// How many clock ticks to wait for so many milliseconds, rounded up. A tick
/// is about 55 ms.
pub fn ticks_for(ms: u32) -> (r: u64)
    ensures
        r == (ms as int + 54) / 55,
{
    (ms as u64 + 54) / 55
}

// ── Interrupt endpoints ─────────────────────────────────────────────────────

/// The descriptor that asks a device for its next report.
pub open spec fn interrupt_td(base: u32, slot: int, addr: u8, ep: u8, len: int) -> Placed {
    Placed {
        off: (INT_TD + slot * 16) as usize,
        td: Td {
            link: LINK_TERM,
            status: STATUS_END,
            token: token_of(
                (if len > 0 {
                    len - 1
                } else {
                    0
                }) as u32,
                0,
                ep,
                addr,
                PID_IN,
            ),
            buffer: (base + REPORT_BUF + slot * 16) as u32,
        },
    }
}

/// Hand an interrupt descriptor to the controller, again or for the first
/// time. The frame list stays as it is.
pub fn reactivate_interrupt_td(base: u32, slot: usize, addr: u8, ep: u8, len: usize) -> (r: Placed)
    requires
        reachable(base),
        slot < MAX_DEVICES,
        len <= 64,
    ensures
        r == interrupt_td(base, slot as int, addr, ep, len as int),
{
    let maxlen: u32 = if len > 0 { (len - 1) as u32 } else { 0 };
    Placed {
        off: INT_TD + slot * 16,
        td: Td {
            link: LINK_TERM,
            status: STATUS_END,
            token: token(maxlen, 0, ep, addr, PID_IN),
            buffer: base + 4_432 + (slot as u32) * 16,
        },
    }
}

/// The frame list with a device's descriptor in every eighth frame, so that
/// several devices coexist.
pub open spec fn armed(frames: Seq<u32>, base: u32, slot: int) -> Seq<u32> {
    Seq::new(
        frames.len(),
        |i: int|
            if i >= slot && (i - slot) % 8 == 0 {
                link_to(base, INT_TD + slot * 16)
            } else {
                frames[i]
            },
    )
}

/// Put a device's interrupt descriptor into the frame list.
pub fn arm_interrupt_td(frames: &mut Vec<u32>, base: u32, slot: usize)
    requires
        reachable(base),
        slot < MAX_DEVICES,
        old(frames)@.len() == FRAMES,
    ensures
        final(frames)@ == armed(old(frames)@, base, slot as int),
{
    let ghost start = frames@;
    let link: u32 = base + 4_368 + (slot as u32) * 16 + 4;
    let mut i: usize = slot;
    while i < FRAMES
        invariant
            slot < MAX_DEVICES,
            slot <= i,
            i <= FRAMES + 8,
            (i - slot) % 8 == 0,
            frames@.len() == FRAMES,
            start.len() == FRAMES,
            link == link_to(base, INT_TD + slot * 16),
            forall|j: int|
                0 <= j < FRAMES ==> #[trigger] frames@[j] == (if slot <= j < i && (j - slot) % 8 == 0 {
                    link
                } else {
                    start[j]
                }),
        decreases FRAMES + 8 - i,
    {
        frames.set(i, link);
        i = i + 8;
    }
    assert(frames@ =~= armed(start, base, slot as int));
}

/// Two devices never share a frame: arming one leaves the other's frames as
/// they were.
pub proof fn devices_share_no_frame(frames: Seq<u32>, base: u32, a: int, b: int, i: int)
    requires
        0 <= a < MAX_DEVICES,
        0 <= b < MAX_DEVICES,
        a != b,
        frames.len() == FRAMES,
        0 <= i < FRAMES,
        i >= a,
        (i - a) % 8 == 0,
    ensures
        armed(armed(frames, base, a), base, b)[i] == link_to(base, INT_TD + a * 16),
{
}

/// How many bytes of a report have arrived; `None` where nothing usable has.
pub open spec fn report_len(status: u32, want: int) -> Option<int> {
    let actual = (status & 0x7ff) as int;
    if status & TD_ACTIVE == 0 && status & TD_ERRORS == 0 && actual != 0x7ff {
        Some(
            if actual + 1 < want {
                actual + 1
            } else {
                want
            },
        )
    } else {
        None
    }
}

/// What the state of an interrupt descriptor says.
#[derive(Clone, Copy, Debug, PartialEq, Eq, Structural)]
pub enum Report {
    /// The device has nothing to say yet.
    Pending,
    /// A report of this length has arrived; the descriptor is to be handed
    /// over again.
    Arrived(usize),
    /// Something went wrong; the descriptor is to be handed over again.
    Lost,
}

pub fn report_state(status: u32, want: usize) -> (r: Report)
    ensures
        match r {
            Report::Pending => status & TD_ACTIVE != 0,
            Report::Arrived(n) => report_len(status, want as int) == Some(n as int),
            Report::Lost => status & TD_ACTIVE == 0 && report_len(status, want as int) is None,
        },
{
    if status & TD_ACTIVE != 0 {
        return Report::Pending;
    }
    let actual: usize = (status & 0x7ff) as usize;
    assert(status & 0x7ff <= 0x7ff) by (bit_vector);
    if status & TD_ERRORS == 0 && actual != 0x7ff {
        Report::Arrived(if actual + 1 < want { actual + 1 } else { want })
    } else {
        Report::Lost
    }
}

// ── The controller ──────────────────────────────────────────────────────────

/// A step of bringing the controller up.
#[derive(Clone, Copy, Debug, PartialEq, Eq, Structural)]
pub enum Bring {
    /// Write 16 bits to a register.
    Word(u16, u16),
    /// Write 32 bits to a register.
    Long(u16, u32),
    /// Wait so many milliseconds.
    Wait(u32),
    /// Wait until these bits of a register are clear.
    Clear(u16, u16),
    /// Let every frame lead nowhere.
    EmptyFrames,
}

pub open spec fn start_steps(base: u32) -> Seq<Bring> {
    seq![
        Bring::Word(0x00, 0x04),
        Bring::Wait(10),
        Bring::Word(0x00, 0),
        Bring::Wait(1),
        Bring::Word(0x00, 0x02),
        Bring::Clear(0x00, 0x02),
        Bring::EmptyFrames,
        Bring::Long(0x08, base),
        Bring::Word(0x06, 0),
        Bring::Word(0x04, 0),
        Bring::Word(0x0c, 64),
        Bring::Word(0x02, 0xffff),
        Bring::Word(0x00, 0x81),
    ]
}

/// How the controller is reset and started: it is polled, without interrupts,
/// with packets of up to 64 bytes.
pub fn reset_and_start(base: u32) -> (r: Vec<Bring>)
    ensures
        r@ == start_steps(base),
{
    let mut v: Vec<Bring> = Vec::new();
    v.push(Bring::Word(0x00, 0x04));
    v.push(Bring::Wait(10));
    v.push(Bring::Word(0x00, 0));
    v.push(Bring::Wait(1));
    v.push(Bring::Word(0x00, 0x02));
    v.push(Bring::Clear(0x00, 0x02));
    v.push(Bring::EmptyFrames);
    v.push(Bring::Long(0x08, base));
    v.push(Bring::Word(0x06, 0));
    v.push(Bring::Word(0x04, 0));
    v.push(Bring::Word(0x0c, 64));
    v.push(Bring::Word(0x02, 0xffff));
    v.push(Bring::Word(0x00, 0x81));
    assert(v@ =~= start_steps(base));
    v
}

/// The register of a port.
pub fn port_register(port: usize) -> (r: u16)
    requires
        port < MAX_PORTS,
    ensures
        r == 0x10 + port * 2,
{
    0x10 + (port as u16) * 2
}

/// Whether a device is connected to a port.
pub fn port_connected(sc: u16) -> (r: bool)
    ensures
        r == (sc & 1 != 0),
{
    sc & 1 != 0
}

/// The values to write to a port to begin its reset, to end it, and to enable
/// it; and whether that worked.
pub fn port_in_reset(sc: u16) -> (r: u16)
    ensures
        r == sc | 0x200,
{
    sc | 0x200
}

pub fn port_out_of_reset(sc: u16) -> (r: u16)
    ensures
        r == sc & 0xfdff,
{
    sc & 0xfdff
}

pub fn port_enabling(sc: u16) -> (r: u16)
    ensures
        r == sc | 0x06,
{
    sc | 0x06
}

pub fn port_enabled(sc: u16) -> (r: bool)
    ensures
        r == (sc & 4 != 0),
{
    sc & 4 != 0
}

/// A base address register.
#[derive(Clone, Copy, Debug, PartialEq, Eq, Structural)]
pub enum Bar {
    Io(u32),
    Memory(u64),
}

/// A device of the PCI bus, as far as the driver looks at it.
#[derive(Clone, Copy, Debug, PartialEq, Eq, Structural)]
pub struct PciEntry {
    pub vendor: u16,
    pub device: u16,
    pub class: u8,
    pub subclass: u8,
    pub prog_if: u8,
    pub bar0: Option<Bar>,
    pub bar4: Option<Bar>,
}

/// The controllers that are known by their numbers.
pub open spec fn known(d: PciEntry) -> bool {
    d.vendor == 0x8086 && (d.device == 0x7020 || d.device == 0x7112 || d.device == 0x2412)
}

/// Any other UHCI controller.
pub open spec fn of_class(d: PciEntry) -> bool {
    d.class == 0x0c && d.subclass == 0x03 && d.prog_if == 0
}

/// The controller to use: the first known one, or else the first that says it
/// is one.
pub open spec fn chosen(v: Seq<PciEntry>, i: int) -> bool {
    &&& 0 <= i < v.len()
    &&& (known(v[i]) && forall|j: int| 0 <= j < i ==> !known(#[trigger] v[j])) || (of_class(v[i])
        && (forall|j: int| 0 <= j < v.len() ==> !known(#[trigger] v[j])) && (forall|j: int|
        0 <= j < i ==> !of_class(#[trigger] v[j])))
}

fn is_known(d: &PciEntry) -> (r: bool)
    ensures
        r == known(*d),
{
    d.vendor == 0x8086 && (d.device == 0x7020 || d.device == 0x7112 || d.device == 0x2412)
}

fn is_of_class(d: &PciEntry) -> (r: bool)
    ensures
        r == of_class(*d),
{
    d.class == 0x0c && d.subclass == 0x03 && d.prog_if == 0
}

/// Find the controller among the devices of the bus.
pub fn find_controller(v: &Vec<PciEntry>) -> (r: Option<usize>)
    ensures
        match r {
            Some(i) => chosen(v@, i as int),
            None => forall|i: int|
                0 <= i < v@.len() ==> !known(#[trigger] v@[i]) && !of_class(v@[i]),
        },
{
    let mut i: usize = 0;
    while i < v.len()
        invariant
            i <= v@.len(),
            forall|j: int| 0 <= j < i ==> !known(#[trigger] v@[j]),
        decreases v@.len() - i,
    {
        if is_known(&v[i]) {
            return Some(i);
        }
        i = i + 1;
    }
    let mut k: usize = 0;
    while k < v.len()
        invariant
            k <= v@.len(),
            forall|j: int| 0 <= j < v@.len() ==> !known(#[trigger] v@[j]),
            forall|j: int| 0 <= j < k ==> !of_class(#[trigger] v@[j]),
        decreases v@.len() - k,
    {
        if is_of_class(&v[k]) {
            return Some(k);
        }
        k = k + 1;
    }
    None
}
/// How a request is laid out: what kind it is, which one, and its three
/// numbers with the lower byte first.
pub proof fn requests_are_laid_out(bm: u8, req: u8, value: u16, index: u16, len: nat)
    requires
        len <= 0xffff,
    ensures
        ({
            let b = setup_bytes(bm, req, value, index, len);
            &&& b.len() == 8
            &&& b[0] == bm
            &&& b[1] == req
            &&& b[2] + 256 * b[3] == value
            &&& b[4] + 256 * b[5] == index
            &&& b[6] + 256 * b[7] == len
        }),
{
}

/// The data of a control transfer goes one way, and what ends it the other;
/// without data the device has the last word.
pub proof fn transfers_end_the_other_way(len: int, data_in: bool)
    requires
        len >= 0,
    ensures
        data_pid(data_in) == if data_in { 0x69int } else { 0xe1 },
        len > 0 ==> status_pid(len, data_in) != data_pid(data_in),
        len > 0 ==> status_pid(len, data_in) == data_pid(!data_in),
        len == 0 ==> status_pid(len, data_in) == data_pid(true),
{
}

/// A control transfer begins with the request, moves its data packet by
/// packet, and ends with an empty packet.
pub proof fn control_transfers_move_all_their_data(
    base: u32,
    addr: u8,
    len: int,
    data_in: bool,
    mps: int,
    i: int,
)
    requires
        reachable(base),
        addr <= 127,
        0 <= len,
        1 <= mps <= 64,
        packets(len, mps) + 2 <= MAX_TDS,
        0 <= i < packets(len, mps),
    ensures
        ({
            let v = control_tds(base, addr, len, data_in, mps);
            let t = v[i + 1].td.token;
            &&& v.len() == packets(len, mps) + 2
            &&& v[0].td.token & 0xff == 0x2d && v[0].td.token >> 21 == 7
            &&& v[0].td.buffer == base + SETUP_BUF
            &&& t >> 21 == packet_len(len, mps, i) - 1
            &&& t & 0xff == data_pid(data_in)
            &&& (t >> 8) & 127 == addr
            &&& (t >> 19) & 1 == (if i % 2 == 0 { 1int } else { 0 })
            &&& v[i + 1].td.buffer == base + DATA_BUF + i * mps
            &&& v.last().td.token >> 21 == 0x7ff
            &&& v.last().td.token & 0xff == status_pid(len, data_in)
            &&& v.last().td.link & 1 == 1
        }),
{
    let v = control_tds(base, addr, len, data_in, mps);
    let n = packets(len, mps);
    packets_cover_the_data(len, mps, i);
    let d = data_td(base, addr, data_pid(data_in), len, mps, i);
    assert(v[i + 1] == d);
    assert(v.last() == status_td(addr, n, status_pid(len, data_in)));
    assert(v[0] == setup_td(base, addr));
    tokens_hold_their_fields(7, 0, 0, addr, PID_SETUP);
    tokens_hold_their_fields(0x7ff, 1, 0, addr, status_pid(len, data_in));
    tokens_hold_their_fields(
        (packet_len(len, mps, i) - 1) as u32,
        ((i + 1) % 2) as u32,
        0,
        addr,
        data_pid(data_in),
    );
    assert(0 <= i * mps <= 14 * 64) by (nonlinear_arith)
        requires
            0 <= i <= 14,
            1 <= mps <= 64,
    ;
    assert(1u32 & 1 == 1) by (bit_vector);
}

/// A bulk transfer moves its data packet by packet, and the toggles of the
/// packets alternate.
pub proof fn bulk_transfers_move_all_their_data(
    base: u32,
    addr: u8,
    ep: u8,
    pid: u8,
    len: int,
    mps: int,
    toggle: bool,
    i: int,
)
    requires
        reachable(base),
        addr <= 127,
        ep <= 15,
        0 <= len,
        1 <= mps <= 64,
        packets(len, mps) <= MAX_TDS,
        0 <= i < packets(len, mps),
    ensures
        ({
            let v = bulk_tds(base, addr, ep, pid, len, mps, toggle);
            let t = v[i].td.token;
            &&& v.len() == packets(len, mps)
            &&& t >> 21 == packet_len(len, mps, i) - 1
            &&& t & 0xff == pid
            &&& (t >> 8) & 127 == addr
            &&& (t >> 15) & 15 == ep
            &&& ((t >> 19) & 1 == 1) == (toggle == (i % 2 == 0))
            &&& v[i].td.buffer == base + DATA_BUF + i * mps
            &&& v[i].td.link == (if i + 1 < v.len() {
                base + v[i].off + 16 + LINK_DEPTH
            } else {
                LINK_TERM as int
            })
        }),
{
    let v = bulk_tds(base, addr, ep, pid, len, mps, toggle);
    packets_cover_the_data(len, mps, i);
    tokens_hold_their_fields(
        (packet_len(len, mps, i) - 1) as u32,
        if toggled(toggle, i) {
            1
        } else {
            0
        },
        ep,
        addr,
        pid,
    );
    assert(0 <= i * mps <= 16 * 64) by (nonlinear_arith)
        requires
            0 <= i <= 16,
            1 <= mps <= 64,
    ;
}

/// A transfer is over once the controller has let go of its last descriptor,
/// and it succeeded if no error is marked there. One that takes too long failed.
pub proof fn transfers_end_when_they_are_let_go(status: u32, waited: u64)
    ensures
        outcome(status, waited) == Some(true) <==> status & 0x00fc_0000 == 0,
        outcome(status, waited) is None <==> status & 0x0080_0000 != 0 && waited <= 40,
        outcome(status, waited) == Some(false) ==> status & 0x007c_0000 != 0 || waited > 40,
{
    assert(status & 0x00fc_0000 == 0 <==> status & 0x0080_0000 == 0 && status & 0x007c_0000 == 0)
        by (bit_vector);
}

/// A report is as long as the controller counted, and no longer than was
/// asked for.
pub proof fn reports_are_as_long_as_they_came(status: u32, want: int)
    requires
        0 <= want,
    ensures
        report_len(status, want) is Some <==> status & 0x00fc_0000 == 0 && status & 0x7ff != 0x7ff,
        report_len(status, want) matches Some(n) ==> n <= want && n <= (status & 0x7ff) + 1 && (n
            == want || n == (status & 0x7ff) + 1),
{
    assert(status & 0x00fc_0000 == 0 <==> status & 0x0080_0000 == 0 && status & 0x007c_0000 == 0)
        by (bit_vector);
}

/// A device is asked in every eighth frame, from its own on, and the other
/// frames stay as they are.
pub proof fn devices_are_asked_every_eighth_frame(frames: Seq<u32>, base: u32, slot: int, k: int, i: int)
    requires
        reachable(base),
        frames.len() == FRAMES,
        0 <= slot < MAX_DEVICES,
        0 <= k,
        slot + 8 * k < FRAMES,
        0 <= i < FRAMES,
        i % 8 != slot,
    ensures
        armed(frames, base, slot).len() == FRAMES,
        armed(frames, base, slot)[slot + 8 * k] == base + interrupt_td(base, slot, 0, 0, 0).off
            + LINK_DEPTH,
        armed(frames, base, slot)[i] == frames[i],
{
}

/// A controller that is known by its numbers goes before one that only says it
/// is one, and the first of its kind is taken.
pub proof fn the_best_controller_is_taken(v: Seq<PciEntry>, i: int, j: int)
    requires
        chosen(v, i),
        0 <= j < v.len(),
    ensures
        known(v[i]) || of_class(v[i]),
        known(v[j]) ==> known(v[i]) && i <= j,
        of_class(v[j]) && !known(v[i]) ==> i <= j,
        chosen(v, j) ==> i == j,
{
}

/// The controller is started last, once it was reset and knows the frames.
pub proof fn the_controller_is_started_last(base: u32)
    ensures
        ({
            let s = start_steps(base);
            &&& s.last() == Bring::Word(0x00, 0x81)
            &&& exists|i: int, j: int|
                #![trigger s[i], s[j]]
                0 <= i < j < s.len() - 1 && s[i] == Bring::Clear(0x00, 0x02) && s[j] == Bring::Long(
                    0x08,
                    base,
                )
            &&& forall|i: int|
                0 <= i < s.len() - 1 ==> (#[trigger] s[i] matches Bring::Word(r, v) ==> r != 0 || v
                    == 0x04 || v == 0x02 || v == 0)
        }),
{
    let s = start_steps(base);
    assert(s[5] == Bring::Clear(0x00, 0x02) && s[7] == Bring::Long(0x08, base));
}

} // verus!
