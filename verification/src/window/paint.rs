//! Paint: a bitmap, a round brush, and flood fill.

use vstd::arithmetic::div_mod::lemma_fundamental_div_mod_converse;
use vstd::prelude::*;

use crate::color::Color;

verus! {

/// The colour of an untouched canvas.
pub const CANVAS_BG: Color = 0xFFFFFF;

/// The largest brush: the squares of its offsets can still be added.
pub const RADIUS_LIMIT: usize = 32_767;

/// Paint's colour palette. Index into this is what a palette chip carries.
pub const PAINT_PALETTE: [Color; 16] = [
    0x0F172A,
    0x64748B,
    0xCBD5E1,
    0xFFFFFF,
    0xDC2626,
    0xEA580C,
    0xF59E0B,
    0xFACC15,
    0x16A34A,
    0x10B981,
    0x06B6D4,
    0x0EA5E9,
    0x2563EB,
    0x7C3AED,
    0xDB2777,
    0xF472B6,
];

// ── Pixels ──────────────────────────────────────────────────────────────────

pub open spec fn column(p: int, cw: int) -> int {
    p % cw
}

pub open spec fn row(p: int, cw: int) -> int {
    p / cw
}

/// A bitmap of `cw` by `ch` pixels, row after row.
pub open spec fn bitmap(c: Seq<Color>, cw: int, ch: int) -> bool {
    c.len() == cw * ch && 0 <= cw <= 0x8000 && 0 <= ch <= 0x8000
}

proof fn pixel_place(cw: int, ch: int, px: int, py: int)
    requires
        0 <= px < cw <= 0x8000,
        0 <= py < ch <= 0x8000,
    ensures
        0 <= py * cw + px < cw * ch,
        py * cw <= 0x4000_0000,
        column(py * cw + px, cw) == px,
        row(py * cw + px, cw) == py,
{
    assert(0 <= py * cw && (py + 1) * cw <= ch * cw) by (nonlinear_arith)
        requires
            0 <= py < ch,
            0 < cw,
    ;
    assert((py + 1) * cw == py * cw + cw) by (nonlinear_arith);
    assert(ch * cw == cw * ch) by (nonlinear_arith);
    assert(cw * ch <= 0x4000_0000) by (nonlinear_arith)
        requires
            0 <= cw <= 0x8000,
            0 <= ch <= 0x8000,
    ;
    lemma_fundamental_div_mod_converse(py * cw + px, cw, py, px);
}

proof fn place_pixel(cw: int, ch: int, p: int)
    requires
        0 <= p < cw * ch,
        0 <= cw <= 0x8000,
        0 <= ch <= 0x8000,
    ensures
        0 < cw,
        0 <= column(p, cw) < cw,
        0 <= row(p, cw) < ch,
        row(p, cw) * cw + column(p, cw) == p,
{
    assert(0 < cw) by (nonlinear_arith)
        requires
            0 <= p < cw * ch,
            0 <= cw,
            0 <= ch,
    ;
    assert(0 <= p % cw < cw && (p / cw) * cw + p % cw == p && 0 <= p / cw < ch) by (nonlinear_arith)
        requires
            0 <= p < cw * ch,
            0 < cw,
    ;
}

// ── The brush ───────────────────────────────────────────────────────────────

/// Whether a pixel lies in the disc of radius `r` around a point.
pub open spec fn in_disc(p: int, cw: int, x: int, y: int, r: int) -> bool {
    (column(p, cw) - x) * (column(p, cw) - x) + (row(p, cw) - y) * (row(p, cw) - y) <= r * r
}

/// The canvas with the disc of radius `r` around a point in this colour; what
/// of the disc lies outside the canvas is lost.
pub open spec fn stamped(c: Seq<Color>, cw: int, x: int, y: int, r: int, colour: Color) -> Seq<
    Color,
> {
    Seq::new(c.len(), |p: int| if in_disc(p, cw, x, y, r) { colour } else { c[p] })
}

/// A disc stamped as far as the pixels before `(dx, dy)`, seen from its centre.
spec fn stamped_to(
    c: Seq<Color>,
    cw: int,
    x: int,
    y: int,
    r: int,
    colour: Color,
    dx: int,
    dy: int,
) -> Seq<Color> {
    Seq::new(
        c.len(),
        |p: int|
            if in_disc(p, cw, x, y, r) && (row(p, cw) - y < dy || (row(p, cw) - y == dy && column(
                p,
                cw,
            ) - x < dx)) {
                colour
            } else {
                c[p]
            },
    )
}

proof fn disc_within(p: int, cw: int, x: int, y: int, r: int)
    requires
        in_disc(p, cw, x, y, r),
        0 <= r,
    ensures
        -r <= column(p, cw) - x <= r,
        -r <= row(p, cw) - y <= r,
{
    let a = column(p, cw) - x;
    let b = row(p, cw) - y;
    assert(-r <= a <= r && -r <= b <= r) by (nonlinear_arith)
        requires
            a * a + b * b <= r * r,
            0 <= r,
    ;
}

/// Stamp a filled circle into the canvas bitmap.
#[verifier::rlimit(60)]
pub fn paint_stamp(
    canvas: &mut Vec<Color>,
    cw: usize,
    ch: usize,
    x: i32,
    y: i32,
    radius: usize,
    colour: Color,
)
    requires
        bitmap(old(canvas)@, cw as int, ch as int),
        radius <= RADIUS_LIMIT,
        i32::MIN + radius <= x <= i32::MAX - radius,
        i32::MIN + radius <= y <= i32::MAX - radius,
    ensures
        final(canvas)@ == stamped(
            old(canvas)@,
            cw as int,
            x as int,
            y as int,
            radius as int,
            colour,
        ),
{
    let r: i32 = radius as i32;
    assert(0 <= r * r <= 0x3fff_0001) by (nonlinear_arith)
        requires
            0 <= r <= RADIUS_LIMIT,
    ;
    let r2: i32 = r * r;
    let ghost c = canvas@;
    let mut dy: i32 = -r;
    proof {
        assert forall|p: int| 0 <= p < c.len() implies c[p] == stamped_to(
            c,
            cw as int,
            x as int,
            y as int,
            r as int,
            colour,
            -r,
            -r as int,
        )[p] by {
            if in_disc(p, cw as int, x as int, y as int, r as int) {
                disc_within(p, cw as int, x as int, y as int, r as int);
            }
        }
        assert(c =~= stamped_to(c, cw as int, x as int, y as int, r as int, colour, -r, -r as int));
    }
    while dy <= r
        invariant
            0 <= r <= RADIUS_LIMIT,
            r2 == r * r,
            -r <= dy <= r + 1,
            i32::MIN + r <= x <= i32::MAX - r,
            i32::MIN + r <= y <= i32::MAX - r,
            bitmap(c, cw as int, ch as int),
            canvas@ == stamped_to(
                c,
                cw as int,
                x as int,
                y as int,
                r as int,
                colour,
                -r,
                dy as int,
            ),
        decreases r + 1 - dy,
    {
        let py: i32 = y + dy;
        if py >= 0 && py < ch as i32 {
            let mut dx: i32 = -r;
            while dx <= r
                invariant
                    0 <= r <= RADIUS_LIMIT,
                    r2 == r * r,
                    -r <= dx <= r + 1,
                    -r <= dy <= r,
                    py == y + dy,
                    0 <= py < ch,
                    i32::MIN + r <= x <= i32::MAX - r,
                    bitmap(c, cw as int, ch as int),
                    canvas@ == stamped_to(
                        c,
                        cw as int,
                        x as int,
                        y as int,
                        r as int,
                        colour,
                        dx as int,
                        dy as int,
                    ),
                decreases r + 1 - dx,
            {
                let px: i32 = x + dx;
                assert(0 <= dx * dx <= 0x3fff_0001 && 0 <= dy * dy <= 0x3fff_0001) by (nonlinear_arith)
                    requires
                        -32_767 <= dx <= 32_767,
                        -32_767 <= dy <= 32_767,
                ;
                let inside = dx * dx + dy * dy <= r2;
                let ghost before = canvas@;
                if px >= 0 && px < cw as i32 && inside {
                    proof {
                        pixel_place(cw as int, ch as int, px as int, py as int);
                    }
                    canvas.set(py as usize * cw + px as usize, colour);
                }
                proof {
                    let after = stamped_to(
                        c,
                        cw as int,
                        x as int,
                        y as int,
                        r as int,
                        colour,
                        dx + 1,
                        dy as int,
                    );
                    assert forall|p: int| 0 <= p < c.len() implies canvas@[p] == after[p] by {
                        place_pixel(cw as int, ch as int, p);
                        if column(p, cw as int) - x == dx && row(p, cw as int) - y == dy {
                            assert(p == py * cw + px);
                        } else if 0 <= px < cw {
                            pixel_place(cw as int, ch as int, px as int, py as int);
                        }
                    }
                    assert(canvas@ =~= after);
                }
                dx = dx + 1;
            }
        }
        proof {
            let after = stamped_to(
                c,
                cw as int,
                x as int,
                y as int,
                r as int,
                colour,
                -r,
                dy + 1,
            );
            assert forall|p: int| 0 <= p < c.len() implies canvas@[p] == after[p] by {
                place_pixel(cw as int, ch as int, p);
                if in_disc(p, cw as int, x as int, y as int, r as int) {
                    disc_within(p, cw as int, x as int, y as int, r as int);
                }
            }
            assert(canvas@ =~= after);
        }
        dy = dy + 1;
    }
    proof {
        let after = stamped(c, cw as int, x as int, y as int, r as int, colour);
        assert forall|p: int| 0 <= p < c.len() implies canvas@[p] == after[p] by {
            if in_disc(p, cw as int, x as int, y as int, r as int) {
                disc_within(p, cw as int, x as int, y as int, r as int);
            }
        }
        assert(canvas@ =~= after);
    }
}

/// `a / b` without its fraction, for any sign of `a`.
pub open spec fn quotient(a: int, b: int) -> int {
    if a >= 0 {
        a / b
    } else {
        -((-a) / b)
    }
}

pub open spec fn distance(a: int, b: int) -> int {
    if a >= b {
        a - b
    } else {
        b - a
    }
}

/// How many steps a stroke takes: one for each pixel of its longer side.
pub open spec fn stroke_steps(from: (u16, u16), to: (u16, u16)) -> int {
    let dx = distance(from.0 as int, to.0 as int);
    let dy = distance(from.1 as int, to.1 as int);
    let n = if dx >= dy {
        dx
    } else {
        dy
    };
    if n >= 1 {
        n
    } else {
        1
    }
}

/// Where the stamp of step `s` goes.
pub open spec fn stroke_point(from: (u16, u16), to: (u16, u16), s: int) -> (int, int) {
    let n = stroke_steps(from, to);
    (from.0 + quotient((to.0 - from.0) * s, n), from.1 + quotient((to.1 - from.1) * s, n))
}

/// The canvas after the first `k` stamps of a stroke.
pub open spec fn stroked_to(
    c: Seq<Color>,
    cw: int,
    from: (u16, u16),
    to: (u16, u16),
    r: int,
    colour: Color,
    k: int,
) -> Seq<Color>
    decreases k,
{
    if k <= 0 {
        c
    } else {
        let p = stroke_point(from, to, k - 1);
        stamped(stroked_to(c, cw, from, to, r, colour, k - 1), cw, p.0, p.1, r, colour)
    }
}

/// The brush drawn along the segment between two points.
pub open spec fn stroked(
    c: Seq<Color>,
    cw: int,
    from: (u16, u16),
    to: (u16, u16),
    r: int,
    colour: Color,
) -> Seq<Color> {
    stroked_to(c, cw, from, to, r, colour, stroke_steps(from, to) + 1)
}

fn along(a: i32, b: i32, s: i32, n: i32) -> (r: i32)
    requires
        0 <= a <= 0xFFFF,
        0 <= b <= 0xFFFF,
        0 <= s <= n,
        1 <= n <= 0xFFFF,
    ensures
        r == a + quotient((b - a) * s, n as int),
        -0x1_0000 <= r <= 0x2_0000,
{
    let d: i64 = if b >= a { (b - a) as i64 } else { (a - b) as i64 };
    assert(0 <= d * s <= 0xFFFF * 0xFFFF) by (nonlinear_arith)
        requires
            0 <= d <= 0xFFFF,
            0 <= s <= 0xFFFF,
    ;
    let q: i64 = d * s as i64 / n as i64;
    assert(0 <= q <= d) by (nonlinear_arith)
        requires
            q == d * s / n as int,
            0 <= s <= n,
            1 <= n,
            0 <= d,
    ;
    proof {
        if b >= a {
            assert((b - a) * s == d * s);
        } else {
            assert((b - a) * s == -(d * s)) by (nonlinear_arith)
                requires
                    b - a == -d,
            ;
        }
        if d * s == 0 {
            assert(q == 0);
        }
    }
    if b >= a {
        a + q as i32
    } else {
        a - q as i32
    }
}

/// Stamp along the segment between two samples: the mouse reports a position
/// only every so often, and a fast drag would leave a dotted line.
pub fn paint_stroke(
    canvas: &mut Vec<Color>,
    cw: usize,
    ch: usize,
    from: (u16, u16),
    to: (u16, u16),
    radius: usize,
    colour: Color,
)
    requires
        bitmap(old(canvas)@, cw as int, ch as int),
        radius <= RADIUS_LIMIT,
    ensures
        final(canvas)@ == stroked(old(canvas)@, cw as int, from, to, radius as int, colour),
        bitmap(final(canvas)@, cw as int, ch as int),
{
    let x0: i32 = from.0 as i32;
    let y0: i32 = from.1 as i32;
    let x1: i32 = to.0 as i32;
    let y1: i32 = to.1 as i32;
    let dx: i32 = if x0 >= x1 { x0 - x1 } else { x1 - x0 };
    let dy: i32 = if y0 >= y1 { y0 - y1 } else { y1 - y0 };
    let longer: i32 = if dx >= dy { dx } else { dy };
    let steps: i32 = if longer >= 1 { longer } else { 1 };
    let ghost c = canvas@;
    let mut s: i32 = 0;
    while s <= steps
        invariant
            0 <= s <= steps + 1,
            1 <= steps <= 0xFFFF,
            steps == stroke_steps(from, to),
            x0 == from.0,
            y0 == from.1,
            x1 == to.0,
            y1 == to.1,
            radius <= RADIUS_LIMIT,
            bitmap(c, cw as int, ch as int),
            canvas@ == stroked_to(c, cw as int, from, to, radius as int, colour, s as int),
            canvas@.len() == c.len(),
        decreases steps + 1 - s,
    {
        let px: i32 = along(x0, x1, s, steps);
        let py: i32 = along(y0, y1, s, steps);
        paint_stamp(canvas, cw, ch, px, py, radius, colour);
        s = s + 1;
    }
}

// ── Flood fill ──────────────────────────────────────────────────────────────

pub open spec fn on_canvas(cw: int, ch: int, x: int, y: int) -> bool {
    0 <= x < cw && 0 <= y < ch
}

pub open spec fn at(c: Seq<Color>, cw: int, x: int, y: int) -> Color {
    c[y * cw + x]
}

/// The colour that is being replaced, and where the fill was started.
pub ghost struct Region {
    pub c: Seq<Color>,
    pub cw: int,
    pub ch: int,
    pub x0: int,
    pub y0: int,
}

impl Region {
    pub open spec fn target(self) -> Color {
        at(self.c, self.cw, self.x0, self.y0)
    }

    pub open spec fn same(self, x: int, y: int) -> bool {
        on_canvas(self.cw, self.ch, x, y) && at(self.c, self.cw, x, y) == self.target()
    }

    /// What `n` steps from the start reach, each to one of the four
    /// neighbours and never off the start's colour.
    pub open spec fn within(self, n: nat, x: int, y: int) -> bool
        decreases n,
    {
        if n == 0 {
            x == self.x0 && y == self.y0
        } else {
            let m = (n - 1) as nat;
            ||| self.within(m, x, y)
            ||| self.same(x, y) && (self.within(m, x - 1, y) || self.within(m, x + 1, y)
                || self.within(m, x, y - 1) || self.within(m, x, y + 1))
        }
    }

    /// The contiguous region of one colour around the start.
    pub open spec fn has(self, x: int, y: int) -> bool {
        exists|n: nat| self.within(n, x, y)
    }

    pub open spec fn wf(self) -> bool {
        bitmap(self.c, self.cw, self.ch) && on_canvas(self.cw, self.ch, self.x0, self.y0)
    }

    proof fn spreads(self, x: int, y: int, nx: int, ny: int)
        requires
            self.has(x, y),
            self.same(nx, ny),
            (nx == x && (ny == y - 1 || ny == y + 1)) || (ny == y && (nx == x - 1 || nx == x + 1)),
        ensures
            self.has(nx, ny),
    {
        let n = choose|n: nat| self.within(n, x, y);
        assert(self.within(n + 1, nx, ny));
    }

    proof fn spreads_along(self, x: int, y: int, to: int)
        requires
            self.has(x, y),
            forall|i: int|
                #![trigger self.same(i, y)]
                (x < i <= to || to <= i < x) ==> self.same(i, y),
        ensures
            self.has(to, y),
        decreases distance(x, to),
    {
        if x < to {
            assert(self.same(x + 1, y));
            self.spreads(x, y, x + 1, y);
            self.spreads_along(x + 1, y, to);
        } else if to < x {
            assert(self.same(x - 1, y));
            self.spreads(x, y, x - 1, y);
            self.spreads_along(x - 1, y, to);
        }
    }

    /// Everything in the region is on the canvas and has its colour.
    proof fn keeps_colour(self, n: nat, x: int, y: int)
        requires
            self.wf(),
            self.within(n, x, y),
        ensures
            self.same(x, y),
        decreases n,
    {
        if n > 0 && self.within((n - 1) as nat, x, y) {
            self.keeps_colour((n - 1) as nat, x, y);
        }
    }
}

/// The canvas with the contiguous same-coloured region around a pixel in
/// another colour.
pub open spec fn flooded(c: Seq<Color>, cw: int, ch: int, x: int, y: int, colour: Color) -> Seq<
    Color,
> {
    let region = Region { c, cw, ch, x0: x, y0: y };
    if !on_canvas(cw, ch, x, y) || region.target() == colour {
        c
    } else {
        Seq::new(
            c.len(),
            |p: int| if region.has(column(p, cw), row(p, cw)) { colour } else { c[p] },
        )
    }
}

/// How many pixels have this colour.
spec fn tally(c: Seq<Color>, t: Color) -> nat
    decreases c.len(),
{
    if c.len() == 0 {
        0
    } else {
        tally(c.drop_last(), t) + (if c.last() == t { 1nat } else { 0 })
    }
}

proof fn tally_falls(a: Seq<Color>, b: Seq<Color>, t: Color)
    requires
        a.len() == b.len(),
        forall|p: int| 0 <= p < a.len() && #[trigger] b[p] == t ==> a[p] == t,
    ensures
        tally(b, t) <= tally(a, t),
        (exists|p: int| 0 <= p < a.len() && #[trigger] a[p] == t && b[p] != t) ==> tally(b, t)
            < tally(a, t),
    decreases a.len(),
{
    if a.len() > 0 {
        let n = a.len() - 1;
        assert(b[n] == t ==> a[n] == t);
        assert forall|p: int| 0 <= p < a.drop_last().len() && #[trigger] b.drop_last()[p]
            == t implies a.drop_last()[p] == t by {
            assert(b[p] == t);
        }
        tally_falls(a.drop_last(), b.drop_last(), t);
        if exists|p: int| 0 <= p < a.len() && #[trigger] a[p] == t && b[p] != t {
            let p = choose|p: int| 0 <= p < a.len() && #[trigger] a[p] == t && b[p] != t;
            if p < n {
                assert(a.drop_last()[p] == t && b.drop_last()[p] != t);
            }
        }
    }
}

/// How many of the seeds lie on pixels that no longer have this colour.
spec fn stale(stack: Seq<(usize, usize)>, c: Seq<Color>, cw: int, t: Color) -> nat
    decreases stack.len(),
{
    if stack.len() == 0 {
        0
    } else {
        stale(stack.drop_last(), c, cw, t) + (if at(
            c,
            cw,
            stack.last().0 as int,
            stack.last().1 as int,
        ) != t {
            1nat
        } else {
            0
        })
    }
}

proof fn fresh_seeds(
    stack: Seq<(usize, usize)>,
    more: Seq<(usize, usize)>,
    c: Seq<Color>,
    cw: int,
    t: Color,
)
    requires
        forall|k: int|
            0 <= k < more.len() ==> at(
                c,
                cw,
                (#[trigger] more[k]).0 as int,
                more[k].1 as int,
            ) == t,
    ensures
        stale(stack + more, c, cw, t) == stale(stack, c, cw, t),
    decreases more.len(),
{
    if more.len() == 0 {
        assert(stack + more =~= stack);
    } else {
        assert((stack + more).drop_last() =~= stack + more.drop_last());
        assert((stack + more).last() == more[more.len() - 1]);
        assert forall|k: int| 0 <= k < more.drop_last().len() implies at(
            c,
            cw,
            (#[trigger] more.drop_last()[k]).0 as int,
            more.drop_last()[k].1 as int,
        ) == t by {
            assert(more.drop_last()[k] == more[k]);
        }
        fresh_seeds(stack, more.drop_last(), c, cw, t);
    }
}

/// A seed from which the run that holds `(x, y)` will be walked: everything
/// between the two still has the colour that is being replaced.
spec fn leads_to(c: Seq<Color>, cw: int, t: Color, s: (usize, usize), x: int, y: int) -> bool {
    &&& s.1 == y
    &&& forall|i: int|
        (s.0 < i <= x || x <= i < s.0) ==> #[trigger] at(c, cw, i, y) == t
}

spec fn seeded(
    c: Seq<Color>,
    cw: int,
    t: Color,
    stack: Seq<(usize, usize)>,
    x: int,
    y: int,
) -> bool {
    exists|k: int| 0 <= k < stack.len() && leads_to(c, cw, t, #[trigger] stack[k], x, y)
}

/// Fills one run of a row.
fn fill_run(
    canvas: &mut Vec<Color>,
    cw: usize,
    ch: usize,
    y: usize,
    left: usize,
    right: usize,
    colour: Color,
)
    requires
        bitmap(old(canvas)@, cw as int, ch as int),
        left <= right < cw,
        y < ch,
    ensures
        bitmap(final(canvas)@, cw as int, ch as int),
        forall|i: int, j: int|
            on_canvas(cw as int, ch as int, i, j) ==> #[trigger] at(final(canvas)@, cw as int, i, j)
                == (if j == y && left <= i <= right {
                colour
            } else {
                at(old(canvas)@, cw as int, i, j)
            }),
{
    let ghost c = canvas@;
    let mut px: usize = left;
    while px <= right
        invariant
            bitmap(c, cw as int, ch as int),
            bitmap(canvas@, cw as int, ch as int),
            left <= px <= right + 1,
            right < cw,
            y < ch,
            forall|i: int, j: int|
                on_canvas(cw as int, ch as int, i, j) ==> #[trigger] at(canvas@, cw as int, i, j)
                    == (if j == y && left <= i < px {
                    colour
                } else {
                    at(c, cw as int, i, j)
                }),
        decreases right + 1 - px,
    {
        proof {
            pixel_place(cw as int, ch as int, px as int, y as int);
        }
        let ghost before = canvas@;
        canvas.set(y * cw + px, colour);
        assert forall|i: int, j: int|
            on_canvas(cw as int, ch as int, i, j) implies #[trigger] at(canvas@, cw as int, i, j)
            == (if j == y && left <= i < px + 1 {
            colour
        } else {
            at(c, cw as int, i, j)
        }) by {
            pixel_place(cw as int, ch as int, i, j);
            assert(at(before, cw as int, i, j) == before[j * cw + i]);
        }
        px = px + 1;
    }
}

/// Seeds a row next to a filled run: one seed for each contiguous run of the
/// colour that is being replaced.
#[verifier::rlimit(60)]
fn seed_row(
    canvas: &Vec<Color>,
    cw: usize,
    ch: usize,
    ny: usize,
    left: usize,
    right: usize,
    target: Color,
    stack: &mut Vec<(usize, usize)>,
)
    requires
        bitmap(canvas@, cw as int, ch as int),
        left <= right < cw,
        ny < ch,
    ensures
        final(stack)@.len() >= old(stack)@.len(),
        final(stack)@.take(old(stack)@.len() as int) == old(stack)@,
        forall|k: int|
            old(stack)@.len() <= k < final(stack)@.len() ==> {
                let s = #[trigger] final(stack)@[k];
                s.1 == ny && left <= s.0 <= right && at(canvas@, cw as int, s.0 as int, ny as int)
                    == target
            },
        forall|i: int|
            left <= i <= right && #[trigger] at(canvas@, cw as int, i, ny as int) == target
                ==> seeded(canvas@, cw as int, target, final(stack)@, i, ny as int),
{
    let mut px: usize = left;
    assert(stack@.take(stack@.len() as int) =~= stack@);
    while px <= right
        invariant
            bitmap(canvas@, cw as int, ch as int),
            left <= px <= right + 2,
            right < cw,
            ny < ch,
            stack@.len() >= old(stack)@.len(),
            stack@.take(old(stack)@.len() as int) == old(stack)@,
            forall|k: int|
                old(stack)@.len() <= k < stack@.len() ==> {
                    let s = #[trigger] stack@[k];
                    s.1 == ny && left <= s.0 <= right && at(
                        canvas@,
                        cw as int,
                        s.0 as int,
                        ny as int,
                    ) == target
                },
            forall|i: int|
                left <= i <= right && i < px && #[trigger] at(canvas@, cw as int, i, ny as int)
                    == target ==> seeded(canvas@, cw as int, target, stack@, i, ny as int),
        decreases right + 2 - px,
    {
        proof {
            pixel_place(cw as int, ch as int, px as int, ny as int);
        }
        let ghost first = px;
        if canvas[ny * cw + px] == target {
            let ghost before = stack@;
            stack.push((px, ny));
            assert(stack@.take(old(stack)@.len() as int) =~= before.take(old(stack)@.len() as int));
            assert forall|i: int|
                left <= i <= right && i < px && #[trigger] at(canvas@, cw as int, i, ny as int)
                    == target implies seeded(
                canvas@,
                cw as int,
                target,
                stack@,
                i,
                ny as int,
            ) by {
                let k = choose|k: int|
                    0 <= k < before.len() && leads_to(
                        canvas@,
                        cw as int,
                        target,
                        #[trigger] before[k],
                        i,
                        ny as int,
                    );
                assert(stack@[k] == before[k]);
            }
            let ghost n = before.len() as int;
            let mut more = px <= right && canvas[ny * cw + px] == target;
            while more
                invariant
                    bitmap(canvas@, cw as int, ch as int),
                    left <= first <= px <= right + 1,
                    right < cw,
                    ny < ch,
                    0 <= n < stack@.len(),
                    stack@[n] == (first, ny),
                    more == (px <= right && at(canvas@, cw as int, px as int, ny as int) == target),
                    forall|i: int|
                        first <= i < px ==> #[trigger] at(canvas@, cw as int, i, ny as int)
                            == target,
                decreases right + 1 - px,
            {
                px = px + 1;
                if px <= right {
                    proof {
                        pixel_place(cw as int, ch as int, px as int, ny as int);
                    }
                    more = canvas[ny * cw + px] == target;
                } else {
                    more = false;
                }
            }
            assert forall|i: int|
                left <= i <= right && i < px && #[trigger] at(canvas@, cw as int, i, ny as int)
                    == target implies seeded(
                canvas@,
                cw as int,
                target,
                stack@,
                i,
                ny as int,
            ) by {
                if i >= first {
                    assert(leads_to(canvas@, cw as int, target, stack@[n], i, ny as int));
                }
            }
        }
        px = px + 1;
    }
}

/// Where a fill stands: what was recoloured lies in the region, and whatever
/// of the region borders on it is either recoloured too or seeded.
spec fn progress(
    g: Region,
    colour: Color,
    c: Seq<Color>,
    stack: Seq<(usize, usize)>,
) -> bool {
    &&& g.wf()
    &&& bitmap(c, g.cw, g.ch)
    &&& g.target() != colour
    &&& forall|i: int, j: int|
        on_canvas(g.cw, g.ch, i, j) ==> #[trigger] at(c, g.cw, i, j) == at(g.c, g.cw, i, j) || (at(
            c,
            g.cw,
            i,
            j,
        ) == colour && g.has(i, j))
    &&& forall|k: int|
        0 <= k < stack.len() ==> {
            let s = #[trigger] stack[k];
            on_canvas(g.cw, g.ch, s.0 as int, s.1 as int) && g.has(s.0 as int, s.1 as int)
        }
    &&& at(c, g.cw, g.x0, g.y0) != g.target() || exists|k: int|
        0 <= k < stack.len() && #[trigger] stack[k] == (g.x0 as usize, g.y0 as usize)
    &&& forall|i: int, j: int, ni: int, nj: int|
        #![trigger at(c, g.cw, i, j), at(c, g.cw, ni, nj)]
        on_canvas(g.cw, g.ch, i, j) && g.has(i, j) && at(c, g.cw, i, j) != g.target() && on_canvas(
            g.cw,
            g.ch,
            ni,
            nj,
        ) && next_to(i, j, ni, nj) && at(c, g.cw, ni, nj) == g.target() ==> seeded(
            c,
            g.cw,
            g.target(),
            stack,
            ni,
            nj,
        )
}

spec fn next_to(i: int, j: int, ni: int, nj: int) -> bool {
    (ni == i && (nj == j - 1 || nj == j + 1)) || (nj == j && (ni == i - 1 || ni == i + 1))
}

proof fn all_filled(g: Region, colour: Color, c: Seq<Color>, n: nat, x: int, y: int)
    requires
        progress(g, colour, c, Seq::empty()),
        g.within(n, x, y),
    ensures
        at(c, g.cw, x, y) == colour,
        on_canvas(g.cw, g.ch, x, y),
    decreases n,
{
    g.keeps_colour(n, x, y);
    if n > 0 {
        let m = (n - 1) as nat;
        if g.within(m, x, y) {
            all_filled(g, colour, c, m, x, y);
        } else {
            let (i, j) = if g.within(m, x - 1, y) {
                (x - 1, y)
            } else if g.within(m, x + 1, y) {
                (x + 1, y)
            } else if g.within(m, x, y - 1) {
                (x, y - 1)
            } else {
                (x, y + 1)
            };
            assert(g.within(m, i, j));
            all_filled(g, colour, c, m, i, j);
            assert(g.has(i, j));
            assert(next_to(i, j, x, y));
            if at(c, g.cw, x, y) == g.target() {
                assert(seeded(c, g.cw, g.target(), Seq::empty(), x, y));
            }
        }
    }
}

/// One run filled: the canvas before and after, the run, and the seeds before
/// and after.
ghost struct Step {
    c: Seq<Color>,
    c2: Seq<Color>,
    stack: Seq<(usize, usize)>,
    stack2: Seq<(usize, usize)>,
    sx: int,
    sy: int,
    left: int,
    right: int,
}

spec fn step_ok(g: Region, colour: Color, s: Step) -> bool {
    let t = g.target();
    let n = s.stack.len() - 1;
    &&& progress(g, colour, s.c, s.stack)
    &&& bitmap(s.c2, g.cw, g.ch)
    &&& s.stack.len() > 0
    &&& s.stack.last() == (s.sx as usize, s.sy as usize)
    &&& 0 <= s.left <= s.sx <= s.right < g.cw
    &&& 0 <= s.sy < g.ch
    &&& forall|i: int|
        s.left <= i <= s.right && i != s.sx ==> #[trigger] at(s.c, g.cw, i, s.sy) == t
    &&& s.left == 0 || at(s.c, g.cw, s.left - 1, s.sy) != t
    &&& s.right + 1 == g.cw || at(s.c, g.cw, s.right + 1, s.sy) != t
    &&& forall|i: int, j: int|
        on_canvas(g.cw, g.ch, i, j) ==> #[trigger] at(s.c2, g.cw, i, j) == (if j == s.sy && s.left
            <= i <= s.right {
            colour
        } else {
            at(s.c, g.cw, i, j)
        })
    &&& s.stack2.len() >= n
    &&& s.stack2.take(n) == s.stack.drop_last()
    &&& forall|k: int|
        n <= k < s.stack2.len() ==> {
            let e = #[trigger] s.stack2[k];
            &&& s.left <= e.0 <= s.right
            &&& 0 <= e.1 < g.ch
            &&& (e.1 == s.sy - 1 || e.1 == s.sy + 1)
            &&& at(s.c2, g.cw, e.0 as int, e.1 as int) == t
        }
    &&& forall|i: int, j: int|
        (j == s.sy - 1 || j == s.sy + 1) && 0 <= j < g.ch && s.left <= i <= s.right && #[trigger] at(
            s.c2,
            g.cw,
            i,
            j,
        ) == t ==> seeded(s.c2, g.cw, t, s.stack2, i, j)
}

proof fn run_in_region(g: Region, colour: Color, s: Step, x: int)
    requires
        step_ok(g, colour, s),
        s.left <= x <= s.right,
    ensures
        g.has(x, s.sy),
{
    let e = s.stack[s.stack.len() - 1];
    assert(g.has(e.0 as int, e.1 as int));
    assert forall|i: int|
        #![trigger g.same(i, s.sy)]
        (s.sx < i <= x || x <= i < s.sx) implies g.same(i, s.sy) by {
        assert(at(s.c, g.cw, i, s.sy) == g.target());
    }
    g.spreads_along(s.sx, s.sy, x);
}

/// A seed that led to a pixel outside the filled run still does.
proof fn still_leads(g: Region, colour: Color, s: Step, k: int, x: int, y: int)
    requires
        step_ok(g, colour, s),
        0 <= k < s.stack.len(),
        on_canvas(g.cw, g.ch, x, y),
        at(s.c2, g.cw, x, y) == g.target(),
        leads_to(s.c, g.cw, g.target(), s.stack[k], x, y),
    ensures
        seeded(s.c2, g.cw, g.target(), s.stack2, x, y),
{
    let t = g.target();
    let e = s.stack[k];
    let n = s.stack.len() - 1;
    assert(on_canvas(g.cw, g.ch, e.0 as int, e.1 as int));
    assert(!(y == s.sy && s.left <= x <= s.right));
    // No part of the way lies in the run, or the run would have gone on to
    // the pixel itself.
    assert forall|i: int| (e.0 < i <= x || x <= i < e.0) implies #[trigger] at(s.c2, g.cw, i, y)
        == t by {
        assert(at(s.c, g.cw, i, y) == t);
        if y == s.sy && s.left <= i <= s.right {
            if x > s.right {
                assert(at(s.c, g.cw, s.right + 1, y) == t);
            } else {
                assert(at(s.c, g.cw, s.left - 1, y) == t);
            }
        }
    }
    if k == n {
        if x > s.right {
            assert(at(s.c, g.cw, s.right + 1, y) == t);
        } else {
            assert(at(s.c, g.cw, s.left - 1, y) == t);
        }
    } else {
        assert(s.stack2[k] == s.stack2.take(n)[k]);
        assert(s.stack2[k] == e);
        assert(leads_to(s.c2, g.cw, t, s.stack2[k], x, y));
    }
}

#[verifier::rlimit(60)]
proof fn step_keeps(g: Region, colour: Color, s: Step)
    requires
        step_ok(g, colour, s),
    ensures
        progress(g, colour, s.c2, s.stack2),
{
    let t = g.target();
    let n = s.stack.len() - 1;
    assert forall|i: int, j: int| on_canvas(g.cw, g.ch, i, j) implies #[trigger] at(
        s.c2,
        g.cw,
        i,
        j,
    ) == at(g.c, g.cw, i, j) || (at(s.c2, g.cw, i, j) == colour && g.has(i, j)) by {
        assert(at(s.c, g.cw, i, j) == at(s.c, g.cw, i, j));
        if j == s.sy && s.left <= i <= s.right {
            run_in_region(g, colour, s, i);
        }
    }
    assert forall|k: int| 0 <= k < s.stack2.len() implies ({
        let e = #[trigger] s.stack2[k];
        on_canvas(g.cw, g.ch, e.0 as int, e.1 as int) && g.has(e.0 as int, e.1 as int)
    }) by {
        let e = s.stack2[k];
        if k < n {
            assert(e == s.stack2.take(n)[k]);
            assert(e == s.stack[k]);
        } else {
            run_in_region(g, colour, s, e.0 as int);
            assert(at(s.c2, g.cw, e.0 as int, e.1 as int) == at(s.c, g.cw, e.0 as int, e.1 as int));
            assert(g.same(e.0 as int, e.1 as int));
            g.spreads(e.0 as int, s.sy, e.0 as int, e.1 as int);
        }
    }
    if at(s.c2, g.cw, g.x0, g.y0) == t {
        assert(at(s.c, g.cw, g.x0, g.y0) == t);
        let k = choose|k: int|
            0 <= k < s.stack.len() && #[trigger] s.stack[k] == (g.x0 as usize, g.y0 as usize);
        assert(k < n);
        assert(s.stack2[k] == s.stack2.take(n)[k]);
        assert(s.stack2[k] == s.stack[k]);
    }
    assert forall|i: int, j: int, ni: int, nj: int|
        #![trigger at(s.c2, g.cw, i, j), at(s.c2, g.cw, ni, nj)]
        on_canvas(g.cw, g.ch, i, j) && g.has(i, j) && at(s.c2, g.cw, i, j) != t && on_canvas(
            g.cw,
            g.ch,
            ni,
            nj,
        ) && next_to(i, j, ni, nj) && at(s.c2, g.cw, ni, nj) == t implies seeded(
        s.c2,
        g.cw,
        t,
        s.stack2,
        ni,
        nj,
    ) by {
        assert(at(s.c, g.cw, ni, nj) == t);
        if j == s.sy && s.left <= i <= s.right {
            if nj == j {
                assert(ni == s.left - 1 || ni == s.right + 1);
            }
        } else {
            assert(at(s.c, g.cw, i, j) != t);
            let k = choose|k: int|
                0 <= k < s.stack.len() && leads_to(s.c, g.cw, t, #[trigger] s.stack[k], ni, nj);
            still_leads(g, colour, s, k, ni, nj);
        }
    }
}

proof fn step_falls(g: Region, colour: Color, s: Step)
    requires
        step_ok(g, colour, s),
    ensures
        tally(s.c2, g.target()) < tally(s.c, g.target()) || (tally(s.c2, g.target()) == tally(
            s.c,
            g.target(),
        ) && stale(s.stack2, s.c2, g.cw, g.target()) < stale(s.stack, s.c, g.cw, g.target())),
{
    let t = g.target();
    let n = s.stack.len() - 1;
    assert forall|p: int| 0 <= p < s.c.len() && #[trigger] s.c2[p] == t implies s.c[p] == t by {
        place_pixel(g.cw, g.ch, p);
        assert(at(s.c2, g.cw, column(p, g.cw), row(p, g.cw)) == t);
    }
    tally_falls(s.c, s.c2, t);
    let start = at(s.c, g.cw, s.sx, s.sy);
    pixel_place(g.cw, g.ch, s.sx, s.sy);
    if start == t {
        let p = s.sy * g.cw + s.sx;
        assert(at(s.c2, g.cw, s.sx, s.sy) == colour);
        assert(s.c[p] == t && s.c2[p] != t);
    } else if s.left < s.sx {
        pixel_place(g.cw, g.ch, s.left, s.sy);
        let p = s.sy * g.cw + s.left;
        assert(at(s.c, g.cw, s.left, s.sy) == t);
        assert(at(s.c2, g.cw, s.left, s.sy) == colour);
        assert(s.c[p] == t && s.c2[p] != t);
    } else if s.right > s.sx {
        pixel_place(g.cw, g.ch, s.right, s.sy);
        let p = s.sy * g.cw + s.right;
        assert(at(s.c, g.cw, s.right, s.sy) == t);
        assert(at(s.c2, g.cw, s.right, s.sy) == colour);
        assert(s.c[p] == t && s.c2[p] != t);
    } else {
        let e = s.stack[n];
        let m = choose|m: nat| g.within(m, e.0 as int, e.1 as int);
        g.keeps_colour(m, s.sx, s.sy);
        assert(start == colour);
        assert forall|p: int| 0 <= p < s.c.len() implies s.c2[p] == s.c[p] by {
            place_pixel(g.cw, g.ch, p);
            assert(at(s.c2, g.cw, column(p, g.cw), row(p, g.cw)) == s.c2[p]);
        }
        assert(s.c2 =~= s.c);
        let more = s.stack2.skip(n);
        assert(s.stack2 =~= s.stack.drop_last() + more);
        assert forall|k: int| 0 <= k < more.len() implies at(
            s.c,
            g.cw,
            (#[trigger] more[k]).0 as int,
            more[k].1 as int,
        ) == t by {
            assert(more[k] == s.stack2[n + k]);
        }
        fresh_seeds(s.stack.drop_last(), more, s.c, g.cw, t);
    }
}

proof fn seeds_stay(
    c: Seq<Color>,
    cw: int,
    t: Color,
    a: Seq<(usize, usize)>,
    b: Seq<(usize, usize)>,
    x: int,
    y: int,
)
    requires
        seeded(c, cw, t, a, x, y),
        a.len() <= b.len(),
        b.take(a.len() as int) == a,
    ensures
        seeded(c, cw, t, b, x, y),
{
    let k = choose|k: int| 0 <= k < a.len() && leads_to(c, cw, t, #[trigger] a[k], x, y);
    assert(b[k] == b.take(a.len() as int)[k]);
    assert(leads_to(c, cw, t, b[k], x, y));
}

/// Flood fill the contiguous same-coloured region containing `(x, y)`:
/// scanline fill with an explicit stack, since a large region would overrun
/// the kernel's.
#[verifier::rlimit(60)]
pub fn paint_fill(
    canvas: &mut Vec<Color>,
    cw: usize,
    ch: usize,
    x: usize,
    y: usize,
    colour: Color,
)
    requires
        bitmap(old(canvas)@, cw as int, ch as int),
    ensures
        final(canvas)@ == flooded(old(canvas)@, cw as int, ch as int, x as int, y as int, colour),
        bitmap(final(canvas)@, cw as int, ch as int),
{
    if x >= cw || y >= ch {
        return;
    }
    proof {
        pixel_place(cw as int, ch as int, x as int, y as int);
    }
    let target: Color = canvas[y * cw + x];
    if target == colour {
        return;
    }
    let ghost g = Region { c: canvas@, cw: cw as int, ch: ch as int, x0: x as int, y0: y as int };
    let mut stack: Vec<(usize, usize)> = Vec::new();
    stack.push((x, y));
    proof {
        assert(g.within(0, x as int, y as int));
        assert(stack@[0] == (x, y));
        assert forall|i: int, j: int, ni: int, nj: int|
            #![trigger at(canvas@, g.cw, i, j), at(canvas@, g.cw, ni, nj)]
            on_canvas(g.cw, g.ch, i, j) && g.has(i, j) && at(canvas@, g.cw, i, j)
                != g.target() implies false by {
            let n = choose|n: nat| g.within(n, i, j);
            g.keeps_colour(n, i, j);
        }
        assert(progress(g, colour, canvas@, stack@));
    }
    while stack.len() > 0
        invariant
            progress(g, colour, canvas@, stack@),
            g.cw == cw,
            g.ch == ch,
            target == g.target(),
        decreases tally(canvas@, target), stale(stack@, canvas@, cw as int, target),
    {
        let ghost stack0 = stack@;
        let ghost c0 = canvas@;
        let (sx, sy) = stack[stack.len() - 1];
        assert(on_canvas(g.cw, g.ch, stack0[stack0.len() - 1].0 as int, stack0[stack0.len()
            - 1].1 as int));
        stack.pop();
        let mut left: usize = sx;
        let mut more = left > 0;
        if more {
            proof {
                pixel_place(cw as int, ch as int, left - 1, sy as int);
            }
            more = canvas[sy * cw + (left - 1)] == target;
        }
        while more
            invariant
                bitmap(canvas@, cw as int, ch as int),
                left <= sx < cw,
                sy < ch,
                more == (left > 0 && at(canvas@, cw as int, left - 1, sy as int) == target),
                forall|i: int|
                    left <= i < sx ==> #[trigger] at(canvas@, cw as int, i, sy as int) == target,
            decreases left,
        {
            left = left - 1;
            more = left > 0;
            if more {
                proof {
                    pixel_place(cw as int, ch as int, left - 1, sy as int);
                }
                more = canvas[sy * cw + (left - 1)] == target;
            }
        }
        let mut right: usize = sx;
        let mut more = right + 1 < cw;
        if more {
            proof {
                pixel_place(cw as int, ch as int, right + 1, sy as int);
            }
            more = canvas[sy * cw + (right + 1)] == target;
        }
        while more
            invariant
                bitmap(canvas@, cw as int, ch as int),
                sx <= right < cw,
                sy < ch,
                more == (right + 1 < cw && at(canvas@, cw as int, right + 1, sy as int) == target),
                forall|i: int|
                    sx < i <= right ==> #[trigger] at(canvas@, cw as int, i, sy as int) == target,
            decreases cw - right,
        {
            right = right + 1;
            more = right + 1 < cw;
            if more {
                proof {
                    pixel_place(cw as int, ch as int, right + 1, sy as int);
                }
                more = canvas[sy * cw + (right + 1)] == target;
            }
        }
        fill_run(canvas, cw, ch, sy, left, right, colour);
        let ghost rest = stack@;
        if sy > 0 {
            seed_row(canvas, cw, ch, sy - 1, left, right, target, &mut stack);
        }
        let ghost mid = stack@;
        assert(mid.take(rest.len() as int) =~= rest);
        if sy + 1 < ch {
            seed_row(canvas, cw, ch, sy + 1, left, right, target, &mut stack);
        }
        proof {
            let done = stack@;
            assert(done.take(mid.len() as int) =~= mid);
            assert(done.take(rest.len() as int) =~= mid.take(rest.len() as int));
            let s = Step {
                c: c0,
                c2: canvas@,
                stack: stack0,
                stack2: done,
                sx: sx as int,
                sy: sy as int,
                left: left as int,
                right: right as int,
            };
            assert forall|k: int| rest.len() <= k < done.len() implies ({
                let e = #[trigger] done[k];
                &&& left <= e.0 <= right
                &&& 0 <= e.1 < g.ch
                &&& (e.1 == sy - 1 || e.1 == sy + 1)
                &&& at(canvas@, g.cw, e.0 as int, e.1 as int) == target
            }) by {
                if k < mid.len() {
                    assert(done[k] == done.take(mid.len() as int)[k]);
                    assert(done[k] == mid[k]);
                }
            }
            assert forall|i: int, j: int|
                (j == sy - 1 || j == sy + 1) && 0 <= j < g.ch && left <= i <= right && #[trigger] at(
                    canvas@,
                    g.cw,
                    i,
                    j,
                ) == target implies seeded(canvas@, g.cw, target, done, i, j) by {
                if j == sy - 1 {
                    seeds_stay(canvas@, g.cw, target, mid, done, i, j);
                }
            }
            assert(step_ok(g, colour, s));
            step_keeps(g, colour, s);
            step_falls(g, colour, s);
        }
    }
    proof {
        assert(stack@ =~= Seq::empty());
        let out = flooded(old(canvas)@, cw as int, ch as int, x as int, y as int, colour);
        assert forall|p: int| 0 <= p < canvas@.len() implies canvas@[p] == out[p] by {
            place_pixel(cw as int, ch as int, p);
            let i = column(p, cw as int);
            let j = row(p, cw as int);
            assert(at(canvas@, g.cw, i, j) == canvas@[p]);
            assert(at(g.c, g.cw, i, j) == g.c[p]);
            if g.has(i, j) {
                let n = choose|n: nat| g.within(n, i, j);
                all_filled(g, colour, canvas@, n, i, j);
            }
        }
        assert(canvas@ =~= out);
    }
}

// ── Laws ────────────────────────────────────────────────────────────────────

/// A stamp colours the pixels whose distance from its centre is at most its
/// radius, and no others.
pub proof fn a_stamp_is_a_disc(
    c: Seq<Color>,
    cw: int,
    ch: int,
    x: int,
    y: int,
    r: int,
    colour: Color,
    px: int,
    py: int,
)
    requires
        bitmap(c, cw, ch),
        0 <= px < cw,
        0 <= py < ch,
    ensures
        stamped(c, cw, x, y, r, colour).len() == c.len(),
        stamped(c, cw, x, y, r, colour)[py * cw + px] == (if (px - x) * (px - x) + (py - y) * (py
            - y) <= r * r {
            colour
        } else {
            c[py * cw + px]
        }),
{
    pixel_place(cw, ch, px, py);
}

/// A way from one point to another, of steps to one of the eight neighbours at
/// most, that nowhere is a whole pixel off the straight line.
pub open spec fn joins(path: Seq<(int, int)>, from: (u16, u16), to: (u16, u16)) -> bool {
    let n = path.len() - 1;
    &&& n >= 0
    &&& path[0] == (from.0 as int, from.1 as int)
    &&& path[n] == (to.0 as int, to.1 as int)
    &&& forall|k: int|
        0 < k <= n ==> {
            let a = path[k - 1];
            let b = #[trigger] path[k];
            -1 <= b.0 - a.0 <= 1 && -1 <= b.1 - a.1 <= 1
        }
    &&& forall|k: int|
        0 <= k <= n ==> {
            let b = #[trigger] path[k];
            &&& -n < (b.0 - from.0) * n - (to.0 - from.0) * k < n
            &&& -n < (b.1 - from.1) * n - (to.1 - from.1) * k < n
        }
}

/// Whether a pixel is no farther than `r` from a point of the way.
pub open spec fn touches(path: Seq<(int, int)>, r: int, px: int, py: int) -> bool {
    exists|k: int|
        0 <= k < path.len() && {
            let b = #[trigger] path[k];
            (px - b.0) * (px - b.0) + (py - b.1) * (py - b.1) <= r * r
        }
}

proof fn steps_are_small(d: int, n: int, s: int)
    requires
        1 <= n,
        -n <= d <= n,
        0 <= s,
    ensures
        quotient(d * 0, n) == 0,
        quotient(d * n, n) == d,
        -1 <= quotient(d * (s + 1), n) - quotient(d * s, n) <= 1,
        -n < quotient(d * s, n) * n - d * s < n,
{
    let e = if d >= 0 {
        d
    } else {
        -d
    };
    let a = e * s;
    let b = e * (s + 1);
    assert(b == a + e && a >= 0) by (nonlinear_arith)
        requires
            a == e * s,
            b == e * (s + 1),
            e >= 0,
            s >= 0,
    ;
    let qa = a / n;
    let qb = b / n;
    assert(0 <= qb - qa <= 1 && 0 <= a - qa * n < n) by (nonlinear_arith)
        requires
            qa == a / n,
            qb == b / n,
            b == a + e,
            0 <= e <= n,
            a >= 0,
            1 <= n,
    ;
    assert(e * n / n == e) by (nonlinear_arith)
        requires
            1 <= n,
    ;
    assert(e * n >= 0) by (nonlinear_arith)
        requires
            1 <= n,
            e >= 0,
    ;
    assert(0int / n == 0) by (nonlinear_arith)
        requires
            1 <= n,
    ;
    if d >= 0 {
        assert(d * s == a && d * (s + 1) == b && d * n == e * n);
    } else {
        assert(d * s == -a && d * (s + 1) == -b && d * n == -(e * n)) by (nonlinear_arith)
            requires
                d == -e,
                a == e * s,
                b == e * (s + 1),
        ;
        assert(quotient(-a, n) == -qa && quotient(-b, n) == -qb && quotient(-(e * n), n) == -e);
        assert((-qa) * n == -(qa * n)) by (nonlinear_arith);
    }
    assert(d * 0 == 0);
}

proof fn stamps_add_up(
    c: Seq<Color>,
    cw: int,
    from: (u16, u16),
    to: (u16, u16),
    r: int,
    colour: Color,
    k: int,
    p: int,
)
    requires
        0 <= p < c.len(),
        0 <= k,
    ensures
        stroked_to(c, cw, from, to, r, colour, k).len() == c.len(),
        stroked_to(c, cw, from, to, r, colour, k)[p] == colour || stroked_to(
            c,
            cw,
            from,
            to,
            r,
            colour,
            k,
        )[p] == c[p],
        forall|j: int|
            0 <= j < k && (#[trigger] disc_of(p, cw, from, to, r, j)) ==> stroked_to(
                c,
                cw,
                from,
                to,
                r,
                colour,
                k,
            )[p] == colour,
        (forall|j: int| 0 <= j < k ==> !#[trigger] disc_of(p, cw, from, to, r, j)) ==> stroked_to(
            c,
            cw,
            from,
            to,
            r,
            colour,
            k,
        )[p] == c[p],
    decreases k,
{
    if k > 0 {
        stamps_add_up(c, cw, from, to, r, colour, k - 1, p);
        assert(disc_of(p, cw, from, to, r, k - 1) == in_disc(
            p,
            cw,
            stroke_point(from, to, k - 1).0,
            stroke_point(from, to, k - 1).1,
            r,
        ));
    }
}

spec fn disc_of(p: int, cw: int, from: (u16, u16), to: (u16, u16), r: int, j: int) -> bool {
    in_disc(p, cw, stroke_point(from, to, j).0, stroke_point(from, to, j).1, r)
}

spec fn stroke_path(from: (u16, u16), to: (u16, u16)) -> Seq<(int, int)> {
    Seq::new((stroke_steps(from, to) + 1) as nat, |s: int| stroke_point(from, to, s))
}

proof fn the_path_joins(from: (u16, u16), to: (u16, u16))
    ensures
        joins(stroke_path(from, to), from, to),
{
    let path = stroke_path(from, to);
    let n = stroke_steps(from, to);
    let dx = to.0 - from.0;
    let dy = to.1 - from.1;
    steps_are_small(dx, n, 0);
    steps_are_small(dy, n, 0);
    assert(path[0] == (from.0 as int, from.1 as int));
    assert(path[n] == (to.0 as int, to.1 as int));
    assert forall|k: int| 0 < k <= n implies {
        let a = path[k - 1];
        let b = #[trigger] path[k];
        -1 <= b.0 - a.0 <= 1 && -1 <= b.1 - a.1 <= 1
    } by {
        steps_are_small(dx, n, k - 1);
        steps_are_small(dy, n, k - 1);
    }
    assert forall|k: int| 0 <= k <= n implies {
        let b = #[trigger] path[k];
        &&& -n < (b.0 - from.0) * n - (to.0 - from.0) * k < n
        &&& -n < (b.1 - from.1) * n - (to.1 - from.1) * k < n
    } by {
        steps_are_small(dx, n, k);
        steps_are_small(dy, n, k);
    }
}

/// A stroke joins its two ends: the brush is drawn along one way between them,
/// and colours the pixels within its radius of that way and no others. So both
/// ends have its colour where they are on the canvas.
pub proof fn a_stroke_joins_its_ends(
    c: Seq<Color>,
    cw: int,
    ch: int,
    from: (u16, u16),
    to: (u16, u16),
    r: int,
    colour: Color,
)
    requires
        bitmap(c, cw, ch),
    ensures
        exists|path: Seq<(int, int)>| #[trigger]
            joins(path, from, to) && forall|px: int, py: int|
                0 <= px < cw && 0 <= py < ch ==> #[trigger] at(
                    stroked(c, cw, from, to, r, colour),
                    cw,
                    px,
                    py,
                ) == (if touches(path, r, px, py) {
                    colour
                } else {
                    c[py * cw + px]
                }),
        from.0 < cw && from.1 < ch ==> stroked(c, cw, from, to, r, colour)[from.1 * cw + from.0]
            == colour,
        to.0 < cw && to.1 < ch ==> stroked(c, cw, from, to, r, colour)[to.1 * cw + to.0] == colour,
        stroked(c, cw, from, to, r, colour).len() == c.len(),
{
    let path = stroke_path(from, to);
    let n = stroke_steps(from, to);
    let f = stroked(c, cw, from, to, r, colour);
    the_path_joins(from, to);
    assert forall|px: int, py: int| 0 <= px < cw && 0 <= py < ch implies #[trigger] at(
        f,
        cw,
        px,
        py,
    ) == (if touches(path, r, px, py) {
        colour
    } else {
        c[py * cw + px]
    }) by {
        let p = py * cw + px;
        pixel_place(cw, ch, px, py);
        stamps_add_up(c, cw, from, to, r, colour, n + 1, p);
        assert forall|j: int| 0 <= j < n + 1 implies (#[trigger] disc_of(p, cw, from, to, r, j)
            == {
            let b = path[j];
            (px - b.0) * (px - b.0) + (py - b.1) * (py - b.1) <= r * r
        }) by {
            assert(path[j] == stroke_point(from, to, j));
        }
        if touches(path, r, px, py) {
            let k = choose|k: int|
                0 <= k < path.len() && {
                    let b = #[trigger] path[k];
                    (px - b.0) * (px - b.0) + (py - b.1) * (py - b.1) <= r * r
                };
            assert(disc_of(p, cw, from, to, r, k));
        } else {
            assert forall|j: int| 0 <= j < n + 1 implies !#[trigger] disc_of(
                p,
                cw,
                from,
                to,
                r,
                j,
            ) by {
                let b = path[j];
                assert(!((px - b.0) * (px - b.0) + (py - b.1) * (py - b.1) <= r * r));
            }
        }
    }
    assert(0 <= r * r) by (nonlinear_arith);
    if from.0 < cw && from.1 < ch {
        assert(touches(path, r, from.0 as int, from.1 as int)) by {
            let b = path[0];
            assert((from.0 - b.0) * (from.0 - b.0) == 0 && (from.1 - b.1) * (from.1 - b.1) == 0);
        }
        assert(at(f, cw, from.0 as int, from.1 as int) == colour);
    }
    if to.0 < cw && to.1 < ch {
        assert(touches(path, r, to.0 as int, to.1 as int)) by {
            let b = path[n];
            assert((to.0 - b.0) * (to.0 - b.0) == 0 && (to.1 - b.1) * (to.1 - b.1) == 0);
        }
        assert(at(f, cw, to.0 as int, to.1 as int) == colour);
    }
    stroke_keeps_size(c, cw, from, to, r, colour, n + 1);
}

proof fn stroke_keeps_size(
    c: Seq<Color>,
    cw: int,
    from: (u16, u16),
    to: (u16, u16),
    r: int,
    colour: Color,
    k: int,
)
    ensures
        stroked_to(c, cw, from, to, r, colour, k).len() == c.len(),
    decreases k,
{
    if k > 0 {
        stroke_keeps_size(c, cw, from, to, r, colour, k - 1);
    }
}

pub open spec fn beside(x: int, y: int, nx: int, ny: int) -> bool {
    ||| nx == x && (ny == y - 1 || ny == y + 1)
    ||| ny == y && (nx == x - 1 || nx == x + 1)
}

/// A fill colours the pixel it was started at.
pub proof fn a_fill_colours_its_start(
    c: Seq<Color>,
    cw: int,
    ch: int,
    x: int,
    y: int,
    colour: Color,
)
    requires
        bitmap(c, cw, ch),
        0 <= x < cw,
        0 <= y < ch,
    ensures
        flooded(c, cw, ch, x, y, colour).len() == c.len(),
        flooded(c, cw, ch, x, y, colour)[y * cw + x] == colour,
{
    let g = Region { c, cw, ch, x0: x, y0: y };
    pixel_place(cw, ch, x, y);
    assert(g.within(0, x, y));
    assert(g.target() == c[y * cw + x]);
}

/// A fill colours the pixel it was started at, changes only pixels that had
/// that pixel's colour, and stops at none of them: where it has been, no pixel
/// beside it is left in the old colour.
pub proof fn a_fill_reaches_everything_joined(
    c: Seq<Color>,
    cw: int,
    ch: int,
    x: int,
    y: int,
    colour: Color,
    px: int,
    py: int,
    qx: int,
    qy: int,
)
    requires
        bitmap(c, cw, ch),
        0 <= x < cw,
        0 <= y < ch,
        0 <= px < cw,
        0 <= py < ch,
        0 <= qx < cw,
        0 <= qy < ch,
        beside(px, py, qx, qy),
    ensures
        ({
            let f = flooded(c, cw, ch, x, y, colour);
            let p = py * cw + px;
            let q = qy * cw + qx;
            let old_colour = c[y * cw + x];
            &&& f.len() == c.len()
            &&& f[y * cw + x] == colour
            &&& f[p] == c[p] || (c[p] == old_colour && f[p] == colour)
            &&& c[p] == old_colour && f[p] == colour && c[q] == old_colour ==> f[q] == colour
        }),
{
    let g = Region { c, cw, ch, x0: x, y0: y };
    pixel_place(cw, ch, x, y);
    pixel_place(cw, ch, px, py);
    pixel_place(cw, ch, qx, qy);
    assert(g.within(0, x, y));
    assert(g.target() == c[y * cw + x]);
    if g.has(px, py) {
        let n = choose|n: nat| g.within(n, px, py);
        g.keeps_colour(n, px, py);
        assert(at(c, cw, px, py) == c[py * cw + px]);
        if c[qy * cw + qx] == g.target() {
            assert(at(c, cw, qx, qy) == c[qy * cw + qx]);
            assert(g.same(qx, qy));
            g.spreads(px, py, qx, qy);
        }
    }
}

/// A fill leaks nowhere: whatever holds the start, and each pixel of the same
/// colour beside one that it holds, holds every pixel that is changed.
pub proof fn a_fill_stays_in_its_region(
    c: Seq<Color>,
    cw: int,
    ch: int,
    x: int,
    y: int,
    colour: Color,
    held: spec_fn((int, int)) -> bool,
    px: int,
    py: int,
)
    requires
        bitmap(c, cw, ch),
        0 <= x < cw,
        0 <= y < ch,
        held((x, y)),
        forall|i: int, j: int, k: int, l: int|
            #![trigger held((i, j)), held((k, l))]
            held((i, j)) && beside(i, j, k, l) && 0 <= k < cw && 0 <= l < ch && c[l * cw + k]
                == c[y * cw + x] ==> held((k, l)),
        0 <= px < cw,
        0 <= py < ch,
        flooded(c, cw, ch, x, y, colour)[py * cw + px] != c[py * cw + px],
    ensures
        held((px, py)),
{
    let g = Region { c, cw, ch, x0: x, y0: y };
    pixel_place(cw, ch, px, py);
    assert(g.has(px, py));
    let n = choose|n: nat| g.within(n, px, py);
    reached_is_held(g, held, n, px, py);
}

proof fn reached_is_held(
    g: Region,
    held: spec_fn((int, int)) -> bool,
    n: nat,
    x: int,
    y: int,
)
    requires
        g.wf(),
        held((g.x0, g.y0)),
        forall|i: int, j: int, k: int, l: int|
            #![trigger held((i, j)), held((k, l))]
            held((i, j)) && beside(i, j, k, l) && 0 <= k < g.cw && 0 <= l < g.ch && g.c[l * g.cw
                + k] == g.c[g.y0 * g.cw + g.x0] ==> held((k, l)),
        g.within(n, x, y),
    ensures
        held((x, y)),
    decreases n,
{
    if n > 0 {
        let m = (n - 1) as nat;
        if g.within(m, x, y) {
            reached_is_held(g, held, m, x, y);
        } else {
            assert(g.same(x, y));
            let before = if g.within(m, x - 1, y) {
                (x - 1, y)
            } else if g.within(m, x + 1, y) {
                (x + 1, y)
            } else if g.within(m, x, y - 1) {
                (x, y - 1)
            } else {
                (x, y + 1)
            };
            reached_is_held(g, held, m, before.0, before.1);
            assert(held((before.0, before.1)));
            assert(beside(before.0, before.1, x, y));
            assert(held((x, y)) || !held((x, y)));
        }
    }
}

} // verus!
