//! The desktop wallpaper: a picture if the user has chosen one, and otherwise
//! a scene drawn from scratch.
//!
//! The night scene — graded sky, stars, a moon with a soft halo, and three
//! layers of hills — and the aurora of the bright theme are made from integer
//! noise, so they cost nothing in the disk image and adapt to any screen size.
//! Either way the result is one screen-sized buffer. Producing it touches every
//! pixel, so it is kept until the size, the theme or the picture changes.

use vstd::prelude::*;
use vstd::string::*;

use crate::color;
use crate::color::{darken, lerp, lighten, Color, BLACK, WHITE};
use crate::selftest;
use crate::selftest::{Report, ReportModel};
use crate::text;

verus! {

/// Largest side of a screen that can be painted.
pub const MAX_SIDE: usize = 32_767;

// ── Maths ───────────────────────────────────────────────────────────────────

/// The whole part of a square root.
pub open spec fn is_root(n: int, r: int) -> bool {
    0 <= r && r * r <= n < (r + 1) * (r + 1)
}

pub open spec fn root(n: int) -> int {
    choose|r: int| is_root(n, r)
}

/// A number has one root only.
pub proof fn roots_are_unique(n: int, a: int, b: int)
    requires
        is_root(n, a),
        is_root(n, b),
    ensures
        a == b,
{
    if a < b {
        assert((a + 1) * (a + 1) <= b * b) by (nonlinear_arith)
            requires
                0 <= a < b,
        ;
    }
    if b < a {
        assert((b + 1) * (b + 1) <= a * a) by (nonlinear_arith)
            requires
                0 <= b < a,
        ;
    }
}

/// Integer square root. The kernel builds without hardware floating point, so
/// distances are computed this way.
pub fn isqrt(n: u32) -> (r: u32)
    ensures
        is_root(n as int, r as int),
        r == root(n as int),
{
    if n == 0 {
        assert(is_root(0, 0));
        proof {
            roots_are_unique(0, 0, root(0));
        }
        return 0;
    }
    let mut x: u32 = n;
    let mut y: u32 = x / 2 + x % 2;
    assert((x + 1) * (x + 1) > n) by (nonlinear_arith)
        requires
            x == n,
    ;
    assert((y + 1) * (y + 1) > n) by (nonlinear_arith)
        requires
            y + y + 1 >= n + 1,
            y >= 0,
    ;
    while y < x
        invariant
            1 <= n,
            1 <= x <= n,
            1 <= y,
            (x + 1) * (x + 1) > n,
            (y + 1) * (y + 1) > n,
            y >= x ==> n / x >= x || x == 1,
            y == (x + n / x) / 2 || (x == n && y == (n + 1) / 2),
        decreases x,
    {
        x = y;
        assert(n / x <= n) by (nonlinear_arith)
            requires
                x >= 1,
        ;
        let q: u32 = n / x;
        proof {
            let xi = x as int;
            let qi = q as int;
            let ni = n as int;
            assert(ni < xi * (qi + 1)) by (nonlinear_arith)
                requires
                    qi == ni / xi,
                    xi >= 1,
            ;
        }
        assert(x as int + q as int <= u32::MAX) by {
            if x == 1 {
                assert((x + 1) * (x + 1) == 4) by (nonlinear_arith)
                    requires
                        x == 1,
                ;
            }
            halves_fit(n as int, x as int, q as int);
        }
        y = (x + q) / 2;
        proof {
            let xi = x as int;
            let qi = q as int;
            let yi = y as int;
            assert(2 * (yi + 1) >= xi + qi + 1);
            assert(4 * ((yi + 1) * (yi + 1)) >= (xi + qi + 1) * (xi + qi + 1)) by (nonlinear_arith)
                requires
                    2 * (yi + 1) >= xi + qi + 1,
                    xi + qi + 1 >= 0,
            ;
            assert((xi + qi + 1) * (xi + qi + 1) >= 4 * (xi * (qi + 1))) by (nonlinear_arith);
            assert(q >= 1) by (nonlinear_arith)
                requires
                    q == n / x,
                    1 <= x <= n,
            ;
        }
    }
    proof {
        let q = n as int / x as int;
        assert(q >= x);
        let xi = x as int;
        let ni = n as int;
        assert(xi * xi <= ni) by (nonlinear_arith)
            requires
                ni / xi >= xi,
                xi >= 1,
                ni >= 0,
        ;
        assert(is_root(n as int, x as int));
        roots_are_unique(n as int, x as int, root(n as int));
    }
    x
}

proof fn halves_fit(n: int, x: int, q: int)
    requires
        1 <= x < n,
        q == n / x,
        x == 1 ==> n < 4,
    ensures
        x + q <= n || x + q <= 4,
{
    if x > 1 {
        assert(x + q <= n) by (nonlinear_arith)
            requires
                1 < x < n,
                q == n / x,
        ;
    }
}

/// A hash of a number.
pub open spec fn hashed(x: u32) -> u32 {
    let a = x ^ (x >> 16);
    let b = a.wrapping_mul(0x7feb_352d);
    let c = b ^ (b >> 15);
    let d = c.wrapping_mul(0x846c_a68b);
    d ^ (d >> 16)
}

pub fn hash32(x: u32) -> (r: u32)
    ensures
        r == hashed(x),
{
    let a: u32 = x ^ (x >> 16);
    let b: u32 = a.wrapping_mul(0x7feb_352d);
    let c: u32 = b ^ (b >> 15);
    let d: u32 = c.wrapping_mul(0x846c_a68b);
    d ^ (d >> 16)
}

/// The first byte of a hash.
pub open spec fn hash_byte(x: u32) -> int {
    (hashed(x) >> 24) as int
}

fn byte_hash(x: u32) -> (r: u32)
    ensures
        r == hash_byte(x),
        r <= 255,
{
    let h: u32 = hash32(x);
    assert(h >> 24 <= 255) by (bit_vector);
    h >> 24
}

/// Smoothstep, 3t² - 2t³, with 256 as one.
pub open spec fn smooth(t: int) -> int {
    t * t * (768 - 2 * t) / 65_536
}

/// Interpolated value noise, from 0 to 255.
pub open spec fn noise_at(x: int, period: int, seed: u32) -> int {
    let i = x / period;
    let a = hash_byte((i as u32).wrapping_add(seed));
    let b = hash_byte(((i + 1) as u32).wrapping_add(seed));
    let s = smooth(x % period * 256 / period);
    if b >= a {
        a + (b - a) * s / 256
    } else {
        a - (a - b) * s / 256
    }
}

fn noise(x: u32, period: u32, seed: u32) -> (r: u32)
    requires
        x <= MAX_SIDE,
        1 <= period <= 1_000,
    ensures
        r == noise_at(x as int, period as int, seed),
        r <= 255,
{
    let i: u32 = x / period;
    assert(i <= x) by (nonlinear_arith)
        requires
            i == x / period,
            period >= 1,
    ;
    let f: u32 = x % period;
    let a: u32 = byte_hash(i.wrapping_add(seed));
    let b: u32 = byte_hash((i + 1).wrapping_add(seed));
    let t: u32 = f * 256 / period;
    assert(t <= 255) by (nonlinear_arith)
        requires
            t == f * 256 / (period as int),
            f < period,
            period >= 1,
    ;
    assert(t * t * (768 - 2 * t) <= 255 * 255 * 768) by (nonlinear_arith)
        requires
            0 <= t <= 255,
    ;
    assert(t * t <= 255 * 255) by (nonlinear_arith)
        requires
            0 <= t <= 255,
    ;
    assert(t * t * (768 - 2 * t) <= 256 * 65_536) by {
        smooth_bound(t as int);
    }
    let s: u32 = t * t * (768 - 2 * t) / 65_536;
    assert(s <= 256);
    let d: u32 = if b >= a { b - a } else { a - b };
    assert(d * s <= d * 256) by (nonlinear_arith)
        requires
            0 <= s <= 256,
            d >= 0,
    ;
    let step: u32 = d * s / 256;
    assert(step <= d);
    if b >= a {
        a + step
    } else {
        a - step
    }
}

proof fn smooth_bound(t: int)
    requires
        0 <= t <= 255,
    ensures
        t * t * (768 - 2 * t) <= 256 * 65_536,
{
    // (256 - t)² (256 + 2t) is what is missing to 256³, and it is not negative.
    let u = 256 - t;
    assert(t * t * (768 - 2 * t) + u * u * (256 + 2 * t) == 256 * 256 * 256) by (nonlinear_arith)
        requires
            u == 256 - t,
    ;
    assert(u * u * (256 + 2 * t) >= 0) by (nonlinear_arith)
        requires
            t >= 0,
            u >= 0,
    ;
}

pub open spec fn next_seed(s: u32) -> u32 {
    s.wrapping_mul(0x9e37_79b9).wrapping_add(1)
}

pub open spec fn half(p: int) -> int {
    if p / 2 < 1 {
        1
    } else {
        p / 2
    }
}

/// Fractal noise: three octaves, each at twice the pitch and half the strength
/// of the one before.
#[verifier::opaque]
pub open spec fn fractal(x: int, period: int, seed: u32) -> int {
    noise_at(x, period, seed) * 128 / 255 + noise_at(x, half(period), next_seed(seed)) * 64 / 255
        + noise_at(x, half(half(period)), next_seed(next_seed(seed))) * 32 / 255
}

fn fbm(x: u32, period: u32, seed: u32) -> (r: u32)
    requires
        x <= MAX_SIDE,
        1 <= period <= 1_000,
    ensures
        r == fractal(x as int, period as int, seed),
        r <= 255,
{
    proof {
        reveal(fractal);
    }
    let p2: u32 = if period / 2 < 1 { 1 } else { period / 2 };
    let p3: u32 = if p2 / 2 < 1 { 1 } else { p2 / 2 };
    let s2: u32 = seed.wrapping_mul(0x9e37_79b9).wrapping_add(1);
    let s3: u32 = s2.wrapping_mul(0x9e37_79b9).wrapping_add(1);
    noise(x, period, seed) * 128 / 255 + noise(x, p2, s2) * 64 / 255 + noise(x, p3, s3) * 32 / 255
}

// ── Gradients ───────────────────────────────────────────────────────────────

/// A colour at a place between 0 and 255.
#[derive(Clone, Copy, Debug, PartialEq, Eq, Structural)]
pub struct Stop {
    pub at: u16,
    pub color: Color,
}

/// The colour at `t`, when the stops before the `k`-th are passed.
pub open spec fn graded_from(stops: Seq<Stop>, t: u16, k: int) -> Color
    decreases stops.len() - k,
{
    if k < 0 || k >= stops.len() {
        if stops.len() == 0 {
            BLACK
        } else {
            stops.last().color
        }
    } else if t <= stops[k].at {
        let prev = if k == 0 {
            stops[0]
        } else {
            stops[k - 1]
        };
        if stops[k].at == prev.at {
            stops[k].color
        } else {
            color::blend(
                prev.color,
                stops[k].color,
                (t - prev.at) * 255 / (stops[k].at - prev.at),
            )
        }
    } else {
        graded_from(stops, t, k + 1)
    }
}

/// Sample a gradient of several stops.
pub fn gradient(stops: &Vec<Stop>, t: u16) -> (r: Color)
    ensures
        r == graded_from(stops@, t, 0),
{
    if stops.len() == 0 {
        return BLACK;
    }
    let mut prev = stops[0];
    let mut k: usize = 0;
    while k < stops.len()
        invariant
            k <= stops@.len(),
            stops@.len() > 0,
            graded_from(stops@, t, 0) == graded_from(stops@, t, k as int),
            prev == (if k == 0 {
                stops@[0]
            } else {
                stops@[k - 1]
            }),
            k > 0 ==> t > prev.at,
        decreases stops@.len() - k,
    {
        let s = stops[k];
        if t <= s.at {
            if s.at == prev.at {
                return s.color;
            }
            let span: u32 = (s.at - prev.at) as u32;
            let part: u32 = (t - prev.at) as u32;
            assert(part * 255 / (span as int) <= 255) by (nonlinear_arith)
                requires
                    0 <= part <= span,
                    span > 0,
            ;
            return lerp(prev.color, s.color, (part * 255 / span) as u8);
        }
        prev = s;
        k = k + 1;
    }
    prev.color
}

/// The night sky, from the top of the screen down to the horizon.
pub open spec fn night_sky() -> Seq<Stop> {
    seq![
        Stop { at: 0, color: 0x02030a },
        Stop { at: 90, color: 0x060b14 },
        Stop { at: 170, color: 0x0a1620 },
        Stop { at: 225, color: 0x0e2029 },
        Stop { at: 255, color: 0x16323c },
    ]
}

fn sky_stops() -> (r: Vec<Stop>)
    ensures
        r@ == night_sky(),
{
    let mut v: Vec<Stop> = Vec::new();
    v.push(Stop { at: 0, color: 0x02030a });
    v.push(Stop { at: 90, color: 0x060b14 });
    v.push(Stop { at: 170, color: 0x0a1620 });
    v.push(Stop { at: 225, color: 0x0e2029 });
    v.push(Stop { at: 255, color: 0x16323c });
    assert(v@ =~= night_sky());
    v
}

// ── Corners ─────────────────────────────────────────────────────────────────

pub open spec fn squared(a: int) -> int {
    a * a
}

/// How far it is from one point to another, rounded down.
pub open spec fn distance(ax: int, ay: int, bx: int, by: int) -> int {
    root(squared(ax - bx) + squared(ay - by))
}

/// The square of that distance.
pub open spec fn distance2(ax: int, ay: int, bx: int, by: int) -> int {
    squared(ax - bx) + squared(ay - by)
}

fn apart(ax: usize, ay: usize, bx: usize, by: usize) -> (r: u32)
    requires
        ax <= MAX_SIDE,
        ay <= MAX_SIDE,
        bx <= MAX_SIDE,
        by <= MAX_SIDE,
    ensures
        r == distance2(ax as int, ay as int, bx as int, by as int),
        r <= i32::MAX,
{
    let dx: u32 = if ax >= bx { (ax - bx) as u32 } else { (bx - ax) as u32 };
    let dy: u32 = if ay >= by { (ay - by) as u32 } else { (by - ay) as u32 };
    proof {
        assert(dx * dx <= 32_767 * 32_767) by (nonlinear_arith)
            requires
                0 <= dx <= 32_767,
        ;
        assert(dy * dy <= 32_767 * 32_767) by (nonlinear_arith)
            requires
                0 <= dy <= 32_767,
        ;
        let sx = ax - bx;
        let sy = ay - by;
        assert(dx * dx == sx * sx) by (nonlinear_arith)
            requires
                dx == sx || dx == -sx,
        ;
        assert(dy * dy == sy * sy) by (nonlinear_arith)
            requires
                dy == sy || dy == -sy,
        ;
    }
    dx * dx + dy * dy
}

/// How far the corners are from the middle of the screen, at least 1.
pub open spec fn reach(w: int, h: int) -> int {
    let d = root(squared(w / 2) + squared(h / 2));
    if d < 1 {
        1
    } else {
        d
    }
}

/// How far out a pixel is, with the corners at 100.
pub open spec fn outness(w: int, h: int, x: int, y: int) -> int {
    distance(x, y, w / 2, h / 2) * 100 / reach(w, h)
}

/// A pixel with the corners darkened, beyond `from`.
pub open spec fn shaded(c: Color, out: int, from: int, by: int) -> Color {
    if out > from {
        color::darker(c, (out - from) / by)
    } else {
        c
    }
}

fn reach_of(w: usize, h: usize) -> (r: u32)
    requires
        w <= MAX_SIDE,
        h <= MAX_SIDE,
    ensures
        r == reach(w as int, h as int),
        1 <= r <= 65_535,
{
    let d: u32 = apart(w / 2, h / 2, 0, 0);
    let r: u32 = isqrt(d);
    proof {
        root_fits(d as int, r as int);
    }
    if r < 1 {
        1
    } else {
        r
    }
}

proof fn root_fits(n: int, r: int)
    requires
        is_root(n, r),
        n <= i32::MAX,
    ensures
        r <= 46_340,
{
    if r > 46_340 {
        assert(r * r >= 46_341 * 46_341) by (nonlinear_arith)
            requires
                r >= 46_341,
        ;
    }
}

fn out_of(w: usize, h: usize, x: usize, y: usize, max_d: u32) -> (r: u32)
    requires
        w <= MAX_SIDE,
        h <= MAX_SIDE,
        x < w,
        y < h,
        max_d == reach(w as int, h as int),
        max_d >= 1,
    ensures
        r == outness(w as int, h as int, x as int, y as int),
{
    let n: u32 = apart(x, y, w / 2, h / 2);
    let d: u32 = isqrt(n);
    proof {
        root_fits(n as int, d as int);
    }
    d * 100 / max_d
}

fn shade(c: Color, out: u32, from: u32, by: u32) -> (r: Color)
    requires
        by >= 1,
    ensures
        r == shaded(c, out as int, from as int, by as int),
{
    if out > from {
        darken(c, (out - from) / by)
    } else {
        c
    }
}

// ── Filling the screen ──────────────────────────────────────────────────────

/// A screen of pixels, row by row.
pub open spec fn screen(w: int, h: int, f: spec_fn(int, int) -> Color) -> Seq<Color> {
    Seq::new((w * h) as nat, |i: int| f(i % w, i / w))
}

/// The pixel at a place is where it belongs.
pub proof fn pixels_are_in_place(w: int, h: int, f: spec_fn(int, int) -> Color, x: int, y: int)
    requires
        0 <= x < w,
        0 <= y < h,
    ensures
        screen(w, h, f).len() == w * h,
        0 <= y * w + x < w * h,
        screen(w, h, f)[y * w + x] == f(x, y),
{
    place(w, x, y);
    assert(y * w + x < w * h) by (nonlinear_arith)
        requires
            0 <= x < w,
            0 <= y < h,
    ;
    assert(0 <= y * w) by (nonlinear_arith)
        requires
            0 <= y,
            0 < w,
    ;
}

proof fn place(w: int, x: int, y: int)
    requires
        0 <= x < w,
        0 <= y,
    ensures
        (y * w + x) % w == x,
        (y * w + x) / w == y,
{
    vstd::arithmetic::div_mod::lemma_fundamental_div_mod_converse(y * w + x, w, y, x);
}

/// The first `n` pixels.
pub open spec fn begun(w: int, n: int, f: spec_fn(int, int) -> Color) -> Seq<Color> {
    Seq::new(n as nat, |i: int| f(i % w, i / w))
}

proof fn begun_grows(w: int, x: int, y: int, f: spec_fn(int, int) -> Color)
    requires
        0 <= x < w,
        0 <= y,
    ensures
        begun(w, y * w + x + 1, f) == begun(w, y * w + x, f).push(f(x, y)),
{
    place(w, x, y);
    assert(0 <= y * w) by (nonlinear_arith)
        requires
            0 <= y,
            0 < w,
    ;
    assert(begun(w, y * w + x + 1, f) =~= begun(w, y * w + x, f).push(f(x, y)));
}

proof fn begun_ends(w: int, h: int, f: spec_fn(int, int) -> Color)
    ensures
        begun(w, h * w, f) == screen(w, h, f),
{
    assert(h * w == w * h) by (nonlinear_arith);
    assert(begun(w, h * w, f) =~= screen(w, h, f));
}

// ── Night ───────────────────────────────────────────────────────────────────

/// How bright a star is at a pixel, if there is one. About a fifth of the
/// squares of 22 by 22 pixels hold one, and they fade out towards the horizon.
pub open spec fn star_at(x: int, y: int, horizon: int) -> Option<int> {
    let hv = hashed(((y / 22) as u32).wrapping_mul(1021).wrapping_add((x / 22) as u32));
    if hv & 0xff > 52 || x % 22 != (hv >> 8) as int % 22 || y % 22 != (hv >> 16) as int % 22 {
        None
    } else {
        let faded = y * 255 / horizon;
        let fade = if faded > 255 {
            0
        } else {
            255 - faded
        };
        Some((90 + (hv >> 24) as int / 2) * fade / 255)
    }
}

fn star(x: usize, y: usize, horizon: usize) -> (r: Option<u8>)
    requires
        x <= MAX_SIDE,
        y <= MAX_SIDE,
        1 <= horizon <= MAX_SIDE,
    ensures
        match r {
            Some(b) => star_at(x as int, y as int, horizon as int) == Some(b as int),
            None => star_at(x as int, y as int, horizon as int) is None,
        },
{
    let hv: u32 = hash32(((y / 22) as u32).wrapping_mul(1021).wrapping_add((x / 22) as u32));
    if hv & 0xff > 52 {
        return None;
    }
    if x % 22 != ((hv >> 8) % 22) as usize || y % 22 != ((hv >> 16) % 22) as usize {
        return None;
    }
    let faded: usize = y * 255 / horizon;
    let fade: u32 = if faded > 255 { 0 } else { (255 - faded) as u32 };
    assert(hv >> 24 <= 255) by (bit_vector);
    let top: u32 = 90 + (hv >> 24) / 2;
    assert(0 <= top * fade <= 217 * 255) by (nonlinear_arith)
        requires
            0 <= top <= 217,
            0 <= fade <= 255,
    ;
    Some((top * fade / 255) as u8)
}

/// Where the moon is, and how large.
pub open spec fn moon_radius(h: int) -> int {
    if h / 26 < 6 {
        6
    } else {
        h / 26
    }
}

/// How far the moon's halo reaches: in proportion to the screen, so that on a
/// low one it does not light up the whole sky.
pub open spec fn halo_radius(h: int) -> int {
    h / 26 * 9
}

/// The moon over a pixel: its disc, and a halo that falls off with distance.
pub open spec fn moonlit(c: Color, w: int, h: int, x: int, y: int) -> Color {
    let mx = w * 78 / 100;
    let my = h * 20 / 100;
    let r = moon_radius(h);
    let halo = halo_radius(h);
    let d2 = distance2(x, y, mx, my);
    if d2 <= squared(r) {
        0xf4f7e8
    } else if d2 < squared(halo) {
        let f = (halo - root(d2)) * 255 / halo;
        color::blend(c, 0xbfd8d5, f * f / 255 / 3)
    } else {
        c
    }
}

fn moonlight(c: Color, w: usize, h: usize, x: usize, y: usize) -> (r: Color)
    requires
        w <= MAX_SIDE,
        h <= MAX_SIDE,
        x < w,
        y < h,
    ensures
        r == moonlit(c, w as int, h as int, x as int, y as int),
{
    let mx: usize = w * 78 / 100;
    let my: usize = h * 20 / 100;
    let r: u32 = if h / 26 < 6 { 6 } else { (h / 26) as u32 };
    let halo: u32 = (h / 26) as u32 * 9;
    let d2: u32 = apart(x, y, mx, my);
    assert(r * r <= 1_300 * 1_300) by (nonlinear_arith)
        requires
            0 <= r <= 1_300,
    ;
    assert(halo * halo <= 11_700 * 11_700) by (nonlinear_arith)
        requires
            0 <= halo <= 11_700,
    ;
    if d2 <= r * r {
        return 0xf4f7e8;
    }
    if d2 < halo * halo {
        let d: u32 = isqrt(d2);
        assert(d < halo) by {
            if d >= halo {
                assert(d * d >= halo * halo) by (nonlinear_arith)
                    requires
                        d >= halo,
                        halo >= 0,
                ;
            }
        }
        let part: u32 = halo - d;
        let f: u32 = part * 255 / halo;
        assert(f <= 255) by (nonlinear_arith)
            requires
                f == part * 255 / (halo as int),
                0 <= part <= halo,
                halo > 0,
        ;
        assert(f * f <= 255 * 255) by (nonlinear_arith)
            requires
                0 <= f <= 255,
        ;
        return lerp(c, 0xbfd8d5, (f * f / 255 / 3) as u8);
    }
    c
}

/// How far down the sky reaches.
pub open spec fn horizon_of(h: int) -> int {
    h * 62 / 100
}

/// How far a row is from the top of the sky to the horizon, out of 255.
pub open spec fn sky_place(h: int, y: int) -> int {
    let horizon = horizon_of(h);
    if horizon > 0 {
        (if y < horizon {
            y
        } else {
            horizon
        }) * 255 / horizon
    } else {
        255
    }
}

/// The sky at a pixel, with stars and the moon.
pub open spec fn sky(w: int, h: int, x: int, y: int) -> Color {
    let base = graded_from(night_sky(), sky_place(h, y) as u16, 0);
    let starry = if y < horizon_of(h) {
        match star_at(x, y, horizon_of(h)) {
            Some(b) => color::blend(base, 0xffffff, b),
            None => base,
        }
    } else {
        base
    };
    moonlit(starry, w, h, x, y)
}

/// A row of hills: its colour, where it starts and how high it is, in percent
/// of the screen, and how it is rolled.
#[derive(Clone, Copy, Debug, PartialEq, Eq, Structural)]
pub struct Hill {
    pub color: Color,
    pub base: usize,
    pub amp: usize,
    pub period: u32,
    pub seed: u32,
}

/// The three rows, far to near.
pub open spec fn hill(k: int) -> Hill {
    if k == 0 {
        Hill { color: 0x1b3a47, base: 62, amp: 9, period: 320, seed: 0x51ed }
    } else if k == 1 {
        Hill { color: 0x122a34, base: 74, amp: 11, period: 210, seed: 0xb19b }
    } else {
        Hill { color: 0x0a1a21, base: 86, amp: 13, period: 140, seed: 0x2c7f }
    }
}

fn hill_of(k: u8) -> (r: Hill)
    ensures
        r == hill(k as int),
{
    if k == 0 {
        Hill { color: 0x1b3a47, base: 62, amp: 9, period: 320, seed: 0x51ed }
    } else if k == 1 {
        Hill { color: 0x122a34, base: 74, amp: 11, period: 210, seed: 0xb19b }
    } else {
        Hill { color: 0x0a1a21, base: 86, amp: 13, period: 140, seed: 0x2c7f }
    }
}

/// Where a hill begins in a column.
pub open spec fn crest(k: int, h: int, x: int) -> int {
    let s = hill(k);
    let top = h * s.base / 100 - fractal(x, s.period as int, s.seed) * (h * s.amp / 100) / 255;
    if top < 0 {
        0
    } else {
        top
    }
}

/// A hill over a pixel. It gets a little lighter further down.
pub open spec fn hilly(c: Color, k: int, h: int, x: int, y: int) -> Color {
    let top = crest(k, h, x);
    if y >= top {
        color::lighter(color::darker(hill(k).color, 20), (y - top) * 255 / h / 8)
    } else {
        c
    }
}

/// A pixel of the night scene.
pub open spec fn night(w: int, h: int, x: int, y: int) -> Color {
    let c = sky(w, h, x, y);
    let c = hilly(hilly(hilly(c, 0, h, x, y), 1, h, x, y), 2, h, x, y);
    shaded(c, outness(w, h, x, y), 55, 2)
}

/// The crests of a row of hills, column by column.
fn crests(k: u8, w: usize, h: usize) -> (r: Vec<usize>)
    requires
        k < 3,
        w <= MAX_SIDE,
        0 < h <= MAX_SIDE,
    ensures
        r@.len() == w,
        forall|x: int| 0 <= x < w ==> #[trigger] r@[x] == crest(k as int, h as int, x),
{
    let s = hill_of(k);
    assert(h * s.base <= 32_767 * 86) by (nonlinear_arith)
        requires
            0 <= h <= 32_767,
            0 <= s.base <= 86,
    ;
    assert(h * s.amp <= 32_767 * 13) by (nonlinear_arith)
        requires
            0 <= h <= 32_767,
            0 <= s.amp <= 13,
    ;
    let base: usize = h * s.base / 100;
    let amp: usize = h * s.amp / 100;
    let mut v: Vec<usize> = Vec::new();
    let mut x: usize = 0;
    while x < w
        invariant
            k < 3,
            x <= w <= MAX_SIDE,
            0 < h <= MAX_SIDE,
            s == hill(k as int),
            base == h * s.base / 100,
            amp == h * s.amp / 100,
            amp <= MAX_SIDE,
            v@.len() == x,
            forall|j: int| 0 <= j < x ==> #[trigger] v@[j] == crest(k as int, h as int, j),
        decreases w - x,
    {
        let n: usize = fbm(x as u32, s.period, s.seed) as usize;
        assert(0 <= n * amp <= 255 * 32_767) by (nonlinear_arith)
            requires
                0 <= n <= 255,
                0 <= amp <= 32_767,
        ;
        let up: usize = n * amp / 255;
        v.push(if up < base { base - up } else { 0 });
        x = x + 1;
    }
    v
}

fn put_hill(c: Color, k: u8, h: usize, y: usize, top: usize) -> (r: Color)
    requires
        0 < h <= MAX_SIDE,
        y < h,
    ensures
        forall|x: int|
            #[trigger] crest(k as int, h as int, x) == top ==> r == hilly(
                c,
                k as int,
                h as int,
                x,
                y as int,
            ),
{
    if y >= top {
        let depth: usize = (y - top) * 255 / h;
        assert(depth <= 255) by (nonlinear_arith)
            requires
                depth == (y - top) * 255 / (h as int),
                0 <= y - top < h,
        ;
        lighten(darken(hill_of(k).color, 20), (depth / 8) as u32)
    } else {
        c
    }
}

fn sky_pixel(base: Color, w: usize, h: usize, x: usize, y: usize) -> (r: Color)
    requires
        w <= MAX_SIDE,
        h <= MAX_SIDE,
        x < w,
        y < h,
        base == graded_from(night_sky(), sky_place(h as int, y as int) as u16, 0),
    ensures
        r == sky(w as int, h as int, x as int, y as int),
{
    let horizon: usize = h * 62 / 100;
    let mut c = base;
    if y < horizon {
        match star(x, y, horizon) {
            Some(b) => {
                c = lerp(c, 0xffffff, b);
            },
            None => {},
        }
    }
    moonlight(c, w, h, x, y)
}

fn sky_row(stops: &Vec<Stop>, h: usize, y: usize) -> (r: Color)
    requires
        stops@ == night_sky(),
        h <= MAX_SIDE,
    ensures
        r == graded_from(night_sky(), sky_place(h as int, y as int) as u16, 0),
{
    let horizon: usize = h * 62 / 100;
    let t: u16 = if horizon > 0 {
        let at: usize = if y < horizon { y } else { horizon };
        assert(at * 255 / (horizon as int) <= 255) by (nonlinear_arith)
            requires
                0 <= at <= horizon,
                horizon > 0,
        ;
        (at * 255 / horizon) as u16
    } else {
        255
    };
    gradient(stops, t)
}

fn generate_night(w: usize, h: usize) -> (r: Vec<Color>)
    requires
        0 < w <= MAX_SIDE,
        0 < h <= MAX_SIDE,
    ensures
        r@ == screen(w as int, h as int, |x: int, y: int| night(w as int, h as int, x, y)),
{
    let ghost f = |x: int, y: int| night(w as int, h as int, x, y);
    let stops = sky_stops();
    let max_d: u32 = reach_of(w, h);
    let far = crests(0, w, h);
    let mid = crests(1, w, h);
    let near = crests(2, w, h);
    let mut px: Vec<Color> = Vec::new();
    let mut y: usize = 0;
    assert(px@ =~= begun(w as int, 0, f));
    while y < h
        invariant
            y <= h,
            0 < w <= MAX_SIDE,
            0 < h <= MAX_SIDE,
            stops@ == night_sky(),
            max_d == reach(w as int, h as int),
            max_d >= 1,
            far@.len() == w,
            mid@.len() == w,
            near@.len() == w,
            forall|j: int| 0 <= j < w ==> #[trigger] far@[j] == crest(0, h as int, j),
            forall|j: int| 0 <= j < w ==> #[trigger] mid@[j] == crest(1, h as int, j),
            forall|j: int| 0 <= j < w ==> #[trigger] near@[j] == crest(2, h as int, j),
            f == (|x: int, y: int| night(w as int, h as int, x, y)),
            px@ == begun(w as int, y * w, f),
        decreases h - y,
    {
        let base = sky_row(&stops, h, y);
        let mut x: usize = 0;
        while x < w
            invariant
                x <= w,
                y < h,
                0 < w <= MAX_SIDE,
                0 < h <= MAX_SIDE,
                base == graded_from(night_sky(), sky_place(h as int, y as int) as u16, 0),
                max_d == reach(w as int, h as int),
                max_d >= 1,
                far@.len() == w,
                mid@.len() == w,
                near@.len() == w,
                forall|j: int| 0 <= j < w ==> #[trigger] far@[j] == crest(0, h as int, j),
                forall|j: int| 0 <= j < w ==> #[trigger] mid@[j] == crest(1, h as int, j),
                forall|j: int| 0 <= j < w ==> #[trigger] near@[j] == crest(2, h as int, j),
                f == (|x: int, y: int| night(w as int, h as int, x, y)),
                px@ == begun(w as int, y * w + x, f),
            decreases w - x,
        {
            let c = sky_pixel(base, w, h, x, y);
            let c = put_hill(c, 0, h, y, far[x]);
            let c = put_hill(c, 1, h, y, mid[x]);
            let c = put_hill(c, 2, h, y, near[x]);
            let c = shade(c, out_of(w, h, x, y, max_d), 55, 2);
            proof {
                assert(far@[x as int] == crest(0, h as int, x as int));
                assert(mid@[x as int] == crest(1, h as int, x as int));
                assert(near@[x as int] == crest(2, h as int, x as int));
                assert(c == f(x as int, y as int));
                begun_grows(w as int, x as int, y as int, f);
            }
            px.push(c);
            x = x + 1;
        }
        assert((y + 1) * w == y * w + w) by (nonlinear_arith);
        y = y + 1;
    }
    proof {
        begun_ends(w as int, h as int, f);
    }
    px
}

// ── Aurora ──────────────────────────────────────────────────────────────────

/// A soft patch of light.
#[derive(Clone, Copy, Debug, PartialEq, Eq, Structural)]
pub struct Orb {
    pub x: usize,
    pub y: usize,
    pub r: usize,
    pub color: Color,
}

pub open spec fn orb(k: int, w: int, h: int) -> Orb {
    if k == 0 {
        Orb {
            x: (w * 22 / 100) as usize,
            y: (h * 28 / 100) as usize,
            r: (h / 3) as usize,
            color: 0x22d3ee,
        }
    } else if k == 1 {
        Orb {
            x: (w * 70 / 100) as usize,
            y: (h * 22 / 100) as usize,
            r: (h / 4) as usize,
            color: 0xa78bfa,
        }
    } else if k == 2 {
        Orb {
            x: (w * 48 / 100) as usize,
            y: (h * 55 / 100) as usize,
            r: (h / 3) as usize,
            color: 0xf472b6,
        }
    } else {
        Orb {
            x: (w * 80 / 100) as usize,
            y: (h * 70 / 100) as usize,
            r: (h / 5) as usize,
            color: 0x34d399,
        }
    }
}

fn orb_of(k: u8, w: usize, h: usize) -> (r: Orb)
    requires
        w <= MAX_SIDE,
        h <= MAX_SIDE,
    ensures
        r == orb(k as int, w as int, h as int),
        r.x <= MAX_SIDE,
        r.y <= MAX_SIDE,
        r.r <= MAX_SIDE,
{
    if k == 0 {
        Orb { x: w * 22 / 100, y: h * 28 / 100, r: h / 3, color: 0x22d3ee }
    } else if k == 1 {
        Orb { x: w * 70 / 100, y: h * 22 / 100, r: h / 4, color: 0xa78bfa }
    } else if k == 2 {
        Orb { x: w * 48 / 100, y: h * 55 / 100, r: h / 3, color: 0xf472b6 }
    } else {
        Orb { x: w * 80 / 100, y: h * 70 / 100, r: h / 5, color: 0x34d399 }
    }
}

/// A patch of light over a pixel, brighter towards its middle.
pub open spec fn lit(c: Color, o: Orb, x: int, y: int) -> Color {
    let d2 = distance2(x, y, o.x as int, o.y as int);
    if d2 < squared(o.r as int) {
        color::blend(c, o.color, (o.r - root(d2)) * 90 / (o.r as int))
    } else {
        c
    }
}

fn light(c: Color, o: &Orb, x: usize, y: usize) -> (r: Color)
    requires
        o.x <= MAX_SIDE,
        o.y <= MAX_SIDE,
        o.r <= MAX_SIDE,
        x <= MAX_SIDE,
        y <= MAX_SIDE,
    ensures
        r == lit(c, *o, x as int, y as int),
{
    let d2: u32 = apart(x, y, o.x, o.y);
    let r: u32 = o.r as u32;
    assert(r * r <= 32_767 * 32_767) by (nonlinear_arith)
        requires
            0 <= r <= 32_767,
    ;
    if d2 < r * r {
        let d: u32 = isqrt(d2);
        assert(d < r) by {
            if d >= r {
                assert(d * d >= r * r) by (nonlinear_arith)
                    requires
                        d >= r,
                        r >= 0,
                ;
            }
        }
        let part: u32 = r - d;
        assert(part * 90 / (r as int) <= 90) by (nonlinear_arith)
            requires
                0 <= part <= r,
                r > 0,
        ;
        lerp(c, o.color, (part * 90 / r) as u8)
    } else {
        c
    }
}

/// The colour behind a row.
pub open spec fn dusk_row(h: int, y: int) -> Color {
    let t = if h > 1 {
        y * 255 / (h - 1)
    } else {
        0
    };
    if t < 140 {
        color::blend(0x0b1026, 0x1a1440, t * 255 / 140)
    } else {
        color::blend(0x1a1440, 0x0f2a3a, (t - 140) * 255 / 115)
    }
}

fn row_color(h: usize, y: usize) -> (r: Color)
    requires
        y < h <= MAX_SIDE,
    ensures
        r == dusk_row(h as int, y as int),
{
    let t: u32 = if h > 1 {
        let d: usize = h - 1;
        assert(y * 255 / (d as int) <= 255) by (nonlinear_arith)
            requires
                0 <= y <= d,
                d > 0,
        ;
        (y * 255 / d) as u32
    } else {
        0
    };
    if t < 140 {
        lerp(0x0b1026, 0x1a1440, (t * 255 / 140) as u8)
    } else {
        lerp(0x1a1440, 0x0f2a3a, ((t - 140) * 255 / 115) as u8)
    }
}

/// Whether a faint star is at a pixel.
pub open spec fn twinkles(x: int, y: int) -> bool {
    hashed((x as u32).wrapping_mul(73).wrapping_add((y * 19) as u32)) & 0x7ff < 2
}

/// A bright band at the horizon.
pub open spec fn banded(c: Color, h: int, y: int) -> Color {
    let hy = h * 68 / 100;
    if y == hy {
        color::blend(c, 0x22d3ee, 55)
    } else if y == hy + 1 {
        color::blend(c, 0x22d3ee, 25)
    } else {
        c
    }
}

/// A pixel of the aurora.
pub open spec fn cyber(w: int, h: int, x: int, y: int) -> Color {
    let c = dusk_row(h, y);
    let c = lit(lit(c, orb(0, w, h), x, y), orb(1, w, h), x, y);
    let c = lit(lit(c, orb(2, w, h), x, y), orb(3, w, h), x, y);
    let c = if twinkles(x, y) {
        color::blend(c, 0xecfeff, 140)
    } else {
        c
    };
    shaded(banded(c, h, y), outness(w, h, x, y), 72, 4)
}

fn cyber_pixel(row: Color, w: usize, h: usize, x: usize, y: usize, max_d: u32) -> (r: Color)
    requires
        w <= MAX_SIDE,
        h <= MAX_SIDE,
        x < w,
        y < h,
        row == dusk_row(h as int, y as int),
        max_d == reach(w as int, h as int),
        max_d >= 1,
    ensures
        r == cyber(w as int, h as int, x as int, y as int),
{
    let c = light(row, &orb_of(0, w, h), x, y);
    let c = light(c, &orb_of(1, w, h), x, y);
    let c = light(c, &orb_of(2, w, h), x, y);
    let c = light(c, &orb_of(3, w, h), x, y);
    let hv: u32 = hash32((x as u32).wrapping_mul(73).wrapping_add(y as u32 * 19));
    let c = if hv & 0x7ff < 2 { lerp(c, 0xecfeff, 140) } else { c };
    let hy: usize = h * 68 / 100;
    let c = if y == hy {
        lerp(c, 0x22d3ee, 55)
    } else if y == hy + 1 {
        lerp(c, 0x22d3ee, 25)
    } else {
        c
    };
    shade(c, out_of(w, h, x, y, max_d), 72, 4)
}

fn generate_cyber(w: usize, h: usize) -> (r: Vec<Color>)
    requires
        0 < w <= MAX_SIDE,
        0 < h <= MAX_SIDE,
    ensures
        r@ == screen(w as int, h as int, |x: int, y: int| cyber(w as int, h as int, x, y)),
{
    let ghost f = |x: int, y: int| cyber(w as int, h as int, x, y);
    let max_d: u32 = reach_of(w, h);
    let mut px: Vec<Color> = Vec::new();
    let mut y: usize = 0;
    assert(px@ =~= begun(w as int, 0, f));
    while y < h
        invariant
            y <= h,
            0 < w <= MAX_SIDE,
            0 < h <= MAX_SIDE,
            max_d == reach(w as int, h as int),
            max_d >= 1,
            f == (|x: int, y: int| cyber(w as int, h as int, x, y)),
            px@ == begun(w as int, y * w, f),
        decreases h - y,
    {
        let row = row_color(h, y);
        let mut x: usize = 0;
        while x < w
            invariant
                x <= w,
                y < h,
                0 < w <= MAX_SIDE,
                0 < h <= MAX_SIDE,
                row == dusk_row(h as int, y as int),
                max_d == reach(w as int, h as int),
                max_d >= 1,
                f == (|x: int, y: int| cyber(w as int, h as int, x, y)),
                px@ == begun(w as int, y * w + x, f),
            decreases w - x,
        {
            let c = cyber_pixel(row, w, h, x, y, max_d);
            proof {
                assert(c == f(x as int, y as int));
                begun_grows(w as int, x as int, y as int, f);
            }
            px.push(c);
            x = x + 1;
        }
        assert((y + 1) * w == y * w + w) by (nonlinear_arith);
        y = y + 1;
    }
    proof {
        begun_ends(w as int, h as int, f);
    }
    px
}

/// The generated scene.
pub open spec fn scene(w: int, h: int, dark: bool) -> Seq<Color> {
    if dark {
        screen(w, h, |x: int, y: int| night(w, h, x, y))
    } else {
        screen(w, h, |x: int, y: int| cyber(w, h, x, y))
    }
}

pub fn generate_scene(w: usize, h: usize, dark: bool) -> (r: Vec<Color>)
    requires
        0 < w <= MAX_SIDE,
        0 < h <= MAX_SIDE,
    ensures
        r@ == scene(w as int, h as int, dark),
{
    if dark {
        generate_night(w, h)
    } else {
        generate_cyber(w, h)
    }
}

// ── Pictures ────────────────────────────────────────────────────────────────

/// A picture: its size, and its pixels row by row.
pub struct Image {
    pub width: usize,
    pub height: usize,
    pub pixels: Vec<Color>,
}

pub ghost struct ImageModel {
    pub width: int,
    pub height: int,
    pub pixels: Seq<Color>,
}

impl View for Image {
    type V = ImageModel;

    open spec fn view(&self) -> ImageModel {
        ImageModel {
            width: self.width as int,
            height: self.height as int,
            pixels: self.pixels@,
        }
    }
}

/// Largest side of a picture.
pub const MAX_PICTURE: u64 = 0xffff_ffff;

impl ImageModel {
    pub open spec fn fits(self) -> bool {
        0 <= self.width <= MAX_PICTURE && 0 <= self.height <= MAX_PICTURE
    }

    /// Whether it has as many pixels as it says, and any at all.
    pub open spec fn usable(self) -> bool {
        self.width > 0 && self.height > 0 && self.pixels.len() >= self.width * self.height
    }

    pub open spec fn at(self, x: int, y: int) -> Color {
        self.pixels[y * self.width + x]
    }
}

/// One pixel, in fixed point.
pub const ONE: u64 = 0x1_0000;

pub open spec fn smaller(a: int, b: int) -> int {
    if a < b {
        a
    } else {
        b
    }
}

/// How far it is in the picture from one pixel of the screen to the next, so
/// that the picture covers the screen on both axes.
pub open spec fn step(p: ImageModel, w: int, h: int) -> int {
    smaller(p.width * ONE / w, p.height * ONE / h)
}

/// Where in the picture the screen begins: what hangs over is cropped on both
/// sides alike.
pub open spec fn origin(side: int, step: int, n: int) -> int {
    (side * ONE - step * n) / 2
}

/// Bilinear sample at a place in fixed point.
pub open spec fn sampled(p: ImageModel, x: int, y: int) -> Color {
    let x0 = smaller(x / ONE as int, p.width - 1);
    let y0 = smaller(y / ONE as int, p.height - 1);
    let x1 = smaller(x / ONE as int + 1, p.width - 1);
    let y1 = smaller(y / ONE as int + 1, p.height - 1);
    let fx = x % ONE as int / 256;
    let fy = y % ONE as int / 256;
    color::blend(
        color::blend(p.at(x0, y0), p.at(x1, y0), fx),
        color::blend(p.at(x0, y1), p.at(x1, y1), fx),
        fy,
    )
}

fn pixel_at(p: &Image, x: usize, y: usize) -> (r: Color)
    requires
        p@.usable(),
        x < p.width,
        y < p.height,
    ensures
        r == p@.at(x as int, y as int),
{
    proof {
        let w = p.width as int;
        let h = p.height as int;
        assert(y * w + x < w * h) by (nonlinear_arith)
            requires
                0 <= x < w,
                0 <= y < h,
        ;
        assert(0 <= y * w) by (nonlinear_arith)
            requires
                0 <= y,
                0 <= w,
        ;
        assert(p.pixels.len() == p.pixels@.len());
    }
    p.pixels[y * p.width + x]
}

fn sample(p: &Image, x: u64, y: u64) -> (r: Color)
    requires
        p@.fits(),
        p@.usable(),
        x <= 0x1_0000_0000_0000,
        y <= 0x1_0000_0000_0000,
    ensures
        r == sampled(p@, x as int, y as int),
{
    let xi: u64 = x / ONE;
    let yi: u64 = y / ONE;
    let last_x: u64 = p.width as u64 - 1;
    let last_y: u64 = p.height as u64 - 1;
    let x0: usize = (if xi < last_x { xi } else { last_x }) as usize;
    let y0: usize = (if yi < last_y { yi } else { last_y }) as usize;
    let x1: usize = (if xi + 1 < last_x { xi + 1 } else { last_x }) as usize;
    let y1: usize = (if yi + 1 < last_y { yi + 1 } else { last_y }) as usize;
    let fx: u8 = (x % ONE / 256) as u8;
    let fy: u8 = (y % ONE / 256) as u8;
    let top = lerp(pixel_at(p, x0, y0), pixel_at(p, x1, y0), fx);
    let bottom = lerp(pixel_at(p, x0, y1), pixel_at(p, x1, y1), fx);
    lerp(top, bottom, fy)
}

/// A pixel of the screen that shows a picture.
pub open spec fn pictured(p: ImageModel, w: int, h: int, dark: bool, x: int, y: int) -> Color {
    let s = step(p, w, h);
    let c = sampled(p, origin(p.width, s, w) + s * x, origin(p.height, s, h) + s * y);
    shaded(
        if dark {
            color::darker(c, 30)
        } else {
            c
        },
        outness(w, h, x, y),
        55,
        2,
    )
}

/// A screen that shows a picture. One that has fewer pixels than it says is
/// refused, and leaves the screen black.
pub open spec fn picture_screen(p: ImageModel, w: int, h: int, dark: bool) -> Seq<Color> {
    if p.usable() {
        screen(w, h, |x: int, y: int| pictured(p, w, h, dark, x, y))
    } else {
        screen(w, h, |x: int, y: int| BLACK)
    }
}

/// The crop lies in the middle of the picture, and within it: as much is cut
/// off on one side as on the other, and one of the axes is shown whole, but for
/// what a screen's pixels do not divide.
pub proof fn pictures_are_cropped_in_the_middle(p: ImageModel, w: int, h: int)
    requires
        p.fits(),
        p.width > 0,
        p.height > 0,
        0 < w <= MAX_SIDE,
        0 < h <= MAX_SIDE,
    ensures
        ({
            let s = step(p, w, h);
            let ox = origin(p.width, s, w);
            let oy = origin(p.height, s, h);
            &&& s >= 1
            &&& 0 <= ox && ox + s * w + ox <= p.width * ONE <= ox + s * w + ox + 1
            &&& 0 <= oy && oy + s * h + oy <= p.height * ONE <= oy + s * h + oy + 1
            &&& p.width * ONE - s * w < w || p.height * ONE - s * h < h
        }),
{
    let s = step(p, w, h);
    let a = p.width * ONE;
    let b = p.height * ONE;
    vstd::arithmetic::div_mod::lemma_fundamental_div_mod(a, w);
    vstd::arithmetic::div_mod::lemma_fundamental_div_mod(b, h);
    vstd::arithmetic::div_mod::lemma_mod_bound(a, w);
    vstd::arithmetic::div_mod::lemma_mod_bound(b, h);
    assert(a / w * w == w * (a / w)) by (nonlinear_arith);
    assert(b / h * h == h * (b / h)) by (nonlinear_arith);
    assert(s * w <= a / w * w) by (nonlinear_arith)
        requires
            s <= a / w,
            w > 0,
    ;
    assert(s * h <= b / h * h) by (nonlinear_arith)
        requires
            s <= b / h,
            h > 0,
    ;
    assert(a / w >= 1) by (nonlinear_arith)
        requires
            a >= w,
            w > 0,
    ;
    assert(b / h >= 1) by (nonlinear_arith)
        requires
            b >= h,
            h > 0,
    ;
}

proof fn sample_bounds(p: ImageModel, w: int, h: int, x: int, y: int)
    requires
        p.fits(),
        p.width > 0,
        p.height > 0,
        0 < w <= MAX_SIDE,
        0 < h <= MAX_SIDE,
        0 <= x < w,
        0 <= y < h,
    ensures
        ({
            let s = step(p, w, h);
            &&& 0 <= s * x <= s * w
            &&& 0 <= s * y <= s * h
            &&& 0 <= origin(p.width, s, w) + s * x <= p.width * ONE
            &&& 0 <= origin(p.height, s, h) + s * y <= p.height * ONE
            &&& s * w <= p.width * ONE
            &&& s * h <= p.height * ONE
        }),
{
    pictures_are_cropped_in_the_middle(p, w, h);
    let s = step(p, w, h);
    assert(0 <= s * x <= s * w) by (nonlinear_arith)
        requires
            s >= 1,
            0 <= x < w,
    ;
    assert(0 <= s * y <= s * h) by (nonlinear_arith)
        requires
            s >= 1,
            0 <= y < h,
    ;
}

/// Where the screen lies on a picture, in fixed point.
struct Fit {
    step: u64,
    ox: u64,
    oy: u64,
}

fn fit(p: &Image, w: usize, h: usize) -> (r: Fit)
    requires
        p@.fits(),
        p@.usable(),
        0 < w <= MAX_SIDE,
        0 < h <= MAX_SIDE,
    ensures
        r.step == step(p@, w as int, h as int),
        r.ox == origin(p@.width, r.step as int, w as int),
        r.oy == origin(p@.height, r.step as int, h as int),
{
    let a: u64 = p.width as u64 * ONE;
    let b: u64 = p.height as u64 * ONE;
    let sx: u64 = a / w as u64;
    let sy: u64 = b / h as u64;
    let step: u64 = if sx < sy { sx } else { sy };
    proof {
        sample_bounds(p@, w as int, h as int, 0, 0);
    }
    let ox: u64 = (a - step * w as u64) / 2;
    let oy: u64 = (b - step * h as u64) / 2;
    Fit { step, ox, oy }
}

fn picture_pixel(
    p: &Image,
    at: &Fit,
    w: usize,
    h: usize,
    dark: bool,
    x: usize,
    y: usize,
    max_d: u32,
) -> (r: Color)
    requires
        p@.fits(),
        p@.usable(),
        0 < w <= MAX_SIDE,
        0 < h <= MAX_SIDE,
        x < w,
        y < h,
        at.step == step(p@, w as int, h as int),
        at.ox == origin(p@.width, at.step as int, w as int),
        at.oy == origin(p@.height, at.step as int, h as int),
        max_d == reach(w as int, h as int),
        max_d >= 1,
    ensures
        r == pictured(p@, w as int, h as int, dark, x as int, y as int),
{
    proof {
        sample_bounds(p@, w as int, h as int, x as int, y as int);
    }
    let c = sample(p, at.ox + at.step * x as u64, at.oy + at.step * y as u64);
    let c = if dark { darken(c, 30) } else { c };
    shade(c, out_of(w, h, x, y, max_d), 55, 2)
}

fn is_usable(p: &Image) -> (r: bool)
    requires
        p@.fits(),
    ensures
        r == p@.usable(),
{
    assert(p.width * p.height <= 0xffff_ffff * 0xffff_ffff) by (nonlinear_arith)
        requires
            0 <= p.width <= 0xffff_ffff,
            0 <= p.height <= 0xffff_ffff,
    ;
    p.width > 0 && p.height > 0 && p.pixels.len() as u64 >= p.width as u64 * p.height as u64
}

fn black_screen(w: usize, h: usize) -> (r: Vec<Color>)
    requires
        w <= MAX_SIDE,
        h <= MAX_SIDE,
    ensures
        r@ == screen(w as int, h as int, |x: int, y: int| BLACK),
{
    assert(0 <= w * h <= 32_767 * 32_767) by (nonlinear_arith)
        requires
            0 <= w <= 32_767,
            0 <= h <= 32_767,
    ;
    let n: usize = w * h;
    let mut px: Vec<Color> = Vec::new();
    let mut i: usize = 0;
    while i < n
        invariant
            i <= n,
            px@.len() == i,
            forall|j: int| 0 <= j < i ==> #[trigger] px@[j] == BLACK,
        decreases n - i,
    {
        px.push(BLACK);
        i = i + 1;
    }
    assert(px@ =~= screen(w as int, h as int, |x: int, y: int| BLACK));
    px
}

/// Fit a picture to the screen: scale it until it covers the whole area, and
/// crop what hangs over the edges.
pub fn from_picture(p: &Image, w: usize, h: usize, dark: bool) -> (r: Vec<Color>)
    requires
        p@.fits(),
        0 < w <= MAX_SIDE,
        0 < h <= MAX_SIDE,
    ensures
        r@ == picture_screen(p@, w as int, h as int, dark),
{
    if !is_usable(p) {
        return black_screen(w, h);
    }
    let ghost f = |x: int, y: int| pictured(p@, w as int, h as int, dark, x, y);
    let max_d: u32 = reach_of(w, h);
    let at = fit(p, w, h);
    let mut px: Vec<Color> = Vec::new();
    let mut y: usize = 0;
    assert(px@ =~= begun(w as int, 0, f));
    while y < h
        invariant
            y <= h,
            p@.fits(),
            p@.usable(),
            0 < w <= MAX_SIDE,
            0 < h <= MAX_SIDE,
            at.step == step(p@, w as int, h as int),
            at.ox == origin(p@.width, at.step as int, w as int),
            at.oy == origin(p@.height, at.step as int, h as int),
            max_d == reach(w as int, h as int),
            max_d >= 1,
            f == (|x: int, y: int| pictured(p@, w as int, h as int, dark, x, y)),
            px@ == begun(w as int, y * w, f),
        decreases h - y,
    {
        let mut x: usize = 0;
        while x < w
            invariant
                x <= w,
                y < h,
                p@.fits(),
                p@.usable(),
                0 < w <= MAX_SIDE,
                0 < h <= MAX_SIDE,
                at.step == step(p@, w as int, h as int),
                at.ox == origin(p@.width, at.step as int, w as int),
                at.oy == origin(p@.height, at.step as int, h as int),
                max_d == reach(w as int, h as int),
                max_d >= 1,
                f == (|x: int, y: int| pictured(p@, w as int, h as int, dark, x, y)),
                px@ == begun(w as int, y * w + x, f),
            decreases w - x,
        {
            let c = picture_pixel(p, &at, w, h, dark, x, y, max_d);
            proof {
                assert(c == f(x as int, y as int));
                begun_grows(w as int, x as int, y as int, f);
            }
            px.push(c);
            x = x + 1;
        }
        assert((y + 1) * w == y * w + w) by (nonlinear_arith);
        y = y + 1;
    }
    proof {
        begun_ends(w as int, h as int, f);
    }
    px
}

// ── The wallpaper ───────────────────────────────────────────────────────────

/// A screen that has been produced.
pub struct Cached {
    pub w: usize,
    pub h: usize,
    pub dark: bool,
    pub pixels: Vec<Color>,
}

pub ghost struct CachedModel {
    pub w: int,
    pub h: int,
    pub dark: bool,
    pub pixels: Seq<Color>,
}

/// The wallpaper: the picture that the user picked and where it came from, and
/// the last screen produced, if it is still current.
pub struct Wallpaper {
    pub cache: Option<Cached>,
    pub picture: Option<(String, Image)>,
}

pub ghost struct WallpaperModel {
    pub cache: Option<CachedModel>,
    pub picture: Option<(Seq<char>, ImageModel)>,
}

impl View for Wallpaper {
    type V = WallpaperModel;

    open spec fn view(&self) -> WallpaperModel {
        WallpaperModel {
            cache: match self.cache {
                Some(c) => Some(
                    CachedModel { w: c.w as int, h: c.h as int, dark: c.dark, pixels: c.pixels@ },
                ),
                None => None,
            },
            picture: match self.picture {
                Some((path, p)) => Some((path@, p@)),
                None => None,
            },
        }
    }
}

impl WallpaperModel {
    /// What is to be seen on a screen.
    pub open spec fn shown(self, w: int, h: int, dark: bool) -> Seq<Color> {
        match self.picture {
            Some((_, p)) => picture_screen(p, w, h, dark),
            None => scene(w, h, dark),
        }
    }

    /// What is kept is what would be produced: never another picture, or a
    /// picture that has been cleared.
    pub open spec fn wf(self) -> bool {
        &&& self.picture matches Some((_, p)) ==> p.fits()
        &&& self.cache matches Some(c) ==> c.pixels == self.shown(c.w, c.h, c.dark)
    }
}

impl Wallpaper {
    pub fn new() -> (r: Self)
        ensures
            r@ == (WallpaperModel { cache: None, picture: None }),
            r@.wf(),
    {
        Wallpaper { cache: None, picture: None }
    }
}

/// Drop the cached screen, so that the next paint produces it again.
pub fn invalidate(wall: &mut Wallpaper)
    requires
        old(wall)@.wf(),
    ensures
        final(wall)@ == (WallpaperModel { cache: None, ..old(wall)@ }),
        final(wall)@.wf(),
{
    wall.cache = None;
}

/// Use a picture as the wallpaper, remembering where it came from.
pub fn set_picture(wall: &mut Wallpaper, path: &str, image: Image)
    requires
        image@.fits(),
    ensures
        final(wall)@ == (WallpaperModel { cache: None, picture: Some((path@, image@)) }),
        final(wall)@.wf(),
{
    wall.picture = Some((path.to_owned(), image));
    wall.cache = None;
}

/// Go back to the generated scene.
pub fn clear_picture(wall: &mut Wallpaper)
    ensures
        final(wall)@ == (WallpaperModel { cache: None, picture: None }),
        final(wall)@.wf(),
{
    wall.picture = None;
    wall.cache = None;
}

pub open spec fn path_of(w: WallpaperModel) -> Option<Seq<char>> {
    match w.picture {
        Some((path, _)) => Some(path),
        None => None,
    }
}

/// Where the current wallpaper came from, if it is a picture.
pub fn picture_path(wall: &Wallpaper) -> (r: Option<String>)
    ensures
        match r {
            Some(s) => path_of(wall@) == Some(s@),
            None => path_of(wall@) is None,
        },
{
    match &wall.picture {
        Some((path, _)) => Some(path.as_str().to_owned()),
        None => None,
    }
}

/// Produce the screen, if it is not there already. Afterwards the cache holds
/// what is to be drawn, unless the screen is empty: that is what is returned.
pub fn paint(wall: &mut Wallpaper, w: usize, h: usize, dark: bool) -> (r: bool)
    requires
        old(wall)@.wf(),
        w <= MAX_SIDE,
        h <= MAX_SIDE,
    ensures
        r == (w > 0 && h > 0),
        !r ==> final(wall)@ == old(wall)@,
        r ==> final(wall)@ == (WallpaperModel {
            cache: Some(
                CachedModel {
                    w: w as int,
                    h: h as int,
                    dark,
                    pixels: old(wall)@.shown(w as int, h as int, dark),
                },
            ),
            ..old(wall)@
        }),
        final(wall)@.wf(),
{
    if w == 0 || h == 0 {
        return false;
    }
    let stale = match &wall.cache {
        Some(c) => c.w != w || c.h != h || c.dark != dark,
        None => true,
    };
    if stale {
        let pixels = match &wall.picture {
            Some((_, p)) => from_picture(p, w, h, dark),
            None => generate_scene(w, h, dark),
        };
        wall.cache = Some(Cached { w, h, dark, pixels });
    }
    true
}

// ── Self-test ───────────────────────────────────────────────────────────────

/// A picture of one colour.
pub open spec fn solid(w: int, h: int, c: Color) -> ImageModel {
    ImageModel { width: w, height: h, pixels: Seq::new((w * h) as nat, |i: int| c) }
}

fn solid_image(w: usize, h: usize, c: Color) -> (r: Image)
    requires
        w <= 100,
        h <= 100,
    ensures
        r@ == solid(w as int, h as int, c),
{
    assert(0 <= w * h <= 10_000) by (nonlinear_arith)
        requires
            0 <= w <= 100,
            0 <= h <= 100,
    ;
    let n: usize = w * h;
    let mut pixels: Vec<Color> = Vec::new();
    let mut i: usize = 0;
    while i < n
        invariant
            i <= n,
            pixels@ == Seq::new(i as nat, |j: int| c),
        decreases n - i,
    {
        pixels.push(c);
        i = i + 1;
        assert(pixels@ =~= Seq::new(i as nat, |j: int| c));
    }
    Image { width: w, height: h, pixels }
}

/// A picture of one colour is shown in that colour, but for the corners.
pub proof fn flat_pictures_stay_flat(
    iw: int,
    ih: int,
    c: Color,
    w: int,
    h: int,
    dark: bool,
    x: int,
    y: int,
)
    requires
        0 < iw <= MAX_PICTURE,
        0 < ih <= MAX_PICTURE,
        c <= 0xFFFFFF,
        0 < w <= MAX_SIDE,
        0 < h <= MAX_SIDE,
        0 <= x < w,
        0 <= y < h,
    ensures
        pictured(solid(iw, ih, c), w, h, dark, x, y) == shaded(
            if dark {
                color::darker(c, 30)
            } else {
                c
            },
            outness(w, h, x, y),
            55,
            2,
        ),
{
    let p = solid(iw, ih, c);
    let s = step(p, w, h);
    let sx = origin(iw, s, w) + s * x;
    let sy = origin(ih, s, h) + s * y;
    sample_bounds(p, w, h, x, y);
    let x0 = smaller(sx / ONE as int, iw - 1);
    let y0 = smaller(sy / ONE as int, ih - 1);
    let x1 = smaller(sx / ONE as int + 1, iw - 1);
    let y1 = smaller(sy / ONE as int + 1, ih - 1);
    flat(iw, ih, c, x0, y0);
    flat(iw, ih, c, x1, y0);
    flat(iw, ih, c, x0, y1);
    flat(iw, ih, c, x1, y1);
    color::blending_alike_changes_nothing(c, sx % ONE as int / 256);
    color::blending_alike_changes_nothing(c, sy % ONE as int / 256);
}

proof fn flat(w: int, h: int, c: Color, x: int, y: int)
    requires
        0 <= x < w,
        0 <= y < h,
    ensures
        solid(w, h, c).at(x, y) == c,
{
    assert(0 <= y * w + x < w * h) by (nonlinear_arith)
        requires
            0 <= x < w,
            0 <= y < h,
    ;
}

/// The colour that the checks use.
pub const TRIAL: Color = 0x3366CC;

pub open spec fn picture_checks(r: ReportModel) -> ReportModel {
    r.checked("a picture fills the screen buffer"@, true).checked(
        "a flat picture keeps its colour"@,
        true,
    ).checked("the corners are darkened"@, true).checked("dark mode dims the picture"@, true)
}

proof fn darkened_trial()
    ensures
        color::darker(TRIAL, 22) == color::from_channels(39, 79, 159),
        color::darker(TRIAL, 30) == color::from_channels(35, 71, 142),
{
    reveal(color::darker);
    assert(color::channel(TRIAL, 2) == 51);
    assert(color::channel(TRIAL, 1) == 102);
    assert(color::channel(TRIAL, 0) == 204);
    assert(color::percent(22) == 22 && color::percent(30) == 30);
    assert(51int * 78 / 100 == 39 && 102int * 78 / 100 == 79 && 204int * 78 / 100 == 159);
    assert(51int * 70 / 100 == 35 && 102int * 70 / 100 == 71 && 204int * 70 / 100 == 142);
}

/// What the trial picture looks like in the middle and in a corner.
#[verifier::spinoff_prover]
proof fn trial_colors()
    ensures
        pictured(solid(4, 4, TRIAL), 64, 32, false, 32, 16) == TRIAL,
        pictured(solid(4, 4, TRIAL), 64, 32, false, 0, 0) < TRIAL,
        pictured(solid(4, 4, TRIAL), 64, 32, true, 32, 16) < TRIAL,
{
    flat_pictures_stay_flat(4, 4, TRIAL, 64, 32, false, 32, 16);
    flat_pictures_stay_flat(4, 4, TRIAL, 64, 32, false, 0, 0);
    flat_pictures_stay_flat(4, 4, TRIAL, 64, 32, true, 32, 16);
    assert(squared(32) == 1_024 && squared(16) == 256 && squared(0) == 0 && squared(-32) == 1_024
        && squared(-16) == 256) by (nonlinear_arith);
    assert(is_root(0, 0));
    roots_are_unique(0, 0, root(0));
    assert(is_root(1_280, 35)) by (nonlinear_arith);
    roots_are_unique(1_280, 35, root(1_280));
    assert(outness(64, 32, 32, 16) == 0);
    assert(distance(0, 0, 32, 16) == root(1_280));
    assert(reach(64, 32) == 35);
    assert(35int * 100 / 35 == 100);
    assert(outness(64, 32, 0, 0) == 100);
    darkened_trial();
}

/// A screen of 64 by 32, and the pixels of it that are looked at.
proof fn trial_screen(p: ImageModel, dark: bool)
    requires
        p.usable(),
    ensures
        ({
            let s = picture_screen(p, 64, 32, dark);
            &&& s.len() == 2_048
            &&& s[1_056] == pictured(p, 64, 32, dark, 32, 16)
            &&& s[0] == pictured(p, 64, 32, dark, 0, 0)
        }),
{
    let f = |x: int, y: int| pictured(p, 64, 32, dark, x, y);
    pixels_are_in_place(64, 32, f, 32, 16);
    pixels_are_in_place(64, 32, f, 0, 0);
}

fn check_pictures(r: &mut Report)
    requires
        old(r)@.wf(),
        old(r)@.passed + old(r)@.failed < 100,
    ensures
        final(r)@ == picture_checks(old(r)@),
        final(r)@.wf(),
        final(r)@.passed + final(r)@.failed == old(r)@.passed + old(r)@.failed + 4,
{
    let trial = solid_image(4, 4, TRIAL);
    let out = from_picture(&trial, 64, 32, false);
    proof {
        trial_screen(trial@, false);
        trial_screen(trial@, true);
        trial_colors();
    }
    r.check("a picture fills the screen buffer", out.len() == 64 * 32);
    r.check("a flat picture keeps its colour", out[16 * 64 + 32] == TRIAL);
    r.check("the corners are darkened", out[0] < TRIAL);
    let dark = from_picture(&trial, 64, 32, true);
    r.check("dark mode dims the picture", dark[16 * 64 + 32] < out[16 * 64 + 32]);
}

/// Pictures of odd shapes, and pictures that are none.
pub open spec fn shape_checks(r: ReportModel) -> ReportModel {
    r.checked("odd aspect ratios still fill"@, true).checked(
        "odd aspect ratios still fill"@,
        true,
    ).checked("odd aspect ratios still fill"@, true).checked("odd aspect ratios still fill"@, true)
        .checked("an empty picture does not panic"@, true).checked(
        "a picture shorter than its dimensions is refused"@,
        true,
    )
}

fn fills(iw: usize, ih: usize, w: usize, h: usize) -> (r: bool)
    requires
        iw <= 100,
        ih <= 100,
        0 < w <= 100,
        0 < h <= 100,
    ensures
        r,
{
    assert(0 <= w * h <= 10_000) by (nonlinear_arith)
        requires
            0 <= w <= 100,
            0 <= h <= 100,
    ;
    let px = from_picture(&solid_image(iw, ih, WHITE), w, h, false);
    px.len() == w * h
}

fn all_black(px: &Vec<Color>) -> (r: bool)
    ensures
        r == (forall|i: int| 0 <= i < px@.len() ==> #[trigger] px@[i] == BLACK),
{
    let mut i: usize = 0;
    while i < px.len()
        invariant
            i <= px@.len(),
            forall|j: int| 0 <= j < i ==> #[trigger] px@[j] == BLACK,
        decreases px@.len() - i,
    {
        if px[i] != BLACK {
            return false;
        }
        i = i + 1;
    }
    true
}

fn check_shapes(r: &mut Report)
    requires
        old(r)@.wf(),
        old(r)@.passed + old(r)@.failed < 100,
    ensures
        final(r)@ == shape_checks(old(r)@),
        final(r)@.wf(),
        final(r)@.passed + final(r)@.failed == old(r)@.passed + old(r)@.failed + 6,
{
    r.check("odd aspect ratios still fill", fills(1, 1, 8, 8));
    r.check("odd aspect ratios still fill", fills(100, 1, 16, 16));
    r.check("odd aspect ratios still fill", fills(1, 100, 16, 16));
    r.check("odd aspect ratios still fill", fills(3, 7, 40, 9));
    let empty = Image { width: 0, height: 0, pixels: Vec::new() };
    let px = from_picture(&empty, 8, 8, false);
    r.check("an empty picture does not panic", px.len() == 64);
    let mut few: Vec<Color> = Vec::new();
    few.push(WHITE);
    few.push(WHITE);
    few.push(WHITE);
    let lying = Image { width: 8, height: 8, pixels: few };
    let px = from_picture(&lying, 8, 8, false);
    r.check("a picture shorter than its dimensions is refused", all_black(&px));
}

/// A picture that gets lighter from left to right.
pub open spec fn ramp() -> ImageModel {
    ImageModel {
        width: 16,
        height: 16,
        pixels: Seq::new(256, |i: int| color::grey(i % 16 * 17)),
    }
}

fn ramp_image() -> (r: Image)
    ensures
        r@ == ramp(),
{
    let mut pixels: Vec<Color> = Vec::new();
    let mut i: usize = 0;
    while i < 256
        invariant
            i <= 256,
            pixels@ == Seq::new(i as nat, |j: int| color::grey(j % 16 * 17)),
        decreases 256 - i,
    {
        pixels.push(color::gray((i % 16 * 17) as u8));
        i = i + 1;
        assert(pixels@ =~= Seq::new(i as nat, |j: int| color::grey(j % 16 * 17)));
    }
    Image { width: 16, height: 16, pixels }
}

pub open spec fn crop_checks(r: ReportModel) -> ReportModel {
    let left = color::channel(pictured(ramp(), 8, 16, false, 0, 8), 2);
    let right = color::channel(pictured(ramp(), 8, 16, false, 7, 8), 2);
    r.checked("the crop is centred"@, -24 <= left - (255 - right) <= 24).checked(
        "the crop keeps the gradient"@,
        right > left,
    )
}

proof fn root_is(n: int, r: int)
    requires
        is_root(n, r),
    ensures
        root(n) == r,
{
    roots_are_unique(n, r, root(n));
}

#[verifier::spinoff_prover]
proof fn ramp_pixel(x: int)
    requires
        x == 0 || x == 7,
    ensures
        pictured(ramp(), 8, 16, false, x, 8) == color::grey((x + 4) * 17),
{
    let p = ramp();
    let c = color::grey((x + 4) * 17);
    assert(step(p, 8, 16) == ONE);
    assert(p.at(x + 4, 8) == c && p.at(x + 4, 9) == c);
    color::blending_by_nothing_changes_nothing(c, p.at(x + 5, 8));
    color::blending_by_nothing_changes_nothing(c, p.at(x + 5, 9));
    color::blending_by_nothing_changes_nothing(c, c);
    assert(sampled(p, (x + 4) * ONE, 8 * ONE) == c);
    assert(squared(4) == 16 && squared(8) == 64 && squared(-4) == 16 && squared(3) == 9 && squared(
        0,
    ) == 0) by (nonlinear_arith);
    root_is(80, 8);
    root_is(16, 4);
    root_is(9, 3);
    assert(reach(8, 16) == 8);
    assert(distance(x, 8, 4, 8) == if x == 0 { 4int } else { 3 });
    assert(outness(8, 16, x, 8) <= 50);
    let s = step(p, 8, 16);
    assert(origin(p.width as int, s, 8) + s * x == (x + 4) * ONE);
    assert(origin(p.height as int, s, 16) + s * 8 == 8 * ONE);
}

/// Both checks of the crop pass: the first and the last column on screen are
/// as far from the picture's edges, and the picture still gets lighter.
#[verifier::spinoff_prover]
pub proof fn the_crop_passes_its_checks(r: ReportModel)
    ensures
        crop_checks(r) == r.checked("the crop is centred"@, true).checked(
            "the crop keeps the gradient"@,
            true,
        ),
{
    ramp_pixel(0);
    ramp_pixel(7);
    assert(color::channel(color::grey(68), 2) == 68);
    assert(color::channel(color::grey(187), 2) == 187);
}

fn check_crop(r: &mut Report)
    requires
        old(r)@.wf(),
        old(r)@.passed + old(r)@.failed < 100,
    ensures
        final(r)@ == crop_checks(old(r)@),
        final(r)@.wf(),
        final(r)@.passed + final(r)@.failed == old(r)@.passed + old(r)@.failed + 2,
{
    let cropped = from_picture(&ramp_image(), 8, 16, false);
    proof {
        let f = |x: int, y: int| pictured(ramp(), 8, 16, false, x, y);
        pixels_are_in_place(8, 16, f, 0, 8);
        pixels_are_in_place(8, 16, f, 7, 8);
    }
    let left: i32 = color::red(cropped[64]) as i32;
    let right: i32 = color::red(cropped[71]) as i32;
    let off: i32 = left - (255 - right);
    r.check("the crop is centred", -24 <= off && off <= 24);
    r.check("the crop keeps the gradient", right > left);
}

pub open spec fn scene_checks(r: ReportModel) -> ReportModel {
    r.checked("the generated scene fills the screen"@, true).checked(
        "night is darker than dusk"@,
        color::brightness(night(80, 60, 40, 5)) <= color::brightness(cyber(80, 60, 40, 5)),
    )
}

/// Noise stays between 0 and 255.
#[verifier::spinoff_prover]
proof fn noise_is_bounded(x: int, period: int, seed: u32)
    requires
        0 <= x,
        1 <= period,
    ensures
        0 <= noise_at(x, period, seed) <= 255,
{
    let i = x / period;
    let f = x % period;
    let t = f * 256 / period;
    let u = hashed((i as u32).wrapping_add(seed));
    let v = hashed(((i + 1) as u32).wrapping_add(seed));
    assert(u >> 24 <= 255 && v >> 24 <= 255) by (bit_vector);
    assert(0 <= f < period) by (nonlinear_arith)
        requires
            f == x % period,
            1 <= period,
    ;
    assert(0 <= t <= 255) by (nonlinear_arith)
        requires
            t == f * 256 / period,
            0 <= f < period,
    ;
    smooth_bound(t);
    assert(t * t * (768 - 2 * t) >= 0) by (nonlinear_arith)
        requires
            0 <= t <= 255,
    ;
    let s = smooth(t);
    let a = hash_byte((i as u32).wrapping_add(seed));
    let b = hash_byte(((i + 1) as u32).wrapping_add(seed));
    let d = if b >= a {
        b - a
    } else {
        a - b
    };
    assert(0 <= d * s <= d * 256) by (nonlinear_arith)
        requires
            0 <= d,
            0 <= s <= 256,
    ;
}

#[verifier::spinoff_prover]
proof fn fractals_are_bounded(x: int, period: int, seed: u32)
    requires
        0 <= x,
        1 <= period,
    ensures
        0 <= fractal(x, period, seed) <= 255,
{
    let a = noise_at(x, period, seed);
    let b = noise_at(x, half(period), next_seed(seed));
    let c = noise_at(x, half(half(period)), next_seed(next_seed(seed)));
    assert(0 <= a <= 255) by {
        noise_is_bounded(x, period, seed);
    }
    assert(0 <= b <= 255) by {
        noise_is_bounded(x, half(period), next_seed(seed));
    }
    assert(0 <= c <= 255) by {
        noise_is_bounded(x, half(half(period)), next_seed(next_seed(seed)));
    }
    reveal(fractal);
    assert(fractal(x, period, seed) == a * 128 / 255 + b * 64 / 255 + c * 32 / 255);
}

/// The hills of a small screen begin far below its top.
#[verifier::spinoff_prover]
proof fn hills_are_low(c: Color, k: int)
    requires
        0 <= k < 3,
    ensures
        hilly(c, k, 60, 40, 5) == c,
{
    let s = hill(k);
    let n = fractal(40, s.period as int, s.seed);
    assert(0 <= n <= 255) by {
        fractals_are_bounded(40, s.period as int, s.seed);
    }
    let amp = 60 * s.amp / 100;
    assert(0 <= amp <= 7);
    assert(n * amp <= 255 * 7) by (nonlinear_arith)
        requires
            0 <= n <= 255,
            0 <= amp <= 7,
    ;
    assert(n * amp / 255 <= 7);
    assert(crest(k, 60, 40) > 5);
}

/// The two hashes that the point looked at depends on.
#[verifier::spinoff_prover]
proof fn two_hashes()
    ensures
        hashed(3_015) & 0x7ff == 1_225,
        hashed(1) & 0xff == 192,
{
    assert(3_015u32 ^ (3_015u32 >> 16) == 3_015u32) by (bit_vector);
    assert(3_015u32.wrapping_mul(0x7feb_352d) == 2_334_082_299u32);
    assert(2_334_082_299u32 ^ (2_334_082_299u32 >> 15) == 2_334_020_293u32) by (bit_vector);
    assert(2_334_020_293u32.wrapping_mul(0x846c_a68b) == 2_990_452_471u32);
    assert((2_990_452_471u32 ^ (2_990_452_471u32 >> 16)) & 0x7ff == 1_225u32) by (bit_vector);
    assert(1u32 ^ (1u32 >> 16) == 1u32) by (bit_vector);
    assert(1u32.wrapping_mul(0x7feb_352d) == 2_146_121_005u32);
    assert(2_146_121_005u32 ^ (2_146_121_005u32 >> 15) == 2_146_159_355u32) by (bit_vector);
    assert(2_146_159_355u32.wrapping_mul(0x846c_a68b) == 1_753_872_457u32);
    assert((1_753_872_457u32 ^ (1_753_872_457u32 >> 16)) & 0xff == 192u32) by (bit_vector);
}

/// How far out the point is that the check looks at.
#[verifier::spinoff_prover]
proof fn the_point_is_half_way_out()
    ensures
        outness(80, 60, 40, 5) == 50,
{
    assert(squared(0) == 0 && squared(-25) == 625 && squared(40) == 1_600 && squared(30) == 900)
        by (nonlinear_arith);
    root_is(625, 25);
    root_is(2_500, 50);
    assert(reach(80, 60) == 50);
    assert(distance(40, 5, 40, 30) == 25);
}

#[verifier::spinoff_prover]
proof fn dusk_there()
    ensures
        color::brightness(cyber(80, 60, 40, 5)) == 17,
{
    the_point_is_half_way_out();
    two_hashes();
    assert(squared(23) == 529 && squared(-11) == 121 && squared(-16) == 256 && squared(-8) == 64
        && squared(2) == 4 && squared(-28) == 784 && squared(-24) == 576 && squared(-37) == 1_369
        && squared(20) == 400 && squared(15) == 225 && squared(12) == 144) by (nonlinear_arith);
    let c = dusk_row(60, 5);
    assert(c == 0x0d1029) by {
        reveal(color::blend);
    }
    assert(lit(c, orb(0, 80, 60), 40, 5) == c);
    assert(lit(c, orb(1, 80, 60), 40, 5) == c);
    assert(lit(c, orb(2, 80, 60), 40, 5) == c);
    assert(lit(c, orb(3, 80, 60), 40, 5) == c);
    assert(40u32.wrapping_mul(73).wrapping_add(95) == 3_015u32);
    assert(!twinkles(40, 5));
    assert(cyber(80, 60, 40, 5) == c);
}

#[verifier::spinoff_prover]
proof fn no_star_there()
    ensures
        star_at(40, 5, 37) is None,
{
    two_hashes();
    assert(0u32.wrapping_mul(1021).wrapping_add(1) == 1u32);
}

#[verifier::spinoff_prover]
proof fn sky_behind()
    ensures
        graded_from(night_sky(), 34, 0) == 0x03060d,
{
    let s = night_sky();
    assert(s.len() == 5 && s[0].at == 0 && s[1].at == 90);
    assert(s[0].color == 0x02030a && s[1].color == 0x060b14);
    assert(graded_from(s, 34, 0) == graded_from(s, 34, 1));
    let t: int = 34;
    assert(t * 255 / 90 == 96);
    assert(graded_from(s, 34, 1) == color::blend(
        s[0].color,
        s[1].color,
        (34 - s[0].at) * 255 / (s[1].at - s[0].at),
    ));
    assert((34 - s[0].at) * 255 / (s[1].at - s[0].at) == 96);
    assert(color::blend(0x02030a, 0x060b14, 96) == 0x03060d) by {
        reveal(color::blend);
    }
}

#[verifier::spinoff_prover]
proof fn moonlight_there()
    ensures
        moonlit(0x03060d, 80, 60, 40, 5) == 0x03060d,
{
    assert(squared(-22) == 484 && squared(-7) == 49 && squared(6) == 36 && squared(18) == 324)
        by (nonlinear_arith);
    assert(distance2(40, 5, 62, 12) == 533);
}

#[verifier::spinoff_prover]
proof fn sky_there()
    ensures
        sky(80, 60, 40, 5) == 0x03060d,
{
    sky_behind();
    no_star_there();
    moonlight_there();
    assert(horizon_of(60) == 37);
    assert(sky_place(60, 5) == 34);
}

#[verifier::spinoff_prover]
proof fn night_there()
    ensures
        color::brightness(night(80, 60, 40, 5)) == 5,
{
    let c: Color = 0x03060d;
    sky_there();
    the_point_is_half_way_out();
    hills_are_low(c, 0);
    hills_are_low(c, 1);
    hills_are_low(c, 2);
    assert(night(80, 60, 40, 5) == c);
}

/// At the point that the check looks at, night is no brighter than dusk: both
/// checks of the scenes pass.
#[verifier::spinoff_prover]
pub proof fn night_is_darker_than_dusk(r: ReportModel)
    ensures
        color::brightness(night(80, 60, 40, 5)) <= color::brightness(cyber(80, 60, 40, 5)),
        scene_checks(r) == r.checked("the generated scene fills the screen"@, true).checked(
            "night is darker than dusk"@,
            true,
        ),
{
    dusk_there();
    night_there();
}

fn check_scene(r: &mut Report)
    requires
        old(r)@.wf(),
        old(r)@.passed + old(r)@.failed < 100,
    ensures
        final(r)@ == scene_checks(old(r)@),
        final(r)@.wf(),
        final(r)@.passed + final(r)@.failed == old(r)@.passed + old(r)@.failed + 2,
{
    let dusk = generate_scene(80, 60, false);
    let dark = generate_scene(80, 60, true);
    proof {
        pixels_are_in_place(80, 60, |x: int, y: int| cyber(80, 60, x, y), 40, 5);
        pixels_are_in_place(80, 60, |x: int, y: int| night(80, 60, x, y), 40, 5);
    }
    r.check("the generated scene fills the screen", dusk.len() == 80 * 60);
    r.check(
        "night is darker than dusk",
        color::luma(dark[5 * 80 + 40]) <= color::luma(dusk[5 * 80 + 40]),
    );
}

pub open spec fn choice_checks(r: ReportModel) -> ReportModel {
    r.checked("clearing leaves no picture"@, true).checked(
        "the chosen picture is remembered"@,
        true,
    ).checked("choosing a picture drops the cache"@, true).checked(
        "clearing goes back to the scene"@,
        true,
    )
}

fn check_choice(r: &mut Report)
    requires
        old(r)@.wf(),
        old(r)@.passed + old(r)@.failed < 100,
    ensures
        final(r)@ == choice_checks(old(r)@),
        final(r)@.wf(),
{
    let mut wall = Wallpaper::new();
    clear_picture(&mut wall);
    r.check("clearing leaves no picture", picture_path(&wall).is_none());
    set_picture(&mut wall, "/disk/test.png", solid_image(2, 2, WHITE));
    let same = match picture_path(&wall) {
        Some(path) => text::same(path.as_str(), "/disk/test.png"),
        None => false,
    };
    r.check("the chosen picture is remembered", same);
    r.check("choosing a picture drops the cache", wall.cache.is_none());
    clear_picture(&mut wall);
    r.check("clearing goes back to the scene", picture_path(&wall).is_none());
}

/// Check the wallpaper. The choice that is current is left alone; what was
/// produced for it is produced again.
pub fn selftest(wall: &mut Wallpaper) -> (r: Report)
    requires
        old(wall)@.wf(),
    ensures
        r@ == choice_checks(
            scene_checks(crop_checks(shape_checks(picture_checks(selftest::clean())))),
        ),
        r.passed == 18,
        r.failed == 0,
        r@.failures == Seq::<Seq<char>>::empty(),
        final(wall)@ == (WallpaperModel { cache: None, ..old(wall)@ }),
        final(wall)@.wf(),
{
    let mut r = Report::new();
    check_pictures(&mut r);
    check_shapes(&mut r);
    check_crop(&mut r);
    check_scene(&mut r);
    check_choice(&mut r);
    invalidate(wall);
    proof {
        reveal(ReportModel::checked);
        let shapes = shape_checks(picture_checks(selftest::clean()));
        the_crop_passes_its_checks(shapes);
        night_is_darker_than_dusk(crop_checks(shapes));
        assert(r@.failures =~= Seq::<Seq<char>>::empty());
    }
    r
}
/// A blend of all of one colour is that colour.
proof fn blends_have_ends(a: Color, b: Color)
    requires
        a <= 0xff_ffff,
        b <= 0xff_ffff,
    ensures
        color::blend(a, b, 0) == a,
        color::blend(a, b, 255) == b,
{
    color::blends_lie_between(a, b, 0, 0);
}

/// A picture is sampled where it has pixels as it is.
pub proof fn samples_meet_the_pixels(p: ImageModel, x: int, y: int)
    requires
        p.usable(),
        0 <= x < p.width,
        0 <= y < p.height,
        forall|i: int| 0 <= i < p.pixels.len() ==> #[trigger] p.pixels[i] <= 0xff_ffff,
    ensures
        sampled(p, x * 0x1_0000, y * 0x1_0000) == p.at(x, y),
{
    let x1 = smaller(x + 1, p.width - 1);
    let y1 = smaller(y + 1, p.height - 1);
    assert(x * 0x1_0000 / 0x1_0000 == x && x * 0x1_0000 % 0x1_0000 == 0);
    assert(y * 0x1_0000 / 0x1_0000 == y && y * 0x1_0000 % 0x1_0000 == 0);
    pixels_lie_inside(p, x, y);
    pixels_lie_inside(p, x1, y);
    pixels_lie_inside(p, x, y1);
    pixels_lie_inside(p, x1, y1);
    blends_have_ends(p.at(x, y), p.at(x1, y));
    blends_have_ends(p.at(x, y1), p.at(x1, y1));
    blends_have_ends(p.at(x, y), p.at(x, y1));
}

proof fn pixels_lie_inside(p: ImageModel, x: int, y: int)
    requires
        p.usable(),
        0 <= x < p.width,
        0 <= y < p.height,
    ensures
        0 <= y * p.width + x < p.pixels.len(),
{
    let w = p.width;
    let h = p.height;
    assert(0 <= y * w + x < w * h) by (nonlinear_arith)
        requires
            0 <= x < w,
            0 <= y < h,
    ;
}

/// A picture as large as the screen is shown pixel by pixel, but for the
/// corners and the dark, which shade it.
pub proof fn pictures_that_fit_are_shown_as_they_are(
    p: ImageModel,
    w: int,
    h: int,
    x: int,
    y: int,
)
    requires
        p.usable(),
        p.width == w,
        p.height == h,
        0 <= x < w,
        0 <= y < h,
        outness(w, h, x, y) <= 55,
        forall|i: int| 0 <= i < p.pixels.len() ==> #[trigger] p.pixels[i] <= 0xff_ffff,
    ensures
        picture_screen(p, w, h, false).len() == w * h,
        picture_screen(p, w, h, false)[y * w + x] == p.at(x, y),
        picture_screen(p, w, h, true)[y * w + x] == color::darker(p.at(x, y), 30),
{
    assert(w * 0x1_0000 / w == 0x1_0000) by (nonlinear_arith)
        requires
            w > 0,
    ;
    assert(h * 0x1_0000 / h == 0x1_0000) by (nonlinear_arith)
        requires
            h > 0,
    ;
    let s = step(p, w, h);
    assert(s == 0x1_0000);
    assert(w * 0x1_0000 - 0x1_0000 * w == 0) by (nonlinear_arith);
    assert(h * 0x1_0000 - 0x1_0000 * h == 0) by (nonlinear_arith);
    assert(origin(w, s, w) == 0 && origin(h, s, h) == 0);
    samples_meet_the_pixels(p, x, y);
    pixels_are_in_place(w, h, |a: int, b: int| pictured(p, w, h, false, a, b), x, y);
    pixels_are_in_place(w, h, |a: int, b: int| pictured(p, w, h, true, a, b), x, y);
}

/// A picture that lacks pixels leaves the screen black.
pub proof fn broken_pictures_are_black(p: ImageModel, w: int, h: int, dark: bool, x: int, y: int)
    requires
        !p.usable(),
        0 <= x < w,
        0 <= y < h,
    ensures
        picture_screen(p, w, h, dark)[y * w + x] == 0,
{
    pixels_are_in_place(w, h, |a: int, b: int| BLACK, x, y);
}

/// The noise passes through the numbers that it interpolates, and stays
/// between them.
pub proof fn noise_passes_through_its_points(i: int, period: int, seed: u32, x: int)
    requires
        0 <= i < 0xffff_ffff,
        period > 0,
        i * period <= x < (i + 1) * period,
    ensures
        ({
            let a = hash_byte((i as u32).wrapping_add(seed));
            let b = hash_byte(((i + 1) as u32).wrapping_add(seed));
            &&& noise_at(i * period, period, seed) == a
            &&& (a <= noise_at(x, period, seed) <= b || b <= noise_at(x, period, seed) <= a)
        }),
{
    let a = hash_byte((i as u32).wrapping_add(seed));
    let b = hash_byte(((i + 1) as u32).wrapping_add(seed));
    assert(i * period / period == i && i * period % period == 0) by (nonlinear_arith)
        requires
            period > 0,
    ;
    assert(0int * 256 / period == 0) by (nonlinear_arith)
        requires
            period > 0,
    ;
    assert(smooth(0) == 0) by {
        assert(0int * 0 * (768 - 2 * 0) == 0) by (nonlinear_arith);
    }
    let r = x % period;
    assert(x / period == i && 0 <= r < period) by (nonlinear_arith)
        requires
            period > 0,
            i * period <= x < (i + 1) * period,
            r == x % period,
    ;
    let t = r * 256 / period;
    assert(0 <= t <= 256) by (nonlinear_arith)
        requires
            period > 0,
            0 <= r < period,
            t == r * 256 / period,
    ;
    let s = smooth(t);
    assert(0 <= t * t * (768 - 2 * t) <= 256 * 65_536) by (nonlinear_arith)
        requires
            0 <= t <= 256,
    ;
    assert(0 <= s <= 256);
    let lo = if b >= a {
        b - a
    } else {
        a - b
    };
    assert(0 <= lo * s / 256 <= lo) by (nonlinear_arith)
        requires
            0 <= lo,
            0 <= s <= 256,
    ;
}

/// A gradient has the colour of a stop at that stop.
pub proof fn gradients_meet_their_stops(stops: Seq<Stop>, k: int, from: int)
    requires
        0 <= from <= k < stops.len(),
        forall|i: int, j: int| 0 <= i < j < stops.len() ==> stops[i].at < stops[j].at,
        forall|i: int| 0 <= i < stops.len() ==> (#[trigger] stops[i]).color <= 0xff_ffff,
    ensures
        graded_from(stops, stops[k].at, from) == stops[k].color,
    decreases k - from,
{
    let t = stops[k].at;
    if from < k {
        assert(stops[from].at < t);
        gradients_meet_their_stops(stops, k, from + 1);
    } else if k > 0 {
        let a = stops[k - 1];
        let d = stops[k].at - a.at;
        assert(a.at < stops[k].at);
        assert(d * 255 / d == 255) by (nonlinear_arith)
            requires
                d > 0,
        ;
        blends_have_ends(a.color, stops[k].color);
    }
}

/// The moon is a disc. Its light ends with the halo.
pub proof fn the_moon_is_a_disc(c: Color, w: int, h: int, x: int, y: int)
    requires
        w >= 0,
        h >= 0,
    ensures
        ({
            let dx = x - w * 78 / 100;
            let dy = y - h * 20 / 100;
            let r = moon_radius(h);
            &&& dx * dx + dy * dy <= r * r ==> moonlit(c, w, h, x, y) == 0xf4f7e8
            &&& dx * dx + dy * dy > r * r && dx * dx + dy * dy >= (h / 26 * 9) * (h / 26 * 9)
                ==> moonlit(c, w, h, x, y) == c
        }),
{
}

/// A hill covers everything from its crest down, nearer hills cover
/// those behind them, and above the crests there is only sky.
pub proof fn hills_cover_what_is_behind_them(w: int, h: int, x: int, y: int, other: Color, k: int)
    requires
        h > 0,
        0 <= k <= 2,
    ensures
        y >= crest(k, h, x) ==> hilly(other, k, h, x, y) == hilly(BLACK, k, h, x, y),
        y < crest(k, h, x) ==> hilly(other, k, h, x, y) == other,
        y == crest(k, h, x) ==> hilly(other, k, h, x, y) == color::lighter(
            color::darker(hill(k).color, 20),
            0,
        ),
        outness(w, h, x, y) <= 55 && y < crest(0, h, x) && y < crest(1, h, x) && y < crest(2, h, x)
            ==> night(w, h, x, y) == sky(w, h, x, y),
{
    assert(0int * 255 / h == 0) by (nonlinear_arith)
        requires
            h > 0,
    ;
}

/// A patch of light is a disc, and ends at its edge.
pub proof fn patches_of_light_are_discs(c: Color, o: Orb, x: int, y: int)
    requires
        c <= 0xff_ffff,
    ensures
        ({
            let dx = x - o.x;
            let dy = y - o.y;
            dx * dx + dy * dy >= o.r * o.r ==> lit(c, o, x, y) == c
        }),
{
}

} // verus!
