//! Colours as `0xRRGGBB` numbers.

use vstd::prelude::*;

verus! {

pub type Color = u32;

pub const BLACK: Color = 0x000000;

pub const WHITE: Color = 0xFFFFFF;

/// One of the three channels of a colour: 2 is red, 1 green, 0 blue.
pub open spec fn channel(c: Color, k: int) -> int {
    if k == 2 {
        c as int / 0x1_0000 % 0x100
    } else if k == 1 {
        c as int / 0x100 % 0x100
    } else {
        c as int % 0x100
    }
}

pub open spec fn from_channels(r: int, g: int, b: int) -> Color {
    (r * 0x1_0000 + g * 0x100 + b) as u32
}

/// The value `t` out of 255 of the way from `a` to `b`.
pub open spec fn between(a: int, b: int, t: int) -> int {
    if b >= a {
        a + (b - a) * t / 255
    } else {
        a - (a - b) * t / 255
    }
}

/// The colour `t` out of 255 of the way from `a` to `b`.
#[verifier::opaque]
pub open spec fn blend(a: Color, b: Color, t: int) -> Color {
    from_channels(
        between(channel(a, 2), channel(b, 2), t),
        between(channel(a, 1), channel(b, 1), t),
        between(channel(a, 0), channel(b, 0), t),
    )
}

pub open spec fn percent(p: int) -> int {
    if p > 100 {
        100
    } else {
        p
    }
}

/// `p` percent closer to black.
#[verifier::opaque]
pub open spec fn darker(c: Color, p: int) -> Color {
    let k = 100 - percent(p);
    from_channels(channel(c, 2) * k / 100, channel(c, 1) * k / 100, channel(c, 0) * k / 100)
}

/// `p` percent closer to white.
#[verifier::opaque]
pub open spec fn lighter(c: Color, p: int) -> Color {
    let k = percent(p);
    from_channels(
        channel(c, 2) + (255 - channel(c, 2)) * k / 100,
        channel(c, 1) + (255 - channel(c, 1)) * k / 100,
        channel(c, 0) + (255 - channel(c, 0)) * k / 100,
    )
}

pub fn red(c: Color) -> (r: u32)
    ensures
        r == channel(c, 2),
        r < 256,
{
    c / 0x1_0000 % 0x100
}

pub fn green(c: Color) -> (r: u32)
    ensures
        r == channel(c, 1),
        r < 256,
{
    c / 0x100 % 0x100
}

pub fn blue(c: Color) -> (r: u32)
    ensures
        r == channel(c, 0),
        r < 256,
{
    c % 0x100
}

fn pack(r: u32, g: u32, b: u32) -> (c: Color)
    requires
        r < 256,
        g < 256,
        b < 256,
    ensures
        c == from_channels(r as int, g as int, b as int),
{
    r * 0x1_0000 + g * 0x100 + b
}

fn mix(a: u32, b: u32, t: u8) -> (r: u32)
    requires
        a < 256,
        b < 256,
    ensures
        r == between(a as int, b as int, t as int),
        r < 256,
{
    let d: u32 = if b >= a { b - a } else { a - b };
    let t: u32 = t as u32;
    assert(0 <= d * t <= d * 255) by (nonlinear_arith)
        requires
            0 <= t <= 255,
            0 <= d,
    ;
    let step: u32 = d * t / 255;
    assert(step <= d);
    if b >= a {
        a + step
    } else {
        a - step
    }
}

/// The colour `t` out of 255 of the way from `a` to `b`.
pub fn lerp(a: Color, b: Color, t: u8) -> (c: Color)
    ensures
        c == blend(a, b, t as int),
{
    proof {
        reveal(blend);
    }
    pack(mix(red(a), red(b), t), mix(green(a), green(b), t), mix(blue(a), blue(b), t))
}

fn scaled(v: u32, k: u32) -> (r: u32)
    requires
        v < 256,
        k <= 100,
    ensures
        r == v * k / 100,
        r <= v,
{
    assert(0 <= v * k <= v * 100) by (nonlinear_arith)
        requires
            0 <= k <= 100,
            0 <= v,
    ;
    v * k / 100
}

pub fn darken(c: Color, p: u32) -> (r: Color)
    ensures
        r == darker(c, p as int),
{
    proof {
        reveal(darker);
    }
    let k: u32 = if p > 100 { 0 } else { 100 - p };
    pack(scaled(red(c), k), scaled(green(c), k), scaled(blue(c), k))
}

pub fn lighten(c: Color, p: u32) -> (r: Color)
    ensures
        r == lighter(c, p as int),
{
    proof {
        reveal(lighter);
    }
    let k: u32 = if p > 100 { 100 } else { p };
    pack(
        red(c) + scaled(255 - red(c), k),
        green(c) + scaled(255 - green(c), k),
        blue(c) + scaled(255 - blue(c), k),
    )
}

/// How bright a colour looks, from 0 to 255.
pub open spec fn brightness(c: Color) -> int {
    (channel(c, 2) * 299 + channel(c, 1) * 587 + channel(c, 0) * 114) / 1000
}

pub fn luma(c: Color) -> (r: u32)
    ensures
        r == brightness(c),
        r <= 255,
{
    (red(c) * 299 + green(c) * 587 + blue(c) * 114) / 1000
}

/// A shade of grey.
pub open spec fn grey(v: int) -> Color {
    from_channels(v, v, v)
}

pub fn gray(v: u8) -> (r: Color)
    ensures
        r == grey(v as int),
{
    pack(v as u32, v as u32, v as u32)
}

/// No part of the way to another colour is no way at all.
pub proof fn blending_by_nothing_changes_nothing(a: Color, b: Color)
    requires
        a <= 0xFFFFFF,
    ensures
        blend(a, b, 0) == a,
{
    reveal(blend);
}

/// Between a colour and itself there is no other.
pub proof fn blending_alike_changes_nothing(c: Color, t: int)
    requires
        c <= 0xFFFFFF,
    ensures
        blend(c, c, t) == c,
{
    reveal(blend);
    assert(0 * t == 0) by (nonlinear_arith);
    assert(from_channels(channel(c, 2), channel(c, 1), channel(c, 0)) == c);
}

/// A colour is made up of its three channels, and they come apart again.
pub proof fn channels_make_up_the_colour(r: int, g: int, b: int, c: Color)
    requires
        0 <= r <= 255,
        0 <= g <= 255,
        0 <= b <= 255,
        c <= 0xFFFFFF,
    ensures
        from_channels(r, g, b) == r * 0x1_0000 + g * 0x100 + b,
        channel(from_channels(r, g, b), 2) == r,
        channel(from_channels(r, g, b), 1) == g,
        channel(from_channels(r, g, b), 0) == b,
        from_channels(channel(c, 2), channel(c, 1), channel(c, 0)) == c,
{
}

proof fn between_is_near(a: int, b: int, t: int)
    requires
        0 <= a <= 255,
        0 <= b <= 255,
        0 <= t <= 255,
    ensures
        a <= b ==> a <= between(a, b, t) <= b,
        b <= a ==> b <= between(a, b, t) <= a,
        -255 < (between(a, b, t) - a) * 255 - (b - a) * t < 255,
        between(a, b, 0) == a,
        between(a, b, 255) == b,
{
    let d = if b >= a {
        b - a
    } else {
        a - b
    };
    let p = d * t;
    assert(0 <= p <= d * 255) by (nonlinear_arith)
        requires
            p == d * t,
            0 <= t <= 255,
            0 <= d,
    ;
    if b < a {
        assert((b - a) * t == -p) by (nonlinear_arith)
            requires
                p == d * t,
                b - a == -d,
        ;
    }
}

/// Each channel of a blend lies between those of the two colours, less than one
/// step from the exact place; none of the way is the first colour, and all of
/// it the other.
pub proof fn blends_lie_between(a: Color, b: Color, t: int, k: int)
    requires
        a <= 0xFFFFFF,
        b <= 0xFFFFFF,
        0 <= t <= 255,
        0 <= k <= 2,
    ensures
        ({
            let x = channel(a, k);
            let y = channel(b, k);
            let z = channel(blend(a, b, t), k);
            &&& x <= y ==> x <= z <= y
            &&& y <= x ==> y <= z <= x
            &&& -255 < (z - x) * 255 - (y - x) * t < 255
        }),
        blend(a, b, t) <= 0xFFFFFF,
        blend(a, b, 0) == a,
        blend(a, b, 255) == b,
{
    reveal(blend);
    channels_make_up_the_colour(channel(a, 2), channel(a, 1), channel(a, 0), a);
    between_is_near(channel(a, 2), channel(b, 2), t);
    between_is_near(channel(a, 1), channel(b, 1), t);
    between_is_near(channel(a, 0), channel(b, 0), t);
    channels_make_up_the_colour(
        between(channel(a, 2), channel(b, 2), t),
        between(channel(a, 1), channel(b, 1), t),
        between(channel(a, 0), channel(b, 0), t),
        b,
    );
}

/// Darkening takes each channel that part of the way to black, and lightening
/// to white: nothing of the way changes nothing, all of it is black or white,
/// and so is more than all.
pub proof fn shades_go_towards_black_and_white(c: Color, p: int, k: int)
    requires
        c <= 0xFFFFFF,
        0 <= p,
        0 <= k <= 2,
    ensures
        darker(c, 0) == c,
        lighter(c, 0) == c,
        p >= 100 ==> darker(c, p) == 0 && lighter(c, p) == 0xFFFFFF,
        p <= 100 ==> {
            let x = channel(c, k);
            let d = channel(darker(c, p), k);
            let l = channel(lighter(c, p), k);
            &&& d * 100 <= x * (100 - p) < (d + 1) * 100
            &&& (l - x) * 100 <= (255 - x) * p < (l - x + 1) * 100
            &&& d <= x <= l
        },
{
    reveal(darker);
    reveal(lighter);
    let q = percent(p);
    shade_of(channel(c, 2), q);
    shade_of(channel(c, 1), q);
    shade_of(channel(c, 0), q);
    shade_of(channel(c, 2), 0);
    shade_of(channel(c, 1), 0);
    shade_of(channel(c, 0), 0);
    channels_make_up_the_colour(
        channel(c, 2) * (100 - q) / 100,
        channel(c, 1) * (100 - q) / 100,
        channel(c, 0) * (100 - q) / 100,
        c,
    );
    channels_make_up_the_colour(
        channel(c, 2) + (255 - channel(c, 2)) * q / 100,
        channel(c, 1) + (255 - channel(c, 1)) * q / 100,
        channel(c, 0) + (255 - channel(c, 0)) * q / 100,
        c,
    );
}

proof fn shade_of(x: int, q: int)
    requires
        0 <= x <= 255,
        0 <= q <= 100,
    ensures
        0 <= x * (100 - q) / 100 <= x,
        0 <= (255 - x) * q / 100 <= 255 - x,
        q == 0 ==> x * (100 - q) / 100 == x && (255 - x) * q / 100 == 0,
        q == 100 ==> x * (100 - q) / 100 == 0 && (255 - x) * q / 100 == 255 - x,
{
    let a = x * (100 - q);
    let b = (255 - x) * q;
    assert(0 <= a <= x * 100 && 0 <= b <= (255 - x) * 100) by (nonlinear_arith)
        requires
            a == x * (100 - q),
            b == (255 - x) * q,
            0 <= x <= 255,
            0 <= q <= 100,
    ;
    assert(q == 0 ==> a == x * 100 && b == 0) by (nonlinear_arith)
        requires
            a == x * (100 - q),
            b == (255 - x) * q,
    ;
    assert(q == 100 ==> a == 0 && b == (255 - x) * 100) by (nonlinear_arith)
        requires
            a == x * (100 - q),
            b == (255 - x) * q,
    ;
}

/// A grey looks as bright as its channels are, black is the darkest and white
/// the brightest, and of the three channels green counts most and blue least.
pub proof fn brightness_follows_the_eye(v: int, c: Color)
    requires
        0 <= v <= 255,
        c <= 0xFFFFFF,
    ensures
        brightness(grey(v)) == v,
        0 <= brightness(c) <= 255,
        v >= 10 ==> brightness(from_channels(0, v, 0)) > brightness(from_channels(v, 0, 0))
            > brightness(from_channels(0, 0, v)),
{
    channels_make_up_the_colour(v, v, v, c);
    channels_make_up_the_colour(0, v, 0, c);
    channels_make_up_the_colour(v, 0, 0, c);
    channels_make_up_the_colour(0, 0, v, c);
}

} // verus!
