//! The dissolve schedule: for every pixel of a bitmap, the priority at which it is revealed.
//!
//! A schedule is built in four passes: an edge-strength field over the bitmap, seeds at
//! local maxima of that field (with a directional bias), a randomized flood fill outwards
//! from the seeds, and a final repair that gives every visible pixel still unscheduled the
//! latest priority.
use vstd::prelude::*;

use crate::dice::Dice;
use crate::drawable::{bitmap_wf, ImageContainer, KnownSize};

verus! {


/// A `w`×`h` bitmap of 4 bytes per pixel fits in memory.
pub open spec fn area_fits(w: int, h: int) -> bool {
    0 <= w && 0 <= h && w * h * 4 <= usize::MAX
}

/// The sides of a non-empty bitmap that fits in memory are below 2⁶².
pub proof fn lemma_area_sides(w: int, h: int)
    requires
        1 <= w,
        1 <= h,
        area_fits(w, h),
    ensures
        w + h <= 0x4000_0000_0000_0000,
        w + h <= usize::MAX,
        w * w + h * h <= (w + h) * (w + h),
{
    assert(usize::MAX <= u64::MAX);
    assert(w + h <= w * h + 1) by (nonlinear_arith)
        requires
            1 <= w,
            1 <= h,
    ;
    assert(w * w + h * h <= (w + h) * (w + h)) by (nonlinear_arith)
        requires
            1 <= w,
            1 <= h,
    ;
}

/// Number of flood-fill rounds.
pub const SPREAD_ROUNDS: usize = 50;

/// Upper bound of a seed priority: bias plus random offset.
pub const SEED_LIMIT: u64 = 0x4000_0000_0000_0064;

/// Upper bound of any priority a schedule holds.
pub const PEAK_LIMIT: u64 = 0x4000_0000_0000_1000;

/// The global direction in which the dissolve travels.
#[derive(Clone, Copy, PartialEq, Eq, Debug, Structural)]
pub enum DitherDirection {
    Leftwards,
    Rightwards,
    Downwards,
    Upwards,
    Outwards,
    NoDirection,
}

/// `r` is half the integer square root of `q`: `(2r)² <= q < (2r + 2)²`.
pub open spec fn half_root(q: int, r: int) -> bool {
    &&& 0 <= r
    &&& 4 * r * r <= q
    &&& q < 4 * (r + 1) * (r + 1)
}

/// The bias of pixel `(x, y)` in a `w`×`h` bitmap is `r`.
pub open spec fn direction_bias(d: DitherDirection, x: int, y: int, w: int, h: int, r: int) -> bool {
    match d {
        DitherDirection::Rightwards => r == x,
        DitherDirection::Leftwards => r == w - x + 1,
        DitherDirection::Downwards => r == y,
        DitherDirection::Upwards => r == h - y + 1,
        DitherDirection::Outwards => half_root(
            (2 * x - w) * (2 * x - w) + (2 * y - h) * (2 * y - h),
            r,
        ),
        DitherDirection::NoDirection => r == 1,
    }
}

/// The integer square root of `q`, by bisection.
fn isqrt(q: u128) -> (r: u64)
    requires
        q < 0x4000_0000_0000_0000_0000_0000_0000_0000,
    ensures
        r as int * r as int <= q,
        q < (r as int + 1) * (r as int + 1),
        r < 0x8000_0000_0000_0000,
{
    let mut lo: u128 = 0;
    let mut hi: u128 = 0x8000_0000_0000_0000;
    assert(hi * hi == 0x4000_0000_0000_0000_0000_0000_0000_0000);
    while hi - lo > 1
        invariant
            lo < hi <= 0x8000_0000_0000_0000,
            lo * lo <= q,
            q < hi * hi,
        decreases hi - lo,
    {
        let mid: u128 = lo + (hi - lo) / 2;
        assert(mid * mid <= 0x4000_0000_0000_0000_0000_0000_0000_0000) by (nonlinear_arith)
            requires
                mid < 0x8000_0000_0000_0000,
        ;
        if mid * mid <= q {
            lo = mid;
        } else {
            hi = mid;
        }
    }
    lo as u64
}

proof fn lemma_half_root(q: int, s: int)
    requires
        0 <= s,
        s * s <= q,
        q < (s + 1) * (s + 1),
    ensures
        half_root(q, s / 2),
{
    let r = s / 2;
    assert(2 * r <= s && s + 1 <= 2 * r + 2);
    assert(4 * r * r <= s * s) by (nonlinear_arith)
        requires
            0 <= 2 * r <= s,
    ;
    assert((s + 1) * (s + 1) <= 4 * (r + 1) * (r + 1)) by (nonlinear_arith)
        requires
            0 <= s + 1 <= 2 * r + 2,
    ;
}

impl DitherDirection {
    /// The bias of the pixel at `pos` in a bitmap of `size`: pixels with a smaller bias are
    /// seeded earlier.
    pub fn value(&self, pos: (usize, usize), size: (usize, usize)) -> (r: usize)
        requires
            pos.0 < size.0,
            pos.1 < size.1,
            area_fits(size.0 as int, size.1 as int),
        ensures
            direction_bias(*self, pos.0 as int, pos.1 as int, size.0 as int, size.1 as int, r as int),
            r <= size.0 + size.1,
    {
        proof {
            lemma_area_sides(size.0 as int, size.1 as int);
        }
        match self {
            DitherDirection::Rightwards => pos.0,
            DitherDirection::Leftwards => size.0 - pos.0 + 1,
            DitherDirection::Downwards => pos.1,
            DitherDirection::Upwards => size.1 - pos.1 + 1,
            DitherDirection::Outwards => {
                let ghost w = size.0 as int;
                let ghost h = size.1 as int;
                let dx: i128 = 2 * pos.0 as i128 - size.0 as i128;
                let dy: i128 = 2 * pos.1 as i128 - size.1 as i128;
                assert(0 <= dx * dx <= w * w) by (nonlinear_arith)
                    requires
                        -w <= dx <= w,
                ;
                assert(0 <= dy * dy <= h * h) by (nonlinear_arith)
                    requires
                        -h <= dy <= h,
                ;
                assert((w + h) * (w + h) <= 0x4000_0000_0000_0000 * 0x4000_0000_0000_0000) by (nonlinear_arith)
                    requires
                        0 <= w + h <= 0x4000_0000_0000_0000,
                ;
                let q: u128 = (dx * dx + dy * dy) as u128;
                let s = isqrt(q);
                proof {
                    lemma_half_root(q as int, s as int);
                    let r = s as int / 2;
                    assert(2 * r <= w + h) by (nonlinear_arith)
                        requires
                            4 * r * r <= q,
                            q <= (w + h) * (w + h),
                            0 <= r,
                            0 <= w + h,
                    ;
                }
                (s / 2) as usize
            },
            DitherDirection::NoDirection => 1,
        }
    }
}

/// `v` clamped into `0..n`.
pub open spec fn clamp_index(v: int, n: int) -> int {
    if v < n {
        v
    } else {
        n - 1
    }
}

/// One less than `v`, but not below zero.
pub open spec fn dec_sat(v: int) -> int {
    if v > 0 {
        v - 1
    } else {
        0
    }
}

/// Byte index of channel `c` of pixel `(x, y)` with coordinates clamped into the bitmap.
pub open spec fn channel_index(w: int, h: int, x: int, y: int, c: int) -> int {
    (clamp_index(y, h) * w + clamp_index(x, w)) * 4 + c
}

/// The alpha of pixel `(x, y)`, coordinates clamped into the bitmap.
pub open spec fn alpha_at(data: Seq<u8>, w: int, h: int, x: int, y: int) -> int {
    data[channel_index(w, h, x, y, 3)] as int
}

pub open spec fn abs_diff(a: int, b: int) -> int {
    if a >= b {
        a - b
    } else {
        b - a
    }
}

pub open spec fn max2(a: int, b: int) -> int {
    if a >= b {
        a
    } else {
        b
    }
}

/// Edge strength from alpha: the larger of the vertical and horizontal alpha differences
/// across the pixel.
pub open spec fn alpha_gradient(data: Seq<u8>, w: int, h: int, x: int, y: int) -> int {
    max2(
        abs_diff(alpha_at(data, w, h, x, y + 1), alpha_at(data, w, h, x, dec_sat(y))),
        abs_diff(alpha_at(data, w, h, x + 1, y), alpha_at(data, w, h, dec_sat(x), y)),
    )
}

/// The largest squared difference of the four channels of two pixels.
pub open spec fn channel_deviation(c1: (u8, u8, u8, u8), c2: (u8, u8, u8, u8)) -> int {
    max2(
        max2(
            (c1.0 - c2.0) * (c1.0 - c2.0),
            (c1.1 - c2.1) * (c1.1 - c2.1),
        ),
        max2(
            (c1.2 - c2.2) * (c1.2 - c2.2),
            (c1.3 - c2.3) * (c1.3 - c2.3),
        ),
    )
}

/// The four channels of pixel `(x, y)`, coordinates clamped, last byte first.
pub open spec fn color_at(data: Seq<u8>, w: int, h: int, x: int, y: int) -> (u8, u8, u8, u8) {
    (
        data[channel_index(w, h, x, y, 3)],
        data[channel_index(w, h, x, y, 2)],
        data[channel_index(w, h, x, y, 1)],
        data[channel_index(w, h, x, y, 0)],
    )
}

/// Edge strength from colour: the larger channel deviation across the pixel, horizontally
/// or vertically.
pub open spec fn color_gradient(data: Seq<u8>, w: int, h: int, x: int, y: int) -> int {
    max2(
        channel_deviation(color_at(data, w, h, dec_sat(x), y), color_at(data, w, h, x + 1, y)),
        channel_deviation(color_at(data, w, h, x, dec_sat(y)), color_at(data, w, h, x, y + 1)),
    )
}

pub proof fn lemma_pixel_index(w: int, h: int, x: int, y: int, c: int)
    requires
        0 <= x < w,
        0 <= y < h,
        0 <= c < 4,
    ensures
        0 <= (y * w + x) * 4 + c < w * h * 4,
        0 <= y * w + x < w * h,
{
    assert(0 <= y * w + x < w * h) by (nonlinear_arith)
        requires
            0 <= x < w,
            0 <= y < h,
    ;
}

/// Byte `c` of pixel `(x, y)`, with `x` and `y` clamped into the bitmap.
fn clamped_byte(data: &Vec<u8>, w: usize, h: usize, x: usize, y: usize, c: usize) -> (r: u8)
    requires
        bitmap_wf(w as nat, h as nat, data@),
        w > 0,
        h > 0,
        c < 4,
    ensures
        r == data@[channel_index(w as int, h as int, x as int, y as int, c as int)],
        0 <= channel_index(w as int, h as int, x as int, y as int, c as int) < data@.len(),
{
    let cx = if x < w { x } else { w - 1 };
    let cy = if y < h { y } else { h - 1 };
    let len = data.len();
    proof {
        lemma_pixel_index(w as int, h as int, cx as int, cy as int, c as int);
        assert(data@.len() == w as int * h as int * 4);
    }
    data[(cy * w + cx) * 4 + c]
}

/// A dissolve order for images with transparency: regions with a strong alpha gradient go
/// first.
pub fn alpha_dither_fn<T: ImageContainer>(image: &T, pos: (usize, usize)) -> (r: u64)
    requires
        bitmap_wf(image.spec_width(), image.spec_height(), image.spec_data()),
        pos.0 < image.spec_width(),
        pos.1 < image.spec_height(),
    ensures
        r as int == alpha_gradient(
            image.spec_data(),
            image.spec_width() as int,
            image.spec_height() as int,
            pos.0 as int,
            pos.1 as int,
        ),
{
    let w = image.width();
    let h = image.height();
    let data = image.get_data();
    let (x, y) = pos;
    let below = clamped_byte(data, w, h, x, y + 1, 3) as i64;
    let above = clamped_byte(data, w, h, x, if y > 0 { y - 1 } else { 0 }, 3) as i64;
    let right = clamped_byte(data, w, h, x + 1, y, 3) as i64;
    let left = clamped_byte(data, w, h, if x > 0 { x - 1 } else { 0 }, y, 3) as i64;
    let dy = if below >= above { below - above } else { above - below };
    let dx = if right >= left { right - left } else { left - right };
    if dy >= dx {
        dy as u64
    } else {
        dx as u64
    }
}

fn square_diff(a: u8, b: u8) -> (r: u64)
    ensures
        r as int == (a - b) * (a - b),
{
    let d: i64 = a as i64 - b as i64;
    assert(0 <= d * d <= 65025) by (nonlinear_arith)
        requires
            -255 <= d <= 255,
    ;
    (d * d) as u64
}

/// The largest squared difference between matching channels of two colours.
pub fn color_diff(c1: (u8, u8, u8, u8), c2: (u8, u8, u8, u8)) -> (r: u64)
    ensures
        r as int == channel_deviation(c1, c2),
{
    let r = square_diff(c1.0, c2.0);
    let g = square_diff(c1.1, c2.1);
    let b = square_diff(c1.2, c2.2);
    let a = square_diff(c1.3, c2.3);
    let rg = if r >= g { r } else { g };
    let ba = if b >= a { b } else { a };
    if rg >= ba {
        rg
    } else {
        ba
    }
}

fn clamped_color(data: &Vec<u8>, w: usize, h: usize, x: usize, y: usize) -> (r: (u8, u8, u8, u8))
    requires
        bitmap_wf(w as nat, h as nat, data@),
        w > 0,
        h > 0,
    ensures
        r == color_at(data@, w as int, h as int, x as int, y as int),
{
    (
        clamped_byte(data, w, h, x, y, 3),
        clamped_byte(data, w, h, x, y, 2),
        clamped_byte(data, w, h, x, y, 1),
        clamped_byte(data, w, h, x, y, 0),
    )
}

/// A dissolve order that follows the colour gradient.
pub fn color_dither_fn<T: ImageContainer>(image: &T, pos: (usize, usize)) -> (r: u64)
    requires
        bitmap_wf(image.spec_width(), image.spec_height(), image.spec_data()),
        pos.0 < image.spec_width(),
        pos.1 < image.spec_height(),
    ensures
        r as int == color_gradient(
            image.spec_data(),
            image.spec_width() as int,
            image.spec_height() as int,
            pos.0 as int,
            pos.1 as int,
        ),
{
    let w = image.width();
    let h = image.height();
    let data = image.get_data();
    let (x, y) = pos;
    let xm = if x > 0 { x - 1 } else { 0 };
    let ym = if y > 0 { y - 1 } else { 0 };
    let grad_x = color_diff(clamped_color(data, w, h, xm, y), clamped_color(data, w, h, x + 1, y));
    let grad_y = color_diff(clamped_color(data, w, h, x, ym), clamped_color(data, w, h, x, y + 1));
    if grad_x >= grad_y {
        grad_x
    } else {
        grad_y
    }
}

/// Which edge-strength function orders the dissolve.
#[derive(Clone, Copy, PartialEq, Eq, Debug, Structural)]
pub enum DitherFn {
    /// `alpha_dither_fn`: follows the alpha gradient.
    Alpha,
    /// `color_dither_fn`: follows the colour gradient.
    Color,
}

/// The edge strength of pixel `(x, y)` under `f`.
pub open spec fn edge_strength(f: DitherFn, data: Seq<u8>, w: int, h: int, x: int, y: int) -> int {
    match f {
        DitherFn::Alpha => alpha_gradient(data, w, h, x, y),
        DitherFn::Color => color_gradient(data, w, h, x, y),
    }
}

/// `g` is a grid of `h` rows of `w` entries.
pub open spec fn grid_dims(g: Seq<Vec<u64>>, w: nat, h: nat) -> bool {
    &&& g.len() == h
    &&& forall|y: int| 0 <= y < h ==> (#[trigger] g[y])@.len() == w
}

/// Every entry of the `w`×`h` grid `g` is at most `b`.
pub open spec fn grid_bounded(g: Seq<Vec<u64>>, w: nat, h: nat, b: int) -> bool {
    forall|y: int, x: int| 0 <= y < h && 0 <= x < w ==> (#[trigger] g[y]@[x]) <= b
}

/// The alpha of pixel `(x, y)` of a bitmap `w` pixels wide.
pub open spec fn alpha_of(data: Seq<u8>, w: nat, x: int, y: int) -> u8 {
    data[(y * w + x) * 4 + 3]
}

/// Every pixel of the bitmap with non-zero alpha has a non-zero entry in `g`.
pub open spec fn covers_visible(g: Seq<Vec<u64>>, data: Seq<u8>, w: nat, h: nat) -> bool {
    forall|y: int, x: int|
        0 <= y < h && 0 <= x < w && alpha_of(data, w, x, y) > 0 ==> (#[trigger] g[y]@[x]) > 0
}

/// The edge-strength field of a bitmap.
pub fn gradient_field<T: ImageContainer>(image: &T, f: DitherFn) -> (r: Vec<Vec<u64>>)
    requires
        bitmap_wf(image.spec_width(), image.spec_height(), image.spec_data()),
    ensures
        grid_dims(r@, image.spec_width(), image.spec_height()),
        forall|y: int, x: int|
            0 <= y < image.spec_height() && 0 <= x < image.spec_width() ==> (#[trigger] r@[y]@[x])
                as int == edge_strength(
                f,
                image.spec_data(),
                image.spec_width() as int,
                image.spec_height() as int,
                x,
                y,
            ),
{
    let w = image.width();
    let h = image.height();
    let mut grad: Vec<Vec<u64>> = Vec::new();
    let mut y: usize = 0;
    while y < h
        invariant
            w == image.spec_width(),
            h == image.spec_height(),
            bitmap_wf(image.spec_width(), image.spec_height(), image.spec_data()),
            y <= h,
            grad@.len() == y,
            forall|yy: int| 0 <= yy < y ==> (#[trigger] grad@[yy])@.len() == w,
            forall|yy: int, x: int|
                0 <= yy < y && 0 <= x < w ==> (#[trigger] grad@[yy]@[x]) as int == edge_strength(
                    f,
                    image.spec_data(),
                    w as int,
                    h as int,
                    x,
                    yy,
                ),
        decreases h - y,
    {
        let mut row: Vec<u64> = Vec::new();
        let mut x: usize = 0;
        while x < w
            invariant
                w == image.spec_width(),
                h == image.spec_height(),
                bitmap_wf(image.spec_width(), image.spec_height(), image.spec_data()),
                y < h,
                x <= w,
                row@.len() == x,
                forall|xx: int|
                    0 <= xx < x ==> (#[trigger] row@[xx]) as int == edge_strength(
                        f,
                        image.spec_data(),
                        w as int,
                        h as int,
                        xx,
                        y as int,
                    ),
            decreases w - x,
        {
            let v = match f {
                DitherFn::Alpha => alpha_dither_fn(image, (x, y)),
                DitherFn::Color => color_dither_fn(image, (x, y)),
            };
            row.push(v);
            x += 1;
        }
        grad.push(row);
        y += 1;
    }
    grad
}

/// The edge field held in a grid, as a function of position.
pub open spec fn grid_edge(g: Seq<Vec<u64>>) -> spec_fn(int, int) -> int {
    |x: int, y: int| g[y]@[x] as int
}

/// The edge field of a bitmap under `f`, as a function of position.
pub open spec fn edge_field(f: DitherFn, data: Seq<u8>, w: int, h: int) -> spec_fn(int, int) -> int {
    |x: int, y: int| edge_strength(f, data, w, h, x, y)
}

/// `(x, y)` is a strict local maximum of `edge` along its row or along its column.
pub open spec fn strict_local_max(edge: spec_fn(int, int) -> int, x: int, y: int) -> bool {
    ||| (edge(x, y) > edge(x + 1, y) && edge(x, y) > edge(x - 1, y))
    ||| (edge(x, y) > edge(x, y + 1) && edge(x, y) > edge(x, y - 1))
}

/// `s` is a seed priority of pixel `(x, y)`: an interior strict local maximum of the edge
/// field, with priority its bias plus 0 to 99.
pub open spec fn seed_priority(
    edge: spec_fn(int, int) -> int,
    d: DitherDirection,
    w: int,
    h: int,
    x: int,
    y: int,
    s: int,
) -> bool {
    &&& 1 <= x && x + 1 < w && 1 <= y && y + 1 < h
    &&& strict_local_max(edge, x, y)
    &&& exists|b: int| #[trigger] direction_bias(d, x, y, w, h, b) && b <= s < b + 100
}

/// `s` is a spread priority of pixel `(x, y)` in `g`: a scheduled pixel in rows `y - 1 ..= y + 2`
/// and columns `x - 1 ..= x + 1` has a priority 20 to 39 below `s`.
pub open spec fn spread_priority(g: Seq<Vec<u64>>, w: int, h: int, x: int, y: int, s: int) -> bool {
    exists|ny: int, nx: int|
        {
            &&& y - 1 <= ny <= y + 2
            &&& x - 1 <= nx <= x + 1
            &&& 0 <= ny < h
            &&& 0 <= nx < w
            &&& #[trigger] g[ny]@[nx] > 0
            &&& 20 <= s - g[ny]@[nx] < 40
        }
}

/// Every non-zero entry of `g` is a seed priority.
pub open spec fn grid_seeded(
    g: Seq<Vec<u64>>,
    edge: spec_fn(int, int) -> int,
    d: DitherDirection,
    w: nat,
    h: nat,
) -> bool {
    forall|y: int, x: int|
        0 <= y < h && 0 <= x < w ==> (#[trigger] g[y]@[x] == 0 || seed_priority(
            edge,
            d,
            w as int,
            h as int,
            x,
            y,
            g[y]@[x] as int,
        ))
}

/// Every entry of `g` is 0, a seed priority, or, at a visible pixel, a spread priority (or
/// `peak`, when `repaired`).
pub open spec fn grid_traced(
    g: Seq<Vec<u64>>,
    data: Seq<u8>,
    edge: spec_fn(int, int) -> int,
    d: DitherDirection,
    w: nat,
    h: nat,
    repaired: bool,
    peak: int,
) -> bool {
    forall|y: int, x: int|
        0 <= y < h && 0 <= x < w ==> {
            ||| #[trigger] g[y]@[x] == 0
            ||| seed_priority(edge, d, w as int, h as int, x, y, g[y]@[x] as int)
            ||| alpha_of(data, w, x, y) > 0 && spread_priority(g, w as int, h as int, x, y, g[y]@[x] as int)
            ||| repaired && alpha_of(data, w, x, y) > 0 && g[y]@[x] == peak
        }
}

/// The entries of `new` that were scheduled in `old` keep their priority.
pub open spec fn keeps_scheduled(old: Seq<Vec<u64>>, new: Seq<Vec<u64>>, w: nat, h: nat) -> bool {
    forall|y: int, x: int|
        0 <= y < h && 0 <= x < w && #[trigger] old[y]@[x] > 0 ==> new[y]@[x] == old[y]@[x]
}

proof fn lemma_spread_kept(
    old: Seq<Vec<u64>>,
    new: Seq<Vec<u64>>,
    w: nat,
    h: nat,
    x: int,
    y: int,
    s: int,
)
    requires
        keeps_scheduled(old, new, w, h),
        spread_priority(old, w as int, h as int, x, y, s),
    ensures
        spread_priority(new, w as int, h as int, x, y, s),
{
    let (ny, nx) = choose|ny: int, nx: int|
        {
            &&& y - 1 <= ny <= y + 2
            &&& x - 1 <= nx <= x + 1
            &&& 0 <= ny < h
            &&& 0 <= nx < w
            &&& #[trigger] old[ny]@[nx] > 0
            &&& 20 <= s - old[ny]@[nx] < 40
        };
    assert(new[ny]@[nx] == old[ny]@[nx]);
}

/// The edge field given by a scoring function of the caller, `score(x, y)` for every pixel.
pub fn scored_field<F: Fn(usize, usize) -> u64>(w: usize, h: usize, score: &F) -> (r: Vec<Vec<u64>>)
    requires
        forall|x: usize, y: usize| #[trigger] score.requires((x, y)),
    ensures
        grid_dims(r@, w as nat, h as nat),
        forall|y: int, x: int|
            0 <= y < h && 0 <= x < w ==> score.ensures((x as usize, y as usize), #[trigger] r@[y]@[x]),
{
    let mut grad: Vec<Vec<u64>> = Vec::new();
    let mut y: usize = 0;
    while y < h
        invariant
            forall|x: usize, y: usize| #[trigger] score.requires((x, y)),
            y <= h,
            grad@.len() == y,
            forall|yy: int| 0 <= yy < y ==> (#[trigger] grad@[yy])@.len() == w,
            forall|yy: int, x: int|
                0 <= yy < y && 0 <= x < w ==> score.ensures(
                    (x as usize, yy as usize),
                    #[trigger] grad@[yy]@[x],
                ),
        decreases h - y,
    {
        let mut row: Vec<u64> = Vec::new();
        let mut x: usize = 0;
        while x < w
            invariant
                forall|x: usize, y: usize| #[trigger] score.requires((x, y)),
                y < h,
                x <= w,
                row@.len() == x,
                forall|xx: int|
                    0 <= xx < x ==> score.ensures((xx as usize, y), #[trigger] row@[xx]),
            decreases w - x,
        {
            let v = score(x, y);
            row.push(v);
            x += 1;
        }
        grad.push(row);
        y += 1;
    }
    grad
}

/// The priority a seed candidate gets from its draws: its bias plus the random `offset` when
/// it is a strict maximum along its row and the row coin came up, or along its column and
/// the column coin came up; 0 otherwise.
pub open spec fn seed_choice(
    row_max: bool,
    col_max: bool,
    row_coin: bool,
    col_coin: bool,
    bias: int,
    offset: int,
) -> int {
    if (row_max && row_coin) || (col_max && col_coin) {
        bias + offset
    } else {
        0
    }
}

fn choose_seed(row_max: bool, col_max: bool, row_coin: bool, col_coin: bool, bias: u64, offset: u64) -> (r: u64)
    requires
        bias + offset <= u64::MAX,
    ensures
        r == seed_choice(row_max, col_max, row_coin, col_coin, bias as int, offset as int),
{
    if (row_max && row_coin) || (col_max && col_coin) {
        bias + offset
    } else {
        0
    }
}

/// The priority a pixel gets in a flood-fill round from its draws: an unscheduled visible
/// pixel with scheduled neighbours `around` takes, unless the `skip` coin came up, the
/// neighbour priority at `pick` plus 20 plus `inc`; any other pixel keeps `current`.
pub open spec fn spread_choice(
    current: int,
    visible: bool,
    around: Seq<u64>,
    skip: bool,
    pick: int,
    inc: int,
) -> int {
    if current == 0 && visible && around.len() > 0 && !skip {
        around[pick] + 20 + inc
    } else {
        current
    }
}

fn choose_spread(current: u64, visible: bool, around: &Vec<u64>, skip: bool, pick: usize, inc: u64) -> (r: u64)
    requires
        around@.len() > 0 ==> pick < around@.len(),
        inc < 20,
        forall|i: int| 0 <= i < around@.len() ==> #[trigger] around@[i] <= u64::MAX - 40,
    ensures
        r == spread_choice(current as int, visible, around@, skip, pick as int, inc as int),
{
    if current == 0 && visible && around.len() > 0 && !skip {
        around[pick] + 20 + inc
    } else {
        current
    }
}

/// The priority of pixel `(x, y)` after the seed pass: non-zero only at interior pixels.
fn seed_value(
    grad: &Vec<Vec<u64>>,
    w: usize,
    h: usize,
    x: usize,
    y: usize,
    direction: DitherDirection,
    dice: &mut Dice,
) -> (r: u64)
    requires
        grid_dims(grad@, w as nat, h as nat),
        x < w,
        y < h,
        area_fits(w as int, h as int),
    ensures
        r <= SEED_LIMIT,
        r == 0 || seed_priority(grid_edge(grad@), direction, w as int, h as int, x as int, y as int, r as int),
{
    if x == 0 || y == 0 || x + 1 == w || y + 1 == h {
        return 0;
    }
    proof {
        lemma_area_sides(w as int, h as int);
    }
    let bias = direction.value((x, y), (w, h)) as u64;
    let offset = dice.below(100);
    let row_coin = dice.coin();
    let col_coin = dice.coin();
    let g = grad[y][x];
    let row_max = g > grad[y][x + 1] && g > grad[y][x - 1];
    let col_max = g > grad[y + 1][x] && g > grad[y - 1][x];
    choose_seed(row_max, col_max, row_coin, col_coin, bias, offset)
}

/// Seeds: interior pixels that are a strict local maximum of the edge field along a row or a
/// column, kept by a coin flip, with priority bias plus a random offset below 100.
fn seed_pass(grad: &Vec<Vec<u64>>, w: usize, h: usize, direction: DitherDirection, dice: &mut Dice) -> (r: (
    Vec<Vec<u64>>,
    u64,
))
    requires
        grid_dims(grad@, w as nat, h as nat),
        area_fits(w as int, h as int),
    ensures
        grid_dims(r.0@, w as nat, h as nat),
        grid_bounded(r.0@, w as nat, h as nat, r.1 as int),
        1 <= r.1 <= SEED_LIMIT,
        grid_seeded(r.0@, grid_edge(grad@), direction, w as nat, h as nat),
{
    let mut seeds: Vec<Vec<u64>> = Vec::new();
    let mut peak: u64 = 1;
    let mut y: usize = 0;
    while y < h
        invariant
            grid_dims(grad@, w as nat, h as nat),
            area_fits(w as int, h as int),
            y <= h,
            seeds@.len() == y,
            forall|yy: int| 0 <= yy < y ==> (#[trigger] seeds@[yy])@.len() == w,
            grid_bounded(seeds@, w as nat, y as nat, peak as int),
            1 <= peak <= SEED_LIMIT,
            forall|yy: int, xx: int|
                0 <= yy < y && 0 <= xx < w ==> (#[trigger] seeds@[yy]@[xx] == 0 || seed_priority(
                    grid_edge(grad@),
                    direction,
                    w as int,
                    h as int,
                    xx,
                    yy,
                    seeds@[yy]@[xx] as int,
                )),
        decreases h - y,
    {
        let mut row: Vec<u64> = Vec::new();
        let mut x: usize = 0;
        while x < w
            invariant
                grid_dims(grad@, w as nat, h as nat),
                area_fits(w as int, h as int),
                y < h,
                x <= w,
                row@.len() == x,
                forall|xx: int| 0 <= xx < x ==> (#[trigger] row@[xx]) <= peak,
                grid_bounded(seeds@, w as nat, y as nat, peak as int),
                1 <= peak <= SEED_LIMIT,
                forall|xx: int|
                    0 <= xx < x ==> (#[trigger] row@[xx] == 0 || seed_priority(
                        grid_edge(grad@),
                        direction,
                        w as int,
                        h as int,
                        xx,
                        y as int,
                        row@[xx] as int,
                    )),
                forall|yy: int, xx: int|
                    0 <= yy < y && 0 <= xx < w ==> (#[trigger] seeds@[yy]@[xx] == 0
                        || seed_priority(
                        grid_edge(grad@),
                        direction,
                        w as int,
                        h as int,
                        xx,
                        yy,
                        seeds@[yy]@[xx] as int,
                    )),
            decreases w - x,
        {
            let v = seed_value(grad, w, h, x, y, direction, dice);
            if v > peak {
                peak = v;
            }
            row.push(v);
            x += 1;
        }
        seeds.push(row);
        y += 1;
    }
    (seeds, peak)
}

/// `v + d - 1`, when it lies in `0..n`.
fn shifted(v: usize, d: usize, n: usize) -> (r: Option<usize>)
    requires
        v < n,
        d < 4,
    ensures
        r matches Some(k) ==> k < n && k == v + d - 1,
{
    if d == 0 {
        if v >= 1 {
            Some(v - 1)
        } else {
            None
        }
    } else if d - 1 < n - v {
        Some(v + (d - 1))
    } else {
        None
    }
}

/// Some pixel of `g` in rows `y - 1 ..= y + 2` and columns `x - 1 ..= x + 1` has priority `v`.
pub open spec fn in_window(g: Seq<Vec<u64>>, w: int, h: int, x: int, y: int, v: int) -> bool {
    exists|ny: int, nx: int|
        {
            &&& y - 1 <= ny <= y + 2
            &&& x - 1 <= nx <= x + 1
            &&& 0 <= ny < h
            &&& 0 <= nx < w
            &&& #[trigger] g[ny]@[nx] == v
        }
}

/// The non-zero entries of `g` in rows `y - 1 ..= y + 2` and columns `x - 1 ..= x + 1`.
fn neighbours(g: &Vec<Vec<u64>>, w: usize, h: usize, x: usize, y: usize, bound: Ghost<int>) -> (r: Vec<u64>)
    requires
        grid_dims(g@, w as nat, h as nat),
        grid_bounded(g@, w as nat, h as nat, bound@),
        x < w,
        y < h,
    ensures
        forall|i: int| 0 <= i < r@.len() ==> 0 < #[trigger] r@[i] <= bound@,
        forall|i: int| 0 <= i < r@.len() ==> in_window(g@, w as int, h as int, x as int, y as int, #[trigger] r@[i] as int),
{
    let mut around: Vec<u64> = Vec::new();
    let mut dy: usize = 0;
    while dy < 4
        invariant
            grid_dims(g@, w as nat, h as nat),
            grid_bounded(g@, w as nat, h as nat, bound@),
            x < w,
            y < h,
            forall|i: int| 0 <= i < around@.len() ==> 0 < #[trigger] around@[i] <= bound@,
            forall|i: int| 0 <= i < around@.len() ==> in_window(g@, w as int, h as int, x as int, y as int, #[trigger] around@[i] as int),
        decreases 4 - dy,
    {
        let mut dx: usize = 0;
        while dx < 3
            invariant
                grid_dims(g@, w as nat, h as nat),
                grid_bounded(g@, w as nat, h as nat, bound@),
                x < w,
                y < h,
                dy < 4,
                forall|i: int| 0 <= i < around@.len() ==> 0 < #[trigger] around@[i] <= bound@,
                forall|i: int| 0 <= i < around@.len() ==> in_window(g@, w as int, h as int, x as int, y as int, #[trigger] around@[i] as int),
            decreases 3 - dx,
        {
            if let (Some(ry), Some(rx)) = (shifted(y, dy, h), shifted(x, dx, w)) {
                let v = g[ry][rx];
                if v > 0 {
                    let ghost before = around@;
                    around.push(v);
                    proof {
                        assert forall|i: int| 0 <= i < around@.len() implies in_window(
                            g@,
                            w as int,
                            h as int,
                            x as int,
                            y as int,
                            #[trigger] around@[i] as int,
                        ) by {
                            if i < before.len() {
                                assert(around@[i] == before[i]);
                            } else {
                                assert(g@[ry as int]@[rx as int] == around@[i]);
                                assert(in_window(g@, w as int, h as int, x as int, y as int, v as int));
                            }
                        }
                    }
                }
            }
            dx += 1;
        }
        dy += 1;
    }
    around
}

/// `new` is `old` after one flood-fill round: each entry is unchanged, or an unscheduled
/// visible pixel that took a spread priority from `old`.
pub open spec fn spread_step(old: Seq<Vec<u64>>, new: Seq<Vec<u64>>, data: Seq<u8>, w: nat, h: nat) -> bool {
    forall|y: int, x: int|
        0 <= y < h && 0 <= x < w ==> {
            ||| #[trigger] new[y]@[x] == old[y]@[x]
            ||| old[y]@[x] == 0 && alpha_of(data, w, x, y) > 0 && spread_priority(
                old,
                w as int,
                h as int,
                x,
                y,
                new[y]@[x] as int,
            )
        }
}

/// One flood-fill round over the snapshot `g`: an unscheduled visible pixel next to
/// scheduled ones takes, on a coin flip, one of their priorities plus 20 to 39.
fn spread_round(
    g: &Vec<Vec<u64>>,
    data: &Vec<u8>,
    w: usize,
    h: usize,
    peak: u64,
    dice: &mut Dice,
) -> (r: (Vec<Vec<u64>>, u64))
    requires
        grid_dims(g@, w as nat, h as nat),
        grid_bounded(g@, w as nat, h as nat, peak as int),
        bitmap_wf(w as nat, h as nat, data@),
        area_fits(w as int, h as int),
        1 <= peak <= PEAK_LIMIT - 40,
    ensures
        grid_dims(r.0@, w as nat, h as nat),
        grid_bounded(r.0@, w as nat, h as nat, r.1 as int),
        peak <= r.1 <= peak + 40,
        spread_step(g@, r.0@, data@, w as nat, h as nat),
{
    let mut next: Vec<Vec<u64>> = Vec::new();
    let mut top: u64 = peak;
    let mut y: usize = 0;
    while y < h
        invariant
            grid_dims(g@, w as nat, h as nat),
            grid_bounded(g@, w as nat, h as nat, peak as int),
            bitmap_wf(w as nat, h as nat, data@),
            area_fits(w as int, h as int),
            1 <= peak <= PEAK_LIMIT - 40,
            y <= h,
            next@.len() == y,
            forall|yy: int| 0 <= yy < y ==> (#[trigger] next@[yy])@.len() == w,
            grid_bounded(next@, w as nat, y as nat, top as int),
            peak <= top <= peak + 40,
            forall|yy: int, xx: int|
                0 <= yy < y && 0 <= xx < w ==> (#[trigger] next@[yy]@[xx] == g@[yy]@[xx] || (g@[yy]@[xx]
                    == 0 && alpha_of(data@, w as nat, xx, yy) > 0 && spread_priority(
                    g@,
                    w as int,
                    h as int,
                    xx,
                    yy,
                    next@[yy]@[xx] as int,
                ))),
        decreases h - y,
    {
        let mut row: Vec<u64> = Vec::new();
        let mut x: usize = 0;
        while x < w
            invariant
                grid_dims(g@, w as nat, h as nat),
                grid_bounded(g@, w as nat, h as nat, peak as int),
                bitmap_wf(w as nat, h as nat, data@),
                area_fits(w as int, h as int),
                1 <= peak <= PEAK_LIMIT - 40,
                y < h,
                x <= w,
                row@.len() == x,
                forall|xx: int| 0 <= xx < x ==> (#[trigger] row@[xx]) <= top,
                grid_bounded(next@, w as nat, y as nat, top as int),
                peak <= top <= peak + 40,
                forall|xx: int|
                    0 <= xx < x ==> (#[trigger] row@[xx] == g@[y as int]@[xx] || (g@[y as int]@[xx] == 0 && alpha_of(
                        data@,
                        w as nat,
                        xx,
                        y as int,
                    ) > 0 && spread_priority(g@, w as int, h as int, xx, y as int, row@[xx] as int))),
                forall|yy: int, xx: int|
                0 <= yy < y && 0 <= xx < w ==> (#[trigger] next@[yy]@[xx] == g@[yy]@[xx] || (g@[yy]@[xx]
                    == 0 && alpha_of(data@, w as nat, xx, yy) > 0 && spread_priority(
                    g@,
                    w as int,
                    h as int,
                    xx,
                    yy,
                    next@[yy]@[xx] as int,
                ))),
            decreases w - x,
        {
            let current = g[y][x];
            let mut val = current;
            if current == 0 && pixel_alpha(data, w, h, x, y) > 0 {
                let around = neighbours(g, w, h, x, y, Ghost(peak as int));
                if around.len() > 0 {
                    let skip = dice.coin();
                    let k = dice.below(around.len() as u64) as usize;
                    let inc = dice.below(20);
                    val = choose_spread(current, true, &around, skip, k, inc);
                    proof {
                        if !skip {
                            assert(in_window(
                                g@,
                                w as int,
                                h as int,
                                x as int,
                                y as int,
                                around@[k as int] as int,
                            ));
                            let (ny, nx) = choose|ny: int, nx: int|
                                {
                                    &&& y - 1 <= ny <= y + 2
                                    &&& x - 1 <= nx <= x + 1
                                    &&& 0 <= ny < h
                                    &&& 0 <= nx < w
                                    &&& #[trigger] g@[ny]@[nx] == around@[k as int] as int
                                };
                            assert(g@[ny]@[nx] > 0);
                            assert(spread_priority(g@, w as int, h as int, x as int, y as int, val as int));
                        }
                    }
                }
            }
            if val > top {
                top = val;
            }
            row.push(val);
            x += 1;
        }
        next.push(row);
        y += 1;
    }
    (next, top)
}

/// The alpha byte of pixel `(x, y)`.
pub fn pixel_alpha(data: &Vec<u8>, w: usize, h: usize, x: usize, y: usize) -> (r: u8)
    requires
        bitmap_wf(w as nat, h as nat, data@),
        x < w,
        y < h,
    ensures
        r == alpha_of(data@, w as nat, x as int, y as int),
{
    let len = data.len();
    proof {
        lemma_pixel_index(w as int, h as int, x as int, y as int, 3);
    }
    data[(y * w + x) * 4 + 3]
}

/// Gives every visible pixel that is still unscheduled the priority `peak`.
fn repair(g: &Vec<Vec<u64>>, data: &Vec<u8>, w: usize, h: usize, peak: u64) -> (r: Vec<Vec<u64>>)
    requires
        grid_dims(g@, w as nat, h as nat),
        grid_bounded(g@, w as nat, h as nat, peak as int),
        bitmap_wf(w as nat, h as nat, data@),
        1 <= peak,
    ensures
        grid_dims(r@, w as nat, h as nat),
        grid_bounded(r@, w as nat, h as nat, peak as int),
        covers_visible(r@, data@, w as nat, h as nat),
        forall|y: int, x: int|
            0 <= y < h && 0 <= x < w ==> #[trigger] r@[y]@[x] == if g@[y]@[x] == 0 && alpha_of(
                data@,
                w as nat,
                x,
                y,
            ) > 0 {
                peak
            } else {
                g@[y]@[x]
            },
{
    let mut out: Vec<Vec<u64>> = Vec::new();
    let mut y: usize = 0;
    while y < h
        invariant
            grid_dims(g@, w as nat, h as nat),
            grid_bounded(g@, w as nat, h as nat, peak as int),
            bitmap_wf(w as nat, h as nat, data@),
            1 <= peak,
            y <= h,
            out@.len() == y,
            forall|yy: int| 0 <= yy < y ==> (#[trigger] out@[yy])@.len() == w,
            forall|yy: int, x: int|
                0 <= yy < y && 0 <= x < w ==> #[trigger] out@[yy]@[x] == if g@[yy]@[x] == 0
                    && alpha_of(data@, w as nat, x, yy) > 0 {
                    peak
                } else {
                    g@[yy]@[x]
                },
        decreases h - y,
    {
        let mut row: Vec<u64> = Vec::new();
        let mut x: usize = 0;
        while x < w
            invariant
                grid_dims(g@, w as nat, h as nat),
                bitmap_wf(w as nat, h as nat, data@),
                y < h,
                x <= w,
                row@.len() == x,
                forall|xx: int|
                    0 <= xx < x ==> #[trigger] row@[xx] == if g@[y as int]@[xx] == 0 && alpha_of(
                        data@,
                        w as nat,
                        xx,
                        y as int,
                    ) > 0 {
                        peak
                    } else {
                        g@[y as int]@[xx]
                    },
            decreases w - x,
        {
            let current = g[y][x];
            if current == 0 && pixel_alpha(data, w, h, x, y) > 0 {
                row.push(peak);
            } else {
                row.push(current);
            }
            x += 1;
        }
        out.push(row);
        y += 1;
    }
    out
}

proof fn lemma_traced_step(
    g: Seq<Vec<u64>>,
    r: Seq<Vec<u64>>,
    data: Seq<u8>,
    edge: spec_fn(int, int) -> int,
    d: DitherDirection,
    w: nat,
    h: nat,
)
    requires
        grid_traced(g, data, edge, d, w, h, false, 0),
        spread_step(g, r, data, w, h),
    ensures
        grid_traced(r, data, edge, d, w, h, false, 0),
        keeps_scheduled(g, r, w, h),
{
    assert(keeps_scheduled(g, r, w, h));
    assert forall|y: int, x: int| 0 <= y < h && 0 <= x < w implies {
        ||| #[trigger] r[y]@[x] == 0
        ||| seed_priority(edge, d, w as int, h as int, x, y, r[y]@[x] as int)
        ||| alpha_of(data, w, x, y) > 0 && spread_priority(r, w as int, h as int, x, y, r[y]@[x] as int)
        ||| false && alpha_of(data, w, x, y) > 0 && r[y]@[x] == 0
    } by {
        let s = r[y]@[x] as int;
        if r[y]@[x] == g[y]@[x] {
            if g[y]@[x] != 0 && !seed_priority(edge, d, w as int, h as int, x, y, s) {
                lemma_spread_kept(g, r, w, h, x, y, s);
            }
        } else {
            lemma_spread_kept(g, r, w, h, x, y, s);
        }
    }
}

proof fn lemma_traced_repair(
    g: Seq<Vec<u64>>,
    r: Seq<Vec<u64>>,
    data: Seq<u8>,
    edge: spec_fn(int, int) -> int,
    d: DitherDirection,
    w: nat,
    h: nat,
    peak: u64,
)
    requires
        grid_traced(g, data, edge, d, w, h, false, 0),
        forall|y: int, x: int|
            0 <= y < h && 0 <= x < w ==> #[trigger] r[y]@[x] == if g[y]@[x] == 0 && alpha_of(
                data,
                w,
                x,
                y,
            ) > 0 {
                peak
            } else {
                g[y]@[x]
            },
    ensures
        grid_traced(r, data, edge, d, w, h, true, peak as int),
{
    assert(keeps_scheduled(g, r, w, h));
    assert forall|y: int, x: int| 0 <= y < h && 0 <= x < w implies {
        ||| #[trigger] r[y]@[x] == 0
        ||| seed_priority(edge, d, w as int, h as int, x, y, r[y]@[x] as int)
        ||| alpha_of(data, w, x, y) > 0 && spread_priority(r, w as int, h as int, x, y, r[y]@[x] as int)
        ||| true && alpha_of(data, w, x, y) > 0 && r[y]@[x] == peak as int
    } by {
        let s = r[y]@[x] as int;
        if g[y]@[x] != 0 && !seed_priority(edge, d, w as int, h as int, x, y, s) {
            lemma_spread_kept(g, r, w, h, x, y, s);
        }
    }
}

/// Provenance stated over a grid of edge strengths carries over to the edge field they hold.
pub proof fn lemma_traced_edge(
    g: Seq<Vec<u64>>,
    data: Seq<u8>,
    grad: Seq<Vec<u64>>,
    f: DitherFn,
    d: DitherDirection,
    w: nat,
    h: nat,
    repaired: bool,
    peak: int,
)
    requires
        grid_dims(grad, w, h),
        forall|y: int, x: int|
            0 <= y < h && 0 <= x < w ==> (#[trigger] grad[y]@[x]) as int == edge_strength(
                f,
                data,
                w as int,
                h as int,
                x,
                y,
            ),
        grid_traced(g, data, grid_edge(grad), d, w, h, repaired, peak),
    ensures
        grid_traced(g, data, edge_field(f, data, w as int, h as int), d, w, h, repaired, peak),
{
    let e1 = grid_edge(grad);
    let e2 = edge_field(f, data, w as int, h as int);
    assert forall|y: int, x: int| 0 <= y < h && 0 <= x < w implies {
        ||| #[trigger] g[y]@[x] == 0
        ||| seed_priority(e2, d, w as int, h as int, x, y, g[y]@[x] as int)
        ||| alpha_of(data, w, x, y) > 0 && spread_priority(g, w as int, h as int, x, y, g[y]@[x] as int)
        ||| repaired && alpha_of(data, w, x, y) > 0 && g[y]@[x] == peak
    } by {
        if seed_priority(e1, d, w as int, h as int, x, y, g[y]@[x] as int) {
            assert(e1(x, y) == e2(x, y));
            assert(e1(x + 1, y) == e2(x + 1, y));
            assert(e1(x - 1, y) == e2(x - 1, y));
            assert(e1(x, y + 1) == e2(x, y + 1));
            assert(e1(x, y - 1) == e2(x, y - 1));
        }
    }
}

/// A single-pixel bitmap: a transparent pixel stays unscheduled, and a visible one gets
/// exactly the schedule's peak, the running maximum that repaired pixels take. The dissolve's
/// completion threshold `max_time` is that peak plus the softness window, so the pixel is
/// fully shown when a clock reaches it.
pub proof fn law_single_pixel(
    s: Schedule,
    data: Seq<u8>,
    edge: spec_fn(int, int) -> int,
    d: DitherDirection,
)
    requires
        schedule_for(s, data, 1, 1),
        grid_traced(s.times@, data, edge, d, 1, 1, true, s.peak as int),
    ensures
        alpha_of(data, 1, 0, 0) == 0 ==> s.times@[0]@[0] == 0,
        alpha_of(data, 1, 0, 0) > 0 ==> s.times@[0]@[0] == s.peak,
{
    let v = s.times@[0]@[0];
    if spread_priority(s.times@, 1, 1, 0, 0, v as int) {
        let (ny, nx) = choose|ny: int, nx: int|
            {
                &&& 0 - 1 <= ny <= 0 + 2
                &&& 0 - 1 <= nx <= 0 + 1
                &&& 0 <= ny < 1
                &&& 0 <= nx < 1
                &&& #[trigger] s.times@[ny]@[nx] > 0
                &&& 20 <= v - s.times@[ny]@[nx] < 40
            };
        assert(ny == 0 && nx == 0);
    }
    assert(s.times@[0]@[0] == v);
}

/// The reveal priority of every pixel of a bitmap.
pub struct Schedule {
    /// One row per bitmap row, one priority per pixel.
    pub times: Vec<Vec<u64>>,
    /// The latest priority in `times`; at least 1.
    pub peak: u64,
}

/// `s` is a schedule for the `w`×`h` bitmap `data`: one entry per pixel, every entry at most
/// the peak, and every visible pixel scheduled.
pub open spec fn schedule_for(s: Schedule, data: Seq<u8>, w: nat, h: nat) -> bool {
    &&& grid_dims(s.times@, w, h)
    &&& 1 <= s.peak <= PEAK_LIMIT
    &&& grid_bounded(s.times@, w, h, s.peak as int)
    &&& covers_visible(s.times@, data, w, h)
}

/// Builds the dissolve schedule of the `w`×`h` bitmap `data` from its edge field `grad`.
pub fn build_schedule(
    data: &Vec<u8>,
    w: usize,
    h: usize,
    grad: &Vec<Vec<u64>>,
    direction: DitherDirection,
    dice: &mut Dice,
) -> (r: Schedule)
    requires
        bitmap_wf(w as nat, h as nat, data@),
        grid_dims(grad@, w as nat, h as nat),
        area_fits(w as int, h as int),
    ensures
        schedule_for(r, data@, w as nat, h as nat),
        grid_traced(r.times@, data@, grid_edge(grad@), direction, w as nat, h as nat, true, r.peak as int),
{
    let (mut g, mut peak) = seed_pass(grad, w, h, direction, dice);
    let mut round: usize = 0;
    while round < SPREAD_ROUNDS
        invariant
            bitmap_wf(w as nat, h as nat, data@),
            area_fits(w as int, h as int),
            round <= SPREAD_ROUNDS,
            grid_dims(g@, w as nat, h as nat),
            grid_bounded(g@, w as nat, h as nat, peak as int),
            1 <= peak <= SEED_LIMIT + 40 * round,
            grid_traced(g@, data@, grid_edge(grad@), direction, w as nat, h as nat, false, 0),
        decreases SPREAD_ROUNDS - round,
    {
        let (next, top) = spread_round(&g, data, w, h, peak, dice);
        proof {
            lemma_traced_step(g@, next@, data@, grid_edge(grad@), direction, w as nat, h as nat);
        }
        g = next;
        peak = top;
        round += 1;
    }
    let times = repair(&g, data, w, h, peak);
    proof {
        lemma_traced_repair(g@, times@, data@, grid_edge(grad@), direction, w as nat, h as nat, peak);
    }
    Schedule { times, peak }
}

} // verus!
