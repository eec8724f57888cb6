//! The dissolve transition: a node that fades an image-like node in and out pixel by pixel,
//! in the order of its schedule.
use vstd::prelude::*;

use vstd::arithmetic::div_mod::{lemma_div_is_ordered, lemma_fundamental_div_mod};

use crate::dice::Dice;
use crate::drawable::{bitmap_wf, DrawSettings, Drawable, ImageContainer, KnownSize, State};
use crate::latex::LatexRegistry;
use crate::schedule::{
    build_schedule, edge_field, gradient_field, scored_field, grid_edge, grid_dims, grid_traced, lemma_traced_edge,
    schedule_for, DitherDirection, DitherFn, Schedule,
};

verus! {

/// Schedule units revealed per second of animation.
pub const REVEAL_RATE: u64 = 350;

/// Schedule units over which one pixel goes from invisible to visible.
pub const SOFTNESS: u64 = 140;

/// Longest duration of a transition, in milliseconds: slower schedules are sped up to fit.
pub const DURATION_CAP_MS: u64 = 2500;

/// The opacity of a fully shown pixel: opacities are fractions of `SOFTNESS * SOFTNESS`.
pub const FULL_OPACITY: u64 = 19600;

/// Where a dissolve stands. Only `step`, `dither_in` and `dither_out` change it.
#[derive(Clone, Copy, PartialEq, Eq, Debug, Structural)]
pub enum DitherPhase {
    /// Not animating yet.
    Idle,
    /// Fading in, or shown.
    FadingIn,
    /// Fading out, or gone.
    FadingOut,
}

/// The phase after `p`, if any: `Idle`, then `FadingIn`, then `FadingOut`.
pub open spec fn phase_after(p: DitherPhase) -> Option<DitherPhase> {
    match p {
        DitherPhase::Idle => Some(DitherPhase::FadingIn),
        DitherPhase::FadingIn => Some(DitherPhase::FadingOut),
        DitherPhase::FadingOut => None,
    }
}

/// Position of a phase in the order `Idle < FadingIn < FadingOut`.
pub open spec fn phase_rank(p: DitherPhase) -> int {
    match p {
        DitherPhase::Idle => 0,
        DitherPhase::FadingIn => 1,
        DitherPhase::FadingOut => 2,
    }
}

impl DitherPhase {
    /// The phase that follows this one, or `None` for the last.
    pub fn next(self) -> (r: Option<DitherPhase>)
        ensures
            r == phase_after(self),
    {
        match self {
            DitherPhase::Idle => Some(DitherPhase::FadingIn),
            DitherPhase::FadingIn => Some(DitherPhase::FadingOut),
            DitherPhase::FadingOut => None,
        }
    }
}

/// The schedule priority reached after `t` milliseconds of a clock, for a schedule that ends
/// at `max_time`. Long schedules are compressed into `DURATION_CAP_MS`.
pub open spec fn reach(t: int, max_time: int) -> int {
    if max_time * 1000 > REVEAL_RATE * DURATION_CAP_MS {
        t * max_time / (DURATION_CAP_MS as int)
    } else {
        t * REVEAL_RATE / 1000
    }
}

pub open spec fn clamp_softness(v: int) -> int {
    if v < 0 {
        0
    } else if v > SOFTNESS {
        SOFTNESS as int
    } else {
        v
    }
}

/// How far a pixel of priority `s` has faded in, out of `SOFTNESS`.
pub open spec fn fade_in_part(s: int, t_in: int, max_time: int) -> int {
    clamp_softness(reach(t_in, max_time) - s)
}

/// How much of a pixel of priority `s` is left while fading out, out of `SOFTNESS`.
pub open spec fn fade_out_part(s: int, t_out: int, max_time: int) -> int {
    clamp_softness(s + SOFTNESS - reach(t_out, max_time))
}

/// The opacity of a pixel of priority `s`, out of `FULL_OPACITY`:
/// `clamp01((t_in·R − s)/W) · clamp01((s − t_out·R)/W + 1)` scaled by `W²`.
pub open spec fn opacity_of(s: int, t_in: int, t_out: int, max_time: int) -> int {
    fade_in_part(s, t_in, max_time) * fade_out_part(s, t_out, max_time)
}

/// A clock that has run `t` milliseconds has completed a schedule ending at `max_time`:
/// `t · REVEAL_RATE ≥ max_time`, with `t` in milliseconds.
pub open spec fn clock_done(t: int, max_time: int) -> bool {
    t * REVEAL_RATE >= max_time * 1000
}

/// `a + b`, saturating at `u64::MAX`.
pub open spec fn add_sat(a: u64, b: u64) -> u64 {
    if a + b > u64::MAX {
        u64::MAX
    } else {
        (a + b) as u64
    }
}

fn reach_exec(t: u64, max_time: u64) -> (r: u128)
    ensures
        r == reach(t as int, max_time as int),
        r < 0x1_0000_0000_0000_0000_0000_0000_0000_00,
{
    let tt = t as u128;
    let mm = max_time as u128;
    assert(0 <= tt * mm <= u128::MAX) by (nonlinear_arith)
        requires
            tt < 0x1_0000_0000_0000_0000,
            mm < 0x1_0000_0000_0000_0000,
    ;
    assert(0 <= tt * 350 < 0x1_0000_0000_0000_0000_0000) by (nonlinear_arith)
        requires
            tt < 0x1_0000_0000_0000_0000,
    ;
    if mm * 1000 > (REVEAL_RATE * DURATION_CAP_MS) as u128 {
        proof {
            lemma_div_is_ordered(
                tt * mm,
                u128::MAX as int + 1,
                DURATION_CAP_MS as int,
            );
        }
        tt * mm / DURATION_CAP_MS as u128
    } else {
        proof {
            lemma_div_is_ordered(tt * 350, 0x1_0000_0000_0000_0000_0000, 1000);
        }
        tt * REVEAL_RATE as u128 / 1000
    }
}

fn clamp_softness_exec(v: i128) -> (r: u64)
    ensures
        r == clamp_softness(v as int),
{
    if v < 0 {
        0
    } else if v > SOFTNESS as i128 {
        SOFTNESS
    } else {
        v as u64
    }
}

/// The opacity, out of `FULL_OPACITY`, of a pixel of priority `s` when the fade-in clock
/// has run `t_in` and the fade-out clock `t_out` milliseconds.
pub fn opacity(s: u64, t_in: u64, t_out: u64, max_time: u64) -> (r: u64)
    ensures
        r == opacity_of(s as int, t_in as int, t_out as int, max_time as int),
        r <= FULL_OPACITY,
{
    let rin = reach_exec(t_in, max_time);
    let rout = reach_exec(t_out, max_time);
    let fin = clamp_softness_exec(rin as i128 - s as i128);
    let fout = clamp_softness_exec(s as i128 + SOFTNESS as i128 - rout as i128);
    assert(fin * fout <= FULL_OPACITY) by (nonlinear_arith)
        requires
            fin <= SOFTNESS,
            fout <= SOFTNESS,
    ;
    fin * fout
}

fn clock_done_exec(t: u64, max_time: u64) -> (r: bool)
    ensures
        r == clock_done(t as int, max_time as int),
{
    assert(0 <= (t as int) * 350 <= u64::MAX * 350) by (nonlinear_arith)
        requires
            t <= u64::MAX,
    ;
    t as u128 * REVEAL_RATE as u128 >= max_time as u128 * 1000
}

/// A completed clock has reached the end of the schedule, sped up or not.
pub proof fn lemma_reach_complete(t: int, max_time: int)
    requires
        0 <= t,
        0 <= max_time,
        clock_done(t, max_time),
    ensures
        reach(t, max_time) >= max_time,
{
    if max_time * 1000 > REVEAL_RATE * DURATION_CAP_MS {
        assert(t >= DURATION_CAP_MS);
        assert(t * max_time >= DURATION_CAP_MS * max_time) by (nonlinear_arith)
            requires
                t >= DURATION_CAP_MS,
                max_time >= 0,
        ;
        lemma_div_is_ordered(DURATION_CAP_MS * max_time, t * max_time, DURATION_CAP_MS as int);
        assert((DURATION_CAP_MS * max_time) / (DURATION_CAP_MS as int) == max_time);
    } else {
        lemma_div_is_ordered(max_time * 1000, t * REVEAL_RATE, 1000);
        assert((max_time * 1000) / 1000 == max_time);
    }
}

/// The byte at `i` of the normal-view composite: the source byte times the pixel's opacity.
pub open spec fn composite_byte(data: Seq<u8>, i: int, op: int) -> int {
    data[i] * op / (FULL_OPACITY as int)
}

/// The schedule priority of pixel number `p` of a bitmap `w` pixels wide.
pub open spec fn priority_of(times: Seq<Vec<u64>>, w: int, p: int) -> int {
    times[p / w]@[p % w] as int
}

/// The colour factors `(r, g, b)` of the notes view, out of `5 * FULL_OPACITY`.
pub open spec fn notes_factors(phase: DitherPhase, shown: bool, op: int) -> (int, int, int) {
    let full = FULL_OPACITY as int;
    if phase == DitherPhase::Idle {
        (5 * full, full, full)
    } else if !shown {
        (5 * (full - op), 4 * op + full, full)
    } else if phase == DitherPhase::FadingIn {
        (0, 5 * full, full)
    } else {
        (0, 5 * op, 4 * full - 4 * op)
    }
}

/// The byte at `i` of the notes view: the pixel's darkness tinted by `factors`, alpha kept.
pub open spec fn notes_byte(data: Seq<u8>, i: int, factors: (int, int, int)) -> int {
    let c = i % 4;
    let base = i - c;
    let avg = data[base] / 3 + data[base + 1] / 3 + data[base + 2] / 3;
    if c == 3 {
        data[i] as int
    } else if c == 0 {
        factors.2 * (255 - avg) / (5 * FULL_OPACITY as int)
    } else if c == 1 {
        factors.1 * (255 - avg) / (5 * FULL_OPACITY as int)
    } else {
        factors.0 * (255 - avg) / (5 * FULL_OPACITY as int)
    }
}

/// What a dissolve shows in one frame.
pub enum Frame {
    /// Nothing.
    Blank,
    /// The wrapped node, drawn as it is.
    Inner,
    /// These bytes, in the layout of the wrapped bitmap.
    Pixels(Vec<u8>),
}

/// The dissolve effect around an image-like node.
pub struct Ditherer<T> {
    /// The node that is faded in and out.
    pub inner: T,
    /// The schedule, once loaded.
    pub dither: Option<Schedule>,
    /// Milliseconds the fade-in clock has run.
    pub dither_in_time: u64,
    /// Milliseconds the fade-out clock has run.
    pub dither_out_time: u64,
    /// The edge-strength function that orders the dissolve.
    pub dither_fn: DitherFn,
    /// The direction the dissolve travels in.
    pub direction: DitherDirection,
    /// Where the dissolve stands.
    pub dithering: DitherPhase,
}

impl<T> Ditherer<T> {
    /// The priority at which the schedule is complete: its peak plus the softness window
    /// (saturating), or 0 before loading.
    pub open spec fn max_time_spec(&self) -> int {
        match self.dither {
            Some(s) => add_sat(s.peak, SOFTNESS) as int,
            None => 0,
        }
    }

    pub open spec fn dithered_in_spec(&self) -> bool {
        clock_done(self.dither_in_time as int, self.max_time_spec())
    }

    pub open spec fn dithered_out_spec(&self) -> bool {
        clock_done(self.dither_out_time as int, self.max_time_spec())
    }

    /// The lifecycle state: `Idle` is working, `FadingIn` final, `FadingOut` final until the
    /// fade-out completes, then hidden.
    pub open spec fn state_spec(&self) -> State {
        match self.dithering {
            DitherPhase::Idle => State::Working,
            DitherPhase::FadingIn => State::Final,
            DitherPhase::FadingOut => if self.dithered_out_spec() {
                State::Hidden
            } else {
                State::Final
            },
        }
    }

    /// The clocks after `update(dt)`: an active clock advances until it completes, then
    /// stays frozen.
    pub open spec fn updated(&self, dt: u64) -> Self {
        let in_runs = self.dithering != DitherPhase::Idle && !self.dithered_in_spec();
        let out_runs = self.dithering == DitherPhase::FadingOut && !self.dithered_out_spec();
        Ditherer {
            dither_in_time: if in_runs {
                add_sat(self.dither_in_time, dt)
            } else {
                self.dither_in_time
            },
            dither_out_time: if out_runs {
                add_sat(self.dither_out_time, dt)
            } else {
                self.dither_out_time
            },
            ..*self
        }
    }

    /// Wraps `inner`; nothing is shown until the first step.
    pub fn new(inner: T) -> (r: Ditherer<T>)
        ensures
            r.inner == inner,
            r.dither is None,
            r.dither_in_time == 0,
            r.dither_out_time == 0,
            r.dither_fn == DitherFn::Alpha,
            r.direction == DitherDirection::Rightwards,
            r.dithering == DitherPhase::Idle,
    {
        Ditherer {
            inner,
            dither: None,
            dither_in_time: 0,
            dither_out_time: 0,
            dither_fn: DitherFn::Alpha,
            direction: DitherDirection::Rightwards,
            dithering: DitherPhase::Idle,
        }
    }

    /// Wraps `inner`, already shown: only the fade-out is animated.
    pub fn dithered_in(inner: T) -> (r: Ditherer<T>)
        ensures
            r.inner == inner,
            r.dither is None,
            r.dither_in_time == 0,
            r.dither_out_time == 0,
            r.dither_fn == DitherFn::Alpha,
            r.direction == DitherDirection::Rightwards,
            r.dithering == DitherPhase::FadingIn,
    {
        Ditherer {
            inner,
            dither: None,
            dither_in_time: 0,
            dither_out_time: 0,
            dither_fn: DitherFn::Alpha,
            direction: DitherDirection::Rightwards,
            dithering: DitherPhase::FadingIn,
        }
    }

    /// The same dissolve, ordered by `f`.
    pub fn with_dither_fn(self, f: DitherFn) -> (r: Ditherer<T>)
        ensures
            r == (Ditherer { dither_fn: f, ..self }),
    {
        Ditherer { dither_fn: f, ..self }
    }

    /// The same dissolve, travelling in `dir`.
    pub fn with_direction(self, dir: DitherDirection) -> (r: Ditherer<T>)
        ensures
            r == (Ditherer { direction: dir, ..self }),
    {
        Ditherer { direction: dir, ..self }
    }

    /// Start fading in.
    pub fn dither_in(&mut self)
        ensures
            *final(self) == (Ditherer { dithering: DitherPhase::FadingIn, ..*old(self) }),
    {
        self.dithering = DitherPhase::FadingIn;
    }

    /// Start fading out.
    pub fn dither_out(&mut self)
        ensures
            *final(self) == (Ditherer { dithering: DitherPhase::FadingOut, ..*old(self) }),
    {
        self.dithering = DitherPhase::FadingOut;
    }

    /// The priority at which the schedule is complete: the schedule's peak (its running
    /// maximum, which the repair pass also gives to visible pixels the flood fill never
    /// reached) plus `SOFTNESS`, so that those last pixels are fully shown once a clock
    /// reaches it. The completion threshold is thus `peak + SOFTNESS`, not the peak itself.
    pub fn max_time(&self) -> (r: u64)
        ensures
            r == self.max_time_spec(),
    {
        match &self.dither {
            Some(s) => s.peak.saturating_add(SOFTNESS),
            None => 0,
        }
    }

    /// Has the fade-in completed?
    pub fn is_dithered_in(&self) -> (r: bool)
        ensures
            r == self.dithered_in_spec(),
    {
        clock_done_exec(self.dither_in_time, self.max_time())
    }

    /// Has the fade-out completed?
    pub fn is_dithered_out(&self) -> (r: bool)
        ensures
            r == self.dithered_out_spec(),
    {
        clock_done_exec(self.dither_out_time, self.max_time())
    }
}

/// Opacity bounds: for every priority and every pair of clocks, the opacity lies between 0
/// (invisible) and `FULL_OPACITY` (fully shown).
pub proof fn law_opacity_bounds(s: int, t_in: int, t_out: int, max_time: int)
    ensures
        0 <= opacity_of(s, t_in, t_out, max_time) <= FULL_OPACITY,
{
    let a = fade_in_part(s, t_in, max_time);
    let b = fade_out_part(s, t_out, max_time);
    assert(0 <= a * b <= FULL_OPACITY) by (nonlinear_arith)
        requires
            0 <= a <= SOFTNESS,
            0 <= b <= SOFTNESS,
    ;
}

pub proof fn lemma_pixel_of_byte(i: int, w: int, h: int)
    requires
        0 <= i < w * h * 4,
        0 < w,
    ensures
        0 <= (i / 4) / w < h,
        0 <= (i / 4) % w < w,
{
    lemma_fundamental_div_mod(i, 4);
    let p = i / 4;
    assert(0 <= p < w * h);
    lemma_fundamental_div_mod(p, w);
    let q = p / w;
    let r = p % w;
    assert(0 <= q < h) by (nonlinear_arith)
        requires
            p == w * q + r,
            0 <= r < w,
            0 <= p < w * h,
            0 < w,
    ;
}

/// `g` has `h` rows of `w` entries.
fn grid_matches(g: &Vec<Vec<u64>>, w: usize, h: usize) -> (r: bool)
    ensures
        r == grid_dims(g@, w as nat, h as nat),
{
    if g.len() != h {
        return false;
    }
    let mut y: usize = 0;
    while y < h
        invariant
            g@.len() == h,
            y <= h,
            forall|yy: int| 0 <= yy < y ==> (#[trigger] g@[yy])@.len() == w,
        decreases h - y,
    {
        if g[y].len() != w {
            return false;
        }
        y += 1;
    }
    true
}

impl<T: ImageContainer> Ditherer<T> {
    /// The schedule is loaded and matches the wrapped bitmap.
    pub open spec fn composable(&self) -> bool {
        &&& self.dither is Some
        &&& grid_dims(
            self.dither->Some_0.times@,
            self.inner.spec_width(),
            self.inner.spec_height(),
        )
        &&& bitmap_wf(self.inner.spec_width(), self.inner.spec_height(), self.inner.spec_data())
    }

    /// The opacity of pixel number `p` with the current clocks.
    pub open spec fn pixel_opacity(&self, p: int) -> int {
        opacity_of(
            priority_of(self.dither->Some_0.times@, self.inner.spec_width() as int, p),
            self.dither_in_time as int,
            self.dither_out_time as int,
            self.max_time_spec(),
        )
    }

    fn check_composable(&self) -> (r: bool)
        ensures
            r == self.composable(),
    {
        match &self.dither {
            Some(s) => {
                let w = self.inner.width();
                let h = self.inner.height();
                let n = self.inner.get_data().len();
                if !grid_matches(&s.times, w, h) {
                    return false;
                }
                assert((w as int) * (h as int) <= u64::MAX * u64::MAX) by (nonlinear_arith)
                    requires
                        w <= u64::MAX,
                        h <= u64::MAX,
                ;
                let area = w as u128 * h as u128;
                area <= n as u128 && n as u128 == area * 4
            },
            None => false,
        }
    }

    /// The wrapped bitmap with every byte scaled by its pixel's opacity, or `None` when no
    /// schedule matches the bitmap.
    pub fn composite(&self) -> (r: Option<Vec<u8>>)
        ensures
            self.composable() <==> r is Some,
            r matches Some(v) ==> {
                &&& v@.len() == self.inner.spec_data().len()
                &&& forall|i: int|
                    0 <= i < v@.len() ==> #[trigger] v@[i] as int == composite_byte(
                        self.inner.spec_data(),
                        i,
                        self.pixel_opacity(i / 4),
                    )
            },
    {
        if !self.check_composable() {
            return None;
        }
        let times = &self.dither.as_ref().unwrap().times;
        let data = self.inner.get_data();
        let w = self.inner.width();
        let h = self.inner.height();
        let m = self.max_time();
        let mut out: Vec<u8> = Vec::new();
        let mut i: usize = 0;
        while i < data.len()
            invariant
                self.composable(),
                times == self.dither->Some_0.times,
                data@ == self.inner.spec_data(),
                w == self.inner.spec_width(),
                h == self.inner.spec_height(),
                m == self.max_time_spec(),
                out@.len() == i,
                i <= data@.len(),
                forall|j: int|
                    0 <= j < i ==> #[trigger] out@[j] as int == composite_byte(
                        self.inner.spec_data(),
                        j,
                        self.pixel_opacity(j / 4),
                    ),
            decreases data@.len() - i,
        {
            proof {
                lemma_pixel_of_byte(i as int, w as int, h as int);
            }
            let p = i / 4;
            let s = times[p / w][p % w];
            let op = opacity(s, self.dither_in_time, self.dither_out_time, m);
            assert((data@[i as int] as int) * (op as int) <= 255 * FULL_OPACITY) by (nonlinear_arith)
                requires
                    data@[i as int] <= 255,
                    op <= FULL_OPACITY,
            ;
            proof {
                lemma_div_is_ordered(
                    (data@[i as int] as int) * (op as int),
                    255 * FULL_OPACITY,
                    FULL_OPACITY as int,
                );
            }
            let v = (data[i] as u64 * op / FULL_OPACITY) as u8;
            out.push(v);
            i += 1;
        }
        Some(out)
    }

    /// The notes-view picture: each pixel's darkness, tinted by where the dissolve stands, or
    /// `None` when no schedule matches the bitmap.
    pub fn notes_composite(&self) -> (r: Option<Vec<u8>>)
        ensures
            self.composable() <==> r is Some,
            r matches Some(v) ==> {
                &&& v@.len() == self.inner.spec_data().len()
                &&& forall|i: int|
                    0 <= i < v@.len() ==> #[trigger] v@[i] as int == notes_byte(
                        self.inner.spec_data(),
                        i,
                        notes_factors(
                            self.dithering,
                            self.dithered_in_spec(),
                            self.pixel_opacity(i / 4),
                        ),
                    )
            },
    {
        if !self.check_composable() {
            return None;
        }
        let times = &self.dither.as_ref().unwrap().times;
        let data = self.inner.get_data();
        let w = self.inner.width();
        let h = self.inner.height();
        let m = self.max_time();
        let shown = self.is_dithered_in();
        let mut out: Vec<u8> = Vec::new();
        let mut i: usize = 0;
        while i < data.len()
            invariant
                self.composable(),
                times == self.dither->Some_0.times,
                data@ == self.inner.spec_data(),
                w == self.inner.spec_width(),
                h == self.inner.spec_height(),
                m == self.max_time_spec(),
                shown == self.dithered_in_spec(),
                out@.len() == i,
                i <= data@.len(),
                forall|j: int|
                    0 <= j < i ==> #[trigger] out@[j] as int == notes_byte(
                        self.inner.spec_data(),
                        j,
                        notes_factors(self.dithering, shown, self.pixel_opacity(j / 4)),
                    ),
            decreases data@.len() - i,
        {
            proof {
                lemma_pixel_of_byte(i as int, w as int, h as int);
            }
            let p = i / 4;
            let s = times[p / w][p % w];
            let op = opacity(s, self.dither_in_time, self.dither_out_time, m);
            let full = FULL_OPACITY;
            let (fr, fg, fb): (u64, u64, u64) = if self.dithering == DitherPhase::Idle {
                (5 * full, full, full)
            } else if !shown {
                (5 * (full - op), 4 * op + full, full)
            } else if self.dithering == DitherPhase::FadingIn {
                (0, 5 * full, full)
            } else {
                (0, 5 * op, 4 * full - 4 * op)
            };
            let c = i % 4;
            let base = i - c;
            let avg = data[base] as u64 / 3 + data[base + 1] as u64 / 3 + data[base + 2] as u64 / 3;
            let factor = if c == 0 {
                fb
            } else if c == 1 {
                fg
            } else {
                fr
            };
            let v: u8 = if c == 3 {
                data[i]
            } else {
                assert((factor as int) * (255 - avg) <= 5 * FULL_OPACITY * 255) by (nonlinear_arith)
                    requires
                        factor <= 5 * FULL_OPACITY,
                        0 <= 255 - avg <= 255,
                ;
                proof {
                    lemma_div_is_ordered(
                        (factor as int) * (255 - avg),
                        5 * FULL_OPACITY * 255,
                        5 * FULL_OPACITY as int,
                    );
                }
                (factor * (255 - avg) / (5 * FULL_OPACITY)) as u8
            };
            out.push(v);
            i += 1;
        }
        Some(out)
    }

    /// What to show in this frame: nothing before the first step and once faded out, the
    /// wrapped node as it is once faded in, and the composite in between. The notes view
    /// always shows the composite. Without a matching schedule, the wrapped node.
    pub fn frame(&self, settings: DrawSettings) -> (r: Frame)
        ensures
            !settings.notes_view && self.dithering == DitherPhase::Idle ==> r is Blank,
            !settings.notes_view && self.dithering == DitherPhase::FadingIn
                && self.dithered_in_spec() ==> r is Inner,
            !settings.notes_view && self.dithering != DitherPhase::Idle && !(self.dithering
                == DitherPhase::FadingIn && self.dithered_in_spec()) && self.dithered_out_spec()
                ==> r is Blank,
            (settings.notes_view || (self.dithering != DitherPhase::Idle && !(self.dithering
                == DitherPhase::FadingIn && self.dithered_in_spec())
                && !self.dithered_out_spec())) ==> {
                &&& !self.composable() ==> r is Inner
                &&& self.composable() ==> r is Pixels
                &&& r matches Frame::Pixels(v) ==> {
                    &&& v@.len() == self.inner.spec_data().len()
                    &&& forall|i: int|
                        0 <= i < v@.len() ==> #[trigger] v@[i] as int == if settings.notes_view {
                            notes_byte(
                                self.inner.spec_data(),
                                i,
                                notes_factors(
                                    self.dithering,
                                    self.dithered_in_spec(),
                                    self.pixel_opacity(i / 4),
                                ),
                            )
                        } else {
                            composite_byte(self.inner.spec_data(), i, self.pixel_opacity(i / 4))
                        }
                }
            },
    {
        let notes = settings.notes_view;
        if !notes && self.dithering == DitherPhase::Idle {
            return Frame::Blank;
        }
        if !notes && self.dithering == DitherPhase::FadingIn && self.is_dithered_in() {
            return Frame::Inner;
        }
        if !notes && self.is_dithered_out() {
            return Frame::Blank;
        }
        let pixels = if notes {
            self.notes_composite()
        } else {
            self.composite()
        };
        match pixels {
            Some(v) => Frame::Pixels(v),
            None => Frame::Inner,
        }
    }
}

impl<T: KnownSize> KnownSize for Ditherer<T> {
    open spec fn spec_width(&self) -> nat {
        self.inner.spec_width()
    }

    open spec fn spec_height(&self) -> nat {
        self.inner.spec_height()
    }

    fn width(&self) -> (r: usize) {
        self.inner.width()
    }

    fn height(&self) -> (r: usize) {
        self.inner.height()
    }
}

impl<T: ImageContainer> ImageContainer for Ditherer<T> {
    open spec fn spec_data(&self) -> Seq<u8> {
        self.inner.spec_data()
    }

    fn get_data(&self) -> (r: &Vec<u8>) {
        self.inner.get_data()
    }

    fn into_data(self) -> (r: Vec<u8>) {
        self.inner.into_data()
    }
}

/// The bitmap can be scheduled: its bytes match its size.
pub open spec fn schedulable(w: nat, h: nat, data: Seq<u8>) -> bool {
    bitmap_wf(w, h, data)
}

/// The least fade-in clock value at which a schedule ending at `max_time` is complete,
/// `⌈max_time · 1000 / REVEAL_RATE⌉` milliseconds (saturating).
fn completion_time(max_time: u64) -> (r: u64)
    ensures
        max_time * 1000 <= u64::MAX * REVEAL_RATE ==> {
            &&& clock_done(r as int, max_time as int)
            &&& r == 0 || !clock_done(r - 1, max_time as int)
        },
{
    let need = max_time as u128 * 1000;
    let t = (need + (REVEAL_RATE as u128 - 1)) / REVEAL_RATE as u128;
    proof {
        lemma_fundamental_div_mod(need + (REVEAL_RATE - 1), REVEAL_RATE as int);
    }
    if t > u64::MAX as u128 {
        u64::MAX
    } else {
        t as u64
    }
}

impl<T: Drawable + ImageContainer> Drawable for Ditherer<T> {
    open spec fn spec_state(&self) -> State {
        self.state_spec()
    }

    open spec fn spec_step(&self, next: Self) -> bool {
        match self.dithering {
            DitherPhase::Idle => next == (Ditherer { dithering: DitherPhase::FadingIn, ..*self }),
            DitherPhase::FadingIn => {
                &&& self.inner.spec_step(next.inner)
                &&& next == (Ditherer {
                    inner: next.inner,
                    dithering: DitherPhase::FadingOut,
                    ..*self
                })
            },
            DitherPhase::FadingOut => next == *self,
        }
    }

    open spec fn spec_update(&self, dt: u64, next: Self) -> bool {
        next == self.updated(dt)
    }

    open spec fn spec_register(&self, next: Self) -> bool {
        &&& self.inner.spec_register(next.inner)
        &&& next == (Ditherer { inner: next.inner, ..*self })
    }

    /// Loading loads the wrapped node, then builds the schedule of its bitmap; a dissolve that
    /// is already shown has its fade-in clock set to completion.
    open spec fn spec_load(&self, next: Self) -> bool {
        &&& self.inner.spec_load(next.inner)
        &&& (next.dithering == self.dithering)
        &&& (next.dither_fn == self.dither_fn)
        &&& (next.direction == self.direction)
        &&& (next.dither_out_time == self.dither_out_time)
        &&& (next.dither is Some <==> schedulable(
                next.inner.spec_width(),
                next.inner.spec_height(),
                next.inner.spec_data()))
        &&& (next.dither matches Some(s) ==> schedule_for(
                s,
                next.inner.spec_data(),
                next.inner.spec_width(),
                next.inner.spec_height()))
        &&& (next.dither matches Some(s) ==> grid_traced(
                s.times@,
                next.inner.spec_data(),
                edge_field(
                    next.dither_fn,
                    next.inner.spec_data(),
                    next.inner.spec_width() as int,
                    next.inner.spec_height() as int,
                ),
                next.direction,
                next.inner.spec_width(),
                next.inner.spec_height(),
                true,
                s.peak as int))
        &&& (self.dithering == DitherPhase::FadingIn && next.dither is Some ==> {
                &&& next.dither_in_time * REVEAL_RATE >= next.max_time_spec() * 1000
                &&& next.state_spec() == State::Final
            })
        &&& (!(self.dithering == DitherPhase::FadingIn && next.dither is Some)
                ==> next.dither_in_time == self.dither_in_time)
    }

    fn state(&self) -> (r: State) {
        match self.dithering {
            DitherPhase::Idle => State::Working,
            DitherPhase::FadingIn => State::Final,
            DitherPhase::FadingOut => {
                if self.is_dithered_out() {
                    State::Hidden
                } else {
                    State::Final
                }
            },
        }
    }

    fn step(&mut self) {
        match self.dithering {
            DitherPhase::Idle => {
                self.dither_in();
            },
            DitherPhase::FadingIn => {
                self.inner.step();
                self.dither_out();
            },
            DitherPhase::FadingOut => {},
        }
    }

    fn update(&mut self, dt: u64) {
        let in_runs = self.dithering != DitherPhase::Idle && !self.is_dithered_in();
        let out_runs = self.dithering == DitherPhase::FadingOut && !self.is_dithered_out();
        if in_runs {
            self.dither_in_time = self.dither_in_time.saturating_add(dt);
        }
        if out_runs {
            self.dither_out_time = self.dither_out_time.saturating_add(dt);
        }
    }

    fn register(&mut self, registry: &mut LatexRegistry) {
        self.inner.register(registry);
    }

    /// Loads the wrapped node, then builds the schedule of its bitmap. A dissolve that is
    /// already shown has its fade-in clock set to completion.
    fn load(&mut self, registry: &mut LatexRegistry, dice: &mut Dice)
    {
        self.inner.load(registry, dice);
        let w = self.inner.width();
        let h = self.inner.height();
        let n = self.inner.get_data().len();
        assert((w as int) * (h as int) <= u64::MAX * u64::MAX) by (nonlinear_arith)
            requires
                w <= u64::MAX,
                h <= u64::MAX,
        ;
        let area = w as u128 * h as u128;
        let fits = area <= n as u128 && n as u128 == area * 4;
        if !fits {
            self.dither = None;
            return;
        }
        let grad = gradient_field(&self.inner, self.dither_fn);
        let schedule = build_schedule(self.inner.get_data(), w, h, &grad, self.direction, dice);
        proof {
            lemma_traced_edge(
                schedule.times@,
                self.inner.spec_data(),
                grad@,
                self.dither_fn,
                self.direction,
                w as nat,
                h as nat,
                true,
                schedule.peak as int,
            );
        }
        self.dither = Some(schedule);
        if self.dithering == DitherPhase::FadingIn {
            let m = self.max_time();
            self.dither_in_time = completion_time(m);
        }
    }
}

impl<T: Drawable + ImageContainer> Ditherer<T> {
    /// Loads the wrapped node, then builds the schedule with the caller's edge strength
    /// `score(x, y)` in place of `dither_fn`. A dissolve that is already shown has its
    /// fade-in clock set to completion.
    pub fn load_scored<F: Fn(usize, usize) -> u64>(
        &mut self,
        registry: &mut LatexRegistry,
        dice: &mut Dice,
        score: F,
    )
        requires
            forall|x: usize, y: usize| #[trigger] score.requires((x, y)),
        ensures
            old(self).inner.spec_load(final(self).inner),
            final(self).dithering == old(self).dithering,
            final(self).dither_fn == old(self).dither_fn,
            final(self).direction == old(self).direction,
            final(self).dither_out_time == old(self).dither_out_time,
            final(self).dither is Some <==> schedulable(
                final(self).inner.spec_width(),
                final(self).inner.spec_height(),
                final(self).inner.spec_data(),
            ),
            final(self).dither matches Some(s) ==> schedule_for(
                s,
                final(self).inner.spec_data(),
                final(self).inner.spec_width(),
                final(self).inner.spec_height(),
            ),
            final(self).dither matches Some(s) ==> exists|grad: Seq<Vec<u64>>|
                {
                    &&& grid_dims(grad, final(self).inner.spec_width(), final(self).inner.spec_height())
                    &&& forall|y: int, x: int|
                        0 <= y < final(self).inner.spec_height() && 0 <= x
                            < final(self).inner.spec_width() ==> score.ensures(
                            (x as usize, y as usize),
                            #[trigger] grad[y]@[x],
                        )
                    &&& #[trigger] grid_traced(
                        s.times@,
                        final(self).inner.spec_data(),
                        grid_edge(grad),
                        final(self).direction,
                        final(self).inner.spec_width(),
                        final(self).inner.spec_height(),
                        true,
                        s.peak as int,
                    )
                },
            old(self).dithering == DitherPhase::FadingIn && final(self).dither is Some ==> {
                &&& final(self).dither_in_time * REVEAL_RATE >= final(self).max_time_spec() * 1000
                &&& final(self).state_spec() == State::Final
            },
            !(old(self).dithering == DitherPhase::FadingIn && final(self).dither is Some)
                ==> final(self).dither_in_time == old(self).dither_in_time,
    {
        self.inner.load(registry, dice);
        let w = self.inner.width();
        let h = self.inner.height();
        let n = self.inner.get_data().len();
        assert((w as int) * (h as int) <= u64::MAX * u64::MAX) by (nonlinear_arith)
            requires
                w <= u64::MAX,
                h <= u64::MAX,
        ;
        let area = w as u128 * h as u128;
        let fits = area <= n as u128 && n as u128 == area * 4;
        if !fits {
            self.dither = None;
            return;
        }
        let grad = scored_field(w, h, &score);
        let schedule = build_schedule(self.inner.get_data(), w, h, &grad, self.direction, dice);
        let ghost times = schedule.times@;
        let ghost peak = schedule.peak;
        self.dither = Some(schedule);
        if self.dithering == DitherPhase::FadingIn {
            let m = self.max_time();
            self.dither_in_time = completion_time(m);
        }
        assert(grid_dims(grad@, w as nat, h as nat));
        assert(forall|y: int, x: int|
            0 <= y < h && 0 <= x < w ==> score.ensures(
                (x as usize, y as usize),
                #[trigger] grad@[y]@[x],
            ));
        assert(grid_traced(
            times,
            self.inner.spec_data(),
            grid_edge(grad@),
            self.direction,
            w as nat,
            h as nat,
            true,
            peak as int,
        ));
    }
}

/// Applies `update` for each of `dts` in turn.
pub open spec fn updated_all<T>(d: Ditherer<T>, dts: Seq<u64>) -> Ditherer<T>
    decreases dts.len(),
{
    if dts.len() == 0 {
        d
    } else {
        updated_all(d.updated(dts[0]), dts.drop_first())
    }
}

/// Monotone clocks: over any sequence of updates, neither clock goes back, and a clock that
/// has completed stays where it is.
pub proof fn law_clocks_monotone<T>(d: Ditherer<T>, dts: Seq<u64>)
    ensures
        updated_all(d, dts).dither_in_time >= d.dither_in_time,
        updated_all(d, dts).dither_out_time >= d.dither_out_time,
        d.dithered_in_spec() ==> updated_all(d, dts).dither_in_time == d.dither_in_time,
        d.dithered_out_spec() ==> updated_all(d, dts).dither_out_time == d.dither_out_time,
    decreases dts.len(),
{
    if dts.len() > 0 {
        law_clocks_monotone(d.updated(dts[0]), dts.drop_first());
    }
}

/// Full reveal: once the fade-in clock has run `max_time / REVEAL_RATE` seconds and the
/// fade-out clock has not started, every pixel of a loaded schedule is fully shown.
pub proof fn law_full_reveal<T: ImageContainer>(d: Ditherer<T>)
    requires
        d.dither matches Some(s) && schedule_for(
            s,
            d.inner.spec_data(),
            d.inner.spec_width(),
            d.inner.spec_height(),
        ),
        d.dither_in_time * REVEAL_RATE >= d.max_time_spec() * 1000,
        d.dither_out_time == 0,
    ensures
        forall|y: int, x: int|
            0 <= y < d.inner.spec_height() && 0 <= x < d.inner.spec_width() ==> opacity_of(
                #[trigger] d.dither->Some_0.times@[y]@[x] as int,
                d.dither_in_time as int,
                0,
                d.max_time_spec(),
            ) == FULL_OPACITY,
{
    let m = d.max_time_spec();
    let t = d.dither_in_time as int;
    lemma_reach_complete(t, m);
    assert(reach(0, m) == 0);
    assert forall|y: int, x: int|
        0 <= y < d.inner.spec_height() && 0 <= x < d.inner.spec_width() implies opacity_of(
        #[trigger] d.dither->Some_0.times@[y]@[x] as int,
        t,
        0,
        m,
    ) == FULL_OPACITY by {
        let s = d.dither->Some_0.times@[y]@[x] as int;
        assert(s <= d.dither->Some_0.peak);
        assert(fade_in_part(s, t, m) == SOFTNESS);
        assert(fade_out_part(s, 0, m) == SOFTNESS);
    }
}

/// Full conceal: once the fade-out clock has run `max_time / REVEAL_RATE` seconds, every
/// pixel of a loaded schedule is invisible, and a dissolve that is fading out is hidden.
pub proof fn law_full_conceal<T: ImageContainer>(d: Ditherer<T>)
    requires
        d.dither matches Some(s) && schedule_for(
            s,
            d.inner.spec_data(),
            d.inner.spec_width(),
            d.inner.spec_height(),
        ),
        d.dither_out_time * REVEAL_RATE >= d.max_time_spec() * 1000,
    ensures
        forall|y: int, x: int|
            0 <= y < d.inner.spec_height() && 0 <= x < d.inner.spec_width() ==> opacity_of(
                #[trigger] d.dither->Some_0.times@[y]@[x] as int,
                d.dither_in_time as int,
                d.dither_out_time as int,
                d.max_time_spec(),
            ) == 0,
        d.dithering == DitherPhase::FadingOut ==> d.state_spec() == State::Hidden,
{
    let m = d.max_time_spec();
    let t = d.dither_out_time as int;
    lemma_reach_complete(t, m);
    assert forall|y: int, x: int|
        0 <= y < d.inner.spec_height() && 0 <= x < d.inner.spec_width() implies opacity_of(
        #[trigger] d.dither->Some_0.times@[y]@[x] as int,
        d.dither_in_time as int,
        t,
        m,
    ) == 0 by {
        let s = d.dither->Some_0.times@[y]@[x] as int;
        assert(s <= d.dither->Some_0.peak);
        assert(fade_out_part(s, t, m) == 0);
    }
}

/// Lifecycle monotonicity: a step never moves the phase or the state backwards, and once
/// fading out, a step changes nothing.
pub proof fn law_step_monotone<T: Drawable + ImageContainer>(d: Ditherer<T>, next: Ditherer<T>)
    requires
        d.spec_step(next),
    ensures
        phase_rank(next.dithering) >= phase_rank(d.dithering),
        phase_rank(next.dithering) <= phase_rank(d.dithering) + 1,
        crate::drawable::state_rank(next.state_spec()) >= crate::drawable::state_rank(
            d.state_spec(),
        ),
        d.dithering == DitherPhase::FadingOut ==> next == d,
{
}

} // verus!
