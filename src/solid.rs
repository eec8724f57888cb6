//! A rectangle filled with one colour.
use vstd::prelude::*;

use crate::dice::Dice;
use crate::drawable::{Drawable, State};
use crate::image::Color;
use crate::latex::LatexRegistry;

verus! {

/// A solid colour that fills the region it is drawn in, until the first step hides it.
pub struct Solid {
    /// The colour.
    pub color: Color,
    /// Shown until the first step.
    pub shown: bool,
}

impl Solid {
    /// A shown solid of `color`.
    pub fn new(color: Color) -> (r: Solid)
        ensures
            r == (Solid { color, shown: true }),
    {
        Solid { color, shown: true }
    }

    /// A shown solid of the colour `(r, g, b, a)`.
    pub fn new_rgba(r: u8, g: u8, b: u8, a: u8) -> (s: Solid)
        ensures
            s == (Solid { color: Color { r, g, b, a }, shown: true }),
    {
        Solid { color: Color { r, g, b, a }, shown: true }
    }
}

impl Drawable for Solid {
    open spec fn spec_state(&self) -> State {
        if self.shown {
            State::Final
        } else {
            State::Hidden
        }
    }

    open spec fn spec_step(&self, next: Self) -> bool {
        next == (Solid { shown: false, ..*self })
    }

    open spec fn spec_update(&self, dt: u64, next: Self) -> bool {
        next == *self
    }

    open spec fn spec_register(&self, next: Self) -> bool {
        next == *self
    }

    open spec fn spec_load(&self, next: Self) -> bool {
        next == *self
    }

    fn state(&self) -> (r: State) {
        if self.shown {
            State::Final
        } else {
            State::Hidden
        }
    }

    fn step(&mut self) {
        self.shown = false;
    }

    fn update(&mut self, dt: u64) {
    }

    fn register(&mut self, registry: &mut LatexRegistry) {
    }

    fn load(&mut self, registry: &mut LatexRegistry, dice: &mut Dice) {
    }
}

/// Lines spinning around a point, shown until the first step. The clock drives the angle.
pub struct Spinner {
    /// Shown until the first step.
    pub shown: bool,
    /// Milliseconds the lines have been spinning.
    pub elapsed: u64,
}

impl Spinner {
    /// Shown spinning lines at angle 0.
    pub fn new() -> (r: Spinner)
        ensures
            r == (Spinner { shown: true, elapsed: 0 }),
    {
        Spinner { shown: true, elapsed: 0 }
    }
}

impl Drawable for Spinner {
    open spec fn spec_state(&self) -> State {
        if self.shown {
            State::Final
        } else {
            State::Hidden
        }
    }

    open spec fn spec_step(&self, next: Self) -> bool {
        next == (Spinner { shown: false, ..*self })
    }

    open spec fn spec_update(&self, dt: u64, next: Self) -> bool {
        next == (Spinner {
            elapsed: if self.elapsed + dt > u64::MAX {
                u64::MAX
            } else {
                (self.elapsed + dt) as u64
            },
            ..*self
        })
    }

    open spec fn spec_register(&self, next: Self) -> bool {
        next == *self
    }

    open spec fn spec_load(&self, next: Self) -> bool {
        next == *self
    }

    fn state(&self) -> (r: State) {
        if self.shown {
            State::Final
        } else {
            State::Hidden
        }
    }

    fn step(&mut self) {
        self.shown = false;
    }

    fn update(&mut self, dt: u64) {
        self.elapsed = self.elapsed.saturating_add(dt);
    }

    fn register(&mut self, registry: &mut LatexRegistry) {
    }

    fn load(&mut self, registry: &mut LatexRegistry, dice: &mut Dice) {
    }
}

} // verus!
