//! The node abstraction shared by everything that can be shown: lifecycle states, the
//! `Drawable` capability set, and the size / bitmap capabilities of image-like nodes.
use vstd::prelude::*;

use crate::dice::Dice;
use crate::latex::LatexRegistry;

verus! {

/// The lifecycle of a node, totally ordered `Working < Final < Hidden`.
#[derive(Clone, Copy, PartialEq, Eq, Debug, Structural)]
pub enum State {
    /// The node is still being shown, for example fading in.
    Working,
    /// The node is complete; the next step starts to hide it.
    Final,
    /// The node is hidden.
    Hidden,
}

/// Position of a state in the order `Working < Final < Hidden`.
pub open spec fn state_rank(s: State) -> int {
    match s {
        State::Working => 0,
        State::Final => 1,
        State::Hidden => 2,
    }
}

/// The smaller (less complete) of two states.
pub open spec fn state_min(a: State, b: State) -> State {
    if state_rank(a) <= state_rank(b) {
        a
    } else {
        b
    }
}

impl State {
    /// Executable form of `state_rank`.
    pub fn rank(self) -> (r: u8)
        ensures
            r as int == state_rank(self),
    {
        match self {
            State::Working => 0,
            State::Final => 1,
            State::Hidden => 2,
        }
    }

    /// The less complete of `self` and `other`.
    pub fn min_with(self, other: State) -> (r: State)
        ensures
            r == state_min(self, other),
    {
        if self.rank() <= other.rank() {
            self
        } else {
            other
        }
    }
}

/// How a node is being drawn.
#[derive(Clone, Copy, Debug)]
pub struct DrawSettings {
    /// Drawn in the notes window, which shows extra information about animations.
    pub notes_view: bool,
    /// The colour the window is cleared with.
    pub background_color: (u8, u8, u8),
}

impl DrawSettings {
    /// Settings of the main window.
    pub fn main_window() -> (r: DrawSettings)
        ensures
            !r.notes_view,
    {
        DrawSettings { notes_view: false, background_color: (255, 255, 255) }
    }

    /// Settings of the notes window, which shows how far each animation has come.
    pub fn notes_window() -> (r: DrawSettings)
        ensures
            r.notes_view,
    {
        DrawSettings { notes_view: true, background_color: (0, 0, 0) }
    }
}

/// A node of the scene tree.
///
/// Every node reports its lifecycle `state`, advances it on `step`, and takes the frame's
/// elapsed time in `update`. The meaning of each is given per type by the three spec
/// functions.
pub trait Drawable: Sized {
    /// The state that `state` reports.
    spec fn spec_state(&self) -> State;

    /// `next` is what `self` becomes after one `step`.
    spec fn spec_step(&self, next: Self) -> bool;

    /// `next` is what `self` becomes after `update(dt)`.
    spec fn spec_update(&self, dt: u64, next: Self) -> bool;

    /// `next` is what `self` becomes after `register`.
    spec fn spec_register(&self, next: Self) -> bool;

    /// `next` is what `self` becomes after `load`.
    spec fn spec_load(&self, next: Self) -> bool;

    /// The lifecycle state of the node.
    fn state(&self) -> (r: State)
        ensures
            r == self.spec_state(),
    ;

    /// Advance the presentation by one step.
    fn step(&mut self)
        ensures
            old(self).spec_step(*final(self)),
    ;

    /// Advance the animation clocks by `dt` milliseconds.
    fn update(&mut self, dt: u64)
        ensures
            old(self).spec_update(dt, *final(self)),
    ;

    /// Register the resources that must be rendered before loading.
    fn register(&mut self, registry: &mut LatexRegistry)
        ensures
            old(self).spec_register(*final(self)),
    ;

    /// Load the resources of the node; `dice` is the source of randomness for effects.
    fn load(&mut self, registry: &mut LatexRegistry, dice: &mut Dice)
        ensures
            old(self).spec_load(*final(self)),
    ;
}

/// A node with a size of its own, like an image.
pub trait KnownSize {
    /// The width that `width` reports.
    spec fn spec_width(&self) -> nat;

    /// The height that `height` reports.
    spec fn spec_height(&self) -> nat;

    /// The width of the node, in pixels.
    fn width(&self) -> (r: usize)
        ensures
            r as nat == self.spec_width(),
    ;

    /// The height of the node, in pixels.
    fn height(&self) -> (r: usize)
        ensures
            r as nat == self.spec_height(),
    ;
}

/// A node that holds a bitmap: 4 bytes per pixel, row-major, alpha in the fourth byte.
pub trait ImageContainer: KnownSize {
    /// The bytes that `get_data` returns.
    spec fn spec_data(&self) -> Seq<u8>;

    /// The bitmap's bytes.
    fn get_data(&self) -> (r: &Vec<u8>)
        ensures
            r@ == self.spec_data(),
    ;

    /// The bitmap's bytes, consuming the node.
    fn into_data(self) -> (r: Vec<u8>)
        ensures
            r@ == self.spec_data(),
    ;
}

/// The bytes of a bitmap match its size: `width * height` pixels of 4 bytes each.
pub open spec fn bitmap_wf(width: nat, height: nat, data: Seq<u8>) -> bool {
    data.len() == width * height * 4
}

/// A node that shows nothing and is always hidden. Useful as a spacer.
#[derive(Clone, Copy, PartialEq, Eq, Debug, Structural)]
pub struct Empty;

impl Drawable for Empty {
    open spec fn spec_state(&self) -> State {
        State::Hidden
    }

    open spec fn spec_step(&self, next: Self) -> bool {
        next == *self
    }

    open spec fn spec_update(&self, dt: u64, next: Self) -> bool {
        next == *self
    }

    open spec fn spec_register(&self, next: Self) -> bool {
        next == *self
    }

    open spec fn spec_load(&self, next: Self) -> bool {
        next == *self
    }

    fn state(&self) -> (r: State) {
        State::Hidden
    }

    fn step(&mut self) {
    }

    fn update(&mut self, dt: u64) {
    }

    fn register(&mut self, registry: &mut LatexRegistry)
        ensures
            *final(registry) == *old(registry),
    {
    }

    fn load(&mut self, registry: &mut LatexRegistry, dice: &mut Dice)
        ensures
            *final(registry) == *old(registry),
    {
    }
}

} // verus!
