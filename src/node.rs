//! Closed sets of node kinds, so that one tree can mix nodes of different kinds: leaves,
//! groups of leaves, and slides made of groups.
use vstd::prelude::*;

use crate::dice::Dice;
use crate::ditherer::Ditherer;
use crate::drawable::{Drawable, Empty, KnownSize, State};
use crate::image::PngImage;
use crate::latex::{LatexObj, LatexRegistry};
use crate::layout::{Anchor, Layered, Margin, Split, Stack, WithSize};
use crate::solid::{Solid, Spinner};

verus! {

/// A node that holds no other node of the tree.
pub enum Leaf {
    /// A LaTeX expression that dissolves in and out.
    Text(Ditherer<LatexObj>),
    /// An image that dissolves in and out.
    Picture(Ditherer<PngImage>),
    /// Empty space of a fixed size.
    Spacer(WithSize<Empty>),
    /// An expression pinned to a side of its region, inside a margin.
    Pinned(Margin<Anchor<Ditherer<LatexObj>>>),
    /// A solid colour filling its region.
    Fill(Solid),
    /// Spinning lines.
    Spin(Spinner),
}

impl Drawable for Leaf {
    open spec fn spec_state(&self) -> State {
        match self {
            Leaf::Text(n) => n.spec_state(),
            Leaf::Picture(n) => n.spec_state(),
            Leaf::Spacer(n) => n.spec_state(),
            Leaf::Pinned(n) => n.spec_state(),
            Leaf::Fill(n) => n.spec_state(),
            Leaf::Spin(n) => n.spec_state(),
        }
    }

    open spec fn spec_step(&self, next: Self) -> bool {
        match (*self, next) {
            (Leaf::Text(n), Leaf::Text(m)) => n.spec_step(m),
            (Leaf::Picture(n), Leaf::Picture(m)) => n.spec_step(m),
            (Leaf::Spacer(n), Leaf::Spacer(m)) => n.spec_step(m),
            (Leaf::Pinned(n), Leaf::Pinned(m)) => n.spec_step(m),
            (Leaf::Fill(n), Leaf::Fill(m)) => n.spec_step(m),
            (Leaf::Spin(n), Leaf::Spin(m)) => n.spec_step(m),
            _ => false,
        }
    }

    open spec fn spec_update(&self, dt: u64, next: Self) -> bool {
        match (*self, next) {
            (Leaf::Text(n), Leaf::Text(m)) => n.spec_update(dt, m),
            (Leaf::Picture(n), Leaf::Picture(m)) => n.spec_update(dt, m),
            (Leaf::Spacer(n), Leaf::Spacer(m)) => n.spec_update(dt, m),
            (Leaf::Pinned(n), Leaf::Pinned(m)) => n.spec_update(dt, m),
            (Leaf::Fill(n), Leaf::Fill(m)) => n.spec_update(dt, m),
            (Leaf::Spin(n), Leaf::Spin(m)) => n.spec_update(dt, m),
            _ => false,
        }
    }

    open spec fn spec_register(&self, next: Self) -> bool {
        match (*self, next) {
            (Leaf::Text(n), Leaf::Text(m)) => n.spec_register(m),
            (Leaf::Picture(n), Leaf::Picture(m)) => n.spec_register(m),
            (Leaf::Spacer(n), Leaf::Spacer(m)) => n.spec_register(m),
            (Leaf::Pinned(n), Leaf::Pinned(m)) => n.spec_register(m),
            (Leaf::Fill(n), Leaf::Fill(m)) => n.spec_register(m),
            (Leaf::Spin(n), Leaf::Spin(m)) => n.spec_register(m),
            _ => false,
        }
    }

    open spec fn spec_load(&self, next: Self) -> bool {
        match (*self, next) {
            (Leaf::Text(n), Leaf::Text(m)) => n.spec_load(m),
            (Leaf::Picture(n), Leaf::Picture(m)) => n.spec_load(m),
            (Leaf::Spacer(n), Leaf::Spacer(m)) => n.spec_load(m),
            (Leaf::Pinned(n), Leaf::Pinned(m)) => n.spec_load(m),
            (Leaf::Fill(n), Leaf::Fill(m)) => n.spec_load(m),
            (Leaf::Spin(n), Leaf::Spin(m)) => n.spec_load(m),
            _ => false,
        }
    }

    fn state(&self) -> (r: State) {
        match self {
            Leaf::Text(n) => n.state(),
            Leaf::Picture(n) => n.state(),
            Leaf::Spacer(n) => n.state(),
            Leaf::Pinned(n) => n.state(),
            Leaf::Fill(n) => n.state(),
            Leaf::Spin(n) => n.state(),
        }
    }

    fn step(&mut self) {
        match self {
            Leaf::Text(n) => n.step(),
            Leaf::Picture(n) => n.step(),
            Leaf::Spacer(n) => n.step(),
            Leaf::Pinned(n) => n.step(),
            Leaf::Fill(n) => n.step(),
            Leaf::Spin(n) => n.step(),
        }
    }

    fn update(&mut self, dt: u64) {
        match self {
            Leaf::Text(n) => n.update(dt),
            Leaf::Picture(n) => n.update(dt),
            Leaf::Spacer(n) => n.update(dt),
            Leaf::Pinned(n) => n.update(dt),
            Leaf::Fill(n) => n.update(dt),
            Leaf::Spin(n) => n.update(dt),
        }
    }

    fn register(&mut self, registry: &mut LatexRegistry) {
        match self {
            Leaf::Text(n) => n.register(registry),
            Leaf::Picture(n) => n.register(registry),
            Leaf::Spacer(n) => n.register(registry),
            Leaf::Pinned(n) => n.register(registry),
            Leaf::Fill(n) => n.register(registry),
            Leaf::Spin(n) => n.register(registry),
        }
    }

    fn load(&mut self, registry: &mut LatexRegistry, dice: &mut Dice) {
        match self {
            Leaf::Text(n) => n.load(registry, dice),
            Leaf::Picture(n) => n.load(registry, dice),
            Leaf::Spacer(n) => n.load(registry, dice),
            Leaf::Pinned(n) => n.load(registry, dice),
            Leaf::Fill(n) => n.load(registry, dice),
            Leaf::Spin(n) => n.load(registry, dice),
        }
    }
}

/// Leaves that fill whatever region they get have no size of their own: 0.
impl KnownSize for Leaf {
    open spec fn spec_width(&self) -> nat {
        match self {
            Leaf::Text(n) => n.spec_width(),
            Leaf::Picture(n) => n.spec_width(),
            Leaf::Spacer(n) => n.spec_width(),
            Leaf::Pinned(n) => n.spec_width(),
            Leaf::Fill(_) => 0,
            Leaf::Spin(_) => 0,
        }
    }

    open spec fn spec_height(&self) -> nat {
        match self {
            Leaf::Text(n) => n.spec_height(),
            Leaf::Picture(n) => n.spec_height(),
            Leaf::Spacer(n) => n.spec_height(),
            Leaf::Pinned(n) => n.spec_height(),
            Leaf::Fill(_) => 0,
            Leaf::Spin(_) => 0,
        }
    }

    fn width(&self) -> (r: usize) {
        match self {
            Leaf::Text(n) => n.width(),
            Leaf::Picture(n) => n.width(),
            Leaf::Spacer(n) => n.width(),
            Leaf::Pinned(n) => n.width(),
            Leaf::Fill(_) => 0,
            Leaf::Spin(_) => 0,
        }
    }

    fn height(&self) -> (r: usize) {
        match self {
            Leaf::Text(n) => n.height(),
            Leaf::Picture(n) => n.height(),
            Leaf::Spacer(n) => n.height(),
            Leaf::Pinned(n) => n.height(),
            Leaf::Fill(_) => 0,
            Leaf::Spin(_) => 0,
        }
    }
}

/// A leaf or a container of leaves.
pub enum Group {
    /// A single leaf.
    Leaf(Leaf),
    /// Leaves one after another.
    Column(Stack<Leaf>),
    /// Leaves on top of each other.
    Layers(Layered<Leaf>),
}

impl Drawable for Group {
    open spec fn spec_state(&self) -> State {
        match self {
            Group::Leaf(n) => n.spec_state(),
            Group::Column(n) => n.spec_state(),
            Group::Layers(n) => n.spec_state(),
        }
    }

    open spec fn spec_step(&self, next: Self) -> bool {
        match (*self, next) {
            (Group::Leaf(n), Group::Leaf(m)) => n.spec_step(m),
            (Group::Column(n), Group::Column(m)) => n.spec_step(m),
            (Group::Layers(n), Group::Layers(m)) => n.spec_step(m),
            _ => false,
        }
    }

    open spec fn spec_update(&self, dt: u64, next: Self) -> bool {
        match (*self, next) {
            (Group::Leaf(n), Group::Leaf(m)) => n.spec_update(dt, m),
            (Group::Column(n), Group::Column(m)) => n.spec_update(dt, m),
            (Group::Layers(n), Group::Layers(m)) => n.spec_update(dt, m),
            _ => false,
        }
    }

    open spec fn spec_register(&self, next: Self) -> bool {
        match (*self, next) {
            (Group::Leaf(n), Group::Leaf(m)) => n.spec_register(m),
            (Group::Column(n), Group::Column(m)) => n.spec_register(m),
            (Group::Layers(n), Group::Layers(m)) => n.spec_register(m),
            _ => false,
        }
    }

    open spec fn spec_load(&self, next: Self) -> bool {
        match (*self, next) {
            (Group::Leaf(n), Group::Leaf(m)) => n.spec_load(m),
            (Group::Column(n), Group::Column(m)) => n.spec_load(m),
            (Group::Layers(n), Group::Layers(m)) => n.spec_load(m),
            _ => false,
        }
    }

    fn state(&self) -> (r: State) {
        match self {
            Group::Leaf(n) => n.state(),
            Group::Column(n) => n.state(),
            Group::Layers(n) => n.state(),
        }
    }

    fn step(&mut self) {
        match self {
            Group::Leaf(n) => n.step(),
            Group::Column(n) => n.step(),
            Group::Layers(n) => n.step(),
        }
    }

    fn update(&mut self, dt: u64) {
        match self {
            Group::Leaf(n) => n.update(dt),
            Group::Column(n) => n.update(dt),
            Group::Layers(n) => n.update(dt),
        }
    }

    fn register(&mut self, registry: &mut LatexRegistry) {
        match self {
            Group::Leaf(n) => n.register(registry),
            Group::Column(n) => n.register(registry),
            Group::Layers(n) => n.register(registry),
        }
    }

    fn load(&mut self, registry: &mut LatexRegistry, dice: &mut Dice) {
        match self {
            Group::Leaf(n) => n.load(registry, dice),
            Group::Column(n) => n.load(registry, dice),
            Group::Layers(n) => n.load(registry, dice),
        }
    }
}

/// Leaves that fill whatever region they get have no size of their own: 0.
impl KnownSize for Group {
    open spec fn spec_width(&self) -> nat {
        match self {
            Group::Leaf(n) => n.spec_width(),
            Group::Column(n) => n.spec_width(),
            Group::Layers(_) => 0,
        }
    }

    open spec fn spec_height(&self) -> nat {
        match self {
            Group::Leaf(n) => n.spec_height(),
            Group::Column(n) => n.spec_height(),
            Group::Layers(_) => 0,
        }
    }

    fn width(&self) -> (r: usize) {
        match self {
            Group::Leaf(n) => n.width(),
            Group::Column(n) => n.width(),
            Group::Layers(_) => 0,
        }
    }

    fn height(&self) -> (r: usize) {
        match self {
            Group::Leaf(n) => n.height(),
            Group::Column(n) => n.height(),
            Group::Layers(_) => 0,
        }
    }
}

/// The content of a whole slide.
pub enum Slide {
    /// A single leaf.
    Single(Leaf),
    /// Groups one after another.
    Column(Stack<Group>),
    /// Groups on top of each other.
    Layers(Layered<Group>),
    /// A leaf above or beside a group.
    Halves(Split<Leaf, Group>),
}

impl Drawable for Slide {
    open spec fn spec_state(&self) -> State {
        match self {
            Slide::Single(n) => n.spec_state(),
            Slide::Column(n) => n.spec_state(),
            Slide::Layers(n) => n.spec_state(),
            Slide::Halves(n) => n.spec_state(),
        }
    }

    open spec fn spec_step(&self, next: Self) -> bool {
        match (*self, next) {
            (Slide::Single(n), Slide::Single(m)) => n.spec_step(m),
            (Slide::Column(n), Slide::Column(m)) => n.spec_step(m),
            (Slide::Layers(n), Slide::Layers(m)) => n.spec_step(m),
            (Slide::Halves(n), Slide::Halves(m)) => n.spec_step(m),
            _ => false,
        }
    }

    open spec fn spec_update(&self, dt: u64, next: Self) -> bool {
        match (*self, next) {
            (Slide::Single(n), Slide::Single(m)) => n.spec_update(dt, m),
            (Slide::Column(n), Slide::Column(m)) => n.spec_update(dt, m),
            (Slide::Layers(n), Slide::Layers(m)) => n.spec_update(dt, m),
            (Slide::Halves(n), Slide::Halves(m)) => n.spec_update(dt, m),
            _ => false,
        }
    }

    open spec fn spec_register(&self, next: Self) -> bool {
        match (*self, next) {
            (Slide::Single(n), Slide::Single(m)) => n.spec_register(m),
            (Slide::Column(n), Slide::Column(m)) => n.spec_register(m),
            (Slide::Layers(n), Slide::Layers(m)) => n.spec_register(m),
            (Slide::Halves(n), Slide::Halves(m)) => n.spec_register(m),
            _ => false,
        }
    }

    open spec fn spec_load(&self, next: Self) -> bool {
        match (*self, next) {
            (Slide::Single(n), Slide::Single(m)) => n.spec_load(m),
            (Slide::Column(n), Slide::Column(m)) => n.spec_load(m),
            (Slide::Layers(n), Slide::Layers(m)) => n.spec_load(m),
            (Slide::Halves(n), Slide::Halves(m)) => n.spec_load(m),
            _ => false,
        }
    }

    fn state(&self) -> (r: State) {
        match self {
            Slide::Single(n) => n.state(),
            Slide::Column(n) => n.state(),
            Slide::Layers(n) => n.state(),
            Slide::Halves(n) => n.state(),
        }
    }

    fn step(&mut self) {
        match self {
            Slide::Single(n) => n.step(),
            Slide::Column(n) => n.step(),
            Slide::Layers(n) => n.step(),
            Slide::Halves(n) => n.step(),
        }
    }

    fn update(&mut self, dt: u64) {
        match self {
            Slide::Single(n) => n.update(dt),
            Slide::Column(n) => n.update(dt),
            Slide::Layers(n) => n.update(dt),
            Slide::Halves(n) => n.update(dt),
        }
    }

    fn register(&mut self, registry: &mut LatexRegistry) {
        match self {
            Slide::Single(n) => n.register(registry),
            Slide::Column(n) => n.register(registry),
            Slide::Layers(n) => n.register(registry),
            Slide::Halves(n) => n.register(registry),
        }
    }

    fn load(&mut self, registry: &mut LatexRegistry, dice: &mut Dice) {
        match self {
            Slide::Single(n) => n.load(registry, dice),
            Slide::Column(n) => n.load(registry, dice),
            Slide::Layers(n) => n.load(registry, dice),
            Slide::Halves(n) => n.load(registry, dice),
        }
    }
}

} // verus!
