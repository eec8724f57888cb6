//! Scenes: the top level of a presentation, advanced by events and replaced when done.
use vstd::prelude::*;

use crate::dice::Dice;
use crate::drawable::{Drawable, State};
use crate::latex::LatexRegistry;

verus! {

/// What a scene asks of the window driver.
#[derive(Clone, Copy, PartialEq, Eq, Debug, Structural)]
pub enum Action {
    /// Keep showing this scene.
    Continue,
    /// This scene is over; move to the next.
    Done,
}

/// An input to a scene.
#[derive(Clone, Copy, PartialEq, Eq, Debug, Structural)]
pub enum YEvent {
    /// Advance the presentation by one step.
    Step,
    /// Skip to the next slide.
    StepSlide,
    /// Any other input.
    Other,
}

/// The top level of a presentation.
pub trait Scene: Sized {
    /// The action that `action` reports.
    spec fn spec_action(&self) -> Action;

    /// `next` is what `self` becomes on `event`.
    spec fn spec_event(&self, event: YEvent, next: Self) -> bool;

    /// `next` is what `self` becomes after `update(dt)`.
    spec fn spec_update(&self, dt: u64, next: Self) -> bool;

    /// `next` is what `self` becomes after `register`.
    spec fn spec_register(&self, next: Self) -> bool;

    /// `next` is what `self` becomes after `load`.
    spec fn spec_load(&self, next: Self) -> bool;

    /// Advance the clocks by `dt` milliseconds.
    fn update(&mut self, dt: u64)
        ensures
            old(self).spec_update(dt, *final(self)),
    ;

    /// React to an input.
    fn event(&mut self, event: YEvent)
        ensures
            old(self).spec_event(event, *final(self)),
    ;

    /// Whether the scene is over.
    fn action(&self) -> (r: Action)
        ensures
            r == self.spec_action(),
    ;

    /// Register the resources to render before loading.
    fn register(&mut self, registry: &mut LatexRegistry)
        ensures
            old(self).spec_register(*final(self)),
    ;

    /// Load the resources.
    fn load(&mut self, registry: &mut LatexRegistry, dice: &mut Dice)
        ensures
            old(self).spec_load(*final(self)),
    ;
}

/// A node shown as a scene: a step event steps it, and the scene is over once the node is
/// hidden.
pub struct DrawableWrapper<T>(pub T);

impl<T: Drawable> Scene for DrawableWrapper<T> {
    open spec fn spec_action(&self) -> Action {
        if self.0.spec_state() == State::Hidden {
            Action::Done
        } else {
            Action::Continue
        }
    }

    open spec fn spec_event(&self, event: YEvent, next: Self) -> bool {
        match event {
            YEvent::Step => self.0.spec_step(next.0),
            _ => next == *self,
        }
    }

    open spec fn spec_update(&self, dt: u64, next: Self) -> bool {
        self.0.spec_update(dt, next.0)
    }

    open spec fn spec_register(&self, next: Self) -> bool {
        self.0.spec_register(next.0)
    }

    open spec fn spec_load(&self, next: Self) -> bool {
        self.0.spec_load(next.0)
    }

    fn update(&mut self, dt: u64) {
        self.0.update(dt);
    }

    fn event(&mut self, event: YEvent) {
        match event {
            YEvent::Step => {
                self.0.step();
            },
            _ => {},
        }
    }

    fn action(&self) -> (r: Action) {
        if self.0.state() == State::Hidden {
            Action::Done
        } else {
            Action::Continue
        }
    }

    fn register(&mut self, registry: &mut LatexRegistry) {
        self.0.register(registry);
    }

    fn load(&mut self, registry: &mut LatexRegistry, dice: &mut Dice) {
        self.0.load(registry, dice);
    }
}

/// Scenes shown one after the other.
pub struct SceneList<S> {
    /// The scenes, in order.
    pub scenes: Vec<S>,
    /// The scene being shown; the list is over once it reaches the end.
    pub current_scene: usize,
}

/// `next` equals `s` except at `i`, where it holds `at_i`.
pub open spec fn same_but<S>(s: Seq<S>, next: Seq<S>, i: int, at_i: S) -> bool {
    &&& next.len() == s.len()
    &&& next[i] == at_i
    &&& forall|j: int| 0 <= j < s.len() && j != i ==> #[trigger] next[j] == s[j]
}

impl<S> SceneList<S> {
    /// A list that starts with its first scene.
    pub fn new(scenes: Vec<S>) -> (r: SceneList<S>)
        ensures
            r.scenes == scenes,
            r.current_scene == 0,
    {
        SceneList { scenes, current_scene: 0 }
    }

    /// The position of the scene being shown.
    pub fn get_current_scene(&self) -> (r: usize)
        ensures
            r == self.current_scene,
    {
        self.current_scene
    }
}

impl<S: Scene> Scene for SceneList<S> {
    open spec fn spec_action(&self) -> Action {
        if self.current_scene >= self.scenes@.len() {
            Action::Done
        } else {
            Action::Continue
        }
    }

    open spec fn spec_event(&self, event: YEvent, next: Self) -> bool {
        let cur = self.current_scene as int;
        if cur >= self.scenes@.len() {
            next == *self
        } else if event == YEvent::StepSlide {
            next.scenes == self.scenes && next.current_scene == cur + 1
        } else {
            &&& next.current_scene == cur
            &&& next.scenes@.len() == self.scenes@.len()
            &&& self.scenes@[cur].spec_event(event, next.scenes@[cur])
            &&& same_but(self.scenes@, next.scenes@, cur, next.scenes@[cur])
        }
    }

    open spec fn spec_update(&self, dt: u64, next: Self) -> bool {
        let cur = self.current_scene as int;
        if cur >= self.scenes@.len() {
            next == *self
        } else {
            &&& next.scenes@.len() == self.scenes@.len()
            &&& self.scenes@[cur].spec_update(dt, next.scenes@[cur])
            &&& same_but(self.scenes@, next.scenes@, cur, next.scenes@[cur])
            &&& next.current_scene == if next.scenes@[cur].spec_action() == Action::Done {
                cur + 1
            } else {
                cur
            }
        }
    }

    /// Every scene is registered; the list stays on its scene.
    open spec fn spec_register(&self, next: Self) -> bool {
        &&& next.current_scene == self.current_scene
        &&& next.scenes@.len() == self.scenes@.len()
        &&& forall|j: int|
            0 <= j < self.scenes@.len() ==> self.scenes@[j].spec_register(#[trigger] next.scenes@[j])
    }

    /// Every scene is loaded; the list stays on its scene.
    open spec fn spec_load(&self, next: Self) -> bool {
        &&& next.current_scene == self.current_scene
        &&& next.scenes@.len() == self.scenes@.len()
        &&& forall|j: int|
            0 <= j < self.scenes@.len() ==> self.scenes@[j].spec_load(#[trigger] next.scenes@[j])
    }

    fn update(&mut self, dt: u64) {
        let cur = self.current_scene;
        if cur >= self.scenes.len() {
            return;
        }
        self.scenes[cur].update(dt);
        if self.scenes[cur].action() == Action::Done {
            self.current_scene = cur + 1;
        }
    }

    fn event(&mut self, event: YEvent) {
        let cur = self.current_scene;
        if cur >= self.scenes.len() {
            return;
        }
        match event {
            YEvent::StepSlide => {
                self.current_scene = cur + 1;
            },
            _ => {
                self.scenes[cur].event(event);
            },
        }
    }

    fn action(&self) -> (r: Action) {
        if self.current_scene >= self.scenes.len() {
            Action::Done
        } else {
            Action::Continue
        }
    }

    fn register(&mut self, registry: &mut LatexRegistry) {
        let ghost before = self.scenes@;
        let n = self.scenes.len();
        let mut i: usize = 0;
        while i < n
            invariant
                self.scenes@.len() == n,
                before.len() == n,
                i <= n,
                self.current_scene == old(self).current_scene,
                forall|j: int| 0 <= j < i ==> before[j].spec_register(#[trigger] self.scenes@[j]),
                forall|j: int| i <= j < n ==> #[trigger] self.scenes@[j] == before[j],
            decreases n - i,
        {
            self.scenes[i].register(registry);
            i += 1;
        }
    }

    fn load(&mut self, registry: &mut LatexRegistry, dice: &mut Dice) {
        let ghost before = self.scenes@;
        let n = self.scenes.len();
        let mut i: usize = 0;
        while i < n
            invariant
                self.scenes@.len() == n,
                before.len() == n,
                i <= n,
                self.current_scene == old(self).current_scene,
                forall|j: int| 0 <= j < i ==> before[j].spec_load(#[trigger] self.scenes@[j]),
                forall|j: int| i <= j < n ==> #[trigger] self.scenes@[j] == before[j],
            decreases n - i,
        {
            self.scenes[i].load(registry, dice);
            i += 1;
        }
    }
}

} // verus!
