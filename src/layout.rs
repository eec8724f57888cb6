//! Containers that combine nodes: stacks, layers and splits, and the wrappers that give a
//! node a margin, an anchor or a size.
//!
//! A container's state is the least complete state of its children. Stepping is either
//! sequential (only the first working child advances; when none works, every final child
//! advances together) or simultaneous (every working child advances).
use vstd::prelude::*;

use crate::dice::Dice;
use crate::drawable::{state_min, Drawable, KnownSize, State};
use crate::geometry::{AnchorDirection, SplitAmount};
use crate::latex::LatexRegistry;

verus! {

/// The direction something is laid out in.
#[derive(Clone, Copy, PartialEq, Eq, Debug, Structural)]
pub enum Orientation {
    /// Top to bottom.
    Vertical,
    /// Left to right.
    Horizontal,
}

/// The order in which the two halves of a split are stepped.
#[derive(Clone, Copy, PartialEq, Eq, Debug, Structural)]
pub enum UpdateOrder {
    Simultaneous,
    FirstSecond,
    SecondFirst,
}

/// How the elements of a stack are placed across the stacking direction.
#[derive(Clone, Copy, PartialEq, Eq, Debug, Structural)]
pub enum ElementPositioning {
    TopLeftCornered,
    Centered,
}

/// The least complete state of the children, `Hidden` when there are none.
pub open spec fn min_state<C: Drawable>(s: Seq<C>) -> State
    decreases s.len(),
{
    if s.len() == 0 {
        State::Hidden
    } else {
        state_min(min_state(s.take(s.len() - 1)), s.last().spec_state())
    }
}

/// Some child is working.
pub open spec fn any_working<C: Drawable>(s: Seq<C>) -> bool {
    exists|j: int| 0 <= j < s.len() && (#[trigger] s[j]).spec_state() == State::Working
}

/// Child `j` is the first working child.
pub open spec fn first_working<C: Drawable>(s: Seq<C>, j: int) -> bool {
    &&& 0 <= j < s.len()
    &&& s[j].spec_state() == State::Working
    &&& forall|k: int| 0 <= k < j ==> (#[trigger] s[k]).spec_state() != State::Working
}

/// Child `j` advances when the children `s` are stepped.
pub open spec fn child_steps<C: Drawable>(s: Seq<C>, sequential: bool, j: int) -> bool {
    if any_working(s) {
        if sequential {
            first_working(s, j)
        } else {
            s[j].spec_state() == State::Working
        }
    } else {
        s[j].spec_state() == State::Final
    }
}

/// `new` is `old` after one step of the children: the children that advance are stepped,
/// the others are untouched.
pub open spec fn children_stepped<C: Drawable>(old: Seq<C>, new: Seq<C>, sequential: bool) -> bool {
    &&& new.len() == old.len()
    &&& forall|j: int|
        0 <= j < old.len() ==> if child_steps(old, sequential, j) {
            old[j].spec_step(#[trigger] new[j])
        } else {
            new[j] == old[j]
        }
}

/// `new` is `old` with every child updated by `dt`.
pub open spec fn children_updated<C: Drawable>(old: Seq<C>, dt: u64, new: Seq<C>) -> bool {
    &&& new.len() == old.len()
    &&& forall|j: int| 0 <= j < old.len() ==> old[j].spec_update(dt, #[trigger] new[j])
}

/// `new` is `old` with every child registered.
pub open spec fn children_registered<C: Drawable>(old: Seq<C>, new: Seq<C>) -> bool {
    &&& new.len() == old.len()
    &&& forall|j: int| 0 <= j < old.len() ==> old[j].spec_register(#[trigger] new[j])
}

/// `new` is `old` with every child loaded.
pub open spec fn children_loaded<C: Drawable>(old: Seq<C>, new: Seq<C>) -> bool {
    &&& new.len() == old.len()
    &&& forall|j: int| 0 <= j < old.len() ==> old[j].spec_load(#[trigger] new[j])
}

/// The least complete state of `content`.
pub fn children_state<C: Drawable>(content: &Vec<C>) -> (r: State)
    ensures
        r == min_state(content@),
{
    let mut acc = State::Hidden;
    let mut i: usize = 0;
    while i < content.len()
        invariant
            i <= content@.len(),
            acc == min_state(content@.take(i as int)),
        decreases content@.len() - i,
    {
        let s = content[i].state();
        proof {
            assert(content@.take(i + 1).take(i as int) =~= content@.take(i as int));
        }
        acc = acc.min_with(s);
        i += 1;
    }
    proof {
        assert(content@.take(content@.len() as int) =~= content@);
    }
    acc
}

/// Steps the children: sequentially, only the first working child; simultaneously, every
/// working child. When no child works, every final child steps.
pub fn step_children<C: Drawable>(content: &mut Vec<C>, sequential: bool)
    ensures
        children_stepped(old(content)@, final(content)@, sequential),
{
    let ghost before = content@;
    let mut any = false;
    let mut stop = false;
    let mut i: usize = 0;
    while i < content.len() && !stop
        invariant
            content@.len() == before.len(),
            i <= before.len(),
            !stop ==> (any <==> exists|k: int|
                0 <= k < i && (#[trigger] before[k]).spec_state() == State::Working),
            !stop && sequential ==> !any,
            stop ==> sequential && any && first_working(before, i - 1),
            forall|j: int|
                0 <= j < i ==> if before[j].spec_state() == State::Working {
                    before[j].spec_step(#[trigger] content@[j])
                } else {
                    content@[j] == before[j]
                },
            forall|j: int| i <= j < before.len() ==> #[trigger] content@[j] == before[j],
        decreases before.len() - i,
    {
        if content[i].state() == State::Working {
            content[i].step();
            any = true;
            if sequential {
                stop = true;
            }
        }
        i += 1;
    }
    if any {
        proof {
            if stop {
                let f = i - 1;
                assert(any_working(before));
                assert forall|j: int| 0 <= j < before.len() implies if child_steps(
                    before,
                    sequential,
                    j,
                ) {
                    before[j].spec_step(#[trigger] content@[j])
                } else {
                    content@[j] == before[j]
                } by {
                    if j < f {
                        assert(before[j].spec_state() != State::Working);
                    }
                    if j != f {
                        assert(!first_working(before, j));
                    }
                }
            } else {
                let k = choose|k: int|
                    0 <= k < i && (#[trigger] before[k]).spec_state() == State::Working;
                assert(any_working(before));
            }
        }
        return;
    }
    proof {
        assert(!any_working(before));
    }
    let mut i: usize = 0;
    while i < content.len()
        invariant
            content@.len() == before.len(),
            i <= before.len(),
            !any_working(before),
            forall|j: int|
                0 <= j < i ==> if before[j].spec_state() == State::Final {
                    before[j].spec_step(#[trigger] content@[j])
                } else {
                    content@[j] == before[j]
                },
            forall|j: int| i <= j < before.len() ==> #[trigger] content@[j] == before[j],
        decreases before.len() - i,
    {
        if content[i].state() == State::Final {
            content[i].step();
        }
        i += 1;
    }
}

/// Updates every child by `dt`.
pub fn update_children<C: Drawable>(content: &mut Vec<C>, dt: u64)
    ensures
        children_updated(old(content)@, dt, final(content)@),
{
    let ghost before = content@;
    let mut i: usize = 0;
    while i < content.len()
        invariant
            content@.len() == before.len(),
            i <= before.len(),
            forall|j: int| 0 <= j < i ==> before[j].spec_update(dt, #[trigger] content@[j]),
            forall|j: int| i <= j < before.len() ==> #[trigger] content@[j] == before[j],
        decreases before.len() - i,
    {
        content[i].update(dt);
        i += 1;
    }
}

/// Registers every child.
pub fn register_children<C: Drawable>(content: &mut Vec<C>, registry: &mut LatexRegistry)
    ensures
        children_registered(old(content)@, final(content)@),
{
    let ghost before = content@;
    let mut i: usize = 0;
    while i < content.len()
        invariant
            content@.len() == before.len(),
            i <= before.len(),
            forall|j: int| 0 <= j < i ==> before[j].spec_register(#[trigger] content@[j]),
            forall|j: int| i <= j < before.len() ==> #[trigger] content@[j] == before[j],
        decreases before.len() - i,
    {
        content[i].register(registry);
        i += 1;
    }
}

/// Loads every child.
pub fn load_children<C: Drawable>(content: &mut Vec<C>, registry: &mut LatexRegistry, dice: &mut Dice)
    ensures
        children_loaded(old(content)@, final(content)@),
{
    let ghost before = content@;
    let mut i: usize = 0;
    while i < content.len()
        invariant
            content@.len() == before.len(),
            i <= before.len(),
            forall|j: int| 0 <= j < i ==> before[j].spec_load(#[trigger] content@[j]),
            forall|j: int| i <= j < before.len() ==> #[trigger] content@[j] == before[j],
        decreases before.len() - i,
    {
        content[i].load(registry, dice);
        i += 1;
    }
}

/// Nodes on top of each other.
pub struct Layered<C> {
    /// Step the layers one after the other rather than all at once.
    pub update_seq: bool,
    /// The layers, bottom first.
    pub content: Vec<C>,
}

impl<C> Layered<C> {
    /// Layers `content`, stepped sequentially when `update_seq`.
    pub fn new(update_seq: bool, content: Vec<C>) -> (r: Layered<C>)
        ensures
            r.update_seq == update_seq,
            r.content == content,
    {
        Layered { update_seq, content }
    }
}

impl<C: Drawable> Drawable for Layered<C> {
    open spec fn spec_state(&self) -> State {
        min_state(self.content@)
    }

    open spec fn spec_step(&self, next: Self) -> bool {
        &&& next.update_seq == self.update_seq
        &&& children_stepped(self.content@, next.content@, self.update_seq)
    }

    open spec fn spec_update(&self, dt: u64, next: Self) -> bool {
        &&& next.update_seq == self.update_seq
        &&& children_updated(self.content@, dt, next.content@)
    }

    open spec fn spec_register(&self, next: Self) -> bool {
        &&& next.update_seq == self.update_seq
        &&& children_registered(self.content@, next.content@)
    }

    open spec fn spec_load(&self, next: Self) -> bool {
        &&& next.update_seq == self.update_seq
        &&& children_loaded(self.content@, next.content@)
    }

    fn state(&self) -> (r: State) {
        children_state(&self.content)
    }

    fn step(&mut self) {
        step_children(&mut self.content, self.update_seq);
    }

    fn update(&mut self, dt: u64) {
        update_children(&mut self.content, dt);
    }

    fn register(&mut self, registry: &mut LatexRegistry) {
        register_children(&mut self.content, registry);
    }

    fn load(&mut self, registry: &mut LatexRegistry, dice: &mut Dice) {
        load_children(&mut self.content, registry, dice);
    }
}

/// Nodes one after another, in a row or a column.
pub struct Stack<C> {
    /// Pixels between two elements.
    pub margin: u32,
    /// The direction the elements follow each other in.
    pub orientation: Orientation,
    /// Where each element sits across that direction.
    pub positioning: ElementPositioning,
    /// Step the elements one after the other rather than all at once.
    pub update_seq: bool,
    /// The elements, first first.
    pub content: Vec<C>,
}

impl<C> Stack<C> {
    /// A stack of `content`.
    pub fn new(
        margin: u32,
        orientation: Orientation,
        positioning: ElementPositioning,
        update_seq: bool,
        content: Vec<C>,
    ) -> (r: Stack<C>)
        ensures
            r.margin == margin,
            r.orientation == orientation,
            r.positioning == positioning,
            r.update_seq == update_seq,
            r.content == content,
    {
        Stack { margin, orientation, positioning, update_seq, content }
    }
}

impl<C: Drawable> Drawable for Stack<C> {
    open spec fn spec_state(&self) -> State {
        min_state(self.content@)
    }

    open spec fn spec_step(&self, next: Self) -> bool {
        &&& next.margin == self.margin
        &&& next.orientation == self.orientation
        &&& next.positioning == self.positioning
        &&& next.update_seq == self.update_seq
        &&& children_stepped(self.content@, next.content@, self.update_seq)
    }

    open spec fn spec_update(&self, dt: u64, next: Self) -> bool {
        &&& next.margin == self.margin
        &&& next.orientation == self.orientation
        &&& next.positioning == self.positioning
        &&& next.update_seq == self.update_seq
        &&& children_updated(self.content@, dt, next.content@)
    }

    open spec fn spec_register(&self, next: Self) -> bool {
        &&& next.margin == self.margin
        &&& next.orientation == self.orientation
        &&& next.positioning == self.positioning
        &&& next.update_seq == self.update_seq
        &&& children_registered(self.content@, next.content@)
    }

    open spec fn spec_load(&self, next: Self) -> bool {
        &&& next.margin == self.margin
        &&& next.orientation == self.orientation
        &&& next.positioning == self.positioning
        &&& next.update_seq == self.update_seq
        &&& children_loaded(self.content@, next.content@)
    }

    fn state(&self) -> (r: State) {
        children_state(&self.content)
    }

    fn step(&mut self) {
        step_children(&mut self.content, self.update_seq);
    }

    fn update(&mut self, dt: u64) {
        update_children(&mut self.content, dt);
    }

    fn register(&mut self, registry: &mut LatexRegistry) {
        register_children(&mut self.content, registry);
    }

    fn load(&mut self, registry: &mut LatexRegistry, dice: &mut Dice) {
        load_children(&mut self.content, registry, dice);
    }
}

/// Sequential stepping: exactly the first working child advances, every other child is left
/// untouched.
pub proof fn law_sequential_step<C: Drawable>(old: Seq<C>, new: Seq<C>, j: int)
    requires
        children_stepped(old, new, true),
        first_working(old, j),
    ensures
        old[j].spec_step(new[j]),
        forall|k: int| 0 <= k < old.len() && k != j ==> #[trigger] new[k] == old[k],
{
    assert(any_working(old));
    assert forall|k: int| 0 <= k < old.len() && k != j implies #[trigger] new[k] == old[k] by {
        if k < j {
            assert(old[k].spec_state() != State::Working);
        } else {
            assert(!first_working(old, k));
        }
    }
}

/// A region split in two, each half showing one node.
pub struct Split<A, B> {
    /// How much of the region the first half takes.
    pub amount: SplitAmount,
    /// Split top/bottom (vertical) or left/right (horizontal).
    pub orientation: Orientation,
    /// The order in which the halves are stepped.
    pub order: UpdateOrder,
    /// The node in the first half.
    pub first: A,
    /// The node in the second half.
    pub second: B,
}

impl<A, B> Split<A, B> {
    /// A split whose first half takes `amount`.
    pub fn new(amount: SplitAmount, orientation: Orientation, order: UpdateOrder, first: A, second: B) -> (r: Split<A, B>)
        ensures
            r == (Split { amount, orientation, order, first, second }),
    {
        Split { amount, orientation, order, first, second }
    }

    /// A split whose first half takes `num / den` of the region.
    pub fn new_ratio(
        num: u32,
        den: u32,
        orientation: Orientation,
        order: UpdateOrder,
        first: A,
        second: B,
    ) -> (r: Split<A, B>)
        ensures
            r == (Split { amount: SplitAmount::Fraction(num, den), orientation, order, first, second }),
    {
        Split { amount: SplitAmount::Fraction(num, den), orientation, order, first, second }
    }

    /// A split whose first half is `pixels` wide or high.
    pub fn new_const(pixels: u32, orientation: Orientation, order: UpdateOrder, first: A, second: B) -> (r: Split<
        A,
        B,
    >)
        ensures
            r == (Split { amount: SplitAmount::Pixels(pixels), orientation, order, first, second }),
    {
        Split { amount: SplitAmount::Pixels(pixels), orientation, order, first, second }
    }
}

/// `next` is `d` stepped when `steps`, else `d` itself.
pub open spec fn stepped_if<D: Drawable>(d: D, steps: bool, next: D) -> bool {
    if steps {
        d.spec_step(next)
    } else {
        next == d
    }
}

/// One step of the two halves in `order`, with the same rule as the other containers:
/// while some half is working, working halves step (in order, only the first working one;
/// simultaneously, each working one); when no half works, each final half steps. A half
/// steps at most once, and a hidden half never.
pub open spec fn halves_stepped<A: Drawable, B: Drawable>(
    order: UpdateOrder,
    a: A,
    b: B,
    na: A,
    nb: B,
) -> bool {
    let wa = a.spec_state() == State::Working;
    let wb = b.spec_state() == State::Working;
    let fa = a.spec_state() == State::Final;
    let fb = b.spec_state() == State::Final;
    if wa || wb {
        match order {
            UpdateOrder::FirstSecond => stepped_if(a, wa, na) && stepped_if(b, !wa, nb),
            UpdateOrder::SecondFirst => stepped_if(a, !wb, na) && stepped_if(b, wb, nb),
            UpdateOrder::Simultaneous => stepped_if(a, wa, na) && stepped_if(b, wb, nb),
        }
    } else {
        stepped_if(a, fa, na) && stepped_if(b, fb, nb)
    }
}

impl<A: Drawable, B: Drawable> Drawable for Split<A, B> {
    open spec fn spec_state(&self) -> State {
        state_min(self.first.spec_state(), self.second.spec_state())
    }

    open spec fn spec_step(&self, next: Self) -> bool {
        &&& next.amount == self.amount
        &&& next.orientation == self.orientation
        &&& next.order == self.order
        &&& halves_stepped(self.order, self.first, self.second, next.first, next.second)
    }

    open spec fn spec_update(&self, dt: u64, next: Self) -> bool {
        &&& next.amount == self.amount
        &&& next.orientation == self.orientation
        &&& next.order == self.order
        &&& self.first.spec_update(dt, next.first)
        &&& self.second.spec_update(dt, next.second)
    }

    open spec fn spec_register(&self, next: Self) -> bool {
        &&& next.amount == self.amount
        &&& next.orientation == self.orientation
        &&& next.order == self.order
        &&& self.first.spec_register(next.first)
        &&& self.second.spec_register(next.second)
    }

    open spec fn spec_load(&self, next: Self) -> bool {
        &&& next.amount == self.amount
        &&& next.orientation == self.orientation
        &&& next.order == self.order
        &&& self.first.spec_load(next.first)
        &&& self.second.spec_load(next.second)
    }

    fn state(&self) -> (r: State) {
        self.first.state().min_with(self.second.state())
    }

    fn step(&mut self) {
        let wa = self.first.state() == State::Working;
        let wb = self.second.state() == State::Working;
        if wa || wb {
            let (step_first, step_second) = match self.order {
                UpdateOrder::FirstSecond => (wa, !wa),
                UpdateOrder::SecondFirst => (!wb, wb),
                UpdateOrder::Simultaneous => (wa, wb),
            };
            if step_first {
                self.first.step();
            }
            if step_second {
                self.second.step();
            }
        } else {
            if self.first.state() == State::Final {
                self.first.step();
            }
            if self.second.state() == State::Final {
                self.second.step();
            }
        }
    }

    fn update(&mut self, dt: u64) {
        self.first.update(dt);
        self.second.update(dt);
    }

    fn register(&mut self, registry: &mut LatexRegistry) {
        self.first.register(registry);
        self.second.register(registry);
    }

    fn load(&mut self, registry: &mut LatexRegistry, dice: &mut Dice) {
        self.first.load(registry, dice);
        self.second.load(registry, dice);
    }
}

/// A node with a margin on every side.
pub struct Margin<T> {
    /// The margins: top, right, bottom, left.
    pub margin: (u32, u32, u32, u32),
    /// The node inside the margins.
    pub inner: T,
}

impl<T> Margin<T> {
    /// `inner` with the margins `(top, right, bottom, left)`.
    pub fn new(margin: (u32, u32, u32, u32), inner: T) -> (r: Margin<T>)
        ensures
            r == (Margin { margin, inner }),
    {
        Margin { margin, inner }
    }

    /// `inner` with `vertical` above and below and `horizontal` left and right.
    pub fn new_vert_hor(vertical: u32, horizontal: u32, inner: T) -> (r: Margin<T>)
        ensures
            r == (Margin { margin: (vertical, horizontal, vertical, horizontal), inner }),
    {
        Margin { margin: (vertical, horizontal, vertical, horizontal), inner }
    }
}

/// A node pinned to one side of the region it is drawn in.
pub struct Anchor<T> {
    /// The pinned node.
    pub inner: T,
    /// The side it is pinned to.
    pub direction: AnchorDirection,
}

impl<T> Anchor<T> {
    /// `inner` pinned to side `direction`.
    pub fn new(direction: AnchorDirection, inner: T) -> (r: Anchor<T>)
        ensures
            r == (Anchor { inner, direction }),
    {
        Anchor { inner, direction }
    }
}

/// A node given a fixed size.
pub struct WithSize<T> {
    /// The size: width and height.
    pub size: (u32, u32),
    /// The node.
    pub inner: T,
}

impl<T> WithSize<T> {
    /// `inner` with the size `size`.
    pub fn new(size: (u32, u32), inner: T) -> (r: WithSize<T>)
        ensures
            r == (WithSize { size, inner }),
    {
        WithSize { size, inner }
    }
}

impl<T: Drawable> Drawable for Margin<T> {
    open spec fn spec_state(&self) -> State {
        self.inner.spec_state()
    }

    open spec fn spec_step(&self, next: Self) -> bool {
        next.margin == self.margin && self.inner.spec_step(next.inner)
    }

    open spec fn spec_update(&self, dt: u64, next: Self) -> bool {
        next.margin == self.margin && self.inner.spec_update(dt, next.inner)
    }

    open spec fn spec_register(&self, next: Self) -> bool {
        next.margin == self.margin && self.inner.spec_register(next.inner)
    }

    open spec fn spec_load(&self, next: Self) -> bool {
        next.margin == self.margin && self.inner.spec_load(next.inner)
    }

    fn state(&self) -> (r: State) {
        self.inner.state()
    }

    fn step(&mut self) {
        self.inner.step();
    }

    fn update(&mut self, dt: u64) {
        self.inner.update(dt);
    }

    fn register(&mut self, registry: &mut LatexRegistry) {
        self.inner.register(registry);
    }

    fn load(&mut self, registry: &mut LatexRegistry, dice: &mut Dice) {
        self.inner.load(registry, dice);
    }
}

impl<T: Drawable> Drawable for Anchor<T> {
    open spec fn spec_state(&self) -> State {
        self.inner.spec_state()
    }

    open spec fn spec_step(&self, next: Self) -> bool {
        next.direction == self.direction && self.inner.spec_step(next.inner)
    }

    open spec fn spec_update(&self, dt: u64, next: Self) -> bool {
        next.direction == self.direction && self.inner.spec_update(dt, next.inner)
    }

    open spec fn spec_register(&self, next: Self) -> bool {
        next.direction == self.direction && self.inner.spec_register(next.inner)
    }

    open spec fn spec_load(&self, next: Self) -> bool {
        next.direction == self.direction && self.inner.spec_load(next.inner)
    }

    fn state(&self) -> (r: State) {
        self.inner.state()
    }

    fn step(&mut self) {
        self.inner.step();
    }

    fn update(&mut self, dt: u64) {
        self.inner.update(dt);
    }

    fn register(&mut self, registry: &mut LatexRegistry) {
        self.inner.register(registry);
    }

    fn load(&mut self, registry: &mut LatexRegistry, dice: &mut Dice) {
        self.inner.load(registry, dice);
    }
}

impl<T: Drawable> Drawable for WithSize<T> {
    open spec fn spec_state(&self) -> State {
        self.inner.spec_state()
    }

    open spec fn spec_step(&self, next: Self) -> bool {
        next.size == self.size && self.inner.spec_step(next.inner)
    }

    open spec fn spec_update(&self, dt: u64, next: Self) -> bool {
        next.size == self.size && self.inner.spec_update(dt, next.inner)
    }

    open spec fn spec_register(&self, next: Self) -> bool {
        next.size == self.size && self.inner.spec_register(next.inner)
    }

    open spec fn spec_load(&self, next: Self) -> bool {
        next.size == self.size && self.inner.spec_load(next.inner)
    }

    fn state(&self) -> (r: State) {
        self.inner.state()
    }

    fn step(&mut self) {
        self.inner.step();
    }

    fn update(&mut self, dt: u64) {
        self.inner.update(dt);
    }

    fn register(&mut self, registry: &mut LatexRegistry) {
        self.inner.register(registry);
    }

    fn load(&mut self, registry: &mut LatexRegistry, dice: &mut Dice) {
        self.inner.load(registry, dice);
    }
}

pub open spec fn sat_usize(v: int) -> usize {
    if v > usize::MAX {
        usize::MAX
    } else {
        v as usize
    }
}

impl<T: KnownSize> KnownSize for Margin<T> {
    open spec fn spec_width(&self) -> nat {
        sat_usize(self.inner.spec_width() + self.margin.1 + self.margin.3) as nat
    }

    open spec fn spec_height(&self) -> nat {
        sat_usize(self.inner.spec_height() + self.margin.0 + self.margin.2) as nat
    }

    fn width(&self) -> (r: usize) {
        self.inner.width().saturating_add(self.margin.1 as usize).saturating_add(
            self.margin.3 as usize,
        )
    }

    fn height(&self) -> (r: usize) {
        self.inner.height().saturating_add(self.margin.0 as usize).saturating_add(
            self.margin.2 as usize,
        )
    }
}

impl<T: KnownSize> KnownSize for Anchor<T> {
    open spec fn spec_width(&self) -> nat {
        self.inner.spec_width()
    }

    open spec fn spec_height(&self) -> nat {
        self.inner.spec_height()
    }

    fn width(&self) -> (r: usize) {
        self.inner.width()
    }

    fn height(&self) -> (r: usize) {
        self.inner.height()
    }
}

impl<T> KnownSize for WithSize<T> {
    open spec fn spec_width(&self) -> nat {
        self.size.0 as nat
    }

    open spec fn spec_height(&self) -> nat {
        self.size.1 as nat
    }

    fn width(&self) -> (r: usize) {
        self.size.0 as usize
    }

    fn height(&self) -> (r: usize) {
        self.size.1 as usize
    }
}

/// Sum of the widths (`along_width`) or heights of the first `k` elements.
pub open spec fn extent_sum<C: KnownSize>(s: Seq<C>, along_width: bool, k: int) -> int
    decreases k,
{
    if k <= 0 {
        0
    } else {
        extent_sum(s, along_width, k - 1) + if along_width {
            s[k - 1].spec_width() as int
        } else {
            s[k - 1].spec_height() as int
        }
    }
}

/// Largest width (`along_width`) or height of the first `k` elements.
pub open spec fn extent_max<C: KnownSize>(s: Seq<C>, along_width: bool, k: int) -> int
    decreases k,
{
    if k <= 0 {
        0
    } else {
        let e = if along_width {
            s[k - 1].spec_width() as int
        } else {
            s[k - 1].spec_height() as int
        };
        let m = extent_max(s, along_width, k - 1);
        if e > m {
            e
        } else {
            m
        }
    }
}

/// The size of a stack along one axis: the sum of the elements plus the margins between them
/// along the stacking direction, the largest element across it (saturating).
pub open spec fn stack_extent<C: KnownSize>(
    s: Seq<C>,
    margin: u32,
    stacked: bool,
    along_width: bool,
) -> nat {
    if stacked {
        sat_usize(
            extent_sum(s, along_width, s.len() as int) + margin * if s.len() > 0 {
                s.len() - 1
            } else {
                0
            },
        ) as nat
    } else {
        extent_max(s, along_width, s.len() as int) as nat
    }
}

fn stack_measure<C: KnownSize>(content: &Vec<C>, margin: u32, stacked: bool, along_width: bool) -> (r: usize)
    ensures
        r == stack_extent(content@, margin, stacked, along_width),
{
    let cap: u128 = usize::MAX as u128 + 1;
    let mut sum: u128 = 0;
    let mut max: usize = 0;
    let mut i: usize = 0;
    while i < content.len()
        invariant
            i <= content@.len(),
            cap == usize::MAX + 1,
            sum == if extent_sum(content@, along_width, i as int) > cap {
                cap as int
            } else {
                extent_sum(content@, along_width, i as int)
            },
            max == extent_max(content@, along_width, i as int),
            0 <= extent_sum(content@, along_width, i as int),
        decreases content@.len() - i,
    {
        let e = if along_width {
            content[i].width()
        } else {
            content[i].height()
        };
        sum = sum + e as u128;
        if sum > cap {
            sum = cap;
        }
        if e > max {
            max = e;
        }
        i += 1;
    }
    if !stacked {
        return max;
    }
    let gaps: u128 = if content.len() > 0 {
        content.len() as u128 - 1
    } else {
        0
    };
    assert(gaps * (margin as int) <= usize::MAX * u32::MAX) by (nonlinear_arith)
        requires
            gaps <= usize::MAX,
            margin <= u32::MAX,
    ;
    let total = sum + gaps * margin as u128;
    assert((margin as int) * (gaps as int) == (gaps as int) * (margin as int) && 0 <= (gaps as int)
        * (margin as int)) by (nonlinear_arith)
        requires
            0 <= gaps,
            0 <= margin,
    ;
    if total > usize::MAX as u128 {
        usize::MAX
    } else {
        total as usize
    }
}

impl<C: KnownSize> KnownSize for Stack<C> {
    open spec fn spec_width(&self) -> nat {
        stack_extent(self.content@, self.margin, self.orientation == Orientation::Horizontal, true)
    }

    open spec fn spec_height(&self) -> nat {
        stack_extent(self.content@, self.margin, self.orientation == Orientation::Vertical, false)
    }

    fn width(&self) -> (r: usize) {
        stack_measure(&self.content, self.margin, self.orientation == Orientation::Horizontal, true)
    }

    fn height(&self) -> (r: usize) {
        stack_measure(&self.content, self.margin, self.orientation == Orientation::Vertical, false)
    }
}

} // verus!
