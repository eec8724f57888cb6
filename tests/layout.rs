use ytesrev::ditherer::{DitherPhase, Ditherer};
use ytesrev::drawable::{Drawable, Empty, KnownSize, State};
use ytesrev::geometry::SplitAmount;
use ytesrev::image::PngImage;
use ytesrev::layout::{
    ElementPositioning, Layered, Margin, Orientation, Split, Stack, UpdateOrder, WithSize,
};
use ytesrev::solid::Solid;

fn image(width: usize, height: usize) -> PngImage {
    PngImage { width, height, data: vec![255; width * height * 4] }
}

#[test]
fn sequential_step_advances_first_working_child() {
    let mut stack = Stack::new(
        0,
        Orientation::Vertical,
        ElementPositioning::TopLeftCornered,
        true,
        vec![Ditherer::new(image(2, 2)), Ditherer::new(image(3, 3))],
    );
    assert_eq!(stack.content[0].state(), State::Working);
    assert_eq!(stack.content[1].state(), State::Working);
    stack.step();
    assert_eq!(stack.content[0].dithering, DitherPhase::FadingIn);
    assert_eq!(stack.content[1].dithering, DitherPhase::Idle);
    assert_eq!(stack.state(), State::Working);
    stack.step();
    assert_eq!(stack.content[1].dithering, DitherPhase::FadingIn);
    assert_eq!(stack.state(), State::Final);
    // Nothing works any more: every final child steps together.
    stack.step();
    assert_eq!(stack.content[0].dithering, DitherPhase::FadingOut);
    assert_eq!(stack.content[1].dithering, DitherPhase::FadingOut);
}

#[test]
fn simultaneous_step_advances_every_working_child() {
    let mut layers = Layered::new(false, vec![Ditherer::new(image(1, 1)), Ditherer::new(image(1, 1))]);
    layers.step();
    assert_eq!(layers.content[0].dithering, DitherPhase::FadingIn);
    assert_eq!(layers.content[1].dithering, DitherPhase::FadingIn);
}

#[test]
fn container_state_is_least_complete_child() {
    let empty: Layered<Solid> = Layered::new(true, vec![]);
    assert_eq!(empty.state(), State::Hidden);
    let mut layers = Layered::new(true, vec![Solid::new_rgba(1, 2, 3, 4), Solid::new_rgba(0, 0, 0, 255)]);
    assert_eq!(layers.state(), State::Final);
    layers.step();
    assert_eq!(layers.state(), State::Hidden);
}

#[test]
fn split_steps_in_order() {
    let mut split = Split::new(
        SplitAmount::Fraction(1, 2),
        Orientation::Horizontal,
        UpdateOrder::SecondFirst,
        Ditherer::new(image(1, 1)),
        Ditherer::new(image(1, 1)),
    );
    split.step();
    assert_eq!(split.first.dithering, DitherPhase::Idle);
    assert_eq!(split.second.dithering, DitherPhase::FadingIn);
    split.step();
    assert_eq!(split.first.dithering, DitherPhase::FadingIn);
    split.step();
    assert_eq!(split.first.dithering, DitherPhase::FadingOut);
    assert_eq!(split.second.dithering, DitherPhase::FadingOut);
    // A hidden half is not stepped again; the final one is.
    let mut hidden = Split::new_const(
        1,
        Orientation::Horizontal,
        UpdateOrder::FirstSecond,
        Solid::new_rgba(0, 0, 0, 0),
        Solid::new_rgba(0, 0, 0, 0),
    );
    hidden.first.shown = false;
    hidden.step();
    assert!(!hidden.first.shown);
    assert!(!hidden.second.shown);

    let mut both = Split::new_const(
        10,
        Orientation::Vertical,
        UpdateOrder::Simultaneous,
        Ditherer::new(image(1, 1)),
        Ditherer::new(image(1, 1)),
    );
    both.step();
    // Each working half steps once.
    assert_eq!(both.first.dithering, DitherPhase::FadingIn);
    assert_eq!(both.second.dithering, DitherPhase::FadingIn);
    both.step();
    assert_eq!(both.first.dithering, DitherPhase::FadingOut);
    assert_eq!(both.second.dithering, DitherPhase::FadingOut);

    // A working half beside a final one: only the working half steps.
    let mut mixed = Split::new_const(
        10,
        Orientation::Vertical,
        UpdateOrder::Simultaneous,
        Ditherer::new(image(1, 1)),
        Ditherer::dithered_in(image(1, 1)),
    );
    mixed.step();
    assert_eq!(mixed.first.dithering, DitherPhase::FadingIn);
    assert_eq!(mixed.second.dithering, DitherPhase::FadingIn);
}

#[test]
fn stack_sizes() {
    let stack = Stack::new(
        5,
        Orientation::Vertical,
        ElementPositioning::Centered,
        true,
        vec![WithSize::new((10, 20), Empty), WithSize::new((30, 4), Empty)],
    );
    assert_eq!(stack.width(), 30);
    assert_eq!(stack.height(), 29);
    let row = Stack::new(
        5,
        Orientation::Horizontal,
        ElementPositioning::Centered,
        true,
        vec![WithSize::new((10, 20), Empty), WithSize::new((30, 4), Empty)],
    );
    assert_eq!(row.width(), 45);
    assert_eq!(row.height(), 20);
    let margin = Margin::new_vert_hor(3, 4, WithSize::new((10, 10), Empty));
    assert_eq!((margin.width(), margin.height()), (18, 16));
}
