use ytesrev::dice::Dice;
use ytesrev::image::PngImage;
use ytesrev::latex::LatexRegistry;
use ytesrev::ditherer::{DitherPhase, Ditherer};
use ytesrev::drawable::{Drawable, Empty, KnownSize, State};
use ytesrev::latex::LatexObj;
use ytesrev::layout::{ElementPositioning, Orientation, Split, Stack, UpdateOrder, WithSize};
use ytesrev::node::{Group, Leaf, Slide};
use ytesrev::solid::{Solid, Spinner};

fn text(expr: &'static str) -> Leaf {
    Leaf::Text(Ditherer::new(LatexObj::text(expr)))
}

#[test]
fn mixed_column_steps_first_working_group() {
    let mut slide = Slide::Column(Stack::new(
        10,
        Orientation::Vertical,
        ElementPositioning::Centered,
        true,
        vec![
            Group::Leaf(text("one")),
            Group::Leaf(Leaf::Spacer(WithSize::new((0, 40), Empty))),
            Group::Column(Stack::new(
                5,
                Orientation::Horizontal,
                ElementPositioning::TopLeftCornered,
                true,
                vec![text("two"), text("three")],
            )),
        ],
    ));
    assert_eq!(slide.state(), State::Working);
    slide.step();
    slide.step();
    match &slide {
        Slide::Column(stack) => {
            match &stack.content[0] {
                Group::Leaf(Leaf::Text(d)) => assert_eq!(d.dithering, DitherPhase::FadingIn),
                _ => panic!("first group is a text"),
            }
            match &stack.content[2] {
                Group::Column(inner) => match (&inner.content[0], &inner.content[1]) {
                    (Leaf::Text(a), Leaf::Text(b)) => {
                        assert_eq!(a.dithering, DitherPhase::FadingIn);
                        assert_eq!(b.dithering, DitherPhase::Idle);
                    }
                    _ => panic!("inner column holds texts"),
                },
                _ => panic!("third group is a column"),
            }
        }
        _ => panic!("slide is a column"),
    }
}

#[test]
fn leaf_sizes() {
    assert_eq!(Leaf::Spacer(WithSize::new((7, 9), Empty)).width(), 7);
    assert_eq!(Leaf::Fill(Solid::new_rgba(0, 0, 0, 0)).height(), 0);
    assert_eq!(Group::Leaf(Leaf::Spacer(WithSize::new((7, 9), Empty))).height(), 9);
}

#[test]
fn spinner_turns_until_stepped() {
    let mut s = Spinner::new();
    s.update(250);
    s.update(u64::MAX);
    assert_eq!(s.elapsed, u64::MAX);
    assert_eq!(s.state(), State::Final);
    s.step();
    assert_eq!(s.state(), State::Hidden);

    let mut slide = Slide::Halves(Split::new_const(
        10,
        Orientation::Vertical,
        UpdateOrder::FirstSecond,
        text("title"),
        Group::Leaf(Leaf::Spin(Spinner::new())),
    ));
    slide.update(40);
    match &slide {
        Slide::Halves(split) => match &split.second {
            Group::Leaf(Leaf::Spin(s)) => assert_eq!(s.elapsed, 40),
            _ => panic!("second half spins"),
        },
        _ => panic!("slide is split"),
    }
}

#[test]
fn loading_a_slide_builds_nested_schedules() {
    let picture = |w: usize, h: usize| PngImage { width: w, height: h, data: vec![255; w * h * 4] };
    let mut slide = Slide::Halves(Split::new_const(
        10,
        Orientation::Vertical,
        UpdateOrder::Simultaneous,
        Leaf::Picture(Ditherer::new(picture(3, 2))),
        Group::Column(Stack::new(
            0,
            Orientation::Horizontal,
            ElementPositioning::TopLeftCornered,
            false,
            vec![Leaf::Picture(Ditherer::new(picture(4, 4))), text("x")],
        )),
    ));
    let mut registry = LatexRegistry::new();
    let mut dice = Dice::seeded(1);
    slide.register(&mut registry);
    assert_eq!(registry.equations.len(), 1);
    slide.load(&mut registry, &mut dice);
    match &slide {
        Slide::Halves(split) => {
            match &split.first {
                Leaf::Picture(d) => assert_eq!(d.dither.as_ref().unwrap().times.len(), 2),
                _ => panic!("first half is a picture"),
            }
            match &split.second {
                Group::Column(stack) => match &stack.content[0] {
                    Leaf::Picture(d) => assert_eq!(d.dither.as_ref().unwrap().times.len(), 4),
                    _ => panic!("first element is a picture"),
                },
                _ => panic!("second half is a column"),
            }
        }
        _ => panic!("slide is split"),
    }
}
