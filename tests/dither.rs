use ytesrev::dice::Dice;
use ytesrev::ditherer::{opacity, DitherPhase, Ditherer, Frame, FULL_OPACITY, REVEAL_RATE, SOFTNESS};
use ytesrev::drawable::{DrawSettings, Drawable, State};
use ytesrev::image::PngImage;
use ytesrev::latex::LatexRegistry;
use ytesrev::schedule::{DitherDirection, DitherFn, Schedule};

fn solid_image(width: usize, height: usize, alpha: u8) -> PngImage {
    let mut data = Vec::new();
    for _ in 0..width * height {
        data.push(40);
        data.push(80);
        data.push(120);
        data.push(alpha);
    }
    PngImage { width, height, data }
}

fn loaded(image: PngImage, seed: u64) -> Ditherer<PngImage> {
    let mut d = Ditherer::new(image).with_direction(DitherDirection::NoDirection);
    let mut registry = LatexRegistry::new();
    let mut dice = Dice::seeded(seed);
    d.load(&mut registry, &mut dice);
    d
}

fn millis_to_finish(max_time: u64) -> u64 {
    max_time * 1000 / REVEAL_RATE + 1
}

#[test]
fn test_next() {
    assert_eq!(Some(DitherPhase::FadingIn), DitherPhase::Idle.next());
    assert_eq!(Some(DitherPhase::FadingOut), DitherPhase::FadingIn.next());
    assert_eq!(None, DitherPhase::FadingOut.next());
}

#[test]
fn full_reveal_of_solid_bitmap() {
    let source = solid_image(10, 10, 255);
    let mut d = loaded(source.clone(), 7);
    d.dither_in();
    let m = d.max_time();
    d.update(millis_to_finish(m));
    assert_eq!(d.state(), State::Final);
    assert!(d.is_dithered_in());
    assert_eq!(d.composite().unwrap(), source.data);
    assert!(matches!(d.frame(DrawSettings::main_window()), Frame::Inner));
}

#[test]
fn full_conceal_of_solid_bitmap() {
    let source = solid_image(10, 10, 255);
    let mut d = loaded(source, 7);
    d.dither_in();
    let m = d.max_time();
    d.update(millis_to_finish(m));
    d.step();
    assert_eq!(d.dithering, DitherPhase::FadingOut);
    d.update(millis_to_finish(m));
    assert_eq!(d.state(), State::Hidden);
    let pixels = d.composite().unwrap();
    assert_eq!(pixels.len(), 400);
    assert!(pixels.iter().all(|b| *b == 0));
    assert!(matches!(d.frame(DrawSettings::main_window()), Frame::Blank));
}

#[test]
fn single_pixel_bitmap() {
    let d = loaded(solid_image(1, 1, 200), 3);
    let schedule = d.dither.as_ref().unwrap();
    assert_eq!(schedule.times.len(), 1);
    assert_eq!(schedule.times[0].len(), 1);
    assert_eq!(schedule.times[0][0], schedule.peak);
    assert!(schedule.times[0][0] > 0);
    assert_eq!(d.max_time(), schedule.peak + SOFTNESS);

    let d = loaded(solid_image(1, 1, 0), 3);
    let schedule = d.dither.as_ref().unwrap();
    assert_eq!(schedule.times, vec![vec![0]]);
}

#[test]
fn zero_size_bitmap_gets_empty_schedule() {
    let d = loaded(solid_image(0, 0, 255), 1);
    assert_eq!(d.dither.as_ref().unwrap().times.len(), 0);
    let d = loaded(solid_image(5, 0, 255), 1);
    assert_eq!(d.dither.as_ref().unwrap().times.len(), 0);
}

#[test]
fn every_visible_pixel_is_scheduled() {
    let mut image = solid_image(30, 20, 0);
    for y in 0..20 {
        for x in 0..30 {
            let i = (y * 30 + x) * 4;
            image.data[i + 3] = if (x / 5 + y / 4) % 2 == 0 { 255 } else { 0 };
        }
    }
    for seed in 0..5 {
        let d = loaded(image.clone(), seed);
        let schedule = d.dither.as_ref().unwrap();
        assert_eq!(schedule.times.len(), 20);
        for y in 0..20 {
            assert_eq!(schedule.times[y].len(), 30);
            for x in 0..30 {
                let v = schedule.times[y][x];
                assert!(v <= schedule.peak);
                if image.data[(y * 30 + x) * 4 + 3] > 0 {
                    assert!(v > 0);
                }
            }
        }
    }
}

#[test]
fn same_seed_gives_same_schedule() {
    let mut image = solid_image(16, 16, 255);
    for i in 0..256 {
        image.data[i * 4 + 3] = ((i * 37) % 256) as u8;
    }
    let a = loaded(image.clone(), 11);
    let b = loaded(image, 11);
    assert_eq!(a.dither.unwrap().times, b.dither.unwrap().times);
}

#[test]
fn clocks_only_move_forward_and_freeze() {
    let mut d = loaded(solid_image(6, 6, 255), 5);
    d.update(100);
    assert_eq!(d.dither_in_time, 0);
    d.dither_in();
    let mut last = 0;
    for _ in 0..200 {
        d.update(16);
        assert!(d.dither_in_time >= last);
        last = d.dither_in_time;
    }
    assert!(d.is_dithered_in());
    let frozen = d.dither_in_time;
    d.update(1000);
    assert_eq!(d.dither_in_time, frozen);
    assert_eq!(d.dither_out_time, 0);
}

#[test]
fn opacity_formula_values() {
    // Unscaled: 1000 ms reach 350 units.
    assert_eq!(opacity(280, 1000, 0, 500), 70 * SOFTNESS);
    assert_eq!(opacity(0, 1000, 0, 500), FULL_OPACITY);
    assert_eq!(opacity(400, 1000, 0, 500), 0);
    assert_eq!(opacity(300, 2000, 1000, 500), SOFTNESS * 90);
    // Scaled: a schedule ending at 1750 finishes in 2500 ms.
    assert_eq!(opacity(0, 2500, 0, 1750), FULL_OPACITY);
    assert_eq!(opacity(1610, 2500, 2500, 1750), 0);
    for s in [0u64, 1, 139, 140, 500, 10_000] {
        for t in [0u64, 1, 400, 3000, u64::MAX] {
            assert!(opacity(s, t, t / 2, 900) <= FULL_OPACITY);
        }
    }
}

#[test]
fn lifecycle_steps_never_go_back() {
    let mut d = Ditherer::new(solid_image(2, 2, 255));
    assert_eq!(d.state(), State::Working);
    d.step();
    assert_eq!(d.dithering, DitherPhase::FadingIn);
    assert_eq!(d.state(), State::Final);
    d.step();
    assert_eq!(d.dithering, DitherPhase::FadingOut);
    d.step();
    d.step();
    assert_eq!(d.dithering, DitherPhase::FadingOut);
}

#[test]
fn already_revealed_ditherer_is_complete_after_load() {
    let mut d = Ditherer::dithered_in(solid_image(8, 8, 255));
    let mut registry = LatexRegistry::new();
    let mut dice = Dice::seeded(2);
    d.load(&mut registry, &mut dice);
    assert!(d.is_dithered_in());
    assert_eq!(d.state(), State::Final);
    assert!(matches!(d.frame(DrawSettings::main_window()), Frame::Inner));
}

#[test]
fn frame_before_load_falls_back() {
    let mut d = Ditherer::new(solid_image(3, 3, 255));
    assert!(matches!(d.frame(DrawSettings::main_window()), Frame::Blank));
    d.dither_in();
    d.dither_out();
    d.update(10);
    assert!(d.composite().is_none());
}

#[test]
fn notes_view_tints_pixels() {
    let d = loaded(solid_image(2, 2, 255), 9);
    match d.frame(DrawSettings::notes_window()) {
        Frame::Pixels(p) => {
            // Idle: red factor 1, green and blue 0.2; darkness 255 - (13 + 26 + 40) = 176.
            assert_eq!(&p[0..4], &[35, 35, 176, 255]);
        }
        _ => panic!("notes view shows pixels"),
    }
}

#[test]
fn long_schedule_completes_by_time_not_by_speed_up() {
    let mut d = Ditherer {
        inner: solid_image(2, 1, 255),
        dither: Some(Schedule { times: vec![vec![10_000, 5]], peak: 10_000 }),
        dither_in_time: 0,
        dither_out_time: 0,
        dither_fn: DitherFn::Alpha,
        direction: DitherDirection::Rightwards,
        dithering: DitherPhase::FadingOut,
    };
    let m = d.max_time();
    assert_eq!(m, 10_140);
    d.update(2500);
    // The picture is already gone (the speed-up reaches the end in 2500 ms) ...
    assert!(d.composite().unwrap().iter().all(|b| *b == 0));
    // ... but fade-out completes only once 2500 ms times the rate reaches max_time.
    assert_eq!(d.state(), State::Final);
    d.update(millis_to_finish(m) - 2500);
    assert_eq!(d.state(), State::Hidden);
    let frozen = d.dither_out_time;
    d.update(100);
    assert_eq!(d.dither_out_time, frozen);
}

#[test]
fn revealed_load_sets_exact_completion_time() {
    let mut d = Ditherer::dithered_in(solid_image(4, 4, 255));
    let mut registry = LatexRegistry::new();
    let mut dice = Dice::seeded(8);
    d.load(&mut registry, &mut dice);
    let m = d.max_time();
    assert_eq!(d.dither_in_time, (m * 1000 + REVEAL_RATE - 1) / REVEAL_RATE);
    assert!(d.dither_in_time * REVEAL_RATE >= m * 1000);
}

#[test]
fn transparent_pixels_are_only_seeds() {
    let mut image = solid_image(12, 12, 0);
    for y in 4..8 {
        for x in 4..8 {
            image.data[(y * 12 + x) * 4 + 3] = 255;
        }
    }
    for seed in 0..4 {
        let d = loaded(image.clone(), seed);
        let schedule = d.dither.as_ref().unwrap();
        for y in 0..12 {
            for x in 0..12 {
                let border = x == 0 || y == 0 || x == 11 || y == 11;
                if border && image.data[(y * 12 + x) * 4 + 3] == 0 {
                    assert_eq!(schedule.times[y][x], 0);
                }
            }
        }
    }
}

#[test]
fn caller_scored_schedule_covers_visible_pixels() {
    let mut d = Ditherer::new(solid_image(9, 7, 255)).with_direction(DitherDirection::Outwards);
    let mut registry = LatexRegistry::new();
    let mut dice = Dice::seeded(4);
    d.load_scored(&mut registry, &mut dice, |x: usize, y: usize| ((x * 7 + y * 13) % 5) as u64);
    let schedule = d.dither.as_ref().unwrap();
    assert_eq!(schedule.times.len(), 7);
    assert!(schedule.times.iter().all(|row| row.len() == 9 && row.iter().all(|v| *v > 0)));
}
