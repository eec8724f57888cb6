use ytesrev::dice::Dice;
use ytesrev::drawable::{Drawable, KnownSize};
use ytesrev::image::PngImage;
use ytesrev::latex::{
    add_prelude, merge_probes, read_image, register_equation, zero_pad, LatexError, LatexObj,
    LatexRegistry,
};

#[test]
fn math_and_text_objects() {
    let e_mc2 = LatexObj::math("E = mc^2");
    assert!(!e_mc2.is_text);
    assert_eq!(e_mc2.expr, "E = mc^2");

    let lorem = LatexObj::text("Lorem Ipsum");
    assert!(lorem.is_text);
    assert_eq!(lorem.expr, "Lorem Ipsum");
}

#[test]
fn unrendered_equation_is_not_loaded() {
    let mut registry = LatexRegistry::new();
    let idx = register_equation(&mut registry, "a^2 + b^2 = c+2", false);
    assert_eq!(read_image(&mut registry, idx).err(), Some(LatexError::NotLoaded));
}

#[test]
fn rendered_image_is_read_once() {
    let mut registry = LatexRegistry::new();
    let first = register_equation(&mut registry, "x", false);
    let _second = register_equation(&mut registry, "y", true);
    assert!(registry.store_rendered(0, PngImage { width: 1, height: 1, data: vec![1, 2, 3, 4] }));
    assert!(!registry.store_rendered(2, PngImage { width: 0, height: 0, data: vec![] }));
    let image = read_image(&mut registry, first).unwrap();
    assert_eq!(image.data, vec![1, 2, 3, 4]);
    assert!(registry.equations[0].image.is_none());
}

#[test]
fn latex_object_loads_its_image() {
    let mut registry = LatexRegistry::new();
    let mut dice = Dice::seeded(0);
    let mut obj = LatexObj::text("Thing 1");
    obj.register(&mut registry);
    assert_eq!(registry.equations.len(), 1);
    assert_eq!(registry.equations[0].expr, "Thing 1");
    registry.store_rendered(0, PngImage { width: 2, height: 1, data: vec![9; 8] });
    obj.load(&mut registry, &mut dice);
    assert!(obj.rendered);
    assert_eq!((obj.width(), obj.height()), (2, 1));
    // Loading again finds nothing and keeps the image.
    obj.load(&mut registry, &mut dice);
    assert!(obj.rendered);
    assert_eq!(obj.width(), 2);
}

#[test]
fn zero_padding() {
    assert_eq!(zero_pad("7".to_string(), 3), "007");
    assert_eq!(zero_pad("1234".to_string(), 2), "1234");
    assert_eq!(zero_pad("".to_string(), 2), "00");
}

#[test]
fn document_source() {
    let mut registry = LatexRegistry::new();
    add_prelude(&mut registry, "\\usepackage{skull}");
    register_equation(&mut registry, "a+b", false);
    register_equation(&mut registry, "Hi", true);
    let doc = registry.tex_source("HEAD\n", "TAIL\n");
    let mut expected = String::from("HEAD\n\\usepackage{skull}\nTAIL\n");
    for (body, color) in [("$ a+b $", "red"), ("$ a+b $", "blue"), ("Hi", "red"), ("Hi", "blue")] {
        expected.push_str("\\begin{equation*}\n\\colorbox{");
        expected.push_str(color);
        expected.push_str("}{\\makebox[\\linewidth]{\n");
        expected.push_str(body);
        expected.push_str("\n} }\n\\end{equation*}\n");
    }
    expected.push_str("\\end{document}\n");
    assert_eq!(doc, expected);
}

fn probes(width: usize, height: usize, ink: &[(usize, usize)]) -> (PngImage, PngImage) {
    let mut red = vec![0u8; width * height * 4];
    let mut blue = vec![0u8; width * height * 4];
    for i in 0..width * height {
        let (x, y) = (i % width, i / width);
        if ink.contains(&(x, y)) {
            continue;
        }
        red[4 * i] = 255;
        red[4 * i + 3] = 255;
        blue[4 * i + 2] = 255;
        blue[4 * i + 3] = 255;
    }
    (
        PngImage { width, height, data: red },
        PngImage { width, height, data: blue },
    )
}

#[test]
fn probes_merge_into_cropped_alpha_image() {
    let (red, blue) = probes(10, 10, &[(5, 5)]);
    let merged = merge_probes(&red, &blue).unwrap();
    assert_eq!((merged.width, merged.height), (7, 7));
    assert_eq!(merged.data.len(), 7 * 7 * 4);
    let at = |x: usize, y: usize| -> &[u8] { &merged.data[(y * 7 + x) * 4..(y * 7 + x) * 4 + 4] };
    assert_eq!(at(3, 3), &[0, 0, 0, 255]);
    assert_eq!(at(0, 0)[3], 0);
}

#[test]
fn mismatched_probes_do_not_merge() {
    let (red, _) = probes(4, 4, &[]);
    let (blue, _) = probes(5, 4, &[]);
    assert!(merge_probes(&red, &blue).is_none());
    let empty = PngImage { width: 0, height: 0, data: vec![] };
    assert!(merge_probes(&empty, &empty).is_none());
}
