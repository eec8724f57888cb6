//! LaTeX expressions, rendered together in one document.
//!
//! Expressions are registered first; the whole batch is then compiled and rasterized
//! outside the library (each expression twice, on a red and on a blue background), the two
//! probes are merged into one image with alpha, and each expression reads its image back.
use vstd::prelude::*;
use vstd::string::*;
use vstd::utf8::encode_utf8;

use crate::dice::Dice;
use crate::drawable::{Drawable, ImageContainer, KnownSize, State};
use crate::ditherer::lemma_pixel_of_byte;
use crate::geometry::half_trunc;
use crate::image::PngImage;
use crate::schedule::lemma_pixel_index;

verus! {

/// Why a rendered expression cannot be read.
#[derive(Clone, Copy, PartialEq, Eq, Debug, Structural)]
pub enum LatexError {
    /// No expression was registered under this index.
    NotExisting,
    /// The expression has not been rendered yet, or its image was read already.
    NotLoaded,
}

/// The handle of a registered expression. Only `register_equation` makes one.
pub struct LatexIdx(usize);

impl LatexIdx {
    /// The position of the expression in the registry.
    pub closed spec fn index(&self) -> nat {
        self.0 as nat
    }
}

/// A registered expression and, once rendered, its image.
pub struct Equation {
    /// The LaTeX source.
    pub expr: &'static str,
    /// Text rather than math (math is set between dollar signs).
    pub is_text: bool,
    /// The rendered image, until it is read.
    pub image: Option<PngImage>,
}

/// The expressions waiting to be rendered, the extra prelude lines of the document, and the
/// rendered images.
pub struct LatexRegistry {
    pub equations: Vec<Equation>,
    pub preludes: Vec<&'static str>,
}

impl LatexRegistry {
    /// An empty registry.
    pub fn new() -> (r: LatexRegistry)
        ensures
            r.equations@.len() == 0,
            r.preludes@.len() == 0,
    {
        LatexRegistry { equations: Vec::new(), preludes: Vec::new() }
    }

    /// Stores the rendered image of expression number `i`; returns whether `i` exists.
    pub fn store_rendered(&mut self, i: usize, image: PngImage) -> (r: bool)
        ensures
            r == (i < old(self).equations@.len()),
            final(self).preludes == old(self).preludes,
            r ==> final(self).equations@ == old(self).equations@.update(
                i as int,
                (Equation { image: Some(image), ..old(self).equations@[i as int] }),
            ),
            !r ==> final(self).equations@ == old(self).equations@,
    {
        if i >= self.equations.len() {
            return false;
        }
        self.equations[i].image = Some(image);
        true
    }
}

/// Registers `equation` to be rendered with the next batch.
pub fn register_equation(registry: &mut LatexRegistry, equation: &'static str, is_text: bool) -> (r: LatexIdx)
    ensures
        r.index() == old(registry).equations@.len(),
        final(registry).equations@ == old(registry).equations@.push(
            (Equation { expr: equation, is_text, image: None }),
        ),
        final(registry).preludes == old(registry).preludes,
{
    let idx = registry.equations.len();
    registry.equations.push(Equation { expr: equation, is_text, image: None });
    LatexIdx(idx)
}

/// Adds a line to the prelude of the document.
pub fn add_prelude(registry: &mut LatexRegistry, prelude: &'static str)
    ensures
        final(registry).preludes@ == old(registry).preludes@.push(prelude),
        final(registry).equations == old(registry).equations,
{
    registry.preludes.push(prelude);
}

/// Takes the rendered image of `idx` out of the registry.
pub fn read_image(registry: &mut LatexRegistry, idx: LatexIdx) -> (r: Result<PngImage, LatexError>)
    ensures
        final(registry).preludes == old(registry).preludes,
        idx.index() >= old(registry).equations@.len() ==> r == Err::<PngImage, LatexError>(
            LatexError::NotExisting,
        ) && final(registry).equations@ == old(registry).equations@,
        idx.index() < old(registry).equations@.len() ==> {
            let e = old(registry).equations@[idx.index() as int];
            match e.image {
                None => r == Err::<PngImage, LatexError>(LatexError::NotLoaded)
                    && final(registry).equations@ == old(registry).equations@,
                Some(img) => {
                    &&& r == Ok::<PngImage, LatexError>(img)
                    &&& final(registry).equations@ == old(registry).equations@.update(
                        idx.index() as int,
                        (Equation { image: None, ..e }),
                    )
                },
            }
        },
{
    let i = idx.0;
    if i >= registry.equations.len() {
        return Err(LatexError::NotExisting);
    }
    match registry.equations[i].image.take() {
        Some(img) => Ok(img),
        None => Err(LatexError::NotLoaded),
    }
}

/// `count` zeros.
pub open spec fn zeros(count: int) -> Seq<char> {
    Seq::new(if count > 0 { count as nat } else { 0 }, |_i: int| '0')
}

/// `n` padded on the left with zeros to `len` bytes.
pub fn zero_pad(n: String, len: usize) -> (r: String)
    ensures
        r@ == zeros(len - (encode_utf8(n@).len() as usize)) + n@,
{
    let text = n.as_str();
    let have = text.len();
    assert(have == encode_utf8(n@).len() as usize);
    let needed = if len > have { len - have } else { 0 };
    let mut res = String::new();
    let mut i: usize = 0;
    while i < needed
        invariant
            i <= needed,
            res@ == zeros(i as int),
        decreases needed - i,
    {
        res.append("0");
        proof {
            reveal_strlit("0");
            assert(res@ =~= zeros(i + 1));
        }
        i += 1;
    }
    res.append(text);
    assert(res@ =~= zeros(len - (encode_utf8(n@).len() as usize)) + n@);
    res
}

/// The document lines of one expression on a coloured background.
pub open spec fn equation_box(expr: Seq<char>, is_text: bool, color: Seq<char>) -> Seq<char> {
    "\\begin{equation*}\n\\colorbox{"@ + color + "}{\\makebox[\\linewidth]{\n"@ + (if is_text {
        expr
    } else {
        "$ "@ + expr + " $"@
    }) + "\n} }\n\\end{equation*}\n"@
}

/// The document lines of the expressions `eqs`, each on red and then on blue.
pub open spec fn equations_text(eqs: Seq<Equation>) -> Seq<char>
    decreases eqs.len(),
{
    if eqs.len() == 0 {
        Seq::empty()
    } else {
        let e = eqs.last();
        equations_text(eqs.drop_last()) + equation_box(e.expr@, e.is_text, "red"@) + equation_box(
            e.expr@,
            e.is_text,
            "blue"@,
        )
    }
}

/// The prelude lines, each followed by a line break.
pub open spec fn preludes_text(ps: Seq<&'static str>) -> Seq<char>
    decreases ps.len(),
{
    if ps.len() == 0 {
        Seq::empty()
    } else {
        preludes_text(ps.drop_last()) + ps.last()@ + "\n"@
    }
}

fn push_equation_box(out: &mut String, expr: &str, is_text: bool, color: &str)
    ensures
        final(out)@ == old(out)@ + equation_box(expr@, is_text, color@),
{
    out.append("\\begin{equation*}\n\\colorbox{");
    out.append(color);
    out.append("}{\\makebox[\\linewidth]{\n");
    if is_text {
        out.append(expr);
    } else {
        out.append("$ ");
        out.append(expr);
        out.append(" $");
    }
    out.append("\n} }\n\\end{equation*}\n");
    assert(final(out)@ =~= old(out)@ + equation_box(expr@, is_text, color@)) by {
        assert(equation_box(expr@, is_text, color@) =~= "\\begin{equation*}\n\\colorbox{"@ + color@
            + "}{\\makebox[\\linewidth]{\n"@ + (if is_text {
            expr@
        } else {
            "$ "@ + expr@ + " $"@
        }) + "\n} }\n\\end{equation*}\n"@);
    }
}

impl LatexRegistry {
    /// The source of the document that renders every registered expression: `head`, the
    /// prelude lines, `tail`, then each expression on a red and on a blue background.
    pub fn tex_source(&self, head: &str, tail: &str) -> (r: String)
        ensures
            r@ == head@ + preludes_text(self.preludes@) + tail@ + equations_text(self.equations@)
                + "\\end{document}\n"@,
    {
        let mut out = String::new();
        out.append(head);
        let mut i: usize = 0;
        while i < self.preludes.len()
            invariant
                i <= self.preludes@.len(),
                out@ == head@ + preludes_text(self.preludes@.take(i as int)),
            decreases self.preludes@.len() - i,
        {
            out.append(self.preludes[i]);
            out.append("\n");
            proof {
                assert(self.preludes@.take(i + 1).drop_last() =~= self.preludes@.take(i as int));
                assert(out@ =~= head@ + preludes_text(self.preludes@.take(i + 1)));
            }
            i += 1;
        }
        proof {
            assert(self.preludes@.take(self.preludes@.len() as int) =~= self.preludes@);
        }
        out.append(tail);
        let ghost start = out@;
        let mut k: usize = 0;
        while k < self.equations.len()
            invariant
                k <= self.equations@.len(),
                out@ == start + equations_text(self.equations@.take(k as int)),
            decreases self.equations@.len() - k,
        {
            let e = &self.equations[k];
            push_equation_box(&mut out, e.expr, e.is_text, "red");
            push_equation_box(&mut out, e.expr, e.is_text, "blue");
            proof {
                assert(self.equations@.take(k + 1).drop_last() =~= self.equations@.take(k as int));
                assert(out@ =~= start + equations_text(self.equations@.take(k + 1)));
            }
            k += 1;
        }
        proof {
            assert(self.equations@.take(self.equations@.len() as int) =~= self.equations@);
        }
        out.append("\\end{document}\n");
        proof {
            assert(out@ =~= head@ + preludes_text(self.preludes@) + tail@ + equations_text(
                self.equations@,
            ) + "\\end{document}\n"@);
        }
        out
    }
}

/// A LaTeX expression. Registering it queues it for rendering; loading reads its image.
pub struct LatexObj {
    /// The rendered image; empty until loaded.
    pub inner: PngImage,
    /// Whether `inner` holds the rendered image.
    pub rendered: bool,
    /// The registry handle, between registering and loading.
    pub id: Option<LatexIdx>,
    /// The LaTeX source.
    pub expr: &'static str,
    /// Text rather than math.
    pub is_text: bool,
}

impl LatexObj {
    /// The registry index the expression waits under, if any.
    pub open spec fn pending(&self) -> Option<nat> {
        match self.id {
            Some(i) => Some(i.index()),
            None => None,
        }
    }

    /// The rendered image waiting in `equations` for this expression, if any.
    pub open spec fn ready_image(&self, equations: Seq<Equation>) -> Option<PngImage> {
        match self.pending() {
            Some(i) => if i < equations.len() {
                equations[i as int].image
            } else {
                None
            },
            None => None,
        }
    }

    /// A math expression (set between dollar signs).
    pub fn math(expr: &'static str) -> (r: LatexObj)
        ensures
            r.expr == expr,
            !r.is_text,
            !r.rendered,
            r.inner.data@.len() == 0,
            r.pending() is None,
    {
        LatexObj {
            inner: PngImage { width: 0, height: 0, data: Vec::new() },
            rendered: false,
            id: None,
            expr,
            is_text: false,
        }
    }

    /// A text expression.
    pub fn text(expr: &'static str) -> (r: LatexObj)
        ensures
            r.expr == expr,
            r.is_text,
            !r.rendered,
            r.inner.data@.len() == 0,
            r.pending() is None,
    {
        LatexObj {
            inner: PngImage { width: 0, height: 0, data: Vec::new() },
            rendered: false,
            id: None,
            expr,
            is_text: true,
        }
    }
}

impl KnownSize for LatexObj {
    open spec fn spec_width(&self) -> nat {
        self.inner.width as nat
    }

    open spec fn spec_height(&self) -> nat {
        self.inner.height as nat
    }

    fn width(&self) -> (r: usize) {
        self.inner.width
    }

    fn height(&self) -> (r: usize) {
        self.inner.height
    }
}

impl ImageContainer for LatexObj {
    open spec fn spec_data(&self) -> Seq<u8> {
        self.inner.data@
    }

    fn get_data(&self) -> (r: &Vec<u8>) {
        &self.inner.data
    }

    fn into_data(self) -> (r: Vec<u8>) {
        self.inner.data
    }
}

impl Drawable for LatexObj {
    open spec fn spec_state(&self) -> State {
        State::Final
    }

    open spec fn spec_step(&self, next: Self) -> bool {
        next == *self
    }

    open spec fn spec_update(&self, dt: u64, next: Self) -> bool {
        next == *self
    }

    /// Registering queues the expression; the node keeps its source and image.
    open spec fn spec_register(&self, next: Self) -> bool {
        &&& next.pending() is Some
        &&& next.expr == self.expr
        &&& next.is_text == self.is_text
        &&& next.inner == self.inner
        &&& next.rendered == self.rendered
    }

    /// Loading consumes the registry handle; the node keeps its source.
    open spec fn spec_load(&self, next: Self) -> bool {
        &&& next.pending() is None
        &&& next.expr == self.expr
        &&& next.is_text == self.is_text
    }

    fn state(&self) -> (r: State) {
        State::Final
    }

    fn step(&mut self) {
    }

    fn update(&mut self, dt: u64) {
    }

    /// Queues the expression for rendering.
    fn register(&mut self, registry: &mut LatexRegistry)
        ensures
            final(registry).equations@ == old(registry).equations@.push(
                (Equation { expr: old(self).expr, is_text: old(self).is_text, image: None }),
            ),
            final(self).pending() == Some(old(registry).equations@.len()),
            final(self).expr == old(self).expr,
            final(self).is_text == old(self).is_text,
            final(self).inner == old(self).inner,
            final(self).rendered == old(self).rendered,
    {
        self.id = Some(register_equation(registry, self.expr, self.is_text));
    }

    /// Takes the rendered image from the registry, when the expression was registered and
    /// rendered.
    fn load(&mut self, registry: &mut LatexRegistry, dice: &mut Dice)
        ensures
            final(self).pending() is None,
            final(self).expr == old(self).expr,
            final(self).is_text == old(self).is_text,
            old(self).ready_image(old(registry).equations@) matches Some(img) ==> {
                &&& final(self).inner == img
                &&& final(self).rendered
            },
            old(self).ready_image(old(registry).equations@) is None ==> {
                &&& final(self).inner == old(self).inner
                &&& final(self).rendered == old(self).rendered
            },
    {
        if let Some(id) = self.id.take() {
            match read_image(registry, id) {
                Ok(image) => {
                    self.inner = image;
                    self.rendered = true;
                },
                Err(_) => {},
            }
        }
    }
}

pub open spec fn clamp_byte(v: int) -> int {
    if v < 0 {
        0
    } else if v > 255 {
        255
    } else {
        v
    }
}

/// The alpha of pixel `i` recovered from its probes: rendered on red and on blue, a pixel
/// that lets the background through differs between the two.
pub open spec fn probe_alpha(red: Seq<u8>, blue: Seq<u8>, i: int) -> int {
    let rdiff = red[4 * i] - blue[4 * i];
    let bdiff = blue[4 * i + 2] - red[4 * i + 2];
    clamp_byte(255 - half_trunc(rdiff + bdiff))
}

/// Byte `j` of the merged image: the first byte from the blue probe, the second and third
/// from the red probe, and the recovered alpha.
pub open spec fn merged_byte(red: Seq<u8>, blue: Seq<u8>, j: int) -> int {
    let i = j / 4;
    let c = j % 4;
    if c == 0 {
        blue[4 * i] as int
    } else if c == 3 {
        probe_alpha(red, blue, i)
    } else {
        red[j] as int
    }
}

/// Pixel `i` is ink: dark in some channel and opaque.
pub open spec fn is_ink(red: Seq<u8>, blue: Seq<u8>, i: int) -> bool {
    &&& (blue[4 * i] < 250 || red[4 * i] < 250 || red[4 * i + 2] < 250)
    &&& probe_alpha(red, blue, i) > 250
}

/// `(right, bottom, left, top)` bounds of the ink among the first `n` pixels of a `w`×`h`
/// image; `(0, 0, w, h)` when there is none.
pub open spec fn ink_box(red: Seq<u8>, blue: Seq<u8>, w: int, h: int, n: int) -> (int, int, int, int)
    decreases n,
{
    if n <= 0 {
        (0, 0, w, h)
    } else {
        let b = ink_box(red, blue, w, h, n - 1);
        let k = n - 1;
        let x = k % w;
        let y = k / w;
        if is_ink(red, blue, k) {
            (
                if x + 1 > b.0 {
                    x + 1
                } else {
                    b.0
                },
                if y + 1 > b.1 {
                    y + 1
                } else {
                    b.1
                },
                if x < b.2 {
                    x
                } else {
                    b.2
                },
                if y < b.3 {
                    y
                } else {
                    b.3
                },
            )
        } else {
            b
        }
    }
}

/// The crop `(left, top, width, height)`: the ink box grown by 3 pixels on each side, kept
/// inside the image (the last row and column excluded); empty when the box is.
pub open spec fn ink_crop(red: Seq<u8>, blue: Seq<u8>, w: int, h: int) -> (int, int, int, int) {
    let b = ink_box(red, blue, w, h, w * h);
    let right = if b.0 + 3 < w - 1 {
        b.0 + 3
    } else {
        w - 1
    };
    let bottom = if b.1 + 3 < h - 1 {
        b.1 + 3
    } else {
        h - 1
    };
    let left = if b.2 >= 3 {
        b.2 - 3
    } else {
        0
    };
    let top = if b.3 >= 3 {
        b.3 - 3
    } else {
        0
    };
    (
        left,
        top,
        if right > left {
            right - left
        } else {
            0
        },
        if bottom > top {
            bottom - top
        } else {
            0
        },
    )
}

proof fn lemma_box_bounds(red: Seq<u8>, blue: Seq<u8>, w: int, h: int, n: int)
    requires
        0 < w,
        0 < h,
        0 <= n <= w * h,
    ensures
        0 <= ink_box(red, blue, w, h, n).0 <= w,
        0 <= ink_box(red, blue, w, h, n).1 <= h,
        0 <= ink_box(red, blue, w, h, n).2 <= w,
        0 <= ink_box(red, blue, w, h, n).3 <= h,
    decreases n,
{
    if n > 0 {
        lemma_box_bounds(red, blue, w, h, n - 1);
        lemma_pixel_of_byte(4 * (n - 1), w, h);
        assert((4 * (n - 1)) / 4 == n - 1);
    }
}

/// Merges the two probes of one rendered expression, drawn on a red and on a blue
/// background, into an image with alpha, cropped to the ink with a 3 pixel border. `None`
/// when the probes differ in size or are empty.
pub fn merge_probes(red: &PngImage, blue: &PngImage) -> (r: Option<PngImage>)
    ensures
        r is None <==> !(red.width == blue.width && red.height == blue.height && red.width > 0
            && red.height > 0 && red.data@.len() == red.width * red.height * 4
            && blue.data@.len() == red.width * red.height * 4),
        r matches Some(img) ==> {
            let w = red.width as int;
            let h = red.height as int;
            let c = ink_crop(red.data@, blue.data@, w, h);
            &&& img.width == c.2
            &&& img.height == c.3
            &&& img.data@.len() == c.2 * c.3 * 4
            &&& forall|j: int|
                0 <= j < img.data@.len() ==> #[trigger] img.data@[j] as int == merged_byte(
                    red.data@,
                    blue.data@,
                    ((j / 4 / c.2 + c.1) * w + j / 4 % c.2 + c.0) * 4 + j % 4,
                )
        },
{
    let w = red.width;
    let h = red.height;
    if !(w == blue.width && h == blue.height && w > 0 && h > 0) {
        return None;
    }
    let rlen = red.data.len();
    let blen = blue.data.len();
    assert((w as int) * (h as int) <= u64::MAX * u64::MAX) by (nonlinear_arith)
        requires
            w <= u64::MAX,
            h <= u64::MAX,
    ;
    let area = w as u128 * h as u128;
    if !(area <= rlen as u128 && rlen as u128 == area * 4 && blen == rlen) {
        return None;
    }
    let n = area as usize;
    let ghost rd = red.data@;
    let ghost bd = blue.data@;
    let mut merged: Vec<u8> = Vec::new();
    let mut right: usize = 0;
    let mut bottom: usize = 0;
    let mut left: usize = w;
    let mut top: usize = h;
    let mut k: usize = 0;
    while k < n
        invariant
            n == w * h,
            0 < w,
            0 < h,
            rd.len() == 4 * n,
            bd.len() == 4 * n,
            4 * n <= usize::MAX,
            rd == red.data@,
            bd == blue.data@,
            k <= n,
            merged@.len() == 4 * k,
            forall|j: int| 0 <= j < 4 * k ==> #[trigger] merged@[j] as int == merged_byte(rd, bd, j),
            (right as int, bottom as int, left as int, top as int) == ink_box(
                rd,
                bd,
                w as int,
                h as int,
                k as int,
            ),
        decreases n - k,
    {
        let rr = red.data[4 * k] as i32;
        let rb = red.data[4 * k + 2] as i32;
        let br = blue.data[4 * k] as i32;
        let bb = blue.data[4 * k + 2] as i32;
        let sum = (rr - br) + (bb - rb);
        let half = if sum >= 0 {
            sum / 2
        } else {
            -((-sum) / 2)
        };
        let raw = 255 - half;
        let alpha: u8 = if raw < 0 {
            0
        } else if raw > 255 {
            255
        } else {
            raw as u8
        };
        assert(alpha as int == probe_alpha(rd, bd, k as int));
        let ghost before = merged@;
        merged.push(br as u8);
        merged.push(red.data[4 * k + 1]);
        merged.push(rb as u8);
        merged.push(alpha);
        proof {
            assert forall|j: int| 0 <= j < 4 * k + 4 implies #[trigger] merged@[j] as int
                == merged_byte(rd, bd, j) by {
                if j >= 4 * k {
                    assert(j / 4 == k);
                    assert(j % 4 == j - 4 * k);
                } else {
                    assert(merged@[j] == before[j]);
                }
            }
            lemma_pixel_of_byte(4 * k as int, w as int, h as int);
            assert((4 * k as int) / 4 == k);
        }
        let x = k % w;
        let y = k / w;
        if (br < 250 || rr < 250 || rb < 250) && alpha > 250 {
            if x + 1 > right {
                right = x + 1;
            }
            if y + 1 > bottom {
                bottom = y + 1;
            }
            if x < left {
                left = x;
            }
            if y < top {
                top = y;
            }
        }
        k += 1;
    }
    proof {
        lemma_box_bounds(rd, bd, w as int, h as int, n as int);
    }
    let right = if right < w - 1 && w - 1 - right > 3 {
        right + 3
    } else {
        w - 1
    };
    let bottom = if bottom < h - 1 && h - 1 - bottom > 3 {
        bottom + 3
    } else {
        h - 1
    };
    let left = if left >= 3 {
        left - 3
    } else {
        0
    };
    let top = if top >= 3 {
        top - 3
    } else {
        0
    };
    let cw = if right > left {
        right - left
    } else {
        0
    };
    let ch = if bottom > top {
        bottom - top
    } else {
        0
    };
    assert(cw * ch <= w * h) by (nonlinear_arith)
        requires
            cw <= w,
            ch <= h,
    ;
    let total = cw * ch * 4;
    let mut out: Vec<u8> = Vec::new();
    let mut j: usize = 0;
    while j < total
        invariant
            n == w * h,
            merged@.len() == 4 * n,
            4 * n <= usize::MAX,
            forall|i: int| 0 <= i < 4 * n ==> #[trigger] merged@[i] as int == merged_byte(rd, bd, i),
            total == cw * ch * 4,
            left + cw < w,
            top + ch < h,
            j <= total,
            out@.len() == j,
            forall|i: int|
                0 <= i < j ==> #[trigger] out@[i] as int == merged_byte(
                    rd,
                    bd,
                    ((i / 4 / (cw as int) + top) * w + i / 4 % (cw as int) + left) * 4 + i % 4,
                ),
        decreases total - j,
    {
        proof {
            lemma_pixel_of_byte(j as int, cw as int, ch as int);
        }
        let p = j / 4;
        let yy = p / cw + top;
        let xx = p % cw + left;
        proof {
            lemma_pixel_index(w as int, h as int, xx as int, yy as int, (j % 4) as int);
        }
        out.push(merged[(yy * w + xx) * 4 + j % 4]);
        j += 1;
    }
    Some(PngImage { width: cw, height: ch, data: out })
}

} // verus!
