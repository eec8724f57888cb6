//! Bitmaps decoded from PNG files.
use vstd::prelude::*;

use crate::dice::Dice;
use crate::drawable::{Drawable, ImageContainer, KnownSize, State};
use crate::latex::LatexRegistry;

verus! {

#[verifier::external_type_specification]
#[verifier::external_body]
pub struct ExDecodingError(png::DecodingError);

/// A colour with alpha.
#[derive(Clone, Copy, PartialEq, Eq, Debug, Structural)]
pub struct Color {
    pub r: u8,
    pub g: u8,
    pub b: u8,
    pub a: u8,
}

/// The first frame of a PNG file, as the decoder hands it out.
pub struct DecodedPng {
    pub width: u32,
    pub height: u32,
    /// The PNG colour type: 0 grey, 2 RGB, 3 palette, 4 grey with alpha, 6 RGBA.
    pub color_type: u8,
    /// Bits per sample.
    pub bit_depth: u8,
    /// Bytes per row.
    pub line_size: usize,
    /// The rows, one after another; bytes past the last row are not part of the frame.
    pub samples: Vec<u8>,
}

/// The first frame that PNG decoding makes of a file: width, height, colour type, bit depth,
/// bytes per row and the samples; `None` when the file does not decode.
pub uninterp spec fn png_frame(bytes: Seq<u8>) -> Option<(u32, u32, u8, u8, usize, Seq<u8>)>;

/// Relies on `png::Decoder::new`, `Decoder::read_info` and `Reader::next_frame`: the first
/// frame decoded from the bytes with no transformations, or the decoder's error.
#[verifier::external_body]
fn decode_png(bytes: &[u8]) -> (r: Result<DecodedPng, png::DecodingError>)
    ensures
        r matches Ok(f) ==> png_frame(bytes@) == Some(
            (f.width, f.height, f.color_type, f.bit_depth, f.line_size, f.samples@),
        ),
        r is Err ==> png_frame(bytes@) is None,
{
    let mut reader = png::Decoder::new(bytes).read_info()?;
    let mut samples = vec![0u8; reader.output_buffer_size()];
    let info = reader.next_frame(&mut samples)?;
    Ok(DecodedPng {
        width: info.width,
        height: info.height,
        color_type: info.color_type as u8,
        bit_depth: info.bit_depth as u8,
        line_size: info.line_size,
        samples,
    })
}

/// Why an image could not be loaded.
#[derive(Clone, Copy, PartialEq, Eq, Debug, Structural)]
pub enum ImageError {
    /// The bytes are not a PNG file.
    Decode,
    /// The image is not 8-bit RGB or RGBA.
    Unsupported,
    /// The decoded rows do not match the image size.
    Malformed,
}

/// An image: `width * height` pixels of 4 bytes, blue, green, red, alpha.
#[derive(Clone)]
pub struct PngImage {
    pub width: usize,
    pub height: usize,
    pub data: Vec<u8>,
}

/// Samples per pixel of a supported colour type: 3 for RGB, 4 for RGBA.
pub open spec fn samples_per_pixel(color_type: u8) -> int {
    if color_type == 6 {
        4
    } else {
        3
    }
}

/// The colour of pixel `k` in decoded samples with `per` samples per pixel.
pub open spec fn source_color(samples: Seq<u8>, per: int, k: int) -> Color {
    Color {
        r: samples[per * k],
        g: samples[per * k + 1],
        b: samples[per * k + 2],
        a: if per == 4 {
            samples[per * k + 3]
        } else {
            255
        },
    }
}

/// The colour stored for pixel `k` of an image's bytes.
pub open spec fn stored_color(data: Seq<u8>, k: int) -> Color {
    Color { r: data[4 * k + 2], g: data[4 * k + 1], b: data[4 * k], a: data[4 * k + 3] }
}

/// The decoded frame can be loaded: 8-bit RGB or RGBA, rows packed as the size says.
pub open spec fn frame_loadable(f: (u32, u32, u8, u8, usize, Seq<u8>)) -> bool {
    &&& f.3 == 8
    &&& (f.2 == 2 || f.2 == 6)
    &&& f.4 == f.0 * samples_per_pixel(f.2)
    &&& f.5.len() >= f.0 * f.1 * samples_per_pixel(f.2)
}

proof fn lemma_sample_index(per: int, k: int, n: int)
    requires
        3 <= per <= 4,
        0 <= k < n,
    ensures
        0 <= per * k,
        per * k + per <= per * n,
        4 * k + 4 <= 4 * n,
{
    assert(per * k + per <= per * n) by (nonlinear_arith)
        requires
            3 <= per <= 4,
            0 <= k < n,
    ;
    assert(0 <= per * k) by (nonlinear_arith)
        requires
            3 <= per,
            0 <= k,
    ;
}

impl PngImage {
    /// Decodes a PNG file held in `bytes` and passes every pixel through `transform`.
    pub fn load_from_path_transform<F: Fn(Color) -> Color>(bytes: &[u8], transform: F) -> (r: Result<
        PngImage,
        ImageError,
    >)
        requires
            forall|c: Color| #[trigger] transform.requires((c,)),
        ensures
            png_frame(bytes@) is None ==> r == Err::<PngImage, ImageError>(ImageError::Decode),
            png_frame(bytes@) matches Some(f) ==> {
                &&& !(f.3 == 8 && (f.2 == 2 || f.2 == 6)) ==> r == Err::<PngImage, ImageError>(
                    ImageError::Unsupported,
                )
                &&& (f.3 == 8 && (f.2 == 2 || f.2 == 6)) && !frame_loadable(f) ==> r == Err::<
                    PngImage,
                    ImageError,
                >(ImageError::Malformed)
                &&& frame_loadable(f) ==> (r matches Ok(img) && {
                    &&& img.width == f.0
                    &&& img.height == f.1
                    &&& img.data@.len() == 4 * (f.0 * f.1)
                    &&& forall|k: int|
                        0 <= k < f.0 * f.1 ==> transform.ensures(
                            (source_color(f.5, samples_per_pixel(f.2), k),),
                            #[trigger] stored_color(img.data@, k),
                        )
                })
            },
    {
        let frame = match decode_png(bytes) {
            Ok(f) => f,
            Err(_) => {
                return Err(ImageError::Decode);
            },
        };
        if !(frame.bit_depth == 8 && (frame.color_type == 2 || frame.color_type == 6)) {
            return Err(ImageError::Unsupported);
        }
        let per: usize = if frame.color_type == 6 {
            4
        } else {
            3
        };
        assert((frame.width as int) * (frame.height as int) <= u32::MAX * u32::MAX) by (nonlinear_arith)
            requires
                frame.width <= u32::MAX,
                frame.height <= u32::MAX,
        ;
        let n = frame.width as u128 * frame.height as u128;
        assert((frame.width as int) * (per as int) <= u32::MAX * 4) by (nonlinear_arith)
            requires
                frame.width <= u32::MAX,
                per <= 4,
        ;
        if frame.line_size as u128 != frame.width as u128 * per as u128
            || (frame.samples.len() as u128) < n * per as u128 {
            return Err(ImageError::Malformed);
        }
        let total = frame.samples.len();
        let count = n as usize;
        let ghost px = frame.samples@;
        let mut data: Vec<u8> = Vec::new();
        let mut k: usize = 0;
        while k < count
            invariant
                k <= count,
                count == frame.width * frame.height,
                px == frame.samples@,
                px.len() >= per * count,
                px.len() <= usize::MAX,
                per == samples_per_pixel(frame.color_type),
                3 <= per <= 4,
                data@.len() == 4 * k,
                forall|c: Color| #[trigger] transform.requires((c,)),
                forall|j: int|
                    0 <= j < k ==> transform.ensures(
                        (source_color(px, per as int, j),),
                        #[trigger] stored_color(data@, j),
                    ),
            decreases count - k,
        {
            proof {
                lemma_sample_index(per as int, k as int, count as int);
            }
            let i = per * k;
            let a = if per == 4 {
                frame.samples[i + 3]
            } else {
                255
            };
            let c = Color { r: frame.samples[i], g: frame.samples[i + 1], b: frame.samples[i + 2], a };
            assert(c == source_color(px, per as int, k as int));
            let t = transform(c);
            let ghost before = data@;
            data.push(t.b);
            data.push(t.g);
            data.push(t.r);
            data.push(t.a);
            proof {
                assert forall|j: int| 0 <= j < k implies #[trigger] stored_color(data@, j)
                    == stored_color(before, j) by {}
                assert(stored_color(data@, k as int) == t);
            }
            k += 1;
        }
        Ok(PngImage { width: frame.width as usize, height: frame.height as usize, data })
    }

    /// Decodes a PNG file held in `bytes`.
    pub fn load_from_path(bytes: &[u8]) -> (r: Result<PngImage, ImageError>)
        ensures
            png_frame(bytes@) is None ==> r == Err::<PngImage, ImageError>(ImageError::Decode),
            png_frame(bytes@) matches Some(f) ==> {
                &&& !(f.3 == 8 && (f.2 == 2 || f.2 == 6)) ==> r == Err::<PngImage, ImageError>(
                    ImageError::Unsupported,
                )
                &&& (f.3 == 8 && (f.2 == 2 || f.2 == 6)) && !frame_loadable(f) ==> r == Err::<
                    PngImage,
                    ImageError,
                >(ImageError::Malformed)
                &&& frame_loadable(f) ==> (r matches Ok(img) && {
                    &&& img.width == f.0
                    &&& img.height == f.1
                    &&& img.data@.len() == 4 * (f.0 * f.1)
                    &&& forall|k: int|
                        0 <= k < f.0 * f.1 ==> #[trigger] stored_color(img.data@, k)
                            == source_color(f.5, samples_per_pixel(f.2), k)
                })
            },
    {
        PngImage::load_from_path_transform(bytes, |c: Color| -> (r: Color) ensures r == c { c })
    }
}

impl KnownSize for PngImage {
    open spec fn spec_width(&self) -> nat {
        self.width as nat
    }

    open spec fn spec_height(&self) -> nat {
        self.height as nat
    }

    fn width(&self) -> (r: usize) {
        self.width
    }

    fn height(&self) -> (r: usize) {
        self.height
    }
}

impl ImageContainer for PngImage {
    open spec fn spec_data(&self) -> Seq<u8> {
        self.data@
    }

    fn get_data(&self) -> (r: &Vec<u8>) {
        &self.data
    }

    fn into_data(self) -> (r: Vec<u8>) {
        self.data
    }
}

impl Drawable for PngImage {
    open spec fn spec_state(&self) -> State {
        State::Final
    }

    open spec fn spec_step(&self, next: Self) -> bool {
        next == *self
    }

    open spec fn spec_update(&self, dt: u64, next: Self) -> bool {
        next == *self
    }

    open spec fn spec_register(&self, next: Self) -> bool {
        next == *self
    }

    open spec fn spec_load(&self, next: Self) -> bool {
        next == *self
    }

    fn state(&self) -> (r: State) {
        State::Final
    }

    fn step(&mut self) {
    }

    fn update(&mut self, dt: u64) {
    }

    fn register(&mut self, registry: &mut LatexRegistry) {
    }

    fn load(&mut self, registry: &mut LatexRegistry, dice: &mut Dice) {
    }
}

} // verus!
