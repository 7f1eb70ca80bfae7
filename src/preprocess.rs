//! Turning a compressed camera frame into a template: decode to 8-bit gray,
//! resize to `FACE_SIZE` x `FACE_SIZE` with a triangle filter, then binarize
//! each pixel against the mean of its neighbourhood.
use vstd::prelude::*;

verus! {

/// Side of the square template image, in pixels.
pub const FACE_SIZE: u32 = 64;

/// Number of bytes in a template: one per pixel.
pub const TEMPLATE_LEN: usize = 4096;

/// Neighbourhood radius of the local thresholding step.
pub const THRESHOLD_RADIUS: u32 = 15;

/// A decoded 8-bit grayscale image, rows of `width` pixels one after another.
pub struct GrayFrame {
    pub width: u32,
    pub height: u32,
    pub pixels: Vec<u8>,
}

impl GrayFrame {
    pub open spec fn wf(&self) -> bool {
        self.pixels@.len() >= self.width as int * self.height as int
    }
}

/// Why a frame could not be turned into a template.
#[derive(Debug, PartialEq, Eq, Structural)]
pub enum FrameError {
    /// The bytes are not an image in a supported format.
    Decode,
}

/// What decoding `raw` as an image and reading it as 8-bit gray yields:
/// width, height and pixels, or nothing for bytes that are not an image.
pub uninterp spec fn luma_decoding(raw: Seq<u8>) -> Option<(u32, u32, Seq<u8>)>;

/// The pixels of a `width` x `height` gray image resized to
/// `new_width` x `new_height` with the triangle filter.
pub uninterp spec fn triangle_resized(
    pixels: Seq<u8>,
    width: u32,
    height: u32,
    new_width: u32,
    new_height: u32,
) -> Seq<u8>;

/// Sum of the pixels of row `y` from column `x0` to column `x1`, both included.
pub open spec fn row_sum(pixels: Seq<u8>, width: int, y: int, x0: int, x1: int) -> int
    decreases x1 - x0 + 1,
{
    if x1 < x0 {
        0
    } else {
        row_sum(pixels, width, y, x0, x1 - 1) + pixels[y * width + x1]
    }
}

/// Sum of the pixels of rows `y0` to `y1` and columns `x0` to `x1`, all included.
pub open spec fn block_sum(pixels: Seq<u8>, width: int, x0: int, x1: int, y0: int, y1: int) -> int
    decreases y1 - y0 + 1,
{
    if y1 < y0 {
        0
    } else {
        block_sum(pixels, width, x0, x1, y0, y1 - 1) + row_sum(pixels, width, y1, x0, x1)
    }
}

/// White (255) if the pixel at `(x, y)` is at least the integer mean of the
/// square of radius `radius` around it, cut to the image; else black (0).
pub open spec fn threshold_pixel(pixels: Seq<u8>, width: int, height: int, radius: int, x: int, y: int) -> u8 {
    let y0 = if y - radius > 0 { y - radius } else { 0 };
    let y1 = if y + radius < height - 1 { y + radius } else { height - 1 };
    let x0 = if x - radius > 0 { x - radius } else { 0 };
    let x1 = if x + radius < width - 1 { x + radius } else { width - 1 };
    let count = (y1 - y0 + 1) * (x1 - x0 + 1);
    if pixels[y * width + x] >= block_sum(pixels, width, x0, x1, y0, y1) / count {
        255
    } else {
        0
    }
}

/// The pixels of a `width` x `height` gray image after adaptive thresholding
/// with block radius `radius`.
pub open spec fn local_threshold(pixels: Seq<u8>, width: u32, height: u32, radius: u32) -> Seq<u8> {
    Seq::new(
        (width * height) as nat,
        |i: int| threshold_pixel(pixels, width as int, height as int, radius as int, i % width as int, i / width as int),
    )
}

/// Relies on `image::load_from_memory`, which guesses the format and decodes,
/// and on `DynamicImage::to_luma8`, which reads the decoded image as 8-bit gray.
#[verifier::external_body]
fn decode_gray(raw: &[u8]) -> (r: Option<GrayFrame>)
    ensures
        r is None <==> luma_decoding(raw@) is None,
        r matches Some(f) ==> f.wf() && luma_decoding(raw@) == Some((f.width, f.height, f.pixels@)),
{
    match image::load_from_memory(raw) {
        Ok(img) => {
            let gray = img.to_luma8();
            Some(GrayFrame { width: gray.width(), height: gray.height(), pixels: gray.into_raw() })
        },
        Err(_) => None,
    }
}

/// Relies on `image::imageops::resize` with `FilterType::Triangle`, which
/// returns an image of exactly the requested dimensions.
#[verifier::external_body]
fn resize_triangle(frame: &GrayFrame, new_width: u32, new_height: u32) -> (r: Vec<u8>)
    requires
        frame.wf(),
    ensures
        r@ == triangle_resized(frame.pixels@, frame.width, frame.height, new_width, new_height),
        r@.len() == new_width as int * new_height as int,
{
    let src: image::GrayImage = match image::ImageBuffer::from_raw(frame.width, frame.height, frame.pixels.clone()) {
        Some(img) => img,
        None => return Vec::new(),
    };
    image::imageops::resize(&src, new_width, new_height, image::imageops::FilterType::Triangle).into_raw()
}

/// Relies on `imageproc::contrast::adaptive_threshold`: it keeps the
/// dimensions, and each output pixel is white (255) where the input pixel is at
/// least the integer mean of its clamped neighbourhood, black (0) elsewhere. It
/// panics on a zero radius and overflows on a radius or a side near the `u32`
/// limit.
#[verifier::external_body]
fn threshold_adaptive(pixels: &Vec<u8>, width: u32, height: u32, radius: u32) -> (r: Vec<u8>)
    requires
        0 < radius <= 65536,
        width <= 65536,
        height <= 65536,
        pixels@.len() == width as int * height as int,
        width as int * height as int <= 65536,
    ensures
        r@ == local_threshold(pixels@, width, height, radius),
        r@.len() == pixels@.len(),
        forall|i: int| 0 <= i < r@.len() ==> #[trigger] r@[i] == 0 || r@[i] == 255,
{
    let src: image::GrayImage = match image::ImageBuffer::from_raw(width, height, pixels.clone()) {
        Some(img) => img,
        None => return Vec::new(),
    };
    imageproc::contrast::adaptive_threshold(&src, radius).into_raw()
}

/// The template of a compressed frame, or nothing if it does not decode.
pub open spec fn template_of(raw: Seq<u8>) -> Option<Seq<u8>> {
    match luma_decoding(raw) {
        None => None,
        Some((w, h, px)) => Some(
            local_threshold(
                triangle_resized(px, w, h, FACE_SIZE, FACE_SIZE),
                FACE_SIZE,
                FACE_SIZE,
                THRESHOLD_RADIUS,
            ),
        ),
    }
}

/// Every byte is black (0) or white (255).
pub open spec fn binarized(t: Seq<u8>) -> bool {
    forall|i: int| 0 <= i < t.len() ==> #[trigger] t[i] == 0 || t[i] == 255
}

/// Turns one compressed frame into a template of `TEMPLATE_LEN` binarized bytes.
pub fn process_face_image(raw: &[u8]) -> (r: Result<Vec<u8>, FrameError>)
    ensures
        r is Err <==> template_of(raw@) is None,
        r matches Ok(t) ==> template_of(raw@) == Some(t@) && t@.len() == TEMPLATE_LEN
            && binarized(t@),
        r matches Err(e) ==> e == FrameError::Decode,
{
    let frame = match decode_gray(raw) {
        Some(f) => f,
        None => return Err(FrameError::Decode),
    };
    let small = resize_triangle(&frame, FACE_SIZE, FACE_SIZE);
    let t = threshold_adaptive(&small, FACE_SIZE, FACE_SIZE, THRESHOLD_RADIUS);
    Ok(t)
}

/// Templates of the frames that decode, in frame order; the others are dropped.
pub open spec fn usable_templates(frames: Seq<Vec<u8>>) -> Seq<Seq<u8>>
    decreases frames.len(),
{
    if frames.len() == 0 {
        Seq::empty()
    } else {
        let prev = usable_templates(frames.drop_last());
        match template_of(frames.last()@) {
            Some(t) => prev.push(t),
            None => prev,
        }
    }
}

/// Turns a batch of frames into templates, silently skipping frames that do
/// not decode.
pub fn collect_templates(frames: &[Vec<u8>]) -> (r: Vec<Vec<u8>>)
    ensures
        r@.map_values(|t: Vec<u8>| t@) == usable_templates(frames@),
        forall|i: int|
            0 <= i < r@.len() ==> (#[trigger] r@[i])@.len() == TEMPLATE_LEN && binarized(r@[i]@),
{
    let mut out: Vec<Vec<u8>> = Vec::new();
    let mut i: usize = 0;
    while i < frames.len()
        invariant
            0 <= i <= frames@.len(),
            out@.map_values(|t: Vec<u8>| t@) == usable_templates(frames@.subrange(0, i as int)),
            forall|k: int|
                0 <= k < out@.len() ==> (#[trigger] out@[k])@.len() == TEMPLATE_LEN && binarized(
                    out@[k]@,
                ),
        decreases frames@.len() - i,
    {
        proof {
            assert(frames@.subrange(0, i as int + 1).drop_last() =~= frames@.subrange(0, i as int));
        }
        match process_face_image(frames[i].as_slice()) {
            Ok(t) => {
                out.push(t);
            },
            Err(_) => {},
        }
        proof {
            assert(out@.map_values(|t: Vec<u8>| t@) =~= usable_templates(frames@.subrange(0, i as int + 1)));
        }
        i = i + 1;
    }
    proof {
        assert(frames@.subrange(0, frames@.len() as int) =~= frames@);
    }
    out
}

/// Frames that all decode are all kept: one template each.
pub proof fn lemma_decodable_frames_all_kept(frames: Seq<Vec<u8>>)
    requires
        forall|i: int| 0 <= i < frames.len() ==> (#[trigger] template_of(frames[i]@)) is Some,
    ensures
        usable_templates(frames).len() == frames.len(),
    decreases frames.len(),
{
    if frames.len() > 0 {
        let p = frames.drop_last();
        assert forall|i: int| 0 <= i < p.len() implies (#[trigger] template_of(p[i]@)) is Some by {
            assert(p[i] == frames[i]);
        }
        lemma_decodable_frames_all_kept(p);
        assert(template_of(frames[frames.len() - 1]@) is Some);
    }
}

} // verus!
