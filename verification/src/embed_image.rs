//! Report images made small enough to embed in an LMS comment: scaled into
//! the embedding box, then encoded as JPEG at ever smaller sizes and
//! qualities until one encoding fits.
use vstd::prelude::*;
use crate::errors::HostError;
use crate::report::{
    embed_encode_attempts, finish_embed_choice, fits_within, next_embed_choice, EmbedStep, MAX_EMBEDDED_IMAGE_BYTES,
    MAX_EMBEDDED_IMAGE_HEIGHT_PX, MAX_EMBEDDED_IMAGE_WIDTH_PX,
};
use crate::seqs::{first_index, lemma_first_index_is};
use crate::text::{owned, push_text};

verus! {

/// An image as 8-bit RGB pixels, row by row, three bytes a pixel.
#[derive(Debug)]
pub struct RgbImage {
    pub width: u32,
    pub height: u32,
    pub pixels: Vec<u8>,
}

/// The image as plain values: width, height and pixel bytes.
pub open spec fn image_view(image: RgbImage) -> (u32, u32, Seq<u8>) {
    (image.width, image.height, image.pixels@)
}

/// An image whose pixel bytes are exactly three per pixel.
pub open spec fn rgb_valid(v: (u32, u32, Seq<u8>)) -> bool {
    v.2.len() == 3 * v.0 * v.1
}

/// The resampling filters used when scaling an image down.
#[derive(Clone, Copy, Debug, PartialEq, Eq, Structural)]
pub enum ResizeFilter {
    CatmullRom,
    Triangle,
}

/// The number by which a filter is named in `resized`.
pub open spec fn filter_code(f: ResizeFilter) -> u8 {
    match f {
        ResizeFilter::CatmullRom => 0,
        ResizeFilter::Triangle => 1,
    }
}

/// The image (`width`, `height`, `pixels`) scaled with the filter numbered
/// `filter` to the largest size that fits in `max_width` x `max_height`,
/// keeping its aspect ratio.
pub uninterp spec fn resized(width: u32, height: u32, pixels: Seq<u8>, max_width: u32, max_height: u32, filter: u8) -> (
    u32,
    u32,
    Seq<u8>,
);

/// `DynamicImage::resize` on the image's RGB pixels, named `resized`. Its
/// source returns the image unchanged when the box equals the image's size,
/// and otherwise a size of at least one pixel each way that fits in the box
/// (`resize_dimensions`, which rounds a float ratio; the exact size is left
/// to the name). The result is again three bytes a pixel.
#[verifier::external_body]
fn resize_image(image: &RgbImage, max_width: u32, max_height: u32, filter: ResizeFilter) -> (r: RgbImage)
    requires
        rgb_valid(image_view(*image)),
    ensures
        image_view(r) == resized(image.width, image.height, image.pixels@, max_width, max_height, filter_code(filter)),
        rgb_valid(image_view(r)),
        max_width == image.width && max_height == image.height ==> image_view(r) == image_view(*image),
        1 <= max_width && 1 <= max_height && !(max_width == image.width && max_height == image.height) ==> 1 <= r.width
            <= max_width && 1 <= r.height <= max_height,
{
    let buffer = image::RgbImage::from_raw(image.width, image.height, image.pixels.clone()).unwrap();
    let f = match filter {
        ResizeFilter::CatmullRom => image::imageops::FilterType::CatmullRom,
        ResizeFilter::Triangle => image::imageops::FilterType::Triangle,
    };
    let out = image::DynamicImage::ImageRgb8(buffer).resize(max_width, max_height, f).to_rgb8();
    RgbImage { width: out.width(), height: out.height(), pixels: out.into_raw() }
}

/// The JPEG bytes of the image (`width`, `height`, `pixels`) at `quality`.
pub uninterp spec fn jpeg_encoding(width: u32, height: u32, pixels: Seq<u8>, quality: u8) -> Seq<u8>;

/// The JPEG encoder's message for an image size it refuses.
pub uninterp spec fn jpeg_refusal(width: u32, height: u32) -> Seq<char>;

/// Whether the JPEG encoder takes an image of this size: each side from 1
/// to 65535 pixels.
pub open spec fn jpeg_size_ok(v: (u32, u32, Seq<u8>)) -> bool {
    1 <= v.0 <= 65535 && 1 <= v.1 <= 65535
}

/// `JpegEncoder::new_with_quality(..).encode_image` on the image: its
/// source refuses exactly the sizes outside 1..=65535 on either side (with
/// an error naming the size, `jpeg_refusal`), and otherwise writes the bytes
/// named `jpeg_encoding` into a vector, which cannot fail.
#[verifier::external_body]
fn encode_jpeg_bytes(image: &RgbImage, quality: u8) -> (r: Result<Vec<u8>, String>)
    requires
        rgb_valid(image_view(*image)),
    ensures
        r is Ok <==> jpeg_size_ok(image_view(*image)),
        r matches Ok(b) ==> b@ == jpeg_encoding(image.width, image.height, image.pixels@, quality),
        r matches Err(m) ==> m@ == jpeg_refusal(image.width, image.height),
{
    let buffer = image::RgbImage::from_raw(image.width, image.height, image.pixels.clone()).unwrap();
    let rgb = image::DynamicImage::ImageRgb8(buffer);
    let mut output = std::io::Cursor::new(Vec::new());
    let mut encoder = image::codecs::jpeg::JpegEncoder::new_with_quality(&mut output, quality);
    match encoder.encode_image(&rgb) {
        Ok(()) => Ok(output.into_inner()),
        Err(err) => Err(format!("{err}")),
    }
}

/// The message of an image the JPEG encoder refused.
pub open spec fn jpeg_encode_message(image_path: Seq<char>, detail: Seq<char>) -> Seq<char> {
    "Could not encode answer image '"@ + image_path + "' as JPEG: "@ + detail
}

/// The image scaled into the embedding box with the Catmull-Rom filter, or
/// kept as it is when it fits.
pub open spec fn downscaled(v: (u32, u32, Seq<u8>)) -> (u32, u32, Seq<u8>) {
    if v.0 <= MAX_EMBEDDED_IMAGE_WIDTH_PX && v.1 <= MAX_EMBEDDED_IMAGE_HEIGHT_PX {
        v
    } else {
        resized(v.0, v.1, v.2, MAX_EMBEDDED_IMAGE_WIDTH_PX, MAX_EMBEDDED_IMAGE_HEIGHT_PX, filter_code(ResizeFilter::CatmullRom))
    }
}

/// An image copied pixel for pixel.
fn copy_image(image: &RgbImage) -> (r: RgbImage)
    ensures
        image_view(r) == image_view(*image),
{
    let pixels = image.pixels.clone();
    proof {
        assert(pixels@ =~= image.pixels@);
    }
    RgbImage { width: image.width, height: image.height, pixels }
}

/// An image scaled into the embedding box (kept as it is when it fits).
pub fn downscale_for_embed(image: RgbImage) -> (r: RgbImage)
    requires
        rgb_valid(image_view(image)),
    ensures
        image_view(r) == downscaled(image_view(image)),
        rgb_valid(image_view(r)),
        r.width <= MAX_EMBEDDED_IMAGE_WIDTH_PX && r.height <= MAX_EMBEDDED_IMAGE_HEIGHT_PX,
{
    if fits_within(image.width, image.height, MAX_EMBEDDED_IMAGE_WIDTH_PX, MAX_EMBEDDED_IMAGE_HEIGHT_PX) {
        return image;
    }
    resize_image(&image, MAX_EMBEDDED_IMAGE_WIDTH_PX, MAX_EMBEDDED_IMAGE_HEIGHT_PX, ResizeFilter::CatmullRom)
}

/// The image of one attempt: the base image scaled into the attempt's box
/// with the triangle filter, or kept as it is when it fits.
pub open spec fn attempt_image(base: (u32, u32, Seq<u8>), width: u32, height: u32) -> (u32, u32, Seq<u8>) {
    if base.0 <= width && base.1 <= height {
        base
    } else {
        resized(base.0, base.1, base.2, width, height, filter_code(ResizeFilter::Triangle))
    }
}

fn resize_for_attempt(image: &RgbImage, width: u32, height: u32) -> (r: RgbImage)
    requires
        rgb_valid(image_view(*image)),
        1 <= width,
        1 <= height,
    ensures
        image_view(r) == attempt_image(image_view(*image), width, height),
        rgb_valid(image_view(r)),
        !(image.width <= width && image.height <= height) ==> 1 <= r.width <= width && 1 <= r.height <= height,
{
    if fits_within(image.width, image.height, width, height) {
        return copy_image(image);
    }
    resize_image(image, width, height, ResizeFilter::Triangle)
}

/// The encodings tried for an embedded image, in order: the box to fit the
/// image into and the JPEG quality.
pub open spec fn embed_attempts() -> Seq<(u32, u32, u8)> {
    seq![(640u32, 420u32, 58u8), (560u32, 360u32, 48u8), (480u32, 320u32, 40u8), (360u32, 240u32, 34u8), (300u32, 200u32, 30u8)]
}

/// The JPEG encoding of each attempt on the base image.
pub open spec fn attempt_encodings(base: (u32, u32, Seq<u8>), attempts: Seq<(u32, u32, u8)>) -> Seq<Seq<u8>> {
    Seq::new(
        attempts.len(),
        |i: int| {
            let im = attempt_image(base, attempts[i].0, attempts[i].1);
            jpeg_encoding(im.0, im.1, im.2, attempts[i].2)
        },
    )
}

/// An encoding small enough to embed.
pub open spec fn fits_embed(e: Seq<u8>) -> bool {
    e.len() <= MAX_EMBEDDED_IMAGE_BYTES
}

/// The smallest of some encodings, the earliest on a tie.
pub open spec fn smallest_encoding(encs: Seq<Seq<u8>>) -> Seq<u8>
    decreases encs.len(),
{
    if encs.len() <= 1 {
        if encs.len() == 0 {
            Seq::empty()
        } else {
            encs[0]
        }
    } else {
        let s = smallest_encoding(encs.drop_last());
        if encs.last().len() < s.len() {
            encs.last()
        } else {
            s
        }
    }
}

/// The encoding kept from the attempts: the first small enough to embed,
/// else the smallest.
pub open spec fn embed_choice(encs: Seq<Seq<u8>>) -> Seq<u8> {
    let i = first_index(encs, |e: Seq<u8>| fits_embed(e));
    if i < encs.len() {
        encs[i]
    } else {
        smallest_encoding(encs)
    }
}

proof fn lemma_embed_choice_prefix(encs: Seq<Seq<u8>>, i: int)
    requires
        0 <= i < encs.len(),
        forall|j: int| 0 <= j < i ==> !fits_embed(#[trigger] encs[j]),
        fits_embed(encs[i]),
    ensures
        embed_choice(encs) == encs[i],
{
    lemma_first_index_is(encs, |e: Seq<u8>| fits_embed(e), i);
}

/// Encodes an image for embedding: it is scaled into the embedding box
/// (`downscaled`), then each of `embed_attempts` scales it into the
/// attempt's box and encodes it at the attempt's quality; the first encoding
/// small enough is used, else the smallest. The encoder refuses a scaled
/// image with an empty side, and the error names the image.
pub fn encode_image_for_embed(image: RgbImage, image_path: &str) -> (r: Result<(String, Vec<u8>), HostError>)
    requires
        rgb_valid(image_view(image)),
    ensures
        r is Ok <==> jpeg_size_ok(downscaled(image_view(image))),
        r matches Ok((mime, bytes)) ==> mime@ == "image/jpeg"@ && bytes@ == embed_choice(
            attempt_encodings(downscaled(image_view(image)), embed_attempts()),
        ),
        r matches Err(e) ==> e is Project && e.msg() == jpeg_encode_message(
            image_path@,
            jpeg_refusal(downscaled(image_view(image)).0, downscaled(image_view(image)).1),
        ),
{
    let base = downscale_for_embed(image);
    let attempts = embed_encode_attempts();
    let ghost bv = image_view(base);
    let ghost encs = attempt_encodings(bv, embed_attempts());
    proof {
        assert(attempts@ =~= embed_attempts());
    }
    let mut smallest: Option<Vec<u8>> = None;
    let mut i: usize = 0;
    while i < attempts.len()
        invariant
            attempts@ == embed_attempts(),
            bv == image_view(base),
            bv == downscaled(image_view(image)),
            rgb_valid(bv),
            bv.0 <= MAX_EMBEDDED_IMAGE_WIDTH_PX && bv.1 <= MAX_EMBEDDED_IMAGE_HEIGHT_PX,
            encs == attempt_encodings(bv, embed_attempts()),
            i <= 5,
            i > 0 ==> jpeg_size_ok(bv),
            forall|j: int| 0 <= j < i ==> !fits_embed(#[trigger] encs[j]),
            match smallest {
                Some(s) => i > 0 && s@ == smallest_encoding(encs.take(i as int)),
                None => i == 0,
            },
        decreases attempts@.len() - i,
    {
        let (width, height, quality) = attempts[i];
        let candidate = resize_for_attempt(&base, width, height);
        proof {
            if i == 0 {
                assert(image_view(candidate) == bv);
            }
        }
        let encoded = match encode_jpeg_bytes(&candidate, quality) {
            Ok(b) => b,
            Err(detail) => {
                let mut m = owned("Could not encode answer image '");
                push_text(&mut m, image_path);
                push_text(&mut m, "' as JPEG: ");
                push_text(&mut m, detail.as_str());
                proof {
                    assert(i == 0);
                    assert(m@ == jpeg_encode_message(image_path@, detail@));
                }
                return Err(HostError::Project(m));
            },
        };
        proof {
            assert(encoded@ == encs[i as int]);
            let t = encs.take(i + 1);
            assert(t.drop_last() =~= encs.take(i as int));
            assert(t.last() == encs[i as int]);
        }
        match next_embed_choice(smallest, encoded) {
            EmbedStep::Accept(bytes) => {
                proof {
                    lemma_embed_choice_prefix(encs, i as int);
                }
                return Ok((owned("image/jpeg"), bytes));
            },
            EmbedStep::Continue(kept) => {
                smallest = kept;
            },
        }
        i += 1;
    }
    proof {
        assert(encs.take(5) =~= encs);
        lemma_first_index_is(encs, |x: Seq<u8>| fits_embed(x), 5);
    }
    Ok((owned("image/jpeg"), finish_embed_choice(smallest)))
}

} // verus!
