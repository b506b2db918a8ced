//! The input image on its way to the engine: the decoded image, the
//! fallback decoder's results, the size bound, and the writer of the
//! temporary file.

use vstd::prelude::*;
use crate::error::ReencodeFailure;

verus! {

#[verifier::external_type_specification]
#[verifier::external_body]
pub struct ExDynamicImage(image::DynamicImage);

/// A decoded image.
#[derive(Debug)]
pub struct InputImage {
    pixels: image::DynamicImage,
}

/// What the fallback decoder hands back: the extent and channel count
/// that it reports, and the interleaved samples.
#[derive(Debug, PartialEq, Eq)]
pub struct RawImage {
    pub width: i32,
    pub height: i32,
    pub channels: i32,
    pub samples: Vec<u8>,
}

/// Why the fallback decoder's result is no image.
#[derive(Clone, Copy, Debug, PartialEq, Eq, Structural)]
pub enum LoadError {
    /// The decoder failed, or handed back fewer samples than the extent
    /// that it reported asks for.
    Undecodable,
    /// The decoder reported a number of channels that no image has.
    BadChannelCount,
}

/// The number of samples in an image of the given extent and channel
/// count, where none of them is negative and the number fits the
/// machine.
pub open spec fn sample_count_of(width: i32, height: i32, channels: i32) -> Option<usize> {
    if width >= 0 && height >= 0 && channels >= 0 && width * height * channels <= usize::MAX {
        Some((width * height * channels) as usize)
    } else {
        None
    }
}

/// Whether the fallback decoder's result holds every sample of an image
/// of the extent and channel count that it reports.
pub open spec fn raw_is_complete(raw: RawImage) -> bool {
    &&& raw.width >= 0
    &&& raw.height >= 0
    &&& raw.channels * raw.width * raw.height <= raw.samples@.len()
}

/// What becomes of the fallback decoder's result: the extent of the
/// image, or the reason why there is none.
pub open spec fn fallback_outcome(raw: Option<RawImage>) -> Result<(u32, u32), LoadError> {
    match raw {
        None => Err(LoadError::Undecodable),
        Some(raw) => if raw.channels < 1 || raw.channels > 4 {
            Err(LoadError::BadChannelCount)
        } else if !raw_is_complete(raw) {
            Err(LoadError::Undecodable)
        } else {
            Ok((raw.width as u32, raw.height as u32))
        },
    }
}

/// Whether an image of the given extent can be brought within `bound`:
/// neither is empty, and the buffers of the resampling fit in memory.
pub open spec fn can_resize(width: u32, height: u32, bound: u32) -> bool {
    &&& width > 0
    &&& height > 0
    &&& bound > 0
    &&& 16 * width * bound <= isize::MAX
    &&& 16 * bound * bound <= isize::MAX
}

/// Whether an extent is not empty and lies within `bound`.
pub open spec fn is_within(extent: (u32, u32), bound: u32) -> bool {
    &&& 0 < extent.0 <= bound
    &&& 0 < extent.1 <= bound
}

/// The width and height of an image.
pub uninterp spec fn image_extent(image: image::DynamicImage) -> (u32, u32);

/// The number of channels of each pixel of an image.
pub uninterp spec fn image_channels(image: image::DynamicImage) -> int;

/// The samples of an image with 8-bit channels, in the order of its
/// buffer.
pub uninterp spec fn image_samples(image: image::DynamicImage) -> Seq<u8>;

/// The extent that `image::DynamicImage::resize` gives an image of the
/// extent `width` by `height` that is resized to the square of side
/// `bound`.
pub uninterp spec fn resized_extent(width: u32, height: u32, bound: u32) -> (u32, u32);

/// `image::DynamicImage::width`: the width of the image.
#[verifier::external_body]
fn image_width(image: &image::DynamicImage) -> (width: u32)
    ensures
        width == image_extent(*image).0,
{
    image.width()
}

/// `image::DynamicImage::height`: the height of the image.
#[verifier::external_body]
fn image_height(image: &image::DynamicImage) -> (height: u32)
    ensures
        height == image_extent(*image).1,
{
    image.height()
}

/// `image::ImageBuffer::from_vec` for one 8-bit channel. There is an
/// image exactly where the samples are at least as many as the extent
/// asks for; it has that extent and one channel, and holds the samples
/// as they came.
#[verifier::external_body]
fn luma_image(width: u32, height: u32, samples: Vec<u8>) -> (image: Option<image::DynamicImage>)
    ensures
        image.is_some() == (width * height <= samples@.len()),
        image matches Some(image) ==> {
            &&& image_extent(image) == (width, height)
            &&& image_channels(image) == 1
            &&& image_samples(image) == samples@
        },
{
    Some(image::DynamicImage::ImageLuma8(image::GrayImage::from_vec(width, height, samples)?))
}

/// `image::ImageBuffer::from_vec` for two 8-bit channels, with the
/// same claim.
#[verifier::external_body]
fn luma_alpha_image(width: u32, height: u32, samples: Vec<u8>) -> (image: Option<
    image::DynamicImage,
>)
    ensures
        image.is_some() == (2 * width * height <= samples@.len()),
        image matches Some(image) ==> {
            &&& image_extent(image) == (width, height)
            &&& image_channels(image) == 2
            &&& image_samples(image) == samples@
        },
{
    Some(image::DynamicImage::ImageLumaA8(image::GrayAlphaImage::from_vec(width, height, samples)?))
}

/// `image::ImageBuffer::from_vec` for three 8-bit channels, with the
/// same claim.
#[verifier::external_body]
fn rgb_image(width: u32, height: u32, samples: Vec<u8>) -> (image: Option<image::DynamicImage>)
    ensures
        image.is_some() == (3 * width * height <= samples@.len()),
        image matches Some(image) ==> {
            &&& image_extent(image) == (width, height)
            &&& image_channels(image) == 3
            &&& image_samples(image) == samples@
        },
{
    Some(image::DynamicImage::ImageRgb8(image::RgbImage::from_vec(width, height, samples)?))
}

/// `image::ImageBuffer::from_vec` for four 8-bit channels, with the
/// same claim.
#[verifier::external_body]
fn rgba_image(width: u32, height: u32, samples: Vec<u8>) -> (image: Option<image::DynamicImage>)
    ensures
        image.is_some() == (4 * width * height <= samples@.len()),
        image matches Some(image) ==> {
            &&& image_extent(image) == (width, height)
            &&& image_channels(image) == 4
            &&& image_samples(image) == samples@
        },
{
    Some(image::DynamicImage::ImageRgba8(image::RgbaImage::from_vec(width, height, samples)?))
}

/// `image::DynamicImage::resize` with the Lanczos filter of window 3,
/// to the square of side `bound`. The image must not be empty, and the
/// buffers that the resampling allocates must fit in memory. The
/// result has as many channels as the image, and its extent depends on
/// the extent of the image and on the bound alone; nothing more is
/// claimed.
#[verifier::external_body]
fn resize_lanczos(image: &image::DynamicImage, bound: u32) -> (resized: image::DynamicImage)
    requires
        can_resize(image_extent(*image).0, image_extent(*image).1, bound),
    ensures
        image_extent(resized) == resized_extent(
            image_extent(*image).0,
            image_extent(*image).1,
            bound,
        ),
        image_channels(resized) == image_channels(*image),
{
    image.resize(bound, bound, image::imageops::FilterType::Lanczos3)
}

impl InputImage {
    /// The decoded pixels.
    pub closed spec fn decoded(&self) -> image::DynamicImage {
        self.pixels
    }

    /// The width and height of the image.
    pub open spec fn extent(&self) -> (u32, u32) {
        image_extent(self.decoded())
    }

    /// The number of channels of each pixel.
    pub open spec fn channels(&self) -> int {
        image_channels(self.decoded())
    }

    /// Takes over an image that a decoder has made.
    pub fn from_decoded(pixels: image::DynamicImage) -> (image: InputImage)
        ensures
            image.decoded() == pixels,
    {
        InputImage { pixels }
    }

    /// The width of the image.
    pub fn width(&self) -> (width: u32)
        ensures
            width == self.extent().0,
    {
        image_width(&self.pixels)
    }

    /// The height of the image.
    pub fn height(&self) -> (height: u32)
        ensures
            height == self.extent().1,
    {
        image_height(&self.pixels)
    }

    /// The decoded pixels.
    pub fn pixels(&self) -> (pixels: &image::DynamicImage)
        ensures
            *pixels == self.decoded(),
    {
        &self.pixels
    }

    /// The extent as the encoder of the temporary file takes it: as two
    /// signed 32-bit numbers, where both fit.
    pub fn encoder_extent(&self) -> (extent: Option<(i32, i32)>)
        ensures
            extent == if self.extent().0 <= i32::MAX && self.extent().1 <= i32::MAX {
                Some((self.extent().0 as i32, self.extent().1 as i32))
            } else {
                None
            },
    {
        let width: u32 = self.width();
        let height: u32 = self.height();
        if width <= 0x7fff_ffff && height <= 0x7fff_ffff {
            Some((width as i32, height as i32))
        } else {
            None
        }
    }
}

/// The number of samples that the fallback decoder hands back for an
/// image of the extent and channel count that it reports: their
/// product, where none of them is negative and the product fits the
/// machine.
pub fn raw_sample_count(width: i32, height: i32, channels: i32) -> (count: Option<usize>)
    ensures
        count == sample_count_of(width, height, channels),
{
    if width < 0 || height < 0 || channels < 0 {
        return None;
    }
    let wide: u128 = width as u128;
    let high: u128 = height as u128;
    let deep: u128 = channels as u128;
    assert(wide * high <= 0x8000_0000 * 0x8000_0000) by (nonlinear_arith)
        requires
            wide < 0x8000_0000,
            high < 0x8000_0000,
    ;
    let area: u128 = wide * high;
    assert(area * deep <= 0x4000_0000_0000_0000 * 0x8000_0000) by (nonlinear_arith)
        requires
            area <= 0x4000_0000_0000_0000,
            deep < 0x8000_0000,
    ;
    let count: u128 = area * deep;
    if count <= usize::MAX as u128 {
        Some(count as usize)
    } else {
        None
    }
}

/// Makes an image of what the fallback decoder handed back, `None`
/// where it failed. The image has the extent and the number of
/// channels that the decoder reported, and holds the samples that it
/// handed back.
pub fn load_fallback_image(raw: Option<RawImage>) -> (image: Result<InputImage, LoadError>)
    ensures
        match image {
            Ok(image) => {
                &&& fallback_outcome(raw) == Ok::<(u32, u32), LoadError>(image.extent())
                &&& image.channels() == raw.unwrap().channels
                &&& image_samples(image.decoded()) == raw.unwrap().samples@
            },
            Err(error) => fallback_outcome(raw) == Err::<(u32, u32), LoadError>(error),
        },
{
    let raw = match raw {
        Some(raw) => raw,
        None => {
            return Err(LoadError::Undecodable);
        },
    };
    if raw.channels < 1 || raw.channels > 4 {
        return Err(LoadError::BadChannelCount);
    }
    if raw.width < 0 || raw.height < 0 {
        return Err(LoadError::Undecodable);
    }
    let width: u32 = raw.width as u32;
    let height: u32 = raw.height as u32;
    let channels: i32 = raw.channels;
    let ghost reported = raw;
    assert(reported.channels * reported.width * reported.height == channels * width * height)
        by (nonlinear_arith)
        requires
            reported.channels == channels,
            reported.width == width,
            reported.height == height,
    ;
    assert(1 * width * height == width * height) by (nonlinear_arith);
    let pixels = if channels == 1 {
        luma_image(width, height, raw.samples)
    } else if channels == 2 {
        luma_alpha_image(width, height, raw.samples)
    } else if channels == 3 {
        rgb_image(width, height, raw.samples)
    } else {
        rgba_image(width, height, raw.samples)
    };
    match pixels {
        Some(pixels) => Ok(InputImage::from_decoded(pixels)),
        None => Err(LoadError::Undecodable),
    }
}

/// Accepts a resized image that is not empty and lies within `bound`.
pub fn accept_resized(resized: InputImage, bound: u32) -> (image: Result<InputImage, ReencodeFailure>)
    ensures
        match image {
            Ok(image) => image == resized && is_within(resized.extent(), bound),
            Err(failure) => failure == ReencodeFailure::Resize && !is_within(resized.extent(), bound),
        },
{
    let width: u32 = resized.width();
    let height: u32 = resized.height();
    if 0 < width && width <= bound && 0 < height && height <= bound {
        Ok(resized)
    } else {
        Err(ReencodeFailure::Resize)
    }
}

/// What becomes of an image of the extent `width` by `height` that is
/// to be brought within `bound`: the extent of the resized image, or
/// nothing where the image cannot be resized or the resized image does
/// not lie within the bound.
pub open spec fn fitted_extent(width: u32, height: u32, bound: u32) -> Option<(u32, u32)> {
    if can_resize(width, height, bound) && is_within(resized_extent(width, height, bound), bound) {
        Some(resized_extent(width, height, bound))
    } else {
        None
    }
}

/// Resizes the image to the square of side `bound` with the Lanczos
/// filter of window 3. An image that cannot be resized is refused, and
/// so is a result that does not lie within the bound. The result has as
/// many channels as the image.
pub fn fit_within(image: &InputImage, bound: u32) -> (fitted: Result<InputImage, ReencodeFailure>)
    ensures
        match fitted {
            Ok(fitted) => {
                &&& fitted_extent(image.extent().0, image.extent().1, bound) == Some(
                    fitted.extent(),
                )
                &&& fitted.channels() == image.channels()
            },
            Err(failure) => failure == ReencodeFailure::Resize && fitted_extent(
                image.extent().0,
                image.extent().1,
                bound,
            ).is_none(),
        },
        fitted matches Ok(fitted) ==> is_within(fitted.extent(), bound),
{
    let source: u32 = image.width();
    if source == 0 || image.height() == 0 || bound == 0 {
        return Err(ReencodeFailure::Resize);
    }
    let limit: u128 = isize::MAX as u128;
    let width: u128 = source as u128;
    let side: u128 = bound as u128;
    assert(16 * width * side <= 16 * 0x1_0000_0000 * 0x1_0000_0000) by (nonlinear_arith)
        requires
            width < 0x1_0000_0000,
            side < 0x1_0000_0000,
    ;
    assert(16 * side * side <= 16 * 0x1_0000_0000 * 0x1_0000_0000) by (nonlinear_arith)
        requires
            side < 0x1_0000_0000,
    ;
    let wide: u128 = 16 * width * side;
    let square: u128 = 16 * side * side;
    if wide > limit || square > limit {
        return Err(ReencodeFailure::Resize);
    }
    let resized = InputImage::from_decoded(resize_lanczos(&image.pixels, bound));
    accept_resized(resized, bound)
}

/// The writer of the temporary file as the encoder sees it: the first
/// chunk that cannot be written stops all writing.
#[derive(Clone, Copy, Debug, PartialEq, Eq, Structural)]
pub struct ChunkLatch {
    pub ok: bool,
}

impl ChunkLatch {
    /// A latch before the first chunk.
    pub fn new() -> (latch: ChunkLatch)
        ensures
            latch.ok,
    {
        ChunkLatch { ok: true }
    }

    /// Whether the next chunk is to be written at all.
    pub fn wants_chunk(&self) -> (wanted: bool)
        ensures
            wanted == self.ok,
    {
        self.ok
    }

    /// Takes note of whether a chunk was written.
    pub fn record(&mut self, written: bool)
        ensures
            *final(self) == after_chunks(*old(self), seq![written]),
            final(self).ok == (old(self).ok && written),
    {
        proof {
            reveal_with_fuel(after_chunks, 2);
            assert(seq![written].drop_last().len() == 0);
        }
        self.ok = self.ok && written;
    }

    /// Whether the file is complete: the encoder reported success by a
    /// result other than zero, and every chunk was written.
    pub fn finish(&self, encoder_result: i32) -> (done: Result<(), ReencodeFailure>)
        ensures
            done == if encoder_result != 0 && self.ok {
                Ok::<(), ReencodeFailure>(())
            } else {
                Err::<(), ReencodeFailure>(ReencodeFailure::Encode)
            },
    {
        if encoder_result != 0 && self.ok {
            Ok(())
        } else {
            Err(ReencodeFailure::Encode)
        }
    }
}

/// The latch after the chunks with the given outcomes, in order.
pub open spec fn after_chunks(latch: ChunkLatch, outcomes: Seq<bool>) -> ChunkLatch
    decreases outcomes.len(),
{
    if outcomes.len() == 0 {
        latch
    } else {
        let before = after_chunks(latch, outcomes.drop_last());
        ChunkLatch { ok: before.ok && outcomes.last() }
    }
}

/// The latch holds: it is open after a run of chunks exactly if it was
/// open before and every one of them was written.
pub proof fn lemma_latch_holds(latch: ChunkLatch, outcomes: Seq<bool>)
    ensures
        after_chunks(latch, outcomes).ok == (latch.ok && forall|i: int|
            0 <= i < outcomes.len() ==> outcomes[i]),
    decreases outcomes.len(),
{
    if outcomes.len() > 0 {
        let earlier = outcomes.drop_last();
        lemma_latch_holds(latch, earlier);
        if after_chunks(latch, outcomes).ok {
            assert forall|i: int| 0 <= i < outcomes.len() implies outcomes[i] by {
                if i < earlier.len() {
                    assert(earlier[i] == outcomes[i]);
                }
            }
        } else if latch.ok && earlier.len() >= 0 && outcomes.last() {
            let bad = choose|i: int| 0 <= i < earlier.len() && !earlier[i];
            assert(!outcomes[bad]);
        }
    }
}

} // verus!
