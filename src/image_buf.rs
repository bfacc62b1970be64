use image::{ImageBuffer, RgbImage};
use vstd::prelude::*;

verus! {

/// An RGB image with eight bits per channel, held in the image crate's
/// `RgbImage` (`ImageBuffer<Rgb<u8>, Vec<u8>>`).
#[verifier::external_body]
pub struct RgbBuffer {
    image: RgbImage,
}

/// The raw samples of an image: red, green and blue of each pixel in turn,
/// row by row, possibly followed by samples that belong to no pixel.
pub uninterp spec fn rgb_samples(img: RgbBuffer) -> Seq<u8>;

/// The width and height of an image.
pub uninterp spec fn rgb_dimensions(img: RgbBuffer) -> (u32, u32);

/// How many leading samples the pixels of a `width` by `height` image hold.
pub open spec fn pixel_samples(dims: (u32, u32)) -> int {
    3 * dims.0 * dims.1
}

impl RgbBuffer {
    /// Relies on `ImageBuffer::dimensions`, and on the image holding at least
    /// three samples per pixel, with `3 * width` within `usize`: it was made by
    /// `from_raw`, which checks both, or by `new(0, 0)`; neither `into_raw` nor anything else
    /// here changes the buffer's length.
    #[verifier::external_body]
    fn raw_dimensions(&self) -> (r: (u32, u32))
        ensures
            r == rgb_dimensions(*self),
            pixel_samples(r) <= rgb_samples(*self).len(),
            3 * r.0 <= usize::MAX,
    {
        self.image.dimensions()
    }

    /// Relies on `ImageBuffer::new`: a 0 by 0 image has no samples.
    #[verifier::external_body]
    pub(crate) fn empty() -> (r: RgbBuffer)
        ensures
            rgb_dimensions(r) == (0u32, 0u32),
            rgb_samples(r) == Seq::<u8>::empty(),
    {
        RgbBuffer { image: ImageBuffer::new(0, 0) }
    }

    /// Relies on `ImageBuffer::into_raw`, which hands out the sample buffer.
    #[verifier::external_body]
    fn into_raw(self) -> (r: Vec<u8>)
        ensures
            r@ == rgb_samples(self),
    {
        self.image.into_raw()
    }

    /// Relies on `ImageBuffer::from_raw`: it keeps the buffer when it holds
    /// enough samples for the dimensions, and refuses it otherwise. The count
    /// is taken as `3 * width` first, then times `height`, each step checked
    /// against `usize`, so a width whose `3 * width` overflows is refused too.
    #[verifier::external_body]
    fn from_raw(width: u32, height: u32, buf: Vec<u8>) -> (r: Option<RgbBuffer>)
        ensures
            r is Some <==> (3 * width <= usize::MAX && pixel_samples((width, height))
                <= buf@.len()),
            r is Some ==> rgb_samples(r->Some_0) == buf@,
            r is Some ==> rgb_dimensions(r->Some_0) == (width, height),
    {
        ImageBuffer::from_raw(width, height, buf).map(|image| RgbBuffer { image })
    }

    /// The width and height of the image.
    pub fn dimensions(&self) -> (r: (u32, u32))
        ensures
            r == rgb_dimensions(*self),
            pixel_samples(r) <= rgb_samples(*self).len(),
            3 * r.0 <= usize::MAX,
    {
        self.raw_dimensions()
    }

    /// The raw samples of the image.
    pub fn into_samples(self) -> (r: Vec<u8>)
        ensures
            r@ == rgb_samples(self),
    {
        self.into_raw()
    }

    /// A `width` by `height` image over the samples `buf`, where `buf` holds
    /// three samples for each pixel (or more) and `3 * width` fits in a
    /// `usize`; `None` otherwise.
    pub fn from_samples(width: u32, height: u32, buf: Vec<u8>) -> (r: Option<RgbBuffer>)
        ensures
            r is Some <==> (3 * width <= usize::MAX && pixel_samples((width, height))
                <= buf@.len()),
            r is Some ==> rgb_samples(r->Some_0) == buf@,
            r is Some ==> rgb_dimensions(r->Some_0) == (width, height),
    {
        RgbBuffer::from_raw(width, height, buf)
    }
}

} // verus!
