use vstd::prelude::*;

use crate::image_buf::{pixel_samples, rgb_dimensions, rgb_samples, RgbBuffer};
use crate::mode::ChangeMode;

verus! {

#[verifier::external_type_specification]
#[verifier::external_body]
pub struct ExIoError(std::io::Error);

/// The algorithm to use while deepfrying.
#[derive(Debug, Clone, Copy, PartialEq, Eq, Structural)]
pub enum DeepfryAlgorithm {
    /// Changes bits based off a `ChangeMode`, with one parameter for each of
    /// red, green and blue.
    BitChange(ChangeMode, u32, u32, u32),
}

impl DeepfryAlgorithm {
    /// The parameter for channel `channel` (0 red, 1 green, 2 blue).
    pub open spec fn spec_param(self, channel: int) -> u32 {
        match self {
            DeepfryAlgorithm::BitChange(_, r, g, b) => if channel == 0 {
                r
            } else if channel == 1 {
                g
            } else {
                b
            },
        }
    }

    /// The new value of a sample of channel `channel`.
    pub open spec fn spec_channel(self, sample: u8, channel: int) -> u8 {
        match self {
            DeepfryAlgorithm::BitChange(mode, _, _, _) => mode.spec_shift(
                sample,
                self.spec_param(channel),
            ),
        }
    }

    /// The samples after one pass: each of the first `count` samples is
    /// changed as a sample of channel `index % 3`, the rest are kept.
    pub open spec fn spec_fry(self, samples: Seq<u8>, count: int) -> Seq<u8> {
        Seq::new(
            samples.len(),
            |i: int|
                if i < count {
                    self.spec_channel(samples[i], i % 3)
                } else {
                    samples[i]
                },
        )
    }

    /// The parameter for channel `channel`.
    fn param(&self, channel: usize) -> (r: u32)
        requires
            channel < 3,
        ensures
            r == self.spec_param(channel as int),
    {
        match *self {
            DeepfryAlgorithm::BitChange(_, r, g, b) => if channel == 0 {
                r
            } else if channel == 1 {
                g
            } else {
                b
            },
        }
    }
}

/// Changes the first `count` samples in place, as pixels of three channels.
fn fry_samples(samples: &mut Vec<u8>, count: usize, algo: DeepfryAlgorithm)
    requires
        count <= old(samples)@.len(),
    ensures
        final(samples)@ == algo.spec_fry(old(samples)@, count as int),
{
    let ghost original = samples@;
    let DeepfryAlgorithm::BitChange(mode, _, _, _) = algo;
    let mut i: usize = 0;
    while i < count
        invariant
            samples@.len() == original.len(),
            count <= original.len(),
            i <= count,
            algo == DeepfryAlgorithm::BitChange(mode, algo.spec_param(0), algo.spec_param(1), algo.spec_param(2)),
            forall|j: int| 0 <= j < i ==> samples@[j] == algo.spec_channel(original[j], j % 3),
            forall|j: int| i <= j < original.len() ==> samples@[j] == original[j],
        decreases count - i,
    {
        let other = algo.param(i % 3);
        let fried = mode.shift(samples[i], other);
        samples.set(i, fried);
        i = i + 1;
    }
    assert(samples@ =~= algo.spec_fry(original, count as int));
}

/// Deepfries an image in place: every channel of every pixel is changed by
/// the algorithm's mode with that channel's parameter. Never fails.
pub fn deepfry(image: &mut RgbBuffer, algo: DeepfryAlgorithm) -> (r: Result<(), std::io::Error>)
    ensures
        r is Ok,
        rgb_dimensions(*final(image)) == rgb_dimensions(*old(image)),
        rgb_samples(*final(image)) == algo.spec_fry(
            rgb_samples(*old(image)),
            pixel_samples(rgb_dimensions(*old(image))),
        ),
{
    let (width, height) = image.dimensions();
    let mut taken = RgbBuffer::empty();
    std::mem::swap(image, &mut taken);
    let mut samples = taken.into_samples();
    let len = samples.len();
    assert(pixel_samples((width, height)) <= len);
    proof {
        assert(width * height <= 3 * width * height && 3 * (width * height) == 3 * width
            * height) by (nonlinear_arith);
    }
    let pixels: usize = (width as usize) * (height as usize);
    let count: usize = 3 * pixels;
    fry_samples(&mut samples, count, algo);
    match RgbBuffer::from_samples(width, height, samples) {
        Some(fried) => {
            *image = fried;
        },
        None => {},
    }
    Ok(())
}

} // verus!
