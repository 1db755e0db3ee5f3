//! The output raster: a dense, row-major grid of RGB byte triples.

use vstd::prelude::*;
use crate::grid::{lemma_row_major_in_bounds, row_major};

verus! {

/// Number of samples per pixel.
pub const CHANNELS: usize = 3;

/// A channel after a brightness adjustment: the sum, held to `0..=255`.
pub open spec fn adjust_channel(sample: u8, value: int) -> u8 {
    let sum = sample as int + value;
    if sum < 0 {
        0u8
    } else if sum > 255 {
        255u8
    } else {
        sum as u8
    }
}

/// What a raster is: its dimensions and its samples, three per pixel, pixels
/// row by row from the top left.
pub struct RasterModel {
    pub width: nat,
    pub height: nat,
    pub samples: Seq<u8>,
}

impl RasterModel {
    /// There are exactly three samples for each of the `width * height` pixels.
    pub open spec fn wf(self) -> bool {
        self.samples.len() == 3 * (self.width * self.height)
    }

    /// Position of the first sample of pixel `(x, y)`.
    pub open spec fn offset(self, x: int, y: int) -> int {
        3 * row_major(self.width as int, x, y)
    }

    /// The three samples of pixel `(x, y)`.
    pub open spec fn pixel(self, x: int, y: int) -> Seq<u8> {
        self.samples.subrange(self.offset(x, y), self.offset(x, y) + 3)
    }

    /// The raster with `value` added to every sample, each held to `0..=255`.
    pub open spec fn brightened(self, value: int) -> RasterModel {
        RasterModel {
            width: self.width,
            height: self.height,
            samples: Seq::new(self.samples.len(), |i: int| adjust_channel(self.samples[i], value)),
        }
    }
}

/// An RGB raster with eight bits per channel.
pub struct Raster {
    width: u32,
    height: u32,
    data: Vec<u8>,
}

impl View for Raster {
    type V = RasterModel;

    closed spec fn view(&self) -> RasterModel {
        RasterModel { width: self.width as nat, height: self.height as nat, samples: self.data@ }
    }
}

impl Raster {
    #[verifier::type_invariant]
    spec fn inv(&self) -> bool {
        self.data@.len() == 3 * (self.width as nat * self.height as nat)
    }

    /// Wraps a sample buffer; `None` unless it holds exactly three samples
    /// per pixel.
    pub fn from_raw(width: u32, height: u32, data: Vec<u8>) -> (r: Option<Raster>)
        ensures
            r is Some <==> data@.len() == 3 * (width as nat * height as nat),
            r matches Some(raster) ==> raster@ == (RasterModel {
                width: width as nat,
                height: height as nat,
                samples: data@,
            }) && raster@.wf(),
    {
        let ghost pixels = width as nat * height as nat;
        assert(pixels == (width as usize) * (height as usize)) by (nonlinear_arith)
            requires
                pixels == width as nat * height as nat,
        ;
        let given = data.len();
        let fits = match (width as usize).checked_mul(height as usize) {
            Some(count) => match count.checked_mul(CHANNELS) {
                Some(len) => given == len,
                None => false,
            },
            None => false,
        };
        if fits {
            Some(Raster { width, height, data })
        } else {
            None
        }
    }

    /// Width in pixels.
    pub fn width(&self) -> (w: u32)
        ensures
            w == self@.width,
            self@.wf(),
    {
        proof {
            use_type_invariant(self);
        }
        self.width
    }

    /// Height in pixels.
    pub fn height(&self) -> (h: u32)
        ensures
            h == self@.height,
            self@.wf(),
    {
        proof {
            use_type_invariant(self);
        }
        self.height
    }

    /// Number of pixels, `width * height`.
    pub fn pixel_count(&self) -> (n: usize)
        ensures
            n == self@.width * self@.height,
            3 * n == self@.samples.len(),
    {
        proof {
            use_type_invariant(self);
        }
        self.data.len() / CHANNELS
    }

    /// The colour at column `x`, row `y`.
    pub fn get_pixel(&self, x: u32, y: u32) -> (px: [u8; 3])
        requires
            x < self@.width,
            y < self@.height,
        ensures
            px@ == self@.pixel(x as int, y as int),
    {
        proof {
            use_type_invariant(self);
            lemma_row_major_in_bounds(self.width as int, self.height as int, x as int, y as int);
            assert(self.width as int * self.height as int == self.width as nat * self.height as nat)
                by (nonlinear_arith);
            assert(y as usize * self.width as usize == y as int * self.width as int)
                by (nonlinear_arith);
            assert(self.data@.len() == self.data.len());
        }
        let row_start: usize = y as usize * self.width as usize;
        let at: usize = (row_start + x as usize) * CHANNELS;
        let px = [self.data[at], self.data[at + 1], self.data[at + 2]];
        assert(px@ =~= self@.pixel(x as int, y as int));
        px
    }

    /// The samples, three per pixel, row by row.
    pub fn as_raw(&self) -> (samples: &Vec<u8>)
        ensures
            samples@ == self@.samples,
            self@.wf(),
    {
        proof {
            use_type_invariant(self);
        }
        &self.data
    }

    /// Gives up the raster for its sample buffer.
    pub fn into_raw(self) -> (samples: Vec<u8>)
        ensures
            samples@ == self@.samples,
            self@.wf(),
    {
        proof {
            use_type_invariant(&self);
        }
        self.data
    }

    /// Adds `value` to every channel of every pixel, holding each result to
    /// the channel's range.
    pub fn brighten(self, value: i32) -> (r: Raster)
        ensures
            r@ == self@.brightened(value as int),
            r@.wf(),
    {
        proof {
            use_type_invariant(&self);
        }
        if self.width == 0 || self.height == 0 {
            proof {
                assert(self.width as nat * self.height as nat == 0) by (nonlinear_arith)
                    requires
                        self.width == 0 || self.height == 0,
                ;
                assert(self@.brightened(value as int).samples =~= self@.samples);
            }
            return self;
        }
        let bounded: i32 = if value > 255 {
            255
        } else if value < -255 {
            -255
        } else {
            value
        };
        let ghost before = self@;
        let width = self.width;
        let height = self.height;
        let data = brighten_samples(width, height, self.data, bounded);
        assert(data@ =~= before.brightened(value as int).samples);
        Raster { width, height, data }
    }
}

/// Calls `image::imageops::colorops::brighten` on the 8-bit RGB image with
/// the given dimensions and samples. That function builds a new image of the
/// same dimensions in which every channel is the old channel plus `value`,
/// computed in `i32` and clamped to `0..=255`. The image is kept non-empty,
/// because the function's pixel walk steps outside an image that has rows
/// but no columns, and `value` is kept small enough for the sum not to
/// overflow.
#[verifier::external_body]
fn brighten_samples(width: u32, height: u32, samples: Vec<u8>, value: i32) -> (out: Vec<u8>)
    requires
        width > 0,
        height > 0,
        samples@.len() == 3 * (width as nat * height as nat),
        -255 <= value <= 255,
    ensures
        out@.len() == samples@.len(),
        forall|i: int| 0 <= i < out@.len() ==> out@[i] == adjust_channel(samples@[i], value as int),
{
    let before = image::RgbImage::from_raw(width, height, samples).unwrap();
    image::imageops::colorops::brighten(&before, value).into_raw()
}

} // verus!
