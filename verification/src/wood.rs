//! The synthesizer: validation, the noise field, the pixel loop and the
//! brightness adjustment, in that order.

use vstd::prelude::*;
use crate::binary64::{below_zero, finite, in_unit_interval, is_below_zero, is_finite};
use crate::error::InvalidParameter;
use crate::grid::lemma_row_major_order;
use crate::noise::Noise;
use crate::profile::{WoodProfile, BRIGHT_ADJUSTMENT, NEUTRAL_ADJUSTMENT};
use crate::raster::{Raster, RasterModel};

verus! {

/// What a request must satisfy: both dimensions positive, and a standard
/// deviation (given by its binary64 encoding) that is finite and not below
/// zero.
pub open spec fn valid_parameters(width: u32, height: u32, offset_stdev: u64) -> bool {
    &&& width > 0
    &&& height > 0
    &&& finite(offset_stdev)
    &&& !below_zero(offset_stdev)
}

/// Accepts exactly the valid parameters.
pub fn validate(width: u32, height: u32, offset_stdev: u64) -> (r: Result<(), InvalidParameter>)
    ensures
        r is Ok <==> valid_parameters(width, height, offset_stdev),
{
    if width == 0 || height == 0 || !is_finite(offset_stdev) || is_below_zero(offset_stdev) {
        Err(InvalidParameter)
    } else {
        Ok(())
    }
}

/// Every cell of `field`, a grid of the given size, is a draw from `source`.
pub open spec fn drawn_from<S: Fn() -> u64>(field: Noise, source: S, width: u32, height: u32) -> bool {
    &&& field@.wf()
    &&& field@.width == width
    &&& field@.height == height
    &&& forall|i: int|
        0 <= i < field@.cells.len() ==> call_ensures(source, (), #[trigger] field@.cells[i])
}

/// Pixel `(x, y)` of `base` is a colour that `shade` can return for that
/// pixel over `field`.
pub open spec fn pixel_shaded<F: Fn(&Noise, u32, u32) -> [u8; 3]>(
    base: RasterModel,
    shade: F,
    field: Noise,
    x: u32,
    y: u32,
) -> bool {
    exists|px: [u8; 3]| call_ensures(shade, (&field, x, y), px) && px@ == base.pixel(x as int, y as int)
}

/// The raster that the samples written so far belong to.
pub open spec fn in_progress(width: u32, height: u32, samples: Seq<u8>) -> RasterModel {
    RasterModel { width: width as nat, height: height as nat, samples }
}

/// Every pixel of `base` is a colour that `shade` can return for it over
/// `field`.
pub open spec fn shaded_by<F: Fn(&Noise, u32, u32) -> [u8; 3]>(
    base: RasterModel,
    shade: F,
    field: Noise,
) -> bool {
    forall|x: u32, y: u32|
        x < base.width && y < base.height ==> #[trigger] pixel_shaded(base, shade, field, x, y)
}

/// Colours every pixel of a `width` by `height` raster by calling
/// `shade(field, x, y)`, row by row from the top, left to right within a row.
pub fn render<F: Fn(&Noise, u32, u32) -> [u8; 3]>(
    field: &Noise,
    width: u32,
    height: u32,
    shade: F,
) -> (r: Raster)
    requires
        3 * (width * height) <= usize::MAX,
        forall|x: u32, y: u32| x < width && y < height ==> call_requires(shade, (field, x, y)),
    ensures
        r@.wf(),
        r@.width == width,
        r@.height == height,
        shaded_by(r@, shade, *field),
{
    let mut data: Vec<u8> = Vec::new();
    let mut y: u32 = 0;
    while y < height
        invariant
            y <= height,
            data@.len() == 3 * (y * width),
            forall|x: u32, y: u32| x < width && y < height ==> call_requires(shade, (field, x, y)),
            forall|x0: u32, y0: u32|
                x0 < width && y0 < y ==> #[trigger] pixel_shaded(
                    in_progress(width, height, data@),
                    shade,
                    *field,
                    x0,
                    y0,
                ),
        decreases height - y,
    {
        let mut x: u32 = 0;
        while x < width
            invariant
                y < height,
                x <= width,
                data@.len() == 3 * (y * width + x),
                forall|x: u32, y: u32|
                    x < width && y < height ==> call_requires(shade, (field, x, y)),
                forall|x0: u32, y0: u32|
                    x0 < width && (y0 < y || (y0 == y && x0 < x)) ==> #[trigger] pixel_shaded(
                        in_progress(width, height, data@),
                        shade,
                        *field,
                        x0,
                        y0,
                    ),
            decreases width - x,
        {
            let px = shade(field, x, y);
            let ghost before = data@;
            data.push(px[0]);
            data.push(px[1]);
            data.push(px[2]);
            proof {
                let old_raster = in_progress(width, height, before);
                let new_raster = in_progress(width, height, data@);
                assert(px@ =~= new_raster.pixel(x as int, y as int));
                assert forall|x0: u32, y0: u32|
                    x0 < width && (y0 < y || (y0 == y && x0 < x + 1)) implies #[trigger] pixel_shaded(
                    new_raster,
                    shade,
                    *field,
                    x0,
                    y0,
                ) by {
                    if y0 == y && x0 == x {
                    } else {
                        lemma_row_major_order(width as int, x0 as int, y0 as int, x as int, y as int);
                        assert(pixel_shaded(old_raster, shade, *field, x0, y0));
                        assert(new_raster.pixel(x0 as int, y0 as int) =~= old_raster.pixel(
                            x0 as int,
                            y0 as int,
                        ));
                    }
                }
            }
            x = x + 1;
        }
        proof {
            assert(3 * (y * width + width) == 3 * ((y + 1) * width)) by (nonlinear_arith);
        }
        y = y + 1;
    }
    proof {
        assert(height * width == width * height) by (nonlinear_arith);
    }
    let ghost samples = data@;
    let raster = Raster::from_raw(width, height, data).unwrap();
    assert(raster@ == in_progress(width, height, samples));
    raster
}

/// Synthesizes a wood-grain raster of `width` by `height` pixels.
///
/// `offsetstdev` is the binary64 encoding of the standard deviation of the
/// ring centre's random offset. `source` yields the noise field's cells,
/// encodings of independent uniform draws from `[0, 1)`. `shade(field, x, y)`
/// gives pixel `(x, y)` its colour between the profile's two tones, before
/// any brightness adjustment.
///
/// Invalid parameters are refused before anything is drawn or allocated.
/// Otherwise a noise field of the raster's size is built from `source`, every
/// pixel is shaded over it, and the profile's brightness adjustment is added
/// to every channel.
pub fn wood<S: Fn() -> u64, F: Fn(&Noise, u32, u32) -> [u8; 3]>(
    width: u32,
    height: u32,
    offsetstdev: u64,
    source: S,
    shade: F,
    wood_profile: &WoodProfile,
) -> (r: Result<Raster, InvalidParameter>)
    requires
        3 * (width * height) <= usize::MAX,
        call_requires(source, ()),
        forall|v: u64| call_ensures(source, (), v) ==> in_unit_interval(v),
        forall|field: Noise, x: u32, y: u32|
            drawn_from(field, source, width, height) && x < width && y < height ==> call_requires(
                shade,
                (&field, x, y),
            ),
    ensures
        r is Ok <==> valid_parameters(width, height, offsetstdev),
        r matches Ok(raster) ==> {
            &&& raster@.wf()
            &&& raster@.width == width
            &&& raster@.height == height
            &&& exists|field: Noise, base: RasterModel|
                {
                    &&& drawn_from(field, source, width, height)
                    &&& base.wf()
                    &&& base.width == width
                    &&& base.height == height
                    &&& shaded_by(base, shade, field)
                    &&& raster@ == base.brightened(wood_profile.brightness_adjustment as int)
                }
        },
{
    if validate(width, height, offsetstdev).is_err() {
        return Err(InvalidParameter);
    }
    proof {
        assert(width * height <= 3 * (width * height)) by (nonlinear_arith);
        assert((width as usize) * (height as usize) == width * height) by (nonlinear_arith);
    }
    let field = match Noise::build(width as usize, height as usize, source) {
        Ok(field) => field,
        Err(e) => {
            return Err(e);
        },
    };
    let base = render(&field, width, height, shade);
    let ghost plain = base@;
    let raster = base.brighten(wood_profile.brightness_adjustment);
    proof {
        assert(drawn_from(field, source, width, height));
        assert(shaded_by(plain, shade, field));
        assert(raster@ == plain.brightened(wood_profile.brightness_adjustment as int));
    }
    Ok(raster)
}

/// The neutral preset leaves a render as it is, and under the brightened
/// preset every sample is the neutral one plus twenty, held to the channel
/// maximum.
pub proof fn lemma_bright_is_neutral_plus_twenty(base: RasterModel, i: int)
    requires
        0 <= i < base.samples.len(),
    ensures
        base.brightened(NEUTRAL_ADJUSTMENT as int) == base,
        base.brightened(BRIGHT_ADJUSTMENT as int).samples[i] == if base.brightened(
            NEUTRAL_ADJUSTMENT as int,
        ).samples[i] + 20 > 255 {
            255
        } else {
            base.brightened(NEUTRAL_ADJUSTMENT as int).samples[i] + 20
        },
{
    assert(base.brightened(NEUTRAL_ADJUSTMENT as int).samples =~= base.samples);
}

} // verus!
