use vstd::prelude::*;
use crate::frame::{byte_len, pixel_count, Frame, FrameView};

verus! {

/// Why a frame could not be resampled.
#[derive(Clone, Copy, Debug, PartialEq, Eq, Structural)]
pub enum ResampleError {
    /// A source or target dimension is zero.
    ZeroDimension,
    /// The source or the target has more pixels than the resampler counts,
    /// or more bytes than a buffer can hold.
    TooLarge,
    /// The resampler refused the buffers or returned one of the wrong size.
    Rejected,
}

/// Dimensions that the resampler can take: both non-zero, the pixel count
/// within `u32`, the byte count within `isize`.
pub open spec fn resamplable(width: u32, height: u32) -> bool {
    &&& width > 0
    &&& height > 0
    &&& width * height <= u32::MAX
    &&& byte_len(width, height) <= isize::MAX
}

/// Whether the resampler's tables for one axis fit: for each target pixel it
/// keeps a window of weights, at most `6 * from / to + 7` of them, eight
/// bytes each, in one buffer.
pub open spec fn weights_fit(from: u32, to: u32) -> bool {
    56 * (from + to) <= isize::MAX
}

/// Whether a `source_width` by `source_height` image can be resampled to
/// `width` by `height`. Both sizes are ones the resampler takes, the image
/// that it builds between its two passes (target width, source rows) keeps
/// its pixel count within `u32` and its bytes, with one pixel to spare,
/// within `isize`, and the tables of weights fit.
pub open spec fn fits_resampler(source_width: u32, source_height: u32, width: u32, height: u32) -> bool {
    &&& resamplable(source_width, source_height)
    &&& resamplable(width, height)
    &&& width * source_height <= u32::MAX
    &&& (width * source_height + 1) * 4 <= isize::MAX
    &&& weights_fit(source_width, width)
    &&& weights_fit(source_height, height)
}

/// Whether `width` by `height` are dimensions that the resampler can take.
pub fn is_resamplable(width: u32, height: u32) -> (out: bool)
    ensures
        out == resamplable(width, height),
{
    if width == 0 || height == 0 {
        return false;
    }
    let pixels: u64 = pixel_count(width, height);
    pixels <= u32::MAX as u64 && pixels * 4 <= isize::MAX as u64
}

/// Whether a `source_width` by `source_height` image can be resampled to
/// `width` by `height`.
pub fn can_resample(source_width: u32, source_height: u32, width: u32, height: u32) -> (out: bool)
    ensures
        out == fits_resampler(source_width, source_height, width, height),
{
    if !is_resamplable(source_width, source_height) || !is_resamplable(width, height) {
        return false;
    }
    let between: u64 = pixel_count(width, source_height);
    let across: u64 = 56 * (source_width as u64 + width as u64);
    let down: u64 = 56 * (source_height as u64 + height as u64);
    let limit: u64 = isize::MAX as u64;
    between <= u32::MAX as u64 && (between + 1) * 4 <= limit && across <= limit && down <= limit
}

/// Calls `fast_image_resize`: wraps both buffers with `Image::from_vec_u8`
/// and runs `Resizer::resize` from `source` into `target` with the Lanczos-3
/// convolution on four-byte pixels, then takes the target buffer back with
/// `Image::into_vec`. `None` where the crate refuses a buffer (it looks at
/// size and alignment). The sizes are kept to those on which the crate's own
/// arithmetic stays in range: it multiplies pixel counts in `u32`, also for
/// the image between its horizontal and its vertical pass. The contract claims of the pixels only their number:
/// what comes back is the buffer that went in as `target`. Which bytes it
/// holds is left open: the crate picks its arithmetic by the instruction set
/// that it finds at run time.
#[verifier::external_body]
fn lanczos3_rgba8(
    source: Vec<u8>,
    source_width: u32,
    source_height: u32,
    target: Vec<u8>,
    width: u32,
    height: u32,
) -> (out: Option<Vec<u8>>)
    requires
        fits_resampler(source_width, source_height, width, height),
        source@.len() == byte_len(source_width, source_height),
        target@.len() == byte_len(width, height),
    ensures
        out matches Some(v) ==> v@.len() == byte_len(width, height),
{
    let sw = std::num::NonZeroU32::new(source_width)?;
    let sh = std::num::NonZeroU32::new(source_height)?;
    let pixel_type = fast_image_resize::PixelType::U8x4;
    let src = fast_image_resize::Image::from_vec_u8(sw, sh, source, pixel_type).ok()?;
    let tw = std::num::NonZeroU32::new(width)?;
    let th = std::num::NonZeroU32::new(height)?;
    let mut dst = fast_image_resize::Image::from_vec_u8(tw, th, target, pixel_type).ok()?;
    let mut dst_view = dst.view_mut();
    let filter = fast_image_resize::FilterType::Lanczos3;
    let mut resizer = fast_image_resize::Resizer::new(fast_image_resize::ResizeAlg::Convolution(filter));
    resizer.resize(&src.view(), &mut dst_view).ok()?;
    Some(dst.into_vec())
}

/// What becomes of a resampler's answer for a `width` by `height` target.
pub open spec fn accepted(resampled: Option<Vec<u8>>, width: u32, height: u32) -> Result<
    FrameView,
    ResampleError,
> {
    match resampled {
        Some(v) if v@.len() == byte_len(width, height) => Ok(
            FrameView { data: v@, width, height },
        ),
        _ => Err(ResampleError::Rejected),
    }
}

/// Frames the resampler's answer: a buffer of exactly `width * height * 4`
/// bytes becomes the frame, anything else is `Rejected`.
pub fn accept_resampled(resampled: Option<Vec<u8>>, width: u32, height: u32) -> (out: Result<
    Frame,
    ResampleError,
>)
    ensures
        accepted(resampled, width, height) matches Ok(f) ==> out matches Ok(g) && g@ == f,
        accepted(resampled, width, height) matches Err(e) ==> out == Err::<Frame, _>(e),
{
    match resampled {
        Some(data) => match Frame::new(data, width, height) {
            Some(frame) => Ok(frame),
            None => Err(ResampleError::Rejected),
        },
        None => Err(ResampleError::Rejected),
    }
}

/// Resamples `source` to `width` by `height` with a Lanczos-3 convolution.
///
/// Fails with `ZeroDimension` exactly where a dimension is zero, and with
/// `TooLarge` exactly where the sizes are otherwise beyond the resampler.
/// Else the answer is a well-formed frame of the target dimensions, or
/// `Rejected` where the resampler gave none: that it gives one cannot be
/// promised, since it may refuse a buffer by where it lies in memory.
pub fn resample(source: Frame, width: u32, height: u32) -> (out: Result<Frame, ResampleError>)
    requires
        source.wf(),
    ensures
        (source.width == 0 || source.height == 0 || width == 0 || height == 0) ==> out == Err::<
            Frame,
            _,
        >(ResampleError::ZeroDimension),
        (source.width > 0 && source.height > 0 && width > 0 && height > 0 && !fits_resampler(
            source.width,
            source.height,
            width,
            height,
        )) ==> out == Err::<Frame, _>(ResampleError::TooLarge),
        fits_resampler(source.width, source.height, width, height) ==> (out matches Ok(f)
            && f.width == width && f.height == height && f.wf()) || out == Err::<Frame, _>(
            ResampleError::Rejected,
        ),
{
    if source.width == 0 || source.height == 0 || width == 0 || height == 0 {
        return Err(ResampleError::ZeroDimension);
    }
    if !can_resample(source.width, source.height, width, height) {
        return Err(ResampleError::TooLarge);
    }
    let len: usize = (pixel_count(width, height) * 4) as usize;
    let target: Vec<u8> = vec![0u8; len];
    let resampled = lanczos3_rgba8(source.data, source.width, source.height, target, width, height);
    accept_resampled(resampled, width, height)
}

} // verus!
