use vstd::prelude::*;

use crate::error::CaptureError;
use crate::frame::{assemble_rgb, assemble_rgba, frame_rgb, frame_rgba, raw_covers};
use crate::image_buffer::{
    rgb_from_raw, rgb_height, rgb_samples, rgb_width, rgba_from_raw, rgba_height, rgba_samples,
    rgba_width, RgbCapture, RgbaCapture,
};
use crate::pixel::{bytes_read, raster_offset, ByteOrder, DecodeRule};

verus! {

/// One entry of the server's pixmap format table.
#[derive(Clone, Copy, Debug, PartialEq, Eq, Structural)]
pub struct PixmapFormat {
    pub depth: u8,
    pub bits_per_pixel: u8,
}

/// Bits per pixel of the first table entry whose depth is `depth`, if any.
pub open spec fn bits_for_depth(formats: Seq<PixmapFormat>, depth: u8) -> Option<u8>
    decreases formats.len(),
{
    if formats.len() == 0 {
        None
    } else if formats[0].depth == depth {
        Some(formats[0].bits_per_pixel)
    } else {
        bits_for_depth(formats.drop_first(), depth)
    }
}

/// The decode rule of a depth, if the depth is supported.
pub open spec fn rule_for_depth(depth: u8) -> Option<DecodeRule> {
    if depth == 8 {
        Some(DecodeRule::Depth8)
    } else if depth == 16 {
        Some(DecodeRule::Depth16)
    } else if depth == 24 || depth == 32 {
        Some(DecodeRule::Depth24Or32)
    } else {
        None
    }
}

/// What a reply of `len` bytes at `depth` decodes with, into `channels`
/// samples per pixel: the rule and bits per pixel, or the first error found.
pub open spec fn reply_plan(
    len: int,
    depth: u8,
    formats: Seq<PixmapFormat>,
    width: u32,
    height: u32,
    channels: int,
) -> Result<(DecodeRule, u8), CaptureError> {
    match bits_for_depth(formats, depth) {
        None => Err(CaptureError::PixmapFormatNotFound { depth }),
        Some(bpp) => match rule_for_depth(depth) {
            None => Err(CaptureError::UnsupportedDepth { depth }),
            Some(rule) => if width * height * channels > usize::MAX {
                Err(CaptureError::InvalidRegion)
            } else if !raw_covers(rule, len, width as int, height as int, bpp as int) {
                Err(CaptureError::IncompleteReply)
            } else {
                Ok((rule, bpp))
            },
        },
    }
}

/// Looks up the bits per pixel that the server uses at `depth`.
pub fn find_bits_per_pixel(formats: &[PixmapFormat], depth: u8) -> (r: Result<u8, CaptureError>)
    ensures
        r == (match bits_for_depth(formats@, depth) {
            Some(bpp) => Ok(bpp),
            None => Err(CaptureError::PixmapFormatNotFound { depth }),
        }),
{
    let mut i: usize = 0;
    assert(formats@.subrange(0, formats@.len() as int) =~= formats@);
    while i < formats.len()
        invariant
            i <= formats@.len(),
            bits_for_depth(formats@, depth) == bits_for_depth(formats@.subrange(i as int, formats@.len() as int), depth),
        decreases formats@.len() - i,
    {
        let ghost rest = formats@.subrange(i as int, formats@.len() as int);
        if formats[i].depth == depth {
            return Ok(formats[i].bits_per_pixel);
        }
        assert(rest.drop_first() =~= formats@.subrange(i + 1, formats@.len() as int));
        i = i + 1;
    }
    Err(CaptureError::PixmapFormatNotFound { depth })
}

/// Chooses the decode rule for `depth`.
pub fn decode_rule(depth: u8) -> (r: Result<DecodeRule, CaptureError>)
    ensures
        r == (match rule_for_depth(depth) {
            Some(rule) => Ok(rule),
            None => Err(CaptureError::UnsupportedDepth { depth }),
        }),
{
    match depth {
        8 => Ok(DecodeRule::Depth8),
        16 => Ok(DecodeRule::Depth16),
        24 | 32 => Ok(DecodeRule::Depth24Or32),
        _ => Err(CaptureError::UnsupportedDepth { depth }),
    }
}

/// Tells whether a reply of `len` bytes holds every pixel of the frame.
fn reply_covers(
    rule: DecodeRule,
    len: usize,
    width: u32,
    height: u32,
    bits_per_pixel: u8,
) -> (r: bool)
    ensures
        r == raw_covers(rule, len as int, width as int, height as int, bits_per_pixel as int),
{
    assert((width as u64) * (height as u64) <= 0xffff_ffffu64 * 0xffff_ffffu64) by (nonlinear_arith)
        requires
            width <= 0xffff_ffffu32,
            height <= 0xffff_ffffu32,
    ;
    let pixels: u64 = (width as u64) * (height as u64);
    if pixels == 0 {
        return true;
    }
    assert((pixels - 1) * bits_per_pixel <= 0x1_0000_0000_0000_0000u128 * 0x100u128)
        by (nonlinear_arith)
        requires
            pixels <= 0xffff_ffff_ffff_ffffu64,
            bits_per_pixel <= 0xff,
    ;
    let read: u128 = match rule {
        DecodeRule::Depth8 => 1,
        DecodeRule::Depth16 => 2,
        DecodeRule::Depth24Or32 => 3,
    };
    let last: u128 = ((pixels - 1) as u128) * (bits_per_pixel as u128) / 8;
    last + read <= len as u128
}

/// Checks that `width * height * channels` samples fit in memory.
fn samples_fit(width: u32, height: u32, channels: u8) -> (r: bool)
    ensures
        r == (width * height * channels <= usize::MAX),
{
    assert((width as u64) * (height as u64) <= 0xffff_ffffu64 * 0xffff_ffffu64) by (nonlinear_arith)
        requires
            width <= 0xffff_ffffu32,
            height <= 0xffff_ffffu32,
    ;
    let pixels: u64 = (width as u64) * (height as u64);
    assert(pixels * channels <= 0x1_0000_0000_0000_0000u128 * 0x100u128) by (nonlinear_arith)
        requires
            pixels <= 0xffff_ffff_ffff_ffffu64,
            channels <= 0xff,
    ;
    (pixels as u128) * (channels as u128) <= usize::MAX as u128
}

/// Decodes an image-fetch reply (its data and depth, with the connection's
/// pixmap formats and byte order) into an RGBA image.
pub fn decode_reply_rgba(
    data: &[u8],
    depth: u8,
    formats: &[PixmapFormat],
    order: ByteOrder,
    width: u32,
    height: u32,
) -> (r: Result<RgbaCapture, CaptureError>)
    ensures
        match reply_plan(data@.len() as int, depth, formats@, width, height, 4) {
            Err(e) => r == Err::<RgbaCapture, CaptureError>(e),
            Ok((rule, bpp)) => r matches Ok(img) && rgba_width(img) == width && rgba_height(img)
                == height && rgba_samples(img) == frame_rgba(
                rule,
                data@,
                width as int,
                height as int,
                bpp as int,
                order,
            ),
        },
{
    let bits_per_pixel = find_bits_per_pixel(formats, depth)?;
    let rule = decode_rule(depth)?;
    if !samples_fit(width, height, 4) {
        return Err(CaptureError::InvalidRegion);
    }
    if !reply_covers(rule, data.len(), width, height, bits_per_pixel) {
        return Err(CaptureError::IncompleteReply);
    }
    let samples = assemble_rgba(data, width, height, bits_per_pixel as u32, order, rule);
    match rgba_from_raw(width, height, samples) {
        Some(img) => Ok(img),
        None => Err(CaptureError::BufferConstructionFailure),
    }
}

/// Decodes an image-fetch reply into an RGB image, without an alpha channel.
pub fn decode_reply_rgb(
    data: &[u8],
    depth: u8,
    formats: &[PixmapFormat],
    order: ByteOrder,
    width: u32,
    height: u32,
) -> (r: Result<RgbCapture, CaptureError>)
    ensures
        match reply_plan(data@.len() as int, depth, formats@, width, height, 3) {
            Err(e) => r == Err::<RgbCapture, CaptureError>(e),
            Ok((rule, bpp)) => r matches Ok(img) && rgb_width(img) == width && rgb_height(img)
                == height && rgb_samples(img) == frame_rgb(
                rule,
                data@,
                width as int,
                height as int,
                bpp as int,
                order,
            ),
        },
{
    let bits_per_pixel = find_bits_per_pixel(formats, depth)?;
    let rule = decode_rule(depth)?;
    if !samples_fit(width, height, 3) {
        return Err(CaptureError::InvalidRegion);
    }
    if !reply_covers(rule, data.len(), width, height, bits_per_pixel) {
        return Err(CaptureError::IncompleteReply);
    }
    let samples = assemble_rgb(data, width, height, bits_per_pixel as u32, order, rule);
    match rgb_from_raw(width, height, samples) {
        Some(img) => Ok(img),
        None => Err(CaptureError::BufferConstructionFailure),
    }
}

proof fn lemma_no_entry_no_bits(formats: Seq<PixmapFormat>, depth: u8)
    requires
        forall|i: int| 0 <= i < formats.len() ==> #[trigger] formats[i].depth != depth,
    ensures
        bits_for_depth(formats, depth) is None,
    decreases formats.len(),
{
    if formats.len() > 0 {
        assert(formats[0].depth != depth);
        assert forall|i: int| 0 <= i < formats.drop_first().len() implies #[trigger] formats.drop_first()[i].depth
            != depth by {
            assert(formats.drop_first()[i] == formats[i + 1]);
        }
        lemma_no_entry_no_bits(formats.drop_first(), depth);
    }
}

/// A reply whose depth has no entry in the pixmap format table is refused
/// with `PixmapFormatNotFound`, whatever else it holds.
pub proof fn lemma_missing_format_refused(
    len: int,
    depth: u8,
    formats: Seq<PixmapFormat>,
    width: u32,
    height: u32,
    channels: int,
)
    requires
        forall|i: int| 0 <= i < formats.len() ==> #[trigger] formats[i].depth != depth,
    ensures
        reply_plan(len, depth, formats, width, height, channels) == Err::<(DecodeRule, u8), CaptureError>(
            CaptureError::PixmapFormatNotFound { depth },
        ),
{
    lemma_no_entry_no_bits(formats, depth);
}

/// A reply at a depth other than 8, 16, 24 or 32, for which the table has a
/// format, is refused with `UnsupportedDepth`, whatever its data.
pub proof fn lemma_unsupported_depth_refused(
    len: int,
    depth: u8,
    formats: Seq<PixmapFormat>,
    width: u32,
    height: u32,
    channels: int,
)
    requires
        bits_for_depth(formats, depth) is Some,
        depth != 8 && depth != 16 && depth != 24 && depth != 32,
    ensures
        reply_plan(len, depth, formats, width, height, channels) == Err::<(DecodeRule, u8), CaptureError>(
            CaptureError::UnsupportedDepth { depth },
        ),
{
}

} // verus!
