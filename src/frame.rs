use vstd::prelude::*;

use crate::pixel::{
    bytes_read, channel, decode_at, decode_pixel, decode_pixel_rgba, pixel_offset, raster_offset,
    ByteOrder, DecodeRule,
};

verus! {

/// The decoded RGB pixel `k` of the raster.
pub open spec fn raster_pixel(
    rule: DecodeRule,
    bytes: Seq<u8>,
    k: int,
    bits_per_pixel: int,
    order: ByteOrder,
) -> (u8, u8, u8) {
    decode_at(rule, bytes, raster_offset(k, bits_per_pixel), order)
}

/// Packed RGB samples of a `width` x `height` frame, row-major from the top left.
pub open spec fn frame_rgb(
    rule: DecodeRule,
    bytes: Seq<u8>,
    width: int,
    height: int,
    bits_per_pixel: int,
    order: ByteOrder,
) -> Seq<u8> {
    Seq::new(
        (width * height * 3) as nat,
        |i: int| channel(raster_pixel(rule, bytes, i / 3, bits_per_pixel, order), i % 3),
    )
}

/// Packed RGBA samples of a `width` x `height` frame, alpha always 255.
pub open spec fn frame_rgba(
    rule: DecodeRule,
    bytes: Seq<u8>,
    width: int,
    height: int,
    bits_per_pixel: int,
    order: ByteOrder,
) -> Seq<u8> {
    Seq::new(
        (width * height * 4) as nat,
        |i: int|
            if i % 4 == 3 {
                255u8
            } else {
                channel(raster_pixel(rule, bytes, i / 4, bits_per_pixel, order), i % 4)
            },
    )
}

/// A raw buffer of `len` bytes holds every pixel of a `width` x `height` frame.
pub open spec fn raw_covers(
    rule: DecodeRule,
    len: int,
    width: int,
    height: int,
    bits_per_pixel: int,
) -> bool {
    width * height == 0 || raster_offset(width * height - 1, bits_per_pixel) + bytes_read(rule)
        <= len
}

proof fn lemma_offset_monotone(a: int, b: int, bits_per_pixel: int)
    requires
        0 <= a <= b,
        0 <= bits_per_pixel,
    ensures
        raster_offset(a, bits_per_pixel) <= raster_offset(b, bits_per_pixel),
{
    assert(a * bits_per_pixel <= b * bits_per_pixel) by (nonlinear_arith)
        requires
            0 <= a <= b,
            0 <= bits_per_pixel,
    ;
    vstd::arithmetic::div_mod::lemma_div_is_ordered(a * bits_per_pixel, b * bits_per_pixel, 8);
}

/// Pixel (`x`, `y`) of a covered frame lies inside the buffer, at raster index `y * width + x`.
proof fn lemma_pixel_in_frame(
    rule: DecodeRule,
    len: int,
    x: int,
    y: int,
    width: int,
    height: int,
    bits_per_pixel: int,
)
    requires
        0 <= x < width,
        0 <= y < height,
        0 <= bits_per_pixel,
        raw_covers(rule, len, width, height, bits_per_pixel),
    ensures
        y * width + x < width * height,
        pixel_offset(x, y, width, bits_per_pixel) + bytes_read(rule) <= len,
{
    assert(y * width + x < width * height) by (nonlinear_arith)
        requires
            0 <= x < width,
            0 <= y < height,
    ;
    lemma_offset_monotone(y * width + x, width * height - 1, bits_per_pixel);
}

proof fn lemma_split_index(k: int, j: int, n: int)
    requires
        0 <= j < n,
        0 < n,
    ensures
        (k * n + j) / n == k,
        (k * n + j) % n == j,
{
    vstd::arithmetic::div_mod::lemma_fundamental_div_mod_converse(k * n + j, n, k, j);
}

/// Decodes a `width` x `height` frame into packed RGB samples.
pub fn assemble_rgb(
    bytes: &[u8],
    width: u32,
    height: u32,
    bits_per_pixel: u32,
    order: ByteOrder,
    rule: DecodeRule,
) -> (out: Vec<u8>)
    requires
        raw_covers(rule, bytes@.len() as int, width as int, height as int, bits_per_pixel as int),
    ensures
        out@ == frame_rgb(rule, bytes@, width as int, height as int, bits_per_pixel as int, order),
{
    let ghost target = frame_rgb(
        rule,
        bytes@,
        width as int,
        height as int,
        bits_per_pixel as int,
        order,
    );
    let mut out: Vec<u8> = Vec::new();
    let mut y: u32 = 0;
    while y < height
        invariant
            y <= height,
            raw_covers(rule, bytes@.len() as int, width as int, height as int, bits_per_pixel as int),
            target == frame_rgb(rule, bytes@, width as int, height as int, bits_per_pixel as int, order),
            out@.len() == (y * width) as int * 3,
            forall|i: int| 0 <= i < out@.len() ==> out@[i] == target[i],
        decreases height - y,
    {
        let mut x: u32 = 0;
        while x < width
            invariant
                y < height,
                x <= width,
                raw_covers(rule, bytes@.len() as int, width as int, height as int, bits_per_pixel as int),
                target == frame_rgb(rule, bytes@, width as int, height as int, bits_per_pixel as int, order),
                out@.len() == (y * width + x) * 3,
                forall|i: int| 0 <= i < out@.len() ==> out@[i] == target[i],
            decreases width - x,
        {
            proof {
                lemma_pixel_in_frame(
                    rule,
                    bytes@.len() as int,
                    x as int,
                    y as int,
                    width as int,
                    height as int,
                    bits_per_pixel as int,
                );
            }
            let ghost k = y * width + x;
            let (r, g, b) = decode_pixel(rule, bytes, x, y, width, bits_per_pixel, order);
            proof {
                assert(target.len() == width * height * 3) by (nonlinear_arith)
                    requires
                        target.len() == (width * height * 3) as nat,
                        0 <= width,
                        0 <= height,
                ;
                lemma_split_index(k, 0, 3);
                lemma_split_index(k, 1, 3);
                lemma_split_index(k, 2, 3);
            }
            out.push(r);
            out.push(g);
            out.push(b);
            x = x + 1;
        }
        proof {
            assert((y * width + width) == (y + 1) * width) by (nonlinear_arith);
        }
        y = y + 1;
    }
    proof {
        assert(out@.len() == target.len()) by (nonlinear_arith)
            requires
                out@.len() == (height * width) as int * 3,
                target.len() == (width * height * 3) as nat,
        ;
        assert(out@ =~= target);
    }
    out
}

/// Decodes a `width` x `height` frame into packed RGBA samples.
pub fn assemble_rgba(
    bytes: &[u8],
    width: u32,
    height: u32,
    bits_per_pixel: u32,
    order: ByteOrder,
    rule: DecodeRule,
) -> (out: Vec<u8>)
    requires
        raw_covers(rule, bytes@.len() as int, width as int, height as int, bits_per_pixel as int),
    ensures
        out@ == frame_rgba(rule, bytes@, width as int, height as int, bits_per_pixel as int, order),
{
    let ghost target = frame_rgba(
        rule,
        bytes@,
        width as int,
        height as int,
        bits_per_pixel as int,
        order,
    );
    let mut out: Vec<u8> = Vec::new();
    let mut y: u32 = 0;
    while y < height
        invariant
            y <= height,
            raw_covers(rule, bytes@.len() as int, width as int, height as int, bits_per_pixel as int),
            target == frame_rgba(rule, bytes@, width as int, height as int, bits_per_pixel as int, order),
            out@.len() == (y * width) as int * 4,
            forall|i: int| 0 <= i < out@.len() ==> out@[i] == target[i],
        decreases height - y,
    {
        let mut x: u32 = 0;
        while x < width
            invariant
                y < height,
                x <= width,
                raw_covers(rule, bytes@.len() as int, width as int, height as int, bits_per_pixel as int),
                target == frame_rgba(rule, bytes@, width as int, height as int, bits_per_pixel as int, order),
                out@.len() == (y * width + x) * 4,
                forall|i: int| 0 <= i < out@.len() ==> out@[i] == target[i],
            decreases width - x,
        {
            proof {
                lemma_pixel_in_frame(
                    rule,
                    bytes@.len() as int,
                    x as int,
                    y as int,
                    width as int,
                    height as int,
                    bits_per_pixel as int,
                );
            }
            let ghost k = y * width + x;
            let (r, g, b, a) = decode_pixel_rgba(rule, bytes, x, y, width, bits_per_pixel, order);
            proof {
                assert(target.len() == width * height * 4) by (nonlinear_arith)
                    requires
                        target.len() == (width * height * 4) as nat,
                        0 <= width,
                        0 <= height,
                ;
                lemma_split_index(k, 0, 4);
                lemma_split_index(k, 1, 4);
                lemma_split_index(k, 2, 4);
                lemma_split_index(k, 3, 4);
            }
            out.push(r);
            out.push(g);
            out.push(b);
            out.push(a);
            x = x + 1;
        }
        proof {
            assert((y * width + width) == (y + 1) * width) by (nonlinear_arith);
        }
        y = y + 1;
    }
    proof {
        assert(out@.len() == target.len()) by (nonlinear_arith)
            requires
                out@.len() == (height * width) as int * 4,
                target.len() == (width * height * 4) as nat,
        ;
        assert(out@ =~= target);
    }
    out
}

/// A decoded frame holds exactly `width * height` samples per channel: three
/// per pixel for RGB, four for RGBA.
pub proof fn lemma_frame_len(
    rule: DecodeRule,
    bytes: Seq<u8>,
    width: u32,
    height: u32,
    bits_per_pixel: u32,
    order: ByteOrder,
)
    ensures
        frame_rgb(rule, bytes, width as int, height as int, bits_per_pixel as int, order).len()
            == width * height * 3,
        frame_rgba(rule, bytes, width as int, height as int, bits_per_pixel as int, order).len()
            == width * height * 4,
{
    assert(0 <= width * height * 3 && 0 <= width * height * 4) by (nonlinear_arith);
}

/// The RGB and RGBA decodings of one frame agree on red, green and blue at
/// every pixel; the RGBA one only adds an alpha of 255.
pub proof fn lemma_rgb_agrees_with_rgba(
    rule: DecodeRule,
    bytes: Seq<u8>,
    width: u32,
    height: u32,
    bits_per_pixel: u32,
    order: ByteOrder,
)
    ensures
        forall|p: int, c: int|
            0 <= p < width * height && 0 <= c < 3 ==> #[trigger] frame_rgba(
                rule,
                bytes,
                width as int,
                height as int,
                bits_per_pixel as int,
                order,
            )[p * 4 + c] == #[trigger] frame_rgb(
                rule,
                bytes,
                width as int,
                height as int,
                bits_per_pixel as int,
                order,
            )[p * 3 + c],
        forall|p: int|
            0 <= p < width * height ==> #[trigger] frame_rgba(
                rule,
                bytes,
                width as int,
                height as int,
                bits_per_pixel as int,
                order,
            )[p * 4 + 3] == 255,
{
    let w = width as int;
    let h = height as int;
    let b = bits_per_pixel as int;
    assert forall|p: int, c: int| 0 <= p < w * h && 0 <= c < 3 implies #[trigger] frame_rgba(
        rule,
        bytes,
        w,
        h,
        b,
        order,
    )[p * 4 + c] == #[trigger] frame_rgb(rule, bytes, w, h, b, order)[p * 3 + c] by {
        lemma_split_index(p, c, 4);
        lemma_split_index(p, c, 3);
        assert(p * 4 + c < w * h * 4 && p * 3 + c < w * h * 3) by (nonlinear_arith)
            requires
                0 <= p < w * h,
                0 <= c < 3,
        ;
    }
    assert forall|p: int| 0 <= p < w * h implies #[trigger] frame_rgba(rule, bytes, w, h, b, order)[p
        * 4 + 3] == 255 by {
        lemma_split_index(p, 3, 4);
        assert(p * 4 + 3 < w * h * 4) by (nonlinear_arith)
            requires
                0 <= p < w * h,
        ;
    }
}

} // verus!
