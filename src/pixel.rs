use vstd::prelude::*;

verus! {

/// Order of the bytes of a multi-byte pixel value, as the server reports it
/// for the whole connection.
#[derive(Clone, Copy, Debug, PartialEq, Eq, Structural)]
pub enum ByteOrder {
    LsbFirst,
    MsbFirst,
}

/// The decode rule for one pixel depth, chosen once per frame.
#[derive(Clone, Copy, Debug, PartialEq, Eq, Structural)]
pub enum DecodeRule {
    /// 3-3-2 packed RGB, one byte per pixel.
    Depth8,
    /// 5-6-5 packed RGB, two bytes per pixel.
    Depth16,
    /// Byte-aligned RGB; a fourth byte, if any, is ignored.
    Depth24Or32,
}

/// Byte offset of pixel `k` of the raster (row `k / width`, column `k % width`).
pub open spec fn raster_offset(k: int, bits_per_pixel: int) -> int {
    k * bits_per_pixel / 8
}

/// Byte offset of the pixel at column `x`, row `y`, of a raster `width` pixels wide.
pub open spec fn pixel_offset(x: int, y: int, width: int, bits_per_pixel: int) -> int {
    raster_offset(y * width + x, bits_per_pixel)
}

/// How many bytes a rule reads at a pixel's offset.
pub open spec fn bytes_read(rule: DecodeRule) -> int {
    match rule {
        DecodeRule::Depth8 => 1,
        DecodeRule::Depth16 => 2,
        DecodeRule::Depth24Or32 => 3,
    }
}

/// The 3-3-2 value of a depth-8 byte: used as it is least-significant-byte
/// first, else with bits 4..6 kept and the high nibble moved down.
pub open spec fn depth8_value(raw: u8, order: ByteOrder) -> u8 {
    match order {
        ByteOrder::LsbFirst => raw,
        ByteOrder::MsbFirst => (raw & 0x70) | (raw >> 4),
    }
}

/// Channels of a 3-3-2 value: red bits 6..7 times 85, green bits 3..5 times
/// 36, blue bits 0..1 times 85.
pub open spec fn rgb332(v: u8) -> (u8, u8, u8) {
    (((v / 64) * 85) as u8, (((v / 8) % 8) * 36) as u8, ((v % 4) * 85) as u8)
}

/// The 16-bit value of two consecutive bytes in the given order.
pub open spec fn depth16_value(b0: u8, b1: u8, order: ByteOrder) -> u16 {
    match order {
        ByteOrder::LsbFirst => (b0 + 256 * b1) as u16,
        ByteOrder::MsbFirst => (256 * b0 + b1) as u16,
    }
}

/// Channels of a 5-6-5 value: red bits 11..15 times 8, green bits 5..10
/// times 4, blue bits 0..4 times 8.
pub open spec fn rgb565(v: u16) -> (u8, u8, u8) {
    (((v / 2048) * 8) as u8, (((v / 32) % 64) * 4) as u8, ((v % 32) * 8) as u8)
}

/// Channels of three consecutive bytes: blue, green, red least-significant-byte
/// first; red, green, blue otherwise.
pub open spec fn rgb888(b0: u8, b1: u8, b2: u8, order: ByteOrder) -> (u8, u8, u8) {
    match order {
        ByteOrder::LsbFirst => (b2, b1, b0),
        ByteOrder::MsbFirst => (b0, b1, b2),
    }
}

/// The red, green and blue channels that `rule` decodes from the bytes at `offset`.
pub open spec fn decode_at(rule: DecodeRule, bytes: Seq<u8>, offset: int, order: ByteOrder) -> (
    u8,
    u8,
    u8,
) {
    match rule {
        DecodeRule::Depth8 => rgb332(depth8_value(bytes[offset], order)),
        DecodeRule::Depth16 => rgb565(depth16_value(bytes[offset], bytes[offset + 1], order)),
        DecodeRule::Depth24Or32 => rgb888(bytes[offset], bytes[offset + 1], bytes[offset + 2], order),
    }
}

/// Channel `c` (0 red, 1 green, 2 blue) of a decoded pixel.
pub open spec fn channel(p: (u8, u8, u8), c: int) -> u8 {
    if c == 0 {
        p.0
    } else if c == 1 {
        p.1
    } else {
        p.2
    }
}

/// The byte index of the pixel at (`x`, `y`), for a buffer of `len` bytes
/// that holds it.
fn pixel_index(x: u32, y: u32, width: u32, bits_per_pixel: u32, len: usize) -> (r: usize)
    requires
        pixel_offset(x as int, y as int, width as int, bits_per_pixel as int) < len,
    ensures
        r == pixel_offset(x as int, y as int, width as int, bits_per_pixel as int),
{
    assert((y as u128) * (width as u128) <= 0xffff_ffffu128 * 0xffff_ffffu128) by (nonlinear_arith)
        requires
            y <= 0xffff_ffffu32,
            width <= 0xffff_ffffu32,
    ;
    let k: u128 = (y as u128) * (width as u128) + (x as u128);
    assert(k * (bits_per_pixel as u128) <= 0x1_0000_0000_0000_0000u128 * 0x1_0000_0000u128)
        by (nonlinear_arith)
        requires
            k <= 0x1_0000_0000_0000_0000u128,
            bits_per_pixel <= 0x1_0000_0000u128,
    ;
    let offset: u128 = k * (bits_per_pixel as u128) / 8;
    offset as usize
}

/// Decodes the depth-8 pixel at (`x`, `y`).
pub fn get_pixel8_rgb(
    bytes: &[u8],
    x: u32,
    y: u32,
    width: u32,
    bits_per_pixel: u32,
    order: ByteOrder,
) -> (r: (u8, u8, u8))
    requires
        pixel_offset(x as int, y as int, width as int, bits_per_pixel as int) + 1 <= bytes@.len(),
    ensures
        r == decode_at(
            DecodeRule::Depth8,
            bytes@,
            pixel_offset(x as int, y as int, width as int, bits_per_pixel as int),
            order,
        ),
{
    let index = pixel_index(x, y, width, bits_per_pixel, bytes.len());
    let raw = bytes[index];
    let pixel: u8 = match order {
        ByteOrder::LsbFirst => raw,
        ByteOrder::MsbFirst => (raw & 0x70) | (raw >> 4),
    };
    let hi: u8 = pixel >> 6;
    let mid: u8 = (pixel >> 3) & 7;
    let lo: u8 = pixel & 3;
    assert(hi == pixel / 64 && mid == (pixel / 8) % 8 && lo == pixel % 4) by (bit_vector)
        requires
            hi == pixel >> 6,
            mid == (pixel >> 3) & 7,
            lo == pixel & 3,
    ;
    let r: u8 = hi * 85;
    let g: u8 = mid * 36;
    let b: u8 = lo * 85;
    (r, g, b)
}

/// Decodes the depth-8 pixel at (`x`, `y`), with an opaque alpha channel.
pub fn get_pixel8_rgba(
    bytes: &[u8],
    x: u32,
    y: u32,
    width: u32,
    bits_per_pixel: u32,
    order: ByteOrder,
) -> (r: (u8, u8, u8, u8))
    requires
        pixel_offset(x as int, y as int, width as int, bits_per_pixel as int) + 1 <= bytes@.len(),
    ensures
        (r.0, r.1, r.2) == decode_at(
            DecodeRule::Depth8,
            bytes@,
            pixel_offset(x as int, y as int, width as int, bits_per_pixel as int),
            order,
        ),
        r.3 == 255,
{
    let (r, g, b) = get_pixel8_rgb(bytes, x, y, width, bits_per_pixel, order);
    (r, g, b, 255)
}

/// Decodes the depth-16 pixel at (`x`, `y`).
pub fn get_pixel16_rgb(
    bytes: &[u8],
    x: u32,
    y: u32,
    width: u32,
    bits_per_pixel: u32,
    order: ByteOrder,
) -> (r: (u8, u8, u8))
    requires
        pixel_offset(x as int, y as int, width as int, bits_per_pixel as int) + 2 <= bytes@.len(),
    ensures
        r == decode_at(
            DecodeRule::Depth16,
            bytes@,
            pixel_offset(x as int, y as int, width as int, bits_per_pixel as int),
            order,
        ),
{
    let index = pixel_index(x, y, width, bits_per_pixel, bytes.len());
    let b0 = bytes[index] as u16;
    let b1 = bytes[index + 1] as u16;
    let pixel: u16 = match order {
        ByteOrder::LsbFirst => b0 | (b1 << 8),
        ByteOrder::MsbFirst => (b0 << 8) | b1,
    };
    assert(b0 | (b1 << 8) == b0 + 256 * b1 && (b0 << 8) | b1 == 256 * b0 + b1) by (bit_vector)
        requires
            b0 < 256,
            b1 < 256,
    ;
    let hi: u16 = pixel >> 11;
    let mid: u16 = (pixel >> 5) & 63;
    let lo: u16 = pixel & 31;
    assert(hi == pixel / 2048 && mid == (pixel / 32) % 64 && lo == pixel % 32) by (bit_vector)
        requires
            hi == pixel >> 11,
            mid == (pixel >> 5) & 63,
            lo == pixel & 31,
    ;
    let r = (hi * 8) as u8;
    let g = (mid * 4) as u8;
    let b = (lo * 8) as u8;
    (r, g, b)
}

/// Decodes the depth-16 pixel at (`x`, `y`), with an opaque alpha channel.
pub fn get_pixel16_rgba(
    bytes: &[u8],
    x: u32,
    y: u32,
    width: u32,
    bits_per_pixel: u32,
    order: ByteOrder,
) -> (r: (u8, u8, u8, u8))
    requires
        pixel_offset(x as int, y as int, width as int, bits_per_pixel as int) + 2 <= bytes@.len(),
    ensures
        (r.0, r.1, r.2) == decode_at(
            DecodeRule::Depth16,
            bytes@,
            pixel_offset(x as int, y as int, width as int, bits_per_pixel as int),
            order,
        ),
        r.3 == 255,
{
    let (r, g, b) = get_pixel16_rgb(bytes, x, y, width, bits_per_pixel, order);
    (r, g, b, 255)
}

/// Decodes the depth-24 or depth-32 pixel at (`x`, `y`).
pub fn get_pixel24_32_rgb(
    bytes: &[u8],
    x: u32,
    y: u32,
    width: u32,
    bits_per_pixel: u32,
    order: ByteOrder,
) -> (r: (u8, u8, u8))
    requires
        pixel_offset(x as int, y as int, width as int, bits_per_pixel as int) + 3 <= bytes@.len(),
    ensures
        r == decode_at(
            DecodeRule::Depth24Or32,
            bytes@,
            pixel_offset(x as int, y as int, width as int, bits_per_pixel as int),
            order,
        ),
{
    let index = pixel_index(x, y, width, bits_per_pixel, bytes.len());
    match order {
        ByteOrder::LsbFirst => (bytes[index + 2], bytes[index + 1], bytes[index]),
        ByteOrder::MsbFirst => (bytes[index], bytes[index + 1], bytes[index + 2]),
    }
}

/// Decodes the depth-24 or depth-32 pixel at (`x`, `y`), with an opaque alpha channel.
pub fn get_pixel24_32_rgba(
    bytes: &[u8],
    x: u32,
    y: u32,
    width: u32,
    bits_per_pixel: u32,
    order: ByteOrder,
) -> (r: (u8, u8, u8, u8))
    requires
        pixel_offset(x as int, y as int, width as int, bits_per_pixel as int) + 3 <= bytes@.len(),
    ensures
        (r.0, r.1, r.2) == decode_at(
            DecodeRule::Depth24Or32,
            bytes@,
            pixel_offset(x as int, y as int, width as int, bits_per_pixel as int),
            order,
        ),
        r.3 == 255,
{
    let (r, g, b) = get_pixel24_32_rgb(bytes, x, y, width, bits_per_pixel, order);
    (r, g, b, 255)
}

/// Decodes the pixel at (`x`, `y`) by `rule`.
pub fn decode_pixel(
    rule: DecodeRule,
    bytes: &[u8],
    x: u32,
    y: u32,
    width: u32,
    bits_per_pixel: u32,
    order: ByteOrder,
) -> (r: (u8, u8, u8))
    requires
        pixel_offset(x as int, y as int, width as int, bits_per_pixel as int) + bytes_read(rule)
            <= bytes@.len(),
    ensures
        r == decode_at(
            rule,
            bytes@,
            pixel_offset(x as int, y as int, width as int, bits_per_pixel as int),
            order,
        ),
{
    match rule {
        DecodeRule::Depth8 => get_pixel8_rgb(bytes, x, y, width, bits_per_pixel, order),
        DecodeRule::Depth16 => get_pixel16_rgb(bytes, x, y, width, bits_per_pixel, order),
        DecodeRule::Depth24Or32 => get_pixel24_32_rgb(bytes, x, y, width, bits_per_pixel, order),
    }
}

/// Decodes the pixel at (`x`, `y`) by `rule`, with an opaque alpha channel.
pub fn decode_pixel_rgba(
    rule: DecodeRule,
    bytes: &[u8],
    x: u32,
    y: u32,
    width: u32,
    bits_per_pixel: u32,
    order: ByteOrder,
) -> (r: (u8, u8, u8, u8))
    requires
        pixel_offset(x as int, y as int, width as int, bits_per_pixel as int) + bytes_read(rule)
            <= bytes@.len(),
    ensures
        (r.0, r.1, r.2) == decode_at(
            rule,
            bytes@,
            pixel_offset(x as int, y as int, width as int, bits_per_pixel as int),
            order,
        ),
        r.3 == 255,
{
    match rule {
        DecodeRule::Depth8 => get_pixel8_rgba(bytes, x, y, width, bits_per_pixel, order),
        DecodeRule::Depth16 => get_pixel16_rgba(bytes, x, y, width, bits_per_pixel, order),
        DecodeRule::Depth24Or32 => get_pixel24_32_rgba(bytes, x, y, width, bits_per_pixel, order),
    }
}

/// A decoded channel lies at most `tolerance` below the exact scaling of its
/// `level` (out of `max_level`) onto 0..=255, and never above it.
pub open spec fn scaled_within(decoded: u8, level: int, max_level: int, tolerance: int) -> bool {
    decoded <= level * 255 / max_level && level * 255 / max_level - decoded <= tolerance
}

/// The depth-8 byte that holds red level `r`, green level `g` and blue level `b`.
pub open spec fn rgb332_byte(r: u8, g: u8, b: u8) -> u8 {
    (r * 64 + g * 8 + b) as u8
}

/// The 16-bit value that holds red level `r`, green level `g` and blue level `b`.
pub open spec fn rgb565_value(r: u16, g: u16, b: u16) -> u16 {
    (r * 2048 + g * 32 + b) as u16
}

/// The two bytes, in buffer order, of a 16-bit value.
pub open spec fn depth16_bytes(v: u16, order: ByteOrder) -> (u8, u8) {
    match order {
        ByteOrder::LsbFirst => ((v % 256) as u8, (v / 256) as u8),
        ByteOrder::MsbFirst => ((v / 256) as u8, (v % 256) as u8),
    }
}

/// A least-significant-byte-first depth-8 byte built from 3-3-2 levels decodes
/// to red `r * 85`, green `g * 36`, blue `b * 85`: exact for red and blue, at
/// most 3 below the exact scale for green.
pub proof fn lemma_depth8_decodes_levels(bytes: Seq<u8>, offset: int, r: u8, g: u8, b: u8)
    requires
        0 <= offset < bytes.len(),
        r < 4,
        g < 8,
        b < 4,
        bytes[offset] == rgb332_byte(r, g, b),
    ensures
        decode_at(DecodeRule::Depth8, bytes, offset, ByteOrder::LsbFirst) == (
            (r * 85) as u8,
            (g * 36) as u8,
            (b * 85) as u8,
        ),
        scaled_within((r * 85) as u8, r as int, 3, 0),
        scaled_within((g * 36) as u8, g as int, 7, 3),
        scaled_within((b * 85) as u8, b as int, 3, 0),
{
    let v = rgb332_byte(r, g, b);
    assert(v / 64 == r && (v / 8) % 8 == g && v % 4 == b) by (bit_vector)
        requires
            r < 4,
            g < 8,
            b < 4,
            v == (r * 64 + g * 8 + b) as u8,
    ;
}

/// A depth-16 value built from 5-6-5 levels, stored in either byte order,
/// decodes to red `r * 8`, green `g * 4`, blue `b * 8`: at most 7 below the
/// exact scale for red and blue, at most 3 for green.
pub proof fn lemma_depth16_decodes_levels(
    bytes: Seq<u8>,
    offset: int,
    order: ByteOrder,
    r: u16,
    g: u16,
    b: u16,
)
    requires
        0 <= offset,
        offset + 2 <= bytes.len(),
        r < 32,
        g < 64,
        b < 32,
        (bytes[offset], bytes[offset + 1]) == depth16_bytes(rgb565_value(r, g, b), order),
    ensures
        decode_at(DecodeRule::Depth16, bytes, offset, order) == (
            (r * 8) as u8,
            (g * 4) as u8,
            (b * 8) as u8,
        ),
        scaled_within((r * 8) as u8, r as int, 31, 7),
        scaled_within((g * 4) as u8, g as int, 63, 3),
        scaled_within((b * 8) as u8, b as int, 31, 7),
{
    let v = rgb565_value(r, g, b);
    assert(v / 2048 == r && (v / 32) % 64 == g && v % 32 == b) by (bit_vector)
        requires
            r < 32,
            g < 64,
            b < 32,
            v == (r * 2048 + g * 32 + b) as u16,
    ;
    assert(v == v % 256 + 256 * (v / 256));
}

/// Byte-aligned channels, stored blue-green-red least-significant-byte first
/// and red-green-blue otherwise, decode exactly; a following padding byte
/// plays no part.
pub proof fn lemma_depth24_32_decodes_channels(
    bytes: Seq<u8>,
    offset: int,
    order: ByteOrder,
    r: u8,
    g: u8,
    b: u8,
)
    requires
        0 <= offset,
        offset + 3 <= bytes.len(),
        bytes[offset + 1] == g,
        order == ByteOrder::LsbFirst ==> bytes[offset] == b && bytes[offset + 2] == r,
        order == ByteOrder::MsbFirst ==> bytes[offset] == r && bytes[offset + 2] == b,
    ensures
        decode_at(DecodeRule::Depth24Or32, bytes, offset, order) == (r, g, b),
{
}

} // verus!
