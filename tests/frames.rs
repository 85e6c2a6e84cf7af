use xcap_decode::error::CaptureError;
use xcap_decode::frame::{assemble_rgb, assemble_rgba};
use xcap_decode::pixel::{ByteOrder, DecodeRule};
use xcap_decode::reply::{
    decode_reply_rgb, decode_reply_rgba, decode_rule, find_bits_per_pixel, PixmapFormat,
};

fn formats() -> Vec<PixmapFormat> {
    vec![
        PixmapFormat { depth: 1, bits_per_pixel: 1 },
        PixmapFormat { depth: 8, bits_per_pixel: 8 },
        PixmapFormat { depth: 15, bits_per_pixel: 16 },
        PixmapFormat { depth: 16, bits_per_pixel: 16 },
        PixmapFormat { depth: 24, bits_per_pixel: 32 },
        PixmapFormat { depth: 32, bits_per_pixel: 32 },
    ]
}

#[test]
fn assemble_two_by_two_depth24() {
    let raw = [1, 2, 3, 0, 4, 5, 6, 0, 7, 8, 9, 0, 10, 11, 12, 0];
    let rgb = assemble_rgb(&raw, 2, 2, 32, ByteOrder::LsbFirst, DecodeRule::Depth24Or32);
    assert_eq!(rgb, vec![3, 2, 1, 6, 5, 4, 9, 8, 7, 12, 11, 10]);
    let rgba = assemble_rgba(&raw, 2, 2, 32, ByteOrder::MsbFirst, DecodeRule::Depth24Or32);
    assert_eq!(rgba, vec![1, 2, 3, 255, 4, 5, 6, 255, 7, 8, 9, 255, 10, 11, 12, 255]);
}

#[test]
fn assembled_length_is_exact() {
    let raw = vec![0x5Au8; 7 * 5 * 2];
    for (w, h) in [(1u32, 1u32), (7, 5), (5, 7), (3, 1)] {
        let rgb = assemble_rgb(&raw, w, h, 16, ByteOrder::LsbFirst, DecodeRule::Depth16);
        let rgba = assemble_rgba(&raw, w, h, 16, ByteOrder::LsbFirst, DecodeRule::Depth16);
        assert_eq!(rgb.len(), (w * h * 3) as usize);
        assert_eq!(rgba.len(), (w * h * 4) as usize);
    }
}

#[test]
fn rgb_and_rgba_agree_per_pixel() {
    let raw: Vec<u8> = (0..48u32).map(|i| (i * 37 % 256) as u8).collect();
    for (depth, bpp) in [(8u8, 8u32), (16, 16), (24, 32)] {
        let rule = decode_rule(depth).unwrap();
        for order in [ByteOrder::LsbFirst, ByteOrder::MsbFirst] {
            let rgb = assemble_rgb(&raw, 4, 3, bpp, order, rule);
            let rgba = assemble_rgba(&raw, 4, 3, bpp, order, rule);
            for p in 0..12 {
                assert_eq!(&rgb[p * 3..p * 3 + 3], &rgba[p * 4..p * 4 + 3]);
                assert_eq!(rgba[p * 4 + 3], 255);
            }
        }
    }
}

#[test]
fn decode_rule_by_depth() {
    assert_eq!(decode_rule(8), Ok(DecodeRule::Depth8));
    assert_eq!(decode_rule(16), Ok(DecodeRule::Depth16));
    assert_eq!(decode_rule(24), Ok(DecodeRule::Depth24Or32));
    assert_eq!(decode_rule(32), Ok(DecodeRule::Depth24Or32));
    for depth in [0u8, 1, 4, 15, 30, 255] {
        assert_eq!(decode_rule(depth), Err(CaptureError::UnsupportedDepth { depth }));
    }
}

#[test]
fn bits_per_pixel_from_first_matching_entry() {
    let mut table = formats();
    table.push(PixmapFormat { depth: 24, bits_per_pixel: 24 });
    assert_eq!(find_bits_per_pixel(&table, 24), Ok(32));
    assert_eq!(find_bits_per_pixel(&table, 15), Ok(16));
    assert_eq!(
        find_bits_per_pixel(&table, 12),
        Err(CaptureError::PixmapFormatNotFound { depth: 12 })
    );
    assert_eq!(
        find_bits_per_pixel(&[], 24),
        Err(CaptureError::PixmapFormatNotFound { depth: 24 })
    );
}

#[test]
fn reply_decodes_to_image() {
    let data = [1, 2, 3, 0, 4, 5, 6, 0];
    let img = decode_reply_rgba(&data, 24, &formats(), ByteOrder::LsbFirst, 2, 1).unwrap();
    assert_eq!(img.image.width(), 2);
    assert_eq!(img.image.height(), 1);
    assert_eq!(img.image.as_raw(), &vec![3, 2, 1, 255, 6, 5, 4, 255]);
    let img = decode_reply_rgb(&data, 24, &formats(), ByteOrder::MsbFirst, 1, 2).unwrap();
    assert_eq!(img.image.width(), 1);
    assert_eq!(img.image.height(), 2);
    assert_eq!(img.image.as_raw(), &vec![1, 2, 3, 4, 5, 6]);
}

#[test]
fn reply_rgb_matches_rgba() {
    let data: Vec<u8> = (0..24u32).map(|i| (i * 91 % 256) as u8).collect();
    let rgb = decode_reply_rgb(&data, 16, &formats(), ByteOrder::MsbFirst, 4, 3).unwrap();
    let rgba = decode_reply_rgba(&data, 16, &formats(), ByteOrder::MsbFirst, 4, 3).unwrap();
    for y in 0..3 {
        for x in 0..4 {
            let a = rgba.image.get_pixel(x, y).0;
            let b = rgb.image.get_pixel(x, y).0;
            assert_eq!([a[0], a[1], a[2]], b);
            assert_eq!(a[3], 255);
        }
    }
}

#[test]
fn reply_with_unsupported_depth() {
    let data = vec![0u8; 64];
    assert_eq!(
        decode_reply_rgba(&data, 15, &formats(), ByteOrder::LsbFirst, 2, 2).err(),
        Some(CaptureError::UnsupportedDepth { depth: 15 })
    );
    assert_eq!(
        decode_reply_rgb(&data, 1, &formats(), ByteOrder::LsbFirst, 2, 2).err(),
        Some(CaptureError::UnsupportedDepth { depth: 1 })
    );
}

#[test]
fn reply_without_pixmap_format() {
    let data = vec![0u8; 64];
    let table = vec![PixmapFormat { depth: 32, bits_per_pixel: 32 }];
    assert_eq!(
        decode_reply_rgba(&data, 24, &table, ByteOrder::LsbFirst, 2, 2).err(),
        Some(CaptureError::PixmapFormatNotFound { depth: 24 })
    );
    assert_eq!(
        decode_reply_rgb(&data, 12, &formats(), ByteOrder::LsbFirst, 2, 2).err(),
        Some(CaptureError::PixmapFormatNotFound { depth: 12 })
    );
}

#[test]
fn reply_too_short() {
    let data = vec![0u8; 14];
    assert_eq!(
        decode_reply_rgba(&data, 32, &formats(), ByteOrder::LsbFirst, 2, 2).err(),
        Some(CaptureError::IncompleteReply)
    );
    assert!(decode_reply_rgba(&data, 32, &formats(), ByteOrder::LsbFirst, 2, 1).is_ok());
    // The last pixel reads three of its four bytes.
    let data = vec![0u8; 15];
    assert!(decode_reply_rgb(&data, 32, &formats(), ByteOrder::LsbFirst, 2, 2).is_ok());
}

#[test]
fn reply_of_region_400_by_300() {
    let data = vec![0x80u8; 400 * 300 * 4];
    let img = decode_reply_rgba(&data, 24, &formats(), ByteOrder::LsbFirst, 400, 300).unwrap();
    assert_eq!(img.image.width(), 400);
    assert_eq!(img.image.height(), 300);
    let img = decode_reply_rgb(&data, 32, &formats(), ByteOrder::LsbFirst, 400, 300).unwrap();
    assert_eq!(img.image.width(), 400);
    assert_eq!(img.image.height(), 300);
    assert_eq!(img.image.as_raw().len(), 400 * 300 * 3);
}
