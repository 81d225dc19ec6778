//! Tests for the image pipeline: size calculation, resizing,
//! decoding, compositing, channel reordering, and thumbnail creation.

use cbxcore::pixels::{apply_background, rgba_to_bgra};
use cbxcore::resize::{calculate_thumbnail_size, resize_image, ResizeFilter};
use cbxcore::thumbnail::{
    create_thumbnail, create_thumbnail_with_size, decode_image, ThumbnailConfig,
};

/// Minimal valid JPEG file (1x1 red pixel)
const MINIMAL_JPEG: &[u8] = &[
    0xFF, 0xD8, 0xFF, 0xE0, 0x00, 0x10, 0x4A, 0x46, 0x49, 0x46, 0x00, 0x01, 0x01, 0x00, 0x00,
    0x01, 0x00, 0x01, 0x00, 0x00, 0xFF, 0xDB, 0x00, 0x43, 0x00, 0x03, 0x02, 0x02, 0x02, 0x02,
    0x02, 0x03, 0x02, 0x02, 0x02, 0x03, 0x03, 0x03, 0x03, 0x04, 0x06, 0x04, 0x04, 0x04, 0x04,
    0x04, 0x08, 0x06, 0x06, 0x05, 0x06, 0x09, 0x08, 0x0A, 0x0A, 0x09, 0x08, 0x09, 0x09, 0x0A,
    0x0C, 0x0F, 0x0C, 0x0A, 0x0B, 0x0E, 0x0B, 0x09, 0x09, 0x0D, 0x11, 0x0D, 0x0E, 0x0F, 0x10,
    0x10, 0x11, 0x10, 0x0A, 0x0C, 0x12, 0x13, 0x12, 0x10, 0x13, 0x0F, 0x10, 0x10, 0x10, 0xFF,
    0xC0, 0x00, 0x0B, 0x08, 0x00, 0x01, 0x00, 0x01, 0x01, 0x01, 0x11, 0x00, 0xFF, 0xC4, 0x00,
    0x14, 0x00, 0x01, 0x00, 0x00, 0x00, 0x00, 0x00, 0x00, 0x00, 0x00, 0x00, 0x00, 0x00, 0x00,
    0x00, 0x00, 0x00, 0x09, 0xFF, 0xC4, 0x00, 0x14, 0x10, 0x01, 0x00, 0x00, 0x00, 0x00, 0x00,
    0x00, 0x00, 0x00, 0x00, 0x00, 0x00, 0x00, 0x00, 0x00, 0x00, 0x00, 0xFF, 0xDA, 0x00, 0x08,
    0x01, 0x01, 0x00, 0x00, 0x3F, 0x00, 0x54, 0xDF, 0xFF, 0xD9,
];

/// Minimal valid PNG file (1x1 red pixel)
const MINIMAL_PNG: &[u8] = &[
    0x89, 0x50, 0x4E, 0x47, 0x0D, 0x0A, 0x1A, 0x0A, // PNG signature
    0x00, 0x00, 0x00, 0x0D, 0x49, 0x48, 0x44, 0x52, // IHDR chunk
    0x00, 0x00, 0x00, 0x01, 0x00, 0x00, 0x00, 0x01, // 1x1 dimensions
    0x08, 0x02, 0x00, 0x00, 0x00, 0x90, 0x77, 0x53, 0xDE, 0x00, 0x00, 0x00, 0x0C, 0x49, 0x44,
    0x41, 0x54, // IDAT chunk (12 bytes)
    0x08, 0xD7, 0x63, 0xF8, 0xCF, 0xC0, 0x00, 0x00, // Compressed data
    0x03, 0x01, 0x01, 0x00, 0x18, 0xDD, 0x8D, 0xB0, // CRC corrected
    0x00, 0x00, 0x00, 0x00, 0x49, 0x45, 0x4E, 0x44, // IEND chunk
    0xAE, 0x42, 0x60, 0x82,
];

/// Minimal valid WebP file (1x1 red pixel, lossy VP8 format)
const MINIMAL_WEBP: &[u8] = &[
    0x52, 0x49, 0x46, 0x46, 0x40, 0x00, 0x00, 0x00, 0x57, 0x45, 0x42, 0x50, 0x56, 0x50, 0x38,
    0x20, 0x34, 0x00, 0x00, 0x00, 0xF0, 0x01, 0x00, 0x9D, 0x01, 0x2A, 0x01, 0x00, 0x01, 0x00,
    0x01, 0x00, 0x1C, 0x25, 0xA0, 0x02, 0x74, 0xBA, 0x01, 0xF8, 0x00, 0x04, 0x4C, 0x00, 0x00,
    0xFE, 0xF5, 0xB8, 0x7F, 0xFE, 0x9A, 0x47, 0x8D, 0x23, 0xC6, 0x91, 0xF1, 0x70, 0xFF, 0xEE,
    0x81, 0x3F, 0x74, 0x09, 0xFB, 0xA0, 0x4F, 0xFD, 0xCD, 0xA0, 0x00, 0x00,
];

/// A `w x h` RGBA buffer filled with one pixel value.
fn solid(w: u32, h: u32, pixel: [u8; 4]) -> Vec<u8> {
    let mut out = Vec::new();
    for _ in 0..(w * h) {
        out.extend_from_slice(&pixel);
    }
    out
}

#[test]
fn test_aspect_ratio_landscape() {
    // Landscape image 1000x500 should scale to 256x128 (2:1 ratio)
    let (w, h) = calculate_thumbnail_size(1000, 500, 256, 256);
    assert_eq!(w, 256);
    assert_eq!(h, 128);

    let original_ratio = 1000.0 / 500.0;
    let new_ratio = w as f32 / h as f32;
    assert!((original_ratio - new_ratio).abs() < 0.01);
}

#[test]
fn test_aspect_ratio_portrait() {
    // Portrait image 500x1000 should scale to 128x256 (1:2 ratio)
    let (w, h) = calculate_thumbnail_size(500, 1000, 256, 256);
    assert_eq!(w, 128);
    assert_eq!(h, 256);

    let original_ratio = 500.0 / 1000.0;
    let new_ratio = w as f32 / h as f32;
    assert!((original_ratio - new_ratio).abs() < 0.01);
}

#[test]
fn test_aspect_ratio_square() {
    let (w, h) = calculate_thumbnail_size(1000, 1000, 256, 256);
    assert_eq!(w, 256);
    assert_eq!(h, 256);
}

#[test]
fn test_no_upscale() {
    // Small image 100x100 should not be upscaled
    let (w, h) = calculate_thumbnail_size(100, 100, 256, 256);
    assert_eq!(w, 100);
    assert_eq!(h, 100);

    let (w, h) = calculate_thumbnail_size(50, 75, 256, 256);
    assert_eq!(w, 50);
    assert_eq!(h, 75);
}

#[test]
fn test_exact_fit() {
    let (w, h) = calculate_thumbnail_size(256, 256, 256, 256);
    assert_eq!(w, 256);
    assert_eq!(h, 256);
}

#[test]
fn test_zero_dimensions() {
    let (w, h) = calculate_thumbnail_size(0, 0, 256, 256);
    assert_eq!(w, 0);
    assert_eq!(h, 0);

    let (w, h) = calculate_thumbnail_size(100, 0, 256, 256);
    assert_eq!(w, 0);
    assert_eq!(h, 0);
}

#[test]
fn test_very_wide_image() {
    // Extremely wide image 4000x100
    let (w, h) = calculate_thumbnail_size(4000, 100, 256, 256);
    assert_eq!(w, 256);
    assert_eq!(h, 6); // 256 * (100/4000) = 6.4 rounded to 6
}

#[test]
fn test_resize_image_downscale() {
    // A 4x4 red image resized to 2x2
    let source = solid(4, 4, [255, 0, 0, 255]);
    let result = resize_image(&source, 4, 4, 2, 2, ResizeFilter::Triangle);
    assert!(result.is_ok());

    let resized = result.unwrap();
    assert_eq!(resized.len(), 2 * 2 * 4);
    // Pixels are still predominantly red and fully opaque
    assert!(resized[0] > 200);
    assert_eq!(resized[3], 255);
}

#[test]
fn test_resize_image_same_size() {
    let source = solid(10, 10, [0, 0, 0, 0]);
    let result = resize_image(&source, 10, 10, 10, 10, ResizeFilter::Triangle);
    assert!(result.is_ok());
    let resized = result.unwrap();
    assert_eq!(resized, source);
}

#[test]
fn test_resize_image_invalid_dimensions() {
    let source = solid(10, 10, [0, 0, 0, 0]);
    let result = resize_image(&source, 10, 10, 0, 10, ResizeFilter::Triangle);
    assert!(result.is_err());
    let result = resize_image(&source, 10, 10, 10, 0, ResizeFilter::Triangle);
    assert!(result.is_err());
}

#[test]
fn test_resize_filters() {
    let source = solid(100, 100, [0, 0, 0, 0]);
    let result = resize_image(&source, 100, 100, 50, 50, ResizeFilter::Triangle);
    assert!(result.is_ok());
    let result = resize_image(&source, 100, 100, 50, 50, ResizeFilter::Lanczos3);
    assert!(result.is_ok());
}

#[test]
fn test_resize_large_to_small() {
    // A large gradient image resized to a thumbnail
    let mut source = Vec::new();
    for y in 0..800u32 {
        for x in 0..1000u32 {
            let r = (x * 255 / 1000) as u8;
            let g = (y * 255 / 800) as u8;
            source.extend_from_slice(&[r, g, 0, 255]);
        }
    }
    let result = resize_image(&source, 1000, 800, 200, 160, ResizeFilter::Lanczos3);
    assert!(result.is_ok());
    let resized = result.unwrap();
    assert_eq!(resized.len(), 200 * 160 * 4);
}

#[test]
fn test_decode_jpeg() {
    let result = decode_image(MINIMAL_JPEG);
    assert!(result.is_ok(), "Failed to decode JPEG: {:?}", result.err());
    let (_, w, h) = result.unwrap();
    assert_eq!(w, 1);
    assert_eq!(h, 1);
}

#[test]
fn test_decode_png() {
    let result = decode_image(MINIMAL_PNG);
    assert!(result.is_ok(), "Failed to decode PNG: {:?}", result.err());
    let (pixels, w, h) = result.unwrap();
    assert_eq!(w, 1);
    assert_eq!(h, 1);
    assert_eq!(pixels.len(), 4);
}

#[test]
fn test_decode_empty_data() {
    let result = decode_image(&[]);
    assert!(result.is_err());
    assert!(matches!(
        result.unwrap_err(),
        cbxcore::errors::CbxError::Image(_)
    ));
}

#[test]
fn test_decode_corrupt_data() {
    let corrupt = vec![0xFF, 0x00, 0x12, 0x34, 0x56, 0x78, 0x9A, 0xBC];
    let result = decode_image(&corrupt);
    assert!(result.is_err());
    assert!(matches!(
        result.unwrap_err(),
        cbxcore::errors::CbxError::Image(_)
    ));
}

#[test]
fn test_decode_partial_data() {
    // Only JPEG signature, no actual image data
    let partial = vec![0xFF, 0xD8, 0xFF, 0xE0];
    let result = decode_image(&partial);
    assert!(result.is_err());
}

#[test]
fn test_decode_wrong_format() {
    let not_image = b"This is not an image file content";
    let result = decode_image(not_image);
    assert!(result.is_err());
}

#[test]
fn test_webp_decoding() {
    let result = create_thumbnail_with_size(MINIMAL_WEBP, 256, 256);
    assert!(
        result.is_ok(),
        "WebP decoding should succeed, but got: {:?}",
        result.err()
    );
}

#[test]
fn test_image_crate_webp_support() {
    let result = decode_image(MINIMAL_WEBP);
    assert!(result.is_ok(), "Failed to decode WebP: {:?}", result.err());
    let (_, w, h) = result.unwrap();
    assert!(w > 0 && h > 0);
}

#[test]
fn test_apply_background_opaque() {
    // A fully opaque red pixel stays red
    let mut img = vec![255, 0, 0, 255];
    apply_background(&mut img, (255, 255, 255, 255));
    assert_eq!(img, [255, 0, 0, 255]);
}

#[test]
fn test_apply_background_transparent() {
    // A fully transparent pixel becomes the white background
    let mut img = vec![255, 0, 0, 0];
    apply_background(&mut img, (255, 255, 255, 255));
    assert_eq!(img, [255, 255, 255, 255]);
}

#[test]
fn test_apply_background_semi_transparent() {
    // A half-transparent red pixel blends towards white
    let mut img = vec![255, 0, 0, 128];
    apply_background(&mut img, (255, 255, 255, 255));
    assert!(img[0] > 200);
    assert!(img[1] > 100);
    assert!(img[2] > 100);
    assert_eq!(img[3], 255);
}

#[test]
fn test_apply_background_exact_blend() {
    // channel * alpha + background * (255 - alpha), truncated:
    // (100*128 + 200*127) / 255 = 149 for the red channel.
    let mut img = vec![100, 0, 50, 128];
    apply_background(&mut img, (200, 10, 30, 255));
    assert_eq!(img[0] as u32, (100 * 128 + 200 * 127) / 255);
    assert_eq!(img[1] as u32, (0 * 128 + 10 * 127) / 255);
    assert_eq!(img[2] as u32, (50 * 128 + 30 * 127) / 255);
    assert_eq!(img[3], 255);
}

#[test]
fn test_rgba_to_bgra_conversion() {
    let rgba = vec![255, 0, 0, 255]; // Red pixel (RGBA)
    let bgra = rgba_to_bgra(&rgba);
    assert_eq!(bgra, vec![0, 0, 255, 255]); // Red pixel (BGRA)
}

#[test]
fn test_rgba_to_bgra_multiple_pixels() {
    let rgba = vec![
        255, 0, 0, 255, // red
        0, 255, 0, 255, // green
        0, 0, 255, 255, // blue
    ];
    let bgra = rgba_to_bgra(&rgba);
    assert_eq!(
        bgra,
        vec![0, 0, 255, 255, 0, 255, 0, 255, 255, 0, 0, 255]
    );
}

#[test]
fn test_rgba_to_bgra_transparency() {
    let rgba = vec![10, 20, 30, 40];
    let bgra = rgba_to_bgra(&rgba);
    assert_eq!(bgra, vec![30, 20, 10, 40]);
}

#[test]
fn test_rgba_to_bgra_double_swap_is_identity() {
    let rgba = vec![1, 2, 3, 4, 5, 6, 7, 8, 9, 10, 11, 12, 13];
    let twice = rgba_to_bgra(&rgba_to_bgra(&rgba));
    assert_eq!(twice, rgba);
}

#[test]
fn test_config_default_values() {
    let config = ThumbnailConfig::default();
    assert_eq!(config.max_width, 256);
    assert_eq!(config.max_height, 256);
    assert_eq!(config.background_color, (255, 255, 255, 255));
    assert_eq!(config.resize_filter, ResizeFilter::Triangle);
}

#[test]
fn test_create_thumbnail_default_config() {
    let result = create_thumbnail(MINIMAL_JPEG, ThumbnailConfig::default());
    assert!(
        result.is_ok(),
        "Failed to create thumbnail: {:?}",
        result.err()
    );
    let thumb = result.unwrap();
    assert_eq!(thumb.width, 1);
    assert_eq!(thumb.height, 1);
    assert_eq!(thumb.data.len(), 4);
    assert_eq!(thumb.data[3], 255);
}

#[test]
fn test_create_thumbnail_custom_size() {
    let config = ThumbnailConfig {
        max_width: 128,
        max_height: 128,
        ..Default::default()
    };
    let result = create_thumbnail(MINIMAL_JPEG, config);
    assert!(result.is_ok());
}

#[test]
fn test_create_thumbnail_with_size_convenience() {
    let result = create_thumbnail_with_size(MINIMAL_JPEG, 64, 64);
    assert!(result.is_ok());
}

#[test]
fn test_create_thumbnail_invalid_data() {
    let invalid_data = b"This is not an image";
    let result = create_thumbnail(invalid_data, ThumbnailConfig::default());
    assert!(result.is_err());
}

#[test]
fn test_create_thumbnail_empty_data() {
    let result = create_thumbnail(&[], ThumbnailConfig::default());
    assert!(result.is_err());
}

#[test]
fn test_thumbnail_with_lanczos3() {
    let config = ThumbnailConfig {
        resize_filter: ResizeFilter::Lanczos3,
        ..Default::default()
    };
    let result = create_thumbnail(MINIMAL_JPEG, config);
    assert!(result.is_ok());
}

#[test]
fn test_thumbnail_custom_background() {
    let config = ThumbnailConfig {
        background_color: (0, 0, 0, 255), // Black
        ..Default::default()
    };
    let result = create_thumbnail(MINIMAL_JPEG, config);
    assert!(result.is_ok());
}

#[test]
fn test_thumbnail_very_large_size() {
    let config = ThumbnailConfig {
        max_width: 4096,
        max_height: 4096,
        ..Default::default()
    };
    // A 1x1 image is not upscaled
    let result = create_thumbnail(MINIMAL_JPEG, config);
    assert!(result.is_ok());
    let thumb = result.unwrap();
    assert_eq!((thumb.width, thumb.height), (1, 1));
}

#[test]
fn test_thumbnail_very_small_size() {
    let config = ThumbnailConfig {
        max_width: 16,
        max_height: 16,
        ..Default::default()
    };
    let result = create_thumbnail(MINIMAL_JPEG, config);
    assert!(result.is_ok());
}

#[test]
fn test_thumbnail_downscales_to_box() {
    // A 4x4 solid blue PNG-free raster cannot be fed directly, so use
    // the resize + composite + reorder steps on raw pixels instead:
    // a thumbnail from a decoded 1x1 red JPEG under a 256 box keeps
    // the source size, and its only pixel comes out opaque with the
    // channels in target order.
    let result = create_thumbnail_with_size(MINIMAL_JPEG, 256, 256).unwrap();
    assert_eq!(result.data.len(), 4);
    assert_eq!(result.data[3], 255);
    // The decoded pixel is red-dominant, so after the swap the red
    // value stands in channel 2.
    assert!(result.data[2] > 200);
}
