//! The thumbnail pipeline: decode, fit, resize, composite, reorder.
//!
//! The output is a pixel buffer in the target surface's channel order
//! together with its dimensions; building a platform display handle
//! out of it is the host's business.

use vstd::prelude::*;
use crate::errors::CbxError;
use crate::pixels::{apply_background, composite, rgba_to_bgra, swap_rb};
use crate::resize::{calculate_thumbnail_size, resize_image, spec_thumbnail_size, ResizeFilter};

verus! {

/// Thumbnail generation configuration.
#[derive(Debug)]
pub struct ThumbnailConfig {
    /// Maximum thumbnail width in pixels.
    pub max_width: u32,
    /// Maximum thumbnail height in pixels.
    pub max_height: u32,
    /// Background colour composited under transparent pixels (RGBA).
    pub background_color: (u8, u8, u8, u8),
    /// The resampling kernel.
    pub resize_filter: ResizeFilter,
}

impl Clone for ThumbnailConfig {
    /// An exact copy of the configuration.
    fn clone(&self) -> (r: Self)
        ensures
            r == *self,
    {
        ThumbnailConfig {
            max_width: self.max_width,
            max_height: self.max_height,
            background_color: (
                self.background_color.0,
                self.background_color.1,
                self.background_color.2,
                self.background_color.3,
            ),
            resize_filter: self.resize_filter,
        }
    }
}

impl Default for ThumbnailConfig {
    /// The default configuration: a 256 x 256 box, an opaque white
    /// background, and the bilinear kernel.
    fn default() -> (r: Self)
        ensures
            r.max_width == 256,
            r.max_height == 256,
            r.background_color == (255u8, 255u8, 255u8, 255u8),
            r.resize_filter == ResizeFilter::Triangle,
    {
        ThumbnailConfig {
            max_width: 256,
            max_height: 256,
            background_color: (255, 255, 255, 255),
            resize_filter: ResizeFilter::Triangle,
        }
    }
}

/// A finished thumbnail: a pixel buffer in the target channel order
/// with explicit dimensions.
#[derive(Debug, Clone)]
pub struct Thumbnail {
    /// The pixel bytes, four per pixel, rows top to bottom.
    pub data: Vec<u8>,
    /// Width in pixels.
    pub width: u32,
    /// Height in pixels.
    pub height: u32,
}

impl Thumbnail {
    /// The buffer holds exactly four bytes for every pixel.
    pub open spec fn wf(&self) -> bool {
        self.data@.len() == 4 * (self.width as int) * (self.height as int)
    }
}

/// What the generic decoder produces for the given bytes: the RGBA
/// pixels with their dimensions, or nothing when the bytes are not a
/// decodable image.
pub uninterp spec fn decoded_rgba(data: Seq<u8>) -> Option<(Seq<u8>, u32, u32)>;

/// Relies on the `image` crate: `ImageReader::decode` sniffs the
/// format and decodes deterministically, and `to_rgba8` yields a
/// buffer of exactly `width * height * 4` bytes.
#[verifier::external_body]
fn decode_rgba(data: &[u8]) -> (r: Result<(Vec<u8>, u32, u32), String>)
    ensures
        match r {
            Ok(t) => decoded_rgba(data@) == Some((t.0@, t.1, t.2)) && t.0@.len() == 4 * (
            t.1 as int) * (t.2 as int),
            Err(_) => decoded_rgba(data@) is None,
        },
{
    let reader = image::ImageReader::new(std::io::Cursor::new(data)).with_guessed_format().map_err(
        |e| e.to_string(),
    )?;
    let img = reader.decode().map_err(|e| e.to_string())?;
    let rgba = img.to_rgba8();
    let (w, h) = rgba.dimensions();
    Ok((rgba.into_raw(), w, h))
}

/// Decodes compressed image bytes into an RGBA raster with explicit
/// dimensions.  Empty input is rejected without attempting a decode;
/// otherwise the call succeeds exactly when the decoder recognises
/// the bytes.
pub fn decode_image(data: &[u8]) -> (r: Result<(Vec<u8>, u32, u32), CbxError>)
    ensures
        data@.len() == 0 ==> r is Err,
        r is Err ==> r matches Err(CbxError::Image(_)),
        match r {
            Ok(t) => {
                &&& data@.len() > 0
                &&& decoded_rgba(data@) == Some((t.0@, t.1, t.2))
                &&& t.0@.len() == 4 * (t.1 as int) * (t.2 as int)
                &&& t.1 >= 1
                &&& t.2 >= 1
            },
            Err(_) => data@.len() == 0 || decoded_rgba(data@) is None || (decoded_rgba(data@)
                matches Some(d) && (d.1 == 0 || d.2 == 0)),
        },
{
    if data.len() == 0 {
        return Err(CbxError::Image("empty image data".to_owned()));
    }
    match decode_rgba(data) {
        Ok((pixels, width, height)) => {
            if width == 0 || height == 0 {
                return Err(CbxError::Image("decoded image has zero area".to_owned()));
            }
            Ok((pixels, width, height))
        },
        Err(_) => Err(CbxError::Image("failed to decode image".to_owned())),
    }
}

/// Creates a thumbnail from raw image bytes: decode, compute the
/// fitted size, resize when needed, composite onto the background,
/// and reorder the channels for the target surface.
///
/// Fails when the bytes cannot be decoded, when the decoded image has
/// zero area, or when the resampler reports a failure.  On success
/// the thumbnail's dimensions are exactly the fitted size of the
/// decoded image, and when no resampling was needed the pixel bytes
/// are exactly the composited, channel-swapped decoded raster.
pub fn create_thumbnail(image_data: &[u8], config: ThumbnailConfig) -> (r: Result<
    Thumbnail,
    CbxError,
>)
    ensures
        decoded_rgba(image_data@) is None ==> r matches Err(CbxError::Image(_)),
        decoded_rgba(image_data@) matches Some(d) ==> ((d.1 == 0 || d.2 == 0) ==> r matches Err(
            CbxError::Image(_),
        )),
        match r {
            Ok(t) => {
                &&& t.wf()
                &&& decoded_rgba(image_data@) matches Some(d) && (t.width as int, t.height as int)
                    == spec_thumbnail_size(
                    d.1 as int,
                    d.2 as int,
                    config.max_width as int,
                    config.max_height as int,
                )
                &&& exists|raw: Seq<u8>|
                    t.data@ == swap_rb(#[trigger] composite(raw, config.background_color))
                &&& forall|p: int|
                    #![trigger t.data@[4 * p + 3]]
                    0 <= p && 4 * p + 3 < t.data@.len() ==> t.data@[4 * p + 3] == 255
            },
            Err(_) => true,
        },
        decoded_rgba(image_data@) matches Some(d) ==> ((image_data@.len() > 0 && d.1 > 0 && d.2
            > 0 && spec_thumbnail_size(
            d.1 as int,
            d.2 as int,
            config.max_width as int,
            config.max_height as int,
        ) == (d.1 as int, d.2 as int)) ==> (r matches Ok(t) && t.data@ == swap_rb(
            composite(d.0, config.background_color),
        ))),
{
    let decoded = decode_image(image_data);
    match decoded {
        Err(e) => Err(e),
        Ok((rgba, src_width, src_height)) => {
            let (target_width, target_height) = calculate_thumbnail_size(
                src_width,
                src_height,
                config.max_width,
                config.max_height,
            );
            if target_width == 0 || target_height == 0 {
                return Err(CbxError::Image("invalid image dimensions".to_owned()));
            }
            let resized: Vec<u8>;
            if target_width != src_width || target_height != src_height {
                match resize_image(
                    &rgba,
                    src_width,
                    src_height,
                    target_width,
                    target_height,
                    config.resize_filter,
                ) {
                    Ok(v) => {
                        resized = v;
                    },
                    Err(_) => {
                        return Err(CbxError::Image("resize operation failed".to_owned()));
                    },
                }
            } else {
                resized = rgba;
            }
            let mut composited = resized;
            let ghost raw = composited@;
            apply_background(&mut composited, config.background_color);
            let bgra = rgba_to_bgra(composited.as_slice());
            proof {
                assert(bgra@ == swap_rb(composite(raw, config.background_color)));
                assert forall|p: int|
                    #![trigger bgra@[4 * p + 3]]
                    0 <= p && 4 * p + 3 < bgra@.len() implies bgra@[4 * p + 3] == 255 by {
                    crate::pixels::lemma_composite_swap_alpha(raw, config.background_color, p);
                }
            }
            Ok(Thumbnail { data: bgra, width: target_width, height: target_height })
        },
    }
}

/// Creates a thumbnail bounded by `max_width x max_height`, with the
/// default background and kernel.
pub fn create_thumbnail_with_size(image_data: &[u8], max_width: u32, max_height: u32) -> (r: Result<
    Thumbnail,
    CbxError,
>)
    ensures
        decoded_rgba(image_data@) is None ==> r matches Err(CbxError::Image(_)),
        decoded_rgba(image_data@) matches Some(d) ==> ((d.1 == 0 || d.2 == 0) ==> r matches Err(
            CbxError::Image(_),
        )),
        match r {
            Ok(t) => {
                &&& t.wf()
                &&& decoded_rgba(image_data@) matches Some(d) && (t.width as int, t.height as int)
                    == spec_thumbnail_size(
                    d.1 as int,
                    d.2 as int,
                    max_width as int,
                    max_height as int,
                )
                &&& exists|raw: Seq<u8>|
                    t.data@ == swap_rb(#[trigger] composite(raw, (255u8, 255u8, 255u8, 255u8)))
                &&& forall|p: int|
                    #![trigger t.data@[4 * p + 3]]
                    0 <= p && 4 * p + 3 < t.data@.len() ==> t.data@[4 * p + 3] == 255
            },
            Err(_) => true,
        },
        decoded_rgba(image_data@) matches Some(d) ==> ((image_data@.len() > 0 && d.1 > 0 && d.2
            > 0 && spec_thumbnail_size(
            d.1 as int,
            d.2 as int,
            max_width as int,
            max_height as int,
        ) == (d.1 as int, d.2 as int)) ==> (r matches Ok(t) && t.data@ == swap_rb(
            composite(d.0, (255u8, 255u8, 255u8, 255u8)),
        ))),
{
    let config = ThumbnailConfig {
        max_width,
        max_height,
        background_color: (255, 255, 255, 255),
        resize_filter: ResizeFilter::Triangle,
    };
    create_thumbnail(image_data, config)
}

} // verus!
