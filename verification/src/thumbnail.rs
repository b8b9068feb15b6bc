//! Image thumbnails: what a stored thumbnail must be, and how one is made.

use crate::external::{decode_limited_png_dimensions, limited_png_dimensions, make_png_thumbnail, png_thumbnail};
use crate::item::HISTORY_IMAGE_BLOB_MAX_BYTES;
use vstd::prelude::*;
use vstd::string::*;

verus! {

/// The largest thumbnail side, in pixels.
pub const HISTORY_THUMBNAIL_MAX_DIMENSION: u32 = 96;

/// The largest side, in pixels, of an image the store decodes.
pub const HISTORY_IMAGE_MAX_DIMENSION: u32 = 8_192;

/// The memory an image may take to decode: 256 MiB.
pub const HISTORY_IMAGE_DECODE_MAX_ALLOC_BYTES: u64 = 268_435_456;

/// The largest thumbnail PNG: 64 KiB.
pub const HISTORY_THUMBNAIL_PNG_MAX_BYTES: usize = 65_536;

/// The memory a thumbnail may take to decode: 4 MiB.
pub const HISTORY_THUMBNAIL_DECODE_MAX_ALLOC_BYTES: u64 = 4_194_304;

/// A usable thumbnail: 1 byte to 64 KiB of PNG that decodes (within 96
/// pixels a side and 4 MiB) to a non-empty image at most 96 pixels a side.
pub open spec fn thumbnail_safe(png: Seq<u8>) -> bool {
    &&& png.len() > 0
    &&& png.len() <= HISTORY_THUMBNAIL_PNG_MAX_BYTES
    &&& limited_png_dimensions(
        png,
        HISTORY_THUMBNAIL_MAX_DIMENSION,
        HISTORY_THUMBNAIL_DECODE_MAX_ALLOC_BYTES,
    ) matches Some((w, h))
    &&& 0 < w <= HISTORY_THUMBNAIL_MAX_DIMENSION
    &&& 0 < h <= HISTORY_THUMBNAIL_MAX_DIMENSION
}

/// Whether a PNG is a usable thumbnail (see [`thumbnail_safe`]).
pub fn thumbnail_png_is_safe(png: &[u8]) -> (b: bool)
    ensures
        b == thumbnail_safe(png@),
{
    if png.len() == 0 || png.len() > HISTORY_THUMBNAIL_PNG_MAX_BYTES {
        return false;
    }
    match decode_limited_png_dimensions(
        png,
        HISTORY_THUMBNAIL_MAX_DIMENSION,
        HISTORY_THUMBNAIL_DECODE_MAX_ALLOC_BYTES,
    ) {
        Some((w, h)) => w > 0 && h > 0 && w <= HISTORY_THUMBNAIL_MAX_DIMENSION && h
            <= HISTORY_THUMBNAIL_MAX_DIMENSION,
        None => false,
    }
}

/// What making a thumbnail of a stored PNG gives: the thumbnail (at most 96
/// pixels a side, from a decode capped at 8192 pixels a side and 256 MiB),
/// or why not.
pub open spec fn thumbnail_result(png: Seq<u8>) -> Result<Seq<u8>, Seq<char>> {
    if png.len() == 0 || png.len() > HISTORY_IMAGE_BLOB_MAX_BYTES {
        Err("图片缩略图源数据超过安全边界"@)
    } else {
        match png_thumbnail(
            png,
            HISTORY_IMAGE_MAX_DIMENSION,
            HISTORY_IMAGE_DECODE_MAX_ALLOC_BYTES,
            HISTORY_THUMBNAIL_MAX_DIMENSION,
        ) {
            None => Err("无法解码历史图片缩略图"@),
            Some(None) => Err("无法生成历史图片缩略图"@),
            Some(Some(thumbnail)) => if thumbnail_safe(thumbnail) {
                Ok(thumbnail)
            } else {
                Err("生成的历史图片缩略图超过安全边界"@)
            },
        }
    }
}

/// Makes the thumbnail of a stored PNG (see [`thumbnail_result`]).
pub fn generate_thumbnail_png(png: &[u8]) -> (out: Result<Vec<u8>, String>)
    ensures
        match out {
            Ok(t) => thumbnail_result(png@) == Ok::<Seq<u8>, Seq<char>>(t@),
            Err(e) => thumbnail_result(png@) == Err::<Seq<u8>, Seq<char>>(e@),
        },
{
    if png.len() == 0 || png.len() > HISTORY_IMAGE_BLOB_MAX_BYTES {
        return Err(String::from_str("图片缩略图源数据超过安全边界"));
    }
    match make_png_thumbnail(
        png,
        HISTORY_IMAGE_MAX_DIMENSION,
        HISTORY_IMAGE_DECODE_MAX_ALLOC_BYTES,
        HISTORY_THUMBNAIL_MAX_DIMENSION,
    ) {
        None => Err(String::from_str("无法解码历史图片缩略图")),
        Some(None) => Err(String::from_str("无法生成历史图片缩略图")),
        Some(Some(thumbnail)) => if thumbnail_png_is_safe(thumbnail.as_slice()) {
            Ok(thumbnail)
        } else {
            Err(String::from_str("生成的历史图片缩略图超过安全边界"))
        },
    }
}

/// Whether an OCR result may be written back: completed with canonical
/// text, or unavailable, failed or oversized without text.
pub open spec fn ocr_patch_ok(status: Seq<char>, text: Option<Seq<char>>) -> bool {
    if status == "completed"@ {
        text matches Some(t) && crate::ocr::ocr_text_canonical(t)
    } else if status == "unavailable"@ || status == "failed"@ || status == "oversized"@ {
        text is None
    } else {
        false
    }
}

/// Whether an OCR result may be written back (see [`ocr_patch_ok`]).
pub fn ocr_patch_payload_ok(status: &str, text: Option<&str>) -> (b: bool)
    ensures
        b == ocr_patch_ok(status@, match text {
            Some(t) => Some(t@),
            None => None,
        }),
{
    if crate::text::text_eq(status, "completed") {
        match text {
            Some(t) => crate::ocr::ocr_text_is_canonical(t),
            None => false,
        }
    } else if crate::text::text_eq(status, "unavailable") || crate::text::text_eq(status, "failed")
        || crate::text::text_eq(status, "oversized") {
        text.is_none()
    } else {
        false
    }
}

} // verus!
