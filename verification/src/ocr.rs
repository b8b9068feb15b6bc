//! The shape of OCR text the store accepts.

use crate::external::str_byte_len;
use crate::item::opt_view;
use crate::text::chars_of;
use vstd::prelude::*;
use vstd::utf8::encode_utf8;

verus! {

/// The largest OCR text (UTF-8 bytes) a record may hold.
pub const OCR_TEXT_MAX_BYTES: usize = 1_048_576;

/// OCR output as the recogniser writes it: bounded, free of NUL, and with
/// lines separated by CRLF only (no bare CR or LF).
pub open spec fn ocr_text_canonical(text: Seq<char>) -> bool {
    &&& encode_utf8(text).len() <= OCR_TEXT_MAX_BYTES
    &&& forall|i: int| 0 <= i < text.len() ==> #[trigger] text[i] != '\0'
    &&& forall|i: int|
        0 <= i < text.len() && #[trigger] text[i] == '\r' ==> i + 1 < text.len() && text[i + 1]
            == '\n'
    &&& forall|i: int| 0 <= i < text.len() && #[trigger] text[i] == '\n' ==> i > 0 && text[i - 1] == '\r'
}

/// Whether `text` is canonical OCR output.
pub fn ocr_text_is_canonical(text: &str) -> (b: bool)
    ensures
        b == ocr_text_canonical(text@),
{
    if str_byte_len(text) > OCR_TEXT_MAX_BYTES {
        return false;
    }
    let chars = chars_of(text);
    let n = chars.len();
    let mut i: usize = 0;
    while i < n
        invariant
            n == chars@.len(),
            chars@ == text@,
            i <= n,
            forall|k: int| 0 <= k < i ==> #[trigger] chars@[k] != '\0',
            forall|k: int|
                0 <= k < i && #[trigger] chars@[k] == '\r' ==> k + 1 < n && chars@[k + 1] == '\n',
            forall|k: int| 0 <= k < i && #[trigger] chars@[k] == '\n' ==> k > 0 && chars@[k - 1] == '\r',
        decreases n - i,
    {
        let c = chars[i];
        if c == '\0' {
            return false;
        }
        if c == '\r' && (i + 1 >= n || chars[i + 1] != '\n') {
            return false;
        }
        if c == '\n' && (i == 0 || chars[i - 1] != '\r') {
            return false;
        }
        i = i + 1;
    }
    true
}

/// The largest stored image (bytes) handed to OCR.
pub const OCR_STORED_PNG_MAX_BYTES: i64 = 67_108_864;

/// What an OCR request finds of the image it names.
#[derive(Clone, Copy, Debug, PartialEq, Eq, Structural)]
pub enum OcrSourceState {
    /// The record is gone, is no image, has another hash, or no longer waits for OCR.
    Stale,
    /// The stored PNG is too large to recognise.
    Oversized,
    /// The stored PNG can be read and recognised.
    Read,
    /// The stored image is not a PNG the recogniser can decode.
    Decode,
}

/// What an OCR request for `image_hash` finds, from the record's kind, hash
/// and OCR status and its stored image's type and length (`None` when the
/// record does not exist).
pub open spec fn ocr_source(
    record: Option<(String, Option<String>, Option<String>, Option<String>, Option<i64>)>,
    image_hash: Seq<char>,
) -> OcrSourceState {
    match record {
        None => OcrSourceState::Stale,
        Some((kind, stored_hash, status, mime, length)) => if kind@ != "image"@ || opt_view(
            stored_hash,
        ) != Some(image_hash) || opt_view(status) != Some("pending"@) {
            OcrSourceState::Stale
        } else if opt_view(mime) == Some("image/png"@) && (length matches Some(n) && n >= 0) {
            if length->0 > OCR_STORED_PNG_MAX_BYTES {
                OcrSourceState::Oversized
            } else {
                OcrSourceState::Read
            }
        } else {
            OcrSourceState::Decode
        },
    }
}

fn opt_text_is(o: &Option<String>, expected: &str) -> (b: bool)
    ensures
        b == (opt_view(*o) == Some(expected@)),
{
    match o {
        Some(s) => crate::text::text_eq(s.as_str(), expected),
        None => false,
    }
}

/// Decides what an OCR request finds (see [`ocr_source`]).
pub fn ocr_source_state(
    record: &Option<(String, Option<String>, Option<String>, Option<String>, Option<i64>)>,
    image_hash: &str,
) -> (out: OcrSourceState)
    ensures
        out == ocr_source(*record, image_hash@),
{
    match record {
        None => OcrSourceState::Stale,
        Some((kind, stored_hash, status, mime, length)) => {
            if !crate::text::text_eq(kind.as_str(), "image") || !opt_text_is(stored_hash, image_hash)
                || !opt_text_is(status, "pending") {
                OcrSourceState::Stale
            } else if opt_text_is(mime, "image/png") && match length {
                Some(n) => *n >= 0,
                None => false,
            } {
                match length {
                    Some(n) => if *n > OCR_STORED_PNG_MAX_BYTES {
                        OcrSourceState::Oversized
                    } else {
                        OcrSourceState::Read
                    },
                    None => OcrSourceState::Decode,
                }
            } else {
                OcrSourceState::Decode
            }
        },
    }
}

} // verus!
