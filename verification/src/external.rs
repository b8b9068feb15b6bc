//! The calls this library makes into outside crates (and into std functions
//! that vstd leaves unspecified). Each item states what the library relies on;
//! nothing here is proved.

use base64::engine::general_purpose::STANDARD;
use base64::Engine;
use unicode_normalization::UnicodeNormalization;
use crate::encoding::base64_encoding;
use crate::formats::string_views;
use vstd::prelude::*;

verus! {

/// The message `STANDARD.decode` fails with on a text (its `DecodeError`'s
/// `Display`, naming the offending byte or the length).
pub uninterp spec fn base64_error_text(text: Seq<char>) -> Seq<char>;

/// `base64::engine::general_purpose::STANDARD.encode` (padded standard
/// alphabet). Claimed: the output is the padded standard encoding of the
/// input. The bound keeps `encoded_len` from overflowing, where the crate panics.
#[verifier::external_body]
pub(crate) fn standard_encode(bytes: &[u8]) -> (out: String)
    requires
        bytes@.len() <= usize::MAX / 2,
    ensures
        out@ == base64_encoding(bytes@),
{
    STANDARD.encode(bytes)
}

/// `STANDARD.decode` on the UTF-8 bytes of `text`; on failure the crate's
/// error message. `STANDARD` requires canonical padding and no trailing bits,
/// so it accepts exactly the texts that are the padded standard encoding of
/// some bytes. Claimed: a decoded result is bytes whose encoding the text is;
/// a failure happens only on a text that is no such encoding, with the named
/// message; the output (at most three quarters of an input no longer than
/// `isize::MAX`) is below `usize::MAX / 2` bytes.
#[verifier::external_body]
pub(crate) fn standard_decode(text: &str) -> (out: Result<Vec<u8>, String>)
    ensures
        out matches Ok(bytes) ==> base64_encoding(bytes@) == text@,
        out matches Ok(bytes) ==> bytes@.len() <= usize::MAX / 2,
        out matches Err(e) ==> (forall|b: Seq<u8>| base64_encoding(b) != text@) && e@
            == base64_error_text(text@),
{
    match STANDARD.decode(text) {
        Ok(bytes) => Ok(bytes),
        Err(error) => Err(error.to_string()),
    }
}

/// What `chrono` makes of an RFC 3339 text: its Unix milliseconds, or the
/// crate's parse error message.
pub uninterp spec fn rfc3339_parse(text: Seq<char>) -> Result<i64, Seq<char>>;

/// The Unix milliseconds of an RFC 3339 text, `None` when `chrono` rejects it.
pub open spec fn rfc3339_millis(text: Seq<char>) -> Option<i64> {
    match rfc3339_parse(text) {
        Ok(millis) => Some(millis),
        Err(_) => None,
    }
}

/// The `SecondsFormat::Millis`, `Z`-suffixed RFC 3339 text of a UTC instant given in Unix milliseconds.
pub uninterp spec fn utc_millis_text(millis: i64) -> Option<Seq<char>>;

/// The first millisecond of year 0000 and the last millisecond of year 9999.
pub open spec fn four_digit_year_millis(millis: int) -> bool {
    -62_167_219_200_000 <= millis <= 253_402_300_799_999
}

/// `chrono::DateTime::parse_from_rfc3339` followed by `timestamp_millis`; on
/// failure the crate's error message (its `Display`). Claimed: the result is the named one.
#[verifier::external_body]
pub(crate) fn parse_rfc3339_millis(text: &str) -> (out: Result<i64, String>)
    ensures
        out is Ok <==> rfc3339_millis(text@) is Some,
        out matches Ok(millis) ==> rfc3339_parse(text@) matches Ok(m) && m == millis,
        out matches Err(e) ==> rfc3339_parse(text@) matches Err(m) && m == e@,
{
    match chrono::DateTime::parse_from_rfc3339(text) {
        Ok(timestamp) => Ok(timestamp.timestamp_millis()),
        Err(error) => Err(error.to_string()),
    }
}

/// `chrono::DateTime::<Utc>::from_timestamp_millis` followed by
/// `to_rfc3339_opts(SecondsFormat::Millis, true)`. Claimed: every instant
/// within about 250 000 years of 1970 is representable (chrono's range is
/// years -262143 to 262142), the text ends in the `Z` that `use_z = true`
/// writes for UTC, and for four-digit years parsing the text gives the same
/// millisecond back.
#[verifier::external_body]
pub(crate) fn format_utc_millis(millis: i64) -> (out: Option<String>)
    ensures
        out matches Some(text) ==> utc_millis_text(millis) == Some(text@),
        out is None ==> utc_millis_text(millis) is None,
        four_digit_year_millis(millis as int) ==> out is Some,
        -8_000_000_000_000_000 <= millis <= 8_000_000_000_000_000 ==> out is Some,
        out matches Some(text) ==> (four_digit_year_millis(millis as int) ==> rfc3339_millis(text@)
            == Some(millis)),
        out matches Some(text) ==> text@.len() > 0 && text@.last() == 'Z',
{
    match chrono::DateTime::<chrono::Utc>::from_timestamp_millis(millis) {
        Some(timestamp) => Some(timestamp.to_rfc3339_opts(chrono::SecondsFormat::Millis, true)),
        None => None,
    }
}

/// The system clock as Unix milliseconds: `SystemTime::now()`, then
/// `duration_since(UNIX_EPOCH)` and `Duration::as_millis`, fitted into an
/// `i64`; `None` when the clock reads before 1970 (where `duration_since`
/// fails) or beyond what an `i64` holds. The clock value itself is not
/// claimed; only that a reading is not negative.
#[verifier::external_body]
pub(crate) fn now_utc_millis() -> (out: Option<i64>)
    ensures
        out matches Some(millis) ==> millis >= 0,
{
    match std::time::SystemTime::now().duration_since(std::time::UNIX_EPOCH) {
        Ok(elapsed) => i64::try_from(elapsed.as_millis()).ok(),
        Err(_) => None,
    }
}

/// The NFKC normalisation of a text, as `unicode_normalization` computes it.
pub uninterp spec fn nfkc(text: Seq<char>) -> Seq<char>;

/// `UnicodeNormalization::nfkc` collected into a `String`.
#[verifier::external_body]
pub(crate) fn nfkc_string(text: &str) -> (out: String)
    ensures
        out@ == nfkc(text@),
{
    text.nfkc().collect()
}

/// The characters of `char::to_lowercase(c)`.
pub uninterp spec fn char_lowercase(c: char) -> Seq<char>;

/// `char::to_lowercase`, collected. Nothing more is claimed than the name.
#[verifier::external_body]
pub(crate) fn lowercase_char(c: char) -> (out: Vec<char>)
    ensures
        out@ == char_lowercase(c),
{
    c.to_lowercase().collect()
}

/// The result of `str::to_lowercase` on a text.
pub uninterp spec fn str_lowercase(text: Seq<char>) -> Seq<char>;

/// `str::to_lowercase`. Nothing more is claimed than the name.
#[verifier::external_body]
pub(crate) fn lowercase_str(text: &str) -> (out: String)
    ensures
        out@ == str_lowercase(text@),
{
    text.to_lowercase()
}

/// `getrandom::fill` on a buffer of `len` bytes. Random: only the length is claimed.
#[verifier::external_body]
pub(crate) fn random_bytes(len: usize) -> (out: Option<Vec<u8>>)
    ensures
        out matches Some(bytes) ==> bytes@.len() == len,
{
    let mut bytes = vec![0_u8; len];
    match getrandom::fill(&mut bytes) {
        Ok(()) => Some(bytes),
        Err(_) => None,
    }
}

/// The width and height of the PNG in `bytes`, when `image` decodes it.
pub uninterp spec fn png_dimensions(bytes: Seq<u8>) -> Option<(u32, u32)>;

/// `image::load_from_memory_with_format(bytes, ImageFormat::Png)`, reduced to
/// the decoded width and height.
#[verifier::external_body]
pub(crate) fn decode_png_dimensions(bytes: &[u8]) -> (out: Option<(u32, u32)>)
    ensures
        out == png_dimensions(bytes@),
{
    match image::load_from_memory_with_format(bytes, image::ImageFormat::Png) {
        Ok(image) => Some((image.width(), image.height())),
        Err(_) => None,
    }
}


/// `str::len`: the length of the text in UTF-8 bytes. Claimed exactly (vstd
/// states it up to a cast to `usize`; a `str` never exceeds `isize::MAX` bytes).
#[verifier::external_body]
pub(crate) fn str_byte_len(text: &str) -> (n: usize)
    ensures
        n == vstd::utf8::encode_utf8(text@).len(),
{
    text.len()
}


/// The message `String::from_utf8` fails with on bytes that are not UTF-8
/// (the `Display` of its `FromUtf8Error`, which names the offending bytes).
pub uninterp spec fn utf8_error_text(bytes: Seq<u8>) -> Seq<char>;

/// `String::from_utf8`: the text of `bytes` when they are valid UTF-8, else
/// the error's message. Claimed: success exactly on valid UTF-8 and the
/// decoded text, in terms of vstd's UTF-8 model; the message is named.
#[verifier::external_body]
pub(crate) fn string_from_utf8(bytes: Vec<u8>) -> (out: Result<String, String>)
    ensures
        out is Ok <==> vstd::utf8::valid_utf8(bytes@),
        out matches Ok(text) ==> text@ == vstd::utf8::decode_utf8(bytes@),
        out matches Err(message) ==> message@ == utf8_error_text(bytes@),
{
    match String::from_utf8(bytes) {
        Ok(text) => Ok(text),
        Err(error) => Err(error.to_string()),
    }
}


/// The width and height of a PNG decoded under limits: at most
/// `max_dimension` pixels a side and `max_alloc` bytes of memory.
pub uninterp spec fn limited_png_dimensions(bytes: Seq<u8>, max_dimension: u32, max_alloc: u64) -> Option<(u32, u32)>;

/// `image::ImageReader::with_format(.., ImageFormat::Png)` with
/// `Limits { max_image_width, max_image_height, max_alloc }` set, then
/// `decode`, reduced to the decoded width and height (`None` when decoding fails).
#[verifier::external_body]
pub(crate) fn decode_limited_png_dimensions(bytes: &[u8], max_dimension: u32, max_alloc: u64) -> (out:
    Option<(u32, u32)>)
    ensures
        out == limited_png_dimensions(bytes@, max_dimension, max_alloc),
{
    let mut reader = image::ImageReader::with_format(std::io::Cursor::new(bytes), image::ImageFormat::Png);
    let mut limits = image::Limits::default();
    limits.max_image_width = Some(max_dimension);
    limits.max_image_height = Some(max_dimension);
    limits.max_alloc = Some(max_alloc);
    reader.limits(limits);
    match reader.decode() {
        Ok(image) => Some((image.width(), image.height())),
        Err(_) => None,
    }
}

/// What the thumbnail pipeline makes of a PNG: `None` when it does not
/// decode within `max_dimension` pixels a side and `max_alloc` bytes of
/// memory, `Some(None)` when the thumbnail (at most `thumb` pixels a side)
/// cannot be written as PNG, otherwise the thumbnail's PNG bytes.
pub uninterp spec fn png_thumbnail(bytes: Seq<u8>, max_dimension: u32, max_alloc: u64, thumb: u32) -> Option<Option<Seq<u8>>>;

/// `image::ImageReader::with_format(.., ImageFormat::Png)` with `Limits`
/// `{ max_image_width, max_image_height: max_dimension, max_alloc }`, then
/// `decode`, `DynamicImage::thumbnail(thumb, thumb)` and
/// `write_to(.., ImageFormat::Png)`. Claimed: the outcome is the named one.
#[verifier::external_body]
pub(crate) fn make_png_thumbnail(bytes: &[u8], max_dimension: u32, max_alloc: u64, thumb: u32) -> (out: Option<Option<Vec<u8>>>)
    ensures
        match out {
            None => png_thumbnail(bytes@, max_dimension, max_alloc, thumb) is None,
            Some(None) => png_thumbnail(bytes@, max_dimension, max_alloc, thumb) == Some(None::<Seq<u8>>),
            Some(Some(png)) => png_thumbnail(bytes@, max_dimension, max_alloc, thumb) == Some(Some(png@)),
        },
{
    let mut reader = image::ImageReader::with_format(std::io::Cursor::new(bytes), image::ImageFormat::Png);
    let mut limits = image::Limits::default();
    limits.max_image_width = Some(max_dimension);
    limits.max_image_height = Some(max_dimension);
    limits.max_alloc = Some(max_alloc);
    reader.limits(limits);
    let Ok(image) = reader.decode() else { return None };
    let mut output = std::io::Cursor::new(Vec::new());
    let written = image.thumbnail(thumb, thumb).write_to(&mut output, image::ImageFormat::Png);
    match written {
        Ok(()) => Some(Some(output.into_inner())),
        Err(_) => Some(None),
    }
}

/// The JSON text `serde_json::to_string` writes for an array of strings.
pub uninterp spec fn json_string_array(values: Seq<Seq<char>>) -> Seq<char>;

/// `serde_json::to_string` on a list of strings. Claimed: the text is the
/// named one. Serialising strings cannot fail (serde_json fails only on a
/// failing `Serialize` impl or a map with non-string keys), so the error arm
/// is never taken.
#[verifier::external_body]
pub(crate) fn json_string_list(values: &[String]) -> (out: String)
    ensures
        out@ == json_string_array(string_views(values@)),
{
    match serde_json::to_string(values) {
        Ok(text) => text,
        Err(_) => String::new(),
    }
}

} // verus!
