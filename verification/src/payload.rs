//! Decoding stored payloads: base64 bodies with a size limit, image data URLs,
//! source-application icons, and the byte accounting of a record.

use crate::encoding::{
    base64_decode, base64_decode_result, base64_decoding, base64_encode, base64_encoded_len,
    base64_encoding, lemma_decode_encoding, lemma_encoding_shape,
};
use crate::external::{
    json_string_array, json_string_list, decode_png_dimensions, png_dimensions, str_byte_len, string_from_utf8, utf8_error_text,
};
use crate::item::opt_view;
use crate::thumbnail::{generate_thumbnail_png, thumbnail_result};
use crate::formats::{canonical_omitted_formats, lemma_ordered_subset_canonical, omitted_format_order};
use crate::item::JS_MAX_SAFE_INTEGER_U64;
use crate::types::ClipboardFormat;
use crate::formats::{contains_text, format_name, ordered_subset, string_views, MAX_FORMAT_BYTES};
use crate::item::{byte_len, find_char, index_of, HISTORY_IMAGE_BLOB_MAX_BYTES};
use crate::numbers::{nat_text, u64_text};
use crate::text::{chars_of, string_from_chars, text_eq};
use crate::types::{ClipboardFile, HistoryItem};
use vstd::prelude::*;
use vstd::string::*;

verus! {

/// The largest source-application icon: 32 KiB.
pub const SOURCE_APP_ICON_PNG_MAX_BYTES: usize = 32_768;

/// The prefix of a source-application icon data URL.
pub open spec fn icon_data_url_prefix() -> Seq<char> {
    "data:image/png;base64,"@
}

/// The longest base64 text that can decode to at most `max_bytes`: four
/// characters for every started group of three bytes, saturating.
pub open spec fn base64_input_limit(max_bytes: usize) -> int {
    let groups = max_bytes / 3 + if max_bytes % 3 == 0 {
        0int
    } else {
        1int
    };
    if groups * 4 > usize::MAX {
        usize::MAX as int
    } else {
        groups * 4
    }
}

/// The message for a payload over its limit, in whole MiB.
pub open spec fn over_limit_message(label: Seq<char>, max_bytes: usize) -> Seq<char> {
    label + "超过 "@ + nat_text((max_bytes / 1024 / 1024) as nat) + " MiB 限制"@
}

/// What decoding a base64 payload under a limit gives: the bytes, or why not.
pub open spec fn limited_decoding(encoded: Seq<char>, max_bytes: usize, label: Seq<char>) -> Result<
    Seq<u8>,
    Seq<char>,
> {
    if byte_len(encoded) > base64_input_limit(max_bytes) {
        Err(over_limit_message(label, max_bytes))
    } else {
        match base64_decode_result(encoded) {
            Err(m) => Err(m),
            Ok(bytes) => if bytes.len() > max_bytes {
                Err(over_limit_message(label, max_bytes))
            } else {
                Ok(bytes)
            },
        }
    }
}

/// The view of a result that carries bytes or a message.
pub open spec fn bytes_result(r: Result<Vec<u8>, String>) -> Result<Seq<u8>, Seq<char>> {
    match r {
        Ok(b) => Ok(b@),
        Err(e) => Err(e@),
    }
}

fn over_limit(label: &str, max_bytes: usize) -> (out: String)
    ensures
        out@ == over_limit_message(label@, max_bytes),
{
    let mut message = String::from_str(label);
    message.append("超过 ");
    let digits = string_from_chars(&u64_text((max_bytes / 1024 / 1024) as u64));
    message.append(digits.as_str());
    message.append(" MiB 限制");
    message
}

/// Decodes standard padded base64, refusing texts or results larger than `max_bytes` allows.
pub fn decode_base64_with_limit(encoded: &str, max_bytes: usize, label: &str) -> (out: Result<
    Vec<u8>,
    String,
>)
    ensures
        bytes_result(out) == limited_decoding(encoded@, max_bytes, label@),
{
    let groups: usize = max_bytes / 3 + if max_bytes % 3 == 0 {
        0
    } else {
        1
    };
    let max_encoded: usize = match groups.checked_mul(4) {
        Some(n) => n,
        None => usize::MAX,
    };
    if str_byte_len(encoded) > max_encoded {
        return Err(over_limit(label, max_bytes));
    }
    let bytes = match base64_decode(encoded) {
        Ok(bytes) => bytes,
        Err(e) => return Err(e),
    };
    if bytes.len() > max_bytes {
        return Err(over_limit(label, max_bytes));
    }
    Ok(bytes)
}

/// What splitting an image data URL gives: its MIME type and decoded body, or why not.
pub open spec fn data_url_split(value: Seq<char>, max_bytes: usize) -> Result<
    (Seq<char>, Seq<u8>),
    Seq<char>,
> {
    match index_of(value, ',') {
        None => Err("图片数据 URL 缺少正文"@),
        Some(k) => {
            let header = value.take(k);
            if header.len() <= 12 || header.take(5) != "data:"@ || header.skip(header.len() - 7)
                != ";base64"@ {
                Err("图片数据 URL 格式无效"@)
            } else {
                match limited_decoding(value.skip(k + 1), max_bytes, "图片正文"@) {
                    Err(m) => Err(m),
                    Ok(bytes) => Ok((header.subrange(5, header.len() - 7), bytes)),
                }
            }
        },
    }
}

/// The view of a result that carries a text and bytes, or a message.
pub open spec fn parts_result(r: Result<(String, Vec<u8>), String>) -> Result<
    (Seq<char>, Seq<u8>),
    Seq<char>,
> {
    match r {
        Ok((mime, bytes)) => Ok((mime@, bytes@)),
        Err(e) => Err(e@),
    }
}

fn data_url_failure(message: &str) -> (out: Result<(String, Vec<u8>), String>)
    ensures
        out matches Err(e) && e@ == message@,
{
    Err(String::from_str(message))
}

/// Splits `data:<mime>;base64,<body>` into the MIME type and the decoded body.
pub fn data_url_parts_with_limit(value: &str, max_bytes: usize) -> (out: Result<
    (String, Vec<u8>),
    String,
>)
    ensures
        parts_result(out) == data_url_split(value@, max_bytes),
{
    let chars = chars_of(value);
    let n = chars.len();
    let k = match find_char(&chars, ',') {
        Some(k) => k,
        None => return data_url_failure("图片数据 URL 缺少正文"),
    };
    let header = value.substring_char(0, k);
    let encoded = value.substring_char(k + 1, n);
    let h = header.unicode_len();
    if h <= 12 || !text_eq(header.substring_char(0, 5), "data:") || !text_eq(
        header.substring_char(h - 7, h),
        ";base64",
    ) {
        proof {
            reveal_strlit("data:");
            reveal_strlit(";base64");
            if h > 12 {
                assert(header@.take(5) =~= header@.subrange(0, 5));
                assert(header@.skip(h - 7) =~= header@.subrange(h - 7, h as int));
            }
        }
        return data_url_failure("图片数据 URL 格式无效");
    }
    proof {
        assert(header@.take(5) =~= header@.subrange(0, 5));
        assert(header@.skip(h - 7) =~= header@.subrange(h - 7, h as int));
    }
    let mime = header.substring_char(5, h - 7);
    match decode_base64_with_limit(encoded, max_bytes, "图片正文") {
        Ok(bytes) => Ok((String::from_str(mime), bytes)),
        Err(e) => Err(e),
    }
}

/// An image data URL split under the 64 MiB image limit.
pub fn data_url_parts(value: &str) -> (out: Result<(String, Vec<u8>), String>)
    ensures
        parts_result(out) == data_url_split(value@, HISTORY_IMAGE_BLOB_MAX_BYTES),
{
    data_url_parts_with_limit(value, HISTORY_IMAGE_BLOB_MAX_BYTES)
}

/// The big-endian 32-bit number at `bytes[i..i + 4]`.
pub open spec fn be_u32(bytes: Seq<u8>, i: int) -> int {
    bytes[i] * 16_777_216 + bytes[i + 1] * 65_536 + bytes[i + 2] * 256 + bytes[i + 3]
}

/// The PNG signature and an `IHDR` chunk of a 64 x 64 image, at most 32 KiB in all.
pub open spec fn icon_header_ok(bytes: Seq<u8>) -> bool {
    &&& bytes.len() <= SOURCE_APP_ICON_PNG_MAX_BYTES
    &&& bytes.len() >= 24
    &&& bytes.take(8) == seq![0x89u8, 0x50u8, 0x4eu8, 0x47u8, 0x0du8, 0x0au8, 0x1au8, 0x0au8]
    &&& be_u32(bytes, 8) == 13
    &&& bytes.subrange(12, 16) == seq![0x49u8, 0x48u8, 0x44u8, 0x52u8]
    &&& be_u32(bytes, 16) == 64
    &&& be_u32(bytes, 20) == 64
}

/// A safe source-application icon: the header says 64 x 64 and the PNG decodes to that size.
pub open spec fn icon_png_safe(bytes: Seq<u8>) -> bool {
    icon_header_ok(bytes) && png_dimensions(bytes) == Some((64u32, 64u32))
}

fn be_u32_at(bytes: &[u8], i: usize) -> (v: u32)
    requires
        i + 4 <= bytes@.len(),
    ensures
        v == be_u32(bytes@, i as int),
{
    (bytes[i] as u32) * 16_777_216 + (bytes[i + 1] as u32) * 65_536 + (bytes[i + 2] as u32) * 256
        + bytes[i + 3] as u32
}

/// Whether `bytes` is a safe 64 x 64 PNG icon (see [`icon_png_safe`]).
pub fn source_app_icon_png_is_safe(bytes: &[u8]) -> (b: bool)
    ensures
        b == icon_png_safe(bytes@),
{
    if bytes.len() > SOURCE_APP_ICON_PNG_MAX_BYTES || bytes.len() < 24 {
        return false;
    }
    let signature_ok = bytes[0] == 0x89 && bytes[1] == 0x50 && bytes[2] == 0x4e && bytes[3] == 0x47
        && bytes[4] == 0x0d && bytes[5] == 0x0a && bytes[6] == 0x1a && bytes[7] == 0x0a;
    let ihdr_ok = bytes[12] == 0x49 && bytes[13] == 0x48 && bytes[14] == 0x44 && bytes[15] == 0x52;
    proof {
        let sig = seq![0x89u8, 0x50u8, 0x4eu8, 0x47u8, 0x0du8, 0x0au8, 0x1au8, 0x0au8];
        let ihdr = seq![0x49u8, 0x48u8, 0x44u8, 0x52u8];
        if signature_ok {
            assert(bytes@.take(8) =~= sig);
        } else {
            assert(bytes@.take(8) != sig) by {
                if bytes@.take(8) == sig {
                    assert(bytes@.take(8)[0] == bytes@[0]);
                    assert(bytes@.take(8)[1] == bytes@[1]);
                    assert(bytes@.take(8)[2] == bytes@[2]);
                    assert(bytes@.take(8)[3] == bytes@[3]);
                    assert(bytes@.take(8)[4] == bytes@[4]);
                    assert(bytes@.take(8)[5] == bytes@[5]);
                    assert(bytes@.take(8)[6] == bytes@[6]);
                    assert(bytes@.take(8)[7] == bytes@[7]);
                }
            }
        }
        if ihdr_ok {
            assert(bytes@.subrange(12, 16) =~= ihdr);
        } else {
            assert(bytes@.subrange(12, 16) != ihdr) by {
                if bytes@.subrange(12, 16) == ihdr {
                    assert(bytes@.subrange(12, 16)[0] == bytes@[12]);
                    assert(bytes@.subrange(12, 16)[1] == bytes@[13]);
                    assert(bytes@.subrange(12, 16)[2] == bytes@[14]);
                    assert(bytes@.subrange(12, 16)[3] == bytes@[15]);
                }
            }
        }
    }
    if !signature_ok || be_u32_at(bytes, 8) != 13 || !ihdr_ok || be_u32_at(bytes, 16) != 64
        || be_u32_at(bytes, 20) != 64 {
        return false;
    }
    match decode_png_dimensions(bytes) {
        Some((w, h)) => w == 64 && h == 64,
        None => false,
    }
}

/// The icon bytes a source-application data URL holds, when it is a safe icon.
pub open spec fn icon_from_data_url(value: Seq<char>) -> Option<Seq<u8>> {
    let prefix = icon_data_url_prefix();
    if value.len() < prefix.len() || value.take(prefix.len() as int) != prefix {
        None
    } else {
        let encoded = value.skip(prefix.len() as int);
        if encoded.len() == 0 || byte_len(encoded) > 43_692 {
            None
        } else {
            match base64_decoding(encoded) {
                Some(bytes) => if icon_png_safe(bytes) {
                    Some(bytes)
                } else {
                    None
                },
                None => None,
            }
        }
    }
}

/// The icon bytes of a `data:image/png;base64,` URL, when they are a safe icon.
pub fn source_app_icon_png_from_data_url(value: &str) -> (out: Option<Vec<u8>>)
    ensures
        match out {
            Some(bytes) => icon_from_data_url(value@) == Some(bytes@),
            None => icon_from_data_url(value@) is None,
        },
{
    let prefix = "data:image/png;base64,";
    proof {
        reveal_strlit("data:image/png;base64,");
    }
    let n = value.unicode_len();
    let p = prefix.unicode_len();
    if n < p || !text_eq(value.substring_char(0, p), prefix) {
        proof {
            if n >= p {
                assert(value@.take(p as int) =~= value@.subrange(0, p as int));
            }
        }
        return None;
    }
    assert(value@.take(p as int) =~= value@.subrange(0, p as int));
    let encoded = value.substring_char(p, n);
    assert(encoded@ =~= value@.skip(p as int));
    if encoded.unicode_len() == 0 || str_byte_len(encoded) > 43_692 {
        return None;
    }
    let bytes = match base64_decode(encoded) {
        Ok(bytes) => bytes,
        Err(_) => return None,
    };
    if source_app_icon_png_is_safe(bytes.as_slice()) {
        Some(bytes)
    } else {
        None
    }
}

/// Whether a stored plain-text length is within the format limit.
pub fn persisted_plain_text_length_is_safe(length: i64) -> (b: bool)
    ensures
        b == (0 <= length <= MAX_FORMAT_BYTES),
{
    0 <= length && length <= 8_388_608
}

/// Whether a stored format body has a length its format allows: none for
/// text, up to the format limit for HTML and RTF, up to 64 MiB for an image.
pub open spec fn blob_length_safe(format: Seq<char>, length: Option<i64>) -> bool {
    if format == "text"@ {
        length is None
    } else if format == "html"@ || format == "rtf"@ {
        length matches Some(n) && 0 <= n <= MAX_FORMAT_BYTES
    } else if format == "image"@ {
        length matches Some(n) && 0 <= n <= HISTORY_IMAGE_BLOB_MAX_BYTES
    } else {
        false
    }
}

/// Whether a stored format body has a length its format allows (see [`blob_length_safe`]).
pub fn persisted_format_blob_length_is_safe(format: &str, length: Option<i64>) -> (b: bool)
    ensures
        b == blob_length_safe(format@, length),
{
    if text_eq(format, "text") {
        length.is_none()
    } else if text_eq(format, "html") || text_eq(format, "rtf") {
        match length {
            Some(n) => 0 <= n && n <= 8_388_608,
            None => false,
        }
    } else if text_eq(format, "image") {
        match length {
            Some(n) => 0 <= n && n <= 67_108_864,
            None => false,
        }
    } else {
        false
    }
}


/// The formats a record stores besides its files, in `String` order.
pub open spec fn stored_format_order() -> Seq<Seq<char>> {
    seq!["html"@, "image"@, "rtf"@, "text"@]
}

/// The format names a record stores, before `files` is set apart: its
/// declared formats (or `image`/`text` when it declares none), plus `html`,
/// `rtf` and `image` when it carries those bodies.
pub open spec fn format_names(item: HistoryItem) -> Seq<Seq<char>> {
    let declared = string_views(item.formats@);
    let base = if declared.len() == 0 {
        if item.kind@ == "image"@ {
            seq!["image"@]
        } else {
            seq!["text"@]
        }
    } else {
        declared
    };
    base + (if item.html is Some {
        seq!["html"@]
    } else {
        seq![]
    }) + (if item.rtf_base64 is Some {
        seq!["rtf"@]
    } else {
        seq![]
    }) + (if item.image_url is Some {
        seq!["image"@]
    } else {
        seq![]
    })
}

/// What `canonical_formats` gives: the stored formats in `String` order, or why none can be stored.
pub open spec fn canonical_format_result(item: HistoryItem) -> Result<Seq<Seq<char>>, Seq<char>> {
    let names = format_names(item);
    let file_only = names.contains("files"@) || item.kind@ == "file"@ || item.files@.len() > 0;
    let stored = ordered_subset(stored_format_order(), names);
    if exists|k: int|
        0 <= k < names.len() && #[trigger] names[k] != "files"@ && !stored_format_order().contains(
            names[k],
        ) {
        Err("剪贴板记录包含不支持的格式"@)
    } else if stored.len() == 0 && !file_only {
        Err("剪贴板记录没有可存储格式"@)
    } else {
        Ok(stored)
    }
}

/// The view of a result that carries a list of texts.
pub open spec fn names_result(r: Result<Vec<String>, String>) -> Result<Seq<Seq<char>>, Seq<char>> {
    match r {
        Ok(v) => Ok(string_views(v@)),
        Err(e) => Err(e@),
    }
}

fn format_names_of(item: &HistoryItem) -> (out: Vec<String>)
    ensures
        string_views(out@) == format_names(*item),
{
    let mut out: Vec<String> = if item.formats.len() == 0 {
        if text_eq(item.kind.as_str(), "image") {
            vec![String::from_str("image")]
        } else {
            vec![String::from_str("text")]
        }
    } else {
        item.formats.clone()
    };
    let ghost base = string_views(out@);
    assert(base =~= if string_views(item.formats@).len() == 0 {
        if item.kind@ == "image"@ {
            seq!["image"@]
        } else {
            seq!["text"@]
        }
    } else {
        string_views(item.formats@)
    });
    if item.html.is_some() {
        out.push(String::from_str("html"));
    }
    let ghost a = string_views(out@);
    assert(a =~= base + (if item.html is Some {
        seq!["html"@]
    } else {
        seq![]
    }));
    if item.rtf_base64.is_some() {
        out.push(String::from_str("rtf"));
    }
    let ghost b = string_views(out@);
    assert(b =~= a + (if item.rtf_base64 is Some {
        seq!["rtf"@]
    } else {
        seq![]
    }));
    if item.image_url.is_some() {
        out.push(String::from_str("image"));
    }
    assert(string_views(out@) =~= b + (if item.image_url is Some {
        seq!["image"@]
    } else {
        seq![]
    }));
    out
}

fn stored_format_name_known(name: &str) -> (b: bool)
    ensures
        b == stored_format_order().contains(name@),
{
    let b = text_eq(name, "html") || text_eq(name, "image") || text_eq(name, "rtf") || text_eq(
        name,
        "text",
    );
    proof {
        if stored_format_order().contains(name@) {
            let j = choose|j: int| 0 <= j < 4 && stored_format_order()[j] == name@;
            assert(b);
        }
        if b {
            assert(stored_format_order()[0] == "html"@);
            assert(stored_format_order()[1] == "image"@);
            assert(stored_format_order()[2] == "rtf"@);
            assert(stored_format_order()[3] == "text"@);
        }
    }
    b
}

/// The formats a record is stored with (see [`canonical_format_result`]).
pub fn canonical_formats(item: &HistoryItem) -> (out: Result<Vec<String>, String>)
    ensures
        names_result(out) == canonical_format_result(*item),
{
    let names = format_names_of(item);
    let ghost views = string_views(names@);
    let mut i: usize = 0;
    while i < names.len()
        invariant
            i <= names@.len(),
            views == string_views(names@),
            views == format_names(*item),
            forall|k: int|
                0 <= k < i ==> #[trigger] views[k] == "files"@ || stored_format_order().contains(
                    views[k],
                ),
        decreases names@.len() - i,
    {
        assert(views[i as int] == names@[i as int]@);
        if !text_eq(names[i].as_str(), "files") && !stored_format_name_known(names[i].as_str()) {
            assert(views[i as int] != "files"@ && !stored_format_order().contains(views[i as int]));
            return Err(String::from_str("剪贴板记录包含不支持的格式"));
        }
        i = i + 1;
    }
    let order = vec![
        String::from_str("html"),
        String::from_str("image"),
        String::from_str("rtf"),
        String::from_str("text"),
    ];
    assert(string_views(order@) =~= stored_format_order());
    assert(names@.take(names@.len() as int) =~= names@);
    let mut out: Vec<String> = Vec::new();
    let mut k: usize = 0;
    while k < order.len()
        invariant
            k <= order@.len(),
            string_views(order@) == stored_format_order(),
            views == string_views(names@),
            names@.take(names@.len() as int) == names@,
            string_views(out@) == ordered_subset(stored_format_order().take(k as int), views),
        decreases order@.len() - k,
    {
        assert(stored_format_order().take(k + 1).drop_last() =~= stored_format_order().take(
            k as int,
        ));
        assert(stored_format_order()[k as int] == order@[k as int]@);
        let ghost before = out@;
        if contains_text(names.as_slice(), names.len(), order[k].as_str()) {
            out.push(order[k].clone());
            assert(string_views(out@) =~= string_views(before).push(order@[k as int]@));
        }
        assert(string_views(out@) =~= ordered_subset(stored_format_order().take(k + 1), views));
        k = k + 1;
    }
    assert(stored_format_order().take(k as int) =~= stored_format_order());
    let file_only = contains_text(names.as_slice(), names.len(), "files") || text_eq(
        item.kind.as_str(),
        "file",
    ) || item.files.len() > 0;
    if out.len() == 0 && !file_only {
        return Err(String::from_str("剪贴板记录没有可存储格式"));
    }
    Ok(out)
}


/// The UTF-8 length of an optional text (0 when absent).
pub open spec fn opt_byte_len(o: Option<String>) -> nat {
    match o {
        Some(s) => byte_len(s@),
        None => 0,
    }
}

/// The bytes a file entry accounts for: path, name, extension and modification time.
pub open spec fn file_bytes(f: ClipboardFile) -> nat {
    byte_len(f.path@) + byte_len(f.name@) + opt_byte_len(f.extension) + opt_byte_len(f.modified_at)
}

/// The bytes all file entries account for.
pub open spec fn files_bytes(files: Seq<ClipboardFile>) -> nat
    decreases files.len(),
{
    if files.len() == 0 {
        0
    } else {
        files_bytes(files.drop_last()) + file_bytes(files.last())
    }
}

/// A record's logical size apart from its RTF body: text, HTML and file entries.
pub open spec fn bytes_besides_rtf(item: HistoryItem) -> nat {
    byte_len(item.content@) + opt_byte_len(item.html) + files_bytes(item.files@)
}

/// What `logical_bytes` gives: the logical size (the decoded RTF body
/// included), capped at `i64::MAX`, or why the RTF body is refused.
pub open spec fn logical_bytes_result(item: HistoryItem) -> Result<i64, Seq<char>> {
    let rtf: Result<nat, Seq<char>> = match item.rtf_base64 {
        None => Ok(0),
        Some(r) => match limited_decoding(r@, MAX_FORMAT_BYTES, "RTF 格式"@) {
            Ok(b) => Ok(b.len()),
            Err(m) => Err(m),
        },
    };
    match rtf {
        Err(m) => Err(m),
        Ok(n) => {
            let total = bytes_besides_rtf(item) + n;
            Ok(
                if total > i64::MAX {
                    i64::MAX
                } else {
                    total as i64
                },
            )
        },
    }
}

proof fn lemma_files_bytes_prefix(files: Seq<ClipboardFile>, i: int)
    requires
        0 <= i <= files.len(),
    ensures
        files_bytes(files.take(i)) <= files_bytes(files),
    decreases files.len() - i,
{
    if i < files.len() {
        lemma_files_bytes_prefix(files, i + 1);
        assert(files.take(i + 1).drop_last() =~= files.take(i));
    } else {
        assert(files.take(i) =~= files);
    }
}

fn opt_str_len(o: &Option<String>) -> (n: usize)
    ensures
        n == opt_byte_len(*o),
{
    match o {
        Some(s) => str_byte_len(s.as_str()),
        None => 0,
    }
}

/// A record whose RTF body, if it has one, is the standard base64 of at most
/// 8 MiB of bytes has as logical size the sum of its text, HTML, decoded RTF
/// and file-field bytes, capped at `i64::MAX`.
pub proof fn lemma_logical_bytes_of_valid_rtf(item: HistoryItem, rtf: Seq<u8>)
    requires
        match item.rtf_base64 {
            Some(r) => r@ == base64_encoding(rtf) && rtf.len() <= MAX_FORMAT_BYTES,
            None => rtf.len() == 0,
        },
    ensures
        logical_bytes_result(item) == Ok::<i64, Seq<char>>(
            if bytes_besides_rtf(item) + rtf.len() > i64::MAX {
                i64::MAX
            } else {
                (bytes_besides_rtf(item) + rtf.len()) as i64
            },
        ),
{
    if let Some(r) = item.rtf_base64 {
        lemma_encoding_shape(rtf);
        lemma_decode_encoding(rtf);
        vstd::utf8::is_ascii_chars_encode_utf8(r@);
        let n = rtf.len();
        assert(base64_encoded_len(n) <= 11_184_812) by (nonlinear_arith)
            requires
                n <= 8_388_608,
                base64_encoded_len(n) == (n / 3) * 4 + if n % 3 == 0 {
                    0nat
                } else {
                    4nat
                },
        ;
        assert(byte_len(r@) <= base64_input_limit(MAX_FORMAT_BYTES));
        assert(limited_decoding(r@, MAX_FORMAT_BYTES, "RTF 格式"@) == Ok::<Seq<u8>, Seq<char>>(rtf));
    }
}

/// The logical size reads only the text, HTML, RTF and file fields: records
/// that agree on them (whatever their titles, search terms, image URLs or
/// omitted formats) have the same logical size.
pub proof fn lemma_logical_bytes_reads_only_bodies(a: HistoryItem, b: HistoryItem)
    requires
        a.content == b.content,
        a.html == b.html,
        a.rtf_base64 == b.rtf_base64,
        a.files == b.files,
    ensures
        logical_bytes_result(a) == logical_bytes_result(b),
{
}

/// The logical size of a record, the decoded RTF body included (see [`logical_bytes_result`]).
pub fn logical_bytes(item: &HistoryItem) -> (out: Result<i64, String>)
    requires
        bytes_besides_rtf(*item) + MAX_FORMAT_BYTES <= usize::MAX,
    ensures
        match out {
            Ok(n) => logical_bytes_result(*item) == Ok::<i64, Seq<char>>(n),
            Err(e) => logical_bytes_result(*item) == Err::<i64, Seq<char>>(e@),
        },
{
    let rtf_bytes: usize = match &item.rtf_base64 {
        None => 0,
        Some(rtf) => match decode_base64_with_limit(rtf.as_str(), MAX_FORMAT_BYTES, "RTF 格式") {
            Ok(bytes) => bytes.len(),
            Err(e) => return Err(e),
        },
    };
    let mut total: usize = str_byte_len(item.content.as_str()) + opt_str_len(&item.html);
    let mut i: usize = 0;
    proof {
        lemma_files_bytes_prefix(item.files@, 0);
        assert(item.files@.take(0) =~= Seq::<ClipboardFile>::empty());
    }
    while i < item.files.len()
        invariant
            i <= item.files@.len(),
            bytes_besides_rtf(*item) + MAX_FORMAT_BYTES <= usize::MAX,
            total == byte_len(item.content@) + opt_byte_len(item.html) + files_bytes(
                item.files@.take(i as int),
            ),
        decreases item.files@.len() - i,
    {
        proof {
            lemma_files_bytes_prefix(item.files@, i + 1);
            assert(item.files@.take(i + 1).drop_last() =~= item.files@.take(i as int));
        }
        let f = &item.files[i];
        total = total + str_byte_len(f.path.as_str()) + str_byte_len(f.name.as_str()) + opt_str_len(
            &f.extension,
        ) + opt_str_len(&f.modified_at);
        i = i + 1;
    }
    assert(item.files@.take(i as int) =~= item.files@);
    let total = total + rtf_bytes;
    if (total as u64) > 9_223_372_036_854_775_807u64 {
        Ok(i64::MAX)
    } else {
        Ok(total as i64)
    }
}


/// The data URL a source-application icon is sent as.
pub open spec fn icon_url(icon_png: Seq<u8>) -> Seq<char> {
    icon_data_url_prefix() + base64_encoding(icon_png)
}

/// A stored icon as a data URL, when it is a safe icon.
pub fn safe_icon_data_url(icon_png: Option<Vec<u8>>) -> (out: Option<String>)
    ensures
        match icon_png {
            Some(bytes) => if icon_png_safe(bytes@) {
                out matches Some(url) && url@ == icon_url(bytes@)
            } else {
                out is None
            },
            None => out is None,
        },
{
    match icon_png {
        Some(bytes) => {
            if !source_app_icon_png_is_safe(bytes.as_slice()) {
                return None;
            }
            let mut url = String::from_str("data:image/png;base64,");
            let body = base64_encode(bytes.as_slice());
            url.append(body.as_str());
            proof {
                reveal_strlit("data:image/png;base64,");
            }
            Some(url)
        },
        None => None,
    }
}

/// Whether stored omitted formats are as a record saves them: no format
/// twice, in canonical order.
pub open spec fn stored_omitted_ok(formats: Seq<ClipboardFormat>) -> bool {
    formats.no_duplicates() && ordered_subset(omitted_format_order(), formats) == formats
}

/// Omitted formats as a record saves them (canonical order, each once) pass
/// the check made when the record is read back from the database.
pub proof fn lemma_saved_omitted_formats_read_back(formats: Seq<ClipboardFormat>)
    requires
        formats.no_duplicates(),
    ensures
        stored_omitted_ok(ordered_subset(omitted_format_order(), formats)),
{
    let order = omitted_format_order();
    assert(order.no_duplicates()) by {
        assert forall|i: int, j: int| 0 <= i < order.len() && 0 <= j < order.len() && i != j implies order[i]
            != order[j] by {}
    }
    lemma_ordered_subset_canonical(order, formats);
}

/// Refuses stored omitted formats that are repeated or out of canonical order.
pub fn check_stored_omitted_formats(formats: &[ClipboardFormat]) -> (out: Result<(), String>)
    ensures
        !formats@.no_duplicates() ==> (out matches Err(e) && e@ == "省略格式不能重复"@),
        formats@.no_duplicates() && !stored_omitted_ok(formats@) ==> (out matches Err(e) && e@
            == "省略格式顺序不是规范顺序"@),
        stored_omitted_ok(formats@) ==> out is Ok,
{
    let canonical = match canonical_omitted_formats(formats) {
        Ok(v) => v,
        Err(e) => return Err(e),
    };
    let mut same = canonical.len() == formats.len();
    let mut i: usize = 0;
    while same && i < canonical.len()
        invariant
            canonical@.len() == formats@.len() || !same,
            canonical@ == ordered_subset(omitted_format_order(), formats@),
            stored_omitted_ok(formats@) ==> same,
            i <= canonical@.len(),
            same ==> forall|k: int| 0 <= k < i ==> canonical@[k] == formats@[k],
        decreases canonical@.len() - i,
    {
        if canonical[i] != formats[i] {
            same = false;
        }
        i = i + 1;
    }
    if !same {
        return Err(String::from_str("省略格式顺序不是规范顺序"));
    }
    assert(canonical@ =~= formats@);
    Ok(())
}

/// A stored file size as the user interface receives it: absent, or within
/// 0 to 2^53 - 1 bytes.
pub fn stored_file_size(size: Option<i64>) -> (out: Result<Option<u64>, String>)
    ensures
        match size {
            None => out == Ok::<Option<u64>, String>(None),
            Some(n) => if 0 <= n <= JS_MAX_SAFE_INTEGER_U64 {
                out == Ok::<Option<u64>, String>(Some(n as u64))
            } else {
                out matches Err(e) && e@ == "文件大小超出前端安全整数范围"@
            },
        },
{
    match size {
        None => Ok(None),
        Some(n) => if 0 <= n && n <= 9_007_199_254_740_991 {
            Ok(Some(n as u64))
        } else {
            Err(String::from_str("文件大小超出前端安全整数范围"))
        },
    }
}

/// The data URL a stored image is sent as: its stored MIME type (PNG when it
/// has none) and its bytes in base64.
pub open spec fn image_data_url(mime: Option<String>, data: Seq<u8>) -> Seq<char> {
    "data:"@ + (match mime {
        Some(m) => m@,
        None => "image/png"@,
    }) + ";base64,"@ + base64_encoding(data)
}

/// Every field of a record that reading a stored format body leaves alone.
pub open spec fn same_besides_payload(a: HistoryItem, b: HistoryItem) -> bool {
    &&& a.id == b.id
    &&& a.kind == b.kind
    &&& a.title == b.title
    &&& a.content == b.content
    &&& a.source_app == b.source_app
    &&& a.source_app_icon == b.source_app_icon
    &&& a.copied_at == b.copied_at
    &&& a.updated_at == b.updated_at
    &&& a.pinned == b.pinned
    &&& a.permanent == b.permanent
    &&& a.collection_id == b.collection_id
    &&& a.search_terms == b.search_terms
    &&& a.ocr_text == b.ocr_text
    &&& a.ocr_status == b.ocr_status
    &&& a.image_hash == b.image_hash
    &&& a.match_source == b.match_source
    &&& a.color == b.color
    &&& a.dimensions == b.dimensions
    &&& a.omitted_formats == b.omitted_formats
    &&& a.payload_loaded == b.payload_loaded
    &&& a.files == b.files
}

/// Adds one stored format row to a record being read back: the format's name
/// joins `formats`; an HTML body must be UTF-8 and becomes `html`; an RTF
/// body becomes `rtf_base64`; an image body becomes `image_url`; `text`
/// carries no body. Any other format name is refused.
pub fn attach_stored_format(
    item: &mut HistoryItem,
    format: String,
    mime: Option<String>,
    data: Option<Vec<u8>>,
) -> (out: Result<(), String>)
    requires
        data matches Some(d) ==> d@.len() <= usize::MAX / 2,
    ensures
        final(item).formats@ == old(item).formats@.push(format),
        same_besides_payload(*old(item), *final(item)),
        format@ == "html"@ ==> match data {
            None => out is Ok && final(item).html is None,
            Some(d) => if vstd::utf8::valid_utf8(d@) {
                out is Ok && opt_view(final(item).html) == Some(vstd::utf8::decode_utf8(d@))
            } else {
                out matches Err(e) && e@ == utf8_error_text(d@)
            },
        },
        format@ != "html"@ ==> final(item).html == old(item).html,
        format@ == "rtf"@ ==> out is Ok && opt_view(final(item).rtf_base64) == match data {
            Some(d) => Some(base64_encoding(d@)),
            None => None::<Seq<char>>,
        },
        format@ != "rtf"@ ==> final(item).rtf_base64 == old(item).rtf_base64,
        format@ == "image"@ ==> out is Ok && opt_view(final(item).image_url) == match data {
            Some(d) => Some(image_data_url(mime, d@)),
            None => None::<Seq<char>>,
        },
        format@ != "image"@ ==> final(item).image_url == old(item).image_url,
        format@ == "text"@ ==> out is Ok,
        (format@ != "html"@ && format@ != "rtf"@ && format@ != "image"@ && format@ != "text"@)
            ==> (out matches Err(e) && e@ == "历史记录包含未知格式 "@ + format@),
{
    proof {
        reveal_strlit("html");
        reveal_strlit("rtf");
        reveal_strlit("image");
        reveal_strlit("text");
        assert("html"@[0] != "text"@[0]);
    }
    let is_html = text_eq(format.as_str(), "html");
    let is_rtf = text_eq(format.as_str(), "rtf");
    let is_image = text_eq(format.as_str(), "image");
    let is_text = text_eq(format.as_str(), "text");
    let mut unknown = String::from_str("历史记录包含未知格式 ");
    unknown.append(format.as_str());
    item.formats.push(format);
    if is_html {
        match data {
            None => {
                item.html = None;
            },
            Some(d) => match string_from_utf8(d) {
                Ok(text) => {
                    item.html = Some(text);
                },
                Err(e) => return Err(e),
            },
        }
        Ok(())
    } else if is_rtf {
        item.rtf_base64 = match data {
            Some(d) => Some(base64_encode(d.as_slice())),
            None => None,
        };
        Ok(())
    } else if is_image {
        item.image_url = match data {
            Some(d) => {
                let mut url = String::from_str("data:");
                match mime {
                    Some(m) => url.append(m.as_str()),
                    None => url.append("image/png"),
                }
                url.append(";base64,");
                let body = base64_encode(d.as_slice());
                url.append(body.as_str());
                Some(url)
            },
            None => None,
        };
        Ok(())
    } else if is_text {
        Ok(())
    } else {
        Err(unknown)
    }
}

/// A PNG (a thumbnail) as the data URL it is sent as.
pub fn png_data_url(png: &[u8]) -> (out: String)
    requires
        png@.len() <= usize::MAX / 2,
    ensures
        out@ == image_data_url(None, png@),
{
    let mut url = String::from_str("data:");
    url.append("image/png");
    url.append(";base64,");
    let body = base64_encode(png);
    url.append(body.as_str());
    url
}

/// The MIME type and body a format of a record is stored with, or why it
/// cannot be: text keeps no body; HTML keeps its UTF-8 bytes; RTF keeps its
/// decoded bytes (within the format limit); an image keeps the MIME type and
/// decoded body of its data URL (none of either when it has no URL).
pub open spec fn format_row_result(item: HistoryItem, format: Seq<char>) -> Result<
    (Option<Seq<char>>, Option<Seq<u8>>),
    Seq<char>,
> {
    if format == "text"@ {
        Ok((Some("text/plain"@), None))
    } else if format == "html"@ {
        Ok((
            Some("text/html"@),
            match item.html {
                Some(h) => Some(vstd::utf8::encode_utf8(h@)),
                None => None,
            },
        ))
    } else if format == "rtf"@ {
        match item.rtf_base64 {
            None => Ok((Some("application/rtf"@), None)),
            Some(r) => match limited_decoding(r@, MAX_FORMAT_BYTES, "RTF 格式"@) {
                Ok(bytes) => Ok((Some("application/rtf"@), Some(bytes))),
                Err(m) => Err(m),
            },
        }
    } else if format == "image"@ {
        match item.image_url {
            None => Ok((None, None)),
            Some(u) => match data_url_split(u@, HISTORY_IMAGE_BLOB_MAX_BYTES) {
                Ok((mime, bytes)) => Ok((Some(mime), Some(bytes))),
                Err(m) => Err(m),
            },
        }
    } else {
        Err("不支持的剪贴板格式 "@ + format)
    }
}

/// The view of a stored format row, or of why there is none.
pub open spec fn row_view(r: Result<(Option<String>, Option<Vec<u8>>), String>) -> Result<
    (Option<Seq<char>>, Option<Seq<u8>>),
    Seq<char>,
> {
    match r {
        Ok((mime, data)) => Ok((
            opt_view(mime),
            match data {
                Some(d) => Some(d@),
                None => None,
            },
        )),
        Err(e) => Err(e@),
    }
}

/// The MIME type and body with which `format` of a record is written (see
/// [`format_row_result`]).
pub fn stored_format_row(item: &HistoryItem, format: &str) -> (out: Result<
    (Option<String>, Option<Vec<u8>>),
    String,
>)
    ensures
        row_view(out) == format_row_result(*item, format@),
{
    if text_eq(format, "text") {
        Ok((Some(String::from_str("text/plain")), None))
    } else if text_eq(format, "html") {
        let data = match &item.html {
            Some(h) => Some(h.as_str().as_bytes_vec()),
            None => None,
        };
        Ok((Some(String::from_str("text/html")), data))
    } else if text_eq(format, "rtf") {
        match &item.rtf_base64 {
            None => Ok((Some(String::from_str("application/rtf")), None)),
            Some(r) => match decode_base64_with_limit(r.as_str(), 8_388_608, "RTF 格式") {
                Ok(bytes) => Ok((Some(String::from_str("application/rtf")), Some(bytes))),
                Err(m) => Err(m),
            },
        }
    } else if text_eq(format, "image") {
        match &item.image_url {
            None => Ok((None, None)),
            Some(u) => match data_url_parts(u.as_str()) {
                Ok((mime, bytes)) => Ok((Some(mime), Some(bytes))),
                Err(m) => Err(m),
            },
        }
    } else {
        let mut message = String::from_str("不支持的剪贴板格式 ");
        message.append(format);
        Err(message)
    }
}

/// The thumbnail made when a PNG image row is written: only a PNG body gets
/// one, and a body that makes none leaves the row without.
pub open spec fn row_thumbnail(mime: Option<Seq<char>>, data: Option<Seq<u8>>) -> Option<Seq<u8>> {
    match (mime, data) {
        (Some(m), Some(d)) => if m == "image/png"@ {
            match thumbnail_result(d) {
                Ok(t) => Some(t),
                Err(_) => None,
            }
        } else {
            None
        },
        _ => None,
    }
}

/// The thumbnail to cache for a written image row (see [`row_thumbnail`]).
pub fn pending_row_thumbnail(mime: &Option<String>, data: &Option<Vec<u8>>) -> (out: Option<Vec<u8>>)
    ensures
        match out {
            Some(t) => row_thumbnail(opt_view(*mime), match *data {
                Some(d) => Some(d@),
                None => None,
            }) == Some(t@),
            None => row_thumbnail(opt_view(*mime), match *data {
                Some(d) => Some(d@),
                None => None,
            }) is None,
        },
{
    match (mime, data) {
        (Some(m), Some(d)) => {
            if text_eq(m.as_str(), "image/png") {
                match generate_thumbnail_png(d.as_slice()) {
                    Ok(t) => Some(t),
                    Err(_) => None,
                }
            } else {
                None
            }
        },
        _ => None,
    }
}

/// The JSON texts a record's search terms and omitted formats are stored
/// as: arrays of the terms, and of the formats' lower-case names.
pub fn item_json_columns(item: &HistoryItem) -> (out: (String, String))
    ensures
        out.0@ == json_string_array(string_views(item.search_terms@)),
        out.1@ == json_string_array(item.omitted_formats@.map_values(|f: ClipboardFormat| format_name(f))),
{
    let terms = json_string_list(item.search_terms.as_slice());
    let mut names: Vec<String> = Vec::new();
    let mut i: usize = 0;
    while i < item.omitted_formats.len()
        invariant
            i <= item.omitted_formats@.len(),
            string_views(names@) == item.omitted_formats@.take(i as int).map_values(
                |f: ClipboardFormat| format_name(f),
            ),
        decreases item.omitted_formats@.len() - i,
    {
        let ghost before = string_views(names@);
        let format = item.omitted_formats[i];
        let name = String::from_str(format.as_str());
        names.push(name);
        proof {
            let f = |f: ClipboardFormat| format_name(f);
            assert(item.omitted_formats@.take(i + 1) =~= item.omitted_formats@.take(i as int).push(
                format,
            ));
            assert(string_views(names@) =~= before.push(format_name(format)));
            assert(item.omitted_formats@.take(i + 1).map_values(f) =~= item.omitted_formats@.take(
                i as int,
            ).map_values(f).push(f(format)));
        }
        i = i + 1;
    }
    assert(item.omitted_formats@.take(i as int) =~= item.omitted_formats@);
    let formats = json_string_list(names.as_slice());
    (terms, formats)
}

} // verus!
