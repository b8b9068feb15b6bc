//! The contract every stored history record satisfies.

use crate::external::str_byte_len;
use crate::formats::{
    actual_format_order, actual_formats_error, canonical_actual_formats, canonical_omitted_formats,
    contains_text, omitted_format_order, ordered_subset, string_views, MAX_FORMAT_BYTES,
    MAX_RTF_BASE64_INPUT_BYTES,
};
use crate::ids::{cursor_safe_id, history_id_is_cursor_safe, image_hash_is_canonical, lower_hex_64};
use crate::ocr::{ocr_text_canonical, ocr_text_is_canonical};
use crate::text::{char_is_whitespace, chars_of, is_unicode_whitespace, text_eq};
use crate::time::{normalize_timestamp, timestamp_result};
use crate::types::{ClipboardFile, ClipboardFormat, HistoryItem, HistoryMatchSource};
use crate::formats::{format_name, lemma_canonical_actual_formats_stable};
use crate::payload::lemma_saved_omitted_formats_read_back;
use vstd::prelude::*;
use vstd::string::*;
use vstd::utf8::encode_utf8;

verus! {

/// The largest decoded image a record may hold: 64 MiB.
pub const HISTORY_IMAGE_BLOB_MAX_BYTES: usize = 67_108_864;

/// The longest base64 image body accepted: the padded encoding of 64 MiB.
pub const HISTORY_IMAGE_BASE64_MAX_BYTES: usize = 89_478_488;

/// 2^53 - 1, the largest integer a JavaScript number holds exactly.
pub const JS_MAX_SAFE_INTEGER_U64: u64 = 9_007_199_254_740_991;

pub open spec fn opt_view(o: Option<String>) -> Option<Seq<char>> {
    match o {
        Some(s) => Some(s@),
        None => None,
    }
}

/// The UTF-8 length of a text.
pub open spec fn byte_len(s: Seq<char>) -> nat {
    encode_utf8(s).len()
}

/// The index of the first `c` in `s`.
pub open spec fn index_of(s: Seq<char>, c: char) -> Option<int>
    decreases s.len(),
{
    if s.len() == 0 {
        None
    } else if s[0] == c {
        Some(0)
    } else {
        match index_of(s.drop_first(), c) {
            Some(i) => Some(i + 1),
            None => None,
        }
    }
}

/// The part of a data URL after its first comma.
pub open spec fn data_url_body(url: Seq<char>) -> Option<Seq<char>> {
    match index_of(url, ',') {
        Some(i) => Some(url.skip(i + 1)),
        None => None,
    }
}

pub open spec fn known_ocr_status(s: Seq<char>) -> bool {
    s == "pending"@ || s == "completed"@ || s == "unavailable"@ || s == "failed"@ || s
        == "oversized"@
}

/// A terminal OCR status other than `completed`, or `pending`.
pub open spec fn textless_ocr_status(s: Seq<char>) -> bool {
    s == "pending"@ || s == "unavailable"@ || s == "failed"@ || s == "oversized"@
}

/// The formats a record declares: its `formats`, or, when that list is empty,
/// the implied `image` or `text` (a file record implies none).
pub open spec fn declared_formats(item: HistoryItem) -> Seq<Seq<char>> {
    if item.formats@.len() == 0 && item.kind@ != "file"@ {
        if item.kind@ == "image"@ {
            seq!["image"@]
        } else {
            seq!["text"@]
        }
    } else {
        string_views(item.formats@)
    }
}

pub open spec fn file_size_unsafe(files: Seq<ClipboardFile>) -> bool {
    exists|i: int|
        0 <= i < files.len() && (#[trigger] files[i].size matches Some(size) && size
            > JS_MAX_SAFE_INTEGER_U64)
}

pub open spec fn omitted_overlaps(item: HistoryItem) -> bool {
    exists|i: int|
        0 <= i < item.omitted_formats@.len() && declared_formats(item).contains(
            format_name(#[trigger] item.omitted_formats@[i]),
        )
}

/// What the record's OCR fields say about an image record.
pub open spec fn image_ocr_problem(item: HistoryItem) -> Option<Seq<char>> {
    match opt_view(item.ocr_status) {
        Some(status) => if status == "completed"@ {
            if item.image_hash is None || (item.payload_loaded && item.ocr_text is None) || (
            !item.payload_loaded && item.ocr_text is Some) || (opt_view(item.ocr_text) matches Some(
                text,
            ) && !ocr_text_canonical(text)) {
                Some("已完成 OCR 的图片载荷无效"@)
            } else {
                None
            }
        } else if textless_ocr_status(status) {
            if item.image_hash is None || item.ocr_text is Some {
                Some("图片 OCR 状态和正文不一致"@)
            } else {
                None
            }
        } else {
            None
        },
        None => if item.ocr_text is Some {
            Some("OCR 正文缺少状态"@)
        } else {
            None
        },
    }
}

/// The checks on payload sizes that apply to a full record.
pub open spec fn payload_size_problem(item: HistoryItem) -> Option<Seq<char>> {
    if byte_len(item.content@) > MAX_FORMAT_BYTES {
        Some("纯文本正文超过 8 MiB 限制"@)
    } else if opt_view(item.html) matches Some(html) && byte_len(html) > MAX_FORMAT_BYTES {
        Some("HTML 格式超过 8 MiB 限制"@)
    } else if opt_view(item.rtf_base64) matches Some(rtf) && byte_len(rtf)
        > MAX_RTF_BASE64_INPUT_BYTES {
        Some("RTF 格式超过 8 MiB 限制"@)
    } else {
        match opt_view(item.image_url) {
            Some(url) => match data_url_body(url) {
                None => Some("图片数据 URL 缺少正文"@),
                Some(body) => if byte_len(body) > HISTORY_IMAGE_BASE64_MAX_BYTES {
                    Some("图片正文超过 64 MiB 限制"@)
                } else {
                    None
                },
            },
            None => None,
        }
    }
}

/// Whether a permanent record breaks the plain-text snippet shape.
pub open spec fn permanent_shape_broken(item: HistoryItem) -> bool {
    let declared = declared_formats(item);
    ||| !(item.kind@ == "text"@ || item.kind@ == "code"@)
    ||| declared.len() != 1
    ||| !declared.contains("text"@)
    ||| item.omitted_formats@.len() != 0
    ||| item.files@.len() != 0
    ||| item.html is Some
    ||| item.rtf_base64 is Some
    ||| item.image_url is Some
    ||| item.ocr_text is Some
    ||| item.ocr_status is Some
    ||| item.color is Some
    ||| item.dimensions is Some
}

/// The per-kind shape of a full record.
pub open spec fn kind_shape_problem(item: HistoryItem) -> Option<Seq<char>> {
    let declared = declared_formats(item);
    let kind = item.kind@;
    if kind == "file"@ {
        if item.files@.len() == 0 || declared.len() != 1 || !declared.contains("files"@) {
            Some("文件记录必须包含非空 files 且只声明 files 格式"@)
        } else if item.html is Some || item.rtf_base64 is Some || item.image_url is Some {
            Some("文件记录不能携带富文本或图片正文"@)
        } else {
            None
        }
    } else if kind == "image"@ {
        if item.files@.len() != 0 || declared.len() != 1 || !declared.contains("image"@)
            || item.html is Some || item.rtf_base64 is Some {
            Some("图片记录格式不一致"@)
        } else {
            None
        }
    } else if kind == "text"@ || kind == "code"@ || kind == "link"@ {
        if item.files@.len() != 0 {
            Some("文本记录不能携带 files"@)
        } else if item.formats@.len() != 0 && (!declared.contains("text"@) || exists|i: int|
            0 <= i < declared.len() && !(#[trigger] declared[i] == "text"@ || declared[i]
                == "html"@ || declared[i] == "rtf"@)) {
            Some("文本记录格式不一致"@)
        } else {
            None
        }
    } else {
        Some("剪贴板记录类型不支持"@)
    }
}

/// The first rule of the record contract that `item` breaks, in the order the
/// store checks them; `None` when the record is valid.
pub open spec fn history_item_problem(item: HistoryItem) -> Option<Seq<char>> {
    let declared = declared_formats(item);
    let loaded = item.payload_loaded;
    if !cursor_safe_id(item.id@) {
        Some("剪贴板记录 id 无效"@)
    } else if loaded && item.match_source is Some {
        Some("完整剪贴板记录不能携带查询命中来源"@)
    } else if loaded && payload_size_problem(item) is Some {
        payload_size_problem(item)
    } else if item.match_source == Some(HistoryMatchSource::Ocr) && (loaded || item.kind@
        != "image"@ || opt_view(item.ocr_status) != Some("completed"@)) {
        Some("OCR 命中来源与摘要状态不一致"@)
    } else if opt_view(item.ocr_status) matches Some(status) && !known_ocr_status(status) {
        Some("OCR 状态无效"@)
    } else if opt_view(item.image_hash) matches Some(hash) && (item.kind@ != "image"@
        || !lower_hex_64(hash)) {
        Some("图片哈希无效"@)
    } else if item.kind@ != "image"@ && (item.image_hash is Some || item.ocr_text is Some
        || item.ocr_status is Some) {
        Some("只有图片记录可以携带 OCR 数据"@)
    } else if item.kind@ == "image"@ && image_ocr_problem(item) is Some {
        image_ocr_problem(item)
    } else if file_size_unsafe(item.files@) {
        Some("文件大小超出前端安全整数范围"@)
    } else if !string_views(item.formats@).no_duplicates() {
        Some("剪贴板记录格式不能重复"@)
    } else if omitted_overlaps(item) {
        Some("已保存格式与省略格式不能重叠"@)
    } else if item.permanent && permanent_shape_broken(item) {
        Some("永久片段必须是纯文本 text/code 记录"@)
    } else if !loaded {
        if item.html is Some || item.rtf_base64 is Some || item.image_url is Some
            || item.ocr_text is Some || item.search_terms@.len() != 0 {
            Some("摘要记录不能携带未加载的正文或搜索载荷"@)
        } else {
            None
        }
    } else if kind_shape_problem(item) is Some {
        kind_shape_problem(item)
    } else if item.html is Some && !declared.contains("html"@) {
        Some("HTML 正文缺少 html 格式声明"@)
    } else if item.rtf_base64 is Some && !declared.contains("rtf"@) {
        Some("RTF 正文缺少 rtf 格式声明"@)
    } else if item.image_url is Some && !declared.contains("image"@) {
        Some("图片正文缺少 image 格式声明"@)
    } else if declared.contains("html"@) != item.html is Some {
        Some("HTML 格式和正文必须一致"@)
    } else if declared.contains("rtf"@) != item.rtf_base64 is Some {
        Some("RTF 格式和正文必须一致"@)
    } else if declared.contains("image"@) != item.image_url is Some {
        Some("图片格式和正文必须一致"@)
    } else {
        None
    }
}


/// Whether an optional text is present and equal to `expected`.
pub fn opt_text_is(o: &Option<String>, expected: &str) -> (b: bool)
    ensures
        b == (opt_view(*o) == Some(expected@)),
{
    match o {
        Some(s) => text_eq(s.as_str(), expected),
        None => false,
    }
}

fn is_known_ocr_status(s: &str) -> (b: bool)
    ensures
        b == known_ocr_status(s@),
{
    text_eq(s, "pending") || text_eq(s, "completed") || text_eq(s, "unavailable") || text_eq(
        s,
        "failed",
    ) || text_eq(s, "oversized")
}

fn is_textless_ocr_status(s: &str) -> (b: bool)
    ensures
        b == textless_ocr_status(s@),
{
    text_eq(s, "pending") || text_eq(s, "unavailable") || text_eq(s, "failed") || text_eq(
        s,
        "oversized",
    )
}

/// The index of the first `c` in `chars`.
pub fn find_char(chars: &Vec<char>, c: char) -> (r: Option<usize>)
    ensures
        r matches Some(i) ==> index_of(chars@, c) == Some(i as int) && i < chars@.len(),
        r is None ==> index_of(chars@, c) is None,
{
    let mut i: usize = 0;
    assert(chars@.skip(0) =~= chars@);
    while i < chars.len()
        invariant
            i <= chars@.len(),
            index_of(chars@, c) == match index_of(chars@.skip(i as int), c) {
                Some(j) => Some(j + i),
                None => None::<int>,
            },
        decreases chars@.len() - i,
    {
        assert(chars@.skip(i as int).drop_first() =~= chars@.skip(i + 1));
        if chars[i] == c {
            return Some(i);
        }
        i = i + 1;
    }
    None
}

/// The part of `url` after its first comma.
pub fn data_url_body_of(url: &str) -> (r: Option<&str>)
    ensures
        r matches Some(body) ==> data_url_body(url@) == Some(body@),
        r is None ==> data_url_body(url@) is None,
{
    let chars = chars_of(url);
    let n = chars.len();
    match find_char(&chars, ',') {
        Some(i) => Some(url.substring_char(i + 1, n)),
        None => None,
    }
}

fn payload_size_check(item: &HistoryItem) -> (r: Option<String>)
    ensures
        opt_view(r) == payload_size_problem(*item),
{
    if str_byte_len(item.content.as_str()) > MAX_FORMAT_BYTES {
        return Some(String::from_str("纯文本正文超过 8 MiB 限制"));
    }
    if let Some(html) = &item.html {
        if str_byte_len(html.as_str()) > MAX_FORMAT_BYTES {
            return Some(String::from_str("HTML 格式超过 8 MiB 限制"));
        }
    }
    if let Some(rtf) = &item.rtf_base64 {
        if str_byte_len(rtf.as_str()) > MAX_RTF_BASE64_INPUT_BYTES {
            return Some(String::from_str("RTF 格式超过 8 MiB 限制"));
        }
    }
    if let Some(url) = &item.image_url {
        match data_url_body_of(url.as_str()) {
            None => return Some(String::from_str("图片数据 URL 缺少正文")),
            Some(body) => {
                if str_byte_len(body) > HISTORY_IMAGE_BASE64_MAX_BYTES {
                    return Some(String::from_str("图片正文超过 64 MiB 限制"));
                }
            },
        }
    }
    None
}

fn image_ocr_check(item: &HistoryItem) -> (r: Option<String>)
    ensures
        opt_view(r) == image_ocr_problem(*item),
{
    match &item.ocr_status {
        Some(status) => {
            if text_eq(status.as_str(), "completed") {
                let text_bad = match &item.ocr_text {
                    Some(text) => !ocr_text_is_canonical(text.as_str()),
                    None => false,
                };
                if item.image_hash.is_none() || (item.payload_loaded && item.ocr_text.is_none()) || (
                !item.payload_loaded && item.ocr_text.is_some()) || text_bad {
                    Some(String::from_str("已完成 OCR 的图片载荷无效"))
                } else {
                    None
                }
            } else if is_textless_ocr_status(status.as_str()) {
                if item.image_hash.is_none() || item.ocr_text.is_some() {
                    Some(String::from_str("图片 OCR 状态和正文不一致"))
                } else {
                    None
                }
            } else {
                None
            }
        },
        None => {
            if item.ocr_text.is_some() {
                Some(String::from_str("OCR 正文缺少状态"))
            } else {
                None
            }
        },
    }
}

fn file_size_check(files: &Vec<ClipboardFile>) -> (b: bool)
    ensures
        b == file_size_unsafe(files@),
{
    let mut i: usize = 0;
    while i < files.len()
        invariant
            i <= files@.len(),
            forall|k: int|
                0 <= k < i ==> !(#[trigger] files@[k].size matches Some(size) && size
                    > JS_MAX_SAFE_INTEGER_U64),
        decreases files@.len() - i,
    {
        if let Some(size) = files[i].size {
            if size > JS_MAX_SAFE_INTEGER_U64 {
                return true;
            }
        }
        i = i + 1;
    }
    false
}

fn texts_have_duplicates(list: &Vec<String>) -> (b: bool)
    ensures
        b == !string_views(list@).no_duplicates(),
{
    let ghost views = string_views(list@);
    let mut i: usize = 0;
    while i < list.len()
        invariant
            i <= list@.len(),
            views == string_views(list@),
            views.take(i as int).no_duplicates(),
        decreases list@.len() - i,
    {
        if contains_text(list, i, list[i].as_str()) {
            assert(string_views(list@.take(i as int)) =~= views.take(i as int));
            proof {
                let j = choose|j: int| 0 <= j < i && views.take(i as int)[j] == list@[i as int]@;
                assert(views[j] == views[i as int]);
            }
            return true;
        }
        assert(string_views(list@.take(i as int)) =~= views.take(i as int));
        assert(views.take(i + 1) =~= views.take(i as int).push(views[i as int]));
        i = i + 1;
    }
    assert(views.take(i as int) =~= views);
    false
}

/// The declared formats of `item` (see [`declared_formats`]).
pub fn declared_formats_of(item: &HistoryItem) -> (out: Vec<String>)
    ensures
        string_views(out@) == declared_formats(*item),
{
    if item.formats.len() == 0 && !text_eq(item.kind.as_str(), "file") {
        let name = if text_eq(item.kind.as_str(), "image") {
            String::from_str("image")
        } else {
            String::from_str("text")
        };
        let out = vec![name];
        assert(string_views(out@) =~= declared_formats(*item));
        out
    } else {
        item.formats.clone()
    }
}

/// Whether a list of names holds `name`.
pub fn texts_contain(list: &Vec<String>, name: &str) -> (b: bool)
    ensures
        b == string_views(list@).contains(name@),
{
    let b = contains_text(list, list.len(), name);
    assert(list@.take(list@.len() as int) =~= list@);
    b
}

fn omitted_overlap_check(item: &HistoryItem, declared: &Vec<String>) -> (b: bool)
    requires
        string_views(declared@) == declared_formats(*item),
    ensures
        b == omitted_overlaps(*item),
{
    let mut i: usize = 0;
    while i < item.omitted_formats.len()
        invariant
            i <= item.omitted_formats@.len(),
            string_views(declared@) == declared_formats(*item),
            forall|k: int|
                0 <= k < i ==> !declared_formats(*item).contains(
                    format_name(#[trigger] item.omitted_formats@[k]),
                ),
        decreases item.omitted_formats@.len() - i,
    {
        let format: ClipboardFormat = item.omitted_formats[i];
        if texts_contain(declared, format.as_str()) {
            return true;
        }
        i = i + 1;
    }
    false
}

fn permanent_shape_check(item: &HistoryItem, declared: &Vec<String>) -> (b: bool)
    requires
        string_views(declared@) == declared_formats(*item),
    ensures
        b == permanent_shape_broken(*item),
{
    !(text_eq(item.kind.as_str(), "text") || text_eq(item.kind.as_str(), "code")) || declared.len()
        != 1 || !texts_contain(declared, "text") || item.omitted_formats.len() != 0
        || item.files.len() != 0 || item.html.is_some() || item.rtf_base64.is_some()
        || item.image_url.is_some() || item.ocr_text.is_some() || item.ocr_status.is_some()
        || item.color.is_some() || item.dimensions.is_some()
}

fn only_text_like(declared: &Vec<String>) -> (b: bool)
    ensures
        b == forall|i: int|
            0 <= i < declared@.len() ==> (#[trigger] string_views(declared@)[i] == "text"@
                || string_views(declared@)[i] == "html"@ || string_views(declared@)[i] == "rtf"@),
{
    let mut i: usize = 0;
    while i < declared.len()
        invariant
            i <= declared@.len(),
            forall|k: int|
                0 <= k < i ==> (#[trigger] string_views(declared@)[k] == "text"@ || string_views(
                    declared@,
                )[k] == "html"@ || string_views(declared@)[k] == "rtf"@),
        decreases declared@.len() - i,
    {
        let name = declared[i].as_str();
        assert(string_views(declared@)[i as int] == declared@[i as int]@);
        if !(text_eq(name, "text") || text_eq(name, "html") || text_eq(name, "rtf")) {
            return false;
        }
        i = i + 1;
    }
    true
}

fn kind_shape_check(item: &HistoryItem, declared: &Vec<String>) -> (r: Option<String>)
    requires
        string_views(declared@) == declared_formats(*item),
    ensures
        opt_view(r) == kind_shape_problem(*item),
{
    let kind = item.kind.as_str();
    if text_eq(kind, "file") {
        if item.files.len() == 0 || declared.len() != 1 || !texts_contain(declared, "files") {
            Some(String::from_str("文件记录必须包含非空 files 且只声明 files 格式"))
        } else if item.html.is_some() || item.rtf_base64.is_some() || item.image_url.is_some() {
            Some(String::from_str("文件记录不能携带富文本或图片正文"))
        } else {
            None
        }
    } else if text_eq(kind, "image") {
        if item.files.len() != 0 || declared.len() != 1 || !texts_contain(declared, "image")
            || item.html.is_some() || item.rtf_base64.is_some() {
            Some(String::from_str("图片记录格式不一致"))
        } else {
            None
        }
    } else if text_eq(kind, "text") || text_eq(kind, "code") || text_eq(kind, "link") {
        if item.files.len() != 0 {
            Some(String::from_str("文本记录不能携带 files"))
        } else if item.formats.len() != 0 && (!texts_contain(declared, "text") || !only_text_like(
            declared,
        )) {
            Some(String::from_str("文本记录格式不一致"))
        } else {
            None
        }
    } else {
        Some(String::from_str("剪贴板记录类型不支持"))
    }
}

/// Checks a record against the store's record contract; the error names the
/// first rule broken, in the order of [`history_item_problem`].
pub fn validate_history_item(item: &HistoryItem) -> (out: Result<(), String>)
    ensures
        out is Ok <==> history_item_problem(*item) is None,
        out matches Err(message) ==> history_item_problem(*item) == Some(message@),
{
    if !history_id_is_cursor_safe(item.id.as_str()) {
        return Err(String::from_str("剪贴板记录 id 无效"));
    }
    let loaded = item.payload_loaded;
    if loaded && item.match_source.is_some() {
        return Err(String::from_str("完整剪贴板记录不能携带查询命中来源"));
    }
    if loaded {
        if let Some(message) = payload_size_check(item) {
            return Err(message);
        }
    }
    let ocr_match = match item.match_source {
        Some(HistoryMatchSource::Ocr) => true,
        _ => false,
    };
    if ocr_match && (loaded || !text_eq(item.kind.as_str(), "image") || !opt_text_is(
        &item.ocr_status,
        "completed",
    )) {
        return Err(String::from_str("OCR 命中来源与摘要状态不一致"));
    }
    if let Some(status) = &item.ocr_status {
        if !is_known_ocr_status(status.as_str()) {
            return Err(String::from_str("OCR 状态无效"));
        }
    }
    let is_image = text_eq(item.kind.as_str(), "image");
    if let Some(hash) = &item.image_hash {
        if !is_image || !image_hash_is_canonical(hash.as_str()) {
            return Err(String::from_str("图片哈希无效"));
        }
    }
    if !is_image && (item.image_hash.is_some() || item.ocr_text.is_some()
        || item.ocr_status.is_some()) {
        return Err(String::from_str("只有图片记录可以携带 OCR 数据"));
    }
    if is_image {
        if let Some(message) = image_ocr_check(item) {
            return Err(message);
        }
    }
    if file_size_check(&item.files) {
        return Err(String::from_str("文件大小超出前端安全整数范围"));
    }
    if texts_have_duplicates(&item.formats) {
        return Err(String::from_str("剪贴板记录格式不能重复"));
    }
    let declared = declared_formats_of(item);
    if omitted_overlap_check(item, &declared) {
        return Err(String::from_str("已保存格式与省略格式不能重叠"));
    }
    if item.permanent && permanent_shape_check(item, &declared) {
        return Err(String::from_str("永久片段必须是纯文本 text/code 记录"));
    }
    if !loaded {
        if item.html.is_some() || item.rtf_base64.is_some() || item.image_url.is_some()
            || item.ocr_text.is_some() || item.search_terms.len() != 0 {
            return Err(String::from_str("摘要记录不能携带未加载的正文或搜索载荷"));
        }
        return Ok(());
    }
    if let Some(message) = kind_shape_check(item, &declared) {
        return Err(message);
    }
    let has_html = texts_contain(&declared, "html");
    let has_rtf = texts_contain(&declared, "rtf");
    let has_image = texts_contain(&declared, "image");
    if item.html.is_some() && !has_html {
        return Err(String::from_str("HTML 正文缺少 html 格式声明"));
    }
    if item.rtf_base64.is_some() && !has_rtf {
        return Err(String::from_str("RTF 正文缺少 rtf 格式声明"));
    }
    if item.image_url.is_some() && !has_image {
        return Err(String::from_str("图片正文缺少 image 格式声明"));
    }
    if has_html != item.html.is_some() {
        return Err(String::from_str("HTML 格式和正文必须一致"));
    }
    if has_rtf != item.rtf_base64.is_some() {
        return Err(String::from_str("RTF 格式和正文必须一致"));
    }
    if has_image != item.image_url.is_some() {
        return Err(String::from_str("图片格式和正文必须一致"));
    }
    Ok(())
}


/// The whole text is Rust white space (so `str::trim` leaves nothing).
pub open spec fn all_whitespace(s: Seq<char>) -> bool {
    forall|i: int| 0 <= i < s.len() ==> is_unicode_whitespace(#[trigger] s[i])
}

fn is_all_whitespace(s: &str) -> (b: bool)
    ensures
        b == all_whitespace(s@),
{
    let chars = chars_of(s);
    let mut i: usize = 0;
    while i < chars.len()
        invariant
            i <= chars@.len(),
            chars@ == s@,
            forall|k: int| 0 <= k < i ==> is_unicode_whitespace(#[trigger] chars@[k]),
        decreases chars@.len() - i,
    {
        if !char_is_whitespace(chars[i]) {
            return false;
        }
        i = i + 1;
    }
    true
}

/// The first problem with a record's formats and timestamps, in the order
/// they are normalised.
pub open spec fn item_normalization_error(item: HistoryItem) -> Option<Seq<char>> {
    if actual_formats_error(string_views(item.formats@)) is Some {
        actual_formats_error(string_views(item.formats@))
    } else if !item.omitted_formats@.no_duplicates() {
        Some("省略格式不能重复"@)
    } else if timestamp_result(item.copied_at@) is Err {
        Some(timestamp_result(item.copied_at@)->Err_0)
    } else if !all_whitespace(item.updated_at@) && timestamp_result(item.updated_at@) is Err {
        Some(timestamp_result(item.updated_at@)->Err_0)
    } else {
        None
    }
}

/// What a normalised record holds: formats in canonical order, timestamps in
/// canonical form, a blank `updated_at` of a full record set to `copied_at`,
/// and every other field unchanged.
pub open spec fn normalized_item(before: HistoryItem, after: HistoryItem) -> bool {
    &&& string_views(after.formats@) == ordered_subset(
        actual_format_order(),
        string_views(before.formats@),
    )
    &&& after.omitted_formats@ == ordered_subset(omitted_format_order(), before.omitted_formats@)
    &&& timestamp_result(before.copied_at@) == Ok::<Seq<char>, Seq<char>>(after.copied_at@)
    &&& if all_whitespace(before.updated_at@) {
        if before.payload_loaded {
            after.updated_at@ == after.copied_at@
        } else {
            after.updated_at@ == before.updated_at@
        }
    } else {
        timestamp_result(before.updated_at@) == Ok::<Seq<char>, Seq<char>>(after.updated_at@)
    }
    &&& after == HistoryItem {
        formats: after.formats,
        omitted_formats: after.omitted_formats,
        copied_at: after.copied_at,
        updated_at: after.updated_at,
        ..before
    }
}

/// Puts a record's formats and timestamps in canonical form.
pub fn normalize_history_item(item: HistoryItem) -> (out: Result<HistoryItem, String>)
    ensures
        match item_normalization_error(item) {
            Some(message) => out matches Err(e) && e@ == message,
            None => out matches Ok(n) && normalized_item(item, n),
        },
        out matches Ok(n) ==> item_normalization_error(n) is None && normalized_item(n, n),
{
    let mut item = item;
    let ghost before = item;
    item.formats = match canonical_actual_formats(item.formats.as_slice()) {
        Ok(v) => v,
        Err(e) => return Err(e),
    };
    item.omitted_formats = match canonical_omitted_formats(item.omitted_formats.as_slice()) {
        Ok(v) => v,
        Err(e) => return Err(e),
    };
    item.copied_at = match normalize_timestamp(item.copied_at.as_str()) {
        Ok(t) => t,
        Err(e) => return Err(e),
    };
    if is_all_whitespace(item.updated_at.as_str()) {
        if item.payload_loaded {
            item.updated_at = item.copied_at.clone();
        }
    } else {
        item.updated_at = match normalize_timestamp(item.updated_at.as_str()) {
            Ok(t) => t,
            Err(e) => return Err(e),
        };
    }
    proof {
        lemma_canonical_actual_formats_stable(string_views(before.formats@));
        lemma_saved_omitted_formats_read_back(before.omitted_formats@);
        if !all_whitespace(before.updated_at@) {
            let last = (item.updated_at@.len() - 1) as int;
            assert(!is_unicode_whitespace(item.updated_at@[last]));
        }
    }
    Ok(item)
}

/// A link record is a text-like record: it is shaped exactly like the same
/// record of kind `text` or `code`, is never refused for its kind, and (unless
/// it is a permanent snippet, which must be text or code) the record contract
/// accepts or refuses it exactly as it does the same text or code record.
pub proof fn lemma_links_are_checked_as_text(link: HistoryItem, text: HistoryItem)
    requires
        link.kind@ == "link"@,
        text.kind@ == "text"@ || text.kind@ == "code"@,
        text == (HistoryItem { kind: text.kind, ..link }),
    ensures
        kind_shape_problem(link) == kind_shape_problem(text),
        kind_shape_problem(link) != Some("剪贴板记录类型不支持"@),
        !link.permanent ==> history_item_problem(link) == history_item_problem(text),
{
    reveal_strlit("link");
    reveal_strlit("text");
    reveal_strlit("code");
    reveal_strlit("file");
    reveal_strlit("image");
    reveal_strlit("文本记录不能携带 files");
    reveal_strlit("文本记录格式不一致");
    reveal_strlit("剪贴板记录类型不支持");
    assert("link"@[0] != "file"@[0] && "link"@[0] != "image"@[0]);
    assert("text"@[0] != "file"@[0] && "text"@[0] != "image"@[0]);
    assert("code"@[0] != "file"@[0] && "code"@[0] != "image"@[0]);
    assert(declared_formats(link) == declared_formats(text));
    assert(payload_size_problem(link) == payload_size_problem(text));
    assert(text.omitted_formats == link.omitted_formats);
    assert(omitted_overlaps(link) == omitted_overlaps(text)) by {
        if omitted_overlaps(link) {
            let i = choose|i: int|
                0 <= i < link.omitted_formats@.len() && declared_formats(link).contains(
                    format_name(#[trigger] link.omitted_formats@[i]),
                );
            assert(0 <= i < text.omitted_formats@.len() && declared_formats(text).contains(
                format_name(text.omitted_formats@[i]),
            ));
        }
    }
    assert("文本记录不能携带 files"@[0] != "剪贴板记录类型不支持"@[0]);
    assert("文本记录格式不一致"@[0] != "剪贴板记录类型不支持"@[0]);
}

} // verus!
