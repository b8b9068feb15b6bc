//! Reading a record of the old JSON history table.

use crate::encoding::{base64_encode, base64_encoding};
use crate::formats::string_views;
use crate::item::opt_view;
use crate::text::{chars_of, string_from_chars, text_eq};
use crate::types::{ClipboardFile, ClipboardFormat, HistoryItem};
use vstd::prelude::*;
use vstd::string::*;

verus! {

/// A JSON value, as far as old records are read: numbers are not.
#[derive(Debug)]
pub enum JsonValue {
    Null,
    Bool(bool),
    Number,
    Text(String),
    Array(Vec<JsonValue>),
    Object(Vec<(String, JsonValue)>),
}

/// One row of the old history table, with its JSON payload already parsed.
#[derive(Debug)]
pub struct LegacyRow {
    pub id: String,
    /// The payload parsed as JSON (an object's keys once each), or the parser's message.
    pub payload: Result<JsonValue, String>,
    pub image_mime: Option<String>,
    pub image_data: Option<Vec<u8>>,
    /// The entries of the payload's `files` array read as file records, when it holds such an array.
    pub files: Option<Result<Vec<ClipboardFile>, String>>,
    /// The payload's `omittedFormats` value read as a list of formats, when it holds one.
    pub omitted_formats: Option<Result<Vec<ClipboardFormat>, String>>,
}

/// The value stored under `key` in an object's entries.
pub open spec fn json_get(fields: Seq<(String, JsonValue)>, key: Seq<char>) -> Option<JsonValue>
    decreases fields.len(),
{
    if fields.len() == 0 {
        None
    } else if fields[0].0@ == key {
        Some(fields[0].1)
    } else {
        json_get(fields.drop_first(), key)
    }
}

/// The text of a value that is a JSON string.
pub open spec fn json_text(v: Option<JsonValue>) -> Option<Seq<char>> {
    match v {
        Some(JsonValue::Text(s)) => Some(s@),
        _ => None,
    }
}

/// The value of a JSON boolean.
pub open spec fn json_bool(v: Option<JsonValue>) -> Option<bool> {
    match v {
        Some(JsonValue::Bool(b)) => Some(b),
        _ => None,
    }
}

/// The strings among an array's elements, in order.
pub open spec fn texts_among(items: Seq<JsonValue>) -> Seq<Seq<char>>
    decreases items.len(),
{
    if items.len() == 0 {
        seq![]
    } else {
        texts_among(items.drop_last()) + match items.last() {
            JsonValue::Text(s) => seq![s@],
            _ => seq![],
        }
    }
}

/// The strings of a value that is a JSON array (nothing otherwise).
pub open spec fn json_texts(v: Option<JsonValue>) -> Seq<Seq<char>> {
    match v {
        Some(JsonValue::Array(items)) => texts_among(items@),
        _ => seq![],
    }
}

/// The text or a default.
pub open spec fn text_or(v: Option<Seq<char>>, default: Seq<char>) -> Seq<char> {
    match v {
        Some(t) => t,
        None => default,
    }
}

/// The first 36 characters of a text.
pub open spec fn title_prefix(content: Seq<char>) -> Seq<char> {
    if content.len() <= 36 {
        content
    } else {
        content.take(36)
    }
}

/// The data URL of an old record's image: its MIME type (PNG by default) and base64 body.
pub open spec fn legacy_image_url(row: LegacyRow) -> Option<Seq<char>> {
    image_data_url(row.image_mime, row.image_data)
}

/// `data:<mime>;base64,<body>` for image bytes, with PNG as the default MIME type.
pub open spec fn image_data_url(mime: Option<String>, data: Option<Vec<u8>>) -> Option<Seq<char>> {
    match data {
        Some(data) => Some(
            "data:"@ + text_or(opt_view(mime), "image/png"@) + ";base64,"@ + base64_encoding(data@),
        ),
        None => None,
    }
}

/// The formats of an old record: its listed format names (or `image`/`text`
/// when it lists none), with `image` added when it holds an image.
pub open spec fn legacy_formats(fields: Seq<(String, JsonValue)>, has_image: bool) -> Seq<Seq<char>> {
    let listed = json_texts(json_get(fields, "formats"@));
    let base = if listed.len() == 0 {
        seq![if has_image { "image"@ } else { "text"@ }]
    } else {
        listed
    };
    if has_image && !base.contains("image"@) {
        base.push("image"@)
    } else {
        base
    }
}

/// Why an old record cannot be read, checking its parts in order.
pub open spec fn legacy_error(row: LegacyRow) -> Option<Seq<char>> {
    match row.payload {
        Err(e) => Some("无法读取 legacy 剪贴板记录 "@ + row.id@ + ": "@ + e@),
        Ok(JsonValue::Object(fields)) => if json_text(json_get(fields@, "content"@)) is None {
            Some("legacy 剪贴板记录 "@ + row.id@ + " 缺少 content"@)
        } else {
            match row.files {
                Some(Err(e)) => Some("无法读取 legacy 文件记录 "@ + row.id@ + ": "@ + e@),
                _ => match row.omitted_formats {
                    Some(Err(e)) => Some("无法读取 legacy 省略格式 "@ + row.id@ + ": "@ + e@),
                    _ => None,
                },
            }
        },
        Ok(_) => Some("legacy 剪贴板记录 "@ + row.id@ + " 不是对象"@),
    }
}

/// The record an old row stands for (when [`legacy_error`] finds no problem).
pub open spec fn legacy_item_matches(row: LegacyRow, item: HistoryItem) -> bool {
    let fields = row.payload->Ok_0->Object_0@;
    let get = |key: Seq<char>| json_get(fields, key);
    let content = json_text(get("content"@))->0;
    let image_url = legacy_image_url(row);
    let copied_at = text_or(json_text(get("copiedAt"@)), "1970-01-01T00:00:00.000Z"@);
    &&& item.id@ == text_or(json_text(get("id"@)), row.id@)
    &&& item.kind@ == text_or(
        json_text(get("kind"@)),
        if image_url is Some {
            "image"@
        } else {
            "text"@
        },
    )
    &&& item.title@ == text_or(json_text(get("title"@)), title_prefix(content))
    &&& item.content@ == content
    &&& item.source_app@ == text_or(json_text(get("sourceApp"@)), seq![])
    &&& item.source_app_icon is None
    &&& item.copied_at@ == copied_at
    &&& item.updated_at@ == text_or(json_text(get("updatedAt"@)), copied_at)
    &&& item.pinned == (json_bool(get("pinned"@)) == Some(true))
    &&& item.permanent == (json_bool(get("permanent"@)) == Some(true))
    &&& opt_view(item.collection_id) == json_text(get("collectionId"@))
    &&& string_views(item.search_terms@) == json_texts(get("searchTerms"@))
    &&& opt_view(item.ocr_text) == json_text(get("ocrText"@))
    &&& opt_view(item.ocr_status) == json_text(get("ocrStatus"@))
    &&& opt_view(item.image_hash) == json_text(get("imageHash"@))
    &&& item.match_source is None
    &&& opt_view(item.color) == json_text(get("color"@))
    &&& opt_view(item.dimensions) == json_text(get("dimensions"@))
    &&& string_views(item.formats@) == legacy_formats(fields, image_url is Some)
    &&& item.omitted_formats@ == match row.omitted_formats {
        Some(Ok(v)) => v@,
        _ => seq![],
    }
    &&& item.payload_loaded
    &&& opt_view(item.html) == json_text(get("html"@))
    &&& opt_view(item.rtf_base64) == json_text(get("rtfBase64"@))
    &&& opt_view(item.image_url) == image_url
    &&& item.files@ == match row.files {
        Some(Ok(v)) => v@,
        _ => seq![],
    }
}

fn lookup<'a>(fields: &'a Vec<(String, JsonValue)>, key: &str) -> (out: Option<&'a JsonValue>)
    ensures
        match out {
            Some(v) => json_get(fields@, key@) == Some(*v),
            None => json_get(fields@, key@) is None,
        },
{
    let mut i: usize = 0;
    assert(fields@.skip(0) =~= fields@);
    while i < fields.len()
        invariant
            i <= fields@.len(),
            json_get(fields@, key@) == json_get(fields@.skip(i as int), key@),
        decreases fields@.len() - i,
    {
        assert(fields@.skip(i as int).drop_first() =~= fields@.skip(i + 1));
        if text_eq(fields[i].0.as_str(), key) {
            return Some(&fields[i].1);
        }
        i = i + 1;
    }
    None
}

fn text_of(v: Option<&JsonValue>) -> (out: Option<String>)
    ensures
        opt_view(out) == json_text(match v {
            Some(x) => Some(*x),
            None => None,
        }),
{
    match v {
        Some(JsonValue::Text(s)) => Some(s.clone()),
        _ => None,
    }
}

fn bool_of(v: Option<&JsonValue>) -> (out: bool)
    ensures
        out == (json_bool(match v {
            Some(x) => Some(*x),
            None => None,
        }) == Some(true)),
{
    match v {
        Some(JsonValue::Bool(b)) => *b,
        _ => false,
    }
}

fn texts_of(v: Option<&JsonValue>) -> (out: Vec<String>)
    ensures
        string_views(out@) == json_texts(match v {
            Some(x) => Some(*x),
            None => None,
        }),
{
    let mut out: Vec<String> = Vec::new();
    match v {
        Some(JsonValue::Array(items)) => {
            let mut i: usize = 0;
            while i < items.len()
                invariant
                    i <= items@.len(),
                    string_views(out@) == texts_among(items@.take(i as int)),
                decreases items@.len() - i,
            {
                assert(items@.take(i + 1).drop_last() =~= items@.take(i as int));
                let ghost before = out@;
                match &items[i] {
                    JsonValue::Text(s) => {
                        out.push(s.clone());
                        assert(string_views(out@) =~= string_views(before).push(s@));
                    },
                    _ => {},
                }
                assert(string_views(out@) =~= texts_among(items@.take(i + 1)));
                i = i + 1;
            }
            assert(items@.take(i as int) =~= items@);
            out
        },
        _ => {
            assert(string_views(out@) =~= Seq::<Seq<char>>::empty());
            out
        },
    }
}

fn text_or_str(v: Option<String>, default: &str) -> (out: String)
    ensures
        out@ == text_or(opt_view(v), default@),
{
    match v {
        Some(s) => s,
        None => String::from_str(default),
    }
}

fn first_chars(content: &str, count: usize) -> (out: String)
    requires
        count == 36,
    ensures
        out@ == title_prefix(content@),
{
    let chars = chars_of(content);
    let n = if chars.len() <= count {
        chars.len()
    } else {
        count
    };
    let mut taken: Vec<char> = Vec::new();
    let mut i: usize = 0;
    while i < n
        invariant
            i <= n <= chars@.len(),
            taken@ == chars@.take(i as int),
        decreases n - i,
    {
        taken.push(chars[i]);
        assert(chars@.take(i + 1) =~= chars@.take(i as int).push(chars@[i as int]));
        i = i + 1;
    }
    assert(chars@.take(n as int) =~= title_prefix(content@));
    string_from_chars(&taken)
}

fn error_with(prefix: &str, id: &str, middle: &str, detail: &str) -> (out: String)
    ensures
        out@ == prefix@ + id@ + middle@ + detail@,
{
    let mut s = String::from_str(prefix);
    s.append(id);
    s.append(middle);
    s.append(detail);
    s
}

fn contains_image(list: &Vec<String>) -> (b: bool)
    ensures
        b == string_views(list@).contains("image"@),
{
    let mut i: usize = 0;
    while i < list.len()
        invariant
            i <= list@.len(),
            forall|k: int| 0 <= k < i ==> list@[k]@ != "image"@,
        decreases list@.len() - i,
    {
        if text_eq(list[i].as_str(), "image") {
            assert(string_views(list@)[i as int] == "image"@);
            return true;
        }
        i = i + 1;
    }
    assert forall|k: int| 0 <= k < string_views(list@).len() implies string_views(list@)[k]
        != "image"@ by {
        assert(string_views(list@)[k] == list@[k]@);
    }
    false
}

fn image_url_of(mime: &Option<String>, data: &Option<Vec<u8>>) -> (out: Option<String>)
    requires
        data matches Some(d) ==> d@.len() <= usize::MAX / 2,
    ensures
        opt_view(out) == image_data_url(*mime, *data),
{
    match data {
        Some(data) => {
            let mime = match mime {
                Some(m) => m.clone(),
                None => String::from_str("image/png"),
            };
            let mut url = String::from_str("data:");
            url.append(mime.as_str());
            url.append(";base64,");
            let body = base64_encode(data.as_slice());
            url.append(body.as_str());
            Some(url)
        },
        None => None,
    }
}

fn formats_of(fields: &Vec<(String, JsonValue)>, has_image: bool) -> (out: Vec<String>)
    ensures
        string_views(out@) == legacy_formats(fields@, has_image),
{
    let mut formats = texts_of(lookup(fields, "formats"));
    let ghost listed = string_views(formats@);
    if formats.len() == 0 {
        let name = String::from_str(if has_image { "image" } else { "text" });
        formats.push(name);
        assert(string_views(formats@) =~= seq![if has_image { "image"@ } else { "text"@ }]);
    }
    let ghost base = string_views(formats@);
    assert(base == if listed.len() == 0 {
        seq![if has_image { "image"@ } else { "text"@ }]
    } else {
        listed
    });
    if has_image && !contains_image(&formats) {
        formats.push(String::from_str("image"));
        assert(string_views(formats@) =~= base.push("image"@));
    }
    formats
}

/// Reads a record of the old history table (see [`legacy_error`] and [`legacy_item_matches`]).
#[verifier::rlimit(40)]
pub fn history_item_from_legacy(row: LegacyRow) -> (out: Result<HistoryItem, String>)
    requires
        row.image_data matches Some(data) ==> data@.len() <= usize::MAX / 2,
    ensures
        match legacy_error(row) {
            Some(message) => out matches Err(e) && e@ == message,
            None => out matches Ok(item) && legacy_item_matches(row, item),
        },
{
    proof {
        reveal_strlit("");
        assert(""@ =~= Seq::<char>::empty());
    }
    let LegacyRow { id, payload, image_mime, image_data, files, omitted_formats } = row;
    let fields = match payload {
        Err(e) => return Err(error_with("无法读取 legacy 剪贴板记录 ", id.as_str(), ": ", e.as_str())),
        Ok(JsonValue::Object(fields)) => fields,
        Ok(_) => return Err(error_with("legacy 剪贴板记录 ", id.as_str(), " 不是对象", "")),
    };
    let content = match text_of(lookup(&fields, "content")) {
        Some(c) => c,
        None => return Err(error_with("legacy 剪贴板记录 ", id.as_str(), " 缺少 content", "")),
    };
    let files: Vec<ClipboardFile> = match files {
        Some(Err(e)) => return Err(error_with("无法读取 legacy 文件记录 ", id.as_str(), ": ", e.as_str())),
        Some(Ok(v)) => v,
        None => Vec::new(),
    };
    let omitted_formats: Vec<ClipboardFormat> = match omitted_formats {
        Some(Err(e)) => return Err(error_with("无法读取 legacy 省略格式 ", id.as_str(), ": ", e.as_str())),
        Some(Ok(v)) => v,
        None => Vec::new(),
    };
    let image_url = image_url_of(&image_mime, &image_data);
    let has_image = image_url.is_some();
    let formats = formats_of(&fields, has_image);
    let copied_at = text_or_str(text_of(lookup(&fields, "copiedAt")), "1970-01-01T00:00:00.000Z");
    let title = match text_of(lookup(&fields, "title")) {
        Some(t) => t,
        None => first_chars(content.as_str(), 36),
    };
    let updated_at = text_or_str(text_of(lookup(&fields, "updatedAt")), copied_at.as_str());
    let item = HistoryItem {
        id: text_or_str(text_of(lookup(&fields, "id")), id.as_str()),
        kind: text_or_str(text_of(lookup(&fields, "kind")), if has_image { "image" } else { "text" }),
        title,
        content,
        source_app: text_or_str(text_of(lookup(&fields, "sourceApp")), ""),
        source_app_icon: None,
        copied_at,
        updated_at,
        pinned: bool_of(lookup(&fields, "pinned")),
        permanent: bool_of(lookup(&fields, "permanent")),
        collection_id: text_of(lookup(&fields, "collectionId")),
        search_terms: texts_of(lookup(&fields, "searchTerms")),
        ocr_text: text_of(lookup(&fields, "ocrText")),
        ocr_status: text_of(lookup(&fields, "ocrStatus")),
        image_hash: text_of(lookup(&fields, "imageHash")),
        match_source: None,
        color: text_of(lookup(&fields, "color")),
        dimensions: text_of(lookup(&fields, "dimensions")),
        formats,
        omitted_formats,
        payload_loaded: true,
        html: text_of(lookup(&fields, "html")),
        rtf_base64: text_of(lookup(&fields, "rtfBase64")),
        image_url,
        files,
    };
    Ok(item)
}

/// An old record keeps its stored text title; without one it is titled by
/// the start of its body: its first 36 characters, or the whole body when it
/// is no longer.
pub proof fn lemma_legacy_title_defaults_to_body_start(row: LegacyRow, item: HistoryItem)
    requires
        legacy_error(row) is None,
        legacy_item_matches(row, item),
    ensures
        json_text(json_get(row.payload->Ok_0->Object_0@, "title"@)) matches Some(t) ==> item.title@
            == t,
        json_text(json_get(row.payload->Ok_0->Object_0@, "title"@)) is None ==> {
            &&& item.title@.len() == if item.content@.len() <= 36 {
                item.content@.len()
            } else {
                36
            }
            &&& forall|i: int| 0 <= i < item.title@.len() ==> item.title@[i] == item.content@[i]
        },
{
}

} // verus!
