use base64::engine::general_purpose::STANDARD;
use base64::Engine;
use image::{DynamicImage, ImageFormat, RgbaImage};
use quickpaste_history::collection::{
    normalize_collection_name, normalize_snippet_draft, validate_collection,
};
use quickpaste_history::formats::{canonical_actual_formats, canonical_omitted_formats};
use quickpaste_history::item::{normalize_history_item, validate_history_item};
use quickpaste_history::mutation::{
    check_mutation_upsert, merge_same_image, removed_ids, same_image_state_of, SameImageRow,
};
use quickpaste_history::ocr::ocr_text_is_canonical;
use quickpaste_history::payload::{
    canonical_formats, check_stored_omitted_formats, data_url_parts, data_url_parts_with_limit,
    decode_base64_with_limit, logical_bytes, persisted_format_blob_length_is_safe,
    persisted_plain_text_length_is_safe, safe_icon_data_url, source_app_icon_png_from_data_url,
    source_app_icon_png_is_safe, stored_file_size,
};
use quickpaste_history::types::{
    ClipboardFile, ClipboardFormat, Collection, HistoryItem, HistoryMatchSource, SnippetDraft,
};
use std::io::Cursor;

fn text_item(id: &str, copied_at: &str) -> HistoryItem {
    HistoryItem {
        id: id.into(),
        kind: "text".into(),
        title: format!("标题 {id}"),
        content: format!("正文 {id}"),
        source_app: "Test App".into(),
        source_app_icon: None,
        copied_at: copied_at.into(),
        updated_at: copied_at.into(),
        pinned: false,
        permanent: false,
        collection_id: None,
        search_terms: vec!["test".into()],
        ocr_text: None,
        ocr_status: None,
        image_hash: None,
        match_source: None,
        color: None,
        dimensions: None,
        formats: vec!["text".into()],
        omitted_formats: Vec::new(),
        payload_loaded: true,
        html: None,
        rtf_base64: None,
        image_url: None,
        files: Vec::new(),
    }
}

fn png_bytes(width: u32, height: u32) -> Vec<u8> {
    let image = RgbaImage::from_pixel(width, height, image::Rgba([10, 20, 30, 255]));
    let mut cursor = Cursor::new(Vec::new());
    DynamicImage::ImageRgba8(image)
        .write_to(&mut cursor, ImageFormat::Png)
        .expect("encode png");
    cursor.into_inner()
}

fn image_item(id: &str, bytes: &[u8]) -> HistoryItem {
    let mut item = text_item(id, "2026-07-01T00:00:00.000Z");
    item.kind = "image".into();
    item.formats = vec!["image".into()];
    item.image_url = Some(format!("data:image/png;base64,{}", STANDARD.encode(bytes)));
    item
}

fn file(path: &str, name: &str) -> ClipboardFile {
    ClipboardFile {
        path: path.into(),
        name: name.into(),
        extension: Some("txt".into()),
        size: Some(3),
        modified_at: None,
        directory: false,
        exists: true,
    }
}

#[test]
fn valid_records_pass_and_each_rule_names_its_problem() {
    assert!(validate_history_item(&text_item("a", "2026-07-01T00:00:00.000Z")).is_ok());
    let mut item = text_item("a", "2026-07-01T00:00:00.000Z");
    item.match_source = Some(HistoryMatchSource::Direct);
    assert_eq!(
        validate_history_item(&item).unwrap_err(),
        "完整剪贴板记录不能携带查询命中来源"
    );
    let mut item = text_item("a", "2026-07-01T00:00:00.000Z");
    item.content = "x".repeat(8 * 1024 * 1024 + 1);
    assert_eq!(validate_history_item(&item).unwrap_err(), "纯文本正文超过 8 MiB 限制");
    let mut item = text_item("a", "2026-07-01T00:00:00.000Z");
    item.ocr_status = Some("pending".into());
    assert_eq!(
        validate_history_item(&item).unwrap_err(),
        "只有图片记录可以携带 OCR 数据"
    );
    let mut item = text_item("a", "2026-07-01T00:00:00.000Z");
    item.ocr_status = Some("done".into());
    assert_eq!(validate_history_item(&item).unwrap_err(), "OCR 状态无效");
    let mut item = text_item("a", "2026-07-01T00:00:00.000Z");
    item.formats = vec!["text".into(), "text".into()];
    assert_eq!(validate_history_item(&item).unwrap_err(), "剪贴板记录格式不能重复");
    let mut item = text_item("a", "2026-07-01T00:00:00.000Z");
    item.omitted_formats = vec![ClipboardFormat::Text];
    assert_eq!(
        validate_history_item(&item).unwrap_err(),
        "已保存格式与省略格式不能重叠"
    );
    let mut item = text_item("a", "2026-07-01T00:00:00.000Z");
    item.html = Some("<b>x</b>".into());
    assert_eq!(
        validate_history_item(&item).unwrap_err(),
        "HTML 正文缺少 html 格式声明"
    );
    item.formats.push("html".into());
    assert!(validate_history_item(&item).is_ok());
    let mut item = text_item("a", "2026-07-01T00:00:00.000Z");
    item.kind = "video".into();
    assert_eq!(validate_history_item(&item).unwrap_err(), "剪贴板记录类型不支持");
    let mut item = text_item("a", "2026-07-01T00:00:00.000Z");
    item.payload_loaded = false;
    assert_eq!(
        validate_history_item(&item).unwrap_err(),
        "摘要记录不能携带未加载的正文或搜索载荷"
    );
    item.search_terms.clear();
    assert!(validate_history_item(&item).is_ok());
    let mut item = text_item("a", "2026-07-01T00:00:00.000Z");
    item.permanent = true;
    item.kind = "link".into();
    assert_eq!(
        validate_history_item(&item).unwrap_err(),
        "永久片段必须是纯文本 text/code 记录"
    );
    let mut item = text_item("f", "2026-07-01T00:00:00.000Z");
    item.kind = "file".into();
    item.formats = vec!["files".into()];
    assert_eq!(
        validate_history_item(&item).unwrap_err(),
        "文件记录必须包含非空 files 且只声明 files 格式"
    );
    item.files = vec![file("C:/a.txt", "a.txt")];
    assert!(validate_history_item(&item).is_ok());
    item.files[0].size = Some(9_007_199_254_740_992);
    assert_eq!(
        validate_history_item(&item).unwrap_err(),
        "文件大小超出前端安全整数范围"
    );
}

#[test]
fn image_records_keep_hash_and_ocr_consistent() {
    let hash = "ab".repeat(32);
    let mut item = image_item("img", &png_bytes(2, 2));
    assert!(validate_history_item(&item).is_ok());
    item.image_hash = Some(hash.to_uppercase());
    assert_eq!(validate_history_item(&item).unwrap_err(), "图片哈希无效");
    item.image_hash = Some(hash.clone());
    item.ocr_status = Some("completed".into());
    assert_eq!(
        validate_history_item(&item).unwrap_err(),
        "已完成 OCR 的图片载荷无效"
    );
    item.ocr_text = Some("recognised".into());
    assert!(validate_history_item(&item).is_ok());
    item.ocr_status = Some("pending".into());
    assert_eq!(
        validate_history_item(&item).unwrap_err(),
        "图片 OCR 状态和正文不一致"
    );
    item.ocr_status = None;
    item.image_hash = None;
    assert_eq!(validate_history_item(&item).unwrap_err(), "OCR 正文缺少状态");
    assert!(ocr_text_is_canonical("line one\r\nline two"));
    assert!(!ocr_text_is_canonical("lone\nfeed"));
    assert!(!ocr_text_is_canonical("nul\0byte"));
}

#[test]
fn normalization_orders_formats_and_fills_timestamps() {
    let mut item = text_item("a", "2026-07-01T08:00:00+08:00");
    item.formats = vec!["rtf".into(), "text".into(), "html".into()];
    item.omitted_formats = vec![ClipboardFormat::Object, ClipboardFormat::Image];
    item.updated_at = " \n".into();
    let normalized = normalize_history_item(item).expect("normalize");
    assert_eq!(normalized.formats, vec!["text", "html", "rtf"]);
    assert_eq!(
        normalized.omitted_formats,
        vec![ClipboardFormat::Image, ClipboardFormat::Object]
    );
    assert_eq!(normalized.copied_at, "2026-07-01T00:00:00.000Z");
    assert_eq!(normalized.updated_at, "2026-07-01T00:00:00.000Z");
    let mut summary = text_item("a", "2026-07-01T00:00:00.000Z");
    summary.payload_loaded = false;
    summary.updated_at = String::new();
    assert_eq!(normalize_history_item(summary).expect("summary").updated_at, "");
    let mut bad = text_item("a", "2026-07-01T00:00:00.000Z");
    bad.formats = vec!["pdf".into()];
    assert_eq!(
        normalize_history_item(bad).unwrap_err(),
        "剪贴板记录包含不支持的格式"
    );
    let mut repeated = text_item("a", "2026-07-01T00:00:00.000Z");
    repeated.omitted_formats = vec![ClipboardFormat::Rtf, ClipboardFormat::Rtf];
    assert_eq!(normalize_history_item(repeated).unwrap_err(), "省略格式不能重复");
    assert_eq!(
        canonical_actual_formats(&["files".into(), "image".into()]).expect("formats"),
        vec!["image", "files"]
    );
    assert_eq!(
        canonical_actual_formats(&["text".into(), "text".into()]).unwrap_err(),
        "剪贴板记录格式不能重复"
    );
    assert_eq!(
        canonical_omitted_formats(&[ClipboardFormat::Files, ClipboardFormat::Text])
            .expect("omitted"),
        vec![ClipboardFormat::Text, ClipboardFormat::Files]
    );
    assert_eq!(ClipboardFormat::Rtf.as_str(), "rtf");
    assert_eq!(ClipboardFormat::Object.as_str(), "object");
}

#[test]
fn normalizing_a_normalized_record_changes_nothing() {
    let mut item = text_item("a", "2026-07-01T08:00:00.5+08:00");
    item.formats = vec!["html".into(), "text".into()];
    item.omitted_formats = vec![ClipboardFormat::Rtf, ClipboardFormat::Image];
    item.updated_at = "2026-07-02T01:02:03Z".into();
    let once = normalize_history_item(item).expect("first normalization");
    assert_eq!(once.copied_at, "2026-07-01T00:00:00.500Z");
    assert_eq!(once.updated_at, "2026-07-02T01:02:03.000Z");
    let twice = normalize_history_item(once.clone()).expect("second normalization");
    assert_eq!(format!("{twice:?}"), format!("{once:?}"));
}

#[test]
fn stored_formats_follow_bodies_in_string_order() {
    let mut item = text_item("a", "2026-07-01T00:00:00.000Z");
    item.formats = Vec::new();
    item.rtf_base64 = Some("e30=".into());
    item.html = Some("<p>".into());
    assert_eq!(canonical_formats(&item).expect("formats"), vec!["html", "rtf", "text"]);
    let mut files_only = text_item("f", "2026-07-01T00:00:00.000Z");
    files_only.kind = "file".into();
    files_only.formats = vec!["files".into()];
    assert_eq!(canonical_formats(&files_only).expect("files"), Vec::<String>::new());
    let mut nothing = text_item("n", "2026-07-01T00:00:00.000Z");
    nothing.formats = vec!["files".into()];
    nothing.kind = "text".into();
    assert_eq!(canonical_formats(&nothing).expect("files declared"), Vec::<String>::new());
    let mut unknown = text_item("u", "2026-07-01T00:00:00.000Z");
    unknown.formats = vec!["pdf".into()];
    assert_eq!(
        canonical_formats(&unknown).unwrap_err(),
        "剪贴板记录包含不支持的格式"
    );
    let image = image_item("i", &[1, 2, 3]);
    assert_eq!(canonical_formats(&image).expect("image"), vec!["image"]);
}

#[test]
fn persisted_body_lengths_are_rejected_before_sqlite_copies_the_blob_or_text() {
    let max_format_bytes: i64 = 8 * 1024 * 1024;
    let image_max_bytes: i64 = 64 * 1024 * 1024;
    assert!(persisted_plain_text_length_is_safe(max_format_bytes));
    assert!(!persisted_plain_text_length_is_safe(max_format_bytes + 1));
    assert!(persisted_format_blob_length_is_safe("html", Some(max_format_bytes)));
    assert!(!persisted_format_blob_length_is_safe("rtf", Some(max_format_bytes + 1)));
    assert!(persisted_format_blob_length_is_safe("image", Some(image_max_bytes)));
    assert!(!persisted_format_blob_length_is_safe("image", Some(image_max_bytes + 1)));
    assert!(!persisted_format_blob_length_is_safe("image", Some(-1)));
    assert!(persisted_format_blob_length_is_safe("text", None));
    assert!(!persisted_format_blob_length_is_safe("text", Some(0)));
    assert!(!persisted_format_blob_length_is_safe("files", None));
    assert!(!persisted_plain_text_length_is_safe(-1));
}

#[test]
fn base64_bodies_decode_within_their_limits() {
    assert_eq!(
        decode_base64_with_limit("aGVsbG8=", 5, "正文").expect("decode"),
        b"hello".to_vec()
    );
    assert_eq!(
        decode_base64_with_limit("aGVsbG8=", 4, "正文").unwrap_err(),
        "正文超过 0 MiB 限制"
    );
    assert_eq!(
        decode_base64_with_limit("aGVsbG8hIQ==", 5, "正文").unwrap_err(),
        "正文超过 0 MiB 限制"
    );
    let big = 3 * 1024 * 1024;
    let text = STANDARD.encode(vec![0_u8; big + 3]);
    assert_eq!(
        decode_base64_with_limit(&text, big, "RTF 格式").unwrap_err(),
        "RTF 格式超过 3 MiB 限制"
    );
    assert!(decode_base64_with_limit("***", 10, "正文").is_err());
    let (mime, bytes) = data_url_parts("data:image/gif;base64,R0lG").expect("parts");
    assert_eq!(mime, "image/gif");
    assert_eq!(bytes, vec![0x47, 0x49, 0x46]);
    assert_eq!(
        data_url_parts("data:image/png;base64").unwrap_err(),
        "图片数据 URL 缺少正文"
    );
    assert_eq!(
        data_url_parts("data:;base64,AAAA").unwrap_err(),
        "图片数据 URL 格式无效"
    );
    assert_eq!(
        data_url_parts("image/png;base64,AAAA").unwrap_err(),
        "图片数据 URL 格式无效"
    );
    assert_eq!(
        data_url_parts_with_limit("data:a;base64,AAAA", 2).unwrap_err(),
        "图片正文超过 0 MiB 限制"
    );
}

#[test]
fn icons_must_be_64_pixel_pngs() {
    let icon = png_bytes(64, 64);
    assert!(source_app_icon_png_is_safe(&icon));
    assert!(!source_app_icon_png_is_safe(&png_bytes(32, 32)));
    let mut truncated = icon.clone();
    truncated.truncate(30);
    assert!(!source_app_icon_png_is_safe(&truncated));
    let url = format!("data:image/png;base64,{}", STANDARD.encode(&icon));
    assert_eq!(source_app_icon_png_from_data_url(&url), Some(icon.clone()));
    assert_eq!(source_app_icon_png_from_data_url("data:image/png;base64,"), None);
    assert_eq!(
        source_app_icon_png_from_data_url(&url.replace("image/png", "image/gif")),
        None
    );
    assert_eq!(safe_icon_data_url(Some(icon.clone())), Some(url));
    assert_eq!(safe_icon_data_url(Some(vec![1, 2, 3])), None);
    assert_eq!(safe_icon_data_url(None), None);
}

#[test]
fn logical_bytes_count_text_bodies_and_file_entries() {
    let mut item = text_item("a", "2026-07-01T00:00:00.000Z");
    item.content = "héllo".into();
    item.html = Some("<p>".into());
    item.rtf_base64 = Some(STANDARD.encode(b"{\\rtf}"));
    item.files = vec![ClipboardFile {
        path: "C:/x".into(),
        name: "x".into(),
        extension: Some("md".into()),
        size: None,
        modified_at: Some("2026".into()),
        directory: false,
        exists: true,
    }];
    assert_eq!(logical_bytes(&item).expect("bytes"), 6 + 3 + 6 + 4 + 1 + 2 + 4);
    item.rtf_base64 = Some("!!".into());
    assert!(logical_bytes(&item).is_err());
}

#[test]
fn stored_values_are_checked_when_read() {
    assert!(check_stored_omitted_formats(&[ClipboardFormat::Text, ClipboardFormat::Image]).is_ok());
    assert_eq!(
        check_stored_omitted_formats(&[ClipboardFormat::Image, ClipboardFormat::Text]).unwrap_err(),
        "省略格式顺序不是规范顺序"
    );
    assert_eq!(
        check_stored_omitted_formats(&[ClipboardFormat::Html, ClipboardFormat::Html]).unwrap_err(),
        "省略格式不能重复"
    );
    assert_eq!(stored_file_size(None).expect("absent"), None);
    assert_eq!(stored_file_size(Some(12)).expect("size"), Some(12));
    assert_eq!(
        stored_file_size(Some(-1)).unwrap_err(),
        "文件大小超出前端安全整数范围"
    );
}

#[test]
fn collections_and_snippets_are_checked() {
    assert_eq!(
        normalize_collection_name("  工作\u{feff} ").expect("name"),
        "工作"
    );
    assert_eq!(normalize_collection_name(" \u{0085} ").unwrap_err(), "集合名称无效");
    assert_eq!(normalize_collection_name("a\u{0007}b").unwrap_err(), "集合名称无效");
    assert!(normalize_collection_name(&"😀".repeat(256)).is_ok());
    assert!(normalize_collection_name(&"😀".repeat(257)).is_err());
    let collection = Collection {
        id: "collection-1".into(),
        name: "工作".into(),
        created_at: "2026-07-01T00:00:00.000Z".into(),
        updated_at: "2026-07-02T00:00:00.000Z".into(),
        sort_order: -9_007_199_254_740_991,
    };
    assert!(validate_collection(&collection).is_ok());
    let mut reversed = collection.clone();
    reversed.updated_at = "2026-06-30T00:00:00.000Z".into();
    assert_eq!(validate_collection(&reversed).unwrap_err(), "集合数据无效");
    let mut untrimmed = collection.clone();
    untrimmed.name = " 工作".into();
    assert!(validate_collection(&untrimmed).is_err());
    let mut huge = collection.clone();
    huge.sort_order = 9_007_199_254_740_992;
    assert!(validate_collection(&huge).is_err());
    let draft = SnippetDraft {
        id: None,
        title: "  Title ".into(),
        content: "body".into(),
        collection_id: Some("c1".into()),
        kind: "code".into(),
    };
    let normalized = normalize_snippet_draft(draft.clone()).expect("draft");
    assert_eq!(normalized.title, "Title");
    assert_eq!(normalized.kind, "code");
    let mut blank = draft.clone();
    blank.content = " \u{feff}".into();
    assert_eq!(normalize_snippet_draft(blank).unwrap_err(), "片段正文不能为空");
    let mut link = draft.clone();
    link.kind = "link".into();
    assert_eq!(
        normalize_snippet_draft(link).unwrap_err(),
        "片段类型必须是 text 或 code"
    );
    let mut bad_id = draft.clone();
    bad_id.id = Some(" x".into());
    bad_id.title = String::new();
    assert_eq!(normalize_snippet_draft(bad_id).unwrap_err(), "片段标识无效");
    let mut bad_title = draft;
    bad_title.title = "\u{0001}".into();
    assert_eq!(normalize_snippet_draft(bad_title).unwrap_err(), "片段标题无效");
}

#[test]
fn mutation_upserts_fold_in_earlier_image_copies() {
    let rows = vec![
        SameImageRow {
            id: "newest".into(),
            pinned: false,
            collection_id: None,
            ocr_status: Some("failed".into()),
            ocr_text: None,
        },
        SameImageRow {
            id: "incoming".into(),
            pinned: false,
            collection_id: Some("ignored".into()),
            ocr_status: Some("unavailable".into()),
            ocr_text: None,
        },
        SameImageRow {
            id: "older".into(),
            pinned: true,
            collection_id: Some("c2".into()),
            ocr_status: Some("completed".into()),
            ocr_text: Some("text".into()),
        },
    ];
    let hash = "ab".repeat(32);
    let state = same_image_state_of("incoming", &hash, &rows);
    assert_eq!(state.duplicate_ids, vec!["newest", "older"]);
    assert!(state.pinned);
    assert_eq!(state.collection_id.as_deref(), Some("c2"));
    assert_eq!(state.terminal_ocr, Some(("unavailable".to_owned(), None)));
    let none = same_image_state_of("incoming", "not-a-hash", &rows);
    assert!(none.duplicate_ids.is_empty());
    let mut item = image_item("incoming", &[1, 2, 3]);
    item.image_hash = Some(hash.clone());
    item.ocr_status = Some("pending".into());
    let merged = merge_same_image(item, state);
    assert!(merged.pinned);
    assert_eq!(merged.collection_id.as_deref(), Some("c2"));
    assert_eq!(merged.ocr_status.as_deref(), Some("unavailable"));
    assert_eq!(merged.ocr_text, None);
    let checked = check_mutation_upsert(
        text_item("a", "2026-07-01T08:00:00+08:00"),
        &vec!["b".into()],
    )
    .expect("upsert");
    assert_eq!(checked.copied_at, "2026-07-01T00:00:00.000Z");
    assert_eq!(
        check_mutation_upsert(text_item("a", "2026-07-01T00:00:00.000Z"), &vec!["a".into()])
            .unwrap_err(),
        "同一记录不能同时删除和更新"
    );
    let mut summary = text_item("s", "2026-07-01T00:00:00.000Z");
    summary.payload_loaded = false;
    summary.search_terms.clear();
    summary.source_app_icon = Some("data:image/png;base64,AAAA".into());
    assert_eq!(
        check_mutation_upsert(summary, &Vec::new()).unwrap_err(),
        "摘要写入不能携带来源应用图标"
    );
    assert_eq!(
        removed_ids(&vec!["z".into(), "a".into()], &vec!["m".into(), "a".into()]),
        vec!["a", "m", "z"]
    );
}
