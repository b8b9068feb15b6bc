use image::{DynamicImage, ImageFormat, RgbaImage};
use quickpaste_history::health::HistoryOpenFailure;
use quickpaste_history::identity::{
    classify_database_identity, initialization_error, is_current_database, open_identity_failure,
    restore_source_error, DatabaseIdentity, APPLICATION_ID, SCHEMA_VERSION,
};
use quickpaste_history::restore::{
    restore_commit_revision, restored_record_error, restored_thumbnail_ok,
    restored_thumbnail_row_ok,
};
use quickpaste_history::types::{ClipboardFile, HistoryItem, HistoryReadOnlyReason};
use std::io::Cursor;

fn record(id: &str, copied_at: &str) -> HistoryItem {
    HistoryItem {
        id: id.into(),
        kind: "text".into(),
        title: "标题".into(),
        content: format!("正文 {id}"),
        source_app: "Test App".into(),
        source_app_icon: None,
        copied_at: copied_at.into(),
        updated_at: copied_at.into(),
        pinned: false,
        permanent: false,
        collection_id: None,
        search_terms: Vec::new(),
        ocr_text: None,
        ocr_status: None,
        image_hash: None,
        match_source: None,
        color: None,
        dimensions: None,
        formats: vec!["text".into()],
        omitted_formats: Vec::new(),
        payload_loaded: true,
        html: None,
        rtf_base64: None,
        image_url: None,
        files: Vec::new(),
    }
}

fn png_bytes(width: u32, height: u32) -> Vec<u8> {
    let image = RgbaImage::from_pixel(width, height, image::Rgba([10, 20, 30, 255]));
    let mut cursor = Cursor::new(Vec::new());
    DynamicImage::ImageRgba8(image)
        .write_to(&mut cursor, ImageFormat::Png)
        .expect("encode png");
    cursor.into_inner()
}

#[test]
fn database_headers_are_classified() {
    assert_eq!(
        classify_database_identity(APPLICATION_ID, SCHEMA_VERSION),
        DatabaseIdentity::Current
    );
    assert_eq!(classify_database_identity(0, 0), DatabaseIdentity::Migratable);
    assert_eq!(
        classify_database_identity(APPLICATION_ID, 3),
        DatabaseIdentity::Migratable
    );
    assert_eq!(classify_database_identity(7, 0), DatabaseIdentity::ForeignApplication);
    assert_eq!(classify_database_identity(0, 12), DatabaseIdentity::NewerSchema);
    assert_eq!(APPLICATION_ID, 0x5150_5354);
    assert_eq!(SCHEMA_VERSION, 11);
}

#[test]
fn initialization_refuses_foreign_and_newer_databases() {
    assert_eq!(initialization_error(APPLICATION_ID, SCHEMA_VERSION), None);
    assert_eq!(initialization_error(0, 0), None);
    assert_eq!(
        initialization_error(42, 1).as_deref(),
        Some("不是 QuickPaste 历史数据库")
    );
    assert_eq!(
        initialization_error(APPLICATION_ID, 12).as_deref(),
        Some("历史数据库版本 12 高于当前版本")
    );
    assert!(is_current_database(APPLICATION_ID, SCHEMA_VERSION));
    assert!(!is_current_database(0, SCHEMA_VERSION));
    assert!(!is_current_database(APPLICATION_ID, 10));
}

#[test]
fn opening_foreign_or_newer_databases_is_read_only() {
    assert!(matches!(
        open_identity_failure(9, 1),
        Some(HistoryOpenFailure::ReadOnly(HistoryReadOnlyReason::Incompatible))
    ));
    assert!(matches!(
        open_identity_failure(APPLICATION_ID, 99),
        Some(HistoryOpenFailure::ReadOnly(HistoryReadOnlyReason::Incompatible))
    ));
    assert!(open_identity_failure(0, 0).is_none());
    assert!(open_identity_failure(APPLICATION_ID, 5).is_none());
}

#[test]
fn restore_sources_need_this_application_and_a_known_schema() {
    assert_eq!(
        restore_source_error(0, 5).as_deref(),
        Some("不是 QuickPaste 历史备份")
    );
    assert_eq!(
        restore_source_error(APPLICATION_ID, 12).as_deref(),
        Some("历史恢复文件版本高于当前版本")
    );
    assert_eq!(restore_source_error(APPLICATION_ID, 4), None);
}

#[test]
fn restored_records_need_canonical_times_and_their_own_size() {
    let item = record("r1", "2026-07-01T00:00:00.000Z");
    // "正文 r1" is 9 bytes of UTF-8.
    assert_eq!(restored_record_error(&item, 9), None);
    assert_eq!(
        restored_record_error(&item, 10).as_deref(),
        Some("历史恢复文件包含无效记录")
    );
    assert_eq!(
        restored_record_error(&item, -1).as_deref(),
        Some("历史恢复文件包含无效记录")
    );

    let shifted = record("r1", "2026-07-01T08:00:00.000+08:00");
    assert_eq!(
        restored_record_error(&shifted, 9).as_deref(),
        Some("历史恢复文件包含无效记录")
    );

    let mut with_file = record("r1", "2026-07-01T00:00:00.000Z");
    with_file.files.push(ClipboardFile {
        path: "C:/a.txt".into(),
        name: "a.txt".into(),
        extension: None,
        size: None,
        modified_at: Some("2026-07-01T00:00:00Z".into()),
        directory: false,
        exists: true,
    });
    assert_eq!(
        restored_record_error(&with_file, 9 + 8 + 5 + 20).as_deref(),
        Some("历史恢复文件包含无效记录")
    );
    with_file.files[0].modified_at = Some("2026-07-01T00:00:00.000Z".into());
    assert_eq!(restored_record_error(&with_file, 9 + 8 + 5 + 24), None);

    let mut bad_rtf = record("r1", "2026-07-01T00:00:00.000Z");
    bad_rtf.rtf_base64 = Some("@@@@".into());
    let message = restored_record_error(&bad_rtf, 9).expect("refused");
    assert_ne!(message, "历史恢复文件包含无效记录");
}

#[test]
fn restored_thumbnail_rows_are_checked() {
    assert!(restored_thumbnail_row_ok("image", "blob", Some(120)));
    assert!(!restored_thumbnail_row_ok("text", "blob", Some(120)));
    assert!(!restored_thumbnail_row_ok("image", "text", Some(120)));
    assert!(!restored_thumbnail_row_ok("image", "blob", None));
    assert!(!restored_thumbnail_row_ok("image", "blob", Some(0)));
    assert!(restored_thumbnail_row_ok("image", "blob", Some(65_536)));
    assert!(!restored_thumbnail_row_ok("image", "blob", Some(65_537)));

    let png = png_bytes(8, 8);
    let length = png.len() as i64;
    assert!(restored_thumbnail_ok(length, &png));
    assert!(!restored_thumbnail_ok(length + 1, &png));
    let large = png_bytes(200, 8);
    assert!(!restored_thumbnail_ok(large.len() as i64, &large));
}

#[test]
fn restore_commits_only_on_the_captured_revision() {
    assert_eq!(restore_commit_revision(4, 4), Ok(5));
    assert_eq!(
        restore_commit_revision(5, 4),
        Err("准备恢复后历史记录已发生变化".to_owned())
    );
    assert_eq!(
        restore_commit_revision(i64::MAX, i64::MAX),
        Err("历史修订号已耗尽".to_owned())
    );
}
