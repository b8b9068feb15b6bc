use base64::engine::general_purpose::STANDARD;
use base64::Engine;
use quickpaste_history::collection::{
    check_editable_snippet, next_sort_order, snippet_item,
};
use quickpaste_history::cursor::decode_cursor;
use quickpaste_history::ocr::{ocr_source_state, OcrSourceState};
use quickpaste_history::pages::{check_pending_ocr_limit, history_page, pending_ocr_page};
use quickpaste_history::types::{HistoryItem, HistoryMatchSource, SnippetDraft};

const HASH_A: &str = "aaaaaaaaaaaaaaaaaaaaaaaaaaaaaaaaaaaaaaaaaaaaaaaaaaaaaaaaaaaaaaaa";
const HASH_B: &str = "bbbbbbbbbbbbbbbbbbbbbbbbbbbbbbbbbbbbbbbbbbbbbbbbbbbbbbbbbbbbbbbb";

fn summary(id: &str, copied_at: &str, title: &str) -> HistoryItem {
    HistoryItem {
        id: id.into(),
        kind: "text".into(),
        title: title.into(),
        content: format!("正文 {id}"),
        source_app: "Test App".into(),
        source_app_icon: None,
        copied_at: copied_at.into(),
        updated_at: copied_at.into(),
        pinned: false,
        permanent: false,
        collection_id: None,
        search_terms: Vec::new(),
        ocr_text: None,
        ocr_status: None,
        image_hash: None,
        match_source: None,
        color: None,
        dimensions: None,
        formats: vec!["text".into()],
        omitted_formats: Vec::new(),
        payload_loaded: true,
        html: None,
        rtf_base64: None,
        image_url: None,
        files: Vec::new(),
    }
}

fn row(id: &str, hash: &str, copied_at: &str) -> (String, String, String) {
    (id.into(), hash.into(), copied_at.into())
}

#[test]
fn pending_ocr_limits_are_one_to_eight() {
    assert_eq!(check_pending_ocr_limit(0), Err("待识别图片分页大小无效".to_owned()));
    assert_eq!(check_pending_ocr_limit(1), Ok(()));
    assert_eq!(check_pending_ocr_limit(8), Ok(()));
    assert_eq!(check_pending_ocr_limit(9), Err("待识别图片分页大小无效".to_owned()));
}

#[test]
fn pending_ocr_page_keeps_the_limit_and_points_at_its_last_row() {
    let rows = vec![
        row("b", HASH_B, "2026-01-02T00:00:00.000Z"),
        row("a", HASH_A, "2026-01-01T00:00:00.000Z"),
        row("z", HASH_A, "2025-12-31T00:00:00.000Z"),
    ];
    let page = pending_ocr_page(rows, 2).expect("page");
    assert_eq!(page.items.len(), 2);
    assert_eq!(page.items[0].id, "b");
    assert_eq!(page.items[1].image_hash, HASH_A);
    let cursor = page.next_cursor.expect("cursor");
    assert_eq!(cursor, STANDARD.encode("1767225600000\na"));
    assert_eq!(
        decode_cursor(&cursor),
        Ok(("2026-01-01T00:00:00.000Z".to_owned(), "a".to_owned()))
    );

    let last = pending_ocr_page(vec![row("a", HASH_A, "2026-01-01T00:00:00.000Z")], 2)
        .expect("last page");
    assert_eq!(last.items.len(), 1);
    assert_eq!(last.next_cursor, None);
}

#[test]
fn pending_ocr_page_refuses_bad_rows_it_would_show() {
    let bad_hash = vec![row("a", "ABC", "2026-01-01T00:00:00.000Z")];
    assert_eq!(
        pending_ocr_page(bad_hash, 1),
        Err("待识别图片记录无效".to_owned())
    );
    let bad_id = vec![row(" a", HASH_A, "2026-01-01T00:00:00.000Z")];
    assert_eq!(pending_ocr_page(bad_id, 1), Err("待识别图片记录无效".to_owned()));
    let hidden_bad = vec![
        row("a", HASH_A, "2026-01-01T00:00:00.000Z"),
        row("b", "bad", "2025-01-01T00:00:00.000Z"),
    ];
    assert!(pending_ocr_page(hidden_bad, 1).is_ok());
}

#[test]
fn history_page_marks_matches_drops_ocr_and_pages() {
    let rows = vec![
        summary("c", "2026-01-03T00:00:00.000Z", "alpha report"),
        summary("b", "2026-01-02T00:00:00.000Z", "beta"),
        summary("a", "2026-01-01T00:00:00.000Z", "alpha"),
    ];
    let page = history_page(rows, 2, "alpha", 7).expect("page");
    assert_eq!(page.total_count, 7);
    assert_eq!(page.items.len(), 2);
    assert_eq!(page.items[0].match_source, Some(HistoryMatchSource::Direct));
    assert_eq!(page.items[1].match_source, Some(HistoryMatchSource::Index));
    assert!(page.items.iter().all(|item| !item.payload_loaded && item.ocr_text.is_none()));
    assert_eq!(page.next_cursor, Some(STANDARD.encode("1767312000000\nb")));

    let all = history_page(
        vec![summary("a", "2026-01-01T00:00:00.000Z", "alpha")],
        5,
        "",
        1,
    )
    .expect("single page");
    assert_eq!(all.items[0].match_source, Some(HistoryMatchSource::Unmatched));
    assert_eq!(all.next_cursor, None);
}

#[test]
fn history_page_reports_the_first_broken_row() {
    let mut broken = summary("b", "2026-01-02T00:00:00.000Z", "beta");
    broken.image_hash = Some(HASH_A.into());
    let rows = vec![summary("c", "2026-01-03T00:00:00.000Z", "gamma"), broken];
    assert_eq!(
        history_page(rows, 2, "", 2).map(|page| page.items.len()),
        Err("图片哈希无效".to_owned())
    );
}

#[test]
fn sort_orders_follow_the_largest_and_stay_safe() {
    assert_eq!(next_sort_order(None), Ok(0));
    assert_eq!(next_sort_order(Some(4)), Ok(5));
    assert_eq!(next_sort_order(Some(-3)), Ok(-2));
    assert_eq!(next_sort_order(Some(9_007_199_254_740_990)), Ok(9_007_199_254_740_991));
    assert_eq!(
        next_sort_order(Some(9_007_199_254_740_991)),
        Err("集合排序值已用尽".to_owned())
    );
    assert_eq!(next_sort_order(Some(i64::MAX)), Err("集合排序值已用尽".to_owned()));
}

#[test]
fn only_permanent_text_records_with_canonical_time_are_editable() {
    assert_eq!(check_editable_snippet("code", true, "2026-01-01T00:00:00.000Z"), Ok(()));
    assert_eq!(
        check_editable_snippet("image", true, "2026-01-01T00:00:00.000Z"),
        Err("记录不是可编辑的永久片段".to_owned())
    );
    assert_eq!(
        check_editable_snippet("text", false, "2026-01-01T00:00:00.000Z"),
        Err("记录不是可编辑的永久片段".to_owned())
    );
    assert_eq!(
        check_editable_snippet("text", true, "2026-01-01T08:00:00+08:00"),
        Err("片段复制时间无效".to_owned())
    );
}

#[test]
fn snippets_are_permanent_plain_text_records() {
    let draft = SnippetDraft {
        id: None,
        title: "问候".into(),
        content: "你好".into(),
        collection_id: Some("collection-1".into()),
        kind: "code".into(),
    };
    let item = snippet_item(
        draft,
        "snippet-1".into(),
        "2026-01-01T00:00:00.000Z".into(),
        "2026-01-02T00:00:00.000Z".into(),
        true,
    );
    assert_eq!(item.id, "snippet-1");
    assert_eq!(item.kind, "code");
    assert_eq!(item.source_app, "QuickPaste");
    assert!(item.permanent && item.pinned && item.payload_loaded);
    assert_eq!(item.formats, vec!["text".to_owned()]);
    assert_eq!(item.collection_id.as_deref(), Some("collection-1"));
    assert_eq!(item.updated_at, "2026-01-02T00:00:00.000Z");
    assert!(quickpaste_history::item::validate_history_item(&item).is_ok());
}

type OcrRecord = Option<(String, Option<String>, Option<String>, Option<String>, Option<i64>)>;

fn ocr_record(kind: &str, hash: &str, status: &str, mime: Option<&str>, length: Option<i64>) -> OcrRecord {
    Some((
        kind.into(),
        Some(hash.into()),
        Some(status.into()),
        mime.map(str::to_owned),
        length,
    ))
}

#[test]
fn ocr_sources_are_read_only_while_pending_and_small() {
    let png = Some("image/png");
    assert_eq!(ocr_source_state(&None, HASH_A), OcrSourceState::Stale);
    assert_eq!(
        ocr_source_state(&ocr_record("image", HASH_A, "pending", png, Some(10)), HASH_A),
        OcrSourceState::Read
    );
    assert_eq!(
        ocr_source_state(&ocr_record("image", HASH_B, "pending", png, Some(10)), HASH_A),
        OcrSourceState::Stale
    );
    assert_eq!(
        ocr_source_state(&ocr_record("image", HASH_A, "completed", png, Some(10)), HASH_A),
        OcrSourceState::Stale
    );
    assert_eq!(
        ocr_source_state(&ocr_record("text", HASH_A, "pending", png, Some(10)), HASH_A),
        OcrSourceState::Stale
    );
    assert_eq!(
        ocr_source_state(
            &ocr_record("image", HASH_A, "pending", png, Some(64 * 1024 * 1024 + 1)),
            HASH_A
        ),
        OcrSourceState::Oversized
    );
    assert_eq!(
        ocr_source_state(
            &ocr_record("image", HASH_A, "pending", png, Some(64 * 1024 * 1024)),
            HASH_A
        ),
        OcrSourceState::Read
    );
    assert_eq!(
        ocr_source_state(&ocr_record("image", HASH_A, "pending", Some("image/jpeg"), Some(10)), HASH_A),
        OcrSourceState::Decode
    );
    assert_eq!(
        ocr_source_state(&ocr_record("image", HASH_A, "pending", png, None), HASH_A),
        OcrSourceState::Decode
    );
}
