use quickpaste_history::collection::check_collection_list;
use quickpaste_history::formats::canonical_omitted_formats;
use quickpaste_history::payload::check_stored_omitted_formats;
use quickpaste_history::policy::{
    history_settings_row, policy_from_settings_row, settings_singleton_is_valid,
};
use quickpaste_history::predicate::{batch_query_predicate, history_page_predicate, SqlValue};
use quickpaste_history::types::{
    CapacityPolicy, ClipboardFormat, Collection, CollectionScope, HistoryQuery,
};

fn text_of(value: &SqlValue) -> &str {
    match value {
        SqlValue::Text(text) => text,
        SqlValue::Integer(_) => panic!("expected a text parameter"),
    }
}

fn collection(id: &str, name: &str) -> Collection {
    Collection {
        id: id.into(),
        name: name.into(),
        created_at: "2026-01-01T00:00:00.000Z".into(),
        updated_at: "2026-01-02T00:00:00.000Z".into(),
        sort_order: 0,
    }
}

fn kinds_query() -> HistoryQuery {
    HistoryQuery {
        text: String::new(),
        kinds: vec!["image".into()],
        source_apps: Vec::new(),
        collection: CollectionScope::Any {},
        pinned: None,
        permanent: None,
        limit: 20,
        cursor: None,
    }
}

#[test]
fn stored_policies_read_back_unchanged() {
    let policy = CapacityPolicy {
        max_records: 500,
        max_image_bytes: 268_435_456,
        retention_days: Some(30),
    };
    let (records, images, days) = history_settings_row(&policy).expect("storable");
    let read = policy_from_settings_row(records, images, days).expect("readable");
    assert_eq!(read.max_records, 500);
    assert_eq!(read.max_image_bytes, 268_435_456);
    assert_eq!(read.retention_days, Some(30));
}

#[test]
fn unusable_settings_rows_are_refused() {
    let message = Err("历史存储策略超出前端安全整数范围".to_owned());
    assert_eq!(policy_from_settings_row(-1, 0, None).map(|p| p.max_records), message);
    assert_eq!(
        policy_from_settings_row(0, 9_007_199_254_740_992, None).map(|p| p.max_records),
        message
    );
    assert_eq!(policy_from_settings_row(0, 0, Some(730_001)).map(|p| p.max_records), message);
    assert_eq!(policy_from_settings_row(0, 0, Some(-1)).map(|p| p.max_records), message);
    assert_eq!(
        policy_from_settings_row(9_007_199_254_740_991, 0, Some(730_000)).map(|p| p.max_records),
        Ok(9_007_199_254_740_991)
    );
}

#[test]
fn collection_lists_refuse_repeats_and_broken_entries() {
    assert_eq!(check_collection_list(&Vec::new()), Ok(()));
    assert_eq!(
        check_collection_list(&vec![collection("c1", "工作"), collection("c2", "生活")]),
        Ok(())
    );
    assert_eq!(
        check_collection_list(&vec![collection("c1", "工作"), collection("c2", "工作")]),
        Err("集合标识或名称重复".to_owned())
    );
    assert_eq!(
        check_collection_list(&vec![collection("c1", "工作"), collection("c1", "生活")]),
        Err("集合标识或名称重复".to_owned())
    );
    assert_eq!(
        check_collection_list(&vec![collection("c1", " 工作"), collection("c1", "工作")]),
        Err("集合数据无效".to_owned())
    );
}

#[test]
fn saved_omitted_formats_pass_the_read_back_check() {
    let canonical = canonical_omitted_formats(&[
        ClipboardFormat::Object,
        ClipboardFormat::Text,
        ClipboardFormat::Image,
    ])
    .expect("no repeats");
    assert_eq!(
        canonical,
        vec![ClipboardFormat::Text, ClipboardFormat::Image, ClipboardFormat::Object]
    );
    assert_eq!(check_stored_omitted_formats(&canonical), Ok(()));
    assert_eq!(
        check_stored_omitted_formats(&[ClipboardFormat::Image, ClipboardFormat::Text]),
        Err("省略格式顺序不是规范顺序".to_owned())
    );
}

#[test]
fn page_predicates_resume_after_the_cursor() {
    let query = kinds_query();
    let (from, predicate, parameters) = history_page_predicate(&query, None);
    assert_eq!(from, "clips");
    assert_eq!(predicate, "clips.kind IN (?)");
    assert_eq!(parameters.len(), 1);

    let (_, predicate, parameters) = history_page_predicate(
        &query,
        Some(("2026-01-01T00:00:00.000Z".into(), "a".into())),
    );
    assert_eq!(
        predicate,
        "clips.kind IN (?) AND (clips.copied_at < ? OR (clips.copied_at = ? AND clips.id < ?))"
    );
    assert_eq!(parameters.len(), 4);
    assert_eq!(text_of(&parameters[1]), "2026-01-01T00:00:00.000Z");
    assert_eq!(text_of(&parameters[2]), "2026-01-01T00:00:00.000Z");
    assert_eq!(text_of(&parameters[3]), "a");
}

#[test]
fn batch_predicates_stop_at_the_bound_and_skip_excluded_ids() {
    let query = kinds_query();
    let (_, predicate, parameters) =
        batch_query_predicate(&query, "2026-01-01T00:00:00.000Z", "m", &Vec::new());
    assert_eq!(
        predicate,
        "clips.kind IN (?) AND (clips.copied_at < ? OR (clips.copied_at = ? AND clips.id COLLATE BINARY <= ?))"
    );
    assert_eq!(parameters.len(), 4);
    assert_eq!(text_of(&parameters[3]), "m");

    let excluded = vec!["x".to_owned(), "y".to_owned()];
    let (_, predicate, parameters) =
        batch_query_predicate(&query, "2026-01-01T00:00:00.000Z", "m", &excluded);
    assert!(predicate.ends_with(" AND clips.id NOT IN (?, ?)"));
    assert_eq!(parameters.len(), 6);
    assert_eq!(text_of(&parameters[4]), "x");
    assert_eq!(text_of(&parameters[5]), "y");
}

#[test]
fn the_settings_singleton_is_checked() {
    assert!(settings_singleton_is_valid(1, 1000, 1 << 30, None, 0));
    assert!(settings_singleton_is_valid(1, 0, 0, Some(730_000), 9_007_199_254_740_991));
    assert!(!settings_singleton_is_valid(2, 1000, 1 << 30, None, 0));
    assert!(!settings_singleton_is_valid(1, -1, 1 << 30, None, 0));
    assert!(!settings_singleton_is_valid(1, 1000, 9_007_199_254_740_992, None, 0));
    assert!(!settings_singleton_is_valid(1, 1000, 1 << 30, Some(-1), 0));
    assert!(!settings_singleton_is_valid(1, 1000, 1 << 30, Some(730_001), 0));
    assert!(!settings_singleton_is_valid(1, 1000, 1 << 30, None, -1));
}
