use base64::engine::general_purpose::STANDARD;
use base64::Engine;
use quickpaste_history::batch::{
    batch_history_query_as_history, dedupe_batch_ids, normalize_batch_history_query,
    normalize_batch_target, normalize_query_upper_bound, safe_batch_count, validate_batch_action,
};
use quickpaste_history::order::javascript_string_cmp;
use quickpaste_history::query::normalize_history_query;
use quickpaste_history::search::normalize_query_text;
use quickpaste_history::types::{
    BatchAction, BatchHistoryQuery, BatchTarget, CollectionScope, HistoryQuery, QueryUpperBound,
};
use std::cmp::Ordering;

fn collection_id(scope: &CollectionScope) -> Option<&str> {
    match scope {
        CollectionScope::Collection { id } => Some(id.as_str()),
        _ => None,
    }
}

#[test]
fn rust_query_normalization_mirrors_the_typescript_contract() {
    let canonical_cursor = STANDARD.encode("1\nclip-id");
    let normalized = normalize_history_query(HistoryQuery {
        text: "  全角 ＡＢＣ  ".into(),
        kinds: vec!["link".into(), "text".into(), "link".into()],
        source_apps: vec![
            " Word ".into(),
            "Edge".into(),
            "\u{feff}Word\u{0085}".into(),
            "\u{feff}\u{0085}".into(),
        ],
        collection: CollectionScope::Collection {
            id: "\u{feff}collection-1\u{0085}".into(),
        },
        pinned: Some(false),
        permanent: Some(true),
        limit: 50,
        cursor: Some(canonical_cursor.clone()),
    })
    .expect("normalize query");

    assert_eq!(normalized.text, "全角 abc");
    assert_eq!(normalized.kinds, vec!["text", "link"]);
    assert_eq!(normalized.source_apps, vec!["Edge", "Word"]);
    assert_eq!(normalized.cursor.as_deref(), Some(canonical_cursor.as_str()));
    assert_eq!(collection_id(&normalized.collection), Some("collection-1"));
    for invalid in [
        CollectionScope::Collection { id: " ".into() },
        CollectionScope::Collection {
            id: "contains spaces".into(),
        },
        CollectionScope::Collection {
            id: "x".repeat(129),
        },
    ] {
        assert!(normalize_history_query(HistoryQuery {
            collection: invalid,
            ..HistoryQuery::default()
        })
        .is_err());
    }
    for limit in [0, 201] {
        assert!(normalize_history_query(HistoryQuery {
            limit,
            ..HistoryQuery::default()
        })
        .is_err());
    }
    for invalid_cursor in [
        "not-base64".to_owned(),
        format!("{canonical_cursor}="),
        STANDARD.encode("1-no-newline"),
        STANDARD.encode("1\nid\nextra"),
        STANDARD.encode("1\nid\u{0007}"),
        STANDARD.encode("1\n padded"),
        STANDARD.encode("1\npadded "),
        STANDARD.encode("1\n\u{feff}padded"),
        STANDARD.encode("1\npadded\u{0085}"),
        STANDARD.encode("1\n"),
        STANDARD.encode("01\nid"),
        STANDARD.encode("not-millis\nid"),
        STANDARD.encode(format!("{}\nid", i64::MAX)),
        STANDARD.encode(format!("1\n{}", "x".repeat(600))),
    ] {
        assert!(normalize_history_query(HistoryQuery {
            cursor: Some(invalid_cursor),
            ..HistoryQuery::default()
        })
        .is_err());
    }
    assert_eq!(
        normalize_history_query(HistoryQuery {
            text: "  ΟΣ\u{00a0}ος  ".into(),
            ..HistoryQuery::default()
        })
        .expect("normalize final sigma")
        .text,
        "οσ οσ"
    );
    let unicode_edges = normalize_history_query(HistoryQuery {
        text: "\u{feff}ＡＢＣ\u{0085}Delta\u{feff}".into(),
        source_apps: vec!["\u{e000}".into(), "😀".into()],
        ..HistoryQuery::default()
    })
    .expect("normalize Unicode whitespace and UTF-16 ordering");
    assert_eq!(unicode_edges.text, "abc delta");
    assert_eq!(unicode_edges.source_apps, vec!["😀", "\u{e000}"]);
    assert_eq!(normalize_query_text("a\u{0085}b"), "a b");
}

#[test]
fn query_errors_name_the_first_invalid_part() {
    let unknown_kind = normalize_history_query(HistoryQuery {
        kinds: vec!["text".into(), "video".into()],
        limit: 0,
        ..HistoryQuery::default()
    });
    assert_eq!(unknown_kind.unwrap_err(), "历史类型筛选无效");
    let bad_collection = normalize_history_query(HistoryQuery {
        collection: CollectionScope::Collection { id: "-lead".into() },
        limit: 0,
        ..HistoryQuery::default()
    });
    assert_eq!(bad_collection.unwrap_err(), "历史集合标识无效");
    let bad_limit = normalize_history_query(HistoryQuery {
        limit: 0,
        cursor: Some("not-base64".into()),
        ..HistoryQuery::default()
    });
    assert_eq!(bad_limit.unwrap_err(), "历史分页大小无效");
    let bad_cursor = normalize_history_query(HistoryQuery {
        cursor: Some(String::new()),
        ..HistoryQuery::default()
    });
    assert_eq!(bad_cursor.unwrap_err(), "历史分页游标无效");
}

#[test]
fn query_defaults_and_accepted_collection_ids() {
    let query = HistoryQuery::default();
    assert_eq!(query.limit, 100);
    assert!(matches!(query.collection, CollectionScope::Any {}));
    let accepted = normalize_history_query(HistoryQuery {
        collection: CollectionScope::Collection {
            id: format!("a{}", "b.c_d:e-".repeat(15)),
        },
        kinds: vec!["file".into(), "image".into(), "code".into(), "file".into()],
        limit: 200,
        ..HistoryQuery::default()
    })
    .expect("accept a 121-byte id");
    assert_eq!(accepted.kinds, vec!["code", "image", "file"]);
    let limit_one = normalize_history_query(HistoryQuery {
        limit: 1,
        collection: CollectionScope::Unfiled {},
        ..HistoryQuery::default()
    })
    .expect("limit one");
    assert!(matches!(limit_one.collection, CollectionScope::Unfiled {}));
    assert!(normalize_history_query(HistoryQuery {
        collection: CollectionScope::Collection {
            id: "x".repeat(128)
        },
        ..HistoryQuery::default()
    })
    .is_ok());
    assert!(normalize_history_query(HistoryQuery {
        collection: CollectionScope::Collection { id: "é".into() },
        ..HistoryQuery::default()
    })
    .is_err());
}

#[test]
fn javascript_order_compares_utf16_code_units() {
    assert_eq!(javascript_string_cmp("😀", "\u{e000}"), Ordering::Less);
    assert_eq!(javascript_string_cmp("\u{e000}", "😀"), Ordering::Greater);
    assert_eq!(javascript_string_cmp("Edge", "Word"), Ordering::Less);
    assert_eq!(javascript_string_cmp("Word", "Word"), Ordering::Equal);
    assert_eq!(javascript_string_cmp("Wor", "Word"), Ordering::Less);
    assert_eq!(javascript_string_cmp("", ""), Ordering::Equal);
    assert_eq!(javascript_string_cmp("b", "a"), Ordering::Greater);
    assert!("\u{e000}" < "😀");
}

#[test]
fn batch_ids_keep_first_occurrences_and_reject_bad_lists() {
    let ids = dedupe_batch_ids(vec!["b".into(), "a".into(), "b".into(), "c".into(), "a".into()])
        .expect("dedupe");
    assert_eq!(ids, vec!["b", "a", "c"]);
    assert_eq!(dedupe_batch_ids(Vec::new()).expect("empty"), Vec::<String>::new());
    let too_many = (0..10_001).map(|i| format!("id-{i}")).collect::<Vec<_>>();
    assert_eq!(dedupe_batch_ids(too_many).unwrap_err(), "批量目标过多");
    let exactly_max = (0..10_000).map(|i| format!("id-{}", i % 3)).collect::<Vec<_>>();
    assert_eq!(dedupe_batch_ids(exactly_max).expect("max").len(), 3);
    assert_eq!(
        dedupe_batch_ids(vec!["ok".into(), " padded".into()]).unwrap_err(),
        "批量目标标识无效"
    );
}

fn batch_query(text: &str) -> BatchHistoryQuery {
    BatchHistoryQuery {
        text: text.into(),
        kinds: Vec::new(),
        source_apps: Vec::new(),
        collection: CollectionScope::Any {},
        pinned: None,
    }
}

#[test]
fn batch_queries_normalize_like_paged_queries() {
    let mut query = batch_query("  ＡＢＣ  Def ");
    query.kinds = vec!["image".into(), "text".into()];
    query.source_apps = vec![" b ".into(), "a".into(), "b".into()];
    query.pinned = Some(true);
    let normalized = normalize_batch_history_query(query).expect("normalize batch query");
    assert_eq!(normalized.text, "abc def");
    assert_eq!(normalized.kinds, vec!["text", "image"]);
    assert_eq!(normalized.source_apps, vec!["a", "b"]);
    assert_eq!(normalized.pinned, Some(true));
    let history = batch_history_query_as_history(&normalized);
    assert_eq!(history.text, "abc def");
    assert_eq!(history.limit, 1);
    assert_eq!(history.permanent, None);
    assert_eq!(history.cursor, None);
    assert_eq!(history.pinned, Some(true));
    let mut bad = batch_query("x");
    bad.kinds = vec!["audio".into()];
    assert_eq!(
        normalize_batch_history_query(bad).unwrap_err(),
        "历史类型筛选无效"
    );
}

#[test]
fn batch_targets_and_actions_are_checked_in_order() {
    let ids = normalize_batch_target(BatchTarget::Ids {
        ids: vec!["x".into(), "x".into(), "y".into()],
    })
    .expect("ids target");
    match ids {
        BatchTarget::Ids { ids } => assert_eq!(ids, vec!["x", "y"]),
        _ => panic!("expected ids"),
    }
    let bound = QueryUpperBound {
        copied_at: "2026-07-01T00:00:00.000Z".into(),
        id: "clip".into(),
    };
    let query = normalize_batch_target(BatchTarget::Query {
        query: batch_query("Hello"),
        upper_bound: bound.clone(),
        excluded_ids: vec!["a".into(), "a".into()],
    })
    .expect("query target");
    match query {
        BatchTarget::Query {
            query,
            upper_bound,
            excluded_ids,
        } => {
            assert_eq!(query.text, "hello");
            assert_eq!(upper_bound.id, "clip");
            assert_eq!(excluded_ids, vec!["a"]);
        }
        _ => panic!("expected query"),
    }
    let noncanonical = normalize_query_upper_bound(QueryUpperBound {
        copied_at: "2026-07-01T00:00:00Z".into(),
        id: "clip".into(),
    });
    assert_eq!(noncanonical.unwrap_err(), "批量查询上界无效");
    assert!(normalize_query_upper_bound(bound.clone()).is_ok());
    let bad_bound_first = normalize_batch_target(BatchTarget::Query {
        query: batch_query("x"),
        upper_bound: QueryUpperBound {
            copied_at: "2026-07-01T00:00:00.000Z".into(),
            id: " bad".into(),
        },
        excluded_ids: vec![" bad".into()],
    });
    assert_eq!(bad_bound_first.unwrap_err(), "批量查询上界无效");
    assert_eq!(
        validate_batch_action(&BatchAction::Move {
            collection_id: Some("bad\nid".into())
        })
        .unwrap_err(),
        "目标集合标识无效"
    );
    assert!(validate_batch_action(&BatchAction::Move { collection_id: None }).is_ok());
    assert!(validate_batch_action(&BatchAction::SetPinned { pinned: true }).is_ok());
    assert!(validate_batch_action(&BatchAction::Delete {}).is_ok());
    assert_eq!(safe_batch_count(7).expect("small count"), 7);
    assert_eq!(
        safe_batch_count(9_007_199_254_740_991).expect("largest safe count"),
        9_007_199_254_740_991
    );
    assert_eq!(
        safe_batch_count(9_007_199_254_740_992).unwrap_err(),
        "批量结果计数超出前端安全整数范围"
    );
}
