use quickpaste_history::predicate::{
    escaped_like_pattern, fts5_literal, history_query_predicate, sql_placeholders, SqlValue,
};
use quickpaste_history::search::{
    build_search_projection, history_match_source, normalize_query_text, normalize_search_text,
};
use quickpaste_history::text::trim_query_value;
use quickpaste_history::types::{CollectionScope, HistoryItem, HistoryMatchSource, HistoryQuery};

fn text_item(id: &str) -> HistoryItem {
    HistoryItem {
        id: id.into(),
        kind: "text".into(),
        title: "Quarterly Report".into(),
        content: "Revenue grew".into(),
        source_app: "Excel".into(),
        source_app_icon: None,
        copied_at: "2026-07-01T00:00:00.000Z".into(),
        updated_at: "2026-07-01T00:00:00.000Z".into(),
        pinned: false,
        permanent: false,
        collection_id: None,
        search_terms: Vec::new(),
        ocr_text: None,
        ocr_status: None,
        image_hash: None,
        match_source: None,
        color: None,
        dimensions: None,
        formats: vec!["text".into()],
        omitted_formats: Vec::new(),
        payload_loaded: false,
        html: None,
        rtf_base64: None,
        image_url: None,
        files: Vec::new(),
    }
}

#[test]
fn search_text_is_nfkc_lowercase_with_single_spaces() {
    assert_eq!(normalize_search_text("  ＡＢＣ\tdef\u{3000}ΟΣ  "), "abc def οσ");
    assert_eq!(normalize_search_text(""), "");
    assert_eq!(normalize_search_text(" \u{feff} "), "");
    assert_eq!(normalize_search_text("İ"), "i\u{307}");
    assert_eq!(normalize_query_text("ﬁle"), "file");
    assert_eq!(trim_query_value("\u{feff} a b \u{2029}"), "a b");
    assert_eq!(trim_query_value("\u{feff} Work \u{0085}"), "Work");
    assert_eq!(trim_query_value(trim_query_value("\u{feff} Work \u{0085}")), "Work");
}

#[test]
fn projection_joins_every_searchable_part() {
    let projection = build_search_projection(
        "Title",
        "Body Text",
        "App",
        &["Pinyin".to_owned(), "Term".to_owned()],
        Some("OCR  Words"),
        &[("C:/Docs/A.txt".to_owned(), "A.txt".to_owned())],
    );
    assert_eq!(
        projection,
        "title body text app pinyin term ocr words c:/docs/a.txt a.txt"
    );
    assert_eq!(build_search_projection("", "", "", &[], None, &[]), "");
}

#[test]
fn match_source_reports_where_every_term_matched() {
    let item = text_item("a");
    assert_eq!(history_match_source("", &item), HistoryMatchSource::Unmatched);
    assert_eq!(history_match_source("  ", &item), HistoryMatchSource::Unmatched);
    assert_eq!(history_match_source("report excel", &item), HistoryMatchSource::Direct);
    assert_eq!(history_match_source("report missing", &item), HistoryMatchSource::Index);
    let mut image = text_item("i");
    image.kind = "image".into();
    image.ocr_status = Some("completed".into());
    image.ocr_text = Some("Invoice TOTAL 42".into());
    assert_eq!(history_match_source("total 42", &image), HistoryMatchSource::Ocr);
    image.ocr_status = Some("pending".into());
    assert_eq!(history_match_source("total 42", &image), HistoryMatchSource::Index);
}

#[test]
fn sql_literals_stay_literal() {
    assert_eq!(sql_placeholders(0), "");
    assert_eq!(sql_placeholders(1), "?");
    assert_eq!(sql_placeholders(3), "?, ?, ?");
    assert_eq!(fts5_literal("say \"hi\""), "\"say \"\"hi\"\"\"");
    assert_eq!(fts5_literal(""), "\"\"");
    assert_eq!(escaped_like_pattern("100%_\\x"), "%100\\%\\_\\\\x%");
    assert_eq!(escaped_like_pattern(""), "%%");
}

fn text_of(value: &SqlValue) -> &str {
    match value {
        SqlValue::Text(text) => text.as_str(),
        SqlValue::Integer(_) => panic!("expected text"),
    }
}

#[test]
fn query_predicates_bind_every_value() {
    let empty = HistoryQuery::default();
    let (from, predicate, parameters) = history_query_predicate(&empty);
    assert_eq!(from, "clips");
    assert_eq!(predicate, "1 = 1");
    assert!(parameters.is_empty());

    let query = HistoryQuery {
        text: "ab report".into(),
        kinds: vec!["text".into(), "link".into()],
        source_apps: vec!["Word".into()],
        collection: CollectionScope::Collection { id: "c1".into() },
        pinned: Some(true),
        permanent: Some(false),
        limit: 50,
        cursor: None,
    };
    let (from, predicate, parameters) = history_query_predicate(&query);
    assert_eq!(
        from,
        "clip_search_fts\n         JOIN clip_search ON clip_search.rowid = clip_search_fts.rowid\n         JOIN clips ON clips.id = clip_search.clip_id"
    );
    assert_eq!(
        predicate,
        "clips.kind IN (?, ?) AND clips.source_app IN (?) AND clips.collection_id = ? AND clips.pinned = ? AND clips.permanent = ? AND clip_search.normalized_text LIKE ? ESCAPE '\\' AND clip_search_fts MATCH ?"
    );
    assert_eq!(parameters.len(), 8);
    assert_eq!(text_of(&parameters[0]), "text");
    assert_eq!(text_of(&parameters[1]), "link");
    assert_eq!(text_of(&parameters[2]), "Word");
    assert_eq!(text_of(&parameters[3]), "c1");
    assert!(matches!(parameters[4], SqlValue::Integer(1)));
    assert!(matches!(parameters[5], SqlValue::Integer(0)));
    assert_eq!(text_of(&parameters[6]), "%ab%");
    assert_eq!(text_of(&parameters[7]), "\"report\"");

    let short_only = HistoryQuery {
        text: "a b".into(),
        collection: CollectionScope::Unfiled {},
        ..HistoryQuery::default()
    };
    let (from, predicate, parameters) = history_query_predicate(&short_only);
    assert_eq!(from, "clip_search JOIN clips ON clips.id = clip_search.clip_id");
    assert_eq!(
        predicate,
        "clips.collection_id IS NULL AND clip_search.normalized_text LIKE ? ESCAPE '\\' AND clip_search.normalized_text LIKE ? ESCAPE '\\'"
    );
    assert_eq!(parameters.len(), 2);

    let long_terms = HistoryQuery {
        text: "alpha beta".into(),
        ..HistoryQuery::default()
    };
    let (_, predicate, parameters) = history_query_predicate(&long_terms);
    assert_eq!(predicate, "clip_search_fts MATCH ?");
    assert_eq!(text_of(&parameters[0]), "\"alpha\" AND \"beta\"");
}
