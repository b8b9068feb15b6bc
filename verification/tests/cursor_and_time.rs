use base64::engine::general_purpose::STANDARD;
use base64::Engine;
use quickpaste_history::cursor::{decode_cursor, encode_cursor, encode_cursor_position};
use quickpaste_history::ids::{
    generate_restore_token, history_id_is_cursor_safe, image_hash_is_canonical,
    restore_token_from_bytes, restore_token_is_valid,
};
use quickpaste_history::item::validate_history_item;
use quickpaste_history::time::{
    canonical_utc_millis_after, canonical_utc_millis_after_at, normalize_timestamp,
    retention_cutoff, retention_cutoff_for, timestamp_is_canonical,
};
use quickpaste_history::types::HistoryItem;

fn text_item(id: &str, copied_at: &str) -> HistoryItem {
    HistoryItem {
        id: id.into(),
        kind: "text".into(),
        title: format!("标题 {id}"),
        content: format!("正文 {id}"),
        source_app: "Test App".into(),
        source_app_icon: None,
        copied_at: copied_at.into(),
        updated_at: copied_at.into(),
        pinned: false,
        permanent: false,
        collection_id: None,
        search_terms: vec!["test".into()],
        ocr_text: None,
        ocr_status: None,
        image_hash: None,
        match_source: None,
        color: None,
        dimensions: None,
        formats: vec!["text".into()],
        omitted_formats: Vec::new(),
        payload_loaded: true,
        html: None,
        rtf_base64: None,
        image_url: None,
        files: Vec::new(),
    }
}

#[test]
fn cursor_and_storage_timestamps_use_four_digit_utc_year_bounds() {
    let minimum = chrono::DateTime::parse_from_rfc3339("0000-01-01T00:00:00.000Z")
        .expect("parse minimum four-digit year")
        .timestamp_millis();
    let maximum = chrono::DateTime::parse_from_rfc3339("9999-12-31T23:59:59.999Z")
        .expect("parse maximum four-digit year")
        .timestamp_millis();
    assert_eq!(minimum, -62_167_219_200_000);
    assert_eq!(maximum, 253_402_300_799_999);
    for millis in [minimum, maximum] {
        assert!(decode_cursor(&STANDARD.encode(format!("{millis}\nid"))).is_ok());
    }
    for millis in [minimum - 1, maximum + 1] {
        assert!(decode_cursor(&STANDARD.encode(format!("{millis}\nid"))).is_err());
        let expanded = chrono::DateTime::<chrono::Utc>::from_timestamp_millis(millis)
            .expect("expanded timestamp exists")
            .to_rfc3339_opts(chrono::SecondsFormat::Millis, true);
        assert!(normalize_timestamp(&expanded).is_err());
    }
}

#[test]
fn history_ids_reject_edge_whitespace_controls_and_oversized_cursors() {
    for invalid_id in [
        "control\nid".to_owned(),
        " padded".to_owned(),
        "padded ".to_owned(),
        "\u{feff}padded".to_owned(),
        "padded\u{0085}".to_owned(),
        "x".repeat(600),
    ] {
        let mut item = text_item(&invalid_id, "2026-07-01T00:00:00.000Z");
        item.id = invalid_id;
        assert!(validate_history_item(&item).is_err());
        assert!(encode_cursor(&item).is_err());
    }
}

#[test]
fn cursor_round_trips_its_position() {
    let item = text_item("clip-1", "2026-07-01T08:00:00.000+08:00");
    let cursor = encode_cursor(&item).expect("encode cursor");
    assert_eq!(cursor, STANDARD.encode("1782864000000\nclip-1"));
    let (copied_at, id) = decode_cursor(&cursor).expect("decode cursor");
    assert_eq!(copied_at, "2026-07-01T00:00:00.000Z");
    assert_eq!(id, "clip-1");
    let negative = encode_cursor_position("1969-12-31T23:59:59.999Z", "a").expect("encode");
    assert_eq!(negative, STANDARD.encode("-1\na"));
    assert_eq!(
        decode_cursor(&negative).expect("decode"),
        ("1969-12-31T23:59:59.999Z".to_owned(), "a".to_owned())
    );
    assert_eq!(decode_cursor("%%%").unwrap_err(), "分页游标无效");
    assert!(decode_cursor(&STANDARD.encode("+1\nid")).is_err());
    assert!(encode_cursor_position("not a time", "id").is_err());
    assert!(encode_cursor_position("2026-07-01T00:00:00.000Z", "").is_err());
}

#[test]
fn cursor_safe_ids_fit_in_a_cursor() {
    let longest = "x".repeat(363);
    assert!(history_id_is_cursor_safe(&longest));
    assert!(!history_id_is_cursor_safe(&"x".repeat(364)));
    let cursor = STANDARD.encode(format!("{}\n{longest}", i64::MIN));
    assert!(cursor.encode_utf16().count() <= 512);
    assert!(history_id_is_cursor_safe("片段"));
    assert!(!history_id_is_cursor_safe(""));
    assert!(!history_id_is_cursor_safe("tab\tid"));
}

#[test]
fn hashes_and_tokens_are_lower_hex() {
    let hash = "0123456789abcdef".repeat(4);
    assert!(image_hash_is_canonical(&hash));
    assert!(restore_token_is_valid(&hash));
    assert!(!image_hash_is_canonical(&hash.to_uppercase()));
    assert!(!restore_token_is_valid(&hash[..63]));
    assert!(!restore_token_is_valid(&format!("{hash}0")));
    let token = generate_restore_token().expect("token");
    assert!(restore_token_is_valid(&token));
    let other = generate_restore_token().expect("token");
    assert_ne!(token, other);
}

#[test]
fn timestamps_normalize_to_utc_milliseconds() {
    assert_eq!(
        normalize_timestamp("2026-07-19T12:34:56.789123+08:00").expect("normalize"),
        "2026-07-19T04:34:56.789Z"
    );
    assert_eq!(
        normalize_timestamp("2026-07-01T00:00:00Z").expect("normalize"),
        "2026-07-01T00:00:00.000Z"
    );
    let error = normalize_timestamp("yesterday").unwrap_err();
    assert!(error.starts_with("时间戳无效: "), "{error}");
    assert!(timestamp_is_canonical("2026-07-01T00:00:00.000Z"));
    assert!(!timestamp_is_canonical("2026-07-01T00:00:00Z"));
}

#[test]
fn retention_cutoff_uses_canonical_utc_millisecond_timestamp() {
    let now = chrono::DateTime::parse_from_rfc3339("2026-07-19T12:34:56.789123+08:00")
        .expect("parse deterministic current time")
        .with_timezone(&chrono::Utc);

    assert_eq!(
        retention_cutoff(now.timestamp_millis(), 2),
        "2026-07-17T04:34:56.789Z"
    );
    assert_eq!(
        retention_cutoff_for(now.timestamp_millis(), -1).unwrap_err(),
        "保留天数不能为负数"
    );
    assert_eq!(
        retention_cutoff_for(now.timestamp_millis(), 0).expect("zero days"),
        "2026-07-19T04:34:56.789Z"
    );
}

#[test]
fn later_timestamps_are_strictly_after_the_previous_one() {
    let now = 1_782_864_000_000;
    assert_eq!(
        canonical_utc_millis_after_at(now, None).expect("now"),
        "2026-07-01T00:00:00.000Z"
    );
    assert_eq!(
        canonical_utc_millis_after_at(now, Some("2026-07-01T00:00:00.000Z")).expect("after"),
        "2026-07-01T00:00:00.001Z"
    );
    assert_eq!(
        canonical_utc_millis_after_at(now, Some("2020-01-01T00:00:00.000Z")).expect("clock ahead"),
        "2026-07-01T00:00:00.000Z"
    );
    assert_eq!(
        canonical_utc_millis_after_at(now, Some("2026-07-01T00:00:00Z")).unwrap_err(),
        "已有时间戳不是规范 UTC 毫秒格式"
    );
    assert!(canonical_utc_millis_after_at(now, Some("9999-12-31T23:59:59.999Z")).is_err());
    let stamped = canonical_utc_millis_after(Some("2000-01-01T00:00:00.000Z")).expect("clock");
    assert!(stamped.as_str() > "2000-01-01T00:00:00.000Z");
}

#[test]
fn restore_tokens_are_the_lower_hex_of_their_bytes() {
    assert_eq!(restore_token_from_bytes(&[0x00, 0xab, 0xff, 0x10]), "00abff10");
    let token = restore_token_from_bytes(&[0x5a; 32]);
    assert_eq!(token, "5a".repeat(32));
    assert!(restore_token_is_valid(&token));
}

#[test]
fn stamping_after_a_non_canonical_timestamp_is_refused() {
    assert_eq!(
        canonical_utc_millis_after(Some("2000-01-01T00:00:00Z")),
        Err("已有时间戳不是规范 UTC 毫秒格式".to_owned())
    );
}
