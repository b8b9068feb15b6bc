use quickpaste_history::health::{
    classify_io_error, classify_sqlite_error, classify_sqlite_primary_code,
    contract_check_keeps_sqlite, health_from_recovery_notice, HistoryHealth, HistoryHealthState,
    HistoryInitializationFailure, HistoryOpenFailure, IoFailure, RecoveryNotice,
    RecoveryNoticePhase,
};
use quickpaste_history::legacy::{history_item_from_legacy, JsonValue, LegacyRow};
use quickpaste_history::policy::{
    default_max_image_bytes, default_max_records, default_payload_loaded, history_settings_row,
};
use quickpaste_history::quarantine::{
    quarantine_start, quarantine_step, QuarantineAction, QuarantineEvent, QuarantinePhase,
    QuarantinePlan,
};
use quickpaste_history::recovery::{
    open_accepts, open_with_recovery_start, open_with_recovery_step, reconcile_file,
    reconciled_notice, recovery_directory_name_is_owned, OpenAction, OpenEvent,
    ReconcileMove,
};
use quickpaste_history::restore::{PreparedHistoryRestore, RestoreRegistry};
use quickpaste_history::storage::{
    canonical_paths_equal, checked_physical_total, path_with_suffix, restore_staging_main_name,
    validate_storage_stats, OwnedTemporaryFile, PrepareHistoryRestoreFailure, RemovalOutcome,
};
use quickpaste_history::types::{
    CapacityPolicy, ClipboardFile, ClipboardFormat, HistoryReadOnlyReason, RecoveryReason,
    StorageStats,
};

#[test]
fn side_files_and_physical_sizes() {
    assert_eq!(path_with_suffix("/data/history.sqlite3", "-wal"), "/data/history.sqlite3-wal");
    assert_eq!(checked_physical_total(1, 2, 3).expect("total"), 6);
    assert_eq!(
        checked_physical_total(u64::MAX, 1, 0).unwrap_err(),
        "历史数据库物理占用超出可表示范围"
    );
    assert_eq!(checked_physical_total(u64::MAX - 1, 1, 0).expect("max"), u64::MAX);
}

#[test]
fn owned_temporary_files_clean_only_what_they_own() {
    let mut owned = OwnedTemporaryFile::new("/tmp/backup.sqlite3".into());
    assert_eq!(
        owned.cleanup_targets(true),
        vec![
            "/tmp/backup.sqlite3",
            "/tmp/backup.sqlite3-wal",
            "/tmp/backup.sqlite3-shm",
            "/tmp/backup.sqlite3-journal"
        ]
    );
    assert_eq!(owned.cleanup_targets(false).len(), 3);
    assert!(owned
        .cleanup_with(true, &[RemovalOutcome::Removed, RemovalOutcome::NotFound, RemovalOutcome::NotFound, RemovalOutcome::Removed])
        .is_ok());
    assert_eq!(
        owned
            .cleanup_with(true, &[RemovalOutcome::Removed, RemovalOutcome::Failed, RemovalOutcome::Removed, RemovalOutcome::Removed])
            .unwrap_err(),
        "无法清理历史数据库临时文件"
    );
    owned.mark_published();
    assert!(owned.is_published());
    assert_eq!(owned.path(), "/tmp/backup.sqlite3");
    assert_eq!(
        owned.cleanup_targets(true),
        vec![
            "/tmp/backup.sqlite3-wal",
            "/tmp/backup.sqlite3-shm",
            "/tmp/backup.sqlite3-journal"
        ]
    );
    let failure = PrepareHistoryRestoreFailure::with_staging("失败".into(), owned);
    assert!(failure.staging.is_some());
    assert_eq!(failure.into_message(), "失败");
    let plain = PrepareHistoryRestoreFailure::without_staging("无".into());
    assert!(plain.staging.is_none());
    assert_eq!(plain.into_message(), "无");
}

#[test]
fn backup_destinations_compare_canonical_paths() {
    assert!(canonical_paths_equal("/a/b", "/a/b", false));
    assert!(!canonical_paths_equal("/a/B", "/a/b", false));
    assert!(canonical_paths_equal("C:\\Data\\History.sqlite3", "c:\\data\\history.SQLITE3", true));
    assert!(!canonical_paths_equal("C:\\a", "C:\\b", true));
}

#[test]
fn restore_staging_names_are_recognised_with_their_side_files() {
    let token = "0123456789abcdef".repeat(4);
    let main = format!(".quickpaste-restore-{token}.sqlite3");
    assert_eq!(restore_staging_main_name(&main), Some(main.clone()));
    assert_eq!(restore_staging_main_name(&format!("{main}-wal")), Some(main.clone()));
    assert_eq!(restore_staging_main_name(&format!("{main}-journal")), Some(main.clone()));
    assert_eq!(restore_staging_main_name(&format!("{main}-wal-shm")), None);
    assert_eq!(
        restore_staging_main_name(&format!(".quickpaste-restore-{}.sqlite3", "X".repeat(64))),
        None
    );
    assert_eq!(restore_staging_main_name("history.sqlite3"), None);
    assert_eq!(restore_staging_main_name(".quickpaste-restore-.sqlite3"), None);
}

#[test]
fn health_constructors_and_classification() {
    assert!(matches!(HistoryHealth::healthy().state(), HistoryHealthState::Healthy));
    let recovered = HistoryHealth::recovered(RecoveryReason::Corrupt, "/q".into());
    match recovered.duplicate().state() {
        HistoryHealthState::Recovered {
            reason,
            quarantine_path,
        } => {
            assert_eq!(*reason, RecoveryReason::Corrupt);
            assert_eq!(quarantine_path, "/q");
        }
        _ => panic!("expected recovered"),
    }
    assert!(matches!(
        HistoryHealth::read_only(HistoryReadOnlyReason::Busy).state(),
        HistoryHealthState::ReadOnly {
            reason: HistoryReadOnlyReason::Busy
        }
    ));
    assert!(matches!(
        HistoryHealth::fresh_database_failed(RecoveryReason::NotADatabase, "/q".into()).state(),
        HistoryHealthState::FreshDatabaseFailed {
            recovery_reason: RecoveryReason::NotADatabase,
            ..
        }
    ));
    let notice = RecoveryNotice {
        format_version: 1,
        phase: RecoveryNoticePhase::Recovered,
        reason: RecoveryReason::NotADatabase,
        quarantine_path: "/data/history-recovery-1".into(),
    };
    assert!(matches!(
        health_from_recovery_notice(&notice).state(),
        HistoryHealthState::Recovered {
            reason: RecoveryReason::NotADatabase,
            ..
        }
    ));
    assert_eq!(
        classify_sqlite_primary_code(11),
        HistoryOpenFailure::ConfirmedCorruption(RecoveryReason::Corrupt)
    );
    assert_eq!(
        classify_sqlite_primary_code(26),
        HistoryOpenFailure::ConfirmedCorruption(RecoveryReason::NotADatabase)
    );
    assert_eq!(
        classify_sqlite_primary_code(5 | (2 << 8)),
        HistoryOpenFailure::ReadOnly(HistoryReadOnlyReason::Busy)
    );
    assert_eq!(
        classify_sqlite_primary_code(23),
        HistoryOpenFailure::ReadOnly(HistoryReadOnlyReason::PermissionDenied)
    );
    assert_eq!(
        classify_sqlite_primary_code(13),
        HistoryOpenFailure::ReadOnly(HistoryReadOnlyReason::DiskFull)
    );
    assert_eq!(
        classify_sqlite_primary_code(14),
        HistoryOpenFailure::ReadOnly(HistoryReadOnlyReason::Io)
    );
    assert_eq!(
        classify_sqlite_primary_code(1),
        HistoryOpenFailure::ReadOnly(HistoryReadOnlyReason::Unknown)
    );
    assert_eq!(
        classify_sqlite_error(None),
        HistoryOpenFailure::ReadOnly(HistoryReadOnlyReason::Unknown)
    );
    assert!(contract_check_keeps_sqlite(Some(10 | (1 << 8))));
    assert!(!contract_check_keeps_sqlite(Some(1)));
    assert!(!contract_check_keeps_sqlite(None));
    let contract = HistoryInitializationFailure::Contract("bad schema".into());
    assert_eq!(
        contract.open_failure(),
        HistoryOpenFailure::ReadOnly(HistoryReadOnlyReason::Incompatible)
    );
    assert_eq!(contract.message(), "bad schema");
    assert_eq!(
        classify_io_error(&IoFailure {
            permission_denied: true,
            raw_os_error: Some(112)
        }),
        HistoryReadOnlyReason::PermissionDenied
    );
    assert_eq!(
        classify_io_error(&IoFailure {
            permission_denied: false,
            raw_os_error: Some(39)
        }),
        HistoryReadOnlyReason::DiskFull
    );
    assert_eq!(
        classify_io_error(&IoFailure {
            permission_denied: false,
            raw_os_error: Some(2)
        }),
        HistoryReadOnlyReason::Io
    );
}

fn run(events: Vec<OpenEvent>) -> Vec<OpenAction> {
    let (mut phase, first) = open_with_recovery_start();
    let mut actions = vec![first];
    for event in events {
        assert!(open_accepts(&phase, &event));
        let (next, action) = open_with_recovery_step(phase, event);
        phase = next;
        actions.push(action);
    }
    actions
}

fn finish(action: &OpenAction) -> (bool, &HistoryHealthState) {
    match action {
        OpenAction::Finish { usable, health } => (*usable, health),
        other => panic!("expected finish, got {other:?}"),
    }
}

fn notice(phase: RecoveryNoticePhase) -> RecoveryNotice {
    RecoveryNotice {
        format_version: 1,
        phase,
        reason: RecoveryReason::Corrupt,
        quarantine_path: "/data/history-recovery-x".into(),
    }
}

#[test]
fn healthy_open_and_busy_open_never_quarantine() {
    let actions = run(vec![
        OpenEvent::DirectoryCreated { result: Ok(()) },
        OpenEvent::LiveFileChecked { result: Ok(true) },
        OpenEvent::NoticeMissing,
        OpenEvent::DatabaseOpened { result: Ok(()) },
    ]);
    assert!(matches!(actions[1], OpenAction::CheckLiveFile));
    assert!(matches!(actions[2], OpenAction::LoadNotice));
    assert!(matches!(actions[3], OpenAction::OpenDatabase));
    assert!(matches!(finish(&actions[4]), (true, HistoryHealthState::Healthy)));
    let busy = run(vec![
        OpenEvent::DirectoryCreated { result: Ok(()) },
        OpenEvent::LiveFileChecked { result: Ok(true) },
        OpenEvent::NoticeMissing,
        OpenEvent::DatabaseOpened {
            result: Err(HistoryOpenFailure::ReadOnly(HistoryReadOnlyReason::Busy)),
        },
    ]);
    assert!(matches!(
        finish(&busy[4]),
        (false, HistoryHealthState::ReadOnly { reason: HistoryReadOnlyReason::Busy })
    ));
    let no_directory = run(vec![OpenEvent::DirectoryCreated {
        result: Err(IoFailure {
            permission_denied: true,
            raw_os_error: None,
        }),
    }]);
    assert!(matches!(
        finish(&no_directory[1]),
        (false, HistoryHealthState::ReadOnly { reason: HistoryReadOnlyReason::PermissionDenied })
    ));
}

#[test]
fn confirmed_corruption_is_quarantined_and_recovered() {
    let actions = run(vec![
        OpenEvent::DirectoryCreated { result: Ok(()) },
        OpenEvent::LiveFileChecked { result: Ok(true) },
        OpenEvent::NoticeMissing,
        OpenEvent::DatabaseOpened {
            result: Err(HistoryOpenFailure::ConfirmedCorruption(RecoveryReason::NotADatabase)),
        },
        OpenEvent::Quarantined {
            path: Some("/data/history-recovery-1".into()),
        },
        OpenEvent::FreshCreated { ok: true },
        OpenEvent::NoticeWritten { ok: true },
    ]);
    assert!(matches!(
        actions[4],
        OpenAction::QuarantineDatabase {
            reason: RecoveryReason::NotADatabase
        }
    ));
    assert!(matches!(actions[5], OpenAction::CreateFreshDatabase));
    match &actions[6] {
        OpenAction::WriteNotice { notice } => {
            assert_eq!(notice.phase, RecoveryNoticePhase::Recovered);
            assert_eq!(notice.quarantine_path, "/data/history-recovery-1");
        }
        other => panic!("unexpected {other:?}"),
    }
    match finish(&actions[7]) {
        (true, HistoryHealthState::Recovered { quarantine_path, .. }) => {
            assert_eq!(quarantine_path, "/data/history-recovery-1")
        }
        other => panic!("unexpected {other:?}"),
    }
    let fresh_failed = run(vec![
        OpenEvent::DirectoryCreated { result: Ok(()) },
        OpenEvent::LiveFileChecked { result: Ok(true) },
        OpenEvent::NoticeMissing,
        OpenEvent::DatabaseOpened {
            result: Err(HistoryOpenFailure::ConfirmedCorruption(RecoveryReason::Corrupt)),
        },
        OpenEvent::Quarantined {
            path: Some("/q".into()),
        },
        OpenEvent::FreshCreated { ok: false },
    ]);
    match finish(&fresh_failed[6]) {
        (false, HistoryHealthState::FreshDatabaseFailed { quarantine_path, recovery_reason }) => {
            assert_eq!(quarantine_path, "/q");
            assert_eq!(*recovery_reason, RecoveryReason::Corrupt);
        }
        other => panic!("unexpected {other:?}"),
    }
    let quarantine_failed = run(vec![
        OpenEvent::DirectoryCreated { result: Ok(()) },
        OpenEvent::LiveFileChecked { result: Ok(true) },
        OpenEvent::NoticeMissing,
        OpenEvent::DatabaseOpened {
            result: Err(HistoryOpenFailure::ConfirmedCorruption(RecoveryReason::Corrupt)),
        },
        OpenEvent::Quarantined { path: None },
    ]);
    assert!(matches!(
        finish(&quarantine_failed[5]),
        (false, HistoryHealthState::ReadOnly { reason: HistoryReadOnlyReason::QuarantineFailed })
    ));
}

#[test]
fn notices_drive_recovery_after_a_restart() {
    let unreadable = run(vec![
        OpenEvent::DirectoryCreated { result: Ok(()) },
        OpenEvent::LiveFileChecked { result: Ok(true) },
        OpenEvent::NoticeUnreadable,
    ]);
    assert!(matches!(
        finish(&unreadable[3]),
        (false, HistoryHealthState::ReadOnly { reason: HistoryReadOnlyReason::QuarantineFailed })
    ));
    let stale = run(vec![
        OpenEvent::DirectoryCreated { result: Ok(()) },
        OpenEvent::LiveFileChecked { result: Ok(true) },
        OpenEvent::NoticeFound {
            notice: notice(RecoveryNoticePhase::Recovered),
        },
        OpenEvent::QuarantineChecked { present: Some(false) },
        OpenEvent::DatabaseOpened { result: Ok(()) },
        OpenEvent::NoticeRemoved {
            outcome: RemovalOutcome::NotFound,
        },
    ]);
    assert!(matches!(stale[3], OpenAction::CheckRecoveredQuarantine { .. }));
    assert!(matches!(stale[5], OpenAction::RemoveNoticeFile));
    assert!(matches!(finish(&stale[6]), (true, HistoryHealthState::Healthy)));
    let incomplete = run(vec![
        OpenEvent::DirectoryCreated { result: Ok(()) },
        OpenEvent::LiveFileChecked { result: Ok(false) },
        OpenEvent::NoticeFound {
            notice: notice(RecoveryNoticePhase::Pending),
        },
        OpenEvent::NoticeReconciled {
            notice: Some(notice(RecoveryNoticePhase::Quarantined)),
        },
        OpenEvent::DatabaseOpened {
            result: Err(HistoryOpenFailure::ConfirmedCorruption(RecoveryReason::Corrupt)),
        },
    ]);
    assert!(matches!(incomplete[3], OpenAction::ReconcileNotice { .. }));
    match finish(&incomplete[5]) {
        (false, HistoryHealthState::FreshDatabaseFailed { quarantine_path, .. }) => {
            assert_eq!(quarantine_path, "/data/history-recovery-x")
        }
        other => panic!("unexpected {other:?}"),
    }
    let missing_fresh = run(vec![
        OpenEvent::DirectoryCreated { result: Ok(()) },
        OpenEvent::LiveFileChecked { result: Ok(false) },
        OpenEvent::NoticeFound {
            notice: notice(RecoveryNoticePhase::Recovered),
        },
        OpenEvent::NoticeReconciled {
            notice: Some(notice(RecoveryNoticePhase::Recovered)),
        },
        OpenEvent::LiveFileChecked { result: Ok(false) },
    ]);
    assert!(matches!(missing_fresh[4], OpenAction::CheckLiveFile));
    assert!(matches!(
        finish(&missing_fresh[5]),
        (false, HistoryHealthState::FreshDatabaseFailed { .. })
    ));
    let completes = run(vec![
        OpenEvent::DirectoryCreated { result: Ok(()) },
        OpenEvent::LiveFileChecked { result: Ok(true) },
        OpenEvent::NoticeFound {
            notice: notice(RecoveryNoticePhase::Quarantined),
        },
        OpenEvent::NoticeReconciled {
            notice: Some(notice(RecoveryNoticePhase::Quarantined)),
        },
        OpenEvent::DatabaseOpened { result: Ok(()) },
        OpenEvent::NoticeWritten { ok: true },
    ]);
    assert!(matches!(completes[5], OpenAction::WriteNotice { .. }));
    assert!(matches!(
        finish(&completes[6]),
        (true, HistoryHealthState::Recovered { .. })
    ));
    let (phase, _) = open_with_recovery_start();
    assert!(!open_accepts(&phase, &OpenEvent::NoticeMissing));
}

#[test]
fn reconciling_an_interrupted_quarantine() {
    assert_eq!(
        reconcile_file(true, true, true).unwrap_err(),
        "历史数据库隔离状态冲突"
    );
    assert_eq!(
        reconcile_file(true, false, false).unwrap_err(),
        "历史数据库隔离主文件缺失"
    );
    assert_eq!(reconcile_file(true, true, false).expect("move"), ReconcileMove::MoveIntoQuarantine);
    assert_eq!(reconcile_file(false, false, true).expect("check"), ReconcileMove::CheckQuarantined);
    assert_eq!(reconcile_file(false, false, false).expect("none"), ReconcileMove::Nothing);
    let pending = notice(RecoveryNoticePhase::Pending);
    assert_eq!(reconciled_notice(&pending).phase, RecoveryNoticePhase::Quarantined);
    let recovered = notice(RecoveryNoticePhase::Recovered);
    assert_eq!(reconciled_notice(&recovered).phase, RecoveryNoticePhase::Recovered);
    assert!(recovery_directory_name_is_owned("history-recovery-20260701T000000000Z-1"));
    assert!(!recovery_directory_name_is_owned("history-recover"));
    assert!(!recovery_directory_name_is_owned("other"));
}

fn plan() -> QuarantinePlan {
    QuarantinePlan {
        reason: RecoveryReason::Corrupt,
        quarantine_path: "/data/history-recovery-1".into(),
        sources: vec![
            "/data/history.sqlite3".into(),
            "/data/history.sqlite3-wal".into(),
            "/data/history.sqlite3-shm".into(),
        ],
        destinations: vec![
            "/data/history-recovery-1/history.sqlite3".into(),
            "/data/history-recovery-1/history.sqlite3-wal".into(),
            "/data/history-recovery-1/history.sqlite3-shm".into(),
        ],
    }
}

fn quarantine_run(events: Vec<QuarantineEvent>) -> Vec<QuarantineAction> {
    let plan = plan();
    let (mut phase, first) = quarantine_start(&plan);
    let mut actions = vec![first];
    for event in events {
        let (next, action): (QuarantinePhase, QuarantineAction) = quarantine_step(&plan, phase, event);
        phase = next;
        actions.push(action);
    }
    actions
}

#[test]
fn quarantine_moves_every_file_then_publishes() {
    let actions = quarantine_run(vec![
        QuarantineEvent::NoticePublished { ok: true },
        QuarantineEvent::FileMoved { ok: true },
        QuarantineEvent::FileMoved { ok: true },
        QuarantineEvent::FileMoved { ok: true },
        QuarantineEvent::NoticePublished { ok: true },
    ]);
    match &actions[0] {
        QuarantineAction::PublishNotice { notice } => {
            assert_eq!(notice.phase, RecoveryNoticePhase::Pending)
        }
        other => panic!("unexpected {other:?}"),
    }
    match &actions[3] {
        QuarantineAction::MoveFile { source, destination } => {
            assert_eq!(source, "/data/history.sqlite3-shm");
            assert_eq!(destination, "/data/history-recovery-1/history.sqlite3-shm");
        }
        other => panic!("unexpected {other:?}"),
    }
    match &actions[5] {
        QuarantineAction::Finish { result } => {
            assert_eq!(result.as_deref(), Ok("/data/history-recovery-1"))
        }
        other => panic!("unexpected {other:?}"),
    }
}

#[test]
fn a_failed_move_rolls_back_every_moved_file_newest_first() {
    let actions = quarantine_run(vec![
        QuarantineEvent::NoticePublished { ok: true },
        QuarantineEvent::FileMoved { ok: true },
        QuarantineEvent::FileMoved { ok: true },
        QuarantineEvent::FileMoved { ok: false },
        QuarantineEvent::RolledBack { complete: true },
        QuarantineEvent::NoticeRemoved {
            outcome: RemovalOutcome::Removed,
        },
        QuarantineEvent::DirectoryRemoved,
    ]);
    match &actions[4] {
        QuarantineAction::RollBack { moves } => assert_eq!(
            moves,
            &vec![
                (
                    "/data/history-recovery-1/history.sqlite3-wal".to_owned(),
                    "/data/history.sqlite3-wal".to_owned()
                ),
                (
                    "/data/history-recovery-1/history.sqlite3".to_owned(),
                    "/data/history.sqlite3".to_owned()
                ),
            ]
        ),
        other => panic!("unexpected {other:?}"),
    }
    match &actions[7] {
        QuarantineAction::Finish { result } => {
            assert_eq!(result, &Err::<String, String>("无法隔离历史数据库文件".to_owned()))
        }
        other => panic!("unexpected {other:?}"),
    }
    let incomplete = quarantine_run(vec![
        QuarantineEvent::NoticePublished { ok: true },
        QuarantineEvent::FileMoved { ok: true },
        QuarantineEvent::FileMoved { ok: true },
        QuarantineEvent::FileMoved { ok: true },
        QuarantineEvent::NoticePublished { ok: false },
        QuarantineEvent::RolledBack { complete: false },
    ]);
    match &incomplete[5] {
        QuarantineAction::RollBack { moves } => assert_eq!(moves.len(), 3),
        other => panic!("unexpected {other:?}"),
    }
    match &incomplete[6] {
        QuarantineAction::Finish { result } => assert_eq!(
            result,
            &Err::<String, String>("恢复通知失败且无法完整回滚隔离文件".to_owned())
        ),
        other => panic!("unexpected {other:?}"),
    }
    let intent_failed = quarantine_run(vec![
        QuarantineEvent::NoticePublished { ok: false },
        QuarantineEvent::DirectoryRemoved,
    ]);
    assert!(matches!(intent_failed[1], QuarantineAction::RemoveDirectory));
    match &intent_failed[2] {
        QuarantineAction::Finish { result } => {
            assert_eq!(result, &Err::<String, String>("无法持久化历史数据库隔离意图".to_owned()))
        }
        other => panic!("unexpected {other:?}"),
    }
}

fn prepared(path: &str) -> PreparedHistoryRestore {
    PreparedHistoryRestore {
        staging: OwnedTemporaryFile::new(path.into()),
        current_count: 1,
        incoming_count: 2,
        schema_version: 11,
        captured_revision: 5,
    }
}

#[test]
fn restore_tokens_are_one_use_and_expire() {
    let mut registry = RestoreRegistry::new();
    registry.insert("t1".into(), prepared("/s/1"), 1_000);
    registry.insert("t2".into(), prepared("/s/2"), 5_000);
    assert!(registry.contains("t1"));
    assert_eq!(registry.len(), 2);
    let taken = registry.take("t1").expect("first use");
    assert_eq!(taken.expires_at, 1_000);
    assert_eq!(taken.prepared.staging.path(), "/s/1");
    assert!(registry.take("t1").is_none());
    assert!(!registry.contains("t1"));
    registry.insert("t3".into(), prepared("/s/3"), 2_000);
    let expired = registry.take_expired(2_000);
    assert_eq!(
        expired.iter().map(|(token, _)| token.as_str()).collect::<Vec<_>>(),
        vec!["t3"]
    );
    assert!(registry.contains("t2"));
    let all = registry.take_all();
    assert_eq!(all.len(), 1);
    assert_eq!(registry.len(), 0);
    assert!(!registry.is_pending("/s/2"));
    registry.retain_pending_cleanup(OwnedTemporaryFile::new("/s/2".into()));
    assert!(registry.is_pending("/s/2"));
    let pending = registry.take_pending_cleanup();
    assert_eq!(pending.len(), 1);
    assert!(!registry.is_pending("/s/2"));

    for path in ["/s/c", "/s/a", "/s/b"] {
        registry.retain_pending_cleanup(OwnedTemporaryFile::new(path.into()));
    }
    let pending = registry.take_pending_cleanup();
    assert_eq!(
        pending.iter().map(|file| file.path()).collect::<Vec<_>>(),
        vec!["/s/a", "/s/b", "/s/c"]
    );
}

#[test]
fn policies_defaults_and_settings_rows() {
    assert_eq!(default_max_records(), 10_000);
    assert!(default_payload_loaded());
    assert_eq!(default_max_image_bytes(), 256 * 1024 * 1024);
    let policy = CapacityPolicy::default();
    assert_eq!(policy.max_records, 10_000);
    assert_eq!(policy.retention_days, None);
    assert_eq!(
        history_settings_row(&CapacityPolicy {
            max_records: 9_007_199_254_740_991,
            max_image_bytes: 1,
            retention_days: Some(730_000),
        })
        .expect("maximums"),
        (9_007_199_254_740_991, 1, Some(730_000))
    );
    assert_eq!(
        history_settings_row(&CapacityPolicy {
            max_records: 9_007_199_254_740_992,
            max_image_bytes: 1,
            retention_days: None,
        })
        .unwrap_err(),
        "历史存储策略超出前端安全整数范围"
    );
    assert_eq!(
        history_settings_row(&CapacityPolicy {
            max_records: 1,
            max_image_bytes: 1,
            retention_days: Some(730_001),
        })
        .unwrap_err(),
        "保留天数超出支持范围"
    );
}

fn stats() -> StorageStats {
    StorageStats {
        database_bytes: 1,
        wal_bytes: 0,
        shm_bytes: 0,
        total_physical_bytes: 1,
        record_count: 0,
        pinned_count: 0,
        permanent_count: 0,
        image_bytes: 0,
        rich_format_bytes: 0,
        file_record_count: 0,
        logical_bytes: 0,
        oldest_copied_at: None,
        newest_copied_at: None,
        max_records: 10_000,
        max_image_bytes: 1,
        retention_days: Some(30),
    }
}

#[test]
fn storage_stats_must_be_safe_integers() {
    assert!(validate_storage_stats(&stats()).is_ok());
    let mut big = stats();
    big.logical_bytes = 9_007_199_254_740_992;
    assert_eq!(
        validate_storage_stats(&big).unwrap_err(),
        "历史存储统计超出前端安全整数范围"
    );
    let mut negative = stats();
    negative.retention_days = Some(-1);
    assert_eq!(
        validate_storage_stats(&negative).unwrap_err(),
        "历史存储策略超出前端安全整数范围"
    );
}

fn object(fields: Vec<(&str, JsonValue)>) -> JsonValue {
    JsonValue::Object(
        fields
            .into_iter()
            .map(|(key, value)| (key.to_owned(), value))
            .collect(),
    )
}

fn text(value: &str) -> JsonValue {
    JsonValue::Text(value.into())
}

#[test]
fn legacy_rows_fill_defaults_from_their_payload() {
    let row = LegacyRow {
        id: "row-1".into(),
        payload: Ok(object(vec![
            ("content", text("这是一段超过三十六个字符的旧版剪贴板正文内容，用于验证标题截断行为是否正确")),
            ("formats", JsonValue::Array(vec![text("text"), JsonValue::Number, text("html")])),
            ("pinned", JsonValue::Bool(true)),
            ("html", text("<p>x</p>")),
            ("searchTerms", JsonValue::Array(vec![text("a"), JsonValue::Null])),
        ])),
        image_mime: None,
        image_data: None,
        files: None,
        omitted_formats: Some(Ok(vec![ClipboardFormat::Rtf])),
    };
    let item = history_item_from_legacy(row).expect("legacy item");
    assert_eq!(item.id, "row-1");
    assert_eq!(item.kind, "text");
    assert_eq!(item.title.chars().count(), 36);
    assert_eq!(item.copied_at, "1970-01-01T00:00:00.000Z");
    assert_eq!(item.updated_at, "1970-01-01T00:00:00.000Z");
    assert!(item.pinned);
    assert!(!item.permanent);
    assert_eq!(item.formats, vec!["text", "html"]);
    assert_eq!(item.search_terms, vec!["a"]);
    assert_eq!(item.omitted_formats, vec![ClipboardFormat::Rtf]);
    assert!(item.payload_loaded);

    let image_row = LegacyRow {
        id: "row-2".into(),
        payload: Ok(object(vec![
            ("content", text("")),
            ("id", text("clip-2")),
            ("copiedAt", text("2026-07-01T00:00:00.000Z")),
        ])),
        image_mime: Some("image/jpeg".into()),
        image_data: Some(vec![1, 2, 3]),
        files: Some(Ok(vec![ClipboardFile {
            path: "p".into(),
            name: "n".into(),
            extension: None,
            size: None,
            modified_at: None,
            directory: false,
            exists: true,
        }])),
        omitted_formats: None,
    };
    let image = history_item_from_legacy(image_row).expect("image row");
    assert_eq!(image.id, "clip-2");
    assert_eq!(image.kind, "image");
    assert_eq!(image.formats, vec!["image"]);
    assert_eq!(image.image_url.as_deref(), Some("data:image/jpeg;base64,AQID"));
    assert_eq!(image.files.len(), 1);
    assert_eq!(image.title, "");

    let not_object = LegacyRow {
        id: "r".into(),
        payload: Ok(JsonValue::Array(Vec::new())),
        image_mime: None,
        image_data: None,
        files: None,
        omitted_formats: None,
    };
    assert_eq!(
        history_item_from_legacy(not_object).unwrap_err(),
        "legacy 剪贴板记录 r 不是对象"
    );
    let no_content = LegacyRow {
        id: "r".into(),
        payload: Ok(object(vec![("title", text("t"))])),
        image_mime: None,
        image_data: None,
        files: None,
        omitted_formats: None,
    };
    assert_eq!(
        history_item_from_legacy(no_content).unwrap_err(),
        "legacy 剪贴板记录 r 缺少 content"
    );
    let unreadable = LegacyRow {
        id: "r".into(),
        payload: Err("expected value".into()),
        image_mime: None,
        image_data: None,
        files: None,
        omitted_formats: None,
    };
    assert_eq!(
        history_item_from_legacy(unreadable).unwrap_err(),
        "无法读取 legacy 剪贴板记录 r: expected value"
    );
    let bad_files = LegacyRow {
        id: "r".into(),
        payload: Ok(object(vec![("content", text("x"))])),
        image_mime: None,
        image_data: None,
        files: Some(Err("missing field `path`".into())),
        omitted_formats: Some(Err("ignored".into())),
    };
    assert_eq!(
        history_item_from_legacy(bad_files).unwrap_err(),
        "无法读取 legacy 文件记录 r: missing field `path`"
    );
}
